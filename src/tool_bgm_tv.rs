use vstd::prelude::*;

verus! {

/// The arguments of a Bangumi search.
#[derive(Debug)]
pub struct BgmTVSearchArgs {
    pub query: String,
    pub start_date: Option<String>,
    pub end_date: Option<String>,
}

#[derive(Debug, Clone, Copy, PartialEq, Eq, Structural)]
pub struct Pagination {
    pub total: i32,
    pub limit: i32,
    pub offset: i32,
}

#[derive(Debug)]
pub struct PageResponse<T> {
    pub pagination: Pagination,
    pub data: Vec<T>,
}

/// A calendar date.
#[derive(Debug, Clone, Copy, PartialEq, Eq, Structural)]
pub struct Date {
    pub year: i32,
    pub month: u32,
    pub day: u32,
}

/// One subject of a Bangumi search result.
#[derive(Debug)]
pub struct Subject {
    pub id: i32,
    pub subject_type: i32,
    pub name: String,
    pub name_cn: Option<String>,
    pub series: bool,
    pub date: Option<Date>,
    pub eps: i32,
    pub total_episodes: i32,
    pub infobox: Vec<InfoboxItem>,
}

#[derive(Debug)]
pub struct InfoboxItem {
    pub key: String,
    pub value: InfoboxValue,
}

#[derive(Debug)]
pub enum InfoboxValue {
    String(String),
    Array(Vec<InfoboxArrayItem>),
}

impl InfoboxValue {
    /// An empty string.
    pub fn empty() -> (r: Self)
        ensures
            r is String && r->String_0@ == Seq::<char>::empty(),
    {
        InfoboxValue::String(String::new())
    }
}

#[derive(Debug)]
pub struct InfoboxArrayItem {
    pub v: String,
}

#[derive(Debug)]
pub struct BgmTVError {
    pub message: String,
}

impl BgmTVError {
    pub fn new(message: String) -> (r: Self)
        ensures
            r.message == message,
    {
        BgmTVError { message }
    }
}

/// The infobox keys that name a subject: its Chinese name, its aliases and its
/// English name.
pub open spec fn is_title_key(key: Seq<char>) -> bool {
    key == "中文名"@ || key == "别名"@ || key == "英文名"@
}

pub open spec fn title_items(s: Seq<InfoboxItem>) -> Seq<InfoboxItem>
    decreases s.len(),
{
    if s.len() == 0 {
        Seq::empty()
    } else if is_title_key(s.last().key@) {
        title_items(s.drop_last()).push(s.last())
    } else {
        title_items(s.drop_last())
    }
}

fn title_key(key: &String) -> (r: bool)
    ensures
        r == is_title_key(key@),
{
    let cn = String::from_str("中文名");
    let alias = String::from_str("别名");
    let en = String::from_str("英文名");
    *key == cn || *key == alias || *key == en
}

/// Keeps, in order, only the infobox items that name the subject.
pub fn retain_title_items(items: &mut Vec<InfoboxItem>)
    ensures
        final(items)@ == title_items(old(items)@),
{
    let ghost orig = items@;
    let n = items.len();
    let mut kept: Vec<InfoboxItem> = Vec::new();
    let mut i: usize = 0;
    while i < n
        invariant
            n == orig.len(),
            i <= n,
            items@ == orig.skip(i as int),
            kept@ == title_items(orig.take(i as int)),
        decreases n - i,
    {
        assert(orig.take(i + 1).drop_last() =~= orig.take(i as int));
        assert(items@[0] == orig[i as int]);
        let item = items.remove(0);
        assert(items@ =~= orig.skip(i + 1));
        if title_key(&item.key) {
            kept.push(item);
        }
        i = i + 1;
    }
    assert(orig.take(n as int) =~= orig);
    *items = kept;
}

/// Keeps only the naming infobox items of every subject of a search result.
pub fn retain_subject_titles(subjects: &mut Vec<Subject>)
    ensures
        final(subjects)@.len() == old(subjects)@.len(),
        forall|i: int|
            0 <= i < old(subjects)@.len() ==> {
                let a = old(subjects)@[i];
                let b = #[trigger] final(subjects)@[i];
                &&& b.infobox@ == title_items(a.infobox@)
                &&& b.id == a.id && b.subject_type == a.subject_type && b.name == a.name
                &&& b.name_cn == a.name_cn && b.series == a.series && b.date == a.date
                &&& b.eps == a.eps && b.total_episodes == a.total_episodes
            },
{
    let n = subjects.len();
    let mut i: usize = 0;
    while i < n
        invariant
            n == old(subjects)@.len(),
            subjects@.len() == n,
            i <= n,
            forall|k: int| i <= k < n ==> #[trigger] subjects@[k] == old(subjects)@[k],
            forall|k: int|
                0 <= k < i ==> {
                    let a = old(subjects)@[k];
                    let b = #[trigger] subjects@[k];
                    &&& b.infobox@ == title_items(a.infobox@)
                    &&& b.id == a.id && b.subject_type == a.subject_type && b.name == a.name
                    &&& b.name_cn == a.name_cn && b.series == a.series && b.date == a.date
                    &&& b.eps == a.eps && b.total_episodes == a.total_episodes
                },
        decreases n - i,
    {
        retain_title_items(&mut subjects[i].infobox);
        i = i + 1;
    }
}

} // verus!
