use std::collections::HashSet;

use vstd::prelude::*;

use crate::anilist::AniListMedia;

verus! {

broadcast use vstd::std_specs::hash::group_hash_axioms;

/// The media entries fetched so far for one year, each id at most once.
#[derive(Debug)]
pub struct DumpedMediaList {
    pub media_list: Vec<AniListMedia>,
    pub set: HashSet<i32>,
}

impl DumpedMediaList {
    /// `set` holds exactly the ids of `media_list`, and no id occurs twice.
    pub open spec fn wf(&self) -> bool {
        &&& forall|i: int|
            0 <= i < self.media_list@.len() ==> self.set@.contains(#[trigger] self.media_list@[i].id)
        &&& forall|id: i32|
            #[trigger] self.set@.contains(id) ==> exists|i: int|
                0 <= i < self.media_list@.len() && #[trigger] self.media_list@[i].id == id
        &&& forall|i: int, k: int|
            #![trigger self.media_list@[i], self.media_list@[k]]
            0 <= i < k < self.media_list@.len() ==> self.media_list@[i].id != self.media_list@[k].id
    }

    pub fn new() -> (r: Self)
        ensures
            r.wf(),
            r.media_list@.len() == 0,
    {
        DumpedMediaList { media_list: Vec::new(), set: HashSet::new() }
    }

    /// Appends `media` unless an entry with its id is there already.
    pub fn add_media(&mut self, media: AniListMedia)
        requires
            old(self).wf(),
        ensures
            final(self).wf(),
            old(self).set@.contains(media.id) ==> final(self).media_list@ == old(self).media_list@
                && final(self).set@ == old(self).set@,
            !old(self).set@.contains(media.id) ==> final(self).media_list@
                == old(self).media_list@.push(media) && final(self).set@ == old(self).set@.insert(
                media.id,
            ),
    {
        if self.set.contains(&media.id) {
            return;
        }
        let ghost id = media.id;
        let ghost old_list = self.media_list@;
        self.set.insert(media.id);
        self.media_list.push(media);
        assert forall|x: i32| #[trigger] self.set@.contains(x) implies exists|i: int|
            0 <= i < self.media_list@.len() && #[trigger] self.media_list@[i].id == x by {
            if x == id {
                assert(self.media_list@[old_list.len() as int].id == x);
            } else {
                let i = choose|i: int| 0 <= i < old_list.len() && #[trigger] old_list[i].id == x;
                assert(self.media_list@[i] == old_list[i]);
            }
        }
        assert forall|i: int, k: int|
            #![trigger self.media_list@[i], self.media_list@[k]]
            0 <= i < k < self.media_list@.len() implies self.media_list@[i].id != self.media_list@[k].id by {
            if k == old_list.len() {
                assert(self.media_list@[i] == old_list[i]);
                assert(old(self).set@.contains(old_list[i].id));
            } else {
                assert(self.media_list@[i] == old_list[i]);
                assert(self.media_list@[k] == old_list[k]);
            }
        }
        assert forall|i: int| 0 <= i < self.media_list@.len() implies self.set@.contains(#[trigger] self.media_list@[i].id) by {
            if i < old_list.len() {
                assert(self.media_list@[i] == old_list[i]);
            }
        }
    }
}

} // verus!
