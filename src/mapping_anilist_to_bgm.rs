use std::collections::HashMap;

use vstd::prelude::*;

verus! {

broadcast use vstd::std_specs::hash::group_hash_axioms;

/// The Bangumi id found for one AniList entry, if any.
#[derive(Debug, Clone, Copy, PartialEq, Eq, Structural)]
pub struct MappingItem {
    pub anilist_id: i32,
    pub bgm_id: Option<i32>,
}

/// The Bangumi mappings of one year, by AniList id.
#[derive(Debug)]
pub struct AnimeMappings {
    pub mappings: HashMap<i32, MappingItem>,
}

impl AnimeMappings {
    pub fn new() -> (r: Self)
        ensures
            r.mappings@ == Map::<i32, MappingItem>::empty(),
    {
        AnimeMappings { mappings: HashMap::new() }
    }

    /// Stores the mapping of `anilist_id`, replacing any earlier one.
    pub fn add_mapping(&mut self, anilist_id: i32, bgm_id: Option<i32>)
        ensures
            final(self).mappings@ == old(self).mappings@.insert(
                anilist_id,
                MappingItem { anilist_id, bgm_id },
            ),
    {
        self.mappings.insert(anilist_id, MappingItem { anilist_id, bgm_id });
    }

    pub fn get_mapping(&self, anilist_id: i32) -> (r: Option<&MappingItem>)
        ensures
            match r {
                Some(m) => self.mappings@.contains_key(anilist_id) && *m == self.mappings@[anilist_id],
                None => !self.mappings@.contains_key(anilist_id),
            },
    {
        self.mappings.get(&anilist_id)
    }

    /// Whether `anilist_id` is still to be matched: only an entry never
    /// attempted is.
    pub fn is_pending(&self, anilist_id: i32) -> (r: bool)
        ensures
            r == !self.mappings@.contains_key(anilist_id),
    {
        self.get_mapping(anilist_id).is_none()
    }
}

} // verus!
