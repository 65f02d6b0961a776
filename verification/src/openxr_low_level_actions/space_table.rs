//! The table of the tracking spaces of one pose action.
//!
//! The table is bevy's hash map (`bevy::utils::HashMap`, which is
//! hashbrown's map with bevy's hasher), keyed by `openxr::Path`. Verus does
//! not read hashbrown. So what the table holds is given a name,
//! [`space_table_contents`], and each operation on the table is a small
//! function whose contract says, over that name, what hashbrown's
//! documentation says of the method that it calls. These contracts are
//! believed, not proved: everything that is proved of pose actions rests on
//! them.

use vstd::prelude::*;

verus! {

/// The tracking spaces of one pose action, by input path.
#[verifier::external_body]
pub struct SuisOxrSpaceTable {
    map: bevy::utils::HashMap<openxr::Path, u64>,
}

/// What the table holds: the space under each path, both as the raw
/// 64-bit handles of the runtime.
pub uninterp spec fn space_table_contents(table: SuisOxrSpaceTable) -> Map<u64, u64>;

/// `handles` holds the space of every path of `table`, once per path, in some order.
pub open spec fn drained(table: Map<u64, u64>, handles: Seq<u64>) -> bool {
    exists|paths: Seq<u64>|
        #![trigger paths.no_duplicates()]
        paths.no_duplicates() && paths.to_set() == table.dom() && handles == paths.map_values(
            |p: u64| table[p],
        )
}

impl SuisOxrSpaceTable {
    /// Calls `HashMap::default`, which makes an empty map.
    #[verifier::external_body]
    pub(crate) fn new() -> (r: Self)
        ensures
            space_table_contents(r) == (Map::<u64, u64>::empty()),
    {
        SuisOxrSpaceTable { map: bevy::utils::HashMap::default() }
    }

    /// Calls `HashMap::insert`: `space` stands under `path` afterwards,
    /// every other path holds what it held, and the space that stood under
    /// `path` before is handed back, if one did.
    #[verifier::external_body]
    pub(crate) fn insert(&mut self, path: u64, space: u64) -> (r: Option<u64>)
        ensures
            space_table_contents(*final(self)) == space_table_contents(*old(self)).insert(
                path,
                space,
            ),
            r == if space_table_contents(*old(self)).contains_key(path) {
                Some(space_table_contents(*old(self))[path])
            } else {
                None
            },
    {
        self.map.insert(openxr::Path::from_raw(path), space)
    }

    /// Calls `HashMap::get`: the space that stands under `path`, if one does.
    #[verifier::external_body]
    pub(crate) fn get(&self, path: u64) -> (r: Option<u64>)
        ensures
            r == if space_table_contents(*self).contains_key(path) {
                Some(space_table_contents(*self)[path])
            } else {
                None
            },
    {
        self.map.get(&openxr::Path::from_raw(path)).copied()
    }

    /// Calls `HashMap::drain` and takes everything it yields: the map is
    /// empty afterwards, and the spaces that it held are handed back, one
    /// for each path. hashbrown does not say in which order they come, and
    /// neither does this contract.
    #[verifier::external_body]
    pub(crate) fn drain(&mut self) -> (r: Vec<u64>)
        ensures
            space_table_contents(*final(self)) == (Map::<u64, u64>::empty()),
            drained(space_table_contents(*old(self)), r@),
    {
        self.map.drain().map(|(_, space)| space).collect()
    }
}

} // verus!
