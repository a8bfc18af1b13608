//! A table from text keys to slots, kept in the engine's hash map.
use vstd::prelude::*;

verus! {

/// A hash map from keys to slot numbers.
///
/// The map is `bevy::utils::HashMap<String, usize>`. Its inside has no
/// model here: what it holds is named by [`table_entries`], and the
/// functions below state, without proof, what each call does to that.
#[verifier::external_body]
pub struct NameTable {
    inner: bevy::utils::HashMap<String, usize>,
}

/// What the table holds: the slot stored under each key that is present.
pub uninterp spec fn table_entries(table: NameTable) -> Map<Seq<char>, usize>;

impl NameTable {
    /// What the table holds.
    pub open spec fn view(&self) -> Map<Seq<char>, usize> {
        table_entries(*self)
    }

    /// The slot stored under `key`, if the key is present.
    pub open spec fn slot_of(&self, key: Seq<char>) -> Option<usize> {
        if self@.dom().contains(key) {
            Some(self@[key])
        } else {
            None
        }
    }

    /// Makes an empty map with `HashMap::default`.
    #[verifier::external_body]
    pub(crate) fn new() -> (table: NameTable)
        ensures
            table_entries(table) =~= Map::empty(),
    {
        NameTable { inner: bevy::utils::HashMap::default() }
    }

    /// Calls `HashMap::insert`: afterwards the key maps to `slot`, whether or
    /// not it was present, and every other key is as before.
    #[verifier::external_body]
    pub(crate) fn insert(&mut self, key: String, slot: usize)
        ensures
            table_entries(*final(self)) == table_entries(*old(self)).insert(key@, slot),
    {
        self.inner.insert(key, slot);
    }

    /// Calls `HashMap::get` and copies the slot out.
    #[verifier::external_body]
    pub(crate) fn get(&self, key: &str) -> (slot: Option<usize>)
        ensures
            slot == (if table_entries(*self).dom().contains(key@) {
                Some(table_entries(*self)[key@])
            } else {
                None
            }),
    {
        self.inner.get(key).copied()
    }
}

/// The short form of a type path, as `bevy::utils::get_short_name` computes
/// it: the path without the module prefixes of its segments.
pub uninterp spec fn short_name_of(type_path: Seq<char>) -> Seq<char>;

/// Calls `bevy::utils::get_short_name`. The result is named
/// `short_name_of`; nothing more is claimed of it.
#[verifier::external_body]
pub(crate) fn short_name(type_path: &str) -> (name: String)
    ensures
        name@ == short_name_of(type_path@),
{
    bevy::utils::get_short_name(type_path)
}

} // verus!
