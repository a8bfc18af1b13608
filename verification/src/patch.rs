//! Patches: named, partial sets of parsed field values for a tool.
use crate::error::DevToolParseError;
use crate::name_table::{table_entries, NameTable};
use crate::reflect::{get_field_by_name, lemma_view, Instance, InstanceView};
use crate::text::same_text;
use crate::world::{find_resource, lemma_find_resource, World};
use vstd::prelude::*;

verus! {

/// One entry of a patch: the value meant for the field called `name`.
pub struct PatchEntry {
    pub name: String,
    pub value: Instance,
}

/// The model of a patch entry.
pub struct PatchEntryView {
    pub name: Seq<char>,
    pub value: InstanceView,
}

impl View for PatchEntry {
    type V = PatchEntryView;

    open spec fn view(&self) -> PatchEntryView {
        PatchEntryView { name: self.name@, value: self.value@ }
    }
}

/// A mapping from field names to values, built while a line is bound and
/// handed to a tool as a whole. No name occurs twice; the entries keep the
/// order in which their names first came.
pub struct Patch {
    index: NameTable,
    entries: Vec<PatchEntry>,
}

/// The position of the first entry at or after `from` that is for `name`.
pub open spec fn find_entry(entries: Seq<PatchEntryView>, name: Seq<char>, from: int) -> Option<int>
    decreases entries.len() - from,
{
    if from < 0 || from >= entries.len() {
        None
    } else if entries[from].name == name {
        Some(from)
    } else {
        find_entry(entries, name, from + 1)
    }
}

/// The entries with `value` stored under `name`: in the place of the entry
/// for that name, or as a new last entry.
pub open spec fn with_entry(entries: Seq<PatchEntryView>, name: Seq<char>, value: InstanceView) -> Seq<
    PatchEntryView,
> {
    match find_entry(entries, name, 0) {
        Some(i) => entries.update(i, PatchEntryView { name, value }),
        None => entries.push(PatchEntryView { name, value }),
    }
}

/// What a tool becomes when the entries from `from` on are applied to it in
/// order, each replacing the field that its name addresses. The first entry
/// whose name addresses no field, or whose value is not of the field's
/// type, fails the whole patch.
pub open spec fn patched(tool: InstanceView, entries: Seq<PatchEntryView>, from: int) -> Result<
    InstanceView,
    DevToolParseError,
>
    decreases entries.len() - from,
{
    if from < 0 || from >= entries.len() {
        Ok(tool)
    } else {
        match tool.field_named(entries[from].name) {
            Err(e) => Err(e),
            Ok(field) => if field.type_path != entries[from].value.type_path {
                Err(DevToolParseError::InvalidValue)
            } else {
                patched(
                    tool.with_field_named(entries[from].name, entries[from].value),
                    entries,
                    from + 1,
                )
            },
        }
    }
}

/// Whether no name occurs twice among the entries.
pub open spec fn names_distinct(entries: Seq<PatchEntryView>) -> bool {
    forall|i: int, j: int|
        0 <= i < entries.len() && 0 <= j < entries.len() && (#[trigger] entries[i]).name
            == (#[trigger] entries[j]).name ==> i == j
}

/// `find_entry` returns a position at or after `from` whose entry is for
/// `name`, before which, from `from` on, no entry is.
pub proof fn lemma_find_entry(entries: Seq<PatchEntryView>, name: Seq<char>, from: int)
    requires
        0 <= from,
    ensures
        match find_entry(entries, name, from) {
            Some(i) => from <= i < entries.len() && entries[i].name == name && forall|j: int|
                from <= j < i ==> (#[trigger] entries[j]).name != name,
            None => forall|j: int| from <= j < entries.len() ==> (#[trigger] entries[j]).name != name,
        },
    decreases entries.len() - from,
{
    if from < entries.len() && entries[from].name != name {
        lemma_find_entry(entries, name, from + 1);
    }
}

impl View for Patch {
    type V = Seq<PatchEntryView>;

    closed spec fn view(&self) -> Seq<PatchEntryView> {
        self.entries@.map_values(|e: PatchEntry| e@)
    }
}

impl Patch {
    /// The index holds exactly the names of the entries, each with the
    /// position of its entry.
    pub closed spec fn wf(&self) -> bool {
        &&& forall|i: int|
            0 <= i < self.entries.len() ==> table_entries(self.index).dom().contains(
                (#[trigger] self.entries[i]).name@,
            ) && table_entries(self.index)[self.entries[i].name@] == i
        &&& forall|k: Seq<char>| #[trigger]
            table_entries(self.index).dom().contains(k) ==> table_entries(self.index)[k]
                < self.entries.len() && self.entries[table_entries(self.index)[k] as int].name@ == k
    }

    /// The empty patch.
    pub fn new() -> (patch: Patch)
        ensures
            patch.wf(),
            patch@ == Seq::<PatchEntryView>::empty(),
    {
        let patch = Patch { index: NameTable::new(), entries: Vec::new() };
        assert(patch@ =~= Seq::<PatchEntryView>::empty());
        patch
    }

    /// The number of entries.
    pub fn len(&self) -> (n: usize)
        ensures
            n == self@.len(),
    {
        self.entries.len()
    }

    /// No name occurs twice in a well-formed patch.
    pub proof fn lemma_names_distinct(&self)
        requires
            self.wf(),
        ensures
            names_distinct(self@),
    {
        assert forall|i: int, j: int|
            0 <= i < self@.len() && 0 <= j < self@.len() && (#[trigger] self@[i]).name
                == (#[trigger] self@[j]).name implies i == j by {
            assert(self.entries[i].name@ == self.entries[j].name@);
        }
    }

    /// The position of the entry for `name`, if there is one.
    fn slot_of(&self, name: &str) -> (r: Option<usize>)
        requires
            self.wf(),
        ensures
            match r {
                Some(slot) => find_entry(self@, name@, 0) == Some(slot as int) && slot
                    < self.entries.len() && self.entries[slot as int].name@ == name@,
                None => find_entry(self@, name@, 0) is None,
            },
    {
        proof {
            lemma_find_entry(self@, name@, 0);
        }
        match self.index.get(name) {
            Some(slot) => {
                assert(self.entries[slot as int].name@ == name@);
                assert(self@[slot as int].name == name@);
                assert(find_entry(self@, name@, 0) == Some(slot as int)) by {
                    let found = find_entry(self@, name@, 0);
                    assert(found is Some);
                    assert(self.entries[found.unwrap()].name@ == name@);
                }
                Some(slot)
            },
            None => {
                assert(find_entry(self@, name@, 0) is None) by {
                    if let Some(found) = find_entry(self@, name@, 0) {
                        assert(self.entries[found].name@ == name@);
                    }
                }
                None
            },
        }
    }

    /// Stores `value` under `name`, in place of what was stored under it.
    pub fn insert(&mut self, name: String, value: Instance)
        requires
            old(self).wf(),
        ensures
            final(self).wf(),
            final(self)@ == with_entry(old(self)@, name@, value@),
    {
        proof {
            lemma_find_entry(self@, name@, 0);
        }
        match self.slot_of(name.as_str()) {
            Some(slot) => {
                self.entries[slot] = PatchEntry { name, value };
                assert(self@ =~= with_entry(old(self)@, name@, value@));
            },
            None => {
                assert forall|i: int| 0 <= i < self.entries.len() implies (#[trigger] self.entries[i]).name@
                    != name@ by {
                    assert(self@[i].name == self.entries[i].name@);
                }
                let slot = self.entries.len();
                self.index.insert(name.clone(), slot);
                self.entries.push(PatchEntry { name, value });
                assert(self@ =~= with_entry(old(self)@, name@, value@));
                assert forall|k: Seq<char>| #[trigger]
                    table_entries(self.index).dom().contains(k) implies table_entries(self.index)[k]
                    < self.entries.len() && self.entries[table_entries(self.index)[k] as int].name@
                    == k by {
                    if k != name@ {
                        assert(table_entries(old(self).index).dom().contains(k));
                    }
                }
            },
        }
    }

    /// The value stored under `name`, if any.
    pub fn get(&self, name: &str) -> (r: Option<&Instance>)
        requires
            self.wf(),
        ensures
            match r {
                Some(value) => find_entry(self@, name@, 0) matches Some(i) && self@[i].value
                    == value@,
                None => find_entry(self@, name@, 0) is None,
            },
    {
        match self.slot_of(name) {
            Some(slot) => Some(&self.entries[slot].value),
            None => None,
        }
    }

    /// Applies the entries to `tool` in order. Either every entry is applied
    /// or, where one fails, `tool` is left as it was.
    pub fn apply_to(&self, tool: &mut Instance) -> (r: Result<(), DevToolParseError>)
        ensures
            match patched(old(tool)@, self@, 0) {
                Ok(after) => r is Ok && final(tool)@ == after,
                Err(e) => r == Err::<(), DevToolParseError>(e) && final(tool)@ == old(tool)@,
            },
    {
        let mut copy = tool.duplicate();
        let mut i: usize = 0;
        while i < self.entries.len()
            invariant
                i <= self.entries.len(),
                *tool == *old(tool),
                patched(old(tool)@, self@, 0) == patched(copy@, self@, i as int),
            decreases self.entries.len() - i,
        {
            let entry = &self.entries[i];
            let value = entry.value.duplicate();
            proof {
                lemma_view(value);
                lemma_view(entry.value);
            }
            match get_field_by_name(&mut copy, entry.name.as_str()) {
                Ok(field) => {
                    proof {
                        lemma_view(*field);
                    }
                    if !same_text(field.type_path.as_str(), value.type_path.as_str()) {
                        return Err(DevToolParseError::InvalidValue);
                    }
                    *field = value;
                },
                Err(e) => {
                    return Err(e);
                },
            }
            i += 1;
        }
        *tool = copy;
        Ok(())
    }
}

impl World {
    /// Applies `patch` to the resource of type `type_path`.
    ///
    /// The patch is applied as a whole or not at all: where an entry fails,
    /// the error is returned and the world is as before. Where the world
    /// holds no such resource nothing is done.
    pub fn apply_patch(&mut self, type_path: &str, patch: &Patch) -> (r: Result<
        (),
        DevToolParseError,
    >)
        ensures
            match find_resource(old(self)@, type_path@, 0) {
                None => r is Ok && final(self)@ == old(self)@,
                Some(at) => match patched(old(self)@[at], patch@, 0) {
                    Ok(after) => r is Ok && final(self)@ == old(self)@.update(at, after),
                    Err(e) => r == Err::<(), DevToolParseError>(e) && final(self)@ == old(self)@,
                },
            },
    {
        proof {
            lemma_find_resource(self@, type_path@, 0);
        }
        match self.position(type_path) {
            None => Ok(()),
            Some(at) => {
                let r = patch.apply_to(&mut self.resources[at]);
                proof {
                    if r is Ok {
                        assert(self@ =~= old(self)@.update(
                            at as int,
                            patched(old(self)@[at as int], patch@, 0)->Ok_0,
                        ));
                    } else {
                        assert(self@ =~= old(self)@);
                    }
                }
                r
            },
        }
    }
}

} // verus!
