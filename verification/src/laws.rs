//! Laws of the console, proved from the definitions that its contracts use.
use crate::binder::{bind_value, bind_words, BindState, Bound};
use crate::codec::{first_accepting, Applyer, ParseFn};
use crate::dev_api::{command_metadata, DevCommand, DevCommandMetadataView, ModalDevTool};
use crate::error::DevToolParseError;
use crate::patch::{names_distinct, patched, PatchEntryView};
use crate::reflect::{find_named, is_named, lemma_find_named, FieldView, InstanceView, ShapeView};
use crate::text::{is_marker, split_words};
use crate::toolbox::CLIToolBox;
use crate::world::{find_resource, lemma_find_resource, resource_of};
use vstd::prelude::*;

verus! {

/// What setting the fields of `target` in order comes to: the value at
/// `values[k]` is offered to the codecs for the field at position `k`, and
/// what the first accepting codec makes of it takes that field's place.
/// `None` where a position has no field or a value is accepted by no codec.
pub open spec fn fill_in_order<P: ParseFn>(
    applyers: Seq<Applyer<P>>,
    values: Seq<Seq<char>>,
    from: int,
    target: InstanceView,
) -> Option<InstanceView>
    decreases values.len() - from,
{
    if from < 0 || from >= values.len() {
        Some(target)
    } else {
        match target.field_at(from) {
            Err(_) => None,
            Ok(field) => match first_accepting(applyers, field.type_path, values[from], 0) {
                None => None,
                Some(value) => fill_in_order(
                    applyers,
                    values,
                    from + 1,
                    target.with_field_at(from, value),
                ),
            },
        }
    }
}

/// Binding values by position is setting the fields in order: where no
/// word from `at` on declares a name and the values from position `at - 1`
/// on can be set in order, the binder succeeds with that very result.
pub proof fn lemma_positional_binding<P: ParseFn>(
    applyers: Seq<Applyer<P>>,
    words: Seq<Seq<char>>,
    at: int,
    target: InstanceView,
)
    requires
        1 <= at,
        words.len() >= 1,
        forall|k: int| at <= k < words.len() ==> !is_marker(#[trigger] words[k]),
        fill_in_order(applyers, words.skip(1), at - 1, target) is Some,
    ensures
        bind_words(
            applyers,
            words,
            at,
            BindState { named: false, pending: None, index: (at - 1) as nat },
            target,
        ) == (Bound {
            target: fill_in_order(applyers, words.skip(1), at - 1, target).unwrap(),
            error: None,
        }),
    decreases words.len() - at,
{
    let state = BindState { named: false, pending: None, index: (at - 1) as nat };
    if at < words.len() {
        assert(words.skip(1)[at - 1] == words[at]);
        let field = target.field_at(at - 1).unwrap();
        let value = first_accepting(applyers, field.type_path, words[at], 0).unwrap();
        let next = target.with_field_at(at - 1, value);
        assert(bind_value(applyers, words[at], state, target) == Ok::<
            InstanceView,
            DevToolParseError,
        >(next));
        assert(state.advance() == BindState { named: false, pending: None, index: at as nat });
        assert(fill_in_order(applyers, words.skip(1), at - 1, target) == fill_in_order(
            applyers,
            words.skip(1),
            at,
            next,
        ));
        lemma_positional_binding(applyers, words, at + 1, next);
        assert(bind_words(applyers, words, at, state, target) == bind_words(
            applyers,
            words,
            at + 1,
            state.advance(),
            next,
        ));
    } else {
        assert(words.skip(1).len() == words.len() - 1);
    }
}

/// A registered command, called with values by position that can be set in
/// order, yields the default payload with those fields set in order.
pub proof fn law_positional_dispatch<C: DevCommand, T: ModalDevTool, P: ParseFn>(
    toolbox: CLIToolBox<C, T, P>,
    line: Seq<char>,
)
    requires
        split_words(line).len() > 0,
        toolbox.command_slot(split_words(line)[0]) is Some,
        forall|k: int| 1 <= k < split_words(line).len() ==> !is_marker(#[trigger] split_words(line)[k]),
        fill_in_order(
            toolbox.apply_from_string@,
            split_words(line).skip(1),
            0,
            toolbox.commands[toolbox.command_slot(split_words(line)[0]).unwrap() as int].spec_default(),
        ) is Some,
    ensures
        toolbox.spec_parse_dev_command(line) == Ok::<
            (InstanceView, DevCommandMetadataView),
            DevToolParseError,
        >(
            (
                fill_in_order(
                    toolbox.apply_from_string@,
                    split_words(line).skip(1),
                    0,
                    toolbox.commands[toolbox.command_slot(
                        split_words(line)[0],
                    ).unwrap() as int].spec_default(),
                ).unwrap(),
                command_metadata(
                    &toolbox.commands[toolbox.command_slot(split_words(line)[0]).unwrap() as int],
                ),
            ),
        ),
{
    let words = split_words(line);
    let slot = toolbox.command_slot(words[0]).unwrap();
    lemma_positional_binding(
        toolbox.apply_from_string@,
        words,
        1,
        toolbox.commands[slot as int].spec_default(),
    );
}

/// Replacing the value of a field keeps every name where it was.
pub proof fn lemma_find_named_after_update(
    fields: Seq<FieldView>,
    at: int,
    value: InstanceView,
    name: Seq<char>,
    from: int,
)
    requires
        0 <= at < fields.len(),
        0 <= from,
    ensures
        find_named(fields.update(at, FieldView { label: fields[at].label, value }), name, from)
            == find_named(fields, name, from),
    decreases fields.len() - from,
{
    let after = fields.update(at, FieldView { label: fields[at].label, value });
    if from < fields.len() && !is_named(fields[from], name) {
        lemma_find_named_after_update(fields, at, value, name, from + 1);
    }
}

/// What is stored under a name is what reading that name gives: a patch of
/// one entry `name = value`, applied to a tool that has a field of that name
/// and of the value's type, leaves `value` in that field.
///
/// A leaf tool stands for itself under every name, so the patch replaces it
/// whole; reading the name from the new value gives that value if it is a
/// leaf too, which is asked for here.
pub proof fn law_patch_round_trip(tool: InstanceView, name: Seq<char>, value: InstanceView)
    requires
        tool.field_named(name) matches Ok(field) && field.type_path == value.type_path,
        tool.shape is Value ==> value.shape is Value,
    ensures
        patched(tool, seq![PatchEntryView { name, value }], 0) matches Ok(after)
            && after == tool.with_field_named(name, value) && after.field_named(name) == Ok::<
            InstanceView,
            DevToolParseError,
        >(value),
{
    let entries = seq![PatchEntryView { name, value }];
    let after = tool.with_field_named(name, value);
    reveal_with_fuel(patched, 2);
    assert(patched(tool, entries, 0) == patched(after, entries, 1));
    if let ShapeView::Composite(kind, fields) = tool.shape {
        lemma_find_named(fields, name, 0);
        let at = find_named(fields, name, 0).unwrap();
        lemma_find_named_after_update(fields, at, value, name, 0);
    }
}

/// Storing a value under one name of a composite leaves what every other
/// name reads.
pub proof fn lemma_other_names_keep(
    tool: InstanceView,
    name: Seq<char>,
    value: InstanceView,
    other: Seq<char>,
)
    requires
        tool.shape is Composite,
        other != name,
    ensures
        tool.with_field_named(name, value).field_named(other) == tool.field_named(other),
{
    if let ShapeView::Composite(kind, fields) = tool.shape {
        lemma_find_named(fields, name, 0);
        lemma_find_named(fields, other, 0);
        if kind.supports_names() {
            if let Some(at) = find_named(fields, name, 0) {
                lemma_find_named_after_update(fields, at, value, other, 0);
            }
        }
    }
}

/// One step of a patch on a composite: the value is where its name reads,
/// and the tool is a composite still.
pub proof fn lemma_stored_value_reads_back(tool: InstanceView, name: Seq<char>, value: InstanceView)
    requires
        tool.shape is Composite,
        tool.field_named(name) is Ok,
    ensures
        tool.with_field_named(name, value).shape is Composite,
        tool.with_field_named(name, value).field_named(name) == Ok::<
            InstanceView,
            DevToolParseError,
        >(value),
{
    if let ShapeView::Composite(kind, fields) = tool.shape {
        lemma_find_named(fields, name, 0);
        let at = find_named(fields, name, 0).unwrap();
        lemma_find_named_after_update(fields, at, value, name, 0);
    }
}

/// A patch of several entries round-trips too, on a composite tool: once
/// the entries from `from` on are applied, each of their names reads the
/// value stored under it, and every name that is not among them reads what
/// it read before.
pub proof fn law_patch_entries_round_trip(
    tool: InstanceView,
    entries: Seq<PatchEntryView>,
    from: int,
)
    requires
        0 <= from,
        tool.shape is Composite,
        names_distinct(entries),
        patched(tool, entries, from) is Ok,
    ensures
        patched(tool, entries, from).unwrap().shape is Composite,
        forall|i: int|
            from <= i < entries.len() ==> patched(tool, entries, from).unwrap().field_named(
                (#[trigger] entries[i]).name,
            ) == Ok::<InstanceView, DevToolParseError>(entries[i].value),
        forall|other: Seq<char>|
            (forall|i: int| from <= i < entries.len() ==> (#[trigger] entries[i]).name != other)
                ==> #[trigger] patched(tool, entries, from).unwrap().field_named(other)
                == tool.field_named(other),
    decreases entries.len() - from,
{
    if from < entries.len() {
        let name = entries[from].name;
        let value = entries[from].value;
        let next = tool.with_field_named(name, value);
        let after = patched(tool, entries, from).unwrap();
        assert(after == patched(next, entries, from + 1).unwrap());
        lemma_stored_value_reads_back(tool, name, value);
        law_patch_entries_round_trip(next, entries, from + 1);
        assert forall|other: Seq<char>|
            (forall|i: int| from <= i < entries.len() ==> (#[trigger] entries[i]).name != other)
            implies #[trigger] after.field_named(other) == tool.field_named(other) by {
            assert(entries[from].name != other);
            lemma_other_names_keep(tool, name, value, other);
        }
        assert forall|i: int| from <= i < entries.len() implies after.field_named(
            (#[trigger] entries[i]).name,
        ) == Ok::<InstanceView, DevToolParseError>(entries[i].value) by {
            if i == from {
                assert forall|k: int| from + 1 <= k < entries.len() implies (#[trigger] entries[k]).name
                    != name by {
                    assert(entries[from].name == name);
                }
                assert(after.field_named(name) == next.field_named(name));
            }
        }
    }
}

/// Replacing a resource by one of the same type keeps every resource where
/// it was found.
pub proof fn lemma_find_resource_after_update(
    world: Seq<InstanceView>,
    at: int,
    after: InstanceView,
    type_path: Seq<char>,
    from: int,
)
    requires
        0 <= at < world.len(),
        0 <= from,
        after.type_path == world[at].type_path,
    ensures
        find_resource(world.update(at, after), type_path, from) == find_resource(
            world,
            type_path,
            from,
        ),
    decreases world.len() - from,
{
    if from < world.len() && world[from].type_path != type_path {
        lemma_find_resource_after_update(world, at, after, type_path, from + 1);
    }
}

/// A patch round-trips through the world: after a tool in the world is
/// patched with `name = value`, the tool found under its type holds `value`
/// in the field `name`.
pub proof fn law_tool_patch_round_trip(
    world: Seq<InstanceView>,
    type_path: Seq<char>,
    name: Seq<char>,
    value: InstanceView,
)
    requires
        resource_of(world, type_path) matches Some(tool) && (tool.field_named(name) matches Ok(
            field,
        ) && field.type_path == value.type_path) && (tool.shape is Value ==> value.shape is Value),
    ensures
        ({
            let at = find_resource(world, type_path, 0).unwrap();
            &&& patched(world[at], seq![PatchEntryView { name, value }], 0) matches Ok(after)
                && resource_of(world.update(at, after), type_path) == Some(after)
                && after.field_named(name) == Ok::<InstanceView, DevToolParseError>(value)
        }),
{
    lemma_find_resource(world, type_path, 0);
    let at = find_resource(world, type_path, 0).unwrap();
    law_patch_round_trip(world[at], name, value);
    let after = world[at].with_field_named(name, value);
    lemma_find_resource_after_update(world, at, after, type_path, 0);
}

/// Once names are in use, a value that no name was declared for fails the
/// binder with `InvalidFieldReference`, and the target stays as it is.
pub proof fn law_value_without_name<P: ParseFn>(
    applyers: Seq<Applyer<P>>,
    words: Seq<Seq<char>>,
    at: int,
    state: BindState,
    target: InstanceView,
)
    requires
        0 <= at < words.len(),
        !is_marker(words[at]),
        state.named,
        state.pending is None,
    ensures
        bind_words(applyers, words, at, state, target) == (Bound {
            target,
            error: Some(DevToolParseError::InvalidFieldReference),
        }),
{
}

/// After the first name, values go by name only: a value that follows
/// another value, with a name declared somewhere before them, never
/// succeeds. The binder fails, at that word or before it.
pub proof fn law_named_values_need_names<P: ParseFn>(
    applyers: Seq<Applyer<P>>,
    words: Seq<Seq<char>>,
    from: int,
    state: BindState,
    target: InstanceView,
    at: int,
)
    requires
        0 <= from <= at < words.len(),
        !is_marker(words[at]),
        from == at ==> state.named && state.pending is None,
        from < at ==> !is_marker(words[at - 1]) && (state.named || exists|j: int|
            from <= j < at - 1 && is_marker(#[trigger] words[j])),
    ensures
        bind_words(applyers, words, from, state, target).error is Some,
    decreases at - from,
{
    if from < at {
        if is_marker(words[from]) {
            law_named_values_need_names(
                applyers,
                words,
                from + 1,
                state.declare(crate::text::strip_markers(words[from])),
                target,
                at,
            );
        } else {
            match bind_value(applyers, words[from], state, target) {
                Ok(next) => {
                    if !state.named {
                        let j = choose|j: int| from <= j < at - 1 && is_marker(#[trigger] words[j]);
                        assert(from + 1 <= j);
                    }
                    law_named_values_need_names(
                        applyers,
                        words,
                        from + 1,
                        state.advance(),
                        next,
                        at,
                    );
                },
                Err(_) => {},
            }
        }
    }
}

/// A value that every codec declines fails the binder with `InvalidValue`,
/// and the target stays as the words before it left it.
pub proof fn law_declined_value<P: ParseFn>(
    applyers: Seq<Applyer<P>>,
    words: Seq<Seq<char>>,
    at: int,
    state: BindState,
    target: InstanceView,
)
    requires
        0 <= at < words.len(),
        !is_marker(words[at]),
        state.resolve(target) matches Ok(field) && first_accepting(
            applyers,
            field.type_path,
            words[at],
            0,
        ) is None,
    ensures
        bind_words(applyers, words, at, state, target) == (Bound {
            target,
            error: Some(DevToolParseError::InvalidValue),
        }),
{
}

/// An empty line, and a line whose first word names no command and no
/// tool, is rejected with `InvalidName` whatever the world holds.
pub proof fn law_unknown_name<C: DevCommand, T: ModalDevTool, P: ParseFn>(
    toolbox: CLIToolBox<C, T, P>,
    line: Seq<char>,
    world: Seq<InstanceView>,
)
    requires
        split_words(line).len() == 0 || (toolbox.command_slot(split_words(line)[0]) is None
            && toolbox.tool_slot(split_words(line)[0]) is None),
    ensures
        toolbox.spec_parse_input(line, world) == Err::<Seq<InstanceView>, DevToolParseError>(
            DevToolParseError::InvalidName,
        ),
{
}

} // verus!
