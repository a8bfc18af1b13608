//! What binding the words of a line to a target means.
//!
//! The words after the name are read left to right. A word that begins with
//! `--` declares the name of the field that the next value is for. Any other
//! word is a value: before the first name it goes to the next field by
//! position, after it to the field whose name was declared last. A name
//! serves one value.
use crate::codec::{first_accepting, Applyer, ParseFn};
use crate::error::DevToolParseError;
use crate::patch::{with_entry, PatchEntryView};
use crate::reflect::InstanceView;
use crate::text::{is_marker, strip_markers};
use vstd::prelude::*;

verus! {

/// Where the binder stands between two words.
pub struct BindState {
    /// Whether a name has been declared so far.
    pub named: bool,
    /// The name that waits for its value.
    pub pending: Option<Seq<char>>,
    /// The position that the next positional value goes to.
    pub index: nat,
}

/// What binding came to: the target as it stands, and the error that
/// stopped the binder, if one did.
pub struct Bound {
    pub target: InstanceView,
    pub error: Option<DevToolParseError>,
}

impl BindState {
    /// The state before the first word: positional, at field 0.
    pub open spec fn start() -> BindState {
        BindState { named: false, pending: None, index: 0 }
    }

    /// The state after a word that declares `name`.
    pub open spec fn declare(self, name: Seq<char>) -> BindState {
        BindState { named: true, pending: Some(name), index: self.index }
    }

    /// The state after a value was bound: the name is used up, or the
    /// position moves on.
    pub open spec fn advance(self) -> BindState {
        if self.named {
            BindState { named: true, pending: None, index: self.index }
        } else {
            BindState { named: false, pending: None, index: self.index + 1 }
        }
    }

    /// The field of `target` that the next value is for.
    pub open spec fn resolve(self, target: InstanceView) -> Result<InstanceView, DevToolParseError> {
        if self.named {
            match self.pending {
                Some(name) => target.field_named(name),
                None => Err(DevToolParseError::InvalidFieldReference),
            }
        } else {
            target.field_at(self.index as int)
        }
    }

    /// `target` with `value` in the field that `resolve` gives.
    pub open spec fn store(self, target: InstanceView, value: InstanceView) -> InstanceView {
        if self.named {
            match self.pending {
                Some(name) => target.with_field_named(name, value),
                None => target,
            }
        } else {
            target.with_field_at(self.index as int, value)
        }
    }
}

/// Binding one value word: the field is resolved, the word is run through
/// the codecs in order, and the first value that one of them makes of it
/// takes the field's place.
pub open spec fn bind_value<P: ParseFn>(
    applyers: Seq<Applyer<P>>,
    word: Seq<char>,
    state: BindState,
    target: InstanceView,
) -> Result<InstanceView, DevToolParseError> {
    match state.resolve(target) {
        Err(e) => Err(e),
        Ok(field) => match first_accepting(applyers, field.type_path, word, 0) {
            Some(value) => Ok(state.store(target, value)),
            None => Err(DevToolParseError::InvalidValue),
        },
    }
}

/// Binding the words from `from` on, starting in `state`. The binder stops
/// at the first word that fails; the target then is as the words before it
/// left it.
pub open spec fn bind_words<P: ParseFn>(
    applyers: Seq<Applyer<P>>,
    words: Seq<Seq<char>>,
    from: int,
    state: BindState,
    target: InstanceView,
) -> Bound
    decreases words.len() - from,
{
    if from < 0 || from >= words.len() {
        Bound { target, error: None }
    } else if is_marker(words[from]) {
        bind_words(applyers, words, from + 1, state.declare(strip_markers(words[from])), target)
    } else {
        match bind_value(applyers, words[from], state, target) {
            Ok(next) => bind_words(applyers, words, from + 1, state.advance(), next),
            Err(e) => Bound { target, error: Some(e) },
        }
    }
}

/// The codec that serves `field_type` when a value is parsed without a
/// field to write to: the one that the table names, which is the one
/// registered last for that type.
pub open spec fn same_type_value<P: ParseFn>(
    applyers: Seq<Applyer<P>>,
    codecs: Map<Seq<char>, usize>,
    field_type: Seq<char>,
    word: Seq<char>,
) -> Option<InstanceView> {
    if codecs.dom().contains(field_type) && codecs[field_type] < applyers.len() {
        applyers[codecs[field_type] as int].outcome(field_type, word)
    } else {
        None
    }
}

/// Binding the words from `from` on into a patch for `tool`.
///
/// A tool takes values by name only. Each value is parsed by the codec of
/// the type of the field's current value and stored in the patch under the
/// field's name; the tool itself is only read.
pub open spec fn patch_words<P: ParseFn>(
    applyers: Seq<Applyer<P>>,
    codecs: Map<Seq<char>, usize>,
    words: Seq<Seq<char>>,
    from: int,
    pending: Option<Seq<char>>,
    tool: InstanceView,
    patch: Seq<PatchEntryView>,
) -> Result<Seq<PatchEntryView>, DevToolParseError>
    decreases words.len() - from,
{
    if from < 0 || from >= words.len() {
        Ok(patch)
    } else if is_marker(words[from]) {
        patch_words(applyers, codecs, words, from + 1, Some(strip_markers(words[from])), tool, patch)
    } else {
        match pending {
            None => Err(DevToolParseError::InvalidFieldReference),
            Some(name) => match tool.field_named(name) {
                Err(e) => Err(e),
                Ok(field) => match same_type_value(applyers, codecs, field.type_path, words[from]) {
                    None => Err(DevToolParseError::InvalidValue),
                    Some(value) => patch_words(
                        applyers,
                        codecs,
                        words,
                        from + 1,
                        None,
                        tool,
                        with_entry(patch, name, value),
                    ),
                },
            },
        }
    }
}

} // verus!
