//! Type-erased structured values and positional / named access to their fields.
use crate::error::DevToolParseError;
use crate::text::same_text;
use vstd::prelude::*;

verus! {

/// The payload of a leaf value.
#[derive(Debug, PartialEq, Eq)]
pub enum Scalar {
    Bool(bool),
    Unsigned(u64),
    Signed(i64),
    /// A machine word that the engine carries without reading it; hosts use
    /// it for scalars that have no other variant, encoded as a bit pattern.
    Bits(u64),
    Text(String),
}

/// How the enclosing shape addresses a field besides its position.
#[derive(Debug, PartialEq, Eq)]
pub enum Label {
    /// By position only.
    Position,
    /// By this declared name.
    Name(String),
    /// By this key (entries of a map).
    Key(Instance),
}

/// One field of a composite value.
#[derive(Debug, PartialEq, Eq)]
pub struct Field {
    pub label: Label,
    pub value: Instance,
}

/// The shape of a value: a leaf, or one of the composite kinds.
#[derive(Debug, PartialEq, Eq)]
pub enum Shape {
    Struct(Vec<Field>),
    TupleStruct(Vec<Field>),
    Tuple(Vec<Field>),
    List(Vec<Field>),
    Array(Vec<Field>),
    Mapping(Vec<Field>),
    /// The active variant's name and that variant's fields.
    Enum(String, Vec<Field>),
    Value(Scalar),
}

/// A type-erased, owned structured value: a command's payload or a tool's state.
#[derive(Debug, PartialEq, Eq)]
pub struct Instance {
    /// The runtime type identity, a stable path such as `u64` or `game::SetGold`.
    pub type_path: String,
    pub shape: Shape,
}

pub enum ScalarView {
    Bool(bool),
    Unsigned(u64),
    Signed(i64),
    Bits(u64),
    Text(Seq<char>),
}

pub enum LabelView {
    Position,
    Name(Seq<char>),
    Key(InstanceView),
}

pub struct FieldView {
    pub label: LabelView,
    pub value: InstanceView,
}

/// The composite kinds. Only `Struct` and `Enum` address fields by name.
pub enum Kind {
    Struct,
    TupleStruct,
    Tuple,
    List,
    Array,
    Mapping,
    Enum(Seq<char>),
}

pub enum ShapeView {
    Composite(Kind, Seq<FieldView>),
    Value(ScalarView),
}

/// The mathematical model of an [`Instance`].
pub struct InstanceView {
    pub type_path: Seq<char>,
    pub shape: ShapeView,
}

impl View for Scalar {
    type V = ScalarView;

    open spec fn view(&self) -> ScalarView {
        match self {
            Scalar::Bool(b) => ScalarView::Bool(*b),
            Scalar::Unsigned(n) => ScalarView::Unsigned(*n),
            Scalar::Signed(n) => ScalarView::Signed(*n),
            Scalar::Bits(w) => ScalarView::Bits(*w),
            Scalar::Text(t) => ScalarView::Text(t@),
        }
    }
}

impl Shape {
    /// The kind of a composite shape (for a leaf the result is not used).
    pub open spec fn kind(&self) -> Kind {
        match self {
            Shape::Struct(_) => Kind::Struct,
            Shape::TupleStruct(_) => Kind::TupleStruct,
            Shape::Tuple(_) => Kind::Tuple,
            Shape::List(_) => Kind::List,
            Shape::Array(_) => Kind::Array,
            Shape::Mapping(_) => Kind::Mapping,
            Shape::Enum(variant, _) => Kind::Enum(variant@),
            Shape::Value(_) => Kind::Tuple,
        }
    }

    /// The fields of a composite shape; none for a leaf.
    pub open spec fn fields(&self) -> Seq<Field> {
        match self {
            Shape::Struct(fields) => fields@,
            Shape::TupleStruct(fields) => fields@,
            Shape::Tuple(fields) => fields@,
            Shape::List(fields) => fields@,
            Shape::Array(fields) => fields@,
            Shape::Mapping(fields) => fields@,
            Shape::Enum(_, fields) => fields@,
            Shape::Value(_) => Seq::empty(),
        }
    }
}

/// The model of `x`, field by field.
pub open spec fn instance_view(x: Instance) -> InstanceView
    decreases x,
{
    InstanceView {
        type_path: x.type_path@,
        shape: match x.shape {
            Shape::Value(s) => ShapeView::Value(s@),
            _ => ShapeView::Composite(
                x.shape.kind(),
                Seq::new(
                    x.shape.fields().len(),
                    |i: int|
                        if 0 <= i < x.shape.fields().len() {
                            FieldView {
                                label: match x.shape.fields()[i].label {
                                    Label::Position => LabelView::Position,
                                    Label::Name(n) => LabelView::Name(n@),
                                    Label::Key(k) => LabelView::Key(instance_view(k)),
                                },
                                value: instance_view(x.shape.fields()[i].value),
                            }
                        } else {
                            arbitrary()
                        },
                ),
            ),
        },
    }
}

impl View for Instance {
    type V = InstanceView;

    open spec fn view(&self) -> InstanceView {
        instance_view(*self)
    }
}

impl View for Label {
    type V = LabelView;

    open spec fn view(&self) -> LabelView {
        match self {
            Label::Position => LabelView::Position,
            Label::Name(n) => LabelView::Name(n@),
            Label::Key(k) => LabelView::Key(k@),
        }
    }
}

impl View for Field {
    type V = FieldView;

    open spec fn view(&self) -> FieldView {
        FieldView { label: self.label@, value: self.value@ }
    }
}

/// The models of a sequence of fields.
pub open spec fn fields_view(fields: Seq<Field>) -> Seq<FieldView> {
    fields.map_values(|f: Field| f@)
}

/// The model of a value without recursion: that of a leaf is its scalar,
/// that of a composite its kind and the models of its fields.
pub proof fn lemma_view(x: Instance)
    ensures
        x@.type_path == x.type_path@,
        x.shape matches Shape::Value(s) ==> x@.shape == ShapeView::Value(s@),
        !(x.shape is Value) ==> x@.shape == ShapeView::Composite(
            x.shape.kind(),
            fields_view(x.shape.fields()),
        ),
{
    reveal_with_fuel(instance_view, 2);
    if !(x.shape is Value) {
        assert(x@.shape->Composite_1 =~= fields_view(x.shape.fields()));
    }
}


/// Whether `name` is the declared name of `field`.
pub open spec fn is_named(field: FieldView, name: Seq<char>) -> bool {
    field.label == LabelView::Name(name)
}

/// The position of the first field at or after `from` that is named `name`.
pub open spec fn find_named(fields: Seq<FieldView>, name: Seq<char>, from: int) -> Option<int>
    decreases fields.len() - from,
{
    if from < 0 || from >= fields.len() {
        None
    } else if is_named(fields[from], name) {
        Some(from)
    } else {
        find_named(fields, name, from + 1)
    }
}

impl Kind {
    /// Record-like and enum-like shapes address fields by name; tuples,
    /// lists, arrays and maps do so by position only.
    pub open spec fn supports_names(self) -> bool {
        self is Struct || self is Enum
    }
}

impl InstanceView {
    /// The field at position `idx`. A leaf has no fields of its own:
    /// position 0 stands for the leaf itself, and there is no other.
    pub open spec fn field_at(self, idx: int) -> Result<InstanceView, DevToolParseError> {
        match self.shape {
            ShapeView::Value(_) => if idx == 0 {
                Ok(self)
            } else {
                Err(DevToolParseError::InvalidFieldReference)
            },
            ShapeView::Composite(_, fields) => if 0 <= idx < fields.len() {
                Ok(fields[idx].value)
            } else {
                Err(DevToolParseError::InvalidFieldReference)
            },
        }
    }

    /// The field named `name`: the first one so named of a struct or of the
    /// active variant of an enum. On a leaf every name stands for the leaf itself.
    pub open spec fn field_named(self, name: Seq<char>) -> Result<InstanceView, DevToolParseError> {
        match self.shape {
            ShapeView::Value(_) => Ok(self),
            ShapeView::Composite(kind, fields) => if !kind.supports_names() {
                Err(DevToolParseError::UnsupportedField)
            } else {
                match find_named(fields, name, 0) {
                    Some(i) => Ok(fields[i].value),
                    None => Err(DevToolParseError::InvalidFieldReference),
                }
            },
        }
    }

    /// This value with `value` in place of what `field_at(idx)` gives;
    /// unchanged where there is no such field.
    pub open spec fn with_field_at(self, idx: int, value: InstanceView) -> InstanceView {
        match self.shape {
            ShapeView::Value(_) => if idx == 0 {
                value
            } else {
                self
            },
            ShapeView::Composite(kind, fields) => if 0 <= idx < fields.len() {
                InstanceView {
                    type_path: self.type_path,
                    shape: ShapeView::Composite(
                        kind,
                        fields.update(idx, FieldView { label: fields[idx].label, value }),
                    ),
                }
            } else {
                self
            },
        }
    }

    /// This value with `value` in place of what `field_named(name)` gives;
    /// unchanged where there is no such field.
    pub open spec fn with_field_named(self, name: Seq<char>, value: InstanceView) -> InstanceView {
        match self.shape {
            ShapeView::Value(_) => value,
            ShapeView::Composite(kind, fields) => if !kind.supports_names() {
                self
            } else {
                match find_named(fields, name, 0) {
                    Some(i) => self.with_field_at(i, value),
                    None => self,
                }
            },
        }
    }
}

/// `find_named` returns a position inside the sequence, at or after `from`,
/// whose field is named `name`, and no earlier field from `from` on is.
pub proof fn lemma_find_named(fields: Seq<FieldView>, name: Seq<char>, from: int)
    requires
        0 <= from,
    ensures
        match find_named(fields, name, from) {
            Some(i) => from <= i < fields.len() && is_named(fields[i], name) && forall|j: int|
                from <= j < i ==> !is_named(#[trigger] fields[j], name),
            None => forall|j: int| from <= j < fields.len() ==> !is_named(#[trigger] fields[j], name),
        },
    decreases fields.len() - from,
{
    if from < fields.len() && !is_named(fields[from], name) {
        lemma_find_named(fields, name, from + 1);
    }
}

/// The position of the first field of `fields` named `name`, if any.
fn position_of(fields: &Vec<Field>, name: &str) -> (r: Option<usize>)
    ensures
        match r {
            Some(i) => find_named(fields_view(fields@), name@, 0) == Some(i as int) && i < fields.len(),
            None => find_named(fields_view(fields@), name@, 0) is None,
        },
{
    let mut i: usize = 0;
    while i < fields.len()
        invariant
            i <= fields.len(),
            find_named(fields_view(fields@), name@, 0) == find_named(
                fields_view(fields@),
                name@,
                i as int,
            ),
        decreases fields.len() - i,
    {
        let hit = match &fields[i].label {
            Label::Name(n) => same_text(n.as_str(), name),
            _ => false,
        };
        if hit {
            return Some(i);
        }
        i += 1;
    }
    None
}

/// The value of the field at `idx`, mutably.
fn slot_at<'a>(fields: &'a mut Vec<Field>, idx: usize) -> (r: Result<
    &'a mut Instance,
    DevToolParseError,
>)
    ensures
        match r {
            Ok(field) => idx < old(fields).len() && *field == old(fields)[idx as int].value
                && final(fields)@ == old(fields)@.update(
                idx as int,
                Field { label: old(fields)[idx as int].label, value: *final(field) },
            ),
            Err(e) => idx >= old(fields).len() && e == DevToolParseError::InvalidFieldReference
                && *final(fields) == *old(fields),
        },
{
    if idx < fields.len() {
        Ok(&mut fields[idx].value)
    } else {
        Err(DevToolParseError::InvalidFieldReference)
    }
}


/// Whether `after` is `before` with nothing changed but the value of the
/// field at `idx`.
pub open spec fn replaces_field(before: Instance, after: Instance, idx: int) -> bool {
    &&& !(before.shape is Value)
    &&& !(after.shape is Value)
    &&& after.type_path == before.type_path
    &&& after.shape.kind() == before.shape.kind()
    &&& 0 <= idx < before.shape.fields().len()
    &&& after.shape.fields() == before.shape.fields().update(
        idx,
        Field { label: before.shape.fields()[idx].label, value: after.shape.fields()[idx].value },
    )
}

/// Replacing a field's value in a composite is `with_field_at` on the models.
pub proof fn lemma_replaces_field(before: Instance, after: Instance, idx: int)
    requires
        replaces_field(before, after, idx),
    ensures
        after@ == before@.with_field_at(idx, after.shape.fields()[idx].value@),
{
    lemma_view(before);
    lemma_view(after);
    assert(after@.shape->Composite_1 =~= before@.with_field_at(
        idx,
        after.shape.fields()[idx].value@,
    ).shape->Composite_1);
}

/// The field of `command` at position `idx`, for writing.
///
/// Every composite shape is addressed by position; a leaf stands for itself
/// at position 0. What is written through the returned reference takes the
/// field's place and nothing else changes.
pub fn get_field_by_idx<'a>(command: &'a mut Instance, idx: usize) -> (r: Result<
    &'a mut Instance,
    DevToolParseError,
>)
    ensures
        match r {
            Ok(field) => old(command)@.field_at(idx as int) == Ok::<InstanceView, DevToolParseError>(field@)
                && final(command)@ == old(command)@.with_field_at(idx as int, final(field)@),
            Err(e) => old(command)@.field_at(idx as int) == Err::<InstanceView, DevToolParseError>(e)
                && *final(command) == *old(command),
        },
{
    let ghost before = *command;
    proof {
        lemma_view(before);
        assert forall|after: Instance| replaces_field(before, after, idx as int) implies #[trigger] after@
            == before@.with_field_at(idx as int, after.shape.fields()[idx as int].value@) by {
            lemma_replaces_field(before, after, idx as int);
        }
    }
    if let Shape::Value(_) = &command.shape {
        if idx == 0 {
            return Ok(command);
        }
        return Err(DevToolParseError::InvalidFieldReference);
    }
    match &mut command.shape {
        Shape::Struct(fields) => slot_at(fields, idx),
        Shape::TupleStruct(fields) => slot_at(fields, idx),
        Shape::Tuple(fields) => slot_at(fields, idx),
        Shape::List(fields) => slot_at(fields, idx),
        Shape::Array(fields) => slot_at(fields, idx),
        Shape::Mapping(fields) => slot_at(fields, idx),
        Shape::Enum(_, fields) => slot_at(fields, idx),
        Shape::Value(_) => Err(DevToolParseError::InvalidFieldReference),
    }
}

/// The field of `command` at position `idx`, for reading; addressed as in
/// [`get_field_by_idx`].
pub fn get_field_by_idx_readonly<'a>(command: &'a Instance, idx: usize) -> (r: Result<
    &'a Instance,
    DevToolParseError,
>)
    ensures
        match r {
            Ok(field) => command@.field_at(idx as int) == Ok::<InstanceView, DevToolParseError>(field@),
            Err(e) => command@.field_at(idx as int) == Err::<InstanceView, DevToolParseError>(e),
        },
{
    proof {
        lemma_view(*command);
    }
    let fields = match &command.shape {
        Shape::Struct(fields) => fields,
        Shape::TupleStruct(fields) => fields,
        Shape::Tuple(fields) => fields,
        Shape::List(fields) => fields,
        Shape::Array(fields) => fields,
        Shape::Mapping(fields) => fields,
        Shape::Enum(_, fields) => fields,
        Shape::Value(_) => {
            if idx == 0 {
                return Ok(command);
            }
            return Err(DevToolParseError::InvalidFieldReference);
        },
    };
    if idx < fields.len() {
        Ok(&fields[idx].value)
    } else {
        Err(DevToolParseError::InvalidFieldReference)
    }
}

/// The value of the first field named `name`, mutably.
fn slot_named<'a>(fields: &'a mut Vec<Field>, name: &str) -> (r: Result<
    &'a mut Instance,
    DevToolParseError,
>)
    ensures
        match r {
            Ok(field) => {
                let i = find_named(fields_view(old(fields)@), name@, 0);
                &&& i matches Some(at) && 0 <= at < old(fields).len() && *field == old(fields)[at].value
                    && final(fields)@ == old(fields)@.update(
                    at,
                    Field { label: old(fields)[at].label, value: *final(field) },
                )
            },
            Err(e) => find_named(fields_view(old(fields)@), name@, 0) is None && e
                == DevToolParseError::InvalidFieldReference && *final(fields) == *old(fields),
        },
{
    match position_of(fields, name) {
        Some(i) => Ok(&mut fields[i].value),
        None => Err(DevToolParseError::InvalidFieldReference),
    }
}

/// The field of `command` named `name`, for writing.
///
/// Structs and the active variant of an enum are addressed by name; the
/// first field so named is the one meant. Tuples, lists, arrays and maps
/// have no names. A leaf stands for itself under every name.
pub fn get_field_by_name<'a>(command: &'a mut Instance, name: &str) -> (r: Result<
    &'a mut Instance,
    DevToolParseError,
>)
    ensures
        match r {
            Ok(field) => old(command)@.field_named(name@) == Ok::<InstanceView, DevToolParseError>(field@)
                && final(command)@ == old(command)@.with_field_named(name@, final(field)@),
            Err(e) => old(command)@.field_named(name@) == Err::<InstanceView, DevToolParseError>(e)
                && *final(command) == *old(command),
        },
{
    let ghost before = *command;
    proof {
        lemma_view(before);
        lemma_find_named(fields_view(before.shape.fields()), name@, 0);
        if let Some(idx) = find_named(fields_view(before.shape.fields()), name@, 0) {
            assert forall|after: Instance| replaces_field(before, after, idx) implies #[trigger] after@
                == before@.with_field_at(idx, after.shape.fields()[idx].value@) by {
                lemma_replaces_field(before, after, idx);
            }
        }
    }
    if let Shape::Value(_) = &command.shape {
        return Ok(command);
    }
    match &mut command.shape {
        Shape::Struct(fields) => slot_named(fields, name),
        Shape::TupleStruct(_) => Err(DevToolParseError::UnsupportedField),
        Shape::Tuple(_) => Err(DevToolParseError::UnsupportedField),
        Shape::List(_) => Err(DevToolParseError::UnsupportedField),
        Shape::Array(_) => Err(DevToolParseError::UnsupportedField),
        Shape::Mapping(_) => Err(DevToolParseError::UnsupportedField),
        Shape::Enum(_, fields) => slot_named(fields, name),
        Shape::Value(_) => Err(DevToolParseError::UnsupportedField),
    }
}

/// The field of `command` named `name`, for reading; addressed as in
/// [`get_field_by_name`].
pub fn get_field_by_name_readonly<'a>(command: &'a Instance, name: &str) -> (r: Result<
    &'a Instance,
    DevToolParseError,
>)
    ensures
        match r {
            Ok(field) => command@.field_named(name@) == Ok::<InstanceView, DevToolParseError>(field@),
            Err(e) => command@.field_named(name@) == Err::<InstanceView, DevToolParseError>(e),
        },
{
    proof {
        lemma_view(*command);
    }
    match &command.shape {
        Shape::Struct(fields) => match position_of(fields, name) {
            Some(i) => Ok(&fields[i].value),
            None => Err(DevToolParseError::InvalidFieldReference),
        },
        Shape::TupleStruct(_) => Err(DevToolParseError::UnsupportedField),
        Shape::Tuple(_) => Err(DevToolParseError::UnsupportedField),
        Shape::List(_) => Err(DevToolParseError::UnsupportedField),
        Shape::Array(_) => Err(DevToolParseError::UnsupportedField),
        Shape::Mapping(_) => Err(DevToolParseError::UnsupportedField),
        Shape::Enum(_, fields) => match position_of(fields, name) {
            Some(i) => Ok(&fields[i].value),
            None => Err(DevToolParseError::InvalidFieldReference),
        },
        Shape::Value(_) => Ok(command),
    }
}

/// Putting back what a field already holds changes nothing.
pub proof fn lemma_store_same(target: InstanceView, idx: int, name: Seq<char>)
    ensures
        target.field_at(idx) matches Ok(value) ==> target.with_field_at(idx, value) == target,
        target.field_named(name) matches Ok(value) ==> target.with_field_named(name, value)
            == target,
{
    if let ShapeView::Composite(kind, fields) = target.shape {
        if 0 <= idx < fields.len() {
            assert(fields.update(idx, FieldView { label: fields[idx].label, value: fields[idx].value })
                =~= fields);
        }
        lemma_find_named(fields, name, 0);
        if let Some(i) = find_named(fields, name, 0) {
            assert(fields.update(i, FieldView { label: fields[i].label, value: fields[i].value })
                =~= fields);
        }
    }
}

/// A copy of `fields`, field by field.
fn duplicate_fields(fields: &Vec<Field>) -> (copy: Vec<Field>)
    ensures
        fields_view(copy@) == fields_view(fields@),
    decreases fields,
{
    let mut copy: Vec<Field> = Vec::new();
    let mut i: usize = 0;
    while i < fields.len()
        invariant
            i <= fields.len(),
            copy.len() == i,
            forall|j: int| 0 <= j < i ==> (#[trigger] copy[j])@ == fields[j]@,
        decreases fields.len() - i,
    {
        let label = match &fields[i].label {
            Label::Position => Label::Position,
            Label::Name(name) => Label::Name(name.clone()),
            Label::Key(key) => Label::Key(key.duplicate()),
        };
        copy.push(Field { label, value: fields[i].value.duplicate() });
        i += 1;
    }
    assert(fields_view(copy@) =~= fields_view(fields@));
    copy
}

impl Instance {
    /// A deep copy of this value.
    pub fn duplicate(&self) -> (copy: Instance)
        ensures
            copy@ == self@,
        decreases self,
    {
        let shape = match &self.shape {
            Shape::Struct(fields) => Shape::Struct(duplicate_fields(fields)),
            Shape::TupleStruct(fields) => Shape::TupleStruct(duplicate_fields(fields)),
            Shape::Tuple(fields) => Shape::Tuple(duplicate_fields(fields)),
            Shape::List(fields) => Shape::List(duplicate_fields(fields)),
            Shape::Array(fields) => Shape::Array(duplicate_fields(fields)),
            Shape::Mapping(fields) => Shape::Mapping(duplicate_fields(fields)),
            Shape::Enum(variant, fields) => Shape::Enum(variant.clone(), duplicate_fields(fields)),
            Shape::Value(scalar) => Shape::Value(
                match scalar {
                    Scalar::Bool(b) => Scalar::Bool(*b),
                    Scalar::Unsigned(n) => Scalar::Unsigned(*n),
                    Scalar::Signed(n) => Scalar::Signed(*n),
                    Scalar::Bits(w) => Scalar::Bits(*w),
                    Scalar::Text(t) => Scalar::Text(t.clone()),
                },
            ),
        };
        let copy = Instance { type_path: self.type_path.clone(), shape };
        proof {
            lemma_view(*self);
            lemma_view(copy);
        }
        copy
    }
}

impl Clone for Instance {
    fn clone(&self) -> (copy: Instance)
        ensures
            copy@ == self@,
    {
        self.duplicate()
    }
}

} // verus!
