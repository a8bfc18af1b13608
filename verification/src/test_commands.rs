//! An example command: setting the player's gold.
use crate::dev_api::DevCommand;
use crate::error::DevToolParseError;
use crate::reflect::{
    get_field_by_name_readonly, lemma_view, Field, FieldView, Instance, InstanceView, Kind, Label,
    LabelView, Scalar, ScalarView, Shape, ShapeView,
};
use crate::text::{same_text, split_whitespace};
use crate::codec::{parse_unsigned, unsigned_of};
use crate::text::split_words;
use crate::world::{find_resource, with_resource, World};
use vstd::prelude::*;

verus! {

/// The player's gold: a resource of the world.
#[derive(Clone, Copy, Debug, PartialEq, Eq, Structural)]
pub struct Gold(pub u64);

/// Sets the player's gold to the provided value.
#[derive(Clone, Copy, Debug, PartialEq, Eq, Structural)]
pub struct SetGold {
    pub amount: u64,
}

/// The model of a leaf that holds an unsigned number.
pub open spec fn unsigned_leaf(n: u64) -> InstanceView {
    InstanceView { type_path: "u64"@, shape: ShapeView::Value(ScalarView::Unsigned(n)) }
}

/// A leaf that holds an unsigned number.
pub fn unsigned_value(n: u64) -> (value: Instance)
    ensures
        value@ == unsigned_leaf(n),
{
    let value = Instance { type_path: "u64".to_owned(), shape: Shape::Value(Scalar::Unsigned(n)) };
    proof {
        lemma_view(value);
    }
    value
}

/// The number that a leaf holds, if it is an unsigned leaf.
pub open spec fn unsigned_in(value: InstanceView) -> Option<u64> {
    match value.shape {
        ShapeView::Value(ScalarView::Unsigned(n)) => Some(n),
        _ => None,
    }
}

impl Gold {
    /// The type identity of the resource.
    pub open spec fn spec_type_path() -> Seq<char> {
        "dev_console::test_commands::Gold"@
    }

    /// The type identity of the resource.
    pub fn type_path() -> (path: &'static str)
        ensures
            path@ == Self::spec_type_path(),
    {
        "dev_console::test_commands::Gold"
    }

    /// The model of the resource: a tuple struct of one number.
    pub open spec fn view(&self) -> InstanceView {
        InstanceView {
            type_path: Self::spec_type_path(),
            shape: ShapeView::Composite(
                Kind::TupleStruct,
                seq![FieldView { label: LabelView::Position, value: unsigned_leaf(self.0) }],
            ),
        }
    }

    /// The resource as a type-erased value.
    pub fn reflect(&self) -> (instance: Instance)
        ensures
            instance@ == self@,
    {
        let mut fields: Vec<Field> = Vec::new();
        fields.push(Field { label: Label::Position, value: unsigned_value(self.0) });
        let instance = Instance {
            type_path: Self::type_path().to_owned(),
            shape: Shape::TupleStruct(fields),
        };
        proof {
            lemma_view(instance);
            assert(instance@.shape->Composite_1 =~= self@.shape->Composite_1);
        }
        instance
    }
}

impl SetGold {
    /// The type identity of the command's payload.
    pub open spec fn payload_type_path() -> Seq<char> {
        "dev_console::test_commands::SetGold"@
    }

    /// The model of the payload: a struct with the field `amount`.
    pub open spec fn view(&self) -> InstanceView {
        InstanceView {
            type_path: Self::payload_type_path(),
            shape: ShapeView::Composite(
                Kind::Struct,
                seq![FieldView { label: LabelView::Name("amount"@), value: unsigned_leaf(self.amount) }],
            ),
        }
    }

    /// The payload as a type-erased value.
    pub fn reflect(&self) -> (instance: Instance)
        ensures
            instance@ == self@,
    {
        let mut fields: Vec<Field> = Vec::new();
        fields.push(
            Field { label: Label::Name("amount".to_owned()), value: unsigned_value(self.amount) },
        );
        let instance = Instance {
            type_path: "dev_console::test_commands::SetGold".to_owned(),
            shape: Shape::Struct(fields),
        };
        proof {
            lemma_view(instance);
            assert(instance@.shape->Composite_1 =~= self@.shape->Composite_1);
        }
        instance
    }

    /// The amount that a payload asks for: the number in its field `amount`.
    pub open spec fn amount_in(command: InstanceView) -> Option<u64> {
        match command.field_named("amount"@) {
            Ok(field) => unsigned_in(field),
            Err(_) => None,
        }
    }

    /// Reads the command back from a payload.
    pub fn from_reflect(command: &Instance) -> (r: Option<SetGold>)
        ensures
            match r {
                Some(set) => Self::amount_in(command@) == Some(set.amount),
                None => Self::amount_in(command@) is None,
            },
    {
        match get_field_by_name_readonly(command, "amount") {
            Ok(field) => {
                proof {
                    lemma_view(*field);
                }
                match &field.shape {
                    Shape::Value(Scalar::Unsigned(n)) => Some(SetGold { amount: *n }),
                    _ => None,
                }
            },
            Err(_) => None,
        }
    }

    /// What a whole line reads as: the name `SetGold` and one amount.
    pub open spec fn spec_from_str(line: Seq<char>) -> Result<SetGold, DevToolParseError> {
        let words = split_words(line);
        if words.len() == 0 || words[0] != "SetGold"@ {
            Err(DevToolParseError::InvalidName)
        } else if words.len() == 1 {
            Err(DevToolParseError::InvalidFieldReference)
        } else {
            match unsigned_of(words[1]) {
                Some(amount) => Ok(SetGold { amount }),
                None => Err(DevToolParseError::InvalidValue),
            }
        }
    }

    /// Reads a whole line on its own, without a console: the first word
    /// must be `SetGold` as written, the second the amount. Further words
    /// are not looked at.
    pub fn from_str(s: &str) -> (r: Result<SetGold, DevToolParseError>)
        ensures
            r == Self::spec_from_str(s@),
    {
        let parts = split_whitespace(s);
        if parts.len() == 0 {
            return Err(DevToolParseError::InvalidName);
        }
        if !same_text(parts[0].as_str(), "SetGold") {
            return Err(DevToolParseError::InvalidName);
        }
        if parts.len() == 1 {
            return Err(DevToolParseError::InvalidFieldReference);
        }
        match parse_unsigned(parts[1].as_str()) {
            Some(amount) => Ok(SetGold { amount }),
            None => Err(DevToolParseError::InvalidValue),
        }
    }
}

impl Default for SetGold {
    fn default() -> (set: SetGold)
        ensures
            set.amount == 0,
    {
        SetGold { amount: 0 }
    }
}

impl DevCommand for SetGold {
    open spec fn spec_type_path(&self) -> Seq<char> {
        Self::payload_type_path()
    }

    open spec fn spec_short_description(&self) -> Option<Seq<char>> {
        Some("Sets the player's gold to the provided value."@)
    }

    open spec fn spec_default(&self) -> InstanceView {
        (SetGold { amount: 0 })@
    }

    /// Where the payload holds an amount and the world holds gold, the gold
    /// becomes that amount; else nothing changes.
    open spec fn effect(&self, command: InstanceView, world: Seq<InstanceView>) -> Seq<InstanceView> {
        match Self::amount_in(command) {
            Some(amount) => if find_resource(world, Gold::spec_type_path(), 0) is Some {
                with_resource(world, Gold(amount)@)
            } else {
                world
            },
            None => world,
        }
    }

    fn type_path(&self) -> (path: String) {
        "dev_console::test_commands::SetGold".to_owned()
    }

    fn short_description(&self) -> (description: Option<String>) {
        Some("Sets the player's gold to the provided value.".to_owned())
    }

    fn create_default(&self) -> (instance: Instance) {
        SetGold::default().reflect()
    }

    fn apply(&self, command: &Instance, world: &mut World) {
        match SetGold::from_reflect(command) {
            Some(set) => {
                if world.position(Gold::type_path()).is_some() {
                    world.insert_resource(Gold(set.amount).reflect());
                }
            },
            None => {},
        }
    }
}

} // verus!
