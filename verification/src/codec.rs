//! Codecs: parse strategies that turn text into a value of one type, and
//! the appliers that write such a value into a field of that type.
use crate::error::DevToolParseError;
use crate::reflect::{
    lemma_view, Field, FieldView, Instance, InstanceView, Kind, Label, LabelView, Scalar, ScalarView,
    Shape, ShapeView,
};
use crate::text::{chars_of, same_text};
use vstd::prelude::*;

verus! {

/// A parse strategy: how text becomes a value of one concrete type.
///
/// `parsed` is the model of `parse`: contracts speak of what a strategy does
/// through it. An implementation that states no model keeps the default,
/// and what is proved of the console then says nothing of that strategy.
pub trait ParseFn {
    /// What `parse` makes of `text`: the value, or `None` where the text is rejected.
    open spec fn parsed(&self, text: Seq<char>) -> Option<InstanceView> {
        None
    }

    /// Parses `text`, or rejects it with `None`.
    fn parse(&self, text: &str) -> (r: Option<Instance>)
        ensures
            match r {
                Some(value) => self.parsed(text@) == Some(value@),
                None => self.parsed(text@) is None,
            },
    ;
}

/// The value of a decimal digit.
pub open spec fn digit_value(c: char) -> Option<nat> {
    if '0' as u32 <= c as u32 <= '9' as u32 {
        Some((c as u32 - '0' as u32) as nat)
    } else {
        None
    }
}

/// The number that a run of decimal digits denotes; `None` if any character
/// is no digit. The empty run denotes 0.
pub open spec fn digits_value(digits: Seq<char>) -> Option<nat>
    decreases digits.len(),
{
    if digits.len() == 0 {
        Some(0)
    } else {
        match (digits_value(digits.drop_last()), digit_value(digits.last())) {
            (Some(high), Some(low)) => Some(10 * high + low),
            _ => None,
        }
    }
}

/// The standard reading of text as an unsigned 64-bit number: an optional
/// `+`, then at least one decimal digit and nothing else, the number no
/// larger than `u64::MAX`.
pub open spec fn unsigned_of(text: Seq<char>) -> Option<u64> {
    let digits = if text.len() > 0 && text[0] == '+' {
        text.skip(1)
    } else {
        text
    };
    if digits.len() == 0 {
        None
    } else {
        match digits_value(digits) {
            Some(n) => if n <= u64::MAX {
                Some(n as u64)
            } else {
                None
            },
            None => None,
        }
    }
}

/// The standard reading of text as a truth value: exactly `true` or `false`.
pub open spec fn bool_of(text: Seq<char>) -> Option<bool> {
    if text == "true"@ {
        Some(true)
    } else if text == "false"@ {
        Some(false)
    } else {
        None
    }
}

/// A run with a character that is no digit denotes nothing, and a run
/// denotes at least what any of its prefixes denotes.
pub proof fn lemma_digits_prefix(digits: Seq<char>, k: int)
    requires
        0 <= k <= digits.len(),
    ensures
        digits_value(digits.take(k)) is None ==> digits_value(digits) is None,
        digits_value(digits) matches Some(n) ==> digits_value(digits.take(k)).unwrap() <= n,
    decreases digits.len() - k,
{
    if k == digits.len() {
        assert(digits.take(k) =~= digits);
    } else {
        lemma_digits_prefix(digits.drop_last(), k);
        assert(digits.drop_last().take(k) =~= digits.take(k));
    }
}

/// Reads `text` as an unsigned 64-bit number.
pub fn parse_unsigned(text: &str) -> (r: Option<u64>)
    ensures
        r == unsigned_of(text@),
{
    let chars = chars_of(text);
    let n = chars.len();
    let first: usize = if n > 0 && chars[0] == '+' {
        1
    } else {
        0
    };
    if first >= n {
        return None;
    }
    let ghost digits = text@.skip(first as int);
    assert(text@.skip(0) =~= text@);
    let mut value: u64 = 0;
    let mut i: usize = first;
    assert(digits.take(0) =~= Seq::<char>::empty());
    while i < n
        invariant
            chars@ == text@,
            n == chars@.len(),
            first <= i <= n,
            digits == text@.skip(first as int),
            digits.len() > 0,
            digits == (if text@.len() > 0 && text@[0] == '+' {
                text@.skip(1)
            } else {
                text@
            }),
            digits_value(digits.take(i - first)) == Some(value as nat),
        decreases n - i,
    {
        let c = chars[i];
        let code: u32 = c as u32;
        proof {
            // The prefix that ends with `c` is the prefix read so far and `c`.
            lemma_digits_prefix(digits, i - first + 1);
            assert(digits.take(i - first + 1).drop_last() =~= digits.take(i - first));
            assert(digits.take(i - first + 1).last() == c);
        }
        if code < 48 || code > 57 {
            return None;
        }
        let low: u64 = (code - 48) as u64;
        if value > (u64::MAX - low) / 10 {
            return None;
        }
        value = value * 10 + low;
        i += 1;
    }
    assert(digits.take(n - first) =~= digits);
    Some(value)
}

/// Reads `text` as a truth value.
pub fn parse_bool(text: &str) -> (r: Option<bool>)
    ensures
        r == bool_of(text@),
{
    if same_text(text, "true") {
        Some(true)
    } else if same_text(text, "false") {
        Some(false)
    } else {
        None
    }
}

/// The standard textual parse of the built-in scalar types.
#[derive(Clone, Copy, Debug, PartialEq, Eq, Structural)]
pub enum StandardParse {
    /// `bool`, read from `true` or `false`.
    Bool,
    /// `u64`, read from decimal digits.
    Unsigned,
    /// `String`, which takes every text as it is.
    Text,
}

impl StandardParse {
    /// The type identity of the values that this strategy makes.
    pub open spec fn spec_type_path(&self) -> Seq<char> {
        match self {
            StandardParse::Bool => "bool"@,
            StandardParse::Unsigned => "u64"@,
            StandardParse::Text => "alloc::string::String"@,
        }
    }

    /// The type identity of the values that this strategy makes.
    pub fn type_path(&self) -> (path: &'static str)
        ensures
            path@ == self.spec_type_path(),
    {
        match self {
            StandardParse::Bool => "bool",
            StandardParse::Unsigned => "u64",
            StandardParse::Text => "alloc::string::String",
        }
    }

    /// The scalar that the standard parse reads from `text`.
    pub open spec fn scalar_of(&self, text: Seq<char>) -> Option<ScalarView> {
        match self {
            StandardParse::Bool => match bool_of(text) {
                Some(b) => Some(ScalarView::Bool(b)),
                None => None,
            },
            StandardParse::Unsigned => match unsigned_of(text) {
                Some(n) => Some(ScalarView::Unsigned(n)),
                None => None,
            },
            StandardParse::Text => Some(ScalarView::Text(text)),
        }
    }
}

impl ParseFn for StandardParse {
    open spec fn parsed(&self, text: Seq<char>) -> Option<InstanceView> {
        match self.scalar_of(text) {
            Some(scalar) => Some(
                InstanceView { type_path: self.spec_type_path(), shape: ShapeView::Value(scalar) },
            ),
            None => None,
        }
    }

    fn parse(&self, text: &str) -> (r: Option<Instance>) {
        let scalar = match self {
            StandardParse::Bool => match parse_bool(text) {
                Some(b) => Some(Scalar::Bool(b)),
                None => None,
            },
            StandardParse::Unsigned => match parse_unsigned(text) {
                Some(n) => Some(Scalar::Unsigned(n)),
                None => None,
            },
            StandardParse::Text => Some(Scalar::Text(text.to_owned())),
        };
        match scalar {
            Some(scalar) => {
                let value = Instance {
                    type_path: self.type_path().to_owned(),
                    shape: Shape::Value(scalar),
                };
                proof {
                    lemma_view(value);
                }
                Some(value)
            },
            None => None,
        }
    }
}

/// A boxed strategy parses as the strategy in the box does; so a console
/// can hold strategies of many types as `Box<dyn ParseFn>`.
impl<F: ParseFn + ?Sized> ParseFn for Box<F> {
    open spec fn parsed(&self, text: Seq<char>) -> Option<InstanceView> {
        (**self).parsed(text)
    }

    fn parse(&self, text: &str) -> (r: Option<Instance>) {
        (**self).parse(text)
    }
}

/// What a text says of an optional value, by the convention `None` /
/// `Some(<text>)`: `Some(None)` for `None`, `Some(Some(inner))` for
/// `Some(inner)`, and `None` for a text that follows neither form.
pub open spec fn optional_form(text: Seq<char>) -> Option<Option<Seq<char>>> {
    if text =~= seq!['N', 'o', 'n', 'e'] {
        Some(None)
    } else if text.len() >= 6 && text.subrange(0, 5) =~= seq!['S', 'o', 'm', 'e', '('] && text.last()
        == ')' {
        Some(Some(text.subrange(5, text.len() - 1)))
    } else {
        None
    }
}

/// The model of an optional value of type `type_path`: an enum whose
/// variant `None` has no field and whose variant `Some` has one.
pub open spec fn optional_view(type_path: Seq<char>, value: Option<InstanceView>) -> InstanceView {
    InstanceView {
        type_path,
        shape: match value {
            Some(inner) => ShapeView::Composite(
                Kind::Enum(seq!['S', 'o', 'm', 'e']),
                seq![FieldView { label: LabelView::Position, value: inner }],
            ),
            None => ShapeView::Composite(Kind::Enum(seq!['N', 'o', 'n', 'e']), Seq::empty()),
        },
    }
}

/// A strategy for optional values: it reads `None` as the absent value and
/// `Some(<text>)` as the value that `inner` makes of `<text>`.
pub struct OptionParse<F: ParseFn> {
    /// The type identity of the optional values that this strategy makes.
    pub type_path: String,
    /// The strategy for the value inside `Some(..)`.
    pub inner: F,
}

impl<F: ParseFn> ParseFn for OptionParse<F> {
    open spec fn parsed(&self, text: Seq<char>) -> Option<InstanceView> {
        match optional_form(text) {
            None => None,
            Some(None) => Some(optional_view(self.type_path@, None)),
            Some(Some(inner)) => match self.inner.parsed(inner) {
                Some(value) => Some(optional_view(self.type_path@, Some(value))),
                None => None,
            },
        }
    }

    fn parse(&self, text: &str) -> (r: Option<Instance>) {
        let chars = chars_of(text);
        let n = chars.len();
        if n == 4 && chars[0] == 'N' && chars[1] == 'o' && chars[2] == 'n' && chars[3] == 'e' {
            let value = Instance {
                type_path: self.type_path.clone(),
                shape: Shape::Enum("None".to_owned(), Vec::new()),
            };
            proof {
                reveal_strlit("None");
                lemma_view(value);
                assert("None"@ =~= seq!['N', 'o', 'n', 'e']);
                assert(value@.shape->Composite_1 =~= Seq::<FieldView>::empty());
            }
            Some(value)
        } else if n >= 6 && chars[0] == 'S' && chars[1] == 'o' && chars[2] == 'm' && chars[3] == 'e'
            && chars[4] == '(' && chars[n - 1] == ')' {
            match self.inner.parse(text.substring_char(5, n - 1)) {
                Some(inner) => {
                    let mut fields: Vec<Field> = Vec::new();
                    fields.push(Field { label: Label::Position, value: inner });
                    let value = Instance {
                        type_path: self.type_path.clone(),
                        shape: Shape::Enum("Some".to_owned(), fields),
                    };
                    proof {
                        reveal_strlit("Some");
                        lemma_view(value);
                        assert("Some"@ =~= seq!['S', 'o', 'm', 'e']);
                        assert(value@.shape->Composite_1 =~= seq![
                            FieldView { label: LabelView::Position, value: inner@ },
                        ]);
                    }
                    Some(value)
                },
                None => None,
            }
        } else {
            None
        }
    }
}

/// The parse strategy of a codec: the standard textual parse of a built-in
/// type, or a strategy that the caller supplied.
pub enum Parser<P: ParseFn> {
    Standard(StandardParse),
    Custom(P),
}

impl<P: ParseFn> ParseFn for Parser<P> {
    open spec fn parsed(&self, text: Seq<char>) -> Option<InstanceView> {
        match self {
            Parser::Standard(kind) => kind.parsed(text),
            Parser::Custom(f) => f.parsed(text),
        }
    }

    fn parse(&self, text: &str) -> (r: Option<Instance>) {
        match self {
            Parser::Standard(kind) => kind.parse(text),
            Parser::Custom(f) => f.parse(text),
        }
    }
}

/// A codec: a parse strategy registered for one type identity.
pub struct Applyer<P: ParseFn> {
    /// The type identity that this codec serves.
    pub type_path: String,
    /// How text becomes a value of that type.
    pub parser: Parser<P>,
}

impl<P: ParseFn> Applyer<P> {
    /// What this codec makes of `text`: what its strategy parses, provided
    /// the value is of the codec's own type.
    pub open spec fn value_of(&self, text: Seq<char>) -> Option<InstanceView> {
        match self.parser.parsed(text) {
            Some(value) => if value.type_path == self.type_path@ {
                Some(value)
            } else {
                None
            },
            None => None,
        }
    }

    /// What this codec writes into a field of type `field_type` for `text`:
    /// nothing unless the field is of the codec's type and the text parses.
    pub open spec fn outcome(&self, field_type: Seq<char>, text: Seq<char>) -> Option<InstanceView> {
        if field_type == self.type_path@ {
            self.value_of(text)
        } else {
            None
        }
    }

    /// Parses `text` into a value of this codec's type.
    fn parse_value(&self, text: &str) -> (r: Option<Instance>)
        ensures
            match r {
                Some(value) => self.value_of(text@) == Some(value@),
                None => self.value_of(text@) is None,
            },
    {
        match self.parser.parse(text) {
            Some(value) => {
                proof {
                    lemma_view(value);
                }
                if same_text(value.type_path.as_str(), self.type_path.as_str()) {
                    Some(value)
                } else {
                    None
                }
            },
            None => None,
        }
    }

    /// Tries to fill `field` from `text`.
    ///
    /// Succeeds where the field is of this codec's type and the text parses:
    /// the parsed value then takes the field's place. Otherwise the field is
    /// left as it was.
    pub fn apply(&self, field: &mut Instance, text: &str) -> (done: bool)
        ensures
            match self.outcome(old(field)@.type_path, text@) {
                Some(value) => done && final(field)@ == value,
                None => !done && *final(field) == *old(field),
            },
    {
        proof {
            lemma_view(*field);
        }
        if !same_text(field.type_path.as_str(), self.type_path.as_str()) {
            return false;
        }
        match self.parse_value(text) {
            Some(value) => {
                *field = value;
                true
            },
            None => false,
        }
    }

    /// Parses `text` into a fresh value of the type of `reference`, which is
    /// only looked at to confirm that it is of this codec's type.
    pub fn parse_same(&self, reference: &Instance, text: &str) -> (r: Result<
        Instance,
        DevToolParseError,
    >)
        ensures
            match r {
                Ok(value) => self.outcome(reference@.type_path, text@) == Some(value@),
                Err(e) => self.outcome(reference@.type_path, text@) is None && e
                    == DevToolParseError::InvalidValue,
            },
    {
        proof {
            lemma_view(*reference);
        }
        if !same_text(reference.type_path.as_str(), self.type_path.as_str()) {
            return Err(DevToolParseError::InvalidValue);
        }
        match self.parse_value(text) {
            Some(value) => Ok(value),
            None => Err(DevToolParseError::InvalidValue),
        }
    }
}

/// What the first codec at or after `from` that accepts `text` for a field
/// of type `field_type` makes of it; `None` if every one of them declines.
pub open spec fn first_accepting<P: ParseFn>(
    applyers: Seq<Applyer<P>>,
    field_type: Seq<char>,
    text: Seq<char>,
    from: int,
) -> Option<InstanceView>
    decreases applyers.len() - from,
{
    if from < 0 || from >= applyers.len() {
        None
    } else {
        match applyers[from].outcome(field_type, text) {
            Some(value) => Some(value),
            None => first_accepting(applyers, field_type, text, from + 1),
        }
    }
}

/// Runs `text` through the codecs in registration order until one fills
/// `field`. If all decline, the field is left as it was.
pub fn apply_first<P: ParseFn>(
    applyers: &Vec<Applyer<P>>,
    field: &mut Instance,
    text: &str,
) -> (done: bool)
    ensures
        match first_accepting(applyers@, old(field)@.type_path, text@, 0) {
            Some(value) => done && final(field)@ == value,
            None => !done && *final(field) == *old(field),
        },
{
    let mut i: usize = 0;
    while i < applyers.len()
        invariant
            i <= applyers.len(),
            *field == *old(field),
            first_accepting(applyers@, old(field)@.type_path, text@, 0) == first_accepting(
                applyers@,
                old(field)@.type_path,
                text@,
                i as int,
            ),
        decreases applyers.len() - i,
    {
        if applyers[i].apply(field, text) {
            return true;
        }
        i += 1;
    }
    false
}

} // verus!
