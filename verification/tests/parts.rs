use dev_console::codec::{
    apply_first, parse_bool, parse_unsigned, Applyer, OptionParse, ParseFn, Parser, StandardParse,
};
use dev_console::dev_api::DevCommand;
use dev_console::dev_terminal::{LineRequest, ReadedLine, SafeInput};
use dev_console::error::DevToolParseError;
use dev_console::patch::Patch;
use dev_console::queue::{CommandQueue, Mutation};
use dev_console::reflect::{
    get_field_by_idx, get_field_by_idx_readonly, get_field_by_name, get_field_by_name_readonly, Field,
    Instance, Label, Scalar, Shape,
};
use dev_console::test_commands::{unsigned_value, Gold, SetGold};
use dev_console::text::{chars_of, same_text, split_whitespace, starts_with_marker, trim_markers};
use dev_console::world::World;

fn leaf(type_path: &str, scalar: Scalar) -> Instance {
    Instance { type_path: type_path.to_string(), shape: Shape::Value(scalar) }
}

fn number(n: u64) -> Instance {
    leaf("u64", Scalar::Unsigned(n))
}

fn positional(value: Instance) -> Field {
    Field { label: Label::Position, value }
}

fn named(name: &str, value: Instance) -> Field {
    Field { label: Label::Name(name.to_string()), value }
}

fn record(fields: Vec<Field>) -> Instance {
    Instance { type_path: "record".to_string(), shape: Shape::Struct(fields) }
}

/// Reads the bit pattern of a 32-bit float.
struct FloatBits;

impl ParseFn for FloatBits {
    fn parse(&self, text: &str) -> Option<Instance> {
        let value: f32 = text.parse().ok()?;
        Some(leaf("f32", Scalar::Bits(value.to_bits() as u64)))
    }
}

#[test]
fn split_whitespace_gives_the_words() {
    assert_eq!(split_whitespace("setgold 500"), vec!["setgold", "500"]);
    assert_eq!(split_whitespace("  a \t b\n\nc  "), vec!["a", "b", "c"]);
    assert_eq!(split_whitespace(""), Vec::<String>::new());
    assert_eq!(split_whitespace(" \t\r\n"), Vec::<String>::new());
    assert_eq!(split_whitespace("one"), vec!["one"]);
    assert_eq!(split_whitespace("a\u{3000}b\u{a0}c"), vec!["a", "b", "c"]);
    assert_eq!(split_whitespace("--x Some(5.0)"), vec!["--x", "Some(5.0)"]);
    assert_eq!(split_whitespace("é ü"), vec!["é", "ü"]);
}

#[test]
fn split_whitespace_agrees_with_the_standard_split() {
    for line in ["a b", " a  b ", "", "x\ty\u{2003}z", "\u{85}q", "tab\tonly", "ünï cödé  "] {
        let expected: Vec<String> = line.split_whitespace().map(|w| w.to_string()).collect();
        assert_eq!(split_whitespace(line), expected);
    }
}

#[test]
fn markers_are_recognised_and_taken_off() {
    assert!(starts_with_marker("--amount"));
    assert!(starts_with_marker("--"));
    assert!(!starts_with_marker("-a"));
    assert!(!starts_with_marker("a--"));
    assert!(!starts_with_marker(""));
    assert!(!starts_with_marker("-"));
    assert_eq!(trim_markers("--amount"), "amount");
    assert_eq!(trim_markers("----amount"), "amount");
    assert_eq!(trim_markers("---amount"), "-amount");
    assert_eq!(trim_markers("--"), "");
    assert_eq!(trim_markers("--a--b"), "a--b");
    assert_eq!(trim_markers("-----"), "-");
}

#[test]
fn text_helpers() {
    assert!(same_text("abc", "abc"));
    assert!(!same_text("abc", "abd"));
    assert!(!same_text("abc", "ab"));
    assert!(same_text("", ""));
    assert_eq!(chars_of("aé😀"), vec!['a', 'é', '😀']);
    assert_eq!(chars_of(""), Vec::<char>::new());
}

#[test]
fn unsigned_numbers_are_read_as_the_standard_parse_reads_them() {
    assert_eq!(parse_unsigned("500"), Some(500));
    assert_eq!(parse_unsigned("0"), Some(0));
    assert_eq!(parse_unsigned("+5"), Some(5));
    assert_eq!(parse_unsigned("007"), Some(7));
    assert_eq!(parse_unsigned("18446744073709551615"), Some(u64::MAX));
    assert_eq!(parse_unsigned("18446744073709551616"), None);
    assert_eq!(parse_unsigned("99999999999999999999999"), None);
    assert_eq!(parse_unsigned(""), None);
    assert_eq!(parse_unsigned("+"), None);
    assert_eq!(parse_unsigned("-5"), None);
    assert_eq!(parse_unsigned("-0"), None);
    assert_eq!(parse_unsigned("++5"), None);
    assert_eq!(parse_unsigned("5 "), None);
    assert_eq!(parse_unsigned(" 5"), None);
    assert_eq!(parse_unsigned("1_000"), None);
    assert_eq!(parse_unsigned("12a"), None);
    assert_eq!(parse_unsigned("٣"), None);
    for text in ["1", "+0", "000", "18446744073709551615", "18446744073709551620", "", "+", "4x"] {
        assert_eq!(parse_unsigned(text), text.parse::<u64>().ok());
    }
}

#[test]
fn truth_values_are_read_as_the_standard_parse_reads_them() {
    assert_eq!(parse_bool("true"), Some(true));
    assert_eq!(parse_bool("false"), Some(false));
    assert_eq!(parse_bool("True"), None);
    assert_eq!(parse_bool("1"), None);
    assert_eq!(parse_bool(""), None);
    assert_eq!(parse_bool("true "), None);
}

#[test]
fn standard_strategies_make_leaves_of_their_type() {
    assert_eq!(StandardParse::Unsigned.parse("12"), Some(number(12)));
    assert_eq!(StandardParse::Unsigned.parse("x"), None);
    assert_eq!(StandardParse::Bool.parse("true"), Some(leaf("bool", Scalar::Bool(true))));
    assert_eq!(StandardParse::Bool.parse("yes"), None);
    assert_eq!(
        StandardParse::Text.parse("any text"),
        Some(leaf("alloc::string::String", Scalar::Text("any text".to_string())))
    );
    assert_eq!(StandardParse::Text.parse(""), Some(leaf("alloc::string::String", Scalar::Text(String::new()))));
    assert_eq!(StandardParse::Unsigned.type_path(), "u64");
    assert_eq!(StandardParse::Bool.type_path(), "bool");
    assert_eq!(StandardParse::Text.type_path(), "alloc::string::String");
}

#[test]
fn optional_values_follow_the_convention() {
    let strategy = OptionParse { type_path: "Option<f32>".to_string(), inner: FloatBits };
    let none = Instance {
        type_path: "Option<f32>".to_string(),
        shape: Shape::Enum("None".to_string(), vec![]),
    };
    let some = |x: f32| Instance {
        type_path: "Option<f32>".to_string(),
        shape: Shape::Enum(
            "Some".to_string(),
            vec![positional(leaf("f32", Scalar::Bits(x.to_bits() as u64)))],
        ),
    };
    assert_eq!(strategy.parse("None"), Some(none));
    assert_eq!(strategy.parse("Some(5.0)"), Some(some(5.0)));
    assert_eq!(strategy.parse("Some(-0.25)"), Some(some(-0.25)));
    assert_eq!(strategy.parse("Some()"), None);
    assert_eq!(strategy.parse("Some(x)"), None);
    assert_eq!(strategy.parse("Some(5.0"), None);
    assert_eq!(strategy.parse("some(5.0)"), None);
    assert_eq!(strategy.parse("Some("), None);
    assert_eq!(strategy.parse("5.0"), None);
    assert_eq!(strategy.parse("none"), None);
    assert_eq!(strategy.parse(""), None);
    let nested = OptionParse {
        type_path: "Option<u64>".to_string(),
        inner: StandardParse::Unsigned,
    };
    assert_eq!(
        nested.parse("Some(7)"),
        Some(Instance {
            type_path: "Option<u64>".to_string(),
            shape: Shape::Enum("Some".to_string(), vec![positional(number(7))]),
        })
    );
}

#[test]
fn an_applyer_fills_only_fields_of_its_type() {
    let applyer: Applyer<FloatBits> =
        Applyer { type_path: "u64".to_string(), parser: Parser::Standard(StandardParse::Unsigned) };
    let mut field = number(1);
    assert!(applyer.apply(&mut field, "2"));
    assert_eq!(field, number(2));
    assert!(!applyer.apply(&mut field, "two"));
    assert_eq!(field, number(2));
    let mut other = leaf("bool", Scalar::Bool(false));
    assert!(!applyer.apply(&mut other, "2"));
    assert_eq!(other, leaf("bool", Scalar::Bool(false)));
    assert_eq!(applyer.parse_same(&field, "3"), Ok(number(3)));
    assert_eq!(applyer.parse_same(&field, "x"), Err(DevToolParseError::InvalidValue));
    assert_eq!(applyer.parse_same(&other, "3"), Err(DevToolParseError::InvalidValue));
}

#[test]
fn applyers_are_tried_in_order() {
    let applyers: Vec<Applyer<FloatBits>> = vec![
        Applyer { type_path: "bool".to_string(), parser: Parser::Standard(StandardParse::Bool) },
        Applyer { type_path: "f32".to_string(), parser: Parser::Custom(FloatBits) },
        Applyer { type_path: "u64".to_string(), parser: Parser::Standard(StandardParse::Unsigned) },
    ];
    let mut field = number(0);
    assert!(apply_first(&applyers, &mut field, "8"));
    assert_eq!(field, number(8));
    assert!(!apply_first(&applyers, &mut field, "1.5"));
    assert_eq!(field, number(8));
    let mut float = leaf("f32", Scalar::Bits(0));
    assert!(apply_first(&applyers, &mut float, "1.5"));
    assert_eq!(float, leaf("f32", Scalar::Bits(1.5f32.to_bits() as u64)));
    let mut unknown = leaf("i8", Scalar::Signed(0));
    assert!(!apply_first(&applyers, &mut unknown, "1"));
    assert!(!apply_first(&Vec::<Applyer<FloatBits>>::new(), &mut field, "1"));
}

#[test]
fn fields_are_found_by_position_in_every_composite_shape() {
    for kind in 0..7 {
        let fields = vec![positional(number(10)), named("b", number(11))];
        let shape = match kind {
            0 => Shape::Struct(fields),
            1 => Shape::TupleStruct(fields),
            2 => Shape::Tuple(fields),
            3 => Shape::List(fields),
            4 => Shape::Array(fields),
            5 => Shape::Mapping(fields),
            _ => Shape::Enum("V".to_string(), fields),
        };
        let mut value = Instance { type_path: "t".to_string(), shape };
        assert_eq!(get_field_by_idx(&mut value, 0), Ok(&mut number(10)));
        assert_eq!(get_field_by_idx(&mut value, 1), Ok(&mut number(11)));
        assert_eq!(get_field_by_idx(&mut value, 2), Err(DevToolParseError::InvalidFieldReference));
        assert_eq!(get_field_by_idx_readonly(&value, 1), Ok(&number(11)));
        assert_eq!(
            get_field_by_idx_readonly(&value, 2),
            Err(DevToolParseError::InvalidFieldReference)
        );
        *get_field_by_idx(&mut value, 1).unwrap() = number(12);
        assert_eq!(get_field_by_idx(&mut value, 1), Ok(&mut number(12)));
        assert_eq!(get_field_by_idx(&mut value, 0), Ok(&mut number(10)));
    }
}

#[test]
fn fields_are_found_by_name_in_structs_and_enums() {
    let fields = || vec![named("a", number(1)), positional(number(2)), named("b", number(3)), named("a", number(4))];
    for kind in 0..2 {
        let shape = if kind == 0 { Shape::Struct(fields()) } else { Shape::Enum("V".to_string(), fields()) };
        let mut value = Instance { type_path: "t".to_string(), shape };
        assert_eq!(get_field_by_name_readonly(&value, "a"), Ok(&number(1)));
        assert_eq!(get_field_by_name_readonly(&value, "b"), Ok(&number(3)));
        assert_eq!(
            get_field_by_name_readonly(&value, "c"),
            Err(DevToolParseError::InvalidFieldReference)
        );
        assert_eq!(
            get_field_by_name_readonly(&value, "A"),
            Err(DevToolParseError::InvalidFieldReference)
        );
        *get_field_by_name(&mut value, "b").unwrap() = number(30);
        *get_field_by_name(&mut value, "a").unwrap() = number(10);
        assert_eq!(get_field_by_name(&mut value, "a"), Ok(&mut number(10)));
        assert_eq!(get_field_by_idx(&mut value, 2), Ok(&mut number(30)));
        assert_eq!(get_field_by_idx(&mut value, 3), Ok(&mut number(4)));
        assert_eq!(get_field_by_name(&mut value, "z"), Err(DevToolParseError::InvalidFieldReference));
    }
    let mut unit = Instance { type_path: "t".to_string(), shape: Shape::Enum("Unit".to_string(), vec![]) };
    assert_eq!(get_field_by_name(&mut unit, "a"), Err(DevToolParseError::InvalidFieldReference));
    assert_eq!(get_field_by_idx(&mut unit, 0), Err(DevToolParseError::InvalidFieldReference));
}

#[test]
fn shapes_without_names_refuse_names() {
    for kind in 0..5 {
        let fields = vec![named("a", number(1))];
        let shape = match kind {
            0 => Shape::TupleStruct(fields),
            1 => Shape::Tuple(fields),
            2 => Shape::List(fields),
            3 => Shape::Array(fields),
            _ => Shape::Mapping(fields),
        };
        let mut value = Instance { type_path: "t".to_string(), shape };
        assert_eq!(get_field_by_name(&mut value, "a"), Err(DevToolParseError::UnsupportedField));
        assert_eq!(get_field_by_name_readonly(&value, "a"), Err(DevToolParseError::UnsupportedField));
    }
}

#[test]
fn a_leaf_stands_for_itself() {
    let mut value = number(5);
    assert_eq!(get_field_by_idx(&mut value, 0), Ok(&mut number(5)));
    assert_eq!(get_field_by_idx(&mut value, 1), Err(DevToolParseError::InvalidFieldReference));
    assert_eq!(get_field_by_idx_readonly(&value, 0), Ok(&number(5)));
    assert_eq!(get_field_by_idx_readonly(&value, 3), Err(DevToolParseError::InvalidFieldReference));
    assert_eq!(get_field_by_name(&mut value, "anything"), Ok(&mut number(5)));
    assert_eq!(get_field_by_name_readonly(&value, ""), Ok(&number(5)));
    *get_field_by_idx(&mut value, 0).unwrap() = number(6);
    assert_eq!(value, number(6));
    *get_field_by_name(&mut value, "n").unwrap() = number(7);
    assert_eq!(value, number(7));
}

#[test]
fn duplicate_makes_an_equal_value() {
    let value = Instance {
        type_path: "outer".to_string(),
        shape: Shape::Mapping(vec![
            Field { label: Label::Key(leaf("k", Scalar::Text("key".to_string()))), value: record(vec![named("a", number(1))]) },
            Field { label: Label::Key(leaf("k", Scalar::Signed(-3))), value: leaf("bits", Scalar::Bits(9)) },
            positional(Instance { type_path: "e".to_string(), shape: Shape::Enum("V".to_string(), vec![positional(leaf("bool", Scalar::Bool(true)))]) }),
        ]),
    };
    assert_eq!(value.duplicate(), value);
    assert_eq!(number(3).duplicate(), number(3));
}

#[test]
fn a_patch_keeps_one_value_per_name() {
    let mut patch = Patch::new();
    assert_eq!(patch.len(), 0);
    assert_eq!(patch.get("a"), None);
    patch.insert("a".to_string(), number(1));
    patch.insert("b".to_string(), number(2));
    patch.insert("a".to_string(), number(3));
    assert_eq!(patch.len(), 2);
    assert_eq!(patch.get("a"), Some(&number(3)));
    assert_eq!(patch.get("b"), Some(&number(2)));
    assert_eq!(patch.get("c"), None);
}

#[test]
fn a_patch_round_trips() {
    let mut tool = record(vec![named("a", number(1)), named("b", leaf("bool", Scalar::Bool(false)))]);
    let mut patch = Patch::new();
    patch.insert("b".to_string(), leaf("bool", Scalar::Bool(true)));
    assert_eq!(patch.apply_to(&mut tool), Ok(()));
    assert_eq!(get_field_by_name_readonly(&tool, "b"), Ok(&leaf("bool", Scalar::Bool(true))));
    assert_eq!(get_field_by_name_readonly(&tool, "a"), Ok(&number(1)));
    let mut single = number(1);
    let mut patch = Patch::new();
    patch.insert("whatever".to_string(), number(2));
    assert_eq!(patch.apply_to(&mut single), Ok(()));
    assert_eq!(get_field_by_name_readonly(&single, "whatever"), Ok(&number(2)));
}

#[test]
fn a_patch_that_fails_changes_nothing() {
    let start = || record(vec![named("a", number(1)), named("b", number(2))]);
    let mut tool = start();
    let mut patch = Patch::new();
    patch.insert("a".to_string(), number(10));
    patch.insert("missing".to_string(), number(11));
    assert_eq!(patch.apply_to(&mut tool), Err(DevToolParseError::InvalidFieldReference));
    assert_eq!(tool, start());
    let mut patch = Patch::new();
    patch.insert("a".to_string(), number(10));
    patch.insert("b".to_string(), leaf("bool", Scalar::Bool(true)));
    assert_eq!(patch.apply_to(&mut tool), Err(DevToolParseError::InvalidValue));
    assert_eq!(tool, start());
    let mut tuple = Instance { type_path: "t".to_string(), shape: Shape::Tuple(vec![positional(number(1))]) };
    let mut patch = Patch::new();
    patch.insert("a".to_string(), number(10));
    assert_eq!(patch.apply_to(&mut tuple), Err(DevToolParseError::UnsupportedField));
    let mut world = World::new();
    world.insert_resource(start());
    let mut patch = Patch::new();
    patch.insert("b".to_string(), number(20));
    patch.insert("c".to_string(), number(30));
    assert_eq!(world.apply_patch("record", &patch), Err(DevToolParseError::InvalidFieldReference));
    assert_eq!(world.resources, vec![start()]);
    let mut patch = Patch::new();
    patch.insert("b".to_string(), number(20));
    assert_eq!(world.apply_patch("record", &patch), Ok(()));
    assert_eq!(world.resources, vec![record(vec![named("a", number(1)), named("b", number(20))])]);
    assert_eq!(world.apply_patch("absent", &patch), Ok(()));
    assert_eq!(world.resources.len(), 1);
}

#[test]
fn the_world_holds_one_resource_per_type() {
    let mut world = World::new();
    assert_eq!(world.get_resource("u64"), None);
    assert_eq!(world.position("u64"), None);
    world.insert_resource(number(1));
    world.insert_resource(leaf("bool", Scalar::Bool(true)));
    world.insert_resource(number(2));
    assert_eq!(world.resources, vec![number(2), leaf("bool", Scalar::Bool(true))]);
    assert_eq!(world.get_resource("u64"), Some(&number(2)));
    assert_eq!(world.get_resource("bool"), Some(&leaf("bool", Scalar::Bool(true))));
    assert_eq!(world.position("bool"), Some(1));
    assert_eq!(world.get_resource("U64"), None);
}

#[test]
fn queued_mutations_are_applied_in_order() {
    let commands: Vec<SetGold> = vec![SetGold::default()];
    let mut world = World::new();
    world.insert_resource(Gold(0).reflect());
    let mut queue = CommandQueue::new();
    queue.push(Mutation { slot: 0, command: SetGold { amount: 5 }.reflect() });
    queue.push(Mutation { slot: 3, command: SetGold { amount: 6 }.reflect() });
    queue.push(Mutation { slot: 0, command: SetGold { amount: 7 }.reflect() });
    assert_eq!(world.resources, vec![Gold(0).reflect()]);
    queue.apply(&commands, &mut world);
    assert_eq!(world.resources, vec![Gold(7).reflect()]);
    assert!(queue.pending.is_empty());
    queue.apply(&commands, &mut world);
    assert_eq!(world.resources, vec![Gold(7).reflect()]);
}

#[test]
fn set_gold_reads_a_line_on_its_own() {
    assert_eq!(SetGold::from_str("SetGold 500"), Ok(SetGold { amount: 500 }));
    assert_eq!(SetGold::from_str("  SetGold   7  extra"), Ok(SetGold { amount: 7 }));
    assert_eq!(SetGold::from_str("setgold 500"), Err(DevToolParseError::InvalidName));
    assert_eq!(SetGold::from_str(""), Err(DevToolParseError::InvalidName));
    assert_eq!(SetGold::from_str("Other 5"), Err(DevToolParseError::InvalidName));
    assert_eq!(SetGold::from_str("SetGold"), Err(DevToolParseError::InvalidFieldReference));
    assert_eq!(SetGold::from_str("SetGold five"), Err(DevToolParseError::InvalidValue));
    assert_eq!(SetGold::from_str("SetGold -5"), Err(DevToolParseError::InvalidValue));
}

#[test]
fn set_gold_and_its_payload() {
    assert_eq!(SetGold::default(), SetGold { amount: 0 });
    let payload = SetGold { amount: 4 }.reflect();
    assert_eq!(payload, record_named("dev_console::test_commands::SetGold", "amount", 4));
    assert_eq!(SetGold::from_reflect(&payload), Some(SetGold { amount: 4 }));
    assert_eq!(SetGold::from_reflect(&number(4)), Some(SetGold { amount: 4 }));
    assert_eq!(SetGold::from_reflect(&record(vec![named("other", number(1))])), None);
    assert_eq!(SetGold::from_reflect(&record(vec![named("amount", leaf("bool", Scalar::Bool(true)))])), None);
    assert_eq!(unsigned_value(9), number(9));
    assert_eq!(
        Gold(3).reflect(),
        Instance {
            type_path: "dev_console::test_commands::Gold".to_string(),
            shape: Shape::TupleStruct(vec![positional(number(3))]),
        }
    );
    let command = SetGold::default();
    assert_eq!(command.create_default(), SetGold { amount: 0 }.reflect());
    assert_eq!(command.name(), "SetGold");
    let mut world = World::new();
    command.apply(&payload, &mut world);
    assert!(world.resources.is_empty());
    world.insert_resource(Gold(1).reflect());
    command.apply(&record(vec![]), &mut world);
    assert_eq!(world.resources, vec![Gold(1).reflect()]);
    command.apply(&payload, &mut world);
    assert_eq!(world.resources, vec![Gold(4).reflect()]);
}

fn record_named(type_path: &str, name: &str, n: u64) -> Instance {
    Instance { type_path: type_path.to_string(), shape: Shape::Struct(vec![named(name, number(n))]) }
}

#[test]
fn one_request_for_a_line_at_a_time() {
    let mut input = SafeInput::default();
    assert!(input.is_none());
    assert_eq!(input.receive_task(Some(Ok("dropped".to_string()))), None);
    assert!(input.is_none());
    assert_eq!(input.read_new_line(), LineRequest::Start);
    assert!(!input.is_none());
    assert_eq!(input.read_new_line(), LineRequest::Refused);
    assert!(!input.is_none());
    assert_eq!(input.update_terminal(), None);
    assert_eq!(input.receive_task(None), None);
    assert!(!input.is_none());
    assert_eq!(
        input.receive_task(Some(Ok("setgold 1".to_string()))),
        Some(ReadedLine(Ok("setgold 1".to_string())))
    );
    assert!(input.is_none());
    assert_eq!(input.update_terminal(), Some(LineRequest::Start));
    let line = input.receive_task(Some(Err("eof".to_string()))).unwrap();
    assert!(line.asks_to_exit());
    assert!(!ReadedLine(Ok(String::new())).asks_to_exit());
    assert!(input.is_none());
}

#[test]
fn errors_describe_themselves() {
    assert_eq!(DevToolParseError::InvalidName.message(), "unknown command or tool");
    assert_eq!(DevToolParseError::InvalidFieldReference.message(), "invalid field reference");
    assert_eq!(DevToolParseError::InvalidValue.message(), "no codec accepted the value");
    assert_eq!(
        DevToolParseError::UnsupportedField.message(),
        "named fields are not supported by this shape"
    );
}
