use dev_console::codec::{OptionParse, ParseFn, StandardParse};
use dev_console::dev_api::{DevCommand, ModalDevTool};
use dev_console::dev_terminal::ReadedLine;
use dev_console::error::DevToolParseError;
use dev_console::reflect::{Field, Instance, Label, Scalar, Shape};
use dev_console::test_commands::{Gold, SetGold};
use dev_console::toolbox::CLIToolBox;
use dev_console::world::World;

type Toolbox = CLIToolBox<Box<dyn DevCommand>, Box<dyn ModalDevTool>, Box<dyn ParseFn>>;

const OPTION_F32: &str = "core::option::Option<f32>";
const CAMERA: &str = "game::tools::DevFlyCamera";

fn leaf(type_path: &str, scalar: Scalar) -> Instance {
    Instance { type_path: type_path.to_string(), shape: Shape::Value(scalar) }
}

fn named(name: &str, value: Instance) -> Field {
    Field { label: Label::Name(name.to_string()), value }
}

fn option_f32(value: Option<f32>) -> Instance {
    let shape = match value {
        Some(x) => Shape::Enum(
            "Some".to_string(),
            vec![Field { label: Label::Position, value: leaf("f32", Scalar::Bits(x.to_bits() as u64)) }],
        ),
        None => Shape::Enum("None".to_string(), vec![]),
    };
    Instance { type_path: OPTION_F32.to_string(), shape }
}

/// Reads a 32-bit float into its bit pattern.
struct FloatBits;

impl ParseFn for FloatBits {
    fn parse(&self, text: &str) -> Option<Instance> {
        let value: f32 = text.parse().ok()?;
        Some(leaf("f32", Scalar::Bits(value.to_bits() as u64)))
    }
}

struct DevFlyCamera {
    enabled: bool,
    movement_speed: Option<f32>,
    turn_speed: Option<f32>,
}

impl Default for DevFlyCamera {
    fn default() -> Self {
        DevFlyCamera { enabled: false, movement_speed: Some(3.), turn_speed: Some(10.) }
    }
}

impl ModalDevTool for DevFlyCamera {
    fn type_path(&self) -> String {
        CAMERA.to_string()
    }

    fn reflect(&self) -> Instance {
        Instance {
            type_path: CAMERA.to_string(),
            shape: Shape::Struct(vec![
                named("enabled", leaf("bool", Scalar::Bool(self.enabled))),
                named("movement_speed", option_f32(self.movement_speed)),
                named("turn_speed", option_f32(self.turn_speed)),
            ]),
        }
    }

    fn set_enabled(&mut self, enabled: bool) {
        self.enabled = enabled;
    }

    fn is_enabled(&self) -> bool {
        self.enabled
    }

    fn short_description(&self) -> Option<String> {
        None
    }
}

fn toolbox() -> Toolbox {
    let mut toolbox = Toolbox::new();
    toolbox.add_command(Box::new(SetGold::default()));
    toolbox.add_tool(Box::new(DevFlyCamera::default()));
    toolbox.direct_applyer(StandardParse::Unsigned);
    toolbox.direct_applyer(StandardParse::Bool);
    toolbox.from_parse_fn(
        OPTION_F32,
        Box::new(OptionParse { type_path: OPTION_F32.to_string(), inner: FloatBits }),
    );
    toolbox
}

fn world() -> World {
    let mut world = World::new();
    world.insert_resource(Gold(0).reflect());
    world.insert_resource(DevFlyCamera::default().reflect());
    world
}

fn gold(world: &World) -> Instance {
    world.get_resource(Gold::type_path()).unwrap().duplicate()
}

fn camera(world: &World) -> Instance {
    world.get_resource(CAMERA).unwrap().duplicate()
}

#[test]
fn a_positional_value_fills_the_field() {
    let toolbox = toolbox();
    let (command, metadata) = toolbox.parse_dev_command("setgold 500").unwrap();
    assert_eq!(command, SetGold { amount: 500 }.reflect());
    assert_eq!(metadata.name, "SetGold");
    let mut world = world();
    assert_eq!(toolbox.parse_input("setgold 500", &mut world), Ok(()));
    assert_eq!(gold(&world), Gold(500).reflect());
}

#[test]
fn a_named_value_gives_the_same_result() {
    let toolbox = toolbox();
    let (named, _) = toolbox.parse_dev_command("setgold --amount 500").unwrap();
    let (positional, _) = toolbox.parse_dev_command("setgold 500").unwrap();
    assert_eq!(named, positional);
    let mut world = world();
    assert_eq!(toolbox.parse_input("setgold --amount 500", &mut world), Ok(()));
    assert_eq!(gold(&world), Gold(500).reflect());
}

#[test]
fn no_value_leaves_the_default() {
    let toolbox = toolbox();
    let (command, _) = toolbox.parse_dev_command("setgold").unwrap();
    assert_eq!(command, SetGold { amount: 0 }.reflect());
    let mut world = World::new();
    world.insert_resource(Gold(7).reflect());
    assert_eq!(toolbox.parse_input("setgold", &mut world), Ok(()));
    assert_eq!(gold(&world), Gold(0).reflect());
}

#[test]
fn a_tool_patch_changes_one_field() {
    let toolbox = toolbox();
    let mut world = world();
    let line = "devflycamera --movement_speed Some(5.0)";
    assert_eq!(toolbox.parse_input(line, &mut world), Ok(()));
    let expected = DevFlyCamera { enabled: false, movement_speed: Some(5.0), turn_speed: Some(10.) };
    assert_eq!(camera(&world), expected.reflect());
    assert_eq!(gold(&world), Gold(0).reflect());
}

#[test]
fn an_unknown_name_is_reported() {
    let toolbox = toolbox();
    let mut world = world();
    let before = world.resources.iter().map(|r| r.duplicate()).collect::<Vec<_>>();
    assert_eq!(
        toolbox.parse_input("unknowncmd 1 2 3", &mut world),
        Err(DevToolParseError::InvalidName)
    );
    assert_eq!(world.resources, before);
}

#[test]
fn empty_line_is_an_invalid_name() {
    let toolbox = toolbox();
    let mut world = world();
    assert_eq!(toolbox.parse_input("", &mut world), Err(DevToolParseError::InvalidName));
    assert_eq!(toolbox.parse_input("  \t ", &mut world), Err(DevToolParseError::InvalidName));
    assert_eq!(toolbox.parse_dev_command("").err(), Some(DevToolParseError::InvalidName));
    assert_eq!(
        toolbox.update_tool_command(" ", &mut world),
        Err(DevToolParseError::InvalidName)
    );
    assert_eq!(gold(&world), Gold(0).reflect());
}

#[test]
fn names_are_found_without_regard_to_case() {
    let toolbox = toolbox();
    let mut world = world();
    assert_eq!(toolbox.parse_input("SetGold 12", &mut world), Ok(()));
    assert_eq!(gold(&world), Gold(12).reflect());
    assert_eq!(toolbox.parse_input("SETGOLD 13", &mut world), Ok(()));
    assert_eq!(gold(&world), Gold(13).reflect());
    assert_eq!(toolbox.parse_input("DevFlyCamera --enabled true", &mut world), Ok(()));
    let expected = DevFlyCamera { enabled: true, ..DevFlyCamera::default() };
    assert_eq!(camera(&world), expected.reflect());
}

#[test]
fn field_names_are_case_sensitive() {
    let toolbox = toolbox();
    assert_eq!(
        toolbox.parse_dev_command("setgold --Amount 5").err(),
        Some(DevToolParseError::InvalidFieldReference)
    );
}

#[test]
fn a_name_serves_one_value() {
    let toolbox = toolbox();
    let mut world = world();
    assert_eq!(
        toolbox.parse_input("setgold --amount 500 600", &mut world),
        Err(DevToolParseError::InvalidFieldReference)
    );
    assert_eq!(gold(&world), Gold(0).reflect());
    assert_eq!(
        toolbox.parse_dev_command("setgold 1 --amount 2 3").err(),
        Some(DevToolParseError::InvalidFieldReference)
    );
}

#[test]
fn a_flag_without_a_value_leaves_the_field() {
    let toolbox = toolbox();
    let (command, _) = toolbox.parse_dev_command("setgold --amount").unwrap();
    assert_eq!(command, SetGold { amount: 0 }.reflect());
    let (command, _) = toolbox.parse_dev_command("setgold --nothing --amount 4").unwrap();
    assert_eq!(command, SetGold { amount: 4 }.reflect());
}

#[test]
fn a_value_that_no_codec_takes_is_invalid() {
    let toolbox = toolbox();
    let mut world = world();
    assert_eq!(
        toolbox.parse_input("setgold abc", &mut world),
        Err(DevToolParseError::InvalidValue)
    );
    assert_eq!(gold(&world), Gold(0).reflect());
    let words = vec!["setgold".to_string(), "abc".to_string()];
    let mut target = SetGold { amount: 9 }.reflect();
    assert_eq!(
        toolbox.parse_reflect_from_cli(&words, &mut target),
        Err(DevToolParseError::InvalidValue)
    );
    assert_eq!(target, SetGold { amount: 9 }.reflect());
}

#[test]
fn the_binder_keeps_what_was_bound_before_the_failure() {
    let toolbox = toolbox();
    let words: Vec<String> = ["x", "5", "true"].iter().map(|w| w.to_string()).collect();
    let mut target = Instance {
        type_path: "pair".to_string(),
        shape: Shape::Tuple(vec![
            Field { label: Label::Position, value: leaf("u64", Scalar::Unsigned(0)) },
            Field { label: Label::Position, value: leaf("u64", Scalar::Unsigned(1)) },
        ]),
    };
    assert_eq!(
        toolbox.parse_reflect_from_cli(&words, &mut target),
        Err(DevToolParseError::InvalidValue)
    );
    let expected = Instance {
        type_path: "pair".to_string(),
        shape: Shape::Tuple(vec![
            Field { label: Label::Position, value: leaf("u64", Scalar::Unsigned(5)) },
            Field { label: Label::Position, value: leaf("u64", Scalar::Unsigned(1)) },
        ]),
    };
    assert_eq!(target, expected);
}

#[test]
fn too_many_positional_values_are_an_invalid_index() {
    let toolbox = toolbox();
    assert_eq!(
        toolbox.parse_dev_command("setgold 1 2").err(),
        Some(DevToolParseError::InvalidFieldReference)
    );
}

#[test]
fn positional_values_fill_the_fields_in_order() {
    let toolbox = toolbox();
    let words: Vec<String> = ["x", "5", "true", "7"].iter().map(|w| w.to_string()).collect();
    let start = |a: u64, b: bool, c: u64| Instance {
        type_path: "triple".to_string(),
        shape: Shape::TupleStruct(vec![
            Field { label: Label::Position, value: leaf("u64", Scalar::Unsigned(a)) },
            Field { label: Label::Position, value: leaf("bool", Scalar::Bool(b)) },
            Field { label: Label::Position, value: leaf("u64", Scalar::Unsigned(c)) },
        ]),
    };
    let mut target = start(0, false, 0);
    assert_eq!(toolbox.parse_reflect_from_cli(&words, &mut target), Ok(()));
    assert_eq!(target, start(5, true, 7));
}

#[test]
fn a_leaf_target_is_filled_by_one_value() {
    let toolbox = toolbox();
    let words: Vec<String> = ["x", "42"].iter().map(|w| w.to_string()).collect();
    let mut target = leaf("u64", Scalar::Unsigned(0));
    assert_eq!(toolbox.parse_reflect_from_cli(&words, &mut target), Ok(()));
    assert_eq!(target, leaf("u64", Scalar::Unsigned(42)));
    let words: Vec<String> = ["x", "--any", "43"].iter().map(|w| w.to_string()).collect();
    assert_eq!(toolbox.parse_reflect_from_cli(&words, &mut target), Ok(()));
    assert_eq!(target, leaf("u64", Scalar::Unsigned(43)));
    let words: Vec<String> = ["x", "44", "45"].iter().map(|w| w.to_string()).collect();
    assert_eq!(
        toolbox.parse_reflect_from_cli(&words, &mut target),
        Err(DevToolParseError::InvalidFieldReference)
    );
    assert_eq!(target, leaf("u64", Scalar::Unsigned(44)));
}

#[test]
fn names_on_a_shape_without_names_are_unsupported() {
    let toolbox = toolbox();
    let words: Vec<String> = ["x", "--first", "5"].iter().map(|w| w.to_string()).collect();
    for shape in 0..5 {
        let fields = vec![Field { label: Label::Position, value: leaf("u64", Scalar::Unsigned(0)) }];
        let shape = match shape {
            0 => Shape::TupleStruct(fields),
            1 => Shape::Tuple(fields),
            2 => Shape::List(fields),
            3 => Shape::Array(fields),
            _ => Shape::Mapping(fields),
        };
        let mut target = Instance { type_path: "t".to_string(), shape };
        assert_eq!(
            toolbox.parse_reflect_from_cli(&words, &mut target),
            Err(DevToolParseError::UnsupportedField)
        );
    }
}

#[test]
fn the_first_codec_that_accepts_wins() {
    struct Fixed(u64);
    impl ParseFn for Fixed {
        fn parse(&self, text: &str) -> Option<Instance> {
            if text == "x" || text == "1" {
                Some(leaf("u64", Scalar::Unsigned(self.0)))
            } else {
                None
            }
        }
    }
    let mut toolbox = Toolbox::new();
    toolbox.add_command(Box::new(SetGold::default()));
    toolbox.from_parse_fn("u64", Box::new(Fixed(100)));
    toolbox.direct_applyer(StandardParse::Unsigned);
    toolbox.from_parse_fn("u64", Box::new(Fixed(200)));
    // In order of registration: the first that accepts the text.
    let (command, _) = toolbox.parse_dev_command("setgold 1").unwrap();
    assert_eq!(command, SetGold { amount: 100 }.reflect());
    let (command, _) = toolbox.parse_dev_command("setgold 2").unwrap();
    assert_eq!(command, SetGold { amount: 2 }.reflect());
    let (command, _) = toolbox.parse_dev_command("setgold x").unwrap();
    assert_eq!(command, SetGold { amount: 100 }.reflect());
    // For a patch: the codec registered last for the type, and no other.
    let mut world = World::new();
    world.insert_resource(leaf("u64", Scalar::Unsigned(0)));
    struct Counter;
    impl ModalDevTool for Counter {
        fn type_path(&self) -> String {
            "u64".to_string()
        }
        fn reflect(&self) -> Instance {
            leaf("u64", Scalar::Unsigned(0))
        }
        fn set_enabled(&mut self, _: bool) {}
        fn is_enabled(&self) -> bool {
            false
        }
        fn short_description(&self) -> Option<String> {
            None
        }
    }
    toolbox.add_tool(Box::new(Counter));
    assert_eq!(toolbox.parse_input("u64 --value 1", &mut world), Ok(()));
    assert_eq!(world.resources[0], leaf("u64", Scalar::Unsigned(200)));
    assert_eq!(
        toolbox.parse_input("u64 --value 2", &mut world),
        Err(DevToolParseError::InvalidValue)
    );
    assert_eq!(world.resources[0], leaf("u64", Scalar::Unsigned(200)));
}

#[test]
fn a_codec_that_makes_a_value_of_another_type_is_passed_over() {
    struct Wrong;
    impl ParseFn for Wrong {
        fn parse(&self, _: &str) -> Option<Instance> {
            Some(leaf("bool", Scalar::Bool(true)))
        }
    }
    let mut toolbox = Toolbox::new();
    toolbox.add_command(Box::new(SetGold::default()));
    toolbox.from_parse_fn("u64", Box::new(Wrong));
    assert_eq!(
        toolbox.parse_dev_command("setgold 5").err(),
        Some(DevToolParseError::InvalidValue)
    );
    toolbox.direct_applyer(StandardParse::Unsigned);
    let (command, _) = toolbox.parse_dev_command("setgold 5").unwrap();
    assert_eq!(command, SetGold { amount: 5 }.reflect());
}

#[test]
fn registering_a_name_again_replaces_the_entry() {
    struct Double;
    impl DevCommand for Double {
        fn type_path(&self) -> String {
            "other::module::SetGold".to_string()
        }
        fn short_description(&self) -> Option<String> {
            Some("Sets twice the gold.".to_string())
        }
        fn create_default(&self) -> Instance {
            SetGold { amount: 1 }.reflect()
        }
        fn apply(&self, command: &Instance, world: &mut World) {
            let amount = SetGold::from_reflect(command).unwrap().amount;
            world.insert_resource(Gold(2 * amount).reflect());
        }
    }
    let mut toolbox = toolbox();
    toolbox.add_command(Box::new(Double));
    let mut world = world();
    assert_eq!(toolbox.parse_input("setgold 21", &mut world), Ok(()));
    assert_eq!(gold(&world), Gold(42).reflect());
    let (command, metadata) = toolbox.parse_dev_command("setgold").unwrap();
    assert_eq!(command, SetGold { amount: 1 }.reflect());
    assert_eq!(metadata.type_path, "other::module::SetGold");
    assert_eq!(metadata.short_description.as_deref(), Some("Sets twice the gold."));
}

#[test]
fn a_command_shadows_a_tool_of_the_same_name() {
    struct Shadowed;
    impl ModalDevTool for Shadowed {
        fn type_path(&self) -> String {
            "tools::SetGold".to_string()
        }
        fn reflect(&self) -> Instance {
            Instance {
                type_path: "tools::SetGold".to_string(),
                shape: Shape::Struct(vec![named("amount", leaf("u64", Scalar::Unsigned(0)))]),
            }
        }
        fn set_enabled(&mut self, _: bool) {}
        fn is_enabled(&self) -> bool {
            false
        }
        fn short_description(&self) -> Option<String> {
            None
        }
    }
    let mut toolbox = toolbox();
    toolbox.add_tool(Box::new(Shadowed));
    let mut world = world();
    world.insert_resource(Shadowed.reflect());
    assert_eq!(toolbox.parse_input("setgold --amount 3", &mut world), Ok(()));
    assert_eq!(gold(&world), Gold(3).reflect());
    assert_eq!(world.get_resource("tools::SetGold").unwrap(), &Shadowed.reflect());
    // Addressed as a tool, the tool is found.
    assert_eq!(toolbox.update_tool_command("setgold --amount 3", &mut world), Ok(()));
    let patched = Instance {
        type_path: "tools::SetGold".to_string(),
        shape: Shape::Struct(vec![named("amount", leaf("u64", Scalar::Unsigned(3)))]),
    };
    assert_eq!(world.get_resource("tools::SetGold").unwrap(), &patched);
}

#[test]
fn a_tool_takes_values_by_name_only() {
    let toolbox = toolbox();
    let mut world = world();
    assert_eq!(
        toolbox.parse_input("devflycamera true", &mut world),
        Err(DevToolParseError::InvalidFieldReference)
    );
    assert_eq!(
        toolbox.parse_input("devflycamera --enabled true false", &mut world),
        Err(DevToolParseError::InvalidFieldReference)
    );
    assert_eq!(camera(&world), DevFlyCamera::default().reflect());
}

#[test]
fn a_tool_patch_is_applied_only_as_a_whole() {
    let toolbox = toolbox();
    let mut world = world();
    assert_eq!(
        toolbox.parse_input("devflycamera --enabled true --turn_speed fast", &mut world),
        Err(DevToolParseError::InvalidValue)
    );
    assert_eq!(
        toolbox.parse_input("devflycamera --enabled true --zoom None", &mut world),
        Err(DevToolParseError::InvalidFieldReference)
    );
    assert_eq!(camera(&world), DevFlyCamera::default().reflect());
    assert_eq!(
        toolbox.parse_input("devflycamera --enabled true --turn_speed None --enabled false", &mut world),
        Ok(())
    );
    let expected = DevFlyCamera { enabled: false, movement_speed: Some(3.), turn_speed: None };
    assert_eq!(camera(&world), expected.reflect());
}

#[test]
fn a_tool_field_without_a_codec_is_an_invalid_value() {
    let mut toolbox = Toolbox::new();
    toolbox.add_tool(Box::new(DevFlyCamera::default()));
    toolbox.direct_applyer(StandardParse::Bool);
    let mut world = world();
    assert_eq!(
        toolbox.parse_input("devflycamera --movement_speed None", &mut world),
        Err(DevToolParseError::InvalidValue)
    );
    assert_eq!(camera(&world), DevFlyCamera::default().reflect());
}

#[test]
fn a_tool_without_state_in_the_world_does_nothing() {
    let toolbox = toolbox();
    let mut world = World::new();
    world.insert_resource(Gold(1).reflect());
    assert_eq!(toolbox.parse_input("devflycamera --enabled true", &mut world), Ok(()));
    assert_eq!(world.resources.len(), 1);
    assert_eq!(gold(&world), Gold(1).reflect());
}

#[test]
fn set_gold_without_gold_in_the_world_does_nothing() {
    let toolbox = toolbox();
    let mut world = World::new();
    assert_eq!(toolbox.parse_input("setgold 5", &mut world), Ok(()));
    assert!(world.resources.is_empty());
}

#[test]
fn lines_are_dispatched_in_order() {
    let toolbox = toolbox();
    let mut world = world();
    let lines = vec![
        ReadedLine(Ok("setgold 1".to_string())),
        ReadedLine(Err("interrupted".to_string())),
        ReadedLine(Ok("nothing".to_string())),
        ReadedLine(Ok("setgold 2".to_string())),
    ];
    let reports = toolbox.readed_lines(&lines, &mut world);
    assert_eq!(
        reports,
        vec![Some(Ok(())), None, Some(Err(DevToolParseError::InvalidName)), Some(Ok(()))]
    );
    assert_eq!(gold(&world), Gold(2).reflect());
}

#[test]
fn metadata_is_derived_from_the_type_path() {
    let metadata = SetGold::default().metadata();
    assert_eq!(metadata.name, "SetGold");
    assert_eq!(metadata.type_path, "dev_console::test_commands::SetGold");
    assert_eq!(
        metadata.short_description.as_deref(),
        Some("Sets the player's gold to the provided value.")
    );
    assert_eq!(metadata.default_instance, SetGold { amount: 0 }.reflect());
    let camera = DevFlyCamera::default();
    assert_eq!(camera.name(), "DevFlyCamera");
    let metadata = camera.metadata();
    assert_eq!(metadata.name, "DevFlyCamera");
    assert_eq!(metadata.type_path, CAMERA);
    assert_eq!(metadata.short_description, None);
}

#[test]
fn tools_toggle() {
    let mut camera = DevFlyCamera::default();
    assert!(!camera.is_enabled());
    camera.toggle();
    assert!(camera.is_enabled());
    camera.toggle();
    assert!(!camera.is_enabled());
    camera.enable();
    assert!(camera.is_enabled());
    camera.enable();
    assert!(camera.is_enabled());
    camera.disable();
    assert!(!camera.is_enabled());
    let mut boxed: Box<dyn ModalDevTool> = Box::new(camera);
    boxed.toggle();
    assert!(boxed.is_enabled());
    assert_eq!(boxed.name(), "DevFlyCamera");
}

#[test]
fn commands_and_tools_are_looked_up_by_name() {
    let toolbox = toolbox();
    assert_eq!(toolbox.find_command("setgold"), Some(0));
    assert_eq!(toolbox.find_command("SetGold"), Some(0));
    assert_eq!(toolbox.find_command("devflycamera"), None);
    assert_eq!(toolbox.find_command(""), None);
    assert_eq!(toolbox.find_tool("DEVFLYCAMERA"), Some(0));
    assert_eq!(toolbox.find_tool("setgold"), None);
    let empty = Toolbox::default();
    assert_eq!(empty.find_command("setgold"), None);
    assert_eq!(empty.find_tool("devflycamera"), None);
    let mut world = world();
    assert_eq!(empty.parse_input("setgold 5", &mut world), Err(DevToolParseError::InvalidName));
}

#[test]
fn a_clone_is_equal_and_independent() {
    let original = DevFlyCamera::default().reflect();
    let mut copy = original.clone();
    assert_eq!(copy, original);
    copy.type_path.push('x');
    assert_ne!(copy, original);
}
