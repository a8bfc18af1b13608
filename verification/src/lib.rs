//! A console for developers: textual commands that change the state of a
//! running application, and modal tools that are reconfigured by name.
//!
//! A line such as `setgold 500` or `devflycamera --movement_speed Some(5.0)`
//! is split into words. The first word names a command or a tool; the
//! others are bound, by position or after a `--name`, to the fields of a
//! type-erased value, each parsed by the codec of the field's type.
//!
//! * [`reflect`]: type-erased values and access to their fields.
//! * [`text`]: splitting a line, and the `--` marker.
//! * [`codec`]: parse strategies and the codecs made of them.
//! * [`binder`]: what binding the words of a line means.
//! * [`patch`], [`world`], [`queue`]: the state that dispatch acts on.
//! * [`dev_api`]: what command and tool types provide.
//! * [`toolbox`]: the registry and the dispatcher.
//! * [`dev_terminal`]: the line source, one request at a time.
//! * [`laws`]: what holds of all of it.
pub mod binder;
pub mod codec;
pub mod dev_api;
pub mod dev_terminal;
pub mod error;
pub mod laws;
pub mod name_table;
pub mod patch;
pub mod queue;
pub mod reflect;
pub mod test_commands;
pub mod text;
pub mod toolbox;
pub mod world;
