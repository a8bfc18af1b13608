//! What command and tool types provide to the console, and the metadata
//! that the console keeps of them.
use crate::name_table::{short_name, short_name_of};
use crate::reflect::{Instance, InstanceView, Kind, ShapeView};
use crate::world::World;
use vstd::prelude::*;

verus! {

/// The view of an optional text.
pub open spec fn option_text(text: Option<String>) -> Option<Seq<char>> {
    match text {
        Some(t) => Some(t@),
        None => None,
    }
}

/// The model of a value with no content: an empty tuple without a type.
pub open spec fn unit_view() -> InstanceView {
    InstanceView {
        type_path: Seq::empty(),
        shape: ShapeView::Composite(Kind::Tuple, Seq::empty()),
    }
}

/// What the console knows of a registered command.
pub struct DevCommandMetadata {
    /// The name by which the command is called: the short form of its type path.
    pub name: String,
    /// The type identity of the command's payload.
    pub type_path: String,
    pub short_description: Option<String>,
    /// The payload with every field at its default.
    pub default_instance: Instance,
}

/// The model of a [`DevCommandMetadata`].
pub struct DevCommandMetadataView {
    pub name: Seq<char>,
    pub type_path: Seq<char>,
    pub short_description: Option<Seq<char>>,
    pub default_instance: InstanceView,
}

impl View for DevCommandMetadata {
    type V = DevCommandMetadataView;

    open spec fn view(&self) -> DevCommandMetadataView {
        DevCommandMetadataView {
            name: self.name@,
            type_path: self.type_path@,
            short_description: option_text(self.short_description),
            default_instance: self.default_instance@,
        }
    }
}

/// What the console knows of a registered tool.
pub struct DevToolMetaData {
    /// The name by which the tool is called: the short form of its type path.
    pub name: String,
    /// The type identity of the resource that holds the tool's state.
    pub type_path: String,
    pub short_description: Option<String>,
}

/// The model of a [`DevToolMetaData`].
pub struct DevToolMetaDataView {
    pub name: Seq<char>,
    pub type_path: Seq<char>,
    pub short_description: Option<Seq<char>>,
}

impl View for DevToolMetaData {
    type V = DevToolMetaDataView;

    open spec fn view(&self) -> DevToolMetaDataView {
        DevToolMetaDataView {
            name: self.name@,
            type_path: self.type_path@,
            short_description: option_text(self.short_description),
        }
    }
}

/// A command: a one-shot, structured request that changes the world.
///
/// The console fills a default payload from the words of a line and then
/// hands it to `apply`. Each method has a model (`spec_type_path`, ...,
/// `effect`) that the console's contracts are stated over. An
/// implementation that states no models keeps their defaults, and what is
/// proved of the console then says nothing of that command.
pub trait DevCommand {
    /// The model of `type_path`.
    open spec fn spec_type_path(&self) -> Seq<char> {
        Seq::empty()
    }

    /// The model of `short_description`.
    open spec fn spec_short_description(&self) -> Option<Seq<char>> {
        None
    }

    /// The model of `create_default`.
    open spec fn spec_default(&self) -> InstanceView {
        unit_view()
    }

    /// The model of `apply`: the world after the command, from its payload
    /// and the world before.
    open spec fn effect(&self, command: InstanceView, world: Seq<InstanceView>) -> Seq<InstanceView> {
        world
    }

    /// The type identity of the payload.
    fn type_path(&self) -> (path: String)
        ensures
            path@ == self.spec_type_path(),
    ;

    /// A line of help for users.
    fn short_description(&self) -> (description: Option<String>)
        ensures
            option_text(description) == self.spec_short_description(),
    ;

    /// A fresh payload with every field at its default.
    fn create_default(&self) -> (instance: Instance)
        ensures
            instance@ == self.spec_default(),
    ;

    /// Carries the command out on the world.
    fn apply(&self, command: &Instance, world: &mut World)
        ensures
            final(world)@ == self.effect(command@, old(world)@),
    ;

    /// The name of this command, as a line would give it: the short form of
    /// the type path.
    fn name(&self) -> (name: String)
        ensures
            name@ == short_name_of(self.spec_type_path()),
    {
        let path = self.type_path();
        short_name(path.as_str())
    }

    /// The metadata of this command.
    fn metadata(&self) -> (metadata: DevCommandMetadata)
        ensures
            metadata@ == (DevCommandMetadataView {
                name: short_name_of(self.spec_type_path()),
                type_path: self.spec_type_path(),
                short_description: self.spec_short_description(),
                default_instance: self.spec_default(),
            }),
    {
        DevCommandMetadata {
            name: self.name(),
            type_path: self.type_path(),
            short_description: self.short_description(),
            default_instance: self.create_default(),
        }
    }
}

/// A modal tool: a persistent, named feature with structured settings,
/// which can be switched on and off and reconfigured while the
/// application runs. Its state lives in the world as a resource.
pub trait ModalDevTool {
    /// The model of `type_path`.
    open spec fn spec_type_path(&self) -> Seq<char> {
        Seq::empty()
    }

    /// The model of `short_description`.
    open spec fn spec_short_description(&self) -> Option<Seq<char>> {
        None
    }

    /// The model of `reflect`.
    open spec fn spec_reflect(&self) -> InstanceView {
        unit_view()
    }

    /// The model of `is_enabled`.
    open spec fn enabled(&self) -> bool {
        false
    }

    /// The type identity of the tool's state.
    fn type_path(&self) -> (path: String)
        ensures
            path@ == self.spec_type_path(),
    ;

    /// The tool's state as a type-erased value, to be installed in the world.
    fn reflect(&self) -> (instance: Instance)
        ensures
            instance@ == self.spec_reflect(),
    ;

    /// Turns this tool on (true) or off (false).
    fn set_enabled(&mut self, enabled: bool)
        ensures
            final(self).enabled() == enabled,
    ;

    /// Is this tool currently on?
    fn is_enabled(&self) -> (enabled: bool)
        ensures
            enabled == self.enabled(),
    ;

    /// A line of help for users.
    fn short_description(&self) -> (description: Option<String>)
        ensures
            option_text(description) == self.spec_short_description(),
    ;

    /// The name of this tool, as a line would give it: the short form of the
    /// type path.
    fn name(&self) -> (name: String)
        ensures
            name@ == short_name_of(self.spec_type_path()),
    {
        let path = self.type_path();
        short_name(path.as_str())
    }

    /// The metadata of this tool.
    fn metadata(&self) -> (metadata: DevToolMetaData)
        ensures
            metadata@ == (DevToolMetaDataView {
                name: short_name_of(self.spec_type_path()),
                type_path: self.spec_type_path(),
                short_description: self.spec_short_description(),
            }),
    {
        DevToolMetaData {
            name: self.name(),
            type_path: self.type_path(),
            short_description: self.short_description(),
        }
    }

    /// Turns this tool on.
    fn enable(&mut self)
        ensures
            final(self).enabled(),
    {
        self.set_enabled(true);
    }

    /// Turns this tool off.
    fn disable(&mut self)
        ensures
            !final(self).enabled(),
    {
        self.set_enabled(false);
    }

    /// Turns this tool on if it is off, and off if it is on.
    fn toggle(&mut self)
        ensures
            final(self).enabled() == !old(self).enabled(),
    {
        if self.is_enabled() {
            self.disable();
        } else {
            self.enable();
        }
    }
}

/// The model of what `metadata` returns for a command.
pub open spec fn command_metadata<C: DevCommand + ?Sized>(command: &C) -> DevCommandMetadataView {
    DevCommandMetadataView {
        name: short_name_of(command.spec_type_path()),
        type_path: command.spec_type_path(),
        short_description: command.spec_short_description(),
        default_instance: command.spec_default(),
    }
}

/// The model of what `metadata` returns for a tool.
pub open spec fn tool_metadata<T: ModalDevTool + ?Sized>(tool: &T) -> DevToolMetaDataView {
    DevToolMetaDataView {
        name: short_name_of(tool.spec_type_path()),
        type_path: tool.spec_type_path(),
        short_description: tool.spec_short_description(),
    }
}

/// A boxed command is the command in the box; so a console can hold
/// commands of many types as `Box<dyn DevCommand>`.
impl<C: DevCommand + ?Sized> DevCommand for Box<C> {
    open spec fn spec_type_path(&self) -> Seq<char> {
        (**self).spec_type_path()
    }

    open spec fn spec_short_description(&self) -> Option<Seq<char>> {
        (**self).spec_short_description()
    }

    open spec fn spec_default(&self) -> InstanceView {
        (**self).spec_default()
    }

    open spec fn effect(&self, command: InstanceView, world: Seq<InstanceView>) -> Seq<InstanceView> {
        (**self).effect(command, world)
    }

    fn type_path(&self) -> (path: String) {
        (**self).type_path()
    }

    fn short_description(&self) -> (description: Option<String>) {
        (**self).short_description()
    }

    fn create_default(&self) -> (instance: Instance) {
        (**self).create_default()
    }

    fn apply(&self, command: &Instance, world: &mut World) {
        (**self).apply(command, world)
    }
}

/// A boxed tool is the tool in the box; so a console can hold tools of
/// many types as `Box<dyn ModalDevTool>`.
impl<T: ModalDevTool + ?Sized> ModalDevTool for Box<T> {
    open spec fn spec_type_path(&self) -> Seq<char> {
        (**self).spec_type_path()
    }

    open spec fn spec_short_description(&self) -> Option<Seq<char>> {
        (**self).spec_short_description()
    }

    open spec fn spec_reflect(&self) -> InstanceView {
        (**self).spec_reflect()
    }

    open spec fn enabled(&self) -> bool {
        (**self).enabled()
    }

    fn type_path(&self) -> (path: String) {
        (**self).type_path()
    }

    fn reflect(&self) -> (instance: Instance) {
        (**self).reflect()
    }

    fn set_enabled(&mut self, enabled: bool) {
        (**self).set_enabled(enabled)
    }

    fn is_enabled(&self) -> (enabled: bool) {
        (**self).is_enabled()
    }

    fn short_description(&self) -> (description: Option<String>) {
        (**self).short_description()
    }
}

/// A tool in its barest form: something with a name.
pub trait ModalDevTl {
    /// The model of `type_path`.
    open spec fn spec_type_path(&self) -> Seq<char> {
        Seq::empty()
    }

    /// The type identity of the tool's state.
    fn type_path(&self) -> (path: String)
        ensures
            path@ == self.spec_type_path(),
    ;

    /// The name of this tool: the short form of the type path.
    fn name(&self) -> (name: String)
        ensures
            name@ == short_name_of(self.spec_type_path()),
    {
        let path = self.type_path();
        short_name(path.as_str())
    }
}

/// A tool that can be switched on and off.
pub trait Toggleable: ModalDevTl {
    /// The model of `is_enabled`.
    open spec fn enabled(&self) -> bool {
        false
    }

    /// Is this tool currently on?
    fn is_enabled(&self) -> (enabled: bool)
        ensures
            enabled == self.enabled(),
    ;

    /// Turns this tool on (true) or off (false).
    fn set_enabled(&mut self, enable: bool)
        ensures
            final(self).enabled() == enable,
    ;

    /// Turns this tool off.
    fn disable(&mut self)
        ensures
            !final(self).enabled(),
    {
        self.set_enabled(false);
    }

    /// Turns this tool on.
    fn enable(&mut self)
        ensures
            final(self).enabled(),
    {
        self.set_enabled(true);
    }

    /// Turns this tool on if it is off, and off if it is on.
    fn toggle(&mut self)
        ensures
            final(self).enabled() == !old(self).enabled(),
    {
        if self.is_enabled() {
            self.disable()
        } else {
            self.enable()
        }
    }
}

} // verus!
