//! The console: the registry of commands, tools and codecs, and the
//! dispatch of a line onto them.
use crate::binder::{bind_words, patch_words, BindState};
use crate::codec::{apply_first, Applyer, ParseFn, Parser, StandardParse};
use crate::dev_api::{
    command_metadata, option_text, DevCommand, DevCommandMetadata, DevCommandMetadataView,
    ModalDevTool,
};
use crate::dev_terminal::ReadedLine;
use crate::error::DevToolParseError;
use crate::name_table::{short_name_of, NameTable};
use crate::patch::{patched, Patch, PatchEntryView};
use crate::queue::{run_mutations, CommandQueue, Mutation};
use crate::reflect::{
    get_field_by_idx, get_field_by_name, get_field_by_name_readonly, lemma_store_same, lemma_view,
    Instance, InstanceView,
};
use crate::text::{
    lowercase, lowercase_of, split_whitespace, split_words, starts_with_marker, texts, trim_markers,
};
use crate::world::{find_resource, lemma_find_resource, World};
use vstd::prelude::*;

verus! {

/// The registry of the console and its dispatcher.
///
/// Commands and tools are found by their lower-cased names, codecs by their
/// type identity. Each table gives a slot in the list beside it. What is
/// registered later under a key that is taken replaces what was there.
pub struct CLIToolBox<C: DevCommand, T: ModalDevTool, P: ParseFn> {
    /// From the lower-cased name of a command to its slot in `commands`.
    pub metadatas: NameTable,
    /// The registered commands.
    pub commands: Vec<C>,
    /// From the lower-cased name of a tool to its slot in `tools`.
    pub tool_metadatas: NameTable,
    /// The registered tools.
    pub tools: Vec<T>,
    /// The codecs in registration order: a value for a field is offered to
    /// each in turn, and the first that takes it wins.
    pub apply_from_string: Vec<Applyer<P>>,
    /// From a type identity to the slot in `apply_from_string` of the codec
    /// registered last for it.
    pub same_from_string_fn: NameTable,
}

impl<C: DevCommand, T: ModalDevTool, P: ParseFn> CLIToolBox<C, T, P> {
    /// Every slot that a table gives lies in the list beside it, and the
    /// codec under a type identity is one of that type.
    ///
    /// This holds of a console that was made by `new` and changed by the
    /// registration calls only. Dispatch does not rely on it: a slot that
    /// lies outside its list counts as absent.
    pub open spec fn wf(&self) -> bool {
        &&& forall|k: Seq<char>| #[trigger]
            self.metadatas@.dom().contains(k) ==> self.metadatas@[k] < self.commands.len()
        &&& forall|k: Seq<char>| #[trigger]
            self.tool_metadatas@.dom().contains(k) ==> self.tool_metadatas@[k] < self.tools.len()
        &&& forall|k: Seq<char>| #[trigger]
            self.same_from_string_fn@.dom().contains(k) ==> self.same_from_string_fn@[k]
                < self.apply_from_string.len()
                && self.apply_from_string[self.same_from_string_fn@[k] as int].type_path@ == k
    }

    /// The key under which a name is looked up: its lower-case form.
    pub open spec fn key_of(name: Seq<char>) -> Seq<char> {
        lowercase_of(name)
    }

    /// The command that a name calls, if one is registered under it.
    pub open spec fn command_slot(&self, name: Seq<char>) -> Option<usize> {
        match self.metadatas.slot_of(Self::key_of(name)) {
            Some(slot) => if slot < self.commands.len() {
                Some(slot)
            } else {
                None
            },
            None => None,
        }
    }

    /// The tool that a name calls, if one is registered under it.
    pub open spec fn tool_slot(&self, name: Seq<char>) -> Option<usize> {
        match self.tool_metadatas.slot_of(Self::key_of(name)) {
            Some(slot) => if slot < self.tools.len() {
                Some(slot)
            } else {
                None
            },
            None => None,
        }
    }

    /// Looks a command up by the name that a line gives.
    pub fn find_command(&self, name: &str) -> (r: Option<usize>)
        ensures
            r == self.command_slot(name@),
    {
        let key = lowercase(name);
        match self.metadatas.get(key.as_str()) {
            Some(slot) => if slot < self.commands.len() {
                Some(slot)
            } else {
                None
            },
            None => None,
        }
    }

    /// Looks a tool up by the name that a line gives.
    pub fn find_tool(&self, name: &str) -> (r: Option<usize>)
        ensures
            r == self.tool_slot(name@),
    {
        let key = lowercase(name);
        match self.tool_metadatas.get(key.as_str()) {
            Some(slot) => if slot < self.tools.len() {
                Some(slot)
            } else {
                None
            },
            None => None,
        }
    }

    /// A console with nothing registered.
    pub fn new() -> (toolbox: Self)
        ensures
            toolbox.wf(),
            toolbox.metadatas@ =~= Map::empty(),
            toolbox.tool_metadatas@ =~= Map::empty(),
            toolbox.same_from_string_fn@ =~= Map::empty(),
            toolbox.commands.len() == 0,
            toolbox.tools.len() == 0,
            toolbox.apply_from_string.len() == 0,
    {
        CLIToolBox {
            metadatas: NameTable::new(),
            commands: Vec::new(),
            tool_metadatas: NameTable::new(),
            tools: Vec::new(),
            apply_from_string: Vec::new(),
            same_from_string_fn: NameTable::new(),
        }
    }

    /// Registers a command under its lower-cased name: it is the command
    /// that this name calls from now on. A command that was registered under
    /// that name is no longer found.
    pub fn add_command(&mut self, command: C)
        ensures
            old(self).wf() ==> final(self).wf(),
            final(self).commands@ == old(self).commands@.push(command),
            final(self).metadatas@ == old(self).metadatas@.insert(
                Self::key_of(short_name_of(command.spec_type_path())),
                old(self).commands.len(),
            ),
            final(self).command_slot(short_name_of(command.spec_type_path())) == Some(
                old(self).commands.len(),
            ),
            final(self).tool_metadatas == old(self).tool_metadatas,
            final(self).tools == old(self).tools,
            final(self).apply_from_string == old(self).apply_from_string,
            final(self).same_from_string_fn == old(self).same_from_string_fn,
    {
        let name = command.name();
        let key = lowercase(name.as_str());
        let slot = self.commands.len();
        self.commands.push(command);
        self.metadatas.insert(key, slot);
        assert(old(self).wf() ==> self.wf()) by {
            if old(self).wf() {
                assert forall|k: Seq<char>| #[trigger]
                    self.metadatas@.dom().contains(k) implies self.metadatas@[k]
                    < self.commands.len() by {
                    if k != key@ {
                        assert(old(self).metadatas@.dom().contains(k));
                    }
                }
            }
        }
    }

    /// Registers a tool under its lower-cased name: it is the tool that
    /// this name calls from now on. A tool that was registered under that
    /// name is no longer found.
    pub fn add_tool(&mut self, tool: T)
        ensures
            old(self).wf() ==> final(self).wf(),
            final(self).tools@ == old(self).tools@.push(tool),
            final(self).tool_metadatas@ == old(self).tool_metadatas@.insert(
                Self::key_of(short_name_of(tool.spec_type_path())),
                old(self).tools.len(),
            ),
            final(self).tool_slot(short_name_of(tool.spec_type_path())) == Some(
                old(self).tools.len(),
            ),
            final(self).metadatas == old(self).metadatas,
            final(self).commands == old(self).commands,
            final(self).apply_from_string == old(self).apply_from_string,
            final(self).same_from_string_fn == old(self).same_from_string_fn,
    {
        let name = tool.name();
        let key = lowercase(name.as_str());
        let slot = self.tools.len();
        self.tools.push(tool);
        self.tool_metadatas.insert(key, slot);
        assert(old(self).wf() ==> self.wf()) by {
            if old(self).wf() {
                assert forall|k: Seq<char>| #[trigger]
                    self.tool_metadatas@.dom().contains(k) implies self.tool_metadatas@[k]
                    < self.tools.len() by {
                    if k != key@ {
                        assert(old(self).tool_metadatas@.dom().contains(k));
                    }
                }
            }
        }
    }

    /// Registers `applyer`: it becomes the last of the codecs that a value
    /// is offered to, and the one that serves its type where a value is
    /// parsed for a patch.
    fn register(&mut self, applyer: Applyer<P>)
        ensures
            old(self).wf() ==> final(self).wf(),
            final(self).apply_from_string@ == old(self).apply_from_string@.push(applyer),
            final(self).same_from_string_fn@ == old(self).same_from_string_fn@.insert(
                applyer.type_path@,
                old(self).apply_from_string.len(),
            ),
            final(self).metadatas == old(self).metadatas,
            final(self).commands == old(self).commands,
            final(self).tool_metadatas == old(self).tool_metadatas,
            final(self).tools == old(self).tools,
    {
        let key = applyer.type_path.clone();
        let slot = self.apply_from_string.len();
        self.apply_from_string.push(applyer);
        self.same_from_string_fn.insert(key, slot);
        assert(old(self).wf() ==> self.wf()) by {
            if old(self).wf() {
                assert forall|k: Seq<char>| #[trigger]
                    self.same_from_string_fn@.dom().contains(k) implies self.same_from_string_fn@[k]
                    < self.apply_from_string.len()
                    && self.apply_from_string[self.same_from_string_fn@[k] as int].type_path@
                    == k by {
                    if k != key@ {
                        assert(old(self).same_from_string_fn@.dom().contains(k));
                    }
                }
            }
        }
    }

    /// Registers the standard textual parse of a built-in scalar type as
    /// the codec of that type.
    pub fn direct_applyer(&mut self, kind: StandardParse)
        ensures
            old(self).wf() ==> final(self).wf(),
            final(self).apply_from_string@.len() == old(self).apply_from_string@.len() + 1,
            final(self).apply_from_string@.drop_last() == old(self).apply_from_string@,
            final(self).apply_from_string@.last().type_path@ == kind.spec_type_path(),
            final(self).apply_from_string@.last().parser == Parser::<P>::Standard(kind),
            final(self).same_from_string_fn@ == old(self).same_from_string_fn@.insert(
                kind.spec_type_path(),
                old(self).apply_from_string.len(),
            ),
            final(self).metadatas == old(self).metadatas,
            final(self).commands == old(self).commands,
            final(self).tool_metadatas == old(self).tool_metadatas,
            final(self).tools == old(self).tools,
    {
        let applyer = Applyer { type_path: kind.type_path().to_owned(), parser: Parser::Standard(kind) };
        self.register(applyer);
        assert(self.apply_from_string@.drop_last() =~= old(self).apply_from_string@);
    }

    /// Registers a parse strategy of the caller's as the codec of the type
    /// `type_path`.
    pub fn from_parse_fn(&mut self, type_path: &str, f: P)
        ensures
            old(self).wf() ==> final(self).wf(),
            final(self).apply_from_string@.len() == old(self).apply_from_string@.len() + 1,
            final(self).apply_from_string@.drop_last() == old(self).apply_from_string@,
            final(self).apply_from_string@.last().type_path@ == type_path@,
            final(self).apply_from_string@.last().parser == Parser::Custom(f),
            final(self).same_from_string_fn@ == old(self).same_from_string_fn@.insert(
                type_path@,
                old(self).apply_from_string.len(),
            ),
            final(self).metadatas == old(self).metadatas,
            final(self).commands == old(self).commands,
            final(self).tool_metadatas == old(self).tool_metadatas,
            final(self).tools == old(self).tools,
    {
        let applyer = Applyer { type_path: type_path.to_owned(), parser: Parser::Custom(f) };
        self.register(applyer);
        assert(self.apply_from_string@.drop_last() =~= old(self).apply_from_string@);
    }

    /// Binds the words after the first to `target`, in place.
    ///
    /// The binder stops at the first word that fails and returns its error;
    /// `target` then holds what the words before it have put there, and the
    /// failing word has changed nothing.
    pub fn parse_reflect_from_cli(&self, words: &Vec<String>, target: &mut Instance) -> (r: Result<
        (),
        DevToolParseError,
    >)
        ensures
            final(target)@ == bind_words(
                self.apply_from_string@,
                texts(words@),
                1,
                BindState::start(),
                old(target)@,
            ).target,
            r == (match bind_words(
                self.apply_from_string@,
                texts(words@),
                1,
                BindState::start(),
                old(target)@,
            ).error {
                Some(e) => Err::<(), DevToolParseError>(e),
                None => Ok::<(), DevToolParseError>(()),
            }),
    {
        // The name that the next value is for.
        let mut named_param: Option<String> = None;
        // Whether a name has been declared so far.
        let mut is_named_style = false;
        // The position of the next positional value.
        let mut idx: usize = 0;
        let mut i: usize = 1;
        let ghost applyers = self.apply_from_string@;
        let ghost all = texts(words@);
        while i < words.len()
            invariant
                1 <= i,
                idx < i,
                !is_named_style ==> named_param is None,
                applyers == self.apply_from_string@,
                all == texts(words@),
                bind_words(applyers, all, 1, BindState::start(), old(target)@) == bind_words(
                    applyers,
                    all,
                    i as int,
                    BindState {
                        named: is_named_style,
                        pending: option_text(named_param),
                        index: idx as nat,
                    },
                    target@,
                ),
            decreases words.len() - i,
        {
            let word = words[i].as_str();
            let ghost state = BindState {
                named: is_named_style,
                pending: option_text(named_param),
                index: idx as nat,
            };
            let ghost before = target@;
            proof {
                lemma_store_same(before, idx as int, state.pending.unwrap_or(Seq::empty()));
            }
            if starts_with_marker(word) {
                is_named_style = true;
                named_param = Some(trim_markers(word));
            } else if is_named_style {
                match &named_param {
                    None => {
                        return Err(DevToolParseError::InvalidFieldReference);
                    },
                    Some(name) => {
                        match get_field_by_name(target, name.as_str()) {
                            Err(e) => {
                                return Err(e);
                            },
                            Ok(field) => {
                                if !apply_first(&self.apply_from_string, field, word) {
                                    return Err(DevToolParseError::InvalidValue);
                                }
                            },
                        }
                    },
                }
                named_param = None;
            } else {
                match get_field_by_idx(target, idx) {
                    Err(e) => {
                        return Err(e);
                    },
                    Ok(field) => {
                        if !apply_first(&self.apply_from_string, field, word) {
                            return Err(DevToolParseError::InvalidValue);
                        }
                    },
                }
                idx += 1;
            }
            proof {
                let after = BindState {
                    named: is_named_style,
                    pending: option_text(named_param),
                    index: idx as nat,
                };
                assert(bind_words(applyers, all, i as int, state, before) == bind_words(
                    applyers,
                    all,
                    i + 1,
                    after,
                    target@,
                ));
            }
            i += 1;
        }
        Ok(())
    }

    /// What a line comes to as a call of a command: the filled payload and
    /// the command's metadata, or the error that stops the dispatch.
    pub open spec fn spec_parse_dev_command(&self, line: Seq<char>) -> Result<
        (InstanceView, DevCommandMetadataView),
        DevToolParseError,
    > {
        let words = split_words(line);
        if words.len() == 0 {
            Err(DevToolParseError::InvalidName)
        } else {
            match self.command_slot(words[0]) {
                None => Err(DevToolParseError::InvalidName),
                Some(slot) => {
                    let bound = bind_words(
                        self.apply_from_string@,
                        words,
                        1,
                        BindState::start(),
                        self.commands[slot as int].spec_default(),
                    );
                    match bound.error {
                        Some(e) => Err(e),
                        None => Ok((bound.target, command_metadata(&self.commands[slot as int]))),
                    }
                },
            }
        }
    }

    /// Parses a line into the payload of the command that its first word
    /// names, filled from the words that follow.
    ///
    /// Fails with `InvalidName` on an empty line and on a name that calls
    /// no command, and with the binder's error where a word cannot be bound.
    pub fn parse_dev_command(&self, s: &str) -> (r: Result<
        (Instance, DevCommandMetadata),
        DevToolParseError,
    >)
        ensures
            match r {
                Ok(parsed) => self.spec_parse_dev_command(s@) == Ok::<
                    (InstanceView, DevCommandMetadataView),
                    DevToolParseError,
                >((parsed.0@, parsed.1@)),
                Err(e) => self.spec_parse_dev_command(s@) == Err::<
                    (InstanceView, DevCommandMetadataView),
                    DevToolParseError,
                >(e),
            },
    {
        let words = split_whitespace(s);
        if words.len() == 0 {
            return Err(DevToolParseError::InvalidName);
        }
        let slot = match self.find_command(words[0].as_str()) {
            Some(slot) => slot,
            None => {
                return Err(DevToolParseError::InvalidName);
            },
        };
        let mut command = self.commands[slot].create_default();
        match self.parse_reflect_from_cli(&words, &mut command) {
            Ok(()) => Ok((command, self.commands[slot].metadata())),
            Err(e) => Err(e),
        }
    }

    /// What a line comes to as a reconfiguration of a tool: the world with
    /// the tool patched, or the error that stops the dispatch. Where the
    /// world holds no state for the tool the line does nothing.
    pub open spec fn spec_update_tool_command(&self, line: Seq<char>, world: Seq<InstanceView>) -> Result<
        Seq<InstanceView>,
        DevToolParseError,
    > {
        let words = split_words(line);
        if words.len() == 0 {
            Err(DevToolParseError::InvalidName)
        } else {
            match self.tool_slot(words[0]) {
                None => Err(DevToolParseError::InvalidName),
                Some(slot) => match find_resource(
                    world,
                    self.tools[slot as int].spec_type_path(),
                    0,
                ) {
                    None => Ok(world),
                    Some(at) => match patch_words(
                        self.apply_from_string@,
                        self.same_from_string_fn@,
                        words,
                        1,
                        None,
                        world[at],
                        Seq::empty(),
                    ) {
                        Err(e) => Err(e),
                        Ok(patch) => match patched(world[at], patch, 0) {
                            Err(e) => Err(e),
                            Ok(after) => Ok(world.update(at, after)),
                        },
                    },
                },
            }
        }
    }

    /// Binds the words after the first into a patch for `tool`, which is
    /// only read.
    pub fn bind_patch(&self, words: &Vec<String>, tool: &Instance) -> (r: Result<
        Patch,
        DevToolParseError,
    >)
        ensures
            match r {
                Ok(patch) => patch.wf() && patch_words(
                    self.apply_from_string@,
                    self.same_from_string_fn@,
                    texts(words@),
                    1,
                    None,
                    tool@,
                    Seq::empty(),
                ) == Ok::<Seq<PatchEntryView>, DevToolParseError>(patch@),
                Err(e) => patch_words(
                    self.apply_from_string@,
                    self.same_from_string_fn@,
                    texts(words@),
                    1,
                    None,
                    tool@,
                    Seq::empty(),
                ) == Err::<Seq<PatchEntryView>, DevToolParseError>(e),
            },
    {
        let mut patch = Patch::new();
        let mut named_param: Option<String> = None;
        let mut i: usize = 1;
        let ghost applyers = self.apply_from_string@;
        let ghost codecs = self.same_from_string_fn@;
        let ghost all = texts(words@);
        while i < words.len()
            invariant
                1 <= i,
                patch.wf(),
                applyers == self.apply_from_string@,
                codecs == self.same_from_string_fn@,
                all == texts(words@),
                patch_words(applyers, codecs, all, 1, None, tool@, Seq::empty()) == patch_words(
                    applyers,
                    codecs,
                    all,
                    i as int,
                    option_text(named_param),
                    tool@,
                    patch@,
                ),
            decreases words.len() - i,
        {
            let word = words[i].as_str();
            assert(all[i as int] == word@);
            if starts_with_marker(word) {
                named_param = Some(trim_markers(word));
            } else {
                let name = match &named_param {
                    Some(name) => name.clone(),
                    None => {
                        return Err(DevToolParseError::InvalidFieldReference);
                    },
                };
                let field = match get_field_by_name_readonly(tool, name.as_str()) {
                    Ok(field) => field,
                    Err(e) => {
                        return Err(e);
                    },
                };
                proof {
                    lemma_view(*field);
                }
                let slot = match self.same_from_string_fn.get(field.type_path.as_str()) {
                    Some(slot) => slot,
                    None => {
                        return Err(DevToolParseError::InvalidValue);
                    },
                };
                if slot >= self.apply_from_string.len() {
                    return Err(DevToolParseError::InvalidValue);
                }
                let value = match self.apply_from_string[slot].parse_same(field, word) {
                    Ok(value) => value,
                    Err(e) => {
                        return Err(e);
                    },
                };
                patch.insert(name, value);
                named_param = None;
            }
            i += 1;
        }
        Ok(patch)
    }

    /// Reconfigures the tool that the first word of a line names: the
    /// values that the line gives by name are parsed into a patch, and the
    /// patch is applied to the tool's state in the world.
    ///
    /// Nothing is written unless every word was bound and every entry of
    /// the patch applies. Where the world holds no state for the tool the
    /// line does nothing.
    pub fn update_tool_command(&self, s: &str, world: &mut World) -> (r: Result<
        (),
        DevToolParseError,
    >)
        ensures
            match self.spec_update_tool_command(s@, old(world)@) {
                Ok(after) => r is Ok && final(world)@ == after,
                Err(e) => r == Err::<(), DevToolParseError>(e) && final(world)@ == old(world)@,
            },
    {
        let words = split_whitespace(s);
        if words.len() == 0 {
            return Err(DevToolParseError::InvalidName);
        }
        let slot = match self.find_tool(words[0].as_str()) {
            Some(slot) => slot,
            None => {
                return Err(DevToolParseError::InvalidName);
            },
        };
        let type_path = self.tools[slot].type_path();
        proof {
            lemma_find_resource(world@, type_path@, 0);
        }
        let patch = match world.get_resource(type_path.as_str()) {
            None => {
                return Ok(());
            },
            Some(tool) => match self.bind_patch(&words, tool) {
                Ok(patch) => patch,
                Err(e) => {
                    return Err(e);
                },
            },
        };
        world.apply_patch(type_path.as_str(), &patch)
    }

    /// What dispatching a line does to the world: a command's effect, a
    /// tool's patch, or the error that stops the dispatch. Commands shadow
    /// tools of the same name.
    pub open spec fn spec_parse_input(&self, line: Seq<char>, world: Seq<InstanceView>) -> Result<
        Seq<InstanceView>,
        DevToolParseError,
    > {
        let words = split_words(line);
        if words.len() == 0 {
            Err(DevToolParseError::InvalidName)
        } else if let Some(slot) = self.command_slot(words[0]) {
            match self.spec_parse_dev_command(line) {
                Err(e) => Err(e),
                Ok(parsed) => Ok(self.commands[slot as int].effect(parsed.0, world)),
            }
        } else if self.tool_slot(words[0]) is Some {
            self.spec_update_tool_command(line, world)
        } else {
            Err(DevToolParseError::InvalidName)
        }
    }

    /// Dispatches one line.
    ///
    /// The first word names a command or a tool, without regard to case. A
    /// command is parsed in full, queued, and then carried out on the
    /// world; a tool is patched. On any error the world is left as it was:
    /// `InvalidName` for an empty line or a name that is not registered,
    /// else the error of the word that could not be bound.
    pub fn parse_input(&self, s: &str, world: &mut World) -> (r: Result<(), DevToolParseError>)
        ensures
            match self.spec_parse_input(s@, old(world)@) {
                Ok(after) => r is Ok && final(world)@ == after,
                Err(e) => r == Err::<(), DevToolParseError>(e) && final(world)@ == old(world)@,
            },
            split_words(s@).len() == 0 || (self.command_slot(split_words(s@)[0]) is None
                && self.tool_slot(split_words(s@)[0]) is None) ==> r == Err::<(), DevToolParseError>(
                DevToolParseError::InvalidName,
            ) && final(world)@ == old(world)@,
    {
        let words = split_whitespace(s);
        if words.len() == 0 {
            return Err(DevToolParseError::InvalidName);
        }
        match self.find_command(words[0].as_str()) {
            Some(slot) => {
                let mut command_queue = CommandQueue::new();
                match self.parse_dev_command(s) {
                    Ok(parsed) => {
                        command_queue.push(Mutation { slot, command: parsed.0 });
                        proof {
                            reveal_with_fuel(run_mutations, 2);
                        }
                        command_queue.apply(&self.commands, world);
                        Ok(())
                    },
                    Err(e) => Err(e),
                }
            },
            None => {
                if self.find_tool(words[0].as_str()).is_some() {
                    self.update_tool_command(s, world)
                } else {
                    Err(DevToolParseError::InvalidName)
                }
            },
        }
    }

    /// What dispatching a line reports: `Ok` or the error.
    pub open spec fn spec_report(&self, line: Seq<char>, world: Seq<InstanceView>) -> Result<
        (),
        DevToolParseError,
    > {
        match self.spec_parse_input(line, world) {
            Ok(_) => Ok(()),
            Err(e) => Err(e),
        }
    }

    /// The world after the first `count` lines are dispatched in order. A
    /// line that could not be read, or whose dispatch fails, changes nothing.
    pub open spec fn world_after_lines(
        &self,
        lines: Seq<ReadedLine>,
        count: int,
        world: Seq<InstanceView>,
    ) -> Seq<InstanceView>
        decreases count,
    {
        if count <= 0 || count > lines.len() {
            world
        } else {
            let before = self.world_after_lines(lines, count - 1, world);
            match lines[count - 1].0 {
                Ok(line) => match self.spec_parse_input(line@, before) {
                    Ok(after) => after,
                    Err(_) => before,
                },
                Err(_) => before,
            }
        }
    }

    /// Dispatches the lines that the line source has delivered, in order,
    /// each on the world as the lines before it left it. Returns what each
    /// came to: `None` for a line that could not be read, else the result
    /// of its dispatch.
    pub fn readed_lines(&self, lines: &Vec<ReadedLine>, world: &mut World) -> (reports: Vec<
        Option<Result<(), DevToolParseError>>,
    >)
        ensures
            final(world)@ == self.world_after_lines(lines@, lines.len() as int, old(world)@),
            reports.len() == lines.len(),
            forall|i: int|
                0 <= i < lines.len() ==> #[trigger] reports[i] == (match lines[i].0 {
                    Ok(line) => Some(
                        self.spec_report(line@, self.world_after_lines(lines@, i, old(world)@)),
                    ),
                    Err(_) => None,
                }),
    {
        let mut reports: Vec<Option<Result<(), DevToolParseError>>> = Vec::new();
        let mut i: usize = 0;
        while i < lines.len()
            invariant
                i <= lines.len(),
                reports.len() == i,
                world@ == self.world_after_lines(lines@, i as int, old(world)@),
                forall|j: int|
                    0 <= j < i ==> #[trigger] reports[j] == (match lines[j].0 {
                        Ok(line) => Some(
                            self.spec_report(line@, self.world_after_lines(lines@, j, old(world)@)),
                        ),
                        Err(_) => None,
                    }),
            decreases lines.len() - i,
        {
            match &lines[i].0 {
                Ok(input) => {
                    let ghost before = world@;
                    let report = self.parse_input(input.as_str(), world);
                    proof {
                        if let Ok(unit) = report {
                            assert(unit == ());
                        }
                        assert(report == self.spec_report(input@, before));
                    }
                    reports.push(Some(report));
                },
                Err(_) => {
                    reports.push(None);
                },
            }
            i += 1;
        }
        reports
    }
}

impl<C: DevCommand, T: ModalDevTool, P: ParseFn> Default for CLIToolBox<C, T, P> {
    fn default() -> (toolbox: Self)
        ensures
            toolbox.wf(),
            toolbox.metadatas@ =~= Map::empty(),
            toolbox.tool_metadatas@ =~= Map::empty(),
            toolbox.same_from_string_fn@ =~= Map::empty(),
            toolbox.commands.len() == 0,
            toolbox.tools.len() == 0,
            toolbox.apply_from_string.len() == 0,
    {
        CLIToolBox::new()
    }
}

} // verus!
