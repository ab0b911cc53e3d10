use vstd::prelude::*;
use vstd::string::*;
use crate::byte_stream::{int_at, int_bytes, overwrite, string_at, string_bytes, text_fits, ByteStream};
use crate::byte_stream::{lemma_four_parts, lemma_int_inside, lemma_overwrite_twice, lemma_string_inside};

verus! {

/// The type of the command that gives the player's actor a name.
pub const CHANGE_AVATAR_NAME_COMMAND: i32 = 3;

/// An order of the player, to be carried out at one sub-tick.
pub struct LogicCommand {
    pub command_type: i32,
    pub execute_sub_tick: i32,
    pub avatar_name: Option<String>,
    pub name_change_state: i32,
}

/// What a command holds, as plain values.
pub struct CommandView {
    pub command_type: i32,
    pub execute_sub_tick: i32,
    pub avatar_name: Option<Seq<char>>,
    pub name_change_state: i32,
}

/// What a string that may be missing holds.
pub open spec fn optional_text(text: Option<String>) -> Option<Seq<char>> {
    match text {
        Some(t) => Some(t@),
        None => None,
    }
}

impl View for LogicCommand {
    type V = CommandView;

    open spec fn view(&self) -> CommandView {
        CommandView {
            command_type: self.command_type,
            execute_sub_tick: self.execute_sub_tick,
            avatar_name: optional_text(self.avatar_name),
            name_change_state: self.name_change_state,
        }
    }
}

/// What each command of a sequence holds.
pub open spec fn command_views(commands: Seq<LogicCommand>) -> Seq<CommandView> {
    Seq::new(commands.len(), |k: int| commands[k]@)
}

/// A command on the wire: type, sub-tick, name, state of the name change.
pub open spec fn command_bytes(c: CommandView) -> Seq<u8> {
    int_bytes(c.command_type) + int_bytes(c.execute_sub_tick) + string_bytes(c.avatar_name)
        + int_bytes(c.name_change_state)
}

/// The command stored at index `at` of `bytes`, with the index behind it.
pub open spec fn command_at(bytes: Seq<u8>, at: int) -> Option<(CommandView, int)> {
    let command_type = int_at(bytes, at);
    let execute_sub_tick = int_at(bytes, at + 4);
    let name = string_at(bytes, at + 8);
    if command_type is None || execute_sub_tick is None || name is None {
        None
    } else {
        let state = int_at(bytes, name.unwrap().1);
        if state is None {
            None
        } else {
            Some(
                (
                    CommandView {
                        command_type: command_type.unwrap(),
                        execute_sub_tick: execute_sub_tick.unwrap(),
                        avatar_name: name.unwrap().0,
                        name_change_state: state.unwrap(),
                    },
                    name.unwrap().1 + 4,
                ),
            )
        }
    }
}

/// A command whose name can be counted by a length prefix.
pub open spec fn command_fits(c: CommandView) -> bool {
    c.avatar_name is Some ==> text_fits(c.avatar_name.unwrap())
}

/// A command that fits, written anywhere inside a write, is read back from
/// its place.
pub proof fn lemma_command_inside(
    buffer: Seq<u8>,
    at: int,
    before: Seq<u8>,
    c: CommandView,
    after: Seq<u8>,
)
    requires
        0 <= at <= buffer.len(),
        command_fits(c),
    ensures
        command_at(overwrite(buffer, at, before + command_bytes(c) + after), at + before.len())
            == Some((c, at + before.len() + command_bytes(c).len())),
{
    let i1 = int_bytes(c.command_type);
    let i2 = int_bytes(c.execute_sub_tick);
    let name = string_bytes(c.avatar_name);
    let i3 = int_bytes(c.name_change_state);
    assert(i1.len() == 4 && i2.len() == 4 && i3.len() == 4);
    lemma_four_parts(before, i1, i2, name, i3, after);
    lemma_int_inside(buffer, at, before, c.command_type, i2 + name + i3 + after);
    lemma_int_inside(buffer, at, before + i1, c.execute_sub_tick, name + i3 + after);
    lemma_string_inside(buffer, at, before + i1 + i2, c.avatar_name, i3 + after);
    lemma_int_inside(buffer, at, before + i1 + i2 + name, c.name_change_state, after);
}

impl LogicCommand {
    /// A command of the given type for the given sub-tick, without a name.
    pub fn new(command_type: i32, execute_sub_tick: i32) -> (r: Self)
        ensures
            r@ == (CommandView {
                command_type,
                execute_sub_tick,
                avatar_name: None,
                name_change_state: 0,
            }),
    {
        Self { command_type, execute_sub_tick, avatar_name: None, name_change_state: 0 }
    }

    pub fn get_command_type(&self) -> (r: i32)
        ensures
            r == self.command_type,
    {
        self.command_type
    }

    pub fn get_execute_sub_tick(&self) -> (r: i32)
        ensures
            r == self.execute_sub_tick,
    {
        self.execute_sub_tick
    }

    /// An independent copy.
    pub fn duplicate(&self) -> (r: Self)
        ensures
            r@ == self@,
    {
        let avatar_name: Option<String> = match &self.avatar_name {
            Some(name) => Some(name.clone()),
            None => None,
        };
        Self {
            command_type: self.command_type,
            execute_sub_tick: self.execute_sub_tick,
            avatar_name,
            name_change_state: self.name_change_state,
        }
    }

    /// Writes the command at the cursor of `stream`.
    pub fn encode(&self, stream: &mut ByteStream)
        requires
            old(stream).wf(),
        ensures
            final(stream).wf(),
            final(stream).buffer@ == overwrite(
                old(stream).buffer@,
                old(stream).offset as int,
                command_bytes(self@),
            ),
            final(stream).offset == old(stream).offset + command_bytes(self@).len(),
            final(stream).length == old(stream).length,
    {
        let ghost b = old(stream).buffer@;
        let ghost at = old(stream).offset as int;
        stream.write_int(self.command_type);
        stream.write_int(self.execute_sub_tick);
        let ghost s2 = int_bytes(self.command_type) + int_bytes(self.execute_sub_tick);
        proof {
            lemma_overwrite_twice(b, at, int_bytes(self.command_type), int_bytes(self.execute_sub_tick));
        }
        match &self.avatar_name {
            Some(name) => {
                stream.write_string(Some(name.as_str()));
            },
            None => {
                stream.write_string(None);
            },
        }
        let ghost s3 = s2 + string_bytes(self@.avatar_name);
        proof {
            lemma_overwrite_twice(b, at, s2, string_bytes(self@.avatar_name));
        }
        stream.write_int(self.name_change_state);
        proof {
            lemma_overwrite_twice(b, at, s3, int_bytes(self.name_change_state));
        }
    }

    /// Reads a command at the cursor of `stream`. Nothing, with the cursor
    /// where it was, where none is stored there.
    pub fn decode(stream: &mut ByteStream) -> (r: Option<Self>)
        ensures
            final(stream).buffer == old(stream).buffer,
            final(stream).length == old(stream).length,
            old(stream).wf() ==> final(stream).wf(),
            match command_at(old(stream).buffer@, old(stream).offset as int) {
                None => r is None && final(stream).offset == old(stream).offset,
                Some((c, next)) => r is Some && r.unwrap()@ == c && final(stream).offset == next,
            },
    {
        let start: usize = stream.offset;
        let filled: usize = stream.buffer.len();
        if start > filled || filled - start < 8 {
            return None;
        }
        let command_type: i32 = stream.read_int().unwrap();
        let execute_sub_tick: i32 = stream.read_int().unwrap();
        let avatar_name: Option<String> = match stream.read_string() {
            None => {
                stream.offset = start;
                return None;
            },
            Some(v) => v,
        };
        let name_change_state: i32 = match stream.read_int() {
            None => {
                stream.offset = start;
                return None;
            },
            Some(v) => v,
        };
        Some(Self { command_type, execute_sub_tick, avatar_name, name_change_state })
    }
}

/// The commands that wait for their sub-tick, in the order in which they
/// came.
pub struct LogicCommandManager {
    pub commands: Vec<LogicCommand>,
}

impl View for LogicCommandManager {
    type V = Seq<CommandView>;

    open spec fn view(&self) -> Seq<CommandView> {
        command_views(self.commands@)
    }
}

impl LogicCommandManager {
    /// A manager with no command waiting.
    pub fn new() -> (r: Self)
        ensures
            r@ == Seq::<CommandView>::empty(),
    {
        let r = Self { commands: Vec::new() };
        assert(r@ =~= Seq::<CommandView>::empty());
        r
    }

    /// Puts a copy of `command` behind the commands that wait.
    pub fn add_command(&mut self, command: &LogicCommand)
        ensures
            final(self)@ == old(self)@.push(command@),
    {
        self.commands.push(command.duplicate());
        assert(self@ =~= old(self)@.push(command@));
    }
}

/// The command that gives the player's actor a name.
pub struct LogicChangeAvatarNameCommand(pub LogicCommand);

impl LogicChangeAvatarNameCommand {
    /// A name change without a name yet, for sub-tick zero.
    pub fn new() -> (r: Self)
        ensures
            r.0@ == (CommandView {
                command_type: CHANGE_AVATAR_NAME_COMMAND,
                execute_sub_tick: 0,
                avatar_name: None,
                name_change_state: 0,
            }),
    {
        Self(LogicCommand::new(CHANGE_AVATAR_NAME_COMMAND, 0))
    }

    pub fn set_avatar_name(&mut self, name: &str)
        ensures
            final(self).0@ == (CommandView { avatar_name: Some(name@), ..old(self).0@ }),
    {
        self.0.avatar_name = Some(String::from_str(name));
    }

    pub fn set_name_change_state(&mut self, value: i32)
        ensures
            final(self).0@ == (CommandView { name_change_state: value, ..old(self).0@ }),
    {
        self.0.name_change_state = value;
    }
}

} // verus!
