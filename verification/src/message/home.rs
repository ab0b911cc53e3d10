use vstd::prelude::*;
use vstd::string::*;
use crate::array_list::LogicArrayList;
use crate::byte_stream::{int_at, int_bytes, text_bytes, ByteStream};
use crate::byte_stream::{lemma_int_inside, lemma_overwrite_at_end, lemma_overwrite_empty, text_fits};
use crate::logic::avatar::{blank_client_avatar, blank_npc_data, client_avatar_bytes, ClientAvatarView, LogicClientAvatar, LogicNpcAvatar};
use crate::logic::command::{command_at, command_bytes, command_fits, command_views, lemma_command_inside, CommandView, LogicCommand};
use crate::logic::data::npc::{lemma_npc_data_read_back, npc_data_at, npc_data_bytes};
use crate::logic::data::{LogicNpcData, NpcDataView};
use crate::logic::home::LogicClientHome;
use crate::network::{MessageView, PiranhaMessage};

verus! {

/// The type of the message by which a client asks to see its own base again.
pub const GO_HOME_MESSAGE: u16 = 14101;

/// The type of the message by which a client ends a turn.
pub const END_CLIENT_TURN_MESSAGE: u16 = 14102;

/// The type of the message by which a client attacks a computer-run opponent.
pub const ATTACK_NPC_MESSAGE: u16 = 14134;

/// The type of the message that shows a player its own base.
pub const OWN_HOME_DATA_MESSAGE: u16 = 24101;

/// The type of the message that reports that client and server differ.
pub const OUT_OF_SYNC_MESSAGE: u16 = 24104;

/// The type of the message that hands the client a command of the server.
pub const AVAILABLE_SERVER_COMMAND_MESSAGE: u16 = 24111;

/// The type of the message that shows a player the opponent it attacks.
pub const NPC_DATA_MESSAGE: u16 = 24133;

/// What the server sends to show a player its own base.
pub struct OwnHomeDataMessage {
    pub seconds_since_last_save: i32,
    pub current_timestamp: i32,
    pub logic_client_home: LogicClientHome,
    pub logic_client_avatar: LogicClientAvatar,
}

/// What a base message holds, as plain values.
pub struct OwnHomeDataView {
    pub seconds_since_last_save: i32,
    pub current_timestamp: i32,
    pub home_json: Seq<char>,
    pub avatar: ClientAvatarView,
}

impl View for OwnHomeDataMessage {
    type V = OwnHomeDataView;

    open spec fn view(&self) -> OwnHomeDataView {
        OwnHomeDataView {
            seconds_since_last_save: self.seconds_since_last_save,
            current_timestamp: self.current_timestamp,
            home_json: self.logic_client_home@,
            avatar: self.logic_client_avatar@,
        }
    }
}

/// The payload of a base message: the seconds since the last save, the
/// time, the base, the actor.
pub open spec fn own_home_data_payload(m: OwnHomeDataView) -> Seq<u8> {
    int_bytes(m.seconds_since_last_save) + int_bytes(m.current_timestamp) + text_bytes(m.home_json)
        + client_avatar_bytes(m.avatar)
}

/// The base message that `OwnHomeDataMessage::new` gives.
pub open spec fn blank_own_home_data() -> OwnHomeDataView {
    OwnHomeDataView {
        seconds_since_last_save: 0,
        current_timestamp: 0,
        home_json: Seq::empty(),
        avatar: blank_client_avatar(),
    }
}

impl OwnHomeDataMessage {
    pub fn new() -> (r: Self)
        ensures
            r@ == blank_own_home_data(),
    {
        Self {
            seconds_since_last_save: 0,
            current_timestamp: 0,
            logic_client_home: LogicClientHome::new(),
            logic_client_avatar: LogicClientAvatar::new(),
        }
    }

    pub fn set_seconds_since_last_save(&mut self, value: i32)
        ensures
            final(self)@ == (OwnHomeDataView { seconds_since_last_save: value, ..old(self)@ }),
    {
        self.seconds_since_last_save = value;
    }

    pub fn set_current_timestamp(&mut self, value: i32)
        ensures
            final(self)@ == (OwnHomeDataView { current_timestamp: value, ..old(self)@ }),
    {
        self.current_timestamp = value;
    }

    pub fn set_logic_client_home(&mut self, logic_client_home: LogicClientHome)
        ensures
            final(self)@ == (OwnHomeDataView { home_json: logic_client_home@, ..old(self)@ }),
    {
        self.logic_client_home = logic_client_home;
    }

    pub fn set_logic_client_avatar(&mut self, logic_client_avatar: LogicClientAvatar)
        ensures
            final(self)@ == (OwnHomeDataView { avatar: logic_client_avatar@, ..old(self)@ }),
    {
        self.logic_client_avatar = logic_client_avatar;
    }

    /// The message that carries this base.
    pub fn encode(&self) -> (r: PiranhaMessage)
        ensures
            r@ == (MessageView {
                message_type: OWN_HOME_DATA_MESSAGE,
                version: 0,
                payload: own_home_data_payload(self@),
            }),
    {
        let mut stream = ByteStream::new(64);
        stream.write_int(self.seconds_since_last_save);
        proof {
            lemma_overwrite_empty(int_bytes(self.seconds_since_last_save));
        }
        let ghost b1 = stream.buffer@;
        stream.write_int(self.current_timestamp);
        proof {
            lemma_overwrite_at_end(b1, int_bytes(self.current_timestamp));
        }
        let ghost b2 = stream.buffer@;
        stream.write_text(self.logic_client_home.get_home_json());
        proof {
            lemma_overwrite_at_end(b2, text_bytes(self.logic_client_home@));
        }
        let ghost b3 = stream.buffer@;
        self.logic_client_avatar.encode(&mut stream);
        proof {
            lemma_overwrite_at_end(b3, client_avatar_bytes(self.logic_client_avatar@));
        }
        PiranhaMessage::new(OWN_HOME_DATA_MESSAGE, 0, stream.buffer)
    }
}

/// What a client sends at the end of a turn: the sub-tick it has reached, its
/// checksum there, and the commands it scheduled.
pub struct EndClientTurnMessage {
    pub sub_tick: i32,
    pub checksum: i32,
    pub commands: Option<LogicArrayList<LogicCommand>>,
}

/// What the end of a turn holds, as plain values.
pub struct EndClientTurnView {
    pub sub_tick: i32,
    pub checksum: i32,
    pub commands: Option<Seq<CommandView>>,
}

/// What a list of commands that may be missing holds.
pub open spec fn optional_commands(commands: Option<LogicArrayList<LogicCommand>>) -> Option<
    Seq<CommandView>,
> {
    match commands {
        Some(list) => Some(command_views(list@)),
        None => None,
    }
}

impl View for EndClientTurnMessage {
    type V = EndClientTurnView;

    open spec fn view(&self) -> EndClientTurnView {
        EndClientTurnView {
            sub_tick: self.sub_tick,
            checksum: self.checksum,
            commands: optional_commands(self.commands),
        }
    }
}

/// The commands of a sequence on the wire, one after the other.
pub open spec fn commands_bytes(commands: Seq<CommandView>) -> Seq<u8>
    decreases commands.len(),
{
    if commands.len() == 0 {
        Seq::empty()
    } else {
        commands_bytes(commands.drop_last()) + command_bytes(commands.last())
    }
}

/// The payload of the end of a turn: sub-tick, checksum, the number of
/// commands (-1 for a missing list), the commands.
pub open spec fn end_client_turn_payload(m: EndClientTurnView) -> Seq<u8> {
    int_bytes(m.sub_tick) + int_bytes(m.checksum) + (match m.commands {
        None => int_bytes(-1i32),
        Some(commands) => int_bytes(commands.len() as i32) + commands_bytes(commands),
    })
}

/// The `count` commands stored one after the other from index `at` of
/// `bytes`, with the index behind them.
pub open spec fn commands_at(bytes: Seq<u8>, at: int, count: nat) -> Option<(Seq<CommandView>, int)>
    decreases count,
{
    if count == 0 {
        Some((Seq::empty(), at))
    } else {
        match commands_at(bytes, at, (count - 1) as nat) {
            None => None,
            Some((before, next)) => match command_at(bytes, next) {
                None => None,
                Some((c, end)) => Some((before.push(c), end)),
            },
        }
    }
}

/// Where fewer commands cannot be read, more cannot either.
pub proof fn lemma_commands_at_none(bytes: Seq<u8>, at: int, fewer: nat, more: nat)
    requires
        fewer <= more,
        commands_at(bytes, at, fewer) is None,
    ensures
        commands_at(bytes, at, more) is None,
    decreases more,
{
    if more > fewer {
        lemma_commands_at_none(bytes, at, fewer, (more - 1) as nat);
    }
}

/// The end of a turn that a payload holds, if it holds one. A negative
/// number of commands stands for a missing list.
pub open spec fn end_client_turn_in(payload: Seq<u8>) -> Option<EndClientTurnView> {
    let sub_tick = int_at(payload, 0);
    let checksum = int_at(payload, 4);
    let count = int_at(payload, 8);
    if sub_tick is None || checksum is None || count is None {
        None
    } else if count.unwrap() < 0 {
        Some(
            EndClientTurnView {
                sub_tick: sub_tick.unwrap(),
                checksum: checksum.unwrap(),
                commands: None,
            },
        )
    } else {
        match commands_at(payload, 12, count.unwrap() as nat) {
            None => None,
            Some((commands, _)) => Some(
                EndClientTurnView {
                    sub_tick: sub_tick.unwrap(),
                    checksum: checksum.unwrap(),
                    commands: Some(commands),
                },
            ),
        }
    }
}

/// Commands that fit, written one after the other anywhere in a sequence of
/// bytes, are read back from their place in their order.
pub proof fn lemma_commands_inside(before: Seq<u8>, commands: Seq<CommandView>, after: Seq<u8>)
    requires
        forall|k: int| 0 <= k < commands.len() ==> command_fits(#[trigger] commands[k]),
    ensures
        commands_at(before + commands_bytes(commands) + after, before.len() as int, commands.len())
            == Some((commands, (before.len() + commands_bytes(commands).len()) as int)),
    decreases commands.len(),
{
    let bytes = before + commands_bytes(commands) + after;
    if commands.len() == 0 {
        assert(commands =~= Seq::<CommandView>::empty());
    } else {
        let front = commands.drop_last();
        let last = commands.last();
        assert forall|k: int| 0 <= k < front.len() implies command_fits(#[trigger] front[k]) by {
            assert(front[k] == commands[k]);
        }
        assert(bytes == before + commands_bytes(front) + (command_bytes(last) + after)) by {
            assert(bytes =~= before + commands_bytes(front) + (command_bytes(last) + after));
        }
        lemma_commands_inside(before, front, command_bytes(last) + after);
        assert(bytes == (before + commands_bytes(front)) + command_bytes(last) + after) by {
            assert(bytes =~= (before + commands_bytes(front)) + command_bytes(last) + after);
        }
        lemma_command_inside(Seq::empty(), 0, before + commands_bytes(front), last, after);
        lemma_overwrite_empty(bytes);
        assert(front.push(last) =~= commands);
    }
}

/// The end of a turn whose commands fit, and are few enough to be counted, is
/// read back from its payload.
pub proof fn lemma_end_client_turn_round_trip(m: EndClientTurnView)
    requires
        m.commands is Some ==> m.commands.unwrap().len() <= i32::MAX && forall|k: int|
            0 <= k < m.commands.unwrap().len() ==> command_fits(#[trigger] m.commands.unwrap()[k]),
    ensures
        end_client_turn_in(end_client_turn_payload(m)) == Some(m),
{
    let payload = end_client_turn_payload(m);
    let e = Seq::<u8>::empty();
    let tick = int_bytes(m.sub_tick);
    let sum = int_bytes(m.checksum);
    assert(tick.len() == 4 && sum.len() == 4);
    lemma_overwrite_empty(payload);
    match m.commands {
        None => {
            let count = int_bytes(-1i32);
            assert(payload == e + tick + (sum + count) && payload == tick + sum + count
                && payload == tick + sum + count + e) by {
                assert(payload =~= e + tick + (sum + count));
                assert(payload =~= tick + sum + count);
                assert(payload =~= tick + sum + count + e);
            }
            lemma_int_inside(e, 0, e, m.sub_tick, sum + count);
            lemma_int_inside(e, 0, tick, m.checksum, count);
            lemma_int_inside(e, 0, tick + sum, -1i32, e);
        },
        Some(commands) => {
            let count = int_bytes(commands.len() as i32);
            let list = commands_bytes(commands);
            assert(count.len() == 4);
            assert(payload == e + tick + (sum + count + list) && payload == tick + sum + (count + list)
                && payload == tick + sum + count + list && payload == (tick + sum + count) + list + e)
                by {
                assert(payload =~= e + tick + (sum + count + list));
                assert(payload =~= tick + sum + (count + list));
                assert(payload =~= tick + sum + count + list);
                assert(payload =~= (tick + sum + count) + list + e);
            }
            lemma_int_inside(e, 0, e, m.sub_tick, sum + count + list);
            lemma_int_inside(e, 0, tick, m.checksum, count + list);
            lemma_int_inside(e, 0, tick + sum, commands.len() as i32, list);
            lemma_commands_inside(tick + sum + count, commands, e);
        },
    }
}

impl EndClientTurnMessage {
    pub fn new(sub_tick: i32, checksum: i32, commands: Option<LogicArrayList<LogicCommand>>) -> (r:
        Self)
        ensures
            r.sub_tick == sub_tick,
            r.checksum == checksum,
            r.commands == commands,
    {
        Self { sub_tick, checksum, commands }
    }

    pub fn get_sub_tick(&self) -> (r: i32)
        ensures
            r == self.sub_tick,
    {
        self.sub_tick
    }

    pub fn get_checksum(&self) -> (r: i32)
        ensures
            r == self.checksum,
    {
        self.checksum
    }

    pub fn get_commands(&self) -> (r: Option<&LogicArrayList<LogicCommand>>)
        ensures
            match r {
                Some(list) => self.commands == Some(*list),
                None => self.commands is None,
            },
    {
        self.commands.as_ref()
    }

    /// Reads the end of a turn from the payload of `message`, whatever its
    /// type.
    pub fn decode(message: &PiranhaMessage) -> (r: Option<Self>)
        ensures
            match end_client_turn_in(message@.payload) {
                Some(m) => r is Some && r.unwrap()@ == m,
                None => r is None,
            },
    {
        let mut stream = ByteStream::from(message.payload.as_slice());
        let ghost bytes = message@.payload;
        if stream.buffer.len() < 12 {
            return None;
        }
        let sub_tick: i32 = stream.read_int().unwrap();
        let checksum: i32 = stream.read_int().unwrap();
        let count: i32 = stream.read_int().unwrap();
        if count < 0 {
            return Some(Self { sub_tick, checksum, commands: None });
        }
        let mut list: LogicArrayList<LogicCommand> = LogicArrayList::new();
        let mut k: i32 = 0;
        assert(command_views(list@) =~= Seq::<CommandView>::empty());
        while k < count
            invariant
                0 <= k <= count,
                stream.buffer@ == bytes,
                bytes == message@.payload,
                int_at(bytes, 0) == Some(sub_tick),
                int_at(bytes, 4) == Some(checksum),
                int_at(bytes, 8) == Some(count),
                commands_at(bytes, 12, k as nat) == Some((command_views(list@), stream.offset as int)),
            decreases count - k,
        {
            match LogicCommand::decode(&mut stream) {
                None => {
                    proof {
                        assert(commands_at(bytes, 12, (k + 1) as nat) is None);
                        lemma_commands_at_none(bytes, 12, (k + 1) as nat, count as nat);
                    }
                    return None;
                },
                Some(command) => {
                    proof {
                        assert(command_views(list@.push(command)) =~= command_views(list@).push(
                            command@,
                        ));
                    }
                    list.add(command);
                },
            }
            k = k + 1;
        }
        Some(Self { sub_tick, checksum, commands: Some(list) })
    }

    /// The message that carries this end of a turn.
    pub fn encode(&self) -> (r: PiranhaMessage)
        ensures
            r@ == (MessageView {
                message_type: END_CLIENT_TURN_MESSAGE,
                version: 0,
                payload: end_client_turn_payload(self@),
            }),
    {
        let mut stream = ByteStream::new(16);
        stream.write_int(self.sub_tick);
        proof {
            lemma_overwrite_empty(int_bytes(self.sub_tick));
        }
        let ghost b1 = stream.buffer@;
        stream.write_int(self.checksum);
        proof {
            lemma_overwrite_at_end(b1, int_bytes(self.checksum));
        }
        let ghost b2 = stream.buffer@;
        match &self.commands {
            None => {
                stream.write_int(-1);
                proof {
                    lemma_overwrite_at_end(b2, int_bytes(-1i32));
                    assert(b2 + int_bytes(-1i32) =~= end_client_turn_payload(self@));
                }
            },
            Some(list) => {
                let count: i32 = #[verifier::truncate]
                (list.size() as i32);
                stream.write_int(count);
                proof {
                    lemma_overwrite_at_end(b2, int_bytes(count));
                }
                let ghost b3 = stream.buffer@;
                let ghost all = command_views(list@);
                let items = list.as_slice();
                let mut k: usize = 0;
                assert(b3 + commands_bytes(all.subrange(0, 0)) =~= b3);
                while k < items.len()
                    invariant
                        k <= items@.len(),
                        items@ == list@,
                        all == command_views(list@),
                        stream.wf(),
                        stream.offset == stream.buffer@.len(),
                        stream.buffer@ == b3 + commands_bytes(all.subrange(0, k as int)),
                    decreases items@.len() - k,
                {
                    let ghost before = stream.buffer@;
                    items[k].encode(&mut stream);
                    proof {
                        lemma_overwrite_at_end(before, command_bytes(items@[k as int]@));
                        let next = all.subrange(0, k + 1);
                        assert(next.drop_last() =~= all.subrange(0, k as int));
                        assert(next.last() == items@[k as int]@);
                        assert(before + command_bytes(items@[k as int]@) =~= b3 + commands_bytes(
                            next,
                        ));
                    }
                    k = k + 1;
                }
                proof {
                    assert(all.subrange(0, k as int) =~= all);
                    assert(stream.buffer@ =~= end_client_turn_payload(self@));
                }
            },
        }
        PiranhaMessage::new(END_CLIENT_TURN_MESSAGE, 0, stream.buffer)
    }
}

/// What the server sends when its checksum differs from the client's.
#[derive(PartialEq, Eq, Structural, Clone, Copy, Debug)]
pub struct OutOfSyncMessage {
    pub server_checksum: i32,
    pub client_checksum: i32,
    pub sub_tick: i32,
}

/// The payload of an out-of-sync report: the server's checksum, the
/// client's, the sub-tick.
pub open spec fn out_of_sync_payload(m: OutOfSyncMessage) -> Seq<u8> {
    int_bytes(m.server_checksum) + int_bytes(m.client_checksum) + int_bytes(m.sub_tick)
}

impl OutOfSyncMessage {
    /// A report with both checksums and the sub-tick zero.
    pub fn new() -> (r: Self)
        ensures
            r == (OutOfSyncMessage { server_checksum: 0, client_checksum: 0, sub_tick: 0 }),
    {
        Self { server_checksum: 0, client_checksum: 0, sub_tick: 0 }
    }

    pub fn set_server_checksum(&mut self, value: i32)
        ensures
            *final(self) == (OutOfSyncMessage { server_checksum: value, ..*old(self) }),
    {
        self.server_checksum = value;
    }

    pub fn set_client_checksum(&mut self, value: i32)
        ensures
            *final(self) == (OutOfSyncMessage { client_checksum: value, ..*old(self) }),
    {
        self.client_checksum = value;
    }

    pub fn set_sub_tick(&mut self, value: i32)
        ensures
            *final(self) == (OutOfSyncMessage { sub_tick: value, ..*old(self) }),
    {
        self.sub_tick = value;
    }

    /// The message that carries this report.
    pub fn encode(&self) -> (r: PiranhaMessage)
        ensures
            r@ == (MessageView {
                message_type: OUT_OF_SYNC_MESSAGE,
                version: 0,
                payload: out_of_sync_payload(*self),
            }),
    {
        let mut stream = ByteStream::new(12);
        stream.write_int(self.server_checksum);
        proof {
            lemma_overwrite_empty(int_bytes(self.server_checksum));
        }
        let ghost b1 = stream.buffer@;
        stream.write_int(self.client_checksum);
        proof {
            lemma_overwrite_at_end(b1, int_bytes(self.client_checksum));
        }
        let ghost b2 = stream.buffer@;
        stream.write_int(self.sub_tick);
        proof {
            lemma_overwrite_at_end(b2, int_bytes(self.sub_tick));
        }
        PiranhaMessage::new(OUT_OF_SYNC_MESSAGE, 0, stream.buffer)
    }
}

/// What the server sends to hand the client a command to schedule.
pub struct AvailableServerCommandMessage {
    pub server_command: LogicCommand,
}

impl AvailableServerCommandMessage {
    /// A message with a command of type zero for sub-tick zero.
    pub fn new() -> (r: Self)
        ensures
            r.server_command@ == (CommandView {
                command_type: 0,
                execute_sub_tick: 0,
                avatar_name: None,
                name_change_state: 0,
            }),
    {
        Self { server_command: LogicCommand::new(0, 0) }
    }

    pub fn set_server_command(&mut self, command: &LogicCommand)
        ensures
            final(self).server_command@ == command@,
    {
        self.server_command = command.duplicate();
    }

    /// The message that carries this command.
    pub fn encode(&self) -> (r: PiranhaMessage)
        ensures
            r@ == (MessageView {
                message_type: AVAILABLE_SERVER_COMMAND_MESSAGE,
                version: 0,
                payload: command_bytes(self.server_command@),
            }),
    {
        let mut stream = ByteStream::new(16);
        self.server_command.encode(&mut stream);
        proof {
            lemma_overwrite_empty(command_bytes(self.server_command@));
        }
        PiranhaMessage::new(AVAILABLE_SERVER_COMMAND_MESSAGE, 0, stream.buffer)
    }
}

/// What a client sends to attack a computer-run opponent.
pub struct AttackNpcMessage {
    pub npc_data: LogicNpcData,
}

/// The opponent that a payload names, if it names one.
pub open spec fn attack_npc_in(payload: Seq<u8>) -> Option<NpcDataView> {
    match npc_data_at(payload, 0) {
        Some((data, _)) => Some(data),
        None => None,
    }
}

/// An opponent whose resource name fits is read back from the payload that
/// names it.
pub proof fn lemma_attack_npc_round_trip(data: NpcDataView)
    requires
        text_fits(data.level_json_file_name),
    ensures
        attack_npc_in(npc_data_bytes(data)) == Some(data),
{
    lemma_npc_data_read_back(Seq::empty(), 0, data, Seq::empty());
    lemma_overwrite_empty(npc_data_bytes(data));
}

impl AttackNpcMessage {
    pub fn new(npc_data: LogicNpcData) -> (r: Self)
        ensures
            r.npc_data == npc_data,
    {
        Self { npc_data }
    }

    pub fn get_npc_data(&self) -> (r: LogicNpcData)
        ensures
            r@ == self.npc_data@,
    {
        self.npc_data.duplicate()
    }

    /// Reads the attack from the payload of `message`, whatever its type.
    pub fn decode(message: &PiranhaMessage) -> (r: Option<Self>)
        ensures
            match attack_npc_in(message@.payload) {
                Some(data) => r is Some && r.unwrap().npc_data@ == data,
                None => r is None,
            },
    {
        let mut stream = ByteStream::from(message.payload.as_slice());
        match LogicNpcData::decode(&mut stream) {
            Some(npc_data) => Some(Self { npc_data }),
            None => None,
        }
    }

    /// The message that carries this attack.
    pub fn encode(&self) -> (r: PiranhaMessage)
        ensures
            r@ == (MessageView {
                message_type: ATTACK_NPC_MESSAGE,
                version: 0,
                payload: npc_data_bytes(self.npc_data@),
            }),
    {
        let mut stream = ByteStream::new(16);
        self.npc_data.encode(&mut stream);
        proof {
            lemma_overwrite_empty(npc_data_bytes(self.npc_data@));
        }
        PiranhaMessage::new(ATTACK_NPC_MESSAGE, 0, stream.buffer)
    }
}

/// What the server sends to show a player the opponent it attacks.
pub struct NpcDataMessage {
    pub level_json: String,
    pub logic_client_avatar: LogicClientAvatar,
    pub logic_npc_avatar: LogicNpcAvatar,
}

/// What an opponent message holds, as plain values.
pub struct NpcDataMessageView {
    pub level_json: Seq<char>,
    pub client_avatar: ClientAvatarView,
    pub npc_avatar: NpcDataView,
}

impl View for NpcDataMessage {
    type V = NpcDataMessageView;

    open spec fn view(&self) -> NpcDataMessageView {
        NpcDataMessageView {
            level_json: self.level_json@,
            client_avatar: self.logic_client_avatar@,
            npc_avatar: self.logic_npc_avatar@,
        }
    }
}

/// The payload of an opponent message: the level, the opponent, the
/// player's actor.
pub open spec fn npc_data_payload(m: NpcDataMessageView) -> Seq<u8> {
    text_bytes(m.level_json) + npc_data_bytes(m.npc_avatar) + client_avatar_bytes(m.client_avatar)
}

/// The opponent message that `NpcDataMessage::new` gives.
pub open spec fn blank_npc_data_message() -> NpcDataMessageView {
    NpcDataMessageView {
        level_json: Seq::empty(),
        client_avatar: blank_client_avatar(),
        npc_avatar: blank_npc_data(),
    }
}

impl NpcDataMessage {
    pub fn new() -> (r: Self)
        ensures
            r@ == blank_npc_data_message(),
    {
        Self {
            level_json: String::new(),
            logic_client_avatar: LogicClientAvatar::new(),
            logic_npc_avatar: LogicNpcAvatar::new(),
        }
    }

    pub fn set_level_json(&mut self, json: &str)
        ensures
            final(self)@ == (NpcDataMessageView { level_json: json@, ..old(self)@ }),
    {
        self.level_json = String::from_str(json);
    }

    pub fn set_logic_client_avatar(&mut self, value: &LogicClientAvatar)
        ensures
            final(self)@ == (NpcDataMessageView { client_avatar: value@, ..old(self)@ }),
    {
        self.logic_client_avatar = value.duplicate();
    }

    pub fn set_logic_npc_avatar(&mut self, value: &LogicNpcAvatar)
        ensures
            final(self)@ == (NpcDataMessageView { npc_avatar: value@, ..old(self)@ }),
    {
        self.logic_npc_avatar = value.duplicate();
    }

    /// The message that carries this opponent.
    pub fn encode(&self) -> (r: PiranhaMessage)
        ensures
            r@ == (MessageView {
                message_type: NPC_DATA_MESSAGE,
                version: 0,
                payload: npc_data_payload(self@),
            }),
    {
        let mut stream = ByteStream::new(64);
        stream.write_text(self.level_json.as_str());
        proof {
            lemma_overwrite_empty(text_bytes(self.level_json@));
        }
        let ghost b1 = stream.buffer@;
        self.logic_npc_avatar.encode(&mut stream);
        proof {
            lemma_overwrite_at_end(b1, npc_data_bytes(self.logic_npc_avatar@));
        }
        let ghost b2 = stream.buffer@;
        self.logic_client_avatar.encode(&mut stream);
        proof {
            lemma_overwrite_at_end(b2, client_avatar_bytes(self.logic_client_avatar@));
        }
        PiranhaMessage::new(NPC_DATA_MESSAGE, 0, stream.buffer)
    }
}

} // verus!
