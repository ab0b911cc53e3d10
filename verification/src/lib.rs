//! The session layer of a multiplayer game server.
//!
//! A connection carries encrypted frames. `network` holds the stream cipher,
//! the frame codec and the transport that joins them; `mersenne` derives the
//! session key from the nonce of the handshake; `message` gives the payloads
//! their types; `logic` holds the simulation that server and client run in
//! lockstep; and the functions of this file drive one session: the login with
//! its key rotation, the end of a turn with its checksum, and the dispatch of
//! each message to its handler. Sockets and storage stay outside: the caller
//! hands over the bytes it read and the record it fetched, and takes back the
//! bytes to write and the record to save.

pub mod array_list;
pub mod byte_stream;
pub mod database;
pub mod helper;
pub mod logic;
pub mod math;
pub mod mersenne;
pub mod message;
pub mod network;
pub mod resources;
pub mod sc_string;
pub mod time_util;

use vstd::prelude::*;
use vstd::string::*;
use vstd::utf8::*;
use crate::byte_stream::long_at;
use crate::database::{decode_avatar_blob, fetch, fetch_or_create, record_for_login, record_of, fetch_or_create_player, fetch_player, optional_record, optional_update, random_bytes, save_player_data_at, saved, stored_avatar, PlayerQuery, PlayerSaveData, PlayerSaveDataView, PlayerUpdate, PlayerUpdateView};
use crate::logic::avatar::{default_client_avatar, ClientAvatarView, LogicNpcAvatar};
use crate::logic::command::{command_bytes, command_views, optional_text, CommandView, LogicChangeAvatarNameCommand, LogicCommand, CHANGE_AVATAR_NAME_COMMAND};
use crate::logic::json::LogicJSONNode;
use crate::mersenne::scrambled;
use crate::sc_string::StringBuilder;
use crate::time_util::get_current_timestamp;
use crate::logic::home::LogicClientHome;
use crate::logic::level::HomeOwnerView;
use crate::logic::mode::{checksum, copied_actor, copied_npc, home_mode, npc_attack_mode, ticked, GameModeView, LogicGameMode, HOME_STATE};
use crate::math::LogicLong;
use crate::message::account::{login_in, login_ok_payload, set_encryption_payload, ExtendedSetEncryptionMessage, KeepAliveServerMessage, LoginMessage, LoginOkMessage, LoginOkView, LoginView, EXTENDED_SET_ENCRYPTION_MESSAGE, KEEP_ALIVE_MESSAGE, KEEP_ALIVE_SERVER_MESSAGE, LOGIN_MESSAGE, LOGIN_OK_MESSAGE, SCRAMBLER_METHOD};
use crate::message::avatar::{change_avatar_name_in, compressed_home, profile_entry_bytes, AskForAvatarProfileMessage, AvatarProfileFullEntry, AvatarProfileMessage, ChangeAvatarNameMessage, ASK_FOR_AVATAR_PROFILE_MESSAGE, AVATAR_PROFILE_MESSAGE, CHANGE_AVATAR_NAME_MESSAGE};
use crate::message::home::{attack_npc_in, end_client_turn_in, npc_data_payload, out_of_sync_payload, own_home_data_payload, AttackNpcMessage, AvailableServerCommandMessage, EndClientTurnMessage, EndClientTurnView, NpcDataMessage, NpcDataMessageView, OutOfSyncMessage, OwnHomeDataMessage, OwnHomeDataView, ATTACK_NPC_MESSAGE, AVAILABLE_SERVER_COMMAND_MESSAGE, END_CLIENT_TURN_MESSAGE, GO_HOME_MESSAGE, NPC_DATA_MESSAGE, OUT_OF_SYNC_MESSAGE, OWN_HOME_DATA_MESSAGE};
use crate::network::{keyed, queued, woken, LogicMagicMessageFactory, MessageView, Messaging, MessagingView, PiranhaMessage, RC4Encrypter};
use crate::resources::{found, ResourceManager};

verus! {

/// The state of one connection: its transport, who is logged in, the
/// simulation, and the base as it was last written.
pub struct PlayerSession {
    pub messaging: Messaging,
    pub account_id: LogicLong,
    pub logic_game_mode: Option<LogicGameMode>,
    pub saved_home_json: Option<String>,
}

/// What a session holds, as plain values.
pub struct SessionView {
    pub messaging: MessagingView,
    pub account_id: LogicLong,
    pub mode: Option<GameModeView>,
    pub saved_home_json: Option<Seq<char>>,
}

/// What a simulation that may be missing holds.
pub open spec fn optional_mode(mode: Option<LogicGameMode>) -> Option<GameModeView> {
    match mode {
        Some(m) => Some(m@),
        None => None,
    }
}

impl View for PlayerSession {
    type V = SessionView;

    open spec fn view(&self) -> SessionView {
        SessionView {
            messaging: self.messaging@,
            account_id: self.account_id,
            mode: optional_mode(self.logic_game_mode),
            saved_home_json: optional_text(self.saved_home_json),
        }
    }
}

/// The fixed secret of the cipher, as text.
pub open spec fn rc4_key_text() -> Seq<char> {
    "fhsd6f86f67rt8fw78fw789we78r9789wer6re"@
}

/// The state of both ciphers of a connection before any login: keyed with
/// the fixed secret and the fixed nonce.
pub open spec fn initial_cipher() -> network::CipherState {
    keyed(encode_utf8(rc4_key_text()) + encode_utf8("nonce"@))
}

/// The session with one more reply waiting for the next flush.
pub open spec fn replied(s: SessionView, message: MessageView) -> SessionView {
    SessionView { messaging: queued(s.messaging, message), ..s }
}

/// The session with its connection ended.
pub open spec fn dropped(s: SessionView) -> SessionView {
    SessionView { messaging: MessagingView { connected: false, ..s.messaging }, ..s }
}

/// The server's answer to a keep-alive.
pub open spec fn keep_alive_reply() -> MessageView {
    MessageView { message_type: KEEP_ALIVE_SERVER_MESSAGE, version: 0, payload: Seq::empty() }
}

/// The command that the server hands out when a client asks for `name`.
pub open spec fn name_change(name: Seq<char>) -> CommandView {
    CommandView {
        command_type: CHANGE_AVATAR_NAME_COMMAND,
        execute_sub_tick: 0,
        avatar_name: Some(name),
        name_change_state: 1,
    }
}

/// The session after a request for a name: the name change is handed to the
/// client as a command to schedule. A payload that holds no name changes
/// nothing.
#[verifier::opaque]
pub open spec fn change_avatar_name_handled(s: SessionView, payload: Seq<u8>) -> SessionView {
    match change_avatar_name_in(payload) {
        None => s,
        Some(name) => replied(
            s,
            MessageView {
                message_type: AVAILABLE_SERVER_COMMAND_MESSAGE,
                version: 0,
                payload: command_bytes(name_change(name)),
            },
        ),
    }
}

/// The message that shows a player its own base.
pub open spec fn own_home_reply(m: OwnHomeDataView) -> MessageView {
    MessageView { message_type: OWN_HOME_DATA_MESSAGE, version: 0, payload: own_home_data_payload(m) }
}

/// The session after a request to go home. Where a simulation runs that is
/// not at home, a base was saved, and the visitor can be copied, a new
/// simulation of the saved base replaces the old one, with a copy of the
/// visitor as its owner, and the base is shown to the player. Anything else
/// changes nothing.
#[verifier::opaque]
pub open spec fn go_home_handled(s: SessionView) -> SessionView {
    if s.mode is None || s.mode.unwrap().state == HOME_STATE || s.saved_home_json is None
        || s.mode.unwrap().level.visitor is None {
        s
    } else {
        let home_json = s.saved_home_json.unwrap();
        match copied_actor(s.mode.unwrap().level.visitor.unwrap()) {
            None => s,
            Some(owner) => match copied_actor(owner) {
                None => s,
                Some(shown) => SessionView {
                    mode: Some(home_mode(home_json, owner, 0, 0)),
                    ..replied(
                        s,
                        own_home_reply(
                            OwnHomeDataView {
                                seconds_since_last_save: 0,
                                current_timestamp: 0,
                                home_json,
                                avatar: shown,
                            },
                        ),
                    )
                },
            },
        }
    }
}

/// The player who owns the level of a simulation, if a player owns it.
pub open spec fn owning_player(mode: Option<GameModeView>) -> Option<ClientAvatarView> {
    match mode {
        Some(m) => match m.level.home_owner {
            Some(HomeOwnerView::Client(a)) => Some(a),
            _ => None,
        },
        None => None,
    }
}

/// The session after a request to attack a computer-run opponent. Where the
/// payload names an opponent, a simulation runs whose level a player owns,
/// the opponent's level was loaded, and both actors can be copied, a new
/// simulation of the attack replaces the old one and the opponent is shown to
/// the player. Anything else changes nothing.
#[verifier::opaque]
pub open spec fn attack_npc_handled(
    s: SessionView,
    payload: Seq<u8>,
    resources: Seq<(Seq<char>, Seq<char>)>,
) -> SessionView {
    let npc = attack_npc_in(payload);
    let player = owning_player(s.mode);
    if npc is None || player is None {
        s
    } else {
        let level = found(resources, npc.unwrap().level_json_file_name);
        let shown_npc = copied_npc(npc.unwrap());
        let shown_player = copied_actor(player.unwrap());
        if level is None || shown_npc is None || shown_player is None {
            s
        } else {
            SessionView {
                mode: Some(npc_attack_mode(level.unwrap(), npc.unwrap(), player.unwrap(), 0, 0)),
                ..replied(
                    s,
                    MessageView {
                        message_type: NPC_DATA_MESSAGE,
                        version: 0,
                        payload: npc_data_payload(
                            NpcDataMessageView {
                                level_json: level.unwrap(),
                                client_avatar: shown_player.unwrap(),
                                npc_avatar: shown_npc.unwrap(),
                            },
                        ),
                    },
                )
            }
        }
    }
}

/// The session after a request for a profile, given the record that storage
/// handed over. Where the payload holds an identifier that is not zero, the
/// record handed over carries that identifier, and its stored actor can be
/// read, the profile is sent. Anything else changes nothing: nothing is sent
/// for the identifier zero, nor for a record under another identifier.
#[verifier::opaque]
pub open spec fn avatar_profile_handled(
    s: SessionView,
    payload: Seq<u8>,
    data: Option<PlayerSaveDataView>,
) -> SessionView {
    if long_at(payload, 0) is None || data is None || !record_of(
        data.unwrap(),
        long_at(payload, 0).unwrap(),
    ) || stored_avatar(data.unwrap().client_avatar_blob) is None {
        s
    } else {
        replied(
            s,
            MessageView {
                message_type: AVATAR_PROFILE_MESSAGE,
                version: 0,
                payload: profile_entry_bytes(
                    stored_avatar(data.unwrap().client_avatar_blob).unwrap(),
                    compressed_home(data.unwrap().home_json),
                ),
            },
        )
    }
}

impl PlayerSession {
    /// The ciphers of the transport are whole.
    pub open spec fn wf(&self) -> bool {
        self.messaging.wf()
    }

    /// The session of a connection that was just accepted: nobody is logged
    /// in, no simulation runs, and both ciphers are keyed with the fixed secret
    /// and the fixed nonce.
    pub fn new(fd: i32) -> (r: Self)
        ensures
            r.wf(),
            r@ == (SessionView {
                messaging: MessagingView {
                    fd,
                    connected: true,
                    encrypter: Some(initial_cipher()),
                    decrypter: Some(initial_cipher()),
                    inbound: Seq::empty(),
                    outgoing: Seq::empty(),
                    outbound: Seq::empty(),
                },
                account_id: LogicLong { higher_int: 0, lower_int: 0 },
                mode: None,
                saved_home_json: None,
            }),
    {
        let mut messaging = Messaging::new(fd);
        messaging.set_encrypters(
            RC4Encrypter::new(LogicMagicMessageFactory::rc4_key(), "nonce"),
            RC4Encrypter::new(LogicMagicMessageFactory::rc4_key(), "nonce"),
        );
        Self {
            messaging,
            account_id: LogicLong::new(0, 0),
            logic_game_mode: None,
            saved_home_json: None,
        }
    }
}

/// Answers a keep-alive.
pub fn handle_keep_alive_message(session: &mut PlayerSession, _message: PiranhaMessage)
    ensures
        final(session).wf() == old(session).wf(),
        final(session)@ == replied(old(session)@, keep_alive_reply()),
{
    session.messaging.send(KeepAliveServerMessage::new().encode());
}

/// Answers a request for a name.
pub fn handle_change_avatar_name_message(session: &mut PlayerSession, message: PiranhaMessage)
    ensures
        final(session).wf() == old(session).wf(),
        final(session)@ == change_avatar_name_handled(old(session)@, message@.payload),
{
    proof {
        reveal(change_avatar_name_handled);
    }
    let request = match ChangeAvatarNameMessage::decode(&message) {
        None => {
            return ;
        },
        Some(m) => m,
    };
    let name = request.get_avatar_name();
    let mut logic_change_avatar_name_command = LogicChangeAvatarNameCommand::new();
    logic_change_avatar_name_command.set_avatar_name(name.as_str());
    logic_change_avatar_name_command.set_name_change_state(1);
    let mut available_server_command_message = AvailableServerCommandMessage::new();
    available_server_command_message.set_server_command(&logic_change_avatar_name_command.0);
    session.messaging.send(available_server_command_message.encode());
}

/// Answers a request to go home.
pub fn handle_go_home_message(session: &mut PlayerSession, _message: PiranhaMessage)
    ensures
        final(session).wf() == old(session).wf(),
        final(session)@ == go_home_handled(old(session)@),
{
    proof {
        reveal(go_home_handled);
    }
    let logic_client_avatar = match &session.logic_game_mode {
        None => {
            return ;
        },
        Some(logic_game_mode) => {
            if logic_game_mode.get_state() == HOME_STATE {
                return ;
            }
            if session.saved_home_json.is_none() {
                return ;
            }
            match logic_game_mode.get_cloned_visitor() {
                None => {
                    return ;
                },
                Some(avatar) => avatar,
            }
        },
    };
    let home_json: String = match &session.saved_home_json {
        None => {
            return ;
        },
        Some(json) => json.clone(),
    };
    let mut logic_client_home = LogicClientHome::new();
    logic_client_home.set_home_json(home_json.as_str());
    let mut logic_game_mode = LogicGameMode::new();
    logic_game_mode.load_home_state(&logic_client_home, &logic_client_avatar, 0);
    let shown = match logic_game_mode.get_cloned_home_owner() {
        None => {
            return ;
        },
        Some(avatar) => avatar,
    };
    let mut own_home_data_message = OwnHomeDataMessage::new();
    own_home_data_message.set_logic_client_home(logic_client_home);
    own_home_data_message.set_logic_client_avatar(shown);
    session.logic_game_mode = Some(logic_game_mode);
    session.messaging.send(own_home_data_message.encode());
}

/// Answers a request to attack a computer-run opponent, whose level is taken
/// from the loaded resources.
pub fn handle_attack_npc_message(
    session: &mut PlayerSession,
    message: PiranhaMessage,
    resources: &ResourceManager,
)
    ensures
        final(session).wf() == old(session).wf(),
        final(session)@ == attack_npc_handled(old(session)@, message@.payload, resources@),
{
    proof {
        reveal(attack_npc_handled);
    }
    let request = match AttackNpcMessage::decode(&message) {
        None => {
            return ;
        },
        Some(m) => m,
    };
    let home_owner_avatar = match &session.logic_game_mode {
        None => {
            return ;
        },
        Some(logic_game_mode) => match logic_game_mode.get_level().get_home_owner_avatar() {
            None => {
                return ;
            },
            Some(avatar) => avatar,
        },
    };
    let npc_data = request.get_npc_data();
    let file_name = npc_data.get_level_json_file_name().to_string();
    let level_json: String = match resources.get_text(file_name.as_str()) {
        None => {
            return ;
        },
        Some(text) => String::from_str(text),
    };
    let mut logic_client_home = LogicClientHome::new();
    logic_client_home.set_home_json(level_json.as_str());
    let mut logic_npc_avatar = LogicNpcAvatar::new();
    logic_npc_avatar.set_npc_data(&npc_data);
    let mut logic_game_mode = LogicGameMode::new();
    logic_game_mode.load_npc_attack_state(&logic_client_home, &logic_npc_avatar, &home_owner_avatar, 0);
    let shown_npc = match logic_game_mode.get_cloned_npc_home_owner() {
        None => {
            return ;
        },
        Some(avatar) => avatar,
    };
    let shown_player = match logic_game_mode.get_cloned_visitor() {
        None => {
            return ;
        },
        Some(avatar) => avatar,
    };
    let mut npc_data_message = NpcDataMessage::new();
    npc_data_message.set_level_json(level_json.as_str());
    npc_data_message.set_logic_npc_avatar(&shown_npc);
    npc_data_message.set_logic_client_avatar(&shown_player);
    session.logic_game_mode = Some(logic_game_mode);
    session.messaging.send(npc_data_message.encode());
}

/// Answers a request for a profile with the record that storage handed over
/// for the identifier in the request.
pub fn handle_ask_for_avatar_profile_message(
    session: &mut PlayerSession,
    message: PiranhaMessage,
    player_data: Option<PlayerSaveData>,
)
    ensures
        final(session).wf() == old(session).wf(),
        final(session)@ == avatar_profile_handled(
            old(session)@,
            message@.payload,
            optional_record(player_data),
        ),
{
    proof {
        reveal(avatar_profile_handled);
    }
    let request = match AskForAvatarProfileMessage::decode(&message) {
        None => {
            return ;
        },
        Some(m) => m,
    };
    if request.get_account_id().is_zero() {
        return ;
    }
    let player_data = match player_data {
        None => {
            return ;
        },
        Some(data) => data,
    };
    if player_data.id != *request.get_account_id() {
        return ;
    }
    let logic_client_avatar = match decode_avatar_blob(player_data.client_avatar_blob.as_str()) {
        None => {
            return ;
        },
        Some(avatar) => avatar,
    };
    let mut avatar_profile_full_entry = AvatarProfileFullEntry::new();
    avatar_profile_full_entry.set_logic_client_avatar(logic_client_avatar);
    avatar_profile_full_entry.set_home_json(player_data.home_json.as_str());
    let mut avatar_profile_message = AvatarProfileMessage::new();
    avatar_profile_message.set_avatar_profile_full_entry(avatar_profile_full_entry);
    session.messaging.send(avatar_profile_message.encode());
}


/// The commands of `commands` that are due at `sub_tick`, in the order in
/// which the client sent them.
pub open spec fn due(commands: Seq<CommandView>, sub_tick: i32) -> Seq<CommandView>
    decreases commands.len(),
{
    if commands.len() == 0 {
        Seq::empty()
    } else {
        let before = due(commands.drop_last(), sub_tick);
        if commands.last().execute_sub_tick == sub_tick {
            before.push(commands.last())
        } else {
            before
        }
    }
}

/// The simulation after the client's commands that are due at its present
/// sub-tick were put behind the commands that wait.
pub open spec fn injected(mode: GameModeView, commands: Option<Seq<CommandView>>) -> GameModeView {
    match commands {
        Some(list) => GameModeView {
            pending: mode.pending + due(list, mode.level.sub_tick),
            ..mode
        },
        None => mode,
    }
}

/// The simulation after it was moved on to the sub-tick `target`: at each
/// sub-tick before the target the client's commands due at that sub-tick are
/// injected, and then the simulation moves on by one. A simulation already at
/// or past the target is left as it is, and a command due at a sub-tick that
/// has passed is never injected.
pub open spec fn turn_advanced(
    mode: GameModeView,
    commands: Option<Seq<CommandView>>,
    target: i32,
) -> GameModeView
    decreases target - mode.level.sub_tick,
{
    if mode.level.sub_tick >= target {
        mode
    } else {
        turn_advanced(ticked(injected(mode, commands)), commands, target)
    }
}

/// The report that the server sends when its checksum differs.
pub open spec fn out_of_sync_reply(server_checksum: i32, client_checksum: i32, sub_tick: i32)
    -> MessageView {
    MessageView {
        message_type: OUT_OF_SYNC_MESSAGE,
        version: 0,
        payload: out_of_sync_payload(OutOfSyncMessage { server_checksum, client_checksum, sub_tick }),
    }
}

/// The session after the end of a turn, and what storage is asked to write.
///
/// The simulation is moved on to the client's sub-tick. Where its checksum
/// there differs from the client's, one report with both checksums and the
/// sub-tick is queued; the connection stays as it is. Where the simulation
/// is at home afterwards, its base is remembered in the session, and storage
/// is asked to write the base and a copy of the owner under the session's
/// identifier. Without a simulation nothing happens.
#[verifier::opaque]
pub open spec fn end_client_turn_handled(s: SessionView, turn: EndClientTurnView, timestamp: i64) -> (
    SessionView,
    Option<PlayerUpdateView>,
) {
    match s.mode {
        None => (s, None),
        Some(mode) => {
            let after = turn_advanced(mode, turn.commands, turn.sub_tick);
            let server_checksum = checksum(after, false);
            let moved = SessionView { mode: Some(after), ..s };
            let reported = if server_checksum != turn.checksum {
                replied(moved, out_of_sync_reply(server_checksum, turn.checksum, turn.sub_tick))
            } else {
                moved
            };
            if after.state != HOME_STATE {
                (reported, None)
            } else {
                let home_json = after.level.home_json;
                let remembered = SessionView { saved_home_json: Some(home_json), ..reported };
                let owner = match owning_player(Some(after)) {
                    Some(a) => copied_actor(a),
                    None => None,
                };
                match owner {
                    Some(a) => (remembered, Some(saved(s.account_id, home_json, a, timestamp))),
                    None => (remembered, None),
                }
            }
        },
    }
}

/// The session after a message that ends a turn. A payload that holds no
/// end of a turn changes nothing.
#[verifier::opaque]
pub open spec fn end_client_turn_message_handled(s: SessionView, payload: Seq<u8>, timestamp: i64)
    -> (SessionView, Option<PlayerUpdateView>) {
    match end_client_turn_in(payload) {
        None => (s, None),
        Some(turn) => end_client_turn_handled(s, turn, timestamp),
    }
}

/// Puts the client's commands that are due at the present sub-tick behind
/// the commands that wait.
pub fn inject_due_commands(logic_game_mode: &mut LogicGameMode, commands: &[LogicCommand])
    ensures
        final(logic_game_mode)@ == injected(old(logic_game_mode)@, Some(command_views(commands@))),
{
    let cur_sub_tick: i32 = logic_game_mode.get_level().get_time().sub_tick;
    let ghost all = command_views(commands@);
    let mut k: usize = 0;
    assert(old(logic_game_mode)@.pending + due(all.subrange(0, 0), cur_sub_tick) =~= old(
        logic_game_mode,
    )@.pending);
    while k < commands.len()
        invariant
            k <= commands@.len(),
            all == command_views(commands@),
            cur_sub_tick == old(logic_game_mode)@.level.sub_tick,
            logic_game_mode@ == (GameModeView {
                pending: old(logic_game_mode)@.pending + due(all.subrange(0, k as int), cur_sub_tick),
                ..old(logic_game_mode)@
            }),
        decreases commands@.len() - k,
    {
        proof {
            let next = all.subrange(0, k + 1);
            assert(next.drop_last() =~= all.subrange(0, k as int));
            assert(next.last() == commands@[k as int]@);
        }
        if commands[k].get_execute_sub_tick() == cur_sub_tick {
            let ghost before = logic_game_mode@.pending;
            logic_game_mode.get_command_manager().add_command(&commands[k]);
            assert(before.push(commands@[k as int]@) =~= old(logic_game_mode)@.pending + due(
                all.subrange(0, k + 1),
                cur_sub_tick,
            ));
        }
        k = k + 1;
    }
    assert(all.subrange(0, k as int) =~= all);
}

/// Moves the simulation on to the sub-tick `target`, one sub-tick at a time,
/// injecting at each sub-tick the client's commands that are due then.
pub fn advance_to_sub_tick(
    logic_game_mode: &mut LogicGameMode,
    commands: Option<&[LogicCommand]>,
    target: i32,
)
    ensures
        final(logic_game_mode)@ == turn_advanced(
            old(logic_game_mode)@,
            match commands {
                Some(list) => Some(command_views(list@)),
                None => None,
            },
            target,
        ),
{
    let ghost sent = match commands {
        Some(list) => Some(command_views(list@)),
        None => None,
    };
    while logic_game_mode.get_level().get_time().sub_tick < target
        invariant
            sent == (match commands {
                Some(list) => Some(command_views(list@)),
                None => None,
            }),
            turn_advanced(old(logic_game_mode)@, sent, target) == turn_advanced(
                logic_game_mode@,
                sent,
                target,
            ),
        decreases target - logic_game_mode@.level.sub_tick,
    {
        match commands {
            Some(list) => {
                inject_due_commands(logic_game_mode, list);
            },
            None => {},
        }
        logic_game_mode.update_one_sub_tick();
    }
}

/// Ends a turn at the given time: moves the simulation on to the client's
/// sub-tick, reports a checksum that differs, and returns what storage is to
/// write where the simulation is at home.
pub fn end_client_turn(session: &mut PlayerSession, turn: &EndClientTurnMessage, timestamp: i64) -> (r:
    Option<PlayerUpdate>)
    ensures
        final(session).wf() == old(session).wf(),
        (final(session)@, optional_update(r)) == end_client_turn_handled(
            old(session)@,
            turn@,
            timestamp,
        ),
{
    proof {
        reveal(end_client_turn_handled);
    }
    let mut logic_game_mode = match session.logic_game_mode.take() {
        None => {
            return None;
        },
        Some(mode) => mode,
    };
    let client_sub_tick: i32 = turn.get_sub_tick();
    match turn.get_commands() {
        Some(list) => {
            advance_to_sub_tick(&mut logic_game_mode, Some(list.as_slice()), client_sub_tick);
        },
        None => {
            advance_to_sub_tick(&mut logic_game_mode, None, client_sub_tick);
        },
    }
    let mut debug_json = LogicJSONNode::new_json_object();
    let checksum: i32 = logic_game_mode.calculate_checksum(Some(&mut debug_json), false);
    if checksum != turn.get_checksum() {
        let mut out_of_sync_message = OutOfSyncMessage::new();
        out_of_sync_message.set_server_checksum(checksum);
        out_of_sync_message.set_client_checksum(turn.get_checksum());
        out_of_sync_message.set_sub_tick(turn.get_sub_tick());
        session.messaging.send(out_of_sync_message.encode());
    }
    let mut update: Option<PlayerUpdate> = None;
    if logic_game_mode.get_state() == HOME_STATE {
        let mut string_builder = StringBuilder::new();
        let mut home_json_object = LogicJSONNode::new_json_object();
        logic_game_mode.save_to_json(&mut home_json_object);
        home_json_object.write_to_string(&mut string_builder);
        let home_json = string_builder.to_string();
        assert(home_json@ =~= logic_game_mode@.level.home_json);
        match logic_game_mode.get_cloned_home_owner() {
            Some(owner) => {
                update = Some(
                    save_player_data_at(&session.account_id, home_json.as_str(), &owner, timestamp),
                );
            },
            None => {},
        }
        session.saved_home_json = Some(home_json);
    }
    session.logic_game_mode = Some(logic_game_mode);
    update
}

/// Ends a turn at the time of the machine. The time enters only what
/// storage is asked to write.
pub fn handle_end_client_turn_message(session: &mut PlayerSession, message: PiranhaMessage) -> (r:
    Option<PlayerUpdate>)
    ensures
        final(session).wf() == old(session).wf(),
        exists|timestamp: i64|
            (final(session)@, optional_update(r)) == #[trigger] end_client_turn_message_handled(
                old(session)@,
                message@.payload,
                timestamp,
            ),
{
    proof {
        reveal(end_client_turn_message_handled);
    }
    let turn = match EndClientTurnMessage::decode(&message) {
        None => {
            assert((session@, None::<PlayerUpdateView>) == end_client_turn_message_handled(
                old(session)@,
                message@.payload,
                0,
            ));
            return None;
        },
        Some(m) => m,
    };
    let timestamp = get_current_timestamp();
    let update = end_client_turn(session, &turn, timestamp);
    assert((session@, optional_update(update)) == end_client_turn_message_handled(
        old(session)@,
        message@.payload,
        timestamp,
    ));
    update
}


/// The number of bytes of the nonce that the server sends at a login.
pub const NONCE_LENGTH: usize = 64;

/// The major version that the server reports.
pub const SERVER_MAJOR_VERSION: i32 = 8;

/// The build that the server reports.
pub const SERVER_BUILD: i32 = 67;

/// The content version that the server reports.
pub const CONTENT_VERSION: i32 = 0;

/// The environment that the server reports.
pub open spec fn server_environment() -> Seq<char> {
    "dev"@
}

/// Whether a login is refused: its payload holds no login, storage handed
/// over no record, the record is not one that a login under the identifier
/// may be answered with, the identifier is not zero and the token is missing
/// or is not the stored one, or the stored actor cannot be read.
pub open spec fn login_refused(login: Option<LoginView>, data: Option<PlayerSaveDataView>) -> bool {
    ||| login is None
    ||| data is None
    ||| !record_for_login(data.unwrap(), login.unwrap().account_id)
    ||| (!login.unwrap().account_id.is_zero() && login.unwrap().pass_token != Some(
        data.unwrap().pass_token,
    ))
    ||| stored_avatar(data.unwrap().client_avatar_blob) is None
}

/// The state of both ciphers of a session that has logged in: keyed with the
/// fixed secret and the nonce as the client's seed scrambles it.
pub open spec fn session_cipher(seed: i32, nonce: Seq<u8>) -> network::CipherState {
    keyed(encode_utf8(rc4_key_text()) + scrambled(seed, nonce))
}

/// The message that starts the key rotation.
pub open spec fn set_encryption_reply(nonce: Seq<u8>) -> MessageView {
    MessageView {
        message_type: EXTENDED_SET_ENCRYPTION_MESSAGE,
        version: 0,
        payload: set_encryption_payload(nonce, SCRAMBLER_METHOD),
    }
}

/// The message that tells the client that it is logged in as the player of
/// the record.
pub open spec fn login_ok_reply(data: PlayerSaveDataView) -> MessageView {
    MessageView {
        message_type: LOGIN_OK_MESSAGE,
        version: 0,
        payload: login_ok_payload(
            LoginOkView {
                account_id: data.id,
                home_id: data.id,
                pass_token: data.pass_token,
                server_major_version: SERVER_MAJOR_VERSION,
                server_build: SERVER_BUILD,
                content_version: CONTENT_VERSION,
                server_environment: server_environment(),
            },
        ),
    }
}

/// The actor with which a player logs in: the stored one under the
/// identifier of the record.
pub open spec fn login_avatar(data: PlayerSaveDataView) -> ClientAvatarView {
    ClientAvatarView { id: data.id, ..stored_avatar(data.client_avatar_blob).unwrap() }
}

/// The seconds between the last save of a record and `timestamp`, cut to 32
/// bits.
pub open spec fn seconds_since(data: PlayerSaveDataView, timestamp: i64) -> i32 {
    (timestamp - data.last_save_timestamp) as i32
}

/// The session after a login that is not refused.
///
/// The key rotation is queued and flushed under the ciphers that the session
/// had. Then both ciphers are replaced by the session cipher, so that
/// everything queued later is encrypted under the new key from its start. The
/// session takes the identifier of the record, a simulation of the stored
/// base with the stored actor, and the stored base as the base last written;
/// the login success and the base are queued for the client.
pub open spec fn login_completed(
    s: SessionView,
    login: LoginView,
    data: PlayerSaveDataView,
    nonce: Seq<u8>,
    timestamp: i64,
) -> SessionView {
    let announced = woken(queued(s.messaging, set_encryption_reply(nonce)));
    let rekeyed = MessagingView {
        encrypter: Some(session_cipher(login.scrambler_seed, nonce)),
        decrypter: Some(session_cipher(login.scrambler_seed, nonce)),
        ..announced
    };
    let shown = OwnHomeDataView {
        seconds_since_last_save: seconds_since(data, timestamp),
        current_timestamp: timestamp as i32,
        home_json: data.home_json,
        avatar: login_avatar(data),
    };
    SessionView {
        messaging: queued(queued(rekeyed, login_ok_reply(data)), own_home_reply(shown)),
        account_id: data.id,
        mode: Some(
            GameModeView {
                current_timestamp: timestamp as i32,
                ..home_mode(data.home_json, login_avatar(data), seconds_since(data, timestamp), 0)
            },
        ),
        saved_home_json: Some(data.home_json),
    }
}

/// The session after a login, given the record that storage handed over,
/// the nonce that was drawn and the time: a refused login ends the connection
/// without a reply, any other is completed.
#[verifier::opaque]
pub open spec fn login_handled(
    s: SessionView,
    payload: Seq<u8>,
    data: Option<PlayerSaveDataView>,
    nonce: Seq<u8>,
    timestamp: i64,
) -> SessionView {
    if login_refused(login_in(payload), data) {
        dropped(s)
    } else {
        login_completed(s, login_in(payload).unwrap(), data.unwrap(), nonce, timestamp)
    }
}

/// Handles a login with the record that storage handed over, a nonce and
/// the time.
pub fn login(
    session: &mut PlayerSession,
    message: &PiranhaMessage,
    player_data: Option<PlayerSaveData>,
    nonce: Vec<u8>,
    timestamp: i64,
)
    requires
        old(session).wf(),
    ensures
        final(session).wf(),
        final(session)@ == login_handled(
            old(session)@,
            message@.payload,
            optional_record(player_data),
            nonce@,
            timestamp,
        ),
{
    proof {
        reveal(login_handled);
    }
    let login_message = match LoginMessage::decode(message) {
        None => {
            session.messaging.disconnect();
            return ;
        },
        Some(m) => m,
    };
    let player_data = match player_data {
        None => {
            session.messaging.disconnect();
            return ;
        },
        Some(data) => data,
    };
    if login_message.get_account_id().is_zero() {
        if player_data.id.is_zero() {
            session.messaging.disconnect();
            return ;
        }
    } else {
        if player_data.id != *login_message.get_account_id() {
            session.messaging.disconnect();
            return ;
        }
        let matches: bool = match &login_message.pass_token {
            None => false,
            Some(pass_token) => *pass_token == player_data.pass_token,
        };
        if !matches {
            session.messaging.disconnect();
            return ;
        }
    }
    let mut logic_client_avatar = match decode_avatar_blob(player_data.client_avatar_blob.as_str()) {
        None => {
            session.messaging.disconnect();
            return ;
        },
        Some(avatar) => avatar,
    };
    logic_client_avatar.set_id(&player_data.id);

    let mut nonce = nonce;
    let mut set_encryption_message = ExtendedSetEncryptionMessage::new();
    set_encryption_message.set_nonce(nonce.as_slice());
    set_encryption_message.set_scrambler_method(SCRAMBLER_METHOD);
    session.messaging.send(set_encryption_message.encode());
    session.messaging.on_wakeup();

    Messaging::scramble_nonce_using_mersenne_twister(
        login_message.get_scrambler_seed(),
        nonce.as_mut_slice(),
    );
    let encrypter = RC4Encrypter::new_with_nonce_bytes(
        LogicMagicMessageFactory::rc4_key(),
        nonce.as_slice(),
    );
    let decrypter = RC4Encrypter::new_with_nonce_bytes(
        LogicMagicMessageFactory::rc4_key(),
        nonce.as_slice(),
    );
    session.messaging.set_encrypters(encrypter, decrypter);

    let mut login_ok_message = LoginOkMessage::new();
    login_ok_message.set_account_id(player_data.id);
    login_ok_message.set_home_id(player_data.id);
    login_ok_message.set_pass_token(player_data.pass_token.as_str());
    login_ok_message.set_server_major_version(SERVER_MAJOR_VERSION);
    login_ok_message.set_server_build(SERVER_BUILD);
    login_ok_message.set_content_version(CONTENT_VERSION);
    login_ok_message.set_server_environment("dev");

    let mut logic_client_home = LogicClientHome::new();
    logic_client_home.set_home_json(player_data.home_json.as_str());

    let mut logic_game_mode = LogicGameMode::new();
    let seconds_since_last_save: i32 = #[verifier::truncate]
    ((timestamp as i128 - player_data.last_save_timestamp as i128) as i32);
    let current_timestamp: i32 = #[verifier::truncate]
    (timestamp as i32);
    logic_game_mode.load_home_state(&logic_client_home, &logic_client_avatar, seconds_since_last_save);
    logic_game_mode.set_current_timestamp(current_timestamp);

    let mut own_home_data_message = OwnHomeDataMessage::new();
    own_home_data_message.set_seconds_since_last_save(seconds_since_last_save);
    own_home_data_message.set_current_timestamp(current_timestamp);
    own_home_data_message.set_logic_client_home(logic_client_home);
    own_home_data_message.set_logic_client_avatar(logic_client_avatar);

    session.account_id = player_data.id;
    session.logic_game_mode = Some(logic_game_mode);
    session.saved_home_json = Some(player_data.home_json);

    session.messaging.send(login_ok_message.encode());
    session.messaging.send(own_home_data_message.encode());
}

/// Handles a login with the record that storage handed over. The nonce is
/// left to chance and the time is the machine's.
pub fn handle_login_message(
    session: &mut PlayerSession,
    message: PiranhaMessage,
    player_data: Option<PlayerSaveData>,
)
    requires
        old(session).wf(),
    ensures
        final(session).wf(),
        exists|nonce: Seq<u8>, timestamp: i64|
            nonce.len() == NONCE_LENGTH && final(session)@ == #[trigger] login_handled(
                old(session)@,
                message@.payload,
                optional_record(player_data),
                nonce,
                timestamp,
            ),
{
    let nonce = random_bytes(NONCE_LENGTH);
    let timestamp = get_current_timestamp();
    let ghost drawn = nonce@;
    login(session, &message, player_data, nonce, timestamp);
    assert(session@ == login_handled(
        old(session)@,
        message@.payload,
        optional_record(player_data),
        drawn,
        timestamp,
    ));
}

/// What storage is asked to do before `message` is handled: a login asks for
/// a new or a stored record, a request for a profile for a stored record,
/// and nothing else asks for anything.
pub open spec fn query_for(message: MessageView) -> PlayerQuery {
    if message.message_type == LOGIN_MESSAGE {
        match login_in(message.payload) {
            Some(login) => fetch_or_create(login.account_id),
            None => PlayerQuery::Nothing,
        }
    } else if message.message_type == ASK_FOR_AVATAR_PROFILE_MESSAGE {
        match long_at(message.payload, 0) {
            Some(id) => fetch(id),
            None => PlayerQuery::Nothing,
        }
    } else {
        PlayerQuery::Nothing
    }
}

/// Says what storage is to do before `message` is handled.
pub fn storage_query(message: &PiranhaMessage) -> (r: PlayerQuery)
    ensures
        r == query_for(message@),
{
    let message_type: u16 = message.get_message_type();
    if message_type == LOGIN_MESSAGE {
        match LoginMessage::decode(message) {
            Some(login) => fetch_or_create_player(login.get_account_id()),
            None => PlayerQuery::Nothing,
        }
    } else if message_type == ASK_FOR_AVATAR_PROFILE_MESSAGE {
        match AskForAvatarProfileMessage::decode(message) {
            Some(request) => fetch_player(request.get_account_id()),
            None => PlayerQuery::Nothing,
        }
    } else {
        PlayerQuery::Nothing
    }
}

/// The session after the handler of a message has run, and what storage is
/// asked to write. A message of a type that has no handler changes nothing.
pub open spec fn routed(
    s: SessionView,
    message: MessageView,
    data: Option<PlayerSaveDataView>,
    resources: Seq<(Seq<char>, Seq<char>)>,
    nonce: Seq<u8>,
    timestamp: i64,
) -> (SessionView, Option<PlayerUpdateView>) {
    if message.message_type == LOGIN_MESSAGE {
        (login_handled(s, message.payload, data, nonce, timestamp), None)
    } else if message.message_type == KEEP_ALIVE_MESSAGE {
        (replied(s, keep_alive_reply()), None)
    } else if message.message_type == CHANGE_AVATAR_NAME_MESSAGE {
        (change_avatar_name_handled(s, message.payload), None)
    } else if message.message_type == GO_HOME_MESSAGE {
        (go_home_handled(s), None)
    } else if message.message_type == END_CLIENT_TURN_MESSAGE {
        end_client_turn_message_handled(s, message.payload, timestamp)
    } else if message.message_type == ATTACK_NPC_MESSAGE {
        (attack_npc_handled(s, message.payload, resources), None)
    } else if message.message_type == ASK_FOR_AVATAR_PROFILE_MESSAGE {
        (avatar_profile_handled(s, message.payload, data), None)
    } else {
        (s, None)
    }
}

/// The session after a message was dispatched: its handler has run, and then
/// the transport was flushed, so that the replies of the handler are ready
/// for the socket before the next message is looked at.
pub open spec fn dispatched(
    s: SessionView,
    message: MessageView,
    data: Option<PlayerSaveDataView>,
    resources: Seq<(Seq<char>, Seq<char>)>,
    nonce: Seq<u8>,
    timestamp: i64,
) -> (SessionView, Option<PlayerUpdateView>) {
    let handled = routed(s, message, data, resources, nonce, timestamp);
    (SessionView { messaging: woken(handled.0.messaging), ..handled.0 }, handled.1)
}

/// Dispatches one message to the handler of its type and flushes the
/// transport. `player_data` is what storage handed over for
/// `storage_query(&message)`; the result is what storage is asked to write.
/// The nonce of a login is left to chance, and the time is the machine's.
pub fn handle_message(
    session: &mut PlayerSession,
    message: PiranhaMessage,
    player_data: Option<PlayerSaveData>,
    resources: &ResourceManager,
) -> (r: Option<PlayerUpdate>)
    requires
        old(session).wf(),
    ensures
        final(session).wf(),
        exists|nonce: Seq<u8>, timestamp: i64|
            nonce.len() == NONCE_LENGTH && (final(session)@, optional_update(r))
                == #[trigger] dispatched(
                old(session)@,
                message@,
                optional_record(player_data),
                resources@,
                nonce,
                timestamp,
            ),
{
    let ghost start = session@;
    let ghost sent = message@;
    let ghost data = optional_record(player_data);
    let ghost blank = Seq::new(NONCE_LENGTH as nat, |k: int| 0u8);
    let message_type: u16 = message.get_message_type();
    let mut update: Option<PlayerUpdate> = None;
    let ghost nonce = blank;
    let ghost timestamp = 0i64;
    if message_type == LOGIN_MESSAGE {
        handle_login_message(session, message, player_data);
        proof {
            let pair = choose|n: Seq<u8>, t: i64|
                n.len() == NONCE_LENGTH && session@ == #[trigger] login_handled(
                    start,
                    sent.payload,
                    data,
                    n,
                    t,
                );
            nonce = pair.0;
            timestamp = pair.1;
        }
    } else if message_type == KEEP_ALIVE_MESSAGE {
        handle_keep_alive_message(session, message);
    } else if message_type == CHANGE_AVATAR_NAME_MESSAGE {
        handle_change_avatar_name_message(session, message);
    } else if message_type == GO_HOME_MESSAGE {
        handle_go_home_message(session, message);
    } else if message_type == END_CLIENT_TURN_MESSAGE {
        update = handle_end_client_turn_message(session, message);
        proof {
            timestamp = choose|t: i64|
                (session@, optional_update(update)) == #[trigger] end_client_turn_message_handled(
                    start,
                    sent.payload,
                    t,
                );
        }
    } else if message_type == ATTACK_NPC_MESSAGE {
        handle_attack_npc_message(session, message, resources);
    } else if message_type == ASK_FOR_AVATAR_PROFILE_MESSAGE {
        handle_ask_for_avatar_profile_message(session, message, player_data);
    }
    assert((session@, optional_update(update)) == routed(
        start,
        sent,
        data,
        resources@,
        nonce,
        timestamp,
    ));
    session.messaging.on_wakeup();
    assert((session@, optional_update(update)) == dispatched(
        start,
        sent,
        data,
        resources@,
        nonce,
        timestamp,
    ));
    update
}


/// Replaying a turn gives the same checksum: two simulations that hold the
/// same values, moved on to the same sub-tick with the same commands in the
/// same order, end with equal checksums.
pub proof fn lemma_replay_gives_same_checksum(
    first: LogicGameMode,
    second: LogicGameMode,
    first_commands: Seq<LogicCommand>,
    second_commands: Seq<LogicCommand>,
    target: i32,
)
    requires
        first@ == second@,
        command_views(first_commands) == command_views(second_commands),
    ensures
        checksum(turn_advanced(first@, Some(command_views(first_commands)), target), false)
            == checksum(
            turn_advanced(second@, Some(command_views(second_commands)), target),
            false,
        ),
{
}

/// Only the commands scheduled for a sub-tick are due at it.
pub proof fn lemma_due_at_their_sub_tick(commands: Seq<CommandView>, sub_tick: i32)
    ensures
        forall|k: int|
            0 <= k < due(commands, sub_tick).len() ==> (#[trigger] due(
                commands,
                sub_tick,
            )[k]).execute_sub_tick == sub_tick,
    decreases commands.len(),
{
    if commands.len() > 0 {
        lemma_due_at_their_sub_tick(commands.drop_last(), sub_tick);
    }
}

/// Commands that are due at the same sub-tick keep the order in which they
/// were sent: what is due of two lists, one behind the other, is what is due
/// of the first followed by what is due of the second.
pub proof fn lemma_due_keeps_order(first: Seq<CommandView>, second: Seq<CommandView>, sub_tick: i32)
    ensures
        due(first + second, sub_tick) == due(first, sub_tick) + due(second, sub_tick),
    decreases second.len(),
{
    if second.len() == 0 {
        assert(first + second =~= first);
        assert(due(first, sub_tick) + due(second, sub_tick) =~= due(first, sub_tick));
    } else {
        assert((first + second).drop_last() =~= first + second.drop_last());
        assert((first + second).last() == second.last());
        lemma_due_keeps_order(first, second.drop_last(), sub_tick);
        assert(due(first, sub_tick) + due(second.drop_last(), sub_tick).push(second.last())
            =~= (due(first, sub_tick) + due(second.drop_last(), sub_tick)).push(second.last()));
    }
}

/// No command scheduled for another sub-tick is due.
pub proof fn lemma_none_due(commands: Seq<CommandView>, sub_tick: i32)
    requires
        forall|k: int| 0 <= k < commands.len() ==> (#[trigger] commands[k]).execute_sub_tick != sub_tick,
    ensures
        due(commands, sub_tick) == Seq::<CommandView>::empty(),
    decreases commands.len(),
{
    if commands.len() > 0 {
        assert forall|k: int| 0 <= k < commands.drop_last().len() implies (
        #[trigger] commands.drop_last()[k]).execute_sub_tick != sub_tick by {
            assert(commands.drop_last()[k] == commands[k]);
        }
        lemma_none_due(commands.drop_last(), sub_tick);
    }
}

/// Commands scheduled for sub-ticks that have passed are dropped: a turn
/// whose commands are all due before the present sub-tick moves the
/// simulation as a turn without commands does.
pub proof fn lemma_late_commands_dropped(mode: GameModeView, commands: Seq<CommandView>, target: i32)
    requires
        forall|k: int|
            0 <= k < commands.len() ==> (#[trigger] commands[k]).execute_sub_tick
                < mode.level.sub_tick,
    ensures
        turn_advanced(mode, Some(commands), target) == turn_advanced(mode, None, target),
    decreases target - mode.level.sub_tick,
{
    if mode.level.sub_tick < target {
        lemma_none_due(commands, mode.level.sub_tick);
        assert(mode.pending + Seq::<CommandView>::empty() =~= mode.pending);
        assert(injected(mode, Some(commands)) == mode);
        lemma_late_commands_dropped(ticked(mode), commands, target);
    }
}

/// A checksum that differs is reported once and ends nothing: the end of a
/// turn queues exactly one report, with the server's checksum, the client's
/// and the sub-tick, and leaves the rest of the transport as it was; equal
/// checksums queue nothing.
pub proof fn lemma_divergence_reported(s: SessionView, turn: EndClientTurnView, timestamp: i64)
    requires
        s.mode is Some,
    ensures
        ({
            let server_checksum = checksum(
                turn_advanced(s.mode.unwrap(), turn.commands, turn.sub_tick),
                false,
            );
            let after = end_client_turn_handled(s, turn, timestamp).0;
            &&& server_checksum != turn.checksum ==> after.messaging == queued(
                s.messaging,
                out_of_sync_reply(server_checksum, turn.checksum, turn.sub_tick),
            )
            &&& server_checksum == turn.checksum ==> after.messaging == s.messaging
        }),
{
    reveal(end_client_turn_handled);
}

/// A login with a wrong token gets no reply and ends the connection: where
/// the identifier is not zero and the token is not the stored one, the
/// dispatch leaves a transport that has ended, with nothing waiting and
/// nothing more for the socket than before.
pub proof fn lemma_wrong_token_refused(
    s: SessionView,
    message: MessageView,
    data: PlayerSaveDataView,
    resources: Seq<(Seq<char>, Seq<char>)>,
    nonce: Seq<u8>,
    timestamp: i64,
)
    requires
        message.message_type == LOGIN_MESSAGE,
        login_in(message.payload) is Some,
        !login_in(message.payload).unwrap().account_id.is_zero(),
        login_in(message.payload).unwrap().pass_token != Some(data.pass_token),
    ensures
        ({
            let after = dispatched(s, message, Some(data), resources, nonce, timestamp);
            &&& after.1 is None
            &&& after.0 == (SessionView {
                messaging: MessagingView {
                    connected: false,
                    outgoing: Seq::empty(),
                    ..s.messaging
                },
                ..s
            })
        }),
{
    reveal(login_handled);
}

/// A login that is not refused rotates the key on a frame boundary: the
/// message that starts the rotation is flushed under the cipher that the
/// session had, and both ciphers are then the session cipher from its start.
pub proof fn lemma_login_rotates_key(
    s: SessionView,
    payload: Seq<u8>,
    data: PlayerSaveDataView,
    nonce: Seq<u8>,
    timestamp: i64,
)
    requires
        s.messaging.connected,
        s.messaging.outgoing.len() == 0,
        !login_refused(login_in(payload), Some(data)),
        network::frameable(set_encryption_reply(nonce)),
    ensures
        ({
            let after = login_handled(s, payload, Some(data), nonce, timestamp);
            let seed = login_in(payload).unwrap().scrambler_seed;
            &&& after.messaging.outbound == s.messaging.outbound + network::transformed(
                s.messaging.encrypter,
                network::frame_bytes(set_encryption_reply(nonce)),
            )
            &&& after.messaging.encrypter == Some(session_cipher(seed, nonce))
            &&& after.messaging.decrypter == Some(session_cipher(seed, nonce))
            &&& after.messaging.connected
            &&& after.account_id == data.id
        }),
{
    reveal(login_handled);
    let first = set_encryption_reply(nonce);
    let waiting = queued(s.messaging, first).outgoing;
    assert(waiting =~= seq![first]);
    assert(waiting.drop_first() =~= Seq::<MessageView>::empty());
    let frame = network::frame_bytes(first);
    let rest = network::flushed(
        network::moved_on(s.messaging.encrypter, frame.len()),
        waiting.drop_first(),
    );
    assert(rest.0 =~= Seq::<u8>::empty());
    assert(network::transformed(s.messaging.encrypter, frame) + rest.0 =~= network::transformed(
        s.messaging.encrypter,
        frame,
    ));
}


/// A login that is refused ends the connection and changes nothing else.
pub proof fn lemma_refused_login_only_ends(
    s: SessionView,
    payload: Seq<u8>,
    data: Option<PlayerSaveDataView>,
    nonce: Seq<u8>,
    timestamp: i64,
)
    requires
        login_refused(login_in(payload), data),
    ensures
        login_handled(s, payload, data, nonce, timestamp) == dropped(s),
{
    reveal(login_handled);
}

/// A request for a name leaves the identifier of the session and the
/// decrypting cipher as they were.
pub proof fn lemma_change_avatar_name_keeps_key(s: SessionView, payload: Seq<u8>)
    ensures
        change_avatar_name_handled(s, payload).account_id == s.account_id,
        change_avatar_name_handled(s, payload).messaging.decrypter == s.messaging.decrypter,
{
    reveal(change_avatar_name_handled);
}

/// A request to go home leaves the identifier of the session and the
/// decrypting cipher as they were.
pub proof fn lemma_go_home_keeps_key(s: SessionView)
    ensures
        go_home_handled(s).account_id == s.account_id,
        go_home_handled(s).messaging.decrypter == s.messaging.decrypter,
{
    reveal(go_home_handled);
}

/// The end of a turn leaves the identifier of the session and the decrypting
/// cipher as they were.
pub proof fn lemma_end_client_turn_keeps_key(s: SessionView, turn: EndClientTurnView, timestamp: i64)
    ensures
        end_client_turn_handled(s, turn, timestamp).0.account_id == s.account_id,
        end_client_turn_handled(s, turn, timestamp).0.messaging.decrypter == s.messaging.decrypter,
{
    reveal(end_client_turn_handled);
}

/// A message that ends a turn leaves the identifier of the session and the
/// decrypting cipher as they were.
pub proof fn lemma_end_client_turn_message_keeps_key(s: SessionView, payload: Seq<u8>, timestamp: i64)
    ensures
        end_client_turn_message_handled(s, payload, timestamp).0.account_id == s.account_id,
        end_client_turn_message_handled(s, payload, timestamp).0.messaging.decrypter
            == s.messaging.decrypter,
{
    reveal(end_client_turn_message_handled);
    match end_client_turn_in(payload) {
        Some(turn) => {
            lemma_end_client_turn_keeps_key(s, turn, timestamp);
        },
        None => {},
    }
}

/// A request to attack leaves the identifier of the session and the
/// decrypting cipher as they were.
pub proof fn lemma_attack_npc_keeps_key(
    s: SessionView,
    payload: Seq<u8>,
    resources: Seq<(Seq<char>, Seq<char>)>,
)
    ensures
        attack_npc_handled(s, payload, resources).account_id == s.account_id,
        attack_npc_handled(s, payload, resources).messaging.decrypter == s.messaging.decrypter,
{
    reveal(attack_npc_handled);
}

/// A request for a profile leaves the identifier of the session and the
/// decrypting cipher as they were.
pub proof fn lemma_avatar_profile_keeps_key(
    s: SessionView,
    payload: Seq<u8>,
    data: Option<PlayerSaveDataView>,
)
    ensures
        avatar_profile_handled(s, payload, data).account_id == s.account_id,
        avatar_profile_handled(s, payload, data).messaging.decrypter == s.messaging.decrypter,
{
    reveal(avatar_profile_handled);
}

/// Only a login changes who is logged in and how the connection decrypts: a
/// message of any other type, and a login that is refused, leave the
/// identifier of the session and the decrypting cipher as they were.
pub proof fn lemma_only_login_rekeys(
    s: SessionView,
    message: MessageView,
    data: Option<PlayerSaveDataView>,
    resources: Seq<(Seq<char>, Seq<char>)>,
    nonce: Seq<u8>,
    timestamp: i64,
)
    requires
        message.message_type != LOGIN_MESSAGE || login_refused(login_in(message.payload), data),
    ensures
        dispatched(s, message, data, resources, nonce, timestamp).0.account_id == s.account_id,
        dispatched(s, message, data, resources, nonce, timestamp).0.messaging.decrypter
            == s.messaging.decrypter,
{
    if message.message_type == LOGIN_MESSAGE {
        lemma_refused_login_only_ends(s, message.payload, data, nonce, timestamp);
    } else if message.message_type == CHANGE_AVATAR_NAME_MESSAGE {
        lemma_change_avatar_name_keeps_key(s, message.payload);
    } else if message.message_type == GO_HOME_MESSAGE {
        lemma_go_home_keeps_key(s);
    } else if message.message_type == END_CLIENT_TURN_MESSAGE {
        lemma_end_client_turn_message_keeps_key(s, message.payload, timestamp);
    } else if message.message_type == ATTACK_NPC_MESSAGE {
        lemma_attack_npc_keeps_key(s, message.payload, resources);
    } else if message.message_type == ASK_FOR_AVATAR_PROFILE_MESSAGE {
        lemma_avatar_profile_keeps_key(s, message.payload, data);
    }
}

/// A record under another identifier is never served: a login under an
/// identifier that is not zero is refused where the record handed over does
/// not carry that identifier in both halves, and a request for a profile is
/// then left without an answer.
pub proof fn lemma_record_of_another_is_refused(
    s: SessionView,
    payload: Seq<u8>,
    data: PlayerSaveDataView,
    nonce: Seq<u8>,
    timestamp: i64,
)
    ensures
        login_in(payload) is Some && !login_in(payload).unwrap().account_id.is_zero() && data.id
            != login_in(payload).unwrap().account_id ==> login_handled(
            s,
            payload,
            Some(data),
            nonce,
            timestamp,
        ) == dropped(s),
        long_at(payload, 0) is Some && data.id != long_at(payload, 0).unwrap()
            ==> avatar_profile_handled(s, payload, Some(data)) == s,
        long_at(payload, 0) == Some(LogicLong { higher_int: 0, lower_int: 0 })
            ==> avatar_profile_handled(s, payload, Some(data)) == s,
{
    reveal(login_handled);
    reveal(avatar_profile_handled);
}

/// A new player is bootstrapped: a login under the identifier zero that is
/// answered with a record under an identifier that is not zero, from which the
/// default actor can be read, logs the session in under the identifier of the
/// record. Exactly two replies wait for the flush: the login success with the
/// identifier and the token of the record, and the base of the record with
/// the default actor under that identifier, which is also the owner of the
/// simulation.
pub proof fn lemma_new_player_bootstrapped(
    s: SessionView,
    payload: Seq<u8>,
    data: PlayerSaveDataView,
    nonce: Seq<u8>,
    timestamp: i64,
)
    requires
        login_in(payload) is Some,
        login_in(payload).unwrap().account_id.is_zero(),
        !data.id.is_zero(),
        stored_avatar(data.client_avatar_blob) == Some(default_client_avatar()),
    ensures
        ({
            let after = login_handled(s, payload, Some(data), nonce, timestamp);
            let actor = ClientAvatarView { id: data.id, ..default_client_avatar() };
            &&& after.account_id == data.id
            &&& !after.account_id.is_zero()
            &&& after.messaging.outgoing == seq![
                login_ok_reply(data),
                own_home_reply(
                    OwnHomeDataView {
                        seconds_since_last_save: seconds_since(data, timestamp),
                        current_timestamp: timestamp as i32,
                        home_json: data.home_json,
                        avatar: actor,
                    },
                ),
            ]
            &&& owning_player(after.mode) == Some(actor)
            &&& after.saved_home_json == Some(data.home_json)
        }),
{
    reveal(login_handled);
    let after = login_handled(s, payload, Some(data), nonce, timestamp);
    let actor = ClientAvatarView { id: data.id, ..default_client_avatar() };
    assert(after.messaging.outgoing =~= seq![
        login_ok_reply(data),
        own_home_reply(
            OwnHomeDataView {
                seconds_since_last_save: seconds_since(data, timestamp),
                current_timestamp: timestamp as i32,
                home_json: data.home_json,
                avatar: actor,
            },
        ),
    ]);
}

/// A login that is completed leaves a session whose identifier is not zero.
pub proof fn lemma_login_gives_an_identifier(
    s: SessionView,
    payload: Seq<u8>,
    data: PlayerSaveDataView,
    nonce: Seq<u8>,
    timestamp: i64,
)
    requires
        !login_refused(login_in(payload), Some(data)),
    ensures
        login_handled(s, payload, Some(data), nonce, timestamp).account_id == data.id,
        !data.id.is_zero(),
{
    reveal(login_handled);
}

} // verus!
