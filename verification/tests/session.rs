use libserver::array_list::LogicArrayList;
use libserver::byte_stream::ByteStream;
use libserver::database::{
    encode_avatar_blob, new_player_data, with_assigned_id, PlayerQuery, PlayerSaveData,
};
use libserver::logic::avatar::LogicClientAvatar;
use libserver::logic::command::{LogicCommand, CHANGE_AVATAR_NAME_COMMAND};
use libserver::logic::data::LogicNpcData;
use libserver::logic::home::LogicClientHome;
use libserver::logic::json::LogicJSONNode;
use libserver::logic::level::{mix, HomeOwner, LogicLevel};
use libserver::logic::mode::{LogicGameMode, HOME_STATE, NPC_ATTACK_STATE};
use libserver::math::LogicLong;
use libserver::mersenne::scramble;
use libserver::message::{
    AskForAvatarProfileMessage, AttackNpcMessage, ChangeAvatarNameMessage, EndClientTurnMessage,
    LoginMessage,
};
use libserver::network::{LogicMagicMessageFactory, Messaging, PiranhaMessage, RC4Encrypter};
use libserver::resources::ResourceManager;
use libserver::{
    advance_to_sub_tick, end_client_turn, handle_ask_for_avatar_profile_message,
    handle_attack_npc_message, handle_change_avatar_name_message, handle_end_client_turn_message,
    handle_go_home_message, handle_keep_alive_message, handle_login_message, handle_message,
    inject_due_commands, login, storage_query, PlayerSession, NONCE_LENGTH,
};

fn owner() -> LogicClientAvatar {
    let mut avatar = LogicClientAvatar::get_default_avatar();
    avatar.set_id(&LogicLong::new(0, 7));
    avatar
}

fn home_mode() -> LogicGameMode {
    let mut home = LogicClientHome::new();
    home.set_home_json("{\"home\":true}");
    let mut mode = LogicGameMode::new();
    mode.load_home_state(&home, &owner(), 0);
    mode
}

fn stored_player(id: i32, token: &str) -> PlayerSaveData {
    with_assigned_id(new_player_data(token.to_string(), "{\"home\":true}", 1000), id)
}

fn client_of(fd: i32) -> Messaging {
    let mut client = Messaging::new(fd);
    client.set_encrypters(
        RC4Encrypter::new(LogicMagicMessageFactory::rc4_key(), "nonce"),
        RC4Encrypter::new(LogicMagicMessageFactory::rc4_key(), "nonce"),
    );
    client
}

fn replies(client: &mut Messaging, session: &mut PlayerSession) -> Vec<PiranhaMessage> {
    let bytes = session.messaging.take_outbound();
    if !bytes.is_empty() {
        client.on_receive(&bytes);
    }
    let mut messages = Vec::new();
    while let Some(message) = client.next_message() {
        messages.push(message);
    }
    messages
}

#[test]
fn new_simulation_is_blank() {
    let mode = LogicGameMode::new();
    assert_eq!(mode.get_state(), 0);
    assert_eq!(mode.get_level().get_time().sub_tick, 0);
    assert!(mode.get_level().get_home_owner_avatar().is_none());
    assert!(mode.get_level().get_visitor_avatar().is_none());
    assert!(mode.get_cloned_home_owner().is_none());
    assert!(mode.get_cloned_visitor().is_none());
    assert!(mode.get_cloned_npc_home_owner().is_none());
    let level = LogicLevel::new();
    assert_eq!(level.command_digest, 0);
}

#[test]
fn home_state_belongs_to_the_player() {
    let mut mode = home_mode();
    mode.set_current_timestamp(55);
    assert_eq!(mode.get_state(), HOME_STATE);
    assert_eq!(mode.current_timestamp, 55);
    assert_eq!(mode.get_cloned_home_owner().unwrap().id, LogicLong::new(0, 7));
    assert!(mode.get_cloned_visitor().is_none());
    assert!(mode.get_level().get_home_owner_npc_avatar().is_none());
    let mut json = LogicJSONNode::new_json_object();
    mode.save_to_json(&mut json);
    assert_eq!(json.text, "{\"home\":true}");
}

#[test]
fn attack_state_belongs_to_the_opponent() {
    let mut home = LogicClientHome::new();
    home.set_home_json("{\"npc\":1}");
    let mut npc = libserver::logic::avatar::LogicNpcAvatar::new();
    npc.set_npc_data(&LogicNpcData::new(3, "level/npc3.json"));
    let mut mode = home_mode();
    mode.get_command_manager().add_command(&LogicCommand::new(1, 1));
    mode.load_npc_attack_state(&home, &npc, &owner(), 0);
    assert_eq!(mode.get_state(), NPC_ATTACK_STATE);
    assert!(mode.command_manager.commands.is_empty());
    assert!(mode.get_cloned_home_owner().is_none());
    assert_eq!(mode.get_cloned_npc_home_owner().unwrap().npc_data.global_id, 3);
    assert_eq!(mode.get_cloned_visitor().unwrap().id, LogicLong::new(0, 7));
    assert_eq!(mode.get_level().home_json, "{\"npc\":1}");
    assert!(matches!(mode.get_level().home_owner_avatar, Some(HomeOwner::Npc(_))));
}

#[test]
fn checksum_known_values() {
    let mode = home_mode();
    assert_eq!(mode.calculate_checksum(None, false), 1581595560);
    let mut sink = LogicJSONNode::new_json_object();
    assert_eq!(mode.calculate_checksum(Some(&mut sink), false), 1581595560);
    assert_eq!(sink.text, "{}");
    assert_ne!(mode.calculate_checksum(None, true), 1581595560);
    assert_eq!(mix(0, 2), 2);
    assert_eq!(mix(2, 3), 65);
    assert_eq!(mix(i32::MAX, 0), i32::MAX.wrapping_mul(31));
}

#[test]
fn one_sub_tick_moves_the_clock_by_one() {
    let mut mode = home_mode();
    mode.update_one_sub_tick();
    assert_eq!(mode.get_level().get_time().sub_tick, 1);
    assert_eq!(mode.get_level().command_digest, 0);
}

#[test]
fn due_commands_are_carried_out_and_others_wait_or_are_dropped() {
    let mut mode = home_mode();
    mode.update_one_sub_tick();
    mode.update_one_sub_tick();
    mode.get_command_manager().add_command(&LogicCommand::new(9, 1));
    mode.get_command_manager().add_command(&LogicCommand::new(8, 2));
    mode.get_command_manager().add_command(&LogicCommand::new(7, 3));
    mode.update_one_sub_tick();
    assert_eq!(mode.get_level().command_digest, mix(mix(0, 8), 2));
    let waiting: Vec<i32> = mode.command_manager.commands.iter().map(|c| c.command_type).collect();
    assert_eq!(waiting, vec![7]);
    mode.update_one_sub_tick();
    assert_eq!(mode.get_level().command_digest, mix(mix(mix(mix(0, 8), 2), 7), 3));
    assert!(mode.command_manager.commands.is_empty());
}

#[test]
fn name_change_names_the_owner() {
    let mut mode = home_mode();
    let mut command = LogicCommand::new(CHANGE_AVATAR_NAME_COMMAND, 0);
    command.avatar_name = Some("Ann".to_string());
    mode.get_command_manager().add_command(&command);
    mode.update_one_sub_tick();
    assert_eq!(mode.get_cloned_home_owner().unwrap().name, "Ann");
    let mut nameless = LogicCommand::new(CHANGE_AVATAR_NAME_COMMAND, 1);
    nameless.avatar_name = None;
    mode.get_command_manager().add_command(&nameless);
    mode.update_one_sub_tick();
    assert_eq!(mode.get_cloned_home_owner().unwrap().name, "Ann");
}

fn out_of_order() -> Vec<LogicCommand> {
    vec![LogicCommand::new(1, 5), LogicCommand::new(2, 3)]
}

#[test]
fn out_of_order_commands_run_at_their_sub_ticks() {
    let commands = out_of_order();
    let mut mode = home_mode();
    let mut injected_at: Vec<(i32, i32)> = Vec::new();
    for sub_tick in 0..6 {
        assert_eq!(mode.get_level().get_time().sub_tick, sub_tick);
        inject_due_commands(&mut mode, &commands);
        for command in mode.command_manager.commands.iter() {
            injected_at.push((sub_tick, command.command_type));
        }
        mode.update_one_sub_tick();
        assert!(mode.command_manager.commands.is_empty());
    }
    assert_eq!(injected_at, vec![(3, 2), (5, 1)]);
    assert_eq!(mode.get_level().command_digest, 62501);
    assert_ne!(mode.get_level().command_digest, 34661);
}

#[test]
fn advancing_a_turn_is_stepping_sub_tick_by_sub_tick() {
    let commands = out_of_order();
    let mut mode = home_mode();
    advance_to_sub_tick(&mut mode, Some(&commands), 6);
    assert_eq!(mode.get_level().get_time().sub_tick, 6);
    assert_eq!(mode.get_level().command_digest, 62501);
    assert_eq!(mode.calculate_checksum(None, false), -622984867);
}

#[test]
fn commands_of_one_sub_tick_run_in_the_order_received() {
    let mut first = home_mode();
    advance_to_sub_tick(&mut first, Some(&[LogicCommand::new(1, 2), LogicCommand::new(2, 2)]), 3);
    assert_eq!(first.get_level().command_digest, mix(mix(mix(mix(0, 1), 2), 2), 2));
    let mut second = home_mode();
    advance_to_sub_tick(&mut second, Some(&[LogicCommand::new(2, 2), LogicCommand::new(1, 2)]), 3);
    assert_eq!(second.get_level().command_digest, mix(mix(mix(mix(0, 2), 2), 1), 2));
}

#[test]
fn replaying_a_turn_gives_the_same_checksum() {
    let commands = vec![
        LogicCommand::new(4, 0),
        LogicCommand::new(1, 5),
        LogicCommand::new(2, 3),
        LogicCommand::new(3, 3),
        LogicCommand::new(6, 40),
    ];
    let mut first = home_mode();
    let mut second = home_mode();
    advance_to_sub_tick(&mut first, Some(&commands), 50);
    advance_to_sub_tick(&mut second, Some(&commands), 50);
    assert_eq!(first.calculate_checksum(None, false), second.calculate_checksum(None, false));
    assert_eq!(first.calculate_checksum(None, true), second.calculate_checksum(None, true));
    let mut third = home_mode();
    advance_to_sub_tick(&mut third, Some(&commands[..4]), 50);
    assert_ne!(first.calculate_checksum(None, false), third.calculate_checksum(None, false));
}

#[test]
fn late_commands_are_dropped() {
    let mut mode = home_mode();
    advance_to_sub_tick(&mut mode, None, 10);
    let mut other = home_mode();
    advance_to_sub_tick(&mut other, None, 10);
    advance_to_sub_tick(&mut mode, Some(&[LogicCommand::new(1, 9), LogicCommand::new(2, 0)]), 20);
    advance_to_sub_tick(&mut other, None, 20);
    assert_eq!(mode.get_level().command_digest, 0);
    assert_eq!(mode.calculate_checksum(None, false), other.calculate_checksum(None, false));
    assert!(mode.command_manager.commands.is_empty());
}

#[test]
fn target_that_has_passed_changes_nothing() {
    let mut mode = home_mode();
    advance_to_sub_tick(&mut mode, None, 5);
    advance_to_sub_tick(&mut mode, Some(&[LogicCommand::new(1, 5)]), 5);
    assert_eq!(mode.get_level().get_time().sub_tick, 5);
    assert!(mode.command_manager.commands.is_empty());
    advance_to_sub_tick(&mut mode, None, -3);
    assert_eq!(mode.get_level().get_time().sub_tick, 5);
}

#[test]
fn new_session_is_unauthenticated_under_the_fixed_key() {
    let mut session = PlayerSession::new(3);
    assert_eq!(session.messaging.connection.fd, 3);
    assert!(session.messaging.is_connected());
    assert!(session.account_id.is_zero());
    assert!(session.logic_game_mode.is_none());
    assert!(session.saved_home_json.is_none());
    let mut client = client_of(4);
    client.send(PiranhaMessage::new(10108, 0, vec![]));
    client.on_wakeup();
    session.messaging.on_receive(&client.take_outbound());
    assert_eq!(session.messaging.next_message().unwrap().message_type, 10108);
}

#[test]
fn keep_alive_is_answered() {
    let mut session = PlayerSession::new(3);
    handle_keep_alive_message(&mut session, PiranhaMessage::new(10108, 0, vec![]));
    assert_eq!(session.messaging.outgoing.len(), 1);
    assert_eq!(session.messaging.outgoing[0].message_type, 20108);
    assert!(session.messaging.outgoing[0].payload.is_empty());
}

#[test]
fn name_request_hands_out_a_command() {
    let mut session = PlayerSession::new(3);
    handle_change_avatar_name_message(&mut session, ChangeAvatarNameMessage::new("Ann").encode());
    assert_eq!(session.messaging.outgoing.len(), 1);
    let reply = &session.messaging.outgoing[0];
    assert_eq!(reply.message_type, 24111);
    let mut stream = ByteStream::from(&reply.payload);
    let command = LogicCommand::decode(&mut stream).unwrap();
    assert_eq!(command.command_type, CHANGE_AVATAR_NAME_COMMAND);
    assert_eq!(command.avatar_name, Some("Ann".to_string()));
    assert_eq!(command.name_change_state, 1);
}

#[test]
fn malformed_name_request_is_ignored() {
    let mut session = PlayerSession::new(3);
    handle_change_avatar_name_message(&mut session, PiranhaMessage::new(10212, 0, vec![0, 0]));
    assert!(session.messaging.outgoing.is_empty());
    assert!(session.messaging.is_connected());
}

#[test]
fn go_home_without_simulation_or_at_home_is_ignored() {
    let mut session = PlayerSession::new(3);
    handle_go_home_message(&mut session, PiranhaMessage::new(14101, 0, vec![]));
    assert!(session.messaging.outgoing.is_empty());
    session.logic_game_mode = Some(home_mode());
    session.saved_home_json = Some("{}".to_string());
    handle_go_home_message(&mut session, PiranhaMessage::new(14101, 0, vec![]));
    assert!(session.messaging.outgoing.is_empty());
    assert!(session.messaging.is_connected());
}

fn resources() -> ResourceManager {
    let mut manager = ResourceManager::new();
    manager.add("level/npc1.json", "{\"npc\":1}");
    manager
}

#[test]
fn attack_and_return_replace_the_simulation() {
    let mut session = PlayerSession::new(3);
    session.logic_game_mode = Some(home_mode());
    session.saved_home_json = Some("{\"home\":true}".to_string());
    advance_to_sub_tick(session.logic_game_mode.as_mut().unwrap(), None, 4);

    let attack = AttackNpcMessage::new(LogicNpcData::new(1, "level/npc1.json")).encode();
    handle_attack_npc_message(&mut session, attack, &resources());
    let mode = session.logic_game_mode.as_ref().unwrap();
    assert_eq!(mode.get_state(), NPC_ATTACK_STATE);
    assert_eq!(mode.get_level().get_time().sub_tick, 0);
    assert_eq!(mode.get_level().home_json, "{\"npc\":1}");
    assert_eq!(session.messaging.outgoing.len(), 1);
    assert_eq!(session.messaging.outgoing[0].message_type, 24133);
    let mut stream = ByteStream::from(&session.messaging.outgoing[0].payload);
    assert_eq!(stream.read_text(), Some("{\"npc\":1}".to_string()));
    assert_eq!(LogicNpcData::decode(&mut stream).unwrap().global_id, 1);
    let mut shown = LogicClientAvatar::new();
    assert!(shown.decode(&mut stream));
    assert_eq!(shown.id, LogicLong::new(0, 7));

    handle_go_home_message(&mut session, PiranhaMessage::new(14101, 0, vec![]));
    let mode = session.logic_game_mode.as_ref().unwrap();
    assert_eq!(mode.get_state(), HOME_STATE);
    assert_eq!(mode.get_level().home_json, "{\"home\":true}");
    assert_eq!(mode.get_cloned_home_owner().unwrap().id, LogicLong::new(0, 7));
    assert_eq!(session.messaging.outgoing.len(), 2);
    let reply = &session.messaging.outgoing[1];
    assert_eq!(reply.message_type, 24101);
    let mut stream = ByteStream::from(&reply.payload);
    assert_eq!(stream.read_int(), Some(0));
    assert_eq!(stream.read_int(), Some(0));
    assert_eq!(stream.read_text(), Some("{\"home\":true}".to_string()));
}

#[test]
fn attack_that_cannot_start_is_ignored() {
    let attack = || AttackNpcMessage::new(LogicNpcData::new(1, "level/npc1.json")).encode();
    let mut session = PlayerSession::new(3);
    handle_attack_npc_message(&mut session, attack(), &resources());
    assert!(session.logic_game_mode.is_none());
    session.logic_game_mode = Some(home_mode());
    handle_attack_npc_message(&mut session, attack(), &ResourceManager::new());
    assert_eq!(session.logic_game_mode.as_ref().unwrap().get_state(), HOME_STATE);
    handle_attack_npc_message(&mut session, PiranhaMessage::new(14134, 0, vec![1]), &resources());
    assert_eq!(session.logic_game_mode.as_ref().unwrap().get_state(), HOME_STATE);
    handle_attack_npc_message(&mut session, attack(), &resources());
    handle_attack_npc_message(&mut session, attack(), &resources());
    assert_eq!(session.messaging.outgoing.len(), 1);
    assert!(session.messaging.is_connected());
}

#[test]
fn profile_is_sent_for_a_stored_player() {
    let mut session = PlayerSession::new(3);
    let request = || AskForAvatarProfileMessage::new(LogicLong::new(0, 9)).encode();
    handle_ask_for_avatar_profile_message(&mut session, request(), Some(stored_player(9, "t")));
    assert_eq!(session.messaging.outgoing.len(), 1);
    assert_eq!(session.messaging.outgoing[0].message_type, 24334);
    handle_ask_for_avatar_profile_message(&mut session, request(), None);
    let mut broken = stored_player(9, "t");
    broken.client_avatar_blob = "^".to_string();
    handle_ask_for_avatar_profile_message(&mut session, request(), Some(broken));
    let short = PiranhaMessage::new(14325, 0, vec![0]);
    handle_ask_for_avatar_profile_message(&mut session, short, Some(stored_player(9, "t")));
    assert_eq!(session.messaging.outgoing.len(), 1);
    assert!(session.messaging.is_connected());
}

fn turn(sub_tick: i32, checksum: i32, commands: Vec<LogicCommand>) -> EndClientTurnMessage {
    let mut list = LogicArrayList::new();
    for command in commands {
        list.add(command);
    }
    EndClientTurnMessage::new(sub_tick, checksum, Some(list))
}

#[test]
fn divergence_is_reported_once_and_the_session_goes_on() {
    let mut session = PlayerSession::new(3);
    session.account_id = LogicLong::new(0, 7);
    session.logic_game_mode = Some(home_mode());
    let update = end_client_turn(&mut session, &turn(6, 12345, out_of_order()), 50);
    assert!(session.messaging.is_connected());
    assert_eq!(session.messaging.outgoing.len(), 1);
    let report = &session.messaging.outgoing[0];
    assert_eq!(report.message_type, 24104);
    let mut stream = ByteStream::from(&report.payload);
    assert_eq!(stream.read_int(), Some(-622984867));
    assert_eq!(stream.read_int(), Some(12345));
    assert_eq!(stream.read_int(), Some(6));
    assert!(stream.is_at_end());
    assert!(update.is_some());
    assert_eq!(session.logic_game_mode.as_ref().unwrap().get_level().get_time().sub_tick, 6);
}

#[test]
fn equal_checksums_are_not_reported() {
    let mut session = PlayerSession::new(3);
    session.account_id = LogicLong::new(0, 7);
    session.logic_game_mode = Some(home_mode());
    let update = end_client_turn(&mut session, &turn(6, -622984867, out_of_order()), 50).unwrap();
    assert!(session.messaging.outgoing.is_empty());
    assert_eq!(update.id, 7);
    assert_eq!(update.home_json, "{\"home\":true}");
    assert_eq!(update.client_avatar_blob, encode_avatar_blob(&owner()));
    assert_eq!(update.last_save_timestamp, 50);
    assert_eq!(session.saved_home_json, Some("{\"home\":true}".to_string()));
}

#[test]
fn turn_without_simulation_does_nothing() {
    let mut session = PlayerSession::new(3);
    assert!(end_client_turn(&mut session, &turn(6, 1, vec![]), 50).is_none());
    assert!(session.messaging.outgoing.is_empty());
    assert!(session.logic_game_mode.is_none());
}

#[test]
fn turn_during_an_attack_is_not_saved() {
    let mut session = PlayerSession::new(3);
    session.logic_game_mode = Some(home_mode());
    session.saved_home_json = Some("{\"home\":true}".to_string());
    let attack = AttackNpcMessage::new(LogicNpcData::new(1, "level/npc1.json")).encode();
    handle_attack_npc_message(&mut session, attack, &resources());
    let update = end_client_turn(&mut session, &turn(3, 0, vec![]), 50);
    assert!(update.is_none());
    assert_eq!(session.saved_home_json, Some("{\"home\":true}".to_string()));
    assert_eq!(session.logic_game_mode.as_ref().unwrap().get_level().get_time().sub_tick, 3);
}

#[test]
fn turn_message_is_handled_at_the_time_of_the_machine() {
    let mut session = PlayerSession::new(3);
    session.account_id = LogicLong::new(0, 7);
    session.logic_game_mode = Some(home_mode());
    let message = turn(6, -622984867, out_of_order()).encode();
    let update = handle_end_client_turn_message(&mut session, message).unwrap();
    assert!(update.last_save_timestamp > 1_600_000_000);
    assert!(session.messaging.outgoing.is_empty());
    let broken = PiranhaMessage::new(14102, 0, vec![0, 0, 0]);
    assert!(handle_end_client_turn_message(&mut session, broken).is_none());
    assert_eq!(session.logic_game_mode.as_ref().unwrap().get_level().get_time().sub_tick, 6);
}

#[test]
fn storage_is_asked_by_the_type_of_the_message() {
    let login = LoginMessage::new(LogicLong::new(0, 0), None, 1).encode();
    assert_eq!(storage_query(&login), PlayerQuery::Create);
    let login = LoginMessage::new(LogicLong::new(0, 42), Some("t".to_string()), 1).encode();
    assert_eq!(storage_query(&login), PlayerQuery::Load(42));
    assert_eq!(storage_query(&PiranhaMessage::new(10101, 0, vec![1])), PlayerQuery::Nothing);
    let ask = AskForAvatarProfileMessage::new(LogicLong::new(0, 9)).encode();
    assert_eq!(storage_query(&ask), PlayerQuery::Load(9));
    let ask = AskForAvatarProfileMessage::new(LogicLong::new(0, 0)).encode();
    assert_eq!(storage_query(&ask), PlayerQuery::Nothing);
    assert_eq!(storage_query(&PiranhaMessage::new(10108, 0, vec![])), PlayerQuery::Nothing);
    let other = PiranhaMessage::new(14102, 0, LoginMessage::new(LogicLong::new(0, 0), None, 1).encode().payload);
    assert_eq!(storage_query(&other), PlayerQuery::Nothing);
}

#[test]
fn wrong_token_gets_no_reply_and_ends_the_connection() {
    let mut session = PlayerSession::new(3);
    let message = LoginMessage::new(LogicLong::new(0, 42), Some("wrong".to_string()), 1).encode();
    let update = handle_message(
        &mut session,
        message,
        Some(stored_player(42, "right")),
        &ResourceManager::new(),
    );
    assert!(update.is_none());
    assert!(!session.messaging.is_connected());
    assert!(session.messaging.take_outbound().is_empty());
    assert!(session.messaging.outgoing.is_empty());
    assert!(session.account_id.is_zero());
    assert!(session.logic_game_mode.is_none());
    session.messaging.on_receive(&[1, 2, 3]);
    assert!(session.messaging.next_message().is_none());
}

#[test]
fn login_under_another_identifier_is_refused() {
    let refused = |id: LogicLong, token: Option<&str>, data: PlayerSaveData| {
        let mut session = PlayerSession::new(3);
        let message = LoginMessage::new(id, token.map(|t| t.to_string()), 1).encode();
        let update = handle_message(&mut session, message, Some(data), &ResourceManager::new());
        assert!(update.is_none());
        assert!(!session.messaging.is_connected());
        assert!(session.messaging.take_outbound().is_empty());
        assert!(session.account_id.is_zero());
        assert!(session.logic_game_mode.is_none());
    };
    refused(LogicLong::new(5, 42), Some("right"), stored_player(42, "right"));
    refused(LogicLong::new(0, 43), Some("right"), stored_player(42, "right"));
    refused(LogicLong::new(0, 0), None, stored_player(0, "right"));
    let login = LoginMessage::new(LogicLong::new(5, 42), Some("right".to_string()), 1).encode();
    assert_eq!(storage_query(&login), PlayerQuery::Nothing);
}

#[test]
fn profile_of_another_identifier_is_not_sent() {
    let mut session = PlayerSession::new(3);
    let ask = |higher: i32, lower: i32| AskForAvatarProfileMessage::new(LogicLong::new(higher, lower)).encode();
    handle_ask_for_avatar_profile_message(&mut session, ask(0, 0), Some(stored_player(9, "t")));
    handle_ask_for_avatar_profile_message(&mut session, ask(0, 0), Some(stored_player(0, "t")));
    handle_ask_for_avatar_profile_message(&mut session, ask(5, 9), Some(stored_player(9, "t")));
    handle_ask_for_avatar_profile_message(&mut session, ask(0, 8), Some(stored_player(9, "t")));
    assert!(session.messaging.outgoing.is_empty());
    assert_eq!(storage_query(&ask(5, 9)), PlayerQuery::Nothing);
    handle_ask_for_avatar_profile_message(&mut session, ask(0, 9), Some(stored_player(9, "t")));
    assert_eq!(session.messaging.outgoing.len(), 1);
}

#[test]
fn every_refused_login_is_silent() {
    let refused = |message: PiranhaMessage, data: Option<PlayerSaveData>| {
        let mut session = PlayerSession::new(3);
        handle_login_message(&mut session, message, data);
        session.messaging.on_wakeup();
        assert!(!session.messaging.is_connected());
        assert!(session.messaging.take_outbound().is_empty());
        assert!(session.logic_game_mode.is_none());
    };
    let login = |id: i32, token: Option<&str>| {
        LoginMessage::new(LogicLong::new(0, id), token.map(|t| t.to_string()), 1).encode()
    };
    refused(login(42, Some("right")), None);
    refused(login(42, None), Some(stored_player(42, "right")));
    refused(login(42, Some("")), Some(stored_player(42, "right")));
    refused(PiranhaMessage::new(10101, 0, vec![0; 5]), Some(stored_player(42, "right")));
    let mut broken = stored_player(42, "right");
    broken.client_avatar_blob = "AAAA".to_string();
    refused(login(42, Some("right")), Some(broken));
}

#[test]
fn login_with_the_right_token_rotates_the_key() {
    let mut session = PlayerSession::new(3);
    let mut client = client_of(4);
    let seed = 777;
    let message = LoginMessage::new(LogicLong::new(0, 42), Some("right".to_string()), seed).encode();
    let nonce: Vec<u8> = (0..64u8).collect();
    login(&mut session, &message, Some(stored_player(42, "right")), nonce.clone(), 1600);
    session.messaging.on_wakeup();
    assert!(session.messaging.is_connected());
    assert_eq!(session.account_id, LogicLong::new(0, 42));

    client.on_receive(&session.messaging.take_outbound());
    let first = client.next_message().unwrap();
    assert_eq!(first.message_type, 20000);
    let mut stream = ByteStream::from(&first.payload);
    assert_eq!(stream.read_bytes(), Some(Some(nonce.clone())));
    assert_eq!(stream.read_int(), Some(1));
    let stale = client.next_message();
    assert!(stale.map(|m| m.message_type != 20104).unwrap_or(true));

    let mut fresh = client_of(5);
    let mut again = PlayerSession::new(6);
    login(&mut again, &message, Some(stored_player(42, "right")), nonce.clone(), 1600);
    again.messaging.on_wakeup();
    fresh.on_receive(&again.messaging.take_outbound());
    assert_eq!(fresh.next_message().unwrap().message_type, 20000);
    let mut key = nonce.clone();
    scramble(seed, &mut key);
    fresh.set_encrypters(
        RC4Encrypter::new_with_nonce_bytes(LogicMagicMessageFactory::rc4_key(), &key),
        RC4Encrypter::new_with_nonce_bytes(LogicMagicMessageFactory::rc4_key(), &key),
    );
    let ok = fresh.next_message().unwrap();
    assert_eq!(ok.message_type, 20104);
    let mut stream = ByteStream::from(&ok.payload);
    assert_eq!(stream.read_long(), Some(LogicLong::new(0, 42)));
    assert_eq!(stream.read_long(), Some(LogicLong::new(0, 42)));
    assert_eq!(stream.read_text(), Some("right".to_string()));
    assert_eq!(stream.read_int(), Some(8));
    assert_eq!(stream.read_int(), Some(67));
    assert_eq!(stream.read_int(), Some(0));
    assert_eq!(stream.read_text(), Some("dev".to_string()));
    let home = fresh.next_message().unwrap();
    assert_eq!(home.message_type, 24101);
    let mut stream = ByteStream::from(&home.payload);
    assert_eq!(stream.read_int(), Some(600));
    assert_eq!(stream.read_int(), Some(1600));
    assert_eq!(stream.read_text(), Some("{\"home\":true}".to_string()));
    let mut shown = LogicClientAvatar::new();
    assert!(shown.decode(&mut stream));
    assert_eq!(shown.id, LogicLong::new(0, 42));
    assert!(fresh.next_message().is_none());

    fresh.send(PiranhaMessage::new(10108, 0, vec![]));
    fresh.on_wakeup();
    again.messaging.on_receive(&fresh.take_outbound());
    assert_eq!(again.messaging.next_message().unwrap().message_type, 10108);

    let mode = again.logic_game_mode.as_ref().unwrap();
    assert_eq!(mode.get_state(), HOME_STATE);
    assert_eq!(mode.current_timestamp, 1600);
    assert_eq!(mode.get_level().seconds_since_last_save, 600);
    assert_eq!(again.saved_home_json, Some("{\"home\":true}".to_string()));
}

#[test]
fn new_player_is_bootstrapped() {
    let mut session = PlayerSession::new(3);
    let mut client = client_of(4);
    let seed = -5;
    let message = LoginMessage::new(LogicLong::new(0, 0), None, seed).encode();
    assert_eq!(storage_query(&message), PlayerQuery::Create);
    let created = libserver::database::create_new_player_data("{\"start\":1}");
    let token = created.pass_token.clone();
    let stored = with_assigned_id(created, 1);
    let update = handle_message(&mut session, message, Some(stored), &ResourceManager::new());
    assert!(update.is_none());
    assert!(session.messaging.is_connected());
    assert_eq!(session.account_id, LogicLong::new(0, 1));

    client.on_receive(&session.messaging.take_outbound());
    let first = client.next_message().unwrap();
    assert_eq!(first.message_type, 20000);
    let mut stream = ByteStream::from(&first.payload);
    let mut nonce = stream.read_bytes().unwrap().unwrap();
    assert_eq!(nonce.len(), NONCE_LENGTH);
    assert_ne!(nonce, vec![0u8; 64]);
    scramble(seed, &mut nonce);
    client.set_encrypters(
        RC4Encrypter::new_with_nonce_bytes(LogicMagicMessageFactory::rc4_key(), &nonce),
        RC4Encrypter::new_with_nonce_bytes(LogicMagicMessageFactory::rc4_key(), &nonce),
    );
    let ok = client.next_message().unwrap();
    assert_eq!(ok.message_type, 20104);
    let mut stream = ByteStream::from(&ok.payload);
    assert_eq!(stream.read_long(), Some(LogicLong::new(0, 1)));
    assert_eq!(stream.read_long(), Some(LogicLong::new(0, 1)));
    assert_eq!(stream.read_text(), Some(token));
    let home = client.next_message().unwrap();
    assert_eq!(home.message_type, 24101);
    let owner = session.logic_game_mode.as_ref().unwrap().get_cloned_home_owner().unwrap();
    assert_eq!(owner.id, LogicLong::new(0, 1));
    assert_eq!((owner.level, owner.diamonds, owner.gold, owner.elixir), (1, 100_000_000, 750, 750));
    assert_eq!(session.saved_home_json, Some("{\"start\":1}".to_string()));
}

#[test]
fn login_without_token_is_accepted_for_the_identifier_zero_only() {
    let mut session = PlayerSession::new(3);
    let message = LoginMessage::new(LogicLong::new(0, 0), None, 1).encode();
    login(&mut session, &message, Some(stored_player(5, "t")), vec![1; 64], 2000);
    assert!(session.messaging.is_connected());
    assert_eq!(session.account_id, LogicLong::new(0, 5));
}

#[test]
fn replies_are_flushed_after_each_message() {
    let mut session = PlayerSession::new(3);
    let mut client = client_of(4);
    let update = handle_message(
        &mut session,
        PiranhaMessage::new(10108, 0, vec![]),
        None,
        &ResourceManager::new(),
    );
    assert!(update.is_none());
    assert!(session.messaging.outgoing.is_empty());
    let seen = replies(&mut client, &mut session);
    assert_eq!(seen.len(), 1);
    assert_eq!(seen[0].message_type, 20108);
}

#[test]
fn unknown_message_is_ignored() {
    let mut session = PlayerSession::new(3);
    let mut client = client_of(4);
    let update = handle_message(
        &mut session,
        PiranhaMessage::new(12345, 0, vec![1, 2, 3]),
        None,
        &ResourceManager::new(),
    );
    assert!(update.is_none());
    assert!(session.messaging.is_connected());
    assert!(replies(&mut client, &mut session).is_empty());
}

#[test]
fn a_whole_session_over_the_wire() {
    let mut session = PlayerSession::new(3);
    let mut client = client_of(4);
    let manager = resources();
    let seed = 31337;

    client.send(LoginMessage::new(LogicLong::new(0, 42), Some("right".to_string()), seed).encode());
    client.on_wakeup();
    let bytes = client.take_outbound();
    session.messaging.on_receive(&bytes[..5]);
    assert!(session.messaging.next_message().is_none());
    session.messaging.on_receive(&bytes[5..]);
    let message = session.messaging.next_message().unwrap();
    assert_eq!(storage_query(&message), PlayerQuery::Load(42));
    handle_message(&mut session, message, Some(stored_player(42, "right")), &manager);

    client.on_receive(&session.messaging.take_outbound());
    let first = client.next_message().unwrap();
    let mut stream = ByteStream::from(&first.payload);
    let mut nonce = stream.read_bytes().unwrap().unwrap();
    scramble(seed, &mut nonce);
    client.set_encrypters(
        RC4Encrypter::new_with_nonce_bytes(LogicMagicMessageFactory::rc4_key(), &nonce),
        RC4Encrypter::new_with_nonce_bytes(LogicMagicMessageFactory::rc4_key(), &nonce),
    );
    assert_eq!(client.next_message().unwrap().message_type, 20104);
    assert_eq!(client.next_message().unwrap().message_type, 24101);

    let expected = {
        let mut mirror = LogicGameMode::new();
        let mut home = LogicClientHome::new();
        home.set_home_json("{\"home\":true}");
        let mut avatar = LogicClientAvatar::get_default_avatar();
        avatar.set_id(&LogicLong::new(0, 42));
        let seconds = session.logic_game_mode.as_ref().unwrap().get_level().seconds_since_last_save;
        mirror.load_home_state(&home, &avatar, seconds);
        mirror.set_current_timestamp(session.logic_game_mode.as_ref().unwrap().current_timestamp);
        advance_to_sub_tick(&mut mirror, Some(&out_of_order()), 6);
        mirror.calculate_checksum(None, false)
    };
    client.send(turn(6, expected, out_of_order()).encode());
    client.send(turn(8, expected, vec![]).encode());
    client.on_wakeup();
    session.messaging.on_receive(&client.take_outbound());
    let mut updates = 0;
    while let Some(message) = session.messaging.next_message() {
        if handle_message(&mut session, message, None, &manager).is_some() {
            updates += 1;
        }
    }
    assert_eq!(updates, 2);
    let seen = replies(&mut client, &mut session);
    assert_eq!(seen.len(), 1);
    assert_eq!(seen[0].message_type, 24104);
    let mut stream = ByteStream::from(&seen[0].payload);
    assert_ne!(stream.read_int(), Some(expected));
    assert_eq!(stream.read_int(), Some(expected));
    assert_eq!(stream.read_int(), Some(8));
    assert!(session.messaging.is_connected());
}
