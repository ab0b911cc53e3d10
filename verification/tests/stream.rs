use libserver::array_list::LogicArrayList;
use libserver::byte_stream::ByteStream;
use libserver::logic::avatar::{clone_via_round_trip, LogicAvatar, LogicClientAvatar, LogicNpcAvatar};
use libserver::logic::command::{
    LogicChangeAvatarNameCommand, LogicCommand, LogicCommandManager, CHANGE_AVATAR_NAME_COMMAND,
};
use libserver::logic::data::LogicNpcData;
use libserver::logic::home::LogicClientHome;
use libserver::logic::json::LogicJSONNode;
use libserver::math::LogicLong;
use libserver::message::{
    AskForAvatarProfileMessage, AttackNpcMessage, AvailableServerCommandMessage,
    ChangeAvatarNameMessage, EndClientTurnMessage, ExtendedSetEncryptionMessage,
    KeepAliveServerMessage, LoginMessage, LoginOkMessage, NpcDataMessage, OutOfSyncMessage,
    OwnHomeDataMessage,
};
use libserver::network::PiranhaMessage;
use libserver::sc_string::{ScString, StringBuilder};

#[test]
fn logic_long_zero() {
    assert!(LogicLong::new(0, 0).is_zero());
    assert!(!LogicLong::new(0, 1).is_zero());
    assert!(!LogicLong::new(1, 0).is_zero());
    assert!(!LogicLong::new(-1, 0).is_zero());
    let id = LogicLong::new(3, 4);
    assert_eq!((id.higher_int, id.lower_int), (3, 4));
    assert_eq!(id, LogicLong { higher_int: 3, lower_int: 4 });
}

#[test]
fn new_stream_is_empty() {
    let stream = ByteStream::new(10);
    assert_eq!(stream.get_length(), 0);
    assert_eq!(stream.get_offset(), 0);
    assert!(stream.get_byte_array().is_empty());
    assert!(stream.is_at_end());
}

#[test]
fn stream_from_bytes_reads_from_the_start() {
    let mut stream = ByteStream::from(&[0, 0, 1, 2, 9]);
    assert_eq!(stream.get_length(), 5);
    assert_eq!(stream.get_byte_array(), &[0, 0, 1, 2, 9]);
    assert_eq!(stream.read_int(), Some(258));
    assert_eq!(stream.get_offset(), 4);
    assert_eq!(stream.read_int(), None);
    assert_eq!(stream.get_offset(), 4);
    assert_eq!(stream.read_byte(), Some(9));
    assert_eq!(stream.read_byte(), None);
    assert!(stream.is_at_end());
}

#[test]
fn int_is_written_most_significant_byte_first() {
    let mut stream = ByteStream::new(4);
    stream.write_int(0x01020304);
    stream.write_int(-2);
    assert_eq!(stream.get_byte_array(), &[1, 2, 3, 4, 0xFF, 0xFF, 0xFF, 0xFE]);
    assert_eq!(stream.get_length(), 8);
}

#[test]
fn int_round_trip_at_the_edges() {
    for value in [0, 1, -1, i32::MAX, i32::MIN, 255, 256, -256] {
        let mut stream = ByteStream::new(4);
        stream.write_int(value);
        stream.reset_offset();
        assert_eq!(stream.read_int(), Some(value));
    }
}

#[test]
fn long_is_two_ints() {
    let mut stream = ByteStream::new(8);
    stream.write_long(&LogicLong::new(1, -1));
    assert_eq!(stream.get_byte_array(), &[0, 0, 0, 1, 0xFF, 0xFF, 0xFF, 0xFF]);
    stream.reset_offset();
    assert_eq!(stream.read_long(), Some(LogicLong::new(1, -1)));
    assert_eq!(stream.read_long(), None);
}

#[test]
fn long_needs_eight_bytes() {
    let mut stream = ByteStream::from(&[0, 0, 0, 1, 0, 0, 0]);
    assert_eq!(stream.read_long(), None);
    assert_eq!(stream.get_offset(), 0);
}

#[test]
fn string_is_length_prefixed_utf8() {
    let mut stream = ByteStream::new(8);
    stream.write_string(Some("hé"));
    stream.write_string(None);
    stream.write_string(Some(""));
    assert_eq!(
        stream.get_byte_array(),
        &[0, 0, 0, 3, b'h', 0xC3, 0xA9, 0xFF, 0xFF, 0xFF, 0xFF, 0, 0, 0, 0]
    );
    stream.reset_offset();
    assert_eq!(stream.read_string(), Some(Some("hé".to_string())));
    assert_eq!(stream.read_string(), Some(None));
    assert_eq!(stream.read_string(), Some(Some(String::new())));
    assert_eq!(stream.read_string(), None);
}

#[test]
fn string_that_is_not_utf8_is_refused() {
    let mut stream = ByteStream::from(&[0, 0, 0, 2, 0xC3, 0x28]);
    assert_eq!(stream.read_string(), None);
    assert_eq!(stream.get_offset(), 0);
    assert_eq!(stream.read_bytes(), Some(Some(vec![0xC3, 0x28])));
}

#[test]
fn string_cut_short_is_refused() {
    let mut stream = ByteStream::from(&[0, 0, 0, 5, b'a', b'b']);
    assert_eq!(stream.read_string(), None);
    assert_eq!(stream.read_bytes(), None);
    assert_eq!(stream.get_offset(), 0);
}

#[test]
fn text_must_be_present() {
    let mut stream = ByteStream::new(8);
    stream.write_string(None);
    stream.write_text("ok");
    stream.reset_offset();
    assert_eq!(stream.read_text(), None);
    assert_eq!(stream.get_offset(), 0);
    stream.set_offset(4);
    assert_eq!(stream.read_text(), Some("ok".to_string()));
}

#[test]
fn block_round_trip() {
    let mut stream = ByteStream::new(8);
    stream.write_bytes(Some(&[1, 2, 3]));
    stream.write_bytes(None);
    stream.write_bytes(Some(&[]));
    stream.reset_offset();
    assert_eq!(stream.read_bytes(), Some(Some(vec![1, 2, 3])));
    assert_eq!(stream.read_bytes(), Some(None));
    assert_eq!(stream.read_bytes(), Some(Some(vec![])));
}

#[test]
fn writing_after_a_reset_overwrites() {
    let mut stream = ByteStream::new(8);
    stream.write_raw(&[1, 2, 3, 4, 5]);
    stream.reset_offset();
    assert_eq!(stream.get_length(), 0);
    stream.write_byte(9);
    stream.write_raw(&[8]);
    assert_eq!(stream.buffer, vec![9, 8, 3, 4, 5]);
    assert_eq!(stream.get_byte_array(), &[9, 8]);
    stream.set_offset(4);
    stream.write_raw(&[7, 7, 7]);
    assert_eq!(stream.buffer, vec![9, 8, 3, 4, 7, 7, 7]);
}

#[test]
fn length_is_the_larger_of_cursor_and_declared_length() {
    let mut stream = ByteStream::from(&[1, 2, 3]);
    assert_eq!(stream.get_length(), 3);
    let _ = stream.read_byte();
    assert_eq!(stream.get_length(), 3);
    stream.set_offset(3);
    stream.write_byte(4);
    assert_eq!(stream.get_length(), 4);
    assert_eq!(stream.get_byte_array(), &[1, 2, 3, 4]);
}

#[test]
fn sc_string_and_builder() {
    let text = ScString::from("abc");
    assert_eq!(text.to_string(), "abc");
    assert_eq!(text.as_str(), "abc");
    let mut builder = StringBuilder::new();
    assert_eq!(builder.to_string(), "");
    builder.append("ab");
    builder.append("cd");
    assert_eq!(builder.to_string(), "abcd");
}

#[test]
fn array_list_keeps_order() {
    let mut list: LogicArrayList<i32> = LogicArrayList::new();
    assert_eq!(list.size(), 0);
    list.add(3);
    list.add(1);
    assert_eq!(list.size(), 2);
    assert_eq!(list.as_slice(), &[3, 1]);
}

#[test]
fn json_node_writes_its_text() {
    let node = LogicJSONNode::new_json_object();
    let mut builder = StringBuilder::new();
    builder.append("x");
    node.write_to_string(&mut builder);
    assert_eq!(builder.to_string(), "x{}");
    let mut other = LogicJSONNode::from_text("{\"a\":1}");
    assert_eq!(other.text, "{\"a\":1}");
    other.set_text("[]");
    assert_eq!(other.text, "[]");
}

#[test]
fn client_home_holds_its_json() {
    let mut home = LogicClientHome::new();
    assert_eq!(home.get_home_json(), "");
    home.set_home_json("{\"buildings\":[]}");
    assert_eq!(home.get_home_json(), "{\"buildings\":[]}");
}

#[test]
fn default_avatar_has_the_starting_belongings() {
    let avatar = LogicClientAvatar::get_default_avatar();
    assert_eq!(avatar.id, LogicLong::new(0, 0));
    assert_eq!(avatar.name, "");
    assert_eq!(avatar.level, 1);
    assert_eq!(avatar.diamonds, 100_000_000);
    assert_eq!(avatar.gold, 750);
    assert_eq!(avatar.elixir, 750);
    assert_eq!(avatar.score, 0);
    let blank = LogicClientAvatar::new();
    assert_eq!((blank.level, blank.diamonds, blank.gold, blank.elixir), (0, 0, 0, 0));
}

#[test]
fn client_avatar_bytes_are_exact() {
    let avatar = LogicClientAvatar::get_default_avatar();
    let mut stream = ByteStream::new(10);
    avatar.encode(&mut stream);
    assert_eq!(
        stream.get_byte_array(),
        &[
            0, 0, 0, 0, 0, 0, 0, 0, 0, 0, 0, 0, 0, 0, 0, 1, 5, 245, 225, 0, 0, 0, 2, 238, 0, 0, 2,
            238, 0, 0, 0, 0
        ]
    );
}

fn sample_avatar() -> LogicClientAvatar {
    let mut avatar = LogicClientAvatar::get_default_avatar();
    avatar.set_id(&LogicLong::new(2, 77));
    avatar.set_name("Zoë");
    avatar.score = -5;
    avatar
}

fn same_avatar(a: &LogicClientAvatar, b: &LogicClientAvatar) -> bool {
    a.id == b.id
        && a.name == b.name
        && a.level == b.level
        && a.diamonds == b.diamonds
        && a.gold == b.gold
        && a.elixir == b.elixir
        && a.score == b.score
}

#[test]
fn client_avatar_round_trip() {
    let avatar = sample_avatar();
    let mut stream = ByteStream::new(10);
    stream.write_int(42);
    avatar.encode(&mut stream);
    stream.write_int(43);
    stream.reset_offset();
    assert_eq!(stream.read_int(), Some(42));
    let mut decoded = LogicClientAvatar::new();
    assert!(decoded.decode(&mut stream));
    assert!(same_avatar(&avatar, &decoded));
    assert_eq!(stream.read_int(), Some(43));
}

#[test]
fn client_avatar_cut_short_is_refused() {
    let avatar = sample_avatar();
    let mut stream = ByteStream::new(10);
    avatar.encode(&mut stream);
    let bytes = stream.get_byte_array().to_vec();
    for cut in 0..bytes.len() {
        let mut short = ByteStream::from(&bytes[..cut]);
        let mut decoded = LogicClientAvatar::new();
        assert!(!decoded.decode(&mut short));
        assert_eq!(short.get_offset(), 0);
        assert!(same_avatar(&decoded, &LogicClientAvatar::new()));
    }
}

#[test]
fn avatar_copy_is_independent_and_equal() {
    let avatar = sample_avatar();
    let mut copy = clone_via_round_trip(&avatar).unwrap();
    assert!(same_avatar(&avatar, &copy));
    copy.set_name("other");
    assert_eq!(avatar.name, "Zoë");
    let twin = avatar.duplicate();
    assert!(same_avatar(&avatar, &twin));
}

#[test]
fn npc_avatar_round_trip() {
    let mut avatar = LogicNpcAvatar::new();
    assert_eq!(avatar.npc_data.global_id, 0);
    avatar.set_npc_data(&LogicNpcData::new(17000003, "level/npc4.json"));
    let mut stream = ByteStream::new(10);
    avatar.encode(&mut stream);
    assert_eq!(&stream.get_byte_array()[..8], &[1, 3, 102, 67, 0, 0, 0, 15]);
    stream.reset_offset();
    let mut decoded = LogicNpcAvatar::new();
    assert!(decoded.decode(&mut stream));
    assert_eq!(decoded.npc_data.global_id, 17000003);
    assert_eq!(decoded.npc_data.level_json_file_name, "level/npc4.json");
    let copy = clone_via_round_trip(&avatar).unwrap();
    assert_eq!(copy.npc_data.level_json_file_name, "level/npc4.json");
    assert_eq!(avatar.duplicate().npc_data.global_id, 17000003);
}

#[test]
fn npc_data_file_name() {
    let data = LogicNpcData::new(1, "level/npc1.json");
    assert_eq!(data.get_level_json_file_name().to_string(), "level/npc1.json");
    let mut short = ByteStream::from(&[0, 0, 0, 1]);
    assert!(LogicNpcData::decode(&mut short).is_none());
    assert_eq!(short.get_offset(), 0);
}

fn through_trait<T: LogicAvatar>(avatar: &T) -> Vec<u8> {
    let mut stream = ByteStream::new(10);
    LogicAvatar::encode(avatar, &mut stream);
    stream.get_byte_array().to_vec()
}

#[test]
fn both_actors_offer_the_same_operations() {
    let client: LogicClientAvatar = LogicAvatar::new();
    let npc: LogicNpcAvatar = LogicAvatar::new();
    assert_eq!(through_trait(&client).len(), 32);
    assert_eq!(through_trait(&npc), vec![0, 0, 0, 0, 0, 0, 0, 0]);
    let mut stream = ByteStream::from(&through_trait(&sample_avatar()));
    let mut decoded: LogicClientAvatar = LogicAvatar::new();
    assert!(LogicAvatar::decode(&mut decoded, &mut stream));
    assert!(same_avatar(&decoded, &sample_avatar()));
}

#[test]
fn default_actor_of_each_kind_is_blank() {
    let client: LogicClientAvatar = LogicAvatar::new();
    assert!(same_avatar(&client, &LogicClientAvatar::new()));
    assert!(client.id.is_zero());
    assert_eq!(client.name, "");
    assert_eq!((client.level, client.diamonds, client.gold, client.elixir, client.score), (0, 0, 0, 0, 0));
    let npc: LogicNpcAvatar = LogicAvatar::new();
    assert_eq!(npc.npc_data.global_id, 0);
    assert_eq!(npc.npc_data.level_json_file_name, "");
}

#[test]
fn command_round_trip() {
    let mut command = LogicCommand::new(7, 12);
    assert_eq!(command.get_command_type(), 7);
    assert_eq!(command.get_execute_sub_tick(), 12);
    command.avatar_name = Some("n".to_string());
    command.name_change_state = 2;
    let mut stream = ByteStream::new(10);
    command.encode(&mut stream);
    assert_eq!(
        stream.get_byte_array(),
        &[0, 0, 0, 7, 0, 0, 0, 12, 0, 0, 0, 1, b'n', 0, 0, 0, 2]
    );
    stream.reset_offset();
    let decoded = LogicCommand::decode(&mut stream).unwrap();
    assert_eq!(decoded.command_type, 7);
    assert_eq!(decoded.execute_sub_tick, 12);
    assert_eq!(decoded.avatar_name, Some("n".to_string()));
    assert_eq!(decoded.name_change_state, 2);
    let mut short = ByteStream::from(&[0, 0, 0, 7, 0, 0, 0, 12, 0, 0, 0, 1, b'n', 0]);
    assert!(LogicCommand::decode(&mut short).is_none());
    assert_eq!(short.get_offset(), 0);
}

#[test]
fn change_avatar_name_command() {
    let mut command = LogicChangeAvatarNameCommand::new();
    assert_eq!(command.0.command_type, CHANGE_AVATAR_NAME_COMMAND);
    assert_eq!(command.0.avatar_name, None);
    command.set_avatar_name("Ann");
    command.set_name_change_state(1);
    assert_eq!(command.0.avatar_name, Some("Ann".to_string()));
    assert_eq!(command.0.name_change_state, 1);
    assert_eq!(command.0.execute_sub_tick, 0);
}

#[test]
fn command_manager_keeps_arrival_order() {
    let mut manager = LogicCommandManager::new();
    manager.add_command(&LogicCommand::new(1, 5));
    manager.add_command(&LogicCommand::new(2, 3));
    let seen: Vec<(i32, i32)> =
        manager.commands.iter().map(|c| (c.command_type, c.execute_sub_tick)).collect();
    assert_eq!(seen, vec![(1, 5), (2, 3)]);
}

#[test]
fn login_message_round_trip() {
    let login = LoginMessage::new(LogicLong::new(0, 42), Some("token".to_string()), 99);
    let message = login.encode();
    assert_eq!(message.message_type, 10101);
    assert_eq!(
        message.payload,
        vec![0, 0, 0, 0, 0, 0, 0, 42, 0, 0, 0, 5, b't', b'o', b'k', b'e', b'n', 0, 0, 0, 99]
    );
    let decoded = LoginMessage::decode(&message).unwrap();
    assert_eq!(*decoded.get_account_id(), LogicLong::new(0, 42));
    assert_eq!(decoded.get_pass_token(), Some("token"));
    assert_eq!(decoded.get_scrambler_seed(), 99);
}

#[test]
fn login_message_without_token() {
    let login = LoginMessage::new(LogicLong::new(0, 0), None, -3);
    let decoded = LoginMessage::decode(&login.encode()).unwrap();
    assert!(decoded.get_account_id().is_zero());
    assert_eq!(decoded.get_pass_token(), None);
    assert_eq!(decoded.get_scrambler_seed(), -3);
}

#[test]
fn login_message_cut_short_is_refused() {
    let login = LoginMessage::new(LogicLong::new(0, 42), Some("token".to_string()), 99);
    let payload = login.encode().payload;
    for cut in 0..payload.len() {
        let message = PiranhaMessage::new(10101, 0, payload[..cut].to_vec());
        assert!(LoginMessage::decode(&message).is_none());
    }
}

#[test]
fn set_encryption_message_bytes() {
    let mut message = ExtendedSetEncryptionMessage::new();
    message.set_nonce(&[9, 8, 7]);
    message.set_scrambler_method(1);
    let encoded = message.encode();
    assert_eq!(encoded.message_type, 20000);
    assert_eq!(encoded.payload, vec![0, 0, 0, 3, 9, 8, 7, 0, 0, 0, 1]);
}

#[test]
fn login_ok_message_bytes() {
    let mut message = LoginOkMessage::new();
    message.set_account_id(LogicLong::new(0, 7));
    message.set_home_id(LogicLong::new(0, 7));
    message.set_pass_token("ab");
    message.set_server_major_version(8);
    message.set_server_build(67);
    message.set_content_version(0);
    message.set_server_environment("dev");
    let encoded = message.encode();
    assert_eq!(encoded.message_type, 20104);
    assert_eq!(
        encoded.payload,
        vec![
            0, 0, 0, 0, 0, 0, 0, 7, 0, 0, 0, 0, 0, 0, 0, 7, 0, 0, 0, 2, b'a', b'b', 0, 0, 0, 8, 0,
            0, 0, 67, 0, 0, 0, 0, 0, 0, 0, 3, b'd', b'e', b'v'
        ]
    );
}

#[test]
fn keep_alive_server_message_is_empty() {
    let encoded = KeepAliveServerMessage::new().encode();
    assert_eq!(encoded.message_type, 20108);
    assert!(encoded.payload.is_empty());
}

#[test]
fn change_avatar_name_message_round_trip() {
    let encoded = ChangeAvatarNameMessage::new("Ann").encode();
    assert_eq!(encoded.message_type, 10212);
    assert_eq!(encoded.payload, vec![0, 0, 0, 3, b'A', b'n', b'n']);
    assert_eq!(ChangeAvatarNameMessage::decode(&encoded).unwrap().get_avatar_name(), "Ann");
    assert!(ChangeAvatarNameMessage::decode(&PiranhaMessage::new(10212, 0, vec![0, 0])).is_none());
}

#[test]
fn ask_for_avatar_profile_message_round_trip() {
    let encoded = AskForAvatarProfileMessage::new(LogicLong::new(1, 2)).encode();
    assert_eq!(encoded.message_type, 14325);
    let decoded = AskForAvatarProfileMessage::decode(&encoded).unwrap();
    assert_eq!(*decoded.get_account_id(), LogicLong::new(1, 2));
    assert!(AskForAvatarProfileMessage::decode(&PiranhaMessage::new(14325, 0, vec![1])).is_none());
}

#[test]
fn own_home_data_message_bytes() {
    let mut message = OwnHomeDataMessage::new();
    message.set_seconds_since_last_save(5);
    message.set_current_timestamp(6);
    let mut home = LogicClientHome::new();
    home.set_home_json("{}");
    message.set_logic_client_home(home);
    message.set_logic_client_avatar(LogicClientAvatar::new());
    let encoded = message.encode();
    assert_eq!(encoded.message_type, 24101);
    let mut expected = vec![0, 0, 0, 5, 0, 0, 0, 6, 0, 0, 0, 2, b'{', b'}'];
    expected.extend_from_slice(&[0u8; 32]);
    assert_eq!(encoded.payload, expected);
}

#[test]
fn out_of_sync_message_bytes() {
    let mut message = OutOfSyncMessage::new();
    message.set_server_checksum(1);
    message.set_client_checksum(-1);
    message.set_sub_tick(258);
    let encoded = message.encode();
    assert_eq!(encoded.message_type, 24104);
    assert_eq!(encoded.payload, vec![0, 0, 0, 1, 0xFF, 0xFF, 0xFF, 0xFF, 0, 0, 1, 2]);
}

#[test]
fn end_client_turn_message_round_trip() {
    let mut list = LogicArrayList::new();
    list.add(LogicCommand::new(1, 5));
    list.add(LogicCommand::new(2, 3));
    let encoded = EndClientTurnMessage::new(6, -9, Some(list)).encode();
    assert_eq!(encoded.message_type, 14102);
    assert_eq!(&encoded.payload[..12], &[0, 0, 0, 6, 0xFF, 0xFF, 0xFF, 0xF7, 0, 0, 0, 2]);
    let decoded = EndClientTurnMessage::decode(&encoded).unwrap();
    assert_eq!(decoded.get_sub_tick(), 6);
    assert_eq!(decoded.get_checksum(), -9);
    let commands = decoded.get_commands().unwrap().as_slice();
    assert_eq!(commands.len(), 2);
    assert_eq!((commands[0].command_type, commands[0].execute_sub_tick), (1, 5));
    assert_eq!((commands[1].command_type, commands[1].execute_sub_tick), (2, 3));
}

#[test]
fn end_client_turn_message_without_commands() {
    let encoded = EndClientTurnMessage::new(6, 7, None).encode();
    assert_eq!(encoded.payload, vec![0, 0, 0, 6, 0, 0, 0, 7, 0xFF, 0xFF, 0xFF, 0xFF]);
    let decoded = EndClientTurnMessage::decode(&encoded).unwrap();
    assert!(decoded.get_commands().is_none());
    let empty = EndClientTurnMessage::new(6, 7, Some(LogicArrayList::new())).encode();
    assert_eq!(EndClientTurnMessage::decode(&empty).unwrap().get_commands().unwrap().size(), 0);
}

#[test]
fn end_client_turn_message_with_too_few_commands_is_refused() {
    let mut list = LogicArrayList::new();
    list.add(LogicCommand::new(1, 5));
    let mut payload = EndClientTurnMessage::new(6, 7, Some(list)).encode().payload;
    payload[11] = 2;
    assert!(EndClientTurnMessage::decode(&PiranhaMessage::new(14102, 0, payload)).is_none());
    assert!(EndClientTurnMessage::decode(&PiranhaMessage::new(14102, 0, vec![0; 11])).is_none());
}

#[test]
fn available_server_command_message_bytes() {
    let mut message = AvailableServerCommandMessage::new();
    message.set_server_command(&LogicCommand::new(3, 0));
    let encoded = message.encode();
    assert_eq!(encoded.message_type, 24111);
    assert_eq!(
        encoded.payload,
        vec![0, 0, 0, 3, 0, 0, 0, 0, 0xFF, 0xFF, 0xFF, 0xFF, 0, 0, 0, 0]
    );
}

#[test]
fn attack_npc_message_round_trip() {
    let encoded = AttackNpcMessage::new(LogicNpcData::new(5, "level/npc1.json")).encode();
    assert_eq!(encoded.message_type, 14134);
    let decoded = AttackNpcMessage::decode(&encoded).unwrap();
    assert_eq!(decoded.get_npc_data().global_id, 5);
    assert_eq!(decoded.get_npc_data().level_json_file_name, "level/npc1.json");
    assert!(AttackNpcMessage::decode(&PiranhaMessage::new(14134, 0, vec![0, 0, 0])).is_none());
}

#[test]
fn npc_data_message_bytes() {
    let mut message = NpcDataMessage::new();
    message.set_level_json("{}");
    message.set_logic_client_avatar(&LogicClientAvatar::new());
    let mut npc = LogicNpcAvatar::new();
    npc.set_npc_data(&LogicNpcData::new(1, "a"));
    message.set_logic_npc_avatar(&npc);
    let encoded = message.encode();
    assert_eq!(encoded.message_type, 24133);
    let mut expected = vec![0, 0, 0, 2, b'{', b'}', 0, 0, 0, 1, 0, 0, 0, 1, b'a'];
    expected.extend_from_slice(&[0u8; 32]);
    assert_eq!(encoded.payload, expected);
}
