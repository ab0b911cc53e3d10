use std::io::Read;

use libserver::byte_stream::ByteStream;
use libserver::database::{
    avatar_from_bytes, create_new_player_data, decode_avatar_blob, encode_avatar_blob,
    fetch_or_create_player, fetch_player, new_player_data, save_player_data, save_player_data_at,
    with_assigned_id, PlayerQuery, PASS_TOKEN_LENGTH,
};
use libserver::helper::{compress_in_zlib_format, with_length_prefix};
use libserver::logic::avatar::LogicClientAvatar;
use libserver::math::LogicLong;
use libserver::message::{AvatarProfileFullEntry, AvatarProfileMessage};
use libserver::math::{decimal_string, digit_str, signed_decimal_string};
use libserver::resources::{init, ResourceListener, ResourceManager};
use libserver::time_util::get_current_timestamp;

#[test]
fn login_with_zero_creates_and_any_other_loads() {
    assert_eq!(fetch_or_create_player(&LogicLong::new(0, 0)), PlayerQuery::Create);
    assert_eq!(fetch_or_create_player(&LogicLong::new(0, 42)), PlayerQuery::Load(42));
    assert_eq!(fetch_or_create_player(&LogicLong::new(0, -3)), PlayerQuery::Load(-3));
}

#[test]
fn identifier_with_a_higher_half_names_no_record() {
    assert_eq!(fetch_or_create_player(&LogicLong::new(1, 0)), PlayerQuery::Nothing);
    assert_eq!(fetch_or_create_player(&LogicLong::new(5, 42)), PlayerQuery::Nothing);
    assert_eq!(fetch_or_create_player(&LogicLong::new(-1, 42)), PlayerQuery::Nothing);
    assert_eq!(fetch_player(&LogicLong::new(5, 42)), PlayerQuery::Nothing);
    assert_eq!(fetch_player(&LogicLong::new(9, -1)), PlayerQuery::Nothing);
    assert_eq!(fetch_player(&LogicLong::new(1, 0)), PlayerQuery::Nothing);
}

#[test]
fn lookup_of_zero_finds_nothing() {
    assert_eq!(fetch_player(&LogicLong::new(0, 0)), PlayerQuery::Nothing);
    assert_eq!(fetch_player(&LogicLong::new(0, 42)), PlayerQuery::Load(42));
    assert_eq!(fetch_player(&LogicLong::new(0, -1)), PlayerQuery::Load(-1));
}

#[test]
fn avatar_blob_is_base64_of_the_bytes() {
    let blob = encode_avatar_blob(&LogicClientAvatar::get_default_avatar());
    assert_eq!(blob, "AAAAAAAAAAAAAAAAAAAAAQX14QAAAALuAAAC7gAAAAA=");
}

#[test]
fn known_avatar_blob_is_read() {
    let avatar = decode_avatar_blob("AAAAAAAAAAAAAAAAAAAAAQX14QAAAALuAAAC7gAAAAA=").unwrap();
    assert!(avatar.id.is_zero());
    assert_eq!(avatar.name, "");
    assert_eq!((avatar.level, avatar.diamonds, avatar.gold, avatar.elixir), (1, 100_000_000, 750, 750));
    let named = decode_avatar_blob("AAAAAgAAAE0AAAACQm8AAAABBfXhAAAAAu4AAALuAAAAAA==").unwrap();
    assert_eq!(named.id, LogicLong::new(2, 77));
    assert_eq!(named.name, "Bo");
}

#[test]
fn avatar_blob_round_trip() {
    let mut avatar = LogicClientAvatar::get_default_avatar();
    avatar.set_id(&LogicLong::new(0, 9));
    avatar.set_name("Bo");
    let decoded = decode_avatar_blob(&encode_avatar_blob(&avatar)).unwrap();
    assert_eq!(decoded.id, LogicLong::new(0, 9));
    assert_eq!(decoded.name, "Bo");
    assert_eq!(decoded.gold, 750);
}

#[test]
fn avatar_blob_that_is_not_base64_is_refused() {
    assert!(decode_avatar_blob("AAA^AAA==").is_none());
    assert!(decode_avatar_blob("!").is_none());
}

#[test]
fn avatar_blob_that_is_too_short_is_refused() {
    assert!(decode_avatar_blob("").is_none());
    assert!(decode_avatar_blob("AAAAAA==").is_none());
    assert!(avatar_from_bytes(&[0u8; 31]).is_none());
    assert!(avatar_from_bytes(&[0u8; 32]).is_some());
}

#[test]
fn new_player_record() {
    let data = new_player_data("t".repeat(40), "{\"home\":1}", 1234);
    assert!(data.id.is_zero());
    assert_eq!(data.pass_token, "t".repeat(40));
    assert_eq!(data.home_json, "{\"home\":1}");
    assert_eq!(data.client_avatar_blob, "AAAAAAAAAAAAAAAAAAAAAQX14QAAAALuAAAC7gAAAAA=");
    assert_eq!(data.score, 0);
    assert_eq!(data.last_save_timestamp, 1234);
    let stored = with_assigned_id(data, 17);
    assert_eq!(stored.id, LogicLong::new(0, 17));
    assert_eq!(stored.home_json, "{\"home\":1}");
}

#[test]
fn created_player_has_a_random_token_of_letters_and_digits() {
    let first = create_new_player_data("{}");
    let second = create_new_player_data("{}");
    assert_eq!(first.pass_token.len(), PASS_TOKEN_LENGTH);
    assert_eq!(first.pass_token.chars().count(), 40);
    assert!(first.pass_token.chars().all(|c| c.is_ascii_alphanumeric()));
    assert_ne!(first.pass_token, second.pass_token);
    assert!(first.last_save_timestamp > 1_600_000_000);
    assert_eq!(first.home_json, "{}");
    assert_eq!(first.score, 0);
}

#[test]
fn new_player_record_holds_the_default_actor() {
    let data = with_assigned_id(create_new_player_data("{}"), 3);
    let avatar = decode_avatar_blob(&data.client_avatar_blob).unwrap();
    assert!(avatar.id.is_zero());
    assert_eq!((avatar.level, avatar.diamonds, avatar.gold, avatar.elixir, avatar.score), (1, 100_000_000, 750, 750, 0));
    assert_eq!(avatar.name, "");
}

#[test]
fn player_update_holds_what_is_saved() {
    let mut avatar = LogicClientAvatar::get_default_avatar();
    avatar.set_name("Bo");
    let update = save_player_data_at(&LogicLong::new(3, 8), "{}", &avatar, 77);
    assert_eq!(update.id, 8);
    assert_eq!(update.home_json, "{}");
    assert_eq!(update.client_avatar_blob, encode_avatar_blob(&avatar));
    assert_eq!(decode_avatar_blob(&update.client_avatar_blob).unwrap().name, "Bo");
    assert_eq!(update.last_save_timestamp, 77);
    let now = save_player_data(&LogicLong::new(0, 8), "{}", &avatar);
    assert_eq!(now.id, 8);
    assert!(now.last_save_timestamp > 1_600_000_000);
}

#[test]
fn timestamp_is_after_2020() {
    let first = get_current_timestamp();
    let second = get_current_timestamp();
    assert!(first > 1_600_000_000);
    assert!(second >= first);
}

fn inflate(stream: &[u8]) -> Vec<u8> {
    let mut decoder = flate2::read::ZlibDecoder::new(stream);
    let mut output = Vec::new();
    decoder.read_to_end(&mut output).unwrap();
    output
}

#[test]
fn compressed_data_starts_with_the_length_and_inflates_back() {
    let input = b"{\"buildings\":[{\"data\":1000001,\"x\":20,\"y\":20}]}".repeat(20);
    let output = compress_in_zlib_format(&input);
    assert_eq!(&output[..4], &(input.len() as u32).to_le_bytes());
    assert_ne!(&output[4..], &input[..]);
    assert!(output.len() < input.len());
    assert_eq!(inflate(&output[4..]), input);
}

#[test]
fn compressed_nothing_is_a_valid_stream() {
    let output = compress_in_zlib_format(&[]);
    assert_eq!(&output[..4], &[0, 0, 0, 0]);
    assert!(output.len() > 4);
    assert_eq!(inflate(&output[4..]), Vec::<u8>::new());
}

#[test]
fn length_prefix_is_least_significant_byte_first() {
    assert_eq!(with_length_prefix(0x01020304, &[9, 9]), vec![4, 3, 2, 1, 9, 9]);
    assert_eq!(with_length_prefix(0, &[]), vec![0, 0, 0, 0]);
    assert_eq!(with_length_prefix(255, &[1]), vec![255, 0, 0, 0, 1]);
}

#[test]
fn profile_entry_holds_the_actor_and_the_compressed_base() {
    let mut entry = AvatarProfileFullEntry::new();
    assert!(entry.compressed_home_json.is_empty());
    let mut avatar = LogicClientAvatar::get_default_avatar();
    avatar.set_name("Bo");
    entry.set_logic_client_avatar(avatar);
    entry.set_home_json("{\"a\":1}");
    assert_eq!(entry.compressed_home_json, compress_in_zlib_format(b"{\"a\":1}"));
    let mut message = AvatarProfileMessage::new();
    message.set_avatar_profile_full_entry(entry);
    let encoded = message.encode();
    assert_eq!(encoded.message_type, 24334);
    let mut stream = ByteStream::from(&encoded.payload);
    let mut decoded = LogicClientAvatar::new();
    assert!(decoded.decode(&mut stream));
    assert_eq!(decoded.name, "Bo");
    let compressed = stream.read_bytes().unwrap().unwrap();
    assert_eq!(inflate(&compressed[4..]), b"{\"a\":1}");
    assert!(stream.is_at_end());
}

#[test]
fn decimal_text() {
    assert_eq!(digit_str(0), "0");
    assert_eq!(digit_str(9), "9");
    assert_eq!(decimal_string(0), "0");
    assert_eq!(decimal_string(7), "7");
    assert_eq!(decimal_string(10), "10");
    assert_eq!(decimal_string(48), "48");
    assert_eq!(decimal_string(1203), "1203");
    assert_eq!(signed_decimal_string(0), "0");
    assert_eq!(signed_decimal_string(-7), "-7");
    assert_eq!(signed_decimal_string(i32::MIN), "-2147483648");
    assert_eq!(signed_decimal_string(i32::MAX), "2147483647");
    assert_eq!(LogicLong::new(0, 42).to_string(), "LogicLong(0,42)");
    assert_eq!(LogicLong::new(-1, 10).to_string(), "LogicLong(-1,10)");
}

#[test]
fn listener_keeps_the_order_of_its_files() {
    let mut listener = ResourceListener::new();
    assert!(listener.files.is_empty());
    assert!(!listener.loading);
    listener.add_file("b");
    listener.add_file("a");
    listener.add_numbered_files("n", 2);
    listener.start_loading();
    assert_eq!(listener.files, vec!["b", "a", "n1.json", "n2.json"]);
    assert!(listener.loading);
}

#[test]
fn every_required_resource_is_listed_in_order() {
    let listener = init();
    assert!(listener.loading);
    assert_eq!(listener.files.len(), 1 + 48 + 11 + 2 + 38);
    assert_eq!(listener.files[0], "level/starting_home.json");
    assert_eq!(listener.files[1], "level/npc1.json");
    assert_eq!(listener.files[10], "level/npc10.json");
    assert_eq!(listener.files[48], "level/npc48.json");
    assert_eq!(listener.files[49], "level/townhall1.json");
    assert_eq!(listener.files[59], "level/townhall11.json");
    assert_eq!(listener.files[60], "level/tutorial_npc.json");
    assert_eq!(listener.files[61], "level/tutorial_npc2.json");
    assert_eq!(listener.files[62], "logic/buildings.csv");
    assert_eq!(listener.files[83], "logic/npcs.csv");
    assert_eq!(listener.files[99], "csv/helpshift.csv");
}

#[test]
fn manager_finds_the_first_resource_of_a_name() {
    let mut manager = ResourceManager::new();
    assert!(manager.get_json("a").is_none());
    manager.add("a", "{\"first\":1}");
    manager.add("b", "{}");
    manager.add("a", "{\"second\":2}");
    assert_eq!(manager.get_text("a"), Some("{\"first\":1}"));
    assert_eq!(manager.get_json("b").unwrap().text, "{}");
    assert!(manager.get_text("c").is_none());
    assert!(manager.get_text("").is_none());
}
