use yewchat::chat::{Chat, Msg, SyncState};
use yewchat::envelope::{decode, decode_payload, encode, encode_outbound, encode_payload, DecodeError, Envelope};
use yewchat::profile::{avatar_url, is_image_body, profile_of};

fn names(v: &[&str]) -> Vec<String> {
    v.iter().map(|s| s.to_string()).collect()
}

fn roster_frame(v: &[&str]) -> String {
    encode(&Envelope::RosterSnapshot { names: names(v) })
}

fn chat_frame(from: &str, body: &str) -> String {
    encode(&Envelope::ChatMessage { from: from.to_string(), body: body.to_string() })
}

fn roster_names(chat: &Chat) -> Vec<String> {
    chat.users().iter().map(|u| u.name.clone()).collect()
}

fn log(chat: &Chat) -> Vec<(String, String)> {
    chat.messages().iter().map(|m| (m.from.clone(), m.message.clone())).collect()
}

#[test]
fn encode_register_exact() {
    let t = encode(&Envelope::Register { name: "alice".to_string() });
    assert_eq!(t, "{\"messageType\":\"register\",\"data\":\"alice\"}");
}

#[test]
fn encode_roster_exact() {
    assert_eq!(roster_frame(&["a", "b"]), "{\"messageType\":\"users\",\"dataArray\":[\"a\",\"b\"]}");
    assert_eq!(roster_frame(&[]), "{\"messageType\":\"users\",\"dataArray\":[]}");
}

#[test]
fn encode_chat_message_nests_payload() {
    assert_eq!(
        chat_frame("bob", "hi"),
        "{\"messageType\":\"message\",\"data\":\"{\\\"from\\\":\\\"bob\\\",\\\"message\\\":\\\"hi\\\"}\"}"
    );
    assert_eq!(encode_payload("bob", "hi"), "{\"from\":\"bob\",\"message\":\"hi\"}");
}

#[test]
fn encode_escapes_specials() {
    let t = encode(&Envelope::Register { name: "a\"b\\c\nd\u{1}e".to_string() });
    assert_eq!(t, "{\"messageType\":\"register\",\"data\":\"a\\\"b\\\\c\\nd\\u0001e\"}");
}

#[test]
fn encode_outbound_exact() {
    assert_eq!(encode_outbound("hello"), "{\"messageType\":\"message\",\"data\":\"hello\"}");
}

#[test]
fn round_trip_all_shapes() {
    let cases = vec![
        Envelope::Register { name: "alice".to_string() },
        Envelope::Register { name: String::new() },
        Envelope::RosterSnapshot { names: vec![] },
        Envelope::RosterSnapshot { names: names(&["a", "b \"q\"", "é😀", "tab\there"]) },
        Envelope::ChatMessage { from: "bob".to_string(), body: "hi".to_string() },
        Envelope::ChatMessage { from: "x\\y".to_string(), body: "line\nbreak \u{7f} \u{1f} {\"json\":1}".to_string() },
    ];
    for e in cases {
        let t = encode(&e);
        assert_eq!(decode(&t), Ok(e));
    }
}

#[test]
fn decode_relay_frames() {
    assert_eq!(
        decode("{\"messageType\":\"users\",\"dataArray\":[\"alice\",\"bob\"]}"),
        Ok(Envelope::RosterSnapshot { names: names(&["alice", "bob"]) })
    );
    assert_eq!(
        decode("{\"messageType\":\"message\",\"data\":\"{\\\"from\\\":\\\"bob\\\",\\\"message\\\":\\\"hi\\\"}\"}"),
        Ok(Envelope::ChatMessage { from: "bob".to_string(), body: "hi".to_string() })
    );
}

#[test]
fn decode_tolerates_whitespace_nulls_and_extra_members() {
    let t = " { \"dataArray\" : null , \"extra\" : [1, {\"k\": [true, false, null]}, -2.5e3] ,\n \"messageType\" : \"register\", \"data\": \"z\" } ";
    assert_eq!(decode(t), Ok(Envelope::Register { name: "z".to_string() }));
    assert_eq!(
        decode("{\"messageType\":\"users\",\"dataArray\":[],\"data\":null,\"n\":-0.5E+2}"),
        Ok(Envelope::RosterSnapshot { names: vec![] })
    );
}

#[test]
fn decode_unicode_escapes() {
    assert_eq!(
        decode("{\"messageType\":\"register\",\"data\":\"caf\\u00e9\\/\\t\"}"),
        Ok(Envelope::Register { name: "café/\t".to_string() })
    );
    assert_eq!(decode("{\"messageType\":\"register\",\"data\":\"\\ud800\"}"), Err(DecodeError::Syntax));
    assert_eq!(
        decode("{\"messageType\":\"register\",\"data\":\"a\\ud83d\\ude00b\"}"),
        Ok(Envelope::Register { name: "a😀b".to_string() })
    );
    assert_eq!(decode("{\"messageType\":\"register\",\"data\":\"\\ud83d\\u0041\"}"), Err(DecodeError::Syntax));
    assert_eq!(decode("{\"messageType\":\"register\",\"data\":\"\\ude00\"}"), Err(DecodeError::Syntax));
    assert_eq!(decode("{\"messageType\":\"register\",\"data\":\"\\u00zz\"}"), Err(DecodeError::Syntax));
}

#[test]
fn decode_errors() {
    assert_eq!(decode("not json"), Err(DecodeError::Syntax));
    assert_eq!(decode(""), Err(DecodeError::Syntax));
    assert_eq!(decode("{\"messageType\":\"users\"} trailing"), Err(DecodeError::Syntax));
    assert_eq!(decode("{\"data\":\"x\"}"), Err(DecodeError::MissingField));
    assert_eq!(decode("{\"messageType\":5}"), Err(DecodeError::WrongType));
    assert_eq!(decode("{\"messageType\":\"users\",\"dataArray\":\"x\"}"), Err(DecodeError::WrongType));
    assert_eq!(decode("{\"messageType\":\"users\",\"dataArray\":[1]}"), Err(DecodeError::WrongType));
    assert_eq!(decode("{\"messageType\":\"register\",\"data\":7}"), Err(DecodeError::WrongType));
    assert_eq!(decode("{\"messageType\":\"shout\"}"), Err(DecodeError::UnknownType));
    assert_eq!(decode("{\"messageType\":\"register\"}"), Err(DecodeError::MissingField));
    assert_eq!(decode("{\"messageType\":\"message\"}"), Err(DecodeError::MissingField));
    assert_eq!(decode("{\"messageType\":\"message\",\"data\":\"hi\"}"), Err(DecodeError::Syntax));
    assert_eq!(decode("{\"messageType\":\"message\",\"data\":\"{\\\"from\\\":\\\"b\\\"}\"}"), Err(DecodeError::MissingField));
}

#[test]
fn decode_payload_fields() {
    assert_eq!(decode_payload("{\"message\":\"m\",\"from\":\"f\"}"), Ok(("f".to_string(), "m".to_string())));
    assert_eq!(decode_payload("{\"from\":null,\"message\":\"m\"}"), Err(DecodeError::WrongType));
}

#[test]
fn malformed_frame_changes_nothing() {
    let (mut chat, _) = Chat::create("alice".to_string());
    assert!(chat.handle_frame(&roster_frame(&["a"])));
    assert!(chat.handle_frame(&chat_frame("a", "x")));
    for bad in ["{\"data\":\"x\"}", "{\"messageType\":\"users\",\"dataArray\":3}", "garbage"] {
        let out = chat.update(Msg::HandleMsg(bad.to_string()));
        assert!(!out.rerender);
        assert!(out.outbound.is_none());
        assert_eq!(roster_names(&chat), names(&["a"]));
        assert_eq!(log(&chat), vec![("a".to_string(), "x".to_string())]);
    }
}

#[test]
fn roster_replacement_is_total() {
    let (mut chat, _) = Chat::create("alice".to_string());
    assert!(chat.handle_frame(&roster_frame(&["a", "b"])));
    assert!(chat.handle_frame(&roster_frame(&["c"])));
    assert_eq!(roster_names(&chat), names(&["c"]));
    assert_eq!(chat.users()[0].avatar, avatar_url("c"));
}

#[test]
fn message_log_keeps_order() {
    let (mut chat, _) = Chat::create("alice".to_string());
    assert_eq!(chat.state(), SyncState::Registered);
    assert!(chat.handle_frame(&chat_frame("x", "hi")));
    assert_eq!(chat.state(), SyncState::Active);
    assert!(chat.handle_frame(&chat_frame("y", "yo")));
    assert_eq!(log(&chat), vec![("x".to_string(), "hi".to_string()), ("y".to_string(), "yo".to_string())]);
}

#[test]
fn duplicate_delivery_is_kept() {
    let (mut chat, _) = Chat::create("alice".to_string());
    let f = chat_frame("x", "hi");
    assert!(chat.handle_frame(&f));
    assert!(chat.handle_frame(&f));
    assert_eq!(log(&chat), vec![("x".to_string(), "hi".to_string()), ("x".to_string(), "hi".to_string())]);
}

#[test]
fn avatar_url_is_a_function_of_the_name() {
    assert_eq!(avatar_url("alice"), "https://avatars.dicebear.com/api/adventurer-neutral/alice.svg");
    assert_eq!(avatar_url("a b/é"), "https://avatars.dicebear.com/api/adventurer-neutral/a%20b%2F%C3%A9.svg");
    assert_eq!(avatar_url("😀"), "https://avatars.dicebear.com/api/adventurer-neutral/%F0%9F%98%80.svg");
    assert_eq!(avatar_url("ߐ"), "https://avatars.dicebear.com/api/adventurer-neutral/%DF%90.svg");
    let (mut chat, _) = Chat::create("alice".to_string());
    let before = chat.avatar_of("bob");
    assert!(chat.handle_frame(&roster_frame(&["bob"])));
    assert_eq!(chat.avatar_of("bob"), before);
    assert_eq!(chat.avatar_of("carol"), avatar_url("carol"));
    assert_eq!(profile_of("bob").avatar, before);
}

#[test]
fn empty_draft_sends_nothing() {
    let (mut chat, _) = Chat::create("alice".to_string());
    assert!(chat.handle_frame(&chat_frame("x", "hi")));
    let out = chat.update(Msg::SubmitMessage);
    assert!(out.outbound.is_none());
    assert!(!out.rerender);
    assert_eq!(log(&chat).len(), 1);
}

#[test]
fn submit_sends_draft_and_clears_it() {
    let (mut chat, _) = Chat::create("alice".to_string());
    chat.set_draft("hello".to_string());
    let out = chat.update(Msg::SubmitMessage);
    assert_eq!(out.outbound, Some("{\"messageType\":\"message\",\"data\":\"hello\"}".to_string()));
    assert_eq!(chat.draft(), "");
    assert!(chat.messages().is_empty());
}

#[test]
fn submit_on_closed_channel_sends_nothing() {
    let mut chat = Chat::new("alice".to_string());
    chat.set_draft("hello".to_string());
    assert_eq!(chat.submit(), None);
    assert_eq!(chat.draft(), "");
    chat.connect();
    assert_eq!(chat.state(), SyncState::Connecting);
    chat.transport_failed();
    assert_eq!(chat.state(), SyncState::Failed);
    assert_eq!(chat.opened(), None);
    assert!(!chat.handle_frame(&roster_frame(&["a"])));
    assert!(chat.users().is_empty());
}

#[test]
fn emoji_picker_and_insertion() {
    let (mut chat, _) = Chat::create("alice".to_string());
    assert!(!chat.show_emoji_picker());
    assert!(chat.update(Msg::ToggleEmojiPicker).rerender);
    assert!(chat.show_emoji_picker());
    chat.set_draft("hi".to_string());
    let out = chat.update(Msg::InsertEmoji("🔥".to_string()));
    assert!(out.rerender);
    assert_eq!(chat.draft(), "hi 🔥");
    assert!(!chat.show_emoji_picker());
}

#[test]
fn gif_bodies_are_images() {
    assert!(is_image_body("https://x/y.gif"));
    assert!(is_image_body(".gif"));
    assert!(!is_image_body("gif"));
    assert!(!is_image_body("a.gifs"));
    assert!(!is_image_body("é.GIF"));
}

#[test]
fn login_to_first_message_scenario() {
    let mut chat = Chat::new("alice".to_string());
    assert_eq!(chat.state(), SyncState::Disconnected);
    chat.connect();
    let register = chat.opened().unwrap();
    assert_eq!(register, "{\"messageType\":\"register\",\"data\":\"alice\"}");
    assert_eq!(chat.identity(), "alice");
    let mut rerenders = 0;
    if chat.update(Msg::HandleMsg("{\"messageType\":\"users\",\"dataArray\":[\"alice\",\"bob\"]}".to_string())).rerender {
        rerenders += 1;
    }
    assert_eq!(roster_names(&chat), names(&["alice", "bob"]));
    assert_eq!(chat.users()[0].avatar, avatar_url("alice"));
    assert_eq!(chat.users()[1].avatar, avatar_url("bob"));
    let frame = "{\"messageType\":\"message\",\"data\":\"{\\\"from\\\":\\\"bob\\\",\\\"message\\\":\\\"hi\\\"}\"}";
    if chat.update(Msg::HandleMsg(frame.to_string())).rerender {
        rerenders += 1;
    }
    assert_eq!(log(&chat), vec![("bob".to_string(), "hi".to_string())]);
    assert_eq!(rerenders, 2);
}

#[test]
fn roster_frame_needs_its_list() {
    assert_eq!(decode("{\"messageType\":\"users\"}"), Err(DecodeError::MissingField));
    assert_eq!(decode("{\"messageType\":\"users\",\"dataArray\":null}"), Err(DecodeError::MissingField));
    let (mut chat, _) = Chat::create("alice".to_string());
    assert!(chat.handle_frame(&roster_frame(&["a"])));
    assert!(!chat.handle_frame("{\"messageType\":\"users\"}"));
    assert_eq!(roster_names(&chat), names(&["a"]));
}

#[test]
fn duplicate_members_are_refused() {
    assert_eq!(
        decode("{\"messageType\":\"register\",\"data\":\"a\",\"data\":\"b\"}"),
        Err(DecodeError::DuplicateField)
    );
    assert_eq!(
        decode("{\"messageType\":\"users\",\"messageType\":\"users\",\"dataArray\":[]}"),
        Err(DecodeError::DuplicateField)
    );
    assert_eq!(decode_payload("{\"from\":\"a\",\"from\":\"b\",\"message\":\"m\"}"), Err(DecodeError::DuplicateField));
    assert_eq!(
        decode("{\"messageType\":\"register\",\"data\":\"a\",\"x\":1,\"x\":2}"),
        Ok(Envelope::Register { name: "a".to_string() })
    );
}

#[test]
fn numbers_follow_json_grammar() {
    for good in ["0", "-0", "12", "-3.25", "1e9", "2E-3", "4.5e+10"] {
        let t = format!("{{\"messageType\":\"register\",\"data\":\"a\",\"x\":{}}}", good);
        assert_eq!(decode(&t), Ok(Envelope::Register { name: "a".to_string() }), "{}", good);
    }
    for bad in ["-", "1-2", "01", "1.", ".5", "1e", "1e+", "+1", "--1"] {
        let t = format!("{{\"messageType\":\"register\",\"data\":\"a\",\"x\":{}}}", bad);
        assert_eq!(decode(&t), Err(DecodeError::Syntax), "{}", bad);
    }
}

#[test]
fn backspace_and_form_feed_use_short_escapes() {
    let t = encode(&Envelope::Register { name: "\u{8}\u{c}".to_string() });
    assert_eq!(t, "{\"messageType\":\"register\",\"data\":\"\\b\\f\"}");
    assert_eq!(decode(&t), Ok(Envelope::Register { name: "\u{8}\u{c}".to_string() }));
}
