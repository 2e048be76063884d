use trovochat::irc::{decode, decode_one, IrcMessage, ParseError};
use trovochat::line::Message;

fn one(input: &str) -> IrcMessage {
    decode_one(input).expect("a frame").1
}

#[test]
fn parse_empty_data() {
    assert!(Message::parse("").is_none());
    assert!(Message::parse("            ").is_none());
}

#[test]
fn line_classifies_ping_and_ready() {
    match Message::parse("PING :tmi.trovo.tv\r\n") {
        Some(Message::Ping { token }) => assert_eq!(token, "tmi.trovo.tv"),
        other => panic!("unexpected: {:?}", other),
    }
    match Message::parse(":tmi.trovo.tv 376 shaken_bot :>") {
        Some(Message::Ready { name }) => assert_eq!(name, "shaken_bot"),
        other => panic!("unexpected: {:?}", other),
    }
    match Message::parse(":tmi.trovo.tv CAP * NAK :foobar") {
        Some(Message::Cap { acknowledge, cap }) => {
            assert!(!acknowledge);
            assert_eq!(cap, "foobar");
        }
        other => panic!("unexpected: {:?}", other),
    }
}

#[test]
fn decode_one_single_and_next_offset() {
    let input = ":test!test@test JOIN #museun\r\n";
    let (pos, msg) = decode_one(input).unwrap();
    assert_eq!(pos, 0);
    assert_eq!(msg.raw(), input);
    assert_eq!(msg.prefix(), Some("test!test@test"));
    assert_eq!(msg.nick(), Some("test"));
    assert_eq!(msg.command(), "JOIN");
    assert_eq!(msg.arg(0), Some("#museun"));
    assert_eq!(msg.arg_count(), 1);
    assert_eq!(msg.data(), None);

    let input = ":test!test@test JOIN #museun\r\n:test!test@test JOIN #shaken_bot\r\n";
    let (pos, msg) = decode_one(input).unwrap();
    assert_eq!(pos, 30);
    assert_eq!(msg.arg(0), Some("#museun"));
    let (pos, msg) = decode_one(&input[pos..]).unwrap();
    assert_eq!(pos, 0);
    assert_eq!(msg.arg(0), Some("#shaken_bot"));
}

#[test]
fn decode_all_frames_in_order() {
    let input = ":a!a@a JOIN #x\r\n:b!b@b PART #y\r\n:c";
    let out = decode(input);
    assert_eq!(out.len(), 3);
    assert_eq!(out[0].as_ref().unwrap().command(), "JOIN");
    assert_eq!(out[1].as_ref().unwrap().command(), "PART");
    assert_eq!(out[2].as_ref().unwrap_err(), &ParseError::Incomplete);
}

#[test]
fn decode_errors() {
    assert_eq!(decode_one("PING :x").unwrap_err(), ParseError::Incomplete);
    assert_eq!(decode_one("\r\n").unwrap_err(), ParseError::EmptyCommand);
    assert_eq!(decode_one(":prefix \r\n").unwrap_err(), ParseError::EmptyCommand);
    assert_eq!(decode_one("@=v CMD\r\n").unwrap_err(), ParseError::MalformedTags);
    assert_eq!(decode_one("@a=1;;b=2 CMD\r\n").unwrap_err(), ParseError::MalformedTags);
}

#[test]
fn decoding_is_total_with_crlf() {
    for input in ["\r\n", "@\r\n", ": \r\n", "@ :\r\n", "x\r\ny", " :\r\n", "@a :b c\r\n", "\u{1}\r\n"] {
        match decode_one(input) {
            Ok(_) => {}
            Err(e) => assert_ne!(e, ParseError::Incomplete, "{:?}", input),
        }
    }
}

#[test]
fn tags_last_wins_and_empty_values() {
    let msg = one("@a=1;b=;c;a=2 :n!u@h PRIVMSG #c :hi there\r\n");
    assert_eq!(msg.tag_count(), 4);
    assert_eq!(msg.tag("a"), Some("2"));
    assert_eq!(msg.tag("b"), Some(""));
    assert_eq!(msg.tag("c"), Some(""));
    assert_eq!(msg.tag("A"), None);
    assert_eq!(msg.data(), Some("hi there"));
}

#[test]
fn trailing_data_keeps_spaces_and_colons() {
    let msg = one("PRIVMSG #c a b :x :y  z\r\n");
    assert_eq!(msg.arg_count(), 3);
    assert_eq!(msg.arg(2), Some("b"));
    assert_eq!(msg.data(), Some("x :y  z"));
    let msg = one("PRIVMSG #c :\r\n");
    assert_eq!(msg.data(), Some(""));
}

#[test]
fn server_prefix_has_no_nick() {
    let msg = one(":tmi.trovo.tv CAP * ACK :trovo.tv/tags\r\n");
    assert_eq!(msg.prefix(), Some("tmi.trovo.tv"));
    assert_eq!(msg.nick(), None);
}

#[test]
fn encode_of_decode_reproduces_frame() {
    for frame in [
        "@badge-info=;badges=;color=#FF69B4 :shakenbot!shakenbot@shakenbot.tmi.trovo.tv PRIVMSG #museun :hello world\r\n",
        "PING :tmi.trovo.tv\r\n",
        ":tmi.trovo.tv 001 shaken_bot :Welcome, GLHF!\r\n",
        "RECONNECT\r\n",
        ":jtv MODE #museun +o shaken_bot\r\n",
    ] {
        let msg = one(frame);
        let mut out = String::new();
        msg.encode(&mut out);
        assert_eq!(out, frame);
    }
}
