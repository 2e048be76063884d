use trovochat::irc::{decode, decode_one, IrcMessage};
use trovochat::messages::{
    parse_emotes, Cap, ClearChat, ClearMsg, GlobalUserState, HostTarget, IrcReady, Join, Message, MessageError,
    Mode, ModeStatus, Names, Notice, Part, Ping, Privmsg, Reconnect, RoomState, UserNotice,
    UserState,
};
use trovochat::trovo::{BadgeKind, RGB};

fn one(input: &str) -> IrcMessage {
    decode_one(input).expect("a frame").1
}

#[test]
fn global_user_state() {
    let input = "@badge-info=;badges=;color=#FF69B4;display-name=shaken_bot;emote-sets=0;user-id=241015868;user-type= :tmi.trovo.tv GLOBALUSERSTATE\r\n";
    for msg in decode(input).into_iter().map(|s| s.unwrap()) {
        let msg = GlobalUserState::from_irc(msg).unwrap();

        assert_eq!(msg.user_id, "241015868");
        assert_eq!(msg.user_id(), "241015868");

        assert_eq!(msg.display_name.as_ref().unwrap(), "shaken_bot");
        assert_eq!(msg.display_name().unwrap(), "shaken_bot");

        let color = RGB::from_hex("#FF69B4");
        assert_eq!(msg.color, color);
        assert_eq!(msg.color(), color);

        assert_eq!(msg.emote_sets(), vec!["0"]);
    }
}

#[test]
fn global_user_state_requires_user_id() {
    let err = GlobalUserState::from_irc(one(":tmi.trovo.tv GLOBALUSERSTATE\r\n")).unwrap_err();
    assert_eq!(err, MessageError::ExpectedTag { name: "user-id".to_string() });
    let err = GlobalUserState::from_irc(one("@user-id=1;color=nope :tmi.trovo.tv GLOBALUSERSTATE\r\n")).unwrap_err();
    assert_eq!(err, MessageError::CannotParseTag { name: "color".to_string() });
    let ok = GlobalUserState::from_irc(one("@user-id=1;color=;badges=moderator/1,custom/2,bad :tmi.trovo.tv GLOBALUSERSTATE\r\n")).unwrap();
    assert_eq!(ok.color(), RGB(255, 255, 255));
    let badges = ok.badges();
    assert_eq!(badges.len(), 2);
    assert_eq!(badges[0].kind, BadgeKind::Moderator);
    assert_eq!(badges[0].data, "1");
    assert_eq!(badges[1].kind, BadgeKind::Unknown("custom".to_string()));
    assert_eq!(ok.emote_sets(), vec!["0"]);
    let named = GlobalUserState::from_irc(one("@user-id=1;color=hot_pink :tmi.trovo.tv GLOBALUSERSTATE\r\n"));
    assert_eq!(named.unwrap().color, RGB(0xFF, 0x69, 0xB4));
}

#[test]
fn cap_acknowledged() {
    let input = ":tmi.trovo.tv CAP * ACK :trovo.tv/membership\r\n\
                 :tmi.trovo.tv CAP * ACK :trovo.tv/tags\r\n\
                 :tmi.trovo.tv CAP * ACK :trovo.tv/commands\r\n";
    let expected = &["trovo.tv/membership", "trovo.tv/tags", "trovo.tv/commands"];
    let msgs = decode(input);
    assert_eq!(msgs.len(), 3);
    for (msg, expected) in msgs.into_iter().map(|s| s.unwrap()).zip(expected) {
        let msg = Cap::from_irc(msg).unwrap();
        assert!(msg.acknowledged());
        assert_eq!(msg.capability(), *expected);
    }
}

#[test]
fn cap_failed() {
    let input = ":tmi.trovo.tv CAP * NAK :foobar\r\n";
    for msg in decode(input).into_iter().map(|s| s.unwrap()) {
        let cap = Cap::from_irc(msg).unwrap();
        assert!(!cap.acknowledged());
        assert_eq!(cap.capability(), "foobar");
    }
}

#[test]
fn cap_ack_scenario() {
    let cap = Cap::from_irc(one(":tmi.trovo.tv CAP * ACK :trovo.tv/tags\r\n")).unwrap();
    assert_eq!(cap.capability(), "trovo.tv/tags");
    assert!(cap.acknowledged());
}

#[test]
fn clear_chat() {
    let input = ":tmi.trovo.tv CLEARCHAT #museun :shaken_bot\r\n";
    for msg in decode(input).into_iter().map(|s| s.unwrap()) {
        let cc = ClearChat::from_irc(msg).unwrap();
        assert_eq!(cc.channel(), "#museun");
        assert_eq!(cc.name().unwrap(), "shaken_bot");
    }
}

#[test]
fn clear_chat_empty() {
    let input = ":tmi.trovo.tv CLEARCHAT #museun\r\n";
    for msg in decode(input).into_iter().map(|s| s.unwrap()) {
        let cc = ClearChat::from_irc(msg).unwrap();
        assert_eq!(cc.channel(), "#museun");
        assert!(cc.name().is_none());
    }
}

#[test]
fn clear_chat_permanent_ban_scenario() {
    let cc = ClearChat::from_irc(one(":tmi.trovo.tv CLEARCHAT #museun :shakenbot\r\n")).unwrap();
    assert_eq!(cc.channel(), "#museun");
    assert_eq!(cc.name(), Some("shakenbot"));
    assert_eq!(cc.ban_duration(), None);
    let timed = ClearChat::from_irc(one("@ban-duration=600 :tmi.trovo.tv CLEARCHAT #museun :shakenbot\r\n")).unwrap();
    assert_eq!(timed.ban_duration(), Some(600));
}

#[test]
fn irc_ready() {
    let input = ":tmi.trovo.tv 001 shaken_bot :Welcome, GLHF!\r\n";
    for irc in decode(input).into_iter().map(|s| s.unwrap()) {
        let msg = IrcReady::from_irc(irc).unwrap();
        assert_eq!(msg.nickname(), "shaken_bot")
    }
}

#[test]
fn tagged_privmsg_scenario() {
    let input = "@badge-info=;badges=;color=#FF69B4;display-name=ShakenBot;emotes=;id=abc;room-id=1;tmi-sent-ts=1580000000000;user-id=42 :shakenbot!shakenbot@shakenbot.tmi.trovo.tv PRIVMSG #museun :hello world\r\n";
    let pm = Privmsg::from_irc(one(input)).unwrap();
    assert_eq!(pm.channel(), "#museun");
    assert_eq!(pm.name(), "shakenbot");
    assert_eq!(pm.data(), "hello world");
    assert_eq!(pm.color(), RGB(0xFF, 0x69, 0xB4));
    assert_eq!(pm.display_name(), Some("ShakenBot"));
    assert_eq!(pm.user_id(), Some("42"));
    assert_eq!(pm.id(), Some("abc"));
    assert_eq!(pm.room_id(), Some("1"));
    assert_eq!(pm.bits(), None);
    assert!(pm.badges().is_empty());
    assert!(!pm.is_action());
}

#[test]
fn privmsg_action_and_default_color() {
    let pm = Privmsg::from_irc(one(":a!a@a PRIVMSG #c :\u{1}ACTION waves\u{1}\r\n")).unwrap();
    assert!(pm.is_action());
    assert_eq!(pm.color(), RGB(255, 255, 255));
    let err = Privmsg::from_irc(one(":tmi.trovo.tv PRIVMSG #c :x\r\n")).unwrap_err();
    assert_eq!(err, MessageError::ExpectedNick);
    let err = Privmsg::from_irc(one(":a!a@a PRIVMSG #c\r\n")).unwrap_err();
    assert_eq!(err, MessageError::ExpectedData);
    let err = Privmsg::from_irc(one(":a!a@a JOIN #c\r\n")).unwrap_err();
    assert_eq!(err, MessageError::ExpectedCommand);
}

#[test]
fn typed_variants_read_their_fields() {
    let j = Join::from_irc(one(":museun!museun@museun.tmi.trovo.tv JOIN #museun\r\n")).unwrap();
    assert_eq!((j.name(), j.channel()), ("museun", "#museun"));
    let p = Part::from_irc(one(":museun!museun@museun.tmi.trovo.tv PART #museun\r\n")).unwrap();
    assert_eq!((p.name(), p.channel()), ("museun", "#museun"));
    let m = Mode::from_irc(one(":jtv MODE #museun +o shaken_bot\r\n")).unwrap();
    assert_eq!((m.channel.as_str(), m.name.as_str(), m.status), ("#museun", "shaken_bot", ModeStatus::Gained));
    let m = Mode::from_irc(one(":jtv MODE #museun -o shaken_bot\r\n")).unwrap();
    assert_eq!(m.status, ModeStatus::Lost);
    assert_eq!(Mode::from_irc(one(":jtv MODE #museun +x shaken_bot\r\n")).unwrap_err(), MessageError::ExpectedArg { index: 1 });
    match Names::from_irc(one(":museun!museun@museun.tmi.trovo.tv 353 museun = #museun :shaken_bot4 shaken_bot5\r\n")).unwrap() {
        Names::Start(s) => {
            assert_eq!((s.user.as_str(), s.channel.as_str()), ("museun", "#museun"));
            assert_eq!(s.users, vec!["shaken_bot4", "shaken_bot5"]);
        }
        Names::End(_) => panic!("expected a start"),
    }
    match Names::from_irc(one(":museun!museun@museun.tmi.trovo.tv 366 museun #museun :End of /NAMES list\r\n")).unwrap() {
        Names::End(e) => assert_eq!((e.user.as_str(), e.channel.as_str()), ("museun", "#museun")),
        Names::Start(_) => panic!("expected an end"),
    }
    let c = ClearMsg::from_irc(one(":tmi.trovo.tv CLEARMSG #museun :HeyGuys\r\n")).unwrap();
    assert_eq!((c.channel(), c.message()), ("#museun", Some("HeyGuys")));
    let h = HostTarget::from_irc(one(":tmi.trovo.tv HOSTTARGET #shaken_bot #museun 1024\r\n")).unwrap();
    assert_eq!((h.source.as_str(), h.target.as_deref(), h.viewers), ("#shaken_bot", Some("#museun"), Some(1024)));
    let h = HostTarget::from_irc(one(":tmi.trovo.tv HOSTTARGET #shaken_bot :- 1024\r\n")).unwrap();
    assert_eq!((h.target.as_deref(), h.viewers), (None, Some(1024)));
    let h = HostTarget::from_irc(one(":tmi.trovo.tv HOSTARGET #shaken_bot :-\r\n")).unwrap();
    assert_eq!((h.target.as_deref(), h.viewers), (None, None));
    let n = Notice::from_irc(one(":tmi.trovo.tv NOTICE #museun :This room is no longer in slow mode.\r\n")).unwrap();
    assert_eq!(n.message(), "This room is no longer in slow mode.");
    assert!(Reconnect::from_irc(one(":tmi.trovo.tv RECONNECT\r\n")).is_ok());
    assert_eq!(RoomState::from_irc(one(":tmi.trovo.tv ROOMSTATE #museun\r\n")).unwrap().channel(), "#museun");
    let u = UserNotice::from_irc(one(":tmi.trovo.tv USERNOTICE #museun :hi\r\n")).unwrap();
    assert_eq!(u.message(), Some("hi"));
    assert_eq!(UserState::from_irc(one(":tmi.trovo.tv USERSTATE #museun\r\n")).unwrap().channel(), "#museun");
    assert_eq!(Ping::from_irc(one("PING :tmi.trovo.tv\r\n")).unwrap().token(), "tmi.trovo.tv");
}

#[test]
fn message_parse_falls_back_to_raw() {
    assert!(matches!(Message::parse(one("PING :x\r\n")), Message::Ping(_)));
    assert!(matches!(Message::parse(one(":a!a@a PRIVMSG #c :x\r\n")), Message::Privmsg(_)));
    assert!(matches!(Message::parse(one("PING\r\n")), Message::Raw(_)));
    assert!(matches!(Message::parse(one("FOOBAR a b\r\n")), Message::Raw(_)));
}

#[test]
fn emote_ranges() {
    let e = parse_emotes("25:0-4,12-16/1902:6-10");
    assert_eq!(e.len(), 2);
    assert_eq!(e[0].id, "25");
    assert_eq!(e[0].ranges, vec![(0, 4), (12, 16)]);
    assert_eq!(e[1].id, "1902");
    assert_eq!(e[1].ranges, vec![(6, 10)]);
    let skipped = parse_emotes("bad/7:x-1/8:1-2");
    assert_eq!(skipped.len(), 1);
    assert_eq!(skipped[0].id, "8");
    let pm = Privmsg::from_irc(one("@emotes=25:0-4 :a!a@a PRIVMSG #c :Kappa\r\n")).unwrap();
    assert_eq!(pm.emotes()[0].ranges, vec![(0, 4)]);
    let none = Privmsg::from_irc(one(":a!a@a PRIVMSG #c :Kappa\r\n")).unwrap();
    assert!(none.emotes().is_empty());
}
