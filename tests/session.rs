use std::sync::Arc;

use trovochat::client::{registration_lines, run_step, Client};
use trovochat::dispatcher::{Dispatcher, EventMap, WaitFor};
use trovochat::irc::{decode_one, IrcMessage};
use trovochat::messages::{EventKind, Message};
use trovochat::rate::{Pacer, RateClass, RateLimit};
use trovochat::runner::{auto_reply, Control, LineBuffer, Session, Status, Writer};
use trovochat::trovo::{
    trovo_colors, Badge, BadgeKind, Capability, Error, Token, TokenGen, Trovo, UserConfig, RGB,
};

fn one(input: &str) -> IrcMessage {
    decode_one(input).expect("a frame").1
}

#[test]
fn parse_bad_auth() {
    let input = ":tmi.trovo.tv NOTICE * :Improperly formatted auth\r\n";
    let (tx, _rx) = async_channel::unbounded::<String>();
    let mut client = Client::new(Writer::new(tx));
    let err = client.read_message(one(input)).unwrap_err();
    if let Error::InvalidRegistration = err {
        return;
    }
    panic!("unexpected error: {:?}", err)
}

#[test]
fn registration_sends_caps_pass_nick() {
    let config = UserConfig {
        token: "oauth:abc".to_string(),
        nick: "museun".to_string(),
        caps: vec![Capability::Membership, Capability::Tags],
    };
    assert_eq!(
        registration_lines(&config),
        vec![
            "CAP REQ :trovo.tv/membership\r\n",
            "CAP REQ :trovo.tv/tags\r\n",
            "PASS oauth:abc\r\n",
            "NICK museun\r\n"
        ]
    );
    let (tx, rx) = async_channel::unbounded::<String>();
    let mut client = Client::new(Writer::new(tx));
    client.register(&config).unwrap();
    assert_eq!(rx.try_recv().unwrap(), "CAP REQ :trovo.tv/membership\r\n");
    drop(rx);
    assert_eq!(client.register(&config).unwrap_err(), Error::ClientDisconnected);
}

#[test]
fn client_records_caps_nick_and_identity() {
    let (tx, _rx) = async_channel::unbounded::<String>();
    let mut client = Client::new(Writer::new(tx));
    client.read_message(one(":tmi.trovo.tv CAP * ACK :trovo.tv/tags\r\n")).unwrap();
    client.read_message(one(":tmi.trovo.tv CAP * ACK :trovo.tv/commands\r\n")).unwrap();
    assert_eq!(client.wait_for_irc_ready(), None);
    client.read_message(one(":tmi.trovo.tv 001 shaken_bot :Welcome, GLHF!\r\n")).unwrap();
    assert_eq!(client.nickname().as_deref(), Some("shaken_bot"));
    client.read_message(one(":tmi.trovo.tv 376 shaken_bot :>\r\n")).unwrap();
    assert_eq!(client.wait_for_irc_ready().as_deref(), Some("shaken_bot"));
    assert!(client.wait_for_ready().is_none());
    client
        .read_message(one("@color=#FF69B4;display-name=shaken_bot;emote-sets=0,33;user-id=241015868 :tmi.trovo.tv GLOBALUSERSTATE\r\n"))
        .unwrap();
    let user = client.wait_for_ready().unwrap();
    assert_eq!(user.user_id, 241015868);
    assert_eq!(user.display_name.as_deref(), Some("shaken_bot"));
    assert_eq!(user.emote_sets, vec![0, 33]);
    assert_eq!(user.caps, vec![Capability::Tags, Capability::Commands]);
    assert_eq!(user.color, Some(RGB(0xFF, 0x69, 0xB4)));
    let a = client.on(EventKind::Privmsg);
    let b = client.on(EventKind::Join);
    let h = client.handler();
    assert_ne!(a, b);
    assert_eq!(client.targets(EventKind::Privmsg), vec![a, h]);
    assert_eq!(client.targets(EventKind::Join), vec![b, h]);
    assert_eq!(client.targets(EventKind::Part), vec![h]);
    assert!(client.off(a));
    assert!(!client.off(a));
    assert_eq!(client.targets(EventKind::Privmsg), vec![h]);
    assert!(client.remove_handler(h));
    assert!(!client.remove_handler(h));
    assert!(client.off(b));
    assert!(client.targets(EventKind::Join).is_empty());
}

#[test]
fn ping_auto_pong_scenario() {
    let msg = Message::parse(one("PING :tmi.trovo.tv\r\n"));
    assert_eq!(auto_reply(&msg).as_deref(), Some("PONG :tmi.trovo.tv\r\n"));
    let other = Message::parse(one(":a!a@a PRIVMSG #c :PING\r\n"));
    assert_eq!(auto_reply(&other), None);
}

#[test]
fn line_buffer_keeps_partial_frames() {
    let mut buf = LineBuffer::new();
    assert!(buf.push("PING :a\r\nPI").len() == 1);
    let out = buf.push("NG :b\r");
    assert!(out.is_empty());
    let out = buf.push("\n");
    assert_eq!(out.len(), 1);
    assert_eq!(out[0].as_ref().unwrap().data(), Some("b"));
}

#[test]
fn session_status_is_one_way() {
    let mut s = Session::new(0, 1000);
    assert_eq!(s.on_tick(999), None);
    assert_eq!(s.on_read("PING :x\r\n", 500).len(), 1);
    assert_eq!(s.on_tick(1499), None);
    assert_eq!(s.on_tick(1500), Some(Status::Timeout));
    assert_eq!(s.on_quit(), Status::Timeout);
    assert!(s.on_read("PING :y\r\n", 1600).is_empty());
    let mut q = Session::new(0, 1000);
    assert_eq!(q.on_quit(), Status::Canceled);
    assert_eq!(q.on_quit(), Status::Canceled);
    let mut e = Session::new(0, 1000);
    assert!(e.on_read("", 1).is_empty());
    assert_eq!(e.status(), Some(Status::Eof));
}

#[test]
fn control_stop_is_idempotent() {
    let (tx, rx) = async_channel::unbounded::<String>();
    let (qtx, qrx) = async_channel::unbounded::<()>();
    let mut control = Control::new(Writer::new(tx), qtx);
    control.writer().send_line("PING :x\r\n".to_string()).unwrap();
    assert_eq!(rx.try_recv().unwrap(), "PING :x\r\n");
    control.stop();
    control.stop();
    assert!(qrx.is_closed());
}

#[test]
fn fan_out_reaches_each_subscriber_once() {
    let mut d = Dispatcher::new();
    let a = d.subscribe(EventKind::Privmsg);
    let b = d.subscribe(EventKind::Privmsg);
    let c = d.subscribe(EventKind::Privmsg);
    let all = d.subscribe(EventKind::All);
    let raw = d.subscribe(EventKind::Raw);
    let join = d.subscribe(EventKind::Join);
    drop(c);
    let report = d.dispatch(one(":a!a@a PRIVMSG #c :hello\r\n"));
    assert_eq!(report.kind, EventKind::Privmsg);
    assert_eq!(report.primary, vec![true, true, false]);
    assert_eq!(report.all, vec![true]);
    assert_eq!(report.raw, vec![true]);
    assert!(matches!(&*report.message, Message::Privmsg(p) if p.data == "hello"));
    assert!(matches!(&*report.frame, Message::Raw(_)));
    for rx in [&a, &b, &all] {
        assert!(Arc::ptr_eq(&rx.try_recv().unwrap(), &report.message));
        assert!(rx.try_recv().is_err());
    }
    assert!(Arc::ptr_eq(&raw.try_recv().unwrap(), &report.frame));
    assert!(join.try_recv().is_err());
    assert_eq!(d.count_subscribers(EventKind::Privmsg), 2);
}

#[test]
fn clear_all_keeps_internal_subscriptions() {
    let mut d = Dispatcher::new();
    let _a = d.subscribe(EventKind::Privmsg);
    let _b = d.subscribe(EventKind::Raw);
    let internal = d.subscribe_internal(EventKind::Ping, true);
    assert_eq!(d.count_subscribers_all(), 2);
    assert_eq!(d.clear_subscriptions_all(), 2);
    assert_eq!(d.count_subscribers_all(), 0);
    let report = d.dispatch(one("PING :x\r\n"));
    assert_eq!(report.primary, vec![true]);
    assert!(matches!(&*internal.try_recv().unwrap(), Message::Ping(_)));
    d.reset();
    let report = d.dispatch(one("PING :x\r\n"));
    assert!(report.primary.is_empty());
}

#[test]
fn clear_one_kind() {
    let mut d = Dispatcher::new();
    let _a = d.subscribe(EventKind::Join);
    let _b = d.subscribe(EventKind::Join);
    let _c = d.subscribe(EventKind::Part);
    assert_eq!(d.clear_subscriptions(EventKind::Join), 2);
    assert_eq!(d.count_subscribers(EventKind::Join), 0);
    assert_eq!(d.count_subscribers(EventKind::Part), 1);
}

#[test]
fn wait_for_cache_scenario() {
    let mut d = Dispatcher::new();
    let rx = match d.wait_for(EventKind::IrcReady) {
        WaitFor::Pending(rx) => rx,
        WaitFor::Cached(_) => panic!("nothing was seen yet"),
    };
    d.dispatch(one(":tmi.trovo.tv 001 shaken_bot :Welcome, GLHF!\r\n"));
    let first = rx.try_recv().unwrap();
    let kept = d.remember(EventKind::IrcReady, first.clone());
    assert!(Arc::ptr_eq(&kept, &first));
    let subs = d.count_subscribers(EventKind::IrcReady);
    for _ in 0..2 {
        match d.wait_for(EventKind::IrcReady) {
            WaitFor::Cached(m) => assert!(Arc::ptr_eq(&m, &first)),
            WaitFor::Pending(_) => panic!("the first message is cached"),
        }
    }
    assert_eq!(d.count_subscribers(EventKind::IrcReady), subs);
    let later = Arc::new(Message::parse(one(":tmi.trovo.tv 001 other :x\r\n")));
    assert!(Arc::ptr_eq(&d.remember(EventKind::IrcReady, later), &first));
}

#[test]
fn event_map_registers_and_counts() {
    let mut m = EventMap::new();
    let _a = m.register(EventKind::Join, false);
    let _b = m.register(EventKind::Join, true);
    let _c = m.register(EventKind::Part, false);
    assert_eq!(m.active(EventKind::Join), 2);
    assert_eq!(m.active(EventKind::Whisper), 0);
    let ids: Vec<usize> = m.get(EventKind::Join).into_iter().map(|i| i.0).collect();
    assert_eq!(ids, vec![0, 1]);
}

#[test]
fn rate_limit_pacing_scenario() {
    let mut r = RateLimit::from_class(RateClass::Regular, 0);
    for t in 0..20u64 {
        assert_eq!(r.take(1, t * 10), Ok(()));
    }
    for t in 20..25u64 {
        assert_eq!(r.take(1, t * 10), Err(30000));
    }
    assert_eq!(r.take(1, 29999), Err(30000));
    for t in 0..5u64 {
        assert_eq!(r.take(1, 30000 + t), Ok(()));
    }
    assert_eq!(r.tokens(), 15);
}

#[test]
fn rate_limit_window_bound() {
    let mut r = RateLimit::new(3, 100, 3, 1000);
    let mut ok = 0;
    for t in [1100u64, 1150, 1120, 1199, 1101, 1150] {
        if r.take(1, t).is_ok() {
            ok += 1;
        }
    }
    assert_eq!(ok, 3);
    assert_eq!(r.take(1, 1200), Ok(()));
    assert_eq!(RateClass::Moderator.capacity(), 100);
    assert_eq!(RateClass::Known.capacity(), 50);
    assert_eq!(RateClass::Verified.capacity(), 7500);
}

#[test]
fn colors_and_badges() {
    assert_eq!(RGB::from_hex("#FF69B4"), RGB(0xFF, 0x69, 0xB4));
    assert_eq!(RGB::from_hex("ff69b4"), RGB(0xFF, 0x69, 0xB4));
    assert_eq!(RGB::from_hex("#GG0000"), RGB(255, 255, 255));
    assert_eq!(RGB::from_hex("#FFF"), RGB(255, 255, 255));
    let c = RGB(1, 2, 3);
    assert_eq!((c.red(), c.green(), c.blue()), (1, 2, 3));
    assert_eq!(Trovo::from_name("blue violet"), Trovo::BlueViolet);
    assert_eq!(Trovo::from_name("#010203"), Trovo::Turbo(RGB(1, 2, 3)));
    assert_eq!(Trovo::HotPink.rgb(), RGB(0xFF, 0x69, 0xB4));
    assert_eq!(Trovo::from_rgb(RGB(0xFF, 0, 0)), Trovo::Red);
    assert_eq!(Trovo::from_rgb(RGB(1, 1, 1)), Trovo::Turbo(RGB(1, 1, 1)));
    let table = trovo_colors();
    assert_eq!(table.len(), 15);
    assert_eq!(table[0], (Trovo::Blue, RGB(0, 0, 0xFF)));
    let b = Badge::parse("subscriber/12").unwrap();
    assert_eq!(b.kind, BadgeKind::Subscriber);
    assert_eq!(b.data, "12");
    assert_eq!(Badge::parse("x/1/2").unwrap().data, "1");
    assert!(Badge::parse("broadcaster").is_none());
    assert_eq!(Capability::Tags.encode_as_str(), "CAP REQ :trovo.tv/tags");
    assert_eq!(Capability::ChatRooms.encode_as_str(), "CAP REQ :trovo.tv/tags trovo.tv/commands");
    let mut g = TokenGen(usize::MAX);
    assert_eq!(g.next(), Token(usize::MAX));
    assert_eq!(g.next(), Token(0));
}

#[test]
fn display_text_and_builder() {
    assert_eq!(RGB(0xFF, 0x69, 0xB4).to_hex(), "#FF69B4");
    assert_eq!(RGB(0, 0x0A, 0xF0).to_hex(), "#000AF0");
    assert_eq!(Trovo::HotPink.name(), "HotPink");
    assert_eq!(Trovo::Turbo(RGB(1, 2, 3)).name(), "#010203");
    assert_eq!(Error::InvalidRegistration.describe(), "invalid registration. check the `token` and `nick`");
    assert!(UserConfig::builder().nick("museun").build().is_none());
    let config = UserConfig::builder().token("oauth:x").nick("museun").tags().build().unwrap();
    assert_eq!(config.nick, "museun");
    assert_eq!(config.token, "oauth:x");
    assert_eq!(config.caps, vec![Capability::Membership, Capability::Commands]);
    let again = UserConfig::builder().token("t").nick("n").tags().tags().build().unwrap();
    assert_eq!(again.caps, vec![Capability::Membership, Capability::Commands, Capability::Tags]);
}

#[test]
fn ready_without_needed_caps_fails() {
    let (tx, _rx) = async_channel::unbounded::<String>();
    let mut client = Client::new(Writer::new(tx));
    client.read_message(one(":tmi.trovo.tv CAP * ACK :trovo.tv/tags\r\n")).unwrap();
    let err = client.read_message(one(":tmi.trovo.tv 376 shaken_bot :>\r\n")).unwrap_err();
    assert_eq!(err, Error::CapabilityRequired(vec![Capability::Commands]));
    let mut bare = Client::new(Writer::new(async_channel::unbounded::<String>().0));
    let err = bare.read_message(one(":tmi.trovo.tv 376 shaken_bot :>\r\n")).unwrap_err();
    assert_eq!(err, Error::CapabilityRequired(vec![Capability::Tags, Capability::Commands]));
    assert_eq!(run_step(Err(Error::InvalidMessage("x".to_string()))), None);
    assert_eq!(run_step(Err(Error::CannotRead)), Some(Error::CannotRead));
    assert_eq!(run_step(Ok(Message::parse(one("PING :x\r\n")))), None);
}

#[test]
fn pacer_keeps_order_and_drops_nothing() {
    let mut p = Pacer::new(RateLimit::from_class(RateClass::Regular, 0));
    for i in 0..25 {
        p.push(format!("PRIVMSG #c :{}\r\n", i));
    }
    let mut sent = Vec::new();
    for t in 0..25u64 {
        match p.poll(t) {
            Ok(line) => sent.push(line),
            Err(at) => {
                assert_eq!(at, Some(30000));
                break;
            }
        }
    }
    assert_eq!(sent.len(), 20);
    while let Ok(line) = p.poll(30000) {
        sent.push(line);
    }
    assert!(p.is_idle());
    assert_eq!(p.poll(30001), Err(None));
    let expected: Vec<String> = (0..25).map(|i| format!("PRIVMSG #c :{}\r\n", i)).collect();
    assert_eq!(sent, expected);
}

#[test]
fn io_error_ends_with_io() {
    let mut s = Session::new(0, 1000);
    assert_eq!(s.on_io_error(), Status::Io);
    assert_eq!(s.on_quit(), Status::Io);
}

#[test]
fn hex_ignores_surrounding_whitespace() {
    assert_eq!(RGB::from_hex(" #000000"), RGB(0, 0, 0));
    assert_eq!(RGB::from_hex("\tff69b4\r\n"), RGB(0xFF, 0x69, 0xB4));
    for c in [RGB(1, 2, 3), RGB(0xFF, 0x69, 0xB4), RGB(0, 0, 0)] {
        assert_eq!(RGB::from_hex(&c.to_hex()), c);
        assert_eq!(RGB::from_hex(&c.to_hex().to_lowercase()), c);
        assert_eq!(RGB::from_hex(&c.to_hex()[1..]), c);
        assert_eq!(RGB::from_hex(&format!("  {}  ", c.to_hex())), c);
    }
}
