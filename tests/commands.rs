use trovochat::commands::{
    emote_only, join, part, ping, pong, privmsg, raid, raw, slow, to_wire, unmod, vips, whisper,
    Unmod, Vips,
};

#[test]
fn raid_encode() {
    assert_eq!(to_wire(&raid("#museun", "#museun")), "PRIVMSG #museun :/raid #museun\r\n");
}

#[test]
fn slow_encode() {
    assert_eq!(to_wire(&slow("#museun", Some(42))), "PRIVMSG #museun :/slow 42\r\n");
    assert_eq!(to_wire(&slow("#museun", 42)), "PRIVMSG #museun :/slow 42\r\n");
    assert_eq!(to_wire(&slow("#museun", None)), "PRIVMSG #museun :/slow 120\r\n");
}

#[test]
fn unmod_encode() {
    assert_eq!(to_wire(&unmod("#museun", "museun")), "PRIVMSG #museun :/unmod museun\r\n");
    assert_eq!(to_wire(&Unmod::new("#museun", "museun")), "PRIVMSG #museun :/unmod museun\r\n");
}

#[test]
fn vips_encode() {
    assert_eq!(to_wire(&vips("#museun")), "PRIVMSG #museun :/vips\r\n");
    assert_eq!(to_wire(&Vips::new("#museun")), "PRIVMSG #museun :/vips\r\n");
}

#[test]
fn basic_commands_encode() {
    assert_eq!(to_wire(&emote_only("#museun")), "PRIVMSG #museun :/emoteonly\r\n");
    assert_eq!(to_wire(&join("museun")), "JOIN #museun\r\n");
    assert_eq!(to_wire(&join("#museun")), "JOIN #museun\r\n");
    assert_eq!(to_wire(&part("museun")), "PART #museun\r\n");
    assert_eq!(to_wire(&ping("abc")), "PING :abc\r\n");
    assert_eq!(to_wire(&pong("tmi.trovo.tv")), "PONG :tmi.trovo.tv\r\n");
    assert_eq!(to_wire(&privmsg("#museun", "hello world")), "PRIVMSG #museun :hello world\r\n");
    assert_eq!(to_wire(&whisper("museun", "hi")), "PRIVMSG jtv :/w museun hi\r\n");
    assert_eq!(to_wire(&raw("PING :x")), "PING :x\r\n");
    assert_eq!(to_wire(&raw("PING :x\r\n")), "PING :x\r\n");
    assert_eq!(to_wire(&slow("#c", 0)), "PRIVMSG #c :/slow 0\r\n");
    assert_eq!(to_wire(&slow("#c", u64::MAX)), "PRIVMSG #c :/slow 18446744073709551615\r\n");
}
