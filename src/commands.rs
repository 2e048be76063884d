//! Outbound commands and their wire form.
use vstd::prelude::*;

use crate::text::to_chars;

verus! {

/// A value with a wire form.
pub trait Encodable {
    /// The text that `encode` writes.
    spec fn encoded(&self) -> Seq<char>;

    /// Appends the wire form to `buf`.
    fn encode(&self, buf: &mut String)
        ensures
            final(buf)@ == old(buf)@ + self.encoded(),
    ;
}

/// The character of a decimal digit.
pub open spec fn digit_char(d: nat) -> char {
    if d == 0 { '0' } else if d == 1 { '1' } else if d == 2 { '2' } else if d == 3 { '3' }
    else if d == 4 { '4' } else if d == 5 { '5' } else if d == 6 { '6' } else if d == 7 { '7' }
    else if d == 8 { '8' } else { '9' }
}

/// The decimal digits of `n`, without leading zeros.
pub open spec fn decimal_text(n: nat) -> Seq<char>
    decreases n,
{
    if n < 10 {
        seq![digit_char(n)]
    } else {
        decimal_text(n / 10) + seq![digit_char(n % 10)]
    }
}

fn digit_str(d: u64) -> (r: &'static str)
    requires
        d < 10,
    ensures
        r@ == seq![digit_char(d as nat)],
{
    proof {
        reveal_strlit("0");
        reveal_strlit("1");
        reveal_strlit("2");
        reveal_strlit("3");
        reveal_strlit("4");
        reveal_strlit("5");
        reveal_strlit("6");
        reveal_strlit("7");
        reveal_strlit("8");
        reveal_strlit("9");
    }
    let r = if d == 0 { "0" } else if d == 1 { "1" } else if d == 2 { "2" } else if d == 3 { "3" }
    else if d == 4 { "4" } else if d == 5 { "5" } else if d == 6 { "6" } else if d == 7 { "7" }
    else if d == 8 { "8" } else { "9" };
    assert(r@ =~= seq![digit_char(d as nat)]);
    r
}

/// Appends the decimal digits of `n`.
pub fn push_decimal(buf: &mut String, n: u64)
    ensures
        final(buf)@ == old(buf)@ + decimal_text(n as nat),
    decreases n,
{
    if n >= 10 {
        push_decimal(buf, n / 10);
    }
    buf.append(digit_str(n % 10));
    assert(final(buf)@ =~= old(buf)@ + decimal_text(n as nat));
}

/// `PRIVMSG <channel> :<verb>[ <arg>]` and CRLF: how a chat command is sent.
pub open spec fn chat_command(channel: Seq<char>, verb: Seq<char>, arg: Option<Seq<char>>) -> Seq<char> {
    "PRIVMSG "@ + channel + " :"@ + verb + match arg {
        Some(a) => " "@ + a,
        None => Seq::empty(),
    } + "\r\n"@
}

fn write_chat_command(buf: &mut String, channel: &str, verb: &str, arg: Option<&str>)
    ensures
        final(buf)@ == old(buf)@ + chat_command(channel@, verb@, match arg {
            Some(a) => Some(a@),
            None => None,
        }),
{
    buf.append("PRIVMSG ");
    buf.append(channel);
    buf.append(" :");
    buf.append(verb);
    if let Some(a) = arg {
        buf.append(" ");
        buf.append(a);
    }
    buf.append("\r\n");
    assert(final(buf)@ =~= old(buf)@ + chat_command(channel@, verb@, match arg {
        Some(a) => Some(a@),
        None => None,
    }));
}

/// `channel` with a leading `#`, added when it is missing.
pub open spec fn hashed(channel: Seq<char>) -> Seq<char> {
    if channel.len() > 0 && channel[0] == '#' {
        channel
    } else {
        "#"@ + channel
    }
}

fn append_hashed(buf: &mut String, channel: &str)
    ensures
        final(buf)@ == old(buf)@ + hashed(channel@),
{
    let c = to_chars(channel);
    if !(c.len() > 0 && c[0] == '#') {
        buf.append("#");
    }
    buf.append(channel);
    assert(final(buf)@ =~= old(buf)@ + hashed(channel@));
}

/// `s` ends with CRLF.
pub open spec fn ends_with_crlf(s: Seq<char>) -> bool {
    s.len() >= 2 && s[s.len() - 2] == '\r' && s[s.len() - 1] == '\n'
}

/// Turns emote-only mode on.
#[derive(Debug, Clone, Copy, PartialEq, Eq, Hash)]
pub struct EmoteOnly<'a> {
    /// The channel.
    pub channel: &'a str,
}

impl<'a> EmoteOnly<'a> {
    /// The command for these values.
    pub fn new(channel: &'a str) -> (r: Self)
        ensures
            r.channel@ == channel@,
    {
        EmoteOnly { channel }
    }
}

/// Turns emote-only mode on.
pub fn emote_only<'a>(channel: &'a str) -> (r: EmoteOnly<'a>)
    ensures
        r.channel@ == channel@,
{
    EmoteOnly::new(channel)
}

impl<'a> Encodable for EmoteOnly<'a> {
    open spec fn encoded(&self) -> Seq<char> {
        chat_command(self.channel@, "/emoteonly"@, None)
    }

    fn encode(&self, buf: &mut String) {
        write_chat_command(buf, self.channel, "/emoteonly", None);
    }
}

/// Turns emote-only mode off.
#[derive(Debug, Clone, Copy, PartialEq, Eq, Hash)]
pub struct EmoteOnlyOff<'a> {
    /// The channel.
    pub channel: &'a str,
}

impl<'a> EmoteOnlyOff<'a> {
    /// The command for these values.
    pub fn new(channel: &'a str) -> (r: Self)
        ensures
            r.channel@ == channel@,
    {
        EmoteOnlyOff { channel }
    }
}

/// Turns emote-only mode off.
pub fn emote_only_off<'a>(channel: &'a str) -> (r: EmoteOnlyOff<'a>)
    ensures
        r.channel@ == channel@,
{
    EmoteOnlyOff::new(channel)
}

impl<'a> Encodable for EmoteOnlyOff<'a> {
    open spec fn encoded(&self) -> Seq<char> {
        chat_command(self.channel@, "/emoteonlyoff"@, None)
    }

    fn encode(&self, buf: &mut String) {
        write_chat_command(buf, self.channel, "/emoteonlyoff", None);
    }
}

/// Sends the viewers of `source` to `target`.
#[derive(Debug, Clone, Copy, PartialEq, Eq, Hash)]
pub struct Raid<'a> {
    /// The raiding channel.
    pub source: &'a str,
    /// The raided channel.
    pub target: &'a str,
}

impl<'a> Raid<'a> {
    /// The command for these values.
    pub fn new(source: &'a str, target: &'a str) -> (r: Self)
        ensures
            r.source@ == source@ && r.target@ == target@,
    {
        Raid { source, target }
    }
}

/// Sends the viewers of `source` to `target`.
pub fn raid<'a>(source: &'a str, target: &'a str) -> (r: Raid<'a>)
    ensures
        r.source@ == source@ && r.target@ == target@,
{
    Raid::new(source, target)
}

impl<'a> Encodable for Raid<'a> {
    open spec fn encoded(&self) -> Seq<char> {
        chat_command(self.source@, "/raid"@, Some(self.target@))
    }

    fn encode(&self, buf: &mut String) {
        write_chat_command(buf, self.source, "/raid", Some(self.target));
    }
}

/// Cancels a raid.
#[derive(Debug, Clone, Copy, PartialEq, Eq, Hash)]
pub struct Unraid<'a> {
    /// The channel.
    pub channel: &'a str,
}

impl<'a> Unraid<'a> {
    /// The command for these values.
    pub fn new(channel: &'a str) -> (r: Self)
        ensures
            r.channel@ == channel@,
    {
        Unraid { channel }
    }
}

/// Cancels a raid.
pub fn unraid<'a>(channel: &'a str) -> (r: Unraid<'a>)
    ensures
        r.channel@ == channel@,
{
    Unraid::new(channel)
}

impl<'a> Encodable for Unraid<'a> {
    open spec fn encoded(&self) -> Seq<char> {
        chat_command(self.channel@, "/unraid"@, None)
    }

    fn encode(&self, buf: &mut String) {
        write_chat_command(buf, self.channel, "/unraid", None);
    }
}

/// Takes moderator status from a user.
#[derive(Debug, Clone, Copy, PartialEq, Eq, Hash)]
pub struct Unmod<'a> {
    /// The channel.
    pub channel: &'a str,
    /// The user.
    pub username: &'a str,
}

impl<'a> Unmod<'a> {
    /// The command for these values.
    pub fn new(channel: &'a str, username: &'a str) -> (r: Self)
        ensures
            r.channel@ == channel@ && r.username@ == username@,
    {
        Unmod { channel, username }
    }
}

/// Takes moderator status from a user.
pub fn unmod<'a>(channel: &'a str, username: &'a str) -> (r: Unmod<'a>)
    ensures
        r.channel@ == channel@ && r.username@ == username@,
{
    Unmod::new(channel, username)
}

impl<'a> Encodable for Unmod<'a> {
    open spec fn encoded(&self) -> Seq<char> {
        chat_command(self.channel@, "/unmod"@, Some(self.username@))
    }

    fn encode(&self, buf: &mut String) {
        write_chat_command(buf, self.channel, "/unmod", Some(self.username));
    }
}

/// Gives moderator status to a user.
#[derive(Debug, Clone, Copy, PartialEq, Eq, Hash)]
pub struct Mod<'a> {
    /// The channel.
    pub channel: &'a str,
    /// The user.
    pub username: &'a str,
}

impl<'a> Mod<'a> {
    /// The command for these values.
    pub fn new(channel: &'a str, username: &'a str) -> (r: Self)
        ensures
            r.channel@ == channel@ && r.username@ == username@,
    {
        Mod { channel, username }
    }
}

/// Gives moderator status to a user.
pub fn mod_user<'a>(channel: &'a str, username: &'a str) -> (r: Mod<'a>)
    ensures
        r.channel@ == channel@ && r.username@ == username@,
{
    Mod::new(channel, username)
}

impl<'a> Encodable for Mod<'a> {
    open spec fn encoded(&self) -> Seq<char> {
        chat_command(self.channel@, "/mod"@, Some(self.username@))
    }

    fn encode(&self, buf: &mut String) {
        write_chat_command(buf, self.channel, "/mod", Some(self.username));
    }
}

/// Lists a channel's VIPs.
#[derive(Debug, Clone, Copy, PartialEq, Eq, Hash)]
pub struct Vips<'a> {
    /// The channel.
    pub channel: &'a str,
}

impl<'a> Vips<'a> {
    /// The command for these values.
    pub fn new(channel: &'a str) -> (r: Self)
        ensures
            r.channel@ == channel@,
    {
        Vips { channel }
    }
}

/// Lists a channel's VIPs.
pub fn vips<'a>(channel: &'a str) -> (r: Vips<'a>)
    ensures
        r.channel@ == channel@,
{
    Vips::new(channel)
}

impl<'a> Encodable for Vips<'a> {
    open spec fn encoded(&self) -> Seq<char> {
        chat_command(self.channel@, "/vips"@, None)
    }

    fn encode(&self, buf: &mut String) {
        write_chat_command(buf, self.channel, "/vips", None);
    }
}

/// Gives VIP status to a user.
#[derive(Debug, Clone, Copy, PartialEq, Eq, Hash)]
pub struct Vip<'a> {
    /// The channel.
    pub channel: &'a str,
    /// The user.
    pub username: &'a str,
}

impl<'a> Vip<'a> {
    /// The command for these values.
    pub fn new(channel: &'a str, username: &'a str) -> (r: Self)
        ensures
            r.channel@ == channel@ && r.username@ == username@,
    {
        Vip { channel, username }
    }
}

/// Gives VIP status to a user.
pub fn vip<'a>(channel: &'a str, username: &'a str) -> (r: Vip<'a>)
    ensures
        r.channel@ == channel@ && r.username@ == username@,
{
    Vip::new(channel, username)
}

impl<'a> Encodable for Vip<'a> {
    open spec fn encoded(&self) -> Seq<char> {
        chat_command(self.channel@, "/vip"@, Some(self.username@))
    }

    fn encode(&self, buf: &mut String) {
        write_chat_command(buf, self.channel, "/vip", Some(self.username));
    }
}

/// Takes VIP status from a user.
#[derive(Debug, Clone, Copy, PartialEq, Eq, Hash)]
pub struct Unvip<'a> {
    /// The channel.
    pub channel: &'a str,
    /// The user.
    pub username: &'a str,
}

impl<'a> Unvip<'a> {
    /// The command for these values.
    pub fn new(channel: &'a str, username: &'a str) -> (r: Self)
        ensures
            r.channel@ == channel@ && r.username@ == username@,
    {
        Unvip { channel, username }
    }
}

/// Takes VIP status from a user.
pub fn unvip<'a>(channel: &'a str, username: &'a str) -> (r: Unvip<'a>)
    ensures
        r.channel@ == channel@ && r.username@ == username@,
{
    Unvip::new(channel, username)
}

impl<'a> Encodable for Unvip<'a> {
    open spec fn encoded(&self) -> Seq<char> {
        chat_command(self.channel@, "/unvip"@, Some(self.username@))
    }

    fn encode(&self, buf: &mut String) {
        write_chat_command(buf, self.channel, "/unvip", Some(self.username));
    }
}

/// Bans a user.
#[derive(Debug, Clone, Copy, PartialEq, Eq, Hash)]
pub struct Ban<'a> {
    /// The channel.
    pub channel: &'a str,
    /// The user.
    pub username: &'a str,
}

impl<'a> Ban<'a> {
    /// The command for these values.
    pub fn new(channel: &'a str, username: &'a str) -> (r: Self)
        ensures
            r.channel@ == channel@ && r.username@ == username@,
    {
        Ban { channel, username }
    }
}

/// Bans a user.
pub fn ban<'a>(channel: &'a str, username: &'a str) -> (r: Ban<'a>)
    ensures
        r.channel@ == channel@ && r.username@ == username@,
{
    Ban::new(channel, username)
}

impl<'a> Encodable for Ban<'a> {
    open spec fn encoded(&self) -> Seq<char> {
        chat_command(self.channel@, "/ban"@, Some(self.username@))
    }

    fn encode(&self, buf: &mut String) {
        write_chat_command(buf, self.channel, "/ban", Some(self.username));
    }
}

/// Lifts a user's ban.
#[derive(Debug, Clone, Copy, PartialEq, Eq, Hash)]
pub struct Unban<'a> {
    /// The channel.
    pub channel: &'a str,
    /// The user.
    pub username: &'a str,
}

impl<'a> Unban<'a> {
    /// The command for these values.
    pub fn new(channel: &'a str, username: &'a str) -> (r: Self)
        ensures
            r.channel@ == channel@ && r.username@ == username@,
    {
        Unban { channel, username }
    }
}

/// Lifts a user's ban.
pub fn unban<'a>(channel: &'a str, username: &'a str) -> (r: Unban<'a>)
    ensures
        r.channel@ == channel@ && r.username@ == username@,
{
    Unban::new(channel, username)
}

impl<'a> Encodable for Unban<'a> {
    open spec fn encoded(&self) -> Seq<char> {
        chat_command(self.channel@, "/unban"@, Some(self.username@))
    }

    fn encode(&self, buf: &mut String) {
        write_chat_command(buf, self.channel, "/unban", Some(self.username));
    }
}

/// Clears the chat.
#[derive(Debug, Clone, Copy, PartialEq, Eq, Hash)]
pub struct Clear<'a> {
    /// The channel.
    pub channel: &'a str,
}

impl<'a> Clear<'a> {
    /// The command for these values.
    pub fn new(channel: &'a str) -> (r: Self)
        ensures
            r.channel@ == channel@,
    {
        Clear { channel }
    }
}

/// Clears the chat.
pub fn clear<'a>(channel: &'a str) -> (r: Clear<'a>)
    ensures
        r.channel@ == channel@,
{
    Clear::new(channel)
}

impl<'a> Encodable for Clear<'a> {
    open spec fn encoded(&self) -> Seq<char> {
        chat_command(self.channel@, "/clear"@, None)
    }

    fn encode(&self, buf: &mut String) {
        write_chat_command(buf, self.channel, "/clear", None);
    }
}

/// Changes the user's chat color.
#[derive(Debug, Clone, Copy, PartialEq, Eq, Hash)]
pub struct Color<'a> {
    /// The channel.
    pub channel: &'a str,
    /// The color's name or `#RRGGBB`.
    pub value: &'a str,
}

impl<'a> Color<'a> {
    /// The command for these values.
    pub fn new(channel: &'a str, value: &'a str) -> (r: Self)
        ensures
            r.channel@ == channel@ && r.value@ == value@,
    {
        Color { channel, value }
    }
}

/// Changes the user's chat color.
pub fn color<'a>(channel: &'a str, value: &'a str) -> (r: Color<'a>)
    ensures
        r.channel@ == channel@ && r.value@ == value@,
{
    Color::new(channel, value)
}

impl<'a> Encodable for Color<'a> {
    open spec fn encoded(&self) -> Seq<char> {
        chat_command(self.channel@, "/color"@, Some(self.value@))
    }

    fn encode(&self, buf: &mut String) {
        write_chat_command(buf, self.channel, "/color", Some(self.value));
    }
}

/// Hosts another channel.
#[derive(Debug, Clone, Copy, PartialEq, Eq, Hash)]
pub struct Host<'a> {
    /// The hosting channel.
    pub source: &'a str,
    /// The hosted channel.
    pub target: &'a str,
}

impl<'a> Host<'a> {
    /// The command for these values.
    pub fn new(source: &'a str, target: &'a str) -> (r: Self)
        ensures
            r.source@ == source@ && r.target@ == target@,
    {
        Host { source, target }
    }
}

/// Hosts another channel.
pub fn host<'a>(source: &'a str, target: &'a str) -> (r: Host<'a>)
    ensures
        r.source@ == source@ && r.target@ == target@,
{
    Host::new(source, target)
}

impl<'a> Encodable for Host<'a> {
    open spec fn encoded(&self) -> Seq<char> {
        chat_command(self.source@, "/host"@, Some(self.target@))
    }

    fn encode(&self, buf: &mut String) {
        write_chat_command(buf, self.source, "/host", Some(self.target));
    }
}

/// Stops hosting.
#[derive(Debug, Clone, Copy, PartialEq, Eq, Hash)]
pub struct Unhost<'a> {
    /// The channel.
    pub channel: &'a str,
}

impl<'a> Unhost<'a> {
    /// The command for these values.
    pub fn new(channel: &'a str) -> (r: Self)
        ensures
            r.channel@ == channel@,
    {
        Unhost { channel }
    }
}

/// Stops hosting.
pub fn unhost<'a>(channel: &'a str) -> (r: Unhost<'a>)
    ensures
        r.channel@ == channel@,
{
    Unhost::new(channel)
}

impl<'a> Encodable for Unhost<'a> {
    open spec fn encoded(&self) -> Seq<char> {
        chat_command(self.channel@, "/unhost"@, None)
    }

    fn encode(&self, buf: &mut String) {
        write_chat_command(buf, self.channel, "/unhost", None);
    }
}

/// Turns slow mode off.
#[derive(Debug, Clone, Copy, PartialEq, Eq, Hash)]
pub struct SlowOff<'a> {
    /// The channel.
    pub channel: &'a str,
}

impl<'a> SlowOff<'a> {
    /// The command for these values.
    pub fn new(channel: &'a str) -> (r: Self)
        ensures
            r.channel@ == channel@,
    {
        SlowOff { channel }
    }
}

/// Turns slow mode off.
pub fn slow_off<'a>(channel: &'a str) -> (r: SlowOff<'a>)
    ensures
        r.channel@ == channel@,
{
    SlowOff::new(channel)
}

impl<'a> Encodable for SlowOff<'a> {
    open spec fn encoded(&self) -> Seq<char> {
        chat_command(self.channel@, "/slowoff"@, None)
    }

    fn encode(&self, buf: &mut String) {
        write_chat_command(buf, self.channel, "/slowoff", None);
    }
}

/// Turns followers-only mode off.
#[derive(Debug, Clone, Copy, PartialEq, Eq, Hash)]
pub struct FollowersOff<'a> {
    /// The channel.
    pub channel: &'a str,
}

impl<'a> FollowersOff<'a> {
    /// The command for these values.
    pub fn new(channel: &'a str) -> (r: Self)
        ensures
            r.channel@ == channel@,
    {
        FollowersOff { channel }
    }
}

/// Turns followers-only mode off.
pub fn followers_off<'a>(channel: &'a str) -> (r: FollowersOff<'a>)
    ensures
        r.channel@ == channel@,
{
    FollowersOff::new(channel)
}

impl<'a> Encodable for FollowersOff<'a> {
    open spec fn encoded(&self) -> Seq<char> {
        chat_command(self.channel@, "/followersoff"@, None)
    }

    fn encode(&self, buf: &mut String) {
        write_chat_command(buf, self.channel, "/followersoff", None);
    }
}

/// Adds a stream marker.
#[derive(Debug, Clone, Copy, PartialEq, Eq, Hash)]
pub struct Marker<'a> {
    /// The channel.
    pub channel: &'a str,
}

impl<'a> Marker<'a> {
    /// The command for these values.
    pub fn new(channel: &'a str) -> (r: Self)
        ensures
            r.channel@ == channel@,
    {
        Marker { channel }
    }
}

/// Adds a stream marker.
pub fn marker<'a>(channel: &'a str) -> (r: Marker<'a>)
    ensures
        r.channel@ == channel@,
{
    Marker::new(channel)
}

impl<'a> Encodable for Marker<'a> {
    open spec fn encoded(&self) -> Seq<char> {
        chat_command(self.channel@, "/marker"@, None)
    }

    fn encode(&self, buf: &mut String) {
        write_chat_command(buf, self.channel, "/marker", None);
    }
}

/// Turns slow mode on: users wait `duration` seconds between messages.
#[derive(Debug, Clone, Copy, PartialEq, Eq, Hash)]
pub struct Slow<'a> {
    /// The channel.
    pub channel: &'a str,
    /// The wait, in seconds.
    pub duration: u64,
}

/// The wait that slow mode uses when none is given, in seconds.
pub const SLOW_DEFAULT: u64 = 120;

/// How long slow mode makes users wait: a number of seconds, or nothing
/// for the default.
pub trait SlowDuration {
    /// The wait, in seconds.
    spec fn seconds(&self) -> u64;

    /// The wait, in seconds.
    fn to_seconds(self) -> (r: u64)
        ensures
            r == self.seconds(),
    ;
}

impl SlowDuration for u64 {
    open spec fn seconds(&self) -> u64 {
        *self
    }

    fn to_seconds(self) -> (r: u64) {
        self
    }
}

impl SlowDuration for Option<u64> {
    open spec fn seconds(&self) -> u64 {
        match *self {
            Some(d) => d,
            None => SLOW_DEFAULT,
        }
    }

    fn to_seconds(self) -> (r: u64) {
        match self {
            Some(d) => d,
            None => SLOW_DEFAULT,
        }
    }
}

/// Turns slow mode on; without a duration the wait is 120 seconds.
pub fn slow<'a, D: SlowDuration>(channel: &'a str, duration: D) -> (r: Slow<'a>)
    ensures
        r.channel@ == channel@,
        r.duration == duration.seconds(),
{
    Slow { channel, duration: duration.to_seconds() }
}

impl<'a> Encodable for Slow<'a> {
    open spec fn encoded(&self) -> Seq<char> {
        chat_command(self.channel@, "/slow"@, Some(decimal_text(self.duration as nat)))
    }

    fn encode(&self, buf: &mut String) {
        buf.append("PRIVMSG ");
        buf.append(self.channel);
        buf.append(" :/slow ");
        push_decimal(buf, self.duration);
        buf.append("\r\n");
        proof {
            reveal_strlit(" :/slow ");
            reveal_strlit(" :");
            reveal_strlit("/slow");
            reveal_strlit(" ");
        }
        assert(final(buf)@ =~= old(buf)@ + self.encoded());
    }
}

/// A raw line; CRLF is added when it is missing.
#[derive(Debug, Clone, Copy, PartialEq, Eq, Hash)]
pub struct Raw<'a> {
    /// The line.
    pub data: &'a str,
}

/// A raw line.
pub fn raw<'a>(data: &'a str) -> (r: Raw<'a>)
    ensures
        r.data@ == data@,
{
    Raw { data }
}

impl<'a> Encodable for Raw<'a> {
    open spec fn encoded(&self) -> Seq<char> {
        if ends_with_crlf(self.data@) {
            self.data@
        } else {
            self.data@ + "\r\n"@
        }
    }

    fn encode(&self, buf: &mut String) {
        buf.append(self.data);
        let c = to_chars(self.data);
        let n = c.len();
        if !(n >= 2 && c[n - 2] == '\r' && c[n - 1] == '\n') {
            buf.append("\r\n");
        }
    }
}

/// Asks the server for a `PONG`.
#[derive(Debug, Clone, Copy, PartialEq, Eq, Hash)]
pub struct Ping<'a> {
    pub token: &'a str,
}

/// Asks the server for a `PONG`.
pub fn ping<'a>(token: &'a str) -> (r: Ping<'a>)
    ensures
        r.token@ == token@,
{
    Ping { token }
}

impl<'a> Encodable for Ping<'a> {
    open spec fn encoded(&self) -> Seq<char> {
        "PING :"@ + self.token@ + "\r\n"@
    }

    fn encode(&self, buf: &mut String) {
        buf.append("PING :");
        buf.append(self.token);
        buf.append("\r\n");
        assert(final(buf)@ =~= old(buf)@ + self.encoded());
    }
}

/// Answers a `PING` with its token.
#[derive(Debug, Clone, Copy, PartialEq, Eq, Hash)]
pub struct Pong<'a> {
    pub token: &'a str,
}

/// Answers a `PING` with its token.
pub fn pong<'a>(token: &'a str) -> (r: Pong<'a>)
    ensures
        r.token@ == token@,
{
    Pong { token }
}

impl<'a> Encodable for Pong<'a> {
    open spec fn encoded(&self) -> Seq<char> {
        "PONG :"@ + self.token@ + "\r\n"@
    }

    fn encode(&self, buf: &mut String) {
        buf.append("PONG :");
        buf.append(self.token);
        buf.append("\r\n");
        assert(final(buf)@ =~= old(buf)@ + self.encoded());
    }
}

/// Joins a channel; `#` is added when missing.
#[derive(Debug, Clone, Copy, PartialEq, Eq, Hash)]
pub struct Join<'a> {
    pub channel: &'a str,
}

/// Joins a channel; `#` is added when missing.
pub fn join<'a>(channel: &'a str) -> (r: Join<'a>)
    ensures
        r.channel@ == channel@,
{
    Join { channel }
}

impl<'a> Encodable for Join<'a> {
    open spec fn encoded(&self) -> Seq<char> {
        "JOIN "@ + hashed(self.channel@) + "\r\n"@
    }

    fn encode(&self, buf: &mut String) {
        buf.append("JOIN ");
        append_hashed(buf, self.channel);
        buf.append("\r\n");
        assert(final(buf)@ =~= old(buf)@ + self.encoded());
    }
}

/// Leaves a channel; `#` is added when missing.
#[derive(Debug, Clone, Copy, PartialEq, Eq, Hash)]
pub struct Part<'a> {
    pub channel: &'a str,
}

/// Leaves a channel; `#` is added when missing.
pub fn part<'a>(channel: &'a str) -> (r: Part<'a>)
    ensures
        r.channel@ == channel@,
{
    Part { channel }
}

impl<'a> Encodable for Part<'a> {
    open spec fn encoded(&self) -> Seq<char> {
        "PART "@ + hashed(self.channel@) + "\r\n"@
    }

    fn encode(&self, buf: &mut String) {
        buf.append("PART ");
        append_hashed(buf, self.channel);
        buf.append("\r\n");
        assert(final(buf)@ =~= old(buf)@ + self.encoded());
    }
}

/// Sends a message to a channel.
#[derive(Debug, Clone, Copy, PartialEq, Eq, Hash)]
pub struct Privmsg<'a> {
    pub channel: &'a str,
    pub data: &'a str,
}

/// Sends a message to a channel.
pub fn privmsg<'a>(channel: &'a str, data: &'a str) -> (r: Privmsg<'a>)
    ensures
        r.channel@ == channel@,
        r.data@ == data@,
{
    Privmsg { channel, data }
}

impl<'a> Encodable for Privmsg<'a> {
    open spec fn encoded(&self) -> Seq<char> {
        "PRIVMSG "@ + self.channel@ + " :"@ + self.data@ + "\r\n"@
    }

    fn encode(&self, buf: &mut String) {
        buf.append("PRIVMSG ");
        buf.append(self.channel);
        buf.append(" :");
        buf.append(self.data);
        buf.append("\r\n");
        assert(final(buf)@ =~= old(buf)@ + self.encoded());
    }
}

/// Sends a private message to a user.
#[derive(Debug, Clone, Copy, PartialEq, Eq, Hash)]
pub struct Whisper<'a> {
    pub username: &'a str,
    pub data: &'a str,
}

/// Sends a private message to a user.
pub fn whisper<'a>(username: &'a str, data: &'a str) -> (r: Whisper<'a>)
    ensures
        r.username@ == username@,
        r.data@ == data@,
{
    Whisper { username, data }
}

impl<'a> Encodable for Whisper<'a> {
    open spec fn encoded(&self) -> Seq<char> {
        "PRIVMSG jtv :/w "@ + self.username@ + " "@ + self.data@ + "\r\n"@
    }

    fn encode(&self, buf: &mut String) {
        buf.append("PRIVMSG jtv :/w ");
        buf.append(self.username);
        buf.append(" ");
        buf.append(self.data);
        buf.append("\r\n");
        assert(final(buf)@ =~= old(buf)@ + self.encoded());
    }
}

/// The wire form of `cmd`, as a fresh string.
pub fn to_wire<E: Encodable>(cmd: &E) -> (r: String)
    ensures
        r@ == cmd.encoded(),
{
    let mut buf = String::new();
    cmd.encode(&mut buf);
    assert(buf@ =~= cmd.encoded());
    buf
}

} // verus!
