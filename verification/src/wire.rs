//! The bytes that go to the board and the texts that come back: the
//! commands of the setup handshake, the acknowledgement that each of them
//! must draw, and the two commands that start and stop streaming.

use vstd::prelude::*;
use vstd::slice::slice_to_vec;
use vstd::string::*;
use ascii::AsciiChar;

verus! {

/// The byte that ends a command.
pub const NEWLINE: u8 = 0x0A;

/// The steps of the setup handshake, in the order in which they are taken.
#[derive(Debug, Clone, Copy, PartialEq, Eq, Structural)]
pub enum SetupStep {
    /// Reset the board; it answers with its firmware version.
    Reset,
    /// Switch the board to sixteen channels.
    ChannelMode,
    /// Configure the analog front end of each of the sixteen channels.
    ChannelSettings,
}

/// The bytes of a text of ASCII characters.
pub open spec fn ascii_text(text: Seq<char>) -> Seq<u8> {
    Seq::new(text.len(), |i: int| text[i] as u8)
}

/// The identifiers of the sixteen channels, in the order in which they are
/// configured: the eight channels of the board, then the eight of the daisy
/// module.
pub open spec fn channel_ids() -> Seq<char> {
    seq!['1', '2', '3', '4', '5', '6', '7', '8', 'Q', 'W', 'E', 'R', 'T', 'Y', 'U', 'I']
}

/// The six settings that every channel gets: powered on, gain 24, normal
/// input, included in the bias, connected to SRB2, disconnected from SRB1.
pub open spec fn channel_settings() -> Seq<char> {
    seq!['0', '6', '0', '1', '1', '0']
}

/// The block that configures one channel: the opening mark, the channel's
/// identifier, the six settings and the closing mark.
pub open spec fn channel_block(id: char) -> Seq<u8> {
    seq!['x' as u8, id as u8] + ascii_text(channel_settings()) + seq!['X' as u8]
}

/// The blocks of the given channels, one after another.
pub open spec fn channel_blocks(ids: Seq<char>) -> Seq<u8>
    decreases ids.len(),
{
    if ids.len() == 0 {
        Seq::empty()
    } else {
        channel_blocks(ids.drop_last()) + channel_block(ids.last())
    }
}

/// The bytes to send at a step of the handshake.
pub open spec fn command_bytes(step: SetupStep) -> Seq<u8> {
    match step {
        SetupStep::Reset => seq!['v' as u8, NEWLINE],
        SetupStep::ChannelMode => seq!['C' as u8, NEWLINE],
        SetupStep::ChannelSettings => channel_blocks(channel_ids()) + seq![NEWLINE],
    }
}

/// The text that the board's reply to a step must hold.
pub open spec fn acknowledgement(step: SetupStep) -> Seq<u8> {
    match step {
        SetupStep::Reset => ascii_text("Firmware: v3.1.2"@),
        SetupStep::ChannelMode => ascii_text("16$$$"@),
        SetupStep::ChannelSettings => ascii_text("Channel set for 16$$$"@),
    }
}

/// The command that starts streaming.
pub open spec fn start_bytes() -> Seq<u8> {
    seq![0x62u8, NEWLINE]
}

/// The command that stops streaming.
pub open spec fn stop_bytes() -> Seq<u8> {
    seq![0x73u8, NEWLINE]
}

/// Whether `needle` stands in `haystack` at index `at`.
pub open spec fn occurs_at(haystack: Seq<u8>, needle: Seq<u8>, at: int) -> bool {
    &&& 0 <= at
    &&& at + needle.len() <= haystack.len()
    &&& haystack.subrange(at, at + needle.len()) == needle
}

/// Whether `needle` stands somewhere in `haystack`.
pub open spec fn occurs(haystack: Seq<u8>, needle: Seq<u8>) -> bool {
    exists|at: int| occurs_at(haystack, needle, at)
}

/// Converts a character to its ASCII byte with `ascii::AsciiChar::from_ascii`
/// and `AsciiChar::as_byte`. The crate accepts exactly the code points up to
/// 0x7F and hands back the code point as the byte.
#[verifier::external_body]
fn ascii_byte(ch: char) -> (byte: Option<u8>)
    ensures
        byte == (if ch as u32 <= 0x7F {
            Some(ch as u8)
        } else {
            None::<u8>
        }),
{
    match AsciiChar::from_ascii(ch) {
        Ok(ascii) => Some(ascii.as_byte()),
        Err(_) => None,
    }
}

fn push_ascii(out: &mut Vec<u8>, ch: char)
    requires
        ch as u32 <= 0x7F,
    ensures
        final(out)@ == old(out)@.push(ch as u8),
{
    match ascii_byte(ch) {
        Some(byte) => out.push(byte),
        None => {},
    }
}

fn text_bytes(text: &str) -> (bytes: Vec<u8>)
    requires
        is_ascii(text),
    ensures
        bytes@ == ascii_text(text@),
{
    broadcast use is_ascii_spec_bytes;

    let bytes = slice_to_vec(text.as_bytes());
    assert(bytes@ =~= ascii_text(text@));
    bytes
}

/// Whether `needle` stands in `haystack` at `at`.
fn matches_at(haystack: &[u8], needle: &[u8], at: usize) -> (same: bool)
    requires
        at + needle@.len() <= haystack@.len(),
    ensures
        same == occurs_at(haystack@, needle@, at as int),
{
    let n = needle.len();
    let h = haystack.len();
    let mut j: usize = 0;
    while j < n
        invariant
            0 <= j <= n,
            n == needle@.len(),
            h == haystack@.len(),
            at + n <= h,
            forall|k: int| 0 <= k < j ==> haystack@[at + k] == needle@[k],
        decreases n - j,
    {
        if haystack[at + j] != needle[j] {
            proof {
                assert(haystack@.subrange(at as int, at + n)[j as int] == haystack@[at + j]);
            }
            return false;
        }
        j += 1;
    }
    assert(haystack@.subrange(at as int, at + n) =~= needle@);
    true
}

/// Searches `haystack` for `needle`. The empty needle stands in every
/// haystack.
pub fn contains(haystack: &[u8], needle: &[u8]) -> (found: bool)
    ensures
        found == occurs(haystack@, needle@),
{
    let n = needle.len();
    let h = haystack.len();
    if n == 0 {
        assert(occurs_at(haystack@, needle@, 0)) by {
            assert(haystack@.subrange(0, 0) =~= needle@);
        }
        return true;
    }
    if n > h {
        return false;
    }
    let last = h - n;
    let mut at: usize = 0;
    while at <= last
        invariant
            0 <= at <= last + 1,
            0 < n == needle@.len(),
            h == haystack@.len(),
            last == h - n,
            forall|k: int| 0 <= k < at ==> !occurs_at(haystack@, needle@, k),
        decreases last + 1 - at,
    {
        if matches_at(haystack, needle, at) {
            return true;
        }
        at += 1;
    }
    false
}

/// The command that starts streaming.
pub fn start_command() -> (command: Vec<u8>)
    ensures
        command@ == start_bytes(),
{
    let command = vec![0x62u8, NEWLINE];
    assert(command@ =~= start_bytes());
    command
}

/// The command that stops streaming.
pub fn stop_command() -> (command: Vec<u8>)
    ensures
        command@ == stop_bytes(),
{
    let command = vec![0x73u8, NEWLINE];
    assert(command@ =~= stop_bytes());
    command
}

fn short_command(letter: char) -> (command: Vec<u8>)
    requires
        letter as u32 <= 0x7F,
    ensures
        command@ == seq![letter as u8, NEWLINE],
{
    let mut command: Vec<u8> = Vec::new();
    push_ascii(&mut command, letter);
    command.push(NEWLINE);
    assert(command@ =~= seq![letter as u8, NEWLINE]);
    command
}

fn channel_command() -> (command: Vec<u8>)
    ensures
        command@ == channel_blocks(channel_ids()) + seq![NEWLINE],
{
    let channels: [char; 16] = [
        '1', '2', '3', '4', '5', '6', '7', '8', 'Q', 'W', 'E', 'R', 'T', 'Y', 'U', 'I',
    ];
    let settings: [char; 6] = ['0', '6', '0', '1', '1', '0'];
    assert(channels@ =~= channel_ids());
    assert(settings@ =~= channel_settings());
    let mut command: Vec<u8> = Vec::new();
    let mut i: usize = 0;
    while i < 16
        invariant
            0 <= i <= 16,
            channels@ == channel_ids(),
            settings@ == channel_settings(),
            command@ == channel_blocks(channels@.take(i as int)),
        decreases 16 - i,
    {
        let ghost before = command@;
        push_ascii(&mut command, 'x');
        push_ascii(&mut command, channels[i]);
        let mut j: usize = 0;
        while j < 6
            invariant
                0 <= j <= 6,
                0 <= i < 16,
                settings@ == channel_settings(),
                command@ == before + seq!['x' as u8, channels@[i as int] as u8] + ascii_text(
                    settings@.take(j as int),
                ),
            decreases 6 - j,
        {
            push_ascii(&mut command, settings[j]);
            assert(ascii_text(settings@.take(j as int)).push(settings@[j as int] as u8)
                =~= ascii_text(settings@.take(j + 1)));
            j += 1;
        }
        push_ascii(&mut command, 'X');
        proof {
            assert(settings@.take(6) =~= settings@);
            assert(channels@.take(i + 1).drop_last() =~= channels@.take(i as int));
            assert(command@ =~= before + channel_block(channels@[i as int]));
        }
        i += 1;
    }
    assert(channels@.take(16) =~= channels@);
    command.push(NEWLINE);
    command
}

impl SetupStep {
    /// The step that follows this one, if any.
    pub open spec fn next(self) -> Option<SetupStep> {
        match self {
            SetupStep::Reset => Some(SetupStep::ChannelMode),
            SetupStep::ChannelMode => Some(SetupStep::ChannelSettings),
            SetupStep::ChannelSettings => None,
        }
    }

    /// The step that follows this one, if any.
    pub fn following(self) -> (step: Option<SetupStep>)
        ensures
            step == self.next(),
    {
        match self {
            SetupStep::Reset => Some(SetupStep::ChannelMode),
            SetupStep::ChannelMode => Some(SetupStep::ChannelSettings),
            SetupStep::ChannelSettings => None,
        }
    }

    /// The bytes to send at this step.
    pub fn command(self) -> (command: Vec<u8>)
        ensures
            command@ == command_bytes(self),
    {
        match self {
            SetupStep::Reset => short_command('v'),
            SetupStep::ChannelMode => short_command('C'),
            SetupStep::ChannelSettings => channel_command(),
        }
    }

    /// The text that the reply to this step must hold.
    pub fn expected_reply(self) -> (text: Vec<u8>)
        ensures
            text@ == acknowledgement(self),
    {
        proof {
            reveal_strlit("Firmware: v3.1.2");
            reveal_strlit("16$$$");
            reveal_strlit("Channel set for 16$$$");
        }
        match self {
            SetupStep::Reset => text_bytes("Firmware: v3.1.2"),
            SetupStep::ChannelMode => text_bytes("16$$$"),
            SetupStep::ChannelSettings => text_bytes("Channel set for 16$$$"),
        }
    }

    /// Whether a reply acknowledges this step: it holds the expected text.
    pub fn acknowledged_by(self, reply: &[u8]) -> (ok: bool)
        ensures
            ok == occurs(reply@, acknowledgement(self)),
    {
        let expected = self.expected_reply();
        contains(reply, expected.as_slice())
    }
}

} // verus!
