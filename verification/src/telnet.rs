//! The wire decoder: turns the bytes of one telnet connection into discrete
//! input events, one per call.

use vstd::prelude::*;

verus! {

/// "Interpret as command": introduces every telnet command, and is sent twice
/// where it stands for itself inside a sub-negotiation.
pub const IAC: u8 = 255;

pub const WILL: u8 = 251;

pub const WONT: u8 = 252;

pub const DO: u8 = 253;

pub const DONT: u8 = 254;

/// End of a sub-negotiation.
pub const SE: u8 = 240;

/// Begin of a sub-negotiation.
pub const SB: u8 = 250;

pub const ECHO: u8 = 1;

pub const LINEMODE: u8 = 34;

/// "Negotiate about window size".
pub const NAWS: u8 = 31;

/// How many bytes the decoder holds at most.
pub const CAPACITY: usize = 1024;

/// One decoded input event.
#[derive(Clone, Copy, Debug, PartialEq, Eq, Structural)]
pub enum TelnetMessage {
    IacWillLinemode,
    IacWontLinemode,
    IacDoEcho,
    IacDontEcho,
    IacWillNaws,
    IacWontNaws,
    IacOther,
    Naws(u16, u16),
    Char(u8),
    Backspace,
    Enter,
    CtrlC,
    Tab,
    Esc,
    Up,
    Down,
    Right,
    Left,
    Ignore,
    Error,
}

/// The number whose big-endian bytes are `hi`, `lo`.
pub open spec fn be_u16(hi: u8, lo: u8) -> u16 {
    (hi as int * 256 + lo as int) as u16
}

/// `s` with each doubled escape byte made single: of every two escape bytes
/// that stand side by side, counted from the start, the second is left out.
pub open spec fn unescaped(s: Seq<u8>) -> Seq<u8>
    decreases s.len(),
{
    if s.len() == 0 {
        s
    } else if s.len() >= 2 && s[0] == IAC && s[1] == IAC {
        seq![IAC] + unescaped(s.skip(2))
    } else {
        seq![s[0]] + unescaped(s.skip(1))
    }
}

/// Whether `b` is one of the four option verbs.
pub open spec fn is_option_verb(b: u8) -> bool {
    b == WILL || b == WONT || b == DO || b == DONT
}

/// The event for the three-byte negotiation `IAC verb option`.
pub open spec fn negotiation(verb: u8, option: u8) -> TelnetMessage {
    if verb == WILL && option == LINEMODE {
        TelnetMessage::IacWillLinemode
    } else if verb == WONT && option == LINEMODE {
        TelnetMessage::IacWontLinemode
    } else if verb == WILL && option == NAWS {
        TelnetMessage::IacWillNaws
    } else if verb == WONT && option == NAWS {
        TelnetMessage::IacWontNaws
    } else if verb == DO && option == ECHO {
        TelnetMessage::IacDoEcho
    } else if verb == DONT && option == ECHO {
        TelnetMessage::IacDontEcho
    } else {
        TelnetMessage::IacOther
    }
}

/// Where the block that is searched from `from` on ends: behind the first end
/// marker `IAC SE` whose `IAC` is not the second half of a doubled escape
/// byte. `None` if `s` holds no such end marker.
pub open spec fn block_end(s: Seq<u8>, from: int) -> Option<int>
    decreases s.len() - from,
{
    if from < 0 || from + 1 >= s.len() {
        None
    } else if s[from] == IAC && s[from + 1] == SE {
        Some(from + 2)
    } else if s[from] == IAC && s[from + 1] == IAC {
        block_end(s, from + 2)
    } else {
        block_end(s, from + 1)
    }
}

/// How long the sub-negotiation block is that `s` begins with: from `IAC SB`
/// to the end marker that closes it. `None` if `s` does not begin with
/// `IAC SB`, or if the end marker is not among the bytes.
pub open spec fn subnegotiation_len(s: Seq<u8>) -> Option<int> {
    if s.len() >= 2 && s[0] == IAC && s[1] == SB {
        block_end(s, 2)
    } else {
        None
    }
}

/// The event that a window-size block stands for: width and height are the
/// first four bytes of its payload, once each doubled escape byte in it was
/// made single. A block with fewer bytes than that is ignored.
pub open spec fn window_event(block: Seq<u8>) -> TelnetMessage
    recommends
        block.len() >= 5,
{
    let payload = unescaped(block.subrange(3, block.len() - 2));
    if payload.len() >= 4 {
        TelnetMessage::Naws(be_u16(payload[0], payload[1]), be_u16(payload[2], payload[3]))
    } else {
        TelnetMessage::IacOther
    }
}

/// The event that a sub-negotiation block stands for: the window size if the
/// block is about it, and otherwise the event for what is ignored.
pub open spec fn block_event(block: Seq<u8>) -> TelnetMessage {
    if block.len() >= 5 && block[2] == NAWS {
        window_event(block)
    } else {
        TelnetMessage::IacOther
    }
}

/// The event for the final byte of `ESC [ code`.
pub open spec fn arrow(code: u8) -> TelnetMessage {
    if code == 65 {
        TelnetMessage::Up
    } else if code == 66 {
        TelnetMessage::Down
    } else if code == 67 {
        TelnetMessage::Right
    } else if code == 68 {
        TelnetMessage::Left
    } else {
        TelnetMessage::Ignore
    }
}

/// The event for a single byte.
pub open spec fn key(b: u8) -> TelnetMessage {
    if b == 3 {
        TelnetMessage::CtrlC
    } else if b == 127 {
        TelnetMessage::Backspace
    } else if b == 9 {
        TelnetMessage::Tab
    } else if b == 27 {
        TelnetMessage::Esc
    } else {
        TelnetMessage::Char(b)
    }
}

/// The first event of the unread bytes `s`, and how many bytes it takes up;
/// `None` where `s` is empty. The most specific shape wins: a three-byte
/// negotiation; a sub-negotiation block, which ends with its own end marker;
/// an arrow key; carriage return and null; a single byte.
pub open spec fn decode(s: Seq<u8>) -> Option<(TelnetMessage, nat)> {
    if s.len() == 0 {
        None
    } else if s.len() >= 3 && s[0] == IAC && is_option_verb(s[1]) {
        Some((negotiation(s[1], s[2]), 3))
    } else if subnegotiation_len(s) is Some {
        let len = subnegotiation_len(s)->0;
        Some((block_event(s.take(len)), len as nat))
    } else if s.len() >= 3 && s[0] == 0x1b && s[1] == 0x5b {
        Some((arrow(s[2]), 3))
    } else if s.len() >= 2 && s[0] == 13 && s[1] == 0 {
        Some((TelnetMessage::Enter, 2))
    } else {
        Some((key(s[0]), 1))
    }
}

/// A block ends behind an end marker, within the bytes.
pub proof fn lemma_block_end(s: Seq<u8>, from: int)
    requires
        0 <= from,
    ensures
        block_end(s, from) matches Some(end) ==> from + 2 <= end <= s.len() && s[end - 2] == IAC
            && s[end - 1] == SE,
    decreases s.len() - from,
{
    if from + 1 < s.len() {
        if s[from] == IAC && s[from + 1] == SE {
        } else if s[from] == IAC && s[from + 1] == IAC {
            lemma_block_end(s, from + 2);
        } else {
            lemma_block_end(s, from + 1);
        }
    }
}

/// An event takes up at least one byte and no more than there are.
pub proof fn lemma_decode_consumes(s: Seq<u8>)
    ensures
        decode(s) matches Some((_, used)) ==> 1 <= used <= s.len(),
        decode(s) is None <==> s.len() == 0,
{
    lemma_block_end(s, 2);
}

/// What a scan of the unread bytes `s` for the reply to one option request
/// finds: `Some(true)` at the first `accept` event, `Some(false)` at the first
/// `reject` event, `None` if `s` runs out before either; and the bytes that
/// are left unread after it.
pub open spec fn scan_reply(s: Seq<u8>, accept: TelnetMessage, reject: TelnetMessage) -> (
    Option<bool>,
    Seq<u8>,
)
    decreases s.len(),
{
    match decode(s) {
        None => (None, s),
        Some((event, used)) => {
            if event == accept {
                (Some(true), s.skip(used as int))
            } else if event == reject {
                (Some(false), s.skip(used as int))
            } else if 1 <= used <= s.len() {
                scan_reply(s.skip(used as int), accept, reject)
            } else {
                (None, s)
            }
        },
    }
}

/// The two bytes of `n`, most significant first.
pub open spec fn be_bytes(n: u16) -> Seq<u8> {
    seq![(n / 256) as u8, (n % 256) as u8]
}

/// `s` with every escape byte doubled, as a peer sends a payload inside a
/// sub-negotiation.
pub open spec fn escaped(s: Seq<u8>) -> Seq<u8>
    decreases s.len(),
{
    if s.len() == 0 {
        s
    } else if s[0] == IAC {
        seq![IAC, IAC] + escaped(s.skip(1))
    } else {
        seq![s[0]] + escaped(s.skip(1))
    }
}

/// The window-size report for `width` and `height`: their four bytes with
/// the escape bytes among them doubled, between the start and the end marker.
pub open spec fn escaped_window_block(width: u16, height: u16) -> Seq<u8> {
    seq![IAC, SB, NAWS] + escaped(be_bytes(width) + be_bytes(height)) + seq![IAC, SE]
}

/// The two bytes of a number give the number back.
pub proof fn lemma_be_bytes(n: u16)
    ensures
        be_u16(be_bytes(n)[0], be_bytes(n)[1]) == n,
{
}

/// Doubling adds one byte for each escape byte, and nothing where there is
/// none.
pub proof fn lemma_escaped_shape(s: Seq<u8>)
    ensures
        s.len() <= escaped(s).len() <= 2 * s.len(),
        (forall|i: int| 0 <= i < s.len() ==> s[i] != IAC) ==> escaped(s) == s,
        (exists|i: int| 0 <= i < s.len() && s[i] == IAC) ==> escaped(s).len() > s.len(),
    decreases s.len(),
{
    if s.len() > 0 {
        let t = s.skip(1);
        lemma_escaped_shape(t);
        if forall|i: int| 0 <= i < s.len() ==> s[i] != IAC {
            assert forall|i: int| 0 <= i < t.len() implies t[i] != IAC by {
                assert(t[i] == s[i + 1]);
            }
            assert(escaped(s) =~= s);
        }
        if exists|i: int| 0 <= i < s.len() && s[i] == IAC {
            let i = choose|i: int| 0 <= i < s.len() && s[i] == IAC;
            if i > 0 {
                assert(t[i - 1] == IAC);
            }
        }
    }
}

/// Making doubled escape bytes single undoes the doubling, whatever the
/// bytes were.
pub proof fn lemma_unescape_undoes_escaping(s: Seq<u8>)
    ensures
        unescaped(escaped(s)) == s,
    decreases s.len(),
{
    if s.len() > 0 {
        let t = s.skip(1);
        let e = escaped(s);
        lemma_unescape_undoes_escaping(t);
        if s[0] == IAC {
            assert(e.skip(2) =~= escaped(t));
            assert(seq![IAC] + t =~= s);
        } else {
            assert(e.skip(1) =~= escaped(t));
            assert(seq![s[0]] + t =~= s);
        }
    }
}

/// Where `s` holds, from `from` on, a payload with its escape bytes doubled
/// and then the end marker, the block ends right behind that end marker.
pub proof fn lemma_block_end_behind_escaped(s: Seq<u8>, from: int, payload: Seq<u8>)
    requires
        0 <= from,
        from + escaped(payload).len() + 2 <= s.len(),
        s.subrange(from, from + escaped(payload).len()) == escaped(payload),
        s[from + escaped(payload).len()] == IAC,
        s[from + escaped(payload).len() + 1] == SE,
    ensures
        block_end(s, from) == Some(from + escaped(payload).len() + 2),
    decreases payload.len(),
{
    let sent = escaped(payload);
    if payload.len() > 0 {
        let rest = payload.skip(1);
        let window = s.subrange(from, from + sent.len());
        if payload[0] == IAC {
            assert(window[0] == IAC && window[1] == IAC);
            assert(s[from] == IAC && s[from + 1] == IAC);
            assert(s.subrange(from + 2, from + 2 + escaped(rest).len()) =~= escaped(rest)) by {
                assert(sent.skip(2) =~= escaped(rest));
                assert forall|i: int| 0 <= i < escaped(rest).len() implies s[from + 2 + i]
                    == escaped(rest)[i] by {
                    assert(window[i + 2] == s[from + 2 + i]);
                }
            }
            lemma_block_end_behind_escaped(s, from + 2, rest);
        } else {
            assert(window[0] == payload[0]);
            assert(s[from] != IAC);
            assert(s.subrange(from + 1, from + 1 + escaped(rest).len()) =~= escaped(rest)) by {
                assert(sent.skip(1) =~= escaped(rest));
                assert forall|i: int| 0 <= i < escaped(rest).len() implies s[from + 1 + i]
                    == escaped(rest)[i] by {
                    assert(window[i + 1] == s[from + 1 + i]);
                }
            }
            lemma_block_end_behind_escaped(s, from + 1, rest);
        }
    }
}

/// Decoding a window-size report gives back the width and the height that it
/// was made of, whatever they are, and takes up the report and no more:
/// what follows it in the same read stays unread.
pub proof fn lemma_window_round_trip(width: u16, height: u16, rest: Seq<u8>)
    ensures
        decode(escaped_window_block(width, height) + rest) == Some(
            (
                TelnetMessage::Naws(width, height),
                escaped_window_block(width, height).len(),
            ),
        ),
        (escaped_window_block(width, height) + rest).skip(
            escaped_window_block(width, height).len() as int,
        ) == rest,
{
    let payload = be_bytes(width) + be_bytes(height);
    let sent = escaped(payload);
    let block = escaped_window_block(width, height);
    let s = block + rest;
    lemma_be_bytes(width);
    lemma_be_bytes(height);
    lemma_escaped_shape(payload);
    lemma_unescape_undoes_escaping(payload);
    assert(payload.len() == 4);
    assert(block.len() == sent.len() + 5);
    assert(s[0] == IAC && s[1] == SB && s[2] == NAWS);
    let sent_len = sent.len() as int;
    assert(s.subrange(3, 3 + sent_len) =~= sent);
    assert(s[3 + sent_len] == IAC && s[3 + sent_len + 1] == SE);
    lemma_block_end_behind_escaped(s, 3, payload);
    assert(block_end(s, 2) == block_end(s, 3));
    assert(subnegotiation_len(s) == Some(block.len() as int));
    assert(s.take(block.len() as int) =~= block);
    assert(block.subrange(3, block.len() - 2) =~= sent);
    assert(payload[0] == be_bytes(width)[0] && payload[1] == be_bytes(width)[1]);
    assert(payload[2] == be_bytes(height)[0] && payload[3] == be_bytes(height)[1]);
    assert(s.skip(block.len() as int) =~= rest);
}

/// A window-size report has nine bytes exactly when neither number holds an
/// escape byte; it is then the four bytes as they are between the markers.
pub proof fn lemma_report_of_nine_bytes(width: u16, height: u16)
    ensures
        escaped_window_block(width, height).len() == 9 <==> (forall|i: int|
            0 <= i < 4 ==> (be_bytes(width) + be_bytes(height))[i] != IAC),
        escaped_window_block(width, height).len() == 9 ==> escaped_window_block(width, height)
            == seq![IAC, SB, NAWS] + be_bytes(width) + be_bytes(height) + seq![IAC, SE],
{
    let payload = be_bytes(width) + be_bytes(height);
    lemma_escaped_shape(payload);
    assert(payload.len() == 4);
    if escaped_window_block(width, height).len() == 9 {
        assert(escaped(payload).len() == 4);
        assert(escaped(payload) == payload);
        assert(seq![IAC, SB, NAWS] + payload + seq![IAC, SE] =~= seq![IAC, SB, NAWS] + be_bytes(
            width,
        ) + be_bytes(height) + seq![IAC, SE]);
    }
}

/// How the outcome of a scan is reported: the peer's answer, or `None` while
/// it is still awaited.
pub open spec fn reply(found: Option<bool>) -> Option<Result<(), ()>> {
    match found {
        Some(true) => Some(Ok(())),
        Some(false) => Some(Err(())),
        None => None,
    }
}

/// Makes each doubled escape byte of `payload` single.
fn unescape(payload: &Vec<u8>) -> (r: Vec<u8>)
    ensures
        r@ == unescaped(payload@),
{
    let mut plain: Vec<u8> = Vec::new();
    let mut i: usize = 0;
    assert(payload@.skip(0) =~= payload@);
    assert(plain@ + unescaped(payload@) =~= unescaped(payload@));
    while i < payload.len()
        invariant
            i <= payload@.len(),
            plain@ + unescaped(payload@.skip(i as int)) == unescaped(payload@),
        decreases payload@.len() - i,
    {
        let ghost left = payload@.skip(i as int);
        let ghost before = plain@;
        assert(left[0] == payload@[i as int]);
        if i + 1 < payload.len() && payload[i] == IAC && payload[i + 1] == IAC {
            assert(left[1] == payload@[i + 1]);
            assert(left.skip(2) =~= payload@.skip(i + 2));
            plain.push(IAC);
            i = i + 2;
            assert(plain@ + unescaped(payload@.skip(i as int)) =~= before + unescaped(left));
        } else {
            assert(left.skip(1) =~= payload@.skip(i + 1));
            plain.push(payload[i]);
            i = i + 1;
            assert(plain@ + unescaped(payload@.skip(i as int)) =~= before + unescaped(left));
        }
    }
    assert(plain@ + unescaped(payload@.skip(i as int)) =~= plain@);
    plain
}

fn u16_from_be(hi: u8, lo: u8) -> (r: u16)
    ensures
        r == be_u16(hi, lo),
{
    (hi as u16) * 256 + (lo as u16)
}

/// The decoder of one connection: a window of at most `CAPACITY` bytes with
/// the part of it that no event has taken up yet.
pub struct Telnet {
    start: usize,
    end: usize,
    buffer: [u8; 1024],
}

impl Telnet {
    /// The cursors lie in the window, in order.
    pub closed spec fn wf(&self) -> bool {
        self.start <= self.end <= CAPACITY
    }

    /// The bytes that were handed in and that no event has taken up yet.
    pub closed spec fn unread(&self) -> Seq<u8> {
        self.buffer@.subrange(self.start as int, self.end as int)
    }

    /// A decoder without bytes.
    pub fn new() -> (telnet: Self)
        ensures
            telnet.wf(),
            telnet.unread() == Seq::<u8>::empty(),
    {
        Telnet { start: 0, end: 0, buffer: [0u8; 1024] }
    }

    /// Whether every byte was taken up, so that more have to be read from the
    /// transport before the next event.
    pub fn needs_input(&self) -> (r: bool)
        requires
            self.wf(),
        ensures
            r == (self.unread().len() == 0),
    {
        self.start == self.end
    }

    /// Hands the decoder what was read from the transport. It takes bytes
    /// only when it has none unread, and then as many as fit; the result is
    /// how many it took.
    pub fn refill(&mut self, bytes: &[u8]) -> (taken: usize)
        requires
            old(self).wf(),
        ensures
            final(self).wf(),
            old(self).unread().len() > 0 ==> taken == 0 && final(self).unread() == old(
                self,
            ).unread(),
            old(self).unread().len() == 0 ==> taken == if bytes@.len() <= CAPACITY {
                bytes@.len()
            } else {
                CAPACITY as nat
            } && final(self).unread() == bytes@.take(taken as int),
    {
        if self.start != self.end {
            return 0;
        }
        let n: usize = if bytes.len() <= CAPACITY {
            bytes.len()
        } else {
            CAPACITY
        };
        self.start = 0;
        self.end = 0;
        let mut i: usize = 0;
        while i < n
            invariant
                i <= n <= CAPACITY,
                n <= bytes@.len(),
                self.start == 0,
                self.end == i,
                self.buffer@.subrange(0, i as int) == bytes@.take(i as int),
            decreases n - i,
        {
            self.buffer[i] = bytes[i];
            i = i + 1;
            self.end = i;
            assert(self.buffer@.subrange(0, i as int) =~= bytes@.take(i as int)) by {
                assert forall|j: int| 0 <= j < i implies self.buffer@[j] == bytes@[j] by {
                    if j < i - 1 {
                        assert(bytes@.take(i - 1)[j] == bytes@[j]);
                    }
                }
            }
        }
        n
    }

    /// The next event of the unread bytes, which leaves what follows it
    /// unread; `Err` exactly when there is no unread byte, which after a
    /// read of zero bytes means that the connection was closed.
    pub fn next(&mut self) -> (r: Result<TelnetMessage, ()>)
        requires
            old(self).wf(),
        ensures
            final(self).wf(),
            match decode(old(self).unread()) {
                Some((event, used)) => r == Ok::<TelnetMessage, ()>(event) && final(self).unread()
                    == old(self).unread().skip(used as int),
                None => r is Err && final(self).unread() == old(self).unread(),
            },
    {
        let n: usize = self.end - self.start;
        let ghost s = self.unread();
        if n == 0 {
            return Err(());
        }
        let at: usize = self.start;
        let b0: u8 = self.buffer[at];
        assert(s[0] == b0);
        if n >= 2 {
            assert(s[1] == self.buffer@[at + 1]);
        }
        if n >= 3 {
            assert(s[2] == self.buffer@[at + 2]);
        }
        let block: Option<usize> = if n >= 2 && b0 == IAC && self.buffer[at + 1] == SB {
            self.find_block_end(n)
        } else {
            None
        };
        let (event, used): (TelnetMessage, usize) = if n >= 3 && b0 == IAC && Self::is_verb(
            self.buffer[at + 1],
        ) {
            (Self::negotiation_event(self.buffer[at + 1], self.buffer[at + 2]), 3)
        } else if let Some(len) = block {
            proof {
                lemma_block_end(s, 2);
            }
            (self.block_event(len), len)
        } else if n >= 3 && b0 == 0x1b && self.buffer[at + 1] == 0x5b {
            (Self::arrow_event(self.buffer[at + 2]), 3)
        } else if n >= 2 && b0 == 13 && self.buffer[at + 1] == 0 {
            (TelnetMessage::Enter, 2)
        } else {
            (Self::key_event(b0), 1)
        };
        self.start = at + used;
        assert(self.unread() =~= s.skip(used as int));
        Ok(event)
    }

    /// Where the sub-negotiation block ends that the `n` unread bytes begin
    /// with, if its end marker is among them.
    fn find_block_end(&self, n: usize) -> (r: Option<usize>)
        requires
            self.wf(),
            n == self.unread().len(),
            n >= 2,
        ensures
            match r {
                Some(end) => block_end(self.unread(), 2) == Some(end as int),
                None => block_end(self.unread(), 2) is None,
            },
    {
        let at: usize = self.start;
        let ghost s = self.unread();
        let mut i: usize = 2;
        while i + 1 < n
            invariant
                self.wf(),
                at == self.start,
                n == self.end - self.start,
                s == self.unread(),
                2 <= i <= n,
                block_end(s, i as int) == block_end(s, 2),
            decreases n - i,
        {
            let here: u8 = self.buffer[at + i];
            let next: u8 = self.buffer[at + i + 1];
            assert(s[i as int] == here && s[i + 1] == next);
            if here == IAC && next == SE {
                return Some(i + 2);
            }
            if here == IAC && next == IAC {
                i = i + 2;
            } else {
                i = i + 1;
            }
        }
        None
    }

    /// The event of the sub-negotiation block that the first `len` unread
    /// bytes are.
    fn block_event(&self, len: usize) -> (r: TelnetMessage)
        requires
            self.wf(),
            2 <= len <= self.unread().len(),
        ensures
            r == block_event(self.unread().take(len as int)),
    {
        let at: usize = self.start;
        let ghost block = self.unread().take(len as int);
        if len >= 5 && self.buffer[at + 2] == NAWS {
            assert(block[2] == self.buffer@[at + 2]);
            let mut payload: Vec<u8> = Vec::new();
            let mut i: usize = at + 3;
            while i < at + len - 2
                invariant
                    self.wf(),
                    at == self.start,
                    len <= self.end - self.start,
                    len >= 5,
                    at + 3 <= i <= at + len - 2,
                    payload@ == self.buffer@.subrange(at + 3, i as int),
                decreases at + len - 2 - i,
            {
                payload.push(self.buffer[i]);
                i = i + 1;
            }
            assert(payload@ =~= block.subrange(3, len - 2));
            let plain = unescape(&payload);
            if plain.len() >= 4 {
                TelnetMessage::Naws(
                    u16_from_be(plain[0], plain[1]),
                    u16_from_be(plain[2], plain[3]),
                )
            } else {
                TelnetMessage::IacOther
            }
        } else {
            if len >= 5 {
                assert(block[2] == self.buffer@[at + 2]);
            }
            TelnetMessage::IacOther
        }
    }

    /// The request that asks the peer to use line mode under the server's
    /// control; `iac_do_linemode` scans for the reply.
    pub fn linemode_request() -> (r: [u8; 3])
        ensures
            r@ == seq![IAC, DO, LINEMODE],
    {
        let r: [u8; 3] = [IAC, DO, LINEMODE];
        assert(r@ =~= seq![IAC, DO, LINEMODE]);
        r
    }

    /// The request that announces that the server does the echoing;
    /// `iac_will_echo` scans for the reply.
    pub fn echo_request() -> (r: [u8; 3])
        ensures
            r@ == seq![IAC, WILL, ECHO],
    {
        let r: [u8; 3] = [IAC, WILL, ECHO];
        assert(r@ =~= seq![IAC, WILL, ECHO]);
        r
    }

    /// The request that asks the peer to report the size of its window and
    /// every change of it; `iac_do_naws` scans for the reply.
    pub fn naws_request() -> (r: [u8; 3])
        ensures
            r@ == seq![IAC, DO, NAWS],
    {
        let r: [u8; 3] = [IAC, DO, NAWS];
        assert(r@ =~= seq![IAC, DO, NAWS]);
        r
    }

    /// The sub-negotiation that sets the peer's line mode to zero, so that it
    /// does no local editing. No reply is awaited.
    pub fn iac_linemode_zero() -> (r: [u8; 7])
        ensures
            r@ == seq![IAC, SB, LINEMODE, 1u8, 0u8, IAC, SE],
    {
        let r: [u8; 7] = [IAC, SB, LINEMODE, 1, 0, IAC, SE];
        assert(r@ =~= seq![IAC, SB, LINEMODE, 1u8, 0u8, IAC, SE]);
        r
    }

    /// Takes up unread events until the peer's reply to the line-mode request:
    /// `Some(Ok)` if it accepts, `Some(Err)` if it refuses, `None` if the
    /// unread bytes run out first (hand in more and call again).
    pub fn iac_do_linemode(&mut self) -> (r: Option<Result<(), ()>>)
        requires
            old(self).wf(),
        ensures
            final(self).wf(),
            r == reply(
                scan_reply(
                    old(self).unread(),
                    TelnetMessage::IacWillLinemode,
                    TelnetMessage::IacWontLinemode,
                ).0,
            ),
            final(self).unread() == scan_reply(
                old(self).unread(),
                TelnetMessage::IacWillLinemode,
                TelnetMessage::IacWontLinemode,
            ).1,
    {
        self.await_reply(TelnetMessage::IacWillLinemode, TelnetMessage::IacWontLinemode)
    }

    /// Takes up unread events until the peer's reply to the window-size
    /// request: `Some(Ok)` if it accepts, `Some(Err)` if it refuses, `None` if
    /// the unread bytes run out first.
    pub fn iac_do_naws(&mut self) -> (r: Option<Result<(), ()>>)
        requires
            old(self).wf(),
        ensures
            final(self).wf(),
            r == reply(
                scan_reply(
                    old(self).unread(),
                    TelnetMessage::IacWillNaws,
                    TelnetMessage::IacWontNaws,
                ).0,
            ),
            final(self).unread() == scan_reply(
                old(self).unread(),
                TelnetMessage::IacWillNaws,
                TelnetMessage::IacWontNaws,
            ).1,
    {
        self.await_reply(TelnetMessage::IacWillNaws, TelnetMessage::IacWontNaws)
    }

    /// Takes up unread events until the peer's reply to the echo
    /// announcement: `Some(Ok)` if it accepts, `Some(Err)` if it refuses,
    /// `None` if the unread bytes run out first.
    pub fn iac_will_echo(&mut self) -> (r: Option<Result<(), ()>>)
        requires
            old(self).wf(),
        ensures
            final(self).wf(),
            r == reply(
                scan_reply(
                    old(self).unread(),
                    TelnetMessage::IacDoEcho,
                    TelnetMessage::IacDontEcho,
                ).0,
            ),
            final(self).unread() == scan_reply(
                old(self).unread(),
                TelnetMessage::IacDoEcho,
                TelnetMessage::IacDontEcho,
            ).1,
    {
        self.await_reply(TelnetMessage::IacDoEcho, TelnetMessage::IacDontEcho)
    }

    fn await_reply(&mut self, accept: TelnetMessage, reject: TelnetMessage) -> (r: Option<
        Result<(), ()>,
    >)
        requires
            old(self).wf(),
        ensures
            final(self).wf(),
            r == reply(scan_reply(old(self).unread(), accept, reject).0),
            final(self).unread() == scan_reply(old(self).unread(), accept, reject).1,
    {
        loop
            invariant
                self.wf(),
                scan_reply(self.unread(), accept, reject) == scan_reply(
                    old(self).unread(),
                    accept,
                    reject,
                ),
            decreases self.unread().len(),
        {
            proof {
                lemma_decode_consumes(self.unread());
            }
            match self.next() {
                Err(_) => {
                    return None;
                },
                Ok(event) => {
                    if event == accept {
                        return Some(Ok(()));
                    } else if event == reject {
                        return Some(Err(()));
                    }
                },
            }
        }
    }

    fn is_verb(b: u8) -> (r: bool)
        ensures
            r == is_option_verb(b),
    {
        b == WILL || b == WONT || b == DO || b == DONT
    }

    fn negotiation_event(verb: u8, option: u8) -> (r: TelnetMessage)
        ensures
            r == negotiation(verb, option),
    {
        if verb == WILL && option == LINEMODE {
            TelnetMessage::IacWillLinemode
        } else if verb == WONT && option == LINEMODE {
            TelnetMessage::IacWontLinemode
        } else if verb == WILL && option == NAWS {
            TelnetMessage::IacWillNaws
        } else if verb == WONT && option == NAWS {
            TelnetMessage::IacWontNaws
        } else if verb == DO && option == ECHO {
            TelnetMessage::IacDoEcho
        } else if verb == DONT && option == ECHO {
            TelnetMessage::IacDontEcho
        } else {
            TelnetMessage::IacOther
        }
    }

    fn arrow_event(code: u8) -> (r: TelnetMessage)
        ensures
            r == arrow(code),
    {
        if code == 65 {
            TelnetMessage::Up
        } else if code == 66 {
            TelnetMessage::Down
        } else if code == 67 {
            TelnetMessage::Right
        } else if code == 68 {
            TelnetMessage::Left
        } else {
            TelnetMessage::Ignore
        }
    }

    fn key_event(b: u8) -> (r: TelnetMessage)
        ensures
            r == key(b),
    {
        if b == 3 {
            TelnetMessage::CtrlC
        } else if b == 127 {
            TelnetMessage::Backspace
        } else if b == 9 {
            TelnetMessage::Tab
        } else if b == 27 {
            TelnetMessage::Esc
        } else {
            TelnetMessage::Char(b)
        }
    }
}

/// How far the negotiation of options at the start of a session has come.
#[derive(Clone, Copy, Debug, PartialEq, Eq, Structural)]
pub enum Stage {
    /// Nothing was sent yet.
    Start,
    /// The reply to the line-mode request is awaited.
    Linemode,
    /// The reply to the echo announcement is awaited.
    Echo,
    /// The reply to the window-size request is awaited.
    Naws,
    /// The peer accepted all three options.
    Done,
    /// The peer refused an option: the session cannot be set up.
    Failed,
}

/// What the owner of the connection has to do next for the negotiation.
#[derive(Clone, Debug, PartialEq, Eq)]
pub enum Step {
    /// Send these bytes, and go on.
    Send(Vec<u8>),
    /// Read from the transport, hand the bytes in, and go on; if the
    /// connection is closed, give up.
    Read,
    /// Go over to handling input events.
    Done,
    /// Give up.
    Failed,
}

/// A step, as bytes.
pub enum StepView {
    Send(Seq<u8>),
    Read,
    Done,
    Failed,
}

impl View for Step {
    type V = StepView;

    open spec fn view(&self) -> StepView {
        match self {
            Step::Send(bytes) => StepView::Send(bytes@),
            Step::Read => StepView::Read,
            Step::Done => StepView::Done,
            Step::Failed => StepView::Failed,
        }
    }
}

/// The stage after `stage` when the scan for the reply found `found`, and the
/// step that goes with it. An accepted option is followed by the request for
/// the next one; line mode, once accepted, is set to zero in the same breath.
pub open spec fn negotiated(stage: Stage, found: Option<bool>) -> (Stage, StepView) {
    match found {
        None => (stage, StepView::Read),
        Some(false) => (Stage::Failed, StepView::Failed),
        Some(true) => match stage {
            Stage::Linemode => (
                Stage::Echo,
                StepView::Send(
                    seq![IAC, SB, LINEMODE, 1u8, 0u8, IAC, SE] + seq![IAC, WILL, ECHO],
                ),
            ),
            Stage::Echo => (Stage::Naws, StepView::Send(seq![IAC, DO, NAWS])),
            _ => (Stage::Done, StepView::Done),
        },
    }
}

/// The stage after one step from `stage` with the bytes `unread` at hand, the
/// bytes that are left unread, and the step itself.
pub open spec fn negotiation_step(stage: Stage, unread: Seq<u8>) -> (Stage, Seq<u8>, StepView) {
    match stage {
        Stage::Start => (Stage::Linemode, unread, StepView::Send(seq![IAC, DO, LINEMODE])),
        Stage::Linemode => {
            let scan = scan_reply(
                unread,
                TelnetMessage::IacWillLinemode,
                TelnetMessage::IacWontLinemode,
            );
            (negotiated(stage, scan.0).0, scan.1, negotiated(stage, scan.0).1)
        },
        Stage::Echo => {
            let scan = scan_reply(unread, TelnetMessage::IacDoEcho, TelnetMessage::IacDontEcho);
            (negotiated(stage, scan.0).0, scan.1, negotiated(stage, scan.0).1)
        },
        Stage::Naws => {
            let scan = scan_reply(unread, TelnetMessage::IacWillNaws, TelnetMessage::IacWontNaws);
            (negotiated(stage, scan.0).0, scan.1, negotiated(stage, scan.0).1)
        },
        Stage::Done => (Stage::Done, unread, StepView::Done),
        Stage::Failed => (Stage::Failed, unread, StepView::Failed),
    }
}

/// The negotiation of options at the start of a session: controlled line
/// mode, echo by the server, and reports of the window size, in this order.
/// Each is requested and its reply awaited before the next; a refusal ends
/// the negotiation for good.
pub struct Handshake {
    stage: Stage,
}

impl Handshake {
    /// How far the negotiation has come.
    pub closed spec fn stage(&self) -> Stage {
        self.stage
    }

    /// A negotiation that has not begun.
    pub fn new() -> (r: Self)
        ensures
            r.stage() == Stage::Start,
    {
        Handshake { stage: Stage::Start }
    }

    /// How far the negotiation has come.
    pub fn current(&self) -> (r: Stage)
        ensures
            r == self.stage(),
    {
        self.stage
    }

    /// Takes the negotiation one step further with what `telnet` has unread,
    /// and says what is to be done next.
    pub fn step(&mut self, telnet: &mut Telnet) -> (step: Step)
        requires
            old(telnet).wf(),
        ensures
            final(telnet).wf(),
            (final(self).stage(), final(telnet).unread(), step@) == negotiation_step(
                old(self).stage(),
                old(telnet).unread(),
            ),
    {
        match self.stage {
            Stage::Start => {
                self.stage = Stage::Linemode;
                Step::Send(bytes_of(Telnet::linemode_request().as_slice()))
            },
            Stage::Linemode => match telnet.iac_do_linemode() {
                Some(Ok(_)) => {
                    self.stage = Stage::Echo;
                    let mut bytes = bytes_of(Telnet::iac_linemode_zero().as_slice());
                    let mut more = bytes_of(Telnet::echo_request().as_slice());
                    bytes.append(&mut more);
                    Step::Send(bytes)
                },
                Some(Err(_)) => {
                    self.stage = Stage::Failed;
                    Step::Failed
                },
                None => Step::Read,
            },
            Stage::Echo => match telnet.iac_will_echo() {
                Some(Ok(_)) => {
                    self.stage = Stage::Naws;
                    Step::Send(bytes_of(Telnet::naws_request().as_slice()))
                },
                Some(Err(_)) => {
                    self.stage = Stage::Failed;
                    Step::Failed
                },
                None => Step::Read,
            },
            Stage::Naws => match telnet.iac_do_naws() {
                Some(Ok(_)) => {
                    self.stage = Stage::Done;
                    Step::Done
                },
                Some(Err(_)) => {
                    self.stage = Stage::Failed;
                    Step::Failed
                },
                None => Step::Read,
            },
            Stage::Done => Step::Done,
            Stage::Failed => Step::Failed,
        }
    }
}

/// A copy of `bytes`.
fn bytes_of(bytes: &[u8]) -> (r: Vec<u8>)
    ensures
        r@ == bytes@,
{
    let mut r: Vec<u8> = Vec::new();
    let mut i: usize = 0;
    while i < bytes.len()
        invariant
            i <= bytes@.len(),
            r@ == bytes@.take(i as int),
        decreases bytes@.len() - i,
    {
        r.push(bytes[i]);
        i = i + 1;
        assert(r@ =~= bytes@.take(i as int));
    }
    assert(bytes@.take(bytes@.len() as int) =~= bytes@);
    r
}

} // verus!
