//! The Radiation Simulator's event log: a rolling record of the last four
//! kernel messages about injected bit flips, and how its lines and counters
//! are shown.
use vstd::prelude::*;
use vstd::string::StringSliceAdditionalSpecFns;
use crate::canvas::Rgb;

verus! {

/// Number of messages the log keeps.
pub const MAX_LOGS: usize = 4;

/// Bytes stored per message, including at least one terminating zero.
pub const LOG_LINE_LEN: usize = 64;

/// The last messages logged, oldest first in the slots that are in use.
pub struct RadiationLog {
    /// Message slots; a message ends at its first zero byte.
    pub lines: [[u8; 64]; 4],
    /// Number of messages logged so far, at most 4.
    pub count: usize,
}

/// The bytes a message is stored as: its first 63 bytes followed by zeros up
/// to 64.
pub open spec fn stored_line(msg: Seq<u8>) -> Seq<u8> {
    let n = if msg.len() <= 63 {
        msg.len()
    } else {
        63
    };
    Seq::new(64, |k: int| if k < n { msg[k] } else { 0u8 })
}

/// The text of a stored line: its bytes before the first zero.
pub open spec fn line_text(line: Seq<u8>) -> Seq<u8>
    decreases line.len(),
{
    if line.len() == 0 || line[0] == 0 {
        Seq::empty()
    } else {
        seq![line[0]] + line_text(line.drop_first())
    }
}

impl RadiationLog {
    /// The message count is within the four slots.
    pub open spec fn wf(&self) -> bool {
        self.count <= 4
    }

    /// The stored lines as byte sequences, slot 0 first.
    pub open spec fn slots(&self) -> Seq<Seq<u8>> {
        Seq::new(4, |i: int| self.lines@[i]@)
    }

    /// An empty log.
    pub fn new() -> (l: Self)
        ensures
            l.wf(),
            l.count == 0,
            forall|i: int, k: int| 0 <= i < 4 && 0 <= k < 64 ==> l.lines@[i]@[k] == 0,
    {
        RadiationLog { lines: [[0u8; 64]; 4], count: 0 }
    }
}

/// Records the message `msg`: the older messages move up one slot (the oldest
/// is dropped), `msg` cut to 63 bytes fills the last slot, and the count grows
/// up to 4.
pub fn add_radiation_log(log: &mut RadiationLog, msg: &str)
    requires
        old(log).wf(),
    ensures
        final(log).wf(),
        final(log).count == (if old(log).count < 4 {
            old(log).count + 1
        } else {
            4
        }),
        final(log).slots() == old(log).slots().drop_first().push(stored_line(msg.spec_bytes())),
{
    let ghost before = log.slots();
    let bytes = msg.as_bytes();
    let a = log.lines[1];
    let b = log.lines[2];
    let c = log.lines[3];
    let mut line = [0u8; 64];
    let n = if bytes.len() <= LOG_LINE_LEN - 1 {
        bytes.len()
    } else {
        LOG_LINE_LEN - 1
    };
    let mut k: usize = 0;
    while k < n
        invariant
            k <= n,
            n <= 63,
            n == (if bytes@.len() <= 63 { bytes@.len() } else { 63 }),
            forall|j: int| 0 <= j < k ==> line@[j] == bytes@[j],
            forall|j: int| k <= j < 64 ==> line@[j] == 0,
        decreases n - k,
    {
        line[k] = bytes[k];
        k = k + 1;
    }
    log.lines = [a, b, c, line];
    if log.count < MAX_LOGS {
        log.count = log.count + 1;
    }
    assert(line@ =~= stored_line(msg.spec_bytes()));
    assert(log.slots() =~= before.drop_first().push(stored_line(msg.spec_bytes())));
}

/// The text of the `i`-th shown message, oldest first: the messages shown are
/// the last `count` slots.
pub open spec fn shown_line(log: &RadiationLog, i: int) -> Seq<u8> {
    line_text(log.lines@[4 - log.count + i]@)
}

/// The texts of the logged messages, oldest first, each up to its first zero byte.
pub fn visible_lines(log: &RadiationLog) -> (v: Vec<Vec<u8>>)
    requires
        log.wf(),
    ensures
        v@.len() == log.count,
        forall|i: int| 0 <= i < log.count ==> (#[trigger] v@[i])@ == shown_line(log, i),
{
    let mut v: Vec<Vec<u8>> = Vec::new();
    let mut i: usize = 0;
    while i < log.count
        invariant
            log.wf(),
            i <= log.count,
            v@.len() == i,
            forall|j: int| 0 <= j < i ==> (#[trigger] v@[j])@ == shown_line(log, j),
        decreases log.count - i,
    {
        let slot = MAX_LOGS - log.count + i;
        let line = &log.lines[slot];
        let mut text: Vec<u8> = Vec::new();
        let mut len: usize = 0;
        proof {
            assert(line@.subrange(0, 64) =~= line@);
        }
        while len < LOG_LINE_LEN && line[len] != 0
            invariant
                len <= 64,
                line@.len() == 64,
                text@ + line_text(line@.subrange(len as int, 64)) == line_text(line@),
            decreases 64 - len,
        {
            proof {
                assert(line@.subrange(len as int, 64).drop_first() =~= line@.subrange(len + 1, 64));
            }
            text.push(line[len]);
            len = len + 1;
        }
        proof {
            assert(line_text(line@.subrange(len as int, 64)) =~= Seq::<u8>::empty());
            assert(text@ =~= line_text(line@));
        }
        v.push(text);
        i = i + 1;
    }
    v
}

/// Whether `needle` occurs in `hay`.
pub open spec fn contains_bytes(hay: Seq<u8>, needle: Seq<u8>) -> bool {
    exists|i: int|
        0 <= i && i + needle.len() <= hay.len() && #[trigger] hay.subrange(i, i + needle.len())
            == needle
}

fn contains(hay: &[u8], needle: &[u8]) -> (b: bool)
    ensures
        b == contains_bytes(hay@, needle@),
{
    if needle.len() == 0 {
        assert(hay@.subrange(0int, 0int + needle@.len()) =~= needle@);
        assert(contains_bytes(hay@, needle@));
        return true;
    }
    if needle.len() > hay.len() {
        return false;
    }
    let hl = hay.len();
    let last = hl - needle.len();
    let mut i: usize = 0;
    while i <= last
        invariant
            hl == hay@.len(),
            needle@.len() >= 1,
            last == hay@.len() - needle@.len(),
            needle@.len() <= hay@.len(),
            forall|k: int| 0 <= k < i ==> #[trigger] hay@.subrange(k, k + needle@.len()) != needle@,
        decreases last + 1 - i,
    {
        let mut j: usize = 0;
        let mut same = true;
        while same && j < needle.len()
            invariant
                i <= last,
                hl == hay@.len(),
                last == hay@.len() - needle@.len(),
                j <= needle@.len(),
                same ==> forall|l: int| 0 <= l < j ==> hay@[i + l] == needle@[l],
                !same ==> hay@.subrange(i as int, i + needle@.len()) != needle@,
            decreases needle@.len() - j + (if same { 1int } else { 0int }),
        {
            if hay[i + j] != needle[j] {
                same = false;
                assert(hay@.subrange(i as int, i + needle@.len())[j as int] != needle@[j as int]);
            } else {
                j = j + 1;
            }
        }
        if same {
            assert(hay@.subrange(i as int, i + needle@.len()) =~= needle@);
            return true;
        }
        i = i + 1;
    }
    false
}

/// The color a log line is shown in: red for a double-bit flip (`FLIP2`),
/// orange for a single-bit flip (`FLIP1`), green for other status lines.
pub open spec fn log_line_color(line: Seq<u8>) -> Rgb {
    if contains_bytes(line, "FLIP2".spec_bytes()) {
        (235u8, 100u8, 100u8)
    } else if contains_bytes(line, "FLIP1".spec_bytes()) {
        (230u8, 170u8, 60u8)
    } else {
        (90u8, 200u8, 150u8)
    }
}

/// The color the log line `line` is shown in (see `log_line_color`).
pub fn line_color(line: &[u8]) -> (c: Rgb)
    ensures
        c == log_line_color(line@),
{
    if contains(line, "FLIP2".as_bytes()) {
        (235, 100, 100)
    } else if contains(line, "FLIP1".as_bytes()) {
        (230, 170, 60)
    } else {
        (90, 200, 150)
    }
}

/// The decimal digits of `v`, most significant first, as ASCII bytes.
pub open spec fn decimal(v: nat) -> Seq<u8>
    decreases v,
{
    if v < 10 {
        seq![(48 + v) as u8]
    } else {
        decimal(v / 10).push((48 + v % 10) as u8)
    }
}

/// The text shown for a counter value: its decimal digits, most significant
/// first (`"0"` for zero).
pub fn ecc_number_text(value: u64) -> (t: Vec<u8>)
    ensures
        t@ == decimal(value as nat),
{
    let mut digits: Vec<u8> = Vec::new();
    let mut n = value;
    loop
        invariant_except_break
            decimal(value as nat) == decimal(n as nat) + digits@.reverse(),
        ensures
            decimal(value as nat) == digits@.reverse(),
        decreases n,
    {
        let d = (n % 10) as u8;
        let ghost old_digits = digits@;
        if n < 10 {
            digits.push(48 + d);
            proof {
                assert(decimal(n as nat) =~= seq![(48 + n) as u8]);
                assert(digits@.reverse() =~= seq![(48 + d) as u8] + old_digits.reverse());
            }
            break;
        }
        digits.push(48 + d);
        proof {
            assert(digits@.reverse() =~= seq![(48 + d) as u8] + old_digits.reverse());
            assert(decimal(n as nat) == decimal((n / 10) as nat).push((48 + n % 10) as u8));
            assert(decimal((n / 10) as nat).push((48 + n % 10) as u8) + old_digits.reverse()
                =~= decimal((n / 10) as nat) + (seq![(48 + d) as u8] + old_digits.reverse()));
        }
        n = n / 10;
    }
    let mut out: Vec<u8> = Vec::new();
    let mut k = digits.len();
    while k > 0
        invariant
            k <= digits@.len(),
            out@ == digits@.reverse().subrange(0, digits@.len() - k),
        decreases k,
    {
        k = k - 1;
        out.push(digits[k]);
    }
    proof {
        assert(digits@.reverse().subrange(0, digits@.len() as int) =~= digits@.reverse());
    }
    out
}


/// Where the parts of the radiation simulator window go, from the window
/// body's corner, for a window `w` pixels wide.
#[derive(Clone, Copy, Debug, PartialEq, Eq)]
pub struct RadiationLayout {
    /// Width of the control card and of the log panel.
    pub card_w: i32,
    /// Left edge of the FLIP 1 button.
    pub flip1_x: i32,
    /// Left edge of the FLIP 2 button.
    pub flip2_x: i32,
    /// Width of each of the three counter boxes.
    pub box_w: i32,
    /// Left edge of the quarantine counter box.
    pub quarantine_x: i32,
    /// Left edge of the relocation counter box.
    pub relocated_x: i32,
}

/// The layout of a radiation simulator window `w` pixels wide: the card 24
/// pixels in from each side, the buttons 160 and 96 pixels from the right
/// edge, and three counter boxes 4 pixels apart across the card.
pub open spec fn radiation_layout_of(w: int) -> RadiationLayout {
    let card_w = w - 48;
    let d = card_w - 8;
    let box_w = if d >= 0 { d / 3 } else { -((-d) / 3) };
    RadiationLayout {
        card_w: card_w as i32,
        flip1_x: (w - 160) as i32,
        flip2_x: (w - 96) as i32,
        box_w: box_w as i32,
        quarantine_x: (24 + box_w + 4) as i32,
        relocated_x: (24 + 2 * (box_w + 4)) as i32,
    }
}

/// The layout of the radiation simulator window (see `radiation_layout_of`),
/// its width taken as an `i32`.
pub fn radiation_layout(w: usize) -> (l: RadiationLayout)
    requires
        w as i32 >= i32::MIN + 160,
    ensures
        l == radiation_layout_of(w as i32 as int),
{
    let wi = w as i32;
    let card_w = wi - 48;
    let d = card_w - 8;
    let box_w = if d >= 0 { d / 3 } else { -((-d) / 3) };
    RadiationLayout {
        card_w,
        flip1_x: wi - 160,
        flip2_x: wi - 96,
        box_w,
        quarantine_x: 24 + box_w + 4,
        relocated_x: 24 + 2 * (box_w + 4),
    }
}

} // verus!
