//! Lines that let a traffic capture be decrypted.

use crate::shared::Beginning;
use crate::shared::Change;
use crate::shared::Shared;
use crate::tls::foreign;
use crate::tls::foreign::print_name;
use vstd::prelude::*;
use vstd::rwlock::RwLockPredicate;
use vstd::string::StringSliceAdditionalSpecFns;

verus! {

/// The small hexadecimal digit for a number below sixteen.
pub open spec fn hex_digit(n: u8) -> u8 {
    if n < 10 {
        (0x30 + n) as u8
    } else {
        (0x57 + n) as u8
    }
}

/// The bytes of `s` in hexadecimal, two digits each.
pub open spec fn hex(s: Seq<u8>) -> Seq<u8>
    decreases s.len(),
{
    if s.len() == 0 {
        Seq::empty()
    } else {
        hex(s.drop_last()) + seq![hex_digit(s.last() / 16), hex_digit(s.last() % 16)]
    }
}

/// One line of the log: a label, the client's random value and a secret.
pub open spec fn log_line(label: Seq<u8>, client_random: Seq<u8>, secret: Seq<u8>) -> Seq<u8> {
    label + seq![0x20u8] + hex(client_random) + seq![0x20u8] + hex(secret) + seq![0x0au8]
}

/// The small hexadecimal digit for a number below sixteen.
fn to_hex_digit(n: u8) -> (r: u8)
    requires
        n < 16,
    ensures
        r == hex_digit(n),
{
    if n < 10 {
        0x30 + n
    } else {
        0x57 + n
    }
}

/// Appends the bytes of `s` in hexadecimal.
fn push_hex(out: &mut Vec<u8>, s: &[u8])
    ensures
        final(out)@ == old(out)@ + hex(s@),
{
    let ghost before: Seq<u8> = out@;
    let mut i: usize = 0;
    proof {
        assert(s@.take(0) =~= Seq::<u8>::empty());
        assert(before + hex(s@.take(0)) =~= before);
    }
    while i < s.len()
        invariant
            i <= s@.len(),
            out@ == before + hex(s@.take(i as int)),
        decreases s@.len() - i,
    {
        let ghost known: Seq<u8> = out@;
        out.push(to_hex_digit(s[i] / 16));
        out.push(to_hex_digit(s[i] % 16));
        proof {
            let next = s@.take(i + 1);
            assert(next.drop_last() =~= s@.take(i as int));
            assert(out@ =~= before + hex(next));
        }
        i = i + 1;
    }
    proof {
        assert(s@.take(i as int) =~= s@);
    }
}

/// One line of the log.
pub fn key_log_line(label: &str, client_random: &[u8], secret: &[u8]) -> (r: Vec<u8>)
    ensures
        r@ == log_line(label.spec_bytes(), client_random@, secret@),
{
    let mut line: Vec<u8> = Vec::new();
    line.extend_from_slice(label.as_bytes());
    line.push(0x20);
    push_hex(&mut line, client_random);
    line.push(0x20);
    push_hex(&mut line, secret);
    line.push(0x0a);
    proof {
        assert(line@ =~= log_line(label.spec_bytes(), client_random@, secret@));
    }
    line
}

/// The digit for a number below sixteen: `0` to `9`, then `a` to `f`.
pub proof fn law_hex_digits(n: u8)
    requires
        n < 16,
    ensures
        hex_digit(n) == seq![
            0x30u8, 0x31, 0x32, 0x33, 0x34, 0x35, 0x36, 0x37, 0x38, 0x39, 0x61, 0x62, 0x63, 0x64,
            0x65, 0x66,
        ][n as int],
{
}

/// Each byte takes two digits, the higher one first, in the order of the bytes.
pub proof fn law_hex_digits_of_each_byte(s: Seq<u8>, i: int)
    requires
        0 <= i < s.len(),
    ensures
        hex(s).len() == 2 * s.len(),
        hex(s)[2 * i] == hex_digit(s[i] / 16),
        hex(s)[2 * i + 1] == hex_digit(s[i] % 16),
    decreases s.len(),
{
    let front = s.drop_last();
    if i < front.len() {
        law_hex_digits_of_each_byte(front, i);
        assert(front[i] == s[i]);
    } else if front.len() > 0 {
        law_hex_digits_of_each_byte(front, 0);
    }
}

/// A line of the log is a label, the client's random value and a secret in hexadecimal,
/// with a space between them and an end of line behind.
pub proof fn law_log_line_layout(label: Seq<u8>, client_random: Seq<u8>, secret: Seq<u8>)
    ensures
        ({
            let line = log_line(label, client_random, secret);
            let first = label.len() as int;
            let second = first + 1 + hex(client_random).len();
            &&& line.len() == second + 2 + hex(secret).len()
            &&& line.subrange(0, first) == label
            &&& line[first] == ' ' as u8
            &&& line.subrange(first + 1, second) == hex(client_random)
            &&& line[second] == ' ' as u8
            &&& line.subrange(second + 1, line.len() - 1) == hex(secret)
            &&& line.last() == 0x0a
        }),
{
    let line = log_line(label, client_random, secret);
    let first = label.len() as int;
    let second = first + 1 + hex(client_random).len();
    assert(line.subrange(0, first) =~= label);
    assert(line.subrange(first + 1, second) =~= hex(client_random));
    assert(line.subrange(second + 1, line.len() - 1) =~= hex(secret));
}

/// Hands logged lines on to a sink. Without a sink they are lost.
pub fn drain_into(lines: &[u8], sink: &mut Option<Vec<u8>>)
    ensures
        match (*old(sink), *final(sink)) {
            (Some(before), Some(after)) => after@ == before@ + lines@,
            (None, None) => true,
            _ => false,
        },
{
    match sink {
        Some(out) => {
            out.extend_from_slice(lines);
        },
        None => {},
    }
}

/// Lines that wait to be handed on.
pub struct LogLines {
    bytes: Vec<u8>,
}

impl View for LogLines {
    type V = Seq<u8>;

    closed spec fn view(&self) -> Seq<u8> {
        self.bytes@
    }
}

/// What one line of the log says.
pub struct LogEntry {
    pub label: Seq<u8>,
    pub client_random: Seq<u8>,
    pub secret: Seq<u8>,
}

/// The lines of the log for some entries, one after the other.
pub open spec fn log_text(entries: Seq<LogEntry>) -> Seq<u8>
    decreases entries.len(),
{
    if entries.len() == 0 {
        Seq::empty()
    } else {
        let last = entries.last();
        log_text(entries.drop_last()) + log_line(last.label, last.client_random, last.secret)
    }
}

/// Whether `s` is made of whole lines of the log, and nothing else.
pub open spec fn whole_lines(s: Seq<u8>) -> bool {
    exists|entries: Seq<LogEntry>| #[trigger] log_text(entries) == s
}

/// No lines are whole lines.
pub(crate) proof fn lemma_no_lines()
    ensures
        whole_lines(Seq::empty()),
{
    assert(log_text(Seq::empty()) == Seq::<u8>::empty());
}

/// Whole lines and one more are whole lines.
proof fn lemma_one_more_line(s: Seq<u8>, entry: LogEntry)
    requires
        whole_lines(s),
    ensures
        whole_lines(s + log_line(entry.label, entry.client_random, entry.secret)),
{
    let entries = choose|entries: Seq<LogEntry>| #[trigger] log_text(entries) == s;
    let more = entries.push(entry);
    assert(more.drop_last() =~= entries);
    assert(log_text(more) == s + log_line(entry.label, entry.client_random, entry.secret));
}

impl LogLines {
    /// No lines.
    pub fn new() -> (r: Self)
        ensures
            r@ == Seq::<u8>::empty(),
    {
        LogLines { bytes: Vec::new() }
    }

    /// Adds a line.
    pub fn add_line(&mut self, label: &str, client_random: &[u8], secret: &[u8])
        ensures
            final(self)@ == old(self)@ + log_line(label.spec_bytes(), client_random@, secret@),
    {
        let line: Vec<u8> = key_log_line(label, client_random, secret);
        self.bytes.extend_from_slice(&line);
    }

    /// The lines.
    pub fn into_bytes(self) -> (r: Vec<u8>)
        ensures
            r@ == self@,
    {
        self.bytes
    }
}

/// The log holds whole lines at all times.
pub struct HoldsWholeLines;

impl RwLockPredicate<LogLines> for HoldsWholeLines {
    open spec fn inv(self, v: LogLines) -> bool {
        whole_lines(v@)
    }
}

/// Collects the lines that a connection logs until they are handed on.
///
/// The log is shared with the connection, so lines may come between any two calls.
/// What it holds is made of whole lines at all times.
pub struct QuicheKeyLog {
    lines: Shared<LogLines, HoldsWholeLines>,
}

impl QuicheKeyLog {
    #[verifier::type_invariant]
    spec fn lock_holds_lines(&self) -> bool {
        self.lines.pred() == HoldsWholeLines
    }

    /// Where the lines are.
    pub closed spec fn place(&self) -> Shared<LogLines, HoldsWholeLines> {
        self.lines
    }

    /// Whether the log began without lines.
    pub open spec fn began_empty(&self) -> bool {
        exists|lines: LogLines| #[trigger]
            self.place().began_with(lines) && lines@ == Seq::<u8>::empty()
    }

    /// An empty log.
    pub fn new() -> (r: Self)
        ensures
            r.began_empty(),
    {
        proof {
            lemma_no_lines();
        }
        let lines: LogLines = LogLines::new();
        let ghost first: LogLines = lines;
        let r: Self = QuicheKeyLog { lines: Shared::new(lines, Ghost(HoldsWholeLines)) };
        proof {
            assert(r.place().began_with(first));
        }
        r
    }

    /// Takes the lines that wait and hands them on to a sink, whole lines only.
    pub fn drain(&self, sink: &mut Option<Vec<u8>>)
        ensures
            match (*old(sink), *final(sink)) {
                (Some(before), Some(after)) => exists|lines: Seq<u8>|
                    #![trigger whole_lines(lines)]
                    after@ == before@ + lines && whole_lines(lines),
                (None, None) => true,
                _ => false,
            },
            handed_on(*self, *old(sink), *final(sink)),
    {
        proof {
            use_type_invariant(self);
        }
        let (lines, vacancy) = self.lines.take_out();
        proof {
            lemma_no_lines();
        }
        let change: Ghost<Change<LogLines, HoldsWholeLines>> = vacancy.fill(LogLines::new());
        proof {
            assert(change@.place() == self.place());
        }
        let bytes: Vec<u8> = lines.into_bytes();
        proof {
            assert(whole_lines(bytes@));
        }
        drain_into(&bytes, sink);
    }
}

/// Whether the lines that waited in a log went to a sink, and wait no more.
pub open spec fn handed_on(
    log: QuicheKeyLog,
    before: Option<Vec<u8>>,
    after: Option<Vec<u8>>,
) -> bool {
    exists|change: Change<LogLines, HoldsWholeLines>|
        {
            &&& #[trigger] change.place() == log.place()
            &&& change.after()@ == Seq::<u8>::empty()
            &&& before is Some ==> after is Some && after->0@ == before->0@ + change.before()@
            &&& before is None ==> after is None
        }
}

/// Lines that were handed on were taken from the log, which is empty then, and stand
/// behind what the sink held, all of them and in order.
pub proof fn law_drained_lines_reach_the_sink(
    log: QuicheKeyLog,
    before: Option<Vec<u8>>,
    after: Option<Vec<u8>>,
)
    requires
        handed_on(log, before, after),
    ensures
        after is Some <==> before is Some,
        exists|change: Change<LogLines, HoldsWholeLines>|
            {
                &&& #[trigger] change.place() == log.place()
                &&& change.after()@.len() == 0
                &&& before is Some ==> after->0@ == before->0@ + change.before()@
            },
{
}

impl core::fmt::Debug for QuicheKeyLog {
    /// Prints the type's name, and nothing of what it holds.
    fn fmt(&self, f: &mut core::fmt::Formatter<'_>) -> (r: core::fmt::Result)
        ensures
            foreign::printed_name("QuicheKeyLog"@, r),
    {
        print_name(f, "QuicheKeyLog")
    }
}

impl rustls::KeyLog for QuicheKeyLog {
    /// Adds a line to those that wait.
    fn log(&self, label: &str, client_random: &[u8], secret: &[u8])
        ensures
            exists|change: Change<LogLines, HoldsWholeLines>| #[trigger]
                change.place() == self.place() && change.after()@ == change.before()@ + log_line(
                    label.spec_bytes(),
                    client_random@,
                    secret@,
                ),
    {
        proof {
            use_type_invariant(self);
        }
        let (mut lines, vacancy) = self.lines.take_out();
        proof {
            let entry = LogEntry {
                label: label.spec_bytes(),
                client_random: client_random@,
                secret: secret@,
            };
            lemma_one_more_line(lines@, entry);
        }
        lines.add_line(label, client_random, secret);
        let change: Ghost<Change<LogLines, HoldsWholeLines>> = vacancy.fill(lines);
        proof {
            assert(change@.place() == self.place());
        }
    }
}

/// A log begins without lines.
pub proof fn law_log_begins_empty(log: QuicheKeyLog)
    requires
        log.began_empty(),
    ensures
        exists|beginning: Beginning<LogLines, HoldsWholeLines>| #[trigger]
            beginning.place() == log.place() && beginning.first()@.len() == 0,
{
}

/// The lines of some entries follow one another, and no entries have no lines.
pub proof fn law_lines_follow_one_another(entries: Seq<LogEntry>, entry: LogEntry)
    ensures
        log_text(Seq::empty()).len() == 0,
        log_text(entries.push(entry)) == log_text(entries) + log_line(
            entry.label,
            entry.client_random,
            entry.secret,
        ),
        whole_lines(log_text(entries)),
{
    assert(entries.push(entry).drop_last() =~= entries);
}

/// Whole lines are those of some entries, and nothing else.
pub proof fn law_whole_lines_have_entries(s: Seq<u8>)
    requires
        whole_lines(s),
    ensures
        exists|entries: Seq<LogEntry>| #[trigger] log_text(entries) == s,
        s.len() > 0 ==> s.last() == 0x0a,
{
    let entries = choose|entries: Seq<LogEntry>| #[trigger] log_text(entries) == s;
    if entries.len() > 0 {
        let last = entries.last();
        let front = log_text(entries.drop_last());
        let line = log_line(last.label, last.client_random, last.secret);
        assert(s == front + line);
        assert(line.last() == 0x0a);
    }
}

} // verus!
