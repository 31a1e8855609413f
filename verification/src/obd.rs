//! A real car, through an OBD-II dongle: the ELM327 conversation -- the
//! AT-command dialect every consumer dongle speaks -- and how the answers to
//! the standard Mode 01 PIDs land in `Telemetry`.
//!
//! Only reads: Mode 01 requests to the broadcast address, nothing that writes
//! to an ECU. Speed, fuel level, ambient temperature, the MIL, and the odometer
//! where the car reports it. Everything else keeps its default; a make-specific
//! request (e.g. a hybrid's battery SOC) can be added to `Pid` once its answer
//! is known.

use vstd::prelude::*;
use vstd::string::StringSliceAdditionalSpecFns;
use vstd::utf8::encode_utf8;

use crate::fixed::{div_nearest, div_round};
use crate::telemetry::{Telemetry, TelemetryView, Warn};
use crate::text::{
    append, chars, collect, contains, debug_text, digit_value, eq_ignore_case, find, find_char,
    first_from, hex_byte, hex_number, hex_pair, hex_value, hexadecimal, is_hex, is_hex_byte, lossy,
    position, push_hex, quoted, radix_error, same, same_but_case, slice, strip, strip_end, text_of,
    trim, trimmed, unsigned,
};

verus! {

// ----- the link ------------------------------------------------------------------

/// How the dongle is reached.
#[derive(Clone, Debug, PartialEq)]
pub enum Link {
    /// Bluetooth Classic, RFCOMM channel 1 (the ELM327 convention).
    Bluetooth([u8; 6]),
    /// A Wi-Fi dongle: `host:port`, usually `192.168.0.10:35000`.
    Tcp(String),
    /// A serial device, e.g. `/dev/rfcomm0` or `/dev/ttyUSB0`.
    Serial(String),
}

/// What a `Link` says.
#[verifier::ext_equal]
pub enum LinkView {
    Bluetooth(Seq<u8>),
    Tcp(Seq<char>),
    Serial(Seq<char>),
}

impl View for Link {
    type V = LinkView;

    open spec fn view(&self) -> LinkView {
        match self {
            Link::Bluetooth(addr) => LinkView::Bluetooth(addr@),
            Link::Tcp(addr) => LinkView::Tcp(addr@),
            Link::Serial(path) => LinkView::Serial(path@),
        }
    }
}

/// The bytes of `s` from `i` on, written in hexadecimal with colons between
/// them, or what is wrong with the first that is none.
pub open spec fn colon_bytes(s: Seq<char>, i: int) -> Result<Seq<u8>, Seq<char>>
    decreases s.len() - i,
{
    let end = position(s, ':', i);
    let piece = s.subrange(i, end);
    if !is_hex_byte(piece) {
        Err(radix_error(piece))
    } else {
        let first = hex_number(unsigned(piece)) as u8;
        if i <= end < s.len() {
            match colon_bytes(s, end + 1) {
                Ok(rest) => Ok(seq![first] + rest),
                Err(e) => Err(e),
            }
        } else {
            Ok(seq![first])
        }
    }
}

/// The link that `spec` names, or what is wrong with it.
pub open spec fn parsed(spec: Seq<char>) -> Result<LinkView, Seq<char>> {
    let colon = position(spec, ':', 0);
    let kind = spec.take(colon);
    let rest = spec.skip(colon + 1);
    if colon >= spec.len() {
        Err("no link kind in "@ + debug_text(spec))
    } else if kind == "bt"@ {
        match colon_bytes(rest, 0) {
            Ok(bytes) => if bytes.len() == 6 {
                Ok(LinkView::Bluetooth(bytes))
            } else {
                Err("bad Bluetooth address "@ + debug_text(rest))
            },
            Err(e) => Err(e),
        }
    } else if kind == "tcp"@ {
        Ok(LinkView::Tcp(rest))
    } else if kind == "serial"@ {
        Ok(LinkView::Serial(rest))
    } else {
        Err("unknown link kind "@ + debug_text(kind))
    }
}

/// The bytes of `s`, written in hexadecimal with colons between them.
fn bytes_of(s: &[char]) -> (r: Result<Vec<u8>, String>)
    ensures
        r is Ok == colon_bytes(s@, 0) is Ok,
        r is Ok ==> r->Ok_0@ == colon_bytes(s@, 0)->Ok_0,
        r is Err ==> r->Err_0@ == colon_bytes(s@, 0)->Err_0,
{
    let mut bytes: Vec<u8> = Vec::new();
    let mut i: usize = 0;
    loop
        invariant
            i <= s@.len(),
            colon_bytes(s@, 0) is Ok == colon_bytes(s@, i as int) is Ok,
            colon_bytes(s@, 0) is Ok ==> colon_bytes(s@, 0)->Ok_0 == bytes@ + colon_bytes(
                s@,
                i as int,
            )->Ok_0,
            colon_bytes(s@, 0) is Err ==> colon_bytes(s@, 0)->Err_0 == colon_bytes(
                s@,
                i as int,
            )->Err_0,
        decreases s@.len() - i,
    {
        let end: usize = find_char(s, ':', i);
        let piece: String = slice(s, i, end);
        match hex_byte(piece.as_str()) {
            Err(e) => return Err(e),
            Ok(b) => {
                let ghost before = bytes@;
                bytes.push(b);
                if end == s.len() {
                    assert(bytes@ == before + seq![b]);
                    return Ok(bytes);
                }
                assert(colon_bytes(s@, end + 1) is Ok ==> before + (seq![b] + colon_bytes(
                    s@,
                    end + 1,
                )->Ok_0) == bytes@ + colon_bytes(s@, end + 1)->Ok_0);
                i = end + 1;
            },
        }
    }
}

impl Link {
    /// Parse `bt:<aa:bb:cc:dd:ee:ff>`, `tcp:<host:port>` or `serial:<path>`.
    pub fn parse(spec: &str) -> (r: Result<Self, String>)
        ensures
            r is Ok == parsed(spec@) is Ok,
            r is Ok ==> r->Ok_0@ == parsed(spec@)->Ok_0,
            r is Err ==> r->Err_0@ == parsed(spec@)->Err_0,
    {
        let s: Vec<char> = chars(spec);
        let colon: usize = find_char(s.as_slice(), ':', 0);
        if colon == s.len() {
            return Err(append("no link kind in ", quoted(spec).as_str()));
        }
        let kind: String = slice(s.as_slice(), 0, colon);
        let rest: String = slice(s.as_slice(), colon + 1, s.len());
        assert(kind@ == spec@.take(colon as int));
        assert(rest@ == spec@.skip(colon + 1));
        if same(kind.as_str(), "bt") {
            let letters: Vec<char> = chars(rest.as_str());
            match bytes_of(letters.as_slice()) {
                Err(e) => Err(e),
                Ok(b) => {
                    if b.len() == 6 {
                        let addr: [u8; 6] = [b[0], b[1], b[2], b[3], b[4], b[5]];
                        assert(addr@ == b@);
                        Ok(Link::Bluetooth(addr))
                    } else {
                        Err(append("bad Bluetooth address ", quoted(rest.as_str()).as_str()))
                    }
                },
            }
        } else if same(kind.as_str(), "tcp") {
            Ok(Link::Tcp(rest))
        } else if same(kind.as_str(), "serial") {
            Ok(Link::Serial(rest))
        } else {
            Err(append("unknown link kind ", quoted(kind.as_str()).as_str()))
        }
    }
}

/// A Bluetooth address in the kernel's byte order.
pub open spec fn reversed(addr: Seq<u8>) -> Seq<u8> {
    addr.reverse()
}

/// A Bluetooth address in the kernel's byte order, the reverse of the printed
/// one.
pub fn kernel_order(addr: &[u8; 6]) -> (r: [u8; 6])
    ensures
        r@ == reversed(addr@),
        r@ == addr@.reverse(),
{
    let r: [u8; 6] = [addr[5], addr[4], addr[3], addr[2], addr[1], addr[0]];
    assert(r@ == addr@.reverse());
    r
}

// ----- the PIDs ------------------------------------------------------------------

/// The PIDs polled, with how each answer lands in `Telemetry`. Mode 01,
/// standard across makes.
#[derive(Clone, Copy, Debug, PartialEq, Eq, Structural)]
pub enum Pid {
    /// 0D: vehicle speed, km/h.
    Speed,
    /// 2F: fuel tank level, %.
    FuelLevel,
    /// 46: ambient air temperature, deg C.
    AmbientTemp,
    /// 01: monitor status, including the MIL.
    MilStatus,
    /// A6: odometer, km (2020+ cars).
    Odometer,
}

/// The number of a PID.
pub open spec fn code_of(pid: Pid) -> u8 {
    match pid {
        Pid::Speed => 0x0d,
        Pid::FuelLevel => 0x2f,
        Pid::AmbientTemp => 0x46,
        Pid::MilStatus => 0x01,
        Pid::Odometer => 0xa6,
    }
}

/// How many data bytes an answer to `pid` needs.
pub open spec fn needed(pid: Pid) -> nat {
    match pid {
        Pid::Odometer => 4,
        _ => 1,
    }
}

/// Four big-endian bytes as a number.
pub open spec fn be32(d: Seq<u8>) -> int {
    0x100_0000 * d[0] + 0x1_0000 * d[1] + 0x100 * d[2] + d[3]
}

/// `t` after the data bytes `d` of an answer to `pid`.
pub open spec fn after_answer(t: TelemetryView, pid: Pid, d: Seq<u8>) -> TelemetryView {
    if d.len() < needed(pid) {
        t
    } else {
        match pid {
            Pid::Speed => TelemetryView { speed_kmh: (1_000_000 * d[0]) as i64, ..t },
            Pid::FuelLevel => TelemetryView {
                fuel_level: div_round(1_000_000 * d[0], 255) as i64,
                ..t
            },
            Pid::AmbientTemp => TelemetryView { outside_temp_c: (d[0] - 40) as i32, ..t },
            Pid::MilStatus => TelemetryView {
                engine: if d[0] & 0x80 != 0 {
                    Warn::Amber
                } else {
                    Warn::Off
                },
                ..t
            },
            Pid::Odometer => TelemetryView { odo_km: (100_000 * be32(d)) as i64, ..t },
        }
    }
}

/// Whether the data bytes `d` answer `pid`.
pub open spec fn answers(pid: Pid, d: Seq<u8>) -> bool {
    d.len() >= needed(pid)
}

impl Pid {
    pub fn code(self) -> (code: u8)
        ensures
            code == code_of(self),
    {
        match self {
            Pid::Speed => 0x0d,
            Pid::FuelLevel => 0x2f,
            Pid::AmbientTemp => 0x46,
            Pid::MilStatus => 0x01,
            Pid::Odometer => 0xa6,
        }
    }

    /// Fold the data bytes of an answer into `t`. `false` if too short.
    pub fn apply(self, t: &mut Telemetry, d: &[u8]) -> (r: bool)
        ensures
            r == answers(self, d@),
            r == (d@.len() >= needed(self)),
            final(t)@ == after_answer(old(t)@, self, d@),
            !r ==> *final(t) == *old(t),
    {
        let n: usize = d.len();
        match self {
            Pid::Speed => {
                if n < 1 {
                    return false;
                }
                t.speed_kmh = d[0] as i64 * 1_000_000;
            },
            Pid::FuelLevel => {
                if n < 1 {
                    return false;
                }
                t.fuel_level = div_nearest(d[0] as i128 * 1_000_000, 255) as i64;
            },
            Pid::AmbientTemp => {
                if n < 1 {
                    return false;
                }
                t.outside_temp_c = d[0] as i32 - 40;
            },
            Pid::MilStatus => {
                if n < 1 {
                    return false;
                }
                t.engine = if d[0] & 0x80 != 0 { Warn::Amber } else { Warn::Off };
            },
            Pid::Odometer => {
                if n < 4 {
                    return false;
                }
                t.odo_km = 100_000 * (0x100_0000 * d[0] as i64 + 0x1_0000 * d[1] as i64 + 0x100
                    * d[2] as i64 + d[3] as i64);
            },
        }
        true
    }
}

/// The PID of request number `turn`, round-robin: speed every other time, the
/// slow ones in between.
pub open spec fn schedule(turn: int) -> Pid {
    let k = turn % 8;
    if k == 1 {
        Pid::FuelLevel
    } else if k == 3 {
        Pid::AmbientTemp
    } else if k == 5 {
        Pid::MilStatus
    } else if k == 7 {
        Pid::Odometer
    } else {
        Pid::Speed
    }
}

/// What to ask for on request number `turn`.
pub fn scheduled(turn: u64) -> (pid: Pid)
    ensures
        pid == schedule(turn as int),
{
    match turn % 8 {
        1 => Pid::FuelLevel,
        3 => Pid::AmbientTemp,
        5 => Pid::MilStatus,
        7 => Pid::Odometer,
        _ => Pid::Speed,
    }
}

// ----- the ELM327 conversation -----------------------------------------------------

/// The texts in `v`.
pub open spec fn texts(v: Seq<String>) -> Seq<Seq<char>> {
    Seq::new(v.len(), |i: int| v[i]@)
}

/// Where the first line break of `s` at or after `i` is, or the end.
pub open spec fn break_from(s: Seq<char>, i: int) -> int
    decreases s.len() - i,
{
    if i >= s.len() || s[i] == '\r' || s[i] == '\n' {
        i
    } else {
        break_from(s, i + 1)
    }
}

/// A line without the prompt and the white space around it.
pub open spec fn cleaned(raw: Seq<char>) -> Seq<char> {
    trimmed(strip_end(trimmed(raw), '>'))
}

/// Whether a line of the reply to `cmd` is more than a blank line or the echo.
pub open spec fn says_something(line: Seq<char>, cmd: Seq<char>) -> bool {
    line.len() > 0 && !same_but_case(line, cmd)
}

/// The lines of the reply `s` to `cmd` from `i` on, echo and blank lines
/// dropped.
pub open spec fn lines_from(s: Seq<char>, cmd: Seq<char>, i: int) -> Seq<Seq<char>>
    decreases s.len() - i,
{
    let end = break_from(s, i);
    let line = cleaned(s.subrange(i, end));
    let rest = if i <= end < s.len() {
        lines_from(s, cmd, end + 1)
    } else {
        Seq::empty()
    };
    if says_something(line, cmd) {
        seq![line] + rest
    } else {
        rest
    }
}

/// The lines that `chunk` of the reply to `cmd` holds.
pub open spec fn lines_in(chunk: Seq<u8>, cmd: Seq<char>) -> Seq<Seq<char>> {
    lines_from(text_of(chunk), cmd, 0)
}

fn find_break(v: &[char], from: usize) -> (i: usize)
    requires
        from <= v@.len(),
    ensures
        i == break_from(v@, from as int),
        from <= i <= v@.len(),
{
    let mut i: usize = from;
    while i < v.len() && v[i] != '\r' && v[i] != '\n'
        invariant
            from <= i <= v@.len(),
            break_from(v@, i as int) == break_from(v@, from as int),
        decreases v@.len() - i,
    {
        i = i + 1;
    }
    i
}

/// Append the lines that `chunk` of the reply to `cmd` holds.
fn push_lines(lines: &mut Vec<String>, chunk: &[u8], cmd: &[char])
    ensures
        texts(final(lines)@) == texts(old(lines)@) + lines_in(chunk@, cmd@),
{
    let s: Vec<char> = chars(lossy(chunk).as_str());
    let ghost all = texts(lines@) + lines_from(s@, cmd@, 0);
    let mut i: usize = 0;
    loop
        invariant_except_break
            i <= s@.len(),
            texts(lines@) + lines_from(s@, cmd@, i as int) == all,
        ensures
            texts(lines@) == all,
        decreases s@.len() - i,
    {
        let end: usize = find_break(s.as_slice(), i);
        let raw: &[char] = vstd::slice::slice_subrange(s.as_slice(), i, end);
        let line: &[char] = trim(strip(trim(raw), '>'));
        let ghost before = texts(lines@);
        let ghost rest = if end < s@.len() {
            lines_from(s@, cmd@, end + 1)
        } else {
            Seq::empty()
        };
        if line.len() > 0 && !eq_ignore_case(line, cmd) {
            lines.push(collect(line));
            assert(texts(lines@) == before.push(line@));
            assert(before + (seq![line@] + rest) == before.push(line@) + rest);
        }
        assert(texts(lines@) + rest == all);
        if end == s.len() {
            assert(texts(lines@) + rest == texts(lines@));
            break;
        }
        i = end + 1;
    }
}

/// The command with which `pid` is asked for.
pub open spec fn request(pid: Pid) -> Seq<char> {
    "01"@ + hex_pair(code_of(pid))
}

/// How the answer to `pid` begins.
pub open spec fn reply_mark(pid: Pid) -> Seq<char> {
    "41"@ + hex_pair(code_of(pid))
}

/// The hexadecimal digits in `s`, in order.
pub open spec fn hex_only(s: Seq<char>) -> Seq<char>
    decreases s.len(),
{
    if s.len() == 0 {
        s
    } else if is_hex(s.last()) {
        hex_only(s.drop_last()).push(s.last())
    } else {
        hex_only(s.drop_last())
    }
}

/// Digits two by two as bytes; an odd one at the end is dropped.
pub open spec fn byte_pairs(s: Seq<char>) -> Seq<u8> {
    Seq::new(s.len() / 2, |i: int| (16 * hex_value(s[2 * i]) + hex_value(s[2 * i + 1])) as u8)
}

/// The data bytes that follow `mark` on a line. With headers on (or a dongle
/// that prints spaces) the answer follows the CAN id and a length byte; it is
/// found wherever it is.
pub open spec fn answer_on(line: Seq<char>, mark: Seq<char>) -> Option<Seq<u8>> {
    let hex = hex_only(line);
    match first_from(hex, mark, 0) {
        Some(at) => Some(byte_pairs(hex.skip(at + mark.len()))),
        None => None,
    }
}

/// The data bytes on the first line, from line `i` on, that holds an answer.
pub open spec fn answer_from(lines: Seq<Seq<char>>, mark: Seq<char>, i: int) -> Option<Seq<u8>>
    decreases lines.len() - i,
{
    if i >= lines.len() {
        None
    } else if answer_on(lines[i], mark) is Some {
        answer_on(lines[i], mark)
    } else {
        answer_from(lines, mark, i + 1)
    }
}

/// Whether a line says that the car does not do what was asked: no data, or a
/// negative response.
pub open spec fn is_refusal(line: Seq<char>) -> bool {
    contains(line, "NO DATA"@) || contains(line, "UNABLE"@) || (line.len() > 0 && line[0] == '7')
}

/// Whether any of `lines` is a refusal.
pub open spec fn refused(lines: Seq<Seq<char>>) -> bool {
    exists|i: int| 0 <= i < lines.len() && is_refusal(#[trigger] lines[i])
}

/// `lines` with a space between them.
pub open spec fn joined(lines: Seq<Seq<char>>) -> Seq<char>
    decreases lines.len(),
{
    if lines.len() == 0 {
        Seq::empty()
    } else if lines.len() == 1 {
        lines[0]
    } else {
        joined(lines.drop_last()) + " "@ + lines.last()
    }
}

/// The setup commands: reset, then no echo, no linefeeds, no spaces, no headers,
/// ISO 15765 at 500 kbit/s (what every car since 2008 speaks), and a short
/// timeout so a silent PID does not stall the loop.
pub open spec fn setup_command(i: int) -> Seq<char> {
    if i <= 0 {
        "ATZ"@
    } else if i == 1 {
        "ATE0"@
    } else if i == 2 {
        "ATL0"@
    } else if i == 3 {
        "ATS0"@
    } else if i == 4 {
        "ATH0"@
    } else if i == 5 {
        "ATSP6"@
    } else {
        "ATST19"@
    }
}

/// What is written to the dongle for a command: the command and a carriage
/// return.
pub open spec fn written(cmd: Seq<char>) -> Seq<u8> {
    encode_utf8(cmd).push(0x0d)
}

/// What a reply is collected for.
#[verifier::ext_equal]
pub enum GoalView {
    /// The lines themselves.
    Lines,
    /// The setup: how many of its commands are answered, and what the reset
    /// printed.
    Setup { answered: nat, version: Seq<char> },
    /// The answer to a PID.
    Answer(Pid),
}

/// What an `Elm` knows: the PIDs that the car does not do, the command sent
/// last, the lines of its reply so far, and what they are collected for.
#[verifier::ext_equal]
pub struct ElmView {
    pub unsupported: Seq<Pid>,
    pub cmd: Seq<char>,
    pub lines: Seq<Seq<char>>,
    pub goal: GoalView,
}

/// What to do next in a conversation.
#[verifier::ext_equal]
pub enum StepView {
    Send(Seq<u8>),
    Read,
    Lines(Seq<Seq<char>>),
    Version(Seq<char>),
    Answer(Option<Seq<u8>>),
    Closed,
}

/// With nothing asked.
pub open spec fn idle(unsupported: Seq<Pid>) -> ElmView {
    ElmView { unsupported, cmd: Seq::empty(), lines: Seq::empty(), goal: GoalView::Lines }
}

/// With `cmd` sent and no reply yet.
pub open spec fn asked(unsupported: Seq<Pid>, cmd: Seq<char>, goal: GoalView) -> ElmView {
    ElmView { unsupported, cmd, lines: Seq::empty(), goal }
}

/// What follows when `cmd` is given.
pub open spec fn commanded(e: ElmView, cmd: Seq<char>) -> (StepView, ElmView) {
    (StepView::Send(written(cmd)), asked(e.unsupported, cmd, GoalView::Lines))
}

/// What follows when the setup is started.
pub open spec fn set_up(e: ElmView) -> (StepView, ElmView) {
    (
        StepView::Send(written(setup_command(0))),
        asked(
            e.unsupported,
            setup_command(0),
            GoalView::Setup { answered: 0, version: Seq::empty() },
        ),
    )
}

/// The unsupported PIDs after `lines` came in reply to `pid`.
pub open spec fn unsupported_after(
    unsupported: Seq<Pid>,
    pid: Pid,
    lines: Seq<Seq<char>>,
) -> Seq<Pid> {
    if answer_from(lines, reply_mark(pid), 0) is None && refused(lines) {
        unsupported.push(pid)
    } else {
        unsupported
    }
}

/// What follows once the reply `lines` is complete.
pub open spec fn completed(e: ElmView, lines: Seq<Seq<char>>) -> (StepView, ElmView) {
    match e.goal {
        GoalView::Lines => (StepView::Lines(lines), idle(e.unsupported)),
        GoalView::Setup { answered, version } => {
            let name = if answered == 0 {
                joined(lines)
            } else {
                version
            };
            if answered < 6 {
                let next = setup_command(answered as int + 1);
                (
                    StepView::Send(written(next)),
                    asked(
                        e.unsupported,
                        next,
                        GoalView::Setup { answered: answered + 1, version: name },
                    ),
                )
            } else {
                (StepView::Version(name), idle(e.unsupported))
            }
        },
        GoalView::Answer(pid) => (
            StepView::Answer(answer_from(lines, reply_mark(pid), 0)),
            idle(unsupported_after(e.unsupported, pid, lines)),
        ),
    }
}

/// What follows when `chunk` is read, up to a prompt or the end of the stream.
pub open spec fn heard(e: ElmView, chunk: Seq<u8>) -> (StepView, ElmView) {
    let lines = e.lines + lines_in(chunk, e.cmd);
    if chunk.len() == 0 {
        (StepView::Closed, e)
    } else if chunk.last() == 0x3e {
        completed(e, lines)
    } else {
        (StepView::Read, ElmView { lines, ..e })
    }
}

/// What follows when `pid` is asked for.
pub open spec fn queried(e: ElmView, pid: Pid) -> (StepView, ElmView) {
    if e.unsupported.contains(pid) {
        (StepView::Answer(None), e)
    } else {
        (
            StepView::Send(written(request(pid))),
            asked(e.unsupported, request(pid), GoalView::Answer(pid)),
        )
    }
}

/// The hexadecimal digits in `line`, in order.
fn digits_on(line: &[char]) -> (v: Vec<char>)
    ensures
        v@ == hex_only(line@),
        forall|i: int| 0 <= i < v@.len() ==> is_hex(v@[i]),
{
    let mut v: Vec<char> = Vec::new();
    let mut i: usize = 0;
    while i < line.len()
        invariant
            i <= line@.len(),
            v@ == hex_only(line@.take(i as int)),
            forall|j: int| 0 <= j < v@.len() ==> is_hex(v@[j]),
        decreases line@.len() - i,
    {
        assert(line@.take(i + 1).drop_last() == line@.take(i as int));
        if hexadecimal(line[i]) {
            v.push(line[i]);
        }
        i = i + 1;
    }
    assert(line@.take(i as int) == line@);
    v
}

/// The data bytes that follow `mark` on a line.
fn find_answer(line: &[char], mark: &[char]) -> (answer: Option<Vec<u8>>)
    ensures
        answer is Some == answer_on(line@, mark@) is Some,
        answer is Some ==> answer->0@ == answer_on(line@, mark@)->0,
{
    let hex: Vec<char> = digits_on(line);
    match find(hex.as_slice(), mark) {
        None => None,
        Some(at) => {
            assert(at + mark.len() <= hex.len());
            let first: usize = at + mark.len();
            let ghost data = hex@.skip(first as int);
            let n: usize = (hex.len() - first) / 2;
            let mut bytes: Vec<u8> = Vec::new();
            let mut i: usize = 0;
            while i < n
                invariant
                    i <= n,
                    first <= hex@.len(),
                    n == (hex@.len() - first) / 2,
                    data == hex@.skip(first as int),
                    forall|j: int| 0 <= j < hex@.len() ==> is_hex(hex@[j]),
                    bytes@ == byte_pairs(data).take(i as int),
                decreases n - i,
            {
                assert(first + 2 * i + 1 < hex.len());
                let high: u8 = digit_value(hex[first + 2 * i]);
                let low: u8 = digit_value(hex[first + 2 * i + 1]);
                bytes.push(16 * high + low);
                i = i + 1;
                assert(bytes@ == byte_pairs(data).take(i as int));
            }
            assert(byte_pairs(data).take(n as int) == byte_pairs(data));
            Some(bytes)
        },
    }
}

/// The data bytes on the first of `lines` that holds an answer.
fn first_answer(lines: &Vec<String>, mark: &[char]) -> (answer: Option<Vec<u8>>)
    ensures
        answer is Some == answer_from(texts(lines@), mark@, 0) is Some,
        answer is Some ==> answer->0@ == answer_from(texts(lines@), mark@, 0)->0,
{
    let mut i: usize = 0;
    while i < lines.len()
        invariant
            i <= lines@.len(),
            answer_from(texts(lines@), mark@, i as int) == answer_from(texts(lines@), mark@, 0),
        decreases lines@.len() - i,
    {
        let line: Vec<char> = chars(lines[i].as_str());
        assert(texts(lines@)[i as int] == line@);
        let answer: Option<Vec<u8>> = find_answer(line.as_slice(), mark);
        if answer.is_some() {
            return answer;
        }
        i = i + 1;
    }
    None
}

/// Whether any of `lines` is a refusal.
fn any_refusal(lines: &Vec<String>) -> (r: bool)
    ensures
        r == refused(texts(lines@)),
{
    let no_data: Vec<char> = chars("NO DATA");
    let unable: Vec<char> = chars("UNABLE");
    let mut i: usize = 0;
    while i < lines.len()
        invariant
            no_data@ == "NO DATA"@,
            unable@ == "UNABLE"@,
            i <= lines@.len(),
            forall|j: int| 0 <= j < i ==> !is_refusal(#[trigger] texts(lines@)[j]),
        decreases lines@.len() - i,
    {
        let line: Vec<char> = chars(lines[i].as_str());
        assert(texts(lines@)[i as int] == line@);
        if find(line.as_slice(), no_data.as_slice()).is_some() || find(
            line.as_slice(),
            unable.as_slice(),
        ).is_some() || (line.len() > 0 && line[0] == '7') {
            return true;
        }
        i = i + 1;
    }
    false
}

/// `lines` with a space between them.
fn join(lines: &Vec<String>) -> (s: String)
    ensures
        s@ == joined(texts(lines@)),
{
    let mut s: String = String::new();
    let mut i: usize = 0;
    while i < lines.len()
        invariant
            i <= lines@.len(),
            s@ == joined(texts(lines@).take(i as int)),
        decreases lines@.len() - i,
    {
        assert(texts(lines@).take(i + 1).drop_last() == texts(lines@).take(i as int));
        if i > 0 {
            s = append(s.as_str(), " ");
        }
        s = append(s.as_str(), lines[i].as_str());
        assert(i == 0 ==> s@ == lines@[0]@);
        i = i + 1;
    }
    assert(texts(lines@).take(i as int) == texts(lines@));
    s
}

/// Setup command number `i`.
fn setup(i: usize) -> (cmd: &'static str)
    ensures
        cmd@ == setup_command(i as int),
{
    match i {
        0 => "ATZ",
        1 => "ATE0",
        2 => "ATL0",
        3 => "ATS0",
        4 => "ATH0",
        5 => "ATSP6",
        _ => "ATST19",
    }
}

/// `mode` and the number of `pid`.
fn spelled(mode: &str, pid: Pid) -> (v: Vec<char>)
    ensures
        v@ == mode@ + hex_pair(code_of(pid)),
{
    let mut v: Vec<char> = chars(mode);
    push_hex(&mut v, pid.code());
    v
}

/// What a reply is collected for.
enum Goal {
    Lines,
    Setup { answered: usize, version: String },
    Answer(Pid),
}

impl View for Goal {
    type V = GoalView;

    closed spec fn view(&self) -> GoalView {
        match self {
            Goal::Lines => GoalView::Lines,
            Goal::Setup { answered, version } => GoalView::Setup {
                answered: *answered as nat,
                version: version@,
            },
            Goal::Answer(pid) => GoalView::Answer(*pid),
        }
    }
}

/// What to do next in a conversation with the dongle.
#[derive(Clone, Debug, PartialEq, Eq)]
pub enum Step {
    /// Write these bytes and flush, then read up to the next prompt (`>`).
    Send(Vec<u8>),
    /// The reply goes on: read up to the next prompt.
    Read,
    /// The reply to a command, as the lines the dongle printed.
    Lines(Vec<String>),
    /// The setup is done; this is what the dongle calls itself.
    Version(String),
    /// The data bytes of an answer, or nothing when the car does not give one.
    Answer(Option<Vec<u8>>),
    /// The dongle closed the link.
    Closed,
}

impl View for Step {
    type V = StepView;

    open spec fn view(&self) -> StepView {
        match self {
            Step::Send(bytes) => StepView::Send(bytes@),
            Step::Read => StepView::Read,
            Step::Lines(lines) => StepView::Lines(texts(lines@)),
            Step::Version(name) => StepView::Version(name@),
            Step::Answer(None) => StepView::Answer(None),
            Step::Answer(Some(bytes)) => StepView::Answer(Some(bytes@)),
            Step::Closed => StepView::Closed,
        }
    }
}

/// One side of a conversation with an ELM327, on any byte stream. It says what
/// to write and takes what was read; whoever owns the stream does both.
pub struct Elm {
    /// PIDs the car said it does not support; skipped from then on.
    unsupported: Vec<Pid>,
    /// The command sent last.
    cmd: String,
    /// The lines of its reply so far.
    lines: Vec<String>,
    goal: Goal,
}

impl View for Elm {
    type V = ElmView;

    closed spec fn view(&self) -> ElmView {
        ElmView {
            unsupported: self.unsupported@,
            cmd: self.cmd@,
            lines: texts(self.lines@),
            goal: self.goal@,
        }
    }
}

impl Elm {
    pub fn new() -> (e: Self)
        ensures
            e@ == idle(Seq::empty()),
    {
        let e: Elm = Elm {
            unsupported: Vec::new(),
            cmd: String::new(),
            lines: Vec::new(),
            goal: Goal::Lines,
        };
        assert(e@ == idle(Seq::empty()));
        e
    }

    /// Start over with `cmd`, its reply collected for `goal`.
    fn ask(&mut self, cmd: &str, goal: Goal) -> (step: Step)
        ensures
            step@ == StepView::Send(written(cmd@)),
            final(self)@ == asked(old(self)@.unsupported, cmd@, goal@),
    {
        self.cmd = cmd.to_owned();
        self.lines = Vec::new();
        self.goal = goal;
        assert(texts(self.lines@) == Seq::<Seq<char>>::empty());
        let mut bytes: Vec<u8> = vstd::slice::slice_to_vec(cmd.as_bytes());
        bytes.push(0x0d);
        Step::Send(bytes)
    }

    /// Send a command and collect the reply up to the `>` prompt, as the
    /// lines the dongle printed (echo and blank lines dropped).
    pub fn command(&mut self, cmd: &str) -> (step: Step)
        ensures
            (step@, final(self)@) == commanded(old(self)@, cmd@),
            step@ == StepView::Send(written(cmd@)),
            final(self)@ == asked(old(self)@.unsupported, cmd@, GoalView::Lines),
    {
        self.ask(cmd, Goal::Lines)
    }

    /// Reset and set up: no echo, no spaces, ISO 15765 at 500 kbit/s (what
    /// every car since 2008 speaks), and a short timeout so a silent PID
    /// does not stall the loop.
    pub fn init(&mut self) -> (step: Step)
        ensures
            (step@, final(self)@) == set_up(old(self)@),
            step@ == StepView::Send(written(setup_command(0))),
            final(self)@ == asked(
                old(self)@.unsupported,
                setup_command(0),
                GoalView::Setup { answered: 0, version: Seq::empty() },
            ),
    {
        let version: String = String::new();
        self.ask(setup(0), Goal::Setup { answered: 0, version })
    }

    fn skips(&self, pid: Pid) -> (r: bool)
        ensures
            r == self@.unsupported.contains(pid),
    {
        let mut i: usize = 0;
        while i < self.unsupported.len()
            invariant
                i <= self.unsupported@.len(),
                forall|j: int| 0 <= j < i ==> self.unsupported@[j] != pid,
            decreases self.unsupported@.len() - i,
        {
            if self.unsupported[i] == pid {
                return true;
            }
            i = i + 1;
        }
        false
    }

    /// Ask for one PID; `Answer(None)` at once when the car does not do it.
    pub fn query(&mut self, pid: Pid) -> (step: Step)
        ensures
            (step@, final(self)@) == queried(old(self)@, pid),
    {
        if self.skips(pid) {
            return Step::Answer(None);
        }
        let cmd: String = collect(spelled("01", pid).as_slice());
        self.ask(cmd.as_str(), Goal::Answer(pid))
    }

    /// Take what was read from the dongle up to the next prompt, or up to the
    /// end of the stream. Nothing read means that the link is closed.
    pub fn received(&mut self, chunk: &[u8]) -> (step: Step)
        ensures
            (step@, final(self)@) == heard(old(self)@, chunk@),
    {
        if chunk.len() == 0 {
            return Step::Closed;
        }
        let cmd: Vec<char> = chars(self.cmd.as_str());
        push_lines(&mut self.lines, chunk, cmd.as_slice());
        if chunk[chunk.len() - 1] != 0x3e {
            return Step::Read;
        }
        self.complete()
    }

    /// The reply is complete.
    fn complete(&mut self) -> (step: Step)
        ensures
            (step@, final(self)@) == completed(old(self)@, old(self)@.lines),
    {
        let mut lines: Vec<String> = Vec::new();
        std::mem::swap(&mut lines, &mut self.lines);
        let mut goal: Goal = Goal::Lines;
        std::mem::swap(&mut goal, &mut self.goal);
        self.cmd = String::new();
        assert(texts(self.lines@) == Seq::<Seq<char>>::empty());
        match goal {
            Goal::Lines => Step::Lines(lines),
            Goal::Setup { answered, version } => {
                let name: String = if answered == 0 { join(&lines) } else { version };
                if answered < 6 {
                    self.ask(
                        setup(answered + 1),
                        Goal::Setup { answered: answered + 1, version: name },
                    )
                } else {
                    Step::Version(name)
                }
            },
            Goal::Answer(pid) => {
                let mark: Vec<char> = spelled("41", pid);
                let answer: Option<Vec<u8>> = first_answer(&lines, mark.as_slice());
                if answer.is_none() && any_refusal(&lines) {
                    // This car does not do it.
                    self.unsupported.push(pid);
                }
                Step::Answer(answer)
            },
        }
    }
}

} // verus!
