//! What is said to the dongle and what its replies mean.

use vstd::prelude::*;
use vstd::utf8::encode_utf8;

use crate::fixed::rounding_is_nearest;
use crate::obd::{
    after_answer, answer_from, answer_on, answers, break_from, cleaned, colon_bytes, commanded,
    completed, heard, hex_only, idle, is_refusal, joined, lines_from, needed, parsed, queried,
    refused, reply_mark, request, reversed, schedule, set_up, setup_command, written, ElmView,
    GoalView, LinkView, Pid, StepView,
};
use crate::obd_laws::{colon_after, unbroken};
use crate::telemetry::{TelemetryView, Warn};
use crate::text::{
    contains, debug_text, first_from, first_is_first, folded, hex_number, hex_value, is_hex,
    is_hex_byte, is_white, position, radix_error, same_but_case, stands_at, strip_end, text_of,
    trim_end, trim_start, trimmed, unsigned,
};

verus! {

// ----- what an answer means ----------------------------------------------------------

/// An answer with too few data bytes, four for the odometer and one for any other
/// PID, says nothing.
pub proof fn a_short_answer_says_nothing(t: TelemetryView, pid: Pid, d: Seq<u8>)
    requires
        d.len() == 0 || pid == Pid::Odometer && d.len() < 4,
    ensures
        d.len() < needed(pid),
        !answers(pid, d),
        after_answer(t, pid, d) == t,
{
}

/// Four data bytes answer any PID, and one answers every PID but the odometer.
pub proof fn how_much_is_an_answer(pid: Pid, d: Seq<u8>)
    ensures
        d.len() >= 4 ==> answers(pid, d),
        d.len() >= 1 && pid != Pid::Odometer ==> answers(pid, d),
{
}

/// The first data byte is the speed in km/h, or the temperature counted from -40
/// degrees, and nothing else changes.
pub proof fn what_speed_and_temperature_answers_say(t: TelemetryView, d: Seq<u8>)
    requires
        d.len() >= 1,
    ensures
        needed(Pid::Speed) <= d.len() && needed(Pid::AmbientTemp) <= d.len(),
        after_answer(t, Pid::Speed, d).speed_kmh == 1_000_000 * d[0],
        after_answer(t, Pid::AmbientTemp, d).outside_temp_c + 40 == d[0],
        after_answer(t, Pid::Speed, d) == (TelemetryView {
            speed_kmh: after_answer(t, Pid::Speed, d).speed_kmh,
            ..t
        }),
        after_answer(t, Pid::AmbientTemp, d) == (TelemetryView {
            outside_temp_c: after_answer(t, Pid::AmbientTemp, d).outside_temp_c,
            ..t
        }),
{
}

/// The first data byte is the fuel level, 255 for a full tank, to the nearest
/// millionth, and nothing else changes.
pub proof fn what_a_fuel_answer_says(t: TelemetryView, d: Seq<u8>)
    requires
        d.len() >= 1,
    ensures
        ({
            let r = after_answer(t, Pid::FuelLevel, d);
            &&& needed(Pid::FuelLevel) <= d.len()
            &&& 2 * (1_000_000 * d[0] - 255 * r.fuel_level) <= 255
            &&& 2 * (255 * r.fuel_level - 1_000_000 * d[0]) <= 255
            &&& r == (TelemetryView { fuel_level: r.fuel_level, ..t })
        }),
{
    rounding_is_nearest(1_000_000 * d[0], 255);
}

/// The highest bit of the first data byte is the engine lamp, whatever the lower
/// seven, the number of stored codes, are: amber from 128 up, off below. Nothing
/// else changes.
pub proof fn what_a_status_answer_says(t: TelemetryView, d: Seq<u8>)
    requires
        d.len() >= 1,
    ensures
        ({
            let r = after_answer(t, Pid::MilStatus, d);
            &&& needed(Pid::MilStatus) <= d.len()
            &&& d[0] >= 128 ==> r.engine == Warn::Amber
            &&& d[0] < 128 ==> r.engine == Warn::Off
            &&& r == (TelemetryView { engine: r.engine, ..t })
        }),
{
    let b = d[0];
    assert(b & 0x80 != 0 <==> b >= 128) by (bit_vector);
}

/// The first four data bytes, the highest first, are the odometer in tenths of a
/// km, and nothing else changes.
pub proof fn what_an_odometer_answer_says(t: TelemetryView, d: Seq<u8>)
    requires
        d.len() >= 4,
    ensures
        ({
            let r = after_answer(t, Pid::Odometer, d);
            &&& needed(Pid::Odometer) <= d.len()
            &&& r.odo_km == 100_000 * (((d[0] * 256 + d[1]) * 256 + d[2]) * 256 + d[3])
            &&& r == (TelemetryView { odo_km: r.odo_km, ..t })
        }),
{
}

// ----- what is asked -----------------------------------------------------------------

/// Eight requests make a round: the speed every other time, and in between fuel
/// level, temperature, status and odometer, in this order.
pub proof fn the_round_of_requests(round: int)
    ensures
        schedule(8 * round) == Pid::Speed,
        schedule(8 * round + 1) == Pid::FuelLevel,
        schedule(8 * round + 2) == Pid::Speed,
        schedule(8 * round + 3) == Pid::AmbientTemp,
        schedule(8 * round + 4) == Pid::Speed,
        schedule(8 * round + 5) == Pid::MilStatus,
        schedule(8 * round + 6) == Pid::Speed,
        schedule(8 * round + 7) == Pid::Odometer,
{
}

/// The requests and the marks of their answers, letter by letter.
pub proof fn requests_are_spelled(pid: Pid)
    ensures
        request(Pid::Speed) == seq!['0', '1', '0', 'D'],
        request(Pid::FuelLevel) == seq!['0', '1', '2', 'F'],
        request(Pid::AmbientTemp) == seq!['0', '1', '4', '6'],
        request(Pid::MilStatus) == seq!['0', '1', '0', '1'],
        request(Pid::Odometer) == seq!['0', '1', 'A', '6'],
        reply_mark(pid) == request(pid).update(0, '4'),
{
    reveal_strlit("01");
    reveal_strlit("41");
    assert(request(Pid::Speed) =~= seq!['0', '1', '0', 'D']);
    assert(request(Pid::FuelLevel) =~= seq!['0', '1', '2', 'F']);
    assert(request(Pid::AmbientTemp) =~= seq!['0', '1', '4', '6']);
    assert(request(Pid::MilStatus) =~= seq!['0', '1', '0', '1']);
    assert(request(Pid::Odometer) =~= seq!['0', '1', 'A', '6']);
    assert(reply_mark(pid) =~= request(pid).update(0, '4'));
}

/// The setup is a reset and six commands: no echo, no linefeeds, no spaces, no
/// headers, the protocol of every car, a short timeout.
pub proof fn the_setup_is_spelled()
    ensures
        setup_command(0) == "ATZ"@,
        setup_command(1) == "ATE0"@,
        setup_command(2) == "ATL0"@,
        setup_command(3) == "ATS0"@,
        setup_command(4) == "ATH0"@,
        setup_command(5) == "ATSP6"@,
        setup_command(6) == "ATST19"@,
{
}

/// A command is written as its characters and a carriage return.
pub proof fn commands_end_with_a_carriage_return(cmd: Seq<char>)
    ensures
        written(cmd).len() == encode_utf8(cmd).len() + 1,
        written(cmd).drop_last() == encode_utf8(cmd),
        written(cmd).last() == 13,
{
    assert(written(cmd).drop_last() == encode_utf8(cmd));
}

/// Asking for a PID sends its request and waits for the answer, unless the car
/// has refused it.
pub proof fn how_a_pid_is_asked_for(e: ElmView, pid: Pid)
    ensures
        ({
            let (step, after) = queried(e, pid);
            &&& after.unsupported == e.unsupported
            &&& e.unsupported.contains(pid) ==> step == StepView::Answer(None) && after == e
            &&& !e.unsupported.contains(pid) ==> step == StepView::Send(written(request(pid)))
                && after.cmd == request(pid) && after.lines.len() == 0 && after.goal
                == GoalView::Answer(pid)
        }),
{
}

/// A command is sent and its lines are waited for; the setup begins with the reset
/// and waits for what that prints. Neither changes what is known of the car.
pub proof fn how_commands_and_the_setup_begin(e: ElmView, cmd: Seq<char>)
    ensures
        ({
            let (step, after) = commanded(e, cmd);
            &&& step == StepView::Send(written(cmd))
            &&& after.unsupported == e.unsupported
            &&& after.cmd == cmd
            &&& after.lines.len() == 0
            &&& after.goal == GoalView::Lines
        }),
        ({
            let (step, after) = set_up(e);
            &&& step == StepView::Send(written("ATZ"@))
            &&& after.unsupported == e.unsupported
            &&& after.cmd == "ATZ"@
            &&& after.lines.len() == 0
            &&& after.goal is Setup
            &&& after.goal->answered == 0
        }),
{
}

// ----- how a reply is collected ------------------------------------------------------

/// Nothing read is the end; a piece without a prompt at its end adds its lines
/// and the reply goes on; one with a prompt adds its lines and completes it.
pub proof fn how_a_reply_is_collected(e: ElmView, chunk: Seq<u8>)
    ensures
        chunk.len() == 0 ==> heard(e, chunk) == (StepView::Closed, e),
        chunk.len() > 0 && chunk.last() != '>' as u8 ==> heard(e, chunk) == (
            StepView::Read,
            ElmView { lines: e.lines + lines_from(text_of(chunk), e.cmd, 0), ..e },
        ),
        chunk.len() > 0 && chunk.last() == '>' as u8 ==> heard(e, chunk) == completed(
            e,
            e.lines + lines_from(text_of(chunk), e.cmd, 0),
        ),
{
}

/// A complete reply to a command is its lines, and nothing is asked any more.
pub proof fn a_command_gives_its_lines(e: ElmView, lines: Seq<Seq<char>>)
    requires
        e.goal == GoalView::Lines,
    ensures
        completed(e, lines).0 == StepView::Lines(lines),
        completed(e, lines).1 == idle(e.unsupported),
        idle(e.unsupported).goal == GoalView::Lines,
        idle(e.unsupported).lines.len() == 0,
        idle(e.unsupported).cmd.len() == 0,
        idle(e.unsupported).unsupported == e.unsupported,
{
}

/// A complete reply to a query gives its answer; a PID is put on the list of
/// those that the car does not do if there is none and the car refuses, and the
/// list stays as it is otherwise.
pub proof fn a_query_gives_its_answer(e: ElmView, pid: Pid, lines: Seq<Seq<char>>)
    requires
        e.goal == GoalView::Answer(pid),
    ensures
        ({
            let answer = answer_from(lines, reply_mark(pid), 0);
            let (step, after) = completed(e, lines);
            &&& step == StepView::Answer(answer)
            &&& answer is None && refused(lines) ==> after == idle(e.unsupported.push(pid))
            &&& !(answer is None && refused(lines)) ==> after == idle(e.unsupported)
        }),
{
}

/// A complete reply during the setup leads to the next command, or to the end of
/// it. What the dongle calls itself is what the reset printed.
pub proof fn how_the_setup_goes_on(
    e: ElmView,
    answered: nat,
    version: Seq<char>,
    lines: Seq<Seq<char>>,
)
    requires
        answered <= 6,
        e.goal == (GoalView::Setup { answered, version }),
    ensures
        ({
            let (step, after) = completed(e, lines);
            let name = if answered == 0 {
                joined(lines)
            } else {
                version
            };
            &&& after.unsupported == e.unsupported
            &&& after.lines.len() == 0
            &&& answered < 6 ==> step == StepView::Send(written(setup_command(answered as int + 1)))
            &&& answered < 6 ==> after.cmd == setup_command(answered as int + 1)
            &&& answered < 6 ==> after.goal == (GoalView::Setup {
                answered: answered + 1,
                version: name,
            })
            &&& answered == 6 ==> step == StepView::Version(name) && after == idle(e.unsupported)
        }),
{
}

/// Lines are joined with a space between two of them.
pub proof fn lines_are_joined(lines: Seq<Seq<char>>, line: Seq<char>)
    ensures
        joined(Seq::<Seq<char>>::empty()) == Seq::<char>::empty(),
        joined(seq![line]) == line,
        lines.len() > 0 ==> joined(lines.push(line)) == joined(lines) + seq![' '] + line,
{
    reveal_strlit(" ");
    assert(" "@ =~= seq![' ']);
    assert(lines.push(line).drop_last() == lines);
}

// ----- the lines of a reply ----------------------------------------------------------

proof fn white_in_front(a: Seq<char>, s: Seq<char>)
    requires
        forall|i: int| 0 <= i < a.len() ==> is_white(#[trigger] a[i]),
    ensures
        trim_start(a + s) == trim_start(s),
    decreases a.len(),
{
    if a.len() > 0 {
        white_in_front(a.drop_first(), s);
        assert((a + s)[0] == a[0]);
        assert((a + s).drop_first() == a.drop_first() + s);
    } else {
        assert(a + s == s);
    }
}

proof fn white_behind(s: Seq<char>, b: Seq<char>)
    requires
        forall|i: int| 0 <= i < b.len() ==> is_white(#[trigger] b[i]),
    ensures
        trim_end(s + b) == trim_end(s),
    decreases b.len(),
{
    if b.len() > 0 {
        white_behind(s, b.drop_last());
        assert((s + b).last() == b.last());
        assert((s + b).drop_last() == s + b.drop_last());
    } else {
        assert(s + b == s);
    }
}

proof fn only_white(a: Seq<char>)
    requires
        forall|i: int| 0 <= i < a.len() ==> is_white(#[trigger] a[i]),
    ensures
        trim_start(a) == Seq::<char>::empty(),
    decreases a.len(),
{
    if a.len() > 0 {
        only_white(a.drop_first());
    } else {
        assert(a == Seq::<char>::empty());
    }
}

/// Whether `s` is nothing but white space.
pub open spec fn is_blank(s: Seq<char>) -> bool {
    forall|i: int| 0 <= i < s.len() ==> is_white(#[trigger] s[i])
}

/// Trimming takes away the white space around a text, all of it and nothing else.
pub proof fn trimming_takes_white_space_away(a: Seq<char>, s: Seq<char>, b: Seq<char>)
    requires
        is_blank(a),
        is_blank(b),
        s.len() > 0 ==> !is_white(s[0]) && !is_white(s.last()),
    ensures
        trimmed(a + s + b) == s,
{
    assert(a + s + b == a + (s + b));
    white_in_front(a, s + b);
    if s.len() > 0 {
        assert((s + b)[0] == s[0]);
        white_behind(s, b);
    } else {
        assert(s + b == b);
        only_white(b);
        assert(s == Seq::<char>::empty());
    }
}

proof fn prompts_behind(s: Seq<char>, n: nat)
    requires
        s.len() > 0 ==> s.last() != '>',
    ensures
        strip_end(s + Seq::new(n, |i: int| '>'), '>') == s,
    decreases n,
{
    let all = s + Seq::new(n, |i: int| '>');
    if n > 0 {
        prompts_behind(s, (n - 1) as nat);
        assert(all.last() == '>');
        assert(all.drop_last() == s + Seq::new((n - 1) as nat, |i: int| '>'));
    } else {
        assert(all == s);
    }
}

/// A line is cleaned of the white space around it and of prompts at its end,
/// with or without white space before them, and of nothing else.
pub proof fn cleaning_a_line(
    a: Seq<char>,
    line: Seq<char>,
    gap: Seq<char>,
    prompts: nat,
    b: Seq<char>,
)
    requires
        is_blank(a),
        is_blank(gap),
        is_blank(b),
        line.len() > 0,
        !is_white(line[0]),
        !is_white(line.last()),
        line.last() != '>',
        prompts > 0 || gap.len() == 0,
    ensures
        cleaned(a + (line + gap + Seq::new(prompts, |i: int| '>')) + b) == line,
{
    let marks = Seq::new(prompts, |i: int| '>');
    let text = line + gap;
    let core = text + marks;
    assert(core[0] == line[0]);
    if prompts > 0 {
        assert(core.last() == '>');
    } else {
        assert(core == line);
    }
    trimming_takes_white_space_away(a, core, b);
    if gap.len() > 0 {
        assert(is_white(gap[gap.len() - 1]));
    }
    prompts_behind(text, prompts);
    let none = Seq::<char>::empty();
    trimming_takes_white_space_away(none, line, gap);
    assert(none + line + gap == text);
}

/// Nothing is left of prompts and white space.
pub proof fn cleaning_a_prompt(a: Seq<char>, prompts: nat, b: Seq<char>)
    requires
        is_blank(a),
        is_blank(b),
    ensures
        cleaned(a + Seq::new(prompts, |i: int| '>') + b) == Seq::<char>::empty(),
{
    let none = Seq::<char>::empty();
    let marks = Seq::new(prompts, |i: int| '>');
    trimming_takes_white_space_away(a, marks, b);
    prompts_behind(none, prompts);
    assert(none + marks == marks);
    trimming_takes_white_space_away(none, none, none);
    assert(none + none + none == none);
}

proof fn break_further_on(p: Seq<char>, s: Seq<char>, i: int)
    requires
        0 <= i,
    ensures
        break_from(p + s, p.len() + i) == p.len() + break_from(s, i),
        break_from(s, i) >= i,
        i <= s.len() ==> break_from(s, i) <= s.len(),
    decreases s.len() - i,
{
    if i < s.len() {
        assert((p + s)[p.len() + i] == s[i]);
        break_further_on(p, s, i + 1);
    }
}

proof fn lines_further_on(p: Seq<char>, s: Seq<char>, cmd: Seq<char>, i: int)
    requires
        0 <= i <= s.len(),
    ensures
        lines_from(p + s, cmd, p.len() + i) == lines_from(s, cmd, i),
    decreases s.len() - i,
{
    break_further_on(p, s, i);
    let end = break_from(s, i);
    assert((p + s).subrange(p.len() + i, p.len() + end) == s.subrange(i, end));
    if end < s.len() {
        lines_further_on(p, s, cmd, end + 1);
    }
}

proof fn no_break_in(a: Seq<char>, s: Seq<char>, i: int)
    requires
        unbroken(a),
        0 <= i <= a.len(),
    ensures
        break_from(a + s, i) == break_from(a + s, a.len() as int),
    decreases a.len() - i,
{
    if i < a.len() {
        assert((a + s)[i] == a[i]);
        no_break_in(a, s, i + 1);
    }
}

/// A reply is read line by line: a line without a break in it is kept, cleaned,
/// unless that leaves nothing or the echo of the command; and at a carriage
/// return or a linefeed the next line begins.
pub proof fn a_reply_is_read_line_by_line(
    line: Seq<char>,
    rest: Seq<char>,
    cmd: Seq<char>,
    mark: char,
)
    requires
        unbroken(line),
        mark == '\r' || mark == '\n',
    ensures
        cleaned(line).len() == 0 || same_but_case(cleaned(line), cmd) ==> lines_from(line, cmd, 0)
            == Seq::<Seq<char>>::empty(),
        cleaned(line).len() > 0 && !same_but_case(cleaned(line), cmd) ==> lines_from(line, cmd, 0)
            == seq![cleaned(line)],
        lines_from(line + seq![mark] + rest, cmd, 0) == lines_from(line, cmd, 0) + lines_from(
            rest,
            cmd,
            0,
        ),
{
    let none = Seq::<char>::empty();
    no_break_in(line, none, 0);
    assert(line + none == line);
    assert(line.subrange(0, line.len() as int) == line);
    let kept = lines_from(line, cmd, 0);
    assert(seq![cleaned(line)] + Seq::<Seq<char>>::empty() == seq![cleaned(line)]);
    let head = line + seq![mark];
    let all = head + rest;
    assert(all == line + (seq![mark] + rest));
    no_break_in(line, seq![mark] + rest, 0);
    assert(all[line.len() as int] == mark);
    assert(all.subrange(0, line.len() as int) == line);
    lines_further_on(head, rest, cmd, 0);
    assert(lines_from(all, cmd, 0) == kept + lines_from(rest, cmd, 0));
}

/// Two characters differ in case only if they are the two cases of a letter from
/// A to Z.
pub proof fn what_differs_in_case_only(a: char, b: char)
    ensures
        folded(a) == folded(b) <==> a == b || ('A' <= a <= 'Z' && b as int == a as int + 32) || (
        'A' <= b <= 'Z' && a as int == b as int + 32),
{
}

/// Texts differ in case only if they are as long as each other and every character
/// of the one differs in case only from that of the other.
pub proof fn texts_that_differ_in_case_only(a: Seq<char>, b: Seq<char>, x: char, y: char)
    ensures
        same_but_case(Seq::<char>::empty(), Seq::<char>::empty()),
        same_but_case(a.push(x), b.push(y)) <==> same_but_case(a, b) && folded(x) == folded(y),
        a.len() != b.len() ==> !same_but_case(a, b),
{
    let p = a.push(x);
    let q = b.push(y);
    if same_but_case(p, q) {
        assert(p[a.len() as int] == x && q[a.len() as int] == y);
        assert forall|i: int| 0 <= i < a.len() implies folded(a[i]) == folded(b[i]) by {
            assert(p[i] == a[i] && q[i] == b[i]);
        }
    }
}

// ----- answers and refusals ----------------------------------------------------------

/// Of a line the hexadecimal digits count, in order, and nothing else.
pub proof fn only_digits_count(a: Seq<char>, b: Seq<char>, c: char)
    ensures
        hex_only(a + b) == hex_only(a) + hex_only(b),
        '0' <= c <= '9' || 'a' <= c <= 'f' || 'A' <= c <= 'F' ==> hex_only(seq![c]) == seq![c],
        !('0' <= c <= '9' || 'a' <= c <= 'f' || 'A' <= c <= 'F') ==> hex_only(seq![c]) == Seq::<
            char,
        >::empty(),
    decreases b.len(),
{
    reveal_with_fuel(hex_only, 2);
    assert(seq![c].drop_last() == Seq::<char>::empty());
    if is_hex(c) {
        assert(hex_only(seq![c]) == Seq::<char>::empty().push(c));
        assert(Seq::<char>::empty().push(c) == seq![c]);
    }
    if b.len() > 0 {
        only_digits_count(a, b.drop_last(), c);
        assert((a + b).drop_last() == a + b.drop_last());
        assert((a + b).last() == b.last());
        let x = hex_only(a);
        let y = hex_only(b.drop_last());
        assert(x + y.push(b.last()) == (x + y).push(b.last()));
    } else {
        assert(a + b == a);
        assert(hex_only(a) + hex_only(b) == hex_only(a));
    }
}

/// The data of an answer is what follows the first place where its mark stands
/// among the digits of the line, two digits to the byte and the higher one first;
/// a single digit that is left over does not count.
pub proof fn the_data_follows_the_mark(line: Seq<char>, mark: Seq<char>, at: int, i: int)
    requires
        mark.len() > 0,
        stands_at(hex_only(line), mark, at),
        forall|j: int| 0 <= j < at ==> !stands_at(hex_only(line), mark, j),
    ensures
        ({
            let hex = hex_only(line);
            let from = at + mark.len();
            let answer = answer_on(line, mark);
            &&& answer is Some
            &&& answer->0.len() == (hex.len() - from) / 2
            &&& 0 <= i < answer->0.len() ==> answer->0[i] == 16 * hex_value(hex[from + 2 * i])
                + hex_value(hex[from + 2 * i + 1])
        }),
{
    let hex = hex_only(line);
    first_is_first(hex, mark, 0);
    assert(first_from(hex, mark, 0) == Some(at));
    let from = at + mark.len();
    let data = hex.skip(from);
    if 0 <= i < data.len() / 2 {
        assert(data[2 * i] == hex[from + 2 * i]);
        assert(data[2 * i + 1] == hex[from + 2 * i + 1]);
        digits_only(line, from + 2 * i);
        digits_only(line, from + 2 * i + 1);
    }
}

proof fn digits_only(line: Seq<char>, i: int)
    requires
        0 <= i < hex_only(line).len(),
    ensures
        is_hex(hex_only(line)[i]),
    decreases line.len(),
{
    if line.len() > 0 {
        let before = hex_only(line.drop_last());
        if i < before.len() {
            digits_only(line.drop_last(), i);
        }
    }
}

/// The digits stand for their values, letters in either case for ten to fifteen.
pub proof fn what_a_digit_is_worth(n: int)
    requires
        0 <= n < 16,
    ensures
        n < 10 ==> hex_value((48 + n) as char) == n,
        n >= 10 ==> hex_value((87 + n) as char) == n && hex_value((55 + n) as char) == n,
{
}

/// Without the mark among its digits a line holds no answer.
pub proof fn no_mark_no_answer(line: Seq<char>, mark: Seq<char>)
    requires
        forall|j: int| 0 <= j ==> !#[trigger] stands_at(hex_only(line), mark, j),
    ensures
        answer_on(line, mark) is None,
{
    first_is_first(hex_only(line), mark, 0);
}

/// The answer of a reply is that of its first line that holds one.
pub proof fn the_first_answer_counts(lines: Seq<Seq<char>>, mark: Seq<char>, i: int)
    requires
        0 <= i <= lines.len(),
        forall|j: int| 0 <= j < i ==> answer_on(#[trigger] lines[j], mark) is None,
        i < lines.len() ==> answer_on(lines[i], mark) is Some,
    ensures
        i < lines.len() ==> answer_from(lines, mark, 0) == answer_on(lines[i], mark),
        i == lines.len() ==> answer_from(lines, mark, 0) is None,
{
    answers_from(lines, mark, 0, i);
}

proof fn answers_from(lines: Seq<Seq<char>>, mark: Seq<char>, k: int, i: int)
    requires
        0 <= k <= i <= lines.len(),
        forall|j: int| 0 <= j < i ==> answer_on(#[trigger] lines[j], mark) is None,
        i < lines.len() ==> answer_on(lines[i], mark) is Some,
    ensures
        i < lines.len() ==> answer_from(lines, mark, k) == answer_on(lines[i], mark),
        i == lines.len() ==> answer_from(lines, mark, k) is None,
    decreases i - k,
{
    if k < i {
        answers_from(lines, mark, k + 1, i);
    }
}

/// The car refuses if a line has `NO DATA` or `UNABLE` anywhere or begins with a
/// 7, and only then.
pub proof fn what_a_refusal_is(a: Seq<char>, b: Seq<char>, line: Seq<char>)
    ensures
        is_refusal(a + "NO DATA"@ + b),
        is_refusal(a + "UNABLE"@ + b),
        is_refusal(seq!['7'] + b),
        is_refusal(line) ==> (line.len() > 0 && line[0] == '7') || (exists|i: int|
            stands_at(line, "NO DATA"@, i)) || (exists|i: int| stands_at(line, "UNABLE"@, i)),
{
    it_stands_between(a, "NO DATA"@, b);
    it_stands_between(a, "UNABLE"@, b);
    assert((seq!['7'] + b)[0] == '7');
}

proof fn it_stands_between(a: Seq<char>, word: Seq<char>, b: Seq<char>)
    ensures
        contains(a + word + b, word),
{
    let all = a + word + b;
    assert(all.subrange(a.len() as int, (a.len() + word.len()) as int) == word);
    assert(stands_at(all, word, a.len() as int));
}

/// A reply refuses if and only if one of its lines does.
pub proof fn one_refusal_is_enough(lines: Seq<Seq<char>>, i: int)
    ensures
        0 <= i < lines.len() && is_refusal(lines[i]) ==> refused(lines),
        (forall|j: int| 0 <= j < lines.len() ==> !is_refusal(#[trigger] lines[j])) ==> !refused(
            lines,
        ),
{
}

// ----- links -------------------------------------------------------------------------

/// Whether there is no colon in `s`.
pub open spec fn without_colon(s: Seq<char>) -> bool {
    forall|i: int| 0 <= i < s.len() ==> #[trigger] s[i] != ':'
}

proof fn no_colon_from(s: Seq<char>, i: int)
    requires
        0 <= i <= s.len(),
        without_colon(s),
    ensures
        position(s, ':', i) == s.len(),
    decreases s.len() - i,
{
    if i < s.len() {
        no_colon_from(s, i + 1);
    }
}

/// The kernel has the last byte of an address first.
pub proof fn the_kernel_reads_backwards(addr: Seq<u8>, i: int)
    requires
        0 <= i < addr.len(),
    ensures
        reversed(addr).len() == addr.len(),
        reversed(addr)[i] == addr[addr.len() - 1 - i],
{
}

/// The number that the hexadecimal digits `s` stand for.
pub open spec fn hexadecimal_value(s: Seq<char>) -> int
    decreases s.len(),
{
    if s.len() == 0 {
        0
    } else {
        let c = s.last() as int;
        let digit = if c <= 57 {
            c - 48
        } else if c <= 70 {
            c - 55
        } else {
            c - 87
        };
        16 * hexadecimal_value(s.drop_last()) + digit
    }
}

proof fn digits_have_their_value(s: Seq<char>)
    requires
        forall|i: int| 0 <= i < s.len() ==> is_hex(#[trigger] s[i]),
    ensures
        hex_number(s) == hexadecimal_value(s),
    decreases s.len(),
{
    if s.len() > 0 {
        assert(is_hex(s[s.len() - 1]));
        assert forall|i: int| 0 <= i < s.drop_last().len() implies is_hex(
            #[trigger] s.drop_last()[i],
        ) by {
            assert(s.drop_last()[i] == s[i]);
        }
        digits_have_their_value(s.drop_last());
    }
}

/// A byte is written as one hexadecimal digit or more, of a value that fits; a
/// plus sign in front does not count, and anything else is no byte.
pub proof fn how_a_byte_is_written(s: Seq<char>)
    requires
        s.len() > 0 ==> s[0] != '+',
    ensures
        ({
            let digits = forall|i: int|
                0 <= i < s.len() ==> ('0' <= #[trigger] s[i] <= '9' || 'a' <= s[i] <= 'f' || 'A'
                    <= s[i] <= 'F');
            &&& is_hex_byte(s) <==> s.len() > 0 && digits && hexadecimal_value(s) <= 255
            &&& is_hex_byte(seq!['+'] + s) <==> is_hex_byte(s)
            &&& is_hex_byte(s) ==> hex_number(unsigned(s)) == hexadecimal_value(s)
            &&& is_hex_byte(s) ==> hex_number(unsigned(seq!['+'] + s)) == hexadecimal_value(s)
        }),
{
    let plus = seq!['+'] + s;
    assert(plus.drop_first() == s);
    assert(unsigned(plus) == s);
    assert(unsigned(s) == s);
    if forall|i: int| 0 <= i < s.len() ==> is_hex(#[trigger] s[i]) {
        digits_have_their_value(s);
    }
}

/// A link without a kind, or of a kind that is none of the three, is none, and it
/// is said what is wrong with it.
pub proof fn a_link_has_a_kind(kind: Seq<char>, rest: Seq<char>)
    requires
        without_colon(kind),
    ensures
        parsed(kind) == Err::<LinkView, Seq<char>>("no link kind in "@ + debug_text(kind)),
        kind != "bt"@ && kind != "tcp"@ && kind != "serial"@ ==> parsed(kind + seq![':'] + rest)
            == Err::<LinkView, Seq<char>>("unknown link kind "@ + debug_text(kind)),
        kind == "tcp"@ ==> parsed(kind + seq![':'] + rest) == Ok::<LinkView, Seq<char>>(
            LinkView::Tcp(rest),
        ),
        kind == "serial"@ ==> parsed(kind + seq![':'] + rest) == Ok::<LinkView, Seq<char>>(
            LinkView::Serial(rest),
        ),
{
    no_colon_from(kind, 0);
    let spec_text = kind + seq![':'] + rest;
    colon_after(spec_text, 0, kind.len() as int);
    assert(spec_text.take(kind.len() as int) == kind);
    assert(spec_text.skip(kind.len() as int + 1) == rest);
    reveal_strlit("bt");
    reveal_strlit("tcp");
    reveal_strlit("serial");
    assert("bt"@.len() == 2 && "tcp"@.len() == 3 && "serial"@.len() == 6);
}

/// A Bluetooth link is one of six bytes; of any other number of them it is said
/// that the address is bad, and of a piece that is no byte what is wrong with it.
pub proof fn a_bluetooth_link_has_six_bytes(address: Seq<char>)
    ensures
        ({
            let link = parsed("bt:"@ + address);
            match colon_bytes(address, 0) {
                Ok(bytes) => {
                    &&& bytes.len() == 6 ==> link == Ok::<LinkView, Seq<char>>(
                        LinkView::Bluetooth(bytes),
                    )
                    &&& bytes.len() != 6 ==> link == Err::<LinkView, Seq<char>>(
                        "bad Bluetooth address "@ + debug_text(address),
                    )
                },
                Err(e) => link == Err::<LinkView, Seq<char>>(e),
            }
        }),
{
    reveal_strlit("bt:");
    reveal_strlit("bt");
    let spec_text = "bt:"@ + address;
    colon_after(spec_text, 0, 2);
    assert(spec_text.take(2) == "bt"@);
    assert(spec_text.skip(3) == address);
}

proof fn colon_further_on(p: Seq<char>, s: Seq<char>, i: int)
    requires
        0 <= i,
    ensures
        position(p + s, ':', p.len() + i) == p.len() + position(s, ':', i),
        position(s, ':', i) >= i,
        i <= s.len() ==> position(s, ':', i) <= s.len(),
    decreases s.len() - i,
{
    if i < s.len() {
        assert((p + s)[p.len() + i] == s[i]);
        colon_further_on(p, s, i + 1);
    }
}

proof fn bytes_further_on(p: Seq<char>, s: Seq<char>, i: int)
    requires
        0 <= i <= s.len(),
    ensures
        colon_bytes(p + s, p.len() + i) == colon_bytes(s, i),
    decreases s.len() - i,
{
    colon_further_on(p, s, i);
    let end = position(s, ':', i);
    assert((p + s).subrange(p.len() + i, p.len() + end) == s.subrange(i, end));
    if end < s.len() {
        bytes_further_on(p, s, end + 1);
    }
}

/// An address is read piece by piece, in order: a piece stands for the byte that
/// its digits spell, and the first that stands for none is what is wrong.
pub proof fn an_address_is_read_piece_by_piece(piece: Seq<char>, rest: Seq<char>)
    requires
        without_colon(piece),
    ensures
        is_hex_byte(piece) ==> colon_bytes(piece, 0) == Ok::<Seq<u8>, Seq<char>>(
            seq![hex_number(unsigned(piece)) as u8],
        ),
        !is_hex_byte(piece) ==> colon_bytes(piece, 0) == Err::<Seq<u8>, Seq<char>>(
            radix_error(piece),
        ),
        !is_hex_byte(piece) ==> colon_bytes(piece + seq![':'] + rest, 0) == Err::<
            Seq<u8>,
            Seq<char>,
        >(radix_error(piece)),
        is_hex_byte(piece) ==> match colon_bytes(rest, 0) {
            Ok(bytes) => colon_bytes(piece + seq![':'] + rest, 0) == Ok::<Seq<u8>, Seq<char>>(
                seq![hex_number(unsigned(piece)) as u8] + bytes,
            ),
            Err(e) => colon_bytes(piece + seq![':'] + rest, 0) == Err::<Seq<u8>, Seq<char>>(e),
        },
{
    no_colon_from(piece, 0);
    assert(piece.subrange(0, piece.len() as int) == piece);
    let head = piece + seq![':'];
    let all = head + rest;
    colon_after(all, 0, piece.len() as int);
    assert(all.subrange(0, piece.len() as int) == piece);
    bytes_further_on(head, rest, 0);
}

} // verus!
