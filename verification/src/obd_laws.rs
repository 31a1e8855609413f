//! What holds of a conversation with the dongle as a whole.

use vstd::prelude::*;
use vstd::utf8::{
    encode_utf8, encode_utf8_decode_utf8, encode_utf8_valid_utf8, is_ascii_chars,
    is_ascii_chars_encode_utf8,
};

use crate::obd::{
    after_answer, answer_from, answer_on, asked, break_from, byte_pairs, cleaned, code_of,
    colon_bytes, completed, heard, hex_only, idle, is_refusal, joined, lines_from, lines_in, parsed,
    queried, refused, reply_mark, request, says_something, schedule, setup_command, written,
    ElmView, GoalView, LinkView, Pid, StepView,
};
use crate::telemetry::TelemetryView;
use crate::text::{
    a_hex_pair_reads_back, first_from, first_is_first, hex_number, hex_pair, is_hex, is_hex_byte,
    position, stands_at, strip_end, trim_end, trim_start, unsigned,
};

verus! {

// ----- what is asked ---------------------------------------------------------------

/// Speed is polled every other request, and every PID is polled once in eight.
pub proof fn speed_is_every_other_request(turn: int)
    ensures
        turn % 2 == 0 ==> schedule(turn) == Pid::Speed,
        turn % 2 == 1 ==> schedule(turn) != Pid::Speed,
        schedule(turn + 8) == schedule(turn),
{
}

/// Every round of eight requests asks for every PID.
pub proof fn a_round_asks_for_every_pid(start: int, pid: Pid)
    ensures
        exists|k: int| start <= k < start + 8 && schedule(k) == pid,
{
    let slot: int = match pid {
        Pid::Speed => 0,
        Pid::FuelLevel => 1,
        Pid::AmbientTemp => 3,
        Pid::MilStatus => 5,
        Pid::Odometer => 7,
    };
    let k = start + (slot - start) % 8;
    assert(k % 8 == slot);
    assert(schedule(k) == pid);
}

/// A PID that the car refuses is asked for once: the refusal gives no answer,
/// and from then on nothing is sent for it.
pub proof fn an_unsupported_pid_is_asked_once(e: ElmView, pid: Pid, lines: Seq<Seq<char>>)
    requires
        e.goal == GoalView::Answer(pid),
        answer_from(lines, reply_mark(pid), 0) is None,
        refused(lines),
    ensures
        completed(e, lines).0 == StepView::Answer(None),
        queried(completed(e, lines).1, pid) == (StepView::Answer(None), completed(e, lines).1),
{
    let after = completed(e, lines).1;
    assert(after.unsupported.last() == pid);
}

/// A car that answers `NO DATA` refuses.
pub proof fn no_data_is_a_refusal(pid: Pid)
    ensures
        refused(seq!["NO DATA"@]),
        answer_from(seq!["NO DATA"@], reply_mark(pid), 0) is None,
{
    let line = "NO DATA"@;
    let lines = seq![line];
    assert(line.subrange(0, line.len() as int) == line);
    assert(stands_at(line, line, 0));
    assert(is_refusal(lines[0]));
    reveal_strlit("NO DATA");
    reveal_strlit("41");
    assert(line == seq!['N', 'O', ' ', 'D', 'A', 'T', 'A']);
    few_digits_are_no_answer(line, reply_mark(pid));
    assert(answer_from(lines, reply_mark(pid), 1) is None);
}

/// Three digits hold no answer.
proof fn few_digits_are_no_answer(line: Seq<char>, mark: Seq<char>)
    requires
        line == seq!['N', 'O', ' ', 'D', 'A', 'T', 'A'],
        mark.len() == 4,
    ensures
        answer_on(line, mark) is None,
{
    reveal_with_fuel(hex_only, 8);
    let a = line.drop_last();
    let b = a.drop_last();
    let c = b.drop_last();
    let d = c.drop_last();
    let e = d.drop_last();
    let f = e.drop_last();
    assert(f.drop_last().len() == 0);
    assert(hex_only(line).len() == 3);
    first_is_first(hex_only(line), mark, 0);
}

/// A PID that stays unanswered without being refused is asked for again.
pub proof fn an_unanswered_pid_is_asked_again(e: ElmView, pid: Pid, lines: Seq<Seq<char>>)
    requires
        e.goal == GoalView::Answer(pid),
        !e.unsupported.contains(pid),
        !refused(lines),
    ensures
        queried(completed(e, lines).1, pid).0 == StepView::Send(written(request(pid))),
{
}

/// What is known of the car: no PID is noted twice, and none that is noted is
/// being asked for.
pub open spec fn consistent(e: ElmView) -> bool {
    &&& e.unsupported.no_duplicates()
    &&& e.goal matches GoalView::Answer(pid) ==> !e.unsupported.contains(pid)
}

/// A conversation starts out consistent.
pub proof fn a_conversation_starts_consistent()
    ensures
        consistent(idle(Seq::empty())),
{
}

/// Every step keeps what is known of the car, and adds at most the PID that was
/// asked for.
pub proof fn what_is_known_of_the_car_only_grows(
    e: ElmView,
    chunk: Seq<u8>,
    pid: Pid,
    cmd: Seq<char>,
)
    requires
        consistent(e),
    ensures
        consistent(heard(e, chunk).1),
        consistent(queried(e, pid).1),
        consistent(asked(e.unsupported, cmd, GoalView::Lines)),
        consistent(
            asked(
                e.unsupported,
                setup_command(0),
                GoalView::Setup { answered: 0, version: Seq::empty() },
            ),
        ),
        queried(e, pid).1.unsupported == e.unsupported,
        heard(e, chunk).1.unsupported == e.unsupported || (e.goal matches GoalView::Answer(p)
            && heard(e, chunk).1.unsupported == e.unsupported.push(p)),
{
}

/// One thing that happens in a conversation with the dongle.
pub enum Event {
    /// A command is sent for its own sake.
    Command(Seq<char>),
    /// The setup is started.
    Setup,
    /// A PID is asked for.
    Query(Pid),
    /// Bytes are read, up to a prompt or the end of the stream.
    Heard(Seq<u8>),
}

/// The conversation `e` after `event`.
pub open spec fn happened(e: ElmView, event: Event) -> ElmView {
    match event {
        Event::Command(cmd) => asked(e.unsupported, cmd, GoalView::Lines),
        Event::Setup => asked(
            e.unsupported,
            setup_command(0),
            GoalView::Setup { answered: 0, version: Seq::empty() },
        ),
        Event::Query(pid) => queried(e, pid).1,
        Event::Heard(chunk) => heard(e, chunk).1,
    }
}

/// A conversation from its start through `events`, in order.
pub open spec fn history(events: Seq<Event>) -> ElmView
    decreases events.len(),
{
    if events.len() == 0 {
        idle(Seq::empty())
    } else {
        happened(history(events.drop_last()), events.last())
    }
}

/// Whether `event` is the end of a reply in which the car refuses `pid`: it was
/// asked for, and the reply is a refusal without an answer.
pub open spec fn refuses(e: ElmView, event: Event, pid: Pid) -> bool {
    event matches Event::Heard(chunk) && {
        let lines = e.lines + lines_in(chunk, e.cmd);
        &&& e.goal == GoalView::Answer(pid)
        &&& chunk.len() > 0
        &&& chunk.last() == 0x3e
        &&& answer_from(lines, reply_mark(pid), 0) is None
        &&& refused(lines)
    }
}

/// Whether event `k` of `events` is the end of a reply in which the car refuses
/// `pid`.
pub open spec fn refused_at(events: Seq<Event>, k: int, pid: Pid) -> bool {
    0 <= k < events.len() && refuses(history(events.take(k)), events[k], pid)
}

/// A PID is skipped if and only if the car has refused it, whatever else has
/// happened: a query of it is answered at once, with nothing, after a refusal,
/// and goes out to the car before. Every conversation stays consistent, and so
/// the car refuses a PID at most once.
pub proof fn a_pid_is_skipped_once_it_was_refused(events: Seq<Event>, pid: Pid)
    ensures
        consistent(history(events)),
        history(events).unsupported.contains(pid) <==> exists|k: int|
            #[trigger] refused_at(events, k, pid),
        (exists|k: int| #[trigger] refused_at(events, k, pid)) ==> queried(history(events), pid)
            == (StepView::Answer(None), history(events)),
        !(exists|k: int| #[trigger] refused_at(events, k, pid)) ==> queried(
            history(events),
            pid,
        ).0 == StepView::Send(written(request(pid))),
        forall|j: int, k: int|
            #[trigger] refused_at(events, j, pid) && #[trigger] refused_at(events, k, pid) ==> j
                == k,
    decreases events.len(),
{
    if events.len() > 0 {
        let before = events.drop_last();
        let e = history(before);
        let last = events.len() - 1;
        a_pid_is_skipped_once_it_was_refused(before, pid);
        assert(events.take(last) == before);
        assert forall|k: int| 0 <= k < last implies #[trigger] refused_at(events, k, pid)
            == refused_at(before, k, pid) by {
            assert(events.take(k) == before.take(k));
        }
        one_event(e, events.last(), pid);
        let after = history(events);
        if after.unsupported.contains(pid) {
            if e.unsupported.contains(pid) {
                let k = choose|k: int| refused_at(before, k, pid);
                assert(refused_at(events, k, pid));
            } else {
                assert(refused_at(events, last, pid));
            }
        }
        if exists|k: int| #[trigger] refused_at(events, k, pid) {
            let k = choose|k: int| #[trigger] refused_at(events, k, pid);
            if k < last {
                assert(refused_at(before, k, pid));
            }
        }
    }
}

/// An event makes a PID unsupported if and only if it refuses it, and nothing
/// makes it supported again.
proof fn one_event(e: ElmView, event: Event, pid: Pid)
    requires
        consistent(e),
    ensures
        consistent(happened(e, event)),
        happened(e, event).unsupported.contains(pid) <==> e.unsupported.contains(pid) || refuses(
            e,
            event,
            pid,
        ),
        refuses(e, event, pid) ==> !e.unsupported.contains(pid),
{
    if let Event::Heard(chunk) = event {
        what_is_known_of_the_car_only_grows(e, chunk, pid, Seq::empty());
        let after = heard(e, chunk).1.unsupported;
        if let GoalView::Answer(p) = e.goal {
            if after == e.unsupported.push(p) {
                assert(after.last() == p);
                assert forall|i: int| 0 <= i < e.unsupported.len() implies after[i]
                    == e.unsupported[i] by {}
                if e.unsupported.contains(pid) {
                    let i = choose|i: int|
                        0 <= i < e.unsupported.len() && e.unsupported[i] == pid;
                    assert(after[i] == pid);
                }
            }
        }
    }
}

/// Only reads are sent: a query sends a Mode 01 request and nothing else, and
/// what follows a reply is a setup command or nothing.
pub proof fn only_reads_are_sent(e: ElmView, chunk: Seq<u8>, pid: Pid)
    ensures
        queried(e, pid).0 matches StepView::Send(bytes) ==> bytes == written(
            "01"@ + hex_pair(code_of(pid)),
        ),
        heard(e, chunk).0 matches StepView::Send(bytes) ==> e.goal is Setup && exists|i: int|
            1 <= i <= 6 && bytes == written(#[trigger] setup_command(i)),
{
    if let GoalView::Setup { answered, version } = e.goal {
        if answered < 6 {
            assert(1 <= answered as int + 1 <= 6);
            assert(heard(e, chunk).0 is Send ==> heard(e, chunk).0->Send_0 == written(
                setup_command(answered as int + 1),
            ));
        }
    }
}

/// An answer touches only the field it is about.
pub proof fn an_answer_touches_only_its_own_field(t: TelemetryView, pid: Pid, d: Seq<u8>)
    ensures
        after_answer(t, pid, d) == (TelemetryView {
            speed_kmh: if pid == Pid::Speed {
                after_answer(t, pid, d).speed_kmh
            } else {
                t.speed_kmh
            },
            fuel_level: if pid == Pid::FuelLevel {
                after_answer(t, pid, d).fuel_level
            } else {
                t.fuel_level
            },
            outside_temp_c: if pid == Pid::AmbientTemp {
                after_answer(t, pid, d).outside_temp_c
            } else {
                t.outside_temp_c
            },
            engine: if pid == Pid::MilStatus {
                after_answer(t, pid, d).engine
            } else {
                t.engine
            },
            odo_km: if pid == Pid::Odometer {
                after_answer(t, pid, d).odo_km
            } else {
                t.odo_km
            },
            ..t
        }),
{
}

// ----- the setup -------------------------------------------------------------------

/// The conversation `e` after the replies `chunks`.
pub open spec fn after_replies(e: ElmView, chunks: Seq<Seq<u8>>) -> ElmView
    decreases chunks.len(),
{
    if chunks.len() == 0 {
        e
    } else {
        heard(after_replies(e, chunks.drop_last()), chunks.last()).1
    }
}

/// The setup sends its commands in order, one for each prompt, and ends with
/// what the reset printed, its lines joined by spaces.
pub proof fn the_setup_sends_every_command_in_order(
    unsupported: Seq<Pid>,
    chunks: Seq<Seq<u8>>,
    n: int,
)
    requires
        chunks.len() == 7,
        forall|i: int| 0 <= i < 7 ==> #[trigger] chunks[i].len() > 0 && chunks[i].last() == 0x3e,
        0 <= n < 7,
    ensures
        ({
            let start = asked(
                unsupported,
                setup_command(0),
                GoalView::Setup { answered: 0, version: Seq::empty() },
            );
            let e = after_replies(start, chunks.take(n));
            let version = joined(lines_in(chunks[0], setup_command(0)));
            &&& e.unsupported == unsupported
            &&& e.cmd == setup_command(n)
            &&& n < 6 ==> heard(e, chunks[n]).0 == StepView::Send(written(setup_command(n + 1)))
            &&& n == 6 ==> heard(e, chunks[n]) == (StepView::Version(version), idle(unsupported))
        }),
{
    let start = asked(
        unsupported,
        setup_command(0),
        GoalView::Setup { answered: 0, version: Seq::empty() },
    );
    setup_after(unsupported, chunks, n);
    assert(start.lines + lines_in(chunks[0], setup_command(0)) == lines_in(
        chunks[0],
        setup_command(0),
    ));
}

/// Where the setup stands after `n` replies.
proof fn setup_after(unsupported: Seq<Pid>, chunks: Seq<Seq<u8>>, n: int)
    requires
        chunks.len() == 7,
        forall|i: int| 0 <= i < 7 ==> #[trigger] chunks[i].len() > 0 && chunks[i].last() == 0x3e,
        0 <= n < 7,
    ensures
        after_replies(
            asked(
                unsupported,
                setup_command(0),
                GoalView::Setup { answered: 0, version: Seq::empty() },
            ),
            chunks.take(n),
        ) == asked(
            unsupported,
            setup_command(n),
            GoalView::Setup {
                answered: n as nat,
                version: if n == 0 {
                    Seq::empty()
                } else {
                    joined(lines_in(chunks[0], setup_command(0)))
                },
            },
        ),
    decreases n,
{
    let none = Seq::<Seq<char>>::empty();
    if n > 0 {
        setup_after(unsupported, chunks, n - 1);
        assert(chunks.take(n).drop_last() == chunks.take(n - 1));
        assert(chunks.take(n).last() == chunks[n - 1]);
        assert(none + lines_in(chunks[0], setup_command(0)) == lines_in(
            chunks[0],
            setup_command(0),
        ));
    }
}

// ----- replies ---------------------------------------------------------------------

/// Neither blank lines nor the echo are among the lines of a reply.
pub proof fn a_reply_has_no_blank_line_and_no_echo(s: Seq<char>, cmd: Seq<char>, i: int, k: int)
    requires
        0 <= i <= s.len(),
        0 <= k < lines_from(s, cmd, i).len(),
    ensures
        says_something(lines_from(s, cmd, i)[k], cmd),
    decreases s.len() - i,
{
    let end = break_from(s, i);
    let line = cleaned(s.subrange(i, end));
    if i <= end < s.len() {
        let rest = lines_from(s, cmd, end + 1);
        if says_something(line, cmd) {
            if k > 0 {
                a_reply_has_no_blank_line_and_no_echo(s, cmd, end + 1, k - 1);
            }
        } else {
            a_reply_has_no_blank_line_and_no_echo(s, cmd, end + 1, k);
        }
    }
}

/// Whether `s` is on one line.
pub open spec fn unbroken(s: Seq<char>) -> bool {
    forall|i: int| 0 <= i < s.len() ==> s[i] != '\r' && s[i] != '\n'
}

proof fn break_after(s: Seq<char>, i: int, end: int)
    requires
        0 <= i <= end <= s.len(),
        forall|j: int| i <= j < end ==> s[j] != '\r' && s[j] != '\n',
        end == s.len() || s[end] == '\r' || s[end] == '\n',
    ensures
        break_from(s, i) == end,
    decreases end - i,
{
    if i < end {
        break_after(s, i + 1, end);
    }
}

proof fn nothing_is_left_of_a_prompt()
    ensures
        cleaned(Seq::empty()) == Seq::<char>::empty(),
        cleaned(seq!['>']) == Seq::<char>::empty(),
{
    reveal_with_fuel(trim_start, 2);
    reveal_with_fuel(trim_end, 2);
    reveal_with_fuel(strip_end, 3);
    assert(seq!['>'].drop_last() == Seq::<char>::empty());
}

/// What a dongle sends in reply to `cmd`: the echo, a line, and the prompt.
pub open spec fn reply_to(cmd: Seq<char>, line: Seq<char>) -> Seq<char> {
    cmd + seq!['\r'] + line + seq!['\r', '\r', '>']
}

/// A dongle echoes the command, answers and prompts: of such a reply exactly
/// the answer's line is left.
pub proof fn an_echoed_reply_is_its_answer(cmd: Seq<char>, line: Seq<char>)
    requires
        unbroken(cmd),
        unbroken(line),
        cleaned(cmd) == cmd,
        cleaned(line) == line,
        says_something(line, cmd),
    ensures
        lines_from(reply_to(cmd, line), cmd, 0) == seq![line],
{
    let s = reply_to(cmd, line);
    let a = cmd.len() as int;
    let b = a + 1 + line.len();
    nothing_is_left_of_a_prompt();
    break_after(s, 0, a);
    break_after(s, a + 1, b);
    break_after(s, b + 1, b + 1);
    break_after(s, b + 2, b + 3);
    assert(s.subrange(0, a) == cmd);
    assert(s.subrange(a + 1, b) == line);
    assert(s.subrange(b + 1, b + 1) == Seq::<char>::empty());
    assert(s.subrange(b + 2, b + 3) == seq!['>']);
    let none = Seq::<Seq<char>>::empty();
    assert(lines_from(s, cmd, b + 2) == none);
    assert(lines_from(s, cmd, b + 1) == none);
    assert(lines_from(s, cmd, a + 1) == seq![line] + none);
    assert(lines_from(s, cmd, 0) == seq![line] + none);
}

// ----- answers ---------------------------------------------------------------------

/// `data` in hexadecimal, two digits a byte.
pub open spec fn hexed(data: Seq<u8>) -> Seq<char>
    decreases data.len(),
{
    if data.len() == 0 {
        Seq::empty()
    } else {
        hexed(data.drop_last()) + hex_pair(data.last())
    }
}

proof fn hexed_reads_back(data: Seq<u8>)
    ensures
        hexed(data).len() == 2 * data.len(),
        byte_pairs(hexed(data)) == data,
        forall|i: int| 0 <= i < hexed(data).len() ==> is_hex(hexed(data)[i]),
    decreases data.len(),
{
    if data.len() > 0 {
        let front = data.drop_last();
        hexed_reads_back(front);
        a_hex_pair_reads_back(data.last());
        assert forall|i: int| 0 <= i < data.len() implies byte_pairs(hexed(data))[i] == data[i] by {
            if i < front.len() {
                assert(byte_pairs(hexed(front))[i] == front[i]);
                assert(hexed(data)[2 * i] == hexed(front)[2 * i]);
                assert(hexed(data)[2 * i + 1] == hexed(front)[2 * i + 1]);
            }
        }
        assert(byte_pairs(hexed(data)) == data);
    }
}

/// Digits among digits stay.
proof fn digits_are_kept(s: Seq<char>)
    requires
        forall|i: int| 0 <= i < s.len() ==> is_hex(s[i]),
    ensures
        hex_only(s) == s,
    decreases s.len(),
{
    if s.len() > 0 {
        digits_are_kept(s.drop_last());
    }
}

/// The first occurrence is where there is one and none comes before.
proof fn first_is_here(s: Seq<char>, word: Seq<char>, i: int, at: int)
    requires
        0 <= i <= at,
        stands_at(s, word, at),
        forall|j: int| i <= j < at ==> !stands_at(s, word, j),
    ensures
        first_from(s, word, i) == Some(at),
    decreases at - i,
{
    if i < at {
        first_is_here(s, word, i + 1, at);
    }
}

/// An answer is found wherever it is: after a CAN id and a length byte, and with
/// anything that is no digit among its digits.
pub proof fn an_answer_is_found_wherever_it_is(
    line: Seq<char>,
    head: Seq<char>,
    pid: Pid,
    data: Seq<u8>,
)
    requires
        hex_only(line) == head + reply_mark(pid) + hexed(data),
        forall|j: int| 0 <= j < head.len() ==> !stands_at(hex_only(line), reply_mark(pid), j),
    ensures
        answer_on(line, reply_mark(pid)) == Some(data),
{
    let hex = hex_only(line);
    let mark = reply_mark(pid);
    let at = head.len() as int;
    assert(hex.subrange(at, at + mark.len()) == mark);
    first_is_here(hex, mark, 0, at);
    assert(hex.skip(at + mark.len()) == hexed(data));
    hexed_reads_back(data);
}

/// The plain answer to a PID gives its data bytes.
pub proof fn a_plain_answer_reads_back(pid: Pid, data: Seq<u8>)
    ensures
        answer_from(seq![reply_mark(pid) + hexed(data)], reply_mark(pid), 0) == Some(data),
{
    let line = reply_mark(pid) + hexed(data);
    reveal_strlit("41");
    a_hex_pair_reads_back(code_of(pid));
    hexed_reads_back(data);
    digits_are_kept(line);
    assert(line == Seq::<char>::empty() + reply_mark(pid) + hexed(data));
    an_answer_is_found_wherever_it_is(line, Seq::empty(), pid, data);
}

/// Digits are left as they are when a line is cleaned.
proof fn digits_are_clean(s: Seq<char>)
    requires
        s.len() > 0,
        forall|i: int| 0 <= i < s.len() ==> is_hex(s[i]),
    ensures
        cleaned(s) == s,
        unbroken(s),
{
    assert(is_hex(s[0]));
    assert(is_hex(s.last()));
}

/// A reply of one line completes what was asked with that line.
proof fn a_reply_is_heard(e: ElmView, line: Seq<char>)
    requires
        e.lines.len() == 0,
        unbroken(e.cmd),
        unbroken(line),
        cleaned(e.cmd) == e.cmd,
        cleaned(line) == line,
        says_something(line, e.cmd),
        is_ascii_chars(e.cmd),
        is_ascii_chars(line),
    ensures
        heard(e, encode_utf8(reply_to(e.cmd, line))) == completed(e, seq![line]),
{
    let reply = reply_to(e.cmd, line);
    an_echoed_reply_is_its_answer(e.cmd, line);
    encode_utf8_valid_utf8(reply);
    encode_utf8_decode_utf8(reply);
    assert(is_ascii_chars(reply));
    is_ascii_chars_encode_utf8(reply);
    assert(reply.last() == '>');
    assert(encode_utf8(reply).last() == 0x3e);
    assert(e.lines + seq![line] == seq![line]);
}

/// The whole way of an answer: the request is sent, the dongle echoes it,
/// answers and prompts, and the data bytes come out.
pub proof fn an_answer_arrives(unsupported: Seq<Pid>, pid: Pid, data: Seq<u8>)
    ensures
        heard(
            asked(unsupported, request(pid), GoalView::Answer(pid)),
            encode_utf8(reply_to(request(pid), reply_mark(pid) + hexed(data))),
        ) == (StepView::Answer(Some(data)), idle(unsupported)),
{
    let e = asked(unsupported, request(pid), GoalView::Answer(pid));
    let cmd = request(pid);
    let line = reply_mark(pid) + hexed(data);
    reveal_strlit("01");
    reveal_strlit("41");
    a_hex_pair_reads_back(code_of(pid));
    hexed_reads_back(data);
    digits_are_clean(cmd);
    digits_are_clean(line);
    assert(line[0] == '4' && cmd[0] == '0');
    a_reply_is_heard(e, line);
    a_plain_answer_reads_back(pid, data);
}

/// The whole way of a refusal: a PID that the car answers with `NO DATA` is
/// noted, and asking for it again sends nothing.
pub proof fn a_pid_without_data_is_asked_once(unsupported: Seq<Pid>, pid: Pid)
    ensures
        ({
            let e = asked(unsupported, request(pid), GoalView::Answer(pid));
            let after = heard(e, encode_utf8(reply_to(request(pid), "NO DATA"@)));
            &&& after == (StepView::Answer(None), idle(unsupported.push(pid)))
            &&& queried(after.1, pid) == (StepView::Answer(None), after.1)
        }),
{
    let e = asked(unsupported, request(pid), GoalView::Answer(pid));
    no_data_is_a_refusal(pid);
    no_data_is_heard(e, pid);
    a_refusal_is_noted(e, pid, seq!["NO DATA"@]);
}

proof fn a_refusal_is_noted(e: ElmView, pid: Pid, lines: Seq<Seq<char>>)
    requires
        e.goal == GoalView::Answer(pid),
        answer_from(lines, reply_mark(pid), 0) is None,
        refused(lines),
    ensures
        completed(e, lines) == (StepView::Answer(None), idle(e.unsupported.push(pid))),
        queried(idle(e.unsupported.push(pid)), pid) == (
            StepView::Answer(None),
            idle(e.unsupported.push(pid)),
        ),
{
    an_unsupported_pid_is_asked_once(e, pid, lines);
}

proof fn no_data_is_heard(e: ElmView, pid: Pid)
    requires
        e.lines.len() == 0,
        e.cmd == request(pid),
    ensures
        heard(e, encode_utf8(reply_to(e.cmd, "NO DATA"@))) == completed(e, seq!["NO DATA"@]),
{
    let line = "NO DATA"@;
    reveal_strlit("01");
    reveal_strlit("NO DATA");
    a_hex_pair_reads_back(code_of(pid));
    digits_are_clean(e.cmd);
    assert(line[0] == 'N' && line.last() == 'A');
    assert(cleaned(line) == line);
    assert(line.len() == 7 && e.cmd.len() == 4);
    a_reply_is_heard(e, line);
}

// ----- links -----------------------------------------------------------------------

/// `addr` as Bluetooth addresses are printed: two digits a byte, colons between.
pub open spec fn printed(addr: Seq<u8>) -> Seq<char> {
    Seq::new(
        (3 * addr.len() - 1) as nat,
        |i: int|
            if i % 3 == 2 {
                ':'
            } else {
                hex_pair(addr[i / 3])[i % 3]
            },
    )
}

proof fn a_hex_pair_is_a_hex_byte(n: u8)
    ensures
        is_hex_byte(hex_pair(n)),
        hex_number(unsigned(hex_pair(n))) == n,
        hex_pair(n)[0] != ':',
        hex_pair(n)[1] != ':',
{
    let s = hex_pair(n);
    a_hex_pair_reads_back(n);
    reveal_with_fuel(hex_number, 3);
    assert(s.drop_last().drop_last() == Seq::<char>::empty());
}

proof fn printed_reads_back(addr: Seq<u8>, k: int)
    requires
        0 <= k < addr.len(),
    ensures
        colon_bytes(printed(addr), 3 * k) == Ok::<Seq<u8>, Seq<char>>(addr.skip(k)),
    decreases addr.len() - k,
{
    let s = printed(addr);
    let i = 3 * k;
    a_hex_pair_is_a_hex_byte(addr[k]);
    assert(s[i] == hex_pair(addr[k])[0]);
    assert(s[i + 1] == hex_pair(addr[k])[1]);
    reveal_with_fuel(position, 4);
    assert(position(s, ':', i) == i + 2);
    assert(s.subrange(i, i + 2) == hex_pair(addr[k]));
    if k + 1 < addr.len() {
        printed_reads_back(addr, k + 1);
        assert(seq![addr[k]] + addr.skip(k + 1) == addr.skip(k));
    } else {
        assert(seq![addr[k]] == addr.skip(k));
    }
}

pub proof fn colon_after(s: Seq<char>, i: int, end: int)
    requires
        0 <= i <= end < s.len(),
        forall|j: int| i <= j < end ==> s[j] != ':',
        s[end] == ':',
    ensures
        position(s, ':', i) == end,
    decreases end - i,
{
    if i < end {
        colon_after(s, i + 1, end);
    }
}

/// Every link that can be written is read as that link: `bt:` and a printed
/// address of six bytes, `tcp:` and a host and port, `serial:` and a path.
pub proof fn links_read_back(addr: Seq<u8>, rest: Seq<char>)
    requires
        addr.len() == 6,
    ensures
        parsed("bt:"@ + printed(addr)) == Ok::<LinkView, Seq<char>>(LinkView::Bluetooth(addr)),
        parsed("tcp:"@ + rest) == Ok::<LinkView, Seq<char>>(LinkView::Tcp(rest)),
        parsed("serial:"@ + rest) == Ok::<LinkView, Seq<char>>(LinkView::Serial(rest)),
{
    reveal_strlit("bt");
    reveal_strlit("bt:");
    reveal_strlit("tcp");
    reveal_strlit("tcp:");
    reveal_strlit("serial");
    reveal_strlit("serial:");
    let bt = "bt:"@ + printed(addr);
    colon_after(bt, 0, 2);
    assert(bt.take(2) == "bt"@);
    assert(bt.skip(3) == printed(addr));
    printed_reads_back(addr, 0);
    assert(addr.skip(0) == addr);
    let tcp = "tcp:"@ + rest;
    colon_after(tcp, 0, 3);
    assert(tcp.take(3) == "tcp"@);
    assert(tcp.skip(4) == rest);
    assert("tcp"@ != "bt"@);
    let serial = "serial:"@ + rest;
    colon_after(serial, 0, 6);
    assert(serial.take(6) == "serial"@);
    assert(serial.skip(7) == rest);
    assert("serial"@ != "bt"@);
    assert("serial"@ != "tcp"@);
}

} // verus!
