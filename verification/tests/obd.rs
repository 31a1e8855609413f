//! The ELM327 conversation, against a scripted dongle.

use std::collections::VecDeque;
use std::io::{self, BufRead, BufReader, Read, Write};

use agl_slint_cluster::obd::{kernel_order, scheduled, Elm, Link, Pid, Step};
use agl_slint_cluster::telemetry::{Telemetry, Warn};

fn units(x: i64) -> f32 {
    (x as f64 / 1e6) as f32
}

/// A scripted dongle: answers each command from a queue, ELM style.
struct Fake {
    script: VecDeque<(&'static str, &'static str)>,
    out: Vec<u8>,
    pending: Vec<u8>,
    sent: Vec<String>,
}

impl Fake {
    fn new(script: &[(&'static str, &'static str)]) -> Self {
        Self {
            script: script.iter().copied().collect(),
            out: Vec::new(),
            pending: Vec::new(),
            sent: Vec::new(),
        }
    }
}

impl Read for Fake {
    fn read(&mut self, buf: &mut [u8]) -> io::Result<usize> {
        if self.pending.is_empty() {
            return Ok(0);
        }
        let n = buf.len().min(self.pending.len());
        buf[..n].copy_from_slice(&self.pending[..n]);
        self.pending.drain(..n);
        Ok(n)
    }
}

impl Write for Fake {
    fn write(&mut self, buf: &[u8]) -> io::Result<usize> {
        self.out.extend_from_slice(buf);
        if let Some(pos) = self.out.iter().position(|&b| b == b'\r') {
            let cmd = String::from_utf8_lossy(&self.out[..pos]).to_string();
            self.out.drain(..=pos);
            let (expect, reply) = self
                .script
                .pop_front()
                .unwrap_or_else(|| panic!("unexpected command {cmd}"));
            assert_eq!(cmd, expect);
            self.sent.push(cmd.clone());
            // Real dongles echo the command, then answer, then prompt.
            self.pending
                .extend_from_slice(format!("{cmd}\r{reply}\r\r>").as_bytes());
        }
        Ok(buf.len())
    }
    fn flush(&mut self) -> io::Result<()> {
        Ok(())
    }
}

/// Carry a conversation on until it has a result.
fn carry_on(elm: &mut Elm, io: &mut BufReader<Fake>, first: Step) -> Step {
    let mut step = first;
    loop {
        match step {
            Step::Send(bytes) => {
                io.get_mut().write_all(&bytes).unwrap();
                io.get_mut().flush().unwrap();
            }
            Step::Read => {}
            done => return done,
        }
        let mut chunk = Vec::new();
        io.read_until(b'>', &mut chunk).unwrap();
        step = elm.received(&chunk);
    }
}

fn query(elm: &mut Elm, io: &mut BufReader<Fake>, pid: Pid) -> Option<Vec<u8>> {
    let first = elm.query(pid);
    match carry_on(elm, io, first) {
        Step::Answer(answer) => answer,
        other => panic!("no answer but {other:?}"),
    }
}

#[test]
fn links_parse() {
    assert_eq!(
        Link::parse("bt:00:1D:A5:68:98:8B"),
        Ok(Link::Bluetooth([0x00, 0x1d, 0xa5, 0x68, 0x98, 0x8b]))
    );
    assert_eq!(
        Link::parse("tcp:192.168.0.10:35000"),
        Ok(Link::Tcp("192.168.0.10:35000".into()))
    );
    assert_eq!(
        Link::parse("serial:/dev/rfcomm0"),
        Ok(Link::Serial("/dev/rfcomm0".into()))
    );
    assert!(Link::parse("bt:zz").is_err());
    assert!(Link::parse("usb:0").is_err());
}

#[test]
fn init_then_a_round_of_pids() {
    let mut io = BufReader::new(Fake::new(&[
        ("ATZ", "ELM327 v2.2"),
        ("ATE0", "OK"),
        ("ATL0", "OK"),
        ("ATS0", "OK"),
        ("ATH0", "OK"),
        ("ATSP6", "OK"),
        ("ATST19", "OK"),
        ("010D", "410D3C"),       // 60 km/h
        ("012F", "412F80"),       // 50 % fuel
        ("0146", "41463D"),       // 61 - 40 = 21 C
        ("0101", "41018107E500"), // MIL on
        ("01A6", "41A600012D4A"), // 77130 -> 7713.0 km
    ]));
    let mut elm = Elm::new();
    let first = elm.init();
    assert_eq!(
        carry_on(&mut elm, &mut io, first),
        Step::Version("ELM327 v2.2".into())
    );
    let mut t = Telemetry::default();
    for pid in [
        Pid::Speed,
        Pid::FuelLevel,
        Pid::AmbientTemp,
        Pid::MilStatus,
        Pid::Odometer,
    ] {
        let data =
            query(&mut elm, &mut io, pid).unwrap_or_else(|| panic!("{pid:?} unanswered"));
        assert!(pid.apply(&mut t, &data));
    }
    assert_eq!(units(t.speed_kmh), 60.0);
    assert!((units(t.fuel_level) - 128.0 / 255.0).abs() < 1e-6);
    assert_eq!(t.outside_temp_c, 21);
    assert_eq!(t.engine, Warn::Amber);
    assert!((units(t.odo_km) - 7713.0).abs() < 1e-3);
}

#[test]
fn spaced_answers_and_headers_are_fine() {
    let mut io = BufReader::new(Fake::new(&[("010D", "7E8 03 41 0D 28")]));
    let mut elm = Elm::new();
    assert_eq!(query(&mut elm, &mut io, Pid::Speed), Some(vec![0x28]));
}

#[test]
fn unsupported_pids_are_asked_once() {
    let mut io = BufReader::new(Fake::new(&[("01A6", "NO DATA"), ("010D", "410D00")]));
    let mut elm = Elm::new();
    assert_eq!(query(&mut elm, &mut io, Pid::Odometer), None);
    assert_eq!(query(&mut elm, &mut io, Pid::Odometer), None); // not sent again
    assert_eq!(query(&mut elm, &mut io, Pid::Speed), Some(vec![0]));
    assert_eq!(io.get_ref().sent, vec!["01A6", "010D"]);
}

#[test]
fn a_wrong_link_says_what_is_wrong() {
    let error = |s: &str| Link::parse(s).unwrap_err();
    assert_eq!(error("tcp"), "no link kind in \"tcp\"");
    assert_eq!(error(""), "no link kind in \"\"");
    assert_eq!(error("usb:0"), "unknown link kind \"usb\"");
    assert_eq!(error("bt:zz"), "invalid digit found in string");
    assert_eq!(error("bt:"), "cannot parse integer from empty string");
    assert_eq!(
        error("bt:00:100"),
        "number too large to fit in target type"
    );
    assert_eq!(error("bt:00:1D"), "bad Bluetooth address \"00:1D\"");
    assert_eq!(
        error("bt:0:1:2:3:4:5:6"),
        "bad Bluetooth address \"0:1:2:3:4:5:6\""
    );
    // What is wrong with a byte counts before how many there are.
    assert_eq!(error("bt:00:x"), "invalid digit found in string");
    assert_eq!(error("a\tb:c"), "unknown link kind \"a\\tb\"");
}

#[test]
fn addresses_may_be_written_loosely() {
    assert_eq!(
        Link::parse("bt:+0:1:a:B:00c:FF"),
        Ok(Link::Bluetooth([0, 1, 10, 11, 12, 255]))
    );
    assert_eq!(Link::parse("tcp:"), Ok(Link::Tcp(String::new())));
    assert_eq!(Link::parse("serial:"), Ok(Link::Serial(String::new())));
}

#[test]
fn the_kernel_reads_an_address_backwards() {
    assert_eq!(kernel_order(&[1, 2, 3, 4, 5, 6]), [6, 5, 4, 3, 2, 1]);
}

#[test]
fn every_other_request_asks_for_the_speed() {
    let round: Vec<Pid> = (0..8).map(scheduled).collect();
    assert_eq!(
        round,
        [
            Pid::Speed,
            Pid::FuelLevel,
            Pid::Speed,
            Pid::AmbientTemp,
            Pid::Speed,
            Pid::MilStatus,
            Pid::Speed,
            Pid::Odometer,
        ]
    );
    assert_eq!(scheduled(9), Pid::FuelLevel);
    assert_eq!(scheduled(u64::MAX), Pid::Odometer);
}

#[test]
fn short_answers_change_nothing() {
    let mut t = Telemetry::default();
    for pid in [
        Pid::Speed,
        Pid::FuelLevel,
        Pid::AmbientTemp,
        Pid::MilStatus,
        Pid::Odometer,
    ] {
        assert!(!pid.apply(&mut t, &[]));
    }
    assert!(!Pid::Odometer.apply(&mut t, &[1, 2, 3]));
    assert_eq!(format!("{t:?}"), format!("{:?}", Telemetry::default()));
}

#[test]
fn answers_have_their_units() {
    let mut t = Telemetry::default();
    assert!(Pid::Speed.apply(&mut t, &[255, 9]));
    assert_eq!(t.speed_kmh, 255_000_000);
    assert!(Pid::FuelLevel.apply(&mut t, &[255]));
    assert_eq!(t.fuel_level, 1_000_000);
    assert!(Pid::FuelLevel.apply(&mut t, &[1]));
    assert_eq!(t.fuel_level, 3_922);
    assert!(Pid::AmbientTemp.apply(&mut t, &[0]));
    assert_eq!(t.outside_temp_c, -40);
    assert!(Pid::MilStatus.apply(&mut t, &[0x7f]));
    assert_eq!(t.engine, Warn::Off);
    assert!(Pid::MilStatus.apply(&mut t, &[0x80]));
    assert_eq!(t.engine, Warn::Amber);
    assert!(Pid::Odometer.apply(&mut t, &[0xff, 0xff, 0xff, 0xff]));
    assert_eq!(t.odo_km, 429_496_729_500_000);
    assert_eq!(Pid::Odometer.code(), 0xa6);
}

#[test]
fn a_command_gives_the_lines_of_its_reply() {
    let mut io = BufReader::new(Fake::new(&[("ATI", "\r ELM327 v1.5 \n\rsecond\r\n")]));
    let mut elm = Elm::new();
    let first = elm.command("ATI");
    assert_eq!(first, Step::Send(b"ATI\r".to_vec()));
    assert_eq!(
        carry_on(&mut elm, &mut io, first),
        Step::Lines(vec!["ELM327 v1.5".into(), "second".into()])
    );
}

#[test]
fn echo_is_dropped_in_any_case_and_prompts_are_stripped() {
    let mut elm = Elm::new();
    elm.command("atz");
    assert_eq!(
        elm.received(b"ATZ\rhello >>\r\xc2\xa0x\xe3\x80\x80\r \r>"),
        Step::Lines(vec!["hello".into(), "x".into()])
    );
}

#[test]
fn a_reply_may_come_in_pieces_and_end_early() {
    let mut elm = Elm::new();
    elm.command("ATI");
    assert_eq!(elm.received(b"ATI\rone\r"), Step::Read);
    assert_eq!(elm.received(b""), Step::Closed);
    assert_eq!(
        elm.received(b"two\r>"),
        Step::Lines(vec!["one".into(), "two".into()])
    );
}

#[test]
fn several_lines_of_a_version_are_joined() {
    let mut elm = Elm::new();
    assert_eq!(elm.init(), Step::Send(b"ATZ\r".to_vec()));
    assert_eq!(
        elm.received(b"ATZ\r\rELM327\rv2.2\r\r>"),
        Step::Send(b"ATE0\r".to_vec())
    );
    for next in ["ATL0", "ATS0", "ATH0", "ATSP6", "ATST19"] {
        let mut bytes = next.as_bytes().to_vec();
        bytes.push(b'\r');
        assert_eq!(elm.received(b"OK\r\r>"), Step::Send(bytes));
    }
    assert_eq!(
        elm.received(b"OK\r\r>"),
        Step::Version("ELM327 v2.2".into())
    );
}

#[test]
fn silence_is_asked_again_and_refusals_are_not() {
    let ask = |reply: &[u8]| {
        let mut elm = Elm::new();
        assert_eq!(elm.query(Pid::FuelLevel), Step::Send(b"012F\r".to_vec()));
        assert_eq!(elm.received(reply), Step::Answer(None));
        elm.query(Pid::FuelLevel)
    };
    assert_eq!(ask(b"SEARCHING...\r>"), Step::Send(b"012F\r".to_vec()));
    assert_eq!(ask(b">"), Step::Send(b"012F\r".to_vec()));
    assert_eq!(ask(b"412E80\r>"), Step::Send(b"012F\r".to_vec()));
    assert_eq!(ask(b"NO DATA\r>"), Step::Answer(None));
    assert_eq!(ask(b"UNABLE TO CONNECT\r>"), Step::Answer(None));
    assert_eq!(ask(b"7F0112\r>"), Step::Answer(None));
}

#[test]
fn a_refusal_is_remembered_whatever_follows() {
    let mut elm = Elm::new();
    // A refusal of a command, or of the setup, is none of a PID.
    elm.command("01A6");
    elm.received(b"NO DATA\r>");
    assert_eq!(elm.query(Pid::Odometer), Step::Send(b"01A6\r".to_vec()));
    // The reply is not over before the prompt.
    assert_eq!(elm.received(b"NO DATA\r"), Step::Read);
    assert_eq!(elm.query(Pid::Odometer), Step::Send(b"01A6\r".to_vec()));
    assert_eq!(elm.received(b"NO DATA\r>"), Step::Answer(None));
    for _ in 0..3 {
        assert_eq!(elm.query(Pid::Odometer), Step::Answer(None));
        assert_eq!(elm.query(Pid::Speed), Step::Send(b"010D\r".to_vec()));
        assert_eq!(elm.received(b"410D28\r>"), Step::Answer(Some(vec![0x28])));
        elm.init();
        elm.received(b"ELM327 v1.5\r>");
        assert_eq!(elm.received(b""), Step::Closed);
    }
}

#[test]
fn an_answer_is_found_among_other_lines() {
    let ask = |reply: &[u8]| {
        let mut elm = Elm::new();
        elm.query(Pid::Speed);
        elm.received(reply)
    };
    assert_eq!(
        ask(b"NO DATA\r410D11\r410D22\r>"),
        Step::Answer(Some(vec![0x11]))
    );
    assert_eq!(
        ask(b"7E8 03 41 0D 1f 2\r>"),
        Step::Answer(Some(vec![0x1f]))
    );
    assert_eq!(ask(b"410D\r>"), Step::Answer(Some(vec![])));
    // The number of a PID is looked for in upper case.
    assert_eq!(ask(b"410d11\r>"), Step::Answer(None));
}

#[test]
fn bytes_that_are_no_text_do_no_harm() {
    let mut elm = Elm::new();
    elm.command("ATI");
    assert_eq!(
        elm.received(b"\xff\xfe\r>"),
        Step::Lines(vec!["\u{fffd}\u{fffd}".into()])
    );
}
