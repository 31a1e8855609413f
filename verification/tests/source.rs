//! Choosing a source and reporting its failures.

use agl_slint_cluster::source::{argument, select_source, Failures, Source};

#[test]
fn sources_are_chosen_by_name() {
    for (var, source) in [
        ("", Source::Sim),
        ("sim", Source::Sim),
        ("sim:anything", Source::Sim),
        (":", Source::Sim),
        ("can", Source::Can("can0".into())),
        ("can:", Source::Can("can0".into())),
        ("can:vcan0", Source::Can("vcan0".into())),
        ("kuksa", Source::Kuksa("http://127.0.0.1:55555".into())),
        (
            "kuksa:http://host:1",
            Source::Kuksa("http://host:1".into()),
        ),
        (
            "obd:bt:00:1D:A5:68:98:8B",
            Source::Obd("bt:00:1D:A5:68:98:8B".into()),
        ),
        (
            "obd:tcp:192.168.0.10:35000",
            Source::Obd("tcp:192.168.0.10:35000".into()),
        ),
        (
            "obd:serial:/dev/ttyUSB0",
            Source::Obd("serial:/dev/ttyUSB0".into()),
        ),
    ] {
        assert_eq!(select_source(var), (source, None), "{var}");
    }
}

#[test]
fn an_unknown_source_is_the_simulation_and_said_so() {
    let (source, notice) = select_source("CAN:\"x\"");
    assert_eq!(source, Source::Sim);
    assert_eq!(
        notice,
        Some("unknown CLUSTER_SOURCE=\"CAN:\\\"x\\\"\", using the simulation".into())
    );
}

#[test]
fn a_dongle_needs_a_link() {
    for var in ["obd", "obd:"] {
        let (source, notice) = select_source(var);
        assert_eq!(source, Source::Sim, "{var}");
        assert_eq!(
            notice,
            Some(format!(
                "unknown CLUSTER_SOURCE=\"{var}\", using the simulation"
            ))
        );
    }
    assert_eq!(
        select_source("obd::"),
        (Source::Obd(":".into()), None)
    );
}

#[test]
fn each_distinct_failure_is_reported_once() {
    let mut f = Failures::new();
    assert!(f.failed("no such device"));
    assert!(!f.failed("no such device"));
    assert!(f.failed("network is down"));
    assert!(f.failed("no such device"));
    f.recovered();
    assert!(f.failed("no such device"));
    assert!(!f.failed("no such device"));
    assert!(f.failed(""));
}

#[test]
fn a_simulator_takes_one_argument() {
    assert_eq!(argument(&vec![], "vcan0"), Some("vcan0".into()));
    assert_eq!(
        argument(&vec!["can1".into()], "vcan0"),
        Some("can1".into())
    );
    assert_eq!(
        argument(&vec![String::new()], "vcan0"),
        Some(String::new())
    );
    assert_eq!(argument(&vec!["--help".into()], "vcan0"), None);
    assert_eq!(
        argument(&vec!["can1".into(), "can2".into()], "vcan0"),
        None
    );
}
