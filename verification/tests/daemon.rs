use sample_changer::daemon::{
    presence, DaemonWatch, Presence, Records, Tone, HOLD, IDLE, MEASUREMENT_WAIT, RUNNING,
};

/// One case per boundary of the pair, because the bug this replaces
/// was a boundary nobody had a case for: a state that reads right
/// while nothing is re-stamping it.
#[test]
fn only_a_beating_standing_state_is_listening() {
    assert_eq!(presence(Some(HOLD), true), Presence::Listening(HOLD));
    assert_eq!(presence(Some(HOLD), false), Presence::Silent(Some(HOLD)));
    // The one the measurement wait's Continue turned on.
    assert_eq!(
        presence(Some(MEASUREMENT_WAIT), true),
        Presence::Listening(MEASUREMENT_WAIT)
    );
    assert_eq!(
        presence(Some(MEASUREMENT_WAIT), false),
        Presence::Silent(Some(MEASUREMENT_WAIT))
    );
    // Working either way: the beat at the moment it started moving
    // is not a promise that it is reading.
    assert_eq!(presence(Some(RUNNING), true), Presence::Working);
    assert_eq!(presence(Some(RUNNING), false), Presence::Working);
    // No state at all is not a state to service.
    assert_eq!(presence(None, true), Presence::Silent(None));
    assert_eq!(presence(None, false), Presence::Silent(None));
}

fn records(state: Option<i64>, stamp: u64, connected: bool, now_ms: u64) -> Records {
    Records {
        state,
        alive_stamp: stamp,
        alive_connected: connected,
        now_ms,
    }
}

#[test]
fn a_stamp_that_stands_still_goes_silent_after_two_seconds() {
    let mut watch = DaemonWatch::new();
    assert_eq!(
        watch.read(&records(Some(IDLE), 7, true, 10_000)),
        Presence::Listening(IDLE)
    );
    // Same stamp 1.999 s later: still within the window.
    assert_eq!(
        watch.read(&records(Some(IDLE), 7, true, 11_999)),
        Presence::Listening(IDLE)
    );
    // Same stamp 2 s later: silent, and it says what it last showed.
    assert_eq!(
        watch.read(&records(Some(IDLE), 7, true, 12_000)),
        Presence::Silent(Some(IDLE))
    );
    // The stamp moves: listening again.
    assert_eq!(
        watch.read(&records(Some(IDLE), 8, true, 12_500)),
        Presence::Listening(IDLE)
    );
}

#[test]
fn a_disconnected_beat_is_silent() {
    let mut watch = DaemonWatch::new();
    assert_eq!(
        watch.read(&records(Some(HOLD), 1, false, 0)),
        Presence::Silent(Some(HOLD))
    );
    assert!(!watch.servicing(&records(Some(HOLD), 1, false, 0)));
}

#[test]
fn the_status_row_and_notes_say_what_the_daemon_does() {
    let mut watch = DaemonWatch::new();
    let idle = records(Some(IDLE), 1, true, 0);
    assert_eq!(watch.status(&idle), ("idle".to_string(), Tone::Good));
    assert_eq!(watch.note(&idle), "daemon is idle");
    assert_eq!(watch.not_ready_for_a_run(&idle), None);
    assert!(watch.is(&idle, IDLE));
    assert!(!watch.is(&idle, HOLD));

    let wait = records(Some(MEASUREMENT_WAIT), 2, true, 10);
    assert_eq!(
        watch.not_ready_for_a_run(&wait),
        Some("a run starts at the idle wait \u{2014} the daemon is in the measurement wait".to_string())
    );

    let running = records(Some(RUNNING), 2, true, 20);
    assert_eq!(
        watch.status(&running),
        ("running \u{2014} no commands read".to_string(), Tone::Busy)
    );
    assert_eq!(
        watch.note(&running),
        "daemon is working \u{2014} it reads no commands while it moves"
    );
    assert_eq!(
        watch.not_ready_for_a_run(&running),
        Some("daemon is working \u{2014} it reads no commands while it moves".to_string())
    );

    let gone = records(Some(HOLD), 2, false, 30);
    assert_eq!(
        watch.status(&gone),
        ("NOT RESPONDING (was hold)".to_string(), Tone::Bad)
    );
    assert_eq!(watch.note(&gone), "daemon not responding \u{2014} last said hold");

    let nothing = records(None, 2, true, 40);
    assert_eq!(watch.status(&nothing), ("NOT RESPONDING".to_string(), Tone::Bad));
    assert_eq!(watch.note(&nothing), "daemon not responding");
}

#[test]
fn presence_methods_agree_with_the_reading() {
    assert!(Presence::Listening(HOLD).servicing());
    assert!(!Presence::Working.servicing());
    assert!(Presence::Listening(HOLD).is(HOLD));
    assert!(!Presence::Silent(Some(HOLD)).is(HOLD));
    assert_eq!(Presence::Silent(None).note(), "daemon not responding");
    assert_eq!(Presence::Listening(IDLE).not_ready_for_a_run(), None);
    assert_eq!(
        Presence::Listening(3).status(),
        ("paused".to_string(), Tone::Good)
    );
}
