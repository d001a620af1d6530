use mymusic_daw::midi::event::MidiEvent;
use mymusic_daw::plugin::clap_ffi::clap_process_status;
use mymusic_daw::plugin::clap_instance::{
    begin_startup, check_process_ready, clap_note_events, process_status_result, startup_step, CallOutcome,
    ClapNote, StartupStage,
};
use mymusic_daw::plugin::PluginError;

fn init_failure(r: Result<StartupStage, PluginError>) -> String {
    match r {
        Err(PluginError::InitializationFailed(m)) => m,
        other => panic!("expected an initialization failure, got {:?}", other),
    }
}

#[test]
fn startup_runs_init_activate_start() {
    let s = begin_startup(false).unwrap();
    assert_eq!(s, StartupStage::AwaitingInit);
    let s = startup_step(s, CallOutcome::Returned(true)).unwrap();
    assert_eq!(s, StartupStage::AwaitingActivate);
    let s = startup_step(s, CallOutcome::Returned(true)).unwrap();
    assert_eq!(s, StartupStage::AwaitingStart);
    let s = startup_step(s, CallOutcome::Returned(true)).unwrap();
    assert_eq!(s, StartupStage::Started);
}

#[test]
fn null_plugin_cannot_start() {
    match begin_startup(true) {
        Err(PluginError::InitializationFailed(m)) => assert_eq!(m, "Plugin pointer is null"),
        other => panic!("unexpected {:?}", other),
    }
}

#[test]
fn startup_failures_name_the_call() {
    assert_eq!(
        init_failure(startup_step(StartupStage::AwaitingInit, CallOutcome::Returned(false))),
        "Plugin init() returned false"
    );
    assert_eq!(
        init_failure(startup_step(StartupStage::AwaitingActivate, CallOutcome::Returned(false))),
        "Plugin activate() returned false"
    );
    assert_eq!(
        init_failure(startup_step(StartupStage::AwaitingStart, CallOutcome::Panicked)),
        "Plugin start_processing() panicked (likely no display server or incompatible environment)"
    );
    assert_eq!(
        init_failure(startup_step(StartupStage::AwaitingInit, CallOutcome::TimedOut)),
        "Plugin init() timed out"
    );
    assert_eq!(
        init_failure(startup_step(StartupStage::AwaitingInit, CallOutcome::ChannelFailed)),
        "Plugin init() communication failed"
    );
}

#[test]
fn process_needs_an_active_plugin() {
    assert!(check_process_ready(true, false).is_ok());
    match check_process_ready(false, false) {
        Err(PluginError::ProcessingFailed(m)) => assert_eq!(m, "Plugin not active"),
        other => panic!("unexpected {:?}", other),
    }
    match check_process_ready(true, true) {
        Err(PluginError::ProcessingFailed(m)) => assert_eq!(m, "Plugin pointer is null"),
        other => panic!("unexpected {:?}", other),
    }
}

#[test]
fn only_error_status_fails() {
    assert!(process_status_result(clap_process_status::CLAP_PROCESS_CONTINUE).is_ok());
    assert!(process_status_result(clap_process_status::CLAP_PROCESS_TAIL).is_ok());
    assert!(process_status_result(clap_process_status::CLAP_PROCESS_SLEEP).is_ok());
    match process_status_result(clap_process_status::CLAP_PROCESS_ERROR) {
        Err(PluginError::ProcessingFailed(m)) => assert_eq!(m, "Plugin process returned ERROR"),
        other => panic!("unexpected {:?}", other),
    }
}

#[test]
fn pending_notes_become_clap_notes_in_order() {
    let pending = vec![
        (MidiEvent::NoteOn { note: 60, velocity: 100 }, 0),
        (MidiEvent::ControlChange { controller: 7, value: 90 }, 4),
        (MidiEvent::NoteOff { note: 60 }, 128),
        (MidiEvent::PitchBend { value: 8192 }, 130),
    ];
    assert_eq!(
        clap_note_events(&pending),
        vec![
            ClapNote { is_on: true, key: 60, velocity: 100, time: 0 },
            ClapNote { is_on: false, key: 60, velocity: 0, time: 128 },
        ]
    );
    assert!(clap_note_events(&Vec::new()).is_empty());
}
