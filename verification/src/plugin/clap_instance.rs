//! The decisions of a running CLAP plugin instance: the start-up sequence
//! (`init`, `activate`, `start_processing`), the checks around a `process`
//! call, and the note events handed to the plugin.
//!
//! The calls into the plugin go through C function pointers; the caller
//! makes each call and hands its outcome to these functions.

use crate::midi::event::MidiEvent;
use crate::plugin::clap_ffi::clap_process_status;
use crate::plugin::error::PluginError;
use vstd::prelude::*;

verus! {

/// Where the start-up sequence of a plugin instance stands.
#[derive(Debug, Clone, Copy, PartialEq, Eq)]
pub enum StartupStage {
    /// `init()` is to be called.
    AwaitingInit,
    /// `activate()` is to be called.
    AwaitingActivate,
    /// `start_processing()` is to be called.
    AwaitingStart,
    /// The plugin processes audio; the editor may be created.
    Started,
}

/// What a call into the plugin gave back.
#[derive(Debug, Clone, Copy, PartialEq, Eq)]
pub enum CallOutcome {
    /// The call returned this flag.
    Returned(bool),
    /// The call panicked.
    Panicked,
    /// No answer came within the time limit (watched for `init()` only).
    TimedOut,
    /// The answer could not be received (watched for `init()` only).
    ChannelFailed,
}

/// The name of the plugin function called at `stage`.
pub open spec fn call_name(stage: StartupStage) -> Seq<char> {
    match stage {
        StartupStage::AwaitingInit => "init"@,
        StartupStage::AwaitingActivate => "activate"@,
        _ => "start_processing"@,
    }
}

/// The stage after a successful call at `stage`.
pub open spec fn next_stage(stage: StartupStage) -> StartupStage {
    match stage {
        StartupStage::AwaitingInit => StartupStage::AwaitingActivate,
        StartupStage::AwaitingActivate => StartupStage::AwaitingStart,
        _ => StartupStage::Started,
    }
}

/// The detail of the initialization error that `outcome` at `stage` gives.
pub open spec fn failure_detail(stage: StartupStage, outcome: CallOutcome) -> Seq<char> {
    match outcome {
        CallOutcome::Returned(_) => "Plugin "@ + call_name(stage) + "() returned false"@,
        CallOutcome::Panicked => "Plugin "@ + call_name(stage)
            + "() panicked (likely no display server or incompatible environment)"@,
        CallOutcome::TimedOut => "Plugin init() timed out"@,
        CallOutcome::ChannelFailed => "Plugin init() communication failed"@,
    }
}

/// The result of one start-up step: the next stage where the call returned
/// `true`, and otherwise an initialization error naming what went wrong.
pub open spec fn spec_startup_step(stage: StartupStage, outcome: CallOutcome) -> Result<StartupStage, Seq<char>> {
    if outcome == CallOutcome::Returned(true) {
        Ok(next_stage(stage))
    } else {
        Err(failure_detail(stage, outcome))
    }
}

/// Whether `r` is the initialization error whose detail is `detail`.
pub open spec fn is_init_failure(r: PluginError, detail: Seq<char>) -> bool {
    r matches PluginError::InitializationFailed(m) && m@ == detail
}

/// Whether `r` is the processing error whose detail is `detail`.
pub open spec fn is_processing_failure(r: PluginError, detail: Seq<char>) -> bool {
    r matches PluginError::ProcessingFailed(m) && m@ == detail
}

/// The start of the sequence: refused where the plugin pointer is null.
pub fn begin_startup(plugin_is_null: bool) -> (r: Result<StartupStage, PluginError>)
    ensures
        !plugin_is_null ==> r == Ok::<StartupStage, PluginError>(StartupStage::AwaitingInit),
        plugin_is_null ==> (r matches Err(e) && is_init_failure(e, "Plugin pointer is null"@)),
{
    if plugin_is_null {
        Err(PluginError::InitializationFailed(String::from_str("Plugin pointer is null")))
    } else {
        Ok(StartupStage::AwaitingInit)
    }
}

/// One step of the start-up sequence: `outcome` is what the call due at
/// `stage` gave back.
pub fn startup_step(stage: StartupStage, outcome: CallOutcome) -> (r: Result<StartupStage, PluginError>)
    requires
        stage != StartupStage::Started,
        stage != StartupStage::AwaitingInit ==> (outcome is Returned || outcome is Panicked),
    ensures
        match spec_startup_step(stage, outcome) {
            Ok(s) => r == Ok::<StartupStage, PluginError>(s),
            Err(d) => r matches Err(e) && is_init_failure(e, d),
        },
{
    match outcome {
        CallOutcome::Returned(true) => match stage {
            StartupStage::AwaitingInit => Ok(StartupStage::AwaitingActivate),
            StartupStage::AwaitingActivate => Ok(StartupStage::AwaitingStart),
            _ => Ok(StartupStage::Started),
        },
        CallOutcome::Returned(false) => {
            let name = match stage {
                StartupStage::AwaitingInit => "init",
                StartupStage::AwaitingActivate => "activate",
                _ => "start_processing",
            };
            proof {
                reveal_strlit("init");
                reveal_strlit("activate");
                reveal_strlit("start_processing");
            }
            let m = String::from_str("Plugin ").concat(name).concat("() returned false");
            Err(PluginError::InitializationFailed(m))
        },
        CallOutcome::Panicked => {
            let name = match stage {
                StartupStage::AwaitingInit => "init",
                StartupStage::AwaitingActivate => "activate",
                _ => "start_processing",
            };
            proof {
                reveal_strlit("init");
                reveal_strlit("activate");
                reveal_strlit("start_processing");
            }
            let m = String::from_str("Plugin ").concat(name).concat(
                "() panicked (likely no display server or incompatible environment)",
            );
            Err(PluginError::InitializationFailed(m))
        },
        CallOutcome::TimedOut => Err(
            PluginError::InitializationFailed(String::from_str("Plugin init() timed out")),
        ),
        CallOutcome::ChannelFailed => Err(
            PluginError::InitializationFailed(String::from_str("Plugin init() communication failed")),
        ),
    }
}

/// A start-up sequence in which every call up to some step returned `true`
/// ends in the stage after that step; the first call that does not return
/// `true` ends the sequence with its error.
pub proof fn law_startup_runs_in_order(o1: CallOutcome, o2: CallOutcome, o3: CallOutcome)
    requires
        o2 is Returned || o2 is Panicked,
        o3 is Returned || o3 is Panicked,
    ensures
        o1 == CallOutcome::Returned(true) && o2 == CallOutcome::Returned(true) && o3
            == CallOutcome::Returned(true) ==> spec_startup_step(
            StartupStage::AwaitingStart,
            o3,
        ) == Ok::<StartupStage, Seq<char>>(StartupStage::Started) && spec_startup_step(
            StartupStage::AwaitingInit,
            o1,
        ) == Ok::<StartupStage, Seq<char>>(StartupStage::AwaitingActivate) && spec_startup_step(
            StartupStage::AwaitingActivate,
            o2,
        ) == Ok::<StartupStage, Seq<char>>(StartupStage::AwaitingStart),
        o1 != CallOutcome::Returned(true) ==> spec_startup_step(StartupStage::AwaitingInit, o1) is Err,
{
}

/// Whether a `process` call may go ahead: the instance must be active and
/// its plugin pointer set.
pub fn check_process_ready(is_active: bool, plugin_is_null: bool) -> (r: Result<(), PluginError>)
    ensures
        r is Ok <==> is_active && !plugin_is_null,
        !is_active ==> (r matches Err(e) && is_processing_failure(e, "Plugin not active"@)),
        is_active && plugin_is_null ==> (r matches Err(e) && is_processing_failure(
            e,
            "Plugin pointer is null"@,
        )),
{
    if !is_active {
        Err(PluginError::ProcessingFailed(String::from_str("Plugin not active")))
    } else if plugin_is_null {
        Err(PluginError::ProcessingFailed(String::from_str("Plugin pointer is null")))
    } else {
        Ok(())
    }
}

/// What a `process` call's status means: only an error status fails;
/// continue, tail and sleep are all success.
pub fn process_status_result(status: clap_process_status) -> (r: Result<(), PluginError>)
    ensures
        r is Ok <==> status != clap_process_status::CLAP_PROCESS_ERROR,
        r matches Err(e) ==> is_processing_failure(e, "Plugin process returned ERROR"@),
{
    match status {
        clap_process_status::CLAP_PROCESS_ERROR => Err(
            PluginError::ProcessingFailed(String::from_str("Plugin process returned ERROR")),
        ),
        _ => Ok(()),
    }
}

/// A note event to hand to the plugin in the next `process` call.
/// `velocity` is the MIDI velocity (0 to 127, 0 for a note off); the event
/// carries it scaled to 0.0 to 1.0.
#[derive(Debug, Clone, Copy, PartialEq, Eq)]
pub struct ClapNote {
    /// A note on (`true`) or a note off.
    pub is_on: bool,
    pub key: u8,
    pub velocity: u8,
    /// Offset of the event in the block, in samples.
    pub time: u32,
}

/// The note event that a pending MIDI event becomes, if any: note on and
/// note off are passed on, other events are not.
pub open spec fn note_of(e: (MidiEvent, u32)) -> Option<ClapNote> {
    match e.0 {
        MidiEvent::NoteOn { note, velocity } => Some(
            ClapNote { is_on: true, key: note, velocity, time: e.1 },
        ),
        MidiEvent::NoteOff { note } => Some(ClapNote { is_on: false, key: note, velocity: 0, time: e.1 }),
        _ => None,
    }
}

/// The note events of `pending`, in order.
pub open spec fn notes_of(pending: Seq<(MidiEvent, u32)>) -> Seq<ClapNote>
    decreases pending.len(),
{
    if pending.len() == 0 {
        Seq::empty()
    } else {
        let rest = notes_of(pending.drop_last());
        match note_of(pending.last()) {
            Some(n) => rest.push(n),
            None => rest,
        }
    }
}

/// The note events for the MIDI events queued since the last `process`
/// call, with their offsets, in the order they were queued.
pub fn clap_note_events(pending: &Vec<(MidiEvent, u32)>) -> (r: Vec<ClapNote>)
    ensures
        r@ == notes_of(pending@),
{
    let mut out: Vec<ClapNote> = Vec::new();
    let mut i: usize = 0;
    while i < pending.len()
        invariant
            0 <= i <= pending@.len(),
            out@ == notes_of(pending@.subrange(0, i as int)),
        decreases pending@.len() - i,
    {
        let (event, time) = pending[i];
        proof {
            assert(pending@.subrange(0, i + 1).drop_last() =~= pending@.subrange(0, i as int));
        }
        match event {
            MidiEvent::NoteOn { note, velocity } => {
                out.push(ClapNote { is_on: true, key: note, velocity, time });
            },
            MidiEvent::NoteOff { note } => {
                out.push(ClapNote { is_on: false, key: note, velocity: 0, time });
            },
            _ => {},
        }
        i = i + 1;
    }
    proof {
        assert(pending@.subrange(0, pending@.len() as int) =~= pending@);
    }
    out
}

} // verus!
