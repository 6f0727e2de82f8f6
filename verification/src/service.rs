//! The program round the control loop: shutdown signals, and how a run ends.

use crate::control::fault::{self, IoFault};
use crate::control::text::joined;
use vstd::prelude::*;

verus! {

/// `signal_hook::consts::SIGINT`, which is signal 2.
#[verifier::external_body]
fn sigint() -> (signal: i32)
    ensures
        signal == 2,
{
    signal_hook::consts::SIGINT
}

/// `signal_hook::consts::SIGTERM`, which is signal 15.
#[verifier::external_body]
fn sigterm() -> (signal: i32)
    ensures
        signal == 15,
{
    signal_hook::consts::SIGTERM
}

/// `signal_hook::consts::SIGHUP`, which is signal 1.
#[verifier::external_body]
fn sighup() -> (signal: i32)
    ensures
        signal == 1,
{
    signal_hook::consts::SIGHUP
}

/// The signals that ask for a shutdown: SIGINT, SIGTERM and SIGHUP.
pub fn shutdown_signals() -> (signals: Vec<i32>)
    ensures
        signals@ == seq![2i32, 15i32, 1i32],
{
    let mut signals: Vec<i32> = Vec::new();
    signals.push(sigint());
    signals.push(sigterm());
    signals.push(sighup());
    assert(signals@ =~= seq![2i32, 15i32, 1i32]);
    signals
}

/// The name of a signal.
pub open spec fn name_of(signal: i32) -> Seq<char> {
    if signal == 2 {
        "SIGINT"@
    } else if signal == 15 {
        "SIGTERM"@
    } else if signal == 1 {
        "SIGHUP"@
    } else {
        "UNKNOWN"@
    }
}

pub fn signal_name(signal: i32) -> (name: &'static str)
    ensures
        name@ == name_of(signal),
{
    if signal == sigint() {
        "SIGINT"
    } else if signal == sigterm() {
        "SIGTERM"
    } else if signal == sighup() {
        "SIGHUP"
    } else {
        "UNKNOWN"
    }
}

/// The exit code of a process that a signal ended.
pub fn signal_exit_code(signal: i32) -> (code: i32)
    requires
        128 + signal <= i32::MAX,
    ensures
        code == 128 + signal,
{
    128 + signal
}

/// What a shutdown signal leads to.
#[derive(Debug, PartialEq, Eq)]
pub enum SignalAction {
    /// Say this and stop the control loop.
    Shutdown(String),
    /// Say this, resume the target and exit with the code.
    ForceExit(String, i32),
}

/// What a signal leads to, as mathematical values.
#[verifier::ext_equal]
pub enum SignalActionView {
    Shutdown(Seq<char>),
    ForceExit(Seq<char>, int),
}

impl View for SignalAction {
    type V = SignalActionView;

    open spec fn view(&self) -> SignalActionView {
        match *self {
            SignalAction::Shutdown(message) => SignalActionView::Shutdown(message@),
            SignalAction::ForceExit(message, code) => SignalActionView::ForceExit(
                message@,
                code as int,
            ),
        }
    }
}

/// What a signal leads to: the first one to a shutdown, any other to an exit at once.
pub open spec fn on_signal_action(shutdown_started: bool, signal: i32) -> SignalActionView {
    if shutdown_started {
        SignalActionView::ForceExit(
            "received second shutdown signal "@ + name_of(signal) + "; exiting immediately"@,
            128 + signal,
        )
    } else {
        SignalActionView::Shutdown(
            "received shutdown signal "@ + name_of(signal)
                + "; stopping control loop and exiting"@,
        )
    }
}

/// Watches for shutdown signals.
#[derive(Clone, Copy, Debug, PartialEq, Eq, Structural)]
pub struct ShutdownWatch {
    pub shutdown_started: bool,
}

/// The watch after a signal.
pub open spec fn watch_next(watch: ShutdownWatch) -> ShutdownWatch {
    ShutdownWatch { shutdown_started: true, ..watch }
}

impl ShutdownWatch {
    pub fn new() -> (watch: ShutdownWatch)
        ensures
            !watch.shutdown_started,
    {
        ShutdownWatch { shutdown_started: false }
    }

    /// Takes in a signal.
    pub fn on_signal(&mut self, signal: i32) -> (action: SignalAction)
        requires
            old(self).shutdown_started ==> 128 + signal <= i32::MAX,
        ensures
            action@ == on_signal_action(old(self).shutdown_started, signal),
            *final(self) == watch_next(*old(self)),
    {
        let name = signal_name(signal);
        if self.shutdown_started {
            let mut message = joined("received second shutdown signal ", name);
            message.append("; exiting immediately");
            return SignalAction::ForceExit(message, signal_exit_code(signal));
        }
        self.shutdown_started = true;
        let mut message = joined("received shutdown signal ", name);
        message.append("; stopping control loop and exiting");
        SignalAction::Shutdown(message)
    }
}

/// The watch after these signals.
pub open spec fn watch_after(watch: ShutdownWatch, signals: Seq<i32>) -> ShutdownWatch
    decreases signals.len(),
{
    if signals.len() == 0 {
        watch
    } else {
        watch_next(watch_after(watch, signals.drop_last()))
    }
}

/// The first signal shuts the control loop down, and every one after it forces an exit
/// with the code of that signal.
pub proof fn law_second_signal_forces_exit(signals: Seq<i32>, signal: i32)
    ensures
        ({
            let watch = watch_after(ShutdownWatch { shutdown_started: false }, signals);
            match on_signal_action(watch.shutdown_started, signal) {
                SignalActionView::Shutdown(_) => signals.len() == 0,
                SignalActionView::ForceExit(_, code) => signals.len() > 0 && code == 128 + signal,
            }
        }),
{
}

/// What a thread panicked with.
#[derive(Debug, PartialEq, Eq)]
pub enum PanicPayload {
    Str(&'static str),
    Text(String),
    /// Something that is no text.
    Other,
}

/// The end of a sentence that says what a thread panicked with.
pub open spec fn payload_suffix(payload: PanicPayload) -> Seq<char> {
    match payload {
        PanicPayload::Str(message) => ": "@ + message@,
        PanicPayload::Text(message) => ": "@ + message@,
        PanicPayload::Other => Seq::empty(),
    }
}

pub fn panic_payload_suffix(payload: &PanicPayload) -> (suffix: String)
    ensures
        suffix@ == payload_suffix(*payload),
{
    match payload {
        PanicPayload::Str(message) => joined(": ", message),
        PanicPayload::Text(message) => joined(": ", message.as_str()),
        PanicPayload::Other => {
            let suffix = String::from_str("");
            proof {
                reveal_strlit("");
            }
            assert(suffix@ =~= Seq::<char>::empty());
            suffix
        },
    }
}

/// What is said of a panic of the signal-handling thread.
pub open spec fn panic_text(payload: PanicPayload, control_result: Result<(), String>) -> Seq<char> {
    let panicked = "signal-handling thread panicked"@ + payload_suffix(payload);
    match control_result {
        Ok(_) => panicked,
        Err(error) => panicked + "; control loop also failed: "@ + error@,
    }
}

/// The fault of a panic of the signal-handling thread. `control_result` holds the text of
/// the control loop's own error, where it has one.
pub fn signal_thread_panic_error(
    payload: &PanicPayload,
    control_result: &Result<(), String>,
) -> (fault: IoFault)
    ensures
        fault@ == fault::other_fault(panic_text(*payload, *control_result)),
{
    let suffix = panic_payload_suffix(payload);
    let mut message = joined("signal-handling thread panicked", suffix.as_str());
    match control_result {
        Ok(()) => {},
        Err(error) => {
            message.append("; control loop also failed: ");
            message.append(error.as_str());
        },
    }
    IoFault::other(message.as_str())
}

/// What became of the shutdown that a signal asked for. Errors are given by their texts.
#[derive(Debug, PartialEq, Eq)]
pub enum ShutdownReply {
    /// No signal asked for one.
    NotStarted,
    /// It was started, and never answered.
    Lost(String),
    /// It answered.
    Answered(Result<(), String>),
}

/// The text of an outcome's error, where it has one.
pub open spec fn outcome_text(outcome: Result<(), String>) -> Option<Seq<char>> {
    match outcome {
        Ok(_) => None,
        Err(error) => Some(error@),
    }
}

/// How a run ends: with the text of an error, or well. A panic of the signal-handling
/// thread counts first, then a shutdown that never answered, then the control loop, then
/// the shutdown.
pub open spec fn run_text(
    signal_thread: Result<(), PanicPayload>,
    control_result: Result<(), String>,
    shutdown: ShutdownReply,
) -> Option<Seq<char>> {
    match (signal_thread, shutdown, control_result) {
        (Err(payload), _, _) => Some(panic_text(payload, control_result)),
        (_, ShutdownReply::Lost(error), _) => Some(error@),
        (_, _, Err(error)) => Some(error@),
        (_, ShutdownReply::Answered(Err(error)), _) => Some(error@),
        _ => None,
    }
}

/// How a run ends, given how its parts did.
pub fn run_outcome(
    signal_thread: Result<(), PanicPayload>,
    control_result: Result<(), String>,
    shutdown: ShutdownReply,
) -> (outcome: Result<(), String>)
    ensures
        outcome_text(outcome) == run_text(signal_thread, control_result, shutdown),
{
    match signal_thread {
        Ok(()) => {},
        Err(payload) => {
            return Err(signal_thread_panic_error(&payload, &control_result).message);
        },
    }
    let shutdown_result = match shutdown {
        ShutdownReply::NotStarted => Ok(()),
        ShutdownReply::Lost(error) => {
            return Err(error);
        },
        ShutdownReply::Answered(result) => result,
    };
    match control_result {
        Ok(()) => shutdown_result,
        Err(error) => Err(error),
    }
}

/// A run ends well exactly when nothing went wrong in any part of it.
pub proof fn law_run_ends_well_when_all_parts_do(
    signal_thread: Result<(), PanicPayload>,
    control_result: Result<(), String>,
    shutdown: ShutdownReply,
)
    ensures
        run_text(signal_thread, control_result, shutdown) is None <==> signal_thread is Ok
            && control_result is Ok && (shutdown is NotStarted || shutdown matches
            ShutdownReply::Answered(Ok(_))),
{
}

/// The errors of a run count in order: a panic of the signal-handling thread first, which
/// also tells the control loop's error; then a shutdown that never answered; then the control
/// loop's error; then the shutdown's.
pub proof fn law_errors_count_in_order(
    signal_thread: Result<(), PanicPayload>,
    control_result: Result<(), String>,
    shutdown: ShutdownReply,
)
    ensures
        signal_thread matches Err(payload) ==> run_text(signal_thread, control_result, shutdown)
            == Some(
            "signal-handling thread panicked"@ + (match payload {
                PanicPayload::Str(message) => ": "@ + message@,
                PanicPayload::Text(message) => ": "@ + message@,
                PanicPayload::Other => Seq::empty(),
            }) + (match control_result {
                Err(error) => "; control loop also failed: "@ + error@,
                Ok(_) => Seq::empty(),
            }),
        ),
        signal_thread is Ok ==> (shutdown matches ShutdownReply::Lost(error) ==> run_text(
            signal_thread,
            control_result,
            shutdown,
        ) == Some(error@)),
        signal_thread is Ok && !(shutdown is Lost) ==> (control_result matches Err(error)
            ==> run_text(signal_thread, control_result, shutdown) == Some(error@)),
        signal_thread is Ok && control_result is Ok ==> (shutdown matches ShutdownReply::Answered(
            Err(error),
        ) ==> run_text(signal_thread, control_result, shutdown) == Some(error@)),
{
    if let Err(payload) = signal_thread {
        let panicked = "signal-handling thread panicked"@ + payload_suffix(payload);
        match control_result {
            Ok(_) => {
                assert(panicked + Seq::<char>::empty() =~= panicked);
            },
            Err(error) => {
                assert(panicked + ("; control loop also failed: "@ + error@) =~= panicked
                    + "; control loop also failed: "@ + error@);
            },
        }
    }
}

/// Each signal is said by its name, before a shutdown and before a forced exit.
pub proof fn law_signals_are_named(signal: i32)
    ensures
        name_of(2) == "SIGINT"@,
        name_of(15) == "SIGTERM"@,
        name_of(1) == "SIGHUP"@,
        signal != 2 && signal != 15 && signal != 1 ==> name_of(signal) == "UNKNOWN"@,
        on_signal_action(false, signal) == SignalActionView::Shutdown(
            "received shutdown signal "@ + name_of(signal)
                + "; stopping control loop and exiting"@,
        ),
        on_signal_action(true, signal) == SignalActionView::ForceExit(
            "received second shutdown signal "@ + name_of(signal) + "; exiting immediately"@,
            128 + signal,
        ),
{
}

/// The exit code of a forced exit is 128 and the signal.
pub proof fn law_exit_code_tells_the_signal(signal: i32, code: i32)
    requires
        signal_exit_code.ensures((signal,), code),
    ensures
        code - signal == 128,
{
}

} // verus!
