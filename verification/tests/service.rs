use kirv::control::fault::FaultKind;
use kirv::service::{
    panic_payload_suffix, run_outcome, shutdown_signals, signal_exit_code, signal_name,
    signal_thread_panic_error, PanicPayload, ShutdownReply, ShutdownWatch, SignalAction,
};
use signal_hook::consts::{SIGHUP, SIGINT, SIGTERM, SIGUSR1};

#[test]
fn maps_supported_shutdown_signals_to_names() {
    assert_eq!(signal_name(SIGINT), "SIGINT");
    assert_eq!(signal_name(SIGTERM), "SIGTERM");
    assert_eq!(signal_name(SIGHUP), "SIGHUP");
}

#[test]
fn other_signals_have_no_name() {
    assert_eq!(signal_name(SIGUSR1), "UNKNOWN");
    assert_eq!(signal_name(0), "UNKNOWN");
}

#[test]
fn listens_to_the_shutdown_signals() {
    assert_eq!(shutdown_signals(), vec![SIGINT, SIGTERM, SIGHUP]);
}

#[test]
fn maps_signal_to_forced_shutdown_exit_code() {
    assert_eq!(signal_exit_code(SIGINT), 130);
    assert_eq!(signal_exit_code(SIGTERM), 143);
}

#[test]
fn first_signal_shuts_down_and_second_forces_exit() {
    let mut watch = ShutdownWatch::new();

    assert_eq!(
        watch.on_signal(SIGTERM),
        SignalAction::Shutdown(
            "received shutdown signal SIGTERM; stopping control loop and exiting".to_string()
        )
    );
    assert_eq!(
        watch.on_signal(SIGINT),
        SignalAction::ForceExit(
            "received second shutdown signal SIGINT; exiting immediately".to_string(),
            130
        )
    );
    assert!(matches!(
        watch.on_signal(SIGHUP),
        SignalAction::ForceExit(_, 129)
    ));
}

#[test]
fn first_signal_needs_no_exit_code() {
    let mut watch = ShutdownWatch::new();

    assert_eq!(
        watch.on_signal(i32::MAX),
        SignalAction::Shutdown(
            "received shutdown signal UNKNOWN; stopping control loop and exiting".to_string()
        )
    );
}

#[test]
fn includes_str_panic_payload_in_suffix() {
    let payload = PanicPayload::Str("signal loop failed");

    assert_eq!(panic_payload_suffix(&payload), ": signal loop failed");
}

#[test]
fn includes_string_panic_payload_in_suffix() {
    let payload = PanicPayload::Text(String::from("signal loop failed"));

    assert_eq!(panic_payload_suffix(&payload), ": signal loop failed");
}

#[test]
fn omits_unknown_panic_payload_from_suffix() {
    assert!(panic_payload_suffix(&PanicPayload::Other).is_empty());
}

#[test]
fn signal_thread_panic_error_includes_control_loop_error() {
    let payload = PanicPayload::Str("signal loop failed");
    let control_result = Err("control loop failed".to_string());

    let fault = signal_thread_panic_error(&payload, &control_result);
    let message = fault.message;

    assert_eq!(fault.kind, FaultKind::Other);
    assert!(message.contains("signal-handling thread panicked: signal loop failed"));
    assert!(message.contains("control loop also failed: control loop failed"));
}

#[test]
fn signal_thread_panic_error_omits_successful_control_loop() {
    let payload = PanicPayload::Str("signal loop failed");
    let control_result = Ok(());

    let message = signal_thread_panic_error(&payload, &control_result).message;

    assert_eq!(
        message,
        "signal-handling thread panicked: signal loop failed"
    );
}

#[test]
fn a_run_ends_with_its_most_telling_error() {
    let failed = |text: &str| -> Result<(), String> { Err(text.to_string()) };

    assert_eq!(run_outcome(Ok(()), Ok(()), ShutdownReply::NotStarted), Ok(()));
    assert_eq!(
        run_outcome(Ok(()), Ok(()), ShutdownReply::Answered(Ok(()))),
        Ok(())
    );
    assert_eq!(
        run_outcome(
            Err(PanicPayload::Other),
            failed("loop"),
            ShutdownReply::Lost("lost".to_string())
        ),
        failed("signal-handling thread panicked; control loop also failed: loop")
    );
    assert_eq!(
        run_outcome(
            Ok(()),
            failed("loop"),
            ShutdownReply::Lost("lost".to_string())
        ),
        failed("lost")
    );
    assert_eq!(
        run_outcome(
            Ok(()),
            failed("loop"),
            ShutdownReply::Answered(failed("shutdown"))
        ),
        failed("loop")
    );
    assert_eq!(
        run_outcome(
            Ok(()),
            Ok(()),
            ShutdownReply::Answered(failed("shutdown"))
        ),
        failed("shutdown")
    );
}
