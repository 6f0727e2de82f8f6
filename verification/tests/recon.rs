use kirv::control::fault::{FaultKind, IoFault};
use kirv::control::listing::{
    list_pids, list_pids_result_fills_buffer, normalize_list_pids_result, pid_buffer_size,
    pid_capacity_for_size,
};
use kirv::control::recon::{
    current_uid, ensure_process_owner, group_contains_pid, group_has_live_members, group_pids,
    identity_from_bsd_info, normalize_bsd_info_result, normalize_group_pids_result,
    normalize_process_identity_result, raw_group_pids, resolve_looked_up, same_process_identity,
    should_discard_cpu_sample, BsdInfo, ProcessAccessError, ProcessOwnerError, Recon, ResolveError,
    PROC_PGRP_ONLY,
};
use kirv::control::span::Span;
use kirv::control::types::{ProcessIdentity, TargetGroup};

fn not_found() -> IoFault {
    IoFault::new(FaultKind::NotFound, "entity not found")
}

fn permission_denied() -> IoFault {
    IoFault::new(FaultKind::PermissionDenied, "permission denied")
}

fn bsd_info_fixture(uid: u32) -> BsdInfo {
    BsdInfo {
        pid: 42,
        pgid: 77,
        uid,
        start_tvsec: 123,
        start_tvusec: 456,
    }
}

fn identity_fixture() -> ProcessIdentity {
    ProcessIdentity {
        pid: 42,
        pgid: 77,
        start_tvsec: 123,
        start_tvusec: 456,
    }
}

fn target_fixture() -> TargetGroup {
    TargetGroup {
        root: identity_fixture(),
        pgid: 77,
    }
}

#[test]
fn group_with_positive_pid_is_treated_as_alive() {
    assert!(group_has_live_members(&[0, -1, 123]));
}

#[test]
fn group_without_positive_pids_is_treated_as_dead() {
    assert!(!group_has_live_members(&[]));
    assert!(!group_has_live_members(&[0, -1]));
}

#[test]
fn group_contains_pid_requires_target_pid() {
    assert!(group_contains_pid(&[1, 42, 99], 42));
    assert!(!group_contains_pid(&[1, 99], 42));
}

#[test]
fn recon_starts_with_unprimed_cpu_samples() {
    let recon = Recon::default();

    assert!(!recon.cpu_primed);
}

#[test]
fn discards_only_first_cpu_sample_after_refresh() {
    let mut cpu_primed = false;

    assert!(should_discard_cpu_sample(&mut cpu_primed));
    assert!(cpu_primed);
    assert!(!should_discard_cpu_sample(&mut cpu_primed));
}

#[test]
fn not_found_group_is_treated_as_missing() {
    let result = normalize_group_pids_result(Err(not_found()));

    assert_eq!(result.unwrap(), None);
}

#[test]
fn not_found_process_identity_is_treated_as_missing() {
    let result = normalize_process_identity_result(Err(not_found()));

    assert_eq!(result.unwrap(), None);
}

#[test]
fn process_identity_errors_other_than_not_found_are_propagated() {
    let err = normalize_process_identity_result(Err(permission_denied()))
        .expect_err("permission errors should propagate");

    assert_eq!(err.kind, FaultKind::PermissionDenied);
}

#[test]
fn zero_byte_bsd_info_result_is_deterministic_not_found() {
    let err = normalize_bsd_info_result(0, 128, || panic!("the call did not fail"))
        .expect_err("zero-byte result should be treated as missing process info");

    assert_eq!(err.kind, FaultKind::NotFound);
    assert_eq!(err.message, "proc_pidinfo returned no BSD process info");
}

#[test]
fn failed_bsd_info_call_gives_the_system_error() {
    let err = normalize_bsd_info_result(-1, 128, permission_denied).unwrap_err();

    assert_eq!(err, permission_denied());
    assert!(normalize_bsd_info_result(128, 128, permission_denied).is_ok());
}

#[test]
fn zero_byte_list_pids_result_is_empty_success() {
    let result = normalize_list_pids_result(0, || panic!("the call did not fail"))
        .expect("zero-byte proc_listpids result should be successful");

    assert_eq!(result, 0);
}

#[test]
fn detects_list_pids_result_that_fills_buffer() {
    assert!(list_pids_result_fills_buffer(16, 8));
    assert!(list_pids_result_fills_buffer(8, 8));
    assert!(!list_pids_result_fills_buffer(4, 8));
}

#[test]
fn pid_capacity_rounds_up_to_cover_requested_bytes() {
    let pid_size = std::mem::size_of::<nix::libc::pid_t>() as i32;

    assert_eq!(pid_capacity_for_size(pid_size), 1);
    assert_eq!(pid_capacity_for_size(pid_size + 1), 2);
}

#[test]
fn pid_capacity_of_any_size() {
    assert_eq!(pid_capacity_for_size(0), 0);
    assert_eq!(pid_capacity_for_size(i32::MAX), 0x2000_0000);
    assert_eq!(pid_capacity_for_size(-1), usize::MAX / 4 + 1);
}

#[test]
fn pid_buffer_size_reports_allocated_bytes() {
    let pid_size = std::mem::size_of::<nix::libc::pid_t>() as i32;

    assert_eq!(pid_buffer_size(2).unwrap(), pid_size * 2);
}

#[test]
fn pid_buffer_size_rejects_what_the_call_cannot_express() {
    assert_eq!(pid_buffer_size(0x1fff_ffff).unwrap(), 0x7fff_fffc);
    assert_eq!(
        pid_buffer_size(0x2000_0000).unwrap_err().message,
        "proc_listpids buffer size overflow"
    );
    assert!(pid_buffer_size(usize::MAX).is_err());
}

#[test]
fn short_bsd_info_result_is_rejected() {
    let err = normalize_bsd_info_result(64, 128, || panic!("the call did not fail"))
        .expect_err("short result should not be accepted");

    assert_eq!(err.message, "invalid value returned");
}

#[test]
fn missing_group_has_no_members() {
    let members = normalize_group_pids_result(Err(not_found()))
        .unwrap()
        .unwrap_or_default();

    assert!(members.is_empty());
}

#[test]
fn converts_bsd_info_to_process_identity() {
    let info = bsd_info_fixture(0);

    assert_eq!(identity_from_bsd_info(&info), identity_fixture());
}

#[test]
fn identity_reads_large_ids_as_negative() {
    let info = BsdInfo {
        pid: 0xffff_ffff,
        pgid: 0x8000_0000,
        ..bsd_info_fixture(0)
    };
    let identity = identity_from_bsd_info(&info);

    assert_eq!(identity.pid, -1);
    assert_eq!(identity.pgid, i32::MIN);
}

#[test]
fn accepts_process_owned_by_current_user() {
    let mut info = bsd_info_fixture(current_uid());

    assert!(ensure_process_owner(&info, current_uid()).is_ok());

    info.uid = current_uid().saturating_add(1);
    let err = ensure_process_owner(&info, current_uid())
        .expect_err("owner mismatch should be rejected");

    assert_eq!(
        err.message(),
        format!(
            "target process is owned by uid {}, current user is uid {}",
            info.uid,
            current_uid()
        )
    );
}

#[test]
fn current_uid_is_the_one_of_the_system() {
    assert_eq!(current_uid(), nix::unistd::getuid().as_raw());
}

#[test]
fn process_access_error_explains_permission_denied_context() {
    let err = ProcessAccessError {
        pid: 42,
        current_uid: 501,
    };

    assert_eq!(
        err.message(),
        "target process 42 is not readable by current user uid 501; it may be owned by another user"
    );
}

#[test]
fn matching_identity_is_treated_as_same_process() {
    let target = identity_fixture();

    assert!(same_process_identity(target, target));
}

#[test]
fn reused_pid_with_different_start_time_is_treated_as_different_process() {
    let original = identity_fixture();
    let reused = ProcessIdentity {
        start_tvsec: 999,
        ..original
    };

    assert!(!same_process_identity(original, reused));
}

#[test]
fn resolves_the_group_of_an_own_process() {
    let mut recon = Recon::new();
    let target = recon
        .resolve_target_group(42, |pid| {
            assert_eq!(pid, 42);
            Ok(bsd_info_fixture(current_uid()))
        })
        .unwrap();

    assert_eq!(target, target_fixture());
}

#[test]
fn resolution_tells_its_failures_apart() {
    let resolve = |lookup| resolve_looked_up(42, lookup, 501);

    let refused = resolve(Err(permission_denied())).unwrap_err();
    assert!(matches!(
        refused,
        ResolveError::Access(ProcessAccessError {
            pid: 42,
            current_uid: 501
        })
    ));
    assert_eq!(
        refused.message(),
        "target process 42 is not readable by current user uid 501; it may be owned by another user"
    );

    let missing = resolve(Err(not_found())).unwrap_err();
    assert!(matches!(&missing, ResolveError::Lookup(fault) if *fault == not_found()));
    assert_eq!(missing.message(), "entity not found");

    let foreign = resolve(Ok(bsd_info_fixture(0))).unwrap_err();
    assert!(matches!(
        foreign,
        ResolveError::Owner(ProcessOwnerError {
            target_uid: 0,
            current_uid: 501
        })
    ));
    assert_eq!(
        foreign.message(),
        "target process is owned by uid 0, current user is uid 501"
    );

    let groupless = resolve(Ok(BsdInfo {
        pgid: 0,
        ..bsd_info_fixture(501)
    }))
    .unwrap_err();
    assert!(matches!(groupless, ResolveError::InvalidGroup));
    assert_eq!(groupless.message(), "invalid process group");
}

#[test]
fn validation_follows_the_process_and_its_group() {
    let recon = Recon::new();
    let target = target_fixture();
    let alive = |_: i32| Ok(bsd_info_fixture(1));

    let listed = recon.validate_target_group(&target, alive, |kind, info| {
        assert_eq!((kind, info), (PROC_PGRP_ONLY, 77));
        Ok(vec![42, 0])
    });
    assert_eq!(listed, Ok(true));
    assert_eq!(
        recon.validate_target_group(&target, alive, |_, _| Ok(vec![43])),
        Ok(false)
    );
    assert_eq!(
        recon.validate_target_group(&target, alive, |_, _| Err(not_found())),
        Ok(false)
    );
    assert_eq!(
        recon.validate_target_group(&target, alive, |_, _| Err(permission_denied())),
        Err(permission_denied())
    );
    let reused = |_: i32| {
        Ok(BsdInfo {
            start_tvsec: 999,
            ..bsd_info_fixture(1)
        })
    };
    assert_eq!(
        recon.validate_target_group(&target, reused, |_, _| panic!("nothing to list")),
        Ok(false)
    );
    assert_eq!(
        recon.validate_target_group(&target, |_| Err(not_found()), |_, _| panic!("nothing")),
        Ok(false)
    );
    assert_eq!(
        recon.validate_target_group(&target, |_| Err(permission_denied()), |_, _| panic!("no")),
        Err(permission_denied())
    );
}

#[test]
fn observation_skips_the_first_sample() {
    let mut recon = Recon::new();
    let target = target_fixture();
    let usage = |refreshed: &Vec<i32>, pid: i32| {
        assert_eq!(*refreshed, vec![42, 43]);
        match pid {
            42 => Some(12.5f32),
            _ => None,
        }
    };

    let first = recon
        .observe_group(
            &target,
            |_, _| Ok(vec![0, 42, 43]),
            |pids| pids.clone(),
            |_: &Vec<i32>, _| -> Option<f32> { panic!("the first sample measures nothing") },
            || panic!("nothing was read"),
        )
        .unwrap();
    assert!(first.is_none());
    assert!(recon.cpu_primed);

    let second = recon
        .observe_group(
            &target,
            |_, _| Ok(vec![0, 42, 43]),
            |pids| pids.clone(),
            usage,
            || Span::from_millis(2),
        )
        .unwrap()
        .expect("the second sample should count");
    assert_eq!(second.timestamp, Span::from_millis(2));
    assert_eq!(second.per_pid_cpu, vec![(42, 12.5)]);
    assert_eq!(second.process_count, 1);
}

#[test]
fn observation_of_nothing_is_none() {
    let mut recon = Recon { cpu_primed: true };
    let target = target_fixture();

    let of_list = |recon: &mut Recon, list: Result<Vec<i32>, IoFault>| {
        recon.observe_group(
            &target,
            |_, _| list,
            |_| (),
            |_, _| None::<f32>,
            || Span::zero(),
        )
    };
    assert!(matches!(of_list(&mut recon, Ok(vec![])), Ok(None)));
    assert!(matches!(of_list(&mut recon, Ok(vec![0, -1])), Ok(None)));
    assert!(matches!(of_list(&mut recon, Err(not_found())), Ok(None)));
    assert!(matches!(of_list(&mut recon, Ok(vec![42])), Ok(None)));
    assert!(matches!(
        of_list(&mut recon, Err(permission_denied())),
        Err(fault) if fault == permission_denied()
    ));
}

#[test]
fn group_pids_keeps_live_members_in_order() {
    assert_eq!(group_pids(7, |_, _| Ok(vec![3, 0, -4, 9])), Ok(vec![3, 9]));
    assert_eq!(group_pids(7, |_, _| Err(not_found())), Ok(vec![]));
    assert_eq!(
        raw_group_pids(7, |_, _| Ok(vec![3, 0])),
        Ok(Some(vec![3, 0]))
    );
}

#[test]
fn list_pids_asks_again_while_the_buffer_is_full() {
    let (pids, calls) = list_pids(
        2,
        77,
        Vec::new(),
        |mut calls: Vec<&str>, _, _| {
            calls.push("size");
            (8, calls)
        },
        |mut calls, kind, info, capacity, bytes| {
            assert_eq!((kind, info, capacity, bytes), (2, 77, 18, 72));
            calls.push("fill");
            if calls.len() < 6 {
                (72, vec![1; 18], calls)
            } else {
                (8, vec![5, 6], calls)
            }
        },
        permission_denied,
    );

    assert_eq!(pids, Ok(vec![5, 6]));
    assert_eq!(calls, vec!["size", "fill", "size", "fill", "size", "fill"]);
}

#[test]
fn list_pids_gives_up_on_a_list_that_keeps_filling_the_buffer() {
    let (pids, fills) = list_pids(
        2,
        77,
        0,
        |fills: usize, _, _| (4, fills),
        |fills, _, _, capacity, bytes| (bytes, vec![1; capacity], fills + 1),
        permission_denied,
    );

    assert_eq!(
        pids.unwrap_err().message,
        "proc_listpids may have truncated results after retries"
    );
    assert_eq!(fills, 3);
}

#[test]
fn list_pids_passes_failures_on() {
    let with_size = |size: i32| {
        list_pids(
            2,
            77,
            (),
            |(), _, _| (size, ()),
            |(), _, _, _, _| panic!("no fill"),
            permission_denied,
        )
        .0
    };
    let with_fill = |filled: i32, buffer: Vec<i32>| {
        list_pids(
            2,
            77,
            (),
            |(), _, _| (4, ()),
            |(), _, _, _, _| (filled, buffer.clone(), ()),
            permission_denied,
        )
        .0
    };

    assert_eq!(with_size(-1), Err(permission_denied()));
    assert_eq!(with_size(0), Ok(vec![]));
    assert_eq!(
        with_size(i32::MAX).unwrap_err().message,
        "proc_listpids buffer size overflow"
    );
    assert_eq!(with_fill(-1, vec![]), Err(permission_denied()));
    assert_eq!(with_fill(0, vec![9]), Ok(vec![]));
    assert_eq!(with_fill(8, vec![9, 10, 11]), Ok(vec![9, 10]));
}
