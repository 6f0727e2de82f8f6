//! Finding out about processes: who the target is, whether it still lives, and how much
//! CPU it uses.
//!
//! The system calls themselves come in as closures; what is made of their answers is
//! decided here.

use crate::control::fault::{self, FaultKind, FaultView, IoFault};
use crate::control::span::Span;
use crate::control::text::{self, append_decimal, append_signed};
use crate::control::types::{ProcessIdentity, RawObservation, TargetGroup};
use vstd::prelude::*;

verus! {

/// The selector with which `proc_listpids` lists the members of one process group.
pub const PROC_PGRP_ONLY: u32 = 2;

/// What the system reports of a process, as far as the control logic reads it.
#[derive(Clone, Copy, Debug, PartialEq, Eq, Structural)]
pub struct BsdInfo {
    pub pid: u32,
    pub pgid: u32,
    pub uid: u32,
    pub start_tvsec: u64,
    pub start_tvusec: u64,
}

/// The target belongs to another user.
#[derive(Clone, Copy, Debug, PartialEq, Eq, Structural)]
pub struct ProcessOwnerError {
    pub target_uid: u32,
    pub current_uid: u32,
}

impl ProcessOwnerError {
    pub open spec fn text(&self) -> Seq<char> {
        "target process is owned by uid "@ + text::decimal(self.target_uid as nat)
            + ", current user is uid "@ + text::decimal(self.current_uid as nat)
    }

    pub fn message(&self) -> (message: String)
        ensures
            message@ == self.text(),
    {
        let mut message = String::from_str("target process is owned by uid ");
        append_decimal(&mut message, self.target_uid as u64);
        message.append(", current user is uid ");
        append_decimal(&mut message, self.current_uid as u64);
        message
    }
}

/// The target cannot be inspected by the current user.
#[derive(Clone, Copy, Debug, PartialEq, Eq, Structural)]
pub struct ProcessAccessError {
    pub pid: i32,
    pub current_uid: u32,
}

impl ProcessAccessError {
    pub open spec fn text(&self) -> Seq<char> {
        "target process "@ + text::signed_decimal(self.pid as int)
            + " is not readable by current user uid "@ + text::decimal(self.current_uid as nat)
            + "; it may be owned by another user"@
    }

    pub fn message(&self) -> (message: String)
        ensures
            message@ == self.text(),
    {
        let mut message = String::from_str("target process ");
        append_signed(&mut message, self.pid);
        message.append(" is not readable by current user uid ");
        append_decimal(&mut message, self.current_uid as u64);
        message.append("; it may be owned by another user");
        message
    }
}

/// Why no process group could be made the target.
#[derive(Debug)]
pub enum ResolveError {
    /// The process information could not be read for want of permission.
    Access(ProcessAccessError),
    /// The process information could not be read for another reason.
    Lookup(IoFault),
    /// The process is another user's.
    Owner(ProcessOwnerError),
    /// The process is in no group that can be signalled.
    InvalidGroup,
}

impl ResolveError {
    pub open spec fn text(&self) -> Seq<char> {
        match *self {
            ResolveError::Access(error) => error.text(),
            ResolveError::Lookup(fault) => fault.message@,
            ResolveError::Owner(error) => error.text(),
            ResolveError::InvalidGroup => "invalid process group"@,
        }
    }

    pub fn message(&self) -> (message: String)
        ensures
            message@ == self.text(),
    {
        match self {
            ResolveError::Access(error) => error.message(),
            ResolveError::Lookup(fault) => fault.message.clone(),
            ResolveError::Owner(error) => error.message(),
            ResolveError::InvalidGroup => String::from_str("invalid process group"),
        }
    }
}

/// The signed number with the same 32 bits.
pub open spec fn signed(bits: u32) -> i32 {
    if bits <= 0x7fff_ffff {
        bits as i32
    } else {
        (bits - 0x1_0000_0000) as i32
    }
}

fn to_signed(bits: u32) -> (number: i32)
    ensures
        number == signed(bits),
{
    if bits <= 0x7fff_ffff {
        bits as i32
    } else {
        (bits as i64 - 0x1_0000_0000) as i32
    }
}

/// The identity that the system's report gives a process.
pub open spec fn identity_of(info: BsdInfo) -> ProcessIdentity {
    ProcessIdentity {
        pid: signed(info.pid),
        pgid: signed(info.pgid),
        start_tvsec: info.start_tvsec,
        start_tvusec: info.start_tvusec,
    }
}

pub fn identity_from_bsd_info(info: &BsdInfo) -> (identity: ProcessIdentity)
    ensures
        identity == identity_of(*info),
{
    ProcessIdentity {
        pid: to_signed(info.pid),
        pgid: to_signed(info.pgid),
        start_tvsec: info.start_tvsec,
        start_tvusec: info.start_tvusec,
    }
}

/// Accepts a process of the user `current_uid` and no other.
pub fn ensure_process_owner(info: &BsdInfo, current_uid: u32) -> (result: Result<
    (),
    ProcessOwnerError,
>)
    ensures
        result == if info.uid == current_uid {
            Ok(())
        } else {
            Err(ProcessOwnerError { target_uid: info.uid, current_uid })
        },
{
    if info.uid != current_uid {
        return Err(ProcessOwnerError { target_uid: info.uid, current_uid });
    }
    Ok(())
}

/// Judges the byte count that `proc_pidinfo` returned. A negative count means that the
/// call failed, and `last_os_error` says why.
pub fn normalize_bsd_info_result<E: FnOnce() -> IoFault>(
    result: i32,
    expected_size: i32,
    last_os_error: E,
) -> (outcome: Result<(), IoFault>)
    requires
        result < 0 ==> last_os_error.requires(()),
    ensures
        match outcome {
            Ok(_) => result >= 0 && result != 0 && result == expected_size,
            Err(fault) => if result < 0 {
                last_os_error.ensures((), fault)
            } else if result == 0 {
                fault@ == (FaultView {
                    kind: FaultKind::NotFound,
                    message: "proc_pidinfo returned no BSD process info"@,
                })
            } else {
                &&& result != expected_size
                &&& fault@ == fault::other_fault("invalid value returned"@)
            },
        },
{
    if result < 0 {
        Err(last_os_error())
    } else if result == 0 {
        Err(IoFault::new(FaultKind::NotFound, "proc_pidinfo returned no BSD process info"))
    } else if result != expected_size {
        Err(IoFault::other("invalid value returned"))
    } else {
        Ok(())
    }
}

/// Whether a pid in the list is that of a live process: the system pads with others.
pub open spec fn has_live_member(pids: Seq<i32>) -> bool {
    exists|i: int| 0 <= i < pids.len() && #[trigger] pids[i] > 0
}

pub fn group_has_live_members(pids: &[i32]) -> (live: bool)
    ensures
        live == has_live_member(pids@),
{
    let mut i: usize = 0;
    while i < pids.len()
        invariant
            i <= pids.len(),
            forall|j: int| 0 <= j < i ==> #[trigger] pids@[j] <= 0,
        decreases pids.len() - i,
    {
        if pids[i] > 0 {
            return true;
        }
        i = i + 1;
    }
    false
}

pub fn group_contains_pid(pids: &[i32], target_pid: i32) -> (contains: bool)
    ensures
        contains == pids@.contains(target_pid),
{
    let mut i: usize = 0;
    while i < pids.len()
        invariant
            i <= pids.len(),
            forall|j: int| 0 <= j < i ==> #[trigger] pids@[j] != target_pid,
        decreases pids.len() - i,
    {
        if pids[i] == target_pid {
            return true;
        }
        i = i + 1;
    }
    false
}

pub fn same_process_identity(expected: ProcessIdentity, actual: ProcessIdentity) -> (same: bool)
    ensures
        same == (expected == actual),
{
    expected == actual
}

/// Tells whether the CPU sample at hand is the first, which measures nothing yet, and
/// remembers that one was taken.
pub fn should_discard_cpu_sample(cpu_primed: &mut bool) -> (discard: bool)
    ensures
        discard == !*old(cpu_primed),
        *final(cpu_primed),
{
    if *cpu_primed {
        false
    } else {
        *cpu_primed = true;
        true
    }
}

/// What a group listing comes to: a group that is not found has no list.
pub open spec fn listing_view(result: Result<Vec<i32>, IoFault>) -> Result<
    Option<Seq<i32>>,
    FaultView,
> {
    match result {
        Ok(pids) => Ok(Some(pids@)),
        Err(fault) => if fault.kind == FaultKind::NotFound {
            Ok(None)
        } else {
            Err(fault@)
        },
    }
}

pub fn normalize_group_pids_result(result: Result<Vec<i32>, IoFault>) -> (pids: Result<
    Option<Vec<i32>>,
    IoFault,
>)
    ensures
        match pids {
            Ok(Some(pids)) => listing_view(result) == Ok::<Option<Seq<i32>>, FaultView>(
                Some(pids@),
            ),
            Ok(None) => listing_view(result) == Ok::<Option<Seq<i32>>, FaultView>(None),
            Err(fault) => listing_view(result) == Err::<Option<Seq<i32>>, FaultView>(fault@),
        },
{
    match result {
        Ok(pids) => Ok(Some(pids)),
        Err(fault) => if fault.kind == FaultKind::NotFound {
            Ok(None)
        } else {
            Err(fault)
        },
    }
}

/// What an identity lookup comes to: a process that is not found has no identity.
pub open spec fn identity_view(result: Result<ProcessIdentity, IoFault>) -> Result<
    Option<ProcessIdentity>,
    FaultView,
> {
    match result {
        Ok(identity) => Ok(Some(identity)),
        Err(fault) => if fault.kind == FaultKind::NotFound {
            Ok(None)
        } else {
            Err(fault@)
        },
    }
}

pub fn normalize_process_identity_result(result: Result<ProcessIdentity, IoFault>) -> (identity:
    Result<Option<ProcessIdentity>, IoFault>)
    ensures
        match identity {
            Ok(identity) => identity_view(result) == Ok::<Option<ProcessIdentity>, FaultView>(
                identity,
            ),
            Err(fault) => identity_view(result) == Err::<Option<ProcessIdentity>, FaultView>(
                fault@,
            ),
        },
{
    match result {
        Ok(identity) => Ok(Some(identity)),
        Err(fault) => if fault.kind == FaultKind::NotFound {
            Ok(None)
        } else {
            Err(fault)
        },
    }
}

/// Lists the group `pgid` with `list_pids`, which takes a selector and its argument.
pub fn pgrp_only_pids<L: FnOnce(u32, u32) -> Result<Vec<i32>, IoFault>>(
    pgid: i32,
    list_pids: L,
) -> (pids: Result<Vec<i32>, IoFault>)
    requires
        list_pids.requires((PROC_PGRP_ONLY, pgid as u32)),
    ensures
        list_pids.ensures((PROC_PGRP_ONLY, pgid as u32), pids),
{
    list_pids(
        PROC_PGRP_ONLY,
        #[verifier::truncate]
        (pgid as u32),
    )
}

/// Whether `listing` is what `list_pids` can say of the group.
pub open spec fn lists_group<L: FnOnce(u32, u32) -> Result<Vec<i32>, IoFault>>(
    pgid: i32,
    list_pids: L,
    listing: Result<Vec<i32>, IoFault>,
) -> bool {
    list_pids.ensures((PROC_PGRP_ONLY, pgid as u32), listing)
}

/// The list of the group as the system gives it; none where there is no such group.
pub fn raw_group_pids<L: FnOnce(u32, u32) -> Result<Vec<i32>, IoFault>>(
    pgid: i32,
    list_pids: L,
) -> (pids: Result<Option<Vec<i32>>, IoFault>)
    requires
        list_pids.requires((PROC_PGRP_ONLY, pgid as u32)),
    ensures
        exists|listing: Result<Vec<i32>, IoFault>| #[trigger]
            lists_group(pgid, list_pids, listing) && match pids {
                Ok(Some(pids)) => listing_view(listing) == Ok::<Option<Seq<i32>>, FaultView>(
                    Some(pids@),
                ),
                Ok(None) => listing_view(listing) == Ok::<Option<Seq<i32>>, FaultView>(None),
                Err(fault) => listing_view(listing) == Err::<Option<Seq<i32>>, FaultView>(fault@),
            },
{
    let listing = pgrp_only_pids(pgid, list_pids);
    assert(lists_group(pgid, list_pids, listing));
    normalize_group_pids_result(listing)
}

/// The pids of live processes in a list, in its order.
pub open spec fn live_pids(pids: Seq<i32>) -> Seq<i32> {
    pids.filter(|pid: i32| pid > 0)
}

fn keep_live(pids: &Vec<i32>) -> (live: Vec<i32>)
    ensures
        live@ == live_pids(pids@),
{
    let mut live: Vec<i32> = Vec::new();
    let mut i: usize = 0;
    let ghost pred = |pid: i32| pid > 0;
    proof {
        reveal(Seq::filter);
        assert(pids@.take(0).filter(pred) =~= Seq::<i32>::empty());
    }
    while i < pids.len()
        invariant
            i <= pids.len(),
            pred == (|pid: i32| pid > 0),
            live@ == pids@.take(i as int).filter(pred),
        decreases pids.len() - i,
    {
        proof {
            reveal(Seq::filter);
            assert(pids@.take(i + 1).drop_last() =~= pids@.take(i as int));
        }
        if pids[i] > 0 {
            live.push(pids[i]);
        }
        i = i + 1;
    }
    assert(pids@.take(i as int) =~= pids@);
    live
}

/// The members of a group by its listing: the live ones, and none of a missing group.
pub open spec fn members_of(listing: Result<Vec<i32>, IoFault>) -> Result<Seq<i32>, FaultView> {
    match listing_view(listing) {
        Ok(Some(pids)) => Ok(live_pids(pids)),
        Ok(None) => Ok(Seq::empty()),
        Err(fault) => Err(fault),
    }
}

/// The live members of the group.
pub fn group_pids<L: FnOnce(u32, u32) -> Result<Vec<i32>, IoFault>>(
    pgid: i32,
    list_pids: L,
) -> (pids: Result<Vec<i32>, IoFault>)
    requires
        list_pids.requires((PROC_PGRP_ONLY, pgid as u32)),
    ensures
        exists|listing: Result<Vec<i32>, IoFault>| #[trigger]
            lists_group(pgid, list_pids, listing) && match pids {
                Ok(pids) => members_of(listing) == Ok::<Seq<i32>, FaultView>(pids@),
                Err(fault) => members_of(listing) == Err::<Seq<i32>, FaultView>(fault@),
            },
{
    match raw_group_pids(pgid, list_pids) {
        Ok(Some(pids)) => Ok(keep_live(&pids)),
        Ok(None) => {
            let none: Vec<i32> = Vec::new();
            assert(none@ =~= Seq::<i32>::empty());
            Ok(none)
        },
        Err(fault) => Err(fault),
    }
}

/// The user id of this process, from `nix::unistd::getuid`. The call always succeeds; its
/// answer is up to the system, so nothing is claimed of it.
#[verifier::external_body]
fn system_uid() -> (uid: u32) {
    nix::unistd::getuid().as_raw()
}

/// Whether the system can give this as the user id of this process.
pub closed spec fn is_current_uid(uid: u32) -> bool {
    system_uid.ensures((), uid)
}

/// The user on whose behalf this process runs.
pub fn current_uid() -> (uid: u32)
    ensures
        is_current_uid(uid),
{
    system_uid()
}

/// The target that a lookup of `pid` gives the user `current_uid`.
pub open spec fn resolved(
    pid: i32,
    lookup: Result<BsdInfo, IoFault>,
    current_uid: u32,
    result: Result<TargetGroup, ResolveError>,
) -> bool {
    match lookup {
        Err(fault) => if fault.kind == FaultKind::PermissionDenied {
            result == Err::<TargetGroup, ResolveError>(
                ResolveError::Access(ProcessAccessError { pid, current_uid }),
            )
        } else {
            result == Err::<TargetGroup, ResolveError>(ResolveError::Lookup(fault))
        },
        Ok(info) => if info.uid != current_uid {
            result == Err::<TargetGroup, ResolveError>(
                ResolveError::Owner(ProcessOwnerError { target_uid: info.uid, current_uid }),
            )
        } else if identity_of(info).pgid <= 0 {
            result == Err::<TargetGroup, ResolveError>(ResolveError::InvalidGroup)
        } else {
            result == Ok::<TargetGroup, ResolveError>(
                TargetGroup { root: identity_of(info), pgid: identity_of(info).pgid },
            )
        },
    }
}

/// Makes the group of the process that was looked up the target, where the process is the
/// user's own.
pub fn resolve_looked_up(pid: i32, lookup: Result<BsdInfo, IoFault>, current_uid: u32) -> (result:
    Result<TargetGroup, ResolveError>)
    ensures
        resolved(pid, lookup, current_uid, result),
{
    let info = match lookup {
        Ok(info) => info,
        Err(fault) => {
            return if fault.kind == FaultKind::PermissionDenied {
                Err(ResolveError::Access(ProcessAccessError { pid, current_uid }))
            } else {
                Err(ResolveError::Lookup(fault))
            };
        },
    };
    match ensure_process_owner(&info, current_uid) {
        Ok(()) => {},
        Err(error) => {
            return Err(ResolveError::Owner(error));
        },
    }
    let root = identity_from_bsd_info(&info);
    let pgid: i32 = root.pgid;
    if pgid <= 0 {
        return Err(ResolveError::InvalidGroup);
    }
    Ok(TargetGroup { root, pgid })
}

/// The readings that were had, each with its pid, in the order of the pids.
pub open spec fn measured<V>(pids: Seq<i32>, readings: Seq<Option<V>>) -> Seq<(i32, V)>
    decreases pids.len(),
{
    if pids.len() == 0 {
        seq![]
    } else {
        let before = measured(pids.drop_last(), readings);
        match readings[pids.len() - 1] {
            Some(cpu) => before.push((pids.last(), cpu)),
            None => before,
        }
    }
}

/// Whether `readings` are what `cpu_usage` can say of each of the pids by the statistics.
pub open spec fn readings_of<V, T, C: FnMut(&T, i32) -> Option<V>>(
    pids: Seq<i32>,
    statistics: T,
    cpu_usage: C,
    readings: Seq<Option<V>>,
) -> bool {
    &&& readings.len() == pids.len()
    &&& forall|i: int|
        0 <= i < pids.len() ==> cpu_usage.ensures((&statistics, pids[i]), #[trigger] readings[i])
}

/// Whether `cpu_usage` can be called to read the usage of each of the pids by the statistics.
pub open spec fn can_read<V, T, C: FnMut(&T, i32) -> Option<V>>(
    pids: Seq<i32>,
    statistics: T,
    cpu_usage: C,
) -> bool {
    forall|i: int|
        0 <= i < pids.len() ==> cpu_usage.requires((&statistics, #[trigger] pids[i]))
}

fn measure<V: Copy, T, C: FnMut(&T, i32) -> Option<V>>(
    pids: &Vec<i32>,
    statistics: &T,
    cpu_usage: C,
) -> (per_pid_cpu: Vec<(i32, V)>)
    requires
        can_read(pids@, *statistics, cpu_usage),
    ensures
        exists|readings: Seq<Option<V>>| #[trigger]
            readings_of(pids@, *statistics, cpu_usage, readings) && per_pid_cpu@ == measured(
                pids@,
                readings,
            ),
{
    broadcast use vstd::function::group_function_axioms;

    let mut read = cpu_usage;
    let mut per_pid_cpu: Vec<(i32, V)> = Vec::new();
    let ghost mut readings: Seq<Option<V>> = seq![];
    let mut i: usize = 0;
    while i < pids.len()
        invariant
            read == cpu_usage,
            can_read(pids@, *statistics, cpu_usage),
            i <= pids.len(),
            readings.len() == i,
            forall|j: int|
                0 <= j < i ==> cpu_usage.ensures((statistics, pids@[j]), #[trigger] readings[j]),
            per_pid_cpu@ == measured(pids@.take(i as int), readings),
        decreases pids.len() - i,
    {
        let reading = read(statistics, pids[i]);
        let ghost before = readings;
        proof {
            readings = readings.push(reading);
            assert(pids@.take(i + 1).drop_last() =~= pids@.take(i as int));
            lemma_measured_ignores_later(pids@.take(i as int), before, reading);
        }
        match reading {
            Some(cpu) => per_pid_cpu.push((pids[i], cpu)),
            None => {},
        }
        i = i + 1;
    }
    assert(pids@.take(i as int) =~= pids@);
    assert(readings_of(pids@, *statistics, cpu_usage, readings));
    per_pid_cpu
}

proof fn lemma_measured_ignores_later<V>(
    pids: Seq<i32>,
    readings: Seq<Option<V>>,
    later: Option<V>,
)
    requires
        pids.len() <= readings.len(),
    ensures
        measured(pids, readings.push(later)) == measured(pids, readings),
    decreases pids.len(),
{
    if pids.len() > 0 {
        lemma_measured_ignores_later(pids.drop_last(), readings, later);
    }
}

/// Observes process groups.
#[derive(Clone, Copy, Debug, PartialEq, Eq, Structural)]
pub struct Recon {
    pub cpu_primed: bool,
}

/// What reading the members' usage by refreshed statistics gives.
pub open spec fn observed_by<V, T, C: FnMut(&T, i32) -> Option<V>, N: FnOnce() -> Span>(
    members: Seq<i32>,
    statistics: T,
    cpu_usage: C,
    now: N,
    result: Result<Option<RawObservation<V>>, IoFault>,
) -> bool {
    exists|readings: Seq<Option<V>>|
        #![trigger readings_of(members, statistics, cpu_usage, readings)]
        {
            &&& readings_of(members, statistics, cpu_usage, readings)
            &&& if measured(members, readings).len() == 0 {
                result matches Ok(None)
            } else {
                &&& result matches Ok(Some(observation))
                &&& observation.per_pid_cpu@ == measured(members, readings)
                &&& observation.process_count == measured(members, readings).len()
                &&& now.ensures((), observation.timestamp)
            }
        }
}

/// Whether these can be the statistics of the processes, freshly taken.
pub open spec fn refreshed<T, R: FnOnce(&Vec<i32>) -> T>(
    members: Seq<i32>,
    refresh: R,
    statistics: T,
) -> bool {
    exists|pids: Vec<i32>| pids@ == members && #[trigger] refresh.ensures((&pids,), statistics)
}

/// What an observation did and found, given the listing of the group. `primed` and
/// `primed_after` tell whether a CPU sample had been taken before and after.
pub open spec fn observed<
    V,
    T,
    R: FnOnce(&Vec<i32>) -> T,
    C: FnMut(&T, i32) -> Option<V>,
    N: FnOnce() -> Span,
>(
    listing: Result<Vec<i32>, IoFault>,
    primed: bool,
    refresh: R,
    cpu_usage: C,
    now: N,
    primed_after: bool,
    result: Result<Option<RawObservation<V>>, IoFault>,
) -> bool {
    match members_of(listing) {
        Err(fault) => {
            &&& primed_after == primed
            &&& result matches Err(returned) && returned@ == fault
        },
        Ok(members) => if members.len() == 0 {
            &&& primed_after == primed
            &&& result matches Ok(None)
        } else {
            &&& primed_after
            &&& exists|statistics: T| #[trigger]
                refreshed(members, refresh, statistics) && if primed {
                    observed_by(members, statistics, cpu_usage, now, result)
                } else {
                    result matches Ok(None)
                }
        },
    }
}

/// What observing the target's group did and found.
pub open spec fn group_observed<
    V,
    T,
    L: FnOnce(u32, u32) -> Result<Vec<i32>, IoFault>,
    R: FnOnce(&Vec<i32>) -> T,
    C: FnMut(&T, i32) -> Option<V>,
    N: FnOnce() -> Span,
>(
    target: TargetGroup,
    before: Recon,
    list_pids: L,
    refresh: R,
    cpu_usage: C,
    now: N,
    after: Recon,
    result: Result<Option<RawObservation<V>>, IoFault>,
) -> bool {
    exists|listing: Result<Vec<i32>, IoFault>| #[trigger]
        lists_group(target.pgid, list_pids, listing) && observed(
            listing,
            before.cpu_primed,
            refresh,
            cpu_usage,
            now,
            after.cpu_primed,
            result,
        )
}

/// Whether the calls can be made that an observation takes, given the listing of the group:
/// `refresh` where it has live members, `cpu_usage` where moreover a sample was taken before,
/// and `now` where moreover something was read. Nothing is asked of them in any other case.
pub open spec fn can_observe<
    V,
    T,
    R: FnOnce(&Vec<i32>) -> T,
    C: FnMut(&T, i32) -> Option<V>,
    N: FnOnce() -> Span,
>(
    listing: Result<Vec<i32>, IoFault>,
    primed: bool,
    refresh: R,
    cpu_usage: C,
    now: N,
) -> bool {
    match members_of(listing) {
        Ok(members) => members.len() > 0 ==> {
            &&& forall|pids: Vec<i32>|
                pids@ == members ==> #[trigger] refresh.requires((&pids,))
            &&& forall|statistics: T| #[trigger]
                refreshed(members, refresh, statistics) && primed ==> can_observe_by(
                    members,
                    statistics,
                    cpu_usage,
                    now,
                )
        },
        Err(_) => true,
    }
}

/// Whether the usage of the members can be read by the statistics, and the clock where
/// something was read.
pub open spec fn can_observe_by<V, T, C: FnMut(&T, i32) -> Option<V>, N: FnOnce() -> Span>(
    members: Seq<i32>,
    statistics: T,
    cpu_usage: C,
    now: N,
) -> bool {
    &&& can_read(members, statistics, cpu_usage)
    &&& forall|readings: Seq<Option<V>>| #[trigger]
        readings_of(members, statistics, cpu_usage, readings) && measured(members, readings).len()
            > 0 ==> now.requires(())
}

/// Whether the target still lives, given what the lookups of its process and its group
/// came to.
pub open spec fn validated<
    I: FnOnce(i32) -> Result<BsdInfo, IoFault>,
    L: FnOnce(u32, u32) -> Result<Vec<i32>, IoFault>,
>(target: TargetGroup, bsd_info: I, list_pids: L, result: Result<bool, IoFault>) -> bool {
    exists|lookup: Result<BsdInfo, IoFault>| #[trigger]
        bsd_info.ensures((target.root.pid,), lookup) && match lookup {
            Err(fault) => if fault.kind == FaultKind::NotFound {
                result == Ok::<bool, IoFault>(false)
            } else {
                result matches Err(returned) && returned@ == fault@
            },
            Ok(info) => if identity_of(info) != target.root {
                result == Ok::<bool, IoFault>(false)
            } else {
                exists|listing: Result<Vec<i32>, IoFault>| #[trigger]
                    lists_group(target.pgid, list_pids, listing) && match listing_view(listing) {
                        Ok(Some(pids)) => result == Ok::<bool, IoFault>(
                            pids.contains(target.root.pid) && has_live_member(pids),
                        ),
                        Ok(None) => result == Ok::<bool, IoFault>(false),
                        Err(fault) => result matches Err(returned) && returned@ == fault,
                    }
            },
        }
}

impl Recon {
    pub fn new() -> (recon: Recon)
        ensures
            !recon.cpu_primed,
    {
        Recon { cpu_primed: false }
    }

    /// Looks `pid` up with `bsd_info` and makes its group the target, where the process is
    /// the current user's own.
    pub fn resolve_target_group<I: FnOnce(i32) -> Result<BsdInfo, IoFault>>(
        &mut self,
        pid: i32,
        bsd_info: I,
    ) -> (result: Result<TargetGroup, ResolveError>)
        requires
            bsd_info.requires((pid,)),
        ensures
            *final(self) == *old(self),
            exists|lookup: Result<BsdInfo, IoFault>, uid: u32| #[trigger]
                bsd_info.ensures((pid,), lookup) && is_current_uid(uid) && #[trigger] resolved(
                    pid,
                    lookup,
                    uid,
                    result,
                ),
    {
        let lookup = bsd_info(pid);
        let ghost answer = lookup;
        let uid: u32 = current_uid();
        let result = resolve_looked_up(pid, lookup, uid);
        assert(bsd_info.ensures((pid,), answer) && resolved(pid, answer, uid, result));
        result
    }

    /// The identity of the process that now has this pid.
    pub fn process_identity<I: FnOnce(i32) -> Result<BsdInfo, IoFault>>(
        &self,
        pid: i32,
        bsd_info: I,
    ) -> (identity: Result<ProcessIdentity, IoFault>)
        requires
            bsd_info.requires((pid,)),
        ensures
            match identity {
                Ok(identity) => exists|info: BsdInfo| #[trigger]
                    bsd_info.ensures((pid,), Ok(info)) && identity == identity_of(info),
                Err(fault) => bsd_info.ensures((pid,), Err(fault)),
            },
    {
        match bsd_info(pid) {
            Ok(info) => Ok(identity_from_bsd_info(&info)),
            Err(fault) => Err(fault),
        }
    }

    /// Whether the target's process is still the one it was, and still a member of a group
    /// with live processes. The group is listed only where the process is the one it was.
    pub fn validate_target_group<
        I: FnOnce(i32) -> Result<BsdInfo, IoFault>,
        L: FnOnce(u32, u32) -> Result<Vec<i32>, IoFault>,
    >(&self, target: &TargetGroup, bsd_info: I, list_pids: L) -> (result: Result<bool, IoFault>)
        requires
            bsd_info.requires((target.root.pid,)),
            forall|info: BsdInfo| #[trigger]
                bsd_info.ensures((target.root.pid,), Ok(info)) && identity_of(info) == target.root
                    ==> list_pids.requires((PROC_PGRP_ONLY, target.pgid as u32)),
        ensures
            validated(*target, bsd_info, list_pids, result),
    {
        let looked_up = self.process_identity(target.root.pid, bsd_info);
        let identity = match normalize_process_identity_result(looked_up) {
            Ok(Some(identity)) => identity,
            Ok(None) => {
                return Ok(false);
            },
            Err(fault) => {
                return Err(fault);
            },
        };
        if !same_process_identity(target.root, identity) {
            return Ok(false);
        }
        match raw_group_pids(target.pgid, list_pids) {
            Ok(Some(pids)) => Ok(
                group_contains_pid(pids.as_slice(), target.root.pid) && group_has_live_members(
                    pids.as_slice(),
                ),
            ),
            Ok(None) => Ok(false),
            Err(fault) => Err(fault),
        }
    }

    /// Measures the group: lists its members, has their statistics refreshed and reads in
    /// these the CPU usage of each that still has any. There is no observation of a group without
    /// live members, none the first time, and none where nothing could be read.
    pub fn observe_group<
        V: Copy,
        T,
        L: FnOnce(u32, u32) -> Result<Vec<i32>, IoFault>,
        R: FnOnce(&Vec<i32>) -> T,
        C: FnMut(&T, i32) -> Option<V>,
        N: FnOnce() -> Span,
    >(
        &mut self,
        target: &TargetGroup,
        list_pids: L,
        refresh: R,
        cpu_usage: C,
        now: N,
    ) -> (result: Result<Option<RawObservation<V>>, IoFault>)
        requires
            list_pids.requires((PROC_PGRP_ONLY, target.pgid as u32)),
            forall|listing: Result<Vec<i32>, IoFault>| #[trigger]
                lists_group(target.pgid, list_pids, listing) ==> can_observe(
                    listing,
                    old(self).cpu_primed,
                    refresh,
                    cpu_usage,
                    now,
                ),
        ensures
            group_observed(
                *target,
                *old(self),
                list_pids,
                refresh,
                cpu_usage,
                now,
                *final(self),
                result,
            ),
    {
        let members = match group_pids(target.pgid, list_pids) {
            Ok(members) => members,
            Err(fault) => {
                return Err(fault);
            },
        };
        if members.len() == 0 {
            return Ok(None);
        }
        let statistics = refresh(&members);
        assert(refreshed(members@, refresh, statistics));
        if should_discard_cpu_sample(&mut self.cpu_primed) {
            return Ok(None);
        }
        let per_pid_cpu = measure(&members, &statistics, cpu_usage);
        if per_pid_cpu.len() == 0 {
            return Ok(None);
        }
        let timestamp = now();
        let process_count: usize = per_pid_cpu.len();
        Ok(Some(RawObservation { timestamp, per_pid_cpu, process_count }))
    }
}

impl Default for Recon {
    fn default() -> (recon: Recon)
        ensures
            !recon.cpu_primed,
    {
        Recon::new()
    }
}

/// A target is the group of a process that the user owns, and a group that can be
/// signalled.
pub proof fn law_target_is_the_users_own(
    pid: i32,
    lookup: Result<BsdInfo, IoFault>,
    uid: u32,
    target: TargetGroup,
)
    requires
        resolved(pid, lookup, uid, Ok(target)),
    ensures
        lookup matches Ok(info) && info.uid == uid && target.root == identity_of(info),
        target.pgid == target.root.pgid,
        target.pgid > 0,
{
}

/// A target that is found alive is the process it was, and a live member of its group: a
/// pid that another process was given since does not pass for it.
pub proof fn law_validated_target_is_unchanged<
    I: FnOnce(i32) -> Result<BsdInfo, IoFault>,
    L: FnOnce(u32, u32) -> Result<Vec<i32>, IoFault>,
>(target: TargetGroup, bsd_info: I, list_pids: L)
    requires
        validated(target, bsd_info, list_pids, Ok(true)),
    ensures
        exists|info: BsdInfo| #[trigger]
            bsd_info.ensures((target.root.pid,), Ok(info)) && identity_of(info) == target.root,
        exists|listing: Result<Vec<i32>, IoFault>| #[trigger]
            lists_group(target.pgid, list_pids, listing) && (listing matches Ok(pids)
                && pids@.contains(target.root.pid)),
{
    let lookup = choose|lookup: Result<BsdInfo, IoFault>| #[trigger]
        bsd_info.ensures((target.root.pid,), lookup) && (lookup matches Ok(info) && identity_of(info)
            == target.root);
    assert(bsd_info.ensures((target.root.pid,), Ok(lookup->Ok_0)));
}

proof fn lemma_measured_are_listed<V>(pids: Seq<i32>, readings: Seq<Option<V>>, i: int)
    requires
        readings.len() >= pids.len(),
        0 <= i < measured(pids, readings).len(),
    ensures
        pids.contains(measured(pids, readings)[i].0),
    decreases pids.len(),
{
    if pids.len() > 0 {
        let before = measured(pids.drop_last(), readings);
        if i < before.len() {
            lemma_measured_are_listed(pids.drop_last(), readings, i);
            let at = choose|at: int|
                0 <= at < pids.drop_last().len() && pids.drop_last()[at] == before[i].0;
            assert(pids[at] == before[i].0);
        } else {
            assert(pids[pids.len() - 1] == pids.last());
        }
    }
}

/// An observation holds at least one reading, each of a live member of the group, and
/// counts them. The first sample is none.
pub proof fn law_observation_is_of_live_members<
    V,
    T,
    R: FnOnce(&Vec<i32>) -> T,
    C: FnMut(&T, i32) -> Option<V>,
    N: FnOnce() -> Span,
>(
    pids: Vec<i32>,
    primed: bool,
    refresh: R,
    cpu_usage: C,
    now: N,
    primed_after: bool,
    observation: RawObservation<V>,
)
    requires
        observed(
            Ok(pids),
            primed,
            refresh,
            cpu_usage,
            now,
            primed_after,
            Ok(Some(observation)),
        ),
    ensures
        primed,
        0 < observation.per_pid_cpu@.len() == observation.process_count,
        forall|i: int|
            0 <= i < observation.per_pid_cpu@.len() ==> {
                let pid = (#[trigger] observation.per_pid_cpu@[i]).0;
                pid > 0 && pids@.contains(pid)
            },
{
    let members = live_pids(pids@);
    let statistics = choose|statistics: T| #[trigger]
        refreshed(members, refresh, statistics) && observed_by(
            members,
            statistics,
            cpu_usage,
            now,
            Ok(Some(observation)),
        );
    let readings = choose|readings: Seq<Option<V>>|
        #![trigger readings_of(members, statistics, cpu_usage, readings)]
        readings_of(members, statistics, cpu_usage, readings) && observation.per_pid_cpu@ == measured(
            members,
            readings,
        );
    assert forall|i: int| 0 <= i < observation.per_pid_cpu@.len() implies {
        let pid = (#[trigger] observation.per_pid_cpu@[i]).0;
        pid > 0 && pids@.contains(pid)
    } by {
        lemma_measured_are_listed(members, readings, i);
        let pid = observation.per_pid_cpu@[i].0;
        let at = choose|at: int| 0 <= at < members.len() && members[at] == pid;
        pids@.lemma_filter_contains_rev(|pid: i32| pid > 0, pid);
        pids@.lemma_filter_pred(|pid: i32| pid > 0, at);
    }
}

proof fn lemma_live_pids_are_the_positive_ones(pids: Seq<i32>) -> (at: Seq<int>)
    ensures
        places_of_live(pids, at),
        live_pids(pids).len() == at.len(),
        forall|k: int| 0 <= k < at.len() ==> live_pids(pids)[k] == pids[#[trigger] at[k]],
    decreases pids.len(),
{
    reveal(Seq::filter);
    if pids.len() == 0 {
        seq![]
    } else {
        let before = pids.drop_last();
        let earlier = lemma_live_pids_are_the_positive_ones(before);
        let at = if pids.last() > 0 {
            earlier.push(pids.len() - 1)
        } else {
            earlier
        };
        assert forall|k: int| 0 <= k < at.len() implies live_pids(pids)[k] == pids[
            #[trigger] at[k]
        ] by {
            if k < earlier.len() {
                assert(at[k] == earlier[k]);
                assert(live_pids(before)[k] == before[earlier[k]]);
            }
        }
        assert(places_of_live(pids, at)) by {
            assert forall|k: int| 0 <= k < at.len() implies 0 <= #[trigger] at[k] < pids.len()
                && pids[at[k]] > 0 by {
                if k < earlier.len() {
                    assert(at[k] == earlier[k]);
                    assert(before[earlier[k]] > 0);
                }
            }
            assert forall|i: int| 0 <= i < pids.len() && #[trigger] pids[i] > 0 implies at.contains(
                i,
            ) by {
                if i < before.len() {
                    assert(before[i] > 0);
                    assert(earlier.contains(i));
                    let k = choose|k: int| 0 <= k < earlier.len() && earlier[k] == i;
                    assert(at[k] == i);
                } else {
                    assert(at[at.len() - 1] == i);
                }
            }
            assert forall|j: int, k: int| 0 <= j < k < at.len() implies #[trigger] at[j]
                < #[trigger] at[k] by {
                assert(at[j] == earlier[j]);
                if k < earlier.len() {
                    assert(at[k] == earlier[k]);
                }
            }
        }
        at
    }
}

/// Whether the places are distinct and in order.
pub open spec fn in_order(at: Seq<int>) -> bool {
    forall|j: int, k: int| 0 <= j < k < at.len() ==> #[trigger] at[j] < #[trigger] at[k]
}

/// Whether `at` are the places of the positive pids in the list, all of them, in order.
pub open spec fn places_of_live(pids: Seq<i32>, at: Seq<int>) -> bool {
    &&& in_order(at)
    &&& forall|k: int|
        0 <= k < at.len() ==> 0 <= #[trigger] at[k] < pids.len() && pids[at[k]] > 0
    &&& forall|i: int| 0 <= i < pids.len() && #[trigger] pids[i] > 0 ==> at.contains(i)
}

/// Whether `at` are the places of the readings that could be had, all of them, in order.
pub open spec fn places_of_readings<V>(readings: Seq<Option<V>>, at: Seq<int>) -> bool {
    &&& in_order(at)
    &&& forall|k: int|
        0 <= k < at.len() ==> 0 <= #[trigger] at[k] < readings.len() && readings[at[k]] is Some
    &&& forall|i: int|
        0 <= i < readings.len() && (#[trigger] readings[i]) is Some ==> at.contains(i)
}

/// The members of a group are the positive pids of its list, all of them, in its order; a
/// group that is not found has none, and any other failure is passed on.
pub proof fn law_members_are_the_live_processes(listing: Result<Vec<i32>, IoFault>)
    ensures
        match listing {
            Ok(pids) => exists|at: Seq<int>| #[trigger]
                places_of_live(pids@, at) && members_of(listing) is Ok && members_of(
                    listing,
                )->Ok_0.len() == at.len() && forall|k: int|
                    0 <= k < at.len() ==> members_of(listing)->Ok_0[k] == pids@[#[trigger] at[k]],
            Err(fault) => if fault.kind == FaultKind::NotFound {
                members_of(listing) is Ok && members_of(listing)->Ok_0.len() == 0
            } else {
                members_of(listing) == Err::<Seq<i32>, FaultView>(fault@)
            },
        },
{
    if let Ok(pids) = listing {
        let at = lemma_live_pids_are_the_positive_ones(pids@);
        assert(places_of_live(pids@, at));
    }
}

proof fn lemma_measured_keeps_every_reading<V>(pids: Seq<i32>, readings: Seq<Option<V>>) -> (at:
    Seq<int>)
    requires
        readings.len() == pids.len(),
    ensures
        places_of_readings(readings, at),
        measured(pids, readings).len() == at.len(),
        forall|k: int|
            0 <= k < at.len() ==> readings[#[trigger] at[k]] == Some(measured(pids, readings)[k].1)
                && measured(pids, readings)[k].0 == pids[at[k]],
    decreases pids.len(),
{
    if pids.len() == 0 {
        seq![]
    } else {
        let fewer = pids.drop_last();
        let before = readings.drop_last();
        let last = readings.last();
        let earlier = lemma_measured_keeps_every_reading(fewer, before);
        lemma_measured_ignores_later(fewer, before, last);
        assert(before.push(last) =~= readings);
        let at = if last is Some {
            earlier.push(readings.len() - 1)
        } else {
            earlier
        };
        assert forall|k: int| 0 <= k < at.len() implies readings[#[trigger] at[k]] == Some(
            measured(pids, readings)[k].1,
        ) && measured(pids, readings)[k].0 == pids[at[k]] by {
            if k < earlier.len() {
                assert(at[k] == earlier[k]);
                assert(before[earlier[k]] == readings[earlier[k]]);
            }
        }
        assert(places_of_readings(readings, at)) by {
            assert forall|k: int| 0 <= k < at.len() implies 0 <= #[trigger] at[k] < readings.len()
                && readings[at[k]] is Some by {
                if k < earlier.len() {
                    assert(at[k] == earlier[k]);
                    assert(before[earlier[k]] is Some);
                }
            }
            assert forall|i: int|
                0 <= i < readings.len() && (#[trigger] readings[i]) is Some implies at.contains(
                i,
            ) by {
                if i < before.len() {
                    assert(before[i] is Some);
                    assert(earlier.contains(i));
                    let k = choose|k: int| 0 <= k < earlier.len() && earlier[k] == i;
                    assert(at[k] == i);
                } else {
                    assert(at[at.len() - 1] == i);
                }
            }
            assert forall|j: int, k: int| 0 <= j < k < at.len() implies #[trigger] at[j]
                < #[trigger] at[k] by {
                assert(at[j] == earlier[j]);
                if k < earlier.len() {
                    assert(at[k] == earlier[k]);
                }
            }
        }
        at
    }
}

/// Whether these are the readings of the members, one each, by statistics that were freshly
/// taken of them.
pub open spec fn read_afresh<
    V,
    T,
    R: FnOnce(&Vec<i32>) -> T,
    C: FnMut(&T, i32) -> Option<V>,
>(members: Seq<i32>, refresh: R, cpu_usage: C, readings: Seq<Option<V>>) -> bool {
    exists|pids: Vec<i32>, statistics: T|
        {
            &&& pids@ == members
            &&& #[trigger] refresh.ensures((&pids,), statistics)
            &&& readings.len() == members.len()
            &&& forall|i: int|
                0 <= i < members.len() ==> cpu_usage.ensures(
                    (&statistics, members[i]),
                    #[trigger] readings[i],
                )
        }
}

/// Whether the observation holds these readings of the members: every one that could be had,
/// with its own pid, in the order of the members, and nothing else.
pub open spec fn holds_all<V>(
    observation: RawObservation<V>,
    members: Seq<i32>,
    readings: Seq<Option<V>>,
) -> bool {
    exists|at: Seq<int>|
        {
            &&& #[trigger] places_of_readings(readings, at)
            &&& observation.per_pid_cpu@.len() == at.len()
            &&& observation.process_count == at.len()
            &&& forall|k: int|
                0 <= k < at.len() ==> {
                    &&& observation.per_pid_cpu@[k].0 == members[#[trigger] at[k]]
                    &&& readings[at[k]] == Some(observation.per_pid_cpu@[k].1)
                }
        }
}

/// An observation is complete. Where the group has live members and a sample was taken
/// before, the statistics of all members are refreshed and all are read; every reading that
/// can be had is kept, with its own pid, and there is an observation as soon as there is one
/// reading. The first time there is none, and neither is there of a group without live
/// members.
pub proof fn law_observation_is_complete<
    V,
    T,
    R: FnOnce(&Vec<i32>) -> T,
    C: FnMut(&T, i32) -> Option<V>,
    N: FnOnce() -> Span,
>(
    listing: Result<Vec<i32>, IoFault>,
    primed: bool,
    refresh: R,
    cpu_usage: C,
    now: N,
    primed_after: bool,
    result: Result<Option<RawObservation<V>>, IoFault>,
    members: Seq<i32>,
)
    requires
        observed(listing, primed, refresh, cpu_usage, now, primed_after, result),
        members_of(listing) == Ok::<Seq<i32>, FaultView>(members),
    ensures
        primed_after == (primed || members.len() > 0),
        result is Ok,
        members.len() == 0 || !primed ==> result->Ok_0 is None,
        members.len() > 0 && primed ==> exists|readings: Seq<Option<V>>|
            {
                &&& #[trigger] read_afresh(members, refresh, cpu_usage, readings)
                &&& match result->Ok_0 {
                    Some(observation) => {
                        &&& holds_all(observation, members, readings)
                        &&& observation.per_pid_cpu@.len() > 0
                        &&& now.ensures((), observation.timestamp)
                    },
                    None => forall|i: int|
                        0 <= i < readings.len() ==> (#[trigger] readings[i]) is None,
                }
            },
{
    if members.len() > 0 && primed {
        let statistics = choose|statistics: T| #[trigger]
            refreshed(members, refresh, statistics) && observed_by(
                members,
                statistics,
                cpu_usage,
                now,
                result,
            );
        let pids = choose|pids: Vec<i32>|
            pids@ == members && #[trigger] refresh.ensures((&pids,), statistics);
        let readings = choose|readings: Seq<Option<V>>|
            #![trigger readings_of(members, statistics, cpu_usage, readings)]
            readings_of(members, statistics, cpu_usage, readings) && if measured(
                members,
                readings,
            ).len() == 0 {
                result matches Ok(None)
            } else {
                &&& result matches Ok(Some(observation))
                &&& observation.per_pid_cpu@ == measured(members, readings)
                &&& observation.process_count == measured(members, readings).len()
                &&& now.ensures((), observation.timestamp)
            };
        assert(pids@ == members && refresh.ensures((&pids,), statistics));
        assert(read_afresh(members, refresh, cpu_usage, readings));
        let at = lemma_measured_keeps_every_reading(members, readings);
        assert(places_of_readings(readings, at));
        if result->Ok_0 is None {
            assert forall|i: int| 0 <= i < readings.len() implies (#[trigger] readings[i])
                is None by {
                if readings[i] is Some {
                    assert(at.contains(i));
                }
            }
        } else {
            assert(holds_all(result->Ok_0->Some_0, members, readings));
        }
    }
}

/// Where the pids of a process and its group are read as signed numbers, they keep their
/// bits: a number and what it is read as differ by nothing or by a full turn.
pub proof fn law_signed_keeps_the_bits(bits: u32)
    ensures
        signed(bits) == bits || signed(bits) == bits - 0x1_0000_0000,
        signed(bits) >= 0 <==> bits < 0x8000_0000,
{
}

/// Every process that the user owns gives a target, as long as it is in a group with a
/// positive id: that group, found by that process. Everything else is refused, and each
/// reason is told apart.
pub proof fn law_when_a_target_is_found(
    pid: i32,
    lookup: Result<BsdInfo, IoFault>,
    uid: u32,
    result: Result<TargetGroup, ResolveError>,
)
    requires
        resolved(pid, lookup, uid, result),
    ensures
        match lookup {
            Ok(info) => {
                &&& result is Ok <==> info.uid == uid && 0 < info.pgid < 0x8000_0000
                &&& result matches Ok(target) ==> {
                    &&& target.pgid == info.pgid
                    &&& target.root.pgid == info.pgid
                    &&& target.root.pid == signed(info.pid)
                    &&& target.root.start_tvsec == info.start_tvsec
                    &&& target.root.start_tvusec == info.start_tvusec
                }
                &&& result is Err && info.uid != uid ==> {
                    &&& result matches Err(ResolveError::Owner(error))
                    &&& error.target_uid == info.uid
                    &&& error.current_uid == uid
                }
                &&& result is Err && info.uid == uid ==> result matches Err(
                    ResolveError::InvalidGroup,
                )
            },
            Err(fault) => if fault.kind == FaultKind::PermissionDenied {
                &&& result matches Err(ResolveError::Access(error))
                &&& error.pid == pid
                &&& error.current_uid == uid
            } else {
                result matches Err(ResolveError::Lookup(reason)) && reason == fault
            },
        },
{
}

/// Whether the system can say this of the target's process and, where it is the process it
/// was, this of its group.
pub open spec fn looked_up<
    I: FnOnce(i32) -> Result<BsdInfo, IoFault>,
    L: FnOnce(u32, u32) -> Result<Vec<i32>, IoFault>,
>(
    target: TargetGroup,
    bsd_info: I,
    list_pids: L,
    lookup: Result<BsdInfo, IoFault>,
    listing: Option<Result<Vec<i32>, IoFault>>,
) -> bool {
    &&& bsd_info.ensures((target.root.pid,), lookup)
    &&& match listing {
        Some(listing) => list_pids.ensures((2u32, target.pgid as u32), listing),
        None => true,
    }
}

/// Whether the process is the one that the target was found by: all that identifies it is
/// the same, its start to the microsecond too.
pub open spec fn is_same_process(target: TargetGroup, info: BsdInfo) -> bool {
    &&& target.root.pid == signed(info.pid)
    &&& target.root.pgid == signed(info.pgid)
    &&& target.root.start_tvsec == info.start_tvsec
    &&& target.root.start_tvusec == info.start_tvusec
}

/// A target with a positive pid is alive exactly when the system still knows its process as
/// the same and lists it in the group. What is not found is not alive; any other failure is
/// passed on.
pub proof fn law_when_a_target_is_alive<
    I: FnOnce(i32) -> Result<BsdInfo, IoFault>,
    L: FnOnce(u32, u32) -> Result<Vec<i32>, IoFault>,
>(target: TargetGroup, bsd_info: I, list_pids: L, result: Result<bool, IoFault>)
    requires
        validated(target, bsd_info, list_pids, result),
        target.root.pid > 0,
    ensures
        exists|lookup: Result<BsdInfo, IoFault>, listing: Option<Result<Vec<i32>, IoFault>>|
            {
                &&& #[trigger] looked_up(target, bsd_info, list_pids, lookup, listing)
                &&& match lookup {
                    Err(fault) => if fault.kind == FaultKind::NotFound {
                        result matches Ok(alive) && !alive
                    } else {
                        result matches Err(returned) && returned@ == fault@
                    },
                    Ok(info) => if !is_same_process(target, info) {
                        result matches Ok(alive) && !alive
                    } else {
                        &&& listing is Some
                        &&& match listing->Some_0 {
                            Ok(pids) => result matches Ok(alive) && (alive <==> exists|i: int|
                                0 <= i < pids@.len() && #[trigger] pids@[i] == target.root.pid),
                            Err(fault) => if fault.kind == FaultKind::NotFound {
                                result matches Ok(alive) && !alive
                            } else {
                                result matches Err(returned) && returned@ == fault@
                            },
                        }
                    },
                }
            },
{
    let lookup = choose|lookup: Result<BsdInfo, IoFault>| #[trigger]
        bsd_info.ensures((target.root.pid,), lookup) && match lookup {
            Err(fault) => if fault.kind == FaultKind::NotFound {
                result == Ok::<bool, IoFault>(false)
            } else {
                result matches Err(returned) && returned@ == fault@
            },
            Ok(info) => if identity_of(info) != target.root {
                result == Ok::<bool, IoFault>(false)
            } else {
                exists|listing: Result<Vec<i32>, IoFault>| #[trigger]
                    lists_group(target.pgid, list_pids, listing) && match listing_view(listing) {
                        Ok(Some(pids)) => result == Ok::<bool, IoFault>(
                            pids.contains(target.root.pid) && has_live_member(pids),
                        ),
                        Ok(None) => result == Ok::<bool, IoFault>(false),
                        Err(fault) => result matches Err(returned) && returned@ == fault,
                    }
            },
        };
    if lookup is Ok && identity_of(lookup->Ok_0) == target.root {
        let listing = choose|listing: Result<Vec<i32>, IoFault>| #[trigger]
            lists_group(target.pgid, list_pids, listing) && match listing_view(listing) {
                Ok(Some(pids)) => result == Ok::<bool, IoFault>(
                    pids.contains(target.root.pid) && has_live_member(pids),
                ),
                Ok(None) => result == Ok::<bool, IoFault>(false),
                Err(fault) => result matches Err(returned) && returned@ == fault,
            };
        assert(looked_up(target, bsd_info, list_pids, lookup, Some(listing)));
        if let Ok(pids) = listing {
            if pids@.contains(target.root.pid) {
                let i = choose|i: int| 0 <= i < pids@.len() && pids@[i] == target.root.pid;
                assert(pids@[i] > 0);
            }
        }
    } else {
        assert(looked_up(
            target,
            bsd_info,
            list_pids,
            lookup,
            None::<Result<Vec<i32>, IoFault>>,
        ));
    }
}

/// A group that cannot be listed is not observed: the failure is passed on, and nothing counts
/// as sampled.
pub proof fn law_failed_listing_is_passed_on<
    V,
    T,
    R: FnOnce(&Vec<i32>) -> T,
    C: FnMut(&T, i32) -> Option<V>,
    N: FnOnce() -> Span,
>(
    fault: IoFault,
    primed: bool,
    refresh: R,
    cpu_usage: C,
    now: N,
    primed_after: bool,
    result: Result<Option<RawObservation<V>>, IoFault>,
)
    requires
        observed(Err(fault), primed, refresh, cpu_usage, now, primed_after, result),
    ensures
        primed_after == primed,
        fault.kind == FaultKind::NotFound ==> result is Ok && result->Ok_0 is None,
        fault.kind != FaultKind::NotFound ==> result is Err && result->Err_0.kind == fault.kind
            && result->Err_0.message@ == fault.message@,
{
}

/// The refusals name whom they are about: the owner and the user, or the process and the user.
pub proof fn law_refusals_name_the_users(owner: ProcessOwnerError, access: ProcessAccessError)
    ensures
        owner.text() == "target process is owned by uid "@ + text::signed_decimal(
            owner.target_uid as int,
        ) + ", current user is uid "@ + text::signed_decimal(owner.current_uid as int),
        access.text() == "target process "@ + text::signed_decimal(access.pid as int)
            + " is not readable by current user uid "@ + text::signed_decimal(
            access.current_uid as int,
        ) + "; it may be owned by another user"@,
{
}

/// A process is the user's own exactly when its owner is the user.
pub proof fn law_owner_is_the_user(
    info: BsdInfo,
    uid: u32,
    result: Result<(), ProcessOwnerError>,
)
    requires
        ensure_process_owner.ensures((&info, uid), result),
    ensures
        result is Ok <==> info.uid == uid,
{
}

/// It is the target's group that is observed, whichever group that is.
pub proof fn law_the_targets_group_is_observed<
    V,
    T,
    L: FnOnce(u32, u32) -> Result<Vec<i32>, IoFault>,
    R: FnOnce(&Vec<i32>) -> T,
    C: FnMut(&T, i32) -> Option<V>,
    N: FnOnce() -> Span,
>(
    target: TargetGroup,
    before: Recon,
    list_pids: L,
    refresh: R,
    cpu_usage: C,
    now: N,
    after: Recon,
    result: Result<Option<RawObservation<V>>, IoFault>,
)
    requires
        group_observed(target, before, list_pids, refresh, cpu_usage, now, after, result),
    ensures
        exists|listing: Result<Vec<i32>, IoFault>| #[trigger]
            list_pids.ensures((2u32, target.pgid as u32), listing) && observed(
                listing,
                before.cpu_primed,
                refresh,
                cpu_usage,
                now,
                after.cpu_primed,
                result,
            ),
{
    let listing = choose|listing: Result<Vec<i32>, IoFault>| #[trigger]
        lists_group(target.pgid, list_pids, listing) && observed(
            listing,
            before.cpu_primed,
            refresh,
            cpu_usage,
            now,
            after.cpu_primed,
            result,
        );
    assert(list_pids.ensures((2u32, target.pgid as u32), listing));
}

} // verus!
