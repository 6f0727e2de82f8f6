//! Reports of what the control loop does, at most one a second.

use crate::control::span::{self, Span};
use crate::control::text::{self, eq_ignore_ascii_case, same_text};
use crate::control::types::{ControlDecision, EstimatedState, RawObservation, TargetGroup};
use vstd::prelude::*;

verus! {

/// The shortest time between two reports: one second.
pub const REPORT_NANOS: u128 = 1_000_000_000;

/// The values of a report.
#[derive(Clone, Debug)]
pub struct Report<V> {
    pub pid: i32,
    pub pgid: i32,
    pub procs: usize,
    pub normalized_cpu: V,
    pub filtered_cpu: V,
    pub valid: bool,
    pub warmed_up: bool,
    pub timed_out: bool,
    pub stop_duration: Span,
}

/// Decides when to report.
#[derive(Clone, Copy, Debug, PartialEq, Eq, Structural)]
pub struct Reporter {
    pub enabled: bool,
    pub last_emit_at: Span,
}

/// Whether a setting asks for reports: `1` or `true`, in capitals or not.
pub open spec fn asks_for_reports(setting: Seq<char>) -> bool {
    setting == "1"@ || text::equal_ignoring_ascii_case(setting, "true"@)
}

/// Whether a report is due.
pub open spec fn report_due(reporter: Reporter, now: Span) -> bool {
    reporter.enabled && span::remainder(now, reporter.last_emit_at).nanos >= REPORT_NANOS
}

/// The report on these values.
pub open spec fn report_on<V>(
    target: TargetGroup,
    observation: Option<&RawObservation<V>>,
    estimated: EstimatedState<V>,
    decision: ControlDecision,
) -> Report<V> {
    Report {
        pid: target.root.pid,
        pgid: target.pgid,
        procs: match observation {
            Some(observation) => observation.process_count,
            None => 0,
        },
        normalized_cpu: estimated.normalized_cpu,
        filtered_cpu: estimated.filtered_cpu,
        valid: estimated.valid,
        warmed_up: estimated.warmed_up,
        timed_out: estimated.timed_out,
        stop_duration: decision.stop_duration,
    }
}

impl Reporter {
    /// A reporter that has not reported yet. `setting` is the value of `KIRV_REPORT`, where
    /// there is one.
    pub fn new(setting: Option<&str>, now: Span) -> (reporter: Reporter)
        ensures
            reporter.enabled == match setting {
                Some(value) => asks_for_reports(value@),
                None => false,
            },
            reporter.last_emit_at == now,
    {
        let enabled = match setting {
            Some(value) => same_text(value, "1") || eq_ignore_ascii_case(value, "true"),
            None => false,
        };
        Reporter { enabled, last_emit_at: now }
    }

    /// The report, where one is due.
    pub fn report<V: Copy>(
        &mut self,
        now: Span,
        target: &TargetGroup,
        observation: Option<&RawObservation<V>>,
        estimated: &EstimatedState<V>,
        decision: &ControlDecision,
    ) -> (report: Option<Report<V>>)
        ensures
            if report_due(*old(self), now) {
                &&& report == Some(report_on(*target, observation, *estimated, *decision))
                &&& *final(self) == (Reporter { last_emit_at: now, ..*old(self) })
            } else {
                &&& report is None
                &&& *final(self) == *old(self)
            },
    {
        if !self.enabled || now.saturating_sub(self.last_emit_at).nanos < REPORT_NANOS {
            return None;
        }
        self.last_emit_at = now;
        let procs: usize = match observation {
            Some(observation) => observation.process_count,
            None => 0,
        };
        Some(
            Report {
                pid: target.root.pid,
                pgid: target.pgid,
                procs,
                normalized_cpu: estimated.normalized_cpu,
                filtered_cpu: estimated.filtered_cpu,
                valid: estimated.valid,
                warmed_up: estimated.warmed_up,
                timed_out: estimated.timed_out,
                stop_duration: decision.stop_duration,
            },
        )
    }
}

/// After a report no other is due until a second has passed.
pub proof fn law_reports_are_a_second_apart(reporter: Reporter, first: Span, second: Span)
    requires
        report_due(reporter, first),
        report_due(Reporter { last_emit_at: first, ..reporter }, second),
    ensures
        second.nanos >= first.nanos + REPORT_NANOS,
{
}

/// A report is due exactly when reports are asked for and a second has passed since the last,
/// or since the start.
pub proof fn law_when_a_report_is_due(reporter: Reporter, now: Span)
    ensures
        report_due(reporter, now) <==> reporter.enabled && now.nanos
            >= reporter.last_emit_at.nanos + 1_000_000_000,
{
}

/// A report gives the target, what was observed, estimated and decided, each as it is; a
/// missing observation counts no processes.
pub proof fn law_report_is_faithful<V>(
    target: TargetGroup,
    observation: Option<&RawObservation<V>>,
    estimated: EstimatedState<V>,
    decision: ControlDecision,
)
    ensures
        ({
            let report = report_on(target, observation, estimated, decision);
            &&& report.pid == target.root.pid
            &&& report.pgid == target.pgid
            &&& observation matches Some(seen) ==> report.procs == seen.process_count
            &&& observation is None ==> report.procs == 0
            &&& report.normalized_cpu == estimated.normalized_cpu
            &&& report.filtered_cpu == estimated.filtered_cpu
            &&& report.valid == estimated.valid
            &&& report.warmed_up == estimated.warmed_up
            &&& report.timed_out == estimated.timed_out
            &&& report.stop_duration == decision.stop_duration
        }),
{
}

/// Reports are asked for by `1` and by `true`, whose letters may be capitals or not, and by
/// nothing else.
pub proof fn law_what_asks_for_reports(setting: Seq<char>)
    ensures
        asks_for_reports(setting) <==> setting == seq!['1'] || (setting.len() == 4
            && text::same_letter(setting[0], 't') && text::same_letter(setting[1], 'r')
            && text::same_letter(setting[2], 'u') && text::same_letter(setting[3], 'e')),
{
    reveal_strlit("1");
    reveal_strlit("true");
    assert("1"@ =~= seq!['1']);
    text::law_case_is_all_that_is_ignored(setting, "true"@);
    let word = "true"@;
    assert(word.len() == 4 && word[0] == 't' && word[1] == 'r' && word[2] == 'u' && word[3] == 'e');
    if setting.len() == 4 && text::same_letter(setting[0], 't') && text::same_letter(
        setting[1],
        'r',
    ) && text::same_letter(setting[2], 'u') && text::same_letter(setting[3], 'e') {
        assert forall|i: int| 0 <= i < setting.len() implies text::same_letter(
            #[trigger] setting[i],
            word[i],
        ) by {
            assert(i == 0 || i == 1 || i == 2 || i == 3);
        }
    }
}

} // verus!
