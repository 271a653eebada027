//! The fail-fast policy: any end of ingestion ends the whole process, so
//! that readers are never served from a store that no longer fills.

use vstd::prelude::*;
use crate::ingest::{Fault, IngestAction};

verus! {

/// What is known of the ingestion context at one moment.
#[derive(Clone, Copy, Debug, PartialEq, Eq, Structural)]
pub enum Report {
    /// It is running.
    Alive,
    /// It stopped and reported this fault.
    Faulted(Fault),
    /// It ended without a report, as after a panic.
    Lost,
}

/// What the process does.
#[derive(Clone, Copy, Debug, PartialEq, Eq, Structural)]
pub enum Directive {
    /// Go on serving queries.
    KeepServing,
    /// Terminate at once, for this fault.
    Terminate(Fault),
}

/// The fault that a report amounts to, if any.
pub open spec fn fault_in(report: Report) -> Option<Fault> {
    match report {
        Report::Alive => None,
        Report::Faulted(fault) => Some(fault),
        Report::Lost => Some(Fault::Crashed),
    }
}

/// The fault that is known once `report` has come in, where `known` was
/// known before: the first fault sticks.
pub open spec fn noted(known: Option<Fault>, report: Report) -> Option<Fault> {
    if known is Some {
        known
    } else {
        fault_in(report)
    }
}

/// What the process does, given the fault that is known.
pub open spec fn verdict(known: Option<Fault>) -> Directive {
    match known {
        None => Directive::KeepServing,
        Some(fault) => Directive::Terminate(fault),
    }
}

/// What an action of the ingestion loop tells the supervisor.
pub open spec fn report_of(action: IngestAction) -> Report {
    match action {
        IngestAction::Halt(fault) => Report::Faulted(fault),
        _ => Report::Alive,
    }
}

/// The fault that is known after all of `reports`, in order.
pub open spec fn noted_all(known: Option<Fault>, reports: Seq<Report>) -> Option<Fault>
    decreases reports.len(),
{
    if reports.len() == 0 {
        known
    } else {
        noted(noted_all(known, reports.drop_last()), reports.last())
    }
}

/// Watches the ingestion context and decides whether the process lives on.
pub struct ProcessSupervisor {
    known: Option<Fault>,
}

impl View for ProcessSupervisor {
    type V = Option<Fault>;

    /// The first fault observed, if any.
    closed spec fn view(&self) -> Option<Fault> {
        self.known
    }
}

impl ProcessSupervisor {
    /// A supervisor that has seen no fault.
    pub fn new() -> (supervisor: Self)
        ensures
            supervisor@ == None::<Fault>,
    {
        ProcessSupervisor { known: None }
    }

    /// Takes note of `report` and says what the process does.
    pub fn observe(&mut self, report: Report) -> (directive: Directive)
        ensures
            final(self)@ == noted(old(self)@, report),
            directive == verdict(final(self)@),
    {
        if self.known.is_none() {
            self.known = match report {
                Report::Alive => None,
                Report::Faulted(fault) => Some(fault),
                Report::Lost => Some(Fault::Crashed),
            };
        }
        self.directive()
    }

    /// What the process does as things stand.
    pub fn directive(&self) -> (directive: Directive)
        ensures
            directive == verdict(self@),
    {
        match self.known {
            None => Directive::KeepServing,
            Some(fault) => Directive::Terminate(fault),
        }
    }

    /// Whether queries may still be served.
    pub fn is_serving(&self) -> (serving: bool)
        ensures
            serving == (self@ is None),
    {
        self.known.is_none()
    }

    /// What an action of the ingestion loop tells the supervisor: a halt is a
    /// fault, anything else a sign of life.
    pub fn report(action: IngestAction) -> (report: Report)
        ensures
            report == report_of(action),
    {
        match action {
            IngestAction::Halt(fault) => Report::Faulted(fault),
            _ => Report::Alive,
        }
    }
}

/// Fail fast: whenever a report holds a fault, the verdict is to terminate.
/// A supervisor that knew of none terminates for the fault reported; a lost
/// ingestion context counts as a crash.
pub proof fn lemma_fault_terminates(known: Option<Fault>, report: Report)
    requires
        report !is Alive,
    ensures
        verdict(noted(known, report)) is Terminate,
        known is None ==> verdict(noted(known, report)) == Directive::Terminate(
            fault_in(report)->Some_0,
        ),
        known is None && report is Lost ==> verdict(noted(known, report)) == Directive::Terminate(
            Fault::Crashed,
        ),
{
}

/// The process keeps serving exactly as long as every report so far said that
/// ingestion is alive.
pub proof fn lemma_serving_while_alive(reports: Seq<Report>)
    ensures
        verdict(noted_all(None, reports)) is KeepServing <==> forall|i: int|
            0 <= i < reports.len() ==> reports[i] is Alive,
    decreases reports.len(),
{
    if reports.len() > 0 {
        let front = reports.drop_last();
        lemma_serving_while_alive(front);
        if forall|i: int| 0 <= i < reports.len() ==> reports[i] is Alive {
            assert forall|i: int| 0 <= i < front.len() implies front[i] is Alive by {
                assert(front[i] == reports[i]);
            }
        } else if reports.last() is Alive {
            let i = choose|i: int| 0 <= i < reports.len() && !(reports[i] is Alive);
            assert(front[i] == reports[i]);
        }
    }
}

/// A verdict to terminate is never taken back, and the fault it names never
/// changes.
pub proof fn lemma_termination_is_final(known: Option<Fault>, reports: Seq<Report>)
    requires
        known is Some,
    ensures
        noted_all(known, reports) == known,
    decreases reports.len(),
{
    if reports.len() > 0 {
        lemma_termination_is_final(known, reports.drop_last());
    }
}

} // verus!
