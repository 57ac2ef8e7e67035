//! The download flow as a state machine.
//!
//! Saving a view as a file is a fixed sequence of host operations:
//! derive a view (for the flat form), serialize it to CSV, save the
//! text under `perspective.csv`, dispose the view, settle the caller's
//! promise.  The machine decides the next host action from the phase
//! and the host's settlement of the pending step; the shell around the
//! crate performs the actions.  A rejection at any step aborts the
//! flow and surfaces the error unchanged; the steps after the failing
//! one -- the view's disposal included -- do not run.

use crate::config::ConfigObject;
use crate::config::ConfigValue;
use crate::host::HostValue;
use vstd::prelude::*;

verus! {

/// Where one download stands.
#[derive(Debug, PartialEq, Eq, Structural, Clone, Copy)]
pub enum FlowPhase {
    /// A flat download is waiting for the derived view.
    MakingView,
    /// Waiting for the CSV serialization of the view.
    Serializing,
    /// Waiting for the host to save the named file.
    Saving,
    /// The file is saved; waiting for the view's disposal.
    Deleting,
    /// Finished successfully.
    Done,
    /// Aborted: a host rejection was surfaced to the caller.
    Failed,
}

/// What the host is asked to do next.
#[derive(Debug)]
pub enum FlowAction {
    /// Derive a view from the table with the given configuration.
    MakeView { config: ConfigObject },
    /// Serialize the view to CSV with the given options.
    FetchCsv { options: ConfigObject },
    /// Save `content` as a downloaded file named `name`.
    SaveFile { name: String, content: String },
    /// Dispose the view.
    DeleteView,
    /// Settle the caller's promise with this outcome.
    Finish { outcome: Result<(), HostValue> },
}

/// How the host settled the pending step.
#[derive(Debug)]
pub enum FlowEvent {
    ViewReady,
    ViewFailed { error: HostValue },
    CsvReady { csv: String },
    CsvFailed { error: HostValue },
    SaveDone,
    SaveFailed { error: HostValue },
    DeleteDone,
    DeleteFailed { error: HostValue },
}

/// Which settlements the pending step can produce.
pub open spec fn accepts(phase: FlowPhase, event: FlowEvent) -> bool {
    match phase {
        FlowPhase::MakingView => event is ViewReady || event is ViewFailed,
        FlowPhase::Serializing => event is CsvReady || event is CsvFailed,
        FlowPhase::Saving => event is SaveDone || event is SaveFailed,
        FlowPhase::Deleting => event is DeleteDone || event is DeleteFailed,
        FlowPhase::Done => false,
        FlowPhase::Failed => false,
    }
}

/// The phase after one settlement.
pub open spec fn flow_next(phase: FlowPhase, event: FlowEvent) -> FlowPhase {
    match phase {
        FlowPhase::MakingView => if event is ViewReady {
            FlowPhase::Serializing
        } else {
            FlowPhase::Failed
        },
        FlowPhase::Serializing => if event is CsvReady {
            FlowPhase::Saving
        } else {
            FlowPhase::Failed
        },
        FlowPhase::Saving => if event is SaveDone {
            FlowPhase::Deleting
        } else {
            FlowPhase::Failed
        },
        FlowPhase::Deleting => if event is DeleteDone {
            FlowPhase::Done
        } else {
            FlowPhase::Failed
        },
        FlowPhase::Done => phase,
        FlowPhase::Failed => phase,
    }
}

/// Whether this settlement makes the flow ask for the view's disposal.
pub open spec fn emits_delete(phase: FlowPhase, event: FlowEvent) -> bool {
    phase is Saving && event is SaveDone
}

/// The serialization options every download uses: formatting enabled.
pub open spec fn formatted_options(bag: ConfigObject) -> bool {
    &&& bag.entries@.len() == 1
    &&& bag.entries@[0].0@ == "formatted"@
    &&& bag.entries@[0].1 == ConfigValue::Boolean(true)
}

/// One download in progress.
#[derive(Debug)]
pub struct DownloadFlow {
    pub phase: FlowPhase,
}

fn formatted_bag() -> (bag: ConfigObject)
    ensures
        formatted_options(bag),
{
    let mut bag = ConfigObject::new();
    bag.set("formatted".to_owned(), ConfigValue::Boolean(true));
    bag
}

impl DownloadFlow {
    /// Start a flat download: derive a view from the table with the
    /// default, empty configuration.
    pub fn new_flat() -> (start: (Self, FlowAction))
        ensures
            start.0.phase == FlowPhase::MakingView,
            start.1 matches FlowAction::MakeView { config } && config.entries@.len() == 0,
    {
        (
            DownloadFlow { phase: FlowPhase::MakingView },
            FlowAction::MakeView { config: ConfigObject::new() },
        )
    }

    /// Start a download of a view already in hand: serialize it with
    /// formatting enabled.
    pub fn new_for_view() -> (start: (Self, FlowAction))
        ensures
            start.0.phase == FlowPhase::Serializing,
            start.1 matches FlowAction::FetchCsv { options } && formatted_options(options),
    {
        (
            DownloadFlow { phase: FlowPhase::Serializing },
            FlowAction::FetchCsv { options: formatted_bag() },
        )
    }

    /// One step: the host settled the pending operation with `event`;
    /// the returned action is what the host must do next.  The saved
    /// file carries exactly the serialized text, under the fixed name;
    /// the view is disposed exactly once the save has succeeded; any
    /// rejection aborts the flow and forwards the error unchanged.
    pub fn step(&mut self, event: FlowEvent) -> (action: FlowAction)
        requires
            accepts(old(self).phase, event),
        ensures
            final(self).phase == flow_next(old(self).phase, event),
            (action is DeleteView) == emits_delete(old(self).phase, event),
            (match event {
                FlowEvent::ViewReady => action matches FlowAction::FetchCsv { options }
                    && formatted_options(options),
                FlowEvent::CsvReady { csv } => action matches FlowAction::SaveFile {
                    name,
                    content,
                } && name@ == "perspective.csv"@ && content == csv,
                FlowEvent::SaveDone => action == FlowAction::DeleteView,
                FlowEvent::DeleteDone => action == (FlowAction::Finish { outcome: Ok(()) }),
                FlowEvent::ViewFailed { error } => action == (FlowAction::Finish {
                    outcome: Err(error),
                }),
                FlowEvent::CsvFailed { error } => action == (FlowAction::Finish {
                    outcome: Err(error),
                }),
                FlowEvent::SaveFailed { error } => action == (FlowAction::Finish {
                    outcome: Err(error),
                }),
                FlowEvent::DeleteFailed { error } => action == (FlowAction::Finish {
                    outcome: Err(error),
                }),
            }),
    {
        match event {
            FlowEvent::ViewReady => {
                self.phase = FlowPhase::Serializing;
                FlowAction::FetchCsv { options: formatted_bag() }
            },
            FlowEvent::CsvReady { csv } => {
                self.phase = FlowPhase::Saving;
                FlowAction::SaveFile { name: "perspective.csv".to_owned(), content: csv }
            },
            FlowEvent::SaveDone => {
                self.phase = FlowPhase::Deleting;
                FlowAction::DeleteView
            },
            FlowEvent::DeleteDone => {
                self.phase = FlowPhase::Done;
                FlowAction::Finish { outcome: Ok(()) }
            },
            FlowEvent::ViewFailed { error } => {
                self.phase = FlowPhase::Failed;
                FlowAction::Finish { outcome: Err(error) }
            },
            FlowEvent::CsvFailed { error } => {
                self.phase = FlowPhase::Failed;
                FlowAction::Finish { outcome: Err(error) }
            },
            FlowEvent::SaveFailed { error } => {
                self.phase = FlowPhase::Failed;
                FlowAction::Finish { outcome: Err(error) }
            },
            FlowEvent::DeleteFailed { error } => {
                self.phase = FlowPhase::Failed;
                FlowAction::Finish { outcome: Err(error) }
            },
        }
    }
}

/// The phase after a sequence of settlements.
pub open spec fn run_phase(phase: FlowPhase, events: Seq<FlowEvent>) -> FlowPhase
    decreases events.len(),
{
    if events.len() == 0 {
        phase
    } else {
        run_phase(flow_next(phase, events.first()), events.drop_first())
    }
}

/// How many settlements along the run make the flow ask for the
/// view's disposal.
pub open spec fn delete_count(phase: FlowPhase, events: Seq<FlowEvent>) -> int
    decreases events.len(),
{
    if events.len() == 0 {
        0
    } else {
        (if emits_delete(phase, events.first()) {
            1int
        } else {
            0int
        }) + delete_count(flow_next(phase, events.first()), events.drop_first())
    }
}

/// The view is disposed exactly once: along any run of the flow the
/// disposal is requested at most once; a run that reaches successful
/// completion from any phase before the disposal requests it exactly
/// once; and the two terminal phases absorb every further settlement.
pub proof fn lemma_delete_exactly_once(phase: FlowPhase, events: Seq<FlowEvent>)
    ensures
        delete_count(phase, events) <= 1,
        phase is Deleting || phase is Done || phase is Failed ==> delete_count(phase, events)
            == 0,
        run_phase(phase, events) is Done && (phase is MakingView || phase is Serializing
            || phase is Saving) ==> delete_count(phase, events) == 1,
        phase is Failed ==> run_phase(phase, events) is Failed,
        phase is Done ==> run_phase(phase, events) is Done,
    decreases events.len(),
{
    if events.len() > 0 {
        lemma_delete_exactly_once(flow_next(phase, events.first()), events.drop_first());
    }
}

/// A flat download, once the host hands it the derived view, is the
/// same flow as a download of that view: the same phase, and so the
/// same actions and the same single disposal on every later trace.
pub proof fn lemma_flat_matches_view_download(events: Seq<FlowEvent>)
    ensures
        flow_next(FlowPhase::MakingView, FlowEvent::ViewReady) == FlowPhase::Serializing,
        run_phase(flow_next(FlowPhase::MakingView, FlowEvent::ViewReady), events) == run_phase(
            FlowPhase::Serializing,
            events,
        ),
        delete_count(flow_next(FlowPhase::MakingView, FlowEvent::ViewReady), events)
            == delete_count(FlowPhase::Serializing, events),
{
}

} // verus!
