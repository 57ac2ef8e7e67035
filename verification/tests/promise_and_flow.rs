use perspective_view::adapter::PromiseAdapter;
use perspective_view::config::ConfigValue;
use perspective_view::download::DownloadFlow;
use perspective_view::download::FlowAction;
use perspective_view::download::FlowEvent;
use perspective_view::download::FlowPhase;
use perspective_view::host::AdaptError;
use perspective_view::host::HostOutcome;
use perspective_view::host::HostValue;
use perspective_view::host::ResultShape;
use perspective_view::host::TypedValue;

#[test]
fn adapter_yields_nothing_before_the_host_settles() {
    let mut adapter = PromiseAdapter::new(ResultShape::Number);
    assert!(adapter.observe(None).is_none());
    assert!(adapter.observe(None).is_none());
    assert!(!adapter.settled);
}

#[test]
fn adapter_resolves_with_exactly_the_host_value_exactly_once() {
    let mut adapter = PromiseAdapter::new(ResultShape::Number);
    assert!(adapter.observe(None).is_none());
    let settled = HostOutcome::Resolved { value: HostValue::Number(42) };
    assert_eq!(adapter.observe(Some(settled)), Some(Ok(TypedValue::Number(42))));
    // Exactly once: later observations yield nothing.
    let again = HostOutcome::Resolved { value: HostValue::Number(42) };
    assert!(adapter.observe(Some(again)).is_none());
    assert!(adapter.observe(None).is_none());
}

#[test]
fn adapter_forwards_a_rejection_unchanged() {
    let mut adapter = PromiseAdapter::new(ResultShape::Text);
    let rejected = HostOutcome::Rejected { error: HostValue::Text("boom".to_string()) };
    assert_eq!(
        adapter.observe(Some(rejected)),
        Some(Err(AdaptError::HostRejection { error: HostValue::Text("boom".to_string()) }))
    );
}

#[test]
fn adapter_fails_loudly_on_a_shape_mismatch() {
    let mut adapter = PromiseAdapter::new(ResultShape::Number);
    let settled = HostOutcome::Resolved { value: HostValue::Text("nan".to_string()) };
    assert_eq!(
        adapter.observe(Some(settled)),
        Some(Err(AdaptError::CoercionFailure {
            expected: ResultShape::Number,
            got: HostValue::Text("nan".to_string()),
        }))
    );
}

#[test]
fn adapter_discards_the_value_for_a_unit_expectation() {
    let mut adapter = PromiseAdapter::new(ResultShape::Unit);
    let settled = HostOutcome::Resolved { value: HostValue::Undefined };
    assert_eq!(adapter.observe(Some(settled)), Some(Ok(TypedValue::Unit)));
}

#[test]
fn download_saves_exactly_the_csv_then_deletes_the_view() {
    let (mut flow, start) = DownloadFlow::new_for_view();
    match start {
        FlowAction::FetchCsv { options } => {
            assert_eq!(options.entries.len(), 1);
            assert_eq!(options.entries[0].0, "formatted");
            assert_eq!(options.entries[0].1, ConfigValue::Boolean(true));
        }
        other => panic!("unexpected start action: {:?}", other),
    }
    let csv = "a,b\n1,2\n".to_string();
    match flow.step(FlowEvent::CsvReady { csv: csv.clone() }) {
        FlowAction::SaveFile { name, content } => {
            assert_eq!(name, "perspective.csv");
            assert_eq!(content, csv);
        }
        other => panic!("unexpected action: {:?}", other),
    }
    assert!(matches!(flow.step(FlowEvent::SaveDone), FlowAction::DeleteView));
    match flow.step(FlowEvent::DeleteDone) {
        FlowAction::Finish { outcome } => assert!(outcome.is_ok()),
        other => panic!("unexpected action: {:?}", other),
    }
    assert_eq!(flow.phase, FlowPhase::Done);
}

#[test]
fn flat_download_starts_from_an_empty_configuration() {
    let (mut flow, start) = DownloadFlow::new_flat();
    assert_eq!(flow.phase, FlowPhase::MakingView);
    match start {
        FlowAction::MakeView { config } => assert!(config.entries.is_empty()),
        other => panic!("unexpected start action: {:?}", other),
    }
    // Once the derived view is ready, the flow is the same as a plain
    // download of that view: serialize with formatting enabled.
    match flow.step(FlowEvent::ViewReady) {
        FlowAction::FetchCsv { options } => {
            assert_eq!(options.entries[0].0, "formatted");
            assert_eq!(options.entries[0].1, ConfigValue::Boolean(true));
        }
        other => panic!("unexpected action: {:?}", other),
    }
    assert_eq!(flow.phase, FlowPhase::Serializing);
}

#[test]
fn serialization_failure_aborts_and_surfaces_the_error() {
    let (mut flow, _) = DownloadFlow::new_for_view();
    let action = flow.step(FlowEvent::CsvFailed { error: HostValue::Text("gone".to_string()) });
    match action {
        FlowAction::Finish { outcome } => {
            assert_eq!(outcome, Err(HostValue::Text("gone".to_string())));
        }
        other => panic!("unexpected action: {:?}", other),
    }
    assert_eq!(flow.phase, FlowPhase::Failed);
}

#[test]
fn save_failure_aborts_without_the_disposal_step() {
    let (mut flow, _) = DownloadFlow::new_for_view();
    flow.step(FlowEvent::CsvReady { csv: "x\n".to_string() });
    let action = flow.step(FlowEvent::SaveFailed { error: HostValue::Null });
    // The cleanup scheduled after the failing step does not run: the
    // flow finishes with the error instead of asking for the disposal.
    assert!(matches!(action, FlowAction::Finish { outcome: Err(HostValue::Null) }));
    assert_eq!(flow.phase, FlowPhase::Failed);
}

#[test]
fn view_derivation_failure_aborts_the_flat_download() {
    let (mut flow, _) = DownloadFlow::new_flat();
    let action = flow.step(FlowEvent::ViewFailed { error: HostValue::Text("denied".to_string()) });
    match action {
        FlowAction::Finish { outcome } => {
            assert_eq!(outcome, Err(HostValue::Text("denied".to_string())));
        }
        other => panic!("unexpected action: {:?}", other),
    }
    assert_eq!(flow.phase, FlowPhase::Failed);
}

#[test]
fn disposal_failure_surfaces_after_the_file_was_saved() {
    let (mut flow, _) = DownloadFlow::new_for_view();
    flow.step(FlowEvent::CsvReady { csv: "x\n".to_string() });
    flow.step(FlowEvent::SaveDone);
    let action = flow.step(FlowEvent::DeleteFailed { error: HostValue::Number(-1) });
    assert!(matches!(
        action,
        FlowAction::Finish { outcome: Err(HostValue::Number(-1)) }
    ));
    assert_eq!(flow.phase, FlowPhase::Failed);
}
