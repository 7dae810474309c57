use hitman_core::env::{Environment, Layer};
use hitman_core::run::{is_request_file, relative_components, BatchReport, WatchTrigger};
use hitman_core::substitute::substitute;
use hitman_core::ui::{
    handle_event, intent_for, Action, AppModel, AppState, AskForValueParams, Intent, PendingState, UiEvent,
};
use hitman_core::value::Datum;

fn text(s: &str) -> Datum {
    Datum::Text(s.to_string())
}

#[test]
fn watch_burst_runs_once_more() {
    let mut trigger = WatchTrigger::new();
    // three rapid modifications while a run is in flight
    trigger.notify(true);
    trigger.notify(true);
    trigger.notify(true);
    let mut reruns = 0;
    while trigger.take() {
        reruns += 1;
    }
    assert_eq!(reruns, 1);
}

#[test]
fn watch_ignores_other_events() {
    let mut trigger = WatchTrigger::new();
    trigger.notify(false);
    assert!(!trigger.take());
}

#[test]
fn batch_report_goes_on_past_failures() {
    let mut report = BatchReport::new();
    report.record_failure(0, "timeout".to_string());
    report.record_success();
    assert_eq!(report.succeeded, 1);
    assert_eq!(report.failures, vec![(0, "timeout".to_string())]);
    assert!(!report.all_succeeded());
}

#[test]
fn request_files_by_extension() {
    assert!(is_request_file("get_user.http"));
    assert!(is_request_file(".http"));
    assert!(!is_request_file("http"));
    assert!(!is_request_file("notes.txt"));
    assert!(!is_request_file("x.https"));
}

#[test]
fn relative_path_keeps_last_components() {
    let c = vec!["/".to_string(), "root".to_string(), "api".to_string(), "get.http".to_string()];
    assert_eq!(relative_components(&c, 2), vec!["api".to_string(), "get.http".to_string()]);
    assert_eq!(relative_components(&c, 0), Vec::<String>::new());
}

#[test]
fn missing_value_opens_prompt() {
    let env = Environment::new(Layer::new(), Layer::new(), Layer::new());
    let outcome = substitute("{{id:-42}}", &env);
    let intent = intent_for("req.http".to_string(), vec![], outcome);
    let mut model = AppModel::new("dev".to_string());
    assert!(matches!(model.dispatch(intent), Action::Nothing));
    match &model.state {
        AppState::PendingValue { file_path, key, pending_state: PendingState::Prompt { fallback }, .. } => {
            assert_eq!(file_path, "req.http");
            assert_eq!(key, "id");
            assert_eq!(fallback, &Some("42".to_string()));
        }
        _ => panic!("expected a prompt"),
    }
    let state = std::mem::replace(&mut model.state, AppState::Idle);
    let (state, intent) = handle_event(state, UiEvent::Accept("7".to_string()));
    model.state = state;
    match intent {
        Some(Intent::PrepareRequest(f, o)) => {
            assert_eq!(f, "req.http");
            assert_eq!(o, vec![("id".to_string(), "7".to_string())]);
        }
        _ => panic!("expected the request to be prepared again"),
    }
}

#[test]
fn candidates_open_select_and_pick() {
    let list = Datum::List(vec![
        Datum::Table(vec![("name".to_string(), text("prod")), ("value".to_string(), text("https://prod"))]),
        Datum::Table(vec![("name".to_string(), text("dev"))]),
    ]);
    let env = Environment::new(Layer::new(), Layer { entries: vec![("env".to_string(), list)] }, Layer::new());
    let intent = intent_for("r.http".to_string(), vec![], substitute("{{env}}", &env));
    match &intent {
        Intent::AskForValue { params: AskForValueParams::Select { values }, .. } => {
            assert_eq!(values.len(), 2);
            assert_eq!(values[0].label, Some("prod".to_string()));
            assert_eq!(values[0].choice, Some("https://prod".to_string()));
            assert_eq!(values[1].choice, None);
        }
        _ => panic!("expected a choice"),
    }
    let mut model = AppModel::new("dev".to_string());
    model.dispatch(intent);
    let state = std::mem::replace(&mut model.state, AppState::Idle);
    let (state, intent) = handle_event(state, UiEvent::Pick(1));
    match intent {
        Some(Intent::ShowError(m)) => assert_eq!(m, "Replacement not found: env"),
        _ => panic!("expected an error"),
    }
    let (_, intent) = handle_event(state, UiEvent::Pick(0));
    match intent {
        Some(Intent::PrepareRequest(_, o)) => assert_eq!(o, vec![("env".to_string(), "https://prod".to_string())]),
        _ => panic!("expected the request to be prepared again"),
    }
}

#[test]
fn idle_keys_and_cancel() {
    let (_, i) = handle_event(AppState::Idle, UiEvent::QuitKey);
    assert!(matches!(i, Some(Intent::Quit)));
    let (_, i) = handle_event(AppState::Idle, UiEvent::EditorKey);
    assert!(matches!(i, Some(Intent::EditRequest)));
    let (_, i) = handle_event(AppState::Idle, UiEvent::SelectTargetKey);
    assert!(matches!(i, Some(Intent::SelectTarget)));
    let (_, i) = handle_event(AppState::Idle, UiEvent::Cancel);
    assert!(i.is_none());
    let (_, i) = handle_event(AppState::RunningRequest, UiEvent::QuitKey);
    assert!(matches!(i, Some(Intent::CancelRequest)));
    let mut model = AppModel::new("dev".to_string());
    model.request_started();
    assert_eq!(model.poll_timeout_ms(), 50);
    assert!(matches!(model.dispatch(Intent::CancelRequest), Action::AbortRequest));
    assert!(matches!(model.state, AppState::Idle));
    assert_eq!(model.poll_timeout_ms(), 1000);
}

#[test]
fn select_target_flow() {
    let mut model = AppModel::new("dev".to_string());
    assert!(matches!(model.dispatch(Intent::SelectTarget), Action::ListTargets));
    model.show_targets(vec!["dev".to_string(), "prod".to_string()]);
    let state = std::mem::replace(&mut model.state, AppState::Idle);
    let (_, i) = handle_event(state, UiEvent::Accept("prod".to_string()));
    match i {
        Some(intent) => match model.dispatch(intent) {
            Action::SetTarget { target } => model.target_set(target),
            _ => panic!("expected the target to be set"),
        },
        None => panic!("expected an intent"),
    }
    assert_eq!(model.target, "prod");
    assert!(matches!(model.state, AppState::Idle));
}

#[test]
fn show_error_then_change_state_clears_it() {
    let mut model = AppModel::new("dev".to_string());
    model.dispatch(Intent::ShowError("boom".to_string()));
    assert_eq!(model.error, Some("boom".to_string()));
    model.dispatch(Intent::ChangeState(AppState::Idle));
    assert_eq!(model.error, None);
    model.dispatch(Intent::Quit);
    assert!(model.should_quit);
}

#[test]
fn value_labels_and_choices() {
    let t = Datum::Table(vec![("name".to_string(), Datum::Scalar("1".to_string())), ("value".to_string(), text("v"))]);
    assert_eq!(t.label(), Some("1".to_string()));
    assert_eq!(t.choice(), Some("v".to_string()));
    assert_eq!(text("plain").label(), Some("plain".to_string()));
    assert_eq!(Datum::List(vec![]).label(), None);
    assert_eq!(Datum::Table(vec![]).choice(), None);
}

