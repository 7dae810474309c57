use vstd::prelude::*;

use crate::substitute::Substitution;
use crate::value::{choice_of, label_of, Datum};

verus! {

/// A screen the terminal front-end takes over while it runs.
pub trait Screen {
    fn enter(&self) -> Result<(), String>;

    fn leave(&self) -> Result<(), String>;
}

/// A candidate as offered for choice: its label and the replacement text it
/// stands for, where it has them.
pub struct Candidate {
    pub label: Option<String>,
    pub choice: Option<String>,
}

/// The text of an optional string.
pub open spec fn opt_view(o: Option<String>) -> Option<Seq<char>> {
    match o {
        Some(s) => Some(s@),
        None => None,
    }
}

/// Whether `c` offers `v` as a candidate: same label, same replacement.
pub open spec fn offers(c: Candidate, v: Datum) -> bool {
    opt_view(c.label) == label_of(v) && opt_view(c.choice) == choice_of(v)
}

/// The candidates of a list of values, one for each, in order.
pub fn candidates_of(values: &Vec<Datum>) -> (r: Vec<Candidate>)
    ensures
        r@.len() == values@.len(),
        forall|i: int| 0 <= i < r@.len() ==> offers(#[trigger] r@[i], values@[i]),
{
    let mut out: Vec<Candidate> = Vec::new();
    let mut i: usize = 0;
    while i < values.len()
        invariant
            i <= values@.len(),
            out@.len() == i,
            forall|j: int| 0 <= j < i ==> offers(#[trigger] out@[j], values@[j]),
        decreases values.len() - i,
    {
        let label = values[i].label();
        let choice = values[i].choice();
        out.push(Candidate { label, choice });
        i = i + 1;
    }
    out
}

/// What the request popup waits for.
pub enum PendingState {
    /// Free text, with the placeholder's suggested default.
    Prompt { fallback: Option<String> },
    /// A choice among candidates.
    Select { candidates: Vec<Candidate> },
}

/// The state of the terminal front-end.
pub enum AppState {
    /// Waiting for a request to be picked.
    Idle,
    /// Waiting for a value of `key` before `file_path` can be prepared again
    /// with `pending_options`.
    PendingValue {
        file_path: String,
        key: String,
        pending_options: Vec<(String, String)>,
        pending_state: PendingState,
    },
    /// A request is in flight.
    RunningRequest,
    /// Waiting for a target to be picked among `targets`.
    SelectTarget { targets: Vec<String> },
}

/// How to ask for a value.
pub enum AskForValueParams {
    Prompt { fallback: Option<String> },
    Select { values: Vec<Candidate> },
}

/// What the front-end decided to do next.
pub enum Intent {
    Quit,
    PrepareRequest(String, Vec<(String, String)>),
    SendRequest { file_path: String, prepared_request: String },
    AskForValue {
        key: String,
        file_path: String,
        pending_options: Vec<(String, String)>,
        params: AskForValueParams,
    },
    ChangeState(AppState),
    SelectTarget,
    AcceptSelectTarget(String),
    EditRequest,
    ShowError(String),
    CancelRequest,
}

/// What the components of the front-end report.
pub enum UiEvent {
    /// Text accepted: a prompt's answer, a request's path, a target's name.
    Accept(String),
    /// The candidate at this index was picked.
    Pick(usize),
    /// The open popup was dismissed.
    Cancel,
    /// The quit key.
    QuitKey,
    /// The key that opens the selected request in an editor.
    EditorKey,
    /// The key that asks to pick another target.
    SelectTargetKey,
}

/// The outside work that a dispatched intent asks of the front-end.
pub enum Action {
    /// Nothing outside is needed.
    Nothing,
    /// Load the environment and the template and substitute.
    Prepare { file_path: String, options: Vec<(String, String)> },
    /// Send the finished request in the background.
    Send { file_path: String, prepared_request: String },
    /// List the targets to choose from.
    ListTargets,
    /// Make `target` the active target.
    SetTarget { target: String },
    /// Open the selected request in an editor.
    Edit,
    /// Abort the request in flight; nothing of it is extracted.
    AbortRequest,
}

fn copy_pairs(v: &Vec<(String, String)>) -> (r: Vec<(String, String)>)
    ensures
        r@ == v@,
{
    let mut out: Vec<(String, String)> = Vec::new();
    let mut i: usize = 0;
    while i < v.len()
        invariant
            i <= v@.len(),
            out@ == v@.take(i as int),
        decreases v.len() - i,
    {
        out.push((v[i].0.clone(), v[i].1.clone()));
        assert(out@ =~= v@.take(i + 1));
        i = i + 1;
    }
    assert(v@.take(v@.len() as int) =~= v@);
    out
}

fn message(prefix: &str, name: &str) -> (r: String)
    ensures
        r@ == prefix@ + name@,
{
    prefix.to_owned().concat(name)
}

/// The intent that follows a substitution of the request at `file_path`
/// under `options`: send it, ask for the failing value, or report the error.
pub fn intent_for(file_path: String, options: Vec<(String, String)>, outcome: Substitution) -> (r:
    Intent)
    ensures
        match outcome {
            Substitution::Resolved(s) => r == Intent::SendRequest {
                file_path,
                prepared_request: s,
            },
            Substitution::ValueNotFound { name, fallback } => r == Intent::AskForValue {
                key: name,
                file_path,
                pending_options: options,
                params: AskForValueParams::Prompt { fallback },
            },
            Substitution::MultipleValuesFound { name, candidates } => match r {
                Intent::AskForValue { key, file_path: f, pending_options, params } => {
                    &&& key == name
                    &&& f == file_path
                    &&& pending_options == options
                    &&& match params {
                        AskForValueParams::Select { values } => values@.len() == candidates@.len()
                            && forall|i: int|
                            0 <= i < values@.len() ==> offers(#[trigger] values@[i], candidates@[i]),
                        _ => false,
                    }
                },
                _ => false,
            },
            Substitution::Unsupported { name } => match r {
                Intent::ShowError(m) => m@ == "Unsupported value for "@ + name@,
                _ => false,
            },
        },
{
    match outcome {
        Substitution::Resolved(s) => Intent::SendRequest { file_path, prepared_request: s },
        Substitution::ValueNotFound { name, fallback } => Intent::AskForValue {
            key: name,
            file_path,
            pending_options: options,
            params: AskForValueParams::Prompt { fallback },
        },
        Substitution::MultipleValuesFound { name, candidates } => {
            let values = candidates_of(candidates);
            Intent::AskForValue {
                key: name,
                file_path,
                pending_options: options,
                params: AskForValueParams::Select { values },
            }
        },
        Substitution::Unsupported { name } => Intent::ShowError(
            message("Unsupported value for ", name.as_str()),
        ),
    }
}

/// Whether the event dismisses an open popup.
pub open spec fn dismisses(e: UiEvent) -> bool {
    e is Cancel || e is QuitKey
}

/// The intent of an event in the given state, and the state after it. In the
/// popups a dismissal goes back to idle; an answer or a pick is added to the
/// pending options and the request is prepared again with them; a candidate
/// without replacement text is reported. Idle, an accepted path prepares that
/// request with no option, and the keys quit, edit or ask for a target. A
/// request in flight is cancelled by the quit key. A picked target is accepted.
pub fn handle_event(state: AppState, event: UiEvent) -> (r: (AppState, Option<Intent>))
    ensures
        match state {
            AppState::PendingValue { file_path, key, pending_options, pending_state } => {
                if dismisses(event) {
                    r.1 == Some(Intent::ChangeState(AppState::Idle))
                } else {
                    match (pending_state, event) {
                        (PendingState::Prompt { .. }, UiEvent::Accept(v)) => {
                            &&& r.0 matches AppState::PendingValue {
                                file_path: f2,
                                key: k2,
                                pending_options: o2,
                                pending_state: p2,
                            }
                            &&& f2 == file_path && k2 == key && p2 == pending_state
                            &&& o2@ == pending_options@.push((key, v))
                            &&& r.1 matches Some(Intent::PrepareRequest(f, o))
                            &&& f == file_path && o@ == o2@
                        },
                        (PendingState::Select { candidates }, UiEvent::Pick(i)) => {
                            if i >= candidates@.len() {
                                r.1 is None
                            } else {
                                match candidates@[i as int].choice {
                                    Some(v) => {
                                        &&& r.0 matches AppState::PendingValue {
                                            file_path: f2,
                                            key: k2,
                                            pending_options: o2,
                                            pending_state: p2,
                                        }
                                        &&& f2 == file_path && k2 == key && p2 == pending_state
                                        &&& o2@ == pending_options@.push((key, v))
                                        &&& r.1 matches Some(Intent::PrepareRequest(f, o))
                                        &&& f == file_path && o@ == o2@
                                    },
                                    None => r.1 matches Some(Intent::ShowError(m)) && m@
                                        == "Replacement not found: "@ + key@,
                                }
                            }
                        },
                        _ => r.1 is None,
                    }
                }
            },
            AppState::Idle => match event {
                UiEvent::Accept(f) => r.1 matches Some(Intent::PrepareRequest(f2, o)) && f2 == f
                    && o@.len() == 0,
                UiEvent::EditorKey => r.1 == Some(Intent::EditRequest),
                UiEvent::QuitKey => r.1 == Some(Intent::Quit),
                UiEvent::SelectTargetKey => r.1 == Some(Intent::SelectTarget),
                _ => r.1 is None,
            },
            AppState::RunningRequest => if event is QuitKey {
                r.1 == Some(Intent::CancelRequest)
            } else {
                r.1 is None
            },
            AppState::SelectTarget { .. } => if dismisses(event) {
                r.1 == Some(Intent::ChangeState(AppState::Idle))
            } else {
                match event {
                    UiEvent::Accept(t) => r.1 == Some(Intent::AcceptSelectTarget(t)),
                    _ => r.1 is None,
                }
            },
        },
        !(state is PendingValue) ==> r.0 == state,
        (state is PendingValue && (dismisses(event) || r.1 is None || r.1 matches Some(
            Intent::ShowError(_),
        ))) ==> r.0 == state,
{
    match state {
        AppState::PendingValue { file_path, key, mut pending_options, pending_state } => {
            if matches!(event, UiEvent::Cancel) || matches!(event, UiEvent::QuitKey) {
                let st = AppState::PendingValue { file_path, key, pending_options, pending_state };
                return (st, Some(Intent::ChangeState(AppState::Idle)));
            }
            let value = match (&pending_state, event) {
                (PendingState::Prompt { .. }, UiEvent::Accept(v)) => Some(v),
                (PendingState::Select { candidates }, UiEvent::Pick(i)) => {
                    if i >= candidates.len() {
                        None
                    } else {
                        match &candidates[i].choice {
                            Some(v) => Some(v.clone()),
                            None => {
                                let m = message("Replacement not found: ", key.as_str());
                                let st = AppState::PendingValue {
                                    file_path,
                                    key,
                                    pending_options,
                                    pending_state,
                                };
                                return (st, Some(Intent::ShowError(m)));
                            },
                        }
                    }
                },
                _ => None,
            };
            match value {
                Some(v) => {
                    pending_options.push((key.clone(), v));
                    let options = copy_pairs(&pending_options);
                    let f = file_path.clone();
                    let st = AppState::PendingValue { file_path, key, pending_options, pending_state };
                    (st, Some(Intent::PrepareRequest(f, options)))
                },
                None => {
                    let st = AppState::PendingValue { file_path, key, pending_options, pending_state };
                    (st, None)
                },
            }
        },
        AppState::Idle => {
            let intent = match event {
                UiEvent::Accept(f) => Some(Intent::PrepareRequest(f, Vec::new())),
                UiEvent::EditorKey => Some(Intent::EditRequest),
                UiEvent::QuitKey => Some(Intent::Quit),
                UiEvent::SelectTargetKey => Some(Intent::SelectTarget),
                _ => None,
            };
            (AppState::Idle, intent)
        },
        AppState::RunningRequest => {
            let intent = match event {
                UiEvent::QuitKey => Some(Intent::CancelRequest),
                _ => None,
            };
            (AppState::RunningRequest, intent)
        },
        AppState::SelectTarget { targets } => {
            let intent = match event {
                UiEvent::Cancel => Some(Intent::ChangeState(AppState::Idle)),
                UiEvent::QuitKey => Some(Intent::ChangeState(AppState::Idle)),
                UiEvent::Accept(t) => Some(Intent::AcceptSelectTarget(t)),
                _ => None,
            };
            (AppState::SelectTarget { targets }, intent)
        },
    }
}

/// The state that the terminal front-end's decisions act on.
pub struct AppModel {
    pub target: String,
    pub state: AppState,
    pub error: Option<String>,
    pub should_quit: bool,
}

impl AppModel {
    /// An idle front-end on the given target.
    pub fn new(target: String) -> (r: AppModel)
        ensures
            r.target == target,
            r.state == AppState::Idle,
            r.error is None,
            !r.should_quit,
    {
        AppModel { target, state: AppState::Idle, error: None, should_quit: false }
    }

    /// How long to wait for an input event, in milliseconds: briefly while a
    /// request is in flight, so that its completion is noticed, else longer.
    pub fn poll_timeout_ms(&self) -> (r: u64)
        ensures
            r == if self.state is RunningRequest {
                50u64
            } else {
                1000u64
            },
    {
        match self.state {
            AppState::RunningRequest => 50,
            _ => 1000,
        }
    }

    /// Carries out an intent on the front-end's state, and says what outside
    /// work it asks for. Changing state clears the error shown.
    pub fn dispatch(&mut self, intent: Intent) -> (r: Action)
        ensures
            final(self).target == old(self).target,
            match intent {
                Intent::Quit => final(self).should_quit && r is Nothing && final(self).state
                    == old(self).state && final(self).error == old(self).error,
                Intent::ChangeState(s) => final(self).state == s && final(self).error is None
                    && r is Nothing && final(self).should_quit == old(self).should_quit,
                Intent::PrepareRequest(f, o) => r == Action::Prepare { file_path: f, options: o }
                    && final(self).state == old(self).state && final(self).error == old(
                    self,
                ).error && final(self).should_quit == old(self).should_quit,
                Intent::SendRequest { file_path, prepared_request } => r == Action::Send {
                    file_path,
                    prepared_request,
                } && final(self).state == old(self).state && final(self).error == old(self).error
                    && final(self).should_quit == old(self).should_quit,
                Intent::AskForValue { key, file_path, pending_options, params } => {
                    &&& r is Nothing
                    &&& final(self).error is None
                    &&& final(self).should_quit == old(self).should_quit
                    &&& final(self).state == AppState::PendingValue {
                        file_path,
                        key,
                        pending_options,
                        pending_state: match params {
                            AskForValueParams::Prompt { fallback } => PendingState::Prompt {
                                fallback,
                            },
                            AskForValueParams::Select { values } => PendingState::Select {
                                candidates: values,
                            },
                        },
                    }
                },
                Intent::SelectTarget => r is ListTargets && final(self).state == old(self).state
                    && final(self).error == old(self).error && final(self).should_quit == old(
                    self,
                ).should_quit,
                Intent::AcceptSelectTarget(t) => r == Action::SetTarget { target: t }
                    && final(self).state == old(self).state && final(self).error == old(
                    self,
                ).error && final(self).should_quit == old(self).should_quit,
                Intent::EditRequest => r is Edit && final(self).state == old(self).state
                    && final(self).error == old(self).error && final(self).should_quit == old(
                    self,
                ).should_quit,
                Intent::ShowError(m) => final(self).error == Some(m) && r is Nothing
                    && final(self).state == old(self).state && final(self).should_quit == old(
                    self,
                ).should_quit,
                Intent::CancelRequest => r is AbortRequest && final(self).state == AppState::Idle
                    && final(self).error is None && final(self).should_quit == old(
                    self,
                ).should_quit,
            },
    {
        match intent {
            Intent::Quit => {
                self.should_quit = true;
                Action::Nothing
            },
            Intent::ChangeState(s) => {
                self.error = None;
                self.state = s;
                Action::Nothing
            },
            Intent::PrepareRequest(f, o) => Action::Prepare { file_path: f, options: o },
            Intent::SendRequest { file_path, prepared_request } => Action::Send {
                file_path,
                prepared_request,
            },
            Intent::AskForValue { key, file_path, pending_options, params } => {
                let pending_state = match params {
                    AskForValueParams::Prompt { fallback } => PendingState::Prompt { fallback },
                    AskForValueParams::Select { values } => PendingState::Select {
                        candidates: values,
                    },
                };
                self.error = None;
                self.state = AppState::PendingValue { file_path, key, pending_options, pending_state };
                Action::Nothing
            },
            Intent::SelectTarget => Action::ListTargets,
            Intent::AcceptSelectTarget(t) => Action::SetTarget { target: t },
            Intent::EditRequest => Action::Edit,
            Intent::ShowError(m) => {
                self.error = Some(m);
                Action::Nothing
            },
            Intent::CancelRequest => {
                self.error = None;
                self.state = AppState::Idle;
                Action::AbortRequest
            },
        }
    }

    /// The targets to choose from were listed: show them for choice.
    pub fn show_targets(&mut self, targets: Vec<String>)
        ensures
            final(self).state == (AppState::SelectTarget { targets }),
            final(self).error is None,
            final(self).target == old(self).target,
            final(self).should_quit == old(self).should_quit,
    {
        self.error = None;
        self.state = AppState::SelectTarget { targets };
    }

    /// The active target was changed to `target`: go back to idle.
    pub fn target_set(&mut self, target: String)
        ensures
            final(self).target == target,
            final(self).state == AppState::Idle,
            final(self).error is None,
            final(self).should_quit == old(self).should_quit,
    {
        self.target = target;
        self.error = None;
        self.state = AppState::Idle;
    }

    /// A request was sent in the background: it is now in flight.
    pub fn request_started(&mut self)
        ensures
            final(self).state == AppState::RunningRequest,
            final(self).error is None,
            final(self).target == old(self).target,
            final(self).should_quit == old(self).should_quit,
    {
        self.error = None;
        self.state = AppState::RunningRequest;
    }

    /// The request in flight completed: back to idle.
    pub fn request_finished(&mut self)
        ensures
            final(self).state == AppState::Idle,
            final(self).error == old(self).error,
            final(self).target == old(self).target,
            final(self).should_quit == old(self).should_quit,
    {
        self.state = AppState::Idle;
    }
}

} // verus!
