//! Error type of the bus client library.
use vstd::prelude::*;

verus! {

/// Errors reported by the bus runtime, parameters and wire helpers.
#[derive(Debug, Clone)]
pub enum BusError {
    /// Protocol violation or misuse of the API.
    Protocol(String),
    /// The runtime was already stopped.
    Closed,
    /// A call or wait timed out.
    Timeout(String),
    /// The broker reports the named endpoint busy.
    Busy { name: String },
    /// The named call was cancelled.
    Cancelled { name: String },
    /// The action server aborted the goal.
    ActionAborted(String),
    /// The action server rejected the goal.
    ActionRejected(String),
    /// A remote handler panicked.
    HandlerPanicked { name: String },
    /// The broker knows no such goal.
    NoGoal { goal_id: String },
    /// No worker serves the named endpoint.
    NoWorker { name: String },
    /// The worker serving the named endpoint died.
    WorkerDied { name: String },
    /// `declare` of a name that is already declared.
    ParameterAlreadyDeclared { name: String },
    /// Access to a name that was never declared.
    ParameterNotDeclared { name: String },
    /// A value of the wrong type for a parameter.
    ParameterTypeMismatch { name: String, expected: String, got: String },
    /// A parameter document could not be used.
    ParameterYaml(String),
}

/// Mathematical view of [`BusError`]: every text as its characters.
pub enum ErrorView {
    Protocol(Seq<char>),
    Closed,
    Timeout(Seq<char>),
    Busy { name: Seq<char> },
    Cancelled { name: Seq<char> },
    ActionAborted(Seq<char>),
    ActionRejected(Seq<char>),
    HandlerPanicked { name: Seq<char> },
    NoGoal { goal_id: Seq<char> },
    NoWorker { name: Seq<char> },
    WorkerDied { name: Seq<char> },
    ParameterAlreadyDeclared { name: Seq<char> },
    ParameterNotDeclared { name: Seq<char> },
    ParameterTypeMismatch { name: Seq<char>, expected: Seq<char>, got: Seq<char> },
    ParameterYaml(Seq<char>),
}

impl View for BusError {
    type V = ErrorView;

    open spec fn view(&self) -> ErrorView {
        match self {
            BusError::Protocol(m) => ErrorView::Protocol(m@),
            BusError::Closed => ErrorView::Closed,
            BusError::Timeout(m) => ErrorView::Timeout(m@),
            BusError::Busy { name } => ErrorView::Busy { name: name@ },
            BusError::Cancelled { name } => ErrorView::Cancelled { name: name@ },
            BusError::ActionAborted(m) => ErrorView::ActionAborted(m@),
            BusError::ActionRejected(m) => ErrorView::ActionRejected(m@),
            BusError::HandlerPanicked { name } => ErrorView::HandlerPanicked { name: name@ },
            BusError::NoGoal { goal_id } => ErrorView::NoGoal { goal_id: goal_id@ },
            BusError::NoWorker { name } => ErrorView::NoWorker { name: name@ },
            BusError::WorkerDied { name } => ErrorView::WorkerDied { name: name@ },
            BusError::ParameterAlreadyDeclared { name } => ErrorView::ParameterAlreadyDeclared {
                name: name@,
            },
            BusError::ParameterNotDeclared { name } => ErrorView::ParameterNotDeclared {
                name: name@,
            },
            BusError::ParameterTypeMismatch { name, expected, got } =>
                ErrorView::ParameterTypeMismatch { name: name@, expected: expected@, got: got@ },
            BusError::ParameterYaml(m) => ErrorView::ParameterYaml(m@),
        }
    }
}

/// `BusError::Protocol` built from a message.
pub fn protocol(message: String) -> (e: BusError)
    ensures
        e@ == ErrorView::Protocol(message@),
{
    BusError::Protocol(message)
}

/// `BusError::Protocol` built from a literal.
pub fn protocol_str(message: &str) -> (e: BusError)
    ensures
        e@ == ErrorView::Protocol(message@),
{
    BusError::Protocol(message.to_owned())
}

} // verus!
