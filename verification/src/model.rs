//! The document model: the subset of a deployment-framework configuration
//! that describes workflow state machines.
//!
//! The whole graph is built once by the caller from decoded input, read by the
//! renderer, and never mutated. Mappings are plain key/value runs; the
//! renderer sorts them by key before emitting, so the order they were built in
//! does not matter.

use vstd::prelude::*;

verus! {

/// The command surface of the tool: one subcommand.
pub struct Adapter {
    pub command: Commands,
}

/// The subcommands the tool accepts.
pub enum Commands {
    /// Read the configuration file at `path` and emit its state machines.
    Parse { path: String },
}

/// A named compute function of the configuration.
pub struct LambdaFunction {
    pub handler: String,
    pub timeout: Option<i8>,
    pub memory_size: Option<i16>,
}

/// The root of a decoded configuration document.
pub struct Serverless {
    /// The workflow section; absent when the file defines no workflows.
    pub step_functions: Option<StepFunctions>,
    pub functions: Option<Vec<(String, LambdaFunction)>>,
}

/// The workflow section: a validation flag (unused by rendering) and the
/// state machines, keyed by logical name.
pub struct StepFunctions {
    pub validate: bool,
    pub state_machines: Vec<(String, StateMachines)>,
}

/// A state machine with its display name.
pub struct StateMachines {
    pub name: String,
    pub definition: StateMachineDefinition,
}

/// A state machine definition: an optional comment, the start state's name,
/// and the states keyed by name.
pub struct StateMachineDefinition {
    pub comment: Option<String>,
    pub start_at: String,
    pub states: Vec<(String, Step)>,
}

/// The closed set of state kinds.
#[derive(Clone, Copy, PartialEq, Eq, Structural, Debug)]
pub enum Type {
    Task,
    Pass,
    Choice,
    Fail,
    Succeed,
    Wait,
    /// The map state kind; its rendered label is `Map`.
    MapStep,
    Parallel,
}

/// A state's resource field as it stands in the input: a literal identifier,
/// a mapping of intrinsic keys to runs of names, or some other shape that the
/// resolver will reject.
pub enum RawResource {
    /// A literal resource identifier string.
    Text(String),
    /// A key/value mapping, each value a run of logical names.
    Pairs(Vec<(String, Vec<String>)>),
    /// Any other input shape.
    Opaque,
}

/// One state of a machine. Which optional fields are meaningful depends on
/// the kind; the renderer omits any field that is absent.
pub struct Step {
    pub step_type: Type,
    pub end: Option<bool>,
    pub next: Option<String>,
    pub resource: Option<RawResource>,
    pub result_path: Option<String>,
    pub choices: Option<Vec<Choice>>,
    pub catch: Option<Vec<Catch>>,
    pub default: Option<String>,
}

/// An error-catch rule: the error names it matches (expected non-empty), a
/// result path, and the state to go to.
pub struct Catch {
    pub error_equals: Vec<String>,
    pub next: String,
    pub result_path: String,
}

/// One branch rule of a Choice state: a variable, at most one predicate of
/// each kind, and the state to go to.
pub struct Choice {
    pub variable: String,
    pub is_present: Option<bool>,
    pub bool_equals: Option<bool>,
    pub next: Option<String>,
}

} // verus!
