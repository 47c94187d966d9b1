//! Resolution of resource references and rendering of state machines into
//! canonical ASL JSON text.
//!
//! Every rendering function is pinned to a spec-level construction of the
//! same JSON value, so the emitted text is a function of the document alone.

use vstd::prelude::*;

use crate::json::{
    ser, view_arr, view_json, view_obj, Json, JsonV,
};
use crate::model::{
    Catch, Choice, RawResource, Serverless, StateMachineDefinition, StateMachines, Step,
    StepFunctions, Type,
};
use crate::text::{sort_by_key, sort_pairs};

verus! {

/// Failure of resource-reference resolution: the value was neither a literal
/// string nor a recognized intrinsic shape.
#[derive(Clone, Copy, PartialEq, Eq, Structural, Debug)]
pub enum ResolveError {
    MalformedResourceReference,
}

/// Failure of rendering one state machine; its only cause is a resource
/// reference that could not be resolved.
#[derive(Clone, Copy, PartialEq, Eq, Structural, Debug)]
pub enum RenderError {
    UnresolvableResource,
}

/// Failure of rendering a whole document.
#[derive(Clone, Copy, PartialEq, Eq, Structural, Debug)]
pub enum EmitError {
    /// The document holds no workflow section at all.
    NoWorkflowSection,
    /// Some state's resource reference could not be resolved.
    UnresolvableResource,
}

impl EmitError {
    /// The diagnostic line for this failure.
    pub fn message(&self) -> (r: String)
        ensures
            *self == EmitError::NoWorkflowSection ==> r@
                == "document contains no workflow section"@,
            *self == EmitError::UnresolvableResource ==> r@
                == "malformed resource reference"@,
    {
        match self {
            EmitError::NoWorkflowSection => "document contains no workflow section".to_owned(),
            EmitError::UnresolvableResource => "malformed resource reference".to_owned(),
        }
    }
}

/// A resolved resource reference: a literal identifier, or the logical name
/// of a compute function taken from an intrinsic reference.
pub enum Resolved {
    Literal(String),
    Intrinsic(String),
}

/// The mathematical shape of a resolved reference.
pub enum ResolvedV {
    Literal(Seq<char>),
    Intrinsic(Seq<char>),
}

/// The mathematical value of a `Resolved`.
pub open spec fn view_resolved(r: Resolved) -> ResolvedV {
    match r {
        Resolved::Literal(s) => ResolvedV::Literal(s@),
        Resolved::Intrinsic(s) => ResolvedV::Intrinsic(s@),
    }
}

/// The label of each state kind, as it appears under the `Type` key.
pub open spec fn kind_text(t: Type) -> Seq<char> {
    match t {
        Type::Task => "Task"@,
        Type::Pass => "Pass"@,
        Type::Choice => "Choice"@,
        Type::Fail => "Fail"@,
        Type::Succeed => "Succeed"@,
        Type::Wait => "Wait"@,
        Type::MapStep => "Map"@,
        Type::Parallel => "Parallel"@,
    }
}

impl Type {
    /// The kind's label, one of the eight ASL state type names.
    pub fn label(&self) -> (r: &'static str)
        ensures
            r@ == kind_text(*self),
    {
        match self {
            Type::Task => "Task",
            Type::Pass => "Pass",
            Type::Choice => "Choice",
            Type::Fail => "Fail",
            Type::Succeed => "Succeed",
            Type::Wait => "Wait",
            Type::MapStep => "Map",
            Type::Parallel => "Parallel",
        }
    }
}

/// The first mapping entry under the intrinsic key, if any.
pub open spec fn find_intrinsic(s: Seq<(String, Vec<String>)>) -> Option<Vec<String>>
    decreases s.len(),
{
    if s.len() == 0 {
        None
    } else if s[0].0@ == "attribute-of"@ {
        Some(s[0].1)
    } else {
        find_intrinsic(s.drop_first())
    }
}

/// What resolution yields for each input shape: a literal string is kept, an
/// intrinsic mapping yields the first name under the intrinsic key, and any
/// other shape is malformed.
pub open spec fn resolve_spec(r: RawResource) -> Result<ResolvedV, ResolveError> {
    match r {
        RawResource::Text(s) => Ok(ResolvedV::Literal(s@)),
        RawResource::Pairs(entries) => match find_intrinsic(entries@) {
            Some(names) => if names@.len() > 0 {
                Ok(ResolvedV::Intrinsic(names@[0]@))
            } else {
                Err(ResolveError::MalformedResourceReference)
            },
            None => Err(ResolveError::MalformedResourceReference),
        },
        RawResource::Opaque => Err(ResolveError::MalformedResourceReference),
    }
}

/// The mathematical value of a resolution result.
pub open spec fn resolved_result_view(r: Result<Resolved, ResolveError>) -> Result<
    ResolvedV,
    ResolveError,
> {
    match r {
        Ok(v) => Ok(view_resolved(v)),
        Err(e) => Err(e),
    }
}

fn find_intrinsic_entry<'a>(entries: &'a Vec<(String, Vec<String>)>) -> (r: Option<
    &'a Vec<String>,
>)
    ensures
        match r {
            Some(v) => find_intrinsic(entries@) == Some(*v),
            None => find_intrinsic(entries@) is None,
        },
{
    let key: String = "attribute-of".to_owned();
    let mut i: usize = 0;
    proof {
        assert(entries@.skip(0) =~= entries@);
    }
    while i < entries.len()
        invariant
            i <= entries@.len(),
            key@ == "attribute-of"@,
            find_intrinsic(entries@) == find_intrinsic(entries@.skip(i as int)),
        decreases entries@.len() - i,
    {
        proof {
            assert(entries@.skip(i as int)[0] == entries@[i as int]);
            assert(entries@.skip(i as int).drop_first() =~= entries@.skip(i + 1));
        }
        if entries[i].0 == key {
            return Some(&entries[i].1);
        }
        i = i + 1;
    }
    None
}

/// Resolves a resource reference, as `resolve_spec` describes.
pub fn resolve_resource(r: &RawResource) -> (res: Result<Resolved, ResolveError>)
    ensures
        resolved_result_view(res) == resolve_spec(*r),
{
    match r {
        RawResource::Text(s) => Ok(Resolved::Literal(s.clone())),
        RawResource::Pairs(entries) => match find_intrinsic_entry(entries) {
            None => Err(ResolveError::MalformedResourceReference),
            Some(names) => if names.len() > 0 {
                Ok(Resolved::Intrinsic(names[0].clone()))
            } else {
                Err(ResolveError::MalformedResourceReference)
            },
        },
        RawResource::Opaque => Err(ResolveError::MalformedResourceReference),
    }
}

/// The fixed identifier template for a compute function: region and account
/// between the service prefix, then the function's name.
pub open spec fn lambda_arn(region: Seq<char>, account: Seq<char>, name: Seq<char>) -> Seq<
    char,
> {
    "arn:aws:lambda:"@ + region + ":"@ + account + ":function:"@ + name
}

/// The region used when none is configured.
pub open spec fn default_region() -> Seq<char> {
    "eu-central-1"@
}

/// The account id used when none is configured.
pub open spec fn default_account() -> Seq<char> {
    "00000000000"@
}

/// Builds the identifier of a compute function from the template.
pub fn lambda_function_arn(region: &str, account: &str, name: &str) -> (r: String)
    ensures
        r@ == lambda_arn(region@, account@, name@),
{
    let mut out: String = "arn:aws:lambda:".to_owned();
    out.append(region);
    out.append(":");
    out.append(account);
    out.append(":function:");
    out.append(name);
    proof {
        assert(out@ =~= lambda_arn(region@, account@, name@));
    }
    out
}

/// One text-valued object entry.
pub open spec fn text_entry(k: Seq<char>, v: Seq<char>) -> Seq<(Seq<char>, JsonV)> {
    seq![(k, JsonV::Text(v))]
}

/// A text-valued entry when the field is set, nothing when it is absent.
pub open spec fn opt_text_entry(k: Seq<char>, v: Option<String>) -> Seq<(Seq<char>, JsonV)> {
    match v {
        Some(s) => seq![(k, JsonV::Text(s@))],
        None => Seq::empty(),
    }
}

/// The `End` entry: present exactly when the field is set to true.
pub open spec fn end_entries(e: Option<bool>) -> Seq<(Seq<char>, JsonV)> {
    if e == Some(true) {
        seq![("End"@, JsonV::Bool(true))]
    } else {
        Seq::empty()
    }
}

/// The object entries of one choice rule, in order: the variable, the
/// predicates that are set, and the transition target if set.
pub open spec fn choice_entries(c: Choice) -> Seq<(Seq<char>, JsonV)> {
    text_entry("Variable"@, c.variable@) + (match c.is_present {
        Some(b) => seq![("IsPresent"@, JsonV::Bool(b))],
        None => Seq::empty(),
    }) + (match c.bool_equals {
        Some(b) => seq![("BooleanEquals"@, JsonV::Bool(b))],
        None => Seq::empty(),
    }) + opt_text_entry("Next"@, c.next)
}

/// The JSON object of one choice rule.
pub open spec fn choice_jsonv(c: Choice) -> JsonV {
    JsonV::Obj(choice_entries(c))
}

/// An array of text values.
pub open spec fn texts_arr(s: Seq<String>) -> JsonV {
    JsonV::Arr(s.map_values(|t: String| JsonV::Text(t@)))
}

/// The object entries of one catch rule: the matched error names, the result
/// path, and the transition target, all mandatory.
pub open spec fn catch_rule_entries(c: Catch) -> Seq<(Seq<char>, JsonV)> {
    seq![("ErrorEquals"@, texts_arr(c.error_equals@))] + text_entry("ResultPath"@, c.result_path@)
        + text_entry("Next"@, c.next@)
}

/// The JSON object of one catch rule.
pub open spec fn catch_jsonv(c: Catch) -> JsonV {
    JsonV::Obj(catch_rule_entries(c))
}

/// The `Resource` entry of a task, and for an intrinsic reference also the
/// `Parameters` block carrying the templated function identifier.
pub open spec fn resource_entries(r: ResolvedV) -> Seq<(Seq<char>, JsonV)> {
    match r {
        ResolvedV::Literal(s) => text_entry("Resource"@, s),
        ResolvedV::Intrinsic(name) => text_entry("Resource"@, "arn:aws:states:::lambda:invoke"@)
            + seq![
            (
                "Parameters"@,
                JsonV::Obj(
                    text_entry(
                        "FunctionName"@,
                        lambda_arn(default_region(), default_account(), name),
                    ),
                ),
            ),
        ],
    }
}

/// The task-only entries of a state: the resolved resource, if any, then the
/// result path, if set. Fails when resolution fails.
pub open spec fn task_entries(s: Step) -> Result<Seq<(Seq<char>, JsonV)>, RenderError> {
    match s.resource {
        None => Ok(opt_text_entry("ResultPath"@, s.result_path)),
        Some(r) => match resolve_spec(r) {
            Ok(rv) => Ok(resource_entries(rv) + opt_text_entry("ResultPath"@, s.result_path)),
            Err(_) => Err(RenderError::UnresolvableResource),
        },
    }
}

/// The `Choices` entry of a choice state: its rules, in input order.
pub open spec fn choices_entries(c: Option<Vec<Choice>>) -> Seq<(Seq<char>, JsonV)> {
    match c {
        Some(cs) => seq![("Choices"@, JsonV::Arr(cs@.map_values(|x: Choice| choice_jsonv(x))))],
        None => Seq::empty(),
    }
}

/// The `Catch` entry of a state: its rules, in input order.
pub open spec fn catch_entries(c: Option<Vec<Catch>>) -> Seq<(Seq<char>, JsonV)> {
    match c {
        Some(cs) => seq![("Catch"@, JsonV::Arr(cs@.map_values(|x: Catch| catch_jsonv(x))))],
        None => Seq::empty(),
    }
}

/// The object entries of one state, in their required order: `Type` always;
/// `Resource`/`Parameters` and `ResultPath` only for a task; `Choices` only
/// for a choice state; then `Default`, `End` (only when true), `Catch` and
/// `Next`, each only when set.
pub open spec fn step_entries(s: Step) -> Result<Seq<(Seq<char>, JsonV)>, RenderError> {
    match (if s.step_type == Type::Task {
        task_entries(s)
    } else {
        Ok(Seq::<(Seq<char>, JsonV)>::empty())
    }) {
        Err(e) => Err(e),
        Ok(task) => Ok(
            text_entry("Type"@, kind_text(s.step_type)) + task + (if s.step_type == Type::Choice {
                choices_entries(s.choices)
            } else {
                Seq::empty()
            }) + opt_text_entry("Default"@, s.default) + end_entries(s.end) + catch_entries(s.catch)
                + opt_text_entry("Next"@, s.next),
        ),
    }
}

/// The JSON object of one state.
pub open spec fn step_jsonv(s: Step) -> Result<JsonV, RenderError> {
    match step_entries(s) {
        Ok(es) => Ok(JsonV::Obj(es)),
        Err(e) => Err(e),
    }
}

/// The `States` object entries: each state keyed by its name, in the given
/// order. Fails as soon as one state fails.
pub open spec fn states_entries(s: Seq<(String, Step)>) -> Result<
    Seq<(Seq<char>, JsonV)>,
    RenderError,
>
    decreases s.len(),
{
    if s.len() == 0 {
        Ok(Seq::empty())
    } else {
        match step_jsonv(s[0].1) {
            Err(e) => Err(e),
            Ok(j) => match states_entries(s.drop_first()) {
                Err(e) => Err(e),
                Ok(rest) => Ok(seq![(s[0].0@, j)] + rest),
            },
        }
    }
}

/// The JSON object of one state machine definition: the comment if set, the
/// start state, and the states sorted by name.
pub open spec fn definition_jsonv(d: StateMachineDefinition) -> Result<JsonV, RenderError> {
    match states_entries(sort_pairs(d.states@)) {
        Err(e) => Err(e),
        Ok(sts) => Ok(
            JsonV::Obj(
                opt_text_entry("Comment"@, d.comment) + text_entry("StartAt"@, d.start_at@)
                    + seq![("States"@, JsonV::Obj(sts))],
            ),
        ),
    }
}

/// The rendered machines of a run, in the given order, one JSON object each.
pub open spec fn machines_jsonv(s: Seq<(String, StateMachines)>) -> Result<Seq<JsonV>, RenderError>
    decreases s.len(),
{
    if s.len() == 0 {
        Ok(Seq::empty())
    } else {
        match definition_jsonv(s[0].1.definition) {
            Err(e) => Err(e),
            Ok(j) => match machines_jsonv(s.drop_first()) {
                Err(e) => Err(e),
                Ok(rest) => Ok(seq![j] + rest),
            },
        }
    }
}

/// The output text of a workflow section: a JSON array holding one rendered
/// document per state machine, sorted by machine name.
pub open spec fn section_output(sf: StepFunctions) -> Result<Seq<char>, RenderError> {
    match machines_jsonv(sort_pairs(sf.state_machines@)) {
        Err(e) => Err(e),
        Ok(vs) => Ok(ser(JsonV::Arr(vs))),
    }
}

/// The output text of a whole document: the section's output, or a failure
/// when the document has no workflow section.
pub open spec fn document_output(d: Serverless) -> Result<Seq<char>, EmitError> {
    match d.step_functions {
        None => Err(EmitError::NoWorkflowSection),
        Some(sf) => match section_output(sf) {
            Ok(t) => Ok(t),
            Err(RenderError::UnresolvableResource) => Err(EmitError::UnresolvableResource),
        },
    }
}

/// A task state whose resource is set and resolves through the intrinsic
/// path, so that its output carries a `Parameters` block.
pub open spec fn intrinsic_task(s: Step) -> bool {
    &&& s.step_type == Type::Task
    &&& match s.resource {
        Some(r) => match resolve_spec(r) {
            Ok(rv) => rv is Intrinsic,
            Err(_) => false,
        },
        None => false,
    }
}

/// The mathematical value of a built JSON tree, or the failure as it stands.
pub open spec fn json_result_view(r: Result<Json, RenderError>) -> Result<JsonV, RenderError> {
    match r {
        Ok(j) => Ok(view_json(j)),
        Err(e) => Err(e),
    }
}

fn push_text_entry(entries: &mut Vec<(String, Json)>, key: &str, val: String)
    ensures
        view_obj(final(entries)@) == view_obj(old(entries)@) + text_entry(key@, val@),
{
    let ghost before = entries@;
    let p = (key.to_owned(), Json::Text(val));
    entries.push(p);
    proof {
        crate::json::lemma_view_obj_push(before, p);
        assert(view_obj(entries@) =~= view_obj(before) + text_entry(key@, val@));
    }
}

fn push_bool_entry(entries: &mut Vec<(String, Json)>, key: &str, val: bool)
    ensures
        view_obj(final(entries)@) == view_obj(old(entries)@) + seq![(key@, JsonV::Bool(val))],
{
    let ghost before = entries@;
    let p = (key.to_owned(), Json::Bool(val));
    entries.push(p);
    proof {
        crate::json::lemma_view_obj_push(before, p);
        assert(view_obj(entries@) =~= view_obj(before) + seq![(key@, JsonV::Bool(val))]);
    }
}

fn push_json_entry(entries: &mut Vec<(String, Json)>, key: &str, val: Json)
    ensures
        view_obj(final(entries)@) == view_obj(old(entries)@) + seq![(key@, view_json(val))],
{
    let ghost before = entries@;
    let p = (key.to_owned(), val);
    entries.push(p);
    proof {
        crate::json::lemma_view_obj_push(before, p);
        assert(view_obj(entries@) =~= view_obj(before) + seq![(key@, view_json(p.1))]);
    }
}

/// Builds the JSON object of one choice rule.
pub fn choice_to_json(c: &Choice) -> (r: Json)
    ensures
        view_json(r) == choice_jsonv(*c),
{
    let mut entries: Vec<(String, Json)> = Vec::new();
    push_text_entry(&mut entries, "Variable", c.variable.clone());
    match &c.is_present {
        Some(b) => push_bool_entry(&mut entries, "IsPresent", *b),
        None => {},
    }
    match &c.bool_equals {
        Some(b) => push_bool_entry(&mut entries, "BooleanEquals", *b),
        None => {},
    }
    match &c.next {
        Some(n) => push_text_entry(&mut entries, "Next", n.clone()),
        None => {},
    }
    proof {
        assert(view_obj(entries@) =~= choice_entries(*c));
    }
    Json::Obj(entries)
}

/// Builds the JSON object of one catch rule.
pub fn catch_to_json(c: &Catch) -> (r: Json)
    ensures
        view_json(r) == catch_jsonv(*c),
{
    let mut errs: Vec<Json> = Vec::new();
    let mut i: usize = 0;
    while i < c.error_equals.len()
        invariant
            i <= c.error_equals@.len(),
            view_arr(errs@) == c.error_equals@.subrange(0, i as int).map_values(
                |t: String| JsonV::Text(t@),
            ),
        decreases c.error_equals@.len() - i,
    {
        let ghost before = errs@;
        let e = Json::Text(c.error_equals[i].clone());
        errs.push(e);
        proof {
            crate::json::lemma_view_arr_push(before, e);
            assert(view_arr(errs@) =~= c.error_equals@.subrange(0, i + 1).map_values(
                |t: String| JsonV::Text(t@),
            ));
        }
        i = i + 1;
    }
    proof {
        assert(c.error_equals@.subrange(0, c.error_equals@.len() as int) =~= c.error_equals@);
    }
    let mut entries: Vec<(String, Json)> = Vec::new();
    push_json_entry(&mut entries, "ErrorEquals", Json::Arr(errs));
    push_text_entry(&mut entries, "ResultPath", c.result_path.clone());
    push_text_entry(&mut entries, "Next", c.next.clone());
    proof {
        assert(view_obj(entries@) =~= catch_rule_entries(*c));
    }
    Json::Obj(entries)
}

/// Builds the JSON object of one state, or fails when its resource reference
/// cannot be resolved.
pub fn step_to_json(s: &Step) -> (r: Result<Json, RenderError>)
    ensures
        json_result_view(r) == step_jsonv(*s),
{
    let mut entries: Vec<(String, Json)> = Vec::new();
    push_text_entry(&mut entries, "Type", s.step_type.label().to_owned());
    let ghost head = text_entry("Type"@, kind_text(s.step_type));
    assert(view_obj(entries@) =~= head);
    if s.step_type == Type::Task {
        match &s.resource {
            None => {},
            Some(raw) => match resolve_resource(raw) {
                Err(_) => {
                    return Err(RenderError::UnresolvableResource);
                },
                Ok(Resolved::Literal(t)) => {
                    push_text_entry(&mut entries, "Resource", t);
                },
                Ok(Resolved::Intrinsic(name)) => {
                    push_text_entry(
                        &mut entries,
                        "Resource",
                        "arn:aws:states:::lambda:invoke".to_owned(),
                    );
                    let mut params: Vec<(String, Json)> = Vec::new();
                    push_text_entry(
                        &mut params,
                        "FunctionName",
                        lambda_function_arn("eu-central-1", "00000000000", name.as_str()),
                    );
                    proof {
                        assert(view_obj(params@) =~= text_entry(
                            "FunctionName"@,
                            lambda_arn(default_region(), default_account(), name@),
                        ));
                    }
                    push_json_entry(&mut entries, "Parameters", Json::Obj(params));
                },
            },
        }
        match &s.result_path {
            None => {},
            Some(rp) => {
                push_text_entry(&mut entries, "ResultPath", rp.clone());
            },
        }
        proof {
            assert(task_entries(*s) is Ok);
            assert(view_obj(entries@) =~= head + task_entries(*s).unwrap());
        }
    }
    let ghost task = if s.step_type == Type::Task {
        task_entries(*s).unwrap()
    } else {
        Seq::<(Seq<char>, JsonV)>::empty()
    };
    assert(view_obj(entries@) =~= head + task);
    if s.step_type == Type::Choice {
        match &s.choices {
            None => {},
            Some(cs) => {
                let mut items: Vec<Json> = Vec::new();
                let mut i: usize = 0;
                while i < cs.len()
                    invariant
                        i <= cs@.len(),
                        view_arr(items@) == cs@.subrange(0, i as int).map_values(
                            |x: Choice| choice_jsonv(x),
                        ),
                    decreases cs@.len() - i,
                {
                    let ghost before = items@;
                    let j = choice_to_json(&cs[i]);
                    items.push(j);
                    proof {
                        crate::json::lemma_view_arr_push(before, j);
                        assert(view_arr(items@) =~= cs@.subrange(0, i + 1).map_values(
                            |x: Choice| choice_jsonv(x),
                        ));
                    }
                    i = i + 1;
                }
                proof {
                    assert(cs@.subrange(0, cs@.len() as int) =~= cs@);
                }
                push_json_entry(&mut entries, "Choices", Json::Arr(items));
            },
        }
    }
    let ghost chs = if s.step_type == Type::Choice {
        choices_entries(s.choices)
    } else {
        Seq::<(Seq<char>, JsonV)>::empty()
    };
    assert(view_obj(entries@) =~= head + task + chs);
    match &s.default {
        Some(d) => push_text_entry(&mut entries, "Default", d.clone()),
        None => {},
    }
    assert(view_obj(entries@) =~= head + task + chs + opt_text_entry("Default"@, s.default));
    match &s.end {
        Some(e) => if *e {
            push_bool_entry(&mut entries, "End", true);
        },
        None => {},
    }
    assert(view_obj(entries@) =~= head + task + chs + opt_text_entry("Default"@, s.default)
        + end_entries(s.end));
    match &s.catch {
        None => {},
        Some(cs) => {
            let mut items: Vec<Json> = Vec::new();
            let mut i: usize = 0;
            while i < cs.len()
                invariant
                    i <= cs@.len(),
                    view_arr(items@) == cs@.subrange(0, i as int).map_values(
                        |x: Catch| catch_jsonv(x),
                    ),
                decreases cs@.len() - i,
            {
                let ghost before = items@;
                let j = catch_to_json(&cs[i]);
                items.push(j);
                proof {
                    crate::json::lemma_view_arr_push(before, j);
                    assert(view_arr(items@) =~= cs@.subrange(0, i + 1).map_values(
                        |x: Catch| catch_jsonv(x),
                    ));
                }
                i = i + 1;
            }
            proof {
                assert(cs@.subrange(0, cs@.len() as int) =~= cs@);
            }
            push_json_entry(&mut entries, "Catch", Json::Arr(items));
        },
    }
    assert(view_obj(entries@) =~= head + task + chs + opt_text_entry("Default"@, s.default)
        + end_entries(s.end) + catch_entries(s.catch));
    match &s.next {
        Some(n) => push_text_entry(&mut entries, "Next", n.clone()),
        None => {},
    }
    proof {
        assert(view_obj(entries@) =~= head + task + chs + opt_text_entry("Default"@, s.default)
            + end_entries(s.end) + catch_entries(s.catch) + opt_text_entry("Next"@, s.next));
        assert(step_entries(*s) == Ok::<Seq<(Seq<char>, JsonV)>, RenderError>(view_obj(entries@)));
    }
    Ok(Json::Obj(entries))
}

/// Builds the `States` entries for the given states, in the given order, or
/// fails on the first state that fails.
fn states_to_json(states: Vec<(String, Step)>) -> (r: Result<Vec<(String, Json)>, RenderError>)
    ensures
        match r {
            Ok(v) => states_entries(states@) == Ok::<Seq<(Seq<char>, JsonV)>, RenderError>(
                view_obj(v@),
            ),
            Err(e) => states_entries(states@) == Err::<Seq<(Seq<char>, JsonV)>, RenderError>(e),
        },
    decreases states@.len(),
{
    let ghost whole = states@;
    let mut states = states;
    if states.len() == 0 {
        let r: Vec<(String, Json)> = Vec::new();
        return Ok(r);
    }
    let (key, st) = states.remove(0);
    match step_to_json(&st) {
        Err(e) => Err(e),
        Ok(j) => match states_to_json(states) {
            Err(e) => Err(e),
            Ok(mut rest) => {
                let ghost rest_before = rest@;
                rest.insert(0, (key, j));
                proof {
                    assert(rest@ =~= seq![(key, j)] + rest_before);
                    assert(rest@.drop_first() =~= rest_before);
                    assert(whole[0] == (key, st));
                    assert(whole.drop_first() =~= states@);
                    assert(view_obj(rest@) =~= seq![(key@, view_json(j))] + view_obj(rest_before));
                }
                Ok(rest)
            },
        },
    }
}

/// Builds the JSON object of one state machine definition, its states sorted
/// by name.
pub fn definition_to_json(d: StateMachineDefinition) -> (r: Result<Json, RenderError>)
    ensures
        json_result_view(r) == definition_jsonv(d),
{
    let StateMachineDefinition { comment, start_at, states } = d;
    let sorted = sort_by_key(states);
    match states_to_json(sorted) {
        Err(e) => Err(e),
        Ok(sts) => {
            let mut entries: Vec<(String, Json)> = Vec::new();
            match &comment {
                Some(c) => push_text_entry(&mut entries, "Comment", c.clone()),
                None => {},
            }
            push_text_entry(&mut entries, "StartAt", start_at);
            push_json_entry(&mut entries, "States", Json::Obj(sts));
            proof {
                assert(view_obj(entries@) =~= opt_text_entry("Comment"@, d.comment) + text_entry(
                    "StartAt"@,
                    d.start_at@,
                ) + seq![("States"@, JsonV::Obj(view_obj(sts@)))]);
            }
            Ok(Json::Obj(entries))
        },
    }
}

fn machines_to_json(ms: Vec<(String, StateMachines)>) -> (r: Result<Vec<Json>, RenderError>)
    ensures
        match r {
            Ok(v) => machines_jsonv(ms@) == Ok::<Seq<JsonV>, RenderError>(view_arr(v@)),
            Err(e) => machines_jsonv(ms@) == Err::<Seq<JsonV>, RenderError>(e),
        },
    decreases ms@.len(),
{
    let ghost whole = ms@;
    let mut ms = ms;
    if ms.len() == 0 {
        let r: Vec<Json> = Vec::new();
        return Ok(r);
    }
    let (name, m) = ms.remove(0);
    let StateMachines { name: _display, definition } = m;
    match definition_to_json(definition) {
        Err(e) => Err(e),
        Ok(j) => match machines_to_json(ms) {
            Err(e) => Err(e),
            Ok(mut rest) => {
                let ghost rest_before = rest@;
                rest.insert(0, j);
                proof {
                    assert(rest@ =~= seq![j] + rest_before);
                    assert(rest@.drop_first() =~= rest_before);
                    assert(whole[0] == (name, m));
                    assert(whole.drop_first() =~= ms@);
                    assert(view_arr(rest@) =~= seq![view_json(j)] + view_arr(rest_before));
                }
                Ok(rest)
            },
        },
    }
}

/// Renders a workflow section: every state machine it holds, sorted by name,
/// as one JSON array, or the first machine's failure.
pub fn render_section(sf: StepFunctions) -> (r: Result<String, RenderError>)
    ensures
        match r {
            Ok(t) => section_output(sf) == Ok::<Seq<char>, RenderError>(t@),
            Err(e) => section_output(sf) == Err::<Seq<char>, RenderError>(e),
        },
{
    let StepFunctions { validate: _v, state_machines } = sf;
    let sorted = sort_by_key(state_machines);
    match machines_to_json(sorted) {
        Err(e) => Err(e),
        Ok(items) => {
            let arr = Json::Arr(items);
            Ok(crate::json::json_to_text(&arr))
        },
    }
}

/// Renders a whole document, as `document_output` describes: its workflow
/// section's output, or a failure when the section is absent or a resource
/// reference is malformed.
pub fn render_document(doc: Serverless) -> (r: Result<String, EmitError>)
    ensures
        match r {
            Ok(t) => document_output(doc) == Ok::<Seq<char>, EmitError>(t@),
            Err(e) => document_output(doc) == Err::<Seq<char>, EmitError>(e),
        },
{
    match doc.step_functions {
        None => Err(EmitError::NoWorkflowSection),
        Some(sf) => match render_section(sf) {
            Ok(t) => Ok(t),
            Err(RenderError::UnresolvableResource) => Err(EmitError::UnresolvableResource),
        },
    }
}

} // verus!
