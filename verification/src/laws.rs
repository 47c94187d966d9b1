//! Properties of the renderer, stated and proved over the spec-level
//! construction that the executable functions are pinned to.

use vstd::prelude::*;

use crate::json::{ser, ser_list, JsonV};
use crate::model::{Serverless, Step, StepFunctions, Type};
use crate::render::{
    catch_jsonv, catch_rule_entries, choices_entries, default_account, default_region,
    document_output, end_entries, intrinsic_task, kind_text, lambda_arn, machines_jsonv,
    opt_text_entry, resolve_spec, resource_entries, section_output, step_entries, step_jsonv,
    task_entries, text_entry, texts_arr, EmitError, RenderError, ResolveError, ResolvedV,
};
use crate::model::RawResource;
use crate::text::sort_pairs;

verus! {

/// Some entry of the run has the key `k`.
pub open spec fn has_key(entries: Seq<(Seq<char>, JsonV)>, k: Seq<char>) -> bool {
    exists|i: int| 0 <= i < entries.len() && (#[trigger] entries[i]).0 == k
}

/// Some entry of the run is exactly `(k, v)`.
pub open spec fn has_entry(entries: Seq<(Seq<char>, JsonV)>, k: Seq<char>, v: JsonV) -> bool {
    exists|i: int| 0 <= i < entries.len() && #[trigger] entries[i] == (k, v)
}

proof fn lemma_has_key_concat(a: Seq<(Seq<char>, JsonV)>, b: Seq<(Seq<char>, JsonV)>, k: Seq<char>)
    ensures
        has_key(a + b, k) == (has_key(a, k) || has_key(b, k)),
{
    if has_key(a, k) {
        let i = choose|i: int| 0 <= i < a.len() && (#[trigger] a[i]).0 == k;
        assert((a + b)[i].0 == k);
    }
    if has_key(b, k) {
        let i = choose|i: int| 0 <= i < b.len() && (#[trigger] b[i]).0 == k;
        assert((a + b)[a.len() + i].0 == k);
    }
    if has_key(a + b, k) {
        let i = choose|i: int| 0 <= i < (a + b).len() && (#[trigger] (a + b)[i]).0 == k;
        if i < a.len() {
            assert(a[i].0 == k);
        } else {
            assert(b[i - a.len()].0 == k);
        }
    }
}

proof fn lemma_key_facts()
    ensures
        "End"@ != "Type"@,
        "End"@ != "Resource"@,
        "End"@ != "Parameters"@,
        "End"@ != "ResultPath"@,
        "End"@ != "Choices"@,
        "End"@ != "Default"@,
        "End"@ != "Catch"@,
        "End"@ != "Next"@,
        "Next"@ != "Type"@,
        "Next"@ != "Resource"@,
        "Next"@ != "Parameters"@,
        "Next"@ != "ResultPath"@,
        "Next"@ != "Choices"@,
        "Next"@ != "Default"@,
        "Next"@ != "Catch"@,
        "Parameters"@ != "Type"@,
        "Parameters"@ != "Resource"@,
        "Parameters"@ != "ResultPath"@,
        "Parameters"@ != "Choices"@,
        "Parameters"@ != "Default"@,
        "Parameters"@ != "Catch"@,
{
    reveal_strlit("Type");
    reveal_strlit("Resource");
    reveal_strlit("Parameters");
    reveal_strlit("ResultPath");
    reveal_strlit("Choices");
    reveal_strlit("Default");
    reveal_strlit("End");
    reveal_strlit("Catch");
    reveal_strlit("Next");
    assert("Type"@.len() == 4);
    assert("Resource"@.len() == 8);
    assert("Parameters"@.len() == 10);
    assert("ResultPath"@.len() == 10);
    assert("Choices"@.len() == 7);
    assert("Default"@.len() == 7);
    assert("End"@.len() == 3);
    assert("Catch"@.len() == 5);
    assert("Next"@.len() == 4);
    assert("Next"@[0] == 'N');
    assert("Type"@[0] == 'T');
    assert("Parameters"@[0] == 'P');
    assert("ResultPath"@[0] == 'R');
}

proof fn lemma_has_key_single(k0: Seq<char>, v: JsonV, k: Seq<char>)
    ensures
        has_key(seq![(k0, v)], k) == (k0 == k),
{
    if k0 == k {
        assert(seq![(k0, v)][0].0 == k);
    }
}

/// Which keys a state's entries can hold, by field: `End` appears exactly
/// when the state is marked terminal, `Next` exactly when a transition
/// target is set, and `Parameters` exactly when a task's resource resolves
/// through the intrinsic path.
pub proof fn lemma_step_key_provenance(s: Step)
    requires
        step_entries(s) is Ok,
    ensures
        has_key(step_entries(s).unwrap(), "End"@) <==> s.end == Some(true),
        has_key(step_entries(s).unwrap(), "Next"@) <==> s.next is Some,
        has_key(step_entries(s).unwrap(), "Parameters"@) <==> intrinsic_task(s),
{
    lemma_key_facts();
    let head = text_entry("Type"@, kind_text(s.step_type));
    let task = if s.step_type == Type::Task {
        task_entries(s).unwrap()
    } else {
        Seq::<(Seq<char>, JsonV)>::empty()
    };
    let chs = if s.step_type == Type::Choice {
        choices_entries(s.choices)
    } else {
        Seq::<(Seq<char>, JsonV)>::empty()
    };
    let dfl = opt_text_entry("Default"@, s.default);
    let end = end_entries(s.end);
    let cat = crate::render::catch_entries(s.catch);
    let nxt = opt_text_entry("Next"@, s.next);
    let es = step_entries(s).unwrap();
    assert(es == head + task + chs + dfl + end + cat + nxt);
    assert forall|k: Seq<char>| true implies has_key(es, k) == (has_key(head, k) || has_key(
        task,
        k,
    ) || has_key(chs, k) || has_key(dfl, k) || has_key(end, k) || has_key(cat, k) || has_key(
        nxt,
        k,
    )) by {
        lemma_has_key_concat(head, task, k);
        lemma_has_key_concat(head + task, chs, k);
        lemma_has_key_concat(head + task + chs, dfl, k);
        lemma_has_key_concat(head + task + chs + dfl, end, k);
        lemma_has_key_concat(head + task + chs + dfl + end, cat, k);
        lemma_has_key_concat(head + task + chs + dfl + end + cat, nxt, k);
    }
    // the keys each segment can hold
    assert forall|k: Seq<char>| has_key(head, k) implies k == "Type"@ by {
        lemma_has_key_single("Type"@, JsonV::Text(kind_text(s.step_type)), k);
    }
    assert forall|k: Seq<char>| has_key(task, k) implies (k == "Resource"@ || k == "Parameters"@
        || k == "ResultPath"@) by {
        if s.step_type == Type::Task {
            lemma_task_segment_keys(s, k);
        } else {
            assert(!has_key(task, k));
        }
    }
    assert forall|k: Seq<char>| has_key(chs, k) implies k == "Choices"@ by {
        match s.choices {
            Some(cs) => {
                if s.step_type == Type::Choice {
                    lemma_has_key_single(
                        "Choices"@,
                        JsonV::Arr(cs@.map_values(|x| crate::render::choice_jsonv(x))),
                        k,
                    );
                }
            },
            None => {},
        }
    }
    assert forall|k: Seq<char>| has_key(dfl, k) implies k == "Default"@ by {
        match s.default {
            Some(d) => {
                lemma_has_key_single("Default"@, JsonV::Text(d@), k);
            },
            None => {},
        }
    }
    assert forall|k: Seq<char>| has_key(end, k) implies k == "End"@ by {
        if s.end == Some(true) {
            lemma_has_key_single("End"@, JsonV::Bool(true), k);
        }
    }
    assert forall|k: Seq<char>| has_key(cat, k) implies k == "Catch"@ by {
        match s.catch {
            Some(cs) => {
                lemma_has_key_single("Catch"@, JsonV::Arr(cs@.map_values(|x| catch_jsonv(x))), k);
            },
            None => {},
        }
    }
    assert forall|k: Seq<char>| has_key(nxt, k) implies k == "Next"@ by {
        match s.next {
            Some(n) => {
                lemma_has_key_single("Next"@, JsonV::Text(n@), k);
            },
            None => {},
        }
    }
    // presence, where the field is set
    if s.end == Some(true) {
        assert(has_key(end, "End"@)) by {
            lemma_has_key_single("End"@, JsonV::Bool(true), "End"@);
        }
    }
    if s.next is Some {
        assert(has_key(nxt, "Next"@)) by {
            lemma_has_key_single("Next"@, JsonV::Text(s.next.unwrap()@), "Next"@);
        }
    }
    if intrinsic_task(s) {
        let r = s.resource.unwrap();
        let name = match resolve_spec(r).unwrap() {
            ResolvedV::Intrinsic(n) => n,
            ResolvedV::Literal(n) => n,
        };
        let inv = text_entry("Resource"@, "arn:aws:states:::lambda:invoke"@);
        let par = seq![
            (
                "Parameters"@,
                JsonV::Obj(
                    text_entry(
                        "FunctionName"@,
                        lambda_arn(default_region(), default_account(), name),
                    ),
                ),
            ),
        ];
        assert(task == (inv + par) + opt_text_entry("ResultPath"@, s.result_path));
        assert((inv + par)[1].0 == "Parameters"@);
        lemma_has_key_concat(inv + par, opt_text_entry("ResultPath"@, s.result_path), "Parameters"@);
        assert(has_key(task, "Parameters"@));
    }
    if !intrinsic_task(s) {
        if s.step_type == Type::Task {
            lemma_task_no_params(s);
        }
        assert(!has_key(task, "Parameters"@));
    }
}

proof fn lemma_task_no_params(s: Step)
    requires
        s.step_type == Type::Task,
        task_entries(s) is Ok,
        !intrinsic_task(s),
    ensures
        !has_key(task_entries(s).unwrap(), "Parameters"@),
{
    lemma_key_facts();
    let rp = opt_text_entry("ResultPath"@, s.result_path);
    assert(!has_key(rp, "Parameters"@)) by {
        match s.result_path {
            Some(p) => {
                lemma_has_key_single("ResultPath"@, JsonV::Text(p@), "Parameters"@);
            },
            None => {},
        }
    }
    match s.resource {
        None => {
            assert(task_entries(s).unwrap() == rp);
        },
        Some(r) => {
            let rv = resolve_spec(r).unwrap();
            let re = resource_entries(rv);
            lemma_has_key_concat(re, rp, "Parameters"@);
            match rv {
                ResolvedV::Literal(t) => {
                    lemma_has_key_single("Resource"@, JsonV::Text(t), "Parameters"@);
                },
                ResolvedV::Intrinsic(_) => {},
            }
        },
    }
}

proof fn lemma_task_segment_keys(s: Step, k: Seq<char>)
    requires
        s.step_type == Type::Task,
        task_entries(s) is Ok,
        has_key(task_entries(s).unwrap(), k),
    ensures
        k == "Resource"@ || k == "Parameters"@ || k == "ResultPath"@,
{
    let rp = opt_text_entry("ResultPath"@, s.result_path);
    assert forall|kk: Seq<char>| has_key(rp, kk) implies kk == "ResultPath"@ by {
        match s.result_path {
            Some(p) => {
                lemma_has_key_single("ResultPath"@, JsonV::Text(p@), kk);
            },
            None => {},
        }
    }
    match s.resource {
        None => {
            assert(task_entries(s).unwrap() == rp);
        },
        Some(r) => {
            let rv = resolve_spec(r).unwrap();
            let re = resource_entries(rv);
            lemma_has_key_concat(re, rp, k);
            match rv {
                ResolvedV::Literal(t) => {
                    if has_key(re, k) {
                        lemma_has_key_single("Resource"@, JsonV::Text(t), k);
                    }
                },
                ResolvedV::Intrinsic(name) => {
                    let inv = text_entry("Resource"@, "arn:aws:states:::lambda:invoke"@);
                    let par = seq![
                        (
                            "Parameters"@,
                            JsonV::Obj(
                                text_entry(
                                    "FunctionName"@,
                                    lambda_arn(default_region(), default_account(), name),
                                ),
                            ),
                        ),
                    ];
                    if has_key(re, k) {
                        lemma_has_key_concat(inv, par, k);
                        lemma_has_key_single("Resource"@, JsonV::Text("arn:aws:states:::lambda:invoke"@), k);
                        lemma_has_key_single("Parameters"@, par[0].1, k);
                    }
                },
            }
        },
    }
}

/// A terminal state never also names a transition target in its output, and
/// a state with a transition target is never also marked terminal: of the
/// keys `End` and `Next`, at most one appears.
pub proof fn lemma_terminal_vs_transition(s: Step)
    requires
        !(s.end == Some(true) && s.next is Some),
        step_jsonv(s) is Ok,
    ensures
        !(has_key(step_entries(s).unwrap(), "End"@) && has_key(
            step_entries(s).unwrap(),
            "Next"@,
        )),
{
    lemma_step_key_provenance(s);
}

/// A state with none of the optional fields renders an object holding only
/// its `Type` entry, together with the task-only entries where the state is
/// a task.
pub proof fn lemma_minimal_state(s: Step)
    requires
        s.end is None,
        s.next is None,
        s.catch is None,
        s.choices is None,
        s.default is None,
        step_jsonv(s) is Ok,
    ensures
        s.step_type != Type::Task ==> step_jsonv(s) == Ok::<JsonV, RenderError>(
            JsonV::Obj(text_entry("Type"@, kind_text(s.step_type))),
        ),
        s.step_type == Type::Task ==> step_jsonv(s) == Ok::<JsonV, RenderError>(
            JsonV::Obj(text_entry("Type"@, kind_text(s.step_type)) + task_entries(s).unwrap()),
        ),
{
    let head = text_entry("Type"@, kind_text(s.step_type));
    if s.step_type != Type::Task {
        assert(step_entries(s).unwrap() =~= head);
    } else {
        assert(step_entries(s).unwrap() =~= head + task_entries(s).unwrap());
    }
}

/// A task whose resource is an intrinsic reference renders the fixed invoke
/// identifier under `Resource`, and under `Parameters` a `FunctionName`
/// carrying the templated identifier built from the referenced name.
pub proof fn lemma_intrinsic_resolution(s: Step, r: RawResource, name: Seq<char>)
    requires
        s.step_type == Type::Task,
        s.resource == Some(r),
        resolve_spec(r) == Ok::<ResolvedV, ResolveError>(ResolvedV::Intrinsic(name)),
    ensures
        step_jsonv(s) is Ok,
        step_entries(s).unwrap()[1] == (
            "Resource"@,
            JsonV::Text("arn:aws:states:::lambda:invoke"@),
        ),
        step_entries(s).unwrap()[2] == (
            "Parameters"@,
            JsonV::Obj(
                text_entry("FunctionName"@, lambda_arn(default_region(), default_account(), name)),
            ),
        ),
{
}

/// A task whose resource is a literal string renders exactly that string
/// under `Resource`, and emits no `Parameters` block.
pub proof fn lemma_literal_resolution(s: Step, lit: String)
    requires
        s.step_type == Type::Task,
        s.resource == Some(RawResource::Text(lit)),
    ensures
        step_jsonv(s) is Ok,
        step_entries(s).unwrap()[1] == ("Resource"@, JsonV::Text(lit@)),
        !has_key(step_entries(s).unwrap(), "Parameters"@),
{
    lemma_step_key_provenance(s);
}

/// A state's catch rules render under `Catch` in input order, each as the
/// object of its rule, whose first entry holds the rule's error names, as
/// many as the rule has.
pub proof fn lemma_catch_rendering(s: Step, cs: Vec<crate::model::Catch>)
    requires
        s.catch == Some(cs),
        step_jsonv(s) is Ok,
    ensures
        has_entry(
            step_entries(s).unwrap(),
            "Catch"@,
            JsonV::Arr(cs@.map_values(|x: crate::model::Catch| catch_jsonv(x))),
        ),
        forall|i: int| 0 <= i < cs@.len() ==> cs@.map_values(
            |x: crate::model::Catch| catch_jsonv(x),
        )[i] == JsonV::Obj(catch_rule_entries(#[trigger] cs@[i])),
        forall|i: int| 0 <= i < cs@.len() ==> catch_rule_entries(#[trigger] cs@[i])[0] == (
            "ErrorEquals"@,
            texts_arr(cs@[i].error_equals@),
        ),
{
    let head = text_entry("Type"@, kind_text(s.step_type));
    let task = if s.step_type == Type::Task {
        task_entries(s).unwrap()
    } else {
        Seq::<(Seq<char>, JsonV)>::empty()
    };
    let chs = if s.step_type == Type::Choice {
        choices_entries(s.choices)
    } else {
        Seq::<(Seq<char>, JsonV)>::empty()
    };
    let dfl = opt_text_entry("Default"@, s.default);
    let end = end_entries(s.end);
    let es = step_entries(s).unwrap();
    let pre = head + task + chs + dfl + end;
    let rules = JsonV::Arr(cs@.map_values(|x: crate::model::Catch| catch_jsonv(x)));
    assert(es == pre + seq![("Catch"@, rules)] + opt_text_entry("Next"@, s.next));
    assert(es[pre.len() as int] == ("Catch"@, rules));
}

/// The output of a section that renders successfully is one JSON array
/// literal: an opening bracket, the machines' objects joined by single
/// commas, and a closing bracket — one element per state machine, each
/// element the rendered definition of its machine, in sorted name order.
pub proof fn lemma_output_shape(sf: StepFunctions)
    requires
        section_output(sf) is Ok,
    ensures
        ({
            let sorted = sort_pairs(sf.state_machines@);
            let vs = machines_jsonv(sorted).unwrap();
            &&& section_output(sf) == Ok::<Seq<char>, RenderError>("["@ + ser_list(vs) + "]"@)
            &&& vs.len() == sf.state_machines@.len()
            &&& forall|i: int|
                0 <= i < vs.len() ==> crate::render::definition_jsonv(
                    (#[trigger] sorted[i]).1.definition,
                ) == Ok::<JsonV, RenderError>(vs[i])
        }),
{
    let sorted = sort_pairs(sf.state_machines@);
    let vs = machines_jsonv(sorted).unwrap();
    assert(ser(JsonV::Arr(vs)) == "["@ + ser_list(vs) + "]"@);
    lemma_machines_jsonv_elems(sorted);
    crate::text::lemma_sort_pairs_len(sf.state_machines@);
}

proof fn lemma_machines_jsonv_elems(s: Seq<(String, crate::model::StateMachines)>)
    requires
        machines_jsonv(s) is Ok,
    ensures
        machines_jsonv(s).unwrap().len() == s.len(),
        forall|i: int|
            0 <= i < s.len() ==> crate::render::definition_jsonv(
                (#[trigger] s[i]).1.definition,
            ) == Ok::<JsonV, RenderError>(machines_jsonv(s).unwrap()[i]),
    decreases s.len(),
{
    if s.len() == 0 {
    } else {
        lemma_machines_jsonv_elems(s.drop_first());
        let vs = machines_jsonv(s).unwrap();
        let rest = machines_jsonv(s.drop_first()).unwrap();
        assert forall|i: int| 0 <= i < s.len() implies crate::render::definition_jsonv(
            (#[trigger] s[i]).1.definition,
        ) == Ok::<JsonV, RenderError>(vs[i]) by {
            if i > 0 {
                assert(s.drop_first()[i - 1] == s[i]);
                assert(vs[i] == rest[i - 1]);
            }
        }
    }
}

/// An array of three elements renders with a comma after the first and the
/// second element and none after the third.
pub proof fn lemma_three_element_array(elems: Seq<JsonV>)
    requires
        elems.len() == 3,
    ensures
        ser(JsonV::Arr(elems)) == "["@ + ser(elems[0]) + ","@ + ser(elems[1]) + ","@ + ser(
            elems[2],
        ) + "]"@,
{
    let t = elems.drop_first();
    let u = t.drop_first();
    assert(t[0] == elems[1]);
    assert(u[0] == elems[2]);
    assert(ser_list(u) == ser(elems[2]));
    assert(ser_list(t) == ser(elems[1]) + ","@ + ser(elems[2]));
    assert(ser_list(elems) == ser(elems[0]) + ","@ + (ser(elems[1]) + ","@ + ser(elems[2])));
    assert("["@ + (ser(elems[0]) + ","@ + (ser(elems[1]) + ","@ + ser(elems[2]))) + "]"@ =~= "["@
        + ser(elems[0]) + ","@ + ser(elems[1]) + ","@ + ser(elems[2]) + "]"@);
}

/// A choice state with three rules renders its `Choices` array with a comma
/// after the first and the second rule object and none after the third,
/// whatever predicate fields the rules populate.
pub proof fn lemma_choice_array_punctuation(cs: Vec<crate::model::Choice>)
    requires
        cs@.len() == 3,
    ensures
        ser(JsonV::Arr(cs@.map_values(|x: crate::model::Choice| crate::render::choice_jsonv(x))))
            == "["@ + ser(crate::render::choice_jsonv(cs@[0])) + ","@ + ser(
            crate::render::choice_jsonv(cs@[1]),
        ) + ","@ + ser(crate::render::choice_jsonv(cs@[2])) + "]"@,
{
    let elems = cs@.map_values(|x: crate::model::Choice| crate::render::choice_jsonv(x));
    lemma_three_element_array(elems);
}

/// Rendering is a function of the document value alone: equal documents
/// yield equal output, byte for byte.
pub proof fn lemma_render_deterministic(a: Serverless, b: Serverless)
    requires
        a == b,
    ensures
        document_output(a) == document_output(b),
{
}

/// A document without a workflow section fails with exactly the
/// missing-section diagnostic, and no document with a workflow section does.
pub proof fn lemma_missing_section(d: Serverless)
    ensures
        d.step_functions is None <==> document_output(d) == Err::<Seq<char>, EmitError>(
            EmitError::NoWorkflowSection,
        ),
{
}

} // verus!
