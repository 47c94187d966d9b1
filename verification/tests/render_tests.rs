use asl_adapter::model::{
    Catch, Choice, RawResource, Serverless, StateMachineDefinition, StateMachines, Step,
    StepFunctions, Type,
};
use asl_adapter::render::{
    lambda_function_arn, render_document, resolve_resource, EmitError, Resolved,
};

fn bare_step(t: Type) -> Step {
    Step {
        step_type: t,
        end: None,
        next: None,
        resource: None,
        result_path: None,
        choices: None,
        catch: None,
        default: None,
    }
}

fn machine(states: Vec<(String, Step)>, start_at: &str) -> StateMachines {
    StateMachines {
        name: "machine".to_string(),
        definition: StateMachineDefinition {
            comment: None,
            start_at: start_at.to_string(),
            states,
        },
    }
}

fn doc_of(machines: Vec<(String, StateMachines)>) -> Serverless {
    Serverless {
        step_functions: Some(StepFunctions {
            validate: true,
            state_machines: machines,
        }),
        functions: None,
    }
}

#[test]
fn minimal_state_renders_only_type() {
    let doc = doc_of(vec![(
        "m".to_string(),
        machine(vec![("A".to_string(), bare_step(Type::Pass))], "A"),
    )]);
    let out = render_document(doc).unwrap();
    assert_eq!(out, "[{\"StartAt\":\"A\",\"States\":{\"A\":{\"Type\":\"Pass\"}}}]");
}

#[test]
fn comment_is_rendered_when_set() {
    let mut m = machine(vec![("A".to_string(), bare_step(Type::Succeed))], "A");
    m.definition.comment = Some("a note".to_string());
    let doc = doc_of(vec![("m".to_string(), m)]);
    let out = render_document(doc).unwrap();
    assert_eq!(
        out,
        "[{\"Comment\":\"a note\",\"StartAt\":\"A\",\"States\":{\"A\":{\"Type\":\"Succeed\"}}}]"
    );
}

#[test]
fn round_trip_shape() {
    let doc = doc_of(vec![
        (
            "one".to_string(),
            machine(vec![("A".to_string(), bare_step(Type::Pass))], "A"),
        ),
        (
            "two".to_string(),
            machine(vec![("B".to_string(), bare_step(Type::Wait))], "B"),
        ),
    ]);
    let out = render_document(doc).unwrap();
    assert!(out.starts_with('['));
    assert!(out.ends_with(']'));
    let parsed: serde_json::Value = serde_json::from_str(&out).unwrap();
    let arr = parsed.as_array().unwrap();
    assert_eq!(arr.len(), 2);
    for elem in arr {
        assert!(elem.is_object());
    }
}

#[test]
fn rendering_is_deterministic() {
    let build = || {
        doc_of(vec![
            (
                "beta".to_string(),
                machine(vec![("B".to_string(), bare_step(Type::Fail))], "B"),
            ),
            (
                "alpha".to_string(),
                machine(vec![("A".to_string(), bare_step(Type::Pass))], "A"),
            ),
        ])
    };
    let first = render_document(build()).unwrap();
    let second = render_document(build()).unwrap();
    assert_eq!(first, second);
}

#[test]
fn machines_are_sorted_by_name() {
    let doc = doc_of(vec![
        (
            "zulu".to_string(),
            machine(vec![("Z".to_string(), bare_step(Type::Pass))], "Z"),
        ),
        (
            "alpha".to_string(),
            machine(vec![("A".to_string(), bare_step(Type::Pass))], "A"),
        ),
    ]);
    let out = render_document(doc).unwrap();
    let a = out.find("\"StartAt\":\"A\"").unwrap();
    let z = out.find("\"StartAt\":\"Z\"").unwrap();
    assert!(a < z);
}

#[test]
fn states_are_sorted_by_name() {
    let doc = doc_of(vec![(
        "m".to_string(),
        machine(
            vec![
                ("Zeta".to_string(), bare_step(Type::Pass)),
                ("Alpha".to_string(), bare_step(Type::Pass)),
            ],
            "Alpha",
        ),
    )]);
    let out = render_document(doc).unwrap();
    let a = out.find("\"Alpha\":{").unwrap();
    let z = out.find("\"Zeta\":{").unwrap();
    assert!(a < z);
}

#[test]
fn terminal_state_has_no_next_key() {
    let mut s = bare_step(Type::Task);
    s.end = Some(true);
    let doc = doc_of(vec![("m".to_string(), machine(vec![("A".to_string(), s)], "A"))]);
    let out = render_document(doc).unwrap();
    assert!(out.contains("\"End\":true"));
    assert!(!out.contains("\"Next\""));
}

#[test]
fn transition_state_has_no_end_key() {
    let mut s = bare_step(Type::Pass);
    s.next = Some("B".to_string());
    let doc = doc_of(vec![("m".to_string(), machine(vec![("A".to_string(), s)], "A"))]);
    let out = render_document(doc).unwrap();
    assert!(out.contains("\"Next\":\"B\""));
    assert!(!out.contains("\"End\""));
}

#[test]
fn end_false_is_omitted() {
    let mut s = bare_step(Type::Pass);
    s.end = Some(false);
    s.next = Some("B".to_string());
    let doc = doc_of(vec![("m".to_string(), machine(vec![("A".to_string(), s)], "A"))]);
    let out = render_document(doc).unwrap();
    assert!(!out.contains("\"End\""));
}

#[test]
fn intrinsic_resource_renders_invoke_and_parameters() {
    let mut s = bare_step(Type::Task);
    s.resource = Some(RawResource::Pairs(vec![(
        "attribute-of".to_string(),
        vec!["MyFunctionLambdaFunction".to_string()],
    )]));
    s.end = Some(true);
    let doc = doc_of(vec![("m".to_string(), machine(vec![("A".to_string(), s)], "A"))]);
    let out = render_document(doc).unwrap();
    assert!(out.contains("\"Resource\":\"arn:aws:states:::lambda:invoke\""));
    assert!(out.contains(
        "\"Parameters\":{\"FunctionName\":\"arn:aws:lambda:eu-central-1:00000000000:function:MyFunctionLambdaFunction\"}"
    ));
}

#[test]
fn literal_resource_renders_unchanged_without_parameters() {
    let mut s = bare_step(Type::Task);
    s.resource = Some(RawResource::Text("arn:aws:lambda:x:y:function:z".to_string()));
    let doc = doc_of(vec![("m".to_string(), machine(vec![("A".to_string(), s)], "A"))]);
    let out = render_document(doc).unwrap();
    assert!(out.contains("\"Resource\":\"arn:aws:lambda:x:y:function:z\""));
    assert!(!out.contains("\"Parameters\""));
}

#[test]
fn result_path_is_rendered_for_task() {
    let mut s = bare_step(Type::Task);
    s.result_path = Some("$.out".to_string());
    let doc = doc_of(vec![("m".to_string(), machine(vec![("A".to_string(), s)], "A"))]);
    let out = render_document(doc).unwrap();
    assert!(out.contains("\"ResultPath\":\"$.out\""));
}

#[test]
fn result_path_is_not_rendered_for_non_task() {
    let mut s = bare_step(Type::Pass);
    s.result_path = Some("$.out".to_string());
    let doc = doc_of(vec![("m".to_string(), machine(vec![("A".to_string(), s)], "A"))]);
    let out = render_document(doc).unwrap();
    assert!(!out.contains("\"ResultPath\""));
}

#[test]
fn choices_are_not_rendered_for_non_choice() {
    let mut s = bare_step(Type::Task);
    s.choices = Some(vec![Choice {
        variable: "$.x".to_string(),
        is_present: Some(true),
        bool_equals: None,
        next: Some("B".to_string()),
    }]);
    let doc = doc_of(vec![("m".to_string(), machine(vec![("A".to_string(), s)], "A"))]);
    let out = render_document(doc).unwrap();
    assert!(!out.contains("\"Choices\""));
}

#[test]
fn missing_section_is_a_diagnostic() {
    let doc = Serverless {
        step_functions: None,
        functions: None,
    };
    let r = render_document(doc);
    assert_eq!(r, Err(EmitError::NoWorkflowSection));
    assert_eq!(
        EmitError::NoWorkflowSection.message(),
        "document contains no workflow section"
    );
}

#[test]
fn empty_section_renders_empty_array() {
    let doc = doc_of(vec![]);
    let out = render_document(doc).unwrap();
    assert_eq!(out, "[]");
}

#[test]
fn malformed_resource_fails_rendering() {
    let mut s = bare_step(Type::Task);
    s.resource = Some(RawResource::Opaque);
    let doc = doc_of(vec![("m".to_string(), machine(vec![("A".to_string(), s)], "A"))]);
    assert_eq!(render_document(doc), Err(EmitError::UnresolvableResource));
}

#[test]
fn mapping_without_intrinsic_key_is_malformed() {
    let mut s = bare_step(Type::Task);
    s.resource = Some(RawResource::Pairs(vec![(
        "something-else".to_string(),
        vec!["Name".to_string()],
    )]));
    let doc = doc_of(vec![("m".to_string(), machine(vec![("A".to_string(), s)], "A"))]);
    assert_eq!(render_document(doc), Err(EmitError::UnresolvableResource));
}

#[test]
fn intrinsic_with_empty_name_list_is_malformed() {
    let mut s = bare_step(Type::Task);
    s.resource = Some(RawResource::Pairs(vec![("attribute-of".to_string(), vec![])]));
    let doc = doc_of(vec![("m".to_string(), machine(vec![("A".to_string(), s)], "A"))]);
    assert_eq!(render_document(doc), Err(EmitError::UnresolvableResource));
}

#[test]
fn choice_array_punctuation() {
    let rule = |v: &str| Choice {
        variable: v.to_string(),
        is_present: Some(true),
        bool_equals: None,
        next: Some("B".to_string()),
    };
    let mut s = bare_step(Type::Choice);
    s.choices = Some(vec![rule("$.a"), rule("$.b"), rule("$.c")]);
    s.default = Some("D".to_string());
    let doc = doc_of(vec![("m".to_string(), machine(vec![("A".to_string(), s)], "A"))]);
    let out = render_document(doc).unwrap();
    let expected = "\"Choices\":[\
        {\"Variable\":\"$.a\",\"IsPresent\":true,\"Next\":\"B\"},\
        {\"Variable\":\"$.b\",\"IsPresent\":true,\"Next\":\"B\"},\
        {\"Variable\":\"$.c\",\"IsPresent\":true,\"Next\":\"B\"}]";
    assert!(out.contains(expected));
    assert!(out.contains("\"Default\":\"D\""));
}

#[test]
fn choice_bool_equals_predicate_is_rendered() {
    let mut s = bare_step(Type::Choice);
    s.choices = Some(vec![Choice {
        variable: "$.flag".to_string(),
        is_present: None,
        bool_equals: Some(false),
        next: Some("B".to_string()),
    }]);
    let doc = doc_of(vec![("m".to_string(), machine(vec![("A".to_string(), s)], "A"))]);
    let out = render_document(doc).unwrap();
    assert!(out.contains(
        "\"Choices\":[{\"Variable\":\"$.flag\",\"BooleanEquals\":false,\"Next\":\"B\"}]"
    ));
}

#[test]
fn catch_rules_render_in_input_order() {
    let mut s = bare_step(Type::Task);
    s.end = Some(true);
    s.catch = Some(vec![
        Catch {
            error_equals: vec!["States.Timeout".to_string()],
            next: "H1".to_string(),
            result_path: "$.e1".to_string(),
        },
        Catch {
            error_equals: vec!["States.TaskFailed".to_string(), "States.ALL".to_string()],
            next: "H2".to_string(),
            result_path: "$.e2".to_string(),
        },
    ]);
    let doc = doc_of(vec![("m".to_string(), machine(vec![("A".to_string(), s)], "A"))]);
    let out = render_document(doc).unwrap();
    let expected = "\"Catch\":[\
        {\"ErrorEquals\":[\"States.Timeout\"],\"ResultPath\":\"$.e1\",\"Next\":\"H1\"},\
        {\"ErrorEquals\":[\"States.TaskFailed\",\"States.ALL\"],\"ResultPath\":\"$.e2\",\"Next\":\"H2\"}]";
    assert!(out.contains(expected));
}

#[test]
fn resolver_keeps_literal_strings() {
    let r = resolve_resource(&RawResource::Text("arn:x".to_string()));
    match r {
        Ok(Resolved::Literal(s)) => assert_eq!(s, "arn:x"),
        _ => panic!("expected a literal"),
    }
}

#[test]
fn resolver_takes_first_intrinsic_name() {
    let r = resolve_resource(&RawResource::Pairs(vec![(
        "attribute-of".to_string(),
        vec!["First".to_string(), "Second".to_string()],
    )]));
    match r {
        Ok(Resolved::Intrinsic(s)) => assert_eq!(s, "First"),
        _ => panic!("expected an intrinsic name"),
    }
}

#[test]
fn arn_template_is_exact() {
    assert_eq!(
        lambda_function_arn("eu-central-1", "00000000000", "Fn"),
        "arn:aws:lambda:eu-central-1:00000000000:function:Fn"
    );
}

#[test]
fn every_kind_has_its_label() {
    assert_eq!(Type::Task.label(), "Task");
    assert_eq!(Type::Pass.label(), "Pass");
    assert_eq!(Type::Choice.label(), "Choice");
    assert_eq!(Type::Fail.label(), "Fail");
    assert_eq!(Type::Succeed.label(), "Succeed");
    assert_eq!(Type::Wait.label(), "Wait");
    assert_eq!(Type::MapStep.label(), "Map");
    assert_eq!(Type::Parallel.label(), "Parallel");
}
