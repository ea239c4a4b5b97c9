use rust_agent::output::AgentOutput;
use rust_agent::parser::parse_model_output;

#[test]
fn empty_object_parses_to_finish() {
    match parse_model_output("{}") {
        Ok(AgentOutput::Finish(f)) => {
            assert_eq!(f.return_values.len(), 0);
        },
        _ => panic!("expected Finish"),
    }
}

#[test]
fn call_tool_envelope_parses_to_action() {
    match parse_model_output("{\"call_tool\":{\"name\":\"X\",\"parameters\":{\"a\":1}}}") {
        Ok(AgentOutput::Action(a)) => {
            assert_eq!(a.tool, "X");
            assert_eq!(a.tool_input, "{\"a\":1}");
            assert!(a.thought.is_none());
        },
        _ => panic!("expected Action"),
    }
}

#[test]
fn envelope_embedded_in_prose() {
    let text = "Sure, let me help: {\"call_tool\": {\"name\": \"get_weather\", \"parameters\": {\"city\": \"Paris\"}}} is what I chose.";
    match parse_model_output(text) {
        Ok(AgentOutput::Action(a)) => {
            assert_eq!(a.tool, "get_weather");
            assert_eq!(a.tool_input, "{\"city\": \"Paris\"}");
            assert_eq!(a.log, "{\"call_tool\": {\"name\": \"get_weather\", \"parameters\": {\"city\": \"Paris\"}}}");
        },
        _ => panic!("expected Action"),
    }
}

#[test]
fn whitespace_empty_object_is_finish() {
    match parse_model_output("answer follows {  } here") {
        Ok(AgentOutput::Finish(_)) => {},
        _ => panic!("expected Finish"),
    }
}

#[test]
fn prose_is_a_parse_error() {
    assert!(parse_model_output("It is sunny in Beijing today.").is_err());
}

#[test]
fn object_without_call_tool_is_not_an_envelope() {
    assert!(parse_model_output("{\"foo\": 1}").is_err());
}

#[test]
fn missing_parameters_member_is_not_an_envelope() {
    assert!(parse_model_output("{\"call_tool\": {\"name\": \"X\"}}").is_err());
}

#[test]
fn outer_object_with_extra_member_is_not_an_envelope() {
    assert!(
        parse_model_output(
            "{\"call_tool\": {\"name\": \"X\", \"parameters\": {\"a\": 1}}, \"z\": 1}"
        )
        .is_err()
    );
}

#[test]
fn a_nested_empty_object_still_counts_as_the_empty_envelope() {
    // scanning is positional: the empty parameters object inside an
    // otherwise unrecognized object is itself the direct-answer envelope
    match parse_model_output("{\"call_tool\": {\"name\": \"X\", \"parameters\": {}}, \"z\": 1}") {
        Ok(AgentOutput::Finish(_)) => {},
        _ => panic!("expected Finish from the nested empty object"),
    }
}

#[test]
fn later_object_is_recognized_after_a_non_envelope() {
    match parse_model_output("x {\"foo\": 1} and then {}") {
        Ok(AgentOutput::Finish(_)) => {},
        _ => panic!("expected Finish from the later empty object"),
    }
}

#[test]
fn inner_object_tolerates_extra_members() {
    let text = "{\"call_tool\": {\"thought\": \"hm\", \"name\": \"t\", \"parameters\": {\"k\": [1, 2]}}}";
    match parse_model_output(text) {
        Ok(AgentOutput::Action(a)) => {
            assert_eq!(a.tool, "t");
            assert_eq!(a.tool_input, "{\"k\": [1, 2]}");
        },
        _ => panic!("expected Action"),
    }
}

#[test]
fn escaped_tool_name_is_decoded() {
    match parse_model_output("{\"call_tool\":{\"name\":\"a\\\"b\",\"parameters\":{}}}") {
        Ok(AgentOutput::Action(a)) => {
            assert_eq!(a.tool, "a\"b");
        },
        _ => panic!("expected Action"),
    }
}

#[test]
fn malformed_json_is_a_parse_error() {
    assert!(parse_model_output("{\"call_tool\": {\"name\": \"X\", \"parameters\": {").is_err());
    assert!(parse_model_output("{\"call_tool\": [1]}").is_err());
}

#[test]
fn unicode_escaped_tool_name_is_decoded() {
    match parse_model_output("{\"call_tool\":{\"name\":\"\\u0058\",\"parameters\":{}}}") {
        Ok(AgentOutput::Action(a)) => {
            assert_eq!(a.tool, "X");
        },
        _ => panic!("expected Action"),
    }
}

#[test]
fn surrogate_and_truncated_unicode_escapes_are_prose() {
    // a \uXXXX escape must denote a scalar value by itself; surrogate
    // halves and truncated hex leave the text unrecognized
    assert!(
        parse_model_output("{\"call_tool\":{\"name\":\"\\uD83D\",\"parameters\":{\"a\":1}}}")
            .is_err()
    );
    assert!(
        parse_model_output("{\"call_tool\":{\"name\":\"\\u00\",\"parameters\":{\"a\":1}}}")
            .is_err()
    );
}
