use rust_agent::mcp::{McpClient, McpTool, SimpleMcpClient, ToolError, ToolHandler};

#[derive(Clone)]
enum TestHandler {
    Fixed(String),
    Fails(String),
    EchoParams,
}

impl ToolHandler for TestHandler {
    fn call(&self, params: &str) -> Result<String, String> {
        match self {
            TestHandler::Fixed(s) => Ok(s.clone()),
            TestHandler::Fails(m) => Err(m.clone()),
            TestHandler::EchoParams => Ok(params.to_string()),
        }
    }
}

fn fresh() -> SimpleMcpClient<TestHandler> {
    SimpleMcpClient::new("http://localhost:8000/mcp".to_string())
}

#[test]
fn registering_twice_keeps_only_the_latest_handler() {
    let mut client = fresh();
    client.register_tool_handler("get_weather".to_string(), TestHandler::Fixed("one".to_string()));
    client.register_tool_handler("get_weather".to_string(), TestHandler::Fixed("two".to_string()));
    assert_eq!(client.call_tool("get_weather", "{}"), Ok("two".to_string()));
}

#[test]
fn unknown_tool_yields_the_typed_error() {
    let client = fresh();
    match client.call_tool("nonexistent_tool", "{}") {
        Err(ToolError::UnknownTool(name)) => {
            assert_eq!(name, "nonexistent_tool");
            assert_eq!(
                ToolError::UnknownTool(name).message(),
                "Unknown tool: nonexistent_tool"
            );
        },
        other => panic!("expected UnknownTool, got {:?}", other),
    }
}

#[test]
fn builtin_weather_uses_the_default_city() {
    let client = fresh();
    let out = client.call_tool("get_weather", "{}").expect("builtin weather");
    assert_eq!(
        out,
        "{\"city\":\"Beijing\",\"temperature\":\"25\u{00b0}C\",\"weather\":\"cloudy\",\"humidity\":\"60%\"}"
    );
}

#[test]
fn builtin_weather_reads_the_city_parameter() {
    let client = fresh();
    let out = client
        .call_tool("get_weather", "{\"city\": \"Paris\"}")
        .expect("builtin weather");
    assert!(out.starts_with("{\"city\":\"Paris\""));
}

#[test]
fn builtin_weather_falls_back_when_city_is_not_a_string() {
    let client = fresh();
    let out = client.call_tool("get_weather", "{\"city\": 3}").expect("builtin weather");
    assert!(out.starts_with("{\"city\":\"Beijing\""));
}

#[test]
fn builtin_weather_escapes_the_city() {
    let client = fresh();
    let out = client
        .call_tool("get_weather", "{\"city\": \"a\\\"b\"}")
        .expect("builtin weather");
    assert!(out.starts_with("{\"city\":\"a\\\"b\""));
}

#[test]
fn handler_failure_becomes_a_handler_error() {
    let mut client = fresh();
    client.register_tool_handler("t".to_string(), TestHandler::Fails("boom".to_string()));
    match client.call_tool("t", "{}") {
        Err(ToolError::Handler(m)) => assert_eq!(m, "boom"),
        _ => panic!("expected Handler error"),
    }
}

#[test]
fn a_registered_handler_shadows_the_builtin() {
    let mut client = fresh();
    client
        .register_tool_handler("get_weather".to_string(), TestHandler::Fixed("custom".to_string()));
    assert_eq!(client.call_tool("get_weather", "{}"), Ok("custom".to_string()));
}

#[test]
fn handlers_receive_the_raw_parameters() {
    let mut client = fresh();
    client.register_tool_handler("echo".to_string(), TestHandler::EchoParams);
    assert_eq!(
        client.call_tool("echo", "{\"a\": [1]}"),
        Ok("{\"a\": [1]}".to_string())
    );
}

#[test]
fn the_catalog_is_returned_in_insertion_order() {
    let mut client = fresh();
    client.add_tool(McpTool { name: "b".into(), description: "B".into() });
    client.add_tools(vec![
        McpTool { name: "a".into(), description: "A".into() },
        McpTool { name: "b".into(), description: "B again".into() },
    ]);
    let tools = client.get_tools().expect("catalog");
    let names: Vec<String> = tools.iter().map(|t| t.name.clone()).collect();
    assert_eq!(names, vec!["b", "a", "b"]);
    assert_eq!(tools[2].description, "B again");
}

#[test]
fn clearing_the_catalog_keeps_handlers() {
    let mut client = fresh();
    client.add_tool(McpTool { name: "t".into(), description: "T".into() });
    client.register_tool_handler("t".to_string(), TestHandler::Fixed("kept".to_string()));
    client.clear_tools();
    assert_eq!(client.get_tools().expect("catalog").len(), 0);
    assert_eq!(client.call_tool("t", "{}"), Ok("kept".to_string()));
}

#[test]
fn connect_records_the_endpoint_and_disconnect_succeeds() {
    let mut client = fresh();
    assert!(client.connect("http://example.invalid/mcp").is_ok());
    assert_eq!(client.url, "http://example.invalid/mcp");
    assert!(client.disconnect().is_ok());
}

#[test]
fn get_response_reports_the_call_id() {
    let client = fresh();
    let out = client.get_response("call-1").expect("response");
    assert_eq!(
        out,
        "{\"tool_call_id\":\"call-1\",\"status\":\"completed\",\"response\":{\"data\":\"Sample tool response data\"}}"
    );
}

#[test]
fn cloned_clients_are_independent_catalogs() {
    let mut client = fresh();
    client.add_tool(McpTool { name: "t".into(), description: "T".into() });
    client.register_tool_handler("t".to_string(), TestHandler::Fixed("v".to_string()));
    let mut copy = client.clone_client();
    copy.add_tool(McpTool { name: "extra".into(), description: "E".into() });
    assert_eq!(client.get_tools().expect("catalog").len(), 1);
    assert_eq!(copy.get_tools().expect("catalog").len(), 2);
    assert_eq!(copy.call_tool("t", "{}"), Ok("v".to_string()));
}

#[test]
fn the_standard_catalog_names_both_stock_tools() {
    let tools = rust_agent::mcp::standard_tools();
    assert_eq!(tools.len(), 2);
    assert_eq!(tools[0].name, "get_weather");
    assert!(tools[0].description.contains("\"city\""));
    assert_eq!(tools[1].name, "simple_calculate");
    assert!(tools[1].description.contains("\"expression\""));
}

#[test]
fn error_messages_are_readable() {
    assert_eq!(
        ToolError::Handler("backend failed".to_string()).message(),
        "backend failed"
    );
    assert_eq!(
        ToolError::InvalidParams("bad arguments".to_string()).message(),
        "bad arguments"
    );
}

#[test]
fn the_host_weather_report_defaults_to_shanghai_and_keeps_the_timestamp() {
    let params: Vec<char> = "{}".chars().collect();
    let out = rust_agent::mcp::timed_weather_report(&params, "2024-01-01T00:00:00Z");
    assert_eq!(
        out,
        "{\"city\":\"Shanghai\",\"temperature\":\"25\u{00b0}C\",\"weather\":\"Sunny\",\"humidity\":\"40%\",\"updated_at\":\"2024-01-01T00:00:00Z\"}"
    );
    let params: Vec<char> = "{\"city\": \"Paris\"}".chars().collect();
    let out = rust_agent::mcp::timed_weather_report(&params, "t");
    assert!(out.starts_with("{\"city\":\"Paris\""));
}
