use std::sync::Arc;

use rust_agent::adapter::McpToolAdapter;
use rust_agent::agent::{ChatModel, McpAgent, ModelMessage, ModelReply, Role};
use rust_agent::mcp::{McpTool, SimpleMcpClient, ToolError, ToolHandler};
use rust_agent::output::AgentOutput;

#[derive(Clone)]
enum TestHandler {
    Fixed(String),
}

impl ToolHandler for TestHandler {
    fn call(&self, _params: &str) -> Result<String, String> {
        match self {
            TestHandler::Fixed(s) => Ok(s.clone()),
        }
    }
}

enum Behavior {
    Reply(String),
    NonAssistant(String),
    Fails(String),
}

struct MockModel {
    behavior: Behavior,
    calls: usize,
    seen_messages: Vec<ModelMessage>,
    seen_temperature: u32,
    seen_max_tokens: Option<usize>,
}

impl MockModel {
    fn new(behavior: Behavior) -> Self {
        MockModel {
            behavior,
            calls: 0,
            seen_messages: Vec::new(),
            seen_temperature: 0,
            seen_max_tokens: None,
        }
    }
}

impl ChatModel for MockModel {
    fn complete(
        &mut self,
        messages: Vec<ModelMessage>,
        temperature_milli: u32,
        max_tokens: Option<usize>,
    ) -> Result<ModelReply, String> {
        self.calls += 1;
        self.seen_messages = messages;
        self.seen_temperature = temperature_milli;
        self.seen_max_tokens = max_tokens;
        match &self.behavior {
            Behavior::Reply(text) => Ok(ModelReply {
                role: Role::Assistant,
                content: text.clone(),
                usage: None,
            }),
            Behavior::NonAssistant(text) => Ok(ModelReply {
                role: Role::User,
                content: text.clone(),
                usage: None,
            }),
            Behavior::Fails(message) => Err(message.clone()),
        }
    }
}

fn fresh_client() -> SimpleMcpClient<TestHandler> {
    SimpleMcpClient::new("http://localhost:8000/mcp".to_string())
}

fn fresh_agent(client: SimpleMcpClient<TestHandler>) -> McpAgent<SimpleMcpClient<TestHandler>> {
    McpAgent::new(
        Arc::new(client),
        "chatgpt-4o".to_string(),
        "You are an AI assistant who can use tools to answer user questions.".to_string(),
    )
}

fn answer_of(out: AgentOutput) -> String {
    match out {
        AgentOutput::Finish(f) => f.value_of("answer").expect("answer key").clone(),
        AgentOutput::Action(_) => panic!("expected Finish"),
    }
}

#[test]
fn plain_text_reply_finishes_with_the_raw_text() {
    let agent = fresh_agent(fresh_client());
    let mut model = MockModel::new(Behavior::Reply("hi".to_string()));
    let out = agent.invoke(&mut model, "hello");
    match out {
        AgentOutput::Finish(f) => {
            assert_eq!(f.value_of("answer").expect("answer"), "hi");
            assert_eq!(f.value_of("model").expect("model"), "chatgpt-4o");
        },
        AgentOutput::Action(_) => panic!("expected Finish"),
    }
    assert_eq!(model.calls, 1);
}

#[test]
fn empty_input_finishes_without_a_model_call() {
    let agent = fresh_agent(fresh_client());
    let mut model = MockModel::new(Behavior::Reply("never used".to_string()));
    let out = agent.invoke(&mut model, "   \t\n ");
    assert_eq!(answer_of(out), "Please enter valid content");
    assert_eq!(model.calls, 0);
}

#[test]
fn transport_failure_becomes_a_finish_with_a_notice() {
    let agent = fresh_agent(fresh_client());
    let mut model = MockModel::new(Behavior::Fails("connection reset".to_string()));
    let out = agent.invoke(&mut model, "hello");
    let answer = answer_of(out);
    assert!(answer.starts_with("Model invocation failed:"));
    assert!(answer.contains("connection reset"));
}

#[test]
fn an_envelope_reply_becomes_that_action() {
    let agent = fresh_agent(fresh_client());
    let reply = "{\"call_tool\": {\"name\": \"get_weather\", \"parameters\": {\"city\": \"Beijing\"}}}";
    let mut model = MockModel::new(Behavior::Reply(reply.to_string()));
    match agent.invoke(&mut model, "weather in Beijing?") {
        AgentOutput::Action(a) => {
            assert_eq!(a.tool, "get_weather");
            assert_eq!(a.tool_input, "{\"city\": \"Beijing\"}");
        },
        AgentOutput::Finish(_) => panic!("expected Action"),
    }
}

#[test]
fn empty_envelope_reply_is_rewrapped_as_the_raw_text() {
    let agent = fresh_agent(fresh_client());
    let mut model = MockModel::new(Behavior::Reply("Sure thing {}".to_string()));
    assert_eq!(answer_of(agent.invoke(&mut model, "hi")), "Sure thing {}");
}

#[test]
fn unparsed_text_naming_both_markers_calls_the_default_tool() {
    let agent = fresh_agent(fresh_client());
    let mut model = MockModel::new(Behavior::Reply(
        "I would call_tool get_weather but cannot format JSON".to_string(),
    ));
    match agent.invoke(&mut model, "weather?") {
        AgentOutput::Action(a) => {
            assert_eq!(a.tool, "default_tool");
            assert_eq!(a.tool_input, "{\"default_input\": \"Default Input\"}");
            assert_eq!(a.log, "Call default tool");
            assert_eq!(
                a.thought.as_deref(),
                Some("Model output parsing failed, call default tool")
            );
        },
        AgentOutput::Finish(_) => panic!("expected the default action"),
    }
}

#[test]
fn unparsed_text_without_both_markers_is_the_answer() {
    let agent = fresh_agent(fresh_client());
    let mut model = MockModel::new(Behavior::Reply("get_weather is a nice tool".to_string()));
    assert_eq!(answer_of(agent.invoke(&mut model, "hi")), "get_weather is a nice tool");
}

#[test]
fn non_assistant_replies_are_surfaced_as_text() {
    let agent = fresh_agent(fresh_client());
    let mut model = MockModel::new(Behavior::NonAssistant("odd".to_string()));
    assert_eq!(answer_of(agent.invoke(&mut model, "hi")), "Non-AI message received,odd");
}

#[test]
fn the_prompt_is_unmodified_without_tools() {
    let agent = fresh_agent(fresh_client());
    let mut model = MockModel::new(Behavior::Reply("hi".to_string()));
    agent.invoke(&mut model, "  hello  ");
    assert_eq!(model.seen_messages.len(), 2);
    assert!(matches!(model.seen_messages[0].role, Role::System));
    assert_eq!(
        model.seen_messages[0].content,
        "You are an AI assistant who can use tools to answer user questions."
    );
    assert!(matches!(model.seen_messages[1].role, Role::User));
    assert_eq!(model.seen_messages[1].content, "hello");
    assert_eq!(model.seen_temperature, 600);
    assert_eq!(model.seen_max_tokens, None);
}

#[test]
fn the_prompt_lists_tools_and_the_envelope_instruction() {
    let mut client = fresh_client();
    client.add_tool(McpTool { name: "get_weather".into(), description: "Weather lookup".into() });
    client.add_tool(McpTool { name: "calc".into(), description: "Arithmetic".into() });
    let mut agent = fresh_agent(client);
    agent.auto_add_tools().expect("discovery");
    let mut model = MockModel::new(Behavior::Reply("hi".to_string()));
    agent.invoke(&mut model, "hello");
    let system = &model.seen_messages[0].content;
    assert!(system.starts_with("You are an AI assistant"));
    assert!(system.contains("\n\nAvailable tools:\n- get_weather: Weather lookup\n- calc: Arithmetic\n"));
    assert!(system.ends_with("else return{}"));
}

#[test]
fn builder_calls_set_the_sampling_parameters() {
    let agent = fresh_agent(fresh_client()).with_temperature(900).with_max_tokens(8 * 1024);
    let mut model = MockModel::new(Behavior::Reply("hi".to_string()));
    agent.invoke(&mut model, "hello");
    assert_eq!(model.seen_temperature, 900);
    assert_eq!(model.seen_max_tokens, Some(8192));
}

#[test]
fn auto_add_tools_wraps_each_catalog_entry_in_order() {
    let mut client = fresh_client();
    client.add_tool(McpTool { name: "a".into(), description: "A".into() });
    client.add_tool(McpTool { name: "b".into(), description: "B".into() });
    let mut agent = fresh_agent(client);
    agent.auto_add_tools().expect("discovery");
    let tools = agent.tools();
    assert_eq!(tools.len(), 2);
    assert_eq!(tools[0].name(), "a");
    assert_eq!(tools[0].description(), "A");
    assert_eq!(tools[1].name(), "b");
    assert_eq!(tools[1].description(), "B");
}

#[test]
fn later_catalog_changes_are_invisible_to_a_built_agent() {
    let mut client = fresh_client();
    client.add_tool(McpTool { name: "a".into(), description: "A".into() });
    let mut agent = fresh_agent(client);
    agent.auto_add_tools().expect("discovery");
    assert_eq!(agent.tools().len(), 1);
    // rerunning discovery appends the snapshot again
    agent.auto_add_tools().expect("discovery");
    assert_eq!(agent.tools().len(), 2);
}

#[test]
fn clone_agent_is_equivalent_but_tool_less() {
    let mut client = fresh_client();
    client.add_tool(McpTool { name: "a".into(), description: "A".into() });
    let mut agent = fresh_agent(client);
    agent.auto_add_tools().expect("discovery");
    let copy = agent.clone_agent();
    assert_eq!(copy.tools().len(), 0);
    let mut model = MockModel::new(Behavior::Reply("hi".to_string()));
    assert_eq!(answer_of(copy.invoke(&mut model, "hello")), "hi");
}

#[test]
fn execute_reports_the_missing_loop() {
    let agent = fresh_agent(fresh_client());
    let action = rust_agent::output::AgentAction {
        tool: "t".into(),
        tool_input: "{}".into(),
        log: String::new(),
        thought: None,
    };
    let err = agent.execute(&action).expect_err("not implemented");
    assert_eq!(err.message, "Tool execution functionality is not implemented yet");
}

#[test]
fn adapters_forward_to_the_owning_client() {
    let mut client = fresh_client();
    client.register_tool_handler("t".to_string(), TestHandler::Fixed("ran".to_string()));
    let shared = Arc::new(client);
    let adapter = McpToolAdapter::new(
        shared,
        McpTool { name: "t".into(), description: "T".into() },
    );
    assert_eq!(adapter.name(), "t");
    assert_eq!(adapter.description(), "T");
    assert_eq!(adapter.invoke("{\"x\": 1}"), Ok("ran".to_string()));
}

#[test]
fn adapters_reject_arguments_that_are_not_an_object() {
    let adapter = McpToolAdapter::new(
        Arc::new(fresh_client()),
        McpTool { name: "t".into(), description: "T".into() },
    );
    match adapter.invoke("not json") {
        Err(ToolError::InvalidParams(m)) => {
            assert_eq!(m, "Tool arguments are not a JSON object");
        },
        _ => panic!("expected InvalidParams"),
    }
    match adapter.invoke("[1, 2]") {
        Err(ToolError::InvalidParams(_)) => {},
        _ => panic!("expected InvalidParams"),
    }
}

#[test]
fn rederived_adapters_behave_identically() {
    let mut client = fresh_client();
    client.register_tool_handler("t".to_string(), TestHandler::Fixed("ran".to_string()));
    let adapter = McpToolAdapter::new(
        Arc::new(client),
        McpTool { name: "t".into(), description: "T".into() },
    );
    let again = McpToolAdapter::new(adapter.get_client(), adapter.get_mcp_tool());
    assert_eq!(again.name(), "t");
    assert_eq!(again.invoke("{}"), Ok("ran".to_string()));
}

#[test]
fn finish_values_hold_answer_then_model() {
    let agent = fresh_agent(fresh_client());
    let mut model = MockModel::new(Behavior::Reply("hi".to_string()));
    match agent.invoke(&mut model, "hello") {
        AgentOutput::Finish(f) => {
            assert_eq!(f.return_values.len(), 2);
            assert_eq!(f.return_values[0].0, "answer");
            assert_eq!(f.return_values[1].0, "model");
            assert!(f.value_of("absent").is_none());
        },
        AgentOutput::Action(_) => panic!("expected Finish"),
    }
}

#[test]
fn the_enhanced_prompt_is_exactly_what_a_turn_submits() {
    let mut client = fresh_client();
    client.add_tool(McpTool { name: "t".into(), description: "D".into() });
    let mut agent = fresh_agent(client);
    agent.auto_add_tools().expect("discovery");
    let built: String = agent.build_enhanced_prompt().into_iter().collect();
    let mut model = MockModel::new(Behavior::Reply("hi".to_string()));
    agent.invoke(&mut model, "hello");
    assert_eq!(model.seen_messages[0].content, built);
}

#[test]
fn unicode_whitespace_counts_as_empty_input() {
    let agent = fresh_agent(fresh_client());
    let mut model = MockModel::new(Behavior::Reply("never used".to_string()));
    let out = agent.invoke(&mut model, "\u{00a0}\u{3000}\u{2028}");
    assert_eq!(answer_of(out), "Please enter valid content");
    assert_eq!(model.calls, 0);
}

#[test]
fn unicode_whitespace_is_trimmed_from_real_input() {
    let agent = fresh_agent(fresh_client());
    let mut model = MockModel::new(Behavior::Reply("hi".to_string()));
    agent.invoke(&mut model, "\u{00a0}hello\u{3000}");
    assert_eq!(model.seen_messages[1].content, "hello");
}
