//! The agent's decide-step: one turn from user text to a structured
//! decision.
//!
//! On each turn the agent trims the input, composes an enhanced system
//! prompt from its attached tools, submits a two-message exchange to an
//! external chat model, and classifies the raw reply into an
//! [`AgentOutput`]. Every failure along the way is converted into a
//! `Finish` whose answer carries a readable message: the turn itself never
//! fails at the agent's boundary.

use std::sync::Arc;
use vstd::prelude::*;

verus! {

use crate::adapter::McpToolAdapter;
use crate::mcp::{ClientError, McpClient, McpTool, tools_view};
use crate::output::{AgentAction, AgentFinish, AgentOutput};
use crate::parser::{SpecEnvelope, parse_model_output, spec_find_envelope};
use crate::text::{chars_of, contains_seq, contains_sub, string_from_chars, trim_chars, trim_spec};

/// The role of one message in a model exchange.
#[derive(PartialEq, Eq, Structural, Clone, Copy)]
pub enum Role {
    System,
    User,
    Assistant,
}

/// One message handed to the chat model.
pub struct ModelMessage {
    pub role: Role,
    pub content: String,
}

/// Token accounting a model transport may report alongside a reply.
pub struct TokenUsage {
    pub prompt_tokens: u64,
    pub completion_tokens: u64,
    pub total_tokens: u64,
}

/// What the chat model answered: a message with a role and text content,
/// and optional token accounting.
pub struct ModelReply {
    pub role: Role,
    pub content: String,
    pub usage: Option<TokenUsage>,
}

/// The external chat-completion transport. The library promises nothing
/// about what an implementation returns; the agent's classification of the
/// reply is verified for every possible reply and every transport error.
pub trait ChatModel {
    /// Submit an ordered exchange with sampling temperature (in
    /// thousandths) and an optional completion-token cap; the result is the
    /// model's reply or a transport error message.
    fn complete(
        &mut self,
        messages: Vec<ModelMessage>,
        temperature_milli: u32,
        max_tokens: Option<usize>,
    ) -> Result<ModelReply, String>;
}

/// The per-entry line of the tool-description block: `- <name>: <description>`
/// and a newline.
pub open spec fn spec_tool_line(t: (Seq<char>, Seq<char>)) -> Seq<char> {
    "- "@ + t.0 + ": "@ + t.1 + "\n"@
}

/// The tool-description block: one line per attached tool, in attachment
/// order.
pub open spec fn spec_tool_descriptions(ts: Seq<(Seq<char>, Seq<char>)>) -> Seq<char>
    decreases ts.len(),
{
    if ts.len() == 0 {
        Seq::empty()
    } else {
        spec_tool_line(ts[0]) + spec_tool_descriptions(ts.drop_first())
    }
}

/// The enhanced system prompt: with no tools attached the system prompt is
/// used unmodified; otherwise the tool-description block and the envelope
/// instruction are appended.
pub open spec fn spec_enhanced_prompt(system_prompt: Seq<char>, ts: Seq<(Seq<char>, Seq<char>)>) -> Seq<char> {
    if ts.len() == 0 {
        system_prompt
    } else {
        system_prompt + "\n\nAvailable tools:\n"@ + spec_tool_descriptions(ts)
            + "\n\nPlease decide whether to use the tool based on user needs. If tools are needed, please return in JSON format:{\"call_tool\": {\"name\": \"Tool Name\", \"parameters\": {...}}}, else return{}"@
    }
}

/// The text content a reply is read as: the assistant's text itself, or a
/// notice wrapping the text of a reply in any other shape.
pub open spec fn spec_content_of(reply: ModelReply) -> Seq<char> {
    if reply.role is Assistant {
        reply.content@
    } else {
        "Non-AI message received,"@ + reply.content@
    }
}

/// A tool-augmented conversational agent: model identity, system prompt,
/// sampling parameters, and a list of tool capabilities bound to one
/// client.
pub struct McpAgent<C> {
    client: Arc<C>,
    tools: Vec<McpToolAdapter<C>>,
    model: String,
    system_prompt: String,
    temperature: u32,
    max_tokens: Option<usize>,
}

impl<C: McpClient> McpAgent<C> {
    /// The model identity used for the `model` return value.
    pub closed spec fn model_name(&self) -> Seq<char> {
        self.model@
    }

    /// The unmodified system prompt.
    pub closed spec fn prompt(&self) -> Seq<char> {
        self.system_prompt@
    }

    /// The sampling temperature, in thousandths.
    pub closed spec fn temperature_milli(&self) -> u32 {
        self.temperature
    }

    /// The optional completion-token cap.
    pub closed spec fn token_cap(&self) -> Option<usize> {
        self.max_tokens
    }

    /// The attached tools as (name, description) pairs, in attachment
    /// order.
    pub closed spec fn tools_list(&self) -> Seq<(Seq<char>, Seq<char>)> {
        self.tools@.map_values(|a: McpToolAdapter<C>| a.tool())
    }

    /// The client this agent discovered its tools from.
    pub closed spec fn client_value(&self) -> C {
        *self.client
    }

    /// Every attached adapter dispatches to this agent's client.
    pub closed spec fn tools_share_client(&self) -> bool {
        forall|i: int|
            0 <= i < self.tools@.len() ==> (#[trigger] self.tools@[i]).client_value()
                == *self.client
    }

    /// The two return values of a finished turn with the given answer.
    pub open spec fn finish_values(&self, answer: Seq<char>) -> Seq<(Seq<char>, Seq<char>)> {
        seq![("answer"@, answer), ("model"@, self.model_name())]
    }

    /// A fresh agent bound to `client`, with no tools, the default
    /// temperature of 0.6, and no token cap.
    pub fn new(client: Arc<C>, model: String, system_prompt: String) -> (a: Self)
        ensures
            a.model_name() == model@,
            a.prompt() == system_prompt@,
            a.temperature_milli() == 600u32,
            a.token_cap() is None,
            a.tools_list() =~= Seq::<(Seq<char>, Seq<char>)>::empty(),
            a.client_value() == *client,
            a.tools_share_client(),
    {
        let a = McpAgent {
            client,
            tools: Vec::new(),
            model,
            system_prompt,
            temperature: 600,
            max_tokens: None,
        };
        proof {
            assert(a.tools_list() =~= Seq::<(Seq<char>, Seq<char>)>::empty());
        }
        a
    }

    /// The same agent with the given sampling temperature, in thousandths
    /// of the nominal value; the nominal range is 0 to 2.
    pub fn with_temperature(self, temperature: u32) -> (a: Self)
        requires
            temperature <= 2000,
        ensures
            a.temperature_milli() == temperature,
            a.model_name() == self.model_name(),
            a.prompt() == self.prompt(),
            a.token_cap() == self.token_cap(),
            a.tools_list() == self.tools_list(),
            a.client_value() == self.client_value(),
            a.tools_share_client() == self.tools_share_client(),
    {
        McpAgent { temperature, ..self }
    }

    /// The same agent with the given completion-token cap.
    pub fn with_max_tokens(self, max_tokens: usize) -> (a: Self)
        ensures
            a.token_cap() == Some(max_tokens),
            a.model_name() == self.model_name(),
            a.prompt() == self.prompt(),
            a.temperature_milli() == self.temperature_milli(),
            a.tools_list() == self.tools_list(),
            a.client_value() == self.client_value(),
            a.tools_share_client() == self.tools_share_client(),
    {
        McpAgent { max_tokens: Some(max_tokens), ..self }
    }

    /// Attach one tool capability.
    pub fn add_tool(&mut self, tool: McpToolAdapter<C>)
        ensures
            final(self).tools_list() =~= old(self).tools_list().push(tool.tool()),
            final(self).model_name() == old(self).model_name(),
            final(self).prompt() == old(self).prompt(),
            final(self).temperature_milli() == old(self).temperature_milli(),
            final(self).token_cap() == old(self).token_cap(),
            final(self).client_value() == old(self).client_value(),
            old(self).tools_share_client() && tool.client_value() == old(self).client_value()
                ==> final(self).tools_share_client(),
    {
        let ghost prev = self.tools@;
        self.tools.push(tool);
        proof {
            assert(self.tools@ == prev.push(tool));
            assert(self.tools_list().len() == self.tools@.len());
            assert(old(self).tools_list().len() == prev.len());
            assert forall|j: int| 0 <= j < self.tools@.len() implies #[trigger] self.tools_list()[j]
                == old(self).tools_list().push(tool.tool())[j] by {
                if j < prev.len() {
                    assert(self.tools@[j] == prev[j]);
                    assert(old(self).tools_list()[j] == prev[j].tool());
                } else {
                    assert(self.tools@[j] == tool);
                }
            }
            assert(self.tools_list() =~= old(self).tools_list().push(tool.tool()));
            if old(self).tools_share_client() && tool.client_value() == old(self).client_value() {
                assert forall|j: int|
                    0 <= j < self.tools@.len() implies (#[trigger] self.tools@[j]).client_value()
                    == *self.client by {
                    if j < prev.len() {
                        assert(self.tools@[j] == prev[j]);
                        assert(prev[j].client_value() == *old(self).client);
                    } else {
                        assert(self.tools@[j] == tool);
                    }
                }
            }
        }
    }

    /// Discover the client's tools and attach one adapter per catalog
    /// entry, in catalog order. A catalog failure leaves the agent
    /// unchanged and is passed to the caller.
    pub fn auto_add_tools(&mut self) -> (r: Result<(), ClientError>)
        ensures
            r is Ok ==> final(self).tools_list() =~= old(self).tools_list()
                + old(self).client_value().catalog(),
            r is Err ==> final(self).tools_list() =~= old(self).tools_list(),
            old(self).client_value().get_tools_infallible() ==> r is Ok,
            final(self).model_name() == old(self).model_name(),
            final(self).prompt() == old(self).prompt(),
            final(self).temperature_milli() == old(self).temperature_milli(),
            final(self).token_cap() == old(self).token_cap(),
            final(self).client_value() == old(self).client_value(),
            old(self).tools_share_client() ==> final(self).tools_share_client(),
    {
        let tools = match self.client.get_tools() {
            Ok(ts) => ts,
            Err(e) => {
                return Err(e);
            },
        };
        let ghost catalog = tools_view(tools@);
        let mut i: usize = 0;
        while i < tools.len()
            invariant
                0 <= i <= tools@.len(),
                catalog == tools_view(tools@),
                self.tools_list() =~= old(self).tools_list() + catalog.take(i as int),
                self.model_name() == old(self).model_name(),
                self.prompt() == old(self).prompt(),
                self.temperature_milli() == old(self).temperature_milli(),
                self.token_cap() == old(self).token_cap(),
                self.client_value() == old(self).client_value(),
                self.client == old(self).client,
                old(self).tools_share_client() ==> self.tools_share_client(),
            decreases tools@.len() - i,
        {
            let descriptor = tools[i].duplicate();
            let handle = self.get_client();
            let adapter = McpToolAdapter::new(handle, descriptor);
            self.add_tool(adapter);
            proof {
                assert(catalog.take(i + 1).drop_last() =~= catalog.take(i as int));
                assert(catalog.take(i + 1).last() == catalog[i as int]);
                assert(self.tools_list() =~= old(self).tools_list() + catalog.take(i + 1));
            }
            i += 1;
        }
        proof {
            assert(catalog.take(i as int) =~= catalog);
        }
        Ok(())
    }

    /// A new handle to the agent's client.
    pub fn get_client(&self) -> (r: Arc<C>)
        ensures
            *r == self.client_value(),
    {
        crate::adapter::share_arc(&self.client)
    }

    /// A copy of the attached tool list, re-derived adapter by adapter:
    /// each copy wraps an equal descriptor and dispatches to the same
    /// client as the original.
    pub fn tools(&self) -> (r: Vec<McpToolAdapter<C>>)
        ensures
            r@.map_values(|a: McpToolAdapter<C>| a.tool()) =~= self.tools_list(),
            self.tools_share_client() ==> forall|i: int|
                0 <= i < r@.len() ==> (#[trigger] r@[i]).client_value() == self.client_value(),
    {
        let mut out: Vec<McpToolAdapter<C>> = Vec::new();
        let mut i: usize = 0;
        while i < self.tools.len()
            invariant
                0 <= i <= self.tools@.len(),
                out@.map_values(|a: McpToolAdapter<C>| a.tool()) =~= self.tools_list().take(
                    i as int,
                ),
                self.tools_share_client() ==> forall|j: int|
                    0 <= j < out@.len() ==> (#[trigger] out@[j]).client_value()
                        == self.client_value(),
            decreases self.tools@.len() - i,
        {
            let replica = self.tools[i].rederive();
            let ghost prev = out@;
            out.push(replica);
            proof {
                let f = |a: McpToolAdapter<C>| a.tool();
                assert(out@ == prev.push(replica));
                assert(prev.map_values(f).len() == prev.len());
                assert(self.tools_list().take(i as int).len() == i);
                assert forall|j: int| 0 <= j < i + 1 implies #[trigger] out@.map_values(f)[j]
                    == self.tools_list().take(i + 1)[j] by {
                    assert(self.tools_list().take(i + 1)[j] == self.tools_list()[j]);
                    if j < i {
                        assert(out@[j] == prev[j]);
                        assert(prev.map_values(f)[j] == self.tools_list().take(i as int)[j]);
                        assert(self.tools_list().take(i as int)[j] == self.tools_list()[j]);
                    } else {
                        assert(out@[j] == replica);
                        assert(replica.tool() == self.tools_list()[j]);
                    }
                }
                assert(out@.map_values(f) =~= self.tools_list().take(i + 1));
                if self.tools_share_client() {
                    assert((self.tools@[i as int]).client_value() == *self.client);
                    assert forall|j: int| 0 <= j < out@.len() implies (#[trigger] out@[j])
                        .client_value() == self.client_value() by {
                        if j < i {
                            assert(out@[j] == prev[j]);
                        } else {
                            assert(out@[j] == replica);
                        }
                    }
                }
            }
            i += 1;
        }
        proof {
            assert(self.tools_list().take(i as int) =~= self.tools_list());
        }
        out
    }

    /// Executing a decided action inside the agent is not part of this
    /// runtime: the hosting layer runs tools and drives the next turn.
    pub fn execute(&self, action: &AgentAction) -> (r: Result<String, ClientError>)
        ensures
            r matches Err(e) && e.message@
                == "Tool execution functionality is not implemented yet"@,
    {
        let _ = action;
        Err(
            ClientError {
                message: "Tool execution functionality is not implemented yet".to_owned(),
            },
        )
    }

    /// An equivalent but tool-less copy of this agent: opaque capability
    /// values are not duplicated, and tools are meant to be re-discovered
    /// with [`Self::auto_add_tools`].
    pub fn clone_agent(&self) -> (a: Self)
        ensures
            a.model_name() == self.model_name(),
            a.prompt() == self.prompt(),
            a.temperature_milli() == self.temperature_milli(),
            a.token_cap() == self.token_cap(),
            a.client_value() == self.client_value(),
            a.tools_list() =~= Seq::<(Seq<char>, Seq<char>)>::empty(),
            a.tools_share_client(),
    {
        let a = McpAgent {
            client: crate::adapter::share_arc(&self.client),
            tools: Vec::new(),
            model: self.model.clone(),
            system_prompt: self.system_prompt.clone(),
            temperature: self.temperature,
            max_tokens: self.max_tokens,
        };
        proof {
            assert(a.tools_list() =~= Seq::<(Seq<char>, Seq<char>)>::empty());
        }
        a
    }

    /// Build the tool-description block of the enhanced prompt.
    fn build_tool_descriptions(&self) -> (r: Vec<char>)
        ensures
            r@ == spec_tool_descriptions(self.tools_list()),
    {
        let ghost ts = self.tools_list();
        let mut out: Vec<char> = Vec::new();
        let mut i: usize = 0;
        proof {
            assert(ts.skip(0) =~= ts);
        }
        while i < self.tools.len()
            invariant
                0 <= i <= self.tools@.len(),
                ts == self.tools_list(),
                out@ + spec_tool_descriptions(ts.skip(i as int)) == spec_tool_descriptions(ts),
            decreases self.tools@.len() - i,
        {
            let ghost prev = out@;
            let mut dash = chars_of("- ");
            out.append(&mut dash);
            let name = self.tools[i].name();
            let mut name_chars = chars_of(name.as_str());
            out.append(&mut name_chars);
            let mut colon = chars_of(": ");
            out.append(&mut colon);
            let descr = self.tools[i].description();
            let mut descr_chars = chars_of(descr.as_str());
            out.append(&mut descr_chars);
            let mut nl = chars_of("\n");
            out.append(&mut nl);
            proof {
                assert(ts.skip(i as int)[0] == ts[i as int]);
                assert(ts.skip(i as int).drop_first() =~= ts.skip(i + 1));
                assert(out@ =~= prev + spec_tool_line(ts[i as int]));
                assert((prev + spec_tool_line(ts[i as int])) + spec_tool_descriptions(
                    ts.skip(i + 1),
                ) =~= prev + (spec_tool_line(ts[i as int]) + spec_tool_descriptions(
                    ts.skip(i + 1),
                )));
            }
            i += 1;
        }
        proof {
            assert(ts.skip(i as int) =~= Seq::<(Seq<char>, Seq<char>)>::empty());
            assert(out@ + Seq::<char>::empty() =~= out@);
        }
        out
    }

    /// Build the enhanced system prompt for this agent's tools: the prompt
    /// a turn submits as its system message.
    pub fn build_enhanced_prompt(&self) -> (r: Vec<char>)
        ensures
            r@ == spec_enhanced_prompt(self.prompt(), self.tools_list()),
    {
        let mut out = chars_of(self.system_prompt.as_str());
        if self.tools.len() == 0 {
            proof {
                assert(self.tools_list().len() == 0);
            }
            return out;
        }
        proof {
            assert(self.tools_list().len() == self.tools@.len());
        }
        let mut header = chars_of("\n\nAvailable tools:\n");
        out.append(&mut header);
        let mut block = self.build_tool_descriptions();
        out.append(&mut block);
        let mut instruction = chars_of(
            "\n\nPlease decide whether to use the tool based on user needs. If tools are needed, please return in JSON format:{\"call_tool\": {\"name\": \"Tool Name\", \"parameters\": {...}}}, else return{}",
        );
        out.append(&mut instruction);
        out
    }

    /// The finished turn whose answer is the given text.
    fn finish_with(&self, answer: Vec<char>) -> (f: AgentFinish)
        ensures
            f.values_view() =~= self.finish_values(answer@),
    {
        let mut return_values: Vec<(String, String)> = Vec::new();
        return_values.push(("answer".to_owned(), string_from_chars(answer.as_slice())));
        return_values.push(("model".to_owned(), self.model.clone()));
        AgentFinish { return_values }
    }

    /// What classification promises: how the structured decision relates to
    /// the model outcome it was computed from.
    pub open spec fn classified(&self, outcome: Result<ModelReply, String>, out: AgentOutput) -> bool {
        match outcome {
            Err(e) => out matches AgentOutput::Finish(f) && f.values_view() == self.finish_values(
                "Model invocation failed: "@ + e@,
            ),
            Ok(reply) => {
                let c = spec_content_of(reply);
                match spec_find_envelope(c, 0) {
                    Some(SpecEnvelope::Call { name, params_start, params_end, start, end }) => {
                        &&& out matches AgentOutput::Action(a)
                        &&& a.tool@ == name
                        &&& a.tool_input@ == c.subrange(params_start, params_end)
                        &&& a.log@ == c.subrange(start, end)
                        &&& a.thought is None
                    },
                    Some(SpecEnvelope::Empty { start, end }) => out matches AgentOutput::Finish(f)
                        && f.values_view() == self.finish_values(c),
                    None => {
                        if contains_seq(c, "call_tool"@) && contains_seq(c, "get_weather"@) {
                            &&& out matches AgentOutput::Action(a)
                            &&& a.tool@ == "default_tool"@
                            &&& a.tool_input@ == "{\"default_input\": \"Default Input\"}"@
                            &&& a.log@ == "Call default tool"@
                            &&& a.thought matches Some(t) && t@
                                == "Model output parsing failed, call default tool"@
                        } else {
                            out matches AgentOutput::Finish(f) && f.values_view()
                                == self.finish_values(c)
                        }
                    },
                }
            },
        }
    }

    /// Classify a model outcome into the turn's structured decision.
    ///
    /// A transport error becomes a finished turn whose answer carries the
    /// error text. A reply is read as text; a recognized tool-call envelope
    /// becomes that action; a recognized empty envelope, or prose, becomes
    /// a finished turn answering with the raw text; unparsed text that
    /// still names both `call_tool` and `get_weather` becomes the default
    /// tool call.
    pub fn classify_model_result(&self, outcome: Result<ModelReply, String>) -> (out: AgentOutput)
        ensures
            self.classified(outcome, out),
    {
        match outcome {
            Err(e) => {
                let mut answer = chars_of("Model invocation failed: ");
                let mut ec = chars_of(e.as_str());
                answer.append(&mut ec);
                AgentOutput::Finish(self.finish_with(answer))
            },
            Ok(reply) => {
                let ghost grep = reply;
                let content: String = if matches!(reply.role, Role::Assistant) {
                    reply.content
                } else {
                    let mut c = chars_of("Non-AI message received,");
                    let mut rc = chars_of(reply.content.as_str());
                    c.append(&mut rc);
                    string_from_chars(c.as_slice())
                };
                proof {
                    assert(content@ == spec_content_of(grep));
                }
                match parse_model_output(content.as_str()) {
                    Ok(AgentOutput::Action(a)) => AgentOutput::Action(a),
                    Ok(AgentOutput::Finish(_)) => {
                        let answer = chars_of(content.as_str());
                        AgentOutput::Finish(self.finish_with(answer))
                    },
                    Err(_) => {
                        let cc = chars_of(content.as_str());
                        let marker = chars_of("call_tool");
                        let weather = chars_of("get_weather");
                        if contains_sub(cc.as_slice(), marker.as_slice()) && contains_sub(
                            cc.as_slice(),
                            weather.as_slice(),
                        ) {
                            AgentOutput::Action(
                                AgentAction {
                                    tool: "default_tool".to_owned(),
                                    tool_input: "{\"default_input\": \"Default Input\"}".to_owned(),
                                    log: "Call default tool".to_owned(),
                                    thought: Some(
                                        "Model output parsing failed, call default tool".to_owned(),
                                    ),
                                },
                            )
                        } else {
                            AgentOutput::Finish(self.finish_with(cc))
                        }
                    },
                }
            },
        }
    }

    /// One turn: trim the input; an input empty after trimming finishes at
    /// once with a notice, leaving the transport untouched; otherwise the
    /// enhanced system prompt and the trimmed input are submitted to
    /// `model` and the reply is classified. The turn always returns a
    /// decision: no model failure escapes.
    pub fn invoke<M: ChatModel>(&self, model: &mut M, input: &str) -> (out: AgentOutput)
        ensures
            trim_spec(input@).len() == 0 ==> (out matches AgentOutput::Finish(f)
                && f.values_view() == self.finish_values("Please enter valid content"@)),
            trim_spec(input@).len() == 0 ==> *final(model) == *old(model),
            trim_spec(input@).len() != 0 ==> exists|outcome: Result<ModelReply, String>|
                #[trigger] self.classified(outcome, out),
    {
        let input_chars = chars_of(input);
        let trimmed = trim_chars(input_chars.as_slice());
        if trimmed.len() == 0 {
            let answer = chars_of("Please enter valid content");
            return AgentOutput::Finish(self.finish_with(answer));
        }
        let enhanced = self.build_enhanced_prompt();
        let mut messages: Vec<ModelMessage> = Vec::new();
        messages.push(
            ModelMessage { role: Role::System, content: string_from_chars(enhanced.as_slice()) },
        );
        messages.push(
            ModelMessage { role: Role::User, content: string_from_chars(trimmed.as_slice()) },
        );
        let outcome = model.complete(messages, self.temperature, self.max_tokens);
        let ghost goutcome = outcome;
        let out = self.classify_model_result(outcome);
        proof {
            assert(self.classified(goutcome, out));
        }
        out
    }
}

} // verus!
