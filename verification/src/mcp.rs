//! The tool-provider registry and dispatcher.
//!
//! A client owns a catalog of tool descriptors and a name-to-handler table;
//! it answers "what tools exist" and "run this tool". Handlers are supplied
//! by the embedding program through the [`ToolHandler`] trait; a name with
//! no registered handler falls back to a small builtin simulation (a
//! weather stub), and any other name fails with an unknown-tool error.
//!
//! Tool parameters and results are JSON text (see [`crate::json`]); what a
//! handler receives is the raw text of the parameters object.

use vstd::prelude::*;

verus! {

use crate::json::{spec_obj_lookup, spec_scan_string, obj_lookup, scan_string};
use crate::text::{chars_of, eq_chars, string_from_chars};

/// A tool descriptor: the (name, description) pair identifying a tool in a
/// client's catalog. The name is the dispatch key.
pub struct McpTool {
    pub name: String,
    pub description: String,
}

impl McpTool {
    /// The descriptor as a pair of character sequences.
    pub open spec fn view(&self) -> (Seq<char>, Seq<char>) {
        (self.name@, self.description@)
    }

    /// An equal, independent copy of the descriptor.
    pub fn duplicate(&self) -> (t: McpTool)
        ensures
            t@ == self@,
    {
        McpTool { name: self.name.clone(), description: self.description.clone() }
    }
}

/// The view of a whole catalog.
pub open spec fn tools_view(ts: Seq<McpTool>) -> Seq<(Seq<char>, Seq<char>)> {
    ts.map_values(|t: McpTool| t@)
}

/// Why a tool call failed.
#[derive(Debug, PartialEq, Eq)]
pub enum ToolError {
    /// No handler is registered under the name and no builtin matches it.
    UnknownTool(String),
    /// The registered handler itself failed with a message.
    Handler(String),
    /// The serialized arguments handed to a tool capability were malformed.
    InvalidParams(String),
}

impl ToolError {
    /// A human-readable message for the error.
    pub fn message(&self) -> (r: String)
        ensures
            match self {
                ToolError::UnknownTool(name) => r@ == "Unknown tool: "@ + name@,
                ToolError::Handler(msg) => r@ == msg@,
                ToolError::InvalidParams(msg) => r@ == msg@,
            },
    {
        match self {
            ToolError::UnknownTool(name) => {
                let mut out = chars_of("Unknown tool: ");
                let mut nc = chars_of(name.as_str());
                out.append(&mut nc);
                string_from_chars(out.as_slice())
            },
            ToolError::Handler(msg) => msg.clone(),
            ToolError::InvalidParams(msg) => msg.clone(),
        }
    }
}

/// Why a provider operation (connect, catalog query) failed.
#[derive(Debug)]
pub struct ClientError {
    pub message: String,
}

/// A named tool backend supplied by the embedding program. The dispatcher
/// promises nothing about what an implementation returns; everything the
/// library computes from a handler's result is verified for every possible
/// result.
pub trait ToolHandler {
    /// What this handler promises of its own results: nothing, unless an
    /// implementation that wants verified callers to know more overrides
    /// this.
    open spec fn call_post(&self, params: Seq<char>, r: Result<String, String>) -> bool {
        true
    }

    /// Run the tool on the raw text of its parameters object; the result is
    /// JSON text on success, or an error message.
    fn call(&self, params: &str) -> (r: Result<String, String>)
        ensures
            self.call_post(params@, r),
    ;
}

/// JSON string escaping for text embedded between quotes: `"` and `\` are
/// escaped, as are the three common control characters.
pub open spec fn spec_escape_text(s: Seq<char>) -> Seq<char>
    decreases s.len(),
{
    if s.len() == 0 {
        Seq::empty()
    } else {
        spec_escape_one(s[0]) + spec_escape_text(s.drop_first())
    }
}

/// The escaped form of one character.
pub open spec fn spec_escape_one(c: char) -> Seq<char> {
    if c == '"' {
        seq!['\\', '"']
    } else if c == '\\' {
        seq!['\\', '\\']
    } else if c == '\n' {
        seq!['\\', 'n']
    } else if c == '\r' {
        seq!['\\', 'r']
    } else if c == '\t' {
        seq!['\\', 't']
    } else {
        seq![c]
    }
}

/// Escape text for embedding inside a JSON string literal.
pub fn escape_text(s: &[char]) -> (r: Vec<char>)
    ensures
        r@ == spec_escape_text(s@),
{
    let mut out: Vec<char> = Vec::new();
    let mut i: usize = 0;
    proof {
        assert(s@.skip(0) =~= s@);
    }
    while i < s.len()
        invariant
            0 <= i <= s@.len(),
            out@ + spec_escape_text(s@.skip(i as int)) == spec_escape_text(s@),
        decreases s@.len() - i,
    {
        let c = s[i];
        let ghost prev = out@;
        proof {
            assert(s@.skip(i as int)[0] == c);
            assert(s@.skip(i as int).drop_first() =~= s@.skip(i + 1));
        }
        if c == '"' {
            out.push('\\');
            out.push('"');
        } else if c == '\\' {
            out.push('\\');
            out.push('\\');
        } else if c == '\n' {
            out.push('\\');
            out.push('n');
        } else if c == '\r' {
            out.push('\\');
            out.push('r');
        } else if c == '\t' {
            out.push('\\');
            out.push('t');
        } else {
            out.push(c);
        }
        proof {
            assert(out@ =~= prev + spec_escape_one(c));
            assert((prev + spec_escape_one(c)) + spec_escape_text(s@.skip(i + 1)) =~= prev + (
            spec_escape_one(c) + spec_escape_text(s@.skip(i + 1))));
        }
        i += 1;
    }
    proof {
        assert(s@.skip(i as int) =~= Seq::<char>::empty());
        assert(out@ + Seq::<char>::empty() =~= out@);
    }
    out
}

/// The city a weather query asks about: the string member `"city"` of the
/// parameters object, or the given default when the member is absent or
/// not a string.
pub open spec fn spec_city_or(params: Seq<char>, default_city: Seq<char>) -> Seq<char> {
    match spec_obj_lookup(params, 0, "city"@) {
        Some(v) => match spec_scan_string(params, v.0) {
            Some(p) => p.1,
            None => default_city,
        },
        None => default_city,
    }
}

/// The city of a weather query with the builtin's default, `Beijing`.
pub open spec fn spec_city_of(params: Seq<char>) -> Seq<char> {
    spec_city_or(params, "Beijing"@)
}

/// The builtin simulated weather report for a city, as JSON text.
pub open spec fn spec_weather_report(city: Seq<char>) -> Seq<char> {
    "{\"city\":\""@ + spec_escape_text(city) + "\",\"temperature\":\"25\u{00b0}C\",\"weather\":\"cloudy\",\"humidity\":\"60%\"}"@
}

/// The weather report a hosting program's own backend answers with: like
/// the builtin's, but sunny, drier, and stamped with the time of the
/// query.
pub open spec fn spec_timed_weather_report(city: Seq<char>, updated_at: Seq<char>) -> Seq<char> {
    "{\"city\":\""@ + spec_escape_text(city)
        + "\",\"temperature\":\"25\u{00b0}C\",\"weather\":\"Sunny\",\"humidity\":\"40%\",\"updated_at\":\""@
        + spec_escape_text(updated_at) + "\"}"@
}

/// Extract the city of a weather query from the parameters text, with the
/// given default.
pub fn city_or(params: &[char], default_city: &str) -> (r: Vec<char>)
    ensures
        r@ == spec_city_or(params@, default_city@),
{
    let key = chars_of("city");
    match obj_lookup(params, 0, key.as_slice()) {
        Some(v) => match scan_string(params, v.0) {
            Some(p) => p.1,
            None => chars_of(default_city),
        },
        None => chars_of(default_city),
    }
}

/// Build the builtin simulated weather report for the given parameters
/// text.
pub fn weather_report(params: &[char]) -> (r: String)
    ensures
        r@ == spec_weather_report(spec_city_of(params@)),
{
    let city = city_or(params, "Beijing");
    let mut out = chars_of("{\"city\":\"");
    let mut esc = escape_text(city.as_slice());
    out.append(&mut esc);
    let mut tail = chars_of(
        "\",\"temperature\":\"25\u{00b0}C\",\"weather\":\"cloudy\",\"humidity\":\"60%\"}",
    );
    out.append(&mut tail);
    string_from_chars(out.as_slice())
}

/// Build a hosting program's weather report: the default city is
/// `Shanghai`, and the report carries the given timestamp. Only the
/// timestamp comes from outside; everything else is computed here.
pub fn timed_weather_report(params: &[char], updated_at: &str) -> (r: String)
    ensures
        r@ == spec_timed_weather_report(spec_city_or(params@, "Shanghai"@), updated_at@),
{
    let city = city_or(params, "Shanghai");
    let mut out = chars_of("{\"city\":\"");
    let mut esc = escape_text(city.as_slice());
    out.append(&mut esc);
    let mut mid = chars_of(
        "\",\"temperature\":\"25\u{00b0}C\",\"weather\":\"Sunny\",\"humidity\":\"40%\",\"updated_at\":\"",
    );
    out.append(&mut mid);
    let ts = chars_of(updated_at);
    let mut ts_esc = escape_text(ts.as_slice());
    out.append(&mut ts_esc);
    let mut tail = chars_of("\"}");
    out.append(&mut tail);
    string_from_chars(out.as_slice())
}

/// A handler's result as the dispatcher's result: a handler error becomes
/// the call's error.
pub open spec fn spec_wrap_handler(hr: Result<String, String>) -> Result<String, ToolError> {
    match hr {
        Ok(s) => Ok(s),
        Err(m) => Err(ToolError::Handler(m)),
    }
}

/// The handler table as a sequence of (name, handler) pairs.
pub open spec fn handlers_view<H>(hs: Seq<(String, H)>) -> Seq<(Seq<char>, H)> {
    hs.map_values(|p: (String, H)| (p.0@, p.1))
}

/// The registered names, in table order.
pub open spec fn handler_names<H>(hs: Seq<(Seq<char>, H)>) -> Seq<Seq<char>> {
    hs.map_values(|p: (Seq<char>, H)| p.0)
}

/// The handler registered under `name`: the first entry with that name.
pub open spec fn spec_handler_lookup<H>(hs: Seq<(Seq<char>, H)>, name: Seq<char>) -> Option<H>
    decreases hs.len(),
{
    if hs.len() == 0 {
        None
    } else if hs[0].0 == name {
        Some(hs[0].1)
    } else {
        spec_handler_lookup(hs.drop_first(), name)
    }
}

/// Registration: the entry under `name` is replaced in place, or appended
/// when no entry holds the name.
pub open spec fn spec_register<H>(hs: Seq<(Seq<char>, H)>, name: Seq<char>, h: H) -> Seq<
    (Seq<char>, H),
>
    decreases hs.len(),
{
    if hs.len() == 0 {
        seq![(name, h)]
    } else if hs[0].0 == name {
        seq![(name, h)] + hs.drop_first()
    } else {
        seq![hs[0]] + spec_register(hs.drop_first(), name, h)
    }
}

/// Registering a handler makes it the one that lookup finds.
pub proof fn lemma_register_lookup<H>(hs: Seq<(Seq<char>, H)>, name: Seq<char>, h: H)
    ensures
        spec_handler_lookup(spec_register(hs, name, h), name) == Some(h),
    decreases hs.len(),
{
    if hs.len() != 0 && hs[0].0 != name {
        lemma_register_lookup(hs.drop_first(), name, h);
        assert((seq![hs[0]] + spec_register(hs.drop_first(), name, h)).drop_first()
            =~= spec_register(hs.drop_first(), name, h));
    }
}

/// Registering a handler leaves every other name's handler unchanged.
pub proof fn lemma_register_other<H>(hs: Seq<(Seq<char>, H)>, name: Seq<char>, h: H, other: Seq<char>)
    requires
        other != name,
    ensures
        spec_handler_lookup(spec_register(hs, name, h), other) == spec_handler_lookup(hs, other),
    decreases hs.len(),
{
    if hs.len() == 0 {
        assert(seq![(name, h)].drop_first() =~= Seq::<(Seq<char>, H)>::empty());
        assert(spec_handler_lookup(Seq::<(Seq<char>, H)>::empty(), other) is None);
        assert(spec_handler_lookup(seq![(name, h)], other) is None);
    } else if hs[0].0 == name {
        assert((seq![(name, h)] + hs.drop_first()).drop_first() =~= hs.drop_first());
        assert(spec_handler_lookup(spec_register(hs, name, h), other) == spec_handler_lookup(
            hs.drop_first(),
            other,
        ));
        assert(spec_handler_lookup(hs, other) == spec_handler_lookup(hs.drop_first(), other));
    } else {
        lemma_register_other(hs.drop_first(), name, h, other);
        assert((seq![hs[0]] + spec_register(hs.drop_first(), name, h)).drop_first()
            =~= spec_register(hs.drop_first(), name, h));
        assert((seq![hs[0]] + spec_register(hs.drop_first(), name, h))[0] == hs[0]);
    }
}

/// Last write wins: after two registrations under one name, lookup finds
/// only the most recent handler.
pub proof fn lemma_last_registration_wins<H>(
    hs: Seq<(Seq<char>, H)>,
    name: Seq<char>,
    h1: H,
    h2: H,
)
    ensures
        spec_handler_lookup(spec_register(spec_register(hs, name, h1), name, h2), name) == Some(
            h2,
        ),
{
    lemma_register_lookup(spec_register(hs, name, h1), name, h2);
}

/// Last write wins at the dispatcher: after two registrations under one
/// name, any result that a dispatch of that name returns is one the most
/// recently registered handler produced.
pub proof fn lemma_call_tool_reaches_latest<H: ToolHandler>(
    c0: SimpleMcpClient<H>,
    c1: SimpleMcpClient<H>,
    c2: SimpleMcpClient<H>,
    name: Seq<char>,
    h1: H,
    h2: H,
    params: Seq<char>,
    r: Result<String, ToolError>,
)
    requires
        c1.handlers() == spec_register(c0.handlers(), name, h1),
        c2.handlers() == spec_register(c1.handlers(), name, h2),
        c2.call_tool_post(name, params, r),
    ensures
        exists|hr: Result<String, String>| #[trigger] h2.call_post(params, hr) && r
            == spec_wrap_handler(hr),
{
    lemma_last_registration_wins(c0.handlers(), name, h1, h2);
    assert(spec_handler_lookup(c2.handlers(), name) == Some(h2));
}

/// The abstract tool-provider contract: what a client must offer so that an
/// agent can discover and dispatch tools through it. Each implementation
/// defines the spec functions, and with them the exact meaning of its own
/// operations.
pub trait McpClient: Sized {
    /// The provider's catalog of tool descriptors, in order.
    spec fn catalog(&self) -> Seq<(Seq<char>, Seq<char>)>;

    /// Whether this implementation's catalog query cannot fail.
    spec fn get_tools_infallible(&self) -> bool;

    /// What holds after `connect`.
    spec fn connect_post(pre: Self, url: Seq<char>, post: Self, r: Result<(), ClientError>) -> bool;

    /// What holds of a `call_tool` result.
    spec fn call_tool_post(
        &self,
        name: Seq<char>,
        params: Seq<char>,
        r: Result<String, ToolError>,
    ) -> bool;

    /// What holds of a `disconnect` result.
    spec fn disconnect_post(&self, r: Result<(), ClientError>) -> bool;

    /// What holds of a `get_response` result.
    spec fn get_response_post(&self, id: Seq<char>, r: Result<String, ClientError>) -> bool;

    /// Record the provider endpoint.
    fn connect(&mut self, url: &str) -> (r: Result<(), ClientError>)
        ensures
            Self::connect_post(*old(self), url@, *final(self), r),
    ;

    /// A snapshot copy of the catalog.
    fn get_tools(&self) -> (r: Result<Vec<McpTool>, ClientError>)
        ensures
            r matches Ok(ts) ==> tools_view(ts@) == self.catalog(),
            self.get_tools_infallible() ==> r is Ok,
    ;

    /// Run the named tool on the given parameters text.
    fn call_tool(&self, tool_name: &str, params: &str) -> (r: Result<String, ToolError>)
        ensures
            self.call_tool_post(tool_name@, params@, r),
    ;

    /// Release the connection.
    fn disconnect(&self) -> (r: Result<(), ClientError>)
        ensures
            self.disconnect_post(r),
    ;

    /// The stored response of an earlier tool call, by call id.
    fn get_response(&self, tool_call_id: &str) -> (r: Result<String, ClientError>)
        ensures
            self.get_response_post(tool_call_id@, r),
    ;
}

/// An in-process tool provider: a catalog of descriptors plus a
/// name-to-handler table, with a builtin simulated weather tool as the
/// fallback for unhandled names.
pub struct SimpleMcpClient<H> {
    pub url: String,
    pub available_tools: Vec<McpTool>,
    pub tool_handlers: Vec<(String, H)>,
}

impl<H> SimpleMcpClient<H> {
    /// The handler table view of this client.
    pub open spec fn handlers(&self) -> Seq<(Seq<char>, H)> {
        handlers_view(self.tool_handlers@)
    }

    /// A fresh client with the given endpoint and nothing registered.
    pub fn new(url: String) -> (c: Self)
        ensures
            c.url@ == url@,
            c.available_tools@ =~= Seq::<McpTool>::empty(),
            c.tool_handlers@ =~= Seq::<(String, H)>::empty(),
    {
        SimpleMcpClient { url, available_tools: Vec::new(), tool_handlers: Vec::new() }
    }

    /// Append one descriptor to the catalog.
    pub fn add_tool(&mut self, tool: McpTool)
        ensures
            final(self).available_tools@ == old(self).available_tools@.push(tool),
            final(self).url == old(self).url,
            final(self).tool_handlers == old(self).tool_handlers,
    {
        self.available_tools.push(tool);
    }

    /// Append a batch of descriptors to the catalog, in order.
    pub fn add_tools(&mut self, tools: Vec<McpTool>)
        ensures
            final(self).available_tools@ == old(self).available_tools@ + tools@,
            final(self).url == old(self).url,
            final(self).tool_handlers == old(self).tool_handlers,
    {
        let mut tools = tools;
        self.available_tools.append(&mut tools);
    }

    /// Empty the catalog. Handlers stay registered.
    pub fn clear_tools(&mut self)
        ensures
            final(self).available_tools@ =~= Seq::<McpTool>::empty(),
            final(self).url == old(self).url,
            final(self).tool_handlers == old(self).tool_handlers,
    {
        self.available_tools.clear();
    }

    /// Register `handler` under `tool_name`, replacing any earlier handler
    /// with that name.
    pub fn register_tool_handler(&mut self, tool_name: String, handler: H)
        ensures
            final(self).handlers() == spec_register(old(self).handlers(), tool_name@, handler),
            final(self).url == old(self).url,
            final(self).available_tools == old(self).available_tools,
    {
        let name_chars = chars_of(tool_name.as_str());
        let ghost orig = self.handlers();
        let mut i: usize = 0;
        while i < self.tool_handlers.len()
            invariant
                0 <= i <= self.tool_handlers@.len(),
                forall|j: int| 0 <= j < i ==> #[trigger] self.handlers()[j].0 != tool_name@,
                name_chars@ == tool_name@,
                self == old(self),
            decreases self.tool_handlers@.len() - i,
        {
            let entry_name = chars_of(self.tool_handlers[i].0.as_str());
            if eq_chars(entry_name.as_slice(), name_chars.as_slice()) {
                let ghost k = i as int;
                self.tool_handlers.remove(i);
                self.tool_handlers.insert(i, (tool_name, handler));
                proof {
                    assert(self.tool_handlers@ =~= old(self).tool_handlers@.update(
                        k,
                        self.tool_handlers@[k],
                    ));
                    assert(self.handlers() =~= old(self).handlers().update(
                        k,
                        (old(self).handlers()[k].0, self.handlers()[k].1),
                    ));
                    lemma_register_at(old(self).handlers(), old(self).handlers()[k].0,
                        self.handlers()[k].1, k);
                }
                return ;
            }
            i += 1;
        }
        self.tool_handlers.push((tool_name, handler));
        proof {
            assert(self.handlers() =~= old(self).handlers().push(
                (self.handlers().last().0, self.handlers().last().1),
            ));
            lemma_register_absent(old(self).handlers(), self.handlers().last().0,
                self.handlers().last().1);
        }
    }
}

/// The stored response text for a tool call id, as JSON text.
pub open spec fn spec_response_text(id: Seq<char>) -> Seq<char> {
    "{\"tool_call_id\":\""@ + spec_escape_text(id)
        + "\",\"status\":\"completed\",\"response\":{\"data\":\"Sample tool response data\"}}"@
}

impl<H: ToolHandler> McpClient for SimpleMcpClient<H> {
    open spec fn catalog(&self) -> Seq<(Seq<char>, Seq<char>)> {
        tools_view(self.available_tools@)
    }

    open spec fn get_tools_infallible(&self) -> bool {
        true
    }

    open spec fn connect_post(
        pre: Self,
        url: Seq<char>,
        post: Self,
        r: Result<(), ClientError>,
    ) -> bool {
        &&& post.url@ == url
        &&& post.available_tools == pre.available_tools
        &&& post.tool_handlers == pre.tool_handlers
        &&& r is Ok
    }

    open spec fn call_tool_post(
        &self,
        name: Seq<char>,
        params: Seq<char>,
        r: Result<String, ToolError>,
    ) -> bool {
        match spec_handler_lookup(self.handlers(), name) {
            Some(h) => exists|hr: Result<String, String>|
                #[trigger] h.call_post(params, hr) && r == spec_wrap_handler(hr),
            None => {
                if name == "get_weather"@ {
                    r matches Ok(out) && out@ == spec_weather_report(spec_city_of(params))
                } else {
                    r matches Err(ToolError::UnknownTool(n)) && n@ == name
                }
            },
        }
    }

    open spec fn disconnect_post(&self, r: Result<(), ClientError>) -> bool {
        r is Ok
    }

    open spec fn get_response_post(&self, id: Seq<char>, r: Result<String, ClientError>) -> bool {
        r matches Ok(out) && out@ == spec_response_text(id)
    }

    /// Recording the endpoint cannot fail and opens no connection.
    fn connect(&mut self, url: &str) -> (r: Result<(), ClientError>)
    {
        self.url = url.to_owned();
        Ok(())
    }

    /// The catalog is copied entry by entry; the query cannot fail.
    fn get_tools(&self) -> (r: Result<Vec<McpTool>, ClientError>)
    {
        let mut out: Vec<McpTool> = Vec::new();
        let mut i: usize = 0;
        while i < self.available_tools.len()
            invariant
                0 <= i <= self.available_tools@.len(),
                tools_view(out@) =~= tools_view(self.available_tools@.take(i as int)),
            decreases self.available_tools@.len() - i,
        {
            let d = self.available_tools[i].duplicate();
            let ghost prev_out = out@;
            out.push(d);
            proof {
                let ts = self.available_tools@;
                assert(out@ == prev_out.push(d));
                assert(tools_view(prev_out).len() == prev_out.len());
                assert(tools_view(ts.take(i as int)).len() == i);
                assert(prev_out.len() == i);
                assert forall|j: int| 0 <= j < i + 1 implies tools_view(out@)[j] == tools_view(
                    ts.take(i + 1),
                )[j] by {
                    assert(ts.take(i + 1)[j] == ts[j]);
                    if j < i {
                        assert(out@[j] == prev_out[j]);
                        assert(tools_view(prev_out)[j] == tools_view(ts.take(i as int))[j]);
                        assert(ts.take(i as int)[j] == ts[j]);
                    } else {
                        assert(out@[j] == d);
                        assert(d@ == ts[i as int]@);
                    }
                }
                assert(tools_view(out@) =~= tools_view(ts.take(i + 1)));
            }
            i += 1;
        }
        proof {
            assert(self.available_tools@.take(i as int) =~= self.available_tools@);
        }
        Ok(out)
    }

    /// Dispatch: a registered handler wins; otherwise the builtin weather
    /// stub answers `get_weather`, and any other name is unknown.
    fn call_tool(&self, tool_name: &str, params: &str) -> (r: Result<String, ToolError>)
    {
        let name_chars = chars_of(tool_name);
        let ghost hs = self.handlers();
        let mut i: usize = 0;
        proof {
            assert(hs.skip(0) =~= hs);
        }
        while i < self.tool_handlers.len()
            invariant
                0 <= i <= self.tool_handlers@.len(),
                hs == self.handlers(),
                name_chars@ == tool_name@,
                spec_handler_lookup(hs, tool_name@) == spec_handler_lookup(
                    hs.skip(i as int),
                    tool_name@,
                ),
            decreases self.tool_handlers@.len() - i,
        {
            let entry_name = chars_of(self.tool_handlers[i].0.as_str());
            if eq_chars(entry_name.as_slice(), name_chars.as_slice()) {
                proof {
                    assert(hs.skip(i as int)[0] == hs[i as int]);
                    assert(hs[i as int] == (self.tool_handlers@[i as int].0@, self.tool_handlers@[
                        i as int].1));
                    assert(spec_handler_lookup(hs, tool_name@) == Some(
                        self.tool_handlers@[i as int].1,
                    ));
                }
                let hr = self.tool_handlers[i].1.call(params);
                let ghost h = self.tool_handlers@[i as int].1;
                let ghost ghr = hr;
                proof {
                    assert(h.call_post(params@, ghr));
                }
                match hr {
                    Ok(s) => {
                        proof {
                            let rr = Ok::<String, ToolError>(s);
                            assert(rr == spec_wrap_handler(ghr));
                            let hsel = spec_handler_lookup(self.handlers(), tool_name@)->Some_0;
                            assert(hsel == h);
                            assert(hsel.call_post(params@, ghr));
                            assert(exists|hr2: Result<String, String>|
                                #[trigger] hsel.call_post(params@, hr2) && rr == spec_wrap_handler(
                                    hr2,
                                ));
                            assert(self.call_tool_post(tool_name@, params@, rr));
                        }
                        return Ok(s);
                    },
                    Err(m) => {
                        proof {
                            let rr = Err::<String, ToolError>(ToolError::Handler(m));
                            assert(rr == spec_wrap_handler(ghr));
                            let hsel = spec_handler_lookup(self.handlers(), tool_name@)->Some_0;
                            assert(hsel == h);
                            assert(hsel.call_post(params@, ghr));
                            assert(exists|hr2: Result<String, String>|
                                #[trigger] hsel.call_post(params@, hr2) && rr == spec_wrap_handler(
                                    hr2,
                                ));
                            assert(self.call_tool_post(tool_name@, params@, rr));
                        }
                        return Err(ToolError::Handler(m));
                    },
                }
            }
            proof {
                assert(hs.skip(i as int)[0].0 != tool_name@);
                assert(hs.skip(i as int).drop_first() =~= hs.skip(i + 1));
            }
            i += 1;
        }
        proof {
            assert(hs.skip(i as int).len() == 0);
            assert(spec_handler_lookup(hs, tool_name@) is None);
        }
        let weather = chars_of("get_weather");
        if eq_chars(name_chars.as_slice(), weather.as_slice()) {
            let params_chars = chars_of(params);
            Ok(weather_report(params_chars.as_slice()))
        } else {
            Err(ToolError::UnknownTool(tool_name.to_owned()))
        }
    }

    /// Releasing the (simulated) connection cannot fail.
    fn disconnect(&self) -> (r: Result<(), ClientError>)
    {
        Ok(())
    }

    /// The simulated stored response for a tool call id.
    fn get_response(&self, tool_call_id: &str) -> (r: Result<String, ClientError>)
    {
        let mut out = chars_of("{\"tool_call_id\":\"");
        let id_chars = chars_of(tool_call_id);
        let mut esc = escape_text(id_chars.as_slice());
        out.append(&mut esc);
        let mut tail = chars_of(
            "\",\"status\":\"completed\",\"response\":{\"data\":\"Sample tool response data\"}}",
        );
        out.append(&mut tail);
        Ok(string_from_chars(out.as_slice()))
    }
}

/// The two stock tools a freshly initialized client announces: the weather
/// query and the simple calculator, with the prompt-facing descriptions
/// the model is shown.
pub fn standard_tools() -> (r: Vec<McpTool>)
    ensures
        tools_view(r@) =~= seq![
            (
                "get_weather"@,
                "Get weather information for a specified city. For example: 'What's the weather like in Beijing?'.\n                The parameter request body you should extract is: '\"parameters\": { \"city\": \"city\" }'"@,
            ),
            (
                "simple_calculate"@,
                "Execute simple mathematical calculations. For example: 'What is 9.11 plus 9.8?'.\n                The parameter request body you should extract is: '\"parameters\": { \"expression\": \"expression\" }'"@,
            ),
        ],
{
    let mut r: Vec<McpTool> = Vec::new();
    r.push(
        McpTool {
            name: "get_weather".to_owned(),
            description: "Get weather information for a specified city. For example: 'What's the weather like in Beijing?'.\n                The parameter request body you should extract is: '\"parameters\": { \"city\": \"city\" }'".to_owned(),
        },
    );
    r.push(
        McpTool {
            name: "simple_calculate".to_owned(),
            description: "Execute simple mathematical calculations. For example: 'What is 9.11 plus 9.8?'.\n                The parameter request body you should extract is: '\"parameters\": { \"expression\": \"expression\" }'".to_owned(),
        },
    );
    r
}

impl<H: Clone> SimpleMcpClient<H> {
    /// An independent client value: the catalog is deep-copied and the
    /// handler table keeps the same names, with each handler duplicated
    /// through its own `Clone`.
    pub fn clone_client(&self) -> (c: Self)
        ensures
            c.url@ == self.url@,
            tools_view(c.available_tools@) =~= tools_view(self.available_tools@),
            handler_names(c.handlers()) =~= handler_names(self.handlers()),
    {
        let mut tools: Vec<McpTool> = Vec::new();
        let mut i: usize = 0;
        while i < self.available_tools.len()
            invariant
                0 <= i <= self.available_tools@.len(),
                tools_view(tools@) =~= tools_view(self.available_tools@.take(i as int)),
            decreases self.available_tools@.len() - i,
        {
            let d = self.available_tools[i].duplicate();
            let ghost prev = tools@;
            tools.push(d);
            proof {
                let ts = self.available_tools@;
                assert(tools@ == prev.push(d));
                assert(tools_view(prev).len() == prev.len());
                assert(tools_view(ts.take(i as int)).len() == i);
                assert forall|j: int| 0 <= j < i + 1 implies tools_view(tools@)[j] == tools_view(
                    ts.take(i + 1),
                )[j] by {
                    assert(ts.take(i + 1)[j] == ts[j]);
                    if j < i {
                        assert(tools@[j] == prev[j]);
                        assert(tools_view(prev)[j] == tools_view(ts.take(i as int))[j]);
                        assert(ts.take(i as int)[j] == ts[j]);
                    } else {
                        assert(tools@[j] == d);
                        assert(d@ == ts[j]@);
                    }
                }
                assert(tools_view(tools@) =~= tools_view(ts.take(i + 1)));
            }
            i += 1;
        }
        proof {
            assert(self.available_tools@.take(i as int) =~= self.available_tools@);
        }
        let mut handlers: Vec<(String, H)> = Vec::new();
        let mut k: usize = 0;
        while k < self.tool_handlers.len()
            invariant
                0 <= k <= self.tool_handlers@.len(),
                handler_names(handlers_view(handlers@)) =~= handler_names(
                    handlers_view(self.tool_handlers@.take(k as int)),
                ),
            decreases self.tool_handlers@.len() - k,
        {
            let name = self.tool_handlers[k].0.clone();
            let h = self.tool_handlers[k].1.clone();
            let ghost prev = handlers@;
            handlers.push((name, h));
            proof {
                let hs = self.tool_handlers@;
                let lhs = handler_names(handlers_view(handlers@));
                let rhs = handler_names(handlers_view(hs.take(k + 1)));
                assert(handlers@ == prev.push((name, h)));
                assert(handler_names(handlers_view(prev)).len() == prev.len());
                assert(handler_names(handlers_view(hs.take(k as int))).len() == k);
                assert forall|j: int| 0 <= j < k + 1 implies lhs[j] == rhs[j] by {
                    assert(hs.take(k + 1)[j] == hs[j]);
                    assert(rhs[j] == hs[j].0@);
                    if j < k {
                        assert(handlers@[j] == prev[j]);
                        assert(lhs[j] == handler_names(handlers_view(prev))[j]);
                        assert(handler_names(handlers_view(prev))[j] == handler_names(
                            handlers_view(hs.take(k as int)),
                        )[j]);
                        assert(hs.take(k as int)[j] == hs[j]);
                    } else {
                        assert(handlers@[j] == (name, h));
                        assert(lhs[j] == name@);
                        assert(name@ == hs[j].0@);
                    }
                }
                assert(lhs =~= rhs);
            }
            k += 1;
        }
        proof {
            assert(self.tool_handlers@.take(k as int) =~= self.tool_handlers@);
        }
        SimpleMcpClient { url: self.url.clone(), available_tools: tools, tool_handlers: handlers }
    }
}

proof fn lemma_register_at<H>(hs: Seq<(Seq<char>, H)>, name: Seq<char>, h: H, k: int)
    requires
        0 <= k < hs.len(),
        hs[k].0 == name,
        forall|j: int| 0 <= j < k ==> hs[j].0 != name,
    ensures
        spec_register(hs, name, h) == hs.update(k, (name, h)),
    decreases hs.len(),
{
    if k == 0 {
        assert(seq![(name, h)] + hs.drop_first() =~= hs.update(0, (name, h)));
    } else {
        assert forall|j: int| 0 <= j < k - 1 implies hs.drop_first()[j].0 != name by {
            assert(hs.drop_first()[j] == hs[j + 1]);
        }
        lemma_register_at(hs.drop_first(), name, h, k - 1);
        assert(seq![hs[0]] + hs.drop_first().update(k - 1, (name, h)) =~= hs.update(k, (name, h)));
    }
}

proof fn lemma_register_absent<H>(hs: Seq<(Seq<char>, H)>, name: Seq<char>, h: H)
    requires
        forall|j: int| 0 <= j < hs.len() ==> hs[j].0 != name,
    ensures
        spec_register(hs, name, h) == hs.push((name, h)),
    decreases hs.len(),
{
    if hs.len() == 0 {
        assert(seq![(name, h)] =~= hs.push((name, h)));
    } else {
        assert forall|j: int| 0 <= j < hs.drop_first().len() implies hs.drop_first()[j].0
            != name by {
            assert(hs.drop_first()[j] == hs[j + 1]);
        }
        lemma_register_absent(hs.drop_first(), name, h);
        assert(seq![hs[0]] + hs.drop_first().push((name, h)) =~= hs.push((name, h)));
    }
}

} // verus!
