//! The output parser: from raw model text to a structured decision.
//!
//! A model is instructed to answer with a JSON envelope, either
//! `{"call_tool": {"name": "<tool>", "parameters": {...}}}` to request a
//! tool call, or `{}` to signal that its text is a direct answer. The
//! envelope may be embedded in surrounding prose; the parser scans the text
//! left to right and takes the first position where one of the two shapes
//! parses. Any other content is a parse failure, which the agent treats as
//! prose.

use vstd::prelude::*;

verus! {

use crate::json::{
    spec_scan_object, spec_scan_string, spec_scan_value, spec_ws_end, spec_obj_lookup,
    scan_object, scan_string, scan_value, skip_ws, obj_lookup,
};
use crate::output::{AgentAction, AgentFinish, AgentOutput, ParseError};
use crate::text::{chars_of, eq_chars, slice_to_vec_range, string_from_chars};

/// A recognized envelope, described at the spec level by positions in the
/// scanned text.
pub enum SpecEnvelope {
    /// The empty object `{}`: the model signals a direct answer.
    Empty { start: int, end: int },
    /// A tool-call request with the decoded tool name and the span of the
    /// raw parameters object.
    Call { name: Seq<char>, params_start: int, params_end: int, start: int, end: int },
}

/// The spans of a spec envelope lie inside a text of length `len`.
pub open spec fn envelope_bounds(e: SpecEnvelope, len: int) -> bool {
    match e {
        SpecEnvelope::Empty { start, end } => 0 <= start < end <= len,
        SpecEnvelope::Call { name, params_start, params_end, start, end } => {
            &&& 0 <= start < end <= len
            &&& 0 <= params_start < params_end <= len
        },
    }
}

/// Try to recognize an envelope whose object starts exactly at `k`.
///
/// The object must scan as JSON and be either empty, or hold exactly one
/// member `"call_tool"` whose value is an object with a string member
/// `"name"` and an object member `"parameters"` (other members beside those
/// two are tolerated, as a lenient reader of the envelope would).
pub open spec fn spec_envelope_at(s: Seq<char>, k: int) -> Option<SpecEnvelope> {
    if 0 <= k < s.len() && s[k] == '{' {
        match spec_scan_object(s, k) {
            None => None,
            Some(end) => {
                let j = spec_ws_end(s, k + 1);
                if j < s.len() && s[j] == '}' {
                    Some(SpecEnvelope::Empty { start: k, end })
                } else {
                    match spec_scan_string(s, j) {
                        None => None,
                        Some(p) => {
                            if p.1 == "call_tool"@ {
                                let kc = spec_ws_end(s, p.0);
                                if kc < s.len() && s[kc] == ':' {
                                    let v = spec_ws_end(s, kc + 1);
                                    if v < s.len() && s[v] == '{' {
                                        match spec_scan_value(s, v) {
                                            None => None,
                                            Some(w) => {
                                                let z = spec_ws_end(s, w);
                                                if z < s.len() && s[z] == '}' {
                                                    spec_call_parts(s, k, v, end)
                                                } else {
                                                    None
                                                }
                                            },
                                        }
                                    } else {
                                        None
                                    }
                                } else {
                                    None
                                }
                            } else {
                                None
                            }
                        },
                    }
                }
            },
        }
    } else {
        None
    }
}

/// Extract the name and parameters of a tool-call envelope whose inner
/// object starts at `v`.
pub open spec fn spec_call_parts(s: Seq<char>, k: int, v: int, end: int) -> Option<SpecEnvelope> {
    match spec_obj_lookup(s, v, "name"@) {
        None => None,
        Some(nv) => match spec_scan_string(s, nv.0) {
            None => None,
            Some(np) => match spec_obj_lookup(s, v, "parameters"@) {
                None => None,
                Some(pv) => {
                    if pv.0 < s.len() && s[pv.0] == '{' {
                        Some(
                            SpecEnvelope::Call {
                                name: np.1,
                                params_start: pv.0,
                                params_end: pv.1,
                                start: k,
                                end,
                            },
                        )
                    } else {
                        None
                    }
                },
            },
        },
    }
}

/// The first recognized envelope at or after position `k`.
pub open spec fn spec_find_envelope(s: Seq<char>, k: int) -> Option<SpecEnvelope>
    decreases s.len() - k when 0 <= k <= s.len()
{
    if k >= s.len() {
        None
    } else if s[k] == '{' && spec_envelope_at(s, k) is Some {
        spec_envelope_at(s, k)
    } else {
        spec_find_envelope(s, k + 1)
    }
}

/// A recognized envelope with its executable data.
pub enum Envelope {
    Empty { start: usize, end: usize },
    Call { name: Vec<char>, params_start: usize, params_end: usize, start: usize, end: usize },
}

impl Envelope {
    /// The spec-level description of this envelope.
    pub open spec fn view(&self) -> SpecEnvelope {
        match self {
            Envelope::Empty { start, end } => SpecEnvelope::Empty {
                start: *start as int,
                end: *end as int,
            },
            Envelope::Call { name, params_start, params_end, start, end } => SpecEnvelope::Call {
                name: name@,
                params_start: *params_start as int,
                params_end: *params_end as int,
                start: *start as int,
                end: *end as int,
            },
        }
    }
}

/// Recognize an envelope at `k`; exec twin of [`spec_envelope_at`].
pub fn envelope_at(s: &[char], k: usize) -> (r: Option<Envelope>)
    requires
        k <= s@.len(),
    ensures
        (r is Some) == (spec_envelope_at(s@, k as int) is Some),
        r matches Some(e) ==> spec_envelope_at(s@, k as int) == Some(e.view()) && envelope_bounds(
            e.view(),
            s@.len() as int,
        ),
{
    if k < s.len() && s[k] == '{' {
        match scan_object(s, k) {
            None => None,
            Some(end) => {
                let j = skip_ws(s, k + 1);
                if j < s.len() && s[j] == '}' {
                    Some(Envelope::Empty { start: k, end })
                } else {
                    match scan_string(s, j) {
                        None => None,
                        Some(p) => {
                            let key = chars_of("call_tool");
                            if eq_chars(p.1.as_slice(), key.as_slice()) {
                                let kc = skip_ws(s, p.0);
                                if kc < s.len() && s[kc] == ':' {
                                    let v = skip_ws(s, kc + 1);
                                    if v < s.len() && s[v] == '{' {
                                        match scan_value(s, v) {
                                            None => None,
                                            Some(w) => {
                                                let z = skip_ws(s, w);
                                                if z < s.len() && s[z] == '}' {
                                                    call_parts(s, k, v, end)
                                                } else {
                                                    None
                                                }
                                            },
                                        }
                                    } else {
                                        None
                                    }
                                } else {
                                    None
                                }
                            } else {
                                None
                            }
                        },
                    }
                }
            },
        }
    } else {
        None
    }
}

/// Extract name and parameters; exec twin of [`spec_call_parts`].
fn call_parts(s: &[char], k: usize, v: usize, end: usize) -> (r: Option<Envelope>)
    requires
        v <= s@.len(),
        k < s@.len(),
        0 < end <= s@.len(),
        k < end,
    ensures
        (r is Some) == (spec_call_parts(s@, k as int, v as int, end as int) is Some),
        r matches Some(e) ==> spec_call_parts(s@, k as int, v as int, end as int) == Some(e.view())
            && envelope_bounds(e.view(), s@.len() as int),
{
    let name_key = chars_of("name");
    match obj_lookup(s, v, name_key.as_slice()) {
        None => None,
        Some(nv) => match scan_string(s, nv.0) {
            None => None,
            Some(np) => {
                let params_key = chars_of("parameters");
                match obj_lookup(s, v, params_key.as_slice()) {
                    None => None,
                    Some(pv) => {
                        if pv.0 < s.len() && s[pv.0] == '{' {
                            Some(
                                Envelope::Call {
                                    name: np.1,
                                    params_start: pv.0,
                                    params_end: pv.1,
                                    start: k,
                                    end,
                                },
                            )
                        } else {
                            None
                        }
                    },
                }
            },
        },
    }
}

/// Find the first recognized envelope; exec twin of [`spec_find_envelope`].
pub fn find_envelope(s: &[char]) -> (r: Option<Envelope>)
    ensures
        (r is Some) == (spec_find_envelope(s@, 0) is Some),
        r matches Some(e) ==> spec_find_envelope(s@, 0) == Some(e.view()) && envelope_bounds(
            e.view(),
            s@.len() as int,
        ),
{
    let mut k: usize = 0;
    while k < s.len()
        invariant
            0 <= k <= s@.len(),
            spec_find_envelope(s@, 0) == spec_find_envelope(s@, k as int),
        decreases s@.len() - k,
    {
        if s[k] == '{' {
            match envelope_at(s, k) {
                Some(e) => {
                    return Some(e);
                },
                None => {},
            }
        }
        k += 1;
    }
    None
}

/// Map raw model text to a structured decision.
///
/// The first embedded envelope decides: the empty object yields `Finish`
/// (whose detail the agent discards in favor of re-wrapping the raw text),
/// and a tool-call envelope yields `Action` carrying the decoded tool name,
/// the raw text of the parameters object as `tool_input`, the matched
/// envelope text as `log`, and no thought. Text without a recognized
/// envelope is a parse failure.
pub fn parse_model_output(content: &str) -> (r: Result<AgentOutput, ParseError>)
    ensures
        (r is Ok) == (spec_find_envelope(content@, 0) is Some),
        r matches Ok(out) ==> match spec_find_envelope(content@, 0) {
            Some(SpecEnvelope::Empty { start, end }) => out matches AgentOutput::Finish(f)
                && f.values_view() == Seq::<(Seq<char>, Seq<char>)>::empty(),
            Some(
                SpecEnvelope::Call { name, params_start, params_end, start, end },
            ) => out matches AgentOutput::Action(a) && a.tool@ == name && a.tool_input@
                == content@.subrange(params_start, params_end) && a.log@ == content@.subrange(
                start,
                end,
            ) && a.thought is None,
            None => false,
        },
{
    let cs = chars_of(content);
    match find_envelope(cs.as_slice()) {
        None => Err(ParseError),
        Some(Envelope::Empty { start, end }) => {
            let f = AgentFinish { return_values: Vec::new() };
            proof {
                assert(f.values_view() =~= Seq::<(Seq<char>, Seq<char>)>::empty());
            }
            Ok(AgentOutput::Finish(f))
        },
        Some(Envelope::Call { name, params_start, params_end, start, end }) => {
            let tool_input = slice_to_vec_range(cs.as_slice(), params_start, params_end);
            let log = slice_to_vec_range(cs.as_slice(), start, end);
            Ok(
                AgentOutput::Action(
                    AgentAction {
                        tool: string_from_chars(name.as_slice()),
                        tool_input: string_from_chars(tool_input.as_slice()),
                        log: string_from_chars(log.as_slice()),
                        thought: None,
                    },
                ),
            )
        },
    }
}

} // verus!
