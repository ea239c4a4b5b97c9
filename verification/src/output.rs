//! The structured decisions an agent turn can produce.

use vstd::prelude::*;

verus! {

/// A decided tool call: the tool's name, its serialized parameters, and
/// trace fields.
#[derive(Debug)]
pub struct AgentAction {
    pub tool: String,
    pub tool_input: String,
    pub log: String,
    pub thought: Option<String>,
}

/// A decided final answer: key/value return values, minimally the keys
/// `answer` and `model`.
#[derive(Debug)]
pub struct AgentFinish {
    pub return_values: Vec<(String, String)>,
}

impl AgentFinish {
    /// The return values as a sequence of key/value character sequences.
    pub open spec fn values_view(&self) -> Seq<(Seq<char>, Seq<char>)> {
        self.return_values@.map_values(|p: (String, String)| (p.0@, p.1@))
    }

    /// The value stored under `key`, searching from the front.
    pub open spec fn spec_value_of(&self, key: Seq<char>) -> Option<Seq<char>> {
        Self::seq_value_of(self.values_view(), key)
    }

    /// First value paired with `key` in a key/value sequence.
    pub open spec fn seq_value_of(kvs: Seq<(Seq<char>, Seq<char>)>, key: Seq<char>) -> Option<
        Seq<char>,
    >
        decreases kvs.len(),
    {
        if kvs.len() == 0 {
            None
        } else if kvs[0].0 == key {
            Some(kvs[0].1)
        } else {
            Self::seq_value_of(kvs.drop_first(), key)
        }
    }

    /// Look up the first value stored under `key`.
    pub fn value_of(&self, key: &str) -> (r: Option<&String>)
        ensures
            match r {
                Some(v) => self.spec_value_of(key@) == Some(v@),
                None => self.spec_value_of(key@) is None,
            },
    {
        let kc = crate::text::chars_of(key);
        let mut i: usize = 0;
        proof {
            assert(self.values_view().skip(0) =~= self.values_view());
        }
        while i < self.return_values.len()
            invariant
                0 <= i <= self.return_values@.len(),
                kc@ == key@,
                Self::seq_value_of(self.values_view(), key@) == Self::seq_value_of(
                    self.values_view().skip(i as int),
                    key@,
                ),
            decreases self.return_values@.len() - i,
        {
            let pair = &self.return_values[i];
            let pc = crate::text::chars_of(pair.0.as_str());
            if crate::text::eq_chars(pc.as_slice(), kc.as_slice()) {
                proof {
                    assert(self.values_view().skip(i as int)[0].0 == key@);
                }
                return Some(&self.return_values[i].1);
            }
            proof {
                assert(self.values_view().skip(i as int)[0].0 != key@);
                assert(self.values_view().skip(i as int).drop_first() =~= self.values_view().skip(
                    i + 1,
                ));
            }
            i += 1;
        }
        proof {
            assert(self.values_view().skip(i as int).len() == 0);
        }
        None
    }
}

/// The outcome of one agent turn: exactly one of a tool-call request or a
/// final answer.
#[derive(Debug)]
pub enum AgentOutput {
    Action(AgentAction),
    Finish(AgentFinish),
}

/// Raw model text matched neither recognized envelope shape.
#[derive(Debug)]
pub struct ParseError;

} // verus!
