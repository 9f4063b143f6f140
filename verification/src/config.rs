//! The immutable configuration the pipeline reads: known event tags, the
//! persona preamble, the retrieval limit, and the agent's name.

use vstd::prelude::*;
use crate::tags::str_eq;

verus! {

/// Configuration of one kind of on-chain event the agent reacts to.  The
/// pipeline only needs the tag; resolution is by exact match.
pub struct EventConfig {
    pub tag: String,
}

/// What the pipeline needs from the process configuration, loaded once
/// before any request is handled and immutable afterwards.
pub struct Config {
    /// The agent's name, placed in every published off-chain message.
    pub agent_name: String,
    /// The persona/context preamble of every generation prompt.
    pub story: String,
    /// The known event kinds; a request whose tag is absent here fails.
    pub events: Vec<EventConfig>,
    /// Upper bound on how many memories one retrieval may return.
    pub retrieval_limit: usize,
}

/// The configuration holds an event whose tag reads `tag`.
pub open spec fn knows_tag(c: Config, tag: Seq<char>) -> bool {
    exists|i: int| 0 <= i < c.events.len() && #[trigger] c.events[i].tag@ == tag
}

impl Config {
    /// Exact-match resolution of an event tag against the configured events:
    /// the position of the first event with this tag, or `None` when no
    /// configured event carries it.
    pub fn find_event(&self, tag: &str) -> (r: Option<usize>)
        ensures
            match r {
                Some(i) => i < self.events@.len() && self.events[i as int].tag@ == tag@
                    && forall|j: int| 0 <= j < i ==> self.events[j].tag@ != tag@,
                None => !knows_tag(*self, tag@),
            },
    {
        let mut i: usize = 0;
        while i < self.events.len()
            invariant
                i <= self.events@.len(),
                forall|j: int| 0 <= j < i ==> self.events[j].tag@ != tag@,
            decreases self.events@.len() - i,
        {
            if str_eq(self.events[i].tag.as_str(), tag) {
                return Some(i);
            }
            i = i + 1;
        }
        None
    }
}

} // verus!
