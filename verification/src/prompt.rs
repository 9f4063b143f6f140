//! Composition of the retrieval-augmented generation prompt.
//!
//! The prompt is the persona preamble, a fixed connective, the literal event
//! text, and — only when retrieval returned something — a fixed instruction
//! followed by each retrieved text in rank order.  With no memories the
//! instruction and the memory block are omitted entirely.

use vstd::prelude::*;
use vstd::string::{StrSliceExecFns, StringExecFns};
use crate::memory::{lemma_empty_store_empty_result, retrieval_ok, MemoryRecord};
use crate::tags::TagPair;

verus! {

/// The fixed connective between the persona preamble and the event text.
pub open spec fn preamble_text() -> Seq<char> {
    "An event happened in the world. "@
}

/// The instruction inserted before the retrieved memories.
pub open spec fn memories_instruction() -> Seq<char> {
    " For context, here are some prompts generated from past events. You must use them in your answer"@
}

/// The memory block over the first `n` memories: each is appended as a line
/// break, the text, and a full stop.
pub open spec fn memory_block_upto(mems: Seq<String>, n: int) -> Seq<char>
    decreases n,
{
    if n <= 0 {
        Seq::<char>::empty()
    } else {
        memory_block_upto(mems, n - 1) + "\n"@ + mems[n - 1]@ + "."@
    }
}

/// The full augmented prompt for one request.
pub open spec fn composed_prompt(story: Seq<char>, prompt_text: Seq<char>, mems: Seq<String>) -> Seq<
    char,
> {
    let base = story + preamble_text() + prompt_text;
    if mems.len() == 0 {
        base
    } else {
        base + memories_instruction() + memory_block_upto(mems, mems.len() as int)
    }
}

/// With no retrieved memories, the prompt is exactly the preamble and the
/// event text: no instruction and no placeholder is emitted.
pub proof fn lemma_no_memories_no_instruction(story: Seq<char>, prompt_text: Seq<char>)
    ensures
        composed_prompt(story, prompt_text, Seq::<String>::empty()) == story + preamble_text()
            + prompt_text,
{
}

/// Retrieval from an empty store returns nothing, so the prompt composed
/// from its result is exactly the preamble and the event text: the
/// instruction and the memory block are omitted entirely.
pub proof fn lemma_empty_store_prompt_unaugmented(
    story: Seq<char>,
    prompt_text: Seq<char>,
    q: Seq<i32>,
    filter: Seq<TagPair>,
    k: int,
    out: Seq<String>,
)
    requires
        k >= 0,
        retrieval_ok(Seq::<MemoryRecord>::empty(), q, filter, k, out),
    ensures
        composed_prompt(story, prompt_text, out) == story + preamble_text() + prompt_text,
{
    lemma_empty_store_empty_result(q, filter, k, out);
}

/// Builds the augmented prompt for one request.
pub fn compose_prompt(story: &str, prompt_text: &str, memories: &Vec<String>) -> (out: String)
    ensures
        out@ == composed_prompt(story@, prompt_text@, memories@),
{
    let mut out = String::from_str(story);
    out.append("An event happened in the world. ");
    out.append(prompt_text);
    let ghost base = story@ + preamble_text() + prompt_text@;
    if memories.len() > 0 {
        out.append(
            " For context, here are some prompts generated from past events. You must use them in your answer",
        );
        let ghost head = base + memories_instruction();
        proof {
            assert(out@ =~= head + memory_block_upto(memories@, 0));
        }
        let mut i: usize = 0;
        while i < memories.len()
            invariant
                i <= memories@.len(),
                out@ == head + memory_block_upto(memories@, i as int),
            decreases memories@.len() - i,
        {
            out.append("\n");
            out.append(memories[i].as_str());
            out.append(".");
            proof {
                assert(out@ =~= head + memory_block_upto(memories@, i as int + 1));
            }
            i = i + 1;
        }
        proof {
            assert(out@ == composed_prompt(story@, prompt_text@, memories@));
        }
    } else {
        proof {
            assert(out@ =~= composed_prompt(story@, prompt_text@, memories@));
        }
    }
    out
}

} // verus!
