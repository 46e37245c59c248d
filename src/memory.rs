//! Context compression: condenses a conversation into a short summary with
//! rough token counts (four characters to a token).
use vstd::prelude::*;

verus! {

/// The messages of a conversation, oldest first.
#[derive(Debug, Clone)]
pub struct ContextData {
    pub messages: Vec<String>,
}

/// A summary of a conversation and the estimated token counts before and
/// after.
#[derive(Debug, Clone)]
pub struct CompressedContext {
    pub summary: String,
    pub original_token_count: usize,
    pub compressed_token_count: usize,
}

/// Longest summary kept whole, in characters.
pub const SUMMARY_LIMIT: usize = 100;

/// The messages joined with line breaks.
pub open spec fn joined(ms: Seq<Seq<char>>) -> Seq<char>
    decreases ms.len(),
{
    if ms.len() == 0 {
        Seq::empty()
    } else if ms.len() == 1 {
        ms[0]
    } else {
        joined(ms.drop_last()) + "\n"@ + ms.last()
    }
}

/// The summary of a text: the text itself, or its first hundred characters
/// followed by an ellipsis.
pub open spec fn summary_of(text: Seq<char>) -> Seq<char> {
    if text.len() > SUMMARY_LIMIT {
        text.subrange(0, SUMMARY_LIMIT as int) + "..."@
    } else {
        text
    }
}

/// Compresses conversations.
#[derive(Debug, Clone, Copy)]
pub struct MemoryService;

impl MemoryService {
    pub fn new() -> (r: Self) {
        MemoryService
    }

    /// Summarises `context` and estimates token counts as characters / 4.
    pub fn compress_context(&self, context: ContextData) -> (r: CompressedContext)
        ensures
            r.summary@ == summary_of(joined(context.messages@.map_values(|m: String| m@))),
            r.original_token_count == joined(context.messages@.map_values(|m: String| m@)).len()
                / 4,
            r.compressed_token_count == r.summary@.len() / 4,
    {
        let ghost ms = context.messages@.map_values(|m: String| m@);
        let mut text = String::new();
        let mut i: usize = 0;
        while i < context.messages.len()
            invariant
                ms == context.messages@.map_values(|m: String| m@),
                i <= context.messages@.len(),
                text@ == joined(ms.subrange(0, i as int)),
            decreases context.messages@.len() - i,
        {
            proof {
                assert(ms.subrange(0, i + 1).drop_last() =~= ms.subrange(0, i as int));
            }
            if i > 0 {
                text.append("\n");
            }
            text.append(context.messages[i].as_str());
            i = i + 1;
            proof {
                if i == 1 {
                    assert(text@ =~= joined(ms.subrange(0, 1)));
                }
            }
        }
        proof {
            assert(ms.subrange(0, i as int) =~= ms);
        }
        let n = text.as_str().unicode_len();
        let summary = if n > SUMMARY_LIMIT {
            String::from_str(text.as_str().substring_char(0, SUMMARY_LIMIT)).concat("...")
        } else {
            text
        };
        let m = summary.as_str().unicode_len();
        CompressedContext {
            summary,
            original_token_count: n / 4,
            compressed_token_count: m / 4,
        }
    }
}

} // verus!
