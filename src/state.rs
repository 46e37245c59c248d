//! Conversation buffer: a bounded message history with first-in, first-out
//! eviction, and the state manager that owns one.
use vstd::prelude::*;

verus! {

/// Memory tiers of the agent.
#[derive(Debug, Clone, Copy, PartialEq, Eq, Structural)]
pub enum MemoryTier {
    ShortTerm,
    MediumTerm,
    LongTerm,
}

/// Who produced a buffered message.
#[derive(Debug, Clone, Copy, PartialEq, Eq, Structural)]
pub enum MessageType {
    UserMessage,
    SystemMessage,
    ToolResponse,
    LLMResponse,
}

/// One entry of the conversation history. `timestamp_ms` is milliseconds
/// since the Unix epoch; `context_relevance` is an advisory score in
/// thousandths (0 to 1000) that eviction does not use.
#[derive(Debug, Clone)]
pub struct BufferedMessage {
    pub id: String,
    pub content: String,
    pub timestamp_ms: i64,
    pub message_type: MessageType,
    pub context_relevance: u32,
}

fn copy_message(m: &BufferedMessage) -> (r: BufferedMessage)
    ensures
        r == *m,
{
    BufferedMessage {
        id: m.id.clone(),
        content: m.content.clone(),
        timestamp_ms: m.timestamp_ms,
        message_type: m.message_type,
        context_relevance: m.context_relevance,
    }
}

/// The history after appending `m` to `s` in a buffer of `max_size`: when
/// the buffer is full the oldest entry goes first; a buffer of capacity
/// zero keeps nothing.
pub open spec fn buffer_after_add(
    s: Seq<BufferedMessage>,
    m: BufferedMessage,
    max_size: nat,
) -> Seq<BufferedMessage> {
    if max_size == 0 {
        s
    } else if s.len() >= max_size && s.len() > 0 {
        s.drop_first().push(m)
    } else {
        s.push(m)
    }
}

/// The history after appending each of `ms` in order.
pub open spec fn buffer_after_adds(
    s: Seq<BufferedMessage>,
    ms: Seq<BufferedMessage>,
    max_size: nat,
) -> Seq<BufferedMessage>
    decreases ms.len(),
{
    if ms.len() == 0 {
        s
    } else {
        buffer_after_adds(buffer_after_add(s, ms[0], max_size), ms.drop_first(), max_size)
    }
}

/// The last `n` entries of `s` (all of `s` when it is shorter).
pub open spec fn last_n<T>(s: Seq<T>, n: nat) -> Seq<T> {
    if s.len() <= n {
        s
    } else {
        s.subrange(s.len() - n, s.len() as int)
    }
}

/// Bounded, order-preserving message history.
pub struct ConversationBuffer {
    messages: std::collections::VecDeque<BufferedMessage>,
    max_size: usize,
}

impl ConversationBuffer {
    /// The messages held, oldest first.
    pub closed spec fn contents(&self) -> Seq<BufferedMessage> {
        self.messages@
    }

    pub closed spec fn capacity(&self) -> nat {
        self.max_size as nat
    }

    /// Never more entries than the capacity.
    pub open spec fn wf(&self) -> bool {
        self.contents().len() <= self.capacity()
    }

    pub fn new(max_size: usize) -> (r: Self)
        ensures
            r.wf(),
            r.contents() == Seq::<BufferedMessage>::empty(),
            r.capacity() == max_size,
    {
        ConversationBuffer { messages: std::collections::VecDeque::new(), max_size }
    }

    pub fn max_size(&self) -> (r: usize)
        ensures
            r == self.capacity(),
    {
        self.max_size
    }

    pub fn len(&self) -> (r: usize)
        ensures
            r == self.contents().len(),
    {
        self.messages.len()
    }

    /// Appends `message`, evicting the oldest entry first when full.
    pub fn add_message(&mut self, message: BufferedMessage) -> (r: Result<(), String>)
        requires
            old(self).wf(),
        ensures
            r is Ok,
            final(self).wf(),
            final(self).capacity() == old(self).capacity(),
            final(self).contents() == buffer_after_add(
                old(self).contents(),
                message,
                old(self).capacity(),
            ),
    {
        if self.max_size == 0 {
            return Ok(());
        }
        if self.messages.len() >= self.max_size {
            let _ = self.messages.pop_front();
        }
        self.messages.push_back(message);
        proof {
            assert(self.messages@ =~= buffer_after_add(
                old(self).messages@,
                message,
                old(self).max_size as nat,
            ));
        }
        Ok(())
    }

    /// A point-in-time copy of the history, oldest first.
    pub fn get_messages(&self) -> (r: Vec<BufferedMessage>)
        ensures
            r@ == self.contents(),
    {
        let mut out: Vec<BufferedMessage> = Vec::new();
        let mut i: usize = 0;
        while i < self.messages.len()
            invariant
                i <= self.messages@.len(),
                out@ == self.messages@.subrange(0, i as int),
            decreases self.messages@.len() - i,
        {
            out.push(copy_message(&self.messages[i]));
            i = i + 1;
            proof {
                assert(out@ =~= self.messages@.subrange(0, i as int));
            }
        }
        proof {
            assert(out@ =~= self.messages@);
        }
        out
    }

    /// Empties the history.
    pub fn clear(&mut self) -> (r: Result<(), String>)
        ensures
            r is Ok,
            final(self).wf(),
            final(self).capacity() == old(self).capacity(),
            final(self).contents() == Seq::<BufferedMessage>::empty(),
    {
        self.messages.clear();
        proof {
            assert(self.messages@ =~= Seq::<BufferedMessage>::empty());
        }
        Ok(())
    }
}

proof fn lemma_add_keeps_last_n(x: Seq<BufferedMessage>, m: BufferedMessage, n: nat)
    ensures
        buffer_after_add(last_n(x, n), m, n) =~= last_n(x.push(m), n),
{
    let s = last_n(x, n);
    if n == 0 {
        assert(s.len() == 0);
    } else if x.len() < n {
    } else if x.len() == n {
        assert(s.drop_first() =~= x.push(m).subrange(x.push(m).len() - n, x.push(m).len() as int).drop_last());
    } else {
        assert(s.len() == n);
    }
}

proof fn lemma_adds_are_last_n(x: Seq<BufferedMessage>, ms: Seq<BufferedMessage>, n: nat)
    ensures
        buffer_after_adds(last_n(x, n), ms, n) =~= last_n(x + ms, n),
    decreases ms.len(),
{
    if ms.len() == 0 {
        assert(x + ms =~= x);
    } else {
        lemma_add_keeps_last_n(x, ms[0], n);
        lemma_adds_are_last_n(x.push(ms[0]), ms.drop_first(), n);
        assert(x.push(ms[0]) + ms.drop_first() =~= x + ms);
    }
}

/// After more insertions than the capacity into an empty buffer, the buffer
/// holds exactly the last `max_size` insertions, in insertion order.
pub proof fn lemma_buffer_keeps_latest(ms: Seq<BufferedMessage>, max_size: nat)
    requires
        ms.len() > max_size,
    ensures
        buffer_after_adds(Seq::empty(), ms, max_size).len() == max_size,
        buffer_after_adds(Seq::empty(), ms, max_size) =~= ms.subrange(
            ms.len() - max_size,
            ms.len() as int,
        ),
{
    let e = Seq::<BufferedMessage>::empty();
    assert(last_n(e, max_size) =~= e);
    assert(last_n(e + ms, max_size).len() == max_size);
    lemma_adds_are_last_n(e, ms, max_size);
    assert(e + ms =~= ms);
}

/// Holds the conversation buffer of one agent.
pub struct StateManager {
    conversation_buffer: ConversationBuffer,
}

/// Capacity of the conversation buffer a state manager starts with.
pub const DEFAULT_BUFFER_SIZE: usize = 10;

impl StateManager {
    pub open spec fn wf(&self) -> bool {
        self.buffer().wf() && self.buffer().capacity() == DEFAULT_BUFFER_SIZE
    }

    pub closed spec fn buffer(&self) -> ConversationBuffer {
        self.conversation_buffer
    }

    pub fn new() -> (r: Self)
        ensures
            r.wf(),
            r.buffer().contents() == Seq::<BufferedMessage>::empty(),
    {
        StateManager { conversation_buffer: ConversationBuffer::new(DEFAULT_BUFFER_SIZE) }
    }

    pub fn add_to_buffer(&mut self, message: BufferedMessage) -> (r: Result<(), String>)
        requires
            old(self).wf(),
        ensures
            r is Ok,
            final(self).wf(),
            final(self).buffer().contents() == buffer_after_add(
                old(self).buffer().contents(),
                message,
                DEFAULT_BUFFER_SIZE as nat,
            ),
    {
        self.conversation_buffer.add_message(message)
    }

    pub fn get_buffer_messages(&self) -> (r: Vec<BufferedMessage>)
        ensures
            r@ == self.buffer().contents(),
    {
        self.conversation_buffer.get_messages()
    }

    pub fn clear_buffer(&mut self) -> (r: Result<(), String>)
        requires
            old(self).wf(),
        ensures
            r is Ok,
            final(self).wf(),
            final(self).buffer().contents() == Seq::<BufferedMessage>::empty(),
    {
        self.conversation_buffer.clear()
    }

    pub fn buffer_size(&self) -> (r: usize)
        ensures
            r == self.buffer().contents().len(),
    {
        self.conversation_buffer.len()
    }
}

} // verus!
