use crate::accumulate::{
    chunk_views, is_sentinel, lemma_meaningful_len, lemma_meaningful_len_is, meaningful,
    meaningful_len,
};
use crate::completion::{think_close, think_open, Completion, CompletionView};
use crate::text::texts_view;
use vstd::prelude::*;
use vstd::string::*;

verus! {

/// The texts that one chunk adds to the text view of a stream. Reasoning text
/// is preceded by the opening marker unless a reasoning block is open; answer
/// text is preceded by the closing marker where one is.
pub open spec fn emitted(in_reasoning: bool, chunk: CompletionView) -> Seq<Seq<char>> {
    let reasoning = match chunk.reasoning_content {
        Some(text) => if in_reasoning {
            seq![text]
        } else {
            seq![think_open(), text]
        },
        None => Seq::<Seq<char>>::empty(),
    };
    let answer = match chunk.content {
        Some(text) => if in_reasoning || chunk.reasoning_content is Some {
            seq![think_close(), text]
        } else {
            seq![text]
        },
        None => Seq::<Seq<char>>::empty(),
    };
    reasoning + answer
}

/// Whether a reasoning block is open after one chunk: answer text closes it,
/// reasoning text without answer text opens it, and a chunk with neither
/// leaves it as it was.
pub open spec fn reasoning_after(in_reasoning: bool, chunk: CompletionView) -> bool {
    if chunk.content is Some {
        false
    } else {
        in_reasoning || chunk.reasoning_content is Some
    }
}

/// Whether a reasoning block is open after all these chunks.
pub open spec fn in_reasoning_after(chunks: Seq<CompletionView>) -> bool
    decreases chunks.len(),
{
    if chunks.len() == 0 {
        false
    } else {
        reasoning_after(in_reasoning_after(chunks.drop_last()), chunks.last())
    }
}

/// The texts that all these chunks add, in order.
pub open spec fn emitted_by(chunks: Seq<CompletionView>) -> Seq<Seq<char>>
    decreases chunks.len(),
{
    if chunks.len() == 0 {
        Seq::<Seq<char>>::empty()
    } else {
        emitted_by(chunks.drop_last()) + emitted(
            in_reasoning_after(chunks.drop_last()),
            chunks.last(),
        )
    }
}

/// The text view of a stream of chunks: what the chunks before the first
/// sentinel add.
pub open spec fn streamed_texts(chunks: Seq<CompletionView>) -> Seq<Seq<char>> {
    emitted_by(meaningful(chunks))
}

/// The state of the text view between two chunks.
pub struct TextStateView {
    /// Whether a reasoning block is open.
    pub in_reasoning: bool,
    /// Whether a sentinel has come, so that no later chunk is read.
    pub done: bool,
}

impl TextStateView {
    /// The state before any chunk.
    pub open spec fn start() -> Self {
        TextStateView { in_reasoning: false, done: false }
    }

    /// The texts that the next chunk adds in this state.
    pub open spec fn emits(self, chunk: CompletionView) -> Seq<Seq<char>> {
        if self.done || is_sentinel(chunk) {
            Seq::<Seq<char>>::empty()
        } else {
            emitted(self.in_reasoning, chunk)
        }
    }

    /// The state after the next chunk.
    pub open spec fn push(self, chunk: CompletionView) -> Self {
        if self.done || is_sentinel(chunk) {
            TextStateView { done: true, ..self }
        } else {
            TextStateView { in_reasoning: reasoning_after(self.in_reasoning, chunk), done: false }
        }
    }
}

/// The state of a text view that has been handed these chunks, one by one.
pub open spec fn text_state_after(chunks: Seq<CompletionView>) -> TextStateView {
    TextStateView {
        in_reasoning: in_reasoning_after(meaningful(chunks)),
        done: meaningful_len(chunks) < chunks.len(),
    }
}

/// Handing the text view its chunks one by one gives the text view of the
/// whole sequence.
pub proof fn lemma_streamed_push(chunks: Seq<CompletionView>, chunk: CompletionView)
    ensures
        text_state_after(chunks.push(chunk)) == text_state_after(chunks).push(chunk),
        streamed_texts(chunks.push(chunk)) == streamed_texts(chunks) + text_state_after(
            chunks,
        ).emits(chunk),
{
    let more = chunks.push(chunk);
    let m = meaningful_len(chunks) as int;
    lemma_meaningful_len(chunks);
    if m < chunks.len() || is_sentinel(chunk) {
        if m < chunks.len() {
            assert(more[m] == chunks[m]);
        }
        assert forall|i: int| 0 <= i < m implies !is_sentinel(#[trigger] more[i]) by {
            assert(more[i] == chunks[i]);
        }
        lemma_meaningful_len_is(more, m);
        assert(meaningful(more) =~= meaningful(chunks));
        assert(streamed_texts(chunks) + Seq::<Seq<char>>::empty() =~= streamed_texts(chunks));
    } else {
        assert forall|i: int| 0 <= i < m + 1 implies !is_sentinel(#[trigger] more[i]) by {
            if i < m {
                assert(more[i] == chunks[i]);
            }
        }
        lemma_meaningful_len_is(more, m + 1);
        assert(meaningful(more) =~= more);
        assert(meaningful(chunks) =~= chunks);
        assert(more.drop_last() =~= chunks);
    }
}

/// Once a prefix of the chunks holds a sentinel, what follows the prefix adds
/// no text.
pub proof fn lemma_streamed_closed(chunks: Seq<CompletionView>, n: int)
    requires
        0 <= n <= chunks.len(),
        meaningful_len(chunks.take(n)) < n,
    ensures
        streamed_texts(chunks) == streamed_texts(chunks.take(n)),
{
    let prefix = chunks.take(n);
    let m = meaningful_len(prefix) as int;
    lemma_meaningful_len(prefix);
    assert(prefix[m] == chunks[m]);
    assert forall|i: int| 0 <= i < m implies !is_sentinel(#[trigger] chunks[i]) by {
        assert(prefix[i] == chunks[i]);
    }
    lemma_meaningful_len_is(chunks, m);
    assert(meaningful(chunks) =~= meaningful(prefix));
}

/// The text view of a stream of partial completions, fed chunk by chunk.
pub struct TextAccumulator {
    in_reasoning: bool,
    done: bool,
}

impl View for TextAccumulator {
    type V = TextStateView;

    closed spec fn view(&self) -> TextStateView {
        TextStateView { in_reasoning: self.in_reasoning, done: self.done }
    }
}

impl TextAccumulator {
    pub fn new() -> (accumulator: Self)
        ensures
            accumulator@ == TextStateView::start(),
    {
        TextAccumulator { in_reasoning: false, done: false }
    }

    /// Whether a sentinel has come. No chunk is read after it.
    pub fn is_done(&self) -> (done: bool)
        ensures
            done == self@.done,
    {
        self.done
    }

    /// Takes the next chunk of the stream and hands out the texts that it
    /// adds, in order.
    pub fn push(&mut self, chunk: Completion) -> (texts: Vec<String>)
        ensures
            final(self)@ == old(self)@.push(chunk@),
            texts_view(texts@) == old(self)@.emits(chunk@),
    {
        let mut texts: Vec<String> = Vec::new();
        if self.done {
            assert(texts_view(texts@) =~= Seq::<Seq<char>>::empty());
            return texts;
        }
        let Completion { content, reasoning_content, usage } = chunk;
        if content.is_none() && reasoning_content.is_none() && usage.is_none() {
            self.done = true;
            assert(texts_view(texts@) =~= Seq::<Seq<char>>::empty());
            return texts;
        }
        match reasoning_content {
            Some(text) => {
                if !self.in_reasoning {
                    texts.push("<think>".to_owned());
                    self.in_reasoning = true;
                }
                texts.push(text);
            },
            None => {},
        }
        match content {
            Some(text) => {
                if self.in_reasoning {
                    texts.push("</think>".to_owned());
                    self.in_reasoning = false;
                }
                texts.push(text);
            },
            None => {},
        }
        assert(texts_view(texts@) =~= old(self)@.emits(chunk@));
        texts
    }
}

/// The text view of a whole sequence of partial completions: each answer
/// and reasoning fragment in arrival order, with the reasoning blocks
/// between their two markers.
pub fn text_stream(chunks: Vec<Completion>) -> (texts: Vec<String>)
    ensures
        texts_view(texts@) == streamed_texts(chunk_views(chunks@)),
{
    let ghost all = chunk_views(chunks@);
    let mut accumulator = TextAccumulator::new();
    let mut texts: Vec<String> = Vec::new();
    proof {
        assert(all.take(0) =~= Seq::<CompletionView>::empty());
        assert(meaningful(Seq::<CompletionView>::empty()) =~= Seq::<CompletionView>::empty());
        assert(texts_view(texts@) =~= Seq::<Seq<char>>::empty());
    }
    for chunk in it: chunks
        invariant
            it.seq() == chunks@,
            all == chunk_views(chunks@),
            accumulator@ == text_state_after(all.take(it.index() as int)),
            !accumulator@.done,
            texts_view(texts@) == streamed_texts(all.take(it.index() as int)),
    {
        let ghost i = it.index() as int;
        proof {
            assert(all.take(i + 1) =~= all.take(i).push(chunk@));
            lemma_streamed_push(all.take(i), chunk@);
        }
        let mut added = accumulator.push(chunk);
        let ghost before = texts@;
        let ghost extra = added@;
        texts.append(&mut added);
        assert(texts_view(texts@) =~= texts_view(before) + texts_view(extra));
        if accumulator.is_done() {
            proof {
                lemma_streamed_closed(all, i + 1);
            }
            return texts;
        }
    }
    assert(all.take(all.len() as int) =~= all);
    texts
}

/// All texts of a list joined into one, in order.
pub fn join_texts(texts: &Vec<String>) -> (text: String)
    ensures
        text@ == texts_view(texts@).flatten(),
{
    let mut text = String::new();
    let mut i: usize = 0;
    assert(texts_view(texts@).take(0) =~= Seq::<Seq<char>>::empty());
    while i < texts.len()
        invariant
            i <= texts.len(),
            text@ == texts_view(texts@).take(i as int).flatten(),
        decreases texts.len() - i,
    {
        proof {
            let all = texts_view(texts@);
            assert(all.take(i + 1) =~= all.take(i as int).push(texts@[i as int]@));
            all.take(i as int).lemma_flatten_push(texts@[i as int]@);
        }
        text.append(texts[i].as_str());
        i += 1;
    }
    assert(texts_view(texts@).take(texts.len() as int) =~= texts_view(texts@));
    text
}

/// The text view of a whole sequence of partial completions, joined into one
/// text.
pub fn text_completion(chunks: Vec<Completion>) -> (text: String)
    ensures
        text@ == streamed_texts(chunk_views(chunks@)).flatten(),
{
    let texts = text_stream(chunks);
    join_texts(&texts)
}

} // verus!
