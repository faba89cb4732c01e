use crate::completion::{Completion, CompletionView};
use crate::text::optional_text;
use crate::usage::Usage;
use vstd::prelude::*;
use vstd::string::*;

verus! {

/// The value of each chunk of a list.
pub open spec fn chunk_views(chunks: Seq<Completion>) -> Seq<CompletionView> {
    chunks.map_values(|chunk: Completion| chunk@)
}

/// A chunk that carries no answer text, no reasoning text and no usage. It
/// marks the end of the data that a fold reads.
pub open spec fn is_sentinel(chunk: CompletionView) -> bool {
    chunk.content is None && chunk.reasoning_content is None && chunk.usage is None
}

/// How many chunks a fold reads: those before the first sentinel, or all of
/// them where there is none.
pub open spec fn meaningful_len(chunks: Seq<CompletionView>) -> nat
    decreases chunks.len(),
{
    if chunks.len() == 0 || is_sentinel(chunks[0]) {
        0
    } else {
        1 + meaningful_len(chunks.drop_first())
    }
}

/// The chunks that a fold reads.
pub open spec fn meaningful(chunks: Seq<CompletionView>) -> Seq<CompletionView> {
    chunks.take(meaningful_len(chunks) as int)
}

/// The values that are present, in order.
pub open spec fn present<T>(values: Seq<Option<T>>) -> Seq<T> {
    values.filter_map(|value: Option<T>| value)
}

/// The fragments that are present, joined in order; nothing where none is
/// present.
pub open spec fn joined(fragments: Seq<Option<Seq<char>>>) -> Option<Seq<char>> {
    if present(fragments).len() == 0 {
        None
    } else {
        Some(present(fragments).flatten())
    }
}

/// The last value that is present; nothing where none is.
pub open spec fn latest<T>(values: Seq<Option<T>>) -> Option<T> {
    if present(values).len() == 0 {
        None
    } else {
        Some(present(values).last())
    }
}

/// The answer fragment of each chunk.
pub open spec fn contents(chunks: Seq<CompletionView>) -> Seq<Option<Seq<char>>> {
    chunks.map_values(|chunk: CompletionView| chunk.content)
}

/// The reasoning fragment of each chunk.
pub open spec fn reasonings(chunks: Seq<CompletionView>) -> Seq<Option<Seq<char>>> {
    chunks.map_values(|chunk: CompletionView| chunk.reasoning_content)
}

/// The usage of each chunk.
pub open spec fn usages(chunks: Seq<CompletionView>) -> Seq<Option<Usage>> {
    chunks.map_values(|chunk: CompletionView| chunk.usage)
}

/// All chunks folded into one completion: the answer fragments joined, the
/// reasoning fragments joined, and the last usage.
pub open spec fn folded(chunks: Seq<CompletionView>) -> CompletionView {
    CompletionView {
        content: joined(contents(chunks)),
        reasoning_content: joined(reasonings(chunks)),
        usage: latest(usages(chunks)),
    }
}

/// The completion that a sequence of chunks accumulates to: the fold of the
/// chunks before the first sentinel.
pub open spec fn collected(chunks: Seq<CompletionView>) -> CompletionView {
    folded(meaningful(chunks))
}

/// A running text with one more fragment: appended where there is one, and
/// started by it where the text was not begun.
pub open spec fn appended(so_far: Option<Seq<char>>, fragment: Option<Seq<char>>) -> Option<
    Seq<char>,
> {
    match fragment {
        Some(text) => Some(
            match so_far {
                Some(before) => before + text,
                None => text,
            },
        ),
        None => so_far,
    }
}

/// A running completion with one more chunk folded in.
pub open spec fn absorbed(so_far: CompletionView, chunk: CompletionView) -> CompletionView {
    CompletionView {
        content: appended(so_far.content, chunk.content),
        reasoning_content: appended(so_far.reasoning_content, chunk.reasoning_content),
        usage: if chunk.usage is Some {
            chunk.usage
        } else {
            so_far.usage
        },
    }
}

/// The values present after one more value.
pub proof fn lemma_present_push<T>(values: Seq<Option<T>>, value: Option<T>)
    ensures
        present(values.push(value)) == match value {
            Some(v) => present(values).push(v),
            None => present(values),
        },
{
    assert(values.push(value).drop_last() =~= values);
    match value {
        Some(v) => {
            assert(present(values) + seq![v] =~= present(values).push(v));
        },
        None => {},
    }
}

/// Joining one more fragment appends it to what was joined before.
pub proof fn lemma_joined_push(fragments: Seq<Option<Seq<char>>>, fragment: Option<Seq<char>>)
    ensures
        joined(fragments.push(fragment)) == appended(joined(fragments), fragment),
{
    lemma_present_push(fragments, fragment);
    match fragment {
        Some(text) => {
            present(fragments).lemma_flatten_push(text);
            if present(fragments).len() == 0 {
                assert(present(fragments).flatten() =~= Seq::<char>::empty());
                assert(Seq::<char>::empty() + text =~= text);
            }
        },
        None => {},
    }
}

/// The last present value after one more value.
pub proof fn lemma_latest_push<T>(values: Seq<Option<T>>, value: Option<T>)
    ensures
        latest(values.push(value)) == if value is Some {
            value
        } else {
            latest(values)
        },
{
    lemma_present_push(values, value);
}

/// Folding one more chunk absorbs it into the fold of those before.
pub proof fn lemma_folded_push(chunks: Seq<CompletionView>, chunk: CompletionView)
    ensures
        folded(chunks.push(chunk)) == absorbed(folded(chunks), chunk),
{
    assert(contents(chunks.push(chunk)) =~= contents(chunks).push(chunk.content));
    assert(reasonings(chunks.push(chunk)) =~= reasonings(chunks).push(chunk.reasoning_content));
    assert(usages(chunks.push(chunk)) =~= usages(chunks).push(chunk.usage));
    lemma_joined_push(contents(chunks), chunk.content);
    lemma_joined_push(reasonings(chunks), chunk.reasoning_content);
    lemma_latest_push(usages(chunks), chunk.usage);
}

/// The fold of no chunks holds nothing.
pub proof fn lemma_folded_empty()
    ensures
        folded(Seq::<CompletionView>::empty()) == (CompletionView {
            content: None,
            reasoning_content: None,
            usage: None,
        }),
{
    assert(contents(Seq::<CompletionView>::empty()) =~= Seq::empty());
    assert(reasonings(Seq::<CompletionView>::empty()) =~= Seq::empty());
    assert(usages(Seq::<CompletionView>::empty()) =~= Seq::empty());
}

/// A fold reads exactly the chunks before the first sentinel: none of them is
/// a sentinel, and the chunk after them, where there is one, is.
pub proof fn lemma_meaningful_len(chunks: Seq<CompletionView>)
    ensures
        meaningful_len(chunks) <= chunks.len(),
        forall|i: int| 0 <= i < meaningful_len(chunks) ==> !is_sentinel(#[trigger] chunks[i]),
        meaningful_len(chunks) < chunks.len() ==> is_sentinel(
            chunks[meaningful_len(chunks) as int],
        ),
    decreases chunks.len(),
{
    if chunks.len() == 0 || is_sentinel(chunks[0]) {
    } else {
        let rest = chunks.drop_first();
        lemma_meaningful_len(rest);
        assert forall|i: int| 0 <= i < meaningful_len(chunks) implies !is_sentinel(
            #[trigger] chunks[i],
        ) by {
            if i > 0 {
                assert(chunks[i] == rest[i - 1]);
            }
        }
    }
}

/// The number of chunks read is the one index that has no sentinel before it
/// and either a sentinel or the end at it.
pub proof fn lemma_meaningful_len_is(chunks: Seq<CompletionView>, n: int)
    requires
        0 <= n <= chunks.len(),
        forall|i: int| 0 <= i < n ==> !is_sentinel(#[trigger] chunks[i]),
        n < chunks.len() ==> is_sentinel(chunks[n]),
    ensures
        meaningful_len(chunks) == n,
{
    lemma_meaningful_len(chunks);
    let m = meaningful_len(chunks) as int;
    if m < n {
        assert(!is_sentinel(chunks[m]));
    } else if n < m {
        assert(!is_sentinel(chunks[n]));
    }
}

/// The state of a fold between two chunks.
pub struct AccumulatorView {
    /// What the chunks read so far accumulate to.
    pub so_far: CompletionView,
    /// Whether a sentinel has come, so that no later chunk is read.
    pub done: bool,
}

impl AccumulatorView {
    /// The state before any chunk.
    pub open spec fn start() -> Self {
        AccumulatorView {
            so_far: CompletionView { content: None, reasoning_content: None, usage: None },
            done: false,
        }
    }

    /// The state after one more chunk: a sentinel closes the fold, a chunk
    /// that comes after one changes nothing, and any other chunk is absorbed.
    pub open spec fn push(self, chunk: CompletionView) -> Self {
        if self.done || is_sentinel(chunk) {
            AccumulatorView { done: true, ..self }
        } else {
            AccumulatorView { so_far: absorbed(self.so_far, chunk), done: false }
        }
    }
}

/// The state of a fold that has been handed these chunks, one by one.
pub open spec fn state_after(chunks: Seq<CompletionView>) -> AccumulatorView {
    AccumulatorView { so_far: collected(chunks), done: meaningful_len(chunks) < chunks.len() }
}

/// A fold that was handed nothing is at its start.
pub proof fn lemma_state_after_nothing()
    ensures
        state_after(Seq::<CompletionView>::empty()) == AccumulatorView::start(),
{
    lemma_folded_empty();
    assert(meaningful(Seq::<CompletionView>::empty()) =~= Seq::<CompletionView>::empty());
}

/// Handing a fold its chunks one by one gives what the whole sequence
/// accumulates to.
pub proof fn lemma_state_after_push(chunks: Seq<CompletionView>, chunk: CompletionView)
    ensures
        state_after(chunks.push(chunk)) == state_after(chunks).push(chunk),
{
    let more = chunks.push(chunk);
    let m = meaningful_len(chunks) as int;
    lemma_meaningful_len(chunks);
    if m < chunks.len() {
        assert(more[m] == chunks[m]);
        assert forall|i: int| 0 <= i < m implies !is_sentinel(#[trigger] more[i]) by {
            assert(more[i] == chunks[i]);
        }
        lemma_meaningful_len_is(more, m);
        assert(meaningful(more) =~= meaningful(chunks));
    } else if is_sentinel(chunk) {
        assert forall|i: int| 0 <= i < m implies !is_sentinel(#[trigger] more[i]) by {
            assert(more[i] == chunks[i]);
        }
        lemma_meaningful_len_is(more, m);
        assert(meaningful(more) =~= meaningful(chunks));
    } else {
        assert forall|i: int| 0 <= i < m + 1 implies !is_sentinel(#[trigger] more[i]) by {
            if i < m {
                assert(more[i] == chunks[i]);
            }
        }
        lemma_meaningful_len_is(more, m + 1);
        assert(meaningful(more) =~= chunks.push(chunk));
        assert(meaningful(chunks) =~= chunks);
        lemma_folded_push(chunks, chunk);
    }
}

/// Once a prefix of the chunks holds a sentinel, what follows the prefix
/// changes nothing.
pub proof fn lemma_collected_closed(chunks: Seq<CompletionView>, n: int)
    requires
        0 <= n <= chunks.len(),
        meaningful_len(chunks.take(n)) < n,
    ensures
        collected(chunks) == collected(chunks.take(n)),
{
    let prefix = chunks.take(n);
    let m = meaningful_len(prefix) as int;
    lemma_meaningful_len(prefix);
    assert(prefix[m] == chunks[m]);
    assert forall|i: int| 0 <= i < m implies !is_sentinel(#[trigger] chunks[i]) by {
        assert(prefix[i] == chunks[i]);
    }
    lemma_meaningful_len_is(chunks, m);
    assert(meaningful(chunks) =~= meaningful(prefix));
}

/// Appends a fragment, where there is one, to a running text.
fn append_fragment(so_far: &mut Option<String>, fragment: Option<String>)
    ensures
        optional_text(*final(so_far)) == appended(
            optional_text(*old(so_far)),
            optional_text(fragment),
        ),
{
    match fragment {
        Some(text) => {
            let before = so_far.take();
            let joined = match before {
                Some(running) => {
                    let mut running = running;
                    running.append(text.as_str());
                    running
                },
                None => text,
            };
            *so_far = Some(joined);
        },
        None => {},
    }
}

/// A fold of partial completions into one, fed chunk by chunk.
pub struct Accumulator {
    content: Option<String>,
    reasoning_content: Option<String>,
    usage: Option<Usage>,
    done: bool,
}

impl View for Accumulator {
    type V = AccumulatorView;

    closed spec fn view(&self) -> AccumulatorView {
        AccumulatorView {
            so_far: CompletionView {
                content: optional_text(self.content),
                reasoning_content: optional_text(self.reasoning_content),
                usage: self.usage,
            },
            done: self.done,
        }
    }
}

impl Accumulator {
    pub fn new() -> (accumulator: Self)
        ensures
            accumulator@ == AccumulatorView::start(),
    {
        Accumulator { content: None, reasoning_content: None, usage: None, done: false }
    }

    /// Whether a sentinel has come. No chunk is read after it.
    pub fn is_done(&self) -> (done: bool)
        ensures
            done == self@.done,
    {
        self.done
    }

    /// Folds in the next chunk of the stream, and says whether the fold is
    /// still open for more.
    pub fn push(&mut self, chunk: Completion) -> (more: bool)
        ensures
            final(self)@ == old(self)@.push(chunk@),
            more == !final(self)@.done,
    {
        if self.done {
            return false;
        }
        let Completion { content, reasoning_content, usage } = chunk;
        if content.is_none() && reasoning_content.is_none() && usage.is_none() {
            self.done = true;
            return false;
        }
        append_fragment(&mut self.content, content);
        append_fragment(&mut self.reasoning_content, reasoning_content);
        if usage.is_some() {
            self.usage = usage;
        }
        true
    }

    /// The completion accumulated so far.
    pub fn finish(self) -> (completion: Completion)
        ensures
            completion@ == self@.so_far,
    {
        Completion {
            content: self.content,
            reasoning_content: self.reasoning_content,
            usage: self.usage,
        }
    }
}

/// Folds a sequence of partial completions, in arrival order, into one: the
/// answer fragments appended, the reasoning fragments appended, the last usage
/// kept. The fold reads up to the first chunk that carries none of the three,
/// or to the end.
pub fn collect(chunks: Vec<Completion>) -> (completion: Completion)
    ensures
        completion@ == collected(chunk_views(chunks@)),
{
    let ghost all = chunk_views(chunks@);
    let mut accumulator = Accumulator::new();
    proof {
        lemma_state_after_nothing();
        assert(all.take(0) =~= Seq::<CompletionView>::empty());
    }
    for chunk in it: chunks
        invariant
            it.seq() == chunks@,
            all == chunk_views(chunks@),
            accumulator@ == state_after(all.take(it.index() as int)),
            !accumulator@.done,
    {
        let ghost i = it.index() as int;
        proof {
            assert(all.take(i + 1) =~= all.take(i).push(chunk@));
            lemma_state_after_push(all.take(i), chunk@);
        }
        if !accumulator.push(chunk) {
            proof {
                lemma_collected_closed(all, i + 1);
            }
            return accumulator.finish();
        }
    }
    assert(all.take(all.len() as int) =~= all);
    accumulator.finish()
}

/// A chunk that carries usage and no text does not end the fold: the chunks
/// after it are read as if it were not there. It replaces the usage and leaves
/// both texts as they were.
pub proof fn lemma_usage_only_chunk(
    chunks: Seq<CompletionView>,
    usage: Usage,
    rest: Seq<CompletionView>,
)
    requires
        meaningful_len(chunks) == chunks.len(),
    ensures
        ({
            let chunk = CompletionView {
                content: None,
                reasoning_content: None,
                usage: Some(usage),
            };
            &&& !is_sentinel(chunk)
            &&& collected(chunks.push(chunk)) == (CompletionView {
                usage: Some(usage),
                ..collected(chunks)
            })
            &&& meaningful_len(chunks.push(chunk) + rest) == chunks.len() + 1 + meaningful_len(
                rest,
            )
        }),
{
    let chunk = CompletionView { content: None, reasoning_content: None, usage: Some(usage) };
    lemma_state_after_push(chunks, chunk);
    let whole = chunks.push(chunk) + rest;
    let n = (chunks.len() + 1 + meaningful_len(rest)) as int;
    lemma_meaningful_len(chunks);
    lemma_meaningful_len(rest);
    assert forall|i: int| 0 <= i < n implies !is_sentinel(#[trigger] whole[i]) by {
        if i < chunks.len() {
            assert(whole[i] == chunks[i]);
        } else if i > chunks.len() {
            assert(whole[i] == rest[i - chunks.len() - 1]);
        }
    }
    if n < whole.len() {
        assert(whole[n] == rest[meaningful_len(rest) as int]);
    }
    lemma_meaningful_len_is(whole, n);
}

} // verus!
