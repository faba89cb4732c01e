use crate::accumulate::{
    absorbed, appended, collected, contents, folded, joined, lemma_folded_empty,
    lemma_folded_push, lemma_joined_push, meaningful,
};
use crate::completion::{rendered, think_close, think_open, CompletionView};
use crate::text_stream::{emitted, emitted_by, in_reasoning_after, streamed_texts};
use vstd::prelude::*;
use vstd::seq_lib::lemma_flatten_concat;

verus! {

/// The characters of an optional text; none where there is no text.
pub open spec fn text_or_empty(text: Option<Seq<char>>) -> Seq<char> {
    match text {
        Some(t) => t,
        None => Seq::<char>::empty(),
    }
}

/// Answer text that comes in an earlier chunk than some reasoning text is
/// empty, and no reasoning has come up to it. So all reasoning forms one
/// block, and nothing is displayed before that block.
pub open spec fn reasoning_leads(chunks: Seq<CompletionView>) -> bool {
    forall|h: int, i: int, j: int|
        #![trigger chunks[h], chunks[i], chunks[j]]
        0 <= h <= i < j < chunks.len() && chunks[i].content is Some
            && chunks[j].reasoning_content is Some ==> chunks[i].content->0.len() == 0
            && chunks[h].reasoning_content is None
}

/// What the text view of one chunk joins to.
pub open spec fn emitted_text(in_reasoning: bool, chunk: CompletionView) -> Seq<char> {
    let reasoning = match chunk.reasoning_content {
        Some(text) => if in_reasoning {
            text
        } else {
            think_open() + text
        },
        None => Seq::<char>::empty(),
    };
    let answer = match chunk.content {
        Some(text) => if in_reasoning || chunk.reasoning_content is Some {
            think_close() + text
        } else {
            text
        },
        None => Seq::<char>::empty(),
    };
    reasoning + answer
}

proof fn lemma_flatten_pair(a: Seq<char>, b: Seq<char>)
    ensures
        seq![a].flatten() == a,
        seq![a, b].flatten() == a + b,
        Seq::<Seq<char>>::empty().flatten() == Seq::<char>::empty(),
{
    seq![a].lemma_flatten_singleton();
    assert(seq![a, b] =~= seq![a].push(b));
    seq![a].lemma_flatten_push(b);
}

proof fn lemma_emitted_text(in_reasoning: bool, chunk: CompletionView)
    ensures
        emitted(in_reasoning, chunk).flatten() == emitted_text(in_reasoning, chunk),
{
    let reasoning = match chunk.reasoning_content {
        Some(text) => if in_reasoning {
            seq![text]
        } else {
            seq![think_open(), text]
        },
        None => Seq::<Seq<char>>::empty(),
    };
    let answer = match chunk.content {
        Some(text) => if in_reasoning || chunk.reasoning_content is Some {
            seq![think_close(), text]
        } else {
            seq![text]
        },
        None => Seq::<Seq<char>>::empty(),
    };
    lemma_flatten_concat(reasoning, answer);
    match chunk.reasoning_content {
        Some(text) => {
            lemma_flatten_pair(text, text);
            lemma_flatten_pair(think_open(), text);
        },
        None => {
            lemma_flatten_pair(think_open(), think_open());
        },
    }
    match chunk.content {
        Some(text) => {
            lemma_flatten_pair(text, text);
            lemma_flatten_pair(think_close(), text);
        },
        None => {},
    }
}

/// Fragments that are all empty join to no characters.
proof fn lemma_joined_of_empties(fragments: Seq<Option<Seq<char>>>)
    requires
        forall|i: int|
            0 <= i < fragments.len() && (#[trigger] fragments[i]) is Some
                ==> fragments[i]->0.len() == 0,
    ensures
        text_or_empty(joined(fragments)) =~= Seq::<char>::empty(),
    decreases fragments.len(),
{
    if fragments.len() == 0 {
        assert(crate::accumulate::present(fragments) =~= Seq::<Seq<char>>::empty());
    } else {
        let before = fragments.drop_last();
        assert forall|i: int| 0 <= i < before.len() && (#[trigger] before[i]) is Some implies
            before[i]->0.len() == 0 by {
            assert(before[i] == fragments[i]);
        }
        lemma_joined_of_empties(before);
        assert(fragments =~= before.push(fragments.last()));
        lemma_joined_push(before, fragments.last());
    }
}

/// The display text of the fold and the joined text view, side by side, for
/// chunks in which reasoning leads. There are three stages: no reasoning
/// yet, a reasoning block that is open, and a reasoning block that was closed.
proof fn lemma_stages(chunks: Seq<CompletionView>)
    requires
        reasoning_leads(chunks),
    ensures
        ({
            let fold = folded(chunks);
            let open = in_reasoning_after(chunks);
            let text = emitted_by(chunks).flatten();
            &&& fold.reasoning_content is None ==> {
                &&& !open
                &&& text == text_or_empty(fold.content)
                &&& forall|i: int|
                    0 <= i < chunks.len() ==> (#[trigger] chunks[i]).reasoning_content is None
            }
            &&& fold.reasoning_content is Some && open ==> {
                &&& text == think_open() + fold.reasoning_content->0
                &&& text_or_empty(fold.content) == Seq::<char>::empty()
                &&& exists|h: int|
                    0 <= h < chunks.len() && (#[trigger] chunks[h]).reasoning_content is Some
                &&& forall|i: int|
                    0 <= i < chunks.len() ==> (#[trigger] chunks[i]).content is None || forall|
                        h: int,
                    |
                        0 <= h <= i ==> (#[trigger] chunks[h]).reasoning_content is None
            }
            &&& fold.reasoning_content is Some && !open ==> {
                &&& text == think_open() + fold.reasoning_content->0 + think_close()
                    + text_or_empty(fold.content)
                &&& exists|h: int, i: int|
                    0 <= h <= i < chunks.len() && (#[trigger] chunks[h]).reasoning_content is Some
                        && (#[trigger] chunks[i]).content is Some
            }
        }),
    decreases chunks.len(),
{
    if chunks.len() == 0 {
        lemma_folded_empty();
        assert(chunks =~= Seq::<CompletionView>::empty());
        assert(emitted_by(chunks).flatten() =~= Seq::<char>::empty());
    } else {
        let before = chunks.drop_last();
        let last = chunks.last();
        let n = before.len() as int;
        assert(chunks =~= before.push(last));
        assert(reasoning_leads(before)) by {
            assert forall|h: int, i: int, j: int|
                #![trigger before[h], before[i], before[j]]
                0 <= h <= i < j < before.len() && before[i].content is Some
                    && before[j].reasoning_content is Some implies before[i].content->0.len() == 0
                && before[h].reasoning_content is None by {
                assert(chunks[h] == before[h] && chunks[i] == before[i] && chunks[j] == before[j]);
            }
        }
        lemma_stages(before);
        lemma_folded_push(before, last);
        lemma_emitted_text(in_reasoning_after(before), last);
        lemma_flatten_concat(emitted_by(before), emitted(in_reasoning_after(before), last));

        let fold_before = folded(before);
        let open_before = in_reasoning_after(before);
        let text_before = emitted_by(before).flatten();
        let fold = folded(chunks);
        let open = in_reasoning_after(chunks);
        let text = emitted_by(chunks).flatten();
        assert(fold == absorbed(fold_before, last));
        assert(text == text_before + emitted_text(open_before, last));
        assert(text_or_empty(fold.content) =~= text_or_empty(fold_before.content) + text_or_empty(
            last.content,
        ));
        assert(text_or_empty(fold.reasoning_content) =~= text_or_empty(
            fold_before.reasoning_content,
        ) + text_or_empty(last.reasoning_content));

        if fold_before.reasoning_content is None {
            if last.reasoning_content is Some {
                // Everything displayed so far was empty answer text.
                assert forall|i: int|
                    0 <= i < contents(before).len() && (#[trigger] contents(before)[i]) is Some
                implies contents(before)[i]->0.len() == 0 by {
                    assert(chunks[i] == before[i]);
                    assert(chunks[i].content is Some && chunks[n].reasoning_content is Some);
                    assert(chunks[i].content->0.len() == 0 && chunks[i].reasoning_content is None);
                }
                lemma_joined_of_empties(contents(before));
                assert(text_before =~= Seq::<char>::empty());
                assert(chunks[n].reasoning_content is Some);
                if last.content is Some {
                    assert(chunks[n].content is Some);
                    assert(text =~= think_open() + fold.reasoning_content->0 + think_close()
                        + text_or_empty(fold.content));
                } else {
                    assert(text =~= think_open() + fold.reasoning_content->0);
                    assert forall|i: int| 0 <= i < chunks.len() implies (#[trigger] chunks[i]).content
                        is None || forall|h: int|
                        0 <= h <= i ==> (#[trigger] chunks[h]).reasoning_content is None by {
                        if i < n && chunks[i].content is Some {
                            assert forall|h: int| 0 <= h <= i implies (
                            #[trigger] chunks[h]).reasoning_content is None by {
                                assert(chunks[h] == before[h]);
                            }
                        }
                    }
                }
            } else {
                assert(text =~= text_or_empty(fold.content));
                assert forall|i: int| 0 <= i < chunks.len() implies (
                #[trigger] chunks[i]).reasoning_content is None by {
                    if i < n {
                        assert(chunks[i] == before[i]);
                    }
                }
            }
        } else if open_before {
            let h0 = choose|h: int|
                0 <= h < before.len() && (#[trigger] before[h]).reasoning_content is Some;
            assert(chunks[h0] == before[h0]);
            if last.content is Some {
                assert(chunks[n].content is Some);
                assert(text =~= think_open() + fold.reasoning_content->0 + think_close()
                    + text_or_empty(fold.content));
            } else {
                assert(text =~= think_open() + fold.reasoning_content->0);
                assert(text_or_empty(fold.content) =~= Seq::<char>::empty());
                assert forall|i: int| 0 <= i < chunks.len() implies (#[trigger] chunks[i]).content
                    is None || forall|h: int|
                    0 <= h <= i ==> (#[trigger] chunks[h]).reasoning_content is None by {
                    if i < n && chunks[i].content is Some {
                        assert(chunks[i] == before[i]);
                        assert forall|h: int| 0 <= h <= i implies (
                        #[trigger] chunks[h]).reasoning_content is None by {
                            assert(chunks[h] == before[h]);
                        }
                    }
                }
            }
        } else {
            let (h0, i0) = choose|h: int, i: int|
                0 <= h <= i < before.len() && (#[trigger] before[h]).reasoning_content is Some && (
                #[trigger] before[i]).content is Some;
            assert(chunks[h0] == before[h0] && chunks[i0] == before[i0]);
            if last.reasoning_content is Some {
                // Reasoning after the block was closed: ruled out.
                assert(chunks[n].reasoning_content is Some);
                assert(chunks[h0].reasoning_content is None);
            }
            assert(text =~= think_open() + fold.reasoning_content->0 + think_close()
                + text_or_empty(fold.content));
        }
    }
}

/// The display text of what a stream accumulates to is the text view of the
/// stream, joined. This holds of the streams whose reasoning forms one block
/// with only empty answer text before it, and which do not end inside that
/// block.
pub proof fn lemma_display_round_trip(chunks: Seq<CompletionView>)
    requires
        reasoning_leads(meaningful(chunks)),
        !in_reasoning_after(meaningful(chunks)),
    ensures
        rendered(collected(chunks)) == streamed_texts(chunks).flatten(),
{
    lemma_stages(meaningful(chunks));
    let fold = collected(chunks);
    if fold.reasoning_content is None {
        assert(rendered(fold) =~= text_or_empty(fold.content));
    }
}

/// Without reasoning text, the display text of what a stream accumulates to
/// is the text view of the stream, joined.
pub proof fn lemma_display_round_trip_plain(chunks: Seq<CompletionView>)
    requires
        forall|i: int|
            0 <= i < chunks.len() ==> (#[trigger] chunks[i]).reasoning_content is None,
    ensures
        rendered(collected(chunks)) == streamed_texts(chunks).flatten(),
{
    let read = meaningful(chunks);
    crate::accumulate::lemma_meaningful_len(chunks);
    assert forall|i: int| 0 <= i < read.len() implies (#[trigger] read[i]).reasoning_content
        is None by {
        assert(read[i] == chunks[i]);
    }
    lemma_no_reasoning_stays_closed(read);
    lemma_display_round_trip(chunks);
}

/// Chunks without reasoning text never open a reasoning block.
proof fn lemma_no_reasoning_stays_closed(chunks: Seq<CompletionView>)
    requires
        forall|i: int|
            0 <= i < chunks.len() ==> (#[trigger] chunks[i]).reasoning_content is None,
    ensures
        !in_reasoning_after(chunks),
        reasoning_leads(chunks),
    decreases chunks.len(),
{
    if chunks.len() > 0 {
        let before = chunks.drop_last();
        assert forall|i: int| 0 <= i < before.len() implies (#[trigger] before[i]).reasoning_content
            is None by {
            assert(before[i] == chunks[i]);
        }
        lemma_no_reasoning_stays_closed(before);
    }
}

} // verus!
