use vstd::prelude::*;

verus! {

/// How many parse results a decoder reads: those before the first payload
/// that did not parse, or all of them where each parsed.
pub open spec fn readable_len<R>(parsed: Seq<Option<R>>) -> nat
    decreases parsed.len(),
{
    if parsed.len() == 0 || parsed[0] is None {
        0
    } else {
        1 + readable_len(parsed.drop_first())
    }
}

/// Whether some payload did not parse.
pub open spec fn has_failure<R>(parsed: Seq<Option<R>>) -> bool {
    readable_len(parsed) < parsed.len()
}

/// The records that a decoder emits for a sequence of parse results: those
/// before the first failure, in order.
pub open spec fn records_of<R>(parsed: Seq<Option<R>>) -> Seq<R> {
    parsed.take(readable_len(parsed) as int).map_values(|result: Option<R>| result->0)
}

/// A decoder reads exactly the results before the first failure: each of
/// them is a record, and the result after them, where there is one, is a
/// failure.
pub proof fn lemma_readable_len<R>(parsed: Seq<Option<R>>)
    ensures
        readable_len(parsed) <= parsed.len(),
        forall|i: int| 0 <= i < readable_len(parsed) ==> (#[trigger] parsed[i]) is Some,
        has_failure(parsed) ==> parsed[readable_len(parsed) as int] is None,
    decreases parsed.len(),
{
    if parsed.len() == 0 || parsed[0] is None {
    } else {
        let rest = parsed.drop_first();
        lemma_readable_len(rest);
        assert forall|i: int| 0 <= i < readable_len(parsed) implies (#[trigger] parsed[i])
            is Some by {
            if i > 0 {
                assert(parsed[i] == rest[i - 1]);
            }
        }
    }
}

/// The number of results read is the one index that has only records before
/// it and either a failure or the end at it.
pub proof fn lemma_readable_len_is<R>(parsed: Seq<Option<R>>, n: int)
    requires
        0 <= n <= parsed.len(),
        forall|i: int| 0 <= i < n ==> (#[trigger] parsed[i]) is Some,
        n < parsed.len() ==> parsed[n] is None,
    ensures
        readable_len(parsed) == n,
{
    lemma_readable_len(parsed);
    let m = readable_len(parsed) as int;
    if m < n {
        assert(parsed[m] is Some);
    } else if n < m {
        assert(parsed[n] is Some);
    }
}

/// Decoding two runs of parse results, one after the other: once the first
/// run holds a failure the second adds nothing; else its records follow
/// those of the first.
pub proof fn lemma_records_concat<R>(a: Seq<Option<R>>, b: Seq<Option<R>>)
    ensures
        records_of(a + b) == if has_failure(a) {
            records_of(a)
        } else {
            records_of(a) + records_of(b)
        },
        has_failure(a + b) == (has_failure(a) || has_failure(b)),
{
    let whole = a + b;
    let m = readable_len(a) as int;
    lemma_readable_len(a);
    lemma_readable_len(b);
    if has_failure(a) {
        assert(whole[m] == a[m]);
        assert forall|i: int| 0 <= i < m implies (#[trigger] whole[i]) is Some by {
            assert(whole[i] == a[i]);
        }
        lemma_readable_len_is(whole, m);
        assert(whole.take(m) =~= a.take(m));
    } else {
        let k = readable_len(b) as int;
        assert forall|i: int| 0 <= i < m + k implies (#[trigger] whole[i]) is Some by {
            if i < m {
                assert(whole[i] == a[i]);
            } else {
                assert(whole[i] == b[i - m]);
            }
        }
        if m + k < whole.len() {
            assert(whole[m + k] == b[k]);
        }
        lemma_readable_len_is(whole, m + k);
        assert(whole.take(m + k) =~= a.take(m) + b.take(k));
        assert(records_of(whole) =~= records_of(a) + records_of(b));
    }
}

/// A payload that does not parse ends the stream: whatever comes after it,
/// no further record is emitted.
pub proof fn lemma_failure_ends_stream<R>(before: Seq<Option<R>>, after: Seq<Option<R>>)
    ensures
        records_of(before.push(None) + after) == records_of(before),
        has_failure(before.push(None) + after),
{
    let failed = before.push(None::<R>);
    let nothing = seq![None::<R>];
    assert(failed =~= before + nothing);
    lemma_readable_len_is(nothing, 0);
    assert(records_of(nothing) =~= Seq::<R>::empty());
    lemma_records_concat(before, nothing);
    assert(records_of(before) + Seq::<R>::empty() =~= records_of(before));
    lemma_records_concat(failed, after);
}

/// The policy of a streamed decoding: records are handed on until the first
/// payload that does not parse, which ends the stream without an error.
pub struct Decoder {
    closed: bool,
}

impl Decoder {
    /// Whether a payload has failed to parse. Nothing is emitted after it.
    pub closed spec fn closed(&self) -> bool {
        self.closed
    }

    pub fn new() -> (decoder: Self)
        ensures
            !decoder.closed(),
    {
        Decoder { closed: false }
    }

    pub fn is_closed(&self) -> (closed: bool)
        ensures
            closed == self.closed(),
    {
        self.closed
    }

    /// Takes the parse results of the payloads of one chunk, in order, with
    /// `None` for a payload that did not parse, and hands out the records to
    /// emit for the chunk.
    pub fn accept<R>(&mut self, parsed: Vec<Option<R>>) -> (records: Vec<R>)
        ensures
            old(self).closed() ==> records@ == Seq::<R>::empty() && final(self).closed(),
            !old(self).closed() ==> records@ == records_of(parsed@) && final(self).closed()
                == has_failure(parsed@),
    {
        let mut records: Vec<R> = Vec::new();
        if self.closed {
            return records;
        }
        assert(parsed@.take(0).map_values(|result: Option<R>| result->0) =~= records@);
        for result in it: parsed
            invariant
                it.seq() == parsed@,
                !old(self).closed(),
                !self.closed,
                forall|i: int| 0 <= i < it.index() ==> (#[trigger] parsed@[i]) is Some,
                records@ == parsed@.take(it.index() as int).map_values(
                    |result: Option<R>| result->0,
                ),
        {
            let ghost i = it.index() as int;
            match result {
                Some(record) => {
                    records.push(record);
                    assert(records@ =~= parsed@.take(i + 1).map_values(
                        |result: Option<R>| result->0,
                    ));
                },
                None => {
                    proof {
                        lemma_readable_len_is(parsed@, i);
                    }
                    self.closed = true;
                    return records;
                },
            }
        }
        proof {
            lemma_readable_len_is(parsed@, parsed@.len() as int);
        }
        records
    }
}

} // verus!
