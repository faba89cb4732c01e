use crate::text::{chars_of, optional_text, text_between, texts_view};
use vstd::prelude::*;
use vstd::string::*;
use vstd::utf8::{decode_utf8, valid_utf8};

verus! {

/// Whether a blank line, the delimiter of two records, starts at index `at`.
pub open spec fn blank_at(text: Seq<char>, at: int) -> bool {
    0 <= at && at + 1 < text.len() && text[at] == '\n' && text[at + 1] == '\n'
}

/// The index of the first blank line that starts at `from` or later; the
/// length of the text where there is none.
pub open spec fn next_blank(text: Seq<char>, from: int) -> int
    decreases text.len() - from,
{
    if from + 1 >= text.len() {
        text.len() as int
    } else if blank_at(text, from) {
        from
    } else {
        next_blank(text, from + 1)
    }
}

/// `next_blank` is the least index from `from` at which a blank line starts.
pub proof fn lemma_next_blank(text: Seq<char>, from: int)
    requires
        0 <= from <= text.len(),
    ensures
        from <= next_blank(text, from) <= text.len(),
        forall|at: int| from <= at < next_blank(text, from) ==> !blank_at(text, at),
        next_blank(text, from) < text.len() ==> blank_at(text, next_blank(text, from)),
    decreases text.len() - from,
{
    if from + 1 >= text.len() {
    } else if blank_at(text, from) {
    } else {
        lemma_next_blank(text, from + 1);
    }
}

/// The fragments of the text from index `from` on: the text is cut at each
/// blank line, from the left, and a blank line that was cut is in none of
/// them.
pub open spec fn fragments_from(text: Seq<char>, from: int) -> Seq<Seq<char>>
    decreases text.len() - from,
    when 0 <= from <= text.len()
    via fragments_from_decreases
{
    let at = next_blank(text, from);
    if at >= text.len() {
        seq![text.subrange(from, text.len() as int)]
    } else {
        seq![text.subrange(from, at)] + fragments_from(text, at + 2)
    }
}

#[via_fn]
proof fn fragments_from_decreases(text: Seq<char>, from: int) {
    lemma_next_blank(text, from);
}

/// The fragments of a text: what lies between its blank lines.
pub open spec fn fragments(text: Seq<char>) -> Seq<Seq<char>> {
    fragments_from(text, 0)
}

/// The delimiter of two records.
pub open spec fn blank_line() -> Seq<char> {
    seq!['\n', '\n']
}

/// Fragments put together again, with a blank line between each two.
pub open spec fn rejoined(fragments: Seq<Seq<char>>) -> Seq<char>
    decreases fragments.len(),
{
    if fragments.len() == 0 {
        Seq::<char>::empty()
    } else if fragments.len() == 1 {
        fragments[0]
    } else {
        fragments[0] + blank_line() + rejoined(fragments.drop_first())
    }
}

/// A text in which no blank line starts has no next blank line.
pub proof fn lemma_no_blank(text: Seq<char>)
    requires
        forall|at: int| !blank_at(text, at),
    ensures
        next_blank(text, 0) == text.len(),
{
    lemma_next_blank(text, 0);
}

/// Cutting loses nothing but the blank lines: the fragments, put together
/// again with a blank line between each two, are the text.
pub proof fn lemma_fragments_rejoin(text: Seq<char>, from: int)
    requires
        0 <= from <= text.len(),
    ensures
        fragments_from(text, from).len() >= 1,
        rejoined(fragments_from(text, from)) == text.subrange(from, text.len() as int),
    decreases text.len() - from,
{
    let at = next_blank(text, from);
    lemma_next_blank(text, from);
    if at < text.len() {
        lemma_fragments_rejoin(text, at + 2);
        let head = text.subrange(from, at);
        let rest = fragments_from(text, at + 2);
        let all = fragments_from(text, from);
        assert(all =~= seq![head] + rest);
        assert(all.drop_first() =~= rest);
        assert(all[0] == head);
        assert(head + blank_line() + text.subrange(at + 2, text.len() as int) =~= text.subrange(
            from,
            text.len() as int,
        ));
    }
}

/// No blank line is left inside a fragment, and the text is cut at the
/// leftmost blank line each time: a fragment that a blank line follows does
/// not end in a line break.
pub proof fn lemma_fragments_hold_no_blank(text: Seq<char>, from: int)
    requires
        0 <= from <= text.len(),
    ensures
        forall|i: int|
            0 <= i < fragments_from(text, from).len() ==> next_blank(
                #[trigger] fragments_from(text, from)[i],
                0,
            ) == fragments_from(text, from)[i].len(),
        forall|i: int|
            0 <= i < fragments_from(text, from).len() - 1 ==> {
                let fragment = #[trigger] fragments_from(text, from)[i];
                fragment.len() == 0 || fragment.last() != '\n'
            },
    decreases text.len() - from,
{
    let at = next_blank(text, from);
    lemma_next_blank(text, from);
    let head = text.subrange(from, at);
    assert forall|k: int| !blank_at(head, k) by {
        if blank_at(head, k) {
            assert(head[k] == text[from + k] && head[k + 1] == text[from + k + 1]);
            assert(blank_at(text, from + k));
        }
    }
    lemma_no_blank(head);
    let all = fragments_from(text, from);
    if at < text.len() {
        lemma_fragments_hold_no_blank(text, at + 2);
        let rest = fragments_from(text, at + 2);
        assert(all =~= seq![head] + rest);
        if head.len() > 0 && head.last() == '\n' {
            assert(head.last() == text[at - 1]);
            assert(blank_at(text, at - 1));
        }
        assert forall|i: int| 0 <= i < all.len() implies next_blank(#[trigger] all[i], 0)
            == all[i].len() by {
            if i > 0 {
                assert(all[i] == rest[i - 1]);
            }
        }
        assert forall|i: int| 0 <= i < all.len() - 1 implies {
            let fragment = #[trigger] all[i];
            fragment.len() == 0 || fragment.last() != '\n'
        } by {
            if i > 0 {
                assert(all[i] == rest[i - 1]);
            }
        }
    } else {
        assert(all =~= seq![head]);
    }
}

/// The prefix that marks a fragment as a data record.
pub open spec fn data_prefix() -> Seq<char> {
    "data: "@
}

/// The payload of a fragment: what follows the data prefix, where the
/// fragment begins with it.
pub open spec fn payload_of(fragment: Seq<char>) -> Option<Seq<char>> {
    if fragment.len() >= 6 && fragment.take(6) == data_prefix() {
        Some(fragment.skip(6))
    } else {
        None
    }
}

/// The payloads of the data records among the fragments, in order. A
/// fragment without the prefix is passed over.
pub open spec fn data_of(fragments: Seq<Seq<char>>) -> Seq<Seq<char>> {
    fragments.filter_map(|fragment: Seq<char>| payload_of(fragment))
}

/// The payloads of the data records of a text.
pub open spec fn payloads(text: Seq<char>) -> Seq<Seq<char>> {
    data_of(fragments(text))
}

/// The payloads of two lists of fragments, one after the other.
pub proof fn lemma_data_of_concat(a: Seq<Seq<char>>, b: Seq<Seq<char>>)
    ensures
        data_of(a + b) == data_of(a) + data_of(b),
    decreases b.len(),
{
    if b.len() == 0 {
        assert(a + b =~= a);
        assert(data_of(a) + data_of(b) =~= data_of(a));
    } else {
        assert((a + b).drop_last() =~= a + b.drop_last());
        assert((a + b).last() == b.last());
        lemma_data_of_concat(a, b.drop_last());
        match payload_of(b.last()) {
            Some(p) => {
                assert(data_of(a + b) =~= data_of(a) + data_of(b));
            },
            None => {},
        }
    }
}

/// The payloads of a single fragment.
pub proof fn lemma_data_of_one(fragment: Seq<char>)
    ensures
        data_of(seq![fragment]) == match payload_of(fragment) {
            Some(p) => seq![p],
            None => Seq::<Seq<char>>::empty(),
        },
{
    let one = seq![fragment];
    reveal_with_fuel(Seq::filter_map, 2);
    assert(one.drop_last() =~= Seq::<Seq<char>>::empty());
    assert(one.last() == fragment);
    match payload_of(fragment) {
        Some(p) => {
            assert(data_of(one) =~= seq![p]);
        },
        None => {
            assert(data_of(one) =~= Seq::<Seq<char>>::empty());
        },
    }
}

/// Where the next blank line starts, from `from` on.
fn find_blank(chars: &Vec<char>, from: usize) -> (at: usize)
    requires
        from <= chars.len(),
    ensures
        at == next_blank(chars@, from as int),
        from <= at <= chars.len(),
{
    let n = chars.len();
    let mut i: usize = from;
    while i < n && i + 1 < n
        invariant
            n == chars.len(),
            from <= i <= n,
            next_blank(chars@, from as int) == next_blank(chars@, i as int),
        decreases n - i,
    {
        if chars[i] == '\n' && chars[i + 1] == '\n' {
            return i;
        }
        i += 1;
    }
    n
}

/// Whether the characters from `from` up to `to` begin with the data prefix.
fn has_data_prefix(chars: &Vec<char>, from: usize, to: usize) -> (found: bool)
    requires
        from <= to <= chars.len(),
    ensures
        found == (payload_of(chars@.subrange(from as int, to as int)) is Some),
{
    let ghost fragment = chars@.subrange(from as int, to as int);
    proof {
        reveal_strlit("data: ");
    }
    if to - from < 6 {
        return false;
    }
    let found = chars[from] == 'd'
        && chars[from + 1] == 'a'
        && chars[from + 2] == 't'
        && chars[from + 3] == 'a'
        && chars[from + 4] == ':'
        && chars[from + 5] == ' ';
    proof {
        if found {
            assert(fragment.take(6) =~= data_prefix());
        } else {
            assert(fragment.take(6)[0] == chars@[from as int]);
            assert(fragment.take(6)[1] == chars@[from + 1]);
            assert(fragment.take(6)[2] == chars@[from + 2]);
            assert(fragment.take(6)[3] == chars@[from + 3]);
            assert(fragment.take(6)[4] == chars@[from + 4]);
            assert(fragment.take(6)[5] == chars@[from + 5]);
        }
    }
    found
}

/// Cuts a text at its blank lines into its fragments.
pub fn split_records(text: &str) -> (found: Vec<String>)
    ensures
        texts_view(found@) == fragments(text@),
{
    let chars = chars_of(text);
    let n = chars.len();
    let mut found: Vec<String> = Vec::new();
    let mut start: usize = 0;
    assert(texts_view(found@) + fragments_from(chars@, 0) =~= fragments(text@));
    loop
        invariant_except_break
            chars@ == text@,
            n == chars.len(),
            start <= n,
            fragments(text@) == texts_view(found@) + fragments_from(chars@, start as int),
        ensures
            texts_view(found@) == fragments(text@),
        decreases n - start,
    {
        let at = find_blank(&chars, start);
        let ghost before = texts_view(found@);
        proof {
            lemma_next_blank(chars@, start as int);
        }
        found.push(text_between(text, start, at));
        assert(texts_view(found@) =~= before + seq![chars@.subrange(start as int, at as int)]);
        if at >= n {
            break;
        }
        assert(texts_view(found@) + fragments_from(chars@, at + 2) =~= before + (
        seq![chars@.subrange(start as int, at as int)] + fragments_from(chars@, at + 2)));
        start = at + 2;
    }
    found
}

/// The payload of one fragment: what follows `data: `, where the fragment
/// begins with it.
pub fn data_payload(fragment: &str) -> (payload: Option<String>)
    ensures
        optional_text(payload) == payload_of(fragment@),
{
    let chars = chars_of(fragment);
    let n = chars.len();
    assert(chars@.subrange(0, n as int) =~= fragment@);
    if has_data_prefix(&chars, 0, n) {
        let payload = text_between(fragment, 6, n);
        assert(payload@ =~= fragment@.skip(6));
        Some(payload)
    } else {
        None
    }
}

/// Cuts a text at its blank lines and hands out, in order, the payload of
/// each fragment that begins with `data: `.
pub fn data_payloads(text: &str) -> (found: Vec<String>)
    ensures
        texts_view(found@) == payloads(text@),
{
    let chars = chars_of(text);
    let n = chars.len();
    let mut found: Vec<String> = Vec::new();
    let mut start: usize = 0;
    assert(texts_view(found@) =~= Seq::<Seq<char>>::empty());
    assert(Seq::<Seq<char>>::empty() + data_of(fragments_from(chars@, 0)) =~= payloads(text@));
    loop
        invariant_except_break
            chars@ == text@,
            n == chars.len(),
            start <= n,
            payloads(text@) == texts_view(found@) + data_of(fragments_from(chars@, start as int)),
        ensures
            texts_view(found@) == payloads(text@),
        decreases n - start,
    {
        let at = find_blank(&chars, start);
        let ghost fragment = chars@.subrange(start as int, at as int);
        let ghost before = texts_view(found@);
        proof {
            lemma_next_blank(chars@, start as int);
            lemma_data_of_one(fragment);
            if at < n {
                lemma_data_of_concat(seq![fragment], fragments_from(chars@, at + 2));
            }
        }
        if has_data_prefix(&chars, start, at) {
            let payload = text_between(text, start + 6, at);
            assert(payload@ =~= fragment.skip(6));
            found.push(payload);
            assert(texts_view(found@) =~= before + seq![fragment.skip(6)]);
        }
        if at >= n {
            assert(texts_view(found@) =~= before + data_of(seq![fragment]));
            break;
        }
        assert(texts_view(found@) + data_of(fragments_from(chars@, at + 2)) =~= before + (data_of(
            seq![fragment],
        ) + data_of(fragments_from(chars@, at + 2))));
        start = at + 2;
    }
    found
}

/// The text that a byte chunk decodes to when each invalid sequence in it is
/// replaced by U+FFFD.
pub uninterp spec fn lossy_decoded(bytes: Seq<u8>) -> Seq<char>;

/// `String::from_utf8_lossy` of std, made into an owned text. The result is
/// the lossy decoding of the bytes, which for valid UTF-8 is the text that
/// they encode.
#[verifier::external_body]
fn lossy_text(bytes: &[u8]) -> (text: String)
    ensures
        text@ == lossy_decoded(bytes@),
        valid_utf8(bytes@) ==> text@ == decode_utf8(bytes@),
{
    String::from_utf8_lossy(bytes).into_owned()
}

/// The payloads of the data records in one chunk of a streamed body.
pub fn chunk_payloads(chunk: &[u8]) -> (found: Vec<String>)
    ensures
        texts_view(found@) == payloads(lossy_decoded(chunk@)),
        valid_utf8(chunk@) ==> texts_view(found@) == payloads(decode_utf8(chunk@)),
{
    let text = lossy_text(chunk);
    data_payloads(text.as_str())
}

} // verus!
