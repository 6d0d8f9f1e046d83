//! Decoding of the HTML escapes that occur in titles and descriptions.

use crate::text::{copy_range, matches_at, occurs_at, to_chars, to_string};
use vstd::prelude::*;

verus! {

/// `text` with every occurrence of `from` replaced by `to`, read from the
/// left; occurrences do not overlap, and what was put in is not read again.
pub open spec fn replace_all(text: Seq<char>, from: Seq<char>, to: Seq<char>) -> Seq<char>
    decreases text.len(),
{
    if from.len() == 0 || text.len() < from.len() {
        text
    } else if text.take(from.len() as int) == from {
        to + replace_all(text.skip(from.len() as int), from, to)
    } else {
        seq![text[0]] + replace_all(text.skip(1), from, to)
    }
}

/// `text` with the escapes for `&`, `<`, `>`, `"` and `'` decoded, one
/// escape after the other in this order: `&amp;`, `&lt;`, `&gt;`, `&quot;`,
/// `&#39;`, `&#x27;`, `&apos;`. Each pass reads the result of the pass before
/// it, so `&amp;lt;` becomes `<`. Every other escape stays as it is.
pub open spec fn decode_entities(text: Seq<char>) -> Seq<char> {
    let t = replace_all(text, "&amp;"@, "&"@);
    let t = replace_all(t, "&lt;"@, "<"@);
    let t = replace_all(t, "&gt;"@, ">"@);
    let t = replace_all(t, "&quot;"@, "\""@);
    let t = replace_all(t, "&#39;"@, "'"@);
    let t = replace_all(t, "&#x27;"@, "'"@);
    replace_all(t, "&apos;"@, "'"@)
}

/// One step of `replace_all` at index `i` of `text`.
proof fn lemma_replace_step(text: Seq<char>, from: Seq<char>, to: Seq<char>, i: int)
    requires
        0 <= i < text.len(),
        from.len() > 0,
    ensures
        occurs_at(text, from, i) ==> replace_all(text.skip(i), from, to) == to + replace_all(
            text.skip(i + from.len()),
            from,
            to,
        ),
        !occurs_at(text, from, i) ==> replace_all(text.skip(i), from, to) == seq![text[i]]
            + replace_all(text.skip(i + 1), from, to),
{
    let rest = text.skip(i);
    let n = from.len() as int;
    if rest.len() >= n {
        assert(rest.take(n) =~= text.subrange(i, i + n));
    }
    if occurs_at(text, from, i) {
        assert(rest.skip(n) =~= text.skip(i + n));
    } else {
        assert(rest.skip(1) =~= text.skip(i + 1));
        if rest.len() < n {
            // Neither what is left nor its tail has room for `from`.
            assert(replace_all(rest, from, to) == rest);
            assert(replace_all(text.skip(i + 1), from, to) == text.skip(i + 1));
            assert(rest =~= seq![text[i]] + text.skip(i + 1));
        }
    }
}

/// Text in which `from` does not occur is left as it is.
pub proof fn lemma_replace_nothing(text: Seq<char>, from: Seq<char>, to: Seq<char>)
    requires
        forall|i: int| !occurs_at(text, from, i),
    ensures
        replace_all(text, from, to) == text,
    decreases text.len(),
{
    let n = from.len() as int;
    if n == 0 || text.len() < n {
    } else {
        assert(!occurs_at(text, from, 0));
        assert(text.take(n) =~= text.subrange(0, n));
        let rest = text.skip(1);
        assert forall|i: int| !occurs_at(rest, from, i) by {
            if occurs_at(rest, from, i) {
                assert(rest.subrange(i, i + n) =~= text.subrange(i + 1, i + 1 + n));
                assert(occurs_at(text, from, i + 1));
            }
        }
        lemma_replace_nothing(rest, from, to);
        assert(seq![text[0]] + rest =~= text);
    }
}

/// `text` with every occurrence of `from` replaced by `to`.
pub fn replace(text: &[char], from: &[char], to: &[char]) -> (out: Vec<char>)
    ensures
        out@ == replace_all(text@, from@, to@),
{
    if from.len() == 0 {
        return copy_range(text, 0, text.len());
    }
    let mut out: Vec<char> = Vec::new();
    let mut i: usize = 0;
    assert(text@.skip(0) =~= text@);
    while i < text.len()
        invariant
            i <= text.len(),
            from.len() > 0,
            out@ + replace_all(text@.skip(i as int), from@, to@) == replace_all(
                text@,
                from@,
                to@,
            ),
        decreases text.len() - i,
    {
        proof {
            lemma_replace_step(text@, from@, to@, i as int);
        }
        let ghost before = out@;
        if matches_at(text, from, i) {
            let mut k: usize = 0;
            while k < to.len()
                invariant
                    k <= to.len(),
                    out@ == before + to@.take(k as int),
                decreases to.len() - k,
            {
                out.push(to[k]);
                k += 1;
                assert(to@.take(k as int) =~= to@.take(k - 1).push(to@[k - 1]));
            }
            assert(to@.take(to.len() as int) =~= to@);
            i += from.len();
            assert(out@ + replace_all(text@.skip(i as int), from@, to@) =~= before + (to@
                + replace_all(text@.skip(i as int), from@, to@)));
        } else {
            out.push(text[i]);
            i += 1;
            assert(out@ + replace_all(text@.skip(i as int), from@, to@) =~= before + (
            seq![text@[i - 1]] + replace_all(text@.skip(i as int), from@, to@)));
        }
    }
    assert(text@.skip(text.len() as int) =~= Seq::<char>::empty());
    assert(out@ + Seq::<char>::empty() =~= out@);
    out
}

/// One pass of the decoder: the escape `from` becomes the text `to`.
fn decode_pass(text: &[char], from: &str, to: &str) -> (out: Vec<char>)
    ensures
        out@ == replace_all(text@, from@, to@),
{
    let from_chars = to_chars(from);
    let to_chars = to_chars(to);
    replace(text, from_chars.as_slice(), to_chars.as_slice())
}

/// Decodes the escapes in a sequence of characters.
pub fn decode_chars(text: &[char]) -> (out: Vec<char>)
    ensures
        out@ == decode_entities(text@),
{
    let t = decode_pass(text, "&amp;", "&");
    let t = decode_pass(t.as_slice(), "&lt;", "<");
    let t = decode_pass(t.as_slice(), "&gt;", ">");
    let t = decode_pass(t.as_slice(), "&quot;", "\"");
    let t = decode_pass(t.as_slice(), "&#39;", "'");
    let t = decode_pass(t.as_slice(), "&#x27;", "'");
    decode_pass(t.as_slice(), "&apos;", "'")
}

/// Decodes the HTML escapes for `&`, `<`, `>`, `"` and `'` in `s`.
pub fn html_escape_decode(s: &str) -> (decoded: String)
    ensures
        decoded@ == decode_entities(s@),
{
    let chars = to_chars(s);
    let out = decode_chars(chars.as_slice());
    to_string(out.as_slice())
}

} // verus!
