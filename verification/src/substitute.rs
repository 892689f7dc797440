use vstd::prelude::*;

use crate::chars::{chars_of, extend, text_of};

verus! {

/// `value`, then every character of `text` followed by `value`: what replacing
/// the empty pattern gives.
pub open spec fn interleaved(text: Seq<char>, value: Seq<char>) -> Seq<char>
    decreases text.len(),
{
    if text.len() == 0 {
        value
    } else {
        value + text.take(1) + interleaved(text.skip(1), value)
    }
}

/// `text` with every occurrence of `pattern` replaced by `value`.
///
/// Occurrences are found from left to right and do not overlap; an inserted
/// `value` is copied as it is and never searched for `pattern` again.
pub open spec fn substituted(text: Seq<char>, pattern: Seq<char>, value: Seq<char>) -> Seq<char>
    decreases text.len(),
{
    if pattern.len() == 0 {
        interleaved(text, value)
    } else if text.len() == 0 {
        text
    } else if pattern.is_prefix_of(text) {
        value + substituted(text.skip(pattern.len() as int), pattern, value)
    } else {
        text.take(1) + substituted(text.skip(1), pattern, value)
    }
}

/// Whether `pattern` stands in `text` at offset `at`.
pub(crate) fn stands_at(text: &Vec<char>, at: usize, pattern: &Vec<char>) -> (found: bool)
    requires
        at <= text.len(),
    ensures
        found == pattern@.is_prefix_of(text@.skip(at as int)),
{
    if pattern.len() > text.len() - at {
        return false;
    }
    let mut k: usize = 0;
    while k < pattern.len()
        invariant
            at <= text.len(),
            pattern.len() <= text.len() - at,
            k <= pattern.len(),
            forall|j: int| 0 <= j < k ==> text@[at + j] == pattern@[j],
        decreases pattern.len() - k,
    {
        if text[at + k] != pattern[k] {
            assert(text@.skip(at as int).subrange(0, pattern@.len() as int)[k as int]
                != pattern@[k as int]);
            return false;
        }
        k += 1;
    }
    assert(pattern@ =~= text@.skip(at as int).subrange(0, pattern@.len() as int));
    true
}

/// Replaces the empty pattern: `value` goes before the first character, between
/// every two characters and after the last.
fn interleave(text: &Vec<char>, value: &Vec<char>) -> (out: Vec<char>)
    ensures
        out@ == interleaved(text@, value@),
{
    let mut out: Vec<char> = Vec::new();
    let mut i: usize = 0;
    assert(text@.skip(0) == text@);
    while i < text.len()
        invariant
            i <= text.len(),
            out@ + interleaved(text@.skip(i as int), value@) == interleaved(text@, value@),
        decreases text.len() - i,
    {
        let ghost before = out@;
        let ghost rest = text@.skip(i as int);
        extend(&mut out, value);
        out.push(text[i]);
        proof {
            assert(rest.take(1) == seq![text@[i as int]]);
            assert(rest.skip(1) == text@.skip(i + 1));
            assert(out@ + interleaved(text@.skip(i + 1), value@) == before + interleaved(
                rest,
                value@,
            ));
        }
        i += 1;
    }
    extend(&mut out, value);
    out
}

/// Replaces every occurrence of `pattern` in `text` by `value`, on characters.
pub fn substitute_chars(text: &Vec<char>, pattern: &Vec<char>, value: &Vec<char>) -> (out: Vec<
    char,
>)
    ensures
        out@ == substituted(text@, pattern@, value@),
{
    if pattern.len() == 0 {
        return interleave(text, value);
    }
    let mut out: Vec<char> = Vec::new();
    let mut i: usize = 0;
    assert(text@.skip(0) == text@);
    while i < text.len()
        invariant
            i <= text.len(),
            pattern.len() > 0,
            out@ + substituted(text@.skip(i as int), pattern@, value@) == substituted(
                text@,
                pattern@,
                value@,
            ),
        decreases text.len() - i,
    {
        let ghost before = out@;
        let ghost rest = text@.skip(i as int);
        if stands_at(text, i, pattern) {
            extend(&mut out, value);
            proof {
                assert(rest.skip(pattern@.len() as int) == text@.skip(i + pattern@.len()));
                assert(out@ + substituted(text@.skip(i + pattern@.len()), pattern@, value@)
                    == before + substituted(rest, pattern@, value@));
            }
            i += pattern.len();
        } else {
            out.push(text[i]);
            proof {
                assert(rest.take(1) == seq![text@[i as int]]);
                assert(rest.skip(1) == text@.skip(i + 1));
                assert(out@ + substituted(text@.skip(i + 1), pattern@, value@) == before
                    + substituted(rest, pattern@, value@));
            }
            i += 1;
        }
    }
    out
}

/// Replaces every occurrence of `pattern` in `text` by `value`.
pub fn substitute(text: &str, pattern: &str, value: &str) -> (out: String)
    ensures
        out@ == substituted(text@, pattern@, value@),
{
    let chars = substitute_chars(&chars_of(text), &chars_of(pattern), &chars_of(value));
    text_of(&chars)
}

/// Replacing a pattern by something no longer gives a text that is no longer.
pub proof fn lemma_substituted_shrinks(text: Seq<char>, pattern: Seq<char>, value: Seq<char>)
    requires
        0 < pattern.len(),
        value.len() <= pattern.len(),
    ensures
        substituted(text, pattern, value).len() <= text.len(),
    decreases text.len(),
{
    if text.len() == 0 {
    } else if pattern.is_prefix_of(text) {
        lemma_substituted_shrinks(text.skip(pattern.len() as int), pattern, value);
    } else {
        lemma_substituted_shrinks(text.skip(1), pattern, value);
    }
}

/// Whether `pattern` stands in `text` at offset `at`.
pub open spec fn occurs_at(text: Seq<char>, pattern: Seq<char>, at: int) -> bool {
    0 <= at <= text.len() && pattern.is_prefix_of(text.skip(at))
}

/// The parts of `text` around the occurrences of `pattern` that a substitution
/// replaces: what stands before the first of them, between every two, and
/// after the last.
pub open spec fn pieces(text: Seq<char>, pattern: Seq<char>) -> Seq<Seq<char>>
    decreases text.len(),
{
    if pattern.len() == 0 || text.len() == 0 {
        seq![text]
    } else if pattern.is_prefix_of(text) {
        seq![Seq::empty()] + pieces(text.skip(pattern.len() as int), pattern)
    } else {
        let rest = pieces(text.skip(1), pattern);
        seq![text.take(1) + rest[0]] + rest.skip(1)
    }
}

/// The `parts` in a row, with `by` between every two of them.
pub open spec fn joined(parts: Seq<Seq<char>>, by: Seq<char>) -> Seq<char>
    decreases parts.len(),
{
    if parts.len() == 0 {
        Seq::empty()
    } else if parts.len() == 1 {
        parts[0]
    } else {
        parts[0] + by + joined(parts.skip(1), by)
    }
}

/// A text has at least one piece, and its first piece is how the text begins.
pub proof fn lemma_first_piece(text: Seq<char>, pattern: Seq<char>)
    ensures
        pieces(text, pattern).len() >= 1,
        pieces(text, pattern)[0].is_prefix_of(text),
    decreases text.len(),
{
    if pattern.len() == 0 || text.len() == 0 {
        assert(text.subrange(0, text.len() as int) == text);
    } else if pattern.is_prefix_of(text) {
        lemma_first_piece(text.skip(pattern.len() as int), pattern);
        assert(Seq::<char>::empty() =~= text.subrange(0, 0));
    } else {
        let rest = pieces(text.skip(1), pattern);
        lemma_first_piece(text.skip(1), pattern);
        let first = text.take(1) + rest[0];
        assert(first =~= text.subrange(0, first.len() as int)) by {
            assert(rest[0] == text.skip(1).subrange(0, rest[0].len() as int));
        }
    }
}

/// Putting a character before the first of some parts puts it before what they
/// are joined to.
proof fn lemma_joined_behind(head: Seq<char>, parts: Seq<Seq<char>>, by: Seq<char>)
    requires
        parts.len() >= 1,
    ensures
        joined(seq![head + parts[0]] + parts.skip(1), by) == head + joined(parts, by),
{
    let all = seq![head + parts[0]] + parts.skip(1);
    if parts.len() == 1 {
        assert(all.len() == 1);
    } else {
        assert(all.skip(1) == parts.skip(1));
        assert(all[0] + by + joined(parts.skip(1), by) == head + (parts[0] + by + joined(
            parts.skip(1),
            by,
        )));
    }
}

/// A text is its pieces with the pattern between every two of them.
pub proof fn lemma_pieces_make_text(text: Seq<char>, pattern: Seq<char>)
    ensures
        joined(pieces(text, pattern), pattern) == text,
    decreases text.len(),
{
    if pattern.len() == 0 || text.len() == 0 {
    } else if pattern.is_prefix_of(text) {
        let rest = pieces(text.skip(pattern.len() as int), pattern);
        lemma_first_piece(text.skip(pattern.len() as int), pattern);
        lemma_pieces_make_text(text.skip(pattern.len() as int), pattern);
        let all = seq![Seq::<char>::empty()] + rest;
        assert(all.skip(1) == rest);
        assert(Seq::<char>::empty() + pattern + text.skip(pattern.len() as int) == text);
    } else {
        let rest = pieces(text.skip(1), pattern);
        lemma_first_piece(text.skip(1), pattern);
        lemma_pieces_make_text(text.skip(1), pattern);
        lemma_joined_behind(text.take(1), rest, pattern);
        assert(text.take(1) + text.skip(1) == text);
    }
}

/// A substitution gives the pieces of the text with the value between every
/// two of them: the value stands once where each replaced occurrence of the
/// pattern stood, as it is, and everything else stays.
pub proof fn lemma_substituted_joins_pieces(
    text: Seq<char>,
    pattern: Seq<char>,
    value: Seq<char>,
)
    requires
        pattern.len() > 0,
    ensures
        substituted(text, pattern, value) == joined(pieces(text, pattern), value),
    decreases text.len(),
{
    if text.len() == 0 {
    } else if pattern.is_prefix_of(text) {
        let rest = pieces(text.skip(pattern.len() as int), pattern);
        lemma_first_piece(text.skip(pattern.len() as int), pattern);
        lemma_substituted_joins_pieces(text.skip(pattern.len() as int), pattern, value);
        let all = seq![Seq::<char>::empty()] + rest;
        assert(all.skip(1) == rest);
        assert(Seq::<char>::empty() + value == value);
    } else {
        let rest = pieces(text.skip(1), pattern);
        lemma_first_piece(text.skip(1), pattern);
        lemma_substituted_joins_pieces(text.skip(1), pattern, value);
        lemma_joined_behind(text.take(1), rest, value);
    }
}

/// No piece of a text holds the pattern: whatever occurrence of the pattern a
/// substituted text holds, it does not lie within what was kept of the text.
pub proof fn lemma_pieces_hold_no_pattern(text: Seq<char>, pattern: Seq<char>, i: int, at: int)
    requires
        pattern.len() > 0,
        0 <= i < pieces(text, pattern).len(),
    ensures
        !occurs_at(pieces(text, pattern)[i], pattern, at),
    decreases text.len(),
{
    if text.len() == 0 {
    } else if pattern.is_prefix_of(text) {
        if i > 0 {
            lemma_pieces_hold_no_pattern(text.skip(pattern.len() as int), pattern, i - 1, at);
        }
    } else {
        let rest = pieces(text.skip(1), pattern);
        lemma_first_piece(text.skip(1), pattern);
        if i > 0 {
            lemma_pieces_hold_no_pattern(text.skip(1), pattern, i, at);
        } else {
            let first = text.take(1) + rest[0];
            lemma_first_piece(text, pattern);
            if occurs_at(first, pattern, at) {
                if at == 0 {
                    assert(first.skip(0) == first);
                    assert(pattern =~= text.subrange(0, pattern.len() as int));
                } else {
                    assert(first.skip(at) == rest[0].skip(at - 1));
                    lemma_pieces_hold_no_pattern(text.skip(1), pattern, 0, at - 1);
                }
            }
        }
    }
}

} // verus!
