use vstd::prelude::*;

use crate::chars::{chars_of, text_of};

verus! {

/// The ways to transform a text.
pub enum Transforms {
    /// Every ASCII capital letter becomes its small letter.
    Lowercase,
    /// Every ASCII small letter becomes its capital letter.
    Uppercase,
    /// Every space becomes a hyphen.
    NoWhitespaces,
}

/// `c`, or its small letter where `c` is an ASCII capital letter.
pub open spec fn lowered(c: char) -> char {
    if 'A' <= c && c <= 'Z' {
        ((c as u8) + 32) as char
    } else {
        c
    }
}

/// `c`, or its capital letter where `c` is an ASCII small letter.
pub open spec fn raised(c: char) -> char {
    if 'a' <= c && c <= 'z' {
        ((c as u8) - 32) as char
    } else {
        c
    }
}

/// `c`, or a hyphen where `c` is a space.
pub open spec fn dashed(c: char) -> char {
    if c == ' ' {
        '-'
    } else {
        c
    }
}

/// What one character becomes under `transform`.
pub open spec fn transformed_char(c: char, transform: Transforms) -> char {
    match transform {
        Transforms::Lowercase => lowered(c),
        Transforms::Uppercase => raised(c),
        Transforms::NoWhitespaces => dashed(c),
    }
}

/// `text` with each of its characters transformed; no other character changes,
/// and none is added or removed.
pub open spec fn transformed(text: Seq<char>, transform: Transforms) -> Seq<char> {
    Seq::new(text.len(), |i: int| transformed_char(text[i], transform))
}

/// The slug of a title: in ASCII lower case, with a hyphen for every space.
pub open spec fn slugged(title: Seq<char>) -> Seq<char> {
    transformed(transformed(title, Transforms::Lowercase), Transforms::NoWhitespaces)
}

/// What one character becomes under `transform`.
fn transform_char(c: char, transform: &Transforms) -> (out: char)
    ensures
        out == transformed_char(c, *transform),
{
    match transform {
        Transforms::Lowercase => if 'A' <= c && c <= 'Z' {
            ((c as u8) + 32) as char
        } else {
            c
        },
        Transforms::Uppercase => if 'a' <= c && c <= 'z' {
            ((c as u8) - 32) as char
        } else {
            c
        },
        Transforms::NoWhitespaces => if c == ' ' {
            '-'
        } else {
            c
        },
    }
}

/// Transforms every character of `text`.
pub fn transform_chars(text: &Vec<char>, transform: &Transforms) -> (out: Vec<char>)
    ensures
        out@ == transformed(text@, *transform),
{
    let mut out: Vec<char> = Vec::new();
    let mut i: usize = 0;
    while i < text.len()
        invariant
            i <= text.len(),
            out@ == transformed(text@.take(i as int), *transform),
        decreases text.len() - i,
    {
        out.push(transform_char(text[i], transform));
        i += 1;
    }
    assert(text@.take(text.len() as int) == text@);
    out
}

/// A text that can be transformed.
pub trait Transform: Sized {
    /// The characters of the text.
    spec fn text(self) -> Seq<char>;

    /// The text, transformed as `transform` says.
    fn transform(self, transform: Transforms) -> (out: Self)
        ensures
            out.text() == transformed(self.text(), transform),
    ;
}

impl Transform for String {
    open spec fn text(self) -> Seq<char> {
        self@
    }

    fn transform(self, transform: Transforms) -> (out: Self) {
        text_of(&transform_chars(&chars_of(self.as_str()), &transform))
    }
}

/// The slug of `title`.
pub fn slug(title: &str) -> (out: String)
    ensures
        out@ == slugged(title@),
{
    let lower = transform_chars(&chars_of(title), &Transforms::Lowercase);
    text_of(&transform_chars(&lower, &Transforms::NoWhitespaces))
}

/// A slug is its own slug.
pub proof fn lemma_slug_idempotent(title: Seq<char>)
    ensures
        slugged(slugged(title)) == slugged(title),
{
    assert forall|c: char| dashed(lowered(dashed(lowered(c)))) == dashed(lowered(c)) by {}
    assert(slugged(slugged(title)) =~= slugged(title));
}

} // verus!
