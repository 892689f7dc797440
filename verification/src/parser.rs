use vstd::pervasive::unreached;
use vstd::prelude::*;

use crate::chars::{chars_of, slice, text_of};
use crate::node::{Element, Node};
use crate::substitute::{lemma_substituted_shrinks, substitute_chars, substituted};

verus! {

/// The number of bytes that `c` takes in UTF-8.
pub open spec fn utf8_len(c: char) -> nat {
    if (c as u32) < 0x80 {
        1
    } else if (c as u32) < 0x800 {
        2
    } else if (c as u32) < 0x10000 {
        3
    } else {
        4
    }
}

/// `text` without its first `n` bytes. There is none where `text` has fewer
/// bytes, or where the cut would fall inside a character.
pub open spec fn after_bytes(text: Seq<char>, n: nat) -> Option<Seq<char>>
    decreases text.len(),
{
    if n == 0 {
        Some(text)
    } else if text.len() == 0 || utf8_len(text[0]) > n {
        None
    } else {
        after_bytes(text.skip(1), (n - utf8_len(text[0])) as nat)
    }
}

/// `text` without its last `n` bytes. There is none where `text` has fewer
/// bytes, or where the cut would fall inside a character.
pub open spec fn before_bytes(text: Seq<char>, n: nat) -> Option<Seq<char>>
    decreases text.len(),
{
    if n == 0 {
        Some(text)
    } else if text.len() == 0 || utf8_len(text.last()) > n {
        None
    } else {
        before_bytes(text.drop_last(), (n - utf8_len(text.last())) as nat)
    }
}

/// The number of characters of `text` that stand before the first `stop`; all
/// of them where there is no `stop`.
pub open spec fn span(text: Seq<char>, stop: char) -> int
    decreases text.len(),
{
    if text.len() == 0 || text[0] == stop {
        0
    } else {
        1 + span(text.skip(1), stop)
    }
}

/// An element that holds one other element.
pub enum Wrapper {
    Heading(u8),
    BlockQuote,
    Bold,
    Italics,
}

/// The element that `wrapper` makes around `inner`.
pub open spec fn wrapped(wrapper: Wrapper, inner: Element) -> Element {
    match wrapper {
        Wrapper::Heading(size) => Element::Heading { inner: Box::new(inner), size },
        Wrapper::BlockQuote => Element::BlockQuote(Box::new(inner)),
        Wrapper::Bold => Element::Bold(Box::new(inner)),
        Wrapper::Italics => Element::Italics(Box::new(inner)),
    }
}

/// What one word of a line decides.
pub enum Token {
    /// The result is `wrapper` around what `inner` parses to.
    Wrap { wrapper: Wrapper, inner: Seq<char> },
    /// The result is this element.
    Leaf(Element),
    /// The word decides nothing: the next word is looked at.
    Skip,
    /// The text has no parse: a part of it was asked for that lies beyond its
    /// end or starts or ends inside a character.
    Fail,
}

/// `wrapper` around the parse of `inner`, where there is an `inner`.
pub open spec fn around(wrapper: Wrapper, inner: Option<Seq<char>>) -> Token {
    match inner {
        Some(inner) => Token::Wrap { wrapper, inner },
        None => Token::Fail,
    }
}

/// What a word that starts with `!` or `[` decides: an image or a link, made
/// of what stands between the first `[` and the first `]`, and between the
/// first `(` and the first `)`. The word decides nothing unless it holds all
/// four, and has no parse where a closing bracket comes before its opening
/// one.
pub open spec fn bracketed(word: Seq<char>, image: bool) -> Token {
    let a = span(word, '[');
    let b = span(word, ']');
    let c = span(word, '(');
    let d = span(word, ')');
    if a == word.len() || b == word.len() || c == word.len() || d == word.len() {
        Token::Skip
    } else if b < a || d < c {
        Token::Fail
    } else {
        let text = word.subrange(a + 1, b);
        let link = word.subrange(c + 1, d);
        if image {
            Token::Leaf(Element::Image { text, link })
        } else {
            Token::Leaf(Element::Link { text, link })
        }
    }
}

/// What `word` decides, as a word of `line`.
///
/// `#`, `##` and `###` make a heading of the line without its first two, three
/// or four bytes, and `>` a block quote of the line without its first two.
/// `---` is a rule; `-` and three backticks decide nothing. A word between
/// `**` and two more bytes is bold, one between `*` and one more byte is in
/// italics. Any other word is text. A word must start with an ASCII character.
pub open spec fn token(line: Seq<char>, word: Seq<char>) -> Token {
    if word == seq!['#'] {
        around(Wrapper::Heading(1), after_bytes(line, 2))
    } else if word == seq!['#', '#'] {
        around(Wrapper::Heading(2), after_bytes(line, 3))
    } else if word == seq!['#', '#', '#'] {
        around(Wrapper::Heading(3), after_bytes(line, 4))
    } else if word == seq!['>'] {
        around(Wrapper::BlockQuote, after_bytes(line, 2))
    } else if word == seq!['-'] || word == seq!['`', '`', '`'] {
        Token::Skip
    } else if word == seq!['-', '-', '-'] {
        Token::Leaf(Element::HR)
    } else if word.len() == 0 || utf8_len(word[0]) != 1 {
        Token::Fail
    } else if word[0] == '*' {
        if word.len() < 2 || utf8_len(word[1]) != 1 {
            Token::Fail
        } else if word[1] == '*' {
            around(Wrapper::Bold, before_bytes(word.skip(2), 2))
        } else {
            around(Wrapper::Italics, before_bytes(word.skip(1), 1))
        }
    } else if word[0] == '!' {
        bracketed(word, true)
    } else if word[0] == '[' {
        bracketed(word, false)
    } else {
        Token::Leaf(Element::Text(word))
    }
}

/// What the words of a line decide together.
pub enum Scan {
    /// The first word that decides gave this element.
    Found(Element),
    /// The first word that decides has no parse.
    Fail,
    /// No word decides.
    Nothing,
}

/// What the words of `line` decide, from the word that starts at `from` on.
/// Words are what single spaces separate.
pub open spec fn scanned(line: Seq<char>, from: int) -> Scan
    decreases line.len(), 0int, line.len() - from,
{
    if from < 0 || from > line.len() {
        Scan::Nothing
    } else {
        let rest = line.skip(from);
        let word = rest.take(span(rest, ' '));
        match token(line, word) {
            Token::Wrap { wrapper, inner } => {
                proof {
                    lemma_span_bound(rest, ' ');
                    lemma_inner_shorter(line, word);
                }
                match parsed(inner) {
                    Some(element) => Scan::Found(wrapped(wrapper, element)),
                    None => Scan::Fail,
                }
            },
            Token::Leaf(element) => Scan::Found(element),
            Token::Fail => Scan::Fail,
            Token::Skip => {
                proof {
                    lemma_span_bound(rest, ' ');
                }
                if from + word.len() == line.len() {
                    Scan::Nothing
                } else {
                    scanned(line, from + word.len() + 1)
                }
            },
        }
    }
}

/// The parse of a text of lines: what the first line that decides gives, and
/// an empty text where no line decides. Lines are what line feeds separate.
pub open spec fn parsed_lines(text: Seq<char>) -> Option<Element>
    decreases text.len(), 1int, 0int,
{
    let line = text.take(span(text, '\n'));
    proof {
        lemma_span_bound(text, '\n');
    }
    match scanned(line, 0) {
        Scan::Found(element) => Some(element),
        Scan::Fail => None,
        Scan::Nothing => if line.len() == text.len() {
            Some(Element::Text(Seq::empty()))
        } else {
            parsed_lines(text.skip(line.len() as int + 1))
        },
    }
}

/// What is taken out of a text before it is parsed: a carriage return, a line
/// feed and a carriage return in a row.
pub open spec fn blank() -> Seq<char> {
    seq!['\r', '\n', '\r']
}

/// The parse of `text`, or none where it has no parse.
pub open spec fn parsed(text: Seq<char>) -> Option<Element>
    decreases text.len(), 2int, 0int,
{
    proof {
        lemma_substituted_shrinks(text, blank(), Seq::empty());
    }
    parsed_lines(substituted(text, blank(), Seq::empty()))
}

/// A span is no longer than its text, and ends at the end or before a `stop`.
pub proof fn lemma_span_bound(text: Seq<char>, stop: char)
    ensures
        0 <= span(text, stop) <= text.len(),
        span(text, stop) < text.len() ==> text[span(text, stop)] == stop,
        forall|i: int| 0 <= i < span(text, stop) ==> text[i] != stop,
    decreases text.len(),
{
    if text.len() == 0 || text[0] == stop {
    } else {
        lemma_span_bound(text.skip(1), stop);
        assert forall|i: int| 0 <= i < span(text, stop) implies text[i] != stop by {
            if i > 0 {
                assert(text.skip(1)[i - 1] == text[i]);
            }
        }
    }
}

/// A text with no `stop` before offset `n`, and with a `stop` or its end
/// there, has the span `n`.
pub proof fn lemma_span_is(text: Seq<char>, stop: char, n: int)
    requires
        0 <= n <= text.len(),
        forall|i: int| 0 <= i < n ==> text[i] != stop,
        n < text.len() ==> text[n] == stop,
    ensures
        span(text, stop) == n,
    decreases n,
{
    if n > 0 {
        let tail = text.skip(1);
        assert forall|i: int| 0 <= i < n - 1 implies tail[i] != stop by {
            assert(tail[i] == text[i + 1]);
        }
        lemma_span_is(tail, stop, n - 1);
    }
}

/// Cutting bytes off the front leaves no more characters, and fewer where a
/// byte is cut.
pub proof fn lemma_after_bytes_shorter(text: Seq<char>, n: nat)
    ensures
        after_bytes(text, n) matches Some(rest) ==> rest.len() <= text.len() && (n > 0
            ==> rest.len() < text.len()),
    decreases text.len(),
{
    if n == 0 || text.len() == 0 || utf8_len(text[0]) > n {
    } else {
        lemma_after_bytes_shorter(text.skip(1), (n - utf8_len(text[0])) as nat);
    }
}

/// Cutting bytes off the end leaves no more characters.
pub proof fn lemma_before_bytes_shorter(text: Seq<char>, n: nat)
    ensures
        before_bytes(text, n) matches Some(rest) ==> rest.len() <= text.len(),
    decreases text.len(),
{
    if n == 0 || text.len() == 0 || utf8_len(text.last()) > n {
    } else {
        lemma_before_bytes_shorter(text.drop_last(), (n - utf8_len(text.last())) as nat);
    }
}

/// What a wrapper is put around is shorter than the line it was cut from.
pub proof fn lemma_inner_shorter(line: Seq<char>, word: Seq<char>)
    requires
        word.len() <= line.len(),
    ensures
        token(line, word) matches Token::Wrap { inner, .. } ==> inner.len() < line.len(),
{
    lemma_after_bytes_shorter(line, 2);
    lemma_after_bytes_shorter(line, 3);
    lemma_after_bytes_shorter(line, 4);
    if word.len() >= 2 {
        lemma_before_bytes_shorter(word.skip(2), 2);
        lemma_before_bytes_shorter(word.skip(1), 1);
    }
}

/// The number of bytes that `c` takes in UTF-8.
fn width(c: char) -> (n: usize)
    ensures
        n == utf8_len(c),
{
    let code = c as u32;
    if code < 0x80 {
        1
    } else if code < 0x800 {
        2
    } else if code < 0x10000 {
        3
    } else {
        4
    }
}

/// `text` without its first `n` bytes, where it has them and the cut falls
/// between two characters.
fn cut_front(text: &Vec<char>, n: usize) -> (rest: Option<Vec<char>>)
    ensures
        match rest {
            Some(rest) => after_bytes(text@, n as nat) == Some(rest@),
            None => after_bytes(text@, n as nat) is None,
        },
{
    let mut taken: usize = 0;
    let mut left: usize = n;
    assert(text@.skip(0) == text@);
    while left > 0
        invariant
            taken <= text.len(),
            after_bytes(text@.skip(taken as int), left as nat) == after_bytes(text@, n as nat),
        decreases left,
    {
        if taken == text.len() {
            return None;
        }
        let step = width(text[taken]);
        if step > left {
            return None;
        }
        assert(text@.skip(taken as int).skip(1) == text@.skip(taken + 1));
        left -= step;
        taken += 1;
    }
    let rest = slice(text, taken, text.len());
    Some(rest)
}

/// `text` without its last `n` bytes, where it has them and the cut falls
/// between two characters.
fn cut_back(text: &Vec<char>, n: usize) -> (rest: Option<Vec<char>>)
    ensures
        match rest {
            Some(rest) => before_bytes(text@, n as nat) == Some(rest@),
            None => before_bytes(text@, n as nat) is None,
        },
{
    let mut kept: usize = text.len();
    let mut left: usize = n;
    assert(text@.take(kept as int) == text@);
    while left > 0
        invariant
            kept <= text.len(),
            before_bytes(text@.take(kept as int), left as nat) == before_bytes(text@, n as nat),
        decreases left,
    {
        if kept == 0 {
            return None;
        }
        let step = width(text[kept - 1]);
        if step > left {
            return None;
        }
        assert(text@.take(kept as int).drop_last() == text@.take(kept - 1));
        left -= step;
        kept -= 1;
    }
    let rest = slice(text, 0, kept);
    Some(rest)
}

/// The number of characters from offset `from` up to the next `stop`.
fn span_from(text: &Vec<char>, from: usize, stop: char) -> (n: usize)
    requires
        from <= text.len(),
    ensures
        n == span(text@.skip(from as int), stop),
        from + n <= text.len(),
{
    let mut i: usize = from;
    while i < text.len() && text[i] != stop
        invariant
            from <= i <= text.len(),
            forall|j: int| from <= j < i ==> text@[j] != stop,
        decreases text.len() - i,
    {
        i += 1;
    }
    proof {
        lemma_span_is(text@.skip(from as int), stop, i - from);
    }
    i - from
}

/// Whether `word` is the one character `a`.
fn is_one(word: &Vec<char>, a: char) -> (same: bool)
    ensures
        same == (word@ == seq![a]),
{
    let same = word.len() == 1 && word[0] == a;
    assert(same ==> word@ =~= seq![a]);
    same
}

/// Whether `word` is `a` twice.
fn is_two(word: &Vec<char>, a: char) -> (same: bool)
    ensures
        same == (word@ == seq![a, a]),
{
    let same = word.len() == 2 && word[0] == a && word[1] == a;
    assert(same ==> word@ =~= seq![a, a]);
    same
}

/// Whether `word` is `a` three times.
fn is_three(word: &Vec<char>, a: char) -> (same: bool)
    ensures
        same == (word@ == seq![a, a, a]),
{
    let same = word.len() == 3 && word[0] == a && word[1] == a && word[2] == a;
    assert(same ==> word@ =~= seq![a, a, a]);
    same
}

/// What one word decides, with the texts it was cut into.
enum Piece {
    Wrap(Wrapper, Vec<char>),
    Leaf(Node),
    Skip,
    Fail,
}

impl View for Piece {
    type V = Token;

    closed spec fn view(&self) -> Token {
        match self {
            Piece::Wrap(wrapper, inner) => Token::Wrap { wrapper: *wrapper, inner: inner@ },
            Piece::Leaf(node) => Token::Leaf(node@),
            Piece::Skip => Token::Skip,
            Piece::Fail => Token::Fail,
        }
    }
}

/// `wrapper` around the parse of `inner`, where there is an `inner`.
fn wrap_cut(wrapper: Wrapper, inner: Option<Vec<char>>) -> (piece: Piece)
    ensures
        piece@ == around(
            wrapper,
            match inner {
                Some(inner) => Some(inner@),
                None => None,
            },
        ),
{
    match inner {
        Some(inner) => Piece::Wrap(wrapper, inner),
        None => Piece::Fail,
    }
}

/// What a word that starts with `!` or `[` decides.
fn bracket(word: &Vec<char>, image: bool) -> (piece: Piece)
    ensures
        piece@ == bracketed(word@, image),
{
    assert(word@.skip(0) == word@);
    let a = span_from(word, 0, '[');
    let b = span_from(word, 0, ']');
    let c = span_from(word, 0, '(');
    let d = span_from(word, 0, ')');
    if a == word.len() || b == word.len() || c == word.len() || d == word.len() {
        Piece::Skip
    } else if b < a || d < c {
        Piece::Fail
    } else {
        proof {
            lemma_span_bound(word@, '[');
            lemma_span_bound(word@, ']');
            lemma_span_bound(word@, '(');
            lemma_span_bound(word@, ')');
        }
        let text = text_of(&slice(word, a + 1, b));
        let link = text_of(&slice(word, c + 1, d));
        if image {
            Piece::Leaf(Node::Image { text, link })
        } else {
            Piece::Leaf(Node::Link { text, link })
        }
    }
}

/// What `word` decides, as a word of `line`.
fn classify(line: &Vec<char>, word: &Vec<char>) -> (piece: Piece)
    ensures
        piece@ == token(line@, word@),
{
    if is_one(word, '#') {
        wrap_cut(Wrapper::Heading(1), cut_front(line, 2))
    } else if is_two(word, '#') {
        wrap_cut(Wrapper::Heading(2), cut_front(line, 3))
    } else if is_three(word, '#') {
        wrap_cut(Wrapper::Heading(3), cut_front(line, 4))
    } else if is_one(word, '>') {
        wrap_cut(Wrapper::BlockQuote, cut_front(line, 2))
    } else if is_one(word, '-') || is_three(word, '`') {
        Piece::Skip
    } else if is_three(word, '-') {
        Piece::Leaf(Node::HR)
    } else if word.len() == 0 || width(word[0]) != 1 {
        Piece::Fail
    } else if word[0] == '*' {
        if word.len() < 2 || width(word[1]) != 1 {
            Piece::Fail
        } else if word[1] == '*' {
            let rest = slice(word, 2, word.len());
            wrap_cut(Wrapper::Bold, cut_back(&rest, 2))
        } else {
            let rest = slice(word, 1, word.len());
            wrap_cut(Wrapper::Italics, cut_back(&rest, 1))
        }
    } else if word[0] == '!' {
        bracket(word, true)
    } else if word[0] == '[' {
        bracket(word, false)
    } else {
        Piece::Leaf(Node::Text(text_of(word)))
    }
}

/// The node that `wrapper` makes around `inner`.
fn wrap(wrapper: Wrapper, inner: Node) -> (node: Node)
    ensures
        node@ == wrapped(wrapper, inner@),
{
    match wrapper {
        Wrapper::Heading(size) => Node::Heading { inner: Box::new(inner), size },
        Wrapper::BlockQuote => Node::BlockQuote(Box::new(inner)),
        Wrapper::Bold => Node::Bold(Box::new(inner)),
        Wrapper::Italics => Node::Italics(Box::new(inner)),
    }
}

/// What the words of a line decide together.
enum Scanned {
    Found(Node),
    Fail,
    Nothing,
}

impl View for Scanned {
    type V = Scan;

    closed spec fn view(&self) -> Scan {
        match self {
            Scanned::Found(node) => Scan::Found(node@),
            Scanned::Fail => Scan::Fail,
            Scanned::Nothing => Scan::Nothing,
        }
    }
}

/// What the words of `line` decide.
fn scan(line: &Vec<char>) -> (found: Scanned)
    ensures
        found@ == scanned(line@, 0),
    decreases line@.len(), 0int,
{
    let mut from: usize = 0;
    loop
        invariant_except_break
            from <= line.len(),
            scanned(line@, from as int) == scanned(line@, 0),
        ensures
            scanned(line@, 0) == Scan::Nothing,
        decreases line.len() - from,
    {
        let n = span_from(line, from, ' ');
        let word = slice(line, from, from + n);
        proof {
            let rest = line@.skip(from as int);
            assert(word@ == rest.take(span(rest, ' ')));
            lemma_inner_shorter(line@, word@);
        }
        match classify(line, &word) {
            Piece::Wrap(wrapper, inner) => {
                return match parse_chars(&inner) {
                    Some(node) => Scanned::Found(wrap(wrapper, node)),
                    None => Scanned::Fail,
                };
            },
            Piece::Leaf(node) => {
                return Scanned::Found(node);
            },
            Piece::Fail => {
                return Scanned::Fail;
            },
            Piece::Skip => {},
        }
        if from + n == line.len() {
            break ;
        }
        from = from + n + 1;
    }
    Scanned::Nothing
}

/// The parse of `text`, or none where it has no parse.
fn parse_chars(text: &Vec<char>) -> (node: Option<Node>)
    ensures
        match node {
            Some(node) => parsed(text@) == Some(node@),
            None => parsed(text@) is None,
        },
    decreases text@.len(), 1int,
{
    let mut pattern: Vec<char> = Vec::new();
    pattern.push('\r');
    pattern.push('\n');
    pattern.push('\r');
    let nothing: Vec<char> = Vec::new();
    assert(pattern@ == blank());
    assert(nothing@ == Seq::<char>::empty());
    let clean = substitute_chars(text, &pattern, &nothing);
    proof {
        lemma_substituted_shrinks(text@, blank(), Seq::empty());
        assert(clean@.skip(0) == clean@);
    }
    let mut start: usize = 0;
    loop
        invariant
            start <= clean.len() <= text.len(),
            parsed_lines(clean@.skip(start as int)) == parsed(text@),
        decreases clean.len() - start,
    {
        let n = span_from(&clean, start, '\n');
        let line = slice(&clean, start, start + n);
        proof {
            let rest = clean@.skip(start as int);
            assert(line@ == rest.take(span(rest, '\n')));
        }
        match scan(&line) {
            Scanned::Found(node) => {
                return Some(node);
            },
            Scanned::Fail => {
                return None;
            },
            Scanned::Nothing => {},
        }
        if start + n == clean.len() {
            return Some(Node::Text(String::new()));
        }
        assert(clean@.skip(start as int).skip(n + 1) == clean@.skip(start + n + 1));
        start = start + n + 1;
    }
}

/// Parses Markdown into its first element, where the text has a parse.
pub fn try_parse(text: &str) -> (node: Option<Box<Node>>)
    ensures
        match node {
            Some(node) => parsed(text@) == Some(node@),
            None => parsed(text@) is None,
        },
{
    match parse_chars(&chars_of(text)) {
        Some(node) => Some(Box::new(node)),
        None => None,
    }
}

/// What can be parsed as Markdown.
pub trait Parser: Sized {
    /// The text that is parsed.
    spec fn source(self) -> Seq<char>;

    /// Parses the text into its first element.
    fn parse(self) -> (node: Box<Node>)
        requires
            parsed(self.source()) is Some,
        ensures
            parsed(self.source()) == Some(node@),
    ;
}

impl Parser for String {
    open spec fn source(self) -> Seq<char> {
        self@
    }

    fn parse(self) -> (node: Box<Node>) {
        match try_parse(self.as_str()) {
            Some(node) => node,
            None => unreached(),
        }
    }
}

} // verus!
