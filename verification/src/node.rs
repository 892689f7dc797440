use std::io::Error;
use vstd::prelude::*;

use crate::chars::{push_text, text_of};

verus! {

/// The two kinds of list.
#[derive(Debug, PartialOrd, PartialEq)]
pub enum ListType {
    Ordered,
    Unordered,
}

/// An element of a Markdown document.
#[derive(Debug, PartialOrd, PartialEq)]
pub enum Node {
    Bold(Box<Node>),
    Italics(Box<Node>),
    Heading { inner: Box<Node>, size: u8 },
    Text(String),
    Code(String),
    BlockQuote(Box<Node>),
    List { items: Vec<Box<Node>>, listtype: ListType },
    ListItem(Box<Node>),
    Link { text: String, link: String },
    Image { text: String, link: String },
    HR,
}

impl Node {
    /// Does nothing: a node is already parsed.
    pub fn parse(&self) {
    }
}

/// A Markdown document: the path of its file and its text.
pub struct Document {
    path: String,
    markdown: String,
}

impl Document {
    /// Does nothing, whatever the text.
    pub fn parse(markdown: String) {
    }
}

/// What a [`Node`] stands for: the same tree, with its texts as sequences of
/// characters.
pub enum Element {
    Bold(Box<Element>),
    Italics(Box<Element>),
    Heading { inner: Box<Element>, size: u8 },
    Text(Seq<char>),
    Code(Seq<char>),
    BlockQuote(Box<Element>),
    List { items: Seq<Element>, listtype: ListType },
    ListItem(Box<Element>),
    Link { text: Seq<char>, link: Seq<char> },
    Image { text: Seq<char>, link: Seq<char> },
    HR,
}

/// What `node` stands for.
pub open spec fn element(node: Node) -> Element
    decreases node,
{
    match node {
        Node::Bold(inner) => Element::Bold(Box::new(element(*inner))),
        Node::Italics(inner) => Element::Italics(Box::new(element(*inner))),
        Node::Heading { inner, size } => Element::Heading {
            inner: Box::new(element(*inner)),
            size,
        },
        Node::Text(text) => Element::Text(text@),
        Node::Code(text) => Element::Code(text@),
        Node::BlockQuote(inner) => Element::BlockQuote(Box::new(element(*inner))),
        Node::List { items, listtype } => Element::List {
            items: Seq::new(
                items.len() as nat,
                |i: int|
                    if 0 <= i < items.len() {
                        element(*items[i])
                    } else {
                        arbitrary()
                    },
            ),
            listtype,
        },
        Node::ListItem(inner) => Element::ListItem(Box::new(element(*inner))),
        Node::Link { text, link } => Element::Link { text: text@, link: link@ },
        Node::Image { text, link } => Element::Image { text: text@, link: link@ },
        Node::HR => Element::HR,
    }
}

impl View for Node {
    type V = Element;

    open spec fn view(&self) -> Element {
        element(*self)
    }
}

/// `std::io::Error`, the error of a rendering that fails. Nothing is said of
/// what such a value holds.
#[verifier::external_type_specification]
#[verifier::external_body]
pub struct ExError(Error);

/// The decimal digit for `d`, which is below ten.
pub open spec fn digit(d: nat) -> char {
    if d == 0 {
        '0'
    } else if d == 1 {
        '1'
    } else if d == 2 {
        '2'
    } else if d == 3 {
        '3'
    } else if d == 4 {
        '4'
    } else if d == 5 {
        '5'
    } else if d == 6 {
        '6'
    } else if d == 7 {
        '7'
    } else if d == 8 {
        '8'
    } else {
        '9'
    }
}

/// `n` written in decimal, without leading zeros.
pub open spec fn decimal(n: nat) -> Seq<char>
    decreases n,
{
    if n < 10 {
        seq![digit(n)]
    } else {
        decimal(n / 10).push(digit(n % 10))
    }
}

/// The name of the HTML tag of a list of this kind.
pub open spec fn list_tag(listtype: ListType) -> Seq<char> {
    match listtype {
        ListType::Ordered => "ol"@,
        ListType::Unordered => "ul"@,
    }
}

/// The HTML of an element: its tag around the HTML of what it holds.
pub open spec fn html(element: Element) -> Seq<char>
    decreases element,
{
    match element {
        Element::Bold(inner) => "<b>"@ + html(*inner) + "</b>"@,
        Element::Italics(inner) => "<i>"@ + html(*inner) + "</i>"@,
        Element::Heading { inner, size } => "<h"@ + decimal(size as nat) + ">"@ + html(*inner)
            + "</h"@ + decimal(size as nat) + ">"@,
        Element::Text(text) => text,
        Element::Code(text) => "<pre><code>"@ + text + "</code></pre>"@,
        Element::BlockQuote(inner) => "<blockquote>"@ + html(*inner) + "</blockquote>"@,
        Element::List { items, listtype } => "<"@ + list_tag(listtype) + ">"@ + html_of_all(items)
            + "</"@ + list_tag(listtype) + ">"@,
        Element::ListItem(inner) => "<li>"@ + html(*inner) + "</li>"@,
        Element::Link { text, link } => "<a href='"@ + link + "'>"@ + text + "</a>"@,
        Element::Image { text, link } => "<img src='"@ + link + "' alt='"@ + text + "'>"@,
        Element::HR => "<hr>"@,
    }
}

/// The HTML of each of `items`, one after the other.
pub open spec fn html_of_all(items: Seq<Element>) -> Seq<char>
    decreases items,
{
    if items.len() == 0 {
        Seq::empty()
    } else {
        html_of_all(items.drop_last()) + html(items.last())
    }
}

/// What can be rendered to HTML.
pub trait ToHtml: Sized {
    /// The HTML that stands for `self`.
    spec fn html(self) -> Seq<char>;

    /// Renders `self`; a rendering that succeeds gives `self.html()`.
    fn to_html(self) -> (out: Result<String, Error>)
        ensures
            out matches Ok(text) ==> text@ == self.html(),
    ;
}

impl ToHtml for ListType {
    open spec fn html(self) -> Seq<char> {
        list_tag(self)
    }

    /// Always succeeds, with the tag's name.
    fn to_html(self) -> (out: Result<String, Error>)
        ensures
            out matches Ok(text) && text@ == list_tag(self),
    {
        match self {
            ListType::Ordered => Ok(String::from_str("ol")),
            ListType::Unordered => Ok(String::from_str("ul")),
        }
    }
}

/// The decimal digit for `d`.
fn digit_of(d: u8) -> (c: char)
    requires
        d < 10,
    ensures
        c == digit(d as nat),
{
    if d == 0 {
        '0'
    } else if d == 1 {
        '1'
    } else if d == 2 {
        '2'
    } else if d == 3 {
        '3'
    } else if d == 4 {
        '4'
    } else if d == 5 {
        '5'
    } else if d == 6 {
        '6'
    } else if d == 7 {
        '7'
    } else if d == 8 {
        '8'
    } else {
        '9'
    }
}

/// Appends `n` in decimal to `out`.
fn push_decimal(out: &mut Vec<char>, n: u8)
    ensures
        final(out)@ == old(out)@ + decimal(n as nat),
{
    reveal_with_fuel(decimal, 3);
    if n >= 100 {
        out.push(digit_of(n / 100));
    }
    if n >= 10 {
        out.push(digit_of((n / 10) % 10));
    }
    out.push(digit_of(n % 10));
}

/// Appends the HTML of `node` to `out`.
fn render(node: &Node, out: &mut Vec<char>)
    ensures
        final(out)@ == old(out)@ + html(node@),
    decreases node,
{
    match node {
        Node::Bold(inner) => {
            push_text(out, "<b>");
            render(inner, out);
            push_text(out, "</b>");
        },
        Node::Italics(inner) => {
            push_text(out, "<i>");
            render(inner, out);
            push_text(out, "</i>");
        },
        Node::Heading { inner, size } => {
            push_text(out, "<h");
            push_decimal(out, *size);
            push_text(out, ">");
            render(inner, out);
            push_text(out, "</h");
            push_decimal(out, *size);
            push_text(out, ">");
        },
        Node::Text(text) => {
            push_text(out, text.as_str());
        },
        Node::Code(text) => {
            push_text(out, "<pre><code>");
            push_text(out, text.as_str());
            push_text(out, "</code></pre>");
        },
        Node::BlockQuote(inner) => {
            push_text(out, "<blockquote>");
            render(inner, out);
            push_text(out, "</blockquote>");
        },
        Node::List { items, listtype } => {
            let tag = match listtype {
                ListType::Ordered => "ol",
                ListType::Unordered => "ul",
            };
            push_text(out, "<");
            push_text(out, tag);
            push_text(out, ">");
            let ghost start = out@;
            let ghost elements = node@->List_items;
            let mut i: usize = 0;
            while i < items.len()
                invariant
                    i <= items.len(),
                    node is List,
                    node->List_items == *items,
                    elements.len() == items.len(),
                    forall|j: int| 0 <= j < items.len() ==> elements[j] == element(*items[j]),
                    out@ == start + html_of_all(elements.take(i as int)),
                decreases items.len() - i,
            {
                proof {
                    assert(decreases_to!(node => node->List_items));
                    assert(decreases_to!(*items => items[i as int]));
                }
                render(&items[i], out);
                proof {
                    assert(elements.take(i + 1).drop_last() == elements.take(i as int));
                }
                i += 1;
            }
            proof {
                assert(elements.take(items.len() as int) == elements);
            }
            push_text(out, "</");
            push_text(out, tag);
            push_text(out, ">");
        },
        Node::ListItem(inner) => {
            push_text(out, "<li>");
            render(inner, out);
            push_text(out, "</li>");
        },
        Node::Link { text, link } => {
            push_text(out, "<a href='");
            push_text(out, link.as_str());
            push_text(out, "'>");
            push_text(out, text.as_str());
            push_text(out, "</a>");
        },
        Node::Image { text, link } => {
            push_text(out, "<img src='");
            push_text(out, link.as_str());
            push_text(out, "' alt='");
            push_text(out, text.as_str());
            push_text(out, "'>");
        },
        Node::HR => {
            push_text(out, "<hr>");
        },
    }
}

impl ToHtml for Node {
    open spec fn html(self) -> Seq<char> {
        html(self@)
    }

    /// Always succeeds, with the HTML of the tree.
    fn to_html(self) -> (out: Result<String, Error>)
        ensures
            out matches Ok(text) && text@ == html(self@),
    {
        let mut out: Vec<char> = Vec::new();
        render(&self, &mut out);
        Ok(text_of(&out))
    }
}

} // verus!
