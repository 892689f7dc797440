use vstd::prelude::*;

verus! {

/// The HTML that the Markdown renderer gives for a text.
pub uninterp spec fn markdown_html(markdown: Seq<char>) -> Seq<char>;

/// `markdown::to_html`, which compiles Markdown to HTML as CommonMark says. It
/// never fails, and what it returns depends on the text alone: that result has
/// the name [`markdown_html`].
#[verifier::external_body]
pub(crate) fn render_markdown(text: &str) -> (html: String)
    ensures
        html@ == markdown_html(text@),
{
    markdown::to_html(text)
}

/// What stands for `c` in HTML: an entity for `&`, `<`, `>` and `"`, and the
/// character itself for any other.
pub open spec fn escaped_char(c: char) -> Seq<char> {
    if c == '&' {
        "&amp;"@
    } else if c == '<' {
        "&lt;"@
    } else if c == '>' {
        "&gt;"@
    } else if c == '"' {
        "&quot;"@
    } else {
        seq![c]
    }
}

/// `text` with each of its characters escaped for HTML.
pub open spec fn escaped(text: Seq<char>) -> Seq<char>
    decreases text.len(),
{
    if text.len() == 0 {
        text
    } else {
        escaped(text.drop_last()) + escaped_char(text.last())
    }
}

/// `maud::Render::render_to` for a `str`, which is how `maud` writes a value
/// into markup: it appends the value to the buffer with `&`, `<`, `>` and `"`
/// replaced by `&amp;`, `&lt;`, `&gt;` and `&quot;`, and every other
/// character as it is.
#[verifier::external_body]
pub(crate) fn push_escaped(out: &mut String, value: &str)
    ensures
        final(out)@ == old(out)@ + escaped(value@),
{
    maud::Render::render_to(value, out)
}

} // verus!
