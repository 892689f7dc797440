use vstd::prelude::*;

use crate::chars::{chars_of, push_text, text_of};
use crate::render::{escaped, markdown_html, push_escaped, render_markdown};
use crate::substitute::{substitute_chars, substituted};
use crate::transform::{slug, slugged};

verus! {

/// The metadata of a post.
#[derive(Debug, Default)]
pub struct Conf {
    pub title: String,
    pub date: String,
    pub template: String,
}

/// What a [`Conf`] holds.
pub struct ConfView {
    pub title: Seq<char>,
    pub date: Seq<char>,
    pub template: Seq<char>,
}

impl View for Conf {
    type V = ConfView;

    open spec fn view(&self) -> ConfView {
        ConfView { title: self.title@, date: self.date@, template: self.template@ }
    }
}

impl DeepView for Conf {
    type V = ConfView;

    open spec fn deep_view(&self) -> ConfView {
        self@
    }
}

/// The home page before it is built: its template and the navigation markup
/// that goes into it.
#[derive(Default, Debug)]
pub struct HomeTemplate {
    pub template: String,
    pub markup: String,
}

/// What a [`HomeTemplate`] holds.
pub struct HomeTemplateView {
    pub template: Seq<char>,
    pub markup: Seq<char>,
}

impl View for HomeTemplate {
    type V = HomeTemplateView;

    open spec fn view(&self) -> HomeTemplateView {
        HomeTemplateView { template: self.template@, markup: self.markup@ }
    }
}

/// A post before it is built: the text of its template and its Markdown body.
#[derive(Default, Debug)]
pub struct PostTemplate {
    pub template: String,
    pub markdown: String,
}

/// What a [`PostTemplate`] holds.
pub struct PostTemplateView {
    pub template: Seq<char>,
    pub markdown: Seq<char>,
}

impl View for PostTemplate {
    type V = PostTemplateView;

    open spec fn view(&self) -> PostTemplateView {
        PostTemplateView { template: self.template@, markdown: self.markdown@ }
    }
}

impl DeepView for PostTemplate {
    type V = PostTemplateView;

    open spec fn deep_view(&self) -> PostTemplateView {
        self@
    }
}

/// A page that was built: the path of its file and the HTML to write there.
#[derive(Debug)]
pub struct Page {
    pub path: String,
    pub html: String,
}

/// What a [`Page`] holds.
pub struct PageView {
    pub path: Seq<char>,
    pub html: Seq<char>,
}

impl View for Page {
    type V = PageView;

    open spec fn view(&self) -> PageView {
        PageView { path: self.path@, html: self.html@ }
    }
}

impl DeepView for Page {
    type V = PageView;

    open spec fn deep_view(&self) -> PageView {
        self@
    }
}

/// A post template with its placeholders filled in: first every `{{title}}`,
/// then every `{{date}}` of the result, then every `{{content}}` of that.
pub open spec fn filled(
    template: Seq<char>,
    title: Seq<char>,
    date: Seq<char>,
    content: Seq<char>,
) -> Seq<char> {
    substituted(
        substituted(substituted(template, "{{title}}"@, title), "{{date}}"@, date),
        "{{content}}"@,
        content,
    )
}

/// The path of a post's page: its slug, with `.html`, in the directory `out`.
pub open spec fn post_path(out: Seq<char>, title: Seq<char>) -> Seq<char> {
    out + "/"@ + slugged(title) + ".html"@
}

/// The page of a post: at the path of its title, the post's template filled
/// with the title, the date and the HTML of its Markdown.
pub open spec fn post_page(post: PostTemplateView, conf: ConfView, out: Seq<char>) -> PageView {
    PageView {
        path: post_path(out, conf.title),
        html: filled(post.template, conf.title, conf.date, markdown_html(post.markdown)),
    }
}

/// The home page: at `home.html` in `out`, the template with the markup in
/// place of every `{{list}}`.
pub open spec fn home_page(home: HomeTemplateView, out: Seq<char>) -> PageView {
    PageView {
        path: out + "/home.html"@,
        html: substituted(home.template, "{{list}}"@, home.markup),
    }
}

/// Fills the placeholders of a post template.
pub fn fill(template: &str, title: &str, date: &str, content: &str) -> (html: String)
    ensures
        html@ == filled(template@, title@, date@, content@),
{
    let with_title = substitute_chars(&chars_of(template), &chars_of("{{title}}"), &chars_of(title));
    let with_date = substitute_chars(&with_title, &chars_of("{{date}}"), &chars_of(date));
    let with_content = substitute_chars(&with_date, &chars_of("{{content}}"), &chars_of(content));
    text_of(&with_content)
}

/// The path of the page of the post with this title.
pub fn path_of_post(out: &str, title: &str) -> (path: String)
    ensures
        path@ == post_path(out@, title@),
{
    let mut path: Vec<char> = Vec::new();
    push_text(&mut path, out);
    push_text(&mut path, "/");
    push_text(&mut path, slug(title).as_str());
    push_text(&mut path, ".html");
    text_of(&path)
}

/// Builds the page of one post.
pub fn build_post(post: &PostTemplate, conf: &Conf, out: &str) -> (page: Page)
    ensures
        page@ == post_page(post@, conf@, out@),
{
    let content = render_markdown(post.markdown.as_str());
    Page {
        path: path_of_post(out, conf.title.as_str()),
        html: fill(
            post.template.as_str(),
            conf.title.as_str(),
            conf.date.as_str(),
            content.as_str(),
        ),
    }
}

/// What can be built into pages.
pub trait Buildable: Sized {
    /// The pages that building gives, for files in the directory `out`.
    spec fn pages(self, out: Seq<char>) -> Seq<PageView>;

    /// Builds the pages, in order.
    fn build(self, out: &str) -> (built: Vec<Page>)
        ensures
            built.deep_view() == self.pages(out@),
    ;
}

impl Buildable for HomeTemplate {
    open spec fn pages(self, out: Seq<char>) -> Seq<PageView> {
        seq![home_page(self@, out)]
    }

    fn build(self, out: &str) -> (built: Vec<Page>) {
        let mut path: Vec<char> = Vec::new();
        push_text(&mut path, out);
        push_text(&mut path, "/home.html");
        let html = substitute_chars(
            &chars_of(self.template.as_str()),
            &chars_of("{{list}}"),
            &chars_of(self.markup.as_str()),
        );
        let mut built: Vec<Page> = Vec::new();
        built.push(Page { path: text_of(&path), html: text_of(&html) });
        assert(built.deep_view() == seq![home_page(self@, out@)]);
        built
    }
}

impl Buildable for (PostTemplate, Conf) {
    open spec fn pages(self, out: Seq<char>) -> Seq<PageView> {
        seq![post_page(self.0@, self.1@, out)]
    }

    fn build(self, out: &str) -> (built: Vec<Page>) {
        let mut built: Vec<Page> = Vec::new();
        built.push(build_post(&self.0, &self.1, out));
        assert(built.deep_view() == seq![post_page(self.0@, self.1@, out@)]);
        built
    }
}

impl Buildable for Vec<(PostTemplate, Conf)> {
    open spec fn pages(self, out: Seq<char>) -> Seq<PageView> {
        Seq::new(self@.len(), |i: int| post_page(self@[i].0@, self@[i].1@, out))
    }

    fn build(self, out: &str) -> (built: Vec<Page>) {
        let mut built: Vec<Page> = Vec::new();
        let mut i: usize = 0;
        while i < self.len()
            invariant
                i <= self.len(),
                built.len() == i,
                forall|j: int|
                    0 <= j < i ==> built@[j]@ == post_page(self@[j].0@, self@[j].1@, out@),
            decreases self.len() - i,
        {
            built.push(build_post(&self[i].0, &self[i].1, out));
            i += 1;
        }
        assert(built.deep_view() =~= self.pages(out@));
        built
    }
}

/// Building depends on nothing but what is built and the directory: whatever
/// two builds of the same give, they give the same pages.
pub proof fn lemma_build_repeats<T: Buildable>(
    what: T,
    out: Seq<char>,
    first: Vec<Page>,
    second: Vec<Page>,
)
    requires
        first.deep_view() == what.pages(out),
        second.deep_view() == what.pages(out),
    ensures
        first.deep_view() == second.deep_view(),
{
}

impl HomeTemplate {
    /// The home page to build from the text of its template and the markup.
    pub fn new(template: String, markup: String) -> (home: HomeTemplate)
        ensures
            home@ == (HomeTemplateView { template: template@, markup: markup@ }),
    {
        HomeTemplate { template, markup }
    }
}

impl PostTemplate {
    /// The post to build from the text of its template and its Markdown.
    pub fn new(template: String, markdown: String) -> (post: Self)
        ensures
            post@ == (PostTemplateView { template: template@, markdown: markdown@ }),
    {
        PostTemplate { template, markdown }
    }
}

} // verus!
