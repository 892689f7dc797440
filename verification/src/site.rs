use vstd::prelude::*;

use crate::chars::{push_text, text_of};
use crate::render::{escaped, push_escaped};
use crate::templater::{path_of_post, post_path, Conf, ConfView, PostTemplate};

verus! {

/// Where the posts and templates are read and where the pages are written.
#[derive(Debug)]
pub struct Settings {
    /// The directory that holds the Markdown posts.
    pub posts: String,
    /// The directory that holds the HTML templates.
    pub templates: String,
    /// The directory of the posts' pages, below the root.
    pub out: String,
    /// The root of what is written; the home page goes directly there.
    pub root: String,
}

impl Default for Settings {
    /// Posts in `_posts`, templates in `_templates`, pages in `posts` below
    /// `public/`.
    fn default() -> (settings: Settings)
        ensures
            settings.posts@ == "_posts"@,
            settings.templates@ == "_templates"@,
            settings.out@ == "posts"@,
            settings.root@ == "public/"@,
    {
        Settings {
            posts: String::from_str("_posts"),
            templates: String::from_str("_templates"),
            out: String::from_str("posts"),
            root: String::from_str("public/"),
        }
    }
}

impl Settings {
    /// The directory that the posts' pages are written to: the root directly
    /// followed by `out`.
    pub fn post_dir(&self) -> (dir: String)
        ensures
            dir@ == self.root@ + self.out@,
    {
        let mut dir: Vec<char> = Vec::new();
        push_text(&mut dir, self.root.as_str());
        push_text(&mut dir, self.out.as_str());
        text_of(&dir)
    }

    /// The path of the home page's template: `home.html` among the templates.
    pub fn home_template(&self) -> (path: String)
        ensures
            path@ == self.templates@ + "/home.html"@,
    {
        let mut path: Vec<char> = Vec::new();
        push_text(&mut path, self.templates.as_str());
        push_text(&mut path, "/home.html");
        text_of(&path)
    }
}

/// The entry of one post in the navigation: its date, and its title as a link
/// to its page in `out`, each escaped for HTML.
pub open spec fn nav_entry(conf: ConfView, out: Seq<char>) -> Seq<char> {
    "<li><time class=\"mid-gray tracked\">"@ + escaped(conf.date) + "</time><a href=\""@
        + escaped(post_path(out, conf.title))
        + "\" class=\"dib pl2 blue dim\"><h2 class=\"f5 dib blue dim\">"@ + escaped(conf.title)
        + "</h2></a></li>"@
}

/// The navigation markup: the entries of the posts, one after the other.
pub open spec fn nav_markup(confs: Seq<ConfView>, out: Seq<char>) -> Seq<char>
    decreases confs.len(),
{
    if confs.len() == 0 {
        Seq::empty()
    } else {
        nav_markup(confs.drop_last(), out) + nav_entry(confs.last(), out)
    }
}

/// The metadata of each job, in order.
pub open spec fn confs_of(jobs: Seq<(PostTemplate, Conf)>) -> Seq<ConfView> {
    Seq::new(jobs.len(), |i: int| jobs[i].1@)
}

/// The entry of one post in the navigation.
pub fn navigation_entry(conf: &Conf, out: &str) -> (entry: String)
    ensures
        entry@ == nav_entry(conf@, out@),
{
    let mut entry = String::from_str("<li><time class=\"mid-gray tracked\">");
    push_escaped(&mut entry, conf.date.as_str());
    entry.append("</time><a href=\"");
    push_escaped(&mut entry, path_of_post(out, conf.title.as_str()).as_str());
    entry.append("\" class=\"dib pl2 blue dim\"><h2 class=\"f5 dib blue dim\">");
    push_escaped(&mut entry, conf.title.as_str());
    entry.append("</h2></a></li>");
    entry
}

/// The navigation markup for the posts of `jobs`, whose pages are in `out`.
pub fn navigation(jobs: &Vec<(PostTemplate, Conf)>, out: &str) -> (markup: String)
    ensures
        markup@ == nav_markup(confs_of(jobs@), out@),
{
    let mut markup = String::new();
    let mut i: usize = 0;
    while i < jobs.len()
        invariant
            i <= jobs.len(),
            markup@ == nav_markup(confs_of(jobs@).take(i as int), out@),
        decreases jobs.len() - i,
    {
        let entry = navigation_entry(&jobs[i].1, out);
        markup.append(entry.as_str());
        proof {
            let confs = confs_of(jobs@);
            assert(confs.take(i + 1).drop_last() == confs.take(i as int));
        }
        i += 1;
    }
    assert(confs_of(jobs@).take(jobs.len() as int) == confs_of(jobs@));
    markup
}

/// The entries of the navigation stand in the order of the posts: the markup
/// of some posts followed by others is the markup of the first followed by the
/// markup of the others.
pub proof fn lemma_navigation_in_order(first: Seq<ConfView>, others: Seq<ConfView>, out: Seq<char>)
    ensures
        nav_markup(first + others, out) == nav_markup(first, out) + nav_markup(others, out),
    decreases others.len(),
{
    if others.len() == 0 {
        assert(first + others == first);
    } else {
        assert((first + others).drop_last() == first + others.drop_last());
        lemma_navigation_in_order(first, others.drop_last(), out);
    }
}

} // verus!
