use vstd::prelude::*;

use crate::chars::{push_text, text_of};
use crate::front_matter::{fence, front_matter, metadata_document, split_front_matter};
use crate::templater::{Conf, ConfView, PostTemplate, PostTemplateView};

verus! {

/// What a post set waits for.
#[derive(Debug)]
pub enum Stage {
    /// The text of the next post.
    Idle,
    /// The decoded metadata of the post whose body this is.
    Decoding { markdown: String },
    /// The text of the template of the post with this body and metadata.
    Loading { markdown: String, conf: Conf },
}

/// What the caller hands to a post set.
#[derive(Debug)]
pub enum Event {
    /// The text of a post.
    Post(String),
    /// The metadata of the post, decoded from the document that was handed out.
    Metadata(Conf),
    /// The text of the template whose path was handed out.
    Template(String),
    /// What was asked for could not be had.
    Failed,
}

/// What a post set asks of the caller.
#[derive(Debug)]
pub enum Action {
    /// Decode this YAML document and hand back the metadata.
    Decode(String),
    /// Read the template at this path and hand back its text.
    Read(String),
    /// The post has no front matter and is left out: go on with the next post.
    NoFrontMatter,
    /// The post names a template that is not there and is left out: go on with
    /// the next post.
    UnknownTemplate,
    /// The post was added: go on with the next post.
    Added,
    /// The post was given up and is left out: go on with the next post.
    Abandoned,
    /// The event was not the one waited for; nothing changed.
    Ignored,
}

/// The posts to build, gathered one post at a time.
///
/// The caller hands over each post's text, then what it is asked for, until the
/// post is added or left out. A post is added behind those added before it.
#[derive(Debug)]
pub struct PostSet {
    /// The names of the templates that exist.
    pub templates: Vec<String>,
    /// The directory that holds the templates.
    pub template_dir: String,
    /// What the set waits for.
    pub stage: Stage,
    /// The posts added so far, each with its metadata.
    pub jobs: Vec<(PostTemplate, Conf)>,
}

/// What a [`Stage`] holds.
pub enum StageView {
    Idle,
    Decoding { markdown: Seq<char> },
    Loading { markdown: Seq<char>, conf: ConfView },
}

impl View for Stage {
    type V = StageView;

    open spec fn view(&self) -> StageView {
        match self {
            Stage::Idle => StageView::Idle,
            Stage::Decoding { markdown } => StageView::Decoding { markdown: markdown@ },
            Stage::Loading { markdown, conf } => StageView::Loading {
                markdown: markdown@,
                conf: conf@,
            },
        }
    }
}

/// What an [`Event`] holds.
pub enum EventView {
    Post(Seq<char>),
    Metadata(ConfView),
    Template(Seq<char>),
    Failed,
}

impl View for Event {
    type V = EventView;

    open spec fn view(&self) -> EventView {
        match self {
            Event::Post(content) => EventView::Post(content@),
            Event::Metadata(conf) => EventView::Metadata(conf@),
            Event::Template(html) => EventView::Template(html@),
            Event::Failed => EventView::Failed,
        }
    }
}

/// What an [`Action`] holds.
pub enum ActionView {
    Decode(Seq<char>),
    Read(Seq<char>),
    NoFrontMatter,
    UnknownTemplate,
    Added,
    Abandoned,
    Ignored,
}

impl View for Action {
    type V = ActionView;

    open spec fn view(&self) -> ActionView {
        match self {
            Action::Decode(document) => ActionView::Decode(document@),
            Action::Read(path) => ActionView::Read(path@),
            Action::NoFrontMatter => ActionView::NoFrontMatter,
            Action::UnknownTemplate => ActionView::UnknownTemplate,
            Action::Added => ActionView::Added,
            Action::Abandoned => ActionView::Abandoned,
            Action::Ignored => ActionView::Ignored,
        }
    }
}

/// What a [`PostSet`] holds.
pub struct PostSetView {
    pub templates: Seq<Seq<char>>,
    pub template_dir: Seq<char>,
    pub stage: StageView,
    pub jobs: Seq<(PostTemplateView, ConfView)>,
}

impl View for PostSet {
    type V = PostSetView;

    open spec fn view(&self) -> PostSetView {
        PostSetView {
            templates: self.templates.deep_view(),
            template_dir: self.template_dir@,
            stage: self.stage@,
            jobs: self.jobs.deep_view(),
        }
    }
}

/// The path of the template `name` in the directory `template_dir`.
pub open spec fn template_path(template_dir: Seq<char>, name: Seq<char>) -> Seq<char> {
    template_dir + "/"@ + name
}

/// `set` at another stage.
pub open spec fn at_stage(set: PostSetView, stage: StageView) -> PostSetView {
    PostSetView { stage, ..set }
}

/// The set that `event` leads to from `set`, and what is to be done next.
///
/// - The text of a post, when a post is waited for: a post with front matter
///   has its metadata decoded, as a document that opens with three hyphens;
///   one without is left out.
/// - The metadata, when it is waited for: where it names one of the set's
///   templates, that template is read from the template directory; else the
///   post is left out.
/// - The template's text, when it is waited for: the post is added behind the
///   posts of the set, with that template, its body and its metadata.
/// - A failure, when metadata or a template is waited for: the post is left
///   out.
/// - Any other event changes nothing.
///
/// A post that is left out leaves the posts of the set as they are, and the
/// set waiting for the next post.
pub open spec fn stepped(set: PostSetView, event: EventView) -> (PostSetView, ActionView) {
    match (set.stage, event) {
        (StageView::Idle, EventView::Post(content)) => match front_matter(content) {
            None => (set, ActionView::NoFrontMatter),
            Some((metadata, body)) => (
                at_stage(set, StageView::Decoding { markdown: body }),
                ActionView::Decode(fence(3) + metadata),
            ),
        },
        (StageView::Decoding { markdown }, EventView::Metadata(conf)) => {
            if set.templates.contains(conf.template) {
                (
                    at_stage(set, StageView::Loading { markdown, conf }),
                    ActionView::Read(template_path(set.template_dir, conf.template)),
                )
            } else {
                (at_stage(set, StageView::Idle), ActionView::UnknownTemplate)
            }
        },
        (StageView::Loading { markdown, conf }, EventView::Template(html)) => (
            PostSetView {
                stage: StageView::Idle,
                jobs: set.jobs.push((PostTemplateView { template: html, markdown }, conf)),
                ..set
            },
            ActionView::Added,
        ),
        (StageView::Decoding { .. }, EventView::Failed)
        | (StageView::Loading { .. }, EventView::Failed) => (
            at_stage(set, StageView::Idle),
            ActionView::Abandoned,
        ),
        _ => (set, ActionView::Ignored),
    }
}

/// A post without front matter adds nothing and does not end the gathering:
/// the posts stay as they are, and the set waits for the next post.
pub proof fn lemma_no_front_matter_is_left_out(set: PostSetView, content: Seq<char>)
    requires
        set.stage is Idle,
        front_matter(content) is None,
    ensures
        stepped(set, EventView::Post(content)) == (set, ActionView::NoFrontMatter),
{
}

/// A post whose metadata names a template that is not there adds nothing and
/// does not end the gathering: the posts stay as they are, and the set waits
/// for the next post.
pub proof fn lemma_unknown_template_is_left_out(set: PostSetView, conf: ConfView)
    requires
        set.stage is Decoding,
        !set.templates.contains(conf.template),
    ensures
        stepped(set, EventView::Metadata(conf)).1 == ActionView::UnknownTemplate,
        stepped(set, EventView::Metadata(conf)).0.jobs == set.jobs,
        stepped(set, EventView::Metadata(conf)).0.stage is Idle,
{
}

/// A post with front matter whose metadata names one of the templates is
/// added: after its text, its metadata and its template's text, the set holds
/// one post more, behind the others, made of that template's text, the body
/// of the post and the metadata, and waits for the next post.
pub proof fn lemma_post_is_added(
    set: PostSetView,
    content: Seq<char>,
    metadata: Seq<char>,
    body: Seq<char>,
    conf: ConfView,
    html: Seq<char>,
)
    requires
        set.stage is Idle,
        front_matter(content) == Some((metadata, body)),
        set.templates.contains(conf.template),
    ensures
        ({
            let decoding = stepped(set, EventView::Post(content)).0;
            let loading = stepped(decoding, EventView::Metadata(conf)).0;
            stepped(loading, EventView::Template(html)) == (
                PostSetView {
                    jobs: set.jobs.push((PostTemplateView { template: html, markdown: body }, conf)),
                    ..set
                },
                ActionView::Added,
            )
        }),
{
}

/// Whatever the event, the posts of the set stay where they are: a step leaves
/// them as they are or adds one behind them.
pub proof fn lemma_posts_stay_in_order(set: PostSetView, event: EventView)
    ensures
        set.jobs.is_prefix_of(stepped(set, event).0.jobs),
        stepped(set, event).0.jobs.len() <= set.jobs.len() + 1,
        stepped(set, event).0.jobs.len() == set.jobs.len() + 1 <==> stepped(set, event).1
            == ActionView::Added,
        stepped(set, event).0.templates == set.templates,
        stepped(set, event).0.template_dir == set.template_dir,
{
    let after = stepped(set, event).0.jobs;
    assert(set.jobs =~= after.subrange(0, set.jobs.len() as int));
}

/// Whether `name` is one of `templates`.
fn is_known(templates: &Vec<String>, name: &String) -> (known: bool)
    ensures
        known == templates.deep_view().contains(name@),
{
    let mut i: usize = 0;
    while i < templates.len()
        invariant
            i <= templates.len(),
            forall|j: int| 0 <= j < i ==> templates@[j]@ != name@,
        decreases templates.len() - i,
    {
        if templates[i] == *name {
            assert(templates.deep_view()[i as int] == name@);
            return true;
        }
        i += 1;
    }
    false
}

impl PostSet {
    /// A set with no post yet, for the templates with these names in this
    /// directory.
    pub fn new(templates: Vec<String>, template_dir: String) -> (set: PostSet)
        ensures
            set@ == (PostSetView {
                templates: templates.deep_view(),
                template_dir: template_dir@,
                stage: StageView::Idle,
                jobs: Seq::empty(),
            }),
    {
        let set = PostSet { templates, template_dir, stage: Stage::Idle, jobs: Vec::new() };
        assert(set.jobs.deep_view() =~= Seq::empty());
        set
    }

    /// Takes one event, and gives the set after it with what to do next.
    ///
    /// A post without front matter, one whose metadata names a template that is
    /// not among the set's templates, and one that the caller gives up add
    /// nothing and leave the set waiting for the next post.
    pub fn step(self, event: Event) -> (next: (PostSet, Action))
        ensures
            (next.0@, next.1@) == stepped(self@, event@),
    {
        let PostSet { templates, template_dir, stage, jobs } = self;
        match (stage, event) {
            (Stage::Idle, Event::Post(content)) => {
                match split_front_matter(content.as_str()) {
                    None => (
                        PostSet { templates, template_dir, stage: Stage::Idle, jobs },
                        Action::NoFrontMatter,
                    ),
                    Some((metadata, markdown)) => {
                        let document = metadata_document(metadata.as_str());
                        (
                            PostSet {
                                templates,
                                template_dir,
                                stage: Stage::Decoding { markdown },
                                jobs,
                            },
                            Action::Decode(document),
                        )
                    },
                }
            },
            (Stage::Decoding { markdown }, Event::Metadata(conf)) => {
                if is_known(&templates, &conf.template) {
                    let mut path: Vec<char> = Vec::new();
                    push_text(&mut path, template_dir.as_str());
                    push_text(&mut path, "/");
                    push_text(&mut path, conf.template.as_str());
                    (
                        PostSet {
                            templates,
                            template_dir,
                            stage: Stage::Loading { markdown, conf },
                            jobs,
                        },
                        Action::Read(text_of(&path)),
                    )
                } else {
                    (
                        PostSet { templates, template_dir, stage: Stage::Idle, jobs },
                        Action::UnknownTemplate,
                    )
                }
            },
            (Stage::Loading { markdown, conf }, Event::Template(html)) => {
                let mut jobs = jobs;
                let ghost before = jobs.deep_view();
                let ghost job = (PostTemplateView { template: html@, markdown: markdown@ }, conf@);
                jobs.push((PostTemplate::new(html, markdown), conf));
                assert(jobs.deep_view() =~= before.push(job));
                (PostSet { templates, template_dir, stage: Stage::Idle, jobs }, Action::Added)
            },
            (Stage::Decoding { .. }, Event::Failed) | (Stage::Loading { .. }, Event::Failed) => (
                PostSet { templates, template_dir, stage: Stage::Idle, jobs },
                Action::Abandoned,
            ),
            (stage, _) => (PostSet { templates, template_dir, stage, jobs }, Action::Ignored),
        }
    }

    /// The posts that were added, in the order in which they were added.
    pub fn finish(self) -> (jobs: Vec<(PostTemplate, Conf)>)
        ensures
            jobs.deep_view() == self@.jobs,
    {
        self.jobs
    }
}

} // verus!
