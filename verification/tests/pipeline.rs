use oxide::front_matter::{metadata_document, split_front_matter};
use oxide::post_set::{Action, Event, PostSet, Stage};
use oxide::site::{navigation, navigation_entry, Settings};
use oxide::substitute::substitute;
use oxide::templater::{build_post, fill, path_of_post};
use oxide::transform::slug;
use oxide::{Buildable, Conf, HomeTemplate, PostTemplate, Transform, Transforms};

fn conf(title: &str, date: &str, template: &str) -> Conf {
    Conf { title: title.to_string(), date: date.to_string(), template: template.to_string() }
}

fn parts(content: &str) -> Option<(String, String)> {
    split_front_matter(content)
}

fn some(metadata: &str, body: &str) -> Option<(String, String)> {
    Some((metadata.to_string(), body.to_string()))
}

/// The two captures of the front-matter pattern, by the regex engine.
fn by_regex(content: &str) -> Option<(String, String)> {
    let pattern = regex::Regex::new(r"---([\s\S]*?)----([\s\S]*?)----").unwrap();
    pattern
        .captures(content)
        .map(|caps| (caps.get(1).unwrap().as_str().to_string(), caps.get(2).unwrap().as_str().to_string()))
}

// ---------------------------------------------------------------- transforms

#[test]
fn lowercase_changes_ascii_capitals_only() {
    assert_eq!("Hello World ÀÉ Z@[".to_string().transform(Transforms::Lowercase), "hello world ÀÉ z@[");
}

#[test]
fn uppercase_changes_ascii_small_letters_only() {
    assert_eq!("Hello World àé z`{".to_string().transform(Transforms::Uppercase), "HELLO WORLD àé Z`{");
}

#[test]
fn no_whitespaces_changes_spaces_only() {
    assert_eq!("a b  c\td\n".to_string().transform(Transforms::NoWhitespaces), "a-b--c\td\n");
}

#[test]
fn transforms_agree_with_std() {
    for text in ["", "Hello World", "MiXeD 123 _-", "ünï cödé ß", "A\u{10FFFF}z Z"] {
        assert_eq!(text.to_string().transform(Transforms::Lowercase), text.to_ascii_lowercase());
        assert_eq!(text.to_string().transform(Transforms::Uppercase), text.to_ascii_uppercase());
        assert_eq!(text.to_string().transform(Transforms::NoWhitespaces), text.replace(" ", "-"));
    }
}

#[test]
fn slug_is_lowercase_then_hyphens() {
    assert_eq!(slug("Hello World"), "hello-world");
    assert_eq!(slug("Beta Two"), "beta-two");
    assert_eq!(slug("Ünï Code"), "Ünï-code");
    assert_eq!(slug(""), "");
    assert_eq!(
        slug("Hello World"),
        "Hello World".to_string().transform(Transforms::Lowercase).transform(Transforms::NoWhitespaces)
    );
}

#[test]
fn slug_of_a_slug_is_the_slug() {
    for title in ["Hello World", "already-a-slug", "  A  B  ", "MIXED case-Title", ""] {
        assert_eq!(slug(&slug(title)), slug(title));
    }
}

// -------------------------------------------------------------- substitution

#[test]
fn substitute_replaces_every_occurrence() {
    assert_eq!(substitute("a{{x}}b{{x}}", "{{x}}", "1"), "a1b1");
    assert_eq!(substitute("no placeholder", "{{x}}", "1"), "no placeholder");
    assert_eq!(substitute("", "{{x}}", "1"), "");
    assert_eq!(substitute("{{x}}", "{{x}}", ""), "");
}

#[test]
fn substitute_does_not_scan_the_value_again() {
    assert_eq!(substitute("<{{x}}>", "{{x}}", "{{x}}{{x}}"), "<{{x}}{{x}}>");
    assert_eq!(substitute("{{{{x}}x}}", "{{x}}", ""), "{{x}}");
}

#[test]
fn substitute_takes_occurrences_from_the_left_without_overlap() {
    assert_eq!(substitute("aaa", "aa", "b"), "ba");
    assert_eq!(substitute("aaaa", "aa", "b"), "bb");
    assert_eq!(substitute("ababa", "aba", "x"), "xba");
}

#[test]
fn substitute_with_empty_pattern_puts_the_value_everywhere() {
    assert_eq!(substitute("ab", "", "-"), "-a-b-");
    assert_eq!(substitute("", "", "x"), "x");
}

#[test]
fn substitute_agrees_with_std() {
    let texts = ["", "a", "{{title}} and {{title}}", "{{{title}}}", "aaaa", "ünï {{d}} ß{{d}}", "----"];
    let patterns = ["", "a", "aa", "{{title}}", "{{d}}", "--", "ß"];
    let values = ["", "x", "{{d}}", "a", "ü"];
    for text in texts {
        for pattern in patterns {
            for value in values {
                assert_eq!(substitute(text, pattern, value), text.replace(pattern, value));
            }
        }
    }
}

// -------------------------------------------------------------- front matter

#[test]
fn front_matter_of_a_post() {
    let post = "---\ntitle: Hello World\ndate: 2024-01-02\ntemplate: basic.html\n----\n# Hi\n----";
    assert_eq!(
        parts(post),
        some("\ntitle: Hello World\ndate: 2024-01-02\ntemplate: basic.html\n", "\n# Hi\n")
    );
}

#[test]
fn front_matter_takes_the_shortest_parts() {
    assert_eq!(parts("x---a----b----c----d"), some("a", "b"));
    assert_eq!(parts("-----------"), some("", ""));
    assert_eq!(parts("------------"), some("", ""));
    assert_eq!(parts("---a-----b-----"), some("a", "-b"));
    assert_eq!(parts("--- ---- ---- ----"), some(" ", " "));
}

#[test]
fn front_matter_needs_all_three_fences() {
    assert_eq!(parts(""), None);
    assert_eq!(parts("no fences at all"), None);
    assert_eq!(parts("---\ntitle: x\n---\nbody\n---"), None);
    assert_eq!(parts("---\ntitle: x\n----\nbody"), None);
    assert_eq!(parts("----------"), None);
    assert_eq!(parts("-- - ---- ----"), None);
}

#[test]
fn front_matter_agrees_with_the_pattern() {
    let posts = [
        "",
        "---",
        "-------",
        "----------",
        "-----------",
        "------------",
        "-------------------",
        "---a----b----",
        "---a----b---",
        "x---a----b----c----d",
        "---a-----b-----",
        "--- ---- ---- ----",
        "-- ---x-------y---- ----",
        "---\ntitle: Hello World\ndate: 2024-01-02\ntemplate: basic.html\n----\n# Hi\n----",
        "intro\n---\ntitle: é\n----\nbödy ---- more\n----\n---x----y----",
        "---\r\nt\r\n----\r\nb\r\n----\r\n",
    ];
    for post in posts {
        assert_eq!(parts(post), by_regex(post), "for {:?}", post);
    }
}

#[test]
fn metadata_document_opens_with_three_hyphens() {
    assert_eq!(metadata_document("\ntitle: x\n"), "---\ntitle: x\n");
    assert_eq!(metadata_document(""), "---");
}

// ------------------------------------------------------------------ building

#[test]
fn fill_replaces_the_three_placeholders() {
    assert_eq!(
        fill("<h1>{{title}}</h1><p>{{date}}</p>{{content}}", "Hello World", "2024-01-02", "<h1>Hi</h1>"),
        "<h1>Hello World</h1><p>2024-01-02</p><h1>Hi</h1>"
    );
    assert_eq!(fill("{{title}}{{title}} {{list}} {{other}}", "T", "D", "C"), "TT {{list}} {{other}}");
    assert_eq!(fill("", "T", "D", "C"), "");
}

#[test]
fn fill_goes_title_then_date_then_content() {
    // A title that holds the date's placeholder is filled by the second pass.
    assert_eq!(fill("{{title}}", "{{date}}", "D", "C"), "D");
    assert_eq!(fill("{{title}}", "{{content}}", "D", "C"), "C");
    assert_eq!(fill("{{date}}", "T", "{{content}}", "C"), "C");
    // Nothing is scanned for a placeholder whose pass is over.
    assert_eq!(fill("{{date}}", "T", "{{title}}", "C"), "{{title}}");
    assert_eq!(fill("{{content}}", "T", "D", "{{title}}{{date}}{{content}}"), "{{title}}{{date}}{{content}}");
}

#[test]
fn post_path_is_the_slug_with_html() {
    assert_eq!(path_of_post("public/posts", "Hello World"), "public/posts/hello-world.html");
    assert_eq!(path_of_post("", "A"), "/a.html");
}

#[test]
fn single_post_happy_path() {
    let post = PostTemplate::new(
        "<h1>{{title}}</h1><p>{{date}}</p>{{content}}".to_string(),
        "# Hi".to_string(),
    );
    let built = (post, conf("Hello World", "2024-01-02", "basic.html")).build("public/posts");
    assert_eq!(built.len(), 1);
    assert_eq!(built[0].path, "public/posts/hello-world.html");
    assert_eq!(built[0].html, "<h1>Hello World</h1><p>2024-01-02</p><h1>Hi</h1>");
}

#[test]
fn post_body_is_rendered_by_the_markdown_renderer() {
    let body = "\n# Hi\n\nSome *text* with `code`.\n";
    let post = PostTemplate::new("{{content}}".to_string(), body.to_string());
    let page = build_post(&post, &conf("T", "D", "t.html"), "out");
    assert_eq!(page.html, markdown::to_html(body));
    assert!(page.html.contains("<h1>Hi</h1>"));
    assert!(page.html.contains("<em>text</em>"));
    assert_ne!(page.html, body);
}

#[test]
fn posts_are_built_in_order() {
    let jobs = vec![
        (PostTemplate::new("{{title}}".to_string(), String::new()), conf("Alpha", "1", "t")),
        (PostTemplate::new("{{date}}".to_string(), String::new()), conf("Beta Two", "2", "t")),
        (PostTemplate::new("{{title}}!".to_string(), String::new()), conf("Gamma", "3", "t")),
    ];
    let built = jobs.build("posts");
    let paths: Vec<&str> = built.iter().map(|page| page.path.as_str()).collect();
    assert_eq!(paths, vec!["posts/alpha.html", "posts/beta-two.html", "posts/gamma.html"]);
    let htmls: Vec<&str> = built.iter().map(|page| page.html.as_str()).collect();
    assert_eq!(htmls, vec!["Alpha", "2", "Gamma!"]);
    assert!(Vec::<(PostTemplate, Conf)>::new().build("posts").is_empty());
}

#[test]
fn home_page_replaces_the_list() {
    let home = HomeTemplate::new("<ul>{{list}}</ul>{{list}}{{title}}".to_string(), "<li>x</li>".to_string());
    assert_eq!(home.template, "<ul>{{list}}</ul>{{list}}{{title}}");
    assert_eq!(home.markup, "<li>x</li>");
    let built = home.build("public/");
    assert_eq!(built.len(), 1);
    assert_eq!(built[0].path, "public//home.html");
    assert_eq!(built[0].html, "<ul><li>x</li></ul><li>x</li>{{title}}");
}

#[test]
fn building_twice_gives_the_same_pages() {
    let jobs = || {
        vec![
            (PostTemplate::new("{{title}} {{content}}".to_string(), "*a*".to_string()), conf("A B", "1", "t")),
            (PostTemplate::new("{{date}}".to_string(), "# b".to_string()), conf("C", "2", "t")),
        ]
    };
    let first = jobs().build("posts");
    let second = jobs().build("posts");
    assert_eq!(first.len(), second.len());
    for (a, b) in first.iter().zip(second.iter()) {
        assert_eq!(a.path, b.path);
        assert_eq!(a.html, b.html);
    }
    assert_eq!(navigation(&jobs(), "posts"), navigation(&jobs(), "posts"));
}

// ---------------------------------------------------------------- navigation

#[test]
fn navigation_entry_has_date_link_and_title() {
    assert_eq!(
        navigation_entry(&conf("Hello World", "2024-01-02", "basic.html"), "posts"),
        "<li><time class=\"mid-gray tracked\">2024-01-02</time>\
         <a href=\"posts/hello-world.html\" class=\"dib pl2 blue dim\">\
         <h2 class=\"f5 dib blue dim\">Hello World</h2></a></li>"
    );
}

#[test]
fn navigation_escapes_its_values() {
    let entry = navigation_entry(&conf("A<B & \"C\"", "<1>", "t"), "o&p");
    assert!(entry.contains("<time class=\"mid-gray tracked\">&lt;1&gt;</time>"));
    assert!(entry.contains("href=\"o&amp;p/a&lt;b-&amp;-&quot;c&quot;.html\""));
    assert!(entry.contains(">A&lt;B &amp; &quot;C&quot;</h2>"));
}

#[test]
fn home_page_aggregation() {
    let jobs = vec![
        (PostTemplate::default(), conf("Alpha", "1", "t")),
        (PostTemplate::default(), conf("Beta Two", "2", "t")),
        (PostTemplate::default(), conf("Gamma", "3", "t")),
    ];
    let nav = navigation(&jobs, "posts");
    let built = HomeTemplate::new("<ul>{{list}}</ul>".to_string(), nav.clone()).build("public/");
    let html = &built[0].html;
    assert_eq!(built[0].path, "public//home.html");
    assert_eq!(html.matches("<li>").count(), 3);
    let alpha = html.find("href=\"posts/alpha.html\"").unwrap();
    let beta = html.find("href=\"posts/beta-two.html\"").unwrap();
    let gamma = html.find("href=\"posts/gamma.html\"").unwrap();
    assert!(alpha < beta && beta < gamma);
    let entries: String = jobs.iter().map(|job| navigation_entry(&job.1, "posts")).collect();
    assert_eq!(nav, entries);
    assert_eq!(*html, format!("<ul>{}</ul>", entries));
    assert_eq!(navigation(&Vec::new(), "posts"), "");
}

#[test]
fn slug_collision() {
    let jobs = vec![
        (PostTemplate::new("first".to_string(), String::new()), conf("Hello World", "1", "t")),
        (PostTemplate::new("second".to_string(), String::new()), conf("hello world", "2", "t")),
    ];
    let nav = navigation(&jobs, "posts");
    assert_eq!(nav.matches("<li>").count(), 2);
    let built = jobs.build("public/posts");
    assert_eq!(built.len(), 2);
    assert_eq!(built[0].path, "public/posts/hello-world.html");
    assert_eq!(built[1].path, "public/posts/hello-world.html");
    assert_eq!(built[1].html, "second");
}

// ------------------------------------------------------------------ settings

#[test]
fn default_settings() {
    let settings = Settings::default();
    assert_eq!(settings.posts, "_posts");
    assert_eq!(settings.templates, "_templates");
    assert_eq!(settings.out, "posts");
    assert_eq!(settings.root, "public/");
    assert_eq!(settings.post_dir(), "public/posts");
    assert_eq!(settings.home_template(), "_templates/home.html");
}

#[test]
fn custom_output_paths() {
    let settings = Settings {
        posts: "_posts".to_string(),
        templates: "tpl".to_string(),
        out: "articles".to_string(),
        root: "out/".to_string(),
    };
    assert_eq!(settings.post_dir(), "out/articles");
    assert_eq!(settings.home_template(), "tpl/home.html");
    let post = (PostTemplate::new("x".to_string(), String::new()), conf("My Post", "d", "t"));
    assert_eq!(post.build(&settings.post_dir())[0].path, "out/articles/my-post.html");
    let home = HomeTemplate::new(String::new(), String::new()).build(&settings.root);
    assert_eq!(home[0].path, "out//home.html");
}

// ------------------------------------------------------------------ post set

fn templates() -> Vec<String> {
    vec!["basic.html".to_string(), "wide.html".to_string()]
}

const POST: &str = "---\ntitle: Hello World\ndate: 2024-01-02\ntemplate: basic.html\n----\n# Hi\n----";

#[test]
fn post_set_adds_a_post_step_by_step() {
    let set = PostSet::new(templates(), "_templates".to_string());
    assert!(matches!(set.stage, Stage::Idle));
    assert!(set.jobs.is_empty());

    let (set, action) = set.step(Event::Post(POST.to_string()));
    match action {
        Action::Decode(document) => assert_eq!(
            document,
            "---\ntitle: Hello World\ndate: 2024-01-02\ntemplate: basic.html\n"
        ),
        other => panic!("unexpected {:?}", other),
    }
    assert!(matches!(&set.stage, Stage::Decoding { markdown } if markdown == "\n# Hi\n"));

    let (set, action) = set.step(Event::Metadata(conf("Hello World", "2024-01-02", "basic.html")));
    match action {
        Action::Read(path) => assert_eq!(path, "_templates/basic.html"),
        other => panic!("unexpected {:?}", other),
    }
    assert!(matches!(&set.stage, Stage::Loading { .. }));
    assert!(set.jobs.is_empty());

    let (set, action) = set.step(Event::Template("<h1>{{title}}</h1>{{content}}".to_string()));
    assert!(matches!(action, Action::Added));
    assert!(matches!(set.stage, Stage::Idle));
    assert_eq!(set.templates, templates());
    assert_eq!(set.template_dir, "_templates");

    let jobs = set.finish();
    assert_eq!(jobs.len(), 1);
    assert_eq!(jobs[0].0.template, "<h1>{{title}}</h1>{{content}}");
    assert_eq!(jobs[0].0.markdown, "\n# Hi\n");
    assert_eq!(jobs[0].1.title, "Hello World");
    assert_eq!(jobs[0].1.date, "2024-01-02");
    assert_eq!(jobs[0].1.template, "basic.html");
}

#[test]
fn post_without_front_matter_is_left_out() {
    let set = PostSet::new(templates(), "_templates".to_string());
    let (set, action) = set.step(Event::Post("# just markdown\n---\n".to_string()));
    assert!(matches!(action, Action::NoFrontMatter));
    assert!(matches!(set.stage, Stage::Idle));
    assert!(set.jobs.is_empty());
    // The run goes on: the next post is taken.
    let (set, action) = set.step(Event::Post(POST.to_string()));
    assert!(matches!(action, Action::Decode(_)));
    assert!(matches!(set.stage, Stage::Decoding { .. }));
}

#[test]
fn unknown_template_skipped() {
    let set = PostSet::new(templates(), "_templates".to_string());
    let (set, _) = set.step(Event::Post(POST.to_string()));
    let (set, action) = set.step(Event::Metadata(conf("Hello World", "2024-01-02", "missing.html")));
    assert!(matches!(action, Action::UnknownTemplate));
    assert!(matches!(set.stage, Stage::Idle));
    assert!(set.jobs.is_empty());
    // The run goes on: the next post is taken and added.
    let (set, _) = set.step(Event::Post(POST.to_string()));
    let (set, _) = set.step(Event::Metadata(conf("Hello World", "2024-01-02", "wide.html")));
    let (set, action) = set.step(Event::Template("t".to_string()));
    assert!(matches!(action, Action::Added));
    assert_eq!(set.finish().len(), 1);
}

#[test]
fn template_name_must_match_exactly() {
    for name in ["Basic.html", "basic.htm", "basic.html ", "", "_templates/basic.html"] {
        let set = PostSet::new(templates(), "_templates".to_string());
        let (set, _) = set.step(Event::Post(POST.to_string()));
        let (_, action) = set.step(Event::Metadata(conf("T", "D", name)));
        assert!(matches!(action, Action::UnknownTemplate), "for {:?}", name);
    }
}

#[test]
fn event_that_is_not_waited_for_is_ignored() {
    let set = PostSet::new(templates(), "_templates".to_string());
    let (set, action) = set.step(Event::Metadata(conf("T", "D", "basic.html")));
    assert!(matches!(action, Action::Ignored));
    let (set, action) = set.step(Event::Template("t".to_string()));
    assert!(matches!(action, Action::Ignored));
    assert!(matches!(set.stage, Stage::Idle));

    let (set, _) = set.step(Event::Post(POST.to_string()));
    let (set, action) = set.step(Event::Post(POST.to_string()));
    assert!(matches!(action, Action::Ignored));
    let (set, action) = set.step(Event::Template("t".to_string()));
    assert!(matches!(action, Action::Ignored));
    assert!(matches!(&set.stage, Stage::Decoding { markdown } if markdown == "\n# Hi\n"));

    let (set, _) = set.step(Event::Metadata(conf("T", "D", "basic.html")));
    let (set, action) = set.step(Event::Post(POST.to_string()));
    assert!(matches!(action, Action::Ignored));
    let (set, action) = set.step(Event::Metadata(conf("U", "E", "wide.html")));
    assert!(matches!(action, Action::Ignored));
    assert!(matches!(&set.stage, Stage::Loading { conf, .. } if conf.title == "T"));
    assert!(set.jobs.is_empty());
}

#[test]
fn posts_are_added_in_the_order_they_come() {
    let mut set = PostSet::new(templates(), "tpl".to_string());
    for title in ["Alpha", "Beta Two", "Gamma"] {
        let (next, _) = set.step(Event::Post(POST.to_string()));
        let (next, _) = next.step(Event::Metadata(conf(title, "d", "wide.html")));
        let (next, action) = next.step(Event::Template("{{title}}".to_string()));
        assert!(matches!(action, Action::Added));
        set = next;
    }
    let jobs = set.finish();
    let titles: Vec<&str> = jobs.iter().map(|job| job.1.title.as_str()).collect();
    assert_eq!(titles, vec!["Alpha", "Beta Two", "Gamma"]);
}

#[test]
fn post_that_is_given_up_is_left_out() {
    let set = PostSet::new(templates(), "_templates".to_string());
    let (set, action) = set.step(Event::Failed);
    assert!(matches!(action, Action::Ignored));

    let (set, _) = set.step(Event::Post(POST.to_string()));
    let (set, action) = set.step(Event::Failed);
    assert!(matches!(action, Action::Abandoned));
    assert!(matches!(set.stage, Stage::Idle));

    let (set, _) = set.step(Event::Post(POST.to_string()));
    let (set, _) = set.step(Event::Metadata(conf("T", "D", "basic.html")));
    let (set, action) = set.step(Event::Failed);
    assert!(matches!(action, Action::Abandoned));
    assert!(matches!(set.stage, Stage::Idle));
    assert!(set.jobs.is_empty());
}

#[test]
fn value_stands_once_for_each_placeholder() {
    let template = "<title>{{title}}</title><h1>{{title}}</h1>{{date}}<p>{{title}}</p>{{content}}";
    let html = fill(template, "My Post", "2024-05-06", "<em>body</em>");
    assert_eq!(html.matches("My Post").count(), template.matches("{{title}}").count());
    assert_eq!(html.matches("2024-05-06").count(), 1);
    assert_eq!(html.matches("<em>body</em>").count(), 1);
    for placeholder in ["{{title}}", "{{date}}", "{{content}}"] {
        assert_eq!(html.matches(placeholder).count(), 0);
    }
    assert_eq!(
        html,
        "<title>My Post</title><h1>My Post</h1>2024-05-06<p>My Post</p><em>body</em>"
    );
}

#[test]
fn text_is_its_pieces_around_the_pattern() {
    // What a substitution keeps is what `split` gives, and what it gives is
    // the pieces joined by the value.
    for (text, pattern) in [("a{{x}}b{{x}}c", "{{x}}"), ("{{x}}", "{{x}}"), ("aaa", "aa"), ("abc", "x")] {
        let pieces: Vec<&str> = text.split(pattern).collect();
        assert_eq!(substitute(text, pattern, "<v>"), pieces.join("<v>"));
        assert_eq!(substitute(text, pattern, pattern), text);
    }
}

#[test]
fn post_put_together_from_its_parts_has_these_parts() {
    for (before, metadata, body, after) in [
        ("", "\ntitle: x\n", "\n# Hi\n", ""),
        ("intro - text\n", "m", "b", "----trailer----"),
        ("", "", "", ""),
    ] {
        let post = format!("{}---{}----{}----{}", before, metadata, body, after);
        assert_eq!(parts(&post), some(metadata, body));
    }
}
