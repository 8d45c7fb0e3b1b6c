use post_mover::{
    candidate_name, contains, default_dirs, destination_name, destination_name_today,
    find_existing, get_title, has_md_suffix, latest_markdown, pick_dir, select_source,
    strip_quotes, trim_end, MarkdownFile, TitleError,
};

fn md(name: &str, modified: i128) -> MarkdownFile {
    MarkdownFile { name: name.to_string(), modified }
}

fn names(v: &[&str]) -> Vec<String> {
    v.iter().map(|s| s.to_string()).collect()
}

#[test]
fn defaults_in_drafts_dir() {
    let (from, to) = default_dirs("writing_posts");
    assert_eq!(from, ".");
    assert_eq!(to, "../_posts/");
}

#[test]
fn defaults_in_posts_dir() {
    let (from, to) = default_dirs("_posts");
    assert_eq!(from, "../writing_posts/");
    assert_eq!(to, ".");
}

#[test]
fn defaults_elsewhere() {
    let (from, to) = default_dirs("blog");
    assert_eq!(from, "./writing_posts/");
    assert_eq!(to, "./_posts/");
    let (from, to) = default_dirs("my_writing_posts");
    assert_eq!(from, "./writing_posts/");
    assert_eq!(to, "./_posts/");
}

#[test]
fn given_dir_overrides_default() {
    assert_eq!(pick_dir("", "./_posts/".to_string()), "./_posts/");
    assert_eq!(pick_dir("out/", "./_posts/".to_string()), "out/");
}

#[test]
fn title_with_quotes() {
    let content = "---\ntitle: \"Hello World\"\ndate: 2023-01-01\n---\nbody text\n";
    assert_eq!(get_title(content), Ok(Some("Hello World.md".to_string())));
}

#[test]
fn title_trailing_whitespace_and_bare_value() {
    let content = "---\nlayout: post\ntitle: Plain title  \t\n---\n";
    assert_eq!(get_title(content), Ok(Some("Plain title.md".to_string())));
}

#[test]
fn title_with_carriage_return() {
    let content = "---\r\ntitle: \"Win\"\r\n---\r\n";
    assert_eq!(get_title(content), Ok(Some("Win.md".to_string())));
}

#[test]
fn title_inner_quotes_removed() {
    let content = "---\ntitle: \"A \"quoted\" word\"\n---\n";
    assert_eq!(get_title(content), Ok(Some("A quoted word.md".to_string())));
}

#[test]
fn no_frontmatter_gives_none() {
    assert_eq!(get_title("just some text\nno header here\n"), Ok(None));
    assert_eq!(get_title(""), Ok(None));
    assert_eq!(get_title("---\ntitle: \"Unclosed\"\n"), Ok(None));
}

#[test]
fn frontmatter_without_title_is_error() {
    let content = "---\nlayout: post\n---\nbody\n";
    assert_eq!(get_title(content), Err(TitleError::MissingTitle));
    assert_eq!(candidate_name(content, "draft.md"), Err(TitleError::MissingTitle));
}

#[test]
fn title_outside_first_block_is_ignored() {
    let content = "---\nlayout: post\n---\ntitle: \"Late\"\n";
    assert_eq!(get_title(content), Err(TitleError::MissingTitle));
}

#[test]
fn candidate_falls_back_to_source_name() {
    assert_eq!(candidate_name("no header", "draft.md"), Ok("draft.md".to_string()));
    assert_eq!(
        candidate_name("---\ntitle: \"Hello World\"\n---\n", "draft.md"),
        Ok("Hello World.md".to_string())
    );
}

#[test]
fn text_helpers() {
    assert_eq!(trim_end("ab \t\n"), "ab");
    assert_eq!(trim_end("  "), "");
    assert_eq!(trim_end(" a b"), " a b");
    assert_eq!(strip_quotes("\"x\"y\""), "xy");
    assert!(has_md_suffix("a.md"));
    assert!(has_md_suffix(".md"));
    assert!(!has_md_suffix("a.mdx"));
    assert!(!has_md_suffix("md"));
    assert!(contains("2023-01-01-Hello.md", "Hello.md"));
    assert!(contains("abc", ""));
    assert!(!contains("Hello.m", "Hello.md"));
}

#[test]
fn empty_destination_gets_dated_name() {
    let entries: Vec<String> = Vec::new();
    assert_eq!(
        destination_name("Hello World.md", &entries, "2024-05-06"),
        "2024-05-06-Hello World.md"
    );
}

#[test]
fn existing_destination_keeps_its_date() {
    let entries = names(&["2023-01-01-Hello World.md"]);
    assert_eq!(
        destination_name("Hello World.md", &entries, "2024-05-06"),
        "2023-01-01-Hello World.md"
    );
}

#[test]
fn first_listed_match_wins_and_non_markdown_is_skipped() {
    let entries = names(&[
        "2020-01-01-Other.md",
        "2021-01-01-Hello World.md.bak",
        "2022-01-01-Hello World.md",
        "2023-01-01-Hello World.md",
    ]);
    assert_eq!(find_existing("Hello World.md", &entries), Some(2));
    assert_eq!(
        destination_name("Hello World.md", &entries, "2024-05-06"),
        "2022-01-01-Hello World.md"
    );
    assert_eq!(find_existing("Missing.md", &entries), None);
}

#[test]
fn second_run_reuses_first_name() {
    let mut entries = names(&["2020-01-01-Other.md"]);
    let first = destination_name("Post.md", &entries, "2024-05-06");
    assert_eq!(first, "2024-05-06-Post.md");
    entries.insert(0, first.clone());
    let second = destination_name("Post.md", &entries, "2024-05-07");
    assert_eq!(second, first);
}

#[test]
fn today_name_is_dated() {
    let entries: Vec<String> = Vec::new();
    let r = destination_name_today("Hello World.md", &entries);
    assert!(r.ends_with("-Hello World.md"));
    assert_eq!(r.len(), "2024-05-06-Hello World.md".len());
    assert!(r.as_bytes()[4] == b'-' && r.as_bytes()[7] == b'-');
    let entries = names(&["2023-01-01-Hello World.md"]);
    assert_eq!(destination_name_today("Hello World.md", &entries), "2023-01-01-Hello World.md");
}

#[test]
fn latest_file_is_picked() {
    let files = vec![md("a.md", 10), md("b.md", 30), md("c.md", 20)];
    assert_eq!(latest_markdown(&files), Some(1));
}

#[test]
fn latest_ignores_non_markdown() {
    let files = vec![md("a.md", 10), md("notes.txt", 99), md("c.md", -5)];
    assert_eq!(latest_markdown(&files), Some(0));
}

#[test]
fn latest_tie_takes_first_listed() {
    let files = vec![md("a.md", 5), md("b.md", 7), md("c.md", 7)];
    assert_eq!(latest_markdown(&files), Some(1));
}

#[test]
fn no_markdown_files() {
    let files: Vec<MarkdownFile> = vec![md("x.txt", 1)];
    assert_eq!(latest_markdown(&files), None);
    assert_eq!(select_source("", &files), None);
    assert_eq!(select_source("", &Vec::new()), None);
}

#[test]
fn explicit_source_is_used_verbatim() {
    let files = vec![md("a.md", 10)];
    assert_eq!(select_source("other.md", &files), Some("other.md".to_string()));
    assert_eq!(select_source("", &files), Some("a.md".to_string()));
}

#[test]
fn scenario_copy_to_empty_destination() {
    let content = "---\ntitle: \"Hello World\"\n---\nHi\n";
    let files = vec![md("draft.md", 100)];
    let source = select_source("", &files).unwrap();
    assert_eq!(source, "draft.md");
    let name = candidate_name(content, &source).unwrap();
    let entries: Vec<String> = Vec::new();
    assert_eq!(destination_name(&name, &entries, "2024-05-06"), "2024-05-06-Hello World.md");
}

#[test]
fn scenario_copy_keeps_existing_date() {
    let content = "---\ntitle: \"Hello World\"\n---\nHi\n";
    let name = candidate_name(content, "draft.md").unwrap();
    let entries = names(&["2023-01-01-Hello World.md"]);
    assert_eq!(destination_name(&name, &entries, "2024-05-06"), "2023-01-01-Hello World.md");
}
