use blog_core::dates::{parse_date, Date};
use blog_core::frontmatter::extract;
use blog_core::posts::{build_index, resolve};
use blog_core::store::ContentStore;
use blog_core::BlogError;

fn b(s: &str) -> Vec<u8> {
    s.as_bytes().to_vec()
}

fn demo_doc() -> Vec<u8> {
    b("title: \"Hello\"\ntags: [intro]\ndate: \"2021-01-01\"\nblurb: \"hi\"\n\n# World\n")
}

#[test]
fn extract_returns_all_fields_and_body() {
    let doc = demo_doc();
    let (fm, body) = extract(&doc).unwrap();
    assert_eq!(fm.title, b("Hello"));
    assert_eq!(fm.date, Date { year: 2021, month: 1, day: 1 });
    assert_eq!(fm.tags, vec![b("intro")]);
    assert_eq!(fm.blurb, b("hi"));
    assert_eq!(body, b("# World\n"));
    assert!(!body.is_empty());
}

#[test]
fn extract_missing_tags_is_extraction_error() {
    let doc = b("title: \"Hello\"\ndate: \"2021-01-01\"\nblurb: \"hi\"\n\nbody\n");
    assert_eq!(extract(&doc).err().unwrap(), BlogError::ExtractionError);
}

#[test]
fn extract_missing_blurb_is_extraction_error() {
    let doc = b("title: \"Hello\"\ntags: [intro]\ndate: \"2021-01-01\"\n\nbody\n");
    assert_eq!(extract(&doc).err().unwrap(), BlogError::ExtractionError);
}

#[test]
fn extract_without_front_matter_is_extraction_error() {
    let doc = b("# Just a heading\n\nSome text.\n");
    assert_eq!(extract(&doc).err().unwrap(), BlogError::ExtractionError);
}

#[test]
fn extract_bad_calendar_date_is_date_error() {
    let doc = b("title: t\ntags: [a]\ndate: \"2021-02-30\"\nblurb: b\n\nbody\n");
    assert_eq!(extract(&doc).err().unwrap(), BlogError::DateParseError);
}

#[test]
fn extract_wrong_date_format_is_date_error() {
    let doc = b("title: t\ntags: [a]\ndate: \"01-01-2021\"\nblurb: b\n\nbody\n");
    assert_eq!(extract(&doc).err().unwrap(), BlogError::DateParseError);
}

#[test]
fn extract_unquoted_date_is_accepted() {
    let doc = b("title: t\ntags: [a]\ndate: 2022-06-15\nblurb: b\n\nbody\n");
    let (fm, _) = extract(&doc).unwrap();
    assert_eq!(fm.date, Date { year: 2022, month: 6, day: 15 });
}

#[test]
fn extract_tags_list_with_spaces() {
    let doc = b("title: t\ntags: [rust, web , blog]\ndate: 2022-06-15\nblurb: b\n\nbody\n");
    let (fm, _) = extract(&doc).unwrap();
    assert_eq!(fm.tags, vec![b("rust"), b("web"), b("blog")]);
}

#[test]
fn extract_empty_tags_list() {
    let doc = b("title: t\ntags: []\ndate: 2022-06-15\nblurb: b\n\nbody\n");
    let (fm, _) = extract(&doc).unwrap();
    assert_eq!(fm.tags, Vec::<Vec<u8>>::new());
}

#[test]
fn extract_unbracketed_tags_is_extraction_error() {
    let doc = b("title: t\ntags: intro\ndate: 2022-06-15\nblurb: b\n\nbody\n");
    assert_eq!(extract(&doc).err().unwrap(), BlogError::ExtractionError);
}

#[test]
fn extract_strips_single_quotes_from_title() {
    let doc = b("title: \"It's here\"\ntags: [a]\ndate: 2022-06-15\nblurb: b\n\nbody\n");
    let (fm, _) = extract(&doc).unwrap();
    assert_eq!(fm.title, b("Its here"));
}

#[test]
fn extract_strips_double_quotes_from_blurb() {
    let doc = b("title: t\ntags: [a]\ndate: 2022-06-15\nblurb: say \"hi\" now\n\nbody\n");
    let (fm, _) = extract(&doc).unwrap();
    assert_eq!(fm.blurb, b("say hi now"));
}

#[test]
fn extract_empty_body_stays_empty() {
    let doc = b("title: t\ntags: [a]\ndate: 2022-06-15\nblurb: b\n");
    let (_, body) = extract(&doc).unwrap();
    assert_eq!(body, b(""));
}

#[test]
fn parse_date_accepts_leap_day() {
    assert_eq!(
        parse_date(&b("2020-02-29")),
        Some(Date { year: 2020, month: 2, day: 29 })
    );
}

#[test]
fn parse_date_rejects_non_leap_february_29() {
    assert_eq!(parse_date(&b("2021-02-29")), None);
}

#[test]
fn parse_date_rejects_century_non_leap() {
    assert_eq!(parse_date(&b("1900-02-29")), None);
    assert_eq!(
        parse_date(&b("2000-02-29")),
        Some(Date { year: 2000, month: 2, day: 29 })
    );
}

#[test]
fn parse_date_rejects_bad_month_and_day() {
    assert_eq!(parse_date(&b("2021-13-01")), None);
    assert_eq!(parse_date(&b("2021-00-01")), None);
    assert_eq!(parse_date(&b("2021-04-31")), None);
    assert_eq!(parse_date(&b("2021-1-1")), None);
}

fn store_of(docs: &[(&str, &str)]) -> ContentStore {
    let mut store = ContentStore::new();
    for (name, data) in docs {
        assert!(store.add(b(name), b(data)));
    }
    store
}

#[test]
fn store_rejects_duplicate_names() {
    let mut store = ContentStore::new();
    assert!(store.add(b("a.md"), b("x")));
    assert!(!store.add(b("a.md"), b("y")));
    assert_eq!(store.list(), vec![b("a.md")]);
}

#[test]
fn store_get_finds_by_name() {
    let store = store_of(&[("a.md", "alpha"), ("b.md", "beta")]);
    assert_eq!(store.get(&b("b.md")), Some(&b("beta")));
    assert_eq!(store.get(&b("c.md")), None);
}

#[test]
fn resolve_absent_slug_is_not_found() {
    let store = store_of(&[("hello.md", "title: t\ntags: [a]\ndate: 2022-06-15\nblurb: b\n\nbody\n")]);
    assert_eq!(resolve(&store, &b("missing")).err().unwrap(), BlogError::NotFound);
}

#[test]
fn resolve_returns_extracted_title() {
    let store = store_of(&[(
        "hello.md",
        "title: \"Hello\"\ntags: [intro]\ndate: \"2021-01-01\"\nblurb: \"hi\"\n\n# World\n",
    )]);
    let detail = resolve(&store, &b("hello")).unwrap();
    assert_eq!(detail.title, b("Hello"));
}

#[test]
fn resolve_renders_heading_with_anchor() {
    let store = store_of(&[(
        "hello.md",
        "title: \"Hello\"\ntags: [intro]\ndate: \"2021-01-01\"\nblurb: \"hi\"\n\n# World\n",
    )]);
    let detail = resolve(&store, &b("hello")).unwrap();
    let html = String::from_utf8(detail.body_html).unwrap();
    assert!(html.contains("<h1>"), "no h1 in {}", html);
    assert!(html.contains("id=\"#world\""), "no anchor id in {}", html);
}

#[test]
fn resolve_malformed_post_reports_extraction_error() {
    let store = store_of(&[("broken.md", "no front matter here\n")]);
    assert_eq!(resolve(&store, &b("broken")).err().unwrap(), BlogError::ExtractionError);
}

#[test]
fn render_plain_text_is_one_paragraph() {
    let store = store_of(&[(
        "plain.md",
        "title: t\ntags: [a]\ndate: 2022-06-15\nblurb: b\n\nhello world\n",
    )]);
    let detail = resolve(&store, &b("plain")).unwrap();
    assert_eq!(String::from_utf8(detail.body_html).unwrap(), "<p>hello world</p>\n");
}

#[test]
fn render_is_identical_across_calls() {
    let store = store_of(&[(
        "post.md",
        "title: t\ntags: [a]\ndate: 2022-06-15\nblurb: b\n\n# A *heading*\n\nAnd ~~text~~.\n",
    )]);
    let first = resolve(&store, &b("post")).unwrap();
    let second = resolve(&store, &b("post")).unwrap();
    assert_eq!(first.body_html, second.body_html);
}

fn doc_with_date(date: &str) -> String {
    format!("title: t\ntags: [a]\ndate: {}\nblurb: b\n\nbody\n", date)
}

#[test]
fn build_index_sorts_most_recent_first() {
    let a = doc_with_date("2021-01-01");
    let bb = doc_with_date("2022-06-15");
    let c = doc_with_date("2020-03-03");
    let store = store_of(&[("a.md", &a), ("b.md", &bb), ("c.md", &c)]);
    let index = build_index(&store).unwrap();
    let slugs: Vec<Vec<u8>> = index.iter().map(|p| p.slug.clone()).collect();
    assert_eq!(slugs, vec![b("b"), b("a"), b("c")]);
    for w in index.windows(2) {
        let (p, q) = (&w[0].date, &w[1].date);
        assert!((p.year, p.month, p.day) >= (q.year, q.month, q.day));
    }
}

#[test]
fn build_index_summary_carries_rendered_blurb() {
    let store = store_of(&[(
        "one.md",
        "title: \"One\"\ntags: [x, y]\ndate: 2021-05-06\nblurb: just text\n\nbody\n",
    )]);
    let index = build_index(&store).unwrap();
    assert_eq!(index.len(), 1);
    assert_eq!(index[0].title, b("One"));
    assert_eq!(index[0].slug, b("one"));
    assert_eq!(index[0].tags, vec![b("x"), b("y")]);
    assert_eq!(String::from_utf8(index[0].blurb_html.clone()).unwrap(), "<p>just text</p>\n");
}

#[test]
fn build_index_empty_store_is_empty() {
    let store = ContentStore::new();
    assert_eq!(build_index(&store).unwrap().len(), 0);
}

#[test]
fn build_index_fails_on_one_malformed_post() {
    let good = doc_with_date("2021-01-01");
    let store = store_of(&[("good.md", &good), ("bad.md", "not a post\n")]);
    assert_eq!(build_index(&store).err().unwrap(), BlogError::ExtractionError);
}

#[test]
fn build_index_reports_date_error_of_first_bad_post() {
    let bad = doc_with_date("2021-31-31");
    let store = store_of(&[("bad.md", &bad)]);
    assert_eq!(build_index(&store).err().unwrap(), BlogError::DateParseError);
}
