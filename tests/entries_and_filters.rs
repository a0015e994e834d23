use anke::booru::{
    DanbooruConfig, DanbooruFactory, GelbooruAggregator, GelbooruConfig, GelbooruEntry,
    GelbooruFactory, GelbooruPage, _produce_16, _produce_n_1,
};
use anke::entry::{DefaultEntry, Entry};
use anke::filters::{
    BlacklistConfig, BlacklistFilter, DedupeConfig, DedupeFilter, FilesConfig,
    FilesSavingFilter, FilterNet, OutputFilter, WarningFilter,
};
use anke::url::Url;

fn entry(title: Option<&str>, image: Option<&str>, tags: Option<Vec<&str>>) -> DefaultEntry {
    DefaultEntry {
        content_url: None,
        title_url: Some("https://example.org/post/1".to_string()),
        image_url: image.map(|s| s.to_string()),
        title: title.map(|s| s.to_string()),
        tags: tags.map(|v| v.into_iter().map(|s| s.to_string()).collect()),
    }
}

fn strings(v: &[&str]) -> Vec<String> {
    v.iter().map(|s| s.to_string()).collect()
}

#[test]
fn default_entry_reports_its_fields() {
    let e = entry(Some("a title"), Some("https://img/x.png"), Some(vec!["cat"]));
    assert_eq!(e.title(), Some("a title".to_string()));
    assert_eq!(e.image_url(), Some("https://img/x.png".to_string()));
    assert_eq!(e.content_url(), Some("https://img/x.png".to_string()));
    assert_eq!(e.title_url(), Some("https://example.org/post/1".to_string()));
    assert_eq!(e.source_url(), None);
    assert_eq!(e.tags(), Some(&strings(&["cat"])));
    assert!(e.build_extra_fields().is_empty());
}

#[test]
fn blacklist_swallows_banned_name_in_title() {
    let mut f = BlacklistFilter::build_filters(BlacklistConfig {
        tags: None,
        names: Some(strings(&["spoiler"])),
    })
    .pop()
    .unwrap();
    assert!(f.filter(entry(Some("big spoilers ahead"), None, None)).is_none());
    assert!(f.filter(entry(Some("nothing to see"), None, None)).is_some());
    assert!(f.filter(entry(None, None, None)).is_some());
}

#[test]
fn blacklist_swallows_banned_tag() {
    let mut f = BlacklistFilter::build_filters(BlacklistConfig {
        tags: Some(strings(&["gore", "nsfw"])),
        names: None,
    })
    .pop()
    .unwrap();
    assert!(f.filter(entry(None, None, Some(vec!["cute", "nsfw"]))).is_none());
    assert!(f.filter(entry(None, None, Some(vec!["cute", "nsfw_art"]))).is_some());
    assert!(f.filter(entry(None, None, None)).is_some());
    let kept = f.filter(entry(Some("t"), Some("u"), Some(vec!["cute"]))).unwrap();
    assert_eq!(kept.title(), Some("t".to_string()));
}

#[test]
fn blacklist_without_lists_keeps_everything() {
    let mut f = BlacklistFilter::build_filters(BlacklistConfig { tags: None, names: None })
        .pop()
        .unwrap();
    assert!(f.tags.is_empty() && f.names.is_empty());
    assert!(f.filter(entry(Some("x"), None, Some(vec!["y"]))).is_some());
}

#[test]
fn swallow_drops_the_entry() {
    let f = BlacklistFilter { tags: vec![], names: vec![] };
    assert!(f.swallow(entry(None, None, None), "tag".to_string()).is_none());
}

#[test]
fn dedupe_drops_repeated_content() {
    let mut f = DedupeFilter::new(DedupeConfig {});
    assert!(f.filter(entry(None, Some("https://img/a.png"), None)).is_some());
    assert!(f.filter(entry(None, Some("https://img/b.png"), None)).is_some());
    assert!(f.filter(entry(None, Some("https://img/a.png"), None)).is_none());
    assert!(f.filter(entry(None, None, None)).is_some());
    assert!(f.filter(entry(None, None, None)).is_some());
}

#[test]
fn warning_filter_swallows_everything() {
    let mut f = WarningFilter;
    assert!(f.filter(entry(Some("x"), None, None)).is_none());
}

#[test]
fn chain_of_filters_short_circuits() {
    let mut a = DedupeFilter::new(DedupeConfig {});
    let mut b = BlacklistFilter { tags: strings(&["bad"]), names: vec![] };
    let mut c = DedupeFilter::new(DedupeConfig {});
    let e = entry(None, Some("https://img/z.png"), Some(vec!["bad"]));
    let after_a = OutputFilter::filter(&mut a, e).unwrap();
    assert!(OutputFilter::filter(&mut b, after_a).is_none());
    // the third filter never saw the entry, so it still lets it through
    let again = entry(None, Some("https://img/z.png"), None);
    assert!(OutputFilter::filter(&mut c, again).is_some());
}

#[test]
fn filter_net_matches_exact_hosts() {
    let net = FilterNet::new(strings(&["example.org", "img.example.org"]));
    assert!(net.any_matches_on("example.org"));
    assert!(!net.any_matches_on("example.org.evil"));
    assert!(!FilterNet::new(vec![]).any_matches_on("example.org"));
    assert!(FilterNet::matches("a.b", "a.b"));
    assert!(!FilterNet::matches("a.b", "a.c"));
}

#[test]
fn files_are_named_by_the_last_path_segment() {
    let f = FilesSavingFilter::new(FilesConfig { root: "/tmp/out".to_string() });
    assert_eq!(f.config.root, "/tmp/out");
    assert_eq!(FilesSavingFilter::file_name("https://img.host/a/b/c.png"), "c.png");
    assert_eq!(FilesSavingFilter::file_name("noslash"), "noslash");
    assert_eq!(FilesSavingFilter::file_name("https://img.host/dir/"), "");
}

#[test]
fn url_parses_and_renders_its_query() {
    let u = Url::from_string_with_query("https://h/index.php?page=post&s=list".to_string());
    assert_eq!(u.to_string(), "https://h/index.php?page=post&s=list");
    let mut u = u;
    u.insert_query("tags".to_string(), "cat".to_string());
    u.insert_query("page".to_string(), "view".to_string());
    assert_eq!(u.to_string(), "https://h/index.php?s=list&tags=cat&page=view");
    assert_eq!(u.query().len(), 3);
}

#[test]
fn url_edge_cases() {
    assert_eq!(Url::from_string_with_query("https://h/p".to_string()).to_string(), "https://h/p");
    assert_eq!(Url::from_string_with_query("https://h/p?a".to_string()).to_string(), "https://h/p?a=");
    assert_eq!(
        Url::from_string_with_query("https://h/p?a=1&b=2&a=3".to_string()).to_string(),
        "https://h/p?b=2&a=3"
    );
    assert_eq!(
        Url::from_string_with_query("https://h/p?q=a=b".to_string()).to_string(),
        "https://h/p?q=a=b"
    );
    let base = Url::from_string_base("https://h/p?x=1".to_string());
    assert_eq!(base.to_string(), "https://h/p?x=1");
    assert!(base.query().is_empty());
}

#[test]
fn gelbooru_defaults() {
    assert_eq!(_produce_16(), 16);
    assert_eq!(_produce_n_1(), -1);
    assert_eq!(GelbooruFactory::NAME, "gelbooru");
    assert_eq!(DanbooruFactory::NAME, "danbooru");
}

#[test]
fn gelbooru_factory_builds_one_stream_per_tag() {
    let streams = GelbooruFactory::build_aggregators(GelbooruConfig {
        tags: strings(&["cat", "dog"]),
        fresh_poll_limit: 16,
        poll_limit: -1,
        tags_in_embed: true,
    });
    assert_eq!(streams.len(), 2);
    assert_eq!(streams[0].tag, "cat");
    assert_eq!(streams[1].tag, "dog");
    assert_eq!(streams[1].fresh_poll_limit, 16);
    assert_eq!(streams[1].poll_limit, -1);
    assert!(streams[0].tags_in_embed);
    assert!(DanbooruFactory::build_aggregators(DanbooruConfig { tags: strings(&["x"]) }).is_empty());
}

#[test]
fn gelbooru_stream_starts_cycles_with_its_limits() {
    let a = GelbooruAggregator::new("cat".to_string(), 4, 9, false);
    let plan = a.start_cycle(None).plan();
    assert_eq!((plan.limit, plan.until, plan.bootstrap), (4, 0, true));
    let plan = a.start_cycle(Some("321")).plan();
    assert_eq!((plan.limit, plan.until, plan.bootstrap), (9, 321, false));
}

#[test]
fn gelbooru_page_hands_out_posts_newest_first() {
    let mut page = GelbooruPage::tag(&"cat".to_string());
    assert_eq!(
        page.page_url(),
        "https://gelbooru.com/index.php?page=post&s=list&tags=cat&pid=0"
    );
    assert_eq!(page.next_post(), None);
    let raw = r#"<div><a id="p300" href="x"></a><a id="p299" href="y"></a><a id="pabc" href="z"></a><a id="p250" href="w"></a></div>"#;
    page.load(raw);
    assert_eq!(page.next_post(), Some(300));
    assert_eq!(page.next_post(), Some(299));
    assert_eq!(page.next_post(), Some(250));
    assert_eq!(page.next_post(), None);
    page.next_page();
    assert_eq!(
        page.page_url(),
        "https://gelbooru.com/index.php?page=post&s=list&tags=cat&pid=3"
    );
}

const POST_PAGE: &str = r#"<html><section data-tags=" cat  cute cat solo "></section>
<li class="tag-type-artist"><span class="sm-hidden"><a href="/a">?</a> </span><a href="/artist">someone</a></li>
<li class="tag-type-character"><span class="sm-hidden"><a href="/c">?</a> </span><a href="/c1">alice</a></li>
<li class="tag-type-character"><span class="sm-hidden"><a href="/c">?</a> </span><a href="/c2">bob</a></li>
<script>image.attr('src','https://img.gelbooru.com/images/ab/cd/file.jpg');</script></html>"#;

#[test]
fn gelbooru_post_page_is_read() {
    let e = GelbooruEntry::extract_info(
        GelbooruEntry::post_page_url(42),
        POST_PAGE.to_string(),
        true,
    );
    assert_eq!(e.post_url, "https://gelbooru.com/index.php?page=post&s=view&id=42");
    assert_eq!(e.image_url, Some("https://img.gelbooru.com/images/ab/cd/file.jpg".to_string()));
    assert_eq!(e.tags, strings(&["cat", "cute", "solo"]));
    assert_eq!(e.artist, Some("someone".to_string()));
    assert_eq!(e.characters, strings(&["alice", "bob"]));
    assert_eq!(e.title(), Some(r#""alice","bob" by "someone""#.to_string()));
    assert_eq!(e.content_url(), e.image_url.clone());
    assert_eq!(e.title_url(), Some(e.post_url.clone()));
    assert_eq!(
        e.build_extra_fields(),
        vec![
            ("Tags".to_string(), "cat, cute, solo".to_string()),
            ("artist".to_string(), "someone".to_string()),
        ]
    );
}

#[test]
fn gelbooru_untagged_post_has_placeholder_title() {
    let e = GelbooruEntry::extract_info("u".to_string(), "<html></html>".to_string(), false);
    assert!(e.tags.is_empty() && e.characters.is_empty());
    assert_eq!(e.image_url, None);
    assert_eq!(e.title(), Some("untagged character(s) by untagged artist".to_string()));
    assert!(e.build_extra_fields().is_empty());
}

#[test]
fn url_converts_for_requests() {
    let u = Url::from_string_with_query("https://gelbooru.com/index.php?page=post&s=list".to_string());
    let parsed = u.into_url().unwrap();
    assert_eq!(parsed.as_str(), "https://gelbooru.com/index.php?page=post&s=list");
    assert!(Url::from_string_base("not a url".to_string()).into_url().is_none());
}

#[test]
fn dedupe_and_files_factories_build_one_filter() {
    let mut d = DedupeFilter::build_filters(DedupeConfig {});
    assert_eq!(d.len(), 1);
    let mut f = d.pop().unwrap();
    assert!(f.filter(entry(None, Some("x"), None)).is_some());
    assert!(f.filter(entry(None, Some("x"), None)).is_none());
    let files = FilesSavingFilter::build_filters(FilesConfig { root: "/srv".to_string() });
    assert_eq!(files.len(), 1);
    assert_eq!(files[0].config.root, "/srv");
}

#[test]
fn gelbooru_entry_from_captured_parts() {
    let e = GelbooruEntry::from_captures(
        "https://p/1".to_string(),
        Some("https://img/1.png".to_string()),
        Some(strings(&["b", "a", "b", "c", "a"])),
        None,
        vec![Some("zed".to_string()), None, Some("amy".to_string()), Some("zed".to_string())],
        true,
    );
    assert_eq!(e.tags, strings(&["b", "a", "c"]));
    assert_eq!(e.characters, strings(&["zed", "amy"]));
    assert_eq!(e.image_url, Some("https://img/1.png".to_string()));
    assert_eq!(e.title(), Some(r#""zed","amy" by untagged artist"#.to_string()));
    assert_eq!(e.build_extra_fields(), vec![("Tags".to_string(), "b, a, c".to_string())]);
    let bare = GelbooruEntry::from_captures("u".to_string(), None, None, Some("x".to_string()), vec![], false);
    assert!(bare.tags.is_empty());
    assert_eq!(bare.title(), Some(r#"untagged character(s) by "x""#.to_string()));
}

#[test]
fn gelbooru_page_keeps_numeric_captures_only() {
    let mut page = GelbooruPage::tag(&"dog".to_string());
    page.load_ids(vec![
        Some("12".to_string()),
        None,
        Some("x1".to_string()),
        Some("10".to_string()),
        Some("99999999999999999999999".to_string()),
    ]);
    assert_eq!(page.next_post(), Some(12));
    assert_eq!(page.next_post(), Some(10));
    assert_eq!(page.next_post(), None);
    page.next_page();
    page.next_page();
    assert!(page.page_url().ends_with("tags=dog&pid=4"));
}
