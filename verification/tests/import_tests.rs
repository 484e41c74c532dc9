use ytdlp_sub::commands::import_export::{
    build_preview, check_url, is_opml_file, items_from_outlines, items_from_urls, parse_txt_url_list, BatchImport,
    ImportContext,
    ImportRun, ImportStep, MAX_URL_LENGTH,
};
use ytdlp_sub::models::{OpmlOutline, Subscription};
use ytdlp_sub::services::ytdlp::ChannelInfo;

fn make_existing_sub(url: &str) -> Subscription {
    Subscription::new(url.to_string(), "youtube".to_string(), format!("Channel for {}", url), "https://example.com/avatar.jpg".to_string())
}

fn channel(name: &str) -> ChannelInfo {
    ChannelInfo {
        channel_name: name.to_string(),
        channel_url: "https://c".to_string(),
        channel_avatar_url: "https://a".to_string(),
        platform: "Youtube".to_string(),
    }
}

#[test]
fn test_txt_parse_url_list() {
    let content = "https://youtube.com/@channel1\nhttps://youtube.com/@channel2\nhttps://bilibili.com/space/123\n";
    let urls = parse_txt_url_list(content);
    assert_eq!(urls.len(), 3);
    assert_eq!(urls[0], "https://youtube.com/@channel1");
    assert_eq!(urls[1], "https://youtube.com/@channel2");
    assert_eq!(urls[2], "https://bilibili.com/space/123");
}

#[test]
fn test_txt_skip_empty_lines() {
    let content = "https://youtube.com/@a\n\nhttps://youtube.com/@b\n\n\nhttps://youtube.com/@c\n";
    let urls = parse_txt_url_list(content);
    assert_eq!(urls.len(), 3);
    assert_eq!(urls[0], "https://youtube.com/@a");
    assert_eq!(urls[1], "https://youtube.com/@b");
    assert_eq!(urls[2], "https://youtube.com/@c");
}

#[test]
fn test_txt_skip_comment_lines() {
    let content = "# This is a comment\nhttps://youtube.com/@a\n# Another comment\nhttps://youtube.com/@b\n";
    let urls = parse_txt_url_list(content);
    assert_eq!(urls.len(), 2);
    assert_eq!(urls[0], "https://youtube.com/@a");
    assert_eq!(urls[1], "https://youtube.com/@b");
}

#[test]
fn test_txt_reject_invalid_url() {
    let content = "https://youtube.com/@valid\nnot-a-url\njust-some-text\nhttps://youtube.com/@also-valid\n";
    let urls = parse_txt_url_list(content);
    assert_eq!(urls.len(), 2);
    assert_eq!(urls[0], "https://youtube.com/@valid");
    assert_eq!(urls[1], "https://youtube.com/@also-valid");
}

#[test]
fn test_txt_reject_long_url() {
    let long_path = "a".repeat(MAX_URL_LENGTH);
    let long_url = format!("https://example.com/{}", long_path);
    let content = format!("https://youtube.com/@short\n{}\nhttps://youtube.com/@also-short", long_url);
    let urls = parse_txt_url_list(&content);
    assert_eq!(urls.len(), 2, "long URL should be filtered out");
    assert_eq!(urls[0], "https://youtube.com/@short");
    assert_eq!(urls[1], "https://youtube.com/@also-short");
}

#[test]
fn test_txt_parse_empty_content() {
    let urls = parse_txt_url_list("");
    assert!(urls.is_empty());
    let urls = parse_txt_url_list("\n\n\n");
    assert!(urls.is_empty());
    let urls = parse_txt_url_list("# only comments\n# another comment\n");
    assert!(urls.is_empty());
}

#[test]
fn test_txt_trim_whitespace() {
    let content = "  https://youtube.com/@a  \n\thttps://youtube.com/@b\t\n";
    let urls = parse_txt_url_list(content);
    assert_eq!(urls.len(), 2);
    assert_eq!(urls[0], "https://youtube.com/@a");
    assert_eq!(urls[1], "https://youtube.com/@b");
}

#[test]
fn test_batch_import_partial_failure() {
    let content = "https://youtube.com/@good1\nnot-a-url\nhttps://youtube.com/@good2\n  \n";
    let urls = parse_txt_url_list(content);
    assert_eq!(urls.len(), 2, "invalid URLs should be filtered out");
    assert!(urls.contains(&"https://youtube.com/@good1".to_string()));
    assert!(urls.contains(&"https://youtube.com/@good2".to_string()));
}

#[test]
fn test_batch_import_duplicate_detection() {
    let existing_url = "https://youtube.com/@existing";
    let subs = vec![make_existing_sub(existing_url)];
    let new_urls = vec![existing_url.to_string(), "https://youtube.com/@new-channel".to_string()];
    let mut batch = BatchImport::new(new_urls, &subs);
    let next = batch.next_to_resolve();
    assert_eq!(next, Some("https://youtube.com/@new-channel".to_string()));
    assert_eq!(batch.skipped_duplicates.len(), 1, "one URL should be detected as duplicate");
    batch.resolved(Some(channel("New")));
    assert_eq!(batch.next_to_resolve(), None);
    let result = batch.finish();
    assert_eq!(result.skipped_duplicates.len(), 1);
    assert_eq!(result.success_count, 1, "one URL should be new");
    assert_eq!(result.success_count + result.skipped_duplicates.len() + result.skipped_invalid.len(), result.total);
}

#[test]
fn test_batch_import_repeated_url_imported_once() {
    let subs: Vec<Subscription> = vec![];
    let urls = vec!["https://y/@a".to_string(), "https://y/@b".to_string(), "https://y/@a".to_string()];
    let mut batch = BatchImport::new(urls, &subs);
    assert_eq!(batch.next_to_resolve(), Some("https://y/@a".to_string()));
    batch.resolved(Some(channel("A")));
    assert_eq!(batch.next_to_resolve(), Some("https://y/@b".to_string()));
    batch.resolved(None);
    assert_eq!(batch.next_to_resolve(), None);
    let r = batch.finish();
    assert_eq!(r.imported.len(), 1);
    assert_eq!(r.imported[0].channel_name, "A");
    assert_eq!(r.skipped_invalid, vec!["https://y/@b".to_string()]);
    assert_eq!(r.skipped_duplicates, vec!["https://y/@a".to_string()]);
    assert_eq!(r.total, 3);
}

#[test]
fn test_batch_import_preview_item_duplicate_handling() {
    let existing_url = "https://youtube.com/@existing";
    let subs = vec![make_existing_sub(existing_url)];
    let items = vec![
        ("https://youtube.com/@existing".to_string(), Some("Existing Channel".to_string())),
        ("https://youtube.com/@new".to_string(), Some("New Channel".to_string())),
        ("not-a-url".to_string(), None),
    ];
    let preview = build_preview(items, &subs);
    let items = preview.items;
    assert_eq!(items.len(), 3);
    assert!(items[0].is_duplicate, "existing URL should be marked as duplicate");
    assert_eq!(items[0].title, Some("Existing Channel".to_string()));
    assert_eq!(items[0].error, None);
    assert!(!items[1].is_duplicate, "new URL should not be duplicate");
    assert_eq!(items[1].error, None);
    assert!(!items[2].is_duplicate);
    assert_eq!(items[2].error, Some("Invalid URL format".to_string()));
    assert_eq!(preview.duplicates, 1);
    assert_eq!(preview.total, 3);
}

#[test]
fn test_check_url_problems() {
    assert_eq!(check_url(""), Some("Empty URL".to_string()));
    let long = format!("https://e.com/{}", "a".repeat(2048));
    assert_eq!(check_url(&long), Some("URL exceeds 2048 characters".to_string()));
    assert_eq!(check_url("nope"), Some("Invalid URL format".to_string()));
    assert_eq!(check_url("https://e.com/ok"), None);
}

#[test]
fn test_items_from_sources() {
    let items = items_from_urls(vec!["  https://a  ".to_string(), "   ".to_string(), "b".to_string()]);
    assert_eq!(items, vec![("https://a".to_string(), None), ("b".to_string(), None)]);
    let items = items_from_outlines(vec![
        OpmlOutline { title: "T".to_string(), xml_url: "https://t".to_string(), description: None },
        OpmlOutline { title: "".to_string(), xml_url: "https://u".to_string(), description: None },
    ]);
    assert_eq!(items, vec![("https://t".to_string(), Some("T".to_string())), ("https://u".to_string(), None)]);
}

#[test]
fn test_import_run_steps_and_tally() {
    let subs = vec![make_existing_sub("https://y/@dup")];
    let items = vec![
        ("https://y/@dup".to_string(), Some("Dup".to_string())),
        ("bad url".to_string(), None),
        ("https://y/@ok".to_string(), None),
        ("https://y/@fails".to_string(), None),
        ("https://y/@late".to_string(), None),
    ];
    let mut run = ImportRun::start("task".to_string(), items, true, &subs);
    match run.step(false) {
        ImportStep::Settled(e) => {
            assert_eq!(e.completed, 0);
            assert_eq!(e.total, 5);
            assert_eq!(e.current_title, "Dup");
        }
        _ => panic!("duplicate is settled"),
    }
    assert!(matches!(run.step(false), ImportStep::Settled(_)));
    match run.step(false) {
        ImportStep::Resolve(e, url) => {
            assert_eq!(url, "https://y/@ok");
            assert_eq!(e.current_title, "");
        }
        _ => panic!("valid URL is resolved"),
    }
    run.resolved(Some(channel("Ok")));
    assert!(matches!(run.step(false), ImportStep::Resolve(_, _)));
    run.resolved(None);
    assert!(matches!(run.step(true), ImportStep::Done));
    let done = run.complete_event();
    assert_eq!(done.total, 5);
    assert_eq!(done.success, 1);
    assert_eq!(done.failed, 2);
    assert_eq!(done.skipped, 3);
    assert_eq!(done.errors[0].reason, "Invalid URL format");
    assert_eq!(done.errors[1].reason, "yt-dlp channel resolution failed");
    assert_eq!(run.imported[0].url, "https://y/@ok");
}

#[test]
fn test_import_context_cancel() {
    let mut ctx = ImportContext::new();
    ctx.register("t1".to_string());
    assert!(!ctx.cancel("t2"));
    assert_eq!(ctx.running.as_deref(), Some("t1"));
    assert!(ctx.cancel("t1"));
    assert!(ctx.running.is_none());
    assert!(!ctx.cancel("t1"));
    assert!(ctx.running.is_none());
}

#[test]
fn test_is_opml_file_by_extension() {
    assert!(is_opml_file("/home/u/subs.opml"));
    assert!(is_opml_file("/home/u/subs.OPML"));
    assert!(is_opml_file("feeds.OpMl"));
    assert!(!is_opml_file("/home/u/subs.txt"));
    assert!(!is_opml_file("/home/u/.opml"));
    assert!(!is_opml_file("/home/u.opml/list"));
    assert!(!is_opml_file("/home/u/subs.opml.bak"));
    assert!(!is_opml_file("opml"));
}
