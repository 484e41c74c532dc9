use ytdlp_sub::services::ytdlp::{json_lines, ChannelJson, JsonField, YtDlpService};

fn args(v: Vec<String>) -> Vec<String> {
    v
}

#[test]
fn test_format_string_for_best() {
    assert_eq!(YtDlpService::format_for_quality("best"), "best");
}

#[test]
fn test_format_string_for_2160p() {
    assert_eq!(YtDlpService::format_for_quality("2160p"), "bestvideo[height<=2160]+bestaudio/best[height<=2160]");
}

#[test]
fn test_format_string_for_1440p() {
    assert_eq!(YtDlpService::format_for_quality("1440p"), "bestvideo[height<=1440]+bestaudio/best[height<=1440]");
}

#[test]
fn test_format_string_for_1080p_default() {
    assert_eq!(YtDlpService::format_for_quality("1080p"), "bestvideo[height<=1080]+bestaudio/best[height<=1080]");
}

#[test]
fn test_format_string_for_720p() {
    assert_eq!(YtDlpService::format_for_quality("720p"), "bestvideo[height<=720]+bestaudio/best[height<=720]");
}

#[test]
fn test_format_string_for_480p() {
    assert_eq!(YtDlpService::format_for_quality("480p"), "bestvideo[height<=480]+bestaudio/best[height<=480]");
}

#[test]
fn test_format_string_unknown_falls_back_to_1080p() {
    assert_eq!(YtDlpService::format_for_quality("360p"), "bestvideo[height<=1080]+bestaudio/best[height<=1080]");
    assert_eq!(YtDlpService::format_for_quality("abc"), "bestvideo[height<=1080]+bestaudio/best[height<=1080]");
    assert_eq!(YtDlpService::format_for_quality(""), "bestvideo[height<=1080]+bestaudio/best[height<=1080]");
}

#[test]
fn test_parse_channel_info_args_structure() {
    let a = args(YtDlpService::channel_info_args("https://y/@c", &None, &None));
    assert_eq!(a[0], "--dump-json");
    assert_eq!(a[1], "--playlist-items");
    assert_eq!(a[2], "1");
    assert_eq!(a[3], "https://y/@c");
    assert_eq!(a.len(), 4);
}

#[test]
fn test_check_new_videos_args_structure() {
    let a = YtDlpService::new_videos_args("https://y/@c", None, &None, &None);
    assert_eq!(a.len(), 3);
    assert_eq!(a[0], "--flat-playlist");
    assert_eq!(a[1], "--dump-json");
    let b = YtDlpService::new_videos_args("https://y/@c", Some("20250101"), &None, &None);
    assert_eq!(b, vec!["--flat-playlist", "--dump-json", "--dateafter", "20250101", "https://y/@c"]);
}

#[test]
fn test_download_video_flag_no_playlist() {
    let a = YtDlpService::download_args("https://v", "720p", "/d/%(title)s.%(ext)s", false, &None, &None);
    assert!(a.iter().any(|x| x == "--no-playlist"), "--no-playlist is always included in download_video");
    assert_eq!(
        a,
        vec![
            "-f",
            "bestvideo[height<=720]+bestaudio/best[height<=720]",
            "-o",
            "/d/%(title)s.%(ext)s",
            "--no-playlist",
            "--print",
            "after_move:filepath",
            "https://v"
        ]
    );
    let s = YtDlpService::download_args("https://v", "best", "/d/t", true, &None, &None);
    assert!(s.iter().any(|x| x == "--no-playlist"));
    assert_eq!(s[5], "--progress-template");
}

#[test]
fn test_proxy_none_no_proxy_arg() {
    let proxy: Option<String> = None;
    let a = YtDlpService::network_args(&proxy, &None);
    assert!(!a.iter().any(|x| x == "--proxy"), "no proxy arg when proxy is None");
}

#[test]
fn test_proxy_empty_string_no_proxy_arg() {
    let proxy: Option<String> = Some("".to_string());
    let a = YtDlpService::network_args(&proxy, &None);
    assert!(!a.iter().any(|x| x == "--proxy"), "no proxy arg when proxy is empty string");
}

#[test]
fn test_proxy_some_non_empty_adds_proxy_arg() {
    let proxy: Option<String> = Some("http://127.0.0.1:7890".to_string());
    let a = YtDlpService::network_args(&proxy, &None);
    assert_eq!(a, vec!["--proxy", "http://127.0.0.1:7890"], "proxy arg should be added when proxy is non-empty");
}

#[test]
fn test_cookie_file_none_no_cookies_arg() {
    let cookie_file: Option<String> = None;
    let a = YtDlpService::network_args(&None, &cookie_file);
    assert!(!a.iter().any(|x| x == "--cookies"), "no cookies arg when cookie_file is None");
}

#[test]
fn test_cookie_file_empty_string_no_cookies_arg() {
    let cookie_file: Option<String> = Some("".to_string());
    let a = YtDlpService::network_args(&None, &cookie_file);
    assert!(!a.iter().any(|x| x == "--cookies"), "no cookies arg when cookie_file is empty string");
}

#[test]
fn test_cookie_file_some_non_empty_adds_cookies_arg() {
    let cookie_file: Option<String> = Some("/path/to/cookies.txt".to_string());
    let a = YtDlpService::network_args(&Some("socks5://h:1".to_string()), &cookie_file);
    assert_eq!(a, vec!["--proxy", "socks5://h:1", "--cookies", "/path/to/cookies.txt"], "cookies arg should be added when cookie_file is non-empty");
}

#[test]
fn test_page_args() {
    let a = YtDlpService::page_args("https://y/@c", 11, 21, &None, &None);
    assert_eq!(a, vec!["--flat-playlist", "--dump-json", "--playlist-start", "11", "--playlist-end", "21", "https://y/@c"]);
}

#[test]
fn test_channel_json_outcomes() {
    let e = YtDlpService::channel_json(false, "", "  ERROR: no such channel \n").unwrap_err();
    assert_eq!(e.message(), "yt-dlp error: yt-dlp exited with error: ERROR: no such channel");
    let e = YtDlpService::channel_json(true, "  \n ", "").unwrap_err();
    assert_eq!(
        e.message(),
        "yt-dlp error: yt-dlp returned empty output — YouTube may require authentication. Try adding a cookie file in Settings."
    );
    assert_eq!(YtDlpService::channel_json(true, " {\"a\":1}\n", "").unwrap(), "{\"a\":1}");
    let e = YtDlpService::channel_details_json(true, "", "").unwrap_err();
    assert_eq!(e.message(), "yt-dlp error: yt-dlp returned empty output");
}

#[test]
fn test_listing_json_lines() {
    let ls = YtDlpService::listing_json(true, "{\"a\":1}\n\n  {\"b\":2}  \r\n", "").unwrap();
    assert_eq!(ls, vec!["{\"a\":1}", "{\"b\":2}"]);
    assert!(YtDlpService::listing_json(false, "{}", "bad").is_err());
    assert_eq!(json_lines("").len(), 0);
}

#[test]
fn test_download_output_path() {
    assert_eq!(YtDlpService::download_output(true, "[info] x\n/d/v.mp4\n", "").unwrap(), "/d/v.mp4");
    let e = YtDlpService::download_output(true, "", "").unwrap_err();
    assert_eq!(e.message(), "yt-dlp error: yt-dlp completed but no output file path was returned");
    let e = YtDlpService::download_output(false, "/d/v.mp4", " HTTP 403 ").unwrap_err();
    assert_eq!(e.message(), "yt-dlp error: yt-dlp download failed: HTTP 403");
    assert_eq!(YtDlpService::finish_download(true, "  /x.mkv ", "").unwrap(), "/x.mkv");
}

#[test]
fn test_channel_details_from_json_fields() {
    let j = ChannelJson {
        channel: JsonField::Missing,
        uploader: JsonField::Text("Uploader".to_string()),
        description: JsonField::Text("About".to_string()),
        channel_follower_count: JsonField::Other,
        subscriber_count: JsonField::Count(5),
        playlist_count: JsonField::Missing,
        n_entries: JsonField::Count(12),
        has_thumbnail: false,
        thumbnail_url: JsonField::Missing,
        first_thumbnail_url: Some(JsonField::Text("https://t/0.jpg".to_string())),
    };
    assert_eq!(YtDlpService::follower_count(&j), None);
    let c = YtDlpService::channel_details(&j, None, "now".to_string());
    assert_eq!(c.channel_name, "Uploader");
    assert_eq!(c.description, Some("About".to_string()));
    assert_eq!(c.video_count, Some(12));
    assert_eq!(c.thumbnail_url, Some("https://t/0.jpg".to_string()));
    assert_eq!(c.last_refreshed, "now");
    let k = ChannelJson { channel: JsonField::Other, has_thumbnail: true, ..j };
    let c = YtDlpService::channel_details(&k, Some("1.5K".to_string()), "now".to_string());
    assert_eq!(c.channel_name, "未知频道");
    assert_eq!(c.thumbnail_url, None);
    assert_eq!(c.subscriber_count, Some("1.5K".to_string()));
}

#[test]
fn test_channel_json_of_reads_members() {
    let doc = r#"{"channel": "Chan", "uploader": "Up", "description": null,
        "channel_follower_count": 1500, "playlist_count": 42,
        "thumbnails": [{"url": "https://t/0.jpg"}, {"url": "https://t/1.jpg"}]}"#;
    let j = YtDlpService::channel_json_of(doc).unwrap();
    assert!(matches!(&j.channel, JsonField::Text(s) if s == "Chan"));
    assert!(matches!(&j.uploader, JsonField::Text(s) if s == "Up"));
    assert!(matches!(j.description, JsonField::Other));
    assert!(matches!(j.channel_follower_count, JsonField::Count(1500)));
    assert!(matches!(j.subscriber_count, JsonField::Missing));
    assert!(matches!(j.playlist_count, JsonField::Count(42)));
    assert!(matches!(j.n_entries, JsonField::Missing));
    assert!(!j.has_thumbnail);
    assert!(matches!(&j.first_thumbnail_url, Some(JsonField::Text(s)) if s == "https://t/0.jpg"));
    assert_eq!(YtDlpService::follower_count(&j), Some(1500));
    let c = YtDlpService::channel_details(&j, None, "now".to_string());
    assert_eq!(c.channel_name, "Chan");
    assert_eq!(c.description, None);
    assert_eq!(c.video_count, Some(42));
    assert_eq!(c.thumbnail_url, Some("https://t/0.jpg".to_string()));
}

#[test]
fn test_channel_json_of_thumbnail_text_has_no_url() {
    let doc = r#"{"uploader": "Up", "thumbnail": "https://t/x.jpg", "n_entries": 7, "thumbnails": []}"#;
    let j = YtDlpService::channel_json_of(doc).unwrap();
    assert!(j.has_thumbnail);
    assert!(matches!(j.thumbnail_url, JsonField::Missing));
    assert!(j.first_thumbnail_url.is_none());
    let c = YtDlpService::channel_details(&j, None, "now".to_string());
    assert_eq!(c.channel_name, "Up");
    assert_eq!(c.video_count, Some(7));
    assert_eq!(c.thumbnail_url, None);
}

#[test]
fn test_channel_json_of_rejects_non_json() {
    let e = YtDlpService::channel_json_of("not json").unwrap_err();
    assert!(e.message().contains("Failed to parse channel info JSON: "));
}
