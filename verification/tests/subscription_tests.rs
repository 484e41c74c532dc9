use ytdlp_sub::commands::subscription::{
    ensure_not_subscribed, is_valid_group, remove_subscription, set_group, set_quality, subscription_from_channel,
    toggle_pause,
};
use ytdlp_sub::models::Subscription;
use ytdlp_sub::services::ytdlp::ChannelInfo;

fn sub(id: &str, url: &str) -> Subscription {
    let mut s = Subscription::new(url.to_string(), "youtube".to_string(), "Test Channel".to_string(), "https://example.com/avatar.jpg".to_string());
    s.id = id.to_string();
    s
}

#[test]
fn test_group_validation_logic() {
    let valid_groups = ["未分组", "学习", "娱乐", "音乐", "科技", "其他"];
    for group in &valid_groups {
        assert!(is_valid_group(group), "{} should be valid", group);
    }
    assert!(!is_valid_group("无效分组"));
    assert!(!is_valid_group(""));
    assert!(!is_valid_group("unknown"));
}

#[test]
fn test_update_subscription_group_storage() {
    let mut subs = vec![sub("s1", "https://youtube.com/@test")];
    assert_eq!(subs[0].group_name, "未分组");
    let p = set_group(&mut subs, "s1", "学习".to_string()).unwrap();
    assert_eq!(p, 0);
    assert_eq!(subs[0].group_name, "学习");
    let err = set_group(&mut subs, "s1", "无效分组".to_string()).unwrap_err();
    assert_eq!(err, "无效的分组名称: 无效分组。有效分组: 未分组、学习、娱乐、音乐、科技、其他");
    assert_eq!(set_group(&mut subs, "zz", "学习".to_string()).unwrap_err(), "订阅不存在: zz");
}

#[test]
fn test_add_duplicate_refused() {
    let subs = vec![sub("s1", "https://y/@a")];
    let e = ensure_not_subscribed(&subs, "https://y/@a").unwrap_err();
    assert_eq!(e.message(), "Duplicate: Already subscribed to: https://y/@a");
    assert!(ensure_not_subscribed(&subs, "https://y/@b").is_ok());
    let info = ChannelInfo {
        channel_name: "B".to_string(),
        channel_url: "https://y/@b".to_string(),
        channel_avatar_url: "https://av".to_string(),
        platform: "Youtube".to_string(),
    };
    let s = subscription_from_channel("https://y/@b".to_string(), info);
    assert_eq!(s.url, "https://y/@b");
    assert_eq!(s.channel_name, "B");
    assert_eq!(s.platform, "Youtube");
    assert_eq!(s.quality_preset, "1080p");
}

#[test]
fn test_toggle_quality_and_remove() {
    let mut subs = vec![sub("s1", "https://y/@a"), sub("s2", "https://y/@b")];
    assert_eq!(toggle_pause(&mut subs, "s2").unwrap(), 1);
    assert!(subs[1].paused);
    toggle_pause(&mut subs, "s2").unwrap();
    assert!(!subs[1].paused);
    set_quality(&mut subs, "s1", "720p".to_string()).unwrap();
    assert_eq!(subs[0].quality_preset, "720p");
    let removed = remove_subscription(&mut subs, "s1").unwrap();
    assert_eq!(removed.id, "s1");
    assert_eq!(subs.len(), 1);
    let e = remove_subscription(&mut subs, "s1").unwrap_err();
    assert_eq!(e.message(), "Not found: Subscription not found: s1");
    assert!(toggle_pause(&mut subs, "nope").is_err());
}
