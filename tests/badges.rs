use banter::badges::{badge_cache_key, resolve_badges, BadgeCache, BadgeUrls};

fn urls(tag: &str) -> BadgeUrls {
    BadgeUrls { url_1x: format!("{tag}-1x"), url_2x: format!("{tag}-2x") }
}

#[test]
fn cache_key_defaults_to_version_one() {
    assert_eq!(badge_cache_key("moderator"), "moderator/1");
    assert_eq!(badge_cache_key("subscriber/12"), "subscriber/12");
}

#[test]
fn channel_badges_override_global() {
    let mut c = BadgeCache::new();
    c.insert("subscriber", "0", urls("global"));
    c.insert("moderator", "1", urls("mod"));
    c.insert("subscriber", "0", urls("channel"));
    assert_eq!(c.get("subscriber/0").unwrap().url_1x, "channel-1x");
    assert_eq!(c.get("moderator/1").unwrap().url_2x, "mod-2x");
    assert!(c.get("vip/1").is_none());
}

#[test]
fn resolve_skips_unknown_ids() {
    let mut c = BadgeCache::new();
    c.insert("moderator", "1", urls("mod"));
    c.insert("subscriber", "12", urls("sub"));
    let ids = vec!["moderator".to_string(), "vip".to_string(), "subscriber/12".to_string()];
    let r = resolve_badges(&c, &ids);
    assert_eq!(r.len(), 2);
    assert_eq!(r[0].0, "moderator");
    assert_eq!(r[0].1.url_1x, "mod-1x");
    assert_eq!(r[1].0, "subscriber/12");
    assert_eq!(r[1].1.url_2x, "sub-2x");
}
