use smtp_discord_bridge::config::{DiscordConfig, DiscordConfigError};
use smtp_discord_bridge::discord::{
    parse_webhook_id, path_segments, DiscordWebhookAuth, DiscordWebhookAuthUrlError, IdErrorKind,
};

const URL: &str = "https://discord.com/api/webhooks/123/abc";

fn config(url: bool, id: bool, token: bool) -> DiscordConfig {
    DiscordConfig::new(
        if url { Some(URL.to_string()) } else { None },
        if id { Some(42) } else { None },
        if token { Some("tok".to_string()) } else { None },
    )
}

#[test]
fn nothing_given_is_an_error() {
    assert!(matches!(
        config(false, false, false).get_auth(),
        Err(DiscordConfigError::NeitherUrlNorPartsSpecified)
    ));
}

#[test]
fn token_alone_misses_id() {
    assert!(matches!(
        config(false, false, true).get_auth(),
        Err(DiscordConfigError::ConfigMissingWebhookId)
    ));
}

#[test]
fn id_alone_misses_token() {
    assert!(matches!(
        config(false, true, false).get_auth(),
        Err(DiscordConfigError::ConfigMissingWebhookToken)
    ));
}

#[test]
fn id_and_token_resolve() {
    let auth = config(false, true, true).get_auth().unwrap();
    assert_eq!(auth.id, 42);
    assert_eq!(auth.token, "tok");
}

#[test]
fn url_alone_resolves() {
    let auth = config(true, false, false).get_auth().unwrap();
    assert_eq!(auth.id, 123);
    assert_eq!(auth.token, "abc");
}

#[test]
fn url_with_parts_conflicts() {
    for (id, token) in [(true, false), (false, true), (true, true)] {
        assert!(matches!(
            config(true, id, token).get_auth(),
            Err(DiscordConfigError::InvalidParamCombination)
        ));
    }
}

#[test]
fn bad_url_in_config_is_a_url_error() {
    let c = DiscordConfig::new(Some("https://discord.com/api/x/1/a".to_string()), None, None);
    assert!(matches!(
        c.get_auth(),
        Err(DiscordConfigError::UrlError(DiscordWebhookAuthUrlError::UrlPathMissingWebhooks))
    ));
}

#[test]
fn webhook_url_gives_id_and_token() {
    let auth = DiscordWebhookAuth::from_url(URL).unwrap();
    assert_eq!(auth.id, 123);
    assert_eq!(auth.token, "abc");
}

#[test]
fn non_numeric_id_is_a_number_error() {
    let r = DiscordWebhookAuth::from_url("https://discord.com/api/webhooks/notanumber/abc");
    assert!(matches!(
        r,
        Err(DiscordWebhookAuthUrlError::IdParseError(IdErrorKind::InvalidDigit))
    ));
}

#[test]
fn missing_webhooks_segment() {
    let r = DiscordWebhookAuth::from_url("https://discord.com/api/123/abc");
    assert!(matches!(r, Err(DiscordWebhookAuthUrlError::UrlPathMissingWebhooks)));
}

#[test]
fn missing_api_segment() {
    let r = DiscordWebhookAuth::from_url("https://discord.com/webhooks/123/abc");
    assert!(matches!(r, Err(DiscordWebhookAuthUrlError::UrlPathMissingApi)));
}

#[test]
fn missing_id_segment() {
    let r = DiscordWebhookAuth::from_url("https://discord.com/api/webhooks");
    assert!(matches!(r, Err(DiscordWebhookAuthUrlError::UrlPathMissingId)));
}

#[test]
fn empty_id_segment() {
    let r = DiscordWebhookAuth::from_url("https://discord.com/api/webhooks/");
    assert!(matches!(r, Err(DiscordWebhookAuthUrlError::IdParseError(IdErrorKind::Empty))));
}

#[test]
fn missing_token_segment() {
    let r = DiscordWebhookAuth::from_url("https://discord.com/api/webhooks/123");
    assert!(matches!(r, Err(DiscordWebhookAuthUrlError::UrlPathMissingToken)));
    let r = DiscordWebhookAuth::from_url("https://discord.com/api/webhooks/123/");
    assert!(matches!(r, Err(DiscordWebhookAuthUrlError::UrlPathMissingToken)));
}

#[test]
fn oversized_id_overflows() {
    let r = DiscordWebhookAuth::from_url("https://discord.com/api/webhooks/18446744073709551616/abc");
    assert!(matches!(r, Err(DiscordWebhookAuthUrlError::IdParseError(IdErrorKind::PosOverflow))));
}

#[test]
fn unparsable_url() {
    let r = DiscordWebhookAuth::from_url("not a url");
    assert!(matches!(r, Err(DiscordWebhookAuthUrlError::UrlParseError(_))));
}

#[test]
fn url_without_path() {
    let r = DiscordWebhookAuth::from_url("mailto:someone@example.com");
    assert!(matches!(r, Err(DiscordWebhookAuthUrlError::UrlMissingPath)));
}

#[test]
fn query_is_not_part_of_the_token() {
    let auth = DiscordWebhookAuth::from_url("https://discord.com/api/webhooks/7/tok?wait=true").unwrap();
    assert_eq!(auth.id, 7);
    assert_eq!(auth.token, "tok");
}

#[test]
fn from_url_path_reads_segments() {
    let auth = DiscordWebhookAuth::from_url_path("/api/webhooks/99/xyz/extra").unwrap();
    assert_eq!(auth.id, 99);
    assert_eq!(auth.token, "xyz");
    assert!(matches!(
        DiscordWebhookAuth::from_url_path("api/webhooks/99/xyz"),
        Err(DiscordWebhookAuthUrlError::UrlMissingPath)
    ));
}

#[test]
fn webhook_id_values() {
    assert_eq!(parse_webhook_id("0"), Ok(0));
    assert_eq!(parse_webhook_id("+17"), Ok(17));
    assert_eq!(parse_webhook_id("18446744073709551615"), Ok(u64::MAX));
    assert_eq!(parse_webhook_id("18446744073709551616"), Err(IdErrorKind::PosOverflow));
    assert_eq!(parse_webhook_id(""), Err(IdErrorKind::Empty));
    assert_eq!(parse_webhook_id("+"), Err(IdErrorKind::InvalidDigit));
    assert_eq!(parse_webhook_id("-1"), Err(IdErrorKind::InvalidDigit));
    assert_eq!(parse_webhook_id("12a"), Err(IdErrorKind::InvalidDigit));
}

#[test]
fn path_segment_split() {
    assert_eq!(path_segments("/a/b//c"), Some(vec!["a".to_string(), "b".to_string(), String::new(), "c".to_string()]));
    assert_eq!(path_segments("/"), Some(vec![String::new()]));
    assert_eq!(path_segments(""), None);
    assert_eq!(path_segments("x/y"), None);
}

#[test]
fn new_identity_keeps_fields() {
    let a = DiscordWebhookAuth::new(5, "t".to_string());
    assert_eq!(a.id, 5);
    assert_eq!(a.token, "t");
}
