use clash_profiles::fallback::{
    allow_auto_update_enabled, import_with_fallback, merge_import_option, update_with_fallback,
    Fallback, FallbackStep,
};
use clash_profiles::from_url::{
    check_response, choose_body, decoded_text, find_field_number, from_url, judge_keys,
    parse_subscription_userinfo, profile_item, subscription_body, validate_clash_yaml,
    SubscriptionError,
};
use clash_profiles::headers::Headers;
use clash_profiles::profile::PrfOption;
use clash_profiles::url::fix_dirty_url;

#[test]
fn validate_requires_proxies_or_providers() {
    assert!(validate_clash_yaml("proxies: []\n").is_ok());
    assert!(validate_clash_yaml("proxy-providers: {}\n").is_ok());
    assert!(validate_clash_yaml("port: 7890\n").is_err());
    assert!(validate_clash_yaml("not: [yaml").is_err());
}

#[test]
fn fix_dirty_url_moves_ampersand_query() {
    let fixed = match fix_dirty_url("https://example.com/path&token=abc&flag=1") {
        Ok(url) => url,
        Err(error) => panic!("dirty url with ampersand query is fixable: {error}"),
    };
    assert_eq!(fixed.path(), "/path");
    assert!(fixed.query().unwrap().contains("token=abc"));
}

#[test]
fn userinfo_header_variants_parse() {
    let mut headers = Headers::new();
    headers.insert(
        "subscription-userinfo".into(),
        "upload=1; download=2; total=3; expire=4".into(),
    );
    let extra = match parse_subscription_userinfo(&headers) {
        Some(extra) => extra,
        None => panic!("subscription-userinfo header present"),
    };
    assert_eq!(extra.upload, 1);
    assert_eq!(extra.download, 2);
    assert_eq!(extra.total, 3);
    assert_eq!(extra.expire, 4);

    headers.clear();
    headers.insert(
        "x-amz-meta-subscription-userinfo".into(),
        "upload=10; download=20; total=30; expire=40".into(),
    );
    let extra = match parse_subscription_userinfo(&headers) {
        Some(extra) => extra,
        None => panic!("x-amz-meta-subscription-userinfo header present"),
    };
    assert_eq!(extra.upload, 10);
}

#[test]
fn auto_update_defaults_to_enabled() {
    assert!(allow_auto_update_enabled(None));
    let disabled = PrfOption {
        allow_auto_update: Some(false),
        ..Default::default()
    };
    assert!(!allow_auto_update_enabled(Some(&disabled)));
}

#[test]
fn auto_update_needs_an_explicit_no() {
    assert!(allow_auto_update_enabled(Some(&PrfOption::default())));
    let enabled = PrfOption {
        allow_auto_update: Some(true),
        ..Default::default()
    };
    assert!(allow_auto_update_enabled(Some(&enabled)));
}

#[test]
fn import_option_merge_keeps_strategy_and_takes_user_flags() {
    let base = PrfOption {
        with_proxy: Some(true),
        self_proxy: Some(false),
        ..Default::default()
    };
    // CLI `--update-interval 15 --no-auto-update`.
    let user = PrfOption {
        update_interval: Some(15),
        allow_auto_update: Some(false),
        ..Default::default()
    };

    let merged = merge_import_option(&base, Some(&user));
    // The attempt's proxy strategy survives...
    assert_eq!(merged.with_proxy, Some(true));
    assert_eq!(merged.self_proxy, Some(false));
    // ...while the caller's flags win.
    assert_eq!(merged.update_interval, Some(15));
    assert_eq!(merged.allow_auto_update, Some(false));

    // Without user flags the attempt stands alone.
    let bare = merge_import_option(&base, None);
    assert_eq!(bare.update_interval, None);
    assert_eq!(bare.allow_auto_update, None);
}

#[test]
fn import_option_merge_keeps_strategy_against_the_user() {
    let base = PrfOption {
        with_proxy: Some(true),
        self_proxy: Some(false),
        update_interval: Some(60),
        ..Default::default()
    };
    let user = PrfOption {
        with_proxy: Some(false),
        self_proxy: Some(true),
        ..Default::default()
    };
    let merged = merge_import_option(&base, Some(&user));
    assert_eq!(merged.with_proxy, Some(true));
    assert_eq!(merged.self_proxy, Some(false));
    assert_eq!(merged.update_interval, Some(60));
}

#[test]
fn options_merge_field_by_field() {
    let one = PrfOption {
        with_proxy: Some(true),
        update_interval: Some(5),
        ..Default::default()
    };
    let other = PrfOption {
        with_proxy: Some(false),
        self_proxy: Some(true),
        ..Default::default()
    };
    let both = PrfOption {
        with_proxy: Some(false),
        self_proxy: Some(true),
        update_interval: Some(5),
        allow_auto_update: None,
    };
    assert_eq!(PrfOption::merge(Some(&one), Some(&other)), Some(both));
    assert_eq!(PrfOption::merge(Some(&one), None), Some(one));
    assert_eq!(PrfOption::merge(None, Some(&other)), Some(other));
    assert_eq!(PrfOption::merge(None, None), None);
    // Grouping does not matter, and neither do empty options.
    let third = PrfOption {
        allow_auto_update: Some(true),
        ..Default::default()
    };
    let left = PrfOption::merge(PrfOption::merge(Some(&one), Some(&other)).as_ref(), Some(&third));
    let right = PrfOption::merge(Some(&one), PrfOption::merge(Some(&other), Some(&third)).as_ref());
    assert_eq!(left, right);
    assert_eq!(PrfOption::merge(Some(&one), Some(&PrfOption::default())), Some(one));
    assert_eq!(PrfOption::merge(Some(&PrfOption::default()), Some(&one)), Some(one));
    assert_eq!(PrfOption::merge(Some(&one), Some(&one)), Some(one));
}

#[test]
fn validation_tells_its_two_refusals_apart() {
    assert_eq!(validate_clash_yaml("port: 7890\n"), Err(SubscriptionError::NoProxies));
    assert_eq!(validate_clash_yaml("not: [yaml"), Err(SubscriptionError::NotClash));
    assert_eq!(validate_clash_yaml("- proxies\n"), Err(SubscriptionError::NotClash));
    // An empty document is an empty mapping.
    assert_eq!(validate_clash_yaml(""), Err(SubscriptionError::NoProxies));
    // The keys count at the top level only.
    assert_eq!(validate_clash_yaml("a:\n  proxies: []\n"), Err(SubscriptionError::NoProxies));
    assert_eq!(judge_keys(Some((true, false))), Ok(()));
    assert_eq!(judge_keys(Some((false, true))), Ok(()));
    assert_eq!(judge_keys(Some((false, false))), Err(SubscriptionError::NoProxies));
    assert_eq!(judge_keys(None), Err(SubscriptionError::NotClash));
}

#[test]
fn blank_response_is_empty() {
    assert_eq!(check_response(""), Err(SubscriptionError::Empty));
    assert_eq!(check_response(" \r\n\t\u{a0}\u{3000}"), Err(SubscriptionError::Empty));
    assert_eq!(subscription_body(" \n".into()), Err(SubscriptionError::Empty));
    assert_eq!(
        SubscriptionError::Empty.message(),
        "subscription returned an empty response"
    );
}

#[test]
fn web_page_is_quoted_up_to_the_limit() {
    let page = format!("\n  <html>{}</html> ", "\u{540d}".repeat(300));
    let quoted = format!("<html>{}", "\u{540d}".repeat(194));
    assert_eq!(check_response(&page), Err(SubscriptionError::Html(quoted.clone())));
    assert_eq!(
        subscription_body(page),
        Err(SubscriptionError::Html(quoted.clone()))
    );
    assert_eq!(
        SubscriptionError::Html("<p>".into()).message(),
        "subscription returned HTML (possible 403/block or invalid URL): <p>"
    );
    assert_eq!(quoted.chars().count(), 200);
    assert_eq!(check_response("<p> "), Err(SubscriptionError::Html("<p>".into())));
    assert_eq!(check_response("a<p>"), Ok(()));
}

#[test]
fn plain_mapping_is_kept_as_it_came() {
    let body = "  proxies: []\n\n";
    assert_eq!(subscription_body(body.into()), Ok(body.to_string()));
    assert_eq!(subscription_body("port: 7890".into()), Ok("port: 7890".to_string()));
}

#[test]
fn encoded_mapping_is_kept_decoded() {
    assert_eq!(
        subscription_body("cHJveGllczogW10K".into()),
        Ok("proxies: []\n".to_string())
    );
    assert_eq!(
        subscription_body("\n cHJveGllczogW10K \r\n".into()),
        Ok("proxies: []\n".to_string())
    );
    assert_eq!(
        subscription_body("bmFtZTog5ZCNCg==".into()),
        Ok("name: \u{540d}\n".to_string())
    );
}

#[test]
fn other_responses_are_no_configuration() {
    // Text that is neither a mapping nor Base64.
    assert_eq!(subscription_body("hello, world".into()), Err(SubscriptionError::NotClash));
    // Base64 without its padding.
    assert_eq!(subscription_body("bmFtZTog5ZCNCg".into()), Err(SubscriptionError::NotClash));
    // Base64 of a list, and of bytes that are no text.
    assert_eq!(subscription_body("LSBhCi0gYgo=".into()), Err(SubscriptionError::NotClash));
    assert_eq!(subscription_body("//79".into()), Err(SubscriptionError::NotClash));
    assert_eq!(
        SubscriptionError::NotClash.message(),
        "subscription response is not a valid Clash config"
    );
    assert_eq!(
        SubscriptionError::NoProxies.message(),
        "profile does not contain `proxies` or `proxy-providers`"
    );
}

#[test]
fn body_is_chosen_by_what_parsed() {
    assert_eq!(choose_body("a".into(), true, Some("b".into())), Ok("a".to_string()));
    assert_eq!(choose_body("a".into(), false, Some("b".into())), Ok("b".to_string()));
    assert_eq!(choose_body("a".into(), false, None), Err(SubscriptionError::NotClash));
    assert_eq!(decoded_text(Some(vec![0xe5, 0x90, 0x8d])), Some("\u{540d}".to_string()));
    assert_eq!(decoded_text(Some(vec![0xe5, 0x90])), None);
    assert_eq!(decoded_text(Some(vec![])), Some(String::new()));
    assert_eq!(decoded_text(None), None);
}

#[test]
fn subscription_becomes_a_remote_profile() {
    let uuid = "01234567-89ab-4cde-8f01-23456789abcd";
    let item = profile_item("https://e.com", "mine", "proxies: []".into(), uuid, 1700000000);
    assert_eq!(item.uid.as_deref(), Some("R0123456789ab4cde8f0123456789abcd"));
    assert_eq!(item.file.as_deref(), Some("R0123456789ab4cde8f0123456789abcd.yaml"));
    assert_eq!(item.itype.as_deref(), Some("remote"));
    assert_eq!(item.name.as_deref(), Some("mine"));
    assert_eq!(item.url.as_deref(), Some("https://e.com"));
    assert_eq!(item.file_data.as_deref(), Some("proxies: []"));
    assert_eq!(item.updated, Some(1700000000));
}

#[test]
fn fetched_profile_has_a_fresh_uid() {
    let first = from_url("https://e.com", "n", "cHJveGllczogW10K".into()).unwrap();
    let second = from_url("https://e.com", "n", "proxies: []\n".into()).unwrap();
    for item in [&first, &second] {
        let uid = item.uid.clone().unwrap();
        assert_eq!(uid.len(), 33);
        assert!(uid.starts_with('R'));
        assert!(uid[1..].chars().all(|c| c.is_ascii_digit() || ('a'..='f').contains(&c)));
        assert_eq!(&uid[13..14], "4");
        assert!("89ab".contains(&uid[17..18]));
        assert_eq!(item.file.clone().unwrap(), format!("{uid}.yaml"));
        assert_eq!(item.itype.as_deref(), Some("remote"));
        assert_eq!(item.file_data.as_deref(), Some("proxies: []\n"));
        assert!(item.updated.unwrap() > 1_600_000_000);
    }
    assert_ne!(first.uid, second.uid);
    assert_eq!(from_url("u", "n", "".into()), Err(SubscriptionError::Empty));
    assert_eq!(from_url("u", "n", "hello".into()), Err(SubscriptionError::NotClash));
}

#[test]
fn userinfo_takes_what_it_can_read() {
    let info = "upload=5 ;download=; total=x; total=18446744073709551615;expire";
    assert_eq!(find_field_number(info, "upload"), Some(5));
    assert_eq!(find_field_number(info, "download"), None);
    assert_eq!(find_field_number(info, "total"), Some(u64::MAX));
    assert_eq!(find_field_number(info, "expire"), None);
    assert_eq!(find_field_number("n=18446744073709551616", "n"), None);
    assert_eq!(find_field_number("", "n"), None);
    let mut headers = Headers::new();
    assert_eq!(parse_subscription_userinfo(&headers), None);
    headers.insert("x-amz-meta-subscription-userinfo".into(), "upload=9".into());
    headers.insert("subscription-userinfo".into(), "upload=7".into());
    headers.insert("subscription-userinfo".into(), info.into());
    let extra = parse_subscription_userinfo(&headers).unwrap();
    assert_eq!((extra.upload, extra.download, extra.total, extra.expire), (5, 0, u64::MAX, 0));
    assert_eq!(headers.get("subscription-userinfo").map(|v| v.as_str()), Some(info));
    assert_eq!(headers.get("other"), None);
}

#[test]
fn clean_addresses_are_left_alone() {
    for text in [
        "https://example.com",
        "https://example.com/a?b=c&d=e",
        "https://example.com/a&b?c=d",
        "https://u:p@example.com:8443/a/b#f&g",
        "https://example.com?x=1#y?z",
    ] {
        let url = fix_dirty_url(text).unwrap();
        assert_eq!(url.to_text(), text);
    }
    let url = fix_dirty_url("https://example.com/a&b?c=d").unwrap();
    assert_eq!(url.path(), "/a&b");
    assert_eq!(url.query(), Some("c=d"));
}

#[test]
fn dirty_address_is_repaired_once() {
    let url = fix_dirty_url("https://example.com/path&token=abc&flag=1#top").unwrap();
    assert_eq!(url.query(), Some("token=abc&flag=1"));
    assert_eq!(url.to_text(), "https://example.com/path?token=abc&flag=1#top");
    assert_eq!(fix_dirty_url(&url.to_text()).unwrap(), url);
}

#[test]
fn relative_addresses_are_refused() {
    for text in ["", "example.com/a&b", "://x", "https:/x", "https:///x", "https://?a"] {
        assert_eq!(fix_dirty_url(text), Err("relative URL without a base".to_string()));
    }
}

fn strategies(fallback: Fallback) -> Vec<(Option<bool>, Option<bool>)> {
    let mut seen = vec![];
    let mut left = fallback;
    loop {
        let option = left.call().option;
        seen.push((option.with_proxy, option.self_proxy));
        match left.record::<(), u8>(Err(0)) {
            FallbackStep::Try(next) => left = next,
            FallbackStep::Finished(_) => return seen,
        }
    }
}

#[test]
fn import_tries_three_ways() {
    let user = PrfOption {
        with_proxy: Some(false),
        update_interval: Some(15),
        allow_auto_update: Some(false),
        ..Default::default()
    };
    let first = import_with_fallback("https://e.com", Some("n"), Some(&user));
    assert_eq!(first.call().url, "https://e.com");
    assert_eq!(first.call().name.as_deref(), Some("n"));
    assert_eq!(first.call().desc, None);
    assert_eq!(first.call().option.update_interval, Some(15));
    assert_eq!(first.call().option.allow_auto_update, Some(false));
    assert_eq!(
        strategies(first),
        vec![(Some(true), Some(false)), (Some(false), Some(true)), (None, None)]
    );
}

#[test]
fn update_tries_its_options_first() {
    let option = PrfOption {
        with_proxy: Some(true),
        self_proxy: Some(true),
        update_interval: Some(30),
        ..Default::default()
    };
    let first = update_with_fallback("https://e.com", Some(&option));
    assert_eq!(first.call().option, option);
    assert_eq!(first.call().name, None);
    assert_eq!(
        strategies(first),
        vec![
            (Some(true), Some(true)),
            (Some(false), Some(true)),
            (Some(true), Some(false))
        ]
    );
    assert_eq!(
        strategies(update_with_fallback("https://e.com", None)),
        vec![(None, None), (Some(false), Some(true)), (Some(true), Some(false))]
    );
    match update_with_fallback("u", Some(&option)).record::<(), u8>(Err(1)) {
        FallbackStep::Try(next) => assert_eq!(next.call().option.update_interval, Some(30)),
        FallbackStep::Finished(_) => panic!("two attempts are left"),
    }
}

#[test]
fn search_ends_with_the_first_success_or_the_last_error() {
    let start = || import_with_fallback("u", None, None);
    assert_eq!(start().record::<u8, u8>(Ok(7)), FallbackStep::Finished(Ok(7)));
    let second = match start().record::<u8, u8>(Err(1)) {
        FallbackStep::Try(next) => next,
        FallbackStep::Finished(_) => panic!("two attempts are left"),
    };
    let third = match second.record::<u8, u8>(Err(2)) {
        FallbackStep::Try(next) => next,
        FallbackStep::Finished(_) => panic!("one attempt is left"),
    };
    assert_eq!(third.record::<u8, u8>(Err(3)), FallbackStep::Finished(Err(3)));
}
