use cwlogs_viewer::url::{generate_url, remove_pattern, url_encode, UrlConfig};

#[test]
fn test_url_encode_escapes_reserved_characters() {
    // a wrapper handing its input back unchanged would fail here
    assert_eq!(url_encode("/aws/lambda"), "%2Faws%2Flambda");
    assert_eq!(url_encode("a b:c"), "a%20b%3Ac");
    assert_eq!(url_encode("plain-name_0.~"), "plain-name_0.~");
    assert_eq!(url_encode(""), "");
}

#[test]
fn test_remove_pattern() {
    assert_eq!(remove_pattern("123:abc:123", "123"), ":abc:");
    assert_eq!(remove_pattern("aaa", "aa"), "a");
    assert_eq!(remove_pattern("abc", ""), "abc");
    assert_eq!(remove_pattern("abc", "xyz"), "abc");
    assert_eq!(remove_pattern("a:b:c", ":"), "abc");
}

#[test]
fn test_generate_url_strips_account_and_double_encodes() {
    let cfg = UrlConfig {
        region: "ap-northeast-1".to_string(),
        account_id: "153820248175".to_string(),
    };
    let url = generate_url(&cfg, "153820248175:/aws/lambda/app", "2025/03/12/[$LATEST]abc");
    assert_eq!(
        url,
        "https://ap-northeast-1.console.aws.amazon.com/cloudwatch/home?region=ap-northeast-1\
         #logsV2:log-groups/log-group/%252Faws%252Flambda%252Fapp\
         /log-events/2025%252F03%252F12%252F%255B%2524LATEST%255Dabc"
    );
}

#[test]
fn test_generate_url_without_account_prefix() {
    let cfg = UrlConfig {
        region: "us-east-1".to_string(),
        account_id: "000000000000".to_string(),
    };
    let url = generate_url(&cfg, "/aws/lambda/plain", "stream");
    assert_eq!(
        url,
        "https://us-east-1.console.aws.amazon.com/cloudwatch/home?region=us-east-1\
         #logsV2:log-groups/log-group/%252Faws%252Flambda%252Fplain/log-events/stream"
    );
}
