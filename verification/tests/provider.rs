use price_oracle::config::{
    AppConfig, P2PProxyProviderConfig, PriceOracleConfig, ProvidersConfig,
};
use price_oracle::error::Error;
use price_oracle::provider::init_providers;
use price_oracle::provider::p2p::{P2PProvider, P2PRequest, STATUS_OK};
use price_oracle::text::{blank, join};
use std::time::Duration;

fn proxy(topic: &str, endpoint: &str) -> P2PProxyProviderConfig {
    P2PProxyProviderConfig { topic: topic.to_string(), endpoint: endpoint.to_string() }
}

#[test]
fn provider_posts_to_the_publish_path() {
    let provider = P2PProvider::new(&proxy("prices", "http://proxy:8080"));
    assert_eq!(provider.endpoint(), "http://proxy:8080/pubsub/publish");
    assert_eq!(provider.topic(), "prices");
    let copy = provider.clone();
    assert_eq!(copy.endpoint(), "http://proxy:8080/pubsub/publish");
    assert_eq!(copy.topic(), "prices");
    assert_eq!(P2PProvider::new(&proxy("", "")).endpoint(), "/pubsub/publish");
}

#[test]
fn request_carries_the_message_in_base64() {
    let provider = P2PProvider::new(&proxy("prices", "http://proxy:8080"));
    let request = provider.request(&b"hello".to_vec());
    assert_eq!(request.topic(), "prices");
    assert_eq!(request.data(), "aGVsbG8=");
    assert_eq!(provider.request(&vec![]).data(), "");
    assert_eq!(provider.request(&vec![0xfb, 0xff]).data(), "+/8=");
    assert_eq!(provider.request(&b"Man".to_vec()).data(), "TWFu");
    let request = P2PRequest::new("t", &b"Ma".to_vec());
    assert_eq!(request.topic(), "t");
    assert_eq!(request.data(), "TWE=");
    let copy = request.clone();
    assert_eq!(copy.topic(), "t");
    assert_eq!(copy.data(), "TWE=");
}

#[test]
fn only_status_200_is_a_delivery() {
    assert_eq!(STATUS_OK, 200);
    assert!(P2PProvider::outcome(200, "200 OK").is_ok());
    match P2PProvider::outcome(500, "500 Internal Server Error") {
        Err(Error::ProviderError(message)) => assert_eq!(
            message,
            "can't feed data to proxy, status code: 500 Internal Server Error"
        ),
        other => panic!("unexpected: {:?}", other),
    }
    assert_eq!(
        P2PProvider::outcome(201, "201 Created").unwrap_err().describe(),
        "provider error: can't feed data to proxy, status code: 201 Created"
    );
    assert!(P2PProvider::outcome(0, "").is_err());
    assert!(P2PProvider::outcome(199, "").is_err());
}

#[test]
fn init_providers_builds_one_for_each_proxy() {
    let config = ProvidersConfig {
        p2p: vec![proxy("a", "http://one"), proxy("b", "http://two")],
    };
    let providers = init_providers(&config).unwrap();
    assert_eq!(providers.len(), 2);
    assert_eq!(providers[0].endpoint(), "http://one/pubsub/publish");
    assert_eq!(providers[0].topic(), "a");
    assert_eq!(providers[1].endpoint(), "http://two/pubsub/publish");
    assert_eq!(providers[1].topic(), "b");
    assert_eq!(init_providers(&ProvidersConfig { p2p: vec![] }).unwrap().len(), 0);
}

#[test]
fn provider_configs_are_copied_field_by_field() {
    let config = ProvidersConfig {
        p2p: vec![proxy("a", "http://one"), proxy("b", "http://two")],
    };
    let copy = config.clone();
    assert_eq!(copy.p2p.len(), 2);
    assert_eq!(copy.p2p[0].topic, "a");
    assert_eq!(copy.p2p[1].endpoint, "http://two");
    let app = AppConfig {
        providers: copy,
        collectors: vec![],
        oracle: PriceOracleConfig {
            delay: Duration::from_secs(10),
            ttl: Duration::from_secs(60),
        },
    };
    assert_eq!(app.oracle.ttl.as_secs(), 60);
    assert_eq!(app.providers.p2p.len(), 2);
    let again = app.clone();
    assert_eq!(again.providers.p2p[1].topic, "b");
    assert_eq!(again.collectors.len(), 0);
    assert_eq!(again.oracle.delay, Duration::from_secs(10));
    assert_eq!(again.oracle.ttl, Duration::from_secs(60));
}

#[test]
fn every_error_is_described_by_its_kind_and_message() {
    let cases = vec![
        (Error::ConfigLoadError("a".to_string()), "config load failed: a"),
        (Error::ProviderError("b".to_string()), "provider error: b"),
        (Error::CollectorError("c".to_string()), "collector error: c"),
        (Error::ReqwestError("d".to_string()), "reqwest error: d"),
        (Error::ParseFloatError("e".to_string()), "parse float error: e"),
        (Error::EncodeError("f".to_string()), "encoded error: f"),
        (Error::IOError("g".to_string()), "IO error: g"),
        (Error::AggregatorError("".to_string()), "aggregator error: "),
    ];
    for (error, text) in cases {
        assert_eq!(error.describe(), text);
    }
}

#[test]
fn whitespace_is_the_unicode_property() {
    let listed = |code: u32| {
        (0x0009..=0x000d).contains(&code)
            || code == 0x0020
            || code == 0x0085
            || code == 0x00a0
            || code == 0x1680
            || (0x2000..=0x200a).contains(&code)
            || code == 0x2028
            || code == 0x2029
            || code == 0x202f
            || code == 0x205f
            || code == 0x3000
    };
    let mut count = 0;
    for code in 0..=0x10ffffu32 {
        if let Some(c) = char::from_u32(code) {
            let mut text = String::new();
            text.push(c);
            assert_eq!(blank(&text), listed(code), "U+{:04X}", code);
            if listed(code) {
                count += 1;
            }
        }
    }
    assert_eq!(count, 25);
    assert!(blank("\u{9}\u{a}\u{b}\u{c}\u{d} \u{85}\u{a0}\u{1680}\u{2000}\u{200a}\u{2028}\u{3000}"));
    assert!(!blank("\u{1680}x\u{1680}"));
    assert!(!blank("\u{180e}"));
    assert!(!blank("\u{feff}"));
}

#[test]
fn text_helpers() {
    assert_eq!(join("a/", "b"), "a/b");
    assert_eq!(join("", ""), "");
    assert!(blank(""));
    assert!(blank(" \r\n\t"));
    assert!(!blank(" x "));
    assert!(!blank("\u{200b}"));
}
