use bigdecimal::num_bigint::BigInt;
use bigdecimal::BigDecimal;
use price_oracle::collector::binance::BinanceMarketDataCollector;
use price_oracle::collector::bitfinex::{
    BitfinexMarketDataCollector, PRICE_FIELD, VOLUME_FIELD,
};
use price_oracle::collector::cycle::{PollCycle, Step};
use price_oracle::collector::{
    init_collectors, inverted_price, observation, observe, reported_price, Collector, MarketData,
    MarketDataVec,
};
use price_oracle::config::{clone_tickers, CollectorConfig, DelayConfig, Ticker};
use price_oracle::decimal::Decimal;
use price_oracle::error::Error;
use std::str::FromStr;
use std::time::Duration;

fn dec(value: BigDecimal) -> Decimal {
    let (unscaled, scale) = value.into_bigint_and_exponent();
    Decimal::new(unscaled.to_signed_bytes_le(), scale).unwrap()
}

fn big(value: &Decimal) -> BigDecimal {
    BigDecimal::new(BigInt::from_signed_bytes_le(value.digits()), value.scale())
}

fn num(text: &str) -> Decimal {
    dec(BigDecimal::from_str(text).unwrap())
}

fn ticker(symbol: &str, alias: &str, inverted: bool) -> Ticker {
    Ticker { ticker: symbol.to_string(), alias: alias.to_string(), inverted }
}

fn config(kind: &str, enabled: bool) -> CollectorConfig {
    CollectorConfig {
        kind: kind.to_string(),
        enabled,
        endpoint: format!("https://{}.example", kind),
        delay: DelayConfig {
            request: Duration::from_millis(250),
            batch: Duration::from_secs(5),
        },
        tickers: vec![ticker("BTCUSDT", "BTC", false), ticker("USDTRUB", "RUB", true)],
    }
}

#[test]
fn label_is_the_alias_unless_it_is_blank() {
    assert_eq!(ticker("BTCUSDT", "BTC", false).label(), "BTC");
    assert_eq!(ticker("BTCUSDT", "", false).label(), "BTCUSDT");
    assert_eq!(ticker("BTCUSDT", "  \t\n", false).label(), "BTCUSDT");
    assert_eq!(ticker("BTCUSDT", "\u{a0}\u{2003}", false).label(), "BTCUSDT");
    assert_eq!(ticker("BTCUSDT", " BTC ", false).label(), " BTC ");
    assert_eq!(ticker("", " ", true).label(), "");
}

#[test]
fn tickers_are_copied_field_by_field() {
    let tickers = vec![ticker("BTCUSDT", "BTC", false), ticker("USDTRUB", "", true)];
    let copy = clone_tickers(&tickers);
    assert_eq!(copy.len(), 2);
    assert_eq!(copy[0].ticker, "BTCUSDT");
    assert_eq!(copy[0].alias, "BTC");
    assert!(!copy[0].inverted);
    assert_eq!(copy[1].ticker, "USDTRUB");
    assert_eq!(copy[1].alias, "");
    assert!(copy[1].inverted);
    let one = tickers[1].clone();
    assert_eq!(one.ticker, "USDTRUB");
    assert!(one.inverted);
}

#[test]
fn observation_goes_by_the_label() {
    let data = observation("binance", &ticker("BTCUSDT", "BTC", false), num("1.5"), num("20"), 77);
    assert_eq!(
        data,
        MarketData {
            provider: "binance".to_string(),
            ticker: "BTC".to_string(),
            price: num("1.5"),
            volume: num("20"),
            timestamp: 77,
        }
    );
    let data = observation("kraken", &ticker("ETHUSD", " ", true), num("3"), num("4"), -1);
    assert_eq!(data.ticker, "ETHUSD");
    assert_eq!(data.provider, "kraken");
    assert_eq!(data.timestamp, -1);
    assert_eq!(data.clone(), data);
    let same = observation("kraken", &ticker("ETHUSD", "", true), num("3.0"), num("4.00"), -1);
    assert_eq!(same, data);
    assert_ne!(observation("kraken", &ticker("ETHUSD", "", true), num("3.1"), num("4"), -1), data);
    assert_ne!(observation("kraken", &ticker("ETHUSD", "", true), num("3"), num("5"), -1), data);
    assert_ne!(observation("kraken", &ticker("ETHUSD", "", true), num("3"), num("4"), 0), data);
    assert_ne!(observation("karken", &ticker("ETHUSD", "", true), num("3"), num("4"), -1), data);
    assert_ne!(observation("kraken", &ticker("ETHUSDT", "", true), num("3"), num("4"), -1), data);
}

#[test]
fn reported_price_is_inverted_on_demand() {
    let plain = reported_price(&ticker("BTCUSDT", "", false), num("2")).unwrap();
    assert_eq!(plain, num("2"));
    let inverted = reported_price(&ticker("BTCUSDT", "", true), num("2")).unwrap();
    assert_eq!(big(&inverted), BigDecimal::from_str("0.5").unwrap());
    let inverted = reported_price(&ticker("BTCUSDT", "", true), num("100")).unwrap();
    assert_eq!(big(&inverted), BigDecimal::from_str("0.01").unwrap());
    let zero = reported_price(&ticker("BTCUSDT", "", true), num("0.0")).unwrap();
    assert_eq!(zero, num("0"));
    assert_eq!(zero.scale(), 1);
}

#[test]
fn inverted_price_is_the_reciprocal_or_an_error() {
    let price = inverted_price(Some(num("0.25"))).unwrap();
    assert_eq!(price, num("0.25"));
    assert_eq!(price.scale(), 2);
    assert_eq!(price.digits(), num("0.25").digits());
    match inverted_price(None) {
        Err(Error::CollectorError(message)) => assert_eq!(message, "can't invert price"),
        other => panic!("unexpected: {:?}", other),
    }
    assert_eq!(
        inverted_price(None).unwrap_err().describe(),
        "collector error: can't invert price"
    );
}

#[test]
fn reported_price_differs_from_the_last_price_where_it_is_inverted() {
    let last = num("3.141592653");
    let inverted = reported_price(&ticker("X", "", true), num("3.141592653")).unwrap();
    assert_ne!(inverted, last);
    assert_eq!(
        big(&inverted),
        BigDecimal::from_str("0.3183098862435492205742690218851870990799646487459493049686604293188738877535183744268834079171116523").unwrap()
    );
    let plain = reported_price(&ticker("X", "", false), num("3.141592653")).unwrap();
    assert_eq!(plain.digits(), last.digits());
    assert_eq!(plain.scale(), 9);
}

#[test]
fn an_inverted_price_beyond_the_bounds_is_an_error() {
    let tiny = Decimal::new(vec![2], 400).unwrap();
    match reported_price(&ticker("X", "", true), tiny.clone()) {
        Err(Error::CollectorError(message)) => assert_eq!(message, "can't invert price"),
        other => panic!("unexpected: {:?}", other),
    }
    let plain = reported_price(&ticker("X", "", false), tiny.clone()).unwrap();
    assert_eq!(plain.scale(), 400);
    assert!(observe("binance", &ticker("X", "", true), tiny.clone(), num("1")).is_err());
    let mut reply = fields(8);
    reply[6] = Some(tiny);
    let collector = BitfinexMarketDataCollector::new(&config("bitfinex", true));
    assert!(collector.market_data(&ticker("X", "", true), &reply).is_err());
    assert!(collector.market_data(&ticker("X", "", false), &reply).is_ok());
}

#[test]
fn observe_stamps_the_present_moment() {
    let before = chrono::Utc::now().timestamp();
    let data = observe("binance", &ticker("USDTRUB", "RUB", true), num(".2"), num("7")).unwrap();
    let after = chrono::Utc::now().timestamp();
    assert!(before <= data.timestamp && data.timestamp <= after);
    assert!(data.timestamp > 1_600_000_000);
    assert_eq!(data.provider, "binance");
    assert_eq!(data.ticker, "RUB");
    assert_eq!(big(&data.price), BigDecimal::from(5));
    assert_eq!(data.volume, num("7"));
}

#[test]
fn binance_collector_is_made_of_its_configuration() {
    let collector = BinanceMarketDataCollector::new(&config("binance", true));
    assert_eq!(collector.endpoint(), "https://binance.example");
    assert_eq!(collector.tickers().len(), 2);
    assert_eq!(collector.tickers()[1].ticker, "USDTRUB");
    assert_eq!(collector.request_delay(), Duration::from_millis(250));
    assert_eq!(collector.batch_delay(), Duration::from_secs(5));
    assert_eq!(
        collector.url(&ticker("BTCUSDT", "BTC", false)),
        "https://binance.example/api/v3/ticker/24hr?symbol=BTCUSDT"
    );
    let copy = collector.clone();
    assert_eq!(copy.endpoint(), "https://binance.example");
    assert_eq!(copy.tickers().len(), 2);
}

#[test]
fn binance_market_data() {
    let collector = BinanceMarketDataCollector::new(&config("binance", true));
    let data = collector
        .market_data(&ticker("BTCUSDT", "BTC", false), num("42580.02"), num("18555.70986"))
        .unwrap();
    assert_eq!(data.provider, "binance");
    assert_eq!(data.ticker, "BTC");
    assert_eq!(data.price, num("42580.02"));
    assert_eq!(data.volume, num("18555.70986"));
    let data = collector
        .market_data(&ticker("USDTRUB", "", true), num("100"), num("3"))
        .unwrap();
    assert_eq!(data.ticker, "USDTRUB");
    assert_eq!(big(&data.price), BigDecimal::from_str("0.01").unwrap());
    assert_eq!(data.volume, num("3"));
}

#[test]
fn an_alias_of_blanks_counts_as_absent() {
    let collector = BinanceMarketDataCollector::new(&config("binance", true));
    let data = collector
        .market_data(&ticker("BTCUSDT", "  ", false), num("42580.02"), num("18555.70986"))
        .unwrap();
    assert_eq!(data.ticker, "BTCUSDT");
    assert_eq!(data.provider, "binance");
    assert_eq!(data.price, num("42580.02"));
    assert_eq!(data.price.scale(), 2);
    assert_eq!(data.volume, num("18555.70986"));
    assert_eq!(data.volume.scale(), 5);
}

#[test]
fn bitfinex_collector_is_made_of_its_configuration() {
    let collector = BitfinexMarketDataCollector::new(&config("bitfinex", true));
    assert_eq!(collector.endpoint(), "https://bitfinex.example");
    assert_eq!(collector.tickers().len(), 2);
    assert_eq!(collector.request_delay(), Duration::from_millis(250));
    assert_eq!(collector.batch_delay(), Duration::from_secs(5));
    assert_eq!(
        collector.url(&ticker("BTCUSD", "BTC", false)),
        "https://bitfinex.example/v2/ticker/tBTCUSD"
    );
    assert_eq!(collector.clone().endpoint(), "https://bitfinex.example");
}

fn fields(count: usize) -> Vec<Option<Decimal>> {
    (0..count).map(|at| Some(dec(BigDecimal::from(at as i64 + 1)))).collect()
}

#[test]
fn bitfinex_decode_picks_price_and_volume() {
    assert_eq!(PRICE_FIELD, 6);
    assert_eq!(VOLUME_FIELD, 7);
    let reply = BitfinexMarketDataCollector::decode(&fields(10)).unwrap();
    assert_eq!(reply.price, num("7"));
    assert_eq!(reply.volume, num("8"));
    let reply = BitfinexMarketDataCollector::decode(&fields(8)).unwrap();
    assert_eq!(reply.price, num("7"));
    assert_eq!(reply.volume, num("8"));
}

fn decode_error(fields: &Vec<Option<Decimal>>) -> String {
    BitfinexMarketDataCollector::decode(fields).err().unwrap().describe()
}

#[test]
fn bitfinex_decode_reports_the_first_flaw() {
    assert_eq!(decode_error(&fields(0)), "provider error: can't decode price");
    assert_eq!(decode_error(&fields(6)), "provider error: can't decode price");
    assert_eq!(decode_error(&fields(7)), "provider error: can't decode volume");
    let mut reply = fields(8);
    reply[7] = None;
    assert_eq!(decode_error(&reply), "collector error: can't decode volume format");
    reply[6] = None;
    assert_eq!(decode_error(&reply), "collector error: can't decode price format");
    let mut reply = fields(7);
    reply[6] = None;
    assert_eq!(decode_error(&reply), "collector error: can't decode price format");
    let mut reply = fields(9);
    reply[0] = None;
    reply[8] = None;
    assert!(BitfinexMarketDataCollector::decode(&reply).is_ok());
}

#[test]
fn bitfinex_market_data() {
    let collector = BitfinexMarketDataCollector::new(&config("bitfinex", true));
    let data = collector.market_data(&ticker("BTCUSD", "BTC", false), &fields(10)).unwrap();
    assert_eq!(data.provider, "bitfinex");
    assert_eq!(data.ticker, "BTC");
    assert_eq!(data.price, num("7"));
    assert_eq!(data.volume, num("8"));
    let mut reply = fields(10);
    reply[6] = Some(num("2"));
    let data = collector.market_data(&ticker("BTCUSD", " ", true), &reply).unwrap();
    assert_eq!(data.ticker, "BTCUSD");
    assert_eq!(big(&data.price), BigDecimal::from_str("0.5").unwrap());
    match collector.market_data(&ticker("BTCUSD", "BTC", true), &fields(3)) {
        Err(Error::ProviderError(message)) => assert_eq!(message, "can't decode price"),
        other => panic!("unexpected: {:?}", other),
    }
}

#[test]
fn init_collectors_builds_the_enabled_ones_in_order() {
    let configs = vec![
        config("bitfinex", true),
        config("kraken", false),
        config("binance", true),
        config("binance", false),
        config("bitfinex", true),
    ];
    let collectors = init_collectors(&configs).unwrap();
    assert_eq!(collectors.len(), 3);
    match &collectors[0] {
        Collector::Bitfinex(c) => assert_eq!(c.endpoint(), "https://bitfinex.example"),
        other => panic!("unexpected: {:?}", other),
    }
    match &collectors[1] {
        Collector::Binance(c) => {
            assert_eq!(c.endpoint(), "https://binance.example");
            assert_eq!(c.tickers().len(), 2);
        }
        other => panic!("unexpected: {:?}", other),
    }
    assert!(matches!(collectors[2].clone(), Collector::Bitfinex(_)));
    assert_eq!(init_collectors(&vec![]).unwrap().len(), 0);
    assert_eq!(init_collectors(&vec![config("kraken", false)]).unwrap().len(), 0);
}

#[test]
fn init_collectors_refuses_an_unknown_kind() {
    let configs = vec![config("binance", true), config("kraken", true), config("bitfinex", true)];
    match init_collectors(&configs) {
        Err(Error::CollectorError(message)) => assert_eq!(message, "unsupported kind"),
        other => panic!("unexpected: {:?}", other),
    }
    assert!(init_collectors(&vec![config("Binance", true)]).is_err());
    assert!(init_collectors(&vec![config("", true)]).is_err());
    assert_eq!(
        init_collectors(&vec![config("binance ", true)]).unwrap_err().describe(),
        "collector error: unsupported kind"
    );
}

#[test]
fn collector_config_is_copied_field_by_field() {
    let copy = config("binance", true).clone();
    assert_eq!(copy.kind, "binance");
    assert!(copy.enabled);
    assert_eq!(copy.endpoint, "https://binance.example");
    assert_eq!(copy.delay.request, Duration::from_millis(250));
    assert_eq!(copy.delay.batch, Duration::from_secs(5));
    assert_eq!(copy.tickers.len(), 2);
    assert_eq!(copy.tickers[0].alias, "BTC");
}

#[test]
fn market_data_vec_is_copied_entry_by_entry() {
    let list = MarketDataVec {
        prices: vec![
            observation("a", &ticker("X", "", false), num("1"), num("2"), 3),
            observation("b", &ticker("Y", "", false), num("4"), num("5"), 6),
        ],
    };
    let copy = list.clone();
    assert_eq!(copy.prices, list.prices);
}

#[test]
fn a_pass_fetches_every_ticker_in_turn() {
    let mut cycle = PollCycle::new(2);
    assert_eq!(cycle.current(), Step::Fetch(0));
    assert_eq!(cycle.advance(true), Step::Enqueue(0));
    assert_eq!(cycle.current(), Step::Enqueue(0));
    assert_eq!(cycle.advance(true), Step::PauseRequest(0));
    assert_eq!(cycle.advance(true), Step::Fetch(1));
    assert_eq!(cycle.advance(true), Step::Enqueue(1));
    assert_eq!(cycle.advance(true), Step::PauseRequest(1));
    assert_eq!(cycle.advance(true), Step::PauseBatch);
    assert_eq!(cycle.advance(true), Step::Fetch(0));
}

#[test]
fn a_failed_fetch_skips_the_ticker_for_this_pass() {
    let mut cycle = PollCycle::new(3);
    assert_eq!(cycle.advance(false), Step::PauseRequest(0));
    assert_eq!(cycle.advance(false), Step::Fetch(1));
    assert_eq!(cycle.advance(true), Step::Enqueue(1));
    assert_eq!(cycle.advance(false), Step::PauseRequest(1));
    assert_eq!(cycle.advance(true), Step::Fetch(2));
    assert_eq!(cycle.advance(false), Step::PauseRequest(2));
    assert_eq!(cycle.advance(false), Step::PauseBatch);
    assert_eq!(cycle.advance(false), Step::Fetch(0));
}

#[test]
fn a_cycle_without_tickers_only_pauses() {
    let mut cycle = PollCycle::new(0);
    assert_eq!(cycle.current(), Step::PauseBatch);
    assert_eq!(cycle.advance(true), Step::PauseBatch);
    assert_eq!(cycle.advance(false), Step::PauseBatch);
}

#[test]
fn a_cycle_over_one_ticker() {
    let mut cycle = PollCycle::new(1);
    assert_eq!(cycle.current(), Step::Fetch(0));
    assert_eq!(cycle.advance(true), Step::Enqueue(0));
    assert_eq!(cycle.advance(true), Step::PauseRequest(0));
    assert_eq!(cycle.advance(true), Step::PauseBatch);
    assert_eq!(cycle.advance(true), Step::Fetch(0));
    let mut last = PollCycle::new(usize::MAX);
    assert_eq!(last.advance(false), Step::PauseRequest(0));
    assert_eq!(last.advance(false), Step::Fetch(1));
}
