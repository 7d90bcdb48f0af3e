use clusters::aster::instruments_info::{parse_exchange_info, AsterCategory};
use clusters::types::{Exchange, MarketType, Quote};

const PERP_FIXTURE: &str = r#"
{
  "symbols": [
    {"symbol":"BTCUSDT","contractType":"PERPETUAL","status":"TRADING","quoteAsset":"USDT",
     "filters":[{"filterType":"PRICE_FILTER","tickSize":"0.10"},{"filterType":"LOT_SIZE","stepSize":"0.001"}]},
    {"symbol":"ETHUSDC","contractType":"PERPETUAL","status":"TRADING","quoteAsset":"USDC",
     "filters":[{"filterType":"PRICE_FILTER","tickSize":"0.01"},{"filterType":"LOT_SIZE","stepSize":"0.001"}]},
    {"symbol":"BTCUSDT_241227","contractType":"CURRENT_QUARTER","status":"TRADING","quoteAsset":"USDT","filters":[]},
    {"symbol":"BTCBUSD","contractType":"PERPETUAL","status":"TRADING","quoteAsset":"BUSD","filters":[]}
  ]
}"#;

#[test]
fn parses_perp_usdt_usdc_filters_dated_and_other_quotes() {
    let specs = parse_exchange_info(PERP_FIXTURE, AsterCategory::Perp).unwrap();
    assert_eq!(specs.len(), 2);
    let btc = specs.iter().find(|s| s.symbol == "BTCUSDT").unwrap();
    assert_eq!(btc.exchange, Exchange::AsterF);
    assert_eq!(btc.market_type, MarketType::Perp);
    assert_eq!(btc.quote, Quote::Usdt);
    assert_eq!(btc.price_scale, 1); // "0.10"
    assert_eq!(btc.tick_size, 1);
    assert_eq!(btc.qty_scale, 3);
}

const SPOT_FIXTURE: &str = r#"
{
  "symbols": [
    {"symbol":"BTCUSDT","status":"TRADING","quoteAsset":"USDT","isSpotTradingAllowed":true,
     "filters":[{"filterType":"PRICE_FILTER","tickSize":"0.01"},{"filterType":"LOT_SIZE","stepSize":"0.00001"}]},
    {"symbol":"LEVUPUSDT","status":"TRADING","quoteAsset":"USDT","isSpotTradingAllowed":false,"filters":[]}
  ]
}"#;

#[test]
fn parses_spot_filters_leveraged() {
    let specs = parse_exchange_info(SPOT_FIXTURE, AsterCategory::Spot).unwrap();
    assert_eq!(specs.len(), 1);
    let btc = &specs[0];
    assert_eq!(btc.exchange, Exchange::Aster);
    assert_eq!(btc.market_type, MarketType::Spot);
    assert_eq!(btc.price_scale, 2);
    assert_eq!(btc.qty_scale, 5);
}

#[test]
fn instruments_info_rejects_unparseable() {
    assert!(parse_exchange_info("nope", AsterCategory::Perp).is_err());
    assert!(parse_exchange_info("{}", AsterCategory::Perp).is_err());
}
