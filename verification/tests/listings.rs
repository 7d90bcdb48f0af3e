use clusters::aster::instruments_info::{
    parse_24h_quote_volumes as aster_volumes, AsterCategory, AsterInstrumentsInfo,
};
use clusters::binance::futures_info::{self, BinanceFuturesInfo};
use clusters::binance::spot_info::{self, BinanceSpotInfo};
use clusters::bingx::instruments_info::{BingxCategory, BingxInstrumentsInfo};
use clusters::bitget::instruments_info::{
    parse_instruments, BitgetCategory, BitgetInstrumentsInfo,
};
use clusters::bybit::instruments_info::{
    parse_24h_turnover, parse_instruments_info, BybitCategory, BybitInstrumentsInfo,
};
use clusters::hyperliquid::instruments_info::{parse_meta, HL_INFO_URL};
use clusters::hyperliquid::native::NativeCoins;

const BAD_TICK: &str = r#"{"symbols":[{"symbol":"XUSDT","contractType":"PERPETUAL","status":"TRADING",
 "quoteAsset":"USDT","filters":[{"filterType":"PRICE_FILTER","tickSize":"abc"},
 {"filterType":"LOT_SIZE","stepSize":"0.001"}]}]}"#;

#[test]
fn a_bad_tick_is_skipped() {
    assert!(futures_info::parse_exchange_info(BAD_TICK).unwrap().is_empty());
    assert!(spot_info::parse_exchange_info(BAD_TICK).unwrap().is_empty());
}

#[test]
fn rows_without_a_symbol_or_filters_are_refused() {
    let no_symbol = r#"{"symbols":[{"contractType":"PERPETUAL","status":"TRADING","quoteAsset":"USDT"}]}"#;
    assert_eq!(
        futures_info::parse_exchange_info(no_symbol).unwrap_err().message(),
        "parse error: symbol missing"
    );
    let no_filters = r#"{"symbols":[{"symbol":"X","status":"TRADING","quoteAsset":"USDC"}]}"#;
    assert_eq!(
        spot_info::parse_exchange_info(no_filters).unwrap_err().message(),
        "parse error: X: filters missing"
    );
    assert_eq!(
        spot_info::parse_exchange_info("{}").unwrap_err().message(),
        "parse error: missing 'symbols' array"
    );
}

#[test]
fn the_last_filter_of_a_kind_counts() {
    let two = r#"{"symbols":[{"symbol":"X","status":"TRADING","quoteAsset":"USDC","filters":[
      {"filterType":"PRICE_FILTER","tickSize":"0.1"},{"filterType":"PRICE_FILTER","tickSize":"0.25"},
      {"filterType":"PRICE_FILTER"},{"filterType":"LOT_SIZE","stepSize":"1"}]}]}"#;
    let s = spot_info::parse_exchange_info(two).unwrap();
    assert_eq!((s[0].price_scale, s[0].tick_size, s[0].qty_scale, s[0].step_size), (2, 25, 0, 1));
}

#[test]
fn errors_of_the_venues_are_reported() {
    assert_eq!(
        parse_instruments_info(r#"{"retMsg":"m"}"#, BybitCategory::Spot).unwrap_err().message(),
        "parse error: bybit retCode != 0: m"
    );
    assert_eq!(
        parse_instruments_info(r#"{"retCode":0}"#, BybitCategory::Spot).unwrap_err().message(),
        "parse error: missing result.list"
    );
    assert_eq!(
        parse_24h_turnover(r#"{"retCode":1}"#).unwrap_err().message(),
        "parse error: bybit tickers retCode != 0"
    );
    assert_eq!(
        parse_instruments("{}", BitgetCategory::Perp).unwrap_err().message(),
        "parse error: bitget code != 00000: ?"
    );
    assert_eq!(
        parse_instruments(r#"{"code":"00000"}"#, BitgetCategory::Perp).unwrap_err().message(),
        "parse error: missing data"
    );
    let mut natives = NativeCoins::new();
    assert_eq!(
        parse_meta("{}", &mut natives).unwrap_err().message(),
        "parse error: missing universe"
    );
}

#[test]
fn decimals_of_hyperliquid_sizes_wrap_at_256() {
    let mut natives = NativeCoins::new();
    let meta = r#"{"universe":[{"name":"A","szDecimals":260},{"name":"B","szDecimals":9}]}"#;
    let specs = parse_meta(meta, &mut natives).unwrap();
    assert_eq!((specs[0].qty_scale, specs[0].price_scale), (4, 2));
    assert_eq!((specs[1].qty_scale, specs[1].price_scale), (9, 0));
}

#[test]
fn aster_volumes_are_in_uppercase() {
    let v = aster_volumes(r#"[{"symbol":"btcusdt","quoteVolume":"1.5"},{"symbol":"X"}]"#).unwrap();
    assert_eq!(v, vec![("BTCUSDT".to_string(), "1.5".to_string())]);
}

#[test]
fn venues_have_their_addresses() {
    let f = BinanceFuturesInfo::new();
    assert_eq!(f.instruments_url(), "https://fapi.binance.com/fapi/v1/exchangeInfo");
    assert_eq!(f.tickers_url(), "https://fapi.binance.com/fapi/v1/ticker/24hr");
    let s = BinanceSpotInfo::with_base_url("http://h");
    assert_eq!(s.instruments_url(), "http://h/api/v3/exchangeInfo");
    assert_eq!(s.tickers_url(), "http://h/api/v3/ticker/24hr");
    let a = AsterInstrumentsInfo::new(AsterCategory::Spot);
    assert_eq!(a.instruments_url(), "https://sapi.asterdex.com/api/v1/exchangeInfo");
    let p = AsterInstrumentsInfo::new(AsterCategory::Perp);
    assert_eq!(p.tickers_url(), "https://fapi.asterdex.com/fapi/v1/ticker/24hr");
    let b = BybitInstrumentsInfo::new(BybitCategory::Linear);
    assert_eq!(
        b.instruments_url(),
        "https://api.bybit.com/v5/market/instruments-info?category=linear&limit=1000"
    );
    let b = BybitInstrumentsInfo::new(BybitCategory::Spot).with_base_url("http://h");
    assert_eq!(b.tickers_url(), "http://h/v5/market/tickers?category=spot");
    let g = BitgetInstrumentsInfo::new(BitgetCategory::Perp);
    assert_eq!(
        g.instruments_url(),
        "https://api.bitget.com/api/v2/mix/market/contracts?productType=USDT-FUTURES"
    );
    let g = BitgetInstrumentsInfo::new(BitgetCategory::Spot).with_base_url("http://h");
    assert_eq!(g.tickers_url(), "http://h/api/v2/spot/market/tickers");
    let x = BingxInstrumentsInfo::new(BingxCategory::Swap);
    assert_eq!(x.url(), "https://open-api.bingx.com/openApi/swap/v2/quote/contracts");
    assert!(BingxInstrumentsInfo::new(BingxCategory::Spot).parse("{}").is_err());
    assert_eq!(HL_INFO_URL, "https://api.hyperliquid.xyz/info");
}
