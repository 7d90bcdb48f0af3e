use std::io::Write;

use clusters::binance::futures_trade::BinanceFuturesTradeParser;
use clusters::bingx::bingx_trade::BingxTradeParser;
use clusters::bingx::bingx_ws::{self, BingxWs};
use clusters::bitget::bitget_trade::BitgetTradeParser;
use clusters::bybit::bybit_trade::BybitTradeParser;
use clusters::hyperliquid::hyperliquid_trade::HyperliquidTradeParser;
use clusters::hyperliquid::hyperliquid_ws::{self, HyperliquidWs};
use clusters::hyperliquid::native::NativeCoins;
use clusters::kucoin::{self, KucoinFrame};
use clusters::mexc::{self, MexcFrame};
use clusters::session::{
    deliver_read, handle_bitget_text, handle_payload, is_soft_close, next_step, process_binary,
    process_frame, route_by_ascii_upper, route_by_keys, route_by_native, route_by_upper, BingxFrame,
    Delivery, Incoming, IoFault, SendOutcome, SessionStats, Step, WsFault,
};
use clusters::traits::{ExchangeError, WsConnector};
use clusters::types::{AggressorSide, Exchange, MarketType, Quote, SymbolSpec};

fn spec(symbol: &str) -> SymbolSpec {
    SymbolSpec {
        exchange: Exchange::BinanceF,
        market_type: MarketType::Perp,
        quote: Quote::Usdt,
        symbol: symbol.into(),
        price_scale: 2,
        qty_scale: 3,
        tick_size: 10,
        step_size: 1,
    }
}

fn gzip(text: &str) -> Vec<u8> {
    let mut e = flate2::write::GzEncoder::new(Vec::new(), flate2::Compression::default());
    e.write_all(text.as_bytes()).unwrap();
    e.finish().unwrap()
}

#[test]
fn end_to_end_routes_trades_to_correct_sink() {
    let routing = route_by_ascii_upper(vec![spec("BTCUSDT"), spec("ethusdt")]);
    let mut stats = SessionStats::default();
    let raw = br#"{"stream":"x","data":{"e":"aggTrade","s":"ETHUSDT","a":1,"p":"3500.00","q":"2.000","T":7,"m":true}}"#;
    match handle_payload(&BinanceFuturesTradeParser, &routing, raw, &mut stats) {
        Delivery::Trades { route, trades } => {
            assert_eq!(route, 1);
            assert_eq!(trades.len(), 1);
            assert_eq!(trades[0].price, 350_000);
            assert_eq!(trades[0].qty, 2_000);
            assert_eq!(trades[0].aggressor, AggressorSide::Ask);
        }
        _ => panic!("expected trades"),
    }
    assert_eq!(stats, SessionStats::default());
}

#[test]
fn frames_are_counted_by_what_they_come_to() {
    let routing = route_by_ascii_upper(vec![spec("BTCUSDT")]);
    let p = BinanceFuturesTradeParser;
    let mut stats = SessionStats::default();
    assert!(matches!(handle_payload(&p, &routing, b"nope", &mut stats), Delivery::Undecodable));
    assert!(matches!(
        handle_payload(&p, &routing, br#"{"result":null,"id":1}"#, &mut stats),
        Delivery::Ignored
    ));
    assert!(matches!(
        handle_payload(&p, &routing, br#"{"e":"aggTrade","s":"XRPUSDT"}"#, &mut stats),
        Delivery::Ignored
    ));
    match handle_payload(&p, &routing, br#"{"e":"aggTrade","s":"btcusdt","a":1}"#, &mut stats) {
        Delivery::Unparsed(e) => assert_eq!(e.message(), "parse error: aggTrade: missing 'T'"),
        _ => panic!("expected a refusal"),
    }
    assert_eq!(stats.frames_undecodable, 1);
    assert_eq!(stats.parse_errors, 1);
    stats.record_send(SendOutcome::Sent);
    stats.record_send(SendOutcome::Full);
    stats.record_send(SendOutcome::Closed);
    stats.record_pong();
    assert!(stats.room());
    assert_eq!(
        (
            stats.trades_emitted,
            stats.trades_dropped_backpressure,
            stats.trades_dropped_closed,
            stats.pongs_sent
        ),
        (1, 1, 1, 1)
    );
}

#[test]
fn negative_trade_ids_keep_their_bits() {
    let routing = route_by_ascii_upper(vec![spec("BTCUSDT")]);
    let mut stats = SessionStats::default();
    let raw = br#"{"e":"aggTrade","s":"BTCUSDT","a":-1,"p":"1","q":"1","T":1,"m":false}"#;
    match handle_payload(&BinanceFuturesTradeParser, &routing, raw, &mut stats) {
        Delivery::Trades { trades, .. } => assert_eq!(trades[0].trade_id, u64::MAX),
        _ => panic!("expected trades"),
    }
}

#[test]
fn the_later_of_two_routes_counts() {
    let routing = route_by_ascii_upper(vec![spec("BTCUSDT"), spec("btcusdt"), spec("ETHUSDT")]);
    assert_eq!(routing.find("BTCUSDT"), Some(1));
    assert_eq!(routing.find("btcusdt"), None);
    assert_eq!(routing.distinct_keys(), vec!["BTCUSDT", "ETHUSDT"]);
}

#[test]
fn bybit_frames_hold_many_trades() {
    let routing = route_by_ascii_upper(vec![spec("BTCUSDT")]);
    let mut stats = SessionStats::default();
    let raw = br#"{"topic":"publicTrade.BTCUSDT","data":[{"T":1,"S":"Buy","v":"1","p":"2","i":"x"},{"T":2,"S":"Sell","v":"3","p":"4","i":"9"}]}"#;
    match handle_payload(&BybitTradeParser, &routing, raw, &mut stats) {
        Delivery::Trades { route, trades } => {
            assert_eq!(route, 0);
            assert_eq!(trades.len(), 2);
            assert_eq!(trades[0].trade_id, 0);
            assert_eq!(trades[1].trade_id, 9);
        }
        _ => panic!("expected trades"),
    }
}

#[test]
fn bitget_answers_pings_with_a_bare_text() {
    let routing = route_by_ascii_upper(vec![spec("BTCUSDT")]);
    let mut stats = SessionStats::default();
    let d = handle_bitget_text(&BitgetTradeParser, &routing, "pong", &mut stats);
    assert!(matches!(d, Delivery::Ignored));
    assert_eq!(stats, SessionStats::default());
    let text = r#"{"arg":{"channel":"trade","instId":"btcusdt"},"data":[{"ts":5,"price":"1","size":"1","side":"BUY"}]}"#;
    match handle_bitget_text(&BitgetTradeParser, &routing, text, &mut stats) {
        Delivery::Trades { trades, .. } => {
            assert_eq!(trades[0].exchange_ts_ns, 5_000_000);
            assert_eq!(trades[0].aggressor, AggressorSide::Bid);
        }
        _ => panic!("expected trades"),
    }
}

#[test]
fn bingx_frames_are_inflated_first() {
    let routing = route_by_upper(vec![spec("BTCUSDT")]);
    let p = BingxTradeParser;
    let mut stats = SessionStats::default();
    let text = r#"  {"dataType":"BTC-USDT@trade","data":[{"p":"1.5","q":"2","T":1,"m":false}]}"#;
    match process_binary(&p, &routing, &gzip(text), &mut stats) {
        BingxFrame::Data(Delivery::Trades { route, trades }) => {
            assert_eq!(route, 0);
            assert_eq!(trades[0].price, 150);
        }
        _ => panic!("expected trades"),
    }
    assert!(matches!(
        process_binary(&p, &routing, text.as_bytes(), &mut stats),
        BingxFrame::Data(Delivery::Undecodable)
    ));
    assert!(matches!(
        process_frame(&p, &routing, "{", &mut stats),
        BingxFrame::Data(Delivery::Undecodable)
    ));
    assert_eq!(stats.frames_undecodable, 2);
}

#[test]
fn bingx_heartbeats_are_answered() {
    let routing = route_by_upper(vec![spec("BTCUSDT")]);
    let p = BingxTradeParser;
    let mut stats = SessionStats::default();
    match process_frame(&p, &routing, r#"{"ping":"u1","time":"t1"}"#, &mut stats) {
        BingxFrame::Pong(t) => assert_eq!(t, r#"{"pong":"u1","time":"t1"}"#),
        _ => panic!("expected a pong"),
    }
    match process_binary(&p, &routing, &gzip(r#"{"ping":"u2"}"#), &mut stats) {
        BingxFrame::Pong(t) => assert_eq!(t, r#"{"pong":"u2"}"#),
        _ => panic!("expected a pong"),
    }
    assert_eq!(stats, SessionStats::default());
}

#[test]
fn unusable_deals_are_an_error() {
    let routing = route_by_upper(vec![spec("BTCUSDT")]);
    let mut stats = SessionStats::default();
    match process_frame(
        &BingxTradeParser,
        &routing,
        r#"{"dataType":"BTC-USDT@trade","data":{}}"#,
        &mut stats,
    ) {
        BingxFrame::Data(Delivery::Unparsed(e)) => {
            assert_eq!(e.message(), "parse error: bingx: no usable deals")
        }
        _ => panic!("expected a refusal"),
    }
    assert_eq!(stats.parse_errors, 1);
}

#[test]
fn hyperliquid_routes_by_coin() {
    let mut natives = NativeCoins::new();
    natives.set_native("KPEPEUSDC", "kPEPE");
    natives.set_native("KPEPEUSDC", "kPEPE");
    let routing = route_by_native(vec![spec("BTCUSDC"), spec("KPEPEUSDC")], &natives);
    assert_eq!(routing.keys, vec!["BTC", "kPEPE"]);
    let mut stats = SessionStats::default();
    let raw = br#"{"channel":"trades","data":[{"coin":"kPEPE","side":"S","px":"1","sz":"1"}]}"#;
    match handle_payload(&HyperliquidTradeParser, &routing, raw, &mut stats) {
        Delivery::Trades { route, trades } => {
            assert_eq!(route, 1);
            assert_eq!(trades[0].aggressor, AggressorSide::Ask);
        }
        _ => panic!("expected trades"),
    }
    let bad = br#"{"channel":"trades","data":[{"coin":"BTC","side":"?"}]}"#;
    match handle_payload(&HyperliquidTradeParser, &routing, bad, &mut stats) {
        Delivery::Unparsed(e) => {
            assert_eq!(e.message(), "parse error: hyperliquid: no usable deals")
        }
        _ => panic!("expected a refusal"),
    }
}

#[test]
fn messages_that_subscribe_to_one_symbol() {
    assert_eq!(
        bingx_ws::subscribe_message("BTC-USDT"),
        r#"{"id":"tr","reqType":"sub","dataType":"BTC-USDT@trade"}"#
    );
    assert_eq!(
        hyperliquid_ws::subscribe_message("BTC"),
        r#"{"method":"subscribe","subscription":{"coin":"BTC","type":"trades"}}"#
    );
    assert_eq!(BingxWs::perp().venue_symbol("BTCUSDT"), "BTC-USDT");
    assert_eq!(BingxWs::spot().try_venue_symbol("ETHUSDC").as_deref(), Some("ETH-USDC"));
    assert_eq!(BingxWs::perp().ws_url(), "wss://open-api-swap.bingx.com/swap-market");
    assert_eq!(BingxWs::spot().ws_url(), "wss://open-api-ws.bingx.com/market");
    assert!(BingxWs::perp().is_futures());
    assert_eq!(HyperliquidWs::new().ws_url(), "wss://api.hyperliquid.xyz/ws");
    assert_eq!(HyperliquidWs::new().native_coin(&NativeCoins::new(), "BTCUSDC"), "BTC");
}

#[test]
fn a_peer_that_hangs_up_is_no_failure() {
    assert!(is_soft_close(WsFault::ConnectionClosed));
    assert!(is_soft_close(WsFault::AlreadyClosed));
    assert!(is_soft_close(WsFault::Io(IoFault::ConnectionReset)));
    assert!(is_soft_close(WsFault::Io(IoFault::BrokenPipe)));
    assert!(!is_soft_close(WsFault::Io(IoFault::Other)));
    assert!(!is_soft_close(WsFault::Other));
    assert_eq!(next_step(Incoming::Text), Step::Handle);
    assert_eq!(next_step(Incoming::Binary), Step::Handle);
    assert_eq!(next_step(Incoming::Ping), Step::AnswerPing);
    assert_eq!(next_step(Incoming::Pong), Step::Wait);
    assert_eq!(next_step(Incoming::Close), Step::Stop);
    assert_eq!(next_step(Incoming::End), Step::Stop);
    assert_eq!(next_step(Incoming::Fault(WsFault::AlreadyClosed)), Step::Stop);
    assert_eq!(next_step(Incoming::Fault(WsFault::Other)), Step::Fail);
}

#[test]
fn frames_of_other_adapters_are_delivered_in_two_steps() {
    let routing = route_by_keys(
        vec![spec("BTCUSDT"), spec("ETHUSDT")],
        vec!["BTC-USDT".to_string(), "ETH-USDT".to_string()],
    );
    assert_eq!(routing.route_of(Some("ETH-USDT")), Some(1));
    assert_eq!(routing.route_of(Some("ETHUSDT")), None);
    assert_eq!(routing.route_of(None), None);
    let mut stats = SessionStats::default();
    assert!(matches!(
        deliver_read(1, Ok(Vec::new()), &mut stats),
        Delivery::Trades { route: 1, .. }
    ));
    assert_eq!(stats.parse_errors, 0);
    let refused = deliver_read(0, Err(ExchangeError::Parse("x".into())), &mut stats);
    assert!(matches!(refused, Delivery::Unparsed(_)));
    assert_eq!(stats.parse_errors, 1);
}

#[test]
fn frames_are_opened_before_their_symbol_is_looked_at() {
    assert!(matches!(kucoin::open_frame(b"x"), KucoinFrame::Undecodable));
    assert!(matches!(kucoin::open_frame(b"{\"type\":\"error\"}"), KucoinFrame::Error(_)));
    assert!(matches!(kucoin::open_frame(b"{\"type\":\"pong\"}"), KucoinFrame::Document(_)));
    assert!(matches!(mexc::open_frame(false, true, b"{}"), MexcFrame::NoData));
    assert!(matches!(mexc::open_frame(true, false, b"{}"), MexcFrame::NoData));
    assert!(matches!(mexc::open_frame(false, false, b"\x01"), MexcFrame::Spot));
    assert!(matches!(mexc::open_frame(true, true, b"{"), MexcFrame::Undecodable));
    assert!(matches!(mexc::open_frame(true, true, b"{}"), MexcFrame::Futures(_)));
}
