use clusters::bingx::instruments_info::{parse_spot, parse_swap};
use clusters::types::Exchange;

const SWAP: &str = r#"{"code":0,"msg":"","data":[
  {"symbol":"BTC-USDT","pricePrecision":1,"quantityPrecision":4,"size":"0.0001","status":1},
  {"symbol":"ETH-USDC","pricePrecision":2,"quantityPrecision":3,"size":"0.001","status":1},
  {"symbol":"OFF-USDT","pricePrecision":2,"quantityPrecision":2,"size":"0.01","status":0},
  {"symbol":"FOO-BUSD","pricePrecision":2,"quantityPrecision":2,"size":"0.01","status":1}
]}"#;

const SPOT: &str = r#"{"code":0,"msg":"","data":{"symbols":[
  {"symbol":"BTC-USDT","tickSize":0.01,"stepSize":0.000001,"status":1},
  {"symbol":"RIVER-USDT","tickSize":0.05,"stepSize":0.01,"status":1},
  {"symbol":"OFF-USDT","tickSize":0.01,"stepSize":0.01,"status":0}
]}}"#;

#[test]
fn parses_swap_no_contract_mult() {
    let s = parse_swap(SWAP).unwrap();
    assert_eq!(s.len(), 2); // OFF offline + BUSD quote excluded
    let btc = s.iter().find(|x| x.symbol == "BTCUSDT").unwrap();
    assert_eq!(btc.exchange, Exchange::BingxF);
    assert_eq!(btc.price_scale, 1);
    assert_eq!(btc.qty_scale, 4);
    assert_eq!(btc.tick_size, 1);
    assert_eq!(btc.step_size, 1); // 0.0001 at scale 4
}

#[test]
fn parses_spot_tick_step() {
    let s = parse_spot(SPOT).unwrap();
    assert_eq!(s.len(), 2);
    let river = s.iter().find(|x| x.symbol == "RIVERUSDT").unwrap();
    assert_eq!(river.exchange, Exchange::Bingx);
    assert_eq!(river.price_scale, 2);
    assert_eq!(river.tick_size, 5); // 0.05 at scale 2
    assert_eq!(river.qty_scale, 2);
    assert_eq!(river.step_size, 1); // 0.01 at scale 2
}
