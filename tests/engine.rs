use trendbot::bot::Bot;
use trendbot::candlestick::{Candlestick, Trend};
use trendbot::error::BotError;
use trendbot::message::Message;
use trendbot::trade::{Direction, Trade};

fn units(x: f64) -> i64 {
    (x * 100_000_000.0).round() as i64
}

fn candle(open: f64, close: f64, high: f64, low: f64) -> Candlestick {
    Candlestick { open: units(open), close: units(close), high: units(high), low: units(low) }
}

#[test]
fn classify_follows_close_against_open() {
    assert_eq!(candle(10.0, 11.0, 12.0, 9.0).analyze_trend(), Trend::Up);
    assert_eq!(candle(10.0, 9.0, 12.0, 8.0).analyze_trend(), Trend::Down);
    assert_eq!(candle(10.0, 10.0, 12.0, 8.0).analyze_trend(), Trend::Unknown);
}

#[test]
fn tail_and_head_swap_under_flip() {
    let c = candle(10.0, 10.5, 11.0, 2.0);
    let flipped = Candlestick { open: c.high, close: c.low, high: c.open, low: c.close };
    assert!(c.has_long_tail());
    assert!(!c.has_long_head());
    assert_eq!(c.has_long_tail(), flipped.has_long_head());
    assert_eq!(c.has_long_head(), flipped.has_long_tail());
}

#[test]
fn wick_tie_gives_neither() {
    let c = candle(10.0, 11.0, 12.0, 9.0);
    assert!(!c.has_long_tail());
    assert!(!c.has_long_head());
}

#[test]
fn from_candles_reads_open_close_high_low() {
    let c = Candlestick::from_candles(&[1, 2, 3, 0, 99]).unwrap();
    assert_eq!(c, Candlestick { open: 1, close: 2, high: 3, low: 0 });
    assert_eq!(Candlestick::from_candles(&[1, 2, 3]), Err(BotError::MalformedUpdate));
    assert_eq!(Candlestick::from_candles(&[]), Err(BotError::MalformedUpdate));
}

#[test]
fn up_trend_with_long_tail_emits_one_call() {
    let mut bot = Bot::new();
    let c = candle(10.0, 10.5, 11.0, 2.0);
    let t = bot.handle_candle(&c);
    assert_eq!(bot.trend(), Trend::Up);
    assert_eq!(t, Some(Trade { direction: Direction::Call, price: units(10.5) }));
    assert_eq!(bot.trades().len(), 1);
    assert_eq!(bot.trades()[0], Trade::call(units(10.5)));
}

#[test]
fn down_trend_with_long_head_emits_one_put() {
    let mut bot = Bot::new();
    // A falling candle whose wicks tie: the trend turns down, no trade.
    assert_eq!(bot.handle_candle(&candle(8.0, 7.0, 9.0, 6.0)), None);
    assert_eq!(bot.trend(), Trend::Down);
    let c = candle(5.0, 6.0, 10.0, 4.9);
    let t = bot.execute_trades(&c);
    assert_eq!(t, Some(Trade::put(units(6.0))));
    assert_eq!(bot.trades(), &vec![Trade { direction: Direction::Put, price: units(6.0) }]);
}

#[test]
fn flat_candle_emits_nothing() {
    let mut bot = Bot::new();
    assert_eq!(bot.handle_candle(&candle(10.0, 10.0, 20.0, 1.0)), None);
    assert_eq!(bot.handle_candle(&candle(10.0, 10.0, 10.5, 0.0)), None);
    assert_eq!(bot.trend(), Trend::Unknown);
    assert!(bot.trades().is_empty());
}

#[test]
fn up_trend_without_long_tail_emits_nothing() {
    let mut bot = Bot::new();
    assert_eq!(bot.handle_candle(&candle(5.0, 6.0, 10.0, 4.9)), None);
    assert_eq!(bot.trend(), Trend::Up);
    assert!(bot.trades().is_empty());
}

#[test]
fn messages_drive_the_engine() {
    let mut bot = Bot::new();
    let msg = Message::from_action("candles", Some(vec![units(10.0), units(10.5), units(11.0), units(2.0)]))
        .unwrap();
    assert_eq!(bot.handle_message(&msg), Ok(Some(Trade::call(units(10.5)))));
    let other = Message::from_action("ping", None).unwrap();
    assert_eq!(other, Message::Unknown);
    assert_eq!(bot.handle_message(&other), Ok(None));
    let short = Message::from_action("candles", Some(vec![1, 2])).unwrap();
    assert_eq!(bot.handle_message(&short), Err(BotError::MalformedUpdate));
    assert_eq!(bot.trades().len(), 1);
    assert_eq!(bot.trend(), Trend::Up);
}

#[test]
fn candles_without_numbers_are_malformed() {
    assert_eq!(Message::from_action("candles", None), Err(BotError::MalformedUpdate));
    assert_eq!(Message::from_action("candles", Some(vec![4])), Ok(Message::Candles(vec![4])));
}

#[test]
fn trade_messages_are_exact() {
    assert_eq!(
        Trade::call(units(10.5)).to_json(),
        "{\"action\":\"trade\",\"direction\":\"call\",\"price\":10.5}"
    );
    assert_eq!(
        Trade::put(units(6.0)).to_json(),
        "{\"action\":\"trade\",\"direction\":\"put\",\"price\":6.0}"
    );
    assert_eq!(
        Trade::put(-50_000).to_json(),
        "{\"action\":\"trade\",\"direction\":\"put\",\"price\":-0.0005}"
    );
    assert_eq!(
        Trade::call(1).to_json(),
        "{\"action\":\"trade\",\"direction\":\"call\",\"price\":0.00000001}"
    );
    assert_eq!(
        Trade::call(i64::MIN).to_json(),
        "{\"action\":\"trade\",\"direction\":\"call\",\"price\":-92233720368.54775808}"
    );
}
