use trendbot::error::BotError;
use trendbot::frame::{decode_frame, prepend_header};
use trendbot::handshake::{construct_message, create_message, handshake_messages, symbol_id_of};
use trendbot::quote::Quote;
use trendbot::quote_stream::{extract_json, get_price, ping_reply, QuoteLoop, Step};
use trendbot::session::{generate_session, session_id_from};

#[test]
fn header_counts_bytes() {
    assert_eq!(prepend_header("abc"), "~m~3~m~abc");
    assert_eq!(prepend_header(""), "~m~0~m~");
    assert_eq!(prepend_header("é€"), "~m~5~m~é€");
    let long = "x".repeat(1234);
    assert_eq!(prepend_header(&long), format!("~m~1234~m~{}", long));
}

#[test]
fn frame_round_trip() {
    for p in ["", "{\"m\":\"q\"}", "a~m~b", "ünï"] {
        assert_eq!(decode_frame(&prepend_header(p)), Some(p.to_string()));
    }
}

#[test]
fn malformed_frames_are_refused() {
    assert_eq!(decode_frame("~m~4~m~abc"), None);
    assert_eq!(decode_frame("~m~~m~"), None);
    assert_eq!(decode_frame("~x~1~m~a"), None);
    assert_eq!(decode_frame("~m~1~x~a"), None);
    assert_eq!(decode_frame("~m~99999999999999999999999~m~a"), None);
    assert_eq!(decode_frame("~m~"), None);
}

#[test]
fn quote_text_is_found() {
    let text = "{\"m\":\"q\",\"p\":[\"qs_abc\", {\"n\":\"BTCUSDT:CRYPTO\",\"v\":{\"lp\":34200.0,\"ch\":-0.0005,\"chp\":-0.0015,\"volume\":0.0}}]}";
    assert_eq!(get_price(text), Step::Quote(text.to_string()));
    let q = Quote::from_fields(
        Some("BTCUSDT:CRYPTO".to_string()),
        Some((Some(3_420_000_000_000), Some(0), Some(-50_000), Some(-150_000))),
    )
    .unwrap();
    assert_eq!(q.symbol, "BTCUSDT:CRYPTO");
    assert_eq!(q.price, 3_420_000_000_000);
    assert_eq!(q.change, -50_000);
    assert_eq!(q.change_percent, -150_000);
    assert_eq!(q.volume, 0);
}

#[test]
fn quote_fields_default_to_zero() {
    let q = Quote::from_fields(Some("X".to_string()), Some((None, Some(7), None, None))).unwrap();
    assert_eq!((q.price, q.volume, q.change, q.change_percent), (0, 7, 0, 0));
    assert_eq!(
        Quote::from_fields(None, Some((Some(1), None, None, None))),
        Err(BotError::ProtocolMismatch)
    );
}

#[test]
fn envelope_without_values_is_dropped() {
    assert_eq!(Quote::from_fields(Some("A:B".to_string()), None), Err(BotError::ProtocolMismatch));
    assert_eq!(Quote::from_fields(None, None), Err(BotError::ProtocolMismatch));
}

#[test]
fn multiplexed_frames_give_the_last_object() {
    let inner = "{\"m\":\"qsd\",\"p\":[1]}";
    let chunk = format!("{}{}", prepend_header("~h~5"), prepend_header(inner));
    assert_eq!(extract_json(&chunk), Some(inner.to_string()));
    assert_eq!(extract_json("~m~3~m~abc"), None);
    assert_eq!(extract_json("{ no close"), None);
    assert_eq!(extract_json("no open }"), None);
}

#[test]
fn keepalive_is_echoed() {
    assert_eq!(get_price("~m~4~m~~h~1"), Step::Reply("~m~4~m~~h~1".to_string()));
    assert_eq!(ping_reply("~m~5~m~~h~12"), Some("~m~5~m~~h~12".to_string()));
    assert_eq!(get_price("~m~0~m~"), Step::Skip);
    assert_eq!(ping_reply("1234567"), None);
}

#[test]
fn completion_terminates_the_loop() {
    let mut l = QuoteLoop::new();
    assert!(!l.is_terminated());
    assert_eq!(l.feed("~m~4~m~~h~1"), Step::Reply("~m~4~m~~h~1".to_string()));
    assert!(!l.is_terminated());
    assert_eq!(l.feed("~m~40~m~{\"m\":\"quote_completed\",\"p\":[\"qs\"]}"), Step::Stop);
    assert!(l.is_terminated());
    assert_eq!(l.feed("{\"m\":\"q\"}"), Step::Stop);
    assert_eq!(l.feed("~m~4~m~~h~2"), Step::Stop);
    assert!(l.is_terminated());
}

#[test]
fn session_id_text_ends_the_loop() {
    let mut l = QuoteLoop::new();
    assert_eq!(l.feed("~m~20~m~{\"session_id\":\"x\"}"), Step::Stop);
    assert!(l.is_terminated());
}

#[test]
fn session_ids_have_their_shape() {
    for _ in 0..50 {
        let s = generate_session();
        assert_eq!(s.len(), 15);
        assert!(s.starts_with("qs_"));
        assert!(s[3..].chars().all(|c| c.is_ascii_lowercase()));
    }
    assert_eq!(session_id_from(&[0, 1, 2, 25, 24, 23, 0, 0, 0, 12, 13, 14]), "qs_abczyxaaamno");
}

#[test]
fn handshake_is_three_ordered_frames() {
    let m = handshake_messages("qs_abcdefghijkl", "BINANCE:BTCUSDT");
    let a = "{\"m\":\"quote_create_session\",\"p\":[\"qs_abcdefghijkl\"]}";
    let b = "{\"m\":\"quote_set_fields\",\"p\":[\"qs_abcdefghijkl\",\"lp\",\"volume\",\"ch\",\"chp\"]}";
    let c = "{\"m\":\"quote_add_symbols\",\"p\":[\"qs_abcdefghijkl\",\"BINANCE:BTCUSDT\"]}";
    assert_eq!(m, vec![
        format!("~m~{}~m~{}", a.len(), a),
        format!("~m~{}~m~{}", b.len(), b),
        format!("~m~{}~m~{}", c.len(), c),
    ]);
}

#[test]
fn arguments_are_json_escaped() {
    let args = vec!["a\"b".to_string(), "c\\d".to_string()];
    assert_eq!(construct_message("f", &args), "{\"m\":\"f\",\"p\":[\"a\\\"b\",\"c\\\\d\"]}");
    assert_eq!(construct_message("f", &vec![]), "{\"m\":\"f\",\"p\":[]}");
    let controls = vec!["\u{8}\t\n\u{c}\r\u{1}\u{1f} é/".to_string()];
    assert_eq!(
        construct_message("g", &controls),
        "{\"m\":\"g\",\"p\":[\"\\b\\t\\n\\f\\r\\u0001\\u001f é/\"]}"
    );
    assert_eq!(create_message("f", &vec![]), "~m~16~m~{\"m\":\"f\",\"p\":[]}");
}

#[test]
fn symbol_id_is_upper_cased() {
    assert_eq!(symbol_id_of(Some("btcusdt"), Some("binance"), Some("x")), Ok("BINANCE:BTCUSDT".to_string()));
    assert_eq!(symbol_id_of(Some("eurusd"), None, Some("fx_idc")), Ok("FX_IDC:EURUSD".to_string()));
    assert_eq!(symbol_id_of(None, Some("a"), None), Err(BotError::SymbolResolutionFailure));
    assert_eq!(symbol_id_of(Some("a"), None, None), Err(BotError::SymbolResolutionFailure));
}
