use jctl2gray::chunked::ChunkSize;
use jctl2gray::cli::{validate_name, validate_port, validate_ttl};
use jctl2gray::config::{parse_log_source, LogSource};
use jctl2gray::text::{decimal_string, parse_unsigned, trim_quotes_str};
use jctl2gray::wire::timestamp_string;
use jctl2gray::{Error, LevelMsg, LevelSystem, Message, MessageCompression, OptFieldsIterator, WireMessage};

#[test]
fn system_levels_map_to_codes_and_back() {
    for n in 0u8..8 {
        assert_eq!(LevelSystem::from_num(n).to_num(), n);
    }
    assert_eq!(LevelSystem::from_num(3), LevelSystem::Error);
    assert_eq!(LevelSystem::from_num(200), LevelSystem::Debug);
    assert_eq!(LevelSystem::Informational.name(), "info");
    assert!(LevelSystem::Debug.less_severe_than(&LevelSystem::Warning));
    assert!(!LevelSystem::Error.less_severe_than(&LevelSystem::Warning));
}

#[test]
fn message_levels_from_names() {
    assert_eq!(LevelMsg::from_name("fatal"), LevelMsg::Fatal);
    assert_eq!(LevelMsg::from_name("error"), LevelMsg::Error);
    assert_eq!(LevelMsg::from_name("ERROR"), LevelMsg::Debug);
    assert_eq!(LevelMsg::from_name("Warning"), LevelMsg::Debug);
    assert_eq!(LevelMsg::from_name("nonsense"), LevelMsg::Debug);
    assert_eq!(LevelMsg::Panic.rank(), 1);
    assert_eq!(LevelMsg::Info.name(), "info");
}

#[test]
fn log_sources_from_names() {
    assert_eq!(parse_log_source("stdin"), Some(LogSource::Stdin));
    assert_eq!(parse_log_source("journal"), Some(LogSource::Journalctl));
    assert_eq!(parse_log_source("file"), None);
}

#[test]
fn compression_names() {
    assert_eq!(MessageCompression::from_name("gzip"), MessageCompression::Gzip);
    assert_eq!(MessageCompression::from_name("zlib"), MessageCompression::Zlib);
    assert_eq!(MessageCompression::from_name("none"), MessageCompression::Uncompressed);
    assert_eq!(MessageCompression::default(), MessageCompression::Gzip);
    assert_eq!(MessageCompression::Zlib.name(), "zlib");
}

#[test]
fn new_message_defaults_to_alert() {
    let m = Message::new("h".to_string(), "s".to_string());
    assert_eq!(m.level(), LevelSystem::Alert);
    assert_eq!(m.timestamp(), None);
    assert!(m.full_message().is_none());
    assert!(m.all_metadata().is_empty());
}

#[test]
fn reserved_metadata_key_is_refused() {
    let mut m = Message::new("h".to_string(), "s".to_string());
    assert!(m.set_metadata("a".to_string(), serde_json::Value::from(1)));
    assert!(!m.set_metadata("id".to_string(), serde_json::Value::from(2)));
    assert!(!m.set_metadata("id".to_string(), serde_json::Value::from(3)));
    assert_eq!(m.all_metadata().len(), 1);
    assert!(m.metadata("id").is_none());
    assert!(m.set_metadata("a".to_string(), serde_json::Value::from(4)));
    assert_eq!(m.all_metadata().len(), 1);
    assert_eq!(m.metadata("a"), Some(&serde_json::Value::from(4)));
}

#[test]
fn setters_and_clearers() {
    let mut m = Message::new("h".to_string(), "s".to_string());
    m.set_short_message("t".to_string());
    m.set_full_message("long".to_string());
    m.set_timestamp(7);
    m.set_level(LevelSystem::Notice);
    assert_eq!(m.short_message(), "t");
    assert_eq!(m.full_message().as_deref(), Some("long"));
    assert_eq!(m.timestamp(), Some(7));
    assert_eq!(m.level(), LevelSystem::Notice);
    m.clear_full_message();
    m.clear_timestamp();
    assert!(m.full_message().is_none());
    assert_eq!(m.timestamp(), None);
}

#[test]
fn document_has_exact_text() {
    let mut m = Message::new("\"h1 \"".to_string(), " hi".to_string());
    m.set_level(LevelSystem::Error);
    m.set_timestamp(1500000000123456);
    m.set_metadata("k".to_string(), serde_json::Value::from(5));
    let w = WireMessage::new(m, Some("ops".to_string()), None);
    assert_eq!(
        w.to_gelf_at(0),
        "{\"version\":\"1.1\",\"host\":\"h1\",\"short_message\":\"hi\",\"level\":3,\"timestamp\":1500000000.123456,\"team\":\"ops\",\"_k\":5}"
    );
}

#[test]
fn document_without_timestamp_uses_now() {
    let m = Message::new("h".to_string(), "s".to_string());
    let w = WireMessage::new(m, None, Some("svc".to_string()));
    assert_eq!(
        w.to_gelf_at(2000001),
        "{\"version\":\"1.1\",\"host\":\"h\",\"short_message\":\"s\",\"level\":1,\"timestamp\":2.000001,\"service\":\"svc\"}"
    );
    let doc: serde_json::Value = serde_json::from_str(&w.to_gelf()).unwrap();
    assert!(doc["timestamp"].as_f64().unwrap() > 1.0e9);
}

#[test]
fn document_round_trips_through_json() {
    let mut m = Message::new("web-1".to_string(), "a \"quoted\" text".to_string());
    m.set_level(LevelSystem::Warning);
    m.set_full_message("full".to_string());
    m.set_metadata("user".to_string(), serde_json::Value::from("bob"));
    m.set_metadata("n".to_string(), serde_json::Value::from(vec![1, 2]));
    let w = WireMessage::new(m, None, None);
    let doc: serde_json::Value = serde_json::from_str(&w.to_gelf()).unwrap();
    assert_eq!(doc["version"], "1.1");
    assert_eq!(doc["host"], "web-1");
    assert_eq!(doc["short_message"], "a \"quoted\" text");
    assert_eq!(doc["level"], 4);
    assert_eq!(doc["full_message"], "full");
    assert_eq!(doc["_user"], "bob");
    assert_eq!(doc["_n"], serde_json::Value::from(vec![1, 2]));
    assert_eq!(doc.as_object().unwrap().len(), 8);
}

#[test]
fn optional_fields_walk_in_order() {
    let v = vec![("team".to_string(), "a".to_string()), ("service".to_string(), "b".to_string())];
    let mut it = OptFieldsIterator::new(&v);
    assert_eq!(it.next(), Some(("team".to_string(), "a".to_string())));
    assert_eq!(it.next(), Some(("service".to_string(), "b".to_string())));
    assert_eq!(it.next(), None);
    assert_eq!(it.next(), None);
}

#[test]
fn chunk_sizes() {
    assert_eq!(ChunkSize::Wan.size(), 1420);
    assert_eq!(ChunkSize::Lan.size(), 8154);
}

#[test]
fn numbers_in_text() {
    assert_eq!(parse_unsigned("42", 255), Some(42));
    assert_eq!(parse_unsigned("+7", 255), Some(7));
    assert_eq!(parse_unsigned("256", 255), None);
    assert_eq!(parse_unsigned("", 255), None);
    assert_eq!(parse_unsigned("+", 255), None);
    assert_eq!(parse_unsigned("1a", 255), None);
    assert_eq!(parse_unsigned("18446744073709551615", u64::MAX), Some(u64::MAX));
    assert_eq!(parse_unsigned("18446744073709551616", u64::MAX), None);
    assert_eq!(decimal_string(0), "0");
    assert_eq!(decimal_string(1420), "1420");
    assert_eq!(timestamp_string(5), "0.000005");
    assert_eq!(trim_quotes_str("\" a b \""), "a b");
    assert_eq!(trim_quotes_str("\"\" "), "");
}

#[test]
fn command_line_checks() {
    assert!(validate_name("team".to_string()).is_ok());
    assert_eq!(validate_name("x".repeat(2049)), Err("Provided name is too long".to_string()));
    assert!(validate_name("x".repeat(2048)).is_ok());
    assert!(validate_port("5000".to_string()).is_ok());
    assert_eq!(validate_port("70000".to_string()), Err("Bad port provided".to_string()));
    assert!(validate_ttl("60".to_string()).is_ok());
    assert_eq!(validate_ttl("-1".to_string()), Err("Bad TTL value provided".to_string()));
}

#[test]
fn error_texts() {
    assert_eq!(Error::NoMessage.description(), "no message found");
    assert_eq!(Error::InsufficientLogLevel.to_text(), "insufficient log level");
    assert_eq!(Error::IOError("disk".to_string()).to_text(), "[IO] disk");
    assert_eq!(Error::SerdeParsing("bad".to_string()).to_text(), "[JSON parsing] bad");
    assert_eq!(Error::InternalError("x".to_string()).description(), "x");
}

#[test]
fn system_levels_from_names() {
    assert_eq!(LevelSystem::from_name("informational"), Some(LevelSystem::Informational));
    assert_eq!(LevelSystem::from_name("emergency"), Some(LevelSystem::Emergency));
    assert_eq!(LevelSystem::from_name("info"), None);
}
