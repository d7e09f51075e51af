use std::io::Read;

use jctl2gray::chunked::{ChunkSize, ChunkedMessage};
use jctl2gray::config::{update_current, ConfigWatched};
use jctl2gray::ingest::Pipeline;
use jctl2gray::processing::{
    get_msg_log_level, is_metadata, is_platform_supported, msg_level_of_word, process_log_record,
    transform_record,
};
use jctl2gray::{Error, LevelMsg, LevelSystem, Message, MessageCompression, WireMessage};

fn watched(system: LevelSystem, message: Option<LevelMsg>, compression: MessageCompression) -> ConfigWatched {
    ConfigWatched {
        graylog_addr: "localhost:12201".to_string(),
        graylog_addr_ttl: 60,
        compression,
        team: None,
        service: None,
        log_level_system: system,
        log_level_message: message,
    }
}

const RECORD: &str = r#"{"MESSAGE":"level=error disk full","_HOSTNAME":"h1","PRIORITY":"3"}"#;

fn document(bytes: &[u8]) -> serde_json::Value {
    serde_json::from_slice(bytes).unwrap()
}

#[test]
fn record_more_severe_than_threshold_is_accepted() {
    let cfg = watched(LevelSystem::Warning, None, MessageCompression::Uncompressed);
    let doc = document(&transform_record(RECORD, &cfg).unwrap());
    assert_eq!(doc["level"], 3);
    assert_eq!(doc["host"], "h1");
    assert_eq!(doc["short_message"], "level=error disk full");
    assert!(doc.get("_PRIORITY").is_none());
}

#[test]
fn record_at_threshold_passes_and_below_is_dropped() {
    let at = watched(LevelSystem::Error, None, MessageCompression::Uncompressed);
    assert!(transform_record(RECORD, &at).is_ok());
    let above = watched(LevelSystem::Critical, None, MessageCompression::Uncompressed);
    assert!(matches!(transform_record(RECORD, &above), Err(Error::InsufficientLogLevel)));
}

#[test]
fn record_without_message_is_skipped() {
    let cfg = watched(LevelSystem::Debug, None, MessageCompression::Uncompressed);
    let line = r#"{"_HOSTNAME":"h1","PRIORITY":"3"}"#;
    assert!(matches!(transform_record(line, &cfg), Err(Error::NoMessage)));
    assert!(matches!(process_log_record(line, &cfg), Err(Error::NoMessage)));
}

#[test]
fn malformed_line_is_a_parsing_error() {
    let cfg = watched(LevelSystem::Debug, None, MessageCompression::Uncompressed);
    assert!(matches!(transform_record("{not json", &cfg), Err(Error::SerdeParsing(_))));
    assert!(matches!(transform_record("[1,2]", &cfg), Err(Error::SerdeParsing(_))));
}

#[test]
fn message_level_threshold_filters_text() {
    let warn = watched(LevelSystem::Debug, Some(LevelMsg::Warning), MessageCompression::Uncompressed);
    assert!(transform_record(RECORD, &warn).is_ok());
    let fatal = watched(LevelSystem::Debug, Some(LevelMsg::Fatal), MessageCompression::Uncompressed);
    assert!(matches!(transform_record(RECORD, &fatal), Err(Error::InsufficientLogLevel)));
    let plain = r#"{"MESSAGE":"no level here"}"#;
    assert!(transform_record(plain, &fatal).is_ok());
}

#[test]
fn message_level_is_read_from_text() {
    assert_eq!(get_msg_log_level("level=error disk full"), Some(LevelMsg::Error));
    assert_eq!(get_msg_log_level("x LEVEL=Info y level=fatal z"), Some(LevelMsg::Info));
    assert_eq!(get_msg_log_level("level=weird thing"), Some(LevelMsg::Debug));
    assert_eq!(get_msg_log_level("level=error"), None);
    assert_eq!(get_msg_log_level("nothing"), None);
    assert_eq!(get_msg_log_level("LEVEL=FATAL now"), Some(LevelMsg::Fatal));
    assert_eq!(msg_level_of_word("WaRnInG"), LevelMsg::Warning);
    assert_eq!(msg_level_of_word("warnings"), LevelMsg::Debug);
}

#[test]
fn fitting_document_is_chunked() {
    let mut m = Message::new("h".to_string(), "x".repeat(3000));
    m.set_timestamp(1);
    let w = WireMessage::new(m, None, None);
    let plain = w.to_gelf_at(0).into_bytes();
    let cm = w.to_chunked_message(ChunkSize::Wan, MessageCompression::Uncompressed).unwrap();
    assert_eq!(cm.len(), (plain.len() + 1407) / 1408);
    let joined: Vec<u8> = cm.chunks().iter().flat_map(|c| c[12..].to_vec()).collect();
    assert_eq!(joined, plain);
    let small = WireMessage::new(Message::new("h".to_string(), "s".to_string()), None, None);
    let one = small.to_chunked_message(ChunkSize::Wan, MessageCompression::Zlib).unwrap();
    assert_eq!(one.len(), 1);
}

#[test]
fn fields_become_metadata_unless_ignored() {
    let cfg = watched(LevelSystem::Debug, None, MessageCompression::Uncompressed);
    let line = r#"{"MESSAGE":"m","__CURSOR":"c","_PID":"42","id":"x","CODE":{"a":1},"__REALTIME_TIMESTAMP":"1500000000123456"}"#;
    let doc = document(&transform_record(line, &cfg).unwrap());
    assert_eq!(doc["__PID"], "42");
    assert_eq!(doc["_CODE"]["a"], 1);
    assert!(doc.get("___CURSOR").is_none());
    assert!(doc.get("_id").is_none());
    assert_eq!(doc["host"], "undefined");
    assert_eq!(doc["level"], 1);
    assert_eq!(doc["timestamp"].as_f64().unwrap(), 1500000000.123456);
    assert!(is_metadata("_PID"));
    assert!(!is_metadata("_BOOT_ID"));
    assert!(is_platform_supported("linux"));
    assert!(!is_platform_supported("windows"));
}

#[test]
fn compression_round_trips() {
    let mut m = Message::new("h".to_string(), "round trip".to_string());
    m.set_timestamp(1);
    let w = WireMessage::new(m, None, None);
    let plain = w.to_gelf_at(0).into_bytes();
    assert_eq!(w.to_compressed_gelf(MessageCompression::Uncompressed).unwrap(), plain);

    let gz = w.to_compressed_gelf(MessageCompression::Gzip).unwrap();
    let mut out = Vec::new();
    libflate::gzip::Decoder::new(&gz[..]).unwrap().read_to_end(&mut out).unwrap();
    assert_eq!(out, plain);

    let zl = w.to_compressed_gelf(MessageCompression::Zlib).unwrap();
    assert_ne!(zl, plain);
    let mut out = Vec::new();
    libflate::zlib::Decoder::new(&zl[..]).unwrap().read_to_end(&mut out).unwrap();
    assert_eq!(out, plain);
}

#[test]
fn chunks_reassemble_to_payload() {
    let payload: Vec<u8> = (0..5000u32).map(|i| (i % 251) as u8).collect();
    let m = ChunkedMessage::new_with_id(ChunkSize::Wan, &payload, [1, 2, 3, 4, 5, 6, 7, 8]).unwrap();
    assert_eq!(m.len(), 4);
    let mut joined = Vec::new();
    for (i, c) in m.chunks().iter().enumerate() {
        assert_eq!(&c[..2], &[0x1e, 0x0f]);
        assert_eq!(&c[2..10], &[1, 2, 3, 4, 5, 6, 7, 8]);
        assert_eq!(c[10], i as u8);
        assert_eq!(c[11], 4);
        assert!(c.len() <= 1420);
        joined.extend_from_slice(&c[12..]);
    }
    assert_eq!(joined, payload);
}

#[test]
fn small_payload_is_one_datagram() {
    let payload = b"{\"a\":1}".to_vec();
    let m = ChunkedMessage::new(ChunkSize::Wan, payload.clone()).unwrap();
    assert_eq!(m.len(), 1);
    assert_eq!(m.chunks()[0], payload);
    let empty = ChunkedMessage::new(ChunkSize::Lan, Vec::new()).unwrap();
    assert_eq!(empty.into_chunks(), vec![Vec::<u8>::new()]);
}

#[test]
fn chunk_limit_is_enforced() {
    let most = vec![7u8; 1408 * 128];
    let m = ChunkedMessage::new(ChunkSize::Wan, most).unwrap();
    assert_eq!(m.len(), 128);
    assert_eq!(m.id().len(), 8);
    let too_many = vec![7u8; 1408 * 128 + 1];
    assert!(ChunkedMessage::new(ChunkSize::Wan, too_many).is_none());
}

#[test]
fn oversized_record_cannot_be_chunked() {
    let cfg = watched(LevelSystem::Debug, None, MessageCompression::Uncompressed);
    let line = format!("{{\"MESSAGE\":\"{}\"}}", "x".repeat(200_000));
    match process_log_record(&line, &cfg) {
        Err(Error::InternalError(t)) => assert_eq!(t, "failed to split message on 1420-bytes chunks"),
        _ => panic!("expected a chunking failure"),
    }
    let w = WireMessage::new(Message::new("h".to_string(), "x".repeat(200_000)), None, None);
    assert!(matches!(
        w.to_chunked_message(ChunkSize::Wan, MessageCompression::Uncompressed),
        Err(Error::InternalError(_))
    ));
    assert!(w.to_chunked_message(ChunkSize::Wan, MessageCompression::Gzip).is_ok());
}

#[test]
fn record_becomes_datagrams() {
    let cfg = watched(LevelSystem::Warning, None, MessageCompression::Uncompressed);
    let ds = process_log_record(RECORD, &cfg).unwrap();
    assert_eq!(ds.len(), 1);
    assert_eq!(document(&ds[0])["level"], 3);
}

#[test]
fn config_update_reports_changed_fields() {
    let mut cur = watched(LevelSystem::Warning, None, MessageCompression::Uncompressed);
    let mut new = watched(LevelSystem::Error, Some(LevelMsg::Info), MessageCompression::Uncompressed);
    new.team = Some("ops".to_string());
    let names = update_current(&mut cur, new);
    assert_eq!(names, vec!["team".to_string(), "log_level_system".to_string(), "log_level_message".to_string()]);
    assert_eq!(cur.team.as_deref(), Some("ops"));
    assert_eq!(cur.log_level_system, LevelSystem::Error);
    let same = cur.clone();
    assert!(update_current(&mut cur, same).is_empty());
}

#[test]
fn compression_change_reaches_next_record() {
    let mut p = Pipeline::new(watched(LevelSystem::Warning, None, MessageCompression::Uncompressed));
    let before = p.handle_line(RECORD).unwrap();
    assert_eq!(before[0][0], b'{');
    assert!(p.reload(None).is_empty());
    let names = p.reload(Some(watched(LevelSystem::Warning, None, MessageCompression::Gzip)));
    assert_eq!(names, vec!["compression".to_string()]);
    assert_eq!(p.config().compression, MessageCompression::Gzip);
    let after = p.handle_line(RECORD).unwrap();
    assert_eq!(&after[0][..2], &[0x1f, 0x8b]);
    let mut out = Vec::new();
    libflate::gzip::Decoder::new(&after[0][..]).unwrap().read_to_end(&mut out).unwrap();
    assert_eq!(document(&out)["level"], 3);
}
