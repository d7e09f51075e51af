//! The record transformer: one structured log record in, a compressed GELF
//! document and its datagrams out, with level filtering on the way.
use vstd::prelude::*;
use crate::chunked::{body_size, chunk_count, chunk_datagrams, ChunkSize, ChunkedMessage, MAX_CHUNKS};
use crate::compression::compressed_as;
use crate::config::{ConfigWatched, ConfigWatchedView};
use crate::errors::Error;
use crate::json::{fields_view, keys_distinct, parse_object, scalar_text, scalar_text_of};
use crate::level::{msg_rank, system_code, system_of_code, LevelMsg, LevelSystem};
use crate::message::{Message, MessageView};
use crate::text::{parse_unsigned, seq_eq_ci, str_eq, str_eq_ci, unsigned_value};
use crate::wire::{optional_fields, WireMessage, WireView};

verus! {

/// A record's members as (key, value) pairs.
pub type Fields = Seq<(Seq<char>, serde_json::Value)>;

/// The value of the first member with key `k`.
pub open spec fn field_get(fs: Fields, k: Seq<char>) -> Option<serde_json::Value>
    decreases fs.len(),
{
    if fs.len() == 0 {
        None
    } else if fs[0].0 == k {
        Some(fs[0].1)
    } else {
        field_get(fs.drop_first(), k)
    }
}

/// Record fields that never become metadata.
pub open spec fn is_ignored(k: Seq<char>) -> bool {
    k == "MESSAGE"@ || k == "_HOSTNAME"@ || k == "__REALTIME_TIMESTAMP"@ || k == "PRIORITY"@
        || k == "__CURSOR"@ || k == "_BOOT_ID"@ || k == "_MACHINE_ID"@ || k == "_SYSTEMD_CGROUP"@
        || k == "_SYSTEMD_SLICE"@
}

/// Whether a member is kept as metadata: it is not ignored, and it is not
/// the key `id`, which a message refuses.
pub open spec fn is_kept(k: Seq<char>) -> bool {
    !is_ignored(k) && k != "id"@
}

/// The members that become metadata, in record order.
pub open spec fn kept_fields(fs: Fields) -> Fields
    decreases fs.len(),
{
    if fs.len() == 0 {
        seq![]
    } else if is_kept(fs.last().0) {
        kept_fields(fs.drop_last()).push(fs.last())
    } else {
        kept_fields(fs.drop_last())
    }
}

/// Pattern for a message level written in free text.
pub open spec fn level_pattern() -> Seq<char> {
    "(?i:level)=([a-zA-Z]+) "@
}

/// Group `group` of the first match of the regular expression `pattern` in
/// `text`; `None` where the pattern does not compile, nothing matches, or
/// the group took no part in the match.
pub uninterp spec fn regex_capture(pattern: Seq<char>, text: Seq<char>, group: nat) -> Option<Seq<char>>;

/// The message level a word written in a text names once its ASCII
/// letters are lower-cased; an unknown word means `Debug`.
pub open spec fn msg_of_word(w: Seq<char>) -> LevelMsg {
    if seq_eq_ci(w, "fatal"@) {
        LevelMsg::Fatal
    } else if seq_eq_ci(w, "panic"@) {
        LevelMsg::Panic
    } else if seq_eq_ci(w, "error"@) {
        LevelMsg::Error
    } else if seq_eq_ci(w, "warning"@) {
        LevelMsg::Warning
    } else if seq_eq_ci(w, "info"@) {
        LevelMsg::Info
    } else {
        LevelMsg::Debug
    }
}

/// The message level that a text declares with `level=<word> `, the first
/// such place counting, case ignored.
pub open spec fn msg_level_in(text: Seq<char>) -> Option<LevelMsg> {
    match regex_capture(level_pattern(), text, 1) {
        Some(w) => Some(msg_of_word(w)),
        None => None,
    }
}

/// Whether a text's declared level is less severe than the threshold.
pub open spec fn filtered_by_message(text: Seq<char>, threshold: Option<LevelMsg>) -> bool {
    match (threshold, msg_level_in(text)) {
        (Some(t), Some(l)) => msg_rank(l) > msg_rank(t),
        _ => false,
    }
}

/// The system level of a record's `PRIORITY`, where it holds a code.
pub open spec fn record_level(fs: Fields) -> Option<LevelSystem> {
    match field_get(fs, "PRIORITY"@) {
        Some(v) => match unsigned_value(scalar_text(v), 255) {
            Some(n) => Some(system_of_code(n)),
            None => None,
        },
        None => None,
    }
}

/// A record's `__REALTIME_TIMESTAMP` in microseconds, where it holds one.
pub open spec fn record_timestamp(fs: Fields) -> Option<nat> {
    match field_get(fs, "__REALTIME_TIMESTAMP"@) {
        Some(v) => unsigned_value(scalar_text(v), 0xffff_ffff_ffff_ffff),
        None => None,
    }
}

/// The host a record names.
pub open spec fn record_host(fs: Fields) -> Seq<char> {
    match field_get(fs, "_HOSTNAME"@) {
        Some(h) => scalar_text(h),
        None => "undefined"@,
    }
}

/// The envelope a record becomes under a configuration, or why it does
/// not become one.
pub open spec fn record_message(fs: Fields, cfg: ConfigWatchedView) -> Result<WireView, Error> {
    match field_get(fs, "MESSAGE"@) {
        None => Err(Error::NoMessage),
        Some(m) => {
            let short = scalar_text(m);
            if filtered_by_message(short, cfg.log_level_message) {
                Err(Error::InsufficientLogLevel)
            } else if record_level(fs) is Some && system_code(record_level(fs).unwrap())
                > system_code(cfg.log_level_system) {
                Err(Error::InsufficientLogLevel)
            } else {
                Ok(
                    WireView {
                        message: MessageView {
                            host: record_host(fs),
                            short_message: short,
                            full_message: None,
                            timestamp: record_timestamp(fs),
                            level: match record_level(fs) {
                                Some(l) => l,
                                None => LevelSystem::Alert,
                            },
                            metadata: kept_fields(fs),
                        },
                        optional: optional_fields(cfg.team, cfg.service),
                    },
                )
            }
        },
    }
}

/// Relies on regex::Regex::new, Regex::captures and Captures::get: group
/// `group` of the first match of `pattern` in `text`.
#[verifier::external_body]
fn first_capture(pattern: &str, text: &str, group: usize) -> (r: Option<String>)
    ensures
        r is Some <==> regex_capture(pattern@, text@, group as nat) is Some,
        r matches Some(s) ==> s@ == regex_capture(pattern@, text@, group as nat).unwrap(),
{
    regex::Regex::new(pattern).ok()?.captures(text)?.get(group).map(|m| m.as_str().to_string())
}

/// Relies on serde_json::Value's Clone: an equal value.
#[verifier::external_body]
fn clone_value(v: &serde_json::Value) -> (r: serde_json::Value)
    ensures
        r == *v,
{
    v.clone()
}

/// Whether a record field becomes metadata.
pub fn is_metadata(field: &str) -> (r: bool)
    ensures
        r == !is_ignored(field@),
{
    !(str_eq(field, "MESSAGE") || str_eq(field, "_HOSTNAME") || str_eq(
        field,
        "__REALTIME_TIMESTAMP",
    ) || str_eq(field, "PRIORITY") || str_eq(field, "__CURSOR") || str_eq(field, "_BOOT_ID")
        || str_eq(field, "_MACHINE_ID") || str_eq(field, "_SYSTEMD_CGROUP") || str_eq(
        field,
        "_SYSTEMD_SLICE",
    ))
}

/// Whether the journal can be read on the operating system named `os`
/// (as `std::env::consts::OS` names it).
pub fn is_platform_supported(os: &str) -> (r: bool)
    ensures
        r == (os@ == "linux"@),
{
    str_eq(os, "linux")
}

/// The message level a word names once its ASCII letters are lower-cased.
pub fn msg_level_of_word(w: &str) -> (r: LevelMsg)
    ensures
        r == msg_of_word(w@),
{
    if str_eq_ci(w, "fatal") {
        LevelMsg::Fatal
    } else if str_eq_ci(w, "panic") {
        LevelMsg::Panic
    } else if str_eq_ci(w, "error") {
        LevelMsg::Error
    } else if str_eq_ci(w, "warning") {
        LevelMsg::Warning
    } else if str_eq_ci(w, "info") {
        LevelMsg::Info
    } else {
        LevelMsg::Debug
    }
}

/// The message level declared in a text by `level=<word> `, if any.
pub fn get_msg_log_level(msg: &str) -> (r: Option<LevelMsg>)
    ensures
        r == msg_level_in(msg@),
{
    proof {
        reveal_strlit("(?i:level)=([a-zA-Z]+) ");
    }
    match first_capture("(?i:level)=([a-zA-Z]+) ", msg, 1) {
        Some(w) => Some(msg_level_of_word(w.as_str())),
        None => None,
    }
}

/// Index of the first member with key `k`.
fn find_field(fields: &Vec<(String, serde_json::Value)>, k: &str) -> (r: Option<usize>)
    ensures
        r is None ==> field_get(fields_view(fields@), k@) is None,
        r matches Some(i) ==> i < fields@.len() && field_get(fields_view(fields@), k@) == Some(
            fields@[i as int].1,
        ),
{
    let ghost fs = fields_view(fields@);
    assert(fs.subrange(0, fs.len() as int) =~= fs);
    let mut i: usize = 0;
    while i < fields.len()
        invariant
            fs == fields_view(fields@),
            i <= fields@.len(),
            field_get(fs, k@) == field_get(fs.subrange(i as int, fs.len() as int), k@),
        decreases fields@.len() - i,
    {
        let ghost rest = fs.subrange(i as int, fs.len() as int);
        assert(rest[0] == (fields@[i as int].0@, fields@[i as int].1));
        if str_eq(fields[i].0.as_str(), k) {
            return Some(i);
        }
        assert(rest.drop_first() =~= fs.subrange(i + 1, fs.len() as int));
        i = i + 1;
    }
    None
}

/// Every kept member is a member of the record.
proof fn lemma_kept_from(fs: Fields)
    ensures
        forall|j: int|
            0 <= j < kept_fields(fs).len() ==> exists|i: int|
                0 <= i < fs.len() && fs[i] == #[trigger] kept_fields(fs)[j],
        forall|j: int| 0 <= j < kept_fields(fs).len() ==> is_kept(#[trigger] kept_fields(fs)[j].0),
    decreases fs.len(),
{
    if fs.len() > 0 {
        lemma_kept_from(fs.drop_last());
        let prev = kept_fields(fs.drop_last());
        assert forall|j: int| 0 <= j < kept_fields(fs).len() implies exists|i: int|
            0 <= i < fs.len() && fs[i] == #[trigger] kept_fields(fs)[j] by {
            if j < prev.len() {
                let i = choose|i: int| 0 <= i < fs.drop_last().len() && fs.drop_last()[i] == prev[j];
                assert(fs[i] == kept_fields(fs)[j]);
            } else {
                assert(fs[fs.len() - 1] == kept_fields(fs)[j]);
            }
        }
    }
}

/// Builds the envelope that a record becomes under `config`, or says why
/// the record is dropped: no `MESSAGE`, or a level less severe than a
/// threshold.
pub fn build_message(fields: &Vec<(String, serde_json::Value)>, config: &ConfigWatched) -> (r: Result<WireMessage, Error>)
    requires
        keys_distinct(fields_view(fields@)),
    ensures
        r is Ok <==> record_message(fields_view(fields@), config@) is Ok,
        r matches Ok(w) ==> record_message(fields_view(fields@), config@) == Ok::<WireView, Error>(w@),
        r matches Err(e) ==> record_message(fields_view(fields@), config@) == Err::<WireView, Error>(e),
{
    let ghost fs = fields_view(fields@);
    proof {
        reveal_strlit("MESSAGE");
        reveal_strlit("_HOSTNAME");
        reveal_strlit("PRIORITY");
        reveal_strlit("__REALTIME_TIMESTAMP");
        reveal_strlit("undefined");
        reveal_strlit("id");
    }
    let short = match find_field(fields, "MESSAGE") {
        None => return Err(Error::NoMessage),
        Some(i) => scalar_text_of(&fields[i].1),
    };
    let host = match find_field(fields, "_HOSTNAME") {
        Some(i) => scalar_text_of(&fields[i].1),
        None => String::from_str("undefined"),
    };
    match config.log_level_message {
        Some(threshold) => match get_msg_log_level(short.as_str()) {
            Some(level) => {
                if level.rank() > threshold.rank() {
                    return Err(Error::InsufficientLogLevel);
                }
            },
            None => {},
        },
        None => {},
    }
    let level = match find_field(fields, "PRIORITY") {
        Some(i) => match parse_unsigned(scalar_text_of(&fields[i].1).as_str(), 255) {
            Some(n) => Some(LevelSystem::from_num(n as u8)),
            None => None,
        },
        None => None,
    };
    assert(level == record_level(fs));
    let mut msg = Message::new(host, short);
    match level {
        Some(l) => {
            if l.less_severe_than(&config.log_level_system) {
                return Err(Error::InsufficientLogLevel);
            }
            msg.set_level(l);
        },
        None => {},
    }
    match find_field(fields, "__REALTIME_TIMESTAMP") {
        Some(i) => match parse_unsigned(scalar_text_of(&fields[i].1).as_str(), 0xffff_ffff_ffff_ffff) {
            Some(t) => msg.set_timestamp(t),
            None => {},
        },
        None => {},
    }
    let ghost base = msg@;
    let mut i: usize = 0;
    while i < fields.len()
        invariant
            fs == fields_view(fields@),
            keys_distinct(fs),
            i <= fields@.len(),
            msg.wf(),
            msg@ == (MessageView { metadata: kept_fields(fs.subrange(0, i as int)), ..base }),
        decreases fields@.len() - i,
    {
        let ghost pre = fs.subrange(0, i as int);
        let ghost next = fs.subrange(0, i + 1);
        assert(next.drop_last() =~= pre);
        assert(next.last() == fs[i as int]);
        if is_metadata(fields[i].0.as_str()) {
            let key = fields[i].0.clone();
            let value = clone_value(&fields[i].1);
            let accepted = msg.set_metadata(key, value);
            proof {
                if accepted {
                    lemma_kept_from(pre);
                    let kp = kept_fields(pre);
                    assert forall|j: int| 0 <= j < kp.len() implies (#[trigger] kp[j]).0 != fs[i as int].0 by {
                        let t = choose|t: int| 0 <= t < pre.len() && pre[t] == kp[j];
                        assert(fs[t] == pre[t]);
                    }
                    assert(crate::message::meta_index(kp, fs[i as int].0) is None);
                    assert(msg@ == (MessageView { metadata: kept_fields(next), ..base }));
                } else {
                    assert(msg@ == (MessageView { metadata: kept_fields(next), ..base }));
                }
            }
        } else {
            assert(msg@ == (MessageView { metadata: kept_fields(next), ..base }));
        }
        i = i + 1;
    }
    assert(fs.subrange(0, fields@.len() as int) =~= fs);
    let w = WireMessage::new(msg, config.team.clone(), config.service.clone());
    Ok(w)
}

/// What becomes of a record's envelope, or of its absence, after
/// compression: the error where there is no envelope, else bytes that the
/// configured algorithm makes of the document.
pub open spec fn compressed_record(fs: Fields, cfg: ConfigWatchedView, r: Result<Seq<u8>, Error>) -> bool {
    match record_message(fs, cfg) {
        Err(e) => r == Err::<Seq<u8>, Error>(e),
        Ok(w) => r matches Ok(b) && compressed_as(cfg.compression, w, b),
    }
}

/// Bytes as a sequence, inside a result.
pub open spec fn bytes_result(r: Result<Vec<u8>, Error>) -> Result<Seq<u8>, Error> {
    match r {
        Ok(b) => Ok(b@),
        Err(e) => Err(e),
    }
}

/// Parses a record, builds its envelope and compresses the document.
pub fn transform_fields(fields: &Vec<(String, serde_json::Value)>, config: &ConfigWatched) -> (r: Result<Vec<u8>, Error>)
    requires
        keys_distinct(fields_view(fields@)),
    ensures
        compressed_record(fields_view(fields@), config@, bytes_result(r)),
{
    let w = match build_message(fields, config) {
        Ok(w) => w,
        Err(e) => return Err(e),
    };
    w.to_compressed_gelf(config.compression)
}

/// Try to decode a JSON log line, transform its fields to a GELF message,
/// serialize and compress it.
pub fn transform_record(data: &str, config: &ConfigWatched) -> (r: Result<Vec<u8>, Error>)
    ensures
        crate::json::parsed_object(data@) is None ==> r matches Err(Error::SerdeParsing(_)),
        crate::json::parsed_object(data@) matches Some(fs) ==> compressed_record(
            fs,
            config@,
            bytes_result(r),
        ),
{
    match parse_object(data) {
        Err(text) => Err(Error::SerdeParsing(text)),
        Ok(fields) => transform_fields(&fields, config),
    }
}

/// Whether `ds` are the datagrams of some bytes that a record compresses to.
pub open spec fn record_datagrams(fs: Fields, cfg: ConfigWatchedView, ds: Seq<Seq<u8>>) -> bool {
    exists|b: Seq<u8>, id: Seq<u8>|
        #![trigger chunk_datagrams(id, b, ChunkSize::Wan)]
        compressed_record(fs, cfg, Ok(b)) && id.len() == 8 && chunk_count(
            b.len(),
            body_size(ChunkSize::Wan),
        ) <= MAX_CHUNKS && ds == chunk_datagrams(id, b, ChunkSize::Wan)
}

/// Datagrams as sequences.
pub open spec fn datagrams_view(v: Seq<Vec<u8>>) -> Seq<Seq<u8>> {
    v.map_values(|c: Vec<u8>| c@)
}

/// The message for a payload too large to chunk.
pub open spec fn split_failure_text() -> Seq<char> {
    "failed to split message on "@ + crate::text::decimal(1420) + "-bytes chunks"@
}

/// Turns one log line into the datagrams to send for it, in order. A line
/// that cannot be parsed, has no message, is filtered out or fails to
/// compress gives that error; a payload that would take more chunks than
/// allowed gives an `InternalError`.
pub fn process_log_record(data: &str, config: &ConfigWatched) -> (r: Result<Vec<Vec<u8>>, Error>)
    ensures
        crate::json::parsed_object(data@) is None ==> r matches Err(Error::SerdeParsing(_)),
        crate::json::parsed_object(data@) matches Some(fs) ==> {
            &&& r matches Ok(ds) ==> record_datagrams(fs, config@, datagrams_view(ds@))
            &&& r matches Err(e) ==> (compressed_record(fs, config@, Err(e)) || (e matches Error::InternalError(
                t,
            ) && t@ == split_failure_text() && exists|b: Seq<u8>|
                compressed_record(fs, config@, Ok(b)) && chunk_count(
                    b.len(),
                    body_size(ChunkSize::Wan),
                ) > MAX_CHUNKS))
        },
{
    let bytes = match transform_record(data, config) {
        Ok(b) => b,
        Err(e) => return Err(e),
    };
    let ghost b = bytes@;
    match ChunkedMessage::new(ChunkSize::Wan, bytes) {
        Some(m) => {
            let ghost id = m@.id;
            let ds = m.into_chunks();
            assert(chunk_datagrams(id, b, ChunkSize::Wan) == datagrams_view(ds@));
            Ok(ds)
        },
        None => {
            let mut text = String::from_str("failed to split message on ");
            let n = crate::text::decimal_string(ChunkSize::Wan.size() as u64);
            text.append(n.as_str());
            text.append("-bytes chunks");
            proof {
                reveal_strlit("failed to split message on ");
                reveal_strlit("-bytes chunks");
            }
            Err(Error::InternalError(text))
        },
    }
}

} // verus!
