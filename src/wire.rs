//! The GELF envelope: a message together with the context fields of the
//! configuration, and its JSON text.
use vstd::prelude::*;
use crate::chunked::{body_size, chunk_count, chunk_datagrams, ChunkSize, ChunkedMessage, MAX_CHUNKS};
use crate::compression::{compressed_as, MessageCompression};
use crate::errors::Error;
use crate::json::{json_quoted, quote_json, value_json, value_to_json};
use crate::level::system_code;
use crate::message::{Message, MessageView};
use crate::text::{decimal, digit_char, digit_value, digits_value, unsigned_digits, unsigned_value, decimal_string, fixed_digits, fixed_digits_string, opt_view, trim_quotes, trim_quotes_str};

verus! {

/// Microseconds in a second.
pub const MICROS_PER_SECOND: u64 = 1000000;

/// Abstract content of an envelope: the message and the optional context
/// fields `team` and `service`, as (name, value) pairs in that order.
pub ghost struct WireView {
    pub message: MessageView,
    pub optional: Seq<(Seq<char>, Seq<char>)>,
}

/// The context fields present among `team` and `service`.
pub open spec fn optional_fields(team: Option<Seq<char>>, service: Option<Seq<char>>) -> Seq<(Seq<char>, Seq<char>)> {
    (match team {
        Some(t) => seq![("team"@, t)],
        None => seq![],
    }) + (match service {
        Some(s) => seq![("service"@, s)],
        None => seq![],
    })
}

/// Seconds since the epoch with six decimals, from microseconds.
pub open spec fn timestamp_text(micros: nat) -> Seq<char> {
    decimal(micros / 1000000) + "."@ + fixed_digits(micros % 1000000, 6)
}

/// The members of the GELF document, as (key, JSON value text) pairs, in
/// order; `now` stands in for a timestamp that the message lacks.
pub open spec fn gelf_entries(w: WireView, now: nat) -> Seq<(Seq<char>, Seq<char>)> {
    let m = w.message;
    seq![
        ("version"@, json_quoted("1.1"@)),
        ("host"@, json_quoted(trim_quotes(m.host))),
        ("short_message"@, json_quoted(trim_quotes(m.short_message))),
        ("level"@, decimal(system_code(m.level))),
    ] + (match m.full_message {
        Some(f) => seq![("full_message"@, json_quoted(f))],
        None => seq![],
    }) + seq![
        ("timestamp"@, timestamp_text(
            match m.timestamp {
                Some(t) => t,
                None => now,
            },
        )),
    ] + w.optional.map_values(|p: (Seq<char>, Seq<char>)| (p.0, json_quoted(p.1)))
        + m.metadata.map_values(
        |p: (Seq<char>, serde_json::Value)| ("_"@ + p.0, value_json(p.1)),
    )
}

/// One member of a JSON object.
pub open spec fn render_entry(e: (Seq<char>, Seq<char>)) -> Seq<char> {
    json_quoted(e.0) + ":"@ + e.1
}

/// Members separated by commas.
pub open spec fn render_entries(es: Seq<(Seq<char>, Seq<char>)>) -> Seq<char>
    decreases es.len(),
{
    if es.len() == 0 {
        seq![]
    } else if es.len() == 1 {
        render_entry(es[0])
    } else {
        render_entries(es.drop_last()) + ","@ + render_entry(es.last())
    }
}

/// A JSON object with the given members.
pub open spec fn render_object(es: Seq<(Seq<char>, Seq<char>)>) -> Seq<char> {
    "{"@ + render_entries(es) + "}"@
}

/// The GELF document of an envelope.
pub open spec fn gelf_text(w: WireView, now: nat) -> Seq<char> {
    render_object(gelf_entries(w, now))
}

/// Reading back the level member of a document gives the message's level.
proof fn lemma_level_reads_back(l: crate::level::LevelSystem)
    ensures
        unsigned_value(decimal(system_code(l)), 7) == Some(system_code(l)),
        crate::level::system_of_code(system_code(l)) == l,
{
    let n = system_code(l);
    let d = decimal(n);
    assert(d == seq![digit_char(n)]);
    assert(unsigned_digits(d) == d);
    assert(d.drop_last() =~= Seq::<char>::empty());
    assert(digits_value(d.drop_last()) == 0);
    assert(d.last() == digit_char(n));
    assert(digit_value(digit_char(n)) == n) by {
        assert('0' as u32 == 48);
        assert('7' as u32 == 55);
    }
    assert(digits_value(d) == n);
}

/// The document of a well-formed message holds, each under its own key,
/// its host and short text (trimmed of quotes and spaces), its level as a
/// code that reads back as that level, and, last and in order, every
/// metadata entry under its key with `_` in front. No other member's key
/// starts with `_`, and the metadata keys are distinct, so a reader of the
/// JSON gets the metadata back entry for entry.
pub proof fn lemma_document_carries_message(
    m: MessageView,
    team: Option<Seq<char>>,
    service: Option<Seq<char>>,
    now: nat,
)
    requires
        m.wf(),
    ensures
        ({
            let es = gelf_entries(WireView { message: m, optional: optional_fields(team, service) }, now);
            let k = (es.len() - m.metadata.len()) as int;
            &&& 0 <= k
            &&& es[1] == ("host"@, json_quoted(trim_quotes(m.host)))
            &&& es[2] == ("short_message"@, json_quoted(trim_quotes(m.short_message)))
            &&& es[3].0 == "level"@
            &&& unsigned_value(es[3].1, 7) == Some(system_code(m.level))
            &&& crate::level::system_of_code(system_code(m.level)) == m.level
            &&& forall|i: int| 0 <= i < m.metadata.len() ==> #[trigger] es[k + i] == ("_"@ + m.metadata[i].0, value_json(m.metadata[i].1))
            &&& forall|i: int| 0 <= i < k ==> (#[trigger] es[i]).0.len() > 0 && es[i].0[0] != '_'
            &&& forall|i: int, j: int| k <= i < j < es.len() ==> (#[trigger] es[i]).0 != (#[trigger] es[j]).0
        }),
{
    let w = WireView { message: m, optional: optional_fields(team, service) };
    let es = gelf_entries(w, now);
    lemma_level_reads_back(m.level);
    reveal_strlit("version");
    reveal_strlit("host");
    reveal_strlit("short_message");
    reveal_strlit("level");
    reveal_strlit("full_message");
    reveal_strlit("timestamp");
    reveal_strlit("team");
    reveal_strlit("service");
    reveal_strlit("_");
    let fixed = es.subrange(0, (es.len() - m.metadata.len()) as int);
    let meta = m.metadata.map_values(
        |p: (Seq<char>, serde_json::Value)| ("_"@ + p.0, value_json(p.1)),
    );
    let opt = w.optional.map_values(|p: (Seq<char>, Seq<char>)| (p.0, json_quoted(p.1)));
    let k = (es.len() - m.metadata.len()) as int;
    assert forall|i: int| 0 <= i < m.metadata.len() implies #[trigger] es[k + i] == ("_"@ + m.metadata[i].0, value_json(m.metadata[i].1)) by {
        assert(es[k + i] == meta[i]);
    }
    assert forall|i: int| 0 <= i < k implies (#[trigger] es[i]).0.len() > 0 && es[i].0[0] != '_' by {
        let n = es.len() - m.metadata.len() - opt.len();
        if i >= n {
            assert(es[i] == opt[i - n]);
        }
    }
    assert forall|i: int, j: int| k <= i < j < es.len() implies (#[trigger] es[i]).0 != (#[trigger] es[j]).0 by {
        assert(es[i] == meta[i - k]);
        assert(es[j] == meta[j - k]);
        assert(m.metadata[i - k].0 != m.metadata[j - k].0);
        if es[i].0 == es[j].0 {
            assert(m.metadata[i - k].0 =~= es[i].0.subrange(1, es[i].0.len() as int));
            assert(m.metadata[j - k].0 =~= es[j].0.subrange(1, es[j].0.len() as int));
        }
    }
}

/// Pairs of strings as pairs of character sequences.
pub open spec fn pairs_view(v: Seq<(String, String)>) -> Seq<(Seq<char>, Seq<char>)> {
    v.map_values(|p: (String, String)| (p.0@, p.1@))
}

/// Walks a list of (name, value) pairs front to back.
pub struct OptFieldsIterator<'a> {
    fields: &'a Vec<(String, String)>,
    position: usize,
}

impl<'a> OptFieldsIterator<'a> {
    /// The pairs still to come.
    pub closed spec fn remaining(&self) -> Seq<(Seq<char>, Seq<char>)> {
        pairs_view(self.fields@).subrange(self.position as int, self.fields@.len() as int)
    }

    pub closed spec fn wf(&self) -> bool {
        self.position <= self.fields@.len()
    }

    /// Starts at the first pair.
    pub fn new(fields: &'a Vec<(String, String)>) -> (r: OptFieldsIterator<'a>)
        ensures
            r.wf(),
            r.remaining() == pairs_view(fields@),
    {
        let r = OptFieldsIterator { fields, position: 0 };
        assert(r.remaining() =~= pairs_view(fields@));
        r
    }

    /// The next pair, if any.
    pub fn next(&mut self) -> (r: Option<(String, String)>)
        requires
            old(self).wf(),
        ensures
            final(self).wf(),
            old(self).remaining().len() == 0 ==> r is None && final(self).remaining() == old(
                self,
            ).remaining(),
            old(self).remaining().len() > 0 ==> r is Some && (r.unwrap().0@, r.unwrap().1@)
                == old(self).remaining()[0] && final(self).remaining() == old(
                self,
            ).remaining().drop_first(),
    {
        if self.position >= self.fields.len() {
            return None;
        }
        let (ref f, ref v) = self.fields[self.position];
        let r = (f.clone(), v.clone());
        let ghost before = self.remaining();
        self.position = self.position + 1;
        assert(self.remaining() =~= before.drop_first());
        Some(r)
    }
}

/// A fully assembled GELF message: a message with the context fields of
/// the configuration.
pub struct WireMessage {
    message: Message,
    optional: Vec<(String, String)>,
}

impl View for WireMessage {
    type V = WireView;

    closed spec fn view(&self) -> WireView {
        WireView { message: self.message@, optional: pairs_view(self.optional@) }
    }
}

/// Relies on std::time::SystemTime::now and its distance from UNIX_EPOCH:
/// the current time in microseconds, where it lies after the epoch and fits.
#[verifier::external_body]
fn micros_since_epoch() -> (r: Option<u64>) {
    std::time::SystemTime::now().duration_since(std::time::UNIX_EPOCH).ok().and_then(
        |d| u64::try_from(d.as_micros()).ok(),
    )
}

fn push_literal(v: &mut Vec<(String, String)>, key: &str, value: String)
    ensures
        pairs_view(final(v)@) == pairs_view(old(v)@).push((key@, value@)),
{
    let ghost before = v@;
    v.push((String::from_str(key), value));
    assert(pairs_view(v@) =~= pairs_view(before).push((key@, value@)));
}

/// Seconds since the epoch with six decimals, from microseconds.
pub fn timestamp_string(micros: u64) -> (r: String)
    ensures
        r@ == timestamp_text(micros as nat),
{
    let mut s = decimal_string(micros / MICROS_PER_SECOND);
    s.append(".");
    let frac = fixed_digits_string(micros % MICROS_PER_SECOND, 6);
    s.append(frac.as_str());
    proof {
        reveal_strlit(".");
    }
    s
}

/// Renders members as a JSON object.
pub fn render_object_string(es: &Vec<(String, String)>) -> (r: String)
    ensures
        r@ == render_object(pairs_view(es@)),
{
    let ghost p = pairs_view(es@);
    let mut s = String::from_str("{");
    let mut i: usize = 0;
    while i < es.len()
        invariant
            p == pairs_view(es@),
            i <= es@.len(),
            s@ == "{"@ + render_entries(p.subrange(0, i as int)),
        decreases es@.len() - i,
    {
        let ghost before = s@;
        if i > 0 {
            s.append(",");
        }
        let k = quote_json(es[i].0.as_str());
        s.append(k.as_str());
        s.append(":");
        s.append(es[i].1.as_str());
        proof {
            let q = p.subrange(0, i + 1);
            assert(q.drop_last() =~= p.subrange(0, i as int));
            assert(q.last() == p[i as int]);
            if i == 0 {
                assert(p.subrange(0, 0) =~= Seq::<(Seq<char>, Seq<char>)>::empty());
                assert(s@ =~= "{"@ + render_entries(q));
            } else {
                assert(s@ =~= "{"@ + render_entries(q));
            }
        }
        i = i + 1;
    }
    assert(p.subrange(0, es@.len() as int) =~= p);
    s.append("}");
    s
}

impl WireMessage {
    /// Composes a message with the optional `team` and `service` fields.
    pub fn new(msg: Message, team: Option<String>, service: Option<String>) -> (r: WireMessage)
        ensures
            r@ == (WireView {
                message: msg@,
                optional: optional_fields(opt_view(team), opt_view(service)),
            }),
    {
        let mut optional: Vec<(String, String)> = Vec::new();
        let ghost tv = opt_view(team);
        let ghost sv = opt_view(service);
        match team {
            Some(t) => push_literal(&mut optional, "team", t),
            None => {},
        }
        match service {
            Some(s) => push_literal(&mut optional, "service", s),
            None => {},
        }
        proof {
            reveal_strlit("team");
            reveal_strlit("service");
        }
        assert(pairs_view(optional@) =~= optional_fields(tv, sv));
        WireMessage { message: msg, optional }
    }

    /// The message inside the envelope.
    pub fn message(&self) -> (r: &Message)
        ensures
            r@ == self@.message,
    {
        &self.message
    }

    /// The members of the document, with `now` (microseconds since the
    /// epoch) as the timestamp where the message has none.
    pub fn entries(&self, now: u64) -> (r: Vec<(String, String)>)
        ensures
            pairs_view(r@) == gelf_entries(self@, now as nat),
    {
        let m = &self.message;
        let mut es: Vec<(String, String)> = Vec::new();
        push_literal(&mut es, "version", quote_json("1.1"));
        push_literal(&mut es, "host", quote_json(trim_quotes_str(m.host()).as_str()));
        push_literal(
            &mut es,
            "short_message",
            quote_json(trim_quotes_str(m.short_message()).as_str()),
        );
        push_literal(&mut es, "level", decimal_string(m.level().to_num() as u64));
        match m.full_message() {
            Some(f) => push_literal(&mut es, "full_message", quote_json(f.as_str())),
            None => {},
        }
        let ts = match m.timestamp() {
            Some(t) => t,
            None => now,
        };
        push_literal(&mut es, "timestamp", timestamp_string(ts));
        let ghost head = pairs_view(es@);
        let mut it = OptFieldsIterator::new(&self.optional);
        let ghost opt = pairs_view(self.optional@);
        let mut k: usize = 0;
        while k < self.optional.len()
            invariant
                it.wf(),
                opt == pairs_view(self.optional@),
                k <= opt.len(),
                it.remaining() == opt.subrange(k as int, opt.len() as int),
                pairs_view(es@) == head + opt.subrange(0, k as int).map_values(
                    |p: (Seq<char>, Seq<char>)| (p.0, json_quoted(p.1)),
                ),
            decreases opt.len() - k,
        {
            let ghost before = pairs_view(es@);
            match it.next() {
                Some((name, value)) => {
                    let q = quote_json(value.as_str());
                    es.push((name, q));
                    proof {
                        assert(opt[k as int] == (name@, value@));
                        assert(opt.subrange(0, k + 1) =~= opt.subrange(0, k as int).push(
                            opt[k as int],
                        ));
                        assert(pairs_view(es@) =~= before.push((name@, q@)));
                        assert(pairs_view(es@) =~= head + opt.subrange(0, k + 1).map_values(
                            |p: (Seq<char>, Seq<char>)| (p.0, json_quoted(p.1)),
                        ));
                        assert(it.remaining() =~= opt.subrange(k + 1, opt.len() as int));
                    }
                },
                None => {
                    assert(false);
                },
            }
            k = k + 1;
        }
        assert(opt.subrange(0, opt.len() as int) =~= opt);
        let ghost mid = pairs_view(es@);
        let meta = m.all_metadata();
        let ghost mv = m@.metadata;
        let mut i: usize = 0;
        while i < meta.len()
            invariant
                mv == m@.metadata,
                crate::message::meta_view(meta@) == mv,
                i <= meta@.len(),
                pairs_view(es@) == mid + mv.subrange(0, i as int).map_values(
                    |p: (Seq<char>, serde_json::Value)| ("_"@ + p.0, value_json(p.1)),
                ),
            decreases meta@.len() - i,
        {
            let ghost before = pairs_view(es@);
            let key = String::from_str("_").concat(meta[i].0.as_str());
            let value = value_to_json(&meta[i].1);
            es.push((key, value));
            proof {
                reveal_strlit("_");
                assert(mv[i as int] == (meta@[i as int].0@, meta@[i as int].1));
                assert(mv.subrange(0, i + 1) =~= mv.subrange(0, i as int).push(mv[i as int]));
                assert(pairs_view(es@) =~= before.push((key@, value@)));
                assert(pairs_view(es@) =~= mid + mv.subrange(0, i + 1).map_values(
                    |p: (Seq<char>, serde_json::Value)| ("_"@ + p.0, value_json(p.1)),
                ));
            }
            i = i + 1;
        }
        assert(mv.subrange(0, mv.len() as int) =~= mv);
        proof {
            reveal_strlit("1.1");
        }
        assert(pairs_view(es@) =~= gelf_entries(self@, now as nat));
        es
    }

    /// The GELF document, with `now` (microseconds since the epoch) as the
    /// timestamp where the message has none.
    pub fn to_gelf_at(&self, now: u64) -> (r: String)
        ensures
            r@ == gelf_text(self@, now as nat),
    {
        let es = self.entries(now);
        render_object_string(&es)
    }

    /// The GELF document; a message without a timestamp gets the current
    /// time, read now.
    pub fn to_gelf(&self) -> (r: String)
        ensures
            exists|now: u64| r@ == gelf_text(self@, now as nat),
    {
        let now = match micros_since_epoch() {
            Some(t) => t,
            None => 0,
        };
        let r = self.to_gelf_at(now);
        assert(r@ == gelf_text(self@, now as nat));
        r
    }
}

impl WireMessage {
    /// The compressed GELF document.
    pub fn to_compressed_gelf(&self, compression: MessageCompression) -> (r: Result<Vec<u8>, Error>)
        ensures
            r matches Ok(b) && compressed_as(compression, self@, b@),
    {
        compression.compress(self)
    }

    /// The compressed GELF document split into datagrams; an `InternalError`
    /// where it would take more chunks than allowed.
    pub fn to_chunked_message(&self, chunk_size: ChunkSize, compression: MessageCompression) -> (r: Result<ChunkedMessage, Error>)
        ensures
            r matches Ok(m) ==> exists|b: Seq<u8>|
                #![trigger chunk_datagrams(m@.id, b, chunk_size)]
                compressed_as(compression, self@, b) && chunk_count(b.len(), body_size(chunk_size))
                    <= MAX_CHUNKS && m@.id.len() == 8 && m@.chunks == chunk_datagrams(
                    m@.id,
                    b,
                    chunk_size,
                ),
            r matches Err(e) ==> e is InternalError && exists|b: Seq<u8>|
                compressed_as(compression, self@, b) && chunk_count(b.len(), body_size(chunk_size))
                    > MAX_CHUNKS,
    {
        let r = self.to_compressed_gelf(compression);
        let bytes = match r {
            Ok(b) => b,
            Err(e) => return Err(e),
        };
        let ghost b = bytes@;
        match ChunkedMessage::new(chunk_size, bytes) {
            Some(m) => {
                let r: Result<ChunkedMessage, Error> = Ok(m);
                assert(r matches Ok(m2) && m2@.chunks == chunk_datagrams(m2@.id, b, chunk_size));
                r
            },
            None => {
                let mut text = String::from_str("failed to split message on ");
                let n = decimal_string(chunk_size.size() as u64);
                text.append(n.as_str());
                text.append("-bytes chunks");
                Err(Error::InternalError(text))
            },
        }
    }
}

} // verus!
