//! The GELF message: one log event's host, texts, timestamp, level and
//! free-form metadata.
use vstd::prelude::*;
use crate::level::LevelSystem;
use crate::text::str_eq;

verus! {

/// Metadata entries as character sequences.
pub open spec fn meta_view(v: Seq<(String, serde_json::Value)>) -> Seq<(Seq<char>, serde_json::Value)> {
    v.map_values(|p: (String, serde_json::Value)| (p.0@, p.1))
}

/// Index of the entry with key `k`, if any.
pub open spec fn meta_index(m: Seq<(Seq<char>, serde_json::Value)>, k: Seq<char>) -> Option<int> {
    if exists|i: int| 0 <= i < m.len() && (#[trigger] m[i]).0 == k {
        Some(choose|i: int| 0 <= i < m.len() && (#[trigger] m[i]).0 == k)
    } else {
        None
    }
}

/// The metadata key that the protocol reserves.
pub open spec fn reserved_key() -> Seq<char> {
    "id"@
}

/// Abstract content of a message.
pub ghost struct MessageView {
    pub host: Seq<char>,
    pub short_message: Seq<char>,
    pub full_message: Option<Seq<char>>,
    /// Microseconds since the Unix epoch.
    pub timestamp: Option<nat>,
    pub level: LevelSystem,
    /// Entries in the order they were first set; keys unique.
    pub metadata: Seq<(Seq<char>, serde_json::Value)>,
}

/// Message is the representation of a GELF message.
pub struct Message {
    host: String,
    short_message: String,
    full_message: Option<String>,
    timestamp: Option<u64>,
    level: LevelSystem,
    metadata: Vec<(String, serde_json::Value)>,
}

impl View for Message {
    type V = MessageView;

    closed spec fn view(&self) -> MessageView {
        MessageView {
            host: self.host@,
            short_message: self.short_message@,
            full_message: match self.full_message {
                Some(s) => Some(s@),
                None => None,
            },
            timestamp: match self.timestamp {
                Some(t) => Some(t as nat),
                None => None,
            },
            level: self.level,
            metadata: meta_view(self.metadata@),
        }
    }
}

impl MessageView {
    /// Keys are unique and the reserved key never appears.
    pub open spec fn wf(self) -> bool {
        &&& forall|i: int, j: int|
            0 <= i < j < self.metadata.len() ==> (#[trigger] self.metadata[i]).0 != (
            #[trigger] self.metadata[j]).0
        &&& forall|i: int| 0 <= i < self.metadata.len() ==> (#[trigger] self.metadata[i]).0 != reserved_key()
    }

    /// The message after setting metadata `k` to `v`: the entry is replaced
    /// in place if the key is present, appended otherwise.
    pub open spec fn with_metadata(self, k: Seq<char>, v: serde_json::Value) -> MessageView {
        MessageView {
            metadata: match meta_index(self.metadata, k) {
                Some(i) => self.metadata.update(i, (k, v)),
                None => self.metadata.push((k, v)),
            },
            ..self
        }
    }
}

impl Message {
    pub open spec fn wf(&self) -> bool {
        self@.wf()
    }

    /// A new message with the given host and short text. The level is
    /// `Alert`, as GELF asks; nothing else is set.
    pub fn new(host: String, short_message: String) -> (r: Message)
        ensures
            r@ == (MessageView {
                host: host@,
                short_message: short_message@,
                full_message: None,
                timestamp: None,
                level: LevelSystem::Alert,
                metadata: seq![],
            }),
            r.wf(),
    {
        let r = Message {
            host,
            short_message,
            full_message: None,
            timestamp: None,
            level: LevelSystem::Alert,
            metadata: Vec::new(),
        };
        assert(r@.metadata =~= seq![]);
        r
    }

    /// Return the `host`.
    pub fn host(&self) -> (r: &str)
        ensures
            r@ == self@.host,
    {
        self.host.as_str()
    }

    /// Return the `short_message`.
    pub fn short_message(&self) -> (r: &str)
        ensures
            r@ == self@.short_message,
    {
        self.short_message.as_str()
    }

    /// Set the `short_message`.
    pub fn set_short_message(&mut self, msg: String)
        ensures
            final(self)@ == (MessageView { short_message: msg@, ..old(self)@ }),
    {
        self.short_message = msg;
    }

    /// Return the `full_message`.
    pub fn full_message(&self) -> (r: &Option<String>)
        ensures
            self@.full_message is Some <==> r is Some,
            r matches Some(s) ==> self@.full_message == Some(s@),
    {
        &self.full_message
    }

    /// Set the `full_message`.
    pub fn set_full_message(&mut self, msg: String)
        ensures
            final(self)@ == (MessageView { full_message: Some(msg@), ..old(self)@ }),
    {
        self.full_message = Some(msg);
    }

    /// Clear the `full_message`.
    pub fn clear_full_message(&mut self)
        ensures
            final(self)@ == (MessageView { full_message: None, ..old(self)@ }),
    {
        self.full_message = None;
    }

    /// Return the `timestamp`, in microseconds since the Unix epoch.
    pub fn timestamp(&self) -> (r: Option<u64>)
        ensures
            r is Some <==> self@.timestamp is Some,
            r matches Some(t) ==> self@.timestamp == Some(t as nat),
    {
        self.timestamp
    }

    /// Set the `timestamp`, in microseconds since the Unix epoch.
    pub fn set_timestamp(&mut self, ts: u64)
        ensures
            final(self)@ == (MessageView { timestamp: Some(ts as nat), ..old(self)@ }),
    {
        self.timestamp = Some(ts);
    }

    /// Clear the `timestamp`.
    pub fn clear_timestamp(&mut self)
        ensures
            final(self)@ == (MessageView { timestamp: None, ..old(self)@ }),
    {
        self.timestamp = None;
    }

    /// Return the `level`.
    pub fn level(&self) -> (r: LevelSystem)
        ensures
            r == self@.level,
    {
        self.level
    }

    /// Set the `level`.
    pub fn set_level(&mut self, level: LevelSystem)
        ensures
            final(self)@ == (MessageView { level, ..old(self)@ }),
    {
        self.level = level;
    }

    /// Return the metadata value with the given key.
    pub fn metadata(&self, key: &str) -> (r: Option<&serde_json::Value>)
        requires
            self.wf(),
        ensures
            r is Some <==> meta_index(self@.metadata, key@) is Some,
            r matches Some(v) ==> *v == self@.metadata[meta_index(self@.metadata, key@).unwrap()].1,
    {
        match self.find_metadata(key) {
            Some(i) => Some(&self.metadata[i].1),
            None => None,
        }
    }

    /// Return all metadata entries.
    pub fn all_metadata(&self) -> (r: &Vec<(String, serde_json::Value)>)
        ensures
            meta_view(r@) == self@.metadata,
    {
        &self.metadata
    }

    fn find_metadata(&self, key: &str) -> (r: Option<usize>)
        requires
            self.wf(),
        ensures
            r matches Some(i) ==> meta_index(self@.metadata, key@) == Some(i as int),
            r is None ==> meta_index(self@.metadata, key@) is None,
    {
        let mut i: usize = 0;
        while i < self.metadata.len()
            invariant
                self.wf(),
                i <= self.metadata@.len(),
                forall|j: int| 0 <= j < i ==> (#[trigger] self@.metadata[j]).0 != key@,
            decreases self.metadata@.len() - i,
        {
            if str_eq(self.metadata[i].0.as_str(), key) {
                let ghost m = self@.metadata;
                assert(m[i as int].0 == key@);
                assert(meta_index(m, key@) == Some(i as int)) by {
                    let c = choose|c: int| 0 <= c < m.len() && (#[trigger] m[c]).0 == key@;
                    if c != i as int {
                        assert(m[c].0 != m[i as int].0);
                    }
                }
                return Some(i);
            }
            i = i + 1;
        }
        None
    }

    /// Set metadata `key` to `value`. The reserved key `id` is refused:
    /// the message is left as it was and `false` comes back.
    pub fn set_metadata(&mut self, key: String, value: serde_json::Value) -> (r: bool)
        requires
            old(self).wf(),
        ensures
            r == (key@ != reserved_key()),
            !r ==> final(self)@ == old(self)@,
            r ==> final(self)@ == old(self)@.with_metadata(key@, value),
            final(self).wf(),
    {
        proof {
            reveal_strlit("id");
        }
        if str_eq(key.as_str(), "id") {
            return false;
        }
        let ghost m = self@.metadata;
        match self.find_metadata(key.as_str()) {
            Some(i) => {
                self.metadata.set(i, (key, value));
                assert(self@.metadata =~= m.update(i as int, (key@, value)));
            },
            None => {
                self.metadata.push((key, value));
                assert(self@.metadata =~= m.push((key@, value)));
            },
        }
        true
    }
}

} // verus!
