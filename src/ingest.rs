//! The decisions of the ingestion loop: the loop's own copy of the watched
//! settings, brought up to date when a change is signalled, and the
//! datagrams each line becomes under it. Reading lines and sending
//! datagrams are left to the caller.
use vstd::prelude::*;
use crate::config::{changed_fields, names_view, update_current, ConfigWatched, ConfigWatchedView};
use crate::errors::Error;
use crate::json::parsed_object;
use crate::processing::{
    compressed_record, datagrams_view, process_log_record, record_datagrams, record_message,
    split_failure_text, Fields,
};
use crate::chunked::{body_size, chunk_count, ChunkSize, MAX_CHUNKS};

verus! {

/// The processing loop's working state.
pub struct Pipeline {
    config: ConfigWatched,
}

impl View for Pipeline {
    type V = ConfigWatchedView;

    closed spec fn view(&self) -> ConfigWatchedView {
        self.config@
    }
}

impl Pipeline {
    /// Starts with a copy of the configuration read at startup.
    pub fn new(config: ConfigWatched) -> (r: Pipeline)
        ensures
            r@ == config@,
    {
        Pipeline { config }
    }

    /// The settings the next line is processed under.
    pub fn config(&self) -> (r: &ConfigWatched)
        ensures
            r@ == self@,
    {
        &self.config
    }

    /// Takes in the settings that were current when a change was
    /// signalled, if one was, and returns the names of those that changed.
    pub fn reload(&mut self, update: Option<ConfigWatched>) -> (r: Vec<String>)
        ensures
            update is None ==> final(self)@ == old(self)@ && r@.len() == 0,
            update matches Some(n) ==> final(self)@ == n@ && names_view(r@) == changed_fields(
                old(self)@,
                n@,
            ),
    {
        match update {
            Some(n) => update_current(&mut self.config, n),
            None => Vec::new(),
        }
    }

    /// The datagrams to send for one line, under the current settings.
    pub fn handle_line(&self, line: &str) -> (r: Result<Vec<Vec<u8>>, Error>)
        ensures
            parsed_object(line@) is None ==> r matches Err(Error::SerdeParsing(_)),
            parsed_object(line@) matches Some(fs) ==> {
                &&& r matches Ok(ds) ==> record_datagrams(fs, self@, datagrams_view(ds@))
                &&& r matches Err(e) ==> (compressed_record(fs, self@, Err(e)) || (e matches Error::InternalError(
                    t,
                ) && t@ == split_failure_text() && exists|b: Seq<u8>|
                    compressed_record(fs, self@, Ok(b)) && chunk_count(
                        b.len(),
                        body_size(ChunkSize::Wan),
                    ) > MAX_CHUNKS))
            },
    {
        process_log_record(line, &self.config)
    }
}

/// A reload that changes only the compression is reported as exactly that
/// change, and leaves the envelope of every record as it was: the next
/// record differs in its compression alone.
pub proof fn lemma_compression_change_reaches_next_record(
    cur: ConfigWatchedView,
    new: ConfigWatchedView,
    fs: Fields,
)
    requires
        new == (ConfigWatchedView { compression: new.compression, ..cur }),
    ensures
        record_message(fs, new) == record_message(fs, cur),
        changed_fields(cur, new) == if cur.compression != new.compression {
            seq!["compression"@]
        } else {
            seq![]
        },
{
    assert(changed_fields(cur, new) =~= if cur.compression != new.compression {
        seq!["compression"@]
    } else {
        seq![]
    });
}

} // verus!
