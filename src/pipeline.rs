use vstd::prelude::*;

use crate::batch::{push_step, BatchAccumulator};
use crate::config::{rule_listed, Firewall};
use crate::parser::{
    host_end, kv_end, kv_pairs, line_accepted, parse_log_line, rule_close, rule_open, time_of, Log,
};
use crate::wire::{compressible_len, create_push_request, push_request_bytes, snappy_block, PushError};

verus! {

/// Relies on snap::raw::Encoder::new, which builds an encoder with empty tables.
pub assume_specification[ snap::raw::Encoder::new ]() -> snap::raw::Encoder;

/// The rule name written in a line that follows the grammar.
pub open spec fn rule_of(s: Seq<char>) -> Seq<char> {
    s.subrange(rule_open(s) + 1, rule_close(s))
}

/// What became of a rendered entry handed to the shipper.
#[derive(Debug)]
pub enum Submitted {
    /// The batch is not full yet.
    Pending,
    /// The batch filled up; these bytes are the compressed push request.
    Ready(Vec<u8>),
    /// The batch filled up but could not be encoded; it is dropped.
    Failed(PushError),
}

/// The steady-state pipeline: selects lines by rule, batches rendered
/// entries and encodes each full batch.
pub struct Shipper {
    firewall: Firewall,
    batch: BatchAccumulator,
    snappy: snap::raw::Encoder,
    encode_buf: Vec<u8>,
}

impl Shipper {
    pub closed spec fn wf(&self) -> bool {
        self.batch.wf()
    }

    /// The rules whose lines are kept.
    pub closed spec fn rules(&self) -> Seq<String> {
        self.firewall.rules@
    }

    pub closed spec fn pending(&self) -> Seq<(i64, String)> {
        self.batch.pending()
    }

    pub closed spec fn batch_size(&self) -> nat {
        self.batch.cap()
    }

    pub fn new(firewall: Firewall, batch_size: usize) -> (r: Shipper)
        requires
            batch_size > 0,
        ensures
            r.wf(),
            r.rules() == firewall.rules@,
            r.batch_size() == batch_size,
            r.pending().len() == 0,
    {
        Shipper {
            firewall,
            batch: BatchAccumulator::new(batch_size),
            snappy: snap::raw::Encoder::new(),
            encode_buf: Vec::new(),
        }
    }

    /// Parses `line` and keeps it if its rule is one of the firewall rules.
    pub fn select(&self, line: &str, year: i32) -> (r: Option<Log>)
        ensures
            r is Some <==> line_accepted(line@, year) && rule_listed(self.rules(), rule_of(line@)),
            r matches Some(log) ==> {
                &&& log.hostname@ == line@.subrange(16, host_end(line@))
                &&& log.rule@ == rule_of(line@)
                &&& log.values.pair_seq() == kv_pairs(line@, rule_close(line@) + 1)
                &&& log.time.wf()
                &&& time_of(line@, year, log.time)
            },
    {
        match parse_log_line(line, year) {
            Some((_, log)) => {
                if self.firewall.accepts(log.rule.as_str()) {
                    Some(log)
                } else {
                    None
                }
            },
            None => None,
        }
    }

    /// Adds a rendered entry; when that fills the batch, encodes the batch
    /// in the order its entries came and starts a new one.
    pub fn add(&mut self, timestamp: i64, line: String) -> (r: Submitted)
        requires
            old(self).wf(),
        ensures
            final(self).wf(),
            final(self).rules() == old(self).rules(),
            final(self).batch_size() == old(self).batch_size(),
            ({
                let (p, out) = push_step(old(self).pending(), (timestamp, line), old(self).batch_size());
                &&& final(self).pending() == p
                &&& out is None ==> r is Pending
                &&& out matches Some(b) ==> {
                    &&& r is Ready <==> compressible_len(push_request_bytes(b).len() as int)
                    &&& r matches Submitted::Ready(bytes) ==> bytes@ == snappy_block(push_request_bytes(b))
                    &&& r matches Submitted::Failed(e) ==> e == PushError::TooBig
                }
            }),
    {
        match self.batch.push(timestamp, line) {
            None => Submitted::Pending,
            Some(mut entries) => {
                match create_push_request(&mut self.snappy, &mut self.encode_buf, &mut entries) {
                    Ok(bytes) => Submitted::Ready(bytes),
                    Err(e) => Submitted::Failed(e),
                }
            },
        }
    }
}

/// Whether a push was accepted: any 2xx status.
pub fn push_succeeded(status: u16) -> (r: bool)
    ensures
        r == (200 <= status && status <= 299),
{
    200 <= status && status <= 299
}

} // verus!
