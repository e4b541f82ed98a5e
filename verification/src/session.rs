//! The session: the state one run carries, and the decisions the
//! orchestration takes between its I/O steps. The caller performs the
//! probe, the file reads and the transfers, and hands their outcomes here
//! as plain values.

use vstd::prelude::*;
use vstd::string::*;
use crate::part::Part;
use crate::plan::{contiguous, plan};
use crate::merge::{merged, segments_cover, lemma_merge_round_trip};
use crate::text::{
    all_digits,
    clamp_connections,
    clamped,
    dec_val,
    parse_decimal,
    resolve_filename,
    resolved_name,
};

verus! {

/// The length a probe response yields: the value of its length header
/// when that is a digit string whose value fits, and zero otherwise (a
/// missing or unreadable header means "no length advertised").
pub open spec fn probed_length(header: Option<Seq<char>>) -> int {
    match header {
        Some(s) => if s.len() > 0 && all_digits(s) && dec_val(s) <= usize::MAX {
            dec_val(s)
        } else {
            0
        },
        None => 0,
    }
}

/// What the run does after the probe, before touching the disk.
#[derive(Debug, Clone, Copy, PartialEq, Eq, Structural)]
pub enum RunDecision {
    /// No usable length: abort with a diagnostic and create nothing.
    AbortNoLength,
    /// The output file is already complete: stop as a success, no work.
    AlreadyComplete,
    /// Plan the parts, fetch them, merge them.
    Proceed,
}

/// The decision every run takes once the object's length and the size of
/// any existing output file are known.
pub open spec fn run_decision(length: usize, existing: Option<u64>) -> RunDecision {
    if length == 0 {
        RunDecision::AbortNoLength
    } else if existing == Some(length as u64) {
        RunDecision::AlreadyComplete
    } else {
        RunDecision::Proceed
    }
}

/// State of one download run: the request URL, the connection count, and
/// the output name resolved by the probe.
pub struct Downloader {
    pub url: String,
    pub max_conns: i32,
    pub filename: String,
}

impl Downloader {
    /// A session always holds a connection count in `1..=8`.
    pub open spec fn wf(&self) -> bool {
        1 <= self.max_conns <= 8
    }

    /// A new session for `url`, with the requested connection count
    /// clamped into `1..=8`. The output name is unknown until a probe.
    pub fn new(url: String, max_conns: i32) -> (d: Downloader)
        ensures
            d.wf(),
            d.url@ == url@,
            d.max_conns == clamped(max_conns as int),
            d.filename@ == Seq::<char>::empty(),
    {
        Downloader { url, max_conns: clamp_connections(max_conns), filename: String::new() }
    }

    /// The output name derived from a response path: its final segment,
    /// or, when that is empty, the final segment of the session's URL.
    pub fn get_filename(&self, path: String) -> (r: Option<String>)
        ensures
            match r {
                Some(f) => resolved_name(path@, self.url@) == Some(f@),
                None => resolved_name(path@, self.url@) is None,
            },
    {
        resolve_filename(path.as_str(), self.url.as_str())
    }

    /// Record what a successful metadata probe returned: the final
    /// response URL's path and, when the response carried one, the value
    /// of its length header. Resolves the output name and returns the
    /// object's length; the length is zero when the header is missing or
    /// unusable, and also when no output name can be derived, since such
    /// a run cannot proceed.
    pub fn apply_probe(&mut self, resp_path: String, content_length: Option<String>) -> (length:
        usize)
        ensures
            final(self).url@ == old(self).url@,
            final(self).max_conns == old(self).max_conns,
            match resolved_name(resp_path@, old(self).url@) {
                Some(f) => final(self).filename@ == f && length == probed_length(
                    match content_length {
                        Some(h) => Some(h@),
                        None => None,
                    },
                ),
                None => final(self).filename@ == old(self).filename@ && length == 0,
            },
    {
        let name = resolve_filename(resp_path.as_str(), self.url.as_str());
        match name {
            Some(f) => {
                self.filename = f;
                match content_length {
                    Some(h) => {
                        match parse_decimal(h.as_str()) {
                            Some(v) => {
                                if v <= usize::MAX as u64 {
                                    v as usize
                                } else {
                                    0
                                }
                            },
                            None => 0,
                        }
                    },
                    None => 0,
                }
            },
            None => 0,
        }
    }

    /// An object of length zero (failed probe, missing header, no output
    /// name) cannot be downloaded; the run aborts before any file I/O.
    pub fn is_downloadable(&self, length: &usize) -> (r: bool)
        ensures
            r == (*length != 0),
    {
        *length != 0
    }

    /// Whether the output file already holds exactly the probed length.
    /// `existing` is the size of the file at the output path, if one
    /// exists; such a run stops without re-downloading anything.
    pub fn is_already_downloaded(&self, length: &usize, existing: Option<u64>) -> (r: bool)
        ensures
            r == (existing == Some(*length as u64)),
    {
        match existing {
            Some(size) => size == *length as u64,
            None => false,
        }
    }

    /// The decision the run takes before any segment I/O.
    pub fn decide_run(&self, length: usize, existing: Option<u64>) -> (r: RunDecision)
        ensures
            r == run_decision(length, existing),
    {
        if !self.is_downloadable(&length) {
            RunDecision::AbortNoLength
        } else if self.is_already_downloaded(&length, existing) {
            RunDecision::AlreadyComplete
        } else {
            RunDecision::Proceed
        }
    }

    /// The plan for this session: its connection count's worth of
    /// contiguous parts covering `length` bytes.
    pub fn get_parts(&self, length: usize) -> (parts: Vec<Part>)
        requires
            self.wf(),
        ensures
            parts@.len() == self.max_conns as int,
            parts@[0].offset == 0,
            contiguous(parts@),
            parts@.last().offset + parts@.last().size == length,
            forall|i: int| 0 <= i < parts@.len() ==> (#[trigger] parts@[i]).index == i + 1,
    {
        plan(length, self.max_conns)
    }
}

/// A second run against a completed download does no work: when every
/// segment of a plan holds exactly its range of the target, the merge
/// reproduces the target, so an output file of exactly the probed length
/// exists, and the next run stops at its first decision, before any transfer
/// or segment I/O.
pub proof fn lemma_second_run_is_idle(
    parts: Seq<Part>,
    segments: Seq<Seq<u8>>,
    target: Seq<u8>,
    length: usize,
)
    requires
        parts.len() > 0,
        contiguous(parts),
        parts[0].offset == 0,
        parts.last().offset + parts.last().size == target.len(),
        segments_cover(parts, segments, target),
        target.len() == length,
        length != 0,
    ensures
        merged(segments) == target,
        run_decision(length, Some(merged(segments).len() as u64)) == RunDecision::AlreadyComplete,
{
    lemma_merge_round_trip(parts, segments, target);
}

} // verus!
