//! The UI-facing session logic that is pure computation: mapping the
//! installed-state probe to the status shown, recovering a stale selection
//! after a rescan, the lazily rebuilt filtered view, and description
//! truncation.

use vstd::prelude::*;
use vstd::string::StrSliceExecFns;
use vstd::string::StringExecFns;
use crate::index::{spec_filter_pred, spec_lookup, FileFilter, WavFileIndex};
use crate::text::{spec_trim_end, trim_end};
use crate::wav::WaveFileData;

verus! {

/// Why the installed-state probe could not report a state.
#[derive(Debug, Clone, Copy, PartialEq, Eq, Structural)]
pub enum ProbeError {
    /// The configuration file exists but could not be read.
    Unreadable,
    /// The configuration file was read but holds no filename assignment.
    Malformed,
}

/// The installed state shown in the UI: `None` when there is no
/// configuration file or the probe failed; `Some(0)` when the referenced
/// file is damaged; `Some(checksum)` otherwise.
pub fn probe_to_state(probe: &Result<Option<u64>, ProbeError>) -> (r: Option<u64>)
    ensures
        match probe {
            Ok(v) => r == *v,
            Err(_) => r is None,
        },
{
    match probe {
        Ok(Some(checksum)) => Some(*checksum),
        Ok(None) => None,
        Err(_) => None,
    }
}

/// The outcome of re-reading the installed state right after a write.
#[derive(Debug, Clone, Copy, PartialEq, Eq, Structural)]
pub enum VerifyOutcome {
    /// The configuration was read back; the referenced file has this
    /// checksum.
    Confirmed(u64),
    /// The configuration file is missing right after a reported success.
    MissingAfterWrite,
    /// The configuration file is there but could not be read or parsed.
    UnverifiableAfterWrite,
}

/// Judges the verification probe made after a configuration write: a read
/// state confirms the install, a missing file and an unreadable one are
/// reported as distinct anomalies rather than as success or failure.
pub fn judge_verification(probe: &Result<Option<u64>, ProbeError>) -> (r: VerifyOutcome)
    ensures
        match probe {
            Ok(Some(cs)) => r == VerifyOutcome::Confirmed(*cs),
            Ok(None) => r == VerifyOutcome::MissingAfterWrite,
            Err(_) => r == VerifyOutcome::UnverifiableAfterWrite,
        },
{
    match probe {
        Ok(Some(checksum)) => VerifyOutcome::Confirmed(*checksum),
        Ok(None) => VerifyOutcome::MissingAfterWrite,
        Err(_) => VerifyOutcome::UnverifiableAfterWrite,
    }
}

/// The selection that survives a rescan: the row matching the installed
/// configuration when that row exists, and nothing otherwise.
pub open spec fn spec_auto_selection(
    items: Seq<WaveFileData>,
    config_installed: Option<u64>,
) -> Option<u64> {
    match config_installed {
        Some(cs) => if cs != 0 && spec_lookup(items, cs) is Some {
            Some(cs)
        } else {
            None
        },
        None => None,
    }
}

/// Selects the row matching the installed configuration, if any, and asks
/// for a scroll to its row in the filtered view when the selection changed.
pub fn apply_auto_selection(
    all: &WavFileIndex,
    filtered: Option<&WavFileIndex>,
    config_installed: Option<u64>,
    old_selected: Option<u64>,
) -> (r: (Option<u64>, Option<usize>))
    requires
        all.wf(),
        match filtered {
            Some(f) => f.wf(),
            None => true,
        },
    ensures
        r.0 == spec_auto_selection(all@, config_installed),
        match r.1 {
            Some(row) => {
                &&& r.0 != old_selected
                &&& r.0 is Some
                &&& filtered matches Some(f) && row < f@.len() && spec_lookup(
                    f@,
                    r.0->Some_0,
                ) == Some(f@[row as int])
            },
            None => r.0 == old_selected || r.0 is None || filtered is None || (
            filtered matches Some(f) ==> spec_lookup(f@, r.0->Some_0) is None),
        },
{
    let selected: Option<u64> = match config_installed {
        Some(checksum) => {
            if checksum != 0 && all.get_by_checksum(checksum).is_some() {
                Some(checksum)
            } else {
                None
            }
        },
        None => None,
    };
    let changed = match (selected, old_selected) {
        (Some(a), Some(b)) => a != b,
        (None, None) => false,
        _ => true,
    };
    let scroll: Option<usize> = if changed {
        match (selected, filtered) {
            (Some(checksum), Some(f)) => f.index_of_checksum(checksum),
            _ => None,
        }
    } else {
        None
    };
    (selected, scroll)
}

/// The lazily rebuilt filtered view: the filter inputs, and the derived
/// index when it is up to date. Changing the filter inputs drops the cached
/// copy; it is rebuilt on the next read.
pub struct FilteredCache {
    filter: FileFilter,
    cached: Option<WavFileIndex>,
    source: Ghost<Seq<WaveFileData>>,
}

impl FilteredCache {
    /// The cached copy, when present, is the filtered view of the recorded
    /// source rows.
    pub closed spec fn wf_for(&self, src: Seq<WaveFileData>) -> bool {
        match self.cached {
            Some(c) => c.wf() && self.source@ == src && c@ == src.filter(
                spec_filter_pred(self.filter),
            ),
            None => true,
        }
    }

    /// The current filter inputs.
    pub closed spec fn spec_filter(&self) -> FileFilter {
        self.filter
    }

    /// Whether a cached copy is held.
    pub closed spec fn spec_is_cached(&self) -> bool {
        self.cached is Some
    }

    /// A fresh cache for the given filter inputs, holding nothing yet.
    pub fn new(filter: FileFilter) -> (r: Self)
        ensures
            r.spec_filter() == filter,
            !r.spec_is_cached(),
            forall|src: Seq<WaveFileData>| r.wf_for(src),
    {
        FilteredCache { filter, cached: None, source: Ghost(Seq::empty()) }
    }

    /// Replaces the filter inputs and drops the cached copy.
    pub fn set_filter(&mut self, filter: FileFilter)
        ensures
            final(self).spec_filter() == filter,
            !final(self).spec_is_cached(),
            forall|src: Seq<WaveFileData>| final(self).wf_for(src),
    {
        self.filter = filter;
        self.cached = None;
    }

    /// Drops the cached copy; the next read rebuilds it.
    pub fn invalidate(&mut self)
        ensures
            final(self).spec_filter() == old(self).spec_filter(),
            !final(self).spec_is_cached(),
            forall|src: Seq<WaveFileData>| final(self).wf_for(src),
    {
        self.cached = None;
    }

    /// The filtered view of `all`, rebuilt now if no up-to-date copy is
    /// held.
    pub fn get<'a>(&'a mut self, all: &WavFileIndex) -> (r: &'a WavFileIndex)
        requires
            all.wf(),
            old(self).wf_for(all@),
        ensures
            final(self).wf_for(all@),
            final(self).spec_filter() == old(self).spec_filter(),
            r.wf(),
            r@ == all@.filter(spec_filter_pred(old(self).spec_filter())),
    {
        if self.cached.is_none() {
            let fresh = all.filtered_clone(&self.filter);
            self.cached = Some(fresh);
            proof {
                self.source@ = all@;
            }
        }
        self.cached.as_ref().unwrap()
    }
}

/// What the description pane shows of a long text: the first 237 characters
/// with trailing whitespace removed and an ellipsis appended; short texts
/// are shown whole.
pub fn truncate_description(description: &str) -> (r: String)
    ensures
        description@.len() <= 240 ==> r@ == description@,
        description@.len() > 240 ==> r@ == spec_trim_end(description@.subrange(0, 237)) + "..."@,
{
    let len = description.unicode_len();
    if len <= 240 {
        description.to_owned()
    } else {
        let cut = description.substring_char(0, 237);
        let trimmed = trim_end(cut);
        let mut out = trimmed.to_owned();
        out.append("...");
        out
    }
}

} // verus!
