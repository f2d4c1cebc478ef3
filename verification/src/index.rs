//! Indexed storage for scanned WAV file records: insertion-ordered rows with
//! a map from non-zero content checksum to row position, and derived filtered
//! copies.
//!
//! Checksum `0` is the sentinel for damaged files and is never indexed, so a
//! lookup of `0` always misses. When two rows carry the same non-zero
//! checksum, the map points at the later row: duplicates are unexpected but
//! must not crash, and last-wins matches how the rows are rebuilt on rescan.

use std::collections::HashMap;
use vstd::prelude::*;
use crate::text::{contains_sub, lower_of, lowercase, spec_contains};
use crate::wav::{WaveFileData, WaveSampleRate};

verus! {

broadcast use vstd::std_specs::hash::group_hash_axioms;

/// The record a checksum lookup returns: the latest row whose checksum reads
/// `cs`, and nothing for the damaged sentinel `0`.
pub open spec fn spec_lookup(items: Seq<WaveFileData>, cs: u64) -> Option<WaveFileData>
    decreases items.len(),
{
    if cs == 0 || items.len() == 0 {
        None
    } else if items.last().checksum == cs {
        Some(items.last())
    } else {
        spec_lookup(items.drop_last(), cs)
    }
}

/// A row that no later row shadows is what `spec_lookup` returns.
proof fn lemma_lookup_at_index(items: Seq<WaveFileData>, cs: u64, k: int)
    requires
        cs != 0,
        0 <= k < items.len(),
        items[k].checksum == cs,
        forall|j: int| k < j < items.len() ==> (#[trigger] items[j]).checksum != cs,
    ensures
        spec_lookup(items, cs) == Some(items[k]),
    decreases items.len(),
{
    if k == items.len() - 1 {
    } else {
        lemma_lookup_at_index(items.drop_last(), cs, k);
    }
}

/// Law: of any two records stored with the same non-zero checksum, the
/// checksum lookup returns the later-inserted one.
pub proof fn lemma_duplicate_checksum_last_wins(items: Seq<WaveFileData>, cs: u64, i: int, j: int)
    requires
        cs != 0,
        0 <= i < j < items.len(),
        items[i].checksum == cs,
        items[j].checksum == cs,
        forall|k: int| j < k < items.len() ==> (#[trigger] items[k]).checksum != cs,
    ensures
        spec_lookup(items, cs) == Some(items[j]),
{
    lemma_lookup_at_index(items, cs, j);
}

/// With no row carrying `cs`, the lookup misses.
proof fn lemma_lookup_none(items: Seq<WaveFileData>, cs: u64)
    requires
        forall|i: int| 0 <= i < items.len() ==> (#[trigger] items[i]).checksum != cs,
    ensures
        spec_lookup(items, cs) is None,
    decreases items.len(),
{
    if items.len() > 0 {
        lemma_lookup_none(items.drop_last(), cs);
    }
}

/// Indexed storage for WAV file records with fast lookup by checksum.
pub struct WavFileIndex {
    items: Vec<WaveFileData>,
    checksum_index: HashMap<u64, usize>,
}

impl View for WavFileIndex {
    type V = Seq<WaveFileData>;

    /// The stored records, in row order.
    closed spec fn view(&self) -> Seq<WaveFileData> {
        self.items@
    }
}

impl WavFileIndex {
    /// The checksum map is sound and complete: every key is the position of
    /// the latest row with that non-zero checksum, and every non-zero row
    /// checksum is a key.
    pub closed spec fn wf(&self) -> bool {
        let m = self.checksum_index@;
        &&& forall|cs: u64|
            #[trigger] m.contains_key(cs) ==> cs != 0 && m[cs] < self.items@.len()
                && self.items@[m[cs] as int].checksum == cs
        &&& forall|i: int|
            0 <= i < self.items@.len() && (#[trigger] self.items@[i]).checksum != 0
                ==> m.contains_key(self.items@[i].checksum)
        &&& forall|cs: u64, i: int|
            #[trigger] m.contains_key(cs) && m[cs] < i < self.items@.len() ==> (
            #[trigger] self.items@[i]).checksum != cs
    }

    /// Creates an empty index.
    pub fn new() -> (r: Self)
        ensures
            r.wf(),
            r@ == Seq::<WaveFileData>::empty(),
    {
        let r = WavFileIndex { items: Vec::new(), checksum_index: HashMap::new() };
        proof {
            assert(r.items@ =~= Seq::<WaveFileData>::empty());
        }
        r
    }

    /// Builds an index from a vector of records, keeping their order. A
    /// later duplicate non-zero checksum overwrites the earlier map entry.
    pub fn from_vec(items: Vec<WaveFileData>) -> (r: Self)
        ensures
            r.wf(),
            r@ == items@,
    {
        let n = items.len();
        let mut checksum_index: HashMap<u64, usize> = HashMap::new();
        let mut idx: usize = 0;
        while idx < n
            invariant
                0 <= idx <= n,
                n == items@.len(),
                forall|cs: u64|
                    #[trigger] checksum_index@.contains_key(cs) ==> cs != 0 && checksum_index@[cs]
                        < idx && items@[checksum_index@[cs] as int].checksum == cs,
                forall|i: int|
                    0 <= i < idx && (#[trigger] items@[i]).checksum != 0
                        ==> checksum_index@.contains_key(items@[i].checksum),
                forall|cs: u64, i: int|
                    #[trigger] checksum_index@.contains_key(cs) && checksum_index@[cs] < i < idx
                        ==> (#[trigger] items@[i]).checksum != cs,
            decreases n - idx,
        {
            let cs = items[idx].checksum;
            if cs != 0 {
                checksum_index.insert(cs, idx);
            }
            idx = idx + 1;
        }
        WavFileIndex { items, checksum_index }
    }

    /// Removes all records and clears the checksum map.
    pub fn clear(&mut self)
        ensures
            final(self).wf(),
            final(self)@ == Seq::<WaveFileData>::empty(),
    {
        self.items.clear();
        self.checksum_index.clear();
        proof {
            assert(self.items@ =~= Seq::<WaveFileData>::empty());
        }
    }

    /// Appends a record. A non-zero checksum is indexed at the new row,
    /// overwriting any earlier row with the same checksum.
    pub fn add(&mut self, item: WaveFileData)
        requires
            old(self).wf(),
        ensures
            final(self).wf(),
            final(self)@ == old(self)@.push(item),
    {
        let idx = self.items.len();
        self.items.push(item);
        if self.items[idx].checksum != 0 {
            let cs = self.items[idx].checksum;
            self.checksum_index.insert(cs, idx);
        }
    }

    /// The number of stored records.
    pub fn len(&self) -> (r: usize)
        ensures
            r == self@.len(),
    {
        self.items.len()
    }

    /// The record at a row position, when the position is in bounds.
    pub fn get_by_index(&self, index: usize) -> (r: Option<&WaveFileData>)
        ensures
            match r {
                Some(item) => index < self@.len() && *item == self@[index as int],
                None => index >= self@.len(),
            },
    {
        if index < self.items.len() {
            Some(&self.items[index])
        } else {
            None
        }
    }

    /// Looks a record up by content checksum. The damaged sentinel `0` is
    /// never found; a duplicated checksum finds the latest row.
    pub fn get_by_checksum(&self, checksum: u64) -> (r: Option<&WaveFileData>)
        requires
            self.wf(),
        ensures
            match r {
                Some(item) => spec_lookup(self@, checksum) == Some(*item),
                None => spec_lookup(self@, checksum) is None,
            },
            checksum == 0 ==> r is None,
    {
        if checksum == 0 {
            return None;
        }
        match self.checksum_index.get(&checksum) {
            Some(idx_ref) => {
                let idx = *idx_ref;
                proof {
                    lemma_lookup_at_index(self@, checksum, idx as int);
                }
                Some(&self.items[idx])
            },
            None => {
                proof {
                    lemma_lookup_none(self@, checksum);
                }
                None
            },
        }
    }

    /// The row position a checksum lookup would find, used to scroll a table
    /// to the selected row.
    pub fn index_of_checksum(&self, checksum: u64) -> (r: Option<usize>)
        requires
            self.wf(),
        ensures
            match r {
                Some(i) => i < self@.len() && spec_lookup(self@, checksum) == Some(self@[i as int]),
                None => spec_lookup(self@, checksum) is None,
            },
            checksum == 0 ==> r is None,
    {
        if checksum == 0 {
            return None;
        }
        match self.checksum_index.get(&checksum) {
            Some(idx_ref) => {
                let idx = *idx_ref;
                proof {
                    lemma_lookup_at_index(self@, checksum, idx as int);
                }
                Some(idx)
            },
            None => {
                proof {
                    lemma_lookup_none(self@, checksum);
                }
                None
            },
        }
    }

    /// The stored records as a slice, in row order.
    pub fn iter(&self) -> (r: &[WaveFileData])
        ensures
            r@ == self@,
    {
        self.items.as_slice()
    }

    /// Creates a new index holding copies of the records that match the
    /// filter, preserving their relative order.
    pub fn filtered_clone(&self, filter: &FileFilter) -> (r: Self)
        ensures
            r.wf(),
            r@ == self@.filter(spec_filter_pred(*filter)),
    {
        let ghost pred = spec_filter_pred(*filter);
        let n = self.items.len();
        let mut out: Vec<WaveFileData> = Vec::new();
        proof {
            reveal(Seq::filter);
            assert(self@.subrange(0, 0) =~= Seq::<WaveFileData>::empty());
        }
        let mut i: usize = 0;
        while i < n
            invariant
                0 <= i <= n,
                n == self@.len(),
                pred == spec_filter_pred(*filter),
                out@ == self@.subrange(0, i as int).filter(pred),
            decreases n - i,
        {
            let matched = matches_filter(filter, &self.items[i]);
            proof {
                reveal(Seq::filter);
                let prefix = self@.subrange(0, i + 1);
                assert(prefix.drop_last() =~= self@.subrange(0, i as int));
                assert(prefix.last() == self@[i as int]);
            }
            if matched {
                out.push(self.items[i].clone());
            }
            i = i + 1;
        }
        proof {
            assert(self@.subrange(0, n as int) =~= self@);
        }
        let mut result = Self::from_vec(out);
        result.shrink_to_fit();
        result
    }

    /// Releases spare capacity once the index is fully built; the contents
    /// do not change.
    pub fn shrink_to_fit(&mut self)
        ensures
            final(self)@ == old(self)@,
            old(self).wf() ==> final(self).wf(),
    {
        vec_shrink_to_fit(&mut self.items);
        map_shrink_to_fit(&mut self.checksum_index);
    }
}

/// The inputs of the row filter: a sample-rate choice and a search text.
pub struct FileFilter {
    /// `Unknown` admits every rate; `Damaged` admits none; a named rate
    /// admits exactly the rows carrying it.
    pub sample_rate: WaveSampleRate,
    /// When non-empty, a row's relative path must contain this text,
    /// compared in lowercase.
    pub search: String,
}

/// Whether a record passes the filter: the sample-rate choice admits it and,
/// when a search text is set, its lowercased relative path contains the
/// lowercased search text.
pub open spec fn spec_filter_matches(f: FileFilter, w: WaveFileData) -> bool {
    &&& match f.sample_rate {
        WaveSampleRate::Unknown => true,
        WaveSampleRate::Damaged => false,
        _ => w.sample_rate == f.sample_rate,
    }
    &&& (f.search@.len() == 0 || spec_contains(lower_of(w.relative_path@), lower_of(f.search@)))
}

/// The filter as a predicate on records.
pub open spec fn spec_filter_pred(f: FileFilter) -> spec_fn(WaveFileData) -> bool {
    |w: WaveFileData| spec_filter_matches(f, w)
}

/// Decides `spec_filter_matches` for one record.
pub fn matches_filter(f: &FileFilter, w: &WaveFileData) -> (r: bool)
    ensures
        r == spec_filter_matches(*f, *w),
{
    let rate_ok = match f.sample_rate {
        WaveSampleRate::Unknown => true,
        WaveSampleRate::Damaged => false,
        _ => w.sample_rate == f.sample_rate,
    };
    if !rate_ok {
        return false;
    }
    if f.search.as_str().is_empty() {
        return true;
    }
    let hay = lowercase(w.relative_path.as_str());
    let needle = lowercase(f.search.as_str());
    contains_sub(hay.as_str(), needle.as_str())
}

/// Filtering a sequence twice with one predicate equals filtering it once.
proof fn lemma_filter_idempotent_seq<A>(s: Seq<A>, pred: spec_fn(A) -> bool)
    ensures
        s.filter(pred).filter(pred) == s.filter(pred),
    decreases s.len(),
{
    reveal(Seq::filter);
    if s.len() == 0 {
    } else {
        lemma_filter_idempotent_seq(s.drop_last(), pred);
        if pred(s.last()) {
            let t = s.drop_last().filter(pred).push(s.last());
            assert(s.filter(pred) == t);
            assert(t.drop_last() =~= s.drop_last().filter(pred));
            assert(t.last() == s.last());
        }
    }
}

/// Law: a filtered view is idempotent. Filtering an already-filtered set of
/// records again with the same filter yields the same records as the single
/// filtering pass.
pub proof fn lemma_filtered_view_idempotent(items: Seq<WaveFileData>, f: FileFilter)
    ensures
        items.filter(spec_filter_pred(f)).filter(spec_filter_pred(f)) == items.filter(
            spec_filter_pred(f),
        ),
{
    lemma_filter_idempotent_seq(items, spec_filter_pred(f));
}

/// Relies on Vec::shrink_to_fit: only spare capacity is released, the
/// contents stay as they are.
#[verifier::external_body]
fn vec_shrink_to_fit(v: &mut Vec<WaveFileData>)
    ensures
        final(v)@ == old(v)@,
{
    v.shrink_to_fit()
}

/// Relies on HashMap::shrink_to_fit: only spare capacity is released, the
/// contents stay as they are.
#[verifier::external_body]
fn map_shrink_to_fit(m: &mut HashMap<u64, usize>)
    ensures
        final(m)@ == old(m)@,
{
    m.shrink_to_fit()
}

} // verus!
