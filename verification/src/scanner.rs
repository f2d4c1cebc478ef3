//! Assembly of the WAV library from a directory scan: records are built from
//! the discovered paths, classification results are applied back in discovery
//! order, metadata is attached by file stem, and the rows are sorted with the
//! legacy-compatibility group first.

use vstd::prelude::*;
use vstd::relations::sorted_by;
use crate::descriptions::{rc_clone_metadata, spec_table_lookup, Descriptions};
use crate::index::WavFileIndex;
use crate::text::{
    contains_sub, file_stem_of, lemma_lex_le_total, lemma_lex_le_trans, relative_to,
    spec_contains, spec_file_stem, spec_lex_le, spec_relative_to, str_le,
};
use crate::wav::{WaveFileData, WaveSampleRate};

verus! {

/// Whether a record belongs to the legacy-compatibility group that sorts
/// first: its absolute path contains the `HeSuVi/` segment.
pub open spec fn spec_is_hesuvi(w: WaveFileData) -> bool {
    spec_contains(w.path@, "HeSuVi/"@)
}

/// The sort order of the library rows: the legacy-compatibility group sorts
/// before all other records; within each group, records sort by absolute
/// path, lexicographically.
pub open spec fn spec_record_le(a: WaveFileData, b: WaveFileData) -> bool {
    if spec_is_hesuvi(a) && !spec_is_hesuvi(b) {
        true
    } else if !spec_is_hesuvi(a) && spec_is_hesuvi(b) {
        false
    } else {
        spec_lex_le(a.path@, b.path@)
    }
}

/// The row order as a binary predicate.
pub open spec fn record_le_pred() -> spec_fn(WaveFileData, WaveFileData) -> bool {
    |a: WaveFileData, b: WaveFileData| spec_record_le(a, b)
}

/// Any two records are ordered one way or the other.
pub proof fn lemma_record_le_total(a: WaveFileData, b: WaveFileData)
    ensures
        spec_record_le(a, b) || spec_record_le(b, a),
{
    lemma_lex_le_total(a.path@, b.path@);
}

/// The row order is transitive.
pub proof fn lemma_record_le_trans(a: WaveFileData, b: WaveFileData, c: WaveFileData)
    requires
        spec_record_le(a, b),
        spec_record_le(b, c),
    ensures
        spec_record_le(a, c),
{
    if spec_is_hesuvi(a) == spec_is_hesuvi(b) && spec_is_hesuvi(b) == spec_is_hesuvi(c) {
        lemma_lex_le_trans(a.path@, b.path@, c.path@);
    }
}

/// Two positions of a sorted prefix are ordered.
proof fn lemma_sorted_prefix_pair(s: Seq<WaveFileData>, i: int, x: int, y: int)
    requires
        sorted_by(s.subrange(0, i), record_le_pred()),
        0 <= x < y < i <= s.len(),
    ensures
        spec_record_le(s[x], s[y]),
{
    let sp = s.subrange(0, i);
    assert(record_le_pred()(sp[x], sp[y]));
    assert(sp[x] == s[x]);
    assert(sp[y] == s[y]);
}

/// Decides `spec_record_le` for two records.
fn record_le(a: &WaveFileData, b: &WaveFileData) -> (r: bool)
    ensures
        r == spec_record_le(*a, *b),
{
    let a_hesuvi = contains_sub(a.path.as_str(), "HeSuVi/");
    let b_hesuvi = contains_sub(b.path.as_str(), "HeSuVi/");
    if a_hesuvi && !b_hesuvi {
        true
    } else if !a_hesuvi && b_hesuvi {
        false
    } else {
        str_le(a.path.as_str(), b.path.as_str())
    }
}

/// Sorts the records so that the legacy-compatibility group comes first and
/// each group is ordered by absolute path. The rows afterwards are the same
/// rows, reordered.
pub fn sort_records(records: &mut Vec<WaveFileData>)
    ensures
        sorted_by(final(records)@, record_le_pred()),
        final(records)@.to_multiset() == old(records)@.to_multiset(),
        final(records)@.len() == old(records)@.len(),
{
    broadcast use vstd::seq_lib::group_to_multiset_ensures;
    broadcast use vstd::seq_lib::to_multiset_insert;

    let n = records.len();
    if n == 0 {
        return ;
    }
    let mut i: usize = 1;
    while i < n
        invariant
            1 <= i <= n,
            n == records@.len(),
            sorted_by(records@.subrange(0, i as int), record_le_pred()),
            records@.to_multiset() == old(records)@.to_multiset(),
        decreases n - i,
    {
        let mut p: usize = 0;
        while p < i && record_le(&records[p], &records[i])
            invariant
                0 <= p <= i < n,
                n == records@.len(),
                forall|q: int| 0 <= q < p ==> spec_record_le(#[trigger] records@[q], records@[i as int]),
            decreases i - p,
        {
            p = p + 1;
        }
        let ghost pre = records@;
        let ghost item = records@[i as int];
        proof {
            assert forall|q: int| p <= q < i implies spec_record_le(
                item,
                #[trigger] pre[q],
            ) by {
                if q == p {
                    lemma_record_le_total(pre[q], item);
                } else {
                    lemma_sorted_prefix_pair(pre, i as int, p as int, q);
                    lemma_record_le_total(pre[p as int], item);
                    lemma_record_le_trans(item, pre[p as int], pre[q]);
                }
            }
        }
        let moved = records.remove(i);
        records.insert(p, moved);
        proof {
            let post = records@;
            assert(post == pre.remove(i as int).insert(p as int, item));
            assert forall|a: int, b: int| 0 <= a < b < i + 1 implies spec_record_le(
                #[trigger] post[a],
                #[trigger] post[b],
            ) by {
                assert forall|x: int, y: int| 0 <= x < y < i implies spec_record_le(
                    #[trigger] pre[x],
                    #[trigger] pre[y],
                ) by {
                    lemma_sorted_prefix_pair(pre, i as int, x, y);
                }
                if b < p as int {
                } else if b == p as int {
                } else if a < p as int {
                    assert(post[b] == pre[b - 1]);
                } else if a == p as int {
                    assert(post[b] == pre[b - 1]);
                } else {
                    assert(post[a] == pre[a - 1]);
                    assert(post[b] == pre[b - 1]);
                }
            }
            assert(sorted_by(post.subrange(0, i + 1), record_le_pred())) by {
                assert forall|a: int, b: int|
                    0 <= a < b < i + 1 implies #[trigger] record_le_pred()(
                    post.subrange(0, i + 1)[a],
                    post.subrange(0, i + 1)[b],
                ) by {
                    assert(post.subrange(0, i + 1)[a] == post[a]);
                    assert(post.subrange(0, i + 1)[b] == post[b]);
                }
            }
            assert(post.to_multiset() == pre.to_multiset()) by {
                pre.to_multiset_ensures();
                vstd::seq_lib::to_multiset_insert(pre.remove(i as int), p as int, item);
                assert(pre.remove(i as int).to_multiset() =~= pre.to_multiset().remove(item));
                assert(post.to_multiset() =~= pre.to_multiset().remove(item).insert(item));
                assert(pre.to_multiset().contains(item)) by {
                    assert(pre.contains(item)) by {
                        assert(pre[i as int] == item);
                    }
                }
                assert(pre.to_multiset().remove(item).insert(item) =~= pre.to_multiset());
            }
        }
        i = i + 1;
    }
    proof {
        assert(records@.subrange(0, n as int) =~= records@);
    }
}

/// A freshly discovered row for `path`: the relative path derived from the
/// scan root, classification pending.
pub open spec fn spec_fresh_record(path: String, base: Seq<char>, w: WaveFileData) -> bool {
    &&& w.path == path
    &&& w.relative_path@ == spec_relative_to(base, path@)
    &&& w.sample_rate == WaveSampleRate::Unknown
    &&& w.metadata is None
    &&& w.checksum == 0
}

/// Creates the row for one discovered path, with the relative path derived
/// from the scan root and classification left pending.
pub fn make_record(path: String, base: &str) -> (r: WaveFileData)
    ensures
        spec_fresh_record(path, base@, r),
{
    let rel = relative_to(base, path.as_str()).to_owned();
    WaveFileData {
        path,
        relative_path: rel,
        sample_rate: WaveSampleRate::Unknown,
        metadata: None,
        checksum: 0,
    }
}

/// Creates the rows for all discovered paths, in discovery order.
pub fn build_records(paths: &Vec<String>, base: &str) -> (r: Vec<WaveFileData>)
    ensures
        r@.len() == paths@.len(),
        forall|i: int|
            0 <= i < r@.len() ==> spec_fresh_record(paths@[i], base@, #[trigger] r@[i]),
{
    let n = paths.len();
    let mut out: Vec<WaveFileData> = Vec::new();
    let mut i: usize = 0;
    while i < n
        invariant
            0 <= i <= n,
            n == paths@.len(),
            out@.len() == i,
            forall|j: int|
                0 <= j < i ==> spec_fresh_record(paths@[j], base@, #[trigger] out@[j]),
        decreases n - i,
    {
        out.push(make_record(paths[i].clone(), base));
        i = i + 1;
    }
    out
}

/// The row `w` is `w0` with one classification result applied: the path
/// fields and metadata kept, the rate and checksum taken from the result.
pub open spec fn spec_classified_record(
    w0: WaveFileData,
    c: (WaveSampleRate, u64),
    w: WaveFileData,
) -> bool {
    &&& w.path == w0.path
    &&& w.relative_path == w0.relative_path
    &&& w.metadata == w0.metadata
    &&& w.sample_rate == c.0
    &&& w.checksum == c.1
}

/// Applies the classification results back to the rows, in discovery order:
/// result `i` fills the rate and checksum of row `i`.
pub fn apply_classifications(
    records: &Vec<WaveFileData>,
    results: &Vec<(WaveSampleRate, u64)>,
) -> (r: Vec<WaveFileData>)
    requires
        records@.len() == results@.len(),
    ensures
        r@.len() == records@.len(),
        forall|i: int|
            0 <= i < r@.len() ==> spec_classified_record(
                records@[i],
                results@[i],
                #[trigger] r@[i],
            ),
{
    let n = records.len();
    let mut out: Vec<WaveFileData> = Vec::new();
    let mut i: usize = 0;
    while i < n
        invariant
            0 <= i <= n,
            n == records@.len(),
            n == results@.len(),
            out@.len() == i,
            forall|j: int|
                0 <= j < i ==> spec_classified_record(
                    records@[j],
                    results@[j],
                    #[trigger] out@[j],
                ),
        decreases n - i,
    {
        let w = &records[i];
        out.push(
            WaveFileData {
                path: w.path.clone(),
                relative_path: w.relative_path.clone(),
                sample_rate: results[i].0,
                metadata: match &w.metadata {
                    Some(rc) => Some(rc_clone_metadata(rc)),
                    None => None,
                },
                checksum: results[i].1,
            },
        );
        i = i + 1;
    }
    out
}

/// The row `w` is `w0` with its metadata set to the description-table entry
/// for the file stem of its absolute path.
pub open spec fn spec_with_metadata(
    w0: WaveFileData,
    desc: Seq<(String, std::rc::Rc<crate::descriptions::HRTFMetadata>)>,
    w: WaveFileData,
) -> bool {
    &&& w.path == w0.path
    &&& w.relative_path == w0.relative_path
    &&& w.sample_rate == w0.sample_rate
    &&& w.checksum == w0.checksum
    &&& w.metadata == spec_table_lookup(desc, spec_file_stem(w0.path@))
}

/// Attaches to each row the description-table entry for its file stem.
pub fn attach_metadata(records: &Vec<WaveFileData>, descriptions: &Descriptions) -> (r: Vec<
    WaveFileData,
>)
    ensures
        r@.len() == records@.len(),
        forall|i: int|
            0 <= i < r@.len() ==> spec_with_metadata(records@[i], descriptions@, #[trigger] r@[i]),
{
    let n = records.len();
    let mut out: Vec<WaveFileData> = Vec::new();
    let mut i: usize = 0;
    while i < n
        invariant
            0 <= i <= n,
            n == records@.len(),
            out@.len() == i,
            forall|j: int|
                0 <= j < i ==> spec_with_metadata(records@[j], descriptions@, #[trigger] out@[j]),
        decreases n - i,
    {
        let w = &records[i];
        let stem = file_stem_of(w.path.as_str());
        let md = descriptions.get_rc(stem);
        out.push(
            WaveFileData {
                path: w.path.clone(),
                relative_path: w.relative_path.clone(),
                sample_rate: w.sample_rate,
                metadata: md,
                checksum: w.checksum,
            },
        );
        i = i + 1;
    }
    out
}

/// The row the whole scan produces for `path`: paths derived from the scan
/// root, rate and checksum from the classification result, metadata from the
/// description table by file stem.
pub open spec fn spec_scanned_record(
    path: String,
    base: Seq<char>,
    c: (WaveSampleRate, u64),
    desc: Seq<(String, std::rc::Rc<crate::descriptions::HRTFMetadata>)>,
    w: WaveFileData,
) -> bool {
    &&& w.path == path
    &&& w.relative_path@ == spec_relative_to(base, path@)
    &&& w.sample_rate == c.0
    &&& w.checksum == c.1
    &&& w.metadata == spec_table_lookup(desc, spec_file_stem(path@))
}

/// Assembles the library index for one rescan: a row is built for each
/// discovered path, the classification results are applied back in discovery
/// order, metadata is attached by file stem, and the rows are sorted with
/// the legacy-compatibility group first.
pub fn rescan_assemble(
    paths: &Vec<String>,
    base: &str,
    results: &Vec<(WaveSampleRate, u64)>,
    descriptions: &Descriptions,
) -> (r: WavFileIndex)
    requires
        paths@.len() == results@.len(),
    ensures
        r.wf(),
        r@.len() == paths@.len(),
        sorted_by(r@, record_le_pred()),
        exists|pre: Seq<WaveFileData>|
            #![trigger pre.to_multiset()]
            {
                &&& pre.len() == paths@.len()
                &&& forall|i: int|
                    0 <= i < pre.len() ==> spec_scanned_record(
                        paths@[i],
                        base@,
                        results@[i],
                        descriptions@,
                        #[trigger] pre[i],
                    )
                &&& r@.to_multiset() == pre.to_multiset()
            },
{
    let fresh = build_records(paths, base);
    let classified = apply_classifications(&fresh, results);
    let mut complete = attach_metadata(&classified, descriptions);
    let ghost pre = complete@;
    proof {
        assert forall|i: int| 0 <= i < pre.len() implies spec_scanned_record(
            paths@[i],
            base@,
            results@[i],
            descriptions@,
            #[trigger] pre[i],
        ) by {
            assert(spec_fresh_record(paths@[i], base@, fresh@[i]));
            assert(spec_classified_record(fresh@[i], results@[i], classified@[i]));
            assert(spec_with_metadata(classified@[i], descriptions@, pre[i]));
        }
    }
    sort_records(&mut complete);
    let index = WavFileIndex::from_vec(complete);
    proof {
        assert(pre.len() == paths@.len());
        assert(index@.to_multiset() == pre.to_multiset());
        pre.to_multiset_ensures();
        index@.to_multiset_ensures();
    }
    index
}

} // verus!
