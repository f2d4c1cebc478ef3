//! Descriptive metadata for known HRTF impulse-response files: a read-only
//! table keyed by the file stem, loaded from a semicolon-separated CSV
//! document. Many WAV records may share one metadata entry, so entries are
//! handed out as reference-counted values.

use std::rc::Rc;
use vstd::prelude::*;
use vstd::string::StrSliceExecFns;
use crate::csv::{parse_csv, spec_csv_parse};
use crate::text::{all_digits, eq_str, parse_u32, spec_digits_value, spec_trim, trim};

verus! {

/// The measurement configuration recorded for an HRTF entry.
#[derive(Debug, Clone, Copy, PartialEq, Eq, Structural)]
pub enum Configuration {
    Headphones,
    Speakers,
}

/// What `Configuration::from_str` returns: the variant named by the trimmed
/// text, and `None` for the empty string or any other value.
pub open spec fn spec_configuration_from(s: Seq<char>) -> Option<Configuration> {
    let t = spec_trim(s);
    if t == "Headphones"@ {
        Some(Configuration::Headphones)
    } else if t == "Speakers"@ {
        Some(Configuration::Speakers)
    } else {
        None
    }
}

impl Configuration {
    /// Parses a configuration value: the text is trimmed, and only the two
    /// exact variant names are accepted.
    pub fn from_str(s: &str) -> (r: Option<Configuration>)
        ensures
            r == spec_configuration_from(s@),
    {
        let t = trim(s);
        if eq_str(t, "Headphones") {
            Some(Configuration::Headphones)
        } else if eq_str(t, "Speakers") {
            Some(Configuration::Speakers)
        } else {
            None
        }
    }
}

/// One entry of the description table (everything but the file stem that
/// keys it).
#[derive(Debug)]
pub struct HRTFMetadata {
    pub hrtf: String,
    pub configuration: Option<Configuration>,
    pub description: String,
    pub source: String,
    pub credits: String,
    pub points: Option<u32>,
}

impl Clone for HRTFMetadata {
    fn clone(&self) -> (r: Self)
        ensures
            r == *self,
    {
        HRTFMetadata {
            hrtf: self.hrtf.clone(),
            configuration: self.configuration,
            description: self.description.clone(),
            source: self.source.clone(),
            credits: self.credits.clone(),
            points: self.points,
        }
    }
}

/// Relies on Rc::clone: the clone is a handle to the same value.
#[verifier::external_body]
pub(crate) fn rc_clone_metadata(rc: &Rc<HRTFMetadata>) -> (r: Rc<HRTFMetadata>)
    ensures
        r == *rc,
{
    Rc::clone(rc)
}

/// What the points column yields: the trimmed text read as a 32-bit number,
/// or nothing when it is empty or unreadable.
pub open spec fn spec_points_from(s: Seq<char>) -> Option<u32> {
    let t = spec_trim(s);
    if t.len() == 0 {
        None
    } else if all_digits(t) && spec_digits_value(t) <= u32::MAX {
        Some(spec_digits_value(t) as u32)
    } else {
        None
    }
}

/// Reads the points column.
fn points_from(s: &str) -> (r: Option<u32>)
    ensures
        r == spec_points_from(s@),
{
    let t = trim(s);
    if t.unicode_len() == 0 {
        None
    } else {
        parse_u32(t)
    }
}

/// The rows of the CSV document after the header row.
pub open spec fn spec_data_rows(s: Seq<char>) -> Seq<Seq<Seq<char>>> {
    let rows = spec_csv_parse(s);
    if rows.len() == 0 {
        rows
    } else {
        rows.drop_first()
    }
}

/// Whether an earlier row already used this row's key (its first field).
pub open spec fn spec_row_dup(rows: Seq<Seq<Seq<char>>>, i: int) -> bool {
    exists|j: int| 0 <= j < i && #[trigger] rows[j][0] == rows[i][0]
}

/// The rows that the table keeps: the first row of each key, in order;
/// later rows with an already-used key are dropped.
#[verifier::opaque]
pub open spec fn spec_dedup_rows(rows: Seq<Seq<Seq<char>>>) -> Seq<Seq<Seq<char>>>
    decreases rows.len(),
{
    if rows.len() == 0 {
        Seq::empty()
    } else {
        let prev = spec_dedup_rows(rows.drop_last());
        if spec_row_dup(rows, rows.len() - 1) {
            prev
        } else {
            prev.push(rows.last())
        }
    }
}

/// The entry that one CSV row yields: the key from the first column, the
/// metadata fields from the rest.
#[verifier::opaque]
pub open spec fn spec_entry_matches_row(e: (String, Rc<HRTFMetadata>), row: Seq<Seq<char>>) -> bool {
    &&& e.0@ == row[0]
    &&& (*e.1).hrtf@ == row[1]
    &&& (*e.1).configuration == spec_configuration_from(row[2])
    &&& (*e.1).description@ == row[3]
    &&& (*e.1).source@ == row[4]
    &&& (*e.1).credits@ == row[5]
    &&& (*e.1).points == spec_points_from(row[6])
}

/// The table that a sequence of data rows yields: one entry per kept row,
/// in order; every kept key stems from a row and every row's key is
/// represented; no key repeats.
pub open spec fn spec_table_matches(
    entries: Seq<(String, Rc<HRTFMetadata>)>,
    rows: Seq<Seq<Seq<char>>>,
) -> bool {
    &&& entries.len() == spec_dedup_rows(rows).len()
    &&& forall|k: int|
        0 <= k < entries.len() ==> spec_entry_matches_row(
            #[trigger] entries[k],
            spec_dedup_rows(rows)[k],
        )
    &&& forall|k: int|
        0 <= k < entries.len() ==> exists|j: int|
            0 <= j < rows.len() && (#[trigger] entries[k]).0@ == rows[j][0]
    &&& forall|j: int|
        0 <= j < rows.len() ==> exists|k: int|
            0 <= k < entries.len() && (#[trigger] entries[k]).0@ == (#[trigger] rows[j])[0]
    &&& forall|k1: int, k2: int|
        0 <= k1 < k2 < entries.len() ==> (#[trigger] entries[k1]).0@ != (#[trigger] entries[k2]).0@
}

/// No rows yield no entries.
proof fn lemma_table_matches_empty()
    ensures
        spec_table_matches(Seq::empty(), Seq::empty()),
{
    reveal(spec_dedup_rows);
}

/// A row whose key the table already holds adds nothing.
proof fn lemma_table_step_dup(
    entries: Seq<(String, Rc<HRTFMetadata>)>,
    rows: Seq<Seq<Seq<char>>>,
    row: Seq<Seq<char>>,
)
    requires
        spec_table_matches(entries, rows),
        exists|k: int| 0 <= k < entries.len() && (#[trigger] entries[k]).0@ == row[0],
    ensures
        spec_table_matches(entries, rows.push(row)),
{
    let grown = rows.push(row);
    let k0 = choose|k: int| 0 <= k < entries.len() && (#[trigger] entries[k]).0@ == row[0];
    let j0 = choose|j: int| 0 <= j < rows.len() && (#[trigger] entries[k0]).0@ == rows[j][0];
    assert(grown[j0] == rows[j0]);
    assert(grown[rows.len() as int] == row);
    assert(grown[j0][0] == grown[rows.len() as int][0]);
    assert(spec_row_dup(grown, rows.len() as int));
    assert(grown.drop_last() =~= rows);
    assert(spec_dedup_rows(grown) == spec_dedup_rows(rows)) by {
        reveal(spec_dedup_rows);
    }
    assert forall|k: int| 0 <= k < entries.len() implies exists|j: int|
        0 <= j < grown.len() && (#[trigger] entries[k]).0@ == grown[j][0] by {
        let j = choose|j: int| 0 <= j < rows.len() && (#[trigger] entries[k]).0@ == rows[j][0];
        assert(grown[j] == rows[j]);
        assert(0 <= j < grown.len() && entries[k].0@ == grown[j][0]);
    }
    assert forall|j: int| 0 <= j < grown.len() implies exists|k: int|
        0 <= k < entries.len() && (#[trigger] entries[k]).0@ == (#[trigger] grown[j])[0] by {
        if j < rows.len() {
            assert(grown[j] == rows[j]);
            let k = choose|k: int|
                0 <= k < entries.len() && (#[trigger] entries[k]).0@ == rows[j][0];
            assert(0 <= k < entries.len() && entries[k].0@ == grown[j][0]);
        } else {
            assert(grown[j] == row);
            assert(0 <= k0 < entries.len() && entries[k0].0@ == grown[j][0]);
        }
    }
}

/// A row with a fresh key appends its entry.
proof fn lemma_table_step_new(
    entries: Seq<(String, Rc<HRTFMetadata>)>,
    rows: Seq<Seq<Seq<char>>>,
    row: Seq<Seq<char>>,
    e: (String, Rc<HRTFMetadata>),
)
    requires
        spec_table_matches(entries, rows),
        forall|k: int| 0 <= k < entries.len() ==> (#[trigger] entries[k]).0@ != row[0],
        spec_entry_matches_row(e, row),
    ensures
        spec_table_matches(entries.push(e), rows.push(row)),
{
    let grown = rows.push(row);
    let grown_entries = entries.push(e);
    assert(e.0@ == row[0]) by {
        reveal(spec_entry_matches_row);
    }
    assert(grown.drop_last() =~= rows);
    assert(!spec_row_dup(grown, rows.len() as int)) by {
        if spec_row_dup(grown, rows.len() as int) {
            let j = choose|j: int|
                0 <= j < rows.len() && #[trigger] grown[j][0] == grown[rows.len() as int][0];
            assert(grown[j] == rows[j]);
            assert(rows[j][0] == row[0]);
            let k = choose|k: int|
                0 <= k < entries.len() && (#[trigger] entries[k]).0@ == rows[j][0];
            assert(entries[k].0@ == row[0]);
            assert(false);
        }
    }
    assert(spec_dedup_rows(grown) == spec_dedup_rows(rows).push(row)) by {
        reveal(spec_dedup_rows);
    }
    assert forall|k: int| 0 <= k < grown_entries.len() implies spec_entry_matches_row(
        #[trigger] grown_entries[k],
        spec_dedup_rows(grown)[k],
    ) by {
        if k < entries.len() {
            assert(grown_entries[k] == entries[k]);
            assert(spec_dedup_rows(grown)[k] == spec_dedup_rows(rows)[k]);
        } else {
            assert(grown_entries[k] == e);
            assert(spec_dedup_rows(grown)[k] == row);
        }
    }
    assert forall|k: int| 0 <= k < grown_entries.len() implies exists|j: int|
        0 <= j < grown.len() && (#[trigger] grown_entries[k]).0@ == grown[j][0] by {
        if k < entries.len() {
            assert(grown_entries[k] == entries[k]);
            let j = choose|j: int|
                0 <= j < rows.len() && (#[trigger] entries[k]).0@ == rows[j][0];
            assert(grown[j] == rows[j]);
            assert(0 <= j < grown.len() && grown_entries[k].0@ == grown[j][0]);
        } else {
            let j = rows.len() as int;
            assert(grown[j] == row);
            assert(0 <= j < grown.len() && grown_entries[k].0@ == grown[j][0]);
        }
    }
    assert forall|j: int| 0 <= j < grown.len() implies exists|k: int|
        0 <= k < grown_entries.len() && (#[trigger] grown_entries[k]).0@ == (
        #[trigger] grown[j])[0] by {
        if j < rows.len() {
            assert(grown[j] == rows[j]);
            let k = choose|k: int|
                0 <= k < entries.len() && (#[trigger] entries[k]).0@ == rows[j][0];
            assert(grown_entries[k] == entries[k]);
            assert(0 <= k < grown_entries.len() && grown_entries[k].0@ == grown[j][0]);
        } else {
            let k = entries.len() as int;
            assert(grown_entries[k] == e);
            assert(grown[j] == row);
            assert(0 <= k < grown_entries.len() && grown_entries[k].0@ == grown[j][0]);
        }
    }
    assert forall|k1: int, k2: int| 0 <= k1 < k2 < grown_entries.len() implies (
    #[trigger] grown_entries[k1]).0@ != (#[trigger] grown_entries[k2]).0@ by {
        if k2 < entries.len() {
            assert(grown_entries[k1] == entries[k1]);
            assert(grown_entries[k2] == entries[k2]);
        } else {
            assert(grown_entries[k1] == entries[k1]);
            assert(grown_entries[k2] == e);
        }
    }
}

/// Whether the table already holds an entry under this key.
fn has_key(entries: &Vec<(String, Rc<HRTFMetadata>)>, key: &String) -> (r: bool)
    ensures
        r == exists|k: int| 0 <= k < entries@.len() && (#[trigger] entries@[k]).0@ == key@,
{
    let n = entries.len();
    let mut k: usize = 0;
    while k < n
        invariant
            0 <= k <= n,
            n == entries@.len(),
            forall|k2: int| 0 <= k2 < k ==> (#[trigger] entries@[k2]).0@ != key@,
        decreases n - k,
    {
        if eq_str(entries[k].0.as_str(), key.as_str()) {
            return true;
        }
        k = k + 1;
    }
    false
}

/// Builds the table entry for one seven-column data row.
fn entry_from_row(row: &Vec<String>) -> (e: (String, Rc<HRTFMetadata>))
    requires
        row@.len() == 7,
    ensures
        spec_entry_matches_row(e, crate::csv::spec_fields_view(*row)),
        e.0@ == row@[0]@,
{
    let config = Configuration::from_str(row[2].as_str());
    let points = points_from(row[6].as_str());
    let meta = HRTFMetadata {
        hrtf: row[1].clone(),
        configuration: config,
        description: row[3].clone(),
        source: row[4].clone(),
        credits: row[5].clone(),
        points,
    };
    let key = row[0].clone();
    let e = (key, Rc::new(meta));
    proof {
        reveal(spec_entry_matches_row);
        assert forall|j: int| 0 <= j < 7 implies #[trigger] crate::csv::spec_fields_view(*row)[j]
            == row@[j]@ by {}
    }
    e
}

/// A failure to load the description table.
#[derive(Debug, Clone, Copy, PartialEq, Eq, Structural)]
pub enum DescriptionsError {
    /// A data row does not have exactly the seven expected columns.
    BadRecordLength,
}

/// The description table: stems paired with their shared metadata entries.
pub struct Descriptions {
    entries: Vec<(String, Rc<HRTFMetadata>)>,
}

/// The entry whose key reads `name`, scanning front to back.
pub open spec fn spec_table_lookup(
    entries: Seq<(String, Rc<HRTFMetadata>)>,
    name: Seq<char>,
) -> Option<Rc<HRTFMetadata>>
    decreases entries.len(),
{
    if entries.len() == 0 {
        None
    } else if entries[0].0@ == name {
        Some(entries[0].1)
    } else {
        spec_table_lookup(entries.drop_first(), name)
    }
}

impl Descriptions {
    /// Each stem keys at most one entry.
    pub closed spec fn wf(&self) -> bool {
        forall|i: int, j: int|
            0 <= i < j < self.entries@.len() ==> (#[trigger] self.entries@[i]).0@ != (
            #[trigger] self.entries@[j]).0@
    }

    /// The table's entries, in insertion order.
    pub closed spec fn view(&self) -> Seq<(String, Rc<HRTFMetadata>)> {
        self.entries@
    }

    /// Loads the description table from the CSV document: the first row is
    /// the header; every data row must have exactly seven columns
    /// (key; hrtf; configuration; description; source; credits; points).
    /// Rows repeating an already-used key are dropped, keeping the first.
    pub fn from_csv(text: &str) -> (r: Result<Descriptions, DescriptionsError>)
        ensures
            match r {
                Ok(d) => {
                    &&& d.wf()
                    &&& forall|i: int|
                        0 <= i < spec_data_rows(text@).len() ==> (#[trigger] spec_data_rows(
                            text@,
                        )[i]).len() == 7
                    &&& spec_table_matches(d@, spec_data_rows(text@))
                },
                Err(e) => {
                    &&& e == DescriptionsError::BadRecordLength
                    &&& exists|i: int|
                        0 <= i < spec_data_rows(text@).len() && (#[trigger] spec_data_rows(
                            text@,
                        )[i]).len() != 7
                },
            },
    {
        let rows = parse_csv(text);
        let ghost data = spec_data_rows(text@);
        let n = rows.len();
        let mut entries: Vec<(String, Rc<HRTFMetadata>)> = Vec::new();
        proof {
            lemma_table_matches_empty();
            assert(data.subrange(0, 0) =~= Seq::<Seq<Seq<char>>>::empty());
        }
        if n == 0 {
            let d = Descriptions { entries };
            proof {
                assert(data =~= Seq::<Seq<Seq<char>>>::empty());
            }
            return Ok(d);
        }
        proof {
            assert(data.len() == n - 1);
            assert forall|j: int| 0 <= j < data.len() implies #[trigger] data[j]
                == crate::csv::spec_fields_view(rows@[j + 1]) by {}
        }
        let mut i: usize = 1;
        while i < n
            invariant
                1 <= i <= n,
                n == rows@.len(),
                data == spec_data_rows(text@),
                data.len() == n - 1,
                forall|j: int|
                    0 <= j < data.len() ==> #[trigger] data[j] == crate::csv::spec_fields_view(
                        rows@[j + 1],
                    ),
                forall|j: int| 0 <= j < i - 1 ==> (#[trigger] data[j]).len() == 7,
                spec_table_matches(entries@, data.subrange(0, i - 1)),
            decreases n - i,
        {
            let ghost di = (i - 1) as int;
            let ghost seen = data.subrange(0, di);
            let row: &Vec<String> = &rows[i];
            proof {
                assert(data[di] == crate::csv::spec_fields_view(rows@[i as int]));
                assert(data[di].len() == row@.len());
                assert forall|j: int| 0 <= j < row@.len() implies #[trigger] data[di][j]
                    == row@[j]@ by {}
                assert(data[di] == crate::csv::spec_fields_view(*row));
                assert(data.subrange(0, di + 1) =~= seen.push(data[di]));
            }
            if row.len() != 7 {
                return Err(DescriptionsError::BadRecordLength);
            }
            let dup = has_key(&entries, &row[0]);
            proof {
                assert(data[di][0] == row@[0]@);
            }
            if dup {
                proof {
                    lemma_table_step_dup(entries@, seen, data[di]);
                }
            } else {
                let e = entry_from_row(row);
                proof {
                    assert(forall|k: int|
                        0 <= k < entries@.len() ==> (#[trigger] entries@[k]).0@ != data[di][0]);
                    lemma_table_step_new(entries@, seen, data[di], e);
                }
                entries.push(e);
            }
            i = i + 1;
        }
        proof {
            assert(data.subrange(0, data.len() as int) =~= data);
        }
        let d = Descriptions { entries };
        Ok(d)
    }

    /// The number of entries in the table.
    pub fn len(&self) -> (r: usize)
        ensures
            r == self@.len(),
    {
        self.entries.len()
    }

    /// Looks up the metadata entry for a file stem, returning a shared
    /// handle to it.
    pub fn get_rc(&self, hrir_filename: &str) -> (r: Option<Rc<HRTFMetadata>>)
        ensures
            r == spec_table_lookup(self@, hrir_filename@),
    {
        let n = self.entries.len();
        let mut i: usize = 0;
        proof {
            assert(self.entries@.subrange(0, n as int) =~= self.entries@);
        }
        while i < n
            invariant
                0 <= i <= n,
                n == self.entries@.len(),
                spec_table_lookup(self.entries@, hrir_filename@) == spec_table_lookup(
                    self.entries@.subrange(i as int, n as int),
                    hrir_filename@,
                ),
            decreases n - i,
        {
            if eq_str(self.entries[i].0.as_str(), hrir_filename) {
                return Some(rc_clone_metadata(&self.entries[i].1));
            }
            proof {
                assert(self.entries@.subrange(i as int, n as int).drop_first()
                    =~= self.entries@.subrange(i + 1, n as int));
            }
            i = i + 1;
        }
        None
    }
}

} // verus!
