//! A small verified reader for semicolon-separated CSV text, as the
//! description table uses it: fields split on `;`, records split on line
//! ends, and double-quoted fields that may contain separators, line breaks
//! and doubled quotes.
//!
//! The reader is lenient where the format is loose: a carriage return
//! outside quotes is dropped, text after a closing quote is appended to the
//! field as it stands, an unterminated quote runs to the end of the input,
//! and blank lines yield no record.

use vstd::prelude::*;
use vstd::string::StrSliceExecFns;
use crate::text::chars_to_string;

verus! {

/// Where the reader stands inside a field.
#[derive(Debug, Clone, Copy, PartialEq, Eq, Structural)]
pub enum CsvMode {
    /// Reading a plain field.
    Unquoted,
    /// Inside a double-quoted field.
    Quoted,
    /// Just saw a quote inside a quoted field: either an escape or the
    /// closing quote.
    QuoteSeen,
}

/// The reader's full state: finished records, the open record, the open
/// field, and the mode.
pub ghost struct CsvState {
    pub done: Seq<Seq<Seq<char>>>,
    pub record: Seq<Seq<char>>,
    pub field: Seq<char>,
    pub mode: CsvMode,
}

/// The reader's state before any input.
pub open spec fn spec_csv_init() -> CsvState {
    CsvState { done: Seq::empty(), record: Seq::empty(), field: Seq::empty(), mode: CsvMode::Unquoted }
}

/// Whether the open record is still blank: ending the line here yields no
/// record.
pub open spec fn spec_csv_blank(st: CsvState) -> bool {
    st.record.len() == 0 && st.field.len() == 0 && st.mode == CsvMode::Unquoted
}

/// One character of input applied to the reader's state.
pub open spec fn spec_csv_step(st: CsvState, c: char) -> CsvState {
    match st.mode {
        CsvMode::Unquoted => {
            if c == ';' {
                CsvState { record: st.record.push(st.field), field: Seq::empty(), ..st }
            } else if c == '\n' {
                if spec_csv_blank(st) {
                    st
                } else {
                    CsvState {
                        done: st.done.push(st.record.push(st.field)),
                        record: Seq::empty(),
                        field: Seq::empty(),
                        mode: CsvMode::Unquoted,
                    }
                }
            } else if c == '\r' {
                st
            } else if c == '"' && st.field.len() == 0 {
                CsvState { mode: CsvMode::Quoted, ..st }
            } else {
                CsvState { field: st.field.push(c), ..st }
            }
        },
        CsvMode::Quoted => {
            if c == '"' {
                CsvState { mode: CsvMode::QuoteSeen, ..st }
            } else {
                CsvState { field: st.field.push(c), ..st }
            }
        },
        CsvMode::QuoteSeen => {
            if c == '"' {
                CsvState { field: st.field.push('"'), mode: CsvMode::Quoted, ..st }
            } else if c == ';' {
                CsvState {
                    record: st.record.push(st.field),
                    field: Seq::empty(),
                    mode: CsvMode::Unquoted,
                    ..st
                }
            } else if c == '\n' {
                CsvState {
                    done: st.done.push(st.record.push(st.field)),
                    record: Seq::empty(),
                    field: Seq::empty(),
                    mode: CsvMode::Unquoted,
                }
            } else if c == '\r' {
                CsvState { mode: CsvMode::Unquoted, ..st }
            } else {
                CsvState { field: st.field.push(c), mode: CsvMode::Unquoted, ..st }
            }
        },
    }
}

/// The reader's state after consuming `s`.
pub open spec fn spec_csv_fold(st: CsvState, s: Seq<char>) -> CsvState
    decreases s.len(),
{
    if s.len() == 0 {
        st
    } else {
        spec_csv_fold(spec_csv_step(st, s[0]), s.drop_first())
    }
}

/// Consuming one more character folds one more step.
pub proof fn lemma_csv_fold_snoc(st: CsvState, s: Seq<char>, c: char)
    ensures
        spec_csv_fold(st, s.push(c)) == spec_csv_step(spec_csv_fold(st, s), c),
    decreases s.len(),
{
    reveal_with_fuel(spec_csv_fold, 2);
    if s.len() == 0 {
        assert(s.push(c)[0] == c);
        assert(s.push(c).drop_first() =~= Seq::<char>::empty());
    } else {
        assert(s.push(c)[0] == s[0]);
        assert(s.push(c).drop_first() =~= s.drop_first().push(c));
        lemma_csv_fold_snoc(spec_csv_step(st, s[0]), s.drop_first(), c);
    }
}

/// The records a final state yields: the open record is flushed unless it
/// is still blank.
pub open spec fn spec_csv_finish(st: CsvState) -> Seq<Seq<Seq<char>>> {
    if spec_csv_blank(st) {
        st.done
    } else {
        st.done.push(st.record.push(st.field))
    }
}

/// The records of a CSV text.
pub open spec fn spec_csv_parse(s: Seq<char>) -> Seq<Seq<Seq<char>>> {
    spec_csv_finish(spec_csv_fold(spec_csv_init(), s))
}

/// The field texts of one parsed record.
pub open spec fn spec_fields_view(rec: Vec<String>) -> Seq<Seq<char>> {
    rec@.map_values(|f: String| f@)
}

/// The field texts of all parsed records.
pub open spec fn spec_rows_view(rows: Vec<Vec<String>>) -> Seq<Seq<Seq<char>>> {
    rows@.map_values(|r: Vec<String>| spec_fields_view(r))
}

/// Parses a CSV text into its records.
pub fn parse_csv(text: &str) -> (r: Vec<Vec<String>>)
    ensures
        spec_rows_view(r) == spec_csv_parse(text@),
{
    let len = text.unicode_len();
    let mut rows: Vec<Vec<String>> = Vec::new();
    let mut record: Vec<String> = Vec::new();
    let mut field: Vec<char> = Vec::new();
    let mut mode = CsvMode::Unquoted;
    proof {
        assert(text@.subrange(0, 0) =~= Seq::<char>::empty());
        assert(spec_rows_view(rows) =~= Seq::<Seq<Seq<char>>>::empty());
        assert(spec_fields_view(record) =~= Seq::<Seq<char>>::empty());
    }
    let mut i: usize = 0;
    while i < len
        invariant
            0 <= i <= len,
            len == text@.len(),
            spec_csv_fold(spec_csv_init(), text@.subrange(0, i as int)) == (CsvState {
                done: spec_rows_view(rows),
                record: spec_fields_view(record),
                field: field@,
                mode: mode,
            }),
        decreases len - i,
    {
        let c = text.get_char(i);
        let ghost st = CsvState {
            done: spec_rows_view(rows),
            record: spec_fields_view(record),
            field: field@,
            mode: mode,
        };
        proof {
            assert(text@.subrange(0, i + 1) =~= text@.subrange(0, i as int).push(text@[i as int]));
            lemma_csv_fold_snoc(spec_csv_init(), text@.subrange(0, i as int), text@[i as int]);
        }
        match mode {
            CsvMode::Unquoted => {
                if c == ';' {
                    let f = chars_to_string(&field);
                    record.push(f);
                    field.clear();
                    proof {
                        assert(spec_fields_view(record) =~= st.record.push(st.field));
                    }
                } else if c == '\n' {
                    let blank = record.len() == 0 && field.len() == 0;
                    if !blank {
                        let f = chars_to_string(&field);
                        record.push(f);
                        proof {
                            assert(spec_fields_view(record) =~= st.record.push(st.field));
                        }
                        rows.push(record);
                        record = Vec::new();
                        field.clear();
                        proof {
                            assert(spec_rows_view(rows) =~= st.done.push(st.record.push(st.field)));
                            assert(spec_fields_view(record) =~= Seq::<Seq<char>>::empty());
                        }
                    }
                } else if c == '\r' {
                } else if c == '"' && field.len() == 0 {
                    mode = CsvMode::Quoted;
                } else {
                    field.push(c);
                }
            },
            CsvMode::Quoted => {
                if c == '"' {
                    mode = CsvMode::QuoteSeen;
                } else {
                    field.push(c);
                }
            },
            CsvMode::QuoteSeen => {
                if c == '"' {
                    field.push('"');
                    mode = CsvMode::Quoted;
                } else if c == ';' {
                    let f = chars_to_string(&field);
                    record.push(f);
                    field.clear();
                    mode = CsvMode::Unquoted;
                    proof {
                        assert(spec_fields_view(record) =~= st.record.push(st.field));
                    }
                } else if c == '\n' {
                    let f = chars_to_string(&field);
                    record.push(f);
                    proof {
                        assert(spec_fields_view(record) =~= st.record.push(st.field));
                    }
                    rows.push(record);
                    record = Vec::new();
                    field.clear();
                    mode = CsvMode::Unquoted;
                    proof {
                        assert(spec_rows_view(rows) =~= st.done.push(st.record.push(st.field)));
                        assert(spec_fields_view(record) =~= Seq::<Seq<char>>::empty());
                    }
                } else if c == '\r' {
                    mode = CsvMode::Unquoted;
                } else {
                    field.push(c);
                    mode = CsvMode::Unquoted;
                }
            },
        }
        i = i + 1;
    }
    proof {
        assert(text@.subrange(0, len as int) =~= text@);
    }
    let blank = record.len() == 0 && field.len() == 0
        && matches!(mode, CsvMode::Unquoted);
    if !blank {
        let f = chars_to_string(&field);
        record.push(f);
        let ghost st = spec_csv_fold(spec_csv_init(), text@);
        proof {
            assert(spec_fields_view(record) =~= st.record.push(st.field));
        }
        rows.push(record);
        proof {
            assert(spec_rows_view(rows) =~= st.done.push(st.record.push(st.field)));
        }
    }
    rows
}

} // verus!
