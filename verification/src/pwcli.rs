//! Parsing of `pw-cli list-objects` output into property lists, and the
//! filter that keeps the audio sinks.
//!
//! The output lists objects as an `id X, type Y` header line followed by
//! indented `key = value` lines; values may be double-quoted. An object is a
//! list of key/value pairs in input order; a repeated key reads as its last
//! value, as a map insert would leave it.

use vstd::prelude::*;
use vstd::string::StrSliceExecFns;
use crate::text::{
    contains_sub, eq_str, find_char, is_match_at, lemma_find_char, spec_contains, spec_find_char,
    spec_trim, starts_with_sub, trim,
};

verus! {

/// The lines of a text, split at `\n`; a trailing line end yields no final
/// empty line.
pub open spec fn spec_split_lines(s: Seq<char>) -> Seq<Seq<char>>
    decreases s.len(),
{
    if s.len() == 0 {
        Seq::empty()
    } else {
        let k = spec_find_char(s, '\n');
        if k < 0 || k >= s.len() {
            seq![s]
        } else {
            seq![s.subrange(0, k)] + spec_split_lines(s.subrange(k + 1, s.len() as int))
        }
    }
}

/// Splits a text into its lines.
fn split_lines(s: &str) -> (r: Vec<String>)
    ensures
        r@.map_values(|l: String| l@) == spec_split_lines(s@),
{
    let len = s.unicode_len();
    let mut out: Vec<String> = Vec::new();
    let mut pos: usize = 0;
    proof {
        assert(out@.map_values(|l: String| l@) =~= Seq::<Seq<char>>::empty());
        assert(s@.subrange(0, len as int) =~= s@);
    }
    while pos < len
        invariant
            0 <= pos <= len,
            len == s@.len(),
            spec_split_lines(s@) =~= out@.map_values(|l: String| l@) + spec_split_lines(
                s@.subrange(pos as int, len as int),
            ),
        decreases len - pos,
    {
        let ghost old_out = out@;
        let ghost rest_view = s@.subrange(pos as int, len as int);
        let rest = s.substring_char(pos, len);
        proof {
            lemma_find_char(rest@, '\n');
        }
        match find_char(rest, '\n') {
            Some(k) => {
                let piece = rest.substring_char(0, k);
                out.push(piece.to_owned());
                pos = pos + k + 1;
                proof {
                    assert(rest_view.subrange(k + 1, rest_view.len() as int) =~= s@.subrange(
                        pos as int,
                        len as int,
                    ));
                    assert(out@.map_values(|l: String| l@) =~= old_out.map_values(
                        |l: String| l@,
                    ).push(rest_view.subrange(0, k as int)));
                    assert(old_out.map_values(|l: String| l@) + (seq![
                        rest_view.subrange(0, k as int),
                    ] + spec_split_lines(s@.subrange(pos as int, len as int)))
                        =~= out@.map_values(|l: String| l@) + spec_split_lines(
                        s@.subrange(pos as int, len as int),
                    ));
                }
            },
            None => {
                out.push(rest.to_owned());
                pos = len;
                proof {
                    assert(s@.subrange(pos as int, len as int) =~= Seq::<char>::empty());
                    assert(out@.map_values(|l: String| l@) =~= old_out.map_values(
                        |l: String| l@,
                    ).push(rest_view));
                    assert(old_out.map_values(|l: String| l@) + seq![rest_view] =~= out@.map_values(
                        |l: String| l@,
                    ) + spec_split_lines(s@.subrange(pos as int, len as int)));
                }
            },
        }
    }
    proof {
        assert(s@.subrange(pos as int, len as int) =~= Seq::<char>::empty());
        assert(out@.map_values(|l: String| l@) + spec_split_lines(Seq::<char>::empty())
            =~= out@.map_values(|l: String| l@));
    }
    out
}

/// One listed object: its properties in input order.
#[derive(Debug)]
pub struct PwObject {
    props: Vec<(String, String)>,
}

/// The value under `key`, reading a repeated key as its last value.
pub open spec fn spec_obj_get(props: Seq<(Seq<char>, Seq<char>)>, key: Seq<char>) -> Option<
    Seq<char>,
>
    decreases props.len(),
{
    if props.len() == 0 {
        None
    } else if props.last().0 == key {
        Some(props.last().1)
    } else {
        spec_obj_get(props.drop_last(), key)
    }
}

impl PwObject {
    /// The object's properties: key/value texts in input order.
    pub closed spec fn view(&self) -> Seq<(Seq<char>, Seq<char>)> {
        self.props@.map_values(|p: (String, String)| (p.0@, p.1@))
    }

    /// An object with no properties yet.
    pub fn new() -> (r: Self)
        ensures
            r@ == Seq::<(Seq<char>, Seq<char>)>::empty(),
    {
        let r = PwObject { props: Vec::new() };
        proof {
            assert(r@ =~= Seq::<(Seq<char>, Seq<char>)>::empty());
        }
        r
    }

    /// Appends a property; a later value under the same key wins on reads.
    pub fn insert(&mut self, key: String, value: String)
        ensures
            final(self)@ == old(self)@.push((key@, value@)),
    {
        let ghost old_view = self@;
        self.props.push((key, value));
        proof {
            assert(self@ =~= old_view.push((key@, value@)));
        }
    }

    /// Reads the value stored under `key`, the last one when the key
    /// repeats.
    pub fn get(&self, key: &str) -> (r: Option<&String>)
        ensures
            match r {
                Some(v) => spec_obj_get(self@, key@) == Some(v@),
                None => spec_obj_get(self@, key@) is None,
            },
    {
        let n = self.props.len();
        let mut k: usize = n;
        proof {
            assert(self@.subrange(0, n as int) =~= self@);
        }
        while k > 0
            invariant
                0 <= k <= n,
                n == self.props@.len(),
                self@.len() == n,
                spec_obj_get(self@, key@) == spec_obj_get(self@.subrange(0, k as int), key@),
            decreases k,
        {
            if eq_str(self.props[k - 1].0.as_str(), key) {
                proof {
                    assert(self@.subrange(0, k as int).last() == self@[k - 1]);
                }
                return Some(&self.props[k - 1].1);
            }
            proof {
                assert(self@.subrange(0, k as int).drop_last() =~= self@.subrange(0, k - 1));
            }
            k = k - 1;
        }
        None
    }
}

impl Clone for PwObject {
    /// The clone holds the same properties.
    fn clone(&self) -> (r: Self)
        ensures
            r@ == self@,
    {
        let n = self.props.len();
        let mut props: Vec<(String, String)> = Vec::new();
        let mut k: usize = 0;
        while k < n
            invariant
                0 <= k <= n,
                n == self.props@.len(),
                props@.len() == k,
                forall|j: int| 0 <= j < k ==> props@[j] == self.props@[j],
            decreases n - k,
        {
            props.push((self.props[k].0.clone(), self.props[k].1.clone()));
            k = k + 1;
        }
        let r = PwObject { props };
        proof {
            assert(r@ =~= self@);
        }
        r
    }
}

/// The parser's state: finished objects, and the object whose lines are
/// still being read.
pub ghost struct PwSt {
    pub done: Seq<Seq<(Seq<char>, Seq<char>)>>,
    pub current: Option<Seq<(Seq<char>, Seq<char>)>>,
}

/// The parser's state before any input.
pub open spec fn spec_pw_init() -> PwSt {
    PwSt { done: Seq::empty(), current: None }
}

/// The properties an `id X, type Y` header line yields: the id read up to
/// the first comma, the type after it, each kept only when its introducing
/// word is in place.
pub open spec fn spec_header_props(t: Seq<char>) -> Seq<(Seq<char>, Seq<char>)> {
    let c = spec_find_char(t, ',');
    let part0 = if c == -1 {
        t
    } else {
        t.subrange(0, c)
    };
    let p0 = spec_trim(part0);
    let with_id = if is_match_at(p0, "id "@, 0) {
        seq![("id"@, spec_trim(p0.subrange(3, p0.len() as int)))]
    } else {
        Seq::<(Seq<char>, Seq<char>)>::empty()
    };
    if c == -1 {
        with_id
    } else {
        let p1 = spec_trim(t.subrange(c + 1, t.len() as int));
        if is_match_at(p1, "type "@, 0) {
            with_id.push(("type"@, spec_trim(p1.subrange(5, p1.len() as int))))
        } else {
            with_id
        }
    }
}

/// The property a `key = value` line yields: both sides trimmed, one pair
/// of surrounding double quotes stripped from the value; a line without `=`
/// yields nothing.
pub open spec fn spec_kv_of(t: Seq<char>) -> Option<(Seq<char>, Seq<char>)> {
    let k = spec_find_char(t, '=');
    if k == -1 {
        None
    } else {
        let key = spec_trim(t.subrange(0, k));
        let v0 = spec_trim(t.subrange(k + 1, t.len() as int));
        let v = if v0.len() >= 2 && v0[0] == '"' && v0.last() == '"' {
            v0.subrange(1, v0.len() - 1)
        } else {
            v0
        };
        Some((key, v))
    }
}

/// One line of input applied to the parser's state. A header line closes
/// the open object and opens a new one; a property line extends the open
/// object; anything before the first header, and any blank line, is
/// ignored.
pub open spec fn spec_pw_step(st: PwSt, line: Seq<char>) -> PwSt {
    let t = spec_trim(line);
    if t.len() == 0 {
        st
    } else if is_match_at(t, "id "@, 0) && spec_contains(t, "type "@) {
        PwSt {
            done: match st.current {
                Some(o) => st.done.push(o),
                None => st.done,
            },
            current: Some(spec_header_props(t)),
        }
    } else {
        match st.current {
            Some(o) => PwSt {
                done: st.done,
                current: Some(
                    match spec_kv_of(t) {
                        Some(kv) => o.push(kv),
                        None => o,
                    },
                ),
            },
            None => st,
        }
    }
}

/// The parser's state after consuming the lines.
pub open spec fn spec_pw_fold(st: PwSt, lines: Seq<Seq<char>>) -> PwSt
    decreases lines.len(),
{
    if lines.len() == 0 {
        st
    } else {
        spec_pw_fold(spec_pw_step(st, lines[0]), lines.drop_first())
    }
}

/// The objects a final state yields: the open object, if any, is closed.
pub open spec fn spec_pw_finish(st: PwSt) -> Seq<Seq<(Seq<char>, Seq<char>)>> {
    match st.current {
        Some(o) => st.done.push(o),
        None => st.done,
    }
}

/// The objects listed in a `pw-cli list-objects` output.
pub open spec fn spec_parse_pwcli(s: Seq<char>) -> Seq<Seq<(Seq<char>, Seq<char>)>> {
    spec_pw_finish(spec_pw_fold(spec_pw_init(), spec_split_lines(s)))
}

/// The objects of a vector, by their property views.
pub open spec fn spec_objs_view(v: Vec<PwObject>) -> Seq<Seq<(Seq<char>, Seq<char>)>> {
    v@.map_values(|o: PwObject| o@)
}

/// Builds the properties of a header line.
fn header_object(t: &str) -> (r: PwObject)
    ensures
        r@ == spec_header_props(t@),
{
    proof {
        reveal_strlit("id ");
        reveal_strlit("type ");
        lemma_find_char(t@, ',');
    }
    let t_len = t.unicode_len();
    let mut obj = PwObject::new();
    let comma = find_char(t, ',');
    let part0 = match comma {
        Some(c) => t.substring_char(0, c),
        None => t,
    };
    let p0 = trim(part0);
    let p0_len = p0.unicode_len();
    let ghost cspec = spec_find_char(t@, ',');
    let ghost part0v = if cspec == -1 { t@ } else { t@.subrange(0, cspec) };
    let ghost p0v = spec_trim(part0v);
    let ghost with_id = if is_match_at(p0v, "id "@, 0) {
        seq![("id"@, spec_trim(p0v.subrange(3, p0v.len() as int)))]
    } else {
        Seq::<(Seq<char>, Seq<char>)>::empty()
    };
    if starts_with_sub(p0, "id ") {
        let id_val = trim(p0.substring_char(3, p0_len));
        obj.insert("id".to_owned(), id_val.to_owned());
        proof {
            assert(obj@ =~= with_id);
        }
    } else {
        proof {
            assert(obj@ =~= with_id);
        }
    }
    match comma {
        Some(c) => {
            let p1 = trim(t.substring_char(c + 1, t_len));
            let p1_len = p1.unicode_len();
            let ghost p1v = spec_trim(t@.subrange(cspec + 1, t@.len() as int));
            if starts_with_sub(p1, "type ") {
                let ty_val = trim(p1.substring_char(5, p1_len));
                obj.insert("type".to_owned(), ty_val.to_owned());
                proof {
                    assert(obj@ =~= with_id.push(("type"@, spec_trim(p1v.subrange(5, p1v.len() as int)))));
                }
            }
        },
        None => {},
    }
    obj
}

/// Parses the output of `pw-cli list-objects` into its objects.
pub fn parse_pwcli_output(output: &str) -> (r: Vec<PwObject>)
    ensures
        spec_objs_view(r) == spec_parse_pwcli(output@),
{
    let lines = split_lines(output);
    let n = lines.len();
    let ghost all_lines = lines@.map_values(|l: String| l@);
    let mut done: Vec<PwObject> = Vec::new();
    let mut current: Option<PwObject> = None;
    proof {
        assert(all_lines.subrange(0, n as int) =~= all_lines);
        assert(spec_objs_view(done) =~= Seq::<Seq<(Seq<char>, Seq<char>)>>::empty());
    }
    let mut j: usize = 0;
    while j < n
        invariant
            0 <= j <= n,
            n == lines@.len(),
            all_lines == lines@.map_values(|l: String| l@),
            spec_pw_fold(spec_pw_init(), all_lines) == spec_pw_fold(
                PwSt {
                    done: spec_objs_view(done),
                    current: match &current {
                        Some(o) => Some(o@),
                        None => None,
                    },
                },
                all_lines.subrange(j as int, n as int),
            ),
        decreases n - j,
    {
        let ghost st = PwSt {
            done: spec_objs_view(done),
            current: match &current {
                Some(o) => Some(o@),
                None => None,
            },
        };
        proof {
            assert(all_lines.subrange(j as int, n as int)[0] == all_lines[j as int]);
            assert(all_lines.subrange(j as int, n as int).drop_first() =~= all_lines.subrange(
                j + 1,
                n as int,
            ));
            assert(all_lines[j as int] == lines@[j as int]@);
        }
        let t = trim(lines[j].as_str());
        if t.unicode_len() == 0 {
        } else if starts_with_sub(t, "id ") && contains_sub(t, "type ") {
            let fresh = header_object(t);
            let ghost old_done = spec_objs_view(done);
            let prev = current;
            match prev {
                Some(o) => {
                    done.push(o);
                    proof {
                        assert(spec_objs_view(done) =~= old_done.push(st.current->Some_0));
                    }
                },
                None => {},
            }
            current = Some(fresh);
        } else {
            let has_current = current.is_some();
            if has_current {
                let mut obj = current.unwrap();
                let t_len = t.unicode_len();
                proof {
                    lemma_find_char(t@, '=');
                }
                match find_char(t, '=') {
                    Some(eq_pos) => {
                        let key = trim(t.substring_char(0, eq_pos));
                        let v0 = trim(t.substring_char(eq_pos + 1, t_len));
                        let v0_len = v0.unicode_len();
                        let quoted = v0_len >= 2 && v0.get_char(0) == '"' && v0.get_char(
                            v0_len - 1,
                        ) == '"';
                        let value = if quoted {
                            v0.substring_char(1, v0_len - 1)
                        } else {
                            v0
                        };
                        obj.insert(key.to_owned(), value.to_owned());
                    },
                    None => {},
                }
                current = Some(obj);
            }
        }
        j = j + 1;
    }
    proof {
        assert(all_lines.subrange(n as int, n as int) =~= Seq::<Seq<char>>::empty());
    }
    let ghost st = PwSt {
        done: spec_objs_view(done),
        current: match &current {
            Some(o) => Some(o@),
            None => None,
        },
    };
    match current {
        Some(o) => {
            let ghost old_done = spec_objs_view(done);
            done.push(o);
            proof {
                assert(spec_objs_view(done) =~= old_done.push(st.current->Some_0));
            }
        },
        None => {},
    }
    done
}

/// Whether an object is an audio sink to offer: its `media.class` is
/// `Audio/Sink`, and it is not this library's own virtual device node.
pub open spec fn spec_is_audio_sink(o: Seq<(Seq<char>, Seq<char>)>) -> bool {
    &&& spec_obj_get(o, "media.class"@) == Some("Audio/Sink"@)
    &&& spec_obj_get(o, "node.name"@) != Some("effect_input.virtual-surround-7.1-irategoose"@)
}

/// The sink filter as a predicate on object views.
pub open spec fn spec_sink_pred() -> spec_fn(Seq<(Seq<char>, Seq<char>)>) -> bool {
    |o: Seq<(Seq<char>, Seq<char>)>| spec_is_audio_sink(o)
}

/// Decides `spec_is_audio_sink` for one object.
fn is_audio_sink(o: &PwObject) -> (r: bool)
    ensures
        r == spec_is_audio_sink(o@),
{
    let class_ok = match o.get("media.class") {
        Some(v) => eq_str(v.as_str(), "Audio/Sink"),
        None => false,
    };
    if !class_ok {
        return false;
    }
    match o.get("node.name") {
        Some(v) => !eq_str(v.as_str(), "effect_input.virtual-surround-7.1-irategoose"),
        None => true,
    }
}

/// Keeps the listed objects that are audio sinks, skipping this library's
/// own virtual device; the clones keep their order.
pub fn filter_audio_sinks(devices: &Vec<PwObject>) -> (r: Vec<PwObject>)
    ensures
        spec_objs_view(r) == spec_objs_view(*devices).filter(spec_sink_pred()),
{
    let ghost pred = spec_sink_pred();
    let ghost all = spec_objs_view(*devices);
    let n = devices.len();
    let mut out: Vec<PwObject> = Vec::new();
    proof {
        reveal(Seq::filter);
        assert(all.subrange(0, 0) =~= Seq::<Seq<(Seq<char>, Seq<char>)>>::empty());
        assert(spec_objs_view(out) =~= Seq::<Seq<(Seq<char>, Seq<char>)>>::empty());
    }
    let mut i: usize = 0;
    while i < n
        invariant
            0 <= i <= n,
            n == devices@.len(),
            all == spec_objs_view(*devices),
            all.len() == n,
            pred == spec_sink_pred(),
            spec_objs_view(out) == all.subrange(0, i as int).filter(pred),
        decreases n - i,
    {
        let matched = is_audio_sink(&devices[i]);
        let ghost old_out = spec_objs_view(out);
        proof {
            reveal(Seq::filter);
            let prefix = all.subrange(0, i + 1);
            assert(prefix.drop_last() =~= all.subrange(0, i as int));
            assert(prefix.last() == all[i as int]);
            assert(all[i as int] == devices@[i as int]@);
        }
        if matched {
            out.push(devices[i].clone());
            proof {
                assert(spec_objs_view(out) =~= old_out.push(devices@[i as int]@));
            }
        }
        i = i + 1;
    }
    proof {
        assert(all.subrange(0, n as int) =~= all);
    }
    out
}

} // verus!
