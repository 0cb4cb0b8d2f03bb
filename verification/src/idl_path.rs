//! Paths into JSON values (`"params.metadata.0"`): reading, writing and
//! following them.
use vstd::prelude::*;

use crate::idl_utils::{
    all_digits,
    decimal,
    decimal_string,
    is_digit,
    lemma_decimal,
    lemma_decimal_literal,
    parse_u64_literal,
    u64_literal,
};
use crate::json::{
    entries_get,
    json_entries_view,
    json_seq_view,
    lemma_array_view,
    lemma_object_view,
    object_get,
    str_to_string,
    string_push,
    JsonV,
    JsonValue,
};
use vstd::string::StringExecFns;

verus! {

/// One step of a path: an object key or an array index.
#[derive(Debug)]
pub enum ToolboxIdlPathPart {
    Key(String),
    Index(u64),
}

/// A path into a JSON value.
#[derive(Debug)]
pub struct ToolboxIdlPath {
    pub parts: Vec<ToolboxIdlPathPart>,
}

/// The view of a path step.
pub enum PathPartV {
    Key(Seq<char>),
    Index(u64),
}

pub open spec fn path_part_view(p: ToolboxIdlPathPart) -> PathPartV {
    match p {
        ToolboxIdlPathPart::Key(k) => PathPartV::Key(k@),
        ToolboxIdlPathPart::Index(i) => PathPartV::Index(i),
    }
}

pub open spec fn path_view(p: ToolboxIdlPath) -> Seq<PathPartV> {
    Seq::new(p.parts@.len(), |i: int| path_part_view(p.parts@[i]))
}

/// Why a path cannot be followed in a value.
#[derive(Clone, Copy, Debug, PartialEq, Eq, Structural)]
pub enum ToolboxIdlPathError {
    /// A step was left but the value is null, a boolean, a number or a string.
    NotAContainer,
    /// The value is an array but the step is a key.
    ExpectedIndex,
    /// The index is past the end of the array.
    IndexOutOfBounds,
    /// The value is an object but the step is an index.
    ExpectedKey,
    /// The object holds no entry under the key.
    KeyNotFound,
    /// The path text holds an empty step.
    EmptyPart,
}

/// The value that following `parts` from `v` reaches.
pub open spec fn spec_path_get(parts: Seq<PathPartV>, v: JsonV) -> Result<JsonV, ToolboxIdlPathError>
    decreases parts.len(),
{
    if parts.len() == 0 {
        Ok(v)
    } else {
        match v {
            JsonV::Array(items) => match parts[0] {
                PathPartV::Index(i) => if i < items.len() {
                    spec_path_get(parts.drop_first(), items[i as int])
                } else {
                    Err(ToolboxIdlPathError::IndexOutOfBounds)
                },
                PathPartV::Key(_) => Err(ToolboxIdlPathError::ExpectedIndex),
            },
            JsonV::Object(entries) => match parts[0] {
                PathPartV::Key(k) => match entries_get(entries, k) {
                    Some(x) => spec_path_get(parts.drop_first(), x),
                    None => Err(ToolboxIdlPathError::KeyNotFound),
                },
                PathPartV::Index(_) => Err(ToolboxIdlPathError::ExpectedKey),
            },
            _ => Err(ToolboxIdlPathError::NotAContainer),
        }
    }
}

/// The text of one path step.
pub open spec fn spec_part_text(p: PathPartV) -> Seq<char> {
    match p {
        PathPartV::Key(k) => k,
        PathPartV::Index(i) => decimal(i as nat),
    }
}

/// The text of a path: its steps joined by dots.
pub open spec fn spec_path_text(parts: Seq<PathPartV>) -> Seq<char>
    decreases parts.len(),
{
    if parts.len() == 0 {
        Seq::empty()
    } else if parts.len() == 1 {
        spec_part_text(parts[0])
    } else {
        spec_path_text(parts.drop_last()).push('.') + spec_part_text(parts.last())
    }
}

/// The step that one dot-free piece of path text denotes.
pub open spec fn spec_part_from_text(segment: Seq<char>) -> PathPartV {
    match u64_literal(segment) {
        Some(i) => PathPartV::Index(i),
        None => PathPartV::Key(segment),
    }
}

/// The dot-free pieces of a text, in order.
pub open spec fn spec_split_dots(text: Seq<char>) -> Seq<Seq<char>>
    decreases text.len(),
{
    if text.len() == 0 {
        seq![Seq::empty()]
    } else {
        let prev = spec_split_dots(text.drop_last());
        if text.last() == '.' {
            prev.push(Seq::empty())
        } else {
            prev.update(prev.len() - 1, prev.last().push(text.last()))
        }
    }
}

pub proof fn lemma_split_dots_nonempty(text: Seq<char>)
    ensures
        spec_split_dots(text).len() >= 1,
    decreases text.len(),
{
    if text.len() > 0 {
        lemma_split_dots_nonempty(text.drop_last());
    }
}

/// The path that a text denotes: every dot-separated piece is a step, a
/// decimal number being an index and anything else a key; no piece may be
/// empty.
pub open spec fn spec_path_parse(text: Seq<char>) -> Result<Seq<PathPartV>, ToolboxIdlPathError> {
    let segments = spec_split_dots(text);
    if exists|i: int| 0 <= i < segments.len() && #[trigger] segments[i].len() == 0 {
        Err(ToolboxIdlPathError::EmptyPart)
    } else {
        Ok(Seq::new(segments.len(), |i: int| spec_part_from_text(segments[i])))
    }
}

/// Whether a text holds no dot.
pub open spec fn dot_free(s: Seq<char>) -> bool {
    forall|i: int| 0 <= i < s.len() ==> s[i] != '.'
}

/// Whether a step reads back as itself from its text: a key must be
/// non-empty, hold no dot, and not read as a number.
pub open spec fn spec_valid_part(p: PathPartV) -> bool {
    match p {
        PathPartV::Key(k) => k.len() > 0 && dot_free(k) && u64_literal(k) is None,
        PathPartV::Index(_) => true,
    }
}

/// Appending dot-free text extends the last piece.
pub proof fn lemma_split_dots_append(t: Seq<char>, s: Seq<char>)
    requires
        dot_free(s),
    ensures
        spec_split_dots(t + s) == spec_split_dots(t).update(
            spec_split_dots(t).len() - 1,
            spec_split_dots(t).last() + s,
        ),
    decreases s.len(),
{
    lemma_split_dots_nonempty(t);
    if s.len() == 0 {
        assert(t + s =~= t);
        assert(spec_split_dots(t).last() + s =~= spec_split_dots(t).last());
        assert(spec_split_dots(t).update(spec_split_dots(t).len() - 1, spec_split_dots(t).last())
            =~= spec_split_dots(t));
    } else {
        let s0 = s.drop_last();
        lemma_split_dots_append(t, s0);
        assert((t + s).drop_last() =~= t + s0);
        assert((t + s).last() == s.last());
        let prev = spec_split_dots(t + s0);
        lemma_split_dots_nonempty(t + s0);
        assert((spec_split_dots(t).last() + s0).push(s.last()) =~= spec_split_dots(t).last() + s);
        assert(prev.update(prev.len() - 1, prev.last().push(s.last())) =~= spec_split_dots(t).update(
            spec_split_dots(t).len() - 1,
            spec_split_dots(t).last() + s,
        ));
    }
}

/// The text of a step reads back as the step.
pub proof fn lemma_part_text(p: PathPartV)
    requires
        spec_valid_part(p),
    ensures
        spec_part_text(p).len() > 0,
        dot_free(spec_part_text(p)),
        spec_part_from_text(spec_part_text(p)) == p,
{
    match p {
        PathPartV::Key(k) => {},
        PathPartV::Index(i) => {
            lemma_decimal(i as nat);
            lemma_decimal_literal(i);
            let d = decimal(i as nat);
            assert forall|j: int| 0 <= j < d.len() implies d[j] != '.' by {
                assert(is_digit(d[j]));
            }
        },
    }
}

/// The pieces of a path's text are the texts of its steps.
pub proof fn lemma_split_path_text(parts: Seq<PathPartV>)
    requires
        parts.len() > 0,
        forall|i: int| 0 <= i < parts.len() ==> spec_valid_part(#[trigger] parts[i]),
    ensures
        spec_split_dots(spec_path_text(parts)) == Seq::new(
            parts.len(),
            |i: int| spec_part_text(parts[i]),
        ),
    decreases parts.len(),
{
    let last = spec_part_text(parts.last());
    lemma_part_text(parts.last());
    if parts.len() == 1 {
        assert(Seq::<char>::empty() + last =~= last);
        lemma_split_dots_append(Seq::empty(), last);
        assert(Seq::<char>::empty() + last =~= last);
        assert(spec_split_dots(last) =~= Seq::new(parts.len(), |i: int| spec_part_text(parts[i])));
    } else {
        let init = parts.drop_last();
        lemma_split_path_text(init);
        let prefix = spec_path_text(init).push('.');
        assert(prefix.drop_last() =~= spec_path_text(init));
        lemma_split_dots_append(prefix, last);
        lemma_split_dots_nonempty(spec_path_text(init));
        assert(Seq::<char>::empty() + last =~= last);
        assert(spec_split_dots(spec_path_text(parts)) =~= Seq::new(
            parts.len(),
            |i: int| spec_part_text(parts[i]),
        ));
    }
}

/// Law: reading back the text that a path exports gives the path, for a
/// path of at least one step whose keys are non-empty, hold no dot and do
/// not read as numbers.
pub proof fn law_path_parse_export(parts: Seq<PathPartV>)
    requires
        parts.len() > 0,
        forall|i: int| 0 <= i < parts.len() ==> spec_valid_part(#[trigger] parts[i]),
    ensures
        spec_path_parse(spec_path_text(parts)) == Ok::<Seq<PathPartV>, ToolboxIdlPathError>(parts),
{
    lemma_split_path_text(parts);
    let segments = spec_split_dots(spec_path_text(parts));
    assert forall|i: int| 0 <= i < segments.len() implies #[trigger] segments[i].len() != 0 by {
        lemma_part_text(parts[i]);
    }
    assert forall|i: int| 0 <= i < parts.len() implies spec_part_from_text(segments[i]) == parts[i] by {
        lemma_part_text(parts[i]);
    }
    assert(Seq::new(segments.len(), |i: int| spec_part_from_text(segments[i])) =~= parts);
}

fn part_from_text(segment: String) -> (r: ToolboxIdlPathPart)
    ensures
        path_part_view(r) == spec_part_from_text(segment@),
{
    match parse_u64_literal(segment.as_str()) {
        Some(i) => ToolboxIdlPathPart::Index(i),
        None => ToolboxIdlPathPart::Key(segment),
    }
}

impl ToolboxIdlPath {
    /// Reads a path from its dotted text.
    pub fn try_parse(text: &str) -> (r: Result<ToolboxIdlPath, ToolboxIdlPathError>)
        ensures
            match r {
                Ok(p) => spec_path_parse(text@) == Ok::<Seq<PathPartV>, ToolboxIdlPathError>(
                    path_view(p),
                ),
                Err(e) => spec_path_parse(text@) == Err::<Seq<PathPartV>, ToolboxIdlPathError>(e),
            },
    {
        let n = text.unicode_len();
        let mut segments: Vec<String> = Vec::new();
        let mut current = String::new();
        let mut i: usize = 0;
        while i < n
            invariant
                n == text@.len(),
                i <= n,
                spec_split_dots(text@.take(i as int)) == Seq::new(
                    segments@.len(),
                    |k: int| segments@[k]@,
                ).push(current@),
            decreases n - i,
        {
            let c = text.get_char(i);
            let ghost prev_segments = segments@;
            let ghost prev_current = current@;
            proof {
                assert(text@.take(i + 1).drop_last() =~= text@.take(i as int));
                lemma_split_dots_nonempty(text@.take(i as int));
            }
            if c == '.' {
                let done = current;
                current = String::new();
                segments.push(done);
                proof {
                    assert(Seq::new(segments@.len(), |k: int| segments@[k]@).push(current@)
                        =~= Seq::new(prev_segments.len(), |k: int| prev_segments[k]@).push(
                        prev_current,
                    ).push(Seq::empty()));
                }
            } else {
                string_push(&mut current, c);
                proof {
                    let prev = Seq::new(prev_segments.len(), |k: int| prev_segments[k]@).push(
                        prev_current,
                    );
                    assert(Seq::new(segments@.len(), |k: int| segments@[k]@).push(current@)
                        =~= prev.update(prev.len() - 1, prev.last().push(c)));
                }
            }
            i = i + 1;
        }
        segments.push(current);
        proof {
            assert(text@.take(n as int) =~= text@);
        }
        let ghost all = Seq::new(segments@.len(), |k: int| segments@[k]@);
        proof {
            assert(all =~= spec_split_dots(text@));
        }
        let mut parts: Vec<ToolboxIdlPathPart> = Vec::new();
        let mut j: usize = 0;
        while j < segments.len()
            invariant
                j <= segments.len(),
                all == spec_split_dots(text@),
                all == Seq::new(segments@.len(), |k: int| segments@[k]@),
                parts@.len() == j,
                forall|k: int| 0 <= k < j ==> all[k].len() > 0,
                forall|k: int|
                    0 <= k < j ==> #[trigger] path_part_view(parts@[k]) == spec_part_from_text(
                        all[k],
                    ),
            decreases segments.len() - j,
        {
            let segment = str_to_string(segments[j].as_str());
            if segment.unicode_len() == 0 {
                proof {
                    assert(all[j as int].len() == 0);
                }
                return Err(ToolboxIdlPathError::EmptyPart);
            }
            parts.push(part_from_text(segment));
            j = j + 1;
        }
        let r = ToolboxIdlPath { parts };
        proof {
            assert(path_view(r) =~= Seq::new(all.len(), |k: int| spec_part_from_text(all[k])));
        }
        Ok(r)
    }

    /// The dotted text of the path.
    pub fn export(&self) -> (r: String)
        ensures
            r@ == spec_path_text(path_view(*self)),
    {
        let mut out = String::new();
        let ghost pv = path_view(*self);
        let mut i: usize = 0;
        while i < self.parts.len()
            invariant
                i <= self.parts.len(),
                pv == path_view(*self),
                out@ == spec_path_text(pv.take(i as int)),
            decreases self.parts.len() - i,
        {
            proof {
                assert(pv.take(i + 1).drop_last() =~= pv.take(i as int));
                assert(pv.take(i + 1).last() == path_part_view(self.parts@[i as int]));
                assert(pv.take(i + 1).len() == i + 1);
            }
            if i > 0 {
                string_push(&mut out, '.');
            }
            match &self.parts[i] {
                ToolboxIdlPathPart::Key(k) => {
                    out.append(k.as_str());
                },
                ToolboxIdlPathPart::Index(index) => {
                    let digits = decimal_string(*index);
                    out.append(digits.as_str());
                },
            }
            i = i + 1;
        }
        proof {
            assert(pv.take(self.parts@.len() as int) =~= pv);
        }
        out
    }

    /// The value that following the path from `value` reaches.
    pub fn try_get_json_value<'a>(&self, value: &'a JsonValue) -> (r: Result<
        &'a JsonValue,
        ToolboxIdlPathError,
    >)
        ensures
            match r {
                Ok(v) => spec_path_get(path_view(*self), value@) == Ok::<
                    JsonV,
                    ToolboxIdlPathError,
                >(v@),
                Err(e) => spec_path_get(path_view(*self), value@) == Err::<
                    JsonV,
                    ToolboxIdlPathError,
                >(e),
            },
    {
        let ghost pv = path_view(*self);
        let mut current: &'a JsonValue = value;
        proof {
            assert(pv.skip(0) =~= pv);
        }
        let mut i: usize = 0;
        while i < self.parts.len()
            invariant
                i <= self.parts.len(),
                pv == path_view(*self),
                spec_path_get(pv, value@) == spec_path_get(pv.skip(i as int), current@),
            decreases self.parts.len() - i,
        {
            let ghost rest = pv.skip(i as int);
            proof {
                assert(rest.drop_first() =~= pv.skip(i + 1));
                assert(rest[0] == path_part_view(self.parts@[i as int]));
            }
            match current {
                JsonValue::Array(values) => {
                    proof {
                        lemma_array_view(*values);
                    }
                    let index = match &self.parts[i] {
                        ToolboxIdlPathPart::Index(index) => *index,
                        ToolboxIdlPathPart::Key(_) => {
                            return Err(ToolboxIdlPathError::ExpectedIndex);
                        },
                    };
                    if index >= values.len() as u64 {
                        return Err(ToolboxIdlPathError::IndexOutOfBounds);
                    }
                    current = &values[index as usize];
                },
                JsonValue::Object(map) => {
                    proof {
                        lemma_object_view(*map);
                    }
                    let key = match &self.parts[i] {
                        ToolboxIdlPathPart::Key(key) => key,
                        ToolboxIdlPathPart::Index(_) => {
                            return Err(ToolboxIdlPathError::ExpectedKey);
                        },
                    };
                    match object_get(map, key.as_str()) {
                        Some(next) => {
                            current = next;
                        },
                        None => {
                            return Err(ToolboxIdlPathError::KeyNotFound);
                        },
                    }
                },
                _ => {
                    return Err(ToolboxIdlPathError::NotAContainer);
                },
            }
            i = i + 1;
        }
        proof {
            assert(pv.skip(i as int) =~= Seq::<PathPartV>::empty());
        }
        Ok(current)
    }
}

} // verus!
