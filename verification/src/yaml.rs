//! A YAML/JSON document tree and the lookups the parsers make in it.
use vstd::prelude::*;

use crate::text::str_eq;

verus! {

/// A YAML (or JSON) value.  Numbers are kept by their text.
#[derive(Debug)]
pub enum Yaml {
    Null,
    Bool(bool),
    Number(String),
    Str(String),
    Sequence(Vec<Yaml>),
    Mapping(Vec<(Yaml, Yaml)>),
    Tagged(String, Box<Yaml>),
}

/// The mathematical value of a [`Yaml`].
pub enum YamlV {
    Null,
    Bool(bool),
    Number(Seq<char>),
    Str(Seq<char>),
    Sequence(Seq<YamlV>),
    Mapping(Seq<(YamlV, YamlV)>),
    Tagged(Seq<char>, Box<YamlV>),
}

pub open spec fn yv(y: Yaml) -> YamlV
    decreases y,
{
    match y {
        Yaml::Null => YamlV::Null,
        Yaml::Bool(b) => YamlV::Bool(b),
        Yaml::Number(n) => YamlV::Number(n@),
        Yaml::Str(s) => YamlV::Str(s@),
        Yaml::Sequence(v) => YamlV::Sequence(yv_seq(v@)),
        Yaml::Mapping(m) => YamlV::Mapping(yv_map(m@)),
        Yaml::Tagged(t, b) => YamlV::Tagged(t@, Box::new(yv(*b))),
    }
}

pub open spec fn yv_seq(s: Seq<Yaml>) -> Seq<YamlV>
    decreases s,
{
    if s.len() == 0 {
        Seq::empty()
    } else {
        yv_seq(s.drop_last()).push(yv(s.last()))
    }
}

pub open spec fn yv_map(s: Seq<(Yaml, Yaml)>) -> Seq<(YamlV, YamlV)>
    decreases s,
{
    if s.len() == 0 {
        Seq::empty()
    } else {
        yv_map(s.drop_last()).push((yv(s.last().0), yv(s.last().1)))
    }
}


/// `v` with its tags removed.
pub open spec fn untag(v: YamlV) -> YamlV
    decreases v,
{
    match v {
        YamlV::Tagged(_, b) => untag(*b),
        _ => v,
    }
}

/// Position of the first entry whose key is the string `key`, or -1.
pub open spec fn key_pos(m: Seq<(YamlV, YamlV)>, key: Seq<char>) -> int
    decreases m.len(),
{
    if m.len() == 0 {
        -1
    } else {
        let k = key_pos(m.drop_last(), key);
        if k >= 0 {
            k
        } else if m.last().0 == YamlV::Str(key) {
            m.len() - 1
        } else {
            -1
        }
    }
}

/// The value stored under the string `key` in a mapping.
pub open spec fn lookup(m: Seq<(YamlV, YamlV)>, key: Seq<char>) -> Option<YamlV> {
    if key_pos(m, key) >= 0 {
        Some(m[key_pos(m, key)].1)
    } else {
        None
    }
}

/// `Value::get(key)`: the value under `key` when `v` is a mapping.
pub open spec fn get(v: YamlV, key: Seq<char>) -> Option<YamlV> {
    match untag(v) {
        YamlV::Mapping(m) => lookup(m, key),
        _ => None,
    }
}

/// `get` on an optional value.
pub open spec fn get_opt(v: Option<YamlV>, key: Seq<char>) -> Option<YamlV> {
    match v {
        Some(x) => get(x, key),
        None => None,
    }
}

/// `Value::as_str`.
pub open spec fn as_str(v: YamlV) -> Option<Seq<char>> {
    match untag(v) {
        YamlV::Str(s) => Some(s),
        _ => None,
    }
}

/// `Value::as_bool`.
pub open spec fn as_bool(v: YamlV) -> Option<bool> {
    match untag(v) {
        YamlV::Bool(b) => Some(b),
        _ => None,
    }
}

/// `Value::as_sequence`.
pub open spec fn as_seq(v: YamlV) -> Option<Seq<YamlV>> {
    match untag(v) {
        YamlV::Sequence(s) => Some(s),
        _ => None,
    }
}

/// `Value::as_mapping`.
pub open spec fn as_map(v: YamlV) -> Option<Seq<(YamlV, YamlV)>> {
    match untag(v) {
        YamlV::Mapping(m) => Some(m),
        _ => None,
    }
}

/// The string under `key`, if there is one.
pub open spec fn str_at(v: Option<YamlV>, key: Seq<char>) -> Option<Seq<char>> {
    match get_opt(v, key) {
        Some(x) => as_str(x),
        None => None,
    }
}

pub open spec fn opt_yv(v: Option<&Yaml>) -> Option<YamlV> {
    match v {
        Some(x) => Some(yv(*x)),
        None => None,
    }
}

// ─── Reading YAML text ───────────────────────────────────────────────────────

#[verifier::external_type_specification]
#[verifier::external_body]
pub struct ExYamlValue(serde_yaml::Value);

/// The tree a `serde_yaml::Value` holds, in the library's terms: numbers
/// and tags by their text, sequences and mappings in their order.
pub uninterp spec fn value_tree(v: serde_yaml::Value) -> YamlV;

/// The tree `serde_yaml` reads from a YAML (or JSON) text, when the text
/// is one; a function of the text alone.
pub uninterp spec fn yaml_of(content: Seq<char>) -> Option<YamlV>;

/// Wraps `serde_yaml::from_str::<serde_yaml::Value>`: the value read from
/// the text, `None` where serde_yaml reports an error.
#[verifier::external_body]
fn yaml_from_str(content: &str) -> (r: Option<serde_yaml::Value>)
    ensures
        match r {
            Some(v) => yaml_of(content@) == Some(value_tree(v)),
            None => yaml_of(content@) is None,
        },
{
    serde_yaml::from_str::<serde_yaml::Value>(content).ok()
}

/// Converts a `serde_yaml::Value` variant by variant into the library's
/// tree: a number and a tag by their `Display` text, the rest field by
/// field.
#[verifier::external_body]
pub(crate) fn yaml_tree(v: &serde_yaml::Value) -> (r: Yaml)
    ensures
        yv(r) == value_tree(*v),
{
    match v {
        serde_yaml::Value::Null => Yaml::Null,
        serde_yaml::Value::Bool(b) => Yaml::Bool(*b),
        serde_yaml::Value::Number(n) => Yaml::Number(n.to_string()),
        serde_yaml::Value::String(s) => Yaml::Str(s.clone()),
        serde_yaml::Value::Sequence(s) => Yaml::Sequence(s.iter().map(yaml_tree).collect()),
        serde_yaml::Value::Mapping(m) => Yaml::Mapping(m.iter().map(|(k, x)| (yaml_tree(k), yaml_tree(x))).collect()),
        serde_yaml::Value::Tagged(t) => Yaml::Tagged(t.tag.to_string(), Box::new(yaml_tree(&t.value))),
    }
}

/// The tree of a YAML (or JSON) text, `None` when it is not one.
pub fn parse_yaml(content: &str) -> (r: Option<Yaml>)
    ensures
        match r {
            Some(y) => yaml_of(content@) == Some(yv(y)),
            None => yaml_of(content@) is None,
        },
{
    match yaml_from_str(content) {
        Some(v) => Some(yaml_tree(&v)),
        None => None,
    }
}

pub proof fn lemma_key_pos(m: Seq<(YamlV, YamlV)>, key: Seq<char>)
    ensures
        -1 <= key_pos(m, key) < m.len(),
        key_pos(m, key) >= 0 ==> m[key_pos(m, key)].0 == YamlV::Str(key),
        forall|j: int|
            0 <= j < m.len() && (key_pos(m, key) < 0 || j < key_pos(m, key)) ==> m[j].0 != YamlV::Str(
                key,
            ),
    decreases m.len(),
{
    if m.len() > 0 {
        lemma_key_pos(m.drop_last(), key);
        assert forall|j: int| 0 <= j < m.len() - 1 implies m.drop_last()[j] == m[j] by {}
    }
}

pub proof fn lemma_yv_seq(s: Seq<Yaml>)
    ensures
        yv_seq(s).len() == s.len(),
        forall|i: int| 0 <= i < s.len() ==> #[trigger] yv_seq(s)[i] == yv(s[i]),
    decreases s.len(),
{
    if s.len() > 0 {
        lemma_yv_seq(s.drop_last());
        assert forall|i: int| 0 <= i < s.len() - 1 implies s.drop_last()[i] == s[i] by {}
    }
}

pub proof fn lemma_yv_map(s: Seq<(Yaml, Yaml)>)
    ensures
        yv_map(s).len() == s.len(),
        forall|i: int|
            0 <= i < s.len() ==> #[trigger] yv_map(s)[i] == (yv(s[i].0), yv(s[i].1)),
    decreases s.len(),
{
    if s.len() > 0 {
        lemma_yv_map(s.drop_last());
        assert forall|i: int| 0 <= i < s.len() - 1 implies s.drop_last()[i] == s[i] by {}
    }
}

// ─── Executable accessors ────────────────────────────────────────────────────

/// A deep copy of a value.
pub fn yaml_clone(v: &Yaml) -> (r: Yaml)
    ensures
        yv(r) == yv(*v),
    decreases v,
{
    match v {
        Yaml::Null => Yaml::Null,
        Yaml::Bool(b) => Yaml::Bool(*b),
        Yaml::Number(n) => Yaml::Number(n.clone()),
        Yaml::Str(s) => Yaml::Str(s.clone()),
        Yaml::Sequence(items) => {
            let mut out: Vec<Yaml> = Vec::new();
            let n = items.len();
            proof {
                lemma_yv_seq(items@);
            }
            for i in 0..n
                invariant
                    n == items@.len(),
                    *v == Yaml::Sequence(*items),
                    out@.len() == i,
                    forall|k: int| 0 <= k < i ==> yv(#[trigger] out@[k]) == yv(items@[k]),
            {
                assert((*v)->Sequence_0 == *items);
                assert(decreases_to!(*v => (*v)->Sequence_0));
                assert(decreases_to!(*items => items@));
                assert(decreases_to!(items@ => items@[i as int]));
                out.push(yaml_clone(&items[i]));
            }
            proof {
                lemma_yv_seq(out@);
                lemma_yv_seq(items@);
                assert(yv_seq(out@) =~= yv_seq(items@));
            }
            Yaml::Sequence(out)
        },
        Yaml::Mapping(entries) => {
            let mut out: Vec<(Yaml, Yaml)> = Vec::new();
            let n = entries.len();
            for i in 0..n
                invariant
                    n == entries@.len(),
                    *v == Yaml::Mapping(*entries),
                    out@.len() == i,
                    forall|k: int|
                        0 <= k < i ==> yv((#[trigger] out@[k]).0) == yv(entries@[k].0) && yv(out@[k].1)
                            == yv(entries@[k].1),
            {
                assert((*v)->Mapping_0 == *entries);
                assert(decreases_to!(*v => (*v)->Mapping_0));
                assert(decreases_to!(*entries => entries@));
                assert(decreases_to!(entries@ => entries@[i as int]));
                assert(decreases_to!(entries@[i as int] => entries@[i as int].0));
                assert(decreases_to!(entries@[i as int] => entries@[i as int].1));
                let k = yaml_clone(&entries[i].0);
                let x = yaml_clone(&entries[i].1);
                out.push((k, x));
            }
            proof {
                lemma_yv_map(out@);
                lemma_yv_map(entries@);
                assert(yv_map(out@) =~= yv_map(entries@));
            }
            Yaml::Mapping(out)
        },
        Yaml::Tagged(t, b) => Yaml::Tagged(t.clone(), Box::new(yaml_clone(b))),
    }
}

/// `v` with its tags removed.
pub fn untag_ref(v: &Yaml) -> (r: &Yaml)
    ensures
        yv(*r) == untag(yv(*v)),
    decreases v,
{
    match v {
        Yaml::Tagged(_, b) => untag_ref(b),
        _ => v,
    }
}

/// The value under the string `key` in a mapping's entries.
pub fn map_lookup<'a>(m: &'a Vec<(Yaml, Yaml)>, key: &str) -> (r: Option<&'a Yaml>)
    ensures
        match r {
            Some(x) => lookup(yv_map(m@), key@) == Some(yv(*x)),
            None => lookup(yv_map(m@), key@) is None,
        },
{
    let ghost mv = yv_map(m@);
    proof {
        lemma_yv_map(m@);
        lemma_key_pos(mv, key@);
    }
    let n = m.len();
    for i in 0..n
        invariant
            n == m@.len(),
            mv == yv_map(m@),
            mv.len() == n,
            forall|k: int| 0 <= k < n ==> #[trigger] mv[k] == (yv(m@[k].0), yv(m@[k].1)),
            forall|j: int| 0 <= j < i ==> mv[j].0 != YamlV::Str(key@),
            -1 <= key_pos(mv, key@) < n,
            key_pos(mv, key@) >= 0 ==> mv[key_pos(mv, key@)].0 == YamlV::Str(key@),
            forall|j: int|
                0 <= j < n && (key_pos(mv, key@) < 0 || j < key_pos(mv, key@)) ==> mv[j].0 != YamlV::Str(
                    key@,
                ),
    {
        let hit = match &m[i].0 {
            Yaml::Str(s) => str_eq(s.as_str(), key),
            _ => false,
        };
        if hit {
            assert(mv[i as int].0 == YamlV::Str(key@));
            return Some(&m[i].1);
        }
        assert(mv[i as int].0 != YamlV::Str(key@));
    }
    None
}

/// `Value::get(key)`.
pub fn get_key<'a>(v: &'a Yaml, key: &str) -> (r: Option<&'a Yaml>)
    ensures
        match r {
            Some(x) => get(yv(*v), key@) == Some(yv(*x)),
            None => get(yv(*v), key@) is None,
        },
{
    match untag_ref(v) {
        Yaml::Mapping(m) => map_lookup(m, key),
        _ => None,
    }
}

/// `get` on an optional value.
pub fn get_opt_key<'a>(v: Option<&'a Yaml>, key: &str) -> (r: Option<&'a Yaml>)
    ensures
        match r {
            Some(x) => get_opt(opt_yv(v), key@) == Some(yv(*x)),
            None => get_opt(opt_yv(v), key@) is None,
        },
{
    match v {
        Some(x) => get_key(x, key),
        None => None,
    }
}

/// `Value::as_str`.
pub fn yaml_as_str(v: &Yaml) -> (r: Option<&str>)
    ensures
        match r {
            Some(s) => as_str(yv(*v)) == Some(s@),
            None => as_str(yv(*v)) is None,
        },
{
    match untag_ref(v) {
        Yaml::Str(s) => Some(s.as_str()),
        _ => None,
    }
}

/// `Value::as_bool`.
pub fn yaml_as_bool(v: &Yaml) -> (r: Option<bool>)
    ensures
        r == as_bool(yv(*v)),
{
    match untag_ref(v) {
        Yaml::Bool(b) => Some(*b),
        _ => None,
    }
}

/// `Value::as_sequence`.
pub fn yaml_as_seq(v: &Yaml) -> (r: Option<&Vec<Yaml>>)
    ensures
        match r {
            Some(s) => as_seq(yv(*v)) == Some(yv_seq(s@)),
            None => as_seq(yv(*v)) is None,
        },
{
    match untag_ref(v) {
        Yaml::Sequence(s) => Some(s),
        _ => None,
    }
}

/// `Value::as_mapping`.
pub fn yaml_as_map(v: &Yaml) -> (r: Option<&Vec<(Yaml, Yaml)>>)
    ensures
        match r {
            Some(m) => as_map(yv(*v)) == Some(yv_map(m@)),
            None => as_map(yv(*v)) is None,
        },
{
    match untag_ref(v) {
        Yaml::Mapping(m) => Some(m),
        _ => None,
    }
}

/// The string under `key`, copied.
pub fn str_at_key(v: Option<&Yaml>, key: &str) -> (r: Option<String>)
    ensures
        match r {
            Some(s) => str_at(opt_yv(v), key@) == Some(s@),
            None => str_at(opt_yv(v), key@) is None,
        },
{
    match get_opt_key(v, key) {
        Some(x) => match yaml_as_str(x) {
            Some(s) => Some(s.to_owned()),
            None => None,
        },
        None => None,
    }
}

} // verus!
