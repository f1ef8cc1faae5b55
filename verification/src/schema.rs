//! Schema trees: resolving `$ref`s inside a schema value, dropping keys
//! that only add noise, and turning the result into a [`SchemaNode`] tree.
use vstd::prelude::*;

use crate::model::{lemma_sv_seq, sv, sv_seq, KindV, SchemaKindHint, SchemaNode, SchemaV};
use crate::text::{
    chars_of, dec, lines, lines_of, push_char, push_dec, slice_chars, starts_with, starts_with_exec,
    str_eq, string_of, trim, trim_chars,
};
use crate::yaml::{
    get_opt, get_opt_key, key_pos, lemma_key_pos, lemma_yv_map, lemma_yv_seq, lookup, map_lookup,
    opt_yv, untag, yaml_clone, yv, yv_map, yv_seq, Yaml, YamlV,
};

verus! {

// ─── $ref resolution: model ──────────────────────────────────────────────────

pub open spec fn views(v: Seq<String>) -> Seq<Seq<char>> {
    v.map_values(|s: String| s@)
}

/// How many string keys of `m` are not in `visited`.
pub open spec fn unvisited(m: Seq<(YamlV, YamlV)>, visited: Seq<Seq<char>>) -> nat
    decreases m.len(),
{
    if m.len() == 0 {
        0
    } else {
        unvisited(m.drop_last(), visited) + match m.last().0 {
            YamlV::Str(k) => if visited.contains(k) {
                0nat
            } else {
                1nat
            },
            _ => 0nat,
        }
    }
}

/// How many schemas can still be expanded: the termination measure of
/// `$ref` resolution.
pub open spec fn budget(schemas: Option<YamlV>, visited: Seq<Seq<char>>) -> nat {
    match schemas {
        Some(s) => match untag(s) {
            YamlV::Mapping(m) => unvisited(m, visited),
            _ => 0,
        },
        None => 0,
    }
}

/// The schema name of a mapping that is a `$ref` to `prefix<name>`.
pub open spec fn ref_name(m: Seq<(YamlV, YamlV)>, prefix: Seq<char>) -> Option<Seq<char>> {
    match lookup(m, "$ref"@) {
        Some(YamlV::Str(r)) => if starts_with(r, prefix) {
            Some(r.skip(prefix.len() as int))
        } else {
            None
        },
        _ => None,
    }
}

/// `m` with entry `i` removed, the last entry taking its place.
pub open spec fn swap_remove(m: Seq<(YamlV, YamlV)>, i: int) -> Seq<(YamlV, YamlV)> {
    if i == m.len() - 1 {
        m.drop_last()
    } else {
        m.drop_last().update(i, m.last())
    }
}

/// `m` with the value under the string `key` set to `val` (appended when
/// the key is absent).
pub open spec fn insert_kv(m: Seq<(YamlV, YamlV)>, key: Seq<char>, val: YamlV) -> Seq<(YamlV, YamlV)> {
    let j = key_pos(m, key);
    if j >= 0 {
        m.update(j, (m[j].0, val))
    } else {
        m.push((YamlV::Str(key), val))
    }
}

/// A `$ref` that cannot be expanded (cyclic or unknown) becomes a stub
/// whose `type` is the schema name.
pub open spec fn stub(m: Seq<(YamlV, YamlV)>, name: Seq<char>) -> Seq<(YamlV, YamlV)> {
    insert_kv(swap_remove(m, key_pos(m, "$ref"@)), "type"@, YamlV::Str(name))
}

/// `v` with every `$ref` to `prefix<name>` replaced by the named schema from
/// `schemas`, recursively; a schema already being expanded is not expanded
/// again.
pub open spec fn resolve(
    v: YamlV,
    schemas: Option<YamlV>,
    prefix: Seq<char>,
    visited: Seq<Seq<char>>,
) -> YamlV
    decreases budget(schemas, visited), v,
{
    match v {
        YamlV::Mapping(m) => match ref_name(m, prefix) {
            Some(name) => if !visited.contains(name) && get_opt(schemas, name) is Some {
                proof {
                    lemma_budget_shrinks(schemas, visited, name);
                }
                resolve(get_opt(schemas, name)->0, schemas, prefix, visited.push(name))
            } else {
                YamlV::Mapping(stub(m, name))
            },
            None => YamlV::Mapping(resolve_entries(m, schemas, prefix, visited)),
        },
        YamlV::Sequence(s) => YamlV::Sequence(resolve_items(s, schemas, prefix, visited)),
        _ => v,
    }
}

pub open spec fn resolve_entries(
    m: Seq<(YamlV, YamlV)>,
    schemas: Option<YamlV>,
    prefix: Seq<char>,
    visited: Seq<Seq<char>>,
) -> Seq<(YamlV, YamlV)>
    decreases budget(schemas, visited), m,
{
    if m.len() == 0 {
        Seq::empty()
    } else {
        resolve_entries(m.drop_last(), schemas, prefix, visited).push(
            (m.last().0, resolve(m.last().1, schemas, prefix, visited)),
        )
    }
}

pub open spec fn resolve_items(
    s: Seq<YamlV>,
    schemas: Option<YamlV>,
    prefix: Seq<char>,
    visited: Seq<Seq<char>>,
) -> Seq<YamlV>
    decreases budget(schemas, visited), s,
{
    if s.len() == 0 {
        Seq::empty()
    } else {
        resolve_items(s.drop_last(), schemas, prefix, visited).push(
            resolve(s.last(), schemas, prefix, visited),
        )
    }
}

pub proof fn lemma_unvisited_push(m: Seq<(YamlV, YamlV)>, visited: Seq<Seq<char>>, name: Seq<char>)
    requires
        !visited.contains(name),
    ensures
        unvisited(m, visited.push(name)) <= unvisited(m, visited),
        key_pos(m, name) >= 0 ==> unvisited(m, visited.push(name)) < unvisited(m, visited),
    decreases m.len(),
{
    if m.len() > 0 {
        lemma_unvisited_push(m.drop_last(), visited, name);
        match m.last().0 {
            YamlV::Str(k) => {
                if visited.contains(k) {
                    let i = choose|i: int| 0 <= i < visited.len() && visited[i] == k;
                    assert(visited.push(name)[i] == k);
                }
                if k == name {
                    assert(visited.push(name)[visited.len() as int] == name);
                }
                if visited.push(name).contains(k) && k != name {
                    let i = choose|i: int| 0 <= i < visited.push(name).len() && visited.push(name)[i] == k;
                    assert(visited[i] == k);
                }
            },
            _ => {},
        }
    }
}

pub proof fn lemma_budget_shrinks(schemas: Option<YamlV>, visited: Seq<Seq<char>>, name: Seq<char>)
    requires
        !visited.contains(name),
        get_opt(schemas, name) is Some,
    ensures
        budget(schemas, visited.push(name)) < budget(schemas, visited),
{
    let m = untag(schemas->0)->Mapping_0;
    lemma_unvisited_push(m, visited, name);
}

// ─── $ref resolution: code ───────────────────────────────────────────────────

/// Whether `s` is one of `v`.
pub fn contains_str(v: &Vec<String>, s: &str) -> (b: bool)
    ensures
        b == views(v@).contains(s@),
{
    let n = v.len();
    for i in 0..n
        invariant
            n == v@.len(),
            forall|j: int| 0 <= j < i ==> v@[j]@ != s@,
    {
        if str_eq(v[i].as_str(), s) {
            assert(views(v@)[i as int] == s@);
            return true;
        }
    }
    assert forall|j: int| 0 <= j < views(v@).len() implies views(v@)[j] != s@ by {
        assert(views(v@)[j] == v@[j]@);
    }
    false
}

/// A copy of a list of strings.
pub fn copy_strings(v: &Vec<String>) -> (r: Vec<String>)
    ensures
        views(r@) == views(v@),
{
    let mut r: Vec<String> = Vec::new();
    let n = v.len();
    for i in 0..n
        invariant
            n == v@.len(),
            r@.len() == i,
            forall|j: int| 0 <= j < i ==> (#[trigger] r@[j])@ == v@[j]@,
    {
        r.push(v[i].clone());
    }
    assert(views(r@) =~= views(v@));
    r
}

/// A deep copy of a mapping's entries.
pub fn clone_entries(m: &Vec<(Yaml, Yaml)>) -> (r: Vec<(Yaml, Yaml)>)
    ensures
        yv_map(r@) == yv_map(m@),
{
    let mut r: Vec<(Yaml, Yaml)> = Vec::new();
    let n = m.len();
    for i in 0..n
        invariant
            n == m@.len(),
            r@.len() == i,
            forall|j: int|
                0 <= j < i ==> yv((#[trigger] r@[j]).0) == yv(m@[j].0) && yv(r@[j].1) == yv(m@[j].1),
    {
        let k = yaml_clone(&m[i].0);
        let x = yaml_clone(&m[i].1);
        r.push((k, x));
    }
    proof {
        lemma_yv_map(r@);
        lemma_yv_map(m@);
        assert(yv_map(r@) =~= yv_map(m@));
    }
    r
}

/// Position of the first entry whose key is the string `key`.
pub fn key_index(m: &Vec<(Yaml, Yaml)>, key: &str) -> (r: Option<usize>)
    ensures
        match r {
            Some(i) => key_pos(yv_map(m@), key@) == i as int,
            None => key_pos(yv_map(m@), key@) == -1,
        },
{
    let ghost mv = yv_map(m@);
    proof {
        lemma_yv_map(m@);
        lemma_key_pos(mv, key@);
    }
    let n = m.len();
    for i in 0..n
        invariant
            n == m@.len(),
            mv == yv_map(m@),
            mv.len() == n,
            forall|k: int| 0 <= k < n ==> #[trigger] mv[k] == (yv(m@[k].0), yv(m@[k].1)),
            forall|j: int| 0 <= j < i ==> mv[j].0 != YamlV::Str(key@),
            -1 <= key_pos(mv, key@) < n,
            key_pos(mv, key@) >= 0 ==> mv[key_pos(mv, key@)].0 == YamlV::Str(key@),
            forall|j: int|
                0 <= j < n && (key_pos(mv, key@) < 0 || j < key_pos(mv, key@)) ==> mv[j].0 != YamlV::Str(
                    key@,
                ),
    {
        let hit = match &m[i].0 {
            Yaml::Str(s) => str_eq(s.as_str(), key),
            _ => false,
        };
        if hit {
            assert(mv[i as int].0 == YamlV::Str(key@));
            return Some(i);
        }
        assert(mv[i as int].0 != YamlV::Str(key@));
    }
    None
}

/// The schema name of a mapping that is a `$ref` to `prefix<name>`.
pub fn ref_target(m: &Vec<(Yaml, Yaml)>, prefix: &str) -> (r: Option<String>)
    ensures
        match r {
            Some(n) => ref_name(yv_map(m@), prefix@) == Some(n@),
            None => ref_name(yv_map(m@), prefix@) is None,
        },
{
    match map_lookup(m, "$ref") {
        Some(Yaml::Str(r)) => {
            let rc = chars_of(r.as_str());
            let pc = chars_of(prefix);
            if starts_with_exec(&rc, &pc) {
                let rest = slice_chars(&rc, pc.len(), rc.len());
                assert(rest@ =~= r@.skip(prefix@.len() as int));
                Some(string_of(&rest))
            } else {
                None
            }
        },
        _ => None,
    }
}

/// Builds the stub for a `$ref` that is not expanded.
fn stub_exec(m: &Vec<(Yaml, Yaml)>, name: &String) -> (r: Vec<(Yaml, Yaml)>)
    requires
        key_pos(yv_map(m@), "$ref"@) >= 0,
    ensures
        yv_map(r@) == stub(yv_map(m@), name@),
{
    let mut e = clone_entries(m);
    let ghost mv = yv_map(m@);
    let i = match key_index(&e, "$ref") {
        Some(i) => i,
        None => {
            assert(false);
            0
        },
    };
    proof {
        lemma_yv_map(m@);
        lemma_yv_map(e@);
        lemma_key_pos(mv, "$ref"@);
    }
    let ghost e0 = e@;
    let _ = e.swap_remove(i);
    let ghost sw = swap_remove(mv, i as int);
    proof {
        lemma_yv_map(e@);
        assert(yv_map(e@) =~= sw) by {
            assert forall|k: int| 0 <= k < sw.len() implies yv_map(e@)[k] == sw[k] by {
                if k == i && i < mv.len() - 1 {
                    assert(e@[k] == e0[e0.len() - 1]);
                } else {
                    assert(e@[k] == e0[k]);
                }
            }
        }
    }
    match key_index(&e, "type") {
        Some(j) => {
            proof {
                lemma_yv_map(e@);
                lemma_key_pos(yv_map(e@), "type"@);
            }
            let k = yaml_clone(&e[j].0);
            let ghost e1 = e@;
            e.set(j, (k, Yaml::Str(name.clone())));
            proof {
                lemma_yv_map(e1);
                lemma_yv_map(e@);
                assert(yv_map(e@) =~= insert_kv(sw, "type"@, YamlV::Str(name@))) by {
                    assert forall|x: int| 0 <= x < e@.len() implies yv_map(e@)[x] == insert_kv(sw, "type"@, YamlV::Str(name@))[x] by {
                        if x != j {
                            assert(e@[x] == e1[x]);
                        }
                    }
                }
            }
        },
        None => {
            let ghost e1 = e@;
            e.push((Yaml::Str("type".to_owned()), Yaml::Str(name.clone())));
            proof {
                lemma_yv_map(e1);
                lemma_yv_map(e@);
                assert(yv_map(e@) =~= insert_kv(sw, "type"@, YamlV::Str(name@))) by {
                    assert forall|x: int| 0 <= x < e@.len() implies yv_map(e@)[x] == insert_kv(sw, "type"@, YamlV::Str(name@))[x] by {
                        if x < e1.len() {
                            assert(e@[x] == e1[x]);
                        }
                    }
                }
            }
        },
    }
    e
}

/// Replaces every `$ref` to `prefix<name>` in `val` by the named schema
/// from `schemas`, recursively.  Schemas in `visited` are being expanded
/// already and are left as stubs, which ends the expansion of cyclic
/// schemas.
pub fn resolve_refs_in_value(
    val: &Yaml,
    schemas: Option<&Yaml>,
    prefix: &str,
    visited: &Vec<String>,
) -> (r: Yaml)
    ensures
        yv(r) == resolve(yv(*val), opt_yv(schemas), prefix@, views(visited@)),
    decreases budget(opt_yv(schemas), views(visited@)), *val,
{
    match val {
        Yaml::Mapping(m) => {
            proof {
                lemma_yv_map(m@);
            }
            match ref_target(m, prefix) {
                Some(name) => {
                    let seen = contains_str(visited, name.as_str());
                    match get_opt_key(schemas, name.as_str()) {
                        Some(target) => {
                            if !seen {
                                let mut v2 = copy_strings(visited);
                                v2.push(name);
                                proof {
                                    assert(views(v2@) =~= views(visited@).push(name@));
                                    lemma_budget_shrinks(opt_yv(schemas), views(visited@), name@);
                                }
                                return resolve_refs_in_value(target, schemas, prefix, &v2);
                            }
                        },
                        None => {},
                    }
                    proof {
                        reveal_strlit("$ref");
                        lemma_key_pos(yv_map(m@), "$ref"@);
                    }
                    Yaml::Mapping(stub_exec(m, &name))
                },
                None => {
                    let mut out: Vec<(Yaml, Yaml)> = Vec::new();
                    let n = m.len();
                    let ghost mv = yv_map(m@);
                    let ghost sch = opt_yv(schemas);
                    let ghost vis = views(visited@);
                    for i in 0..n
                        invariant
                            n == m@.len(),
                            mv == yv_map(m@),
                            mv.len() == n,
                            *val == Yaml::Mapping(*m),
                            sch == opt_yv(schemas),
                            vis == views(visited@),
                            forall|k: int| 0 <= k < n ==> #[trigger] mv[k] == (yv(m@[k].0), yv(m@[k].1)),
                            out@.len() == i,
                            yv_map(out@) == resolve_entries(mv.take(i as int), sch, prefix@, vis),
                    {
                        assert((*val)->Mapping_0 == *m);
                        assert(decreases_to!(*val => (*val)->Mapping_0));
                        assert(decreases_to!(*m => m@));
                        assert(decreases_to!(m@ => m@[i as int]));
                        assert(decreases_to!(m@[i as int] => m@[i as int].1));
                        let k = yaml_clone(&m[i].0);
                        let x = resolve_refs_in_value(&m[i].1, schemas, prefix, visited);
                        let ghost before = out@;
                        out.push((k, x));
                        proof {
                            assert(mv.take(i + 1).drop_last() =~= mv.take(i as int));
                            assert(out@.drop_last() =~= before);
                        }
                    }
                    assert(mv.take(n as int) =~= mv);
                    Yaml::Mapping(out)
                },
            }
        },
        Yaml::Sequence(items) => {
            proof {
                lemma_yv_seq(items@);
            }
            let mut out: Vec<Yaml> = Vec::new();
            let n = items.len();
            let ghost iv = yv_seq(items@);
            let ghost sch = opt_yv(schemas);
            let ghost vis = views(visited@);
            for i in 0..n
                invariant
                    n == items@.len(),
                    iv == yv_seq(items@),
                    iv.len() == n,
                    *val == Yaml::Sequence(*items),
                    sch == opt_yv(schemas),
                    vis == views(visited@),
                    forall|k: int| 0 <= k < n ==> #[trigger] iv[k] == yv(items@[k]),
                    out@.len() == i,
                    yv_seq(out@) == resolve_items(iv.take(i as int), sch, prefix@, vis),
            {
                assert((*val)->Sequence_0 == *items);
                assert(decreases_to!(*val => (*val)->Sequence_0));
                assert(decreases_to!(*items => items@));
                assert(decreases_to!(items@ => items@[i as int]));
                let x = resolve_refs_in_value(&items[i], schemas, prefix, visited);
                let ghost before = out@;
                out.push(x);
                proof {
                    assert(iv.take(i + 1).drop_last() =~= iv.take(i as int));
                    assert(out@.drop_last() =~= before);
                }
            }
            assert(iv.take(n as int) =~= iv);
            Yaml::Sequence(out)
        },
        _ => yaml_clone(val),
    }
}

// ─── Noise keys ──────────────────────────────────────────────────────────────

/// Keys that add visual noise without helping the reader understand a
/// schema's structure.
pub open spec fn noise_keys(swagger: bool) -> Seq<Seq<char>> {
    let common = seq![
        "title"@,
        "additionalProperties"@,
        "format"@,
        "pattern"@,
        "minLength"@,
        "maxLength"@,
        "minimum"@,
        "maximum"@,
        "default"@,
        "example"@,
        "extensions"@,
        "nullable"@,
        "readOnly"@,
        "writeOnly"@,
        "xml"@,
        "externalDocs"@,
    ];
    if swagger {
        common + seq!["collectionFormat"@, "discriminator"@]
    } else {
        common
    }
}

pub fn noise_list(swagger: bool) -> (v: Vec<&'static str>)
    ensures
        v@.len() == noise_keys(swagger).len(),
        forall|i: int| 0 <= i < v@.len() ==> (#[trigger] v@[i])@ == noise_keys(swagger)[i],
{
    let mut v: Vec<&'static str> = Vec::new();
    v.push("title");
    v.push("additionalProperties");
    v.push("format");
    v.push("pattern");
    v.push("minLength");
    v.push("maxLength");
    v.push("minimum");
    v.push("maximum");
    v.push("default");
    v.push("example");
    v.push("extensions");
    v.push("nullable");
    v.push("readOnly");
    v.push("writeOnly");
    v.push("xml");
    v.push("externalDocs");
    if swagger {
        v.push("collectionFormat");
        v.push("discriminator");
    }
    v
}

pub open spec fn is_noise(k: YamlV, noise: Seq<Seq<char>>) -> bool {
    match k {
        YamlV::Str(s) => noise.contains(s),
        _ => false,
    }
}

/// `v` without the entries whose key is a noise key, at every depth.
pub open spec fn strip(v: YamlV, noise: Seq<Seq<char>>) -> YamlV
    decreases v,
{
    match v {
        YamlV::Mapping(m) => YamlV::Mapping(strip_entries(m, noise)),
        YamlV::Sequence(s) => YamlV::Sequence(strip_items(s, noise)),
        _ => v,
    }
}

pub open spec fn strip_entries(m: Seq<(YamlV, YamlV)>, noise: Seq<Seq<char>>) -> Seq<(YamlV, YamlV)>
    decreases m,
{
    if m.len() == 0 {
        Seq::empty()
    } else if is_noise(m.last().0, noise) {
        strip_entries(m.drop_last(), noise)
    } else {
        strip_entries(m.drop_last(), noise).push((m.last().0, strip(m.last().1, noise)))
    }
}

pub open spec fn strip_items(s: Seq<YamlV>, noise: Seq<Seq<char>>) -> Seq<YamlV>
    decreases s,
{
    if s.len() == 0 {
        Seq::empty()
    } else {
        strip_items(s.drop_last(), noise).push(strip(s.last(), noise))
    }
}

fn is_noise_exec(k: &Yaml, noise: &Vec<&'static str>) -> (b: bool)
    ensures
        b == is_noise(yv(*k), noise@.map_values(|x: &str| x@)),
{
    match k {
        Yaml::Str(s) => {
            let n = noise.len();
            let ghost nv = noise@.map_values(|x: &str| x@);
            for i in 0..n
                invariant
                    n == noise@.len(),
                    nv == noise@.map_values(|x: &str| x@),
                    yv(*k) == YamlV::Str(s@),
                    forall|j: int| 0 <= j < i ==> nv[j] != s@,
            {
                if str_eq(noise[i], s.as_str()) {
                    assert(nv[i as int] == s@);
                    assert(nv.contains(s@));
                    return true;
                }
            }
            assert(!nv.contains(s@));
            false
        },
        _ => false,
    }
}

/// Removes noise keys at every depth of `val`.
pub fn strip_noise_keys(val: &Yaml, noise: &Vec<&'static str>) -> (r: Yaml)
    ensures
        yv(r) == strip(yv(*val), noise@.map_values(|x: &str| x@)),
    decreases *val,
{
    let ghost nv = noise@.map_values(|x: &str| x@);
    match val {
        Yaml::Mapping(m) => {
            proof {
                lemma_yv_map(m@);
            }
            let mut out: Vec<(Yaml, Yaml)> = Vec::new();
            let n = m.len();
            let ghost mv = yv_map(m@);
            for i in 0..n
                invariant
                    n == m@.len(),
                    mv == yv_map(m@),
                    mv.len() == n,
                    *val == Yaml::Mapping(*m),
                    nv == noise@.map_values(|x: &str| x@),
                    forall|k: int| 0 <= k < n ==> #[trigger] mv[k] == (yv(m@[k].0), yv(m@[k].1)),
                    yv_map(out@) == strip_entries(mv.take(i as int), nv),
            {
                assert((*val)->Mapping_0 == *m);
                assert(decreases_to!(*val => (*val)->Mapping_0));
                assert(decreases_to!(*m => m@));
                assert(decreases_to!(m@ => m@[i as int]));
                assert(decreases_to!(m@[i as int] => m@[i as int].1));
                proof {
                    assert(mv.take(i + 1).drop_last() =~= mv.take(i as int));
                }
                if !is_noise_exec(&m[i].0, noise) {
                    let k = yaml_clone(&m[i].0);
                    let x = strip_noise_keys(&m[i].1, noise);
                    let ghost before = out@;
                    out.push((k, x));
                    proof {
                        assert(out@.drop_last() =~= before);
                    }
                }
            }
            assert(mv.take(n as int) =~= mv);
            Yaml::Mapping(out)
        },
        Yaml::Sequence(items) => {
            proof {
                lemma_yv_seq(items@);
            }
            let mut out: Vec<Yaml> = Vec::new();
            let n = items.len();
            let ghost iv = yv_seq(items@);
            for i in 0..n
                invariant
                    n == items@.len(),
                    iv == yv_seq(items@),
                    iv.len() == n,
                    *val == Yaml::Sequence(*items),
                    nv == noise@.map_values(|x: &str| x@),
                    forall|k: int| 0 <= k < n ==> #[trigger] iv[k] == yv(items@[k]),
                    out@.len() == i,
                    yv_seq(out@) == strip_items(iv.take(i as int), nv),
            {
                assert((*val)->Sequence_0 == *items);
                assert(decreases_to!(*val => (*val)->Sequence_0));
                assert(decreases_to!(*items => items@));
                assert(decreases_to!(items@ => items@[i as int]));
                let x = strip_noise_keys(&items[i], noise);
                let ghost before = out@;
                out.push(x);
                proof {
                    assert(iv.take(i + 1).drop_last() =~= iv.take(i as int));
                    assert(out@.drop_last() =~= before);
                }
            }
            assert(iv.take(n as int) =~= iv);
            Yaml::Sequence(out)
        },
        _ => yaml_clone(val),
    }
}

// ─── Schema trees: model ─────────────────────────────────────────────────────

/// The first line of `s` (empty when `s` has no line).
pub open spec fn first_line(s: Seq<char>) -> Seq<char> {
    if lines(s).len() > 0 {
        lines(s)[0]
    } else {
        Seq::empty()
    }
}

/// The trimmed first line of a mapping's string `description`, if not empty.
pub open spec fn describe(m: Seq<(YamlV, YamlV)>) -> Option<Seq<char>> {
    match lookup(m, "description"@) {
        Some(YamlV::Str(s)) => if trim(first_line(s)).len() > 0 {
            Some(trim(first_line(s)))
        } else {
            None
        },
        _ => None,
    }
}

/// The string items of a sequence.
pub open spec fn string_items(s: Seq<YamlV>) -> Seq<Seq<char>>
    decreases s.len(),
{
    if s.len() == 0 {
        Seq::empty()
    } else {
        let prev = string_items(s.drop_last());
        match s.last() {
            YamlV::Str(x) => prev.push(x),
            _ => prev,
        }
    }
}

/// The names listed under `required` in an object schema.
pub open spec fn required_names(m: Seq<(YamlV, YamlV)>) -> Seq<Seq<char>> {
    match lookup(m, "required"@) {
        Some(YamlV::Sequence(s)) => string_items(s),
        _ => Seq::empty(),
    }
}

/// Whether key `k` of `m` holds a sequence.
pub open spec fn seq_at(m: Seq<(YamlV, YamlV)>, k: Seq<char>) -> bool {
    key_pos(m, k) >= 0 && m[key_pos(m, k)].1 is Sequence
}

/// `kw[i]`, the label of a composition branch.
pub open spec fn branch_label(kw: Seq<char>, i: nat) -> Seq<char> {
    kw + seq!['['] + dec(i) + seq![']']
}

/// The label of an object property.
pub open spec fn prop_label(k: YamlV) -> Seq<char> {
    match k {
        YamlV::Str(s) => s,
        _ => "?"@,
    }
}

/// The schema tree of a cleaned schema value `v` labelled `label`;
/// `req` holds the required property names of the parent object.
pub open spec fn to_schema(label: Seq<char>, v: YamlV, req: Seq<Seq<char>>) -> SchemaV
    decreases v,
{
    let required = req.contains(label);
    match v {
        YamlV::Mapping(m) => {
            let d = describe(m);
            proof {
                lemma_key_pos(m, "allOf"@);
                lemma_key_pos(m, "anyOf"@);
                lemma_key_pos(m, "oneOf"@);
                lemma_key_pos(m, "properties"@);
                lemma_key_pos(m, "items"@);
            }
            if seq_at(m, "allOf"@) {
                let i = key_pos(m, "allOf"@);
                SchemaV {
                    label,
                    kind: KindV::AllOf,
                    description: d,
                    required,
                    children: branches(m[i].1->Sequence_0, "allOf"@),
                }
            } else if seq_at(m, "anyOf"@) {
                let i = key_pos(m, "anyOf"@);
                SchemaV {
                    label,
                    kind: KindV::AnyOf,
                    description: d,
                    required,
                    children: branches(m[i].1->Sequence_0, "anyOf"@),
                }
            } else if seq_at(m, "oneOf"@) {
                let i = key_pos(m, "oneOf"@);
                SchemaV {
                    label,
                    kind: KindV::OneOf,
                    description: d,
                    required,
                    children: branches(m[i].1->Sequence_0, "oneOf"@),
                }
            } else if key_pos(m, "properties"@) >= 0 && m[key_pos(m, "properties"@)].1 is Mapping {
                let i = key_pos(m, "properties"@);
                SchemaV {
                    label,
                    kind: KindV::Object,
                    description: d,
                    required,
                    children: props(m[i].1->Mapping_0, required_names(m)),
                }
            } else if key_pos(m, "items"@) >= 0 {
                let i = key_pos(m, "items"@);
                SchemaV {
                    label,
                    kind: KindV::Array,
                    description: d,
                    required,
                    children: seq![to_schema("items"@, m[i].1, Seq::empty())],
                }
            } else {
                match lookup(m, "type"@) {
                    Some(YamlV::Str(t)) => SchemaV {
                        label,
                        kind: KindV::Primitive(t),
                        description: d,
                        required,
                        children: Seq::empty(),
                    },
                    _ => SchemaV {
                        label,
                        kind: KindV::Unknown,
                        description: d,
                        required,
                        children: Seq::empty(),
                    },
                }
            }
        },
        _ => SchemaV {
            label,
            kind: KindV::Unknown,
            description: None,
            required,
            children: Seq::empty(),
        },
    }
}

/// The branches of a composition keyword, labelled `kw[0]`, `kw[1]`, ...
pub open spec fn branches(s: Seq<YamlV>, kw: Seq<char>) -> Seq<SchemaV>
    decreases s,
{
    if s.len() == 0 {
        Seq::empty()
    } else {
        branches(s.drop_last(), kw).push(
            to_schema(branch_label(kw, (s.len() - 1) as nat), s.last(), Seq::empty()),
        )
    }
}

/// The properties of an object, labelled by their names.
pub open spec fn props(ps: Seq<(YamlV, YamlV)>, req: Seq<Seq<char>>) -> Seq<SchemaV>
    decreases ps,
{
    if ps.len() == 0 {
        Seq::empty()
    } else {
        props(ps.drop_last(), req).push(to_schema(prop_label(ps.last().0), ps.last().1, req))
    }
}

// ─── Schema trees: code ──────────────────────────────────────────────────────

fn describe_exec(m: &Vec<(Yaml, Yaml)>) -> (r: Option<String>)
    ensures
        match r {
            Some(d) => describe(yv_map(m@)) == Some(d@),
            None => describe(yv_map(m@)) is None,
        },
{
    match map_lookup(m, "description") {
        Some(Yaml::Str(s)) => {
            let ls = lines_of(&chars_of(s.as_str()));
            let first: Vec<char> = if ls.len() > 0 {
                slice_chars(&ls[0], 0, ls[0].len())
            } else {
                Vec::new()
            };
            assert(first@ =~= first_line(s@));
            let t = trim_chars(&first);
            if t.len() > 0 {
                Some(string_of(&t))
            } else {
                None
            }
        },
        _ => None,
    }
}

fn required_names_exec(m: &Vec<(Yaml, Yaml)>) -> (r: Vec<String>)
    ensures
        views(r@) == required_names(yv_map(m@)),
{
    let mut out: Vec<String> = Vec::new();
    match map_lookup(m, "required") {
        Some(Yaml::Sequence(items)) => {
            proof {
                lemma_yv_seq(items@);
            }
            let ghost iv = yv_seq(items@);
            let n = items.len();
            for i in 0..n
                invariant
                    n == items@.len(),
                    iv == yv_seq(items@),
                    iv.len() == n,
                    forall|k: int| 0 <= k < n ==> #[trigger] iv[k] == yv(items@[k]),
                    views(out@) == string_items(iv.take(i as int)),
            {
                proof {
                    assert(iv.take(i + 1).drop_last() =~= iv.take(i as int));
                }
                match &items[i] {
                    Yaml::Str(x) => {
                        let ghost before = out@;
                        out.push(x.clone());
                        proof {
                            assert(views(out@) =~= views(before).push(x@));
                        }
                    },
                    _ => {},
                }
            }
            assert(iv.take(n as int) =~= iv);
        },
        _ => {},
    }
    assert(views(out@) =~= required_names(yv_map(m@)));
    out
}

/// `kw[i]`.
pub fn branch_label_exec(kw: &str, i: usize) -> (r: String)
    ensures
        r@ == branch_label(kw@, i as nat),
{
    let mut r = kw.to_owned();
    push_char(&mut r, '[');
    push_dec(&mut r, i);
    push_char(&mut r, ']');
    assert(r@ =~= branch_label(kw@, i as nat));
    r
}

/// The position of key `k` when it holds a sequence.
fn seq_index(m: &Vec<(Yaml, Yaml)>, k: &str) -> (r: Option<usize>)
    ensures
        match r {
            Some(i) => seq_at(yv_map(m@), k@) && key_pos(yv_map(m@), k@) == i,
            None => !seq_at(yv_map(m@), k@),
        },
{
    proof {
        lemma_yv_map(m@);
        lemma_key_pos(yv_map(m@), k@);
    }
    match key_index(m, k) {
        Some(i) => match &m[i].1 {
            Yaml::Sequence(_) => Some(i),
            _ => None,
        },
        None => None,
    }
}

/// The schema tree of a cleaned schema value, labelled `label`;
/// `required_set` holds the required property names of the parent object.
pub fn value_to_schema_node(label: String, val: &Yaml, required_set: &Vec<String>) -> (r: SchemaNode)
    ensures
        sv(r) == to_schema(label@, yv(*val), views(required_set@)),
    decreases *val,
{
    let required = contains_str(required_set, label.as_str());
    let ghost lv = label@;
    match val {
        Yaml::Mapping(m) => {
            let ghost mv = yv_map(m@);
            proof {
                lemma_yv_map(m@);
                lemma_key_pos(mv, "allOf"@);
                lemma_key_pos(mv, "anyOf"@);
                lemma_key_pos(mv, "oneOf"@);
                lemma_key_pos(mv, "properties"@);
                lemma_key_pos(mv, "items"@);
            }
            let description = describe_exec(m);
            let mut which: usize = 0;
            let mut pos: Option<usize> = seq_index(m, "allOf");
            if pos.is_none() {
                which = 1;
                pos = seq_index(m, "anyOf");
            }
            if pos.is_none() {
                which = 2;
                pos = seq_index(m, "oneOf");
            }
            match pos {
                Some(i) => {
                    let kw: &str = if which == 0 {
                        "allOf"
                    } else if which == 1 {
                        "anyOf"
                    } else {
                        "oneOf"
                    };
                    let ghost kwv = kw@;
                    let items = match &m[i].1 {
                        Yaml::Sequence(items) => items,
                        _ => {
                            assert(false);
                            return SchemaNode {
                                label,
                                kind: SchemaKindHint::Object,
                                description: None,
                                required: false,
                                children: Vec::new(),
                            };
                        },
                    };
                    proof {
                        lemma_yv_seq(items@);
                    }
                    let ghost iv = yv_seq(items@);
                    let mut children: Vec<SchemaNode> = Vec::new();
                    let n = items.len();
                    for j in 0..n
                        invariant
                            n == items@.len(),
                            iv == yv_seq(items@),
                            iv.len() == n,
                            forall|k: int| 0 <= k < n ==> #[trigger] iv[k] == yv(items@[k]),
                            i < m@.len(),
                            *val == Yaml::Mapping(*m),
                            m@[i as int].1 == Yaml::Sequence(*items),
                            kw@ == kwv,
                            sv_seq(children@) == branches(iv.take(j as int), kwv),
                    {
                        assert((*val)->Mapping_0 == *m);
                        assert(decreases_to!(*val => (*val)->Mapping_0));
                        assert(decreases_to!(*m => m@));
                        assert(decreases_to!(m@ => m@[i as int]));
                        assert(decreases_to!(m@[i as int] => m@[i as int].1));
                        assert(m@[i as int].1->Sequence_0 == *items);
                        assert(decreases_to!(m@[i as int].1 => m@[i as int].1->Sequence_0));
                        assert(decreases_to!(*items => items@));
                        assert(decreases_to!(items@ => items@[j as int]));
                        let no_req: Vec<String> = Vec::new();
                        let child = value_to_schema_node(branch_label_exec(kw, j), &items[j], &no_req);
                        let ghost before = children@;
                        children.push(child);
                        proof {
                            assert(views(no_req@) =~= Seq::<Seq<char>>::empty());
                            assert(iv.take(j + 1).drop_last() =~= iv.take(j as int));
                            assert(children@.drop_last() =~= before);
                            lemma_sv_seq(children@);
                            lemma_sv_seq(before);
                            assert(sv_seq(children@) =~= sv_seq(before).push(sv(child)));
                        }
                    }
                    assert(iv.take(n as int) =~= iv);
                    let kind = if which == 0 {
                        SchemaKindHint::AllOf
                    } else if which == 1 {
                        SchemaKindHint::AnyOf
                    } else {
                        SchemaKindHint::OneOf
                    };
                    return SchemaNode { label, kind, description, required, children };
                },
                None => {},
            }
            // Object with properties.
            match key_index(m, "properties") {
                Some(i) => match &m[i].1 {
                    Yaml::Mapping(ps) => {
                        let child_required = required_names_exec(m);
                        proof {
                            lemma_yv_map(ps@);
                        }
                        let ghost pv = yv_map(ps@);
                        let mut children: Vec<SchemaNode> = Vec::new();
                        let n = ps.len();
                        for j in 0..n
                            invariant
                                n == ps@.len(),
                                pv == yv_map(ps@),
                                pv.len() == n,
                                forall|k: int| 0 <= k < n ==> #[trigger] pv[k] == (yv(ps@[k].0), yv(ps@[k].1)),
                                i < m@.len(),
                                *val == Yaml::Mapping(*m),
                                m@[i as int].1 == Yaml::Mapping(*ps),
                                sv_seq(children@) == props(pv.take(j as int), views(child_required@)),
                        {
                            assert((*val)->Mapping_0 == *m);
                            assert(decreases_to!(*val => (*val)->Mapping_0));
                            assert(decreases_to!(*m => m@));
                            assert(decreases_to!(m@ => m@[i as int]));
                            assert(decreases_to!(m@[i as int] => m@[i as int].1));
                            assert(m@[i as int].1->Mapping_0 == *ps);
                            assert(decreases_to!(m@[i as int].1 => m@[i as int].1->Mapping_0));
                            assert(decreases_to!(*ps => ps@));
                            assert(decreases_to!(ps@ => ps@[j as int]));
                            assert(decreases_to!(ps@[j as int] => ps@[j as int].1));
                            let name = match &ps[j].0 {
                                Yaml::Str(s) => s.clone(),
                                _ => "?".to_owned(),
                            };
                            assert(name@ == prop_label(pv[j as int].0));
                            let child = value_to_schema_node(name, &ps[j].1, &child_required);
                            let ghost before = children@;
                            children.push(child);
                            proof {
                                assert(pv.take(j + 1).drop_last() =~= pv.take(j as int));
                                assert(children@.drop_last() =~= before);
                                lemma_sv_seq(children@);
                                lemma_sv_seq(before);
                                assert(sv_seq(children@) =~= sv_seq(before).push(sv(child)));
                            }
                        }
                        assert(pv.take(n as int) =~= pv);
                        return SchemaNode {
                            label,
                            kind: SchemaKindHint::Object,
                            description,
                            required,
                            children,
                        };
                    },
                    _ => {},
                },
                None => {},
            }
            // Array with items.
            match key_index(m, "items") {
                Some(i) => {
                    assert((*val)->Mapping_0 == *m);
                    assert(decreases_to!(*val => (*val)->Mapping_0));
                    assert(decreases_to!(*m => m@));
                    assert(decreases_to!(m@ => m@[i as int]));
                    assert(decreases_to!(m@[i as int] => m@[i as int].1));
                    let no_req: Vec<String> = Vec::new();
                    proof {
                        assert(views(no_req@) =~= Seq::<Seq<char>>::empty());
                    }
                    let item = value_to_schema_node("items".to_owned(), &m[i].1, &no_req);
                    let mut children: Vec<SchemaNode> = Vec::new();
                    children.push(item);
                    proof {
                        lemma_sv_seq(children@);
                        assert(sv_seq(children@) =~= seq![sv(item)]);
                    }
                    return SchemaNode {
                        label,
                        kind: SchemaKindHint::Array,
                        description,
                        required,
                        children,
                    };
                },
                None => {},
            }
            // Primitive with a `type`.
            let kind = match map_lookup(m, "type") {
                Some(Yaml::Str(t)) => SchemaKindHint::Primitive(t.clone()),
                _ => SchemaKindHint::Unknown,
            };
            proof {
                assert(sv_seq(Seq::<SchemaNode>::empty()) =~= Seq::<SchemaV>::empty());
            }
            SchemaNode { label, kind, description, required, children: Vec::new() }
        },
        _ => {
            proof {
                assert(sv_seq(Seq::<SchemaNode>::empty()) =~= Seq::<SchemaV>::empty());
            }
            SchemaNode {
                label,
                kind: SchemaKindHint::Unknown,
                description: None,
                required,
                children: Vec::new(),
            }
        },
    }
}

// ─── Laws ────────────────────────────────────────────────────────────────────

/// One branch node per element, in order, the `k`-th labelled `kw[k]`.
pub proof fn lemma_branches(s: Seq<YamlV>, kw: Seq<char>)
    ensures
        branches(s, kw).len() == s.len(),
        forall|k: int|
            0 <= k < s.len() ==> #[trigger] branches(s, kw)[k] == to_schema(
                kw + seq!['['] + dec(k as nat) + seq![']'],
                s[k],
                Seq::empty(),
            ),
    decreases s.len(),
{
    if s.len() > 0 {
        lemma_branches(s.drop_last(), kw);
        assert forall|k: int| 0 <= k < s.len() implies #[trigger] branches(s, kw)[k] == to_schema(
            kw + seq!['['] + dec(k as nat) + seq![']'],
            s[k],
            Seq::empty(),
        ) by {
            if k < s.len() - 1 {
                assert(s.drop_last()[k] == s[k]);
            }
        }
    }
}

/// A mapping whose first `oneOf` key holds a sequence of branches, with no
/// `allOf` or `anyOf` key holding a sequence, becomes a `oneOf` node under
/// its own label with one child per branch, in order: the `k`-th labelled
/// `oneOf[k]` and built from the `k`-th branch.
pub proof fn lemma_one_of_node(label: Seq<char>, m: Seq<(YamlV, YamlV)>, req: Seq<Seq<char>>, i: int)
    requires
        0 <= i < m.len(),
        m[i].0 == YamlV::Str("oneOf"@),
        m[i].1 is Sequence,
        forall|j: int| 0 <= j < i ==> (#[trigger] m[j]).0 != YamlV::Str("oneOf"@),
        forall|j: int|
            0 <= j < m.len() && ((#[trigger] m[j]).0 == YamlV::Str("allOf"@) || m[j].0 == YamlV::Str(
                "anyOf"@,
            )) ==> !(m[j].1 is Sequence),
    ensures
        to_schema(label, YamlV::Mapping(m), req).kind == KindV::OneOf,
        to_schema(label, YamlV::Mapping(m), req).label == label,
        to_schema(label, YamlV::Mapping(m), req).children.len() == m[i].1->Sequence_0.len(),
        forall|k: int|
            0 <= k < m[i].1->Sequence_0.len() ==> (#[trigger] to_schema(label, YamlV::Mapping(m), req).children[k])
                == to_schema(
                "oneOf"@ + seq!['['] + dec(k as nat) + seq![']'],
                m[i].1->Sequence_0[k],
                Seq::empty(),
            ),
{
    lemma_key_pos(m, "allOf"@);
    lemma_key_pos(m, "anyOf"@);
    lemma_key_pos(m, "oneOf"@);
    assert(!seq_at(m, "allOf"@));
    assert(!seq_at(m, "anyOf"@));
    let p = key_pos(m, "oneOf"@);
    if p < 0 {
        assert(m[i].0 != YamlV::Str("oneOf"@));
    }
    if p > i {
        assert(m[i].0 != YamlV::Str("oneOf"@));
    }
    assert(p == i);
    assert(seq_at(m, "oneOf"@));
    lemma_branches(m[i].1->Sequence_0, "oneOf"@);
}

/// A mapping whose first `allOf` key holds a sequence of branches becomes an
/// `allOf` node with one child per branch, the `k`-th labelled `allOf[k]`.
pub proof fn lemma_all_of_node(label: Seq<char>, m: Seq<(YamlV, YamlV)>, req: Seq<Seq<char>>, i: int)
    requires
        0 <= i < m.len(),
        m[i].0 == YamlV::Str("allOf"@),
        m[i].1 is Sequence,
        forall|j: int| 0 <= j < i ==> (#[trigger] m[j]).0 != YamlV::Str("allOf"@),
    ensures
        to_schema(label, YamlV::Mapping(m), req).kind == KindV::AllOf,
        to_schema(label, YamlV::Mapping(m), req).children.len() == m[i].1->Sequence_0.len(),
        forall|k: int|
            0 <= k < m[i].1->Sequence_0.len() ==> (#[trigger] to_schema(label, YamlV::Mapping(m), req).children[k])
                == to_schema(
                "allOf"@ + seq!['['] + dec(k as nat) + seq![']'],
                m[i].1->Sequence_0[k],
                Seq::empty(),
            ),
{
    lemma_key_pos(m, "allOf"@);
    let p = key_pos(m, "allOf"@);
    if p < 0 || p > i {
        assert(m[i].0 != YamlV::Str("allOf"@));
    }
    assert(p == i);
    lemma_branches(m[i].1->Sequence_0, "allOf"@);
}

/// A mapping whose first `anyOf` key holds a sequence of branches, with no
/// `allOf` key holding a sequence, becomes an `anyOf` node with one child
/// per branch, the `k`-th labelled `anyOf[k]`.
pub proof fn lemma_any_of_node(label: Seq<char>, m: Seq<(YamlV, YamlV)>, req: Seq<Seq<char>>, i: int)
    requires
        0 <= i < m.len(),
        m[i].0 == YamlV::Str("anyOf"@),
        m[i].1 is Sequence,
        forall|j: int| 0 <= j < i ==> (#[trigger] m[j]).0 != YamlV::Str("anyOf"@),
        forall|j: int|
            0 <= j < m.len() && (#[trigger] m[j]).0 == YamlV::Str("allOf"@) ==> !(m[j].1 is Sequence),
    ensures
        to_schema(label, YamlV::Mapping(m), req).kind == KindV::AnyOf,
        to_schema(label, YamlV::Mapping(m), req).children.len() == m[i].1->Sequence_0.len(),
        forall|k: int|
            0 <= k < m[i].1->Sequence_0.len() ==> (#[trigger] to_schema(label, YamlV::Mapping(m), req).children[k])
                == to_schema(
                "anyOf"@ + seq!['['] + dec(k as nat) + seq![']'],
                m[i].1->Sequence_0[k],
                Seq::empty(),
            ),
{
    lemma_key_pos(m, "allOf"@);
    lemma_key_pos(m, "anyOf"@);
    assert(!seq_at(m, "allOf"@));
    let p = key_pos(m, "anyOf"@);
    if p < 0 || p > i {
        assert(m[i].0 != YamlV::Str("anyOf"@));
    }
    assert(p == i);
    lemma_branches(m[i].1->Sequence_0, "anyOf"@);
}

} // verus!
