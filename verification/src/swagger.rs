//! Swagger 2.0 documents.
//!
//! Swagger 2.0 differs from OpenAPI 3.x in several ways: the version key is
//! `swagger`, shared schemas live under `definitions`, shared parameters at
//! the top level, the request body is an `in: body` parameter (or a set of
//! `in: formData` ones), responses carry their `schema` directly, and `$ref`s
//! point at `#/definitions/Foo`.  The whole conversion works on the document
//! tree.
use vstd::prelude::*;

use crate::model::{
    body_v, entry_v, fields_v, lemma_sv_seq, operation_v, opt_body_v, opt_sv, opt_view, param_v,
    response_v, spec_v, strs_v, sv, BodyField, Operation, OperationV, Param, ParamV, PathEntry,
    PathEntryV, PathKind, RequestBody, RequestBodyV, Response, ResponseV, SchemaNode, SchemaV, Spec,
    SpecV,
};
use crate::schema::{
    noise_list, noise_keys, resolve, resolve_refs_in_value, strip, strip_noise_keys, to_schema,
    value_to_schema_node, views,
};
use crate::text::{chars_of, slice_chars, starts_with, starts_with_exec, str_eq, string_of};
use crate::yaml::{
    as_bool, as_map, as_seq, as_str, get, get_key, get_opt, get_opt_key, lemma_yv_map, lemma_yv_seq,
    opt_yv, str_at, str_at_key, untag, yaml_as_bool, yaml_as_map, yaml_as_seq, yaml_as_str,
    yaml_clone, yv, yv_map, yv_seq, Yaml, YamlV,
};

verus! {

// ─── Model ───────────────────────────────────────────────────────────────────

/// The string under `key` of `v`.
pub open spec fn str_of(v: YamlV, key: Seq<char>) -> Option<Seq<char>> {
    match get(v, key) {
        Some(x) => as_str(x),
        None => None,
    }
}

/// The boolean under `key` of `v` (false when absent).
pub open spec fn bool_of(v: YamlV, key: Seq<char>) -> bool {
    match get(v, key) {
        Some(x) => match as_bool(x) {
            Some(b) => b,
            None => false,
        },
        None => false,
    }
}

pub open spec fn or_empty(o: Option<Seq<char>>) -> Seq<char> {
    match o {
        Some(s) => s,
        None => Seq::empty(),
    }
}

/// The items of the sequence under `key` (none when absent).
pub open spec fn items_of(v: YamlV, key: Seq<char>) -> Seq<YamlV> {
    match get(v, key) {
        Some(x) => match as_seq(x) {
            Some(s) => s,
            None => Seq::empty(),
        },
        None => Seq::empty(),
    }
}

/// The string values of a sequence, in order.
pub open spec fn seq_strs(s: Seq<YamlV>) -> Seq<Seq<char>>
    decreases s.len(),
{
    if s.len() == 0 {
        Seq::empty()
    } else {
        match as_str(s.last()) {
            Some(x) => seq_strs(s.drop_last()).push(x),
            None => seq_strs(s.drop_last()),
        }
    }
}

/// The string keys of a mapping, in order.
pub open spec fn key_strs(m: Seq<(YamlV, YamlV)>) -> Seq<Seq<char>>
    decreases m.len(),
{
    if m.len() == 0 {
        Seq::empty()
    } else {
        match as_str(m.last().0) {
            Some(x) => key_strs(m.drop_last()).push(x),
            None => key_strs(m.drop_last()),
        }
    }
}

/// A parameter, with a `$ref` to `#/parameters/<name>` looked up among the
/// shared parameters.
pub open spec fn resolve_param(v: YamlV, global: Option<YamlV>) -> Option<YamlV> {
    match str_of(v, "$ref"@) {
        Some(r) => if starts_with(r, "#/parameters/"@) {
            get_opt(global, r.skip("#/parameters/"@.len() as int))
        } else {
            None
        },
        None => Some(v),
    }
}

/// Name and location of a parameter.
pub open spec fn pkey(v: YamlV) -> (Seq<char>, Seq<char>) {
    (or_empty(str_of(v, "name"@)), or_empty(str_of(v, "in"@)))
}

pub open spec fn resolve_all(ps: Seq<YamlV>, global: Option<YamlV>) -> Seq<YamlV>
    decreases ps.len(),
{
    if ps.len() == 0 {
        Seq::empty()
    } else {
        match resolve_param(ps.last(), global) {
            Some(r) => resolve_all(ps.drop_last(), global).push(r),
            None => resolve_all(ps.drop_last(), global),
        }
    }
}

/// `s` without the parameters with name and location `k`.
pub open spec fn drop_same(s: Seq<YamlV>, k: (Seq<char>, Seq<char>)) -> Seq<YamlV>
    decreases s.len(),
{
    if s.len() == 0 {
        Seq::empty()
    } else if pkey(s.last()) == k {
        drop_same(s.drop_last(), k)
    } else {
        drop_same(s.drop_last(), k).push(s.last())
    }
}

/// Path-level parameters merged with operation-level ones: an operation
/// parameter replaces a path parameter with the same name and location.
pub open spec fn merged(pp: Seq<YamlV>, op: Seq<YamlV>, global: Option<YamlV>) -> Seq<YamlV>
    decreases op.len(),
{
    if op.len() == 0 {
        resolve_all(pp, global)
    } else {
        let prev = merged(pp, op.drop_last(), global);
        match resolve_param(op.last(), global) {
            Some(r) => drop_same(prev, pkey(r)).push(r),
            None => prev,
        }
    }
}

/// A `query`/`path`/`header` parameter; `None` without a name or location.
pub open spec fn sw_param(p: YamlV) -> Option<ParamV> {
    match (str_of(p, "name"@), str_of(p, "in"@)) {
        (Some(n), Some(l)) => Some(
            ParamV {
                name: n,
                location: l,
                required: bool_of(p, "required"@),
                description: str_of(p, "description"@),
                schema_type: match str_of(p, "type"@) {
                    Some(t) => Some(t),
                    None => match get(p, "schema"@) {
                        Some(s) => str_of(s, "type"@),
                        None => None,
                    },
                },
                deprecated: bool_of(p, "deprecated"@),
            },
        ),
        _ => None,
    }
}

pub open spec fn loc_of(p: YamlV) -> Seq<char> {
    or_empty(str_of(p, "in"@))
}

/// The parameters that are neither `body` nor `formData`, converted.
pub open spec fn non_body(ps: Seq<YamlV>) -> Seq<ParamV>
    decreases ps.len(),
{
    if ps.len() == 0 {
        Seq::empty()
    } else {
        let prev = non_body(ps.drop_last());
        let p = ps.last();
        if loc_of(p) == "body"@ || loc_of(p) == "formData"@ {
            prev
        } else {
            match sw_param(p) {
                Some(x) => prev.push(x),
                None => prev,
            }
        }
    }
}

/// The parameters located `in: l`.
pub open spec fn with_loc(ps: Seq<YamlV>, l: Seq<char>) -> Seq<YamlV>
    decreases ps.len(),
{
    if ps.len() == 0 {
        Seq::empty()
    } else if loc_of(ps.last()) == l {
        with_loc(ps.drop_last(), l).push(ps.last())
    } else {
        with_loc(ps.drop_last(), l)
    }
}

/// The schema tree of a schema value: `$ref`s to definitions expanded and
/// noise keys removed, labelled `body`.
pub open spec fn tree_of(s: YamlV, defs: Option<YamlV>) -> SchemaV {
    to_schema("body"@, strip(resolve(s, defs, "#/definitions/"@, Seq::empty()), noise_keys(true)), Seq::empty())
}

/// The top-level property names of a schema (following one `$ref`).
pub open spec fn fields_of(schema: YamlV, defs: Option<YamlV>) -> Seq<Seq<char>> {
    let eff = match str_of(schema, "$ref"@) {
        Some(r) => if starts_with(r, "#/definitions/"@) {
            get_opt(defs, r.skip("#/definitions/"@.len() as int))
        } else {
            None
        },
        None => Some(schema),
    };
    match eff {
        Some(e) => match get(e, "properties"@) {
            Some(p) => match as_map(p) {
                Some(m) => key_strs(m),
                None => Seq::empty(),
            },
            None => Seq::empty(),
        },
        None => Seq::empty(),
    }
}

/// The request body described by an `in: body` parameter.
pub open spec fn body_of(p: YamlV, defs: Option<YamlV>) -> RequestBodyV {
    RequestBodyV {
        description: str_of(p, "description"@),
        required: bool_of(p, "required"@),
        fields: match get(p, "schema"@) {
            Some(s) => fields_of(s, defs),
            None => Seq::empty(),
        },
        schema_tree: match get(p, "schema"@) {
            Some(s) => Some(tree_of(s, defs)),
            None => None,
        },
    }
}

pub open spec fn form_names(ps: Seq<YamlV>) -> Seq<Seq<char>>
    decreases ps.len(),
{
    if ps.len() == 0 {
        Seq::empty()
    } else {
        match str_of(ps.last(), "name"@) {
            Some(n) => form_names(ps.drop_last()).push(n),
            None => form_names(ps.drop_last()),
        }
    }
}

pub open spec fn any_required(ps: Seq<YamlV>) -> bool {
    exists|i: int| 0 <= i < ps.len() && bool_of(#[trigger] ps[i], "required"@)
}

/// The request body made of `in: formData` parameters: one field each.
pub open spec fn form_of(ps: Seq<YamlV>) -> RequestBodyV {
    RequestBodyV { description: None, required: any_required(ps), fields: form_names(ps), schema_tree: None }
}

/// The request body: the first `body` parameter, else the `formData` ones.
pub open spec fn sw_body(ps: Seq<YamlV>, defs: Option<YamlV>) -> Option<RequestBodyV> {
    let b = with_loc(ps, "body"@);
    let f = with_loc(ps, "formData"@);
    if b.len() > 0 {
        Some(body_of(b[0], defs))
    } else if f.len() > 0 {
        Some(form_of(f))
    } else {
        None
    }
}

/// A status code key as text.
pub open spec fn code_of(k: YamlV) -> Seq<char> {
    match k {
        YamlV::Str(s) => s,
        YamlV::Number(n) => n,
        _ => "?"@,
    }
}

pub open spec fn sw_response(k: YamlV, v: YamlV, defs: Option<YamlV>) -> ResponseV {
    ResponseV {
        code: code_of(k),
        description: str_of(v, "description"@),
        schema_tree: match get(v, "schema"@) {
            Some(s) => Some(tree_of(s, defs)),
            None => None,
        },
    }
}

pub open spec fn sw_responses(m: Seq<(YamlV, YamlV)>, defs: Option<YamlV>) -> Seq<ResponseV>
    decreases m.len(),
{
    if m.len() == 0 {
        Seq::empty()
    } else {
        sw_responses(m.drop_last(), defs).push(sw_response(m.last().0, m.last().1, defs))
    }
}

/// One operation, given its merged parameters.
pub open spec fn sw_operation(
    method: Seq<char>,
    op: YamlV,
    ps: Seq<YamlV>,
    defs: Option<YamlV>,
) -> OperationV {
    OperationV {
        method,
        summary: str_of(op, "summary"@),
        description: str_of(op, "description"@),
        operation_id: str_of(op, "operationId"@),
        tags: seq_strs(items_of(op, "tags"@)),
        deprecated: bool_of(op, "deprecated"@),
        params: non_body(ps),
        request_body: sw_body(ps, defs),
        responses: match get(op, "responses"@) {
            Some(r) => match as_map(r) {
                Some(m) => sw_responses(m, defs),
                None => Seq::empty(),
            },
            None => Seq::empty(),
        },
    }
}

/// The HTTP methods a path item may hold, in display order.
pub open spec fn methods() -> Seq<Seq<char>> {
    seq!["get"@, "put"@, "post"@, "delete"@, "options"@, "head"@, "patch"@]
}

/// `methods()` in upper case.
pub open spec fn methods_upper() -> Seq<Seq<char>> {
    seq!["GET"@, "PUT"@, "POST"@, "DELETE"@, "OPTIONS"@, "HEAD"@, "PATCH"@]
}

/// The operations of a path item among the first `k` methods.
pub open spec fn sw_ops(
    item: YamlV,
    pp: Seq<YamlV>,
    defs: Option<YamlV>,
    global: Option<YamlV>,
    k: nat,
) -> Seq<OperationV>
    decreases k,
{
    if k == 0 {
        Seq::empty()
    } else {
        let prev = sw_ops(item, pp, defs, global, (k - 1) as nat);
        match get(item, methods()[k - 1]) {
            Some(op) => prev.push(
                sw_operation(methods_upper()[k - 1], op, merged(pp, items_of(op, "parameters"@), global), defs),
            ),
            None => prev,
        }
    }
}

pub open spec fn sw_entry(key: YamlV, item: YamlV, defs: Option<YamlV>, global: Option<YamlV>) -> PathEntryV {
    PathEntryV {
        path: match key {
            YamlV::Str(s) => s,
            _ => "?"@,
        },
        kind: PathKind::Path,
        operations: sw_ops(item, items_of(item, "parameters"@), defs, global, 7),
    }
}

pub open spec fn sw_entries(m: Seq<(YamlV, YamlV)>, defs: Option<YamlV>, global: Option<YamlV>) -> Seq<PathEntryV>
    decreases m.len(),
{
    if m.len() == 0 {
        Seq::empty()
    } else {
        sw_entries(m.drop_last(), defs, global).push(sw_entry(m.last().0, m.last().1, defs, global))
    }
}

/// The description of a Swagger 2.0 document.
pub open spec fn sw_spec(file_path: Seq<char>, root: YamlV) -> SpecV {
    SpecV {
        file_path,
        openapi_version: or_empty(str_of(root, "swagger"@)),
        title: or_empty(str_at(get(root, "info"@), "title"@)),
        version: or_empty(str_at(get(root, "info"@), "version"@)),
        description: or_empty(str_at(get(root, "info"@), "description"@)),
        paths: match get(root, "paths"@) {
            Some(p) => match as_map(p) {
                Some(m) => sw_entries(m, get(root, "definitions"@), get(root, "parameters"@)),
                None => Seq::empty(),
            },
            None => Seq::empty(),
        },
    }
}

// ─── Document lookups ────────────────────────────────────────────────────────

pub fn str_of_exec(v: &Yaml, key: &str) -> (r: Option<String>)
    ensures
        match r {
            Some(x) => str_of(yv(*v), key@) == Some(x@),
            None => str_of(yv(*v), key@) is None,
        },
{
    str_at_key(Some(v), key)
}

pub fn bool_of_exec(v: &Yaml, key: &str) -> (r: bool)
    ensures
        r == bool_of(yv(*v), key@),
{
    match get_key(v, key) {
        Some(x) => match yaml_as_bool(x) {
            Some(b) => b,
            None => false,
        },
        None => false,
    }
}

/// Copies of the items of the sequence under `key`.
pub fn items_exec(v: &Yaml, key: &str) -> (r: Vec<Yaml>)
    ensures
        yv_seq(r@) == items_of(yv(*v), key@),
{
    match get_key(v, key) {
        Some(x) => match yaml_as_seq(x) {
            Some(s) => clone_items(s),
            None => Vec::new(),
        },
        None => Vec::new(),
    }
}

pub fn clone_items(s: &Vec<Yaml>) -> (r: Vec<Yaml>)
    ensures
        yv_seq(r@) == yv_seq(s@),
{
    let mut r: Vec<Yaml> = Vec::new();
    let n = s.len();
    for i in 0..n
        invariant
            n == s@.len(),
            r@.len() == i,
            forall|k: int| 0 <= k < i ==> yv(#[trigger] r@[k]) == yv(s@[k]),
    {
        r.push(yaml_clone(&s[i]));
    }
    proof {
        lemma_yv_seq(r@);
        lemma_yv_seq(s@);
        assert(yv_seq(r@) =~= yv_seq(s@));
    }
    r
}

pub fn strs_of_items(s: &Vec<Yaml>) -> (r: Vec<String>)
    ensures
        strs_v(r@) == seq_strs(yv_seq(s@)),
{
    proof {
        lemma_yv_seq(s@);
    }
    let ghost sv_ = yv_seq(s@);
    let mut r: Vec<String> = Vec::new();
    let n = s.len();
    for i in 0..n
        invariant
            n == s@.len(),
            sv_ == yv_seq(s@),
            sv_.len() == n,
            forall|k: int| 0 <= k < n ==> #[trigger] sv_[k] == yv(s@[k]),
            strs_v(r@) == seq_strs(sv_.take(i as int)),
    {
        proof {
            assert(sv_.take(i + 1).drop_last() =~= sv_.take(i as int));
        }
        match yaml_as_str(&s[i]) {
            Some(x) => {
                let ghost before = r@;
                r.push(x.to_owned());
                proof {
                    assert(strs_v(r@) =~= strs_v(before).push(x@));
                }
            },
            None => {},
        }
    }
    assert(sv_.take(n as int) =~= sv_);
    r
}

// ─── Parameters ──────────────────────────────────────────────────────────────

fn resolve_param_exec(v: &Yaml, global: Option<&Yaml>) -> (r: Option<Yaml>)
    ensures
        match r {
            Some(x) => resolve_param(yv(*v), opt_yv(global)) == Some(yv(x)),
            None => resolve_param(yv(*v), opt_yv(global)) is None,
        },
{
    match str_of_exec(v, "$ref") {
        Some(r) => {
            let rc = chars_of(r.as_str());
            let pc = chars_of("#/parameters/");
            if starts_with_exec(&rc, &pc) {
                let rest = string_of(&slice_chars(&rc, pc.len(), rc.len()));
                assert(rest@ =~= r@.skip("#/parameters/"@.len() as int));
                match get_opt_key(global, rest.as_str()) {
                    Some(t) => Some(yaml_clone(t)),
                    None => None,
                }
            } else {
                None
            }
        },
        None => Some(yaml_clone(v)),
    }
}

fn pkey_exec(v: &Yaml) -> (r: (String, String))
    ensures
        (r.0@, r.1@) == pkey(yv(*v)),
{
    let n = match str_of_exec(v, "name") {
        Some(x) => x,
        None => String::new(),
    };
    let l = match str_of_exec(v, "in") {
        Some(x) => x,
        None => String::new(),
    };
    (n, l)
}

fn drop_same_exec(s: Vec<Yaml>, name: &String, loc: &String) -> (r: Vec<Yaml>)
    ensures
        yv_seq(r@) == drop_same(yv_seq(s@), (name@, loc@)),
{
    proof {
        lemma_yv_seq(s@);
    }
    let ghost sv_ = yv_seq(s@);
    let mut r: Vec<Yaml> = Vec::new();
    let n = s.len();
    for i in 0..n
        invariant
            n == s@.len(),
            sv_ == yv_seq(s@),
            sv_.len() == n,
            forall|k: int| 0 <= k < n ==> #[trigger] sv_[k] == yv(s@[k]),
            yv_seq(r@) == drop_same(sv_.take(i as int), (name@, loc@)),
    {
        proof {
            assert(sv_.take(i + 1).drop_last() =~= sv_.take(i as int));
        }
        let (en, el) = pkey_exec(&s[i]);
        let same = str_eq(en.as_str(), name.as_str()) && str_eq(el.as_str(), loc.as_str());
        if !same {
            let ghost before = r@;
            r.push(yaml_clone(&s[i]));
            proof {
                lemma_yv_seq(r@);
                lemma_yv_seq(before);
                assert(yv_seq(r@) =~= yv_seq(before).push(sv_[i as int]));
            }
        }
    }
    assert(sv_.take(n as int) =~= sv_);
    r
}

/// Path-level parameters merged with operation-level ones: an operation
/// parameter replaces a path parameter with the same name and location;
/// `$ref`s to shared parameters are resolved.
pub fn merge_params(pp: &Vec<Yaml>, op: &Vec<Yaml>, global: Option<&Yaml>) -> (r: Vec<Yaml>)
    ensures
        yv_seq(r@) == merged(yv_seq(pp@), yv_seq(op@), opt_yv(global)),
{
    proof {
        lemma_yv_seq(pp@);
        lemma_yv_seq(op@);
    }
    let ghost pv = yv_seq(pp@);
    let ghost ov = yv_seq(op@);
    let ghost g = opt_yv(global);
    let mut result: Vec<Yaml> = Vec::new();
    let n = pp.len();
    for i in 0..n
        invariant
            n == pp@.len(),
            pv == yv_seq(pp@),
            pv.len() == n,
            g == opt_yv(global),
            forall|k: int| 0 <= k < n ==> #[trigger] pv[k] == yv(pp@[k]),
            yv_seq(result@) == resolve_all(pv.take(i as int), g),
    {
        proof {
            assert(pv.take(i + 1).drop_last() =~= pv.take(i as int));
        }
        match resolve_param_exec(&pp[i], global) {
            Some(x) => {
                let ghost before = result@;
                let ghost xv = yv(x);
                result.push(x);
                proof {
                    lemma_yv_seq(result@);
                    lemma_yv_seq(before);
                    assert(yv_seq(result@) =~= yv_seq(before).push(xv));
                }
            },
            None => {},
        }
    }
    assert(pv.take(n as int) =~= pv);
    assert(ov.take(0) =~= Seq::<YamlV>::empty());
    let m = op.len();
    for j in 0..m
        invariant
            m == op@.len(),
            ov == yv_seq(op@),
            ov.len() == m,
            pv == yv_seq(pp@),
            g == opt_yv(global),
            forall|k: int| 0 <= k < m ==> #[trigger] ov[k] == yv(op@[k]),
            yv_seq(result@) == merged(pv, ov.take(j as int), g),
    {
        proof {
            assert(ov.take(j + 1).drop_last() =~= ov.take(j as int));
        }
        match resolve_param_exec(&op[j], global) {
            Some(x) => {
                let (name, loc) = pkey_exec(&x);
                let kept = drop_same_exec(result, &name, &loc);
                result = kept;
                let ghost before = result@;
                let ghost xv = yv(x);
                result.push(x);
                proof {
                    lemma_yv_seq(result@);
                    lemma_yv_seq(before);
                    assert(yv_seq(result@) =~= yv_seq(before).push(xv));
                }
            },
            None => {},
        }
    }
    assert(ov.take(m as int) =~= ov);
    result
}

/// A non-body parameter; `None` without a name or location.
pub fn convert_non_body_param(p: &Yaml) -> (r: Option<Param>)
    ensures
        match r {
            Some(x) => sw_param(yv(*p)) == Some(param_v(x)),
            None => sw_param(yv(*p)) is None,
        },
{
    let name = match str_of_exec(p, "name") {
        Some(x) => x,
        None => return None,
    };
    let location = match str_of_exec(p, "in") {
        Some(x) => x,
        None => return None,
    };
    let required = bool_of_exec(p, "required");
    let description = str_of_exec(p, "description");
    let deprecated = bool_of_exec(p, "deprecated");
    let schema_type = match str_of_exec(p, "type") {
        Some(t) => Some(t),
        None => match get_key(p, "schema") {
            Some(s) => str_of_exec(s, "type"),
            None => None,
        },
    };
    Some(Param { name, location, required, description, schema_type, deprecated })
}

// ─── Request bodies and responses ────────────────────────────────────────────

/// The schema tree of a schema value: `$ref`s to definitions expanded,
/// noise keys removed, labelled `body`.
pub fn schema_tree_of(s: &Yaml, defs: Option<&Yaml>) -> (r: SchemaNode)
    ensures
        sv(r) == tree_of(yv(*s), opt_yv(defs)),
{
    let visited: Vec<String> = Vec::new();
    assert(views(visited@) =~= Seq::<Seq<char>>::empty());
    let resolved = resolve_refs_in_value(s, defs, "#/definitions/", &visited);
    let noise = noise_list(true);
    let clean = strip_noise_keys(&resolved, &noise);
    assert(noise@.map_values(|x: &str| x@) =~= noise_keys(true));
    let none: Vec<String> = Vec::new();
    assert(views(none@) =~= Seq::<Seq<char>>::empty());
    value_to_schema_node("body".to_owned(), &clean, &none)
}

pub fn key_names(m: &Vec<(Yaml, Yaml)>) -> (r: Vec<BodyField>)
    ensures
        fields_v(r@) == key_strs(yv_map(m@)),
{
    proof {
        lemma_yv_map(m@);
    }
    let ghost mv = yv_map(m@);
    let mut r: Vec<BodyField> = Vec::new();
    let n = m.len();
    for i in 0..n
        invariant
            n == m@.len(),
            mv == yv_map(m@),
            mv.len() == n,
            forall|k: int| 0 <= k < n ==> #[trigger] mv[k] == (yv(m@[k].0), yv(m@[k].1)),
            fields_v(r@) == key_strs(mv.take(i as int)),
    {
        proof {
            assert(mv.take(i + 1).drop_last() =~= mv.take(i as int));
        }
        match yaml_as_str(&m[i].0) {
            Some(x) => {
                let ghost before = r@;
                r.push(BodyField { name: x.to_owned() });
                proof {
                    assert(fields_v(r@) =~= fields_v(before).push(x@));
                }
            },
            None => {},
        }
    }
    assert(mv.take(n as int) =~= mv);
    r
}

/// The top-level property names of a schema value (following one `$ref`
/// into the definitions).
pub fn extract_fields_from_value(schema: &Yaml, defs: Option<&Yaml>) -> (r: Vec<BodyField>)
    ensures
        fields_v(r@) == fields_of(yv(*schema), opt_yv(defs)),
{
    let eff: &Yaml = match str_of_exec(schema, "$ref") {
        Some(r) => {
            let rc = chars_of(r.as_str());
            let pc = chars_of("#/definitions/");
            if starts_with_exec(&rc, &pc) {
                let rest = string_of(&slice_chars(&rc, pc.len(), rc.len()));
                assert(rest@ =~= r@.skip("#/definitions/"@.len() as int));
                match get_opt_key(defs, rest.as_str()) {
                    Some(t) => t,
                    None => {
                        assert(fields_v(Seq::<BodyField>::empty()) =~= Seq::<Seq<char>>::empty());
                        return Vec::new();
                    },
                }
            } else {
                assert(fields_v(Seq::<BodyField>::empty()) =~= Seq::<Seq<char>>::empty());
                return Vec::new();
            }
        },
        None => schema,
    };
    match get_key(eff, "properties") {
        Some(p) => match yaml_as_map(p) {
            Some(m) => key_names(m),
            None => {
                assert(fields_v(Seq::<BodyField>::empty()) =~= Seq::<Seq<char>>::empty());
                Vec::new()
            },
        },
        None => {
            assert(fields_v(Seq::<BodyField>::empty()) =~= Seq::<Seq<char>>::empty());
            Vec::new()
        },
    }
}

/// The request body described by an `in: body` parameter.
pub fn convert_body_param(param: &Yaml, defs: Option<&Yaml>) -> (r: RequestBody)
    ensures
        body_v(r) == body_of(yv(*param), opt_yv(defs)),
{
    let description = str_of_exec(param, "description");
    let required = bool_of_exec(param, "required");
    match get_key(param, "schema") {
        Some(sch) => {
            let fields = extract_fields_from_value(sch, defs);
            let tree = schema_tree_of(sch, defs);
            RequestBody { description, required, fields, schema_tree: Some(tree) }
        },
        None => {
            assert(fields_v(Seq::<BodyField>::empty()) =~= Seq::<Seq<char>>::empty());
            RequestBody { description, required, fields: Vec::new(), schema_tree: None }
        },
    }
}

/// The request body made of `in: formData` parameters, one field each.
pub fn convert_form_params(ps: &Vec<Yaml>) -> (r: RequestBody)
    ensures
        body_v(r) == form_of(yv_seq(ps@)),
{
    proof {
        lemma_yv_seq(ps@);
    }
    let ghost pv = yv_seq(ps@);
    let mut fields: Vec<BodyField> = Vec::new();
    let mut required = false;
    let n = ps.len();
    for i in 0..n
        invariant
            n == ps@.len(),
            pv == yv_seq(ps@),
            pv.len() == n,
            forall|k: int| 0 <= k < n ==> #[trigger] pv[k] == yv(ps@[k]),
            fields_v(fields@) == form_names(pv.take(i as int)),
            required == exists|k: int| 0 <= k < i && bool_of(#[trigger] pv[k], "required"@),
    {
        proof {
            assert(pv.take(i + 1).drop_last() =~= pv.take(i as int));
        }
        match str_of_exec(&ps[i], "name") {
            Some(x) => {
                let ghost before = fields@;
                fields.push(BodyField { name: x });
                proof {
                    assert(fields_v(fields@) =~= fields_v(before).push(x@));
                }
            },
            None => {},
        }
        if bool_of_exec(&ps[i], "required") {
            required = true;
        }
    }
    assert(pv.take(n as int) =~= pv);
    RequestBody { description: None, required, fields, schema_tree: None }
}

/// The parameters located `in: l`, copied.
fn with_loc_exec(ps: &Vec<Yaml>, l: &str) -> (r: Vec<Yaml>)
    ensures
        yv_seq(r@) == with_loc(yv_seq(ps@), l@),
{
    proof {
        lemma_yv_seq(ps@);
    }
    let ghost pv = yv_seq(ps@);
    let mut r: Vec<Yaml> = Vec::new();
    let n = ps.len();
    for i in 0..n
        invariant
            n == ps@.len(),
            pv == yv_seq(ps@),
            pv.len() == n,
            forall|k: int| 0 <= k < n ==> #[trigger] pv[k] == yv(ps@[k]),
            yv_seq(r@) == with_loc(pv.take(i as int), l@),
    {
        proof {
            assert(pv.take(i + 1).drop_last() =~= pv.take(i as int));
        }
        let loc = match str_of_exec(&ps[i], "in") {
            Some(x) => x,
            None => String::new(),
        };
        if str_eq(loc.as_str(), l) {
            let ghost before = r@;
            r.push(yaml_clone(&ps[i]));
            proof {
                lemma_yv_seq(r@);
                lemma_yv_seq(before);
                assert(yv_seq(r@) =~= yv_seq(before).push(pv[i as int]));
            }
        }
    }
    assert(pv.take(n as int) =~= pv);
    r
}

fn non_body_exec(ps: &Vec<Yaml>) -> (r: Vec<Param>)
    ensures
        r@.map_values(|p: Param| param_v(p)) == non_body(yv_seq(ps@)),
{
    proof {
        lemma_yv_seq(ps@);
    }
    let ghost pv = yv_seq(ps@);
    let mut r: Vec<Param> = Vec::new();
    let n = ps.len();
    for i in 0..n
        invariant
            n == ps@.len(),
            pv == yv_seq(ps@),
            pv.len() == n,
            forall|k: int| 0 <= k < n ==> #[trigger] pv[k] == yv(ps@[k]),
            r@.map_values(|p: Param| param_v(p)) == non_body(pv.take(i as int)),
    {
        proof {
            assert(pv.take(i + 1).drop_last() =~= pv.take(i as int));
        }
        let loc = match str_of_exec(&ps[i], "in") {
            Some(x) => x,
            None => String::new(),
        };
        if !(str_eq(loc.as_str(), "body") || str_eq(loc.as_str(), "formData")) {
            match convert_non_body_param(&ps[i]) {
                Some(x) => {
                    let ghost before = r@;
                    let ghost xv = param_v(x);
                    r.push(x);
                    proof {
                        assert(r@.map_values(|p: Param| param_v(p)) =~= before.map_values(|p: Param| param_v(p)).push(xv));
                    }
                },
                None => {},
            }
        }
    }
    assert(pv.take(n as int) =~= pv);
    r
}

pub fn code_exec(k: &Yaml) -> (r: String)
    ensures
        r@ == code_of(yv(*k)),
{
    match k {
        Yaml::Str(s) => s.clone(),
        Yaml::Number(n) => n.clone(),
        _ => "?".to_owned(),
    }
}

fn responses_exec(m: &Vec<(Yaml, Yaml)>, defs: Option<&Yaml>) -> (r: Vec<Response>)
    ensures
        r@.map_values(|x: Response| response_v(x)) == sw_responses(yv_map(m@), opt_yv(defs)),
{
    proof {
        lemma_yv_map(m@);
    }
    let ghost mv = yv_map(m@);
    let mut r: Vec<Response> = Vec::new();
    let n = m.len();
    for i in 0..n
        invariant
            n == m@.len(),
            mv == yv_map(m@),
            mv.len() == n,
            forall|k: int| 0 <= k < n ==> #[trigger] mv[k] == (yv(m@[k].0), yv(m@[k].1)),
            r@.map_values(|x: Response| response_v(x)) == sw_responses(mv.take(i as int), opt_yv(defs)),
    {
        proof {
            assert(mv.take(i + 1).drop_last() =~= mv.take(i as int));
        }
        let code = code_exec(&m[i].0);
        let description = str_of_exec(&m[i].1, "description");
        let schema_tree = match get_key(&m[i].1, "schema") {
            Some(sch) => Some(schema_tree_of(sch, defs)),
            None => None,
        };
        let resp = Response { code, description, schema_tree };
        let ghost before = r@;
        let ghost rv = response_v(resp);
        r.push(resp);
        proof {
            assert(rv == sw_response(mv[i as int].0, mv[i as int].1, opt_yv(defs)));
            assert(r@.map_values(|x: Response| response_v(x)) =~= before.map_values(|x: Response| response_v(x)).push(rv));
        }
    }
    assert(mv.take(n as int) =~= mv);
    r
}

// ─── Operations, paths, documents ────────────────────────────────────────────

/// One operation, given its merged parameters.
pub fn convert_operation(method: String, op: &Yaml, params: &Vec<Yaml>, defs: Option<&Yaml>) -> (r: Operation)
    ensures
        operation_v(r) == sw_operation(method@, yv(*op), yv_seq(params@), opt_yv(defs)),
{
    let summary = str_of_exec(op, "summary");
    let description = str_of_exec(op, "description");
    let operation_id = str_of_exec(op, "operationId");
    let deprecated = bool_of_exec(op, "deprecated");
    let tag_items = items_exec(op, "tags");
    let tags = strs_of_items(&tag_items);
    let non_body = non_body_exec(params);
    let body_params = with_loc_exec(params, "body");
    let request_body = if body_params.len() > 0 {
        proof {
            lemma_yv_seq(body_params@);
        }
        Some(convert_body_param(&body_params[0], defs))
    } else {
        let form_params = with_loc_exec(params, "formData");
        if form_params.len() > 0 {
            Some(convert_form_params(&form_params))
        } else {
            None
        }
    };
    proof {
        lemma_yv_seq(body_params@);
    }
    let responses = match get_key(op, "responses") {
        Some(rs) => match yaml_as_map(rs) {
            Some(m) => responses_exec(m, defs),
            None => Vec::new(),
        },
        None => Vec::new(),
    };
    let r = Operation {
        method,
        summary,
        description,
        operation_id,
        tags,
        deprecated,
        params: non_body,
        request_body,
        responses,
    };
    assert(r.responses@.map_values(|x: Response| response_v(x)) =~= operation_v(r).responses);
    assert(operation_v(r).responses == sw_operation(method@, yv(*op), yv_seq(params@), opt_yv(defs)).responses) by {
        if !(get(yv(*op), "responses"@) is Some && as_map(get(yv(*op), "responses"@)->0) is Some) {
            assert(r.responses@ =~= Seq::<Response>::empty());
        }
    }
    r
}

fn method_names() -> (v: Vec<(&'static str, &'static str)>)
    ensures
        v@.len() == 7,
        forall|i: int| 0 <= i < 7 ==> (#[trigger] v@[i]).0@ == methods()[i] && v@[i].1@ == methods_upper()[i],
{
    let mut v: Vec<(&'static str, &'static str)> = Vec::new();
    v.push(("get", "GET"));
    v.push(("put", "PUT"));
    v.push(("post", "POST"));
    v.push(("delete", "DELETE"));
    v.push(("options", "OPTIONS"));
    v.push(("head", "HEAD"));
    v.push(("patch", "PATCH"));
    v
}

/// One path item with its operations, in method order.
pub fn convert_path_entry(
    path_key: &Yaml,
    path_item: &Yaml,
    defs: Option<&Yaml>,
    global: Option<&Yaml>,
) -> (r: PathEntry)
    ensures
        entry_v(r) == sw_entry(yv(*path_key), yv(*path_item), opt_yv(defs), opt_yv(global)),
{
    let path = match path_key {
        Yaml::Str(s) => s.clone(),
        _ => "?".to_owned(),
    };
    let path_params = items_exec(path_item, "parameters");
    let ghost pp = yv_seq(path_params@);
    let names = method_names();
    let mut operations: Vec<Operation> = Vec::new();
    for k in 0..7
        invariant
            names@.len() == 7,
            forall|i: int| 0 <= i < 7 ==> (#[trigger] names@[i]).0@ == methods()[i] && names@[i].1@ == methods_upper()[i],
            pp == yv_seq(path_params@),
            pp == items_of(yv(*path_item), "parameters"@),
            operations@.map_values(|o: Operation| operation_v(o)) == sw_ops(
                yv(*path_item),
                pp,
                opt_yv(defs),
                opt_yv(global),
                k as nat,
            ),
    {
        let (m, upper) = names[k];
        match get_key(path_item, m) {
            Some(op_val) => {
                let op_params = items_exec(op_val, "parameters");
                let merged_params = merge_params(&path_params, &op_params, global);
                let o = convert_operation(upper.to_owned(), op_val, &merged_params, defs);
                let ghost before = operations@;
                let ghost ov = operation_v(o);
                operations.push(o);
                proof {
                    assert(operations@.map_values(|o: Operation| operation_v(o)) =~= before.map_values(|o: Operation| operation_v(o)).push(ov));
                }
            },
            None => {},
        }
    }
    PathEntry { path, kind: PathKind::Path, operations }
}

/// Converts a Swagger 2.0 document tree into a [`Spec`].
pub fn parse(file_path: String, root: &Yaml) -> (r: Spec)
    ensures
        spec_v(r) == sw_spec(file_path@, yv(*root)),
{
    let openapi_version = match str_of_exec(root, "swagger") {
        Some(x) => x,
        None => String::new(),
    };
    let info = get_key(root, "info");
    let title = match str_at_key(info, "title") {
        Some(x) => x,
        None => String::new(),
    };
    let version = match str_at_key(info, "version") {
        Some(x) => x,
        None => String::new(),
    };
    let description = match str_at_key(info, "description") {
        Some(x) => x,
        None => String::new(),
    };
    let defs = get_key(root, "definitions");
    let global = get_key(root, "parameters");
    let mut paths: Vec<PathEntry> = Vec::new();
    match get_key(root, "paths") {
        Some(p) => match yaml_as_map(p) {
            Some(m) => {
                proof {
                    lemma_yv_map(m@);
                }
                let ghost mv = yv_map(m@);
                let n = m.len();
                for i in 0..n
                    invariant
                        n == m@.len(),
                        mv == yv_map(m@),
                        mv.len() == n,
                        forall|k: int| 0 <= k < n ==> #[trigger] mv[k] == (yv(m@[k].0), yv(m@[k].1)),
                        paths@.map_values(|e: PathEntry| entry_v(e)) == sw_entries(
                            mv.take(i as int),
                            opt_yv(defs),
                            opt_yv(global),
                        ),
                {
                    proof {
                        assert(mv.take(i + 1).drop_last() =~= mv.take(i as int));
                    }
                    let e = convert_path_entry(&m[i].0, &m[i].1, defs, global);
                    let ghost before = paths@;
                    let ghost ev = entry_v(e);
                    paths.push(e);
                    proof {
                        assert(paths@.map_values(|e: PathEntry| entry_v(e)) =~= before.map_values(|e: PathEntry| entry_v(e)).push(ev));
                    }
                }
                assert(mv.take(n as int) =~= mv);
            },
            None => {},
        },
        None => {},
    }
    let r = Spec { file_path, openapi_version, title, version, description, paths };
    assert(spec_v(r).paths == sw_spec(file_path@, yv(*root)).paths) by {
        if !(get(yv(*root), "paths"@) is Some && as_map(get(yv(*root), "paths"@)->0) is Some) {
            assert(r.paths@ =~= Seq::<PathEntry>::empty());
        }
    }
    r
}

// ─── Laws ────────────────────────────────────────────────────────────────────

/// Dropping the parameters keyed `k` (name and location) keeps, in order,
/// exactly the parameters whose name or location differs from `k`.
pub proof fn lemma_drop_same_keeps_other_keys(s: Seq<YamlV>, k: (Seq<char>, Seq<char>))
    ensures
        drop_same(s, k) == s.filter(|x: YamlV| pkey(x) != k),
        forall|i: int| 0 <= i < s.len() && pkey(s[i]) != k ==> drop_same(s, k).contains(#[trigger] s[i]),
        forall|x: YamlV| #[trigger] drop_same(s, k).contains(x) ==> s.contains(x) && pkey(x) != k,
    decreases s.len(),
{
    reveal(Seq::filter);
    if s.len() > 0 {
        lemma_drop_same_keeps_other_keys(s.drop_last(), k);
        assert(s.drop_last().push(s.last()) =~= s);
    }
    let f = s.filter(|x: YamlV| pkey(x) != k);
    assert forall|i: int| 0 <= i < s.len() && pkey(s[i]) != k implies drop_same(s, k).contains(#[trigger] s[i]) by {
        s.lemma_filter_contains(|x: YamlV| pkey(x) != k, i);
    }
    assert forall|x: YamlV| #[trigger] drop_same(s, k).contains(x) implies s.contains(x) && pkey(x) != k by {
        s.lemma_filter_contains_rev(|x: YamlV| pkey(x) != k, x);
        let j = choose|j: int| 0 <= j < f.len() && f[j] == x;
        s.lemma_filter_pred(|x: YamlV| pkey(x) != k, j);
    }
}

/// Dropping a key that no parameter has changes nothing.
proof fn lemma_drop_absent_key(s: Seq<YamlV>, k: (Seq<char>, Seq<char>))
    requires
        forall|i: int| 0 <= i < s.len() ==> pkey(#[trigger] s[i]) != k,
    ensures
        drop_same(s, k) == s,
    decreases s.len(),
{
    if s.len() > 0 {
        lemma_drop_absent_key(s.drop_last(), k);
        assert(s.drop_last().push(s.last()) =~= s);
    }
}

/// Without path-level parameters, operation parameters given inline whose
/// (name, location) pairs are pairwise distinct all come through, in their
/// order: none replaces another.
pub proof fn lemma_distinct_operation_params_all_kept(op: Seq<YamlV>, global: Option<YamlV>)
    requires
        forall|i: int| 0 <= i < op.len() ==> str_of(#[trigger] op[i], "$ref"@) is None,
        forall|i: int, j: int| 0 <= i < j < op.len() ==> pkey(#[trigger] op[i]) != pkey(#[trigger] op[j]),
    ensures
        merged(Seq::empty(), op, global) == op,
    decreases op.len(),
{
    if op.len() == 0 {
        assert(resolve_all(Seq::empty(), global) =~= Seq::<YamlV>::empty());
    } else {
        let prev = op.drop_last();
        assert forall|i: int| 0 <= i < prev.len() implies str_of(#[trigger] prev[i], "$ref"@) is None by {
            assert(prev[i] == op[i]);
        }
        assert forall|i: int, j: int| 0 <= i < j < prev.len() implies pkey(#[trigger] prev[i]) != pkey(
            #[trigger] prev[j],
        ) by {
            assert(prev[i] == op[i] && prev[j] == op[j]);
        }
        lemma_distinct_operation_params_all_kept(prev, global);
        let last = op.last();
        assert(str_of(op[op.len() - 1], "$ref"@) is None);
        assert(resolve_param(last, global) == Some(last));
        assert forall|i: int| 0 <= i < prev.len() implies pkey(#[trigger] prev[i]) != pkey(last) by {
            assert(prev[i] == op[i]);
            assert(pkey(op[i]) != pkey(op[op.len() - 1]));
        }
        lemma_drop_absent_key(prev, pkey(last));
        assert(prev.push(last) =~= op);
    }
}

/// A path-level parameter survives the merge unless an operation parameter
/// has its name and location; and the last operation parameter that
/// resolves always ends the merged list.
pub proof fn lemma_path_param_replaced_only_by_same_key(
    pp: Seq<YamlV>,
    op: Seq<YamlV>,
    global: Option<YamlV>,
    x: YamlV,
)
    requires
        resolve_all(pp, global).contains(x),
        forall|j: int|
            0 <= j < op.len() ==> match resolve_param(#[trigger] op[j], global) {
                Some(r) => pkey(r) != pkey(x),
                None => true,
            },
    ensures
        merged(pp, op, global).contains(x),
        op.len() > 0 ==> match resolve_param(op.last(), global) {
            Some(r) => merged(pp, op, global).last() == r,
            None => true,
        },
    decreases op.len(),
{
    if op.len() > 0 {
        let prev = op.drop_last();
        assert forall|j: int| 0 <= j < prev.len() implies match resolve_param(#[trigger] prev[j], global) {
            Some(r) => pkey(r) != pkey(x),
            None => true,
        } by {
            assert(prev[j] == op[j]);
        }
        lemma_path_param_replaced_only_by_same_key(pp, prev, global, x);
        let m = merged(pp, prev, global);
        let l = op[op.len() - 1];
        match resolve_param(l, global) {
            Some(r) => {
                lemma_drop_same_keeps_other_keys(m, pkey(r));
                let k = choose|k: int| 0 <= k < m.len() && m[k] == x;
                assert(drop_same(m, pkey(r)).contains(m[k]));
                let d = drop_same(m, pkey(r));
                let t = choose|t: int| 0 <= t < d.len() && d[t] == x;
                assert(d.push(r)[t] == x);
            },
            None => {},
        }
    }
}

} // verus!
