//! OpenAPI 3.1 and 3.2 documents.
//!
//! The typed document covers everything 3.1 defines; 3.2 adds
//! `additionalOperations` (arbitrary HTTP methods) to path items, which are
//! read from the document tree.
use vstd::prelude::*;

use crate::api3::{
    Api3Body, Api3Components, Api3Document, Api3Operation, Api3Param, Api3PathItem, Api3Response,
    Api3Schema, Api3Type, BodyRef, MediaType, ParamLocation, ParamRef, PathItemRef, ResponseRef,
    SchemaRef, TypeSet,
};
use crate::model::{
    body_v, entry_v, fields_v, operation_v, opt_view, param_v, response_v, spec_v, strs_v, sv,
    BodyField, Operation, OperationV, Param, ParamV, PathEntry, PathEntryV, PathKind, RequestBody,
    RequestBodyV, Response, ResponseV, SchemaNode, SchemaV, Spec, SpecV,
};
use crate::schema::{
    noise_keys, noise_list, resolve, resolve_refs_in_value, strip, strip_noise_keys, to_schema,
    value_to_schema_node, views,
};
use crate::swagger::{
    bool_of, bool_of_exec, code_exec, code_of, items_exec, items_of, key_names, key_strs, or_empty,
    seq_strs, str_of, str_of_exec, strs_of_items,
};
use crate::text::{
    chars_of, slice_chars, starts_with, starts_with_exec, str_eq, string_of, to_uppercase, trim,
    trim_chars, uppercase_of,
};
use crate::yaml::{
    as_map, as_seq, get, get_key, get_opt, get_opt_key, lemma_yv_map, lemma_yv_seq, lookup,
    map_lookup, opt_yv, untag, yaml_as_map, yaml_as_seq, yv, yv_map, yv_seq, Yaml, YamlV,
};

verus! {

// ─── Lookups in the typed document ───────────────────────────────────────────

/// Position of the first entry named `name`, or -1.
pub open spec fn named_pos<T>(s: Seq<(String, T)>, name: Seq<char>) -> int
    decreases s.len(),
{
    if s.len() == 0 {
        -1
    } else {
        let k = named_pos(s.drop_last(), name);
        if k >= 0 {
            k
        } else if s.last().0@ == name {
            s.len() - 1
        } else {
            -1
        }
    }
}

pub proof fn lemma_named_pos<T>(s: Seq<(String, T)>, name: Seq<char>)
    ensures
        -1 <= named_pos(s, name) < s.len(),
        named_pos(s, name) >= 0 ==> s[named_pos(s, name)].0@ == name,
        forall|j: int|
            0 <= j < s.len() && (named_pos(s, name) < 0 || j < named_pos(s, name)) ==> s[j].0@ != name,
    decreases s.len(),
{
    if s.len() > 0 {
        lemma_named_pos(s.drop_last(), name);
        assert forall|j: int| 0 <= j < s.len() - 1 implies s.drop_last()[j] == s[j] by {}
    }
}

/// Position of the entry named `name` in a list of named items.
pub fn named_index<T>(s: &Vec<(String, T)>, name: &str) -> (r: Option<usize>)
    ensures
        match r {
            Some(i) => named_pos(s@, name@) == i as int,
            None => named_pos(s@, name@) == -1,
        },
{
    proof {
        lemma_named_pos(s@, name@);
    }
    let n = s.len();
    for i in 0..n
        invariant
            n == s@.len(),
            forall|j: int| 0 <= j < i ==> s@[j].0@ != name@,
            -1 <= named_pos(s@, name@) < n,
            named_pos(s@, name@) >= 0 ==> s@[named_pos(s@, name@)].0@ == name@,
            forall|j: int|
                0 <= j < n && (named_pos(s@, name@) < 0 || j < named_pos(s@, name@)) ==> s@[j].0@ != name@,
    {
        if str_eq(s[i].0.as_str(), name) {
            return Some(i);
        }
    }
    None
}

/// The text after `prefix`, when `r` starts with it.
pub open spec fn after_prefix(r: Seq<char>, prefix: Seq<char>) -> Option<Seq<char>> {
    if starts_with(r, prefix) {
        Some(r.skip(prefix.len() as int))
    } else {
        None
    }
}

pub fn strip_prefix_exec(r: &str, prefix: &str) -> (out: Option<String>)
    ensures
        match out {
            Some(s) => after_prefix(r@, prefix@) == Some(s@),
            None => after_prefix(r@, prefix@) is None,
        },
{
    let rc = chars_of(r);
    let pc = chars_of(prefix);
    if starts_with_exec(&rc, &pc) {
        let rest = slice_chars(&rc, pc.len(), rc.len());
        assert(rest@ =~= r@.skip(prefix@.len() as int));
        Some(string_of(&rest))
    } else {
        None
    }
}

/// The media type of a `content` map that is read: `application/json`,
/// else the first one.
pub open spec fn chosen_media(content: Seq<(String, MediaType)>) -> Option<MediaType> {
    let j = named_pos(content, "application/json"@);
    if j >= 0 {
        Some(content[j].1)
    } else if content.len() > 0 {
        Some(content[0].1)
    } else {
        None
    }
}

/// The schema of the chosen media type.
pub open spec fn chosen_schema(content: Seq<(String, MediaType)>) -> Option<SchemaRef> {
    match chosen_media(content) {
        Some(m) => m.schema,
        None => None,
    }
}

pub fn chosen_schema_exec(content: &Vec<(String, MediaType)>) -> (r: Option<&SchemaRef>)
    ensures
        match r {
            Some(s) => chosen_schema(content@) == Some(*s),
            None => chosen_schema(content@) is None,
        },
{
    proof {
        lemma_named_pos(content@, "application/json"@);
    }
    let mt = match named_index(content, "application/json") {
        Some(j) => &content[j].1,
        None => if content.len() > 0 {
            &content[0].1
        } else {
            return None;
        },
    };
    match &mt.schema {
        Some(s) => Some(s),
        None => None,
    }
}

/// A schema, following one `$ref` into the component schemas.
pub open spec fn resolved_schema(sr: SchemaRef, comps: Option<Api3Components>) -> Option<Api3Schema> {
    match sr {
        SchemaRef::Item(b) => Some(*b),
        SchemaRef::Reference(r) => match (after_prefix(r@, "#/components/schemas/"@), comps) {
            (Some(name), Some(c)) => {
                let k = named_pos(c.schemas@, name);
                if k >= 0 {
                    match c.schemas@[k].1 {
                        SchemaRef::Item(b) => Some(*b),
                        SchemaRef::Reference(_) => None,
                    }
                } else {
                    None
                }
            },
            _ => None,
        },
    }
}

pub fn resolve_schema<'a>(sr: &'a SchemaRef, comps: Option<&'a Api3Components>) -> (r: Option<&'a Api3Schema>)
    ensures
        match r {
            Some(s) => resolved_schema(*sr, opt_comps(comps)) == Some(*s),
            None => resolved_schema(*sr, opt_comps(comps)) is None,
        },
{
    match sr {
        SchemaRef::Item(b) => Some(&**b),
        SchemaRef::Reference(r) => {
            let name = match strip_prefix_exec(r.as_str(), "#/components/schemas/") {
                Some(n) => n,
                None => return None,
            };
            let c = match comps {
                Some(c) => c,
                None => return None,
            };
            proof {
                lemma_named_pos(c.schemas@, name@);
            }
            match named_index(&c.schemas, name.as_str()) {
                Some(k) => match &c.schemas[k].1 {
                    SchemaRef::Item(b) => Some(&**b),
                    SchemaRef::Reference(_) => None,
                },
                None => None,
            }
        },
    }
}

pub open spec fn opt_comps(c: Option<&Api3Components>) -> Option<Api3Components> {
    match c {
        Some(x) => Some(*x),
        None => None,
    }
}

/// The name of a parameter location, in lower case.
pub open spec fn location_name(l: ParamLocation) -> Seq<char> {
    match l {
        ParamLocation::Query => "query"@,
        ParamLocation::Header => "header"@,
        ParamLocation::Path => "path"@,
        ParamLocation::Cookie => "cookie"@,
    }
}

pub fn location_text(l: ParamLocation) -> (s: String)
    ensures
        s@ == location_name(l),
{
    match l {
        ParamLocation::Query => "query".to_owned(),
        ParamLocation::Header => "header".to_owned(),
        ParamLocation::Path => "path".to_owned(),
        ParamLocation::Cookie => "cookie".to_owned(),
    }
}

/// A single schema type by name (`None` for `null` and for type lists).
pub open spec fn single_type_name(t: TypeSet) -> Option<Seq<char>> {
    match t {
        TypeSet::Single(Api3Type::String) => Some("string"@),
        TypeSet::Single(Api3Type::Integer) => Some("integer"@),
        TypeSet::Single(Api3Type::Number) => Some("number"@),
        TypeSet::Single(Api3Type::Boolean) => Some("boolean"@),
        TypeSet::Single(Api3Type::Array) => Some("array"@),
        TypeSet::Single(Api3Type::Object) => Some("object"@),
        _ => None,
    }
}

pub fn schema_type_str(t: TypeSet) -> (r: Option<String>)
    ensures
        opt_view(r) == single_type_name(t),
{
    match t {
        TypeSet::Single(Api3Type::String) => Some("string".to_owned()),
        TypeSet::Single(Api3Type::Integer) => Some("integer".to_owned()),
        TypeSet::Single(Api3Type::Number) => Some("number".to_owned()),
        TypeSet::Single(Api3Type::Boolean) => Some("boolean".to_owned()),
        TypeSet::Single(Api3Type::Array) => Some("array".to_owned()),
        TypeSet::Single(Api3Type::Object) => Some("object".to_owned()),
        _ => None,
    }
}

/// A description trimmed, when not empty.
pub open spec fn trimmed_desc(d: Option<String>) -> Option<Seq<char>> {
    match d {
        Some(s) => if trim(s@).len() > 0 {
            Some(trim(s@))
        } else {
            None
        },
        None => None,
    }
}

pub fn trimmed_desc_exec(d: &Option<String>) -> (r: Option<String>)
    ensures
        opt_view(r) == trimmed_desc(*d),
{
    match d {
        Some(s) => {
            let t = trim_chars(&chars_of(s.as_str()));
            if t.len() > 0 {
                Some(string_of(&t))
            } else {
                None
            }
        },
        None => None,
    }
}

pub open spec fn opt_or_false(b: Option<bool>) -> bool {
    match b {
        Some(x) => x,
        None => false,
    }
}

/// The property names of a schema.
pub fn property_fields(s: &Api3Schema) -> (r: Vec<BodyField>)
    ensures
        fields_v(r@) == strs_v(s.properties@),
{
    let mut r: Vec<BodyField> = Vec::new();
    let n = s.properties.len();
    for i in 0..n
        invariant
            n == s.properties@.len(),
            r@.len() == i,
            forall|k: int| 0 <= k < i ==> (#[trigger] r@[k]).name@ == s.properties@[k]@,
    {
        r.push(BodyField { name: s.properties[i].clone() });
    }
    assert(fields_v(r@) =~= strs_v(s.properties@));
    r
}

// ─── Schema trees ────────────────────────────────────────────────────────────

/// The label of a schema tree: the component name of a `$ref`, else `body`.
pub open spec fn tree_label(sr: SchemaRef) -> Seq<char> {
    match sr {
        SchemaRef::Reference(r) => match after_prefix(r@, "#/components/schemas/"@) {
            Some(n) => n,
            None => "body"@,
        },
        SchemaRef::Item(_) => "body"@,
    }
}

/// The schema tree of a (resolved) schema: `$ref`s expanded against the
/// component schemas of the document tree, noise keys removed.
pub open spec fn tree31(sr: SchemaRef, schemas: Option<YamlV>, comps: Option<Api3Components>) -> Option<SchemaV> {
    match resolved_schema(sr, comps) {
        Some(s) => match s.value {
            Some(v) => Some(
                to_schema(
                    tree_label(sr),
                    strip(resolve(yv(v), schemas, "#/components/schemas/"@, Seq::empty()), noise_keys(false)),
                    Seq::empty(),
                ),
            ),
            None => None,
        },
        None => None,
    }
}

/// The tree of a schema value under a label.
pub fn tree_of_value(label: String, v: &Yaml, schemas: Option<&Yaml>) -> (r: SchemaNode)
    ensures
        sv(r) == to_schema(
            label@,
            strip(resolve(yv(*v), opt_yv(schemas), "#/components/schemas/"@, Seq::empty()), noise_keys(false)),
            Seq::empty(),
        ),
{
    let visited: Vec<String> = Vec::new();
    assert(views(visited@) =~= Seq::<Seq<char>>::empty());
    let resolved = resolve_refs_in_value(v, schemas, "#/components/schemas/", &visited);
    let noise = noise_list(false);
    let clean = strip_noise_keys(&resolved, &noise);
    assert(noise@.map_values(|x: &str| x@) =~= noise_keys(false));
    let none: Vec<String> = Vec::new();
    assert(views(none@) =~= Seq::<Seq<char>>::empty());
    value_to_schema_node(label, &clean, &none)
}

pub fn build_schema_tree(sr: &SchemaRef, schemas: Option<&Yaml>, comps: Option<&Api3Components>) -> (r: Option<
    SchemaNode,
>)
    ensures
        match r {
            Some(n) => tree31(*sr, opt_yv(schemas), opt_comps(comps)) == Some(sv(n)),
            None => tree31(*sr, opt_yv(schemas), opt_comps(comps)) is None,
        },
{
    let s = match resolve_schema(sr, comps) {
        Some(s) => s,
        None => return None,
    };
    let label = match sr {
        SchemaRef::Reference(r) => match strip_prefix_exec(r.as_str(), "#/components/schemas/") {
            Some(n) => n,
            None => "body".to_owned(),
        },
        SchemaRef::Item(_) => "body".to_owned(),
    };
    match &s.value {
        Some(v) => Some(tree_of_value(label, v, schemas)),
        None => None,
    }
}

// ─── Parameters, responses, request bodies ──────────────────────────────────

pub open spec fn param31(p: Api3Param, comps: Option<Api3Components>) -> ParamV {
    ParamV {
        name: p.name@,
        location: location_name(p.location),
        required: opt_or_false(p.required),
        description: opt_view(p.description),
        schema_type: match p.schema {
            Some(sr) => match resolved_schema(sr, comps) {
                Some(s) => match s.type_set {
                    Some(t) => single_type_name(t),
                    None => None,
                },
                None => None,
            },
            None => None,
        },
        deprecated: opt_or_false(p.deprecated),
    }
}

/// A parameter, following one `$ref` into the component parameters.
pub open spec fn param_ref31(pr: ParamRef, comps: Option<Api3Components>) -> Option<ParamV> {
    match pr {
        ParamRef::Item(p) => Some(param31(p, comps)),
        ParamRef::Reference(r) => match (after_prefix(r@, "#/components/parameters/"@), comps) {
            (Some(name), Some(c)) => {
                let k = named_pos(c.parameters@, name);
                if k >= 0 {
                    match c.parameters@[k].1 {
                        ParamRef::Item(p) => Some(param31(p, comps)),
                        ParamRef::Reference(_) => None,
                    }
                } else {
                    None
                }
            },
            _ => None,
        },
    }
}

pub open spec fn params31(ps: Seq<ParamRef>, comps: Option<Api3Components>) -> Seq<ParamV>
    decreases ps.len(),
{
    if ps.len() == 0 {
        Seq::empty()
    } else {
        match param_ref31(ps.last(), comps) {
            Some(p) => params31(ps.drop_last(), comps).push(p),
            None => params31(ps.drop_last(), comps),
        }
    }
}

fn convert_param(p: &Api3Param, comps: Option<&Api3Components>) -> (r: Param)
    ensures
        param_v(r) == param31(*p, opt_comps(comps)),
{
    let schema_type = match &p.schema {
        Some(sr) => match resolve_schema(sr, comps) {
            Some(s) => match s.type_set {
                Some(t) => schema_type_str(t),
                None => None,
            },
            None => None,
        },
        None => None,
    };
    Param {
        name: p.name.clone(),
        location: location_text(p.location),
        required: match p.required {
            Some(b) => b,
            None => false,
        },
        description: p.description.clone(),
        schema_type,
        deprecated: match p.deprecated {
            Some(b) => b,
            None => false,
        },
    }
}

fn convert_param_ref(pr: &ParamRef, comps: Option<&Api3Components>) -> (r: Option<Param>)
    ensures
        match r {
            Some(x) => param_ref31(*pr, opt_comps(comps)) == Some(param_v(x)),
            None => param_ref31(*pr, opt_comps(comps)) is None,
        },
{
    match pr {
        ParamRef::Item(p) => Some(convert_param(p, comps)),
        ParamRef::Reference(r) => {
            let name = match strip_prefix_exec(r.as_str(), "#/components/parameters/") {
                Some(n) => n,
                None => return None,
            };
            let c = match comps {
                Some(c) => c,
                None => return None,
            };
            proof {
                lemma_named_pos(c.parameters@, name@);
            }
            match named_index(&c.parameters, name.as_str()) {
                Some(k) => match &c.parameters[k].1 {
                    ParamRef::Item(p) => Some(convert_param(p, comps)),
                    ParamRef::Reference(_) => None,
                },
                None => None,
            }
        },
    }
}

pub fn convert_params(ps: &Vec<ParamRef>, comps: Option<&Api3Components>) -> (r: Vec<Param>)
    ensures
        r@.map_values(|p: Param| param_v(p)) == params31(ps@, opt_comps(comps)),
{
    let mut r: Vec<Param> = Vec::new();
    let n = ps.len();
    for i in 0..n
        invariant
            n == ps@.len(),
            r@.map_values(|p: Param| param_v(p)) == params31(ps@.take(i as int), opt_comps(comps)),
    {
        proof {
            assert(ps@.take(i + 1).drop_last() =~= ps@.take(i as int));
        }
        match convert_param_ref(&ps[i], comps) {
            Some(x) => {
                let ghost before = r@;
                let ghost xv = param_v(x);
                r.push(x);
                proof {
                    assert(r@.map_values(|p: Param| param_v(p)) =~= before.map_values(|p: Param| param_v(p)).push(xv));
                }
            },
            None => {},
        }
    }
    assert(ps@.take(n as int) =~= ps@);
    r
}

pub open spec fn response_item31(
    code: Seq<char>,
    resp: Api3Response,
    schemas: Option<YamlV>,
    comps: Option<Api3Components>,
) -> ResponseV {
    ResponseV {
        code,
        description: trimmed_desc(resp.description),
        schema_tree: match chosen_schema(resp.content@) {
            Some(sr) => tree31(sr, schemas, comps),
            None => None,
        },
    }
}

/// A response, following one `$ref` into the component responses.
pub open spec fn response31(
    code: Seq<char>,
    rr: ResponseRef,
    schemas: Option<YamlV>,
    comps: Option<Api3Components>,
) -> ResponseV {
    match rr {
        ResponseRef::Item(resp) => response_item31(code, resp, schemas, comps),
        ResponseRef::Reference(r) => {
            let found = match (after_prefix(r@, "#/components/responses/"@), comps) {
                (Some(name), Some(c)) => {
                    let k = named_pos(c.responses@, name);
                    if k >= 0 {
                        match c.responses@[k].1 {
                            ResponseRef::Item(resp) => Some(resp),
                            ResponseRef::Reference(_) => None,
                        }
                    } else {
                        None
                    }
                },
                _ => None,
            };
            match found {
                Some(resp) => response_item31(code, resp, schemas, comps),
                None => ResponseV { code, description: None, schema_tree: None },
            }
        },
    }
}

pub open spec fn responses31(
    rs: Seq<(String, ResponseRef)>,
    schemas: Option<YamlV>,
    comps: Option<Api3Components>,
) -> Seq<ResponseV>
    decreases rs.len(),
{
    if rs.len() == 0 {
        Seq::empty()
    } else {
        responses31(rs.drop_last(), schemas, comps).push(
            response31(rs.last().0@, rs.last().1, schemas, comps),
        )
    }
}

fn convert_response_item(code: String, resp: &Api3Response, schemas: Option<&Yaml>, comps: Option<&Api3Components>) -> (r: Response)
    ensures
        response_v(r) == response_item31(code@, *resp, opt_yv(schemas), opt_comps(comps)),
{
    let description = trimmed_desc_exec(&resp.description);
    let schema_tree = match chosen_schema_exec(&resp.content) {
        Some(sr) => build_schema_tree(sr, schemas, comps),
        None => None,
    };
    Response { code, description, schema_tree }
}

fn convert_response(code: &String, rr: &ResponseRef, schemas: Option<&Yaml>, comps: Option<&Api3Components>) -> (r: Response)
    ensures
        response_v(r) == response31(code@, *rr, opt_yv(schemas), opt_comps(comps)),
{
    match rr {
        ResponseRef::Item(resp) => convert_response_item(code.clone(), resp, schemas, comps),
        ResponseRef::Reference(r) => {
            let name = match strip_prefix_exec(r.as_str(), "#/components/responses/") {
                Some(n) => n,
                None => return Response { code: code.clone(), description: None, schema_tree: None },
            };
            let c = match comps {
                Some(c) => c,
                None => return Response { code: code.clone(), description: None, schema_tree: None },
            };
            proof {
                lemma_named_pos(c.responses@, name@);
            }
            match named_index(&c.responses, name.as_str()) {
                Some(k) => match &c.responses[k].1 {
                    ResponseRef::Item(resp) => convert_response_item(code.clone(), resp, schemas, comps),
                    ResponseRef::Reference(_) => Response { code: code.clone(), description: None, schema_tree: None },
                },
                None => Response { code: code.clone(), description: None, schema_tree: None },
            }
        },
    }
}

pub fn convert_responses(rs: &Vec<(String, ResponseRef)>, schemas: Option<&Yaml>, comps: Option<&Api3Components>) -> (r: Vec<Response>)
    ensures
        r@.map_values(|x: Response| response_v(x)) == responses31(rs@, opt_yv(schemas), opt_comps(comps)),
{
    let mut r: Vec<Response> = Vec::new();
    let n = rs.len();
    for i in 0..n
        invariant
            n == rs@.len(),
            r@.map_values(|x: Response| response_v(x)) == responses31(rs@.take(i as int), opt_yv(schemas), opt_comps(comps)),
    {
        proof {
            assert(rs@.take(i + 1).drop_last() =~= rs@.take(i as int));
        }
        let x = convert_response(&rs[i].0, &rs[i].1, schemas, comps);
        let ghost before = r@;
        let ghost xv = response_v(x);
        r.push(x);
        proof {
            assert(r@.map_values(|x: Response| response_v(x)) =~= before.map_values(|x: Response| response_v(x)).push(xv));
        }
    }
    assert(rs@.take(n as int) =~= rs@);
    r
}

/// The request body given inline.
pub open spec fn body_item31(b: Api3Body, schemas: Option<YamlV>, comps: Option<Api3Components>) -> RequestBodyV {
    RequestBodyV {
        description: opt_view(b.description),
        required: opt_or_false(b.required),
        fields: match chosen_schema(b.content@) {
            Some(sr) => match resolved_schema(sr, comps) {
                Some(s) => strs_v(s.properties@),
                None => Seq::empty(),
            },
            None => Seq::empty(),
        },
        schema_tree: match chosen_schema(b.content@) {
            Some(sr) => tree31(sr, schemas, comps),
            None => None,
        },
    }
}

/// A request body, following one `$ref` into the component request bodies;
/// an unresolvable `$ref` is shown as its text.
pub open spec fn body31(br: BodyRef, schemas: Option<YamlV>, comps: Option<Api3Components>) -> RequestBodyV {
    match br {
        BodyRef::Item(b) => body_item31(b, schemas, comps),
        BodyRef::Reference(r) => {
            let found = match (after_prefix(r@, "#/components/requestBodies/"@), comps) {
                (Some(name), Some(c)) => {
                    let k = named_pos(c.request_bodies@, name);
                    if k >= 0 {
                        match c.request_bodies@[k].1 {
                            BodyRef::Item(b) => Some(b),
                            BodyRef::Reference(_) => None,
                        }
                    } else {
                        None
                    }
                },
                _ => None,
            };
            match found {
                Some(b) => body_item31(b, schemas, comps),
                None => RequestBodyV {
                    description: Some("$ref: "@ + r@),
                    required: false,
                    fields: Seq::empty(),
                    schema_tree: None,
                },
            }
        },
    }
}

fn convert_body_item(b: &Api3Body, schemas: Option<&Yaml>, comps: Option<&Api3Components>) -> (r: RequestBody)
    ensures
        body_v(r) == body_item31(*b, opt_yv(schemas), opt_comps(comps)),
{
    let sr = chosen_schema_exec(&b.content);
    let fields = match sr {
        Some(sr) => match resolve_schema(sr, comps) {
            Some(s) => property_fields(s),
            None => Vec::new(),
        },
        None => Vec::new(),
    };
    let schema_tree = match sr {
        Some(sr) => build_schema_tree(sr, schemas, comps),
        None => None,
    };
    proof {
        assert(fields_v(Seq::<BodyField>::empty()) =~= Seq::<Seq<char>>::empty());
    }
    RequestBody {
        description: b.description.clone(),
        required: match b.required {
            Some(x) => x,
            None => false,
        },
        fields,
        schema_tree,
    }
}

fn ref_text(r: &String) -> (s: String)
    ensures
        s@ == "$ref: "@ + r@,
{
    let mut s = "$ref: ".to_owned();
    s.append(r.as_str());
    s
}

pub fn resolve_request_body(br: &BodyRef, schemas: Option<&Yaml>, comps: Option<&Api3Components>) -> (r: RequestBody)
    ensures
        body_v(r) == body31(*br, opt_yv(schemas), opt_comps(comps)),
{
    match br {
        BodyRef::Item(b) => convert_body_item(b, schemas, comps),
        BodyRef::Reference(r) => {
            proof {
                assert(fields_v(Seq::<BodyField>::empty()) =~= Seq::<Seq<char>>::empty());
            }
            let name = match strip_prefix_exec(r.as_str(), "#/components/requestBodies/") {
                Some(n) => n,
                None => return RequestBody { description: Some(ref_text(r)), required: false, fields: Vec::new(), schema_tree: None },
            };
            let c = match comps {
                Some(c) => c,
                None => return RequestBody { description: Some(ref_text(r)), required: false, fields: Vec::new(), schema_tree: None },
            };
            proof {
                lemma_named_pos(c.request_bodies@, name@);
            }
            match named_index(&c.request_bodies, name.as_str()) {
                Some(k) => match &c.request_bodies[k].1 {
                    BodyRef::Item(b) => convert_body_item(b, schemas, comps),
                    BodyRef::Reference(_) => RequestBody { description: Some(ref_text(r)), required: false, fields: Vec::new(), schema_tree: None },
                },
                None => RequestBody { description: Some(ref_text(r)), required: false, fields: Vec::new(), schema_tree: None },
            }
        },
    }
}

// ─── Operations given as document trees (`additionalOperations`) ─────────────

/// The schema of the media type read from a `content` entry of a tree.
pub open spec fn raw_schema_val(v: YamlV) -> Option<YamlV> {
    match get(v, "content"@) {
        Some(c) => {
            let mt = match get(c, "application/json"@) {
                Some(x) => Some(x),
                None => match as_map(c) {
                    Some(cm) => if cm.len() > 0 {
                        Some(cm[0].1)
                    } else {
                        None
                    },
                    None => None,
                },
            };
            match mt {
                Some(m) => get(m, "schema"@),
                None => None,
            }
        },
        None => None,
    }
}

/// The tree of a body or response schema value, labelled `body`.
pub open spec fn tree_body(s: YamlV, schemas: Option<YamlV>) -> SchemaV {
    to_schema("body"@, strip(resolve(s, schemas, "#/components/schemas/"@, Seq::empty()), noise_keys(false)), Seq::empty())
}

pub open spec fn raw_param(v: YamlV) -> Option<ParamV> {
    if as_map(v) is None {
        None
    } else {
        match str_of(v, "name"@) {
            Some(name) => Some(
                ParamV {
                    name,
                    location: match str_of(v, "in"@) {
                        Some(l) => l,
                        None => "query"@,
                    },
                    required: bool_of(v, "required"@),
                    description: str_of(v, "description"@),
                    schema_type: match get(v, "schema"@) {
                        Some(sch) => str_of(sch, "type"@),
                        None => None,
                    },
                    deprecated: bool_of(v, "deprecated"@),
                },
            ),
            None => None,
        }
    }
}

pub open spec fn raw_params(s: Seq<YamlV>) -> Seq<ParamV>
    decreases s.len(),
{
    if s.len() == 0 {
        Seq::empty()
    } else {
        match raw_param(s.last()) {
            Some(p) => raw_params(s.drop_last()).push(p),
            None => raw_params(s.drop_last()),
        }
    }
}

pub open spec fn raw_body(v: YamlV, schemas: Option<YamlV>) -> RequestBodyV {
    RequestBodyV {
        description: str_of(v, "description"@),
        required: bool_of(v, "required"@),
        fields: match raw_schema_val(v) {
            Some(sch) => match get(sch, "properties"@) {
                Some(p) => match as_map(p) {
                    Some(pm) => key_strs(pm),
                    None => Seq::empty(),
                },
                None => Seq::empty(),
            },
            None => Seq::empty(),
        },
        schema_tree: match raw_schema_val(v) {
            Some(sch) => Some(tree_body(sch, schemas)),
            None => None,
        },
    }
}

pub open spec fn raw_responses(m: Seq<(YamlV, YamlV)>, schemas: Option<YamlV>) -> Seq<ResponseV>
    decreases m.len(),
{
    if m.len() == 0 {
        Seq::empty()
    } else {
        raw_responses(m.drop_last(), schemas).push(
            ResponseV {
                code: code_of(m.last().0),
                description: str_of(m.last().1, "description"@),
                schema_tree: match raw_schema_val(m.last().1) {
                    Some(sch) => Some(tree_body(sch, schemas)),
                    None => None,
                },
            },
        )
    }
}

/// An operation read from its document tree; `None` unless it is a mapping.
pub open spec fn raw_op(method: Seq<char>, v: YamlV, schemas: Option<YamlV>) -> Option<OperationV> {
    if as_map(v) is None {
        None
    } else {
        Some(
            OperationV {
                method,
                summary: str_of(v, "summary"@),
                description: str_of(v, "description"@),
                operation_id: str_of(v, "operationId"@),
                tags: seq_strs(items_of(v, "tags"@)),
                deprecated: bool_of(v, "deprecated"@),
                params: raw_params(items_of(v, "parameters"@)),
                request_body: match get(v, "requestBody"@) {
                    Some(rb) => Some(raw_body(rb, schemas)),
                    None => None,
                },
                responses: match get(v, "responses"@) {
                    Some(r) => match as_map(r) {
                        Some(rm) => raw_responses(rm, schemas),
                        None => Seq::empty(),
                    },
                    None => Seq::empty(),
                },
            },
        )
    }
}

/// The operations of an `additionalOperations` mapping, methods upper-cased.
pub open spec fn raw_ops(m: Seq<(YamlV, YamlV)>, schemas: Option<YamlV>) -> Seq<OperationV>
    decreases m.len(),
{
    if m.len() == 0 {
        Seq::empty()
    } else {
        let prev = raw_ops(m.drop_last(), schemas);
        match m.last().0 {
            YamlV::Str(k) => match raw_op(uppercase_of(k), m.last().1, schemas) {
                Some(o) => prev.push(o),
                None => prev,
            },
            _ => prev,
        }
    }
}

fn raw_schema_val_exec(v: &Yaml) -> (r: Option<&Yaml>)
    ensures
        match r {
            Some(x) => raw_schema_val(yv(*v)) == Some(yv(*x)),
            None => raw_schema_val(yv(*v)) is None,
        },
{
    let c = match get_key(v, "content") {
        Some(c) => c,
        None => return None,
    };
    let mt = match get_key(c, "application/json") {
        Some(x) => x,
        None => match yaml_as_map(c) {
            Some(cm) => {
                proof {
                    lemma_yv_map(cm@);
                }
                if cm.len() > 0 {
                    &cm[0].1
                } else {
                    return None;
                }
            },
            None => return None,
        },
    };
    get_key(mt, "schema")
}

fn tree_body_exec(s: &Yaml, schemas: Option<&Yaml>) -> (r: SchemaNode)
    ensures
        sv(r) == tree_body(yv(*s), opt_yv(schemas)),
{
    tree_of_value("body".to_owned(), s, schemas)
}

pub fn parse_raw_param(v: &Yaml) -> (r: Option<Param>)
    ensures
        match r {
            Some(p) => raw_param(yv(*v)) == Some(param_v(p)),
            None => raw_param(yv(*v)) is None,
        },
{
    if yaml_as_map(v).is_none() {
        return None;
    }
    let name = match str_of_exec(v, "name") {
        Some(n) => n,
        None => return None,
    };
    let location = match str_of_exec(v, "in") {
        Some(l) => l,
        None => "query".to_owned(),
    };
    let required = bool_of_exec(v, "required");
    let description = str_of_exec(v, "description");
    let deprecated = bool_of_exec(v, "deprecated");
    let schema_type = match get_key(v, "schema") {
        Some(sch) => str_of_exec(sch, "type"),
        None => None,
    };
    Some(Param { name, location, required, description, schema_type, deprecated })
}

pub fn parse_raw_request_body(v: &Yaml, schemas: Option<&Yaml>) -> (r: RequestBody)
    ensures
        body_v(r) == raw_body(yv(*v), opt_yv(schemas)),
{
    let required = bool_of_exec(v, "required");
    let description = str_of_exec(v, "description");
    let sch = raw_schema_val_exec(v);
    let schema_tree = match sch {
        Some(x) => Some(tree_body_exec(x, schemas)),
        None => None,
    };
    let fields = match sch {
        Some(x) => match get_key(x, "properties") {
            Some(p) => match yaml_as_map(p) {
                Some(pm) => key_names(pm),
                None => Vec::new(),
            },
            None => Vec::new(),
        },
        None => Vec::new(),
    };
    proof {
        assert(fields_v(Seq::<BodyField>::empty()) =~= Seq::<Seq<char>>::empty());
    }
    RequestBody { description, required, fields, schema_tree }
}

/// An operation read from its document tree; `None` unless it is a mapping.
pub fn parse_raw_operation(method: String, v: &Yaml, schemas: Option<&Yaml>) -> (r: Option<Operation>)
    ensures
        match r {
            Some(o) => raw_op(method@, yv(*v), opt_yv(schemas)) == Some(operation_v(o)),
            None => raw_op(method@, yv(*v), opt_yv(schemas)) is None,
        },
{
    if yaml_as_map(v).is_none() {
        return None;
    }
    let summary = str_of_exec(v, "summary");
    let description = str_of_exec(v, "description");
    let operation_id = str_of_exec(v, "operationId");
    let deprecated = bool_of_exec(v, "deprecated");
    let tag_items = items_exec(v, "tags");
    let tags = strs_of_items(&tag_items);
    let param_items = items_exec(v, "parameters");
    proof {
        lemma_yv_seq(param_items@);
    }
    let ghost pv = yv_seq(param_items@);
    let mut params: Vec<Param> = Vec::new();
    let n = param_items.len();
    for i in 0..n
        invariant
            n == param_items@.len(),
            pv == yv_seq(param_items@),
            pv.len() == n,
            forall|k: int| 0 <= k < n ==> #[trigger] pv[k] == yv(param_items@[k]),
            params@.map_values(|p: Param| param_v(p)) == raw_params(pv.take(i as int)),
    {
        proof {
            assert(pv.take(i + 1).drop_last() =~= pv.take(i as int));
        }
        match parse_raw_param(&param_items[i]) {
            Some(p) => {
                let ghost before = params@;
                let ghost xv = param_v(p);
                params.push(p);
                proof {
                    assert(params@.map_values(|p: Param| param_v(p)) =~= before.map_values(|p: Param| param_v(p)).push(xv));
                }
            },
            None => {},
        }
    }
    assert(pv.take(n as int) =~= pv);
    let request_body = match get_key(v, "requestBody") {
        Some(rb) => Some(parse_raw_request_body(rb, schemas)),
        None => None,
    };
    let mut responses: Vec<Response> = Vec::new();
    match get_key(v, "responses") {
        Some(rs) => match yaml_as_map(rs) {
            Some(m) => {
                proof {
                    lemma_yv_map(m@);
                }
                let ghost mv = yv_map(m@);
                let n = m.len();
                for i in 0..n
                    invariant
                        n == m@.len(),
                        mv == yv_map(m@),
                        mv.len() == n,
                        forall|k: int| 0 <= k < n ==> #[trigger] mv[k] == (yv(m@[k].0), yv(m@[k].1)),
                        responses@.map_values(|x: Response| response_v(x)) == raw_responses(mv.take(i as int), opt_yv(schemas)),
                {
                    proof {
                        assert(mv.take(i + 1).drop_last() =~= mv.take(i as int));
                    }
                    let code = code_exec(&m[i].0);
                    let description = str_of_exec(&m[i].1, "description");
                    let schema_tree = match raw_schema_val_exec(&m[i].1) {
                        Some(x) => Some(tree_body_exec(x, schemas)),
                        None => None,
                    };
                    let resp = Response { code, description, schema_tree };
                    let ghost before = responses@;
                    let ghost rv = response_v(resp);
                    responses.push(resp);
                    proof {
                        assert(responses@.map_values(|x: Response| response_v(x)) =~= before.map_values(|x: Response| response_v(x)).push(rv));
                    }
                }
                assert(mv.take(n as int) =~= mv);
            },
            None => {},
        },
        None => {},
    }
    let o = Operation {
        method,
        summary,
        description,
        operation_id,
        tags,
        deprecated,
        params,
        request_body,
        responses,
    };
    proof {
        let spec_o = raw_op(method@, yv(*v), opt_yv(schemas))->0;
        assert(operation_v(o).responses =~= spec_o.responses);
    }
    Some(o)
}

// ─── Operations, path items, documents ──────────────────────────────────────

pub open spec fn op31(method: Seq<char>, op: Api3Operation, schemas: Option<YamlV>, comps: Option<Api3Components>) -> OperationV {
    OperationV {
        method,
        summary: opt_view(op.summary),
        description: opt_view(op.description),
        operation_id: opt_view(op.operation_id),
        tags: strs_v(op.tags@),
        deprecated: opt_or_false(op.deprecated),
        params: params31(op.parameters@, comps),
        request_body: match op.request_body {
            Some(br) => Some(body31(br, schemas, comps)),
            None => None,
        },
        responses: match op.responses {
            Some(rs) => responses31(rs@, schemas, comps),
            None => Seq::empty(),
        },
    }
}

pub open spec fn typed_ops31(
    ops: Seq<(String, Api3Operation)>,
    schemas: Option<YamlV>,
    comps: Option<Api3Components>,
) -> Seq<OperationV>
    decreases ops.len(),
{
    if ops.len() == 0 {
        Seq::empty()
    } else {
        typed_ops31(ops.drop_last(), schemas, comps).push(
            op31(uppercase_of(ops.last().0@), ops.last().1, schemas, comps),
        )
    }
}

/// The operations of an `additionalOperations` value, when it is a mapping.
pub open spec fn extra_ops(extra: Option<YamlV>, schemas: Option<YamlV>) -> Seq<OperationV> {
    match extra {
        Some(YamlV::Mapping(m)) => raw_ops(m, schemas),
        _ => Seq::empty(),
    }
}

/// The operation of a path item's `query` field (OpenAPI 3.2), which
/// stands for an additional operation with the method `QUERY`.
pub open spec fn query_ops(query: Option<YamlV>, schemas: Option<YamlV>) -> Seq<OperationV> {
    match query {
        Some(v) => match raw_op("QUERY"@, v, schemas) {
            Some(o) => seq![o],
            None => Seq::empty(),
        },
        None => Seq::empty(),
    }
}

/// A path item's entry: its typed operations, then its
/// `additionalOperations`, then the operation of its `query` field.
pub open spec fn entry31(
    path: Seq<char>,
    ops: Seq<(String, Api3Operation)>,
    kind: PathKind,
    schemas: Option<YamlV>,
    comps: Option<Api3Components>,
    extra: Option<YamlV>,
    query: Option<YamlV>,
) -> PathEntryV {
    PathEntryV {
        path,
        kind,
        operations: typed_ops31(ops, schemas, comps) + extra_ops(extra, schemas) + query_ops(query, schemas),
    }
}

/// The operations of a path item (none for a `$ref`).
pub open spec fn item_ops(pi: PathItemRef) -> Seq<(String, Api3Operation)> {
    match pi {
        PathItemRef::Item(i) => i.operations@,
        PathItemRef::Reference(_) => Seq::empty(),
    }
}

/// The `additionalOperations` of entry `name` under `section` of the tree.
pub open spec fn extra_of(root: YamlV, section: Seq<char>, name: Seq<char>) -> Option<YamlV> {
    get_opt(get_opt(get(root, section), name), "additionalOperations"@)
}

/// The `query` field of entry `name` under `section` of the tree.
pub open spec fn query_of(root: YamlV, section: Seq<char>, name: Seq<char>) -> Option<YamlV> {
    get_opt(get_opt(get(root, section), name), "query"@)
}

pub open spec fn path_entries31(
    ps: Seq<(String, PathItemRef)>,
    root: YamlV,
    schemas: Option<YamlV>,
    comps: Option<Api3Components>,
) -> Seq<PathEntryV>
    decreases ps.len(),
{
    if ps.len() == 0 {
        Seq::empty()
    } else {
        let (p, pi) = ps.last();
        path_entries31(ps.drop_last(), root, schemas, comps).push(
            entry31(
                p@,
                item_ops(pi),
                PathKind::Path,
                schemas,
                comps,
                extra_of(root, "paths"@, p@),
                query_of(root, "paths"@, p@),
            ),
        )
    }
}

pub open spec fn webhook_entries31(
    ws: Seq<(String, Api3PathItem)>,
    root: YamlV,
    schemas: Option<YamlV>,
    comps: Option<Api3Components>,
) -> Seq<PathEntryV>
    decreases ws.len(),
{
    if ws.len() == 0 {
        Seq::empty()
    } else {
        let (n, it) = ws.last();
        webhook_entries31(ws.drop_last(), root, schemas, comps).push(
            entry31(
                n@,
                it.operations@,
                PathKind::Webhook,
                schemas,
                comps,
                extra_of(root, "webhooks"@, n@),
                query_of(root, "webhooks"@, n@),
            ),
        )
    }
}

/// The component schemas of the document tree, against which `$ref`s in
/// schema trees are expanded.
pub open spec fn schemas_of(root: YamlV) -> Option<YamlV> {
    get_opt(get(root, "components"@), "schemas"@)
}

/// The description of an OpenAPI 3.1 or 3.2 document.
pub open spec fn spec31(file_path: Seq<char>, doc: Api3Document, root: YamlV) -> SpecV {
    let schemas = schemas_of(root);
    SpecV {
        file_path,
        openapi_version: doc.openapi@,
        title: doc.title@,
        version: doc.version@,
        description: or_empty(opt_view(doc.description)),
        paths: path_entries31(doc.paths@, root, schemas, doc.components) + webhook_entries31(
            doc.webhooks@,
            root,
            schemas,
            doc.components,
        ),
    }
}

pub fn convert_operation(method: String, op: &Api3Operation, schemas: Option<&Yaml>, comps: Option<&Api3Components>) -> (r: Operation)
    ensures
        operation_v(r) == op31(method@, *op, opt_yv(schemas), opt_comps(comps)),
{
    let params = convert_params(&op.parameters, comps);
    let request_body = match &op.request_body {
        Some(br) => Some(resolve_request_body(br, schemas, comps)),
        None => None,
    };
    let responses = match &op.responses {
        Some(rs) => convert_responses(rs, schemas, comps),
        None => Vec::new(),
    };
    let tags = copy_strs(&op.tags);
    let r = Operation {
        method,
        summary: op.summary.clone(),
        description: op.description.clone(),
        operation_id: op.operation_id.clone(),
        tags,
        deprecated: match op.deprecated {
            Some(b) => b,
            None => false,
        },
        params,
        request_body,
        responses,
    };
    proof {
        assert(operation_v(r).responses =~= op31(method@, *op, opt_yv(schemas), opt_comps(comps)).responses);
    }
    r
}

pub fn copy_strs(v: &Vec<String>) -> (r: Vec<String>)
    ensures
        strs_v(r@) == strs_v(v@),
{
    let mut r: Vec<String> = Vec::new();
    let n = v.len();
    for i in 0..n
        invariant
            n == v@.len(),
            r@.len() == i,
            forall|k: int| 0 <= k < i ==> (#[trigger] r@[k])@ == v@[k]@,
    {
        r.push(v[i].clone());
    }
    assert(strs_v(r@) =~= strs_v(v@));
    r
}

fn extra_ops_exec(extra: Option<&Yaml>, schemas: Option<&Yaml>, out: &mut Vec<Operation>)
    ensures
        final(out)@.map_values(|o: Operation| operation_v(o)) == old(out)@.map_values(|o: Operation| operation_v(o))
            + extra_ops(opt_yv(extra), opt_yv(schemas)),
{
    match extra {
        Some(Yaml::Mapping(m)) => {
            proof {
                lemma_yv_map(m@);
            }
            let ghost mv = yv_map(m@);
            let ghost start = old(out)@.map_values(|o: Operation| operation_v(o));
            let n = m.len();
            for i in 0..n
                invariant
                    n == m@.len(),
                    mv == yv_map(m@),
                    mv.len() == n,
                    forall|k: int| 0 <= k < n ==> #[trigger] mv[k] == (yv(m@[k].0), yv(m@[k].1)),
                    out@.map_values(|o: Operation| operation_v(o)) == start + raw_ops(mv.take(i as int), opt_yv(schemas)),
            {
                proof {
                    assert(mv.take(i + 1).drop_last() =~= mv.take(i as int));
                }
                match &m[i].0 {
                    Yaml::Str(k) => {
                        let method = to_uppercase(k.as_str());
                        match parse_raw_operation(method, &m[i].1, schemas) {
                            Some(o) => {
                                let ghost before = out@;
                                let ghost ov = operation_v(o);
                                out.push(o);
                                proof {
                                    assert(out@.map_values(|o: Operation| operation_v(o)) =~= before.map_values(|o: Operation| operation_v(o)).push(ov));
                                }
                            },
                            None => {},
                        }
                    },
                    _ => {},
                }
            }
            assert(mv.take(n as int) =~= mv);
        },
        _ => {
            assert(old(out)@.map_values(|o: Operation| operation_v(o)) + Seq::<OperationV>::empty() =~= old(out)@.map_values(|o: Operation| operation_v(o)));
        },
    }
}

/// One path item (or webhook) with its typed operations followed by its
/// `additionalOperations` and the operation of its `query` field.
pub fn convert_path_entry(
    path: String,
    ops: &Vec<(String, Api3Operation)>,
    kind: PathKind,
    schemas: Option<&Yaml>,
    comps: Option<&Api3Components>,
    extra: Option<&Yaml>,
    query: Option<&Yaml>,
) -> (r: PathEntry)
    ensures
        entry_v(r) == entry31(path@, ops@, kind, opt_yv(schemas), opt_comps(comps), opt_yv(extra), opt_yv(query)),
{
    let mut operations: Vec<Operation> = Vec::new();
    let n = ops.len();
    for i in 0..n
        invariant
            n == ops@.len(),
            operations@.map_values(|o: Operation| operation_v(o)) == typed_ops31(ops@.take(i as int), opt_yv(schemas), opt_comps(comps)),
    {
        proof {
            assert(ops@.take(i + 1).drop_last() =~= ops@.take(i as int));
        }
        let method = to_uppercase(ops[i].0.as_str());
        let o = convert_operation(method, &ops[i].1, schemas, comps);
        let ghost before = operations@;
        let ghost ov = operation_v(o);
        operations.push(o);
        proof {
            assert(operations@.map_values(|o: Operation| operation_v(o)) =~= before.map_values(|o: Operation| operation_v(o)).push(ov));
        }
    }
    assert(ops@.take(n as int) =~= ops@);
    extra_ops_exec(extra, schemas, &mut operations);
    let ghost mid = operations@.map_values(|o: Operation| operation_v(o));
    match query {
        Some(q) => match parse_raw_operation("QUERY".to_string(), q, schemas) {
            Some(o) => {
                let ghost ov = operation_v(o);
                operations.push(o);
                proof {
                    assert(operations@.map_values(|o: Operation| operation_v(o)) =~= mid.push(ov));
                }
            },
            None => {},
        },
        None => {},
    }
    proof {
        reveal_strlit("QUERY");
        assert(mid + query_ops(opt_yv(query), opt_yv(schemas)) =~= operations@.map_values(|o: Operation| operation_v(o)));
    }
    PathEntry { path, kind, operations }
}

/// Converts an OpenAPI 3.1 or 3.2 document into a [`Spec`], given its typed
/// form and its document tree.
pub fn parse(file_path: String, doc: &Api3Document, root: &Yaml) -> (r: Spec)
    ensures
        spec_v(r) == spec31(file_path@, *doc, yv(*root)),
{
    let schemas = get_opt_key(get_key(root, "components"), "schemas");
    let comps = match &doc.components {
        Some(c) => Some(c),
        None => None,
    };
    let ghost sch = opt_yv(schemas);
    let mut paths: Vec<PathEntry> = Vec::new();
    let n = doc.paths.len();
    let paths_tree = get_key(root, "paths");
    for i in 0..n
        invariant
            n == doc.paths@.len(),
            sch == opt_yv(schemas),
            sch == schemas_of(yv(*root)),
            opt_comps(comps) == doc.components,
            opt_yv(paths_tree) == get(yv(*root), "paths"@),
            paths@.map_values(|e: PathEntry| entry_v(e)) == path_entries31(doc.paths@.take(i as int), yv(*root), sch, doc.components),
    {
        proof {
            assert(doc.paths@.take(i + 1).drop_last() =~= doc.paths@.take(i as int));
        }
        let empty: Vec<(String, Api3Operation)> = Vec::new();
        let ops: &Vec<(String, Api3Operation)> = match &doc.paths[i].1 {
            PathItemRef::Item(it) => &it.operations,
            PathItemRef::Reference(_) => &empty,
        };
        let item_tree = get_opt_key(paths_tree, doc.paths[i].0.as_str());
        let extra = get_opt_key(item_tree, "additionalOperations");
        let query = get_opt_key(item_tree, "query");
        let e = convert_path_entry(doc.paths[i].0.clone(), ops, PathKind::Path, schemas, comps, extra, query);
        let ghost before = paths@;
        let ghost ev = entry_v(e);
        paths.push(e);
        proof {
            assert(paths@.map_values(|e: PathEntry| entry_v(e)) =~= before.map_values(|e: PathEntry| entry_v(e)).push(ev));
        }
    }
    assert(doc.paths@.take(n as int) =~= doc.paths@);
    let ghost first = paths@.map_values(|e: PathEntry| entry_v(e));
    let m = doc.webhooks.len();
    let hooks_tree = get_key(root, "webhooks");
    for j in 0..m
        invariant
            m == doc.webhooks@.len(),
            sch == opt_yv(schemas),
            opt_comps(comps) == doc.components,
            opt_yv(hooks_tree) == get(yv(*root), "webhooks"@),
            paths@.map_values(|e: PathEntry| entry_v(e)) == first + webhook_entries31(doc.webhooks@.take(j as int), yv(*root), sch, doc.components),
    {
        proof {
            assert(doc.webhooks@.take(j + 1).drop_last() =~= doc.webhooks@.take(j as int));
        }
        let item_tree = get_opt_key(hooks_tree, doc.webhooks[j].0.as_str());
        let extra = get_opt_key(item_tree, "additionalOperations");
        let query = get_opt_key(item_tree, "query");
        let e = convert_path_entry(
            doc.webhooks[j].0.clone(),
            &doc.webhooks[j].1.operations,
            PathKind::Webhook,
            schemas,
            comps,
            extra,
            query,
        );
        let ghost before = paths@;
        let ghost ev = entry_v(e);
        paths.push(e);
        proof {
            assert(paths@.map_values(|e: PathEntry| entry_v(e)) =~= before.map_values(|e: PathEntry| entry_v(e)).push(ev));
        }
    }
    assert(doc.webhooks@.take(m as int) =~= doc.webhooks@);
    let description = match &doc.description {
        Some(d) => d.clone(),
        None => String::new(),
    };
    let r = Spec {
        file_path,
        openapi_version: doc.openapi.clone(),
        title: doc.title.clone(),
        version: doc.version.clone(),
        description,
        paths,
    };
    r
}

// ─── Laws ────────────────────────────────────────────────────────────────────

/// An inline parameter keeps its name and is required exactly when it says
/// `required: true`; an absent `required` means optional.
pub proof fn lemma_param_required_as_declared(p: Api3Param, comps: Option<Api3Components>)
    ensures
        param31(p, comps).name == p.name@,
        param31(p, comps).required <==> p.required == Some(true),
        p.required is None ==> !param31(p, comps).required,
{
}

/// A list of inline parameters gives one parameter each, in order, each
/// with its own name and required exactly when it says `required: true`.
pub proof fn lemma_inline_params_required_as_declared(ps: Seq<ParamRef>, comps: Option<Api3Components>)
    requires
        forall|i: int| 0 <= i < ps.len() ==> #[trigger] ps[i] is Item,
    ensures
        params31(ps, comps).len() == ps.len(),
        forall|i: int|
            0 <= i < ps.len() ==> (#[trigger] params31(ps, comps)[i]).name == ps[i]->Item_0.name@
                && (params31(ps, comps)[i].required <==> ps[i]->Item_0.required == Some(true)),
    decreases ps.len(),
{
    if ps.len() > 0 {
        let prev = ps.drop_last();
        assert forall|i: int| 0 <= i < prev.len() implies #[trigger] prev[i] is Item by {
            assert(prev[i] == ps[i]);
        }
        lemma_inline_params_required_as_declared(prev, comps);
        assert(ps[ps.len() - 1] is Item);
        assert forall|i: int| 0 <= i < ps.len() implies (#[trigger] params31(ps, comps)[i]).name
            == ps[i]->Item_0.name@ && (params31(ps, comps)[i].required <==> ps[i]->Item_0.required == Some(
            true,
        )) by {
            if i < prev.len() {
                assert(prev[i] == ps[i]);
            }
        }
    }
}

} // verus!
