//! OpenAPI 3.0 documents.
use vstd::prelude::*;

use crate::api3::{
    Api3Body, Api3Components, Api3Document, Api3Operation, Api3Param, Api3Response, Api3Schema,
    BodyRef, ParamRef, PathItemRef, ResponseRef, SchemaRef, Shape,
};
use crate::model::{
    body_v, entry_v, fields_v, operation_v, opt_view, param_v, response_v, spec_v, strs_v, sv,
    BodyField, Operation, OperationV, Param, ParamV, PathEntry, PathEntryV, PathKind, RequestBody,
    RequestBodyV, Response, ResponseV, SchemaNode, SchemaV, Spec, SpecV,
};
use crate::openapi31::{
    after_prefix, chosen_schema, chosen_schema_exec, lemma_named_pos, location_name, location_text,
    named_index, named_pos, opt_comps, opt_or_false, property_fields, schemas_of,
    strip_prefix_exec, tree_of_value, trimmed_desc, trimmed_desc_exec,
};
use crate::schema::{noise_keys, resolve, strip, to_schema, views};
use crate::swagger::or_empty;
use crate::text::{str_eq, to_uppercase, uppercase_of};
use crate::yaml::{get, get_key, get_opt, get_opt_key, opt_yv, yv, Yaml, YamlV};

verus! {

// ─── Request-body fields ─────────────────────────────────────────────────────

/// How many component schemas are not in `visited`.
pub open spec fn unvisited_names(s: Seq<(String, SchemaRef)>, visited: Seq<Seq<char>>) -> nat
    decreases s.len(),
{
    if s.len() == 0 {
        0
    } else {
        unvisited_names(s.drop_last(), visited) + if visited.contains(s.last().0@) {
            0nat
        } else {
            1nat
        }
    }
}

pub open spec fn name_budget(comps: Option<Api3Components>, visited: Seq<Seq<char>>) -> nat {
    match comps {
        Some(c) => unvisited_names(c.schemas@, visited),
        None => 0,
    }
}

pub proof fn lemma_name_budget(s: Seq<(String, SchemaRef)>, visited: Seq<Seq<char>>, name: Seq<char>)
    requires
        !visited.contains(name),
    ensures
        unvisited_names(s, visited.push(name)) <= unvisited_names(s, visited),
        named_pos(s, name) >= 0 ==> unvisited_names(s, visited.push(name)) < unvisited_names(s, visited),
    decreases s.len(),
{
    if s.len() > 0 {
        lemma_name_budget(s.drop_last(), visited, name);
        let k = s.last().0@;
        if visited.contains(k) {
            let i = choose|i: int| 0 <= i < visited.len() && visited[i] == k;
            assert(visited.push(name)[i] == k);
        }
        if k == name {
            assert(visited.push(name)[visited.len() as int] == name);
        }
        if visited.push(name).contains(k) && k != name {
            let i = choose|i: int| 0 <= i < visited.push(name).len() && visited.push(name)[i] == k;
            assert(visited[i] == k);
        }
    }
}

/// `[]` prepended to every field name (the fields of array items).
pub open spec fn prefixed(f: Option<Seq<Seq<char>>>) -> Option<Seq<Seq<char>>> {
    match f {
        Some(names) => Some(names.map_values(|n: Seq<char>| seq!['[', ']'] + n)),
        None => None,
    }
}

/// The top-level field names of a request-body schema: an object's
/// properties, an array's item fields prefixed with `[]`, the fields of the
/// first `allOf` member.  `None` when the extraction would follow `$ref`s
/// round a cycle forever; `visited` holds the component schemas entered.
pub open spec fn fields30(sr: SchemaRef, comps: Option<Api3Components>, visited: Seq<Seq<char>>) -> Option<
    Seq<Seq<char>>,
>
    decreases name_budget(comps, visited), sr, 1nat,
{
    match sr {
        SchemaRef::Item(b) => shape_fields30(*b, comps, visited),
        SchemaRef::Reference(r) => match (after_prefix(r@, "#/components/schemas/"@), comps) {
            (Some(name), Some(c)) => {
                let k = named_pos(c.schemas@, name);
                if k >= 0 {
                    match c.schemas@[k].1 {
                        SchemaRef::Item(b) => if visited.contains(name) {
                            None
                        } else {
                            proof {
                                lemma_name_budget(c.schemas@, visited, name);
                            }
                            shape_fields30(*b, comps, visited.push(name))
                        },
                        SchemaRef::Reference(_) => Some(Seq::empty()),
                    }
                } else {
                    Some(Seq::empty())
                }
            },
            _ => Some(Seq::empty()),
        },
    }
}

pub open spec fn shape_fields30(s: Api3Schema, comps: Option<Api3Components>, visited: Seq<Seq<char>>) -> Option<
    Seq<Seq<char>>,
>
    decreases name_budget(comps, visited), s, 0nat,
{
    match s.shape {
        Shape::Array(Some(items)) => prefixed(fields30(items, comps, visited)),
        Shape::Array(None) => Some(Seq::empty()),
        Shape::Object => Some(strs_v(s.properties@)),
        Shape::AllOf(v) => if v@.len() > 0 {
            fields30(v@[0], comps, visited)
        } else {
            Some(Seq::empty())
        },
        Shape::Untyped(t, Some(items)) => if says_array(t) {
            prefixed(fields30(items, comps, visited))
        } else {
            Some(strs_v(s.properties@))
        },
        Shape::Untyped(t, None) => if says_array(t) {
            Some(Seq::empty())
        } else {
            Some(strs_v(s.properties@))
        },
        Shape::Scalar | Shape::OneOf | Shape::AnyOf | Shape::Not | Shape::Other => Some(Seq::empty()),
    }
}

/// An untyped schema's `type` text declares an array.
pub open spec fn says_array(t: Option<String>) -> bool {
    match t {
        Some(x) => x@ == "array"@,
        None => false,
    }
}

pub open spec fn fields_v_opt(r: Option<Vec<BodyField>>) -> Option<Seq<Seq<char>>> {
    match r {
        Some(v) => Some(fields_v(v@)),
        None => None,
    }
}

fn prefix_fields(f: Vec<BodyField>) -> (r: Vec<BodyField>)
    ensures
        fields_v(r@) == fields_v(f@).map_values(|n: Seq<char>| seq!['[', ']'] + n),
{
    let mut r: Vec<BodyField> = Vec::new();
    let n = f.len();
    for i in 0..n
        invariant
            n == f@.len(),
            r@.len() == i,
            forall|k: int| 0 <= k < i ==> (#[trigger] r@[k]).name@ == seq!['[', ']'] + f@[k].name@,
    {
        let mut name = "[]".to_owned();
        name.append(f[i].name.as_str());
        proof {
            reveal_strlit("[]");
            assert("[]"@ =~= seq!['[', ']']);
        }
        r.push(BodyField { name });
    }
    assert(fields_v(r@) =~= fields_v(f@).map_values(|n: Seq<char>| seq!['[', ']'] + n));
    r
}

fn contains_name(v: &Vec<String>, s: &String) -> (b: bool)
    ensures
        b == views(v@).contains(s@),
{
    crate::schema::contains_str(v, s.as_str())
}

/// The field names of a request-body schema; `None` when the extraction
/// would go round a `$ref` cycle forever.
pub fn extract_fields(sr: &SchemaRef, comps: Option<&Api3Components>, visited: &Vec<String>) -> (r: Option<Vec<BodyField>>)
    ensures
        fields_v_opt(r) == fields30(*sr, opt_comps(comps), views(visited@)),
    decreases name_budget(opt_comps(comps), views(visited@)), *sr, 1nat,
{
    match sr {
        SchemaRef::Item(b) => shape_fields(&**b, comps, visited),
        SchemaRef::Reference(r) => {
            proof {
                assert(fields_v(Seq::<BodyField>::empty()) =~= Seq::<Seq<char>>::empty());
            }
            let name = match strip_prefix_exec(r.as_str(), "#/components/schemas/") {
                Some(n) => n,
                None => return Some(Vec::new()),
            };
            let c = match comps {
                Some(c) => c,
                None => return Some(Vec::new()),
            };
            proof {
                lemma_named_pos(c.schemas@, name@);
            }
            match named_index(&c.schemas, name.as_str()) {
                Some(k) => match &c.schemas[k].1 {
                    SchemaRef::Item(b) => {
                        if contains_name(visited, &name) {
                            return None;
                        }
                        let mut v2 = crate::schema::copy_strings(visited);
                        v2.push(name);
                        proof {
                            assert(views(v2@) =~= views(visited@).push(name@));
                            lemma_name_budget(c.schemas@, views(visited@), name@);
                        }
                        shape_fields(&**b, comps, &v2)
                    },
                    SchemaRef::Reference(_) => Some(Vec::new()),
                },
                None => Some(Vec::new()),
            }
        },
    }
}

fn shape_fields(s: &Api3Schema, comps: Option<&Api3Components>, visited: &Vec<String>) -> (r: Option<Vec<BodyField>>)
    ensures
        fields_v_opt(r) == shape_fields30(*s, opt_comps(comps), views(visited@)),
    decreases name_budget(opt_comps(comps), views(visited@)), *s, 0nat,
{
    proof {
        assert(fields_v(Seq::<BodyField>::empty()) =~= Seq::<Seq<char>>::empty());
    }
    match &s.shape {
        Shape::Array(Some(items)) => match extract_fields(items, comps, visited) {
            Some(f) => Some(prefix_fields(f)),
            None => None,
        },
        Shape::Array(None) => Some(Vec::new()),
        Shape::Object => Some(property_fields(s)),
        Shape::AllOf(v) => if v.len() > 0 {
            extract_fields(&v[0], comps, visited)
        } else {
            Some(Vec::new())
        },
        Shape::Untyped(t, items) => {
            let array = match t {
                Some(x) => str_eq(x.as_str(), "array"),
                None => false,
            };
            if array {
                match items {
                    Some(i) => match extract_fields(i, comps, visited) {
                        Some(f) => Some(prefix_fields(f)),
                        None => None,
                    },
                    None => Some(Vec::new()),
                }
            } else {
                Some(property_fields(s))
            }
        },
        Shape::Scalar | Shape::OneOf | Shape::AnyOf | Shape::Not | Shape::Other => Some(Vec::new()),
    }
}

// ─── Schema trees ────────────────────────────────────────────────────────────

/// The schema tree of a request body: a `$ref` is looked up in the
/// component schemas of the document tree and labelled by its name; an
/// inline schema is labelled `body`.
pub open spec fn tree30(sr: SchemaRef, schemas: Option<YamlV>) -> Option<SchemaV> {
    let base = match sr {
        SchemaRef::Reference(r) => match after_prefix(r@, "#/components/schemas/"@) {
            Some(name) => match get_opt(schemas, name) {
                Some(v) => Some((name, v)),
                None => None,
            },
            None => None,
        },
        SchemaRef::Item(b) => match b.value {
            Some(v) => Some(("body"@, yv(v))),
            None => None,
        },
    };
    match base {
        Some((label, v)) => Some(
            to_schema(
                label,
                strip(resolve(v, schemas, "#/components/schemas/"@, Seq::empty()), noise_keys(false)),
                Seq::empty(),
            ),
        ),
        None => None,
    }
}

pub fn build_schema_tree(sr: &SchemaRef, schemas: Option<&Yaml>) -> (r: Option<SchemaNode>)
    ensures
        match r {
            Some(n) => tree30(*sr, opt_yv(schemas)) == Some(sv(n)),
            None => tree30(*sr, opt_yv(schemas)) is None,
        },
{
    match sr {
        SchemaRef::Reference(r) => {
            let name = match strip_prefix_exec(r.as_str(), "#/components/schemas/") {
                Some(n) => n,
                None => return None,
            };
            match get_opt_key(schemas, name.as_str()) {
                Some(v) => Some(tree_of_value(name, v, schemas)),
                None => None,
            }
        },
        SchemaRef::Item(b) => match &b.value {
            Some(v) => Some(tree_of_value("body".to_owned(), v, schemas)),
            None => None,
        },
    }
}

// ─── Operations ──────────────────────────────────────────────────────────────

pub open spec fn param30(pr: ParamRef) -> Option<ParamV> {
    match pr {
        ParamRef::Item(p) => Some(
            ParamV {
                name: p.name@,
                location: location_name(p.location),
                required: opt_or_false(p.required),
                description: opt_view(p.description),
                schema_type: None,
                deprecated: false,
            },
        ),
        ParamRef::Reference(_) => None,
    }
}

pub open spec fn params30(ps: Seq<ParamRef>) -> Seq<ParamV>
    decreases ps.len(),
{
    if ps.len() == 0 {
        Seq::empty()
    } else {
        match param30(ps.last()) {
            Some(p) => params30(ps.drop_last()).push(p),
            None => params30(ps.drop_last()),
        }
    }
}

pub open spec fn response30(code: Seq<char>, rr: ResponseRef) -> ResponseV {
    ResponseV {
        code,
        description: match rr {
            ResponseRef::Item(r) => trimmed_desc(r.description),
            ResponseRef::Reference(_) => None,
        },
        schema_tree: None,
    }
}

pub open spec fn responses30(rs: Seq<(String, ResponseRef)>) -> Seq<ResponseV>
    decreases rs.len(),
{
    if rs.len() == 0 {
        Seq::empty()
    } else {
        responses30(rs.drop_last()).push(response30(rs.last().0@, rs.last().1))
    }
}

/// The fields of a request body's schema (`None` on a `$ref` cycle).
pub open spec fn body_fields30(b: Api3Body, comps: Option<Api3Components>) -> Option<Seq<Seq<char>>> {
    match chosen_schema(b.content@) {
        Some(sr) => fields30(sr, comps, Seq::empty()),
        None => Some(Seq::empty()),
    }
}

/// A request body; a `$ref` is shown as its text.
pub open spec fn body30(br: BodyRef, comps: Option<Api3Components>, schemas: Option<YamlV>) -> RequestBodyV {
    match br {
        BodyRef::Reference(r) => RequestBodyV {
            description: Some("$ref: "@ + r@),
            required: false,
            fields: Seq::empty(),
            schema_tree: None,
        },
        BodyRef::Item(b) => RequestBodyV {
            description: opt_view(b.description),
            required: opt_or_false(b.required),
            fields: match body_fields30(b, comps) {
                Some(f) => f,
                None => Seq::empty(),
            },
            schema_tree: match chosen_schema(b.content@) {
                Some(sr) => tree30(sr, schemas),
                None => None,
            },
        },
    }
}

/// Whether extracting the fields of a request body loops on a `$ref` cycle.
pub open spec fn body_cycles(br: Option<BodyRef>, comps: Option<Api3Components>) -> bool {
    match br {
        Some(BodyRef::Item(b)) => body_fields30(b, comps) is None,
        _ => false,
    }
}

pub open spec fn op30(method: Seq<char>, op: Api3Operation, comps: Option<Api3Components>, schemas: Option<YamlV>) -> OperationV {
    OperationV {
        method,
        summary: opt_view(op.summary),
        description: opt_view(op.description),
        operation_id: opt_view(op.operation_id),
        tags: Seq::empty(),
        deprecated: false,
        params: params30(op.parameters@),
        request_body: match op.request_body {
            Some(br) => Some(body30(br, comps, schemas)),
            None => None,
        },
        responses: match op.responses {
            Some(rs) => responses30(rs@),
            None => Seq::empty(),
        },
    }
}

pub open spec fn ops30(ops: Seq<(String, Api3Operation)>, comps: Option<Api3Components>, schemas: Option<YamlV>) -> Seq<
    OperationV,
>
    decreases ops.len(),
{
    if ops.len() == 0 {
        Seq::empty()
    } else {
        ops30(ops.drop_last(), comps, schemas).push(
            op30(uppercase_of(ops.last().0@), ops.last().1, comps, schemas),
        )
    }
}

pub open spec fn ops_cycle(ops: Seq<(String, Api3Operation)>, comps: Option<Api3Components>) -> bool {
    exists|i: int| 0 <= i < ops.len() && body_cycles(#[trigger] ops[i].1.request_body, comps)
}

pub open spec fn item_ops30(pi: PathItemRef) -> Seq<(String, Api3Operation)> {
    match pi {
        PathItemRef::Item(i) => i.operations@,
        PathItemRef::Reference(_) => Seq::empty(),
    }
}

pub open spec fn entries30(ps: Seq<(String, PathItemRef)>, comps: Option<Api3Components>, schemas: Option<YamlV>) -> Seq<
    PathEntryV,
>
    decreases ps.len(),
{
    if ps.len() == 0 {
        Seq::empty()
    } else {
        entries30(ps.drop_last(), comps, schemas).push(
            PathEntryV {
                path: ps.last().0@,
                kind: PathKind::Path,
                operations: ops30(item_ops30(ps.last().1), comps, schemas),
            },
        )
    }
}

/// Whether field extraction of some request body of the document loops on
/// a `$ref` cycle.
pub open spec fn doc_cycles(doc: Api3Document) -> bool {
    exists|i: int| 0 <= i < doc.paths@.len() && ops_cycle(item_ops30(#[trigger] doc.paths@[i].1), doc.components)
}

/// The description of an OpenAPI 3.0 document.
pub open spec fn spec30(file_path: Seq<char>, doc: Api3Document, root: YamlV) -> SpecV {
    SpecV {
        file_path,
        openapi_version: doc.openapi@,
        title: doc.title@,
        version: doc.version@,
        description: or_empty(opt_view(doc.description)),
        paths: entries30(doc.paths@, doc.components, schemas_of(root)),
    }
}

fn convert_params(ps: &Vec<ParamRef>) -> (r: Vec<Param>)
    ensures
        r@.map_values(|p: Param| param_v(p)) == params30(ps@),
{
    let mut r: Vec<Param> = Vec::new();
    let n = ps.len();
    for i in 0..n
        invariant
            n == ps@.len(),
            r@.map_values(|p: Param| param_v(p)) == params30(ps@.take(i as int)),
    {
        proof {
            assert(ps@.take(i + 1).drop_last() =~= ps@.take(i as int));
        }
        match &ps[i] {
            ParamRef::Item(p) => {
                let x = Param {
                    name: p.name.clone(),
                    location: location_text(p.location),
                    required: match p.required {
                        Some(b) => b,
                        None => false,
                    },
                    description: p.description.clone(),
                    schema_type: None,
                    deprecated: false,
                };
                let ghost before = r@;
                let ghost xv = param_v(x);
                r.push(x);
                proof {
                    assert(r@.map_values(|p: Param| param_v(p)) =~= before.map_values(|p: Param| param_v(p)).push(xv));
                }
            },
            ParamRef::Reference(_) => {},
        }
    }
    assert(ps@.take(n as int) =~= ps@);
    r
}

fn convert_responses(rs: &Vec<(String, ResponseRef)>) -> (r: Vec<Response>)
    ensures
        r@.map_values(|x: Response| response_v(x)) == responses30(rs@),
{
    let mut r: Vec<Response> = Vec::new();
    let n = rs.len();
    for i in 0..n
        invariant
            n == rs@.len(),
            r@.map_values(|x: Response| response_v(x)) == responses30(rs@.take(i as int)),
    {
        proof {
            assert(rs@.take(i + 1).drop_last() =~= rs@.take(i as int));
        }
        let description = match &rs[i].1 {
            ResponseRef::Item(resp) => trimmed_desc_exec(&resp.description),
            ResponseRef::Reference(_) => None,
        };
        let x = Response { code: rs[i].0.clone(), description, schema_tree: None };
        let ghost before = r@;
        let ghost xv = response_v(x);
        r.push(x);
        proof {
            assert(r@.map_values(|x: Response| response_v(x)) =~= before.map_values(|x: Response| response_v(x)).push(xv));
        }
    }
    assert(rs@.take(n as int) =~= rs@);
    r
}

/// A request body; `None` when its field extraction would loop on a `$ref`
/// cycle.
pub fn resolve_request_body(br: &BodyRef, comps: Option<&Api3Components>, schemas: Option<&Yaml>) -> (r: Option<
    RequestBody,
>)
    ensures
        r is None <==> body_cycles(Some(*br), opt_comps(comps)),
        match r {
            Some(b) => body_v(b) == body30(*br, opt_comps(comps), opt_yv(schemas)),
            None => true,
        },
{
    match br {
        BodyRef::Reference(r) => {
            let mut d = "$ref: ".to_owned();
            d.append(r.as_str());
            proof {
                assert(fields_v(Seq::<BodyField>::empty()) =~= Seq::<Seq<char>>::empty());
            }
            Some(RequestBody { description: Some(d), required: false, fields: Vec::new(), schema_tree: None })
        },
        BodyRef::Item(b) => {
            let sr = chosen_schema_exec(&b.content);
            let fields = match sr {
                Some(sr) => {
                    let none: Vec<String> = Vec::new();
                    assert(views(none@) =~= Seq::<Seq<char>>::empty());
                    match extract_fields(sr, comps, &none) {
                        Some(f) => f,
                        None => return None,
                    }
                },
                None => Vec::new(),
            };
            let schema_tree = match sr {
                Some(sr) => build_schema_tree(sr, schemas),
                None => None,
            };
            proof {
                assert(fields_v(Seq::<BodyField>::empty()) =~= Seq::<Seq<char>>::empty());
            }
            Some(
                RequestBody {
                    description: b.description.clone(),
                    required: match b.required {
                        Some(x) => x,
                        None => false,
                    },
                    fields,
                    schema_tree,
                },
            )
        },
    }
}

/// One operation; `None` when its request body's field extraction would
/// loop on a `$ref` cycle.
pub fn convert_operation(method: String, op: &Api3Operation, comps: Option<&Api3Components>, schemas: Option<&Yaml>) -> (r: Option<
    Operation,
>)
    ensures
        r is None <==> body_cycles(op.request_body, opt_comps(comps)),
        match r {
            Some(o) => operation_v(o) == op30(method@, *op, opt_comps(comps), opt_yv(schemas)),
            None => true,
        },
{
    let request_body = match &op.request_body {
        Some(br) => match resolve_request_body(br, comps, schemas) {
            Some(b) => Some(b),
            None => return None,
        },
        None => None,
    };
    let params = convert_params(&op.parameters);
    let responses = match &op.responses {
        Some(rs) => convert_responses(rs),
        None => Vec::new(),
    };
    let o = Operation {
        method,
        summary: op.summary.clone(),
        description: op.description.clone(),
        operation_id: op.operation_id.clone(),
        tags: Vec::new(),
        deprecated: false,
        params,
        request_body,
        responses,
    };
    proof {
        assert(operation_v(o).responses =~= op30(method@, *op, opt_comps(comps), opt_yv(schemas)).responses);
        assert(operation_v(o).tags =~= Seq::<Seq<char>>::empty());
    }
    Some(o)
}

/// Converts an OpenAPI 3.0 document into a [`Spec`], given its typed form
/// and its document tree; `None` when extracting the fields of some request
/// body would loop on a `$ref` cycle.
pub fn parse_checked(file_path: String, doc: &Api3Document, root: &Yaml) -> (r: Option<Spec>)
    ensures
        r is None <==> doc_cycles(*doc),
        match r {
            Some(s) => spec_v(s) == spec30(file_path@, *doc, yv(*root)),
            None => true,
        },
{
    let schemas = get_opt_key(get_key(root, "components"), "schemas");
    let comps = match &doc.components {
        Some(c) => Some(c),
        None => None,
    };
    let mut paths: Vec<PathEntry> = Vec::new();
    let n = doc.paths.len();
    for i in 0..n
        invariant
            n == doc.paths@.len(),
            opt_yv(schemas) == schemas_of(yv(*root)),
            opt_comps(comps) == doc.components,
            paths@.map_values(|e: PathEntry| entry_v(e)) == entries30(doc.paths@.take(i as int), doc.components, schemas_of(yv(*root))),
            forall|j: int| 0 <= j < i ==> !ops_cycle(item_ops30(#[trigger] doc.paths@[j].1), doc.components),
    {
        proof {
            assert(doc.paths@.take(i + 1).drop_last() =~= doc.paths@.take(i as int));
        }
        let empty: Vec<(String, Api3Operation)> = Vec::new();
        let ops: &Vec<(String, Api3Operation)> = match &doc.paths[i].1 {
            PathItemRef::Item(it) => &it.operations,
            PathItemRef::Reference(_) => &empty,
        };
        assert(ops@ == item_ops30(doc.paths@[i as int].1));
        let mut operations: Vec<Operation> = Vec::new();
        let m = ops.len();
        for j in 0..m
            invariant
                m == ops@.len(),
                i < doc.paths@.len(),
                ops@ == item_ops30(doc.paths@[i as int].1),
                opt_comps(comps) == doc.components,
                operations@.map_values(|o: Operation| operation_v(o)) == ops30(ops@.take(j as int), doc.components, opt_yv(schemas)),
                forall|k: int| 0 <= k < j ==> !body_cycles(#[trigger] ops@[k].1.request_body, doc.components),
        {
            proof {
                assert(ops@.take(j + 1).drop_last() =~= ops@.take(j as int));
            }
            let method = to_uppercase(ops[j].0.as_str());
            match convert_operation(method, &ops[j].1, comps, schemas) {
                Some(o) => {
                    let ghost before = operations@;
                    let ghost ov = operation_v(o);
                    operations.push(o);
                    proof {
                        assert(operations@.map_values(|o: Operation| operation_v(o)) =~= before.map_values(|o: Operation| operation_v(o)).push(ov));
                    }
                },
                None => {
                    proof {
                        assert(body_cycles(ops@[j as int].1.request_body, doc.components));
                        assert(ops_cycle(item_ops30(doc.paths@[i as int].1), doc.components));
                        assert(doc_cycles(*doc));
                    }
                    return None;
                },
            }
        }
        assert(ops@.take(m as int) =~= ops@);
        let e = PathEntry { path: doc.paths[i].0.clone(), kind: PathKind::Path, operations };
        let ghost before = paths@;
        let ghost ev = entry_v(e);
        paths.push(e);
        proof {
            assert(paths@.map_values(|e: PathEntry| entry_v(e)) =~= before.map_values(|e: PathEntry| entry_v(e)).push(ev));
            assert(!ops_cycle(ops@, doc.components));
        }
    }
    assert(doc.paths@.take(n as int) =~= doc.paths@);
    let description = match &doc.description {
        Some(d) => d.clone(),
        None => String::new(),
    };
    Some(
        Spec {
            file_path,
            openapi_version: doc.openapi.clone(),
            title: doc.title.clone(),
            version: doc.version.clone(),
            description,
            paths,
        },
    )
}

/// Converts an OpenAPI 3.0 document without `$ref` cycles in its request
/// bodies into a [`Spec`].
pub fn parse(file_path: String, doc: &Api3Document, root: &Yaml) -> (r: Spec)
    requires
        !doc_cycles(*doc),
    ensures
        spec_v(r) == spec30(file_path@, *doc, yv(*root)),
{
    match parse_checked(file_path, doc, root) {
        Some(s) => s,
        None => {
            assert(false);
            Spec {
                file_path: String::new(),
                openapi_version: String::new(),
                title: String::new(),
                version: String::new(),
                description: String::new(),
                paths: Vec::new(),
            }
        },
    }
}

// ─── Laws ────────────────────────────────────────────────────────────────────

/// An `allOf` schema takes its fields from its first member alone: its
/// fields are those of the first member on its own, so two `allOf` schemas
/// with the same first member have the same fields, whatever follows.
pub proof fn lemma_all_of_fields_from_first_member(
    s: Api3Schema,
    t: Api3Schema,
    comps: Option<Api3Components>,
    visited: Seq<Seq<char>>,
)
    requires
        s.shape is AllOf,
        s.shape->AllOf_0@.len() > 0,
        t.shape is AllOf,
        t.shape->AllOf_0@.len() > 0,
        s.shape->AllOf_0@[0] == t.shape->AllOf_0@[0],
    ensures
        fields30(SchemaRef::Item(Box::new(s)), comps, visited) == fields30(s.shape->AllOf_0@[0], comps, visited),
        fields30(SchemaRef::Item(Box::new(s)), comps, visited) == fields30(SchemaRef::Item(Box::new(t)), comps, visited),
{
}

/// An `allOf` whose first member is an inline object has exactly that
/// object's property names as fields.
pub proof fn lemma_all_of_first_object_fields(
    s: Api3Schema,
    first: Api3Schema,
    comps: Option<Api3Components>,
    visited: Seq<Seq<char>>,
)
    requires
        s.shape is AllOf,
        s.shape->AllOf_0@.len() > 0,
        s.shape->AllOf_0@[0] == SchemaRef::Item(Box::new(first)),
        first.shape is Object,
    ensures
        fields30(SchemaRef::Item(Box::new(s)), comps, visited) == Some(strs_v(first.properties@)),
{
    let v = s.shape->AllOf_0@;
    assert(shape_fields30(first, comps, visited) == Some(strs_v(first.properties@)));
    assert(fields30(v[0], comps, visited) == shape_fields30(first, comps, visited));
    assert(shape_fields30(s, comps, visited) == fields30(v[0], comps, visited));
}

/// An inline parameter keeps its name and is required exactly when it says
/// `required: true`; a list of inline parameters gives one each, in order.
pub proof fn lemma_params30_required_as_declared(ps: Seq<ParamRef>)
    requires
        forall|i: int| 0 <= i < ps.len() ==> #[trigger] ps[i] is Item,
    ensures
        params30(ps).len() == ps.len(),
        forall|i: int|
            0 <= i < ps.len() ==> (#[trigger] params30(ps)[i]).name == ps[i]->Item_0.name@
                && (params30(ps)[i].required <==> ps[i]->Item_0.required == Some(true)),
    decreases ps.len(),
{
    if ps.len() > 0 {
        let prev = ps.drop_last();
        assert forall|i: int| 0 <= i < prev.len() implies #[trigger] prev[i] is Item by {
            assert(prev[i] == ps[i]);
        }
        lemma_params30_required_as_declared(prev);
        assert(ps[ps.len() - 1] is Item);
        assert forall|i: int| 0 <= i < ps.len() implies (#[trigger] params30(ps)[i]).name
            == ps[i]->Item_0.name@ && (params30(ps)[i].required <==> ps[i]->Item_0.required == Some(true)) by {
            if i < prev.len() {
                assert(prev[i] == ps[i]);
            }
        }
    }
}

} // verus!
