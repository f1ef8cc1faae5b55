//! Recognising which API description dialect a document is written in.
use vstd::prelude::*;

use crate::text::{
    chars_of, contains, contains_exec, find_char, find_char_exec, lemma_find_char, lines, lines_of,
    slice_chars, starts_with, starts_with_exec, string_of, trim, trim_char, trim_char_chars,
    trim_chars, trim_end_char, trim_end_char_chars,
};

use crate::documents::{openapi30_document, openapi31_document, read_openapi30, read_openapi31};
use crate::model::{spec_v, Spec};
use crate::openapi30::{doc_cycles, parse_checked, spec30};
use crate::openapi31::spec31;
use crate::swagger::sw_spec;
use crate::yaml::{parse_yaml, yaml_of};

verus! {

/// The version declared on one line under the key `key` (`openapi` or
/// `swagger`): YAML `key: "3.1.0"` (quotes optional) or JSON
/// `"key": "3.1.0",` (the trailing comma is cut before the quotes).
pub open spec fn sniff_line(line: Seq<char>, key: Seq<char>) -> Option<Seq<char>> {
    let t = trim(line);
    let yaml_key = key.push(':');
    let json_key = seq!['"'] + key + seq!['"'];
    let yaml_v = trim_char(trim_char(trim(t.skip(yaml_key.len() as int)), '"'), '\'');
    if starts_with(t, yaml_key) && yaml_v.len() > 0 {
        Some(yaml_v)
    } else if contains(t, json_key) && find_char(t, ':') is Some {
        let json_v = trim_char(trim_end_char(trim(t.skip(find_char(t, ':')->0 + 1)), ','), '"');
        if json_v.len() > 0 {
            Some(json_v)
        } else {
            None
        }
    } else {
        None
    }
}

/// The version found on the first line that declares one.
pub open spec fn sniff_lines(ls: Seq<Seq<char>>, key: Seq<char>) -> Option<Seq<char>>
    decreases ls.len(),
{
    if ls.len() == 0 {
        None
    } else {
        match sniff_line(ls[0], key) {
            Some(v) => Some(v),
            None => sniff_lines(ls.drop_first(), key),
        }
    }
}

/// A declared version is never empty.
proof fn lemma_sniffed_nonempty(ls: Seq<Seq<char>>, key: Seq<char>)
    ensures
        sniff_lines(ls, key) matches Some(v) ==> v.len() > 0,
    decreases ls.len(),
{
    if ls.len() > 0 {
        lemma_sniffed_nonempty(ls.drop_first(), key);
    }
}

fn sniff_line_exec(line: &Vec<char>, key: &Vec<char>) -> (r: Option<String>)
    ensures
        match r {
            Some(v) => sniff_line(line@, key@) == Some(v@),
            None => sniff_line(line@, key@) is None,
        },
{
    let t = trim_chars(line);
    let mut yaml_key = key.clone();
    yaml_key.push(':');
    let mut json_key: Vec<char> = Vec::new();
    json_key.push('"');
    let mut k: usize = 0;
    while k < key.len()
        invariant
            k <= key@.len(),
            json_key@ == seq!['"'] + key@.take(k as int),
        decreases key@.len() - k,
    {
        json_key.push(key[k]);
        assert(key@.take(k + 1) =~= key@.take(k as int).push(key@[k as int]));
        k += 1;
    }
    json_key.push('"');
    assert(key@.take(key@.len() as int) =~= key@);
    assert(yaml_key@ =~= key@.push(':'));
    assert(json_key@ =~= seq!['"'] + key@ + seq!['"']);
    if starts_with_exec(&t, &yaml_key) {
        let rest = slice_chars(&t, yaml_key.len(), t.len());
        assert(rest@ =~= t@.skip(yaml_key@.len() as int));
        let v = trim_char_chars(&trim_char_chars(&trim_chars(&rest), '"'), '\'');
        if v.len() > 0 {
            return Some(string_of(&v));
        }
    }
    if contains_exec(&t, &json_key) {
        proof {
            lemma_find_char(t@, ':');
        }
        match find_char_exec(&t, ':') {
            Some(c) => {
                let tn = t.len();
                assert(c < tn);
                let rest = slice_chars(&t, c + 1, tn);
                assert(rest@ =~= t@.skip(c + 1));
                let v = trim_char_chars(&trim_end_char_chars(&trim_chars(&rest), ','), '"');
                if v.len() > 0 {
                    return Some(string_of(&v));
                }
                return None;
            },
            None => {
                return None;
            },
        }
    }
    None
}

fn sniff_key(content: &str, key: &str) -> (r: Option<String>)
    ensures
        match r {
            Some(v) => sniff_lines(lines(content@), key@) == Some(v@),
            None => sniff_lines(lines(content@), key@) is None,
        },
{
    let ls = lines_of(&chars_of(content));
    let k = chars_of(key);
    let n = ls.len();
    let ghost all = lines(content@);
    assert(all.skip(0) =~= all);
    for i in 0..n
        invariant
            n == ls@.len(),
            all == lines(content@),
            ls@.len() == all.len(),
            forall|j: int| 0 <= j < ls@.len() ==> (#[trigger] ls@[j])@ == all[j],
            k@ == key@,
            sniff_lines(all, key@) == sniff_lines(all.skip(i as int), key@),
    {
        proof {
            assert(all.skip(i as int).drop_first() =~= all.skip(i + 1));
            assert(all.skip(i as int)[0] == all[i as int]);
        }
        match sniff_line_exec(&ls[i], &k) {
            Some(v) => {
                return Some(v);
            },
            None => {},
        }
    }
    assert(all.skip(n as int) =~= Seq::<Seq<char>>::empty());
    None
}

/// The value of the top-level `openapi` key, read line by line without
/// parsing the document (YAML or JSON).
pub fn sniff_version(content: &str) -> (r: Option<String>)
    ensures
        match r {
            Some(v) => sniff_lines(lines(content@), "openapi"@) == Some(v@),
            None => sniff_lines(lines(content@), "openapi"@) is None,
        },
{
    sniff_key(content, "openapi")
}

/// The value of the top-level `swagger` key of a Swagger 2.0 document.
pub fn sniff_swagger_version(content: &str) -> (r: Option<String>)
    ensures
        match r {
            Some(v) => sniff_lines(lines(content@), "swagger"@) == Some(v@),
            None => sniff_lines(lines(content@), "swagger"@) is None,
        },
{
    sniff_key(content, "swagger")
}

/// The parser a document goes to.
#[derive(Debug, Clone, Copy, PartialEq, Eq, Structural)]
pub enum Dialect {
    /// Swagger 2.0.
    Swagger2,
    /// OpenAPI 3.0.x.
    OpenApi30,
    /// OpenAPI 3.1.x and 3.2.x.
    OpenApi31,
}

/// Why a document cannot be loaded.
#[derive(Debug, Clone, PartialEq, Eq)]
pub enum VersionError {
    /// No `openapi` or `swagger` version key was found.
    NotOpenApi,
    /// The declared version is not supported.
    Unsupported(String),
}

/// The dialect of a declared `openapi` version.
pub open spec fn openapi_dialect(v: Seq<char>) -> Option<Dialect> {
    if starts_with(v, "3.0"@) {
        Some(Dialect::OpenApi30)
    } else if starts_with(v, "3.1"@) || starts_with(v, "3.2"@) {
        Some(Dialect::OpenApi31)
    } else {
        None
    }
}

/// Which parser reads `content`: by its `openapi` version, else by its
/// `swagger` version; an error when neither key is present or the version
/// is not supported.
pub open spec fn dialect_spec(content: Seq<char>) -> Result<Dialect, Seq<char>> {
    match sniff_lines(lines(content), "openapi"@) {
        Some(v) => match openapi_dialect(v) {
            Some(d) => Ok(d),
            None => Err(v),
        },
        None => match sniff_lines(lines(content), "swagger"@) {
            Some(v) => if starts_with(v, "2."@) {
                Ok(Dialect::Swagger2)
            } else {
                Err(v)
            },
            None => Err(Seq::empty()),
        },
    }
}

/// Picks the parser for a document from its declared version.
pub fn dialect_of(content: &str) -> (r: Result<Dialect, VersionError>)
    ensures
        match r {
            Ok(d) => dialect_spec(content@) == Ok::<Dialect, Seq<char>>(d),
            Err(VersionError::Unsupported(v)) => dialect_spec(content@) == Err::<Dialect, Seq<char>>(v@)
                && (sniff_lines(lines(content@), "openapi"@) is Some || sniff_lines(
                lines(content@),
                "swagger"@,
            ) is Some),
            Err(VersionError::NotOpenApi) => sniff_lines(lines(content@), "openapi"@) is None
                && sniff_lines(lines(content@), "swagger"@) is None,
        },
{
    match sniff_version(content) {
        Some(v) => {
            let vc = chars_of(v.as_str());
            if starts_with_exec(&vc, &chars_of("3.0")) {
                Ok(Dialect::OpenApi30)
            } else if starts_with_exec(&vc, &chars_of("3.1")) || starts_with_exec(&vc, &chars_of("3.2")) {
                Ok(Dialect::OpenApi31)
            } else {
                Err(VersionError::Unsupported(v))
            }
        },
        None => match sniff_swagger_version(content) {
            Some(v) => {
                let vc = chars_of(v.as_str());
                if starts_with_exec(&vc, &chars_of("2.")) {
                    Ok(Dialect::Swagger2)
                } else {
                    Err(VersionError::Unsupported(v))
                }
            },
            None => Err(VersionError::NotOpenApi),
        },
    }
}


/// Why a document could not be turned into a [`Spec`].
#[derive(Debug, Clone, PartialEq, Eq)]
pub enum LoadError {
    /// No `openapi` or `swagger` version key was found.
    NotOpenApi,
    /// The declared version is not supported.
    Unsupported(String),
    /// The content is not a YAML (or JSON) document.
    NotYaml,
    /// The content does not read as a document of its declared version.
    NotADocument,
    /// An OpenAPI 3.0 request-body schema refers to itself.
    SelfReferencing,
}

/// Reads a spec file's content: the declared version picks the dialect,
/// the content is read as YAML (and, for OpenAPI 3.x, as the typed
/// document of its version), and the dialect's parser turns it into a
/// [`Spec`].
pub fn parse_spec(file_path: String, content: &str) -> (r: Result<Spec, LoadError>)
    ensures
        match dialect_spec(content@) {
            Err(v) => if v.len() == 0 {
                r matches Err(LoadError::NotOpenApi)
            } else {
                r matches Err(LoadError::Unsupported(u)) && u@ == v
            },
            Ok(d) => match yaml_of(content@) {
                None => r matches Err(LoadError::NotYaml),
                Some(root) => match d {
                    Dialect::Swagger2 => r matches Ok(s) && spec_v(s) == sw_spec(file_path@, root),
                    Dialect::OpenApi30 => match openapi30_document(content@) {
                        None => r matches Err(LoadError::NotADocument),
                        Some(doc) => if doc_cycles(doc) {
                            r matches Err(LoadError::SelfReferencing)
                        } else {
                            r matches Ok(s) && spec_v(s) == spec30(file_path@, doc, root)
                        },
                    },
                    Dialect::OpenApi31 => match openapi31_document(content@) {
                        None => r matches Err(LoadError::NotADocument),
                        Some(doc) => r matches Ok(s) && spec_v(s) == spec31(file_path@, doc, root),
                    },
                },
            },
        },
{
    let dialect = match dialect_of(content) {
        Ok(d) => d,
        Err(VersionError::NotOpenApi) => {
            return Err(LoadError::NotOpenApi);
        },
        Err(VersionError::Unsupported(v)) => {
            proof {
                lemma_sniffed_nonempty(lines(content@), "openapi"@);
                lemma_sniffed_nonempty(lines(content@), "swagger"@);
            }
            return Err(LoadError::Unsupported(v));
        },
    };
    let root = match parse_yaml(content) {
        Some(y) => y,
        None => {
            return Err(LoadError::NotYaml);
        },
    };
    match dialect {
        Dialect::Swagger2 => Ok(crate::swagger::parse(file_path, &root)),
        Dialect::OpenApi30 => match read_openapi30(content) {
            None => Err(LoadError::NotADocument),
            Some(doc) => match parse_checked(file_path, &doc, &root) {
                Some(s) => Ok(s),
                None => Err(LoadError::SelfReferencing),
            },
        },
        Dialect::OpenApi31 => match read_openapi31(content) {
            None => Err(LoadError::NotADocument),
            Some(doc) => Ok(crate::openapi31::parse(file_path, &doc, &root)),
        },
    }
}

} // verus!
