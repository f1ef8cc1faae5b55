//! Decisions about command-line inputs: which files look like API
//! descriptions, where a downloaded description is cached, which URLs are
//! probed for one.
use vstd::prelude::*;
use vstd::std_specs::hash::DefaultHasherAdditionalSpecFns;

use std::collections::hash_map::DefaultHasher;
use std::hash::{Hash, Hasher};

use crate::text::{
    after_last, chars_eq, after_last_exec, lemma_rfind_char, rfind_char, before_first, before_first_exec, chars_of, ends_with,
    ends_with_exec, find_char, find_char_exec, find_seq, find_seq_exec, lemma_find_char, lemma_find_seq, lines,
    lines_of, occurs_at, push_char, slice_chars, starts_with, starts_with_exec, string_of, trim_end_char,
    trim_end_char_chars, trim_start, trim_start_chars,
};

verus! {

// ─── Outside calls ───────────────────────────────────────────────────────────

/// Unicode lower-case mapping of a string (`str::to_lowercase`).
pub uninterp spec fn lowercase_of(s: Seq<char>) -> Seq<char>;

/// The extension of a file path (`Path::extension`, read as text).
pub uninterp spec fn extension_of(p: Seq<char>) -> Option<Seq<char>>;

/// Wraps `str::to_lowercase`; the result is the Unicode lower-case mapping
/// of `s`, a function of `s` alone.
#[verifier::external_body]
fn to_lowercase(s: &str) -> (r: String)
    ensures
        r@ == lowercase_of(s@),
{
    s.to_lowercase()
}

/// Wraps `Path::extension`: the text after the last `.` of the file name,
/// `None` when the file name has none (or is only a leading-dot name).
#[verifier::external_body]
fn path_extension(p: &str) -> (r: Option<String>)
    ensures
        match r {
            Some(e) => extension_of(p@) == Some(e@),
            None => extension_of(p@) is None,
        },
{
    std::path::Path::new(p).extension().and_then(|e| e.to_str()).map(|e| e.to_string())
}

/// The file name of a path (`Path::file_name`, read as text).
pub uninterp spec fn file_name_of(p: Seq<char>) -> Option<Seq<char>>;

/// Wraps `Path::file_name`: the last component of the path, `None` when it
/// ends in `..` or is a root or empty.
#[verifier::external_body]
pub(crate) fn path_file_name(p: &str) -> (r: Option<String>)
    ensures
        match r {
            Some(n) => file_name_of(p@) == Some(n@),
            None => file_name_of(p@) is None,
        },
{
    std::path::Path::new(p).file_name().and_then(|n| n.to_str()).map(|n| n.to_string())
}

/// The writes `<str as Hash>::hash` makes to a hasher for the string `s`
/// (its bytes, then a terminator), a function of `s` alone.
pub uninterp spec fn str_hash_writes(s: Seq<char>) -> Seq<Seq<u8>>;

/// Wraps `Hash::hash` for `str`: appends the writes for `s` to those the
/// hasher has received.
#[verifier::external_body]
fn hash_str(s: &str, h: &mut DefaultHasher)
    ensures
        final(h)@ == old(h)@ + str_hash_writes(s@),
{
    s.hash(h)
}

/// The hash of a URL: a fresh `DefaultHasher` fed the URL, finished.
pub open spec fn url_hash(url: Seq<char>) -> u64 {
    DefaultHasher::spec_finish(str_hash_writes(url))
}

// ─── Spec-file recognition ──────────────────────────────────────────────────

/// A lower-cased path names a YAML or JSON file.
pub open spec fn has_spec_ext(lower: Seq<char>) -> bool {
    ends_with(lower, ".yaml"@) || ends_with(lower, ".yml"@) || ends_with(lower, ".json"@)
}

/// A lower-cased extension is one of the supported formats.
pub open spec fn is_format_word(e: Seq<char>) -> bool {
    e == "yaml"@ || e == "yml"@ || e == "json"@
}

/// Whether a lower-cased path ends with `.yaml`, `.yml` or `.json`.
pub fn has_spec_extension(lower: &str) -> (b: bool)
    ensures
        b == has_spec_ext(lower@),
{
    let l = chars_of(lower);
    ends_with_exec(&l, &chars_of(".yaml")) || ends_with_exec(&l, &chars_of(".yml"))
        || ends_with_exec(&l, &chars_of(".json"))
}

/// Whether a lower-cased extension is `yaml`, `yml` or `json`.
pub fn is_format_extension(e: &str) -> (b: bool)
    ensures
        b == is_format_word(e@),
{
    let v = chars_of(e);
    let b = chars_eq(&v, &chars_of("yaml")) || chars_eq(&v, &chars_of("yml")) || chars_eq(&v, &chars_of("json"));
    b
}

/// An input names a remote description: it starts with `http://` or
/// `https://`.
pub open spec fn is_url_spec(input: Seq<char>) -> bool {
    starts_with(input, "http://"@) || starts_with(input, "https://"@)
}

/// Whether a command-line input is a URL to download rather than a local
/// file or directory.
pub fn is_url(input: &str) -> (b: bool)
    ensures
        b == is_url_spec(input@),
{
    let v = chars_of(input);
    starts_with_exec(&v, &chars_of("http://")) || starts_with_exec(&v, &chars_of("https://"))
}

/// Whether the URL's path (query string dropped) ends with a recognised
/// spec file extension, compared in lower case.
pub fn looks_like_direct_spec_url(url: &str) -> (b: bool)
    ensures
        b == has_spec_ext(lowercase_of(before_first(url@, '?'))),
{
    let path = string_of(&before_first_exec(&chars_of(url), '?'));
    let lower = to_lowercase(path.as_str());
    has_spec_extension(lower.as_str())
}

/// Whether a file path has a YAML or JSON extension (in any case).
pub fn is_supported_format(p: &str) -> (b: bool)
    ensures
        b == match extension_of(p@) {
            Some(e) => is_format_word(lowercase_of(e)),
            None => false,
        },
{
    match path_extension(p) {
        Some(e) => {
            let lower = to_lowercase(e.as_str());
            is_format_extension(lower.as_str())
        },
        None => false,
    }
}

/// A line declares an OpenAPI or Swagger document root key (YAML or JSON).
pub open spec fn openapi_line(line: Seq<char>) -> bool {
    let l = trim_start(line);
    ||| starts_with(l, "openapi:"@)
    ||| starts_with(l, "swagger:"@)
    ||| starts_with(l, "\"openapi\":"@)
    ||| starts_with(l, "\"swagger\":"@)
}

/// One of the first 30 lines declares the document root key.
pub open spec fn openapi_content(text: Seq<char>) -> bool {
    exists|i: int| 0 <= i < lines(text).len() && i < 30 && openapi_line(#[trigger] lines(text)[i])
}

fn is_openapi_line_chars(line: &Vec<char>) -> (b: bool)
    ensures
        b == openapi_line(line@),
{
    let l = trim_start_chars(line);
    starts_with_exec(&l, &chars_of("openapi:")) || starts_with_exec(&l, &chars_of("swagger:"))
        || starts_with_exec(&l, &chars_of("\"openapi\":")) || starts_with_exec(
        &l,
        &chars_of("\"swagger\":"),
    )
}

/// Whether a single line declares an OpenAPI or Swagger document root key.
pub fn is_openapi_line(line: &str) -> (b: bool)
    ensures
        b == openapi_line(line@),
{
    is_openapi_line_chars(&chars_of(line))
}

/// Whether the text looks like an OpenAPI document: one of its first 30
/// lines declares the root key.
pub fn is_openapi_content(text: &str) -> (b: bool)
    ensures
        b == openapi_content(text@),
{
    let ls = lines_of(&chars_of(text));
    let n = ls.len();
    for i in 0..n
        invariant
            n == ls@.len(),
            ls@.len() == lines(text@).len(),
            forall|k: int| 0 <= k < ls@.len() ==> (#[trigger] ls@[k])@ == lines(text@)[k],
            forall|k: int| 0 <= k < i && k < 30 ==> !openapi_line(#[trigger] lines(text@)[k]),
    {
        if i >= 30 {
            return false;
        }
        if is_openapi_line_chars(&ls[i]) {
            return true;
        }
    }
    false
}

/// Some line of the text declares the document root key.
pub open spec fn declares_root_key(text: Seq<char>) -> bool {
    exists|i: int| 0 <= i < lines(text).len() && openapi_line(#[trigger] lines(text)[i])
}

/// Whether any line of a file's head declares an `openapi` or `swagger`
/// root key (YAML or JSON), as a directory scan asks of the first 4 KB of
/// each file.
pub fn head_declares_root_key(head: &str) -> (b: bool)
    ensures
        b == declares_root_key(head@),
{
    let ls = lines_of(&chars_of(head));
    let n = ls.len();
    for i in 0..n
        invariant
            n == ls@.len(),
            ls@.len() == lines(head@).len(),
            forall|k: int| 0 <= k < ls@.len() ==> (#[trigger] ls@[k])@ == lines(head@)[k],
            forall|k: int| 0 <= k < i ==> !openapi_line(#[trigger] lines(head@)[k]),
    {
        if is_openapi_line_chars(&ls[i]) {
            return true;
        }
    }
    false
}

// ─── Cache file names ────────────────────────────────────────────────────────

/// A lower-case hexadecimal digit.
pub open spec fn hex_digit(d: nat) -> char {
    if d < 10 {
        (('0' as nat) + d) as char
    } else {
        (('a' as nat) + d - 10) as char
    }
}

/// `n` in lower-case hexadecimal without leading zeros (`"0"` for zero).
pub open spec fn hex(n: nat) -> Seq<char>
    decreases n,
{
    if n < 16 {
        seq![hex_digit(n)]
    } else {
        hex(n / 16).push(hex_digit(n % 16))
    }
}

fn hex_digit_exec(d: u64) -> (c: char)
    requires
        d < 16,
    ensures
        c == hex_digit(d as nat),
{
    let digits = ['0', '1', '2', '3', '4', '5', '6', '7', '8', '9', 'a', 'b', 'c', 'd', 'e', 'f'];
    let c = digits[d as usize];
    assert(c == hex_digit(d as nat)) by {
        assert(('0' as nat) == 48);
        assert(('a' as nat) == 97);
    }
    c
}

/// Appends `n` in lower-case hexadecimal (the `{:x}` format).
fn push_hex(out: &mut String, n: u64)
    ensures
        final(out)@ == old(out)@ + hex(n as nat),
    decreases n,
{
    if n >= 16 {
        push_hex(out, n / 16);
    }
    push_char(out, hex_digit_exec(n % 16));
    proof {
        if n < 16 {
            assert(n % 16 == n);
        }
        assert(old(out)@ + hex(n as nat) =~= old(out)@ + (if n >= 16 { hex((n / 16) as nat) } else { Seq::empty() }).push(hex_digit((n % 16) as nat)));
    }
}

/// The cache file name of `url`, given its lower-cased path and a hash of
/// the URL: `apin-<hash>-<basename>` for a spec file, otherwise
/// `apin-<hash>.yaml`.
pub open spec fn cache_name(url: Seq<char>, lower_path: Seq<char>, h: u64) -> Seq<char> {
    if has_spec_ext(lower_path) {
        "apin-"@ + hex(h as nat) + "-"@ + after_last(before_first(url, '?'), '/')
    } else {
        "apin-"@ + hex(h as nat) + ".yaml"@
    }
}

/// Hexadecimal digits are never `/`.
proof fn lemma_hex_no_slash(n: nat)
    ensures
        forall|k: int| 0 <= k < hex(n).len() ==> hex(n)[k] != '/',
    decreases n,
{
    if n >= 16 {
        lemma_hex_no_slash(n / 16);
        assert forall|k: int| 0 <= k < hex(n).len() implies hex(n)[k] != '/' by {
            if k < hex(n / 16).len() {
                assert(hex(n)[k] == hex(n / 16)[k]);
            }
        }
    }
}

/// A cache name starts with `apin-`, holds no `/` (so it names a file in
/// the download directory), and ends with `-` and the URL's file name when
/// the path names a spec file, with `.yaml` otherwise.
pub proof fn lemma_cache_name_shape(url: Seq<char>, lower_path: Seq<char>, h: u64)
    ensures
        starts_with(cache_name(url, lower_path, h), "apin-"@),
        forall|k: int|
            0 <= k < cache_name(url, lower_path, h).len() ==> #[trigger] cache_name(url, lower_path, h)[k] != '/',
        has_spec_ext(lower_path) ==> ends_with(
            cache_name(url, lower_path, h),
            "-"@ + after_last(before_first(url, '?'), '/'),
        ),
        !has_spec_ext(lower_path) ==> ends_with(cache_name(url, lower_path, h), ".yaml"@),
{
    reveal_strlit("apin-");
    reveal_strlit("-");
    reveal_strlit(".yaml");
    let c = cache_name(url, lower_path, h);
    let hx = hex(h as nat);
    lemma_hex_no_slash(h as nat);
    let base = after_last(before_first(url, '?'), '/');
    let q = before_first(url, '?');
    lemma_rfind_char(q, '/');
    assert forall|k: int| 0 <= k < base.len() implies base[k] != '/' by {
        match rfind_char(q, '/') {
            Some(i) => {
                assert(base[k] == q[i + 1 + k]);
            },
            None => {},
        }
    }
    let tail = if has_spec_ext(lower_path) { "-"@ + base } else { ".yaml"@ };
    assert(c =~= "apin-"@ + hx + tail);
    assert(c.take(5) =~= "apin-"@);
    assert forall|k: int| 0 <= k < c.len() implies #[trigger] c[k] != '/' by {
        if k < 5 {
            assert(c[k] == "apin-"@[k]);
        } else if k < 5 + hx.len() {
            assert(c[k] == hx[k - 5]);
        } else {
            assert(c[k] == tail[k - 5 - hx.len()]);
            if has_spec_ext(lower_path) && k > 5 + hx.len() {
                assert(tail[k - 5 - hx.len()] == base[k - 6 - hx.len()]);
            }
        }
    }
    assert(c.skip(c.len() - tail.len()) =~= tail);
}

/// The cache file name of `url` for a given lower-cased path and URL hash.
pub fn cache_name_for(url: &str, lower_path: &str, h: u64) -> (out: String)
    ensures
        out@ == cache_name(url@, lower_path@, h),
{
    let mut out = String::new();
    out.append("apin-");
    push_hex(&mut out, h);
    if has_spec_extension(lower_path) {
        out.append("-");
        let path = before_first_exec(&chars_of(url), '?');
        let base = string_of(&after_last_exec(&path, '/'));
        out.append(base.as_str());
    } else {
        out.append(".yaml");
    }
    proof {
        assert(Seq::<char>::empty() + "apin-"@ =~= "apin-"@);
    }
    out
}

/// A stable, filesystem-safe file name for a downloaded spec: the URL's own
/// basename when it looks like a spec file, prefixed by a hash of the URL.
pub fn url_cache_name(url: &str) -> (out: String)
    ensures
        out@ == cache_name(url@, lowercase_of(before_first(url@, '?')), url_hash(url@)),
{
    let path = string_of(&before_first_exec(&chars_of(url), '?'));
    let lower = to_lowercase(path.as_str());
    let mut hasher = DefaultHasher::new();
    hash_str(url, &mut hasher);
    assert(hasher@ =~= str_hash_writes(url@));
    let h = hasher.finish();
    let out = cache_name_for(url, lower.as_str(), h);
    assert(out@ == cache_name(url@, lowercase_of(before_first(url@, '?')), h));
    out
}

// ─── URL probing ─────────────────────────────────────────────────────────────

/// Spec paths probed, in order, when a bare base URL is given.
pub open spec fn spec_candidates() -> Seq<Seq<char>> {
    seq![
        "/openapi.yaml"@,
        "/openapi.json"@,
        "/openapi.yml"@,
        "/swagger.json"@,
        "/swagger.yaml"@,
        "/api-docs"@,
        "/api/openapi.yaml"@,
        "/api/openapi.json"@,
    ]
}

pub fn candidates() -> (v: Vec<&'static str>)
    ensures
        v@.len() == spec_candidates().len(),
        forall|i: int| 0 <= i < v@.len() ==> (#[trigger] v@[i])@ == spec_candidates()[i],
{
    let mut v: Vec<&'static str> = Vec::new();
    v.push("/openapi.yaml");
    v.push("/openapi.json");
    v.push("/openapi.yml");
    v.push("/swagger.json");
    v.push("/swagger.yaml");
    v.push("/api-docs");
    v.push("/api/openapi.yaml");
    v.push("/api/openapi.json");
    v
}

/// Scheme and authority of `url`: everything before the first `/` that
/// follows `://` (or that starts the URL when it has no scheme).
#[verifier::opaque]
pub open spec fn base_url_of(url: Seq<char>) -> Seq<char> {
    let a = match find_seq(url, "://"@) {
        Some(i) => i + 3,
        None => 0,
    };
    match find_char(url.skip(a), '/') {
        Some(j) => url.take(a + j),
        None => url,
    }
}

/// Where the host part of a URL starts: after its first `://`, or at 0.
pub open spec fn host_start(url: Seq<char>) -> int {
    match find_seq(url, "://"@) {
        Some(i) => i + 3,
        None => 0,
    }
}

/// The base of a URL is the URL up to its first `/` after the scheme: a
/// prefix of the URL with no `/` after the scheme, followed in the URL by
/// `/` or by nothing, and its own base.
pub proof fn lemma_base_url(url: Seq<char>)
    ensures
        ({
            let b = base_url_of(url);
            &&& b.len() <= url.len()
            &&& url.take(b.len() as int) == b
            &&& forall|k: int| host_start(url) <= k < b.len() ==> b[k] != '/'
            &&& b.len() < url.len() ==> url[b.len() as int] == '/'
            &&& base_url_of(b) == b
        }),
{
    reveal(base_url_of);
    reveal_strlit("://");
    let p = "://"@;
    let b = base_url_of(url);
    let a = host_start(url);
    lemma_find_seq(url, p);
    assert(0 <= a <= url.len());
    lemma_find_char(url.skip(a), '/');
    assert(b == (match find_char(url.skip(a), '/') {
        Some(j) => url.take(a + j),
        None => url,
    }));
    match find_char(url.skip(a), '/') {
        Some(j) => {
            assert(b == url.take(a + j));
            assert forall|k: int| a <= k < b.len() implies b[k] != '/' by {
                assert(b[k] == url.skip(a)[k - a]);
            }
            assert(url[b.len() as int] == url.skip(a)[j]);
        },
        None => {
            assert(b == url);
            assert forall|k: int| a <= k < b.len() implies b[k] != '/' by {
                assert(b[k] == url.skip(a)[k - a]);
            }
        },
    }
    assert(url.take(b.len() as int) =~= b);
    // The scheme separator is found at the same place in the base.
    lemma_find_seq(b, p);
    match find_seq(url, p) {
        Some(i) => {
            assert(b.subrange(i, i + 3) =~= url.subrange(i, i + 3));
            assert(occurs_at(b, p, i));
            assert forall|j: int| 0 <= j < i implies !occurs_at(b, p, j) by {
                if occurs_at(b, p, j) {
                    assert(b.subrange(j, j + 3) =~= url.subrange(j, j + 3));
                    assert(occurs_at(url, p, j));
                }
            }
            match find_seq(b, p) {
                Some(i2) => {
                    if i2 < i {
                    } else if i2 > i {
                        assert(!occurs_at(b, p, i));
                    }
                    assert(i2 == i);
                },
                None => {
                    assert(!occurs_at(b, p, i));
                },
            }
        },
        None => {
            match find_seq(b, p) {
                Some(i2) => {
                    assert(b.subrange(i2, i2 + 3) =~= url.subrange(i2, i2 + 3));
                    assert(occurs_at(url, p, i2));
                },
                None => {},
            }
        },
    }
    assert(host_start(b) == a);
    lemma_find_char(b.skip(a), '/');
    assert forall|k: int| 0 <= k < b.skip(a).len() implies b.skip(a)[k] != '/' by {
        assert(b.skip(a)[k] == b[a + k]);
    }
    assert(find_char(b.skip(a), '/') is None);
}

/// Returns the scheme + host (+ port) of `url`, with no trailing slash.
pub fn base_url(url: &str) -> (out: String)
    ensures
        out@ == base_url_of(url@),
{
    let u = chars_of(url);
    let sep = chars_of("://");
    let n = u.len();
    proof {
        reveal_strlit("://");
    }
    let a: usize = match find_seq_exec(&u, &sep) {
        Some(i) => {
            proof {
                lemma_find_seq(u@, sep@);
            }
            i + 3
        },
        None => 0,
    };
    let rest = slice_chars(&u, a, u.len());
    assert(rest@ =~= u@.skip(a as int));
    proof {
        lemma_find_char(rest@, '/');
    }
    proof {
        reveal(base_url_of);
    }
    match find_char_exec(&rest, '/') {
        Some(j) => string_of(&slice_chars(&u, 0, a + j)),
        None => string_of(&u),
    }
}

/// The URL prefixes under which candidates are probed: the URL without
/// trailing slashes, then its origin when that differs.
pub open spec fn probe_prefixes_of(url: Seq<char>) -> Seq<Seq<char>> {
    let p = trim_end_char(url, '/');
    if p == base_url_of(url) {
        seq![p]
    } else {
        seq![p, base_url_of(url)]
    }
}

/// Every candidate appended to `prefix`, in order.
pub open spec fn with_candidates(prefix: Seq<char>) -> Seq<Seq<char>> {
    spec_candidates().map_values(|c: Seq<char>| prefix + c)
}

/// The URLs probed for `url`, in order.
pub open spec fn probe_list(url: Seq<char>) -> Seq<Seq<char>> {
    let ps = probe_prefixes_of(url);
    if ps.len() == 1 {
        with_candidates(ps[0])
    } else {
        with_candidates(ps[0]) + with_candidates(ps[1])
    }
}

pub fn probe_prefixes(url: &str) -> (out: Vec<String>)
    ensures
        out@.len() == probe_prefixes_of(url@).len(),
        forall|i: int| 0 <= i < out@.len() ==> (#[trigger] out@[i])@ == probe_prefixes_of(url@)[i],
{
    let prefix = string_of(&trim_end_char_chars(&chars_of(url), '/'));
    let origin = base_url(url);
    let mut out: Vec<String> = Vec::new();
    let same = prefix == origin;
    out.push(prefix);
    if !same {
        out.push(origin);
    }
    out
}

/// The spec URLs to probe for `url`, in the order they are tried.
pub fn probe_urls(url: &str) -> (out: Vec<String>)
    ensures
        out@.len() == probe_list(url@).len(),
        forall|i: int| 0 <= i < out@.len() ==> (#[trigger] out@[i])@ == probe_list(url@)[i],
{
    let prefixes = probe_prefixes(url);
    let cands = candidates();
    let mut out: Vec<String> = Vec::new();
    let np = prefixes.len();
    let nc = cands.len();
    let ghost ps = probe_prefixes_of(url@);
    for p in 0..np
        invariant
            np == prefixes@.len(),
            np == ps.len(),
            ps == probe_prefixes_of(url@),
            1 <= np <= 2,
            forall|i: int| 0 <= i < np ==> (#[trigger] prefixes@[i])@ == ps[i],
            nc == cands@.len(),
            nc == spec_candidates().len(),
            forall|i: int| 0 <= i < nc ==> (#[trigger] cands@[i])@ == spec_candidates()[i],
            out@.len() == p * nc,
            forall|k: int|
                0 <= k < out@.len() ==> (#[trigger] out@[k])@ == ps[k / nc as int] + spec_candidates()[k % nc as int],
    {
        for c in 0..nc
            invariant
                np == prefixes@.len(),
                p < np,
                forall|i: int| 0 <= i < np ==> (#[trigger] prefixes@[i])@ == ps[i],
                nc == cands@.len(),
                nc == spec_candidates().len(),
                forall|i: int| 0 <= i < nc ==> (#[trigger] cands@[i])@ == spec_candidates()[i],
                out@.len() == p * nc + c,
                forall|k: int|
                    0 <= k < out@.len() ==> (#[trigger] out@[k])@ == ps[k / nc as int] + spec_candidates()[k % nc as int],
        {
            let mut s = prefixes[p].clone();
            s.append(cands[c]);
            proof {
                let k = (p * nc + c) as int;
                assert(k / nc as int == p as int) by (nonlinear_arith)
                    requires k == p * nc + c, c < nc, nc > 0;
                assert(k % nc as int == c as int) by (nonlinear_arith)
                    requires k == p * nc + c, c < nc, nc > 0;
            }
            out.push(s);
        }
        proof {
            assert((p + 1) * nc == p * nc + nc) by (nonlinear_arith);
        }
    }
    proof {
        let pl = probe_list(url@);
        assert(pl.len() == np * nc);
        assert forall|k: int| 0 <= k < out@.len() implies (#[trigger] out@[k])@ == pl[k] by {
            if k < nc {
                assert(k / nc as int == 0 && k % nc as int == k) by (nonlinear_arith)
                    requires 0 <= k < nc;
            } else {
                assert(k / nc as int == 1 && k % nc as int == k - nc) by (nonlinear_arith)
                    requires nc <= k < 2 * nc;
            }
        }
    }
    out
}

} // verus!
