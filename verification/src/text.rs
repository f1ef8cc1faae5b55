//! Character-sequence helpers with their specifications: trimming, prefix
//! and substring tests, line splitting, ASCII case folding, truncation.
use vstd::prelude::*;

verus! {

// ─── Std wrappers ────────────────────────────────────────────────────────────

/// Appends one character to a string.
/// Wraps `String::push`; the contract states that the view grows by exactly `c`.
#[verifier::external_body]
pub(crate) fn push_char(s: &mut String, c: char)
    ensures
        final(s)@ == old(s)@.push(c),
{
    s.push(c)
}

// ─── Conversions ─────────────────────────────────────────────────────────────

/// The characters of `s`, in order.
pub fn chars_of(s: &str) -> (out: Vec<char>)
    ensures
        out@ == s@,
{
    let mut out: Vec<char> = Vec::new();
    for c in it: s.chars()
        invariant
            out@ == it.seq().take(it.index() as int),
            it.seq() == s@,
    {
        out.push(c);
    }
    out
}

/// A string holding exactly the characters of `v`.
pub fn string_of(v: &Vec<char>) -> (out: String)
    ensures
        out@ == v@,
{
    let mut out = String::new();
    let n = v.len();
    for i in 0..n
        invariant
            n == v@.len(),
            out@ == v@.take(i as int),
    {
        push_char(&mut out, v[i]);
        assert(v@.take(i + 1) == v@.take(i as int).push(v@[i as int]));
    }
    assert(v@.take(n as int) == v@);
    out
}

/// The characters `v[from..to]`.
pub fn slice_chars(v: &Vec<char>, from: usize, to: usize) -> (out: Vec<char>)
    requires
        from <= to <= v@.len(),
    ensures
        out@ == v@.subrange(from as int, to as int),
{
    let mut out: Vec<char> = Vec::new();
    let mut i = from;
    while i < to
        invariant
            from <= i <= to <= v@.len(),
            out@ == v@.subrange(from as int, i as int),
        decreases to - i,
    {
        out.push(v[i]);
        assert(v@.subrange(from as int, i + 1) =~= v@.subrange(from as int, i as int).push(v@[i as int]));
        i += 1;
    }
    out
}

/// Whether two character vectors are equal.
pub fn chars_eq(a: &Vec<char>, b: &Vec<char>) -> (r: bool)
    ensures
        r == (a@ == b@),
{
    if a.len() != b.len() {
        return false;
    }
    let n = a.len();
    for i in 0..n
        invariant
            n == a@.len(),
            n == b@.len(),
            forall|j: int| 0 <= j < i ==> a@[j] == b@[j],
    {
        if a[i] != b[i] {
            return false;
        }
    }
    assert(a@ =~= b@);
    true
}

/// Whether two strings are equal.
pub fn str_eq(a: &str, b: &str) -> (r: bool)
    ensures
        r == (a@ == b@),
{
    chars_eq(&chars_of(a), &chars_of(b))
}

// ─── Whitespace and trimming ────────────────────────────────────────────────

/// Unicode `White_Space`, the property behind `char::is_whitespace`.
pub open spec fn is_ws(c: char) -> bool {
    let u = c as int;
    ||| 0x09 <= u <= 0x0D
    ||| u == 0x20
    ||| u == 0x85
    ||| u == 0xA0
    ||| u == 0x1680
    ||| 0x2000 <= u <= 0x200A
    ||| u == 0x2028
    ||| u == 0x2029
    ||| u == 0x202F
    ||| u == 0x205F
    ||| u == 0x3000
}

pub fn is_whitespace(c: char) -> (b: bool)
    ensures
        b == is_ws(c),
{
    let u = c as u32;
    (0x09 <= u && u <= 0x0D) || u == 0x20 || u == 0x85 || u == 0xA0 || u == 0x1680 || (0x2000 <= u
        && u <= 0x200A) || u == 0x2028 || u == 0x2029 || u == 0x202F || u == 0x205F || u == 0x3000
}

/// `s` without leading characters satisfying `f`.
pub open spec fn trim_start_by(s: Seq<char>, f: spec_fn(char) -> bool) -> Seq<char>
    decreases s.len(),
{
    if s.len() > 0 && f(s[0]) {
        trim_start_by(s.drop_first(), f)
    } else {
        s
    }
}

/// `s` without trailing characters satisfying `f`.
pub open spec fn trim_end_by(s: Seq<char>, f: spec_fn(char) -> bool) -> Seq<char>
    decreases s.len(),
{
    if s.len() > 0 && f(s.last()) {
        trim_end_by(s.drop_last(), f)
    } else {
        s
    }
}

pub open spec fn ws_pred() -> spec_fn(char) -> bool {
    |c: char| is_ws(c)
}

pub open spec fn char_pred(x: char) -> spec_fn(char) -> bool {
    |c: char| c == x
}

/// `str::trim_start`.
pub open spec fn trim_start(s: Seq<char>) -> Seq<char> {
    trim_start_by(s, ws_pred())
}

/// `str::trim`.
pub open spec fn trim(s: Seq<char>) -> Seq<char> {
    trim_end_by(trim_start_by(s, ws_pred()), ws_pred())
}

/// `str::trim_matches(x)` for a single character.
pub open spec fn trim_char(s: Seq<char>, x: char) -> Seq<char> {
    trim_end_by(trim_start_by(s, char_pred(x)), char_pred(x))
}

/// `str::trim_end_matches(x)` for a single character.
pub open spec fn trim_end_char(s: Seq<char>, x: char) -> Seq<char> {
    trim_end_by(s, char_pred(x))
}

proof fn lemma_trim_start_skip(s: Seq<char>, f: spec_fn(char) -> bool, i: int)
    requires
        0 <= i <= s.len(),
        forall|j: int| 0 <= j < i ==> f(s[j]),
    ensures
        trim_start_by(s, f) == trim_start_by(s.skip(i), f),
    decreases i,
{
    if i > 0 {
        assert(s.skip(1) =~= s.drop_first());
        lemma_trim_start_skip(s.drop_first(), f, i - 1);
        assert(s.drop_first().skip(i - 1) =~= s.skip(i));
    } else {
        assert(s.skip(0) =~= s);
    }
}

proof fn lemma_trim_end_take(s: Seq<char>, f: spec_fn(char) -> bool, i: int)
    requires
        0 <= i <= s.len(),
        forall|j: int| i <= j < s.len() ==> f(s[j]),
    ensures
        trim_end_by(s, f) == trim_end_by(s.take(i), f),
    decreases s.len() - i,
{
    if i < s.len() {
        lemma_trim_end_take(s.drop_last(), f, i);
        assert(s.drop_last().take(i) =~= s.take(i));
    } else {
        assert(s.take(i) =~= s);
    }
}

/// Bounds `[a, b)` of `v` once leading and trailing whitespace is dropped.
fn trim_bounds_ws(v: &Vec<char>, from: usize, to: usize, start: bool, end: bool) -> (r: (usize, usize))
    requires
        from <= to <= v@.len(),
    ensures
        from <= r.0 <= r.1 <= to,
        start && end ==> v@.subrange(r.0 as int, r.1 as int) == trim(v@.subrange(from as int, to as int)),
        start && !end ==> v@.subrange(r.0 as int, r.1 as int) == trim_start(v@.subrange(from as int, to as int)),
{
    let ghost s = v@.subrange(from as int, to as int);
    let mut a = from;
    if start {
        while a < to && is_whitespace(v[a])
            invariant
                from <= a <= to <= v@.len(),
                forall|j: int| from <= j < a ==> is_ws(v@[j]),
            decreases to - a,
        {
            a += 1;
        }
        proof {
            lemma_trim_start_skip(s, ws_pred(), a - from);
            assert(s.skip(a - from) =~= v@.subrange(a as int, to as int));
            assert(a == to || !is_ws(v@[a as int]));
        }
    }
    let mut b = to;
    if end {
        while b > a && is_whitespace(v[b - 1])
            invariant
                from <= a <= b <= to <= v@.len(),
                forall|j: int| b <= j < to ==> is_ws(v@[j]),
            decreases b,
        {
            b -= 1;
        }
        proof {
            let t = v@.subrange(a as int, to as int);
            lemma_trim_end_take(t, ws_pred(), b - a);
            assert(t.take(b - a) =~= v@.subrange(a as int, b as int));
        }
    }
    (a, b)
}

/// `str::trim` on characters.
pub fn trim_chars(v: &Vec<char>) -> (out: Vec<char>)
    ensures
        out@ == trim(v@),
{
    let (a, b) = trim_bounds_ws(v, 0, v.len(), true, true);
    assert(v@.subrange(0, v@.len() as int) =~= v@);
    slice_chars(v, a, b)
}

/// `str::trim_end`.
pub open spec fn trim_end(s: Seq<char>) -> Seq<char> {
    trim_end_by(s, ws_pred())
}

/// `str::trim_end` on characters.
pub fn trim_end_chars(v: &Vec<char>) -> (out: Vec<char>)
    ensures
        out@ == trim_end(v@),
{
    let mut b = v.len();
    while b > 0 && is_whitespace(v[b - 1])
        invariant
            b <= v@.len(),
            forall|j: int| b <= j < v@.len() ==> is_ws(v@[j]),
        decreases b,
    {
        b -= 1;
    }
    proof {
        lemma_trim_end_take(v@, ws_pred(), b as int);
        assert(v@.subrange(0, b as int) =~= v@.take(b as int));
    }
    slice_chars(v, 0, b)
}

/// `str::trim_start` on characters.
pub fn trim_start_chars(v: &Vec<char>) -> (out: Vec<char>)
    ensures
        out@ == trim_start(v@),
{
    let (a, b) = trim_bounds_ws(v, 0, v.len(), true, false);
    assert(v@.subrange(0, v@.len() as int) =~= v@);
    slice_chars(v, a, b)
}

/// `str::trim_matches(x)` on characters, for one character `x`.
pub fn trim_char_chars(v: &Vec<char>, x: char) -> (out: Vec<char>)
    ensures
        out@ == trim_char(v@, x),
{
    let n = v.len();
    let mut a: usize = 0;
    while a < n && v[a] == x
        invariant
            a <= n == v@.len(),
            forall|j: int| 0 <= j < a ==> v@[j] == x,
        decreases n - a,
    {
        a += 1;
    }
    proof {
        lemma_trim_start_skip(v@, char_pred(x), a as int);
    }
    let mut b = n;
    while b > a && v[b - 1] == x
        invariant
            a <= b <= n == v@.len(),
            forall|j: int| b <= j < n ==> v@[j] == x,
        decreases b,
    {
        b -= 1;
    }
    proof {
        let t = v@.skip(a as int);
        assert(a == n || v@[a as int] != x);
        lemma_trim_end_take(t, char_pred(x), b - a);
        assert(t.take(b - a) =~= v@.subrange(a as int, b as int));
    }
    slice_chars(v, a, b)
}

/// `str::trim_end_matches(x)` on characters, for one character `x`.
pub fn trim_end_char_chars(v: &Vec<char>, x: char) -> (out: Vec<char>)
    ensures
        out@ == trim_end_char(v@, x),
{
    let n = v.len();
    let mut b = n;
    while b > 0 && v[b - 1] == x
        invariant
            b <= n == v@.len(),
            forall|j: int| b <= j < n ==> v@[j] == x,
        decreases b,
    {
        b -= 1;
    }
    proof {
        lemma_trim_end_take(v@, char_pred(x), b as int);
    }
    slice_chars(v, 0, b)
}

// ─── Prefixes, suffixes, substrings ─────────────────────────────────────────

pub open spec fn starts_with(s: Seq<char>, p: Seq<char>) -> bool {
    p.len() <= s.len() && s.take(p.len() as int) == p
}

pub open spec fn ends_with(s: Seq<char>, p: Seq<char>) -> bool {
    p.len() <= s.len() && s.skip(s.len() - p.len()) == p
}

pub open spec fn occurs_at(s: Seq<char>, p: Seq<char>, i: int) -> bool {
    0 <= i && i + p.len() <= s.len() && s.subrange(i, i + p.len()) == p
}

pub open spec fn contains(s: Seq<char>, p: Seq<char>) -> bool {
    exists|i: int| occurs_at(s, p, i)
}

/// Whether `p` occurs in `s` at position `i`.
pub fn occurs_at_exec(s: &Vec<char>, p: &Vec<char>, i: usize) -> (b: bool)
    ensures
        b == occurs_at(s@, p@, i as int),
{
    if i > s.len() || p.len() > s.len() - i {
        return false;
    }
    let n = p.len();
    let mut k: usize = 0;
    while k < n
        invariant
            n == p@.len(),
            i + n <= s.len(),
            k <= n,
            forall|j: int| 0 <= j < k ==> s@[i + j] == p@[j],
        decreases n - k,
    {
        if s[i + k] != p[k] {
            assert(s@.subrange(i as int, i + n)[k as int] != p@[k as int]);
            return false;
        }
        k += 1;
    }
    assert(s@.subrange(i as int, i + n) =~= p@);
    true
}

pub fn starts_with_exec(s: &Vec<char>, p: &Vec<char>) -> (b: bool)
    ensures
        b == starts_with(s@, p@),
{
    let r = occurs_at_exec(s, p, 0);
    assert(p@.len() <= s@.len() ==> s@.take(p@.len() as int) =~= s@.subrange(0, p@.len() as int));
    r
}

pub fn ends_with_exec(s: &Vec<char>, p: &Vec<char>) -> (b: bool)
    ensures
        b == ends_with(s@, p@),
{
    if p.len() > s.len() {
        return false;
    }
    let r = occurs_at_exec(s, p, s.len() - p.len());
    assert(s@.skip(s@.len() - p@.len()) =~= s@.subrange(s@.len() - p@.len(), s@.len() as int));
    r
}

/// Whether `p` occurs anywhere in `s`.
pub fn contains_exec(s: &Vec<char>, p: &Vec<char>) -> (b: bool)
    ensures
        b == contains(s@, p@),
{
    if p.len() > s.len() {
        return false;
    }
    let last = s.len() - p.len();
    let mut i: usize = 0;
    loop
        invariant
            last == s@.len() - p@.len(),
            i <= last,
            forall|j: int| 0 <= j < i ==> !occurs_at(s@, p@, j),
        decreases last - i,
    {
        if occurs_at_exec(s, p, i) {
            return true;
        }
        if i == last {
            assert forall|j: int| !occurs_at(s@, p@, j) by {
                if 0 <= j <= i {
                }
            }
            return false;
        }
        i += 1;
    }
}

/// Position of the first `x` in `s`.
pub open spec fn find_char(s: Seq<char>, x: char) -> Option<int> {
    if exists|i: int| 0 <= i < s.len() && s[i] == x {
        Some(choose|i: int| 0 <= i < s.len() && s[i] == x && forall|j: int| 0 <= j < i ==> s[j] != x)
    } else {
        None
    }
}

pub fn find_char_exec(s: &Vec<char>, x: char) -> (r: Option<usize>)
    ensures
        match r {
            Some(i) => find_char(s@, x) == Some(i as int),
            None => find_char(s@, x) is None,
        },
{
    let n = s.len();
    let mut i: usize = 0;
    while i < n
        invariant
            n == s@.len(),
            i <= n,
            forall|j: int| 0 <= j < i ==> s@[j] != x,
        decreases n - i,
    {
        if s[i] == x {
            proof {
                let w = choose|k: int| 0 <= k < s@.len() && s@[k] == x && forall|j: int| 0 <= j < k ==> s@[j] != x;
                assert(0 <= i < s@.len() && s@[i as int] == x && forall|j: int| 0 <= j < i ==> s@[j] != x);
                if w < i {
                } else if w > i {
                    assert(s@[i as int] != x);
                }
            }
            return Some(i);
        }
        i += 1;
    }
    None
}

/// Position of the first occurrence of `p` in `s`.
pub open spec fn find_seq(s: Seq<char>, p: Seq<char>) -> Option<int> {
    if exists|i: int| occurs_at(s, p, i) {
        Some(choose|i: int| occurs_at(s, p, i) && forall|j: int| 0 <= j < i ==> !occurs_at(s, p, j))
    } else {
        None
    }
}

pub proof fn lemma_find_seq(s: Seq<char>, p: Seq<char>)
    ensures
        match find_seq(s, p) {
            Some(i) => occurs_at(s, p, i) && forall|j: int| 0 <= j < i ==> !occurs_at(s, p, j),
            None => forall|j: int| !occurs_at(s, p, j),
        },
{
    if exists|i: int| occurs_at(s, p, i) {
        let w = choose|i: int| occurs_at(s, p, i);
        lemma_first_occurrence_exists(s, p, w);
    }
}

proof fn lemma_first_occurrence_exists(s: Seq<char>, p: Seq<char>, w: int)
    requires
        occurs_at(s, p, w),
    ensures
        exists|i: int| occurs_at(s, p, i) && forall|j: int| 0 <= j < i ==> !occurs_at(s, p, j),
    decreases w,
{
    if exists|j: int| 0 <= j < w && occurs_at(s, p, j) {
        let v = choose|j: int| 0 <= j < w && occurs_at(s, p, j);
        lemma_first_occurrence_exists(s, p, v);
    }
}

pub fn find_seq_exec(s: &Vec<char>, p: &Vec<char>) -> (r: Option<usize>)
    ensures
        match r {
            Some(i) => find_seq(s@, p@) == Some(i as int),
            None => find_seq(s@, p@) is None,
        },
{
    if p.len() > s.len() {
        assert(forall|j: int| !occurs_at(s@, p@, j));
        return None;
    }
    let last = s.len() - p.len();
    let mut i: usize = 0;
    loop
        invariant
            last == s@.len() - p@.len(),
            i <= last,
            forall|j: int| 0 <= j < i ==> !occurs_at(s@, p@, j),
        decreases last - i,
    {
        if occurs_at_exec(s, p, i) {
            proof {
                let w = choose|k: int| occurs_at(s@, p@, k) && forall|j: int| 0 <= j < k ==> !occurs_at(s@, p@, j);
                assert(occurs_at(s@, p@, i as int) && forall|j: int| 0 <= j < i ==> !occurs_at(s@, p@, j));
                if w < i {
                } else if w > i {
                    assert(!occurs_at(s@, p@, i as int));
                }
            }
            return Some(i);
        }
        if i == last {
            assert forall|j: int| !occurs_at(s@, p@, j) by {
                if 0 <= j <= i {
                }
            }
            return None;
        }
        i += 1;
    }
}

/// Position of the last `x` in `s`.
pub open spec fn rfind_char(s: Seq<char>, x: char) -> Option<int> {
    if exists|i: int| 0 <= i < s.len() && s[i] == x {
        Some(choose|i: int| 0 <= i < s.len() && s[i] == x && forall|j: int| i < j < s.len() ==> s[j] != x)
    } else {
        None
    }
}

pub fn rfind_char_exec(s: &Vec<char>, x: char) -> (r: Option<usize>)
    ensures
        match r {
            Some(i) => rfind_char(s@, x) == Some(i as int),
            None => rfind_char(s@, x) is None,
        },
{
    let mut i: usize = s.len();
    while i > 0
        invariant
            i <= s@.len(),
            forall|j: int| i <= j < s@.len() ==> s@[j] != x,
        decreases i,
    {
        if s[i - 1] == x {
            proof {
                let k = i - 1;
                let w = choose|m: int| 0 <= m < s@.len() && s@[m] == x && forall|j: int| m < j < s@.len() ==> s@[j] != x;
                assert(0 <= k < s@.len() && s@[k as int] == x && forall|j: int| k < j < s@.len() ==> s@[j] != x);
                if w < k {
                    assert(s@[k as int] != x);
                } else if w > k {
                }
            }
            return Some(i - 1);
        }
        i -= 1;
    }
    None
}

pub proof fn lemma_find_char(s: Seq<char>, x: char)
    ensures
        match find_char(s, x) {
            Some(i) => 0 <= i < s.len() && s[i] == x && forall|j: int| 0 <= j < i ==> s[j] != x,
            None => forall|j: int| 0 <= j < s.len() ==> s[j] != x,
        },
{
    if exists|i: int| 0 <= i < s.len() && s[i] == x {
        let w = choose|i: int| 0 <= i < s.len() && s[i] == x;
        lemma_first_char_exists(s, x, w);
    }
}

proof fn lemma_first_char_exists(s: Seq<char>, x: char, w: int)
    requires
        0 <= w < s.len(),
        s[w] == x,
    ensures
        exists|i: int| 0 <= i < s.len() && s[i] == x && forall|j: int| 0 <= j < i ==> s[j] != x,
    decreases w,
{
    if exists|j: int| 0 <= j < w && s[j] == x {
        let v = choose|j: int| 0 <= j < w && s[j] == x;
        lemma_first_char_exists(s, x, v);
    }
}

pub proof fn lemma_rfind_char(s: Seq<char>, x: char)
    ensures
        match rfind_char(s, x) {
            Some(i) => 0 <= i < s.len() && s[i] == x && forall|j: int| i < j < s.len() ==> s[j] != x,
            None => forall|j: int| 0 <= j < s.len() ==> s[j] != x,
        },
{
    if exists|i: int| 0 <= i < s.len() && s[i] == x {
        let w = choose|i: int| 0 <= i < s.len() && s[i] == x;
        lemma_last_char_exists(s, x, w);
    }
}

proof fn lemma_last_char_exists(s: Seq<char>, x: char, w: int)
    requires
        0 <= w < s.len(),
        s[w] == x,
    ensures
        exists|i: int| 0 <= i < s.len() && s[i] == x && forall|j: int| i < j < s.len() ==> s[j] != x,
    decreases s.len() - w,
{
    if exists|j: int| w < j < s.len() && s[j] == x {
        let v = choose|j: int| w < j < s.len() && s[j] == x;
        lemma_last_char_exists(s, x, v);
    }
}

/// The part of `s` before the first `x` (all of `s` when there is none):
/// what `s.split(x).next()` gives.
pub open spec fn before_first(s: Seq<char>, x: char) -> Seq<char> {
    match find_char(s, x) {
        Some(i) => s.take(i),
        None => s,
    }
}

/// The part of `s` after the last `x` (all of `s` when there is none):
/// what `s.rsplit(x).next()` gives.
pub open spec fn after_last(s: Seq<char>, x: char) -> Seq<char> {
    match rfind_char(s, x) {
        Some(i) => s.skip(i + 1),
        None => s,
    }
}

pub fn before_first_exec(v: &Vec<char>, x: char) -> (out: Vec<char>)
    ensures
        out@ == before_first(v@, x),
{
    proof {
        lemma_find_char(v@, x);
    }
    match find_char_exec(v, x) {
        Some(i) => {
            let out = slice_chars(v, 0, i);
            assert(out@ =~= v@.take(i as int));
            out
        },
        None => slice_chars(v, 0, v.len()),
    }
}

pub fn after_last_exec(v: &Vec<char>, x: char) -> (out: Vec<char>)
    ensures
        out@ == after_last(v@, x),
{
    proof {
        lemma_rfind_char(v@, x);
    }
    match rfind_char_exec(v, x) {
        Some(i) => {
            let n = v.len();
            assert(i < n);
            let out = slice_chars(v, i + 1, n);
            assert(out@ =~= v@.skip(i + 1));
            out
        },
        None => slice_chars(v, 0, v.len()),
    }
}

// ─── Lines ───────────────────────────────────────────────────────────────────

/// `s` split at every `'\n'` (pieces may be empty), left to right.
pub open spec fn split_newlines(s: Seq<char>) -> Seq<Seq<char>>
    decreases s.len(),
{
    if s.len() == 0 {
        seq![seq![]]
    } else {
        let prev = split_newlines(s.drop_last());
        if s.last() == '\n' {
            prev.push(seq![])
        } else {
            prev.drop_last().push(prev.last().push(s.last()))
        }
    }
}

pub open spec fn strip_cr(l: Seq<char>) -> Seq<char> {
    if l.len() > 0 && l.last() == '\r' {
        l.drop_last()
    } else {
        l
    }
}

/// `str::lines`: the pieces between `'\n'`s, a final empty piece dropped,
/// one trailing `'\r'` removed from each.
pub open spec fn lines(s: Seq<char>) -> Seq<Seq<char>> {
    let pieces = split_newlines(s);
    let kept = if pieces.last().len() == 0 {
        pieces.drop_last()
    } else {
        pieces
    };
    kept.map_values(|l: Seq<char>| strip_cr(l))
}

proof fn lemma_split_newlines_nonempty(s: Seq<char>)
    ensures
        split_newlines(s).len() >= 1,
    decreases s.len(),
{
    if s.len() > 0 {
        lemma_split_newlines_nonempty(s.drop_last());
    }
}

/// The lines of `s`.
pub fn lines_of(s: &Vec<char>) -> (out: Vec<Vec<char>>)
    ensures
        out@.map_values(|l: Vec<char>| l@) == lines(s@),
{
    let n = s.len();
    let mut done: Vec<Vec<char>> = Vec::new();
    let mut cur: Vec<char> = Vec::new();
    for i in 0..n
        invariant
            n == s@.len(),
            done@.map_values(|l: Vec<char>| l@).push(cur@) == split_newlines(s@.take(i as int)),
    {
        let c = s[i];
        proof {
            assert(s@.take(i + 1).drop_last() =~= s@.take(i as int));
            assert(s@.take(i + 1).last() == c);
        }
        let ghost before = done@.map_values(|l: Vec<char>| l@);
        if c == '\n' {
            let piece = cur;
            done.push(piece);
            cur = Vec::new();
            proof {
                assert(done@.map_values(|l: Vec<char>| l@) =~= before.push(piece@));
            }
        } else {
            let ghost old_cur = cur@;
            cur.push(c);
            proof {
                let sp = split_newlines(s@.take(i as int));
                assert(sp == before.push(old_cur));
                assert(sp.drop_last() =~= before);
                assert(sp.last() == old_cur);
                assert(before.push(cur@) =~= sp.drop_last().push(sp.last().push(c)));
            }
        }
    }
    assert(s@.take(n as int) =~= s@);
    let ghost pieces = split_newlines(s@);
    let mut out: Vec<Vec<char>> = Vec::new();
    let total = done.len();
    let keep_last = cur.len() > 0;
    let ghost kept = if pieces.last().len() == 0 {
        pieces.drop_last()
    } else {
        pieces
    };
    proof {
        lemma_split_newlines_nonempty(s@);
        assert(pieces.last() == cur@);
        assert(pieces.drop_last() =~= done@.map_values(|l: Vec<char>| l@));
    }
    for i in 0..total
        invariant
            total == done@.len(),
            pieces == done@.map_values(|l: Vec<char>| l@).push(cur@),
            kept.len() >= total,
            forall|j: int| 0 <= j < total ==> kept[j] == pieces[j],
            out@.map_values(|l: Vec<char>| l@) == kept.take(i as int).map_values(
                |l: Seq<char>| strip_cr(l),
            ),
    {
        let line = &done[i];
        let m = line.len();
        let stripped = if m > 0 && line[m - 1] == '\r' {
            slice_chars(line, 0, m - 1)
        } else {
            slice_chars(line, 0, m)
        };
        proof {
            assert(line@.subrange(0, m as int) =~= line@);
            if m > 0 {
                assert(line@.subrange(0, m - 1) =~= line@.drop_last());
            }
            assert(kept[i as int] == line@);
        }
        let ghost before = out@.map_values(|l: Vec<char>| l@);
        out.push(stripped);
        proof {
            assert(out@.map_values(|l: Vec<char>| l@) =~= before.push(stripped@));
            assert(kept.take(i + 1).map_values(|l: Seq<char>| strip_cr(l)) =~= kept.take(
                i as int,
            ).map_values(|l: Seq<char>| strip_cr(l)).push(strip_cr(kept[i as int])));
        }
    }
    if keep_last {
        let m = cur.len();
        let stripped = if cur[m - 1] == '\r' {
            slice_chars(&cur, 0, m - 1)
        } else {
            slice_chars(&cur, 0, m)
        };
        proof {
            assert(cur@.subrange(0, m as int) =~= cur@);
            assert(cur@.subrange(0, m - 1) =~= cur@.drop_last());
        }
        let ghost before = out@.map_values(|l: Vec<char>| l@);
        out.push(stripped);
        proof {
            assert(kept =~= pieces);
            assert(kept.take(total as int) =~= kept.drop_last());
            assert(out@.map_values(|l: Vec<char>| l@) =~= before.push(stripped@));
            assert(kept.map_values(|l: Seq<char>| strip_cr(l)) =~= kept.take(
                total as int,
            ).map_values(|l: Seq<char>| strip_cr(l)).push(strip_cr(kept[total as int])));
        }
    } else {
        proof {
            assert(kept =~= pieces.drop_last());
            assert(kept.take(total as int) =~= kept);
        }
    }
    out
}

// ─── Case folding ────────────────────────────────────────────────────────────

/// `char::to_ascii_lowercase`.
pub open spec fn lower_char(c: char) -> char {
    if 'A' <= c <= 'Z' {
        ((c as int) + 32) as char
    } else {
        c
    }
}

pub open spec fn lower(s: Seq<char>) -> Seq<char> {
    s.map_values(|c: char| lower_char(c))
}

/// ASCII lower-case of one character, as `char::to_ascii_lowercase`:
/// `'A'..='Z'` map to `'a'..='z'`, every other character is unchanged.
fn ascii_lower(c: char) -> (r: char)
    ensures
        r == lower_char(c),
{
    if 'A' <= c && c <= 'Z' {
        let b: u8 = c as u8;
        assert(b as int == c as int);
        (b + 32) as char
    } else {
        c
    }
}

/// `str::to_ascii_lowercase` on characters.
pub fn lower_chars(v: &Vec<char>) -> (out: Vec<char>)
    ensures
        out@ == lower(v@),
{
    let mut out: Vec<char> = Vec::new();
    let n = v.len();
    for i in 0..n
        invariant
            n == v@.len(),
            out@ == lower(v@.take(i as int)),
    {
        out.push(ascii_lower(v[i]));
        assert(lower(v@.take(i + 1)) =~= lower(v@.take(i as int)).push(lower_char(v@[i as int])));
    }
    assert(v@.take(n as int) =~= v@);
    out
}

// ─── Case mapping ────────────────────────────────────────────────────────────

/// Unicode upper-case mapping of a string (`str::to_uppercase`).
pub uninterp spec fn uppercase_of(s: Seq<char>) -> Seq<char>;

/// Wraps `str::to_uppercase`; the result is the Unicode upper-case mapping
/// of `s`, a function of `s` alone.
#[verifier::external_body]
pub(crate) fn to_uppercase(s: &str) -> (r: String)
    ensures
        r@ == uppercase_of(s@),
{
    s.to_uppercase()
}

// ─── Numbers ─────────────────────────────────────────────────────────────────

/// `n` in decimal, as `{}` formats it.
pub open spec fn dec(n: nat) -> Seq<char>
    decreases n,
{
    if n < 10 {
        seq![(('0' as nat) + n) as char]
    } else {
        dec(n / 10).push((('0' as nat) + n % 10) as char)
    }
}

fn dec_digit(d: usize) -> (c: char)
    requires
        d < 10,
    ensures
        c == (('0' as nat) + d) as char,
{
    let digits = ['0', '1', '2', '3', '4', '5', '6', '7', '8', '9'];
    let c = digits[d];
    assert(c == (('0' as nat) + d) as char) by {
        assert(('0' as nat) == 48);
    }
    c
}

/// Appends `n` in decimal.
pub fn push_dec(out: &mut String, n: usize)
    ensures
        final(out)@ == old(out)@ + dec(n as nat),
    decreases n,
{
    if n >= 10 {
        push_dec(out, n / 10);
    }
    push_char(out, dec_digit(n % 10));
    proof {
        if n < 10 {
            assert(n % 10 == n);
        }
        assert(old(out)@ + dec(n as nat) =~= old(out)@ + (if n >= 10 {
            dec((n / 10) as nat)
        } else {
            Seq::empty()
        }).push((('0' as nat) + (n % 10) as nat) as char));
    }
}

// ─── Truncation ──────────────────────────────────────────────────────────────

/// At most `max` characters: `s` itself when it fits, otherwise its first
/// `max - 1` characters followed by `'…'` (just `"…"` when `max` is 0).
pub open spec fn truncated(s: Seq<char>, max: nat) -> Seq<char> {
    if s.len() <= max {
        s
    } else {
        s.take(if max >= 1 {
            max - 1
        } else {
            0
        }).push('…')
    }
}

/// A truncated string is the string itself when it fits; otherwise it has
/// exactly `max` characters (one when `max` is 0), the last being `…` and
/// the others a prefix of the string.
pub proof fn lemma_truncated(s: Seq<char>, max: nat)
    ensures
        s.len() <= max ==> truncated(s, max) == s,
        s.len() > max ==> {
            &&& truncated(s, max).len() == (if max >= 1 {
                max
            } else {
                1
            })
            &&& truncated(s, max).last() == '…'
            &&& s.take(truncated(s, max).len() - 1) == truncated(s, max).drop_last()
        },
{
    if s.len() > max {
        let k: int = if max >= 1 {
            max - 1
        } else {
            0
        };
        assert(s.take(k).push('…').drop_last() =~= s.take(k));
    }
}

/// Truncate a string to at most `max` chars, appending `…` if cut.
pub fn truncate(s: &str, max: usize) -> (out: String)
    ensures
        out@ == truncated(s@, max as nat),
{
    let v = chars_of(s);
    if v.len() <= max {
        string_of(&v)
    } else {
        let keep = if max >= 1 {
            max - 1
        } else {
            0
        };
        let mut w = slice_chars(&v, 0, keep);
        w.push('…');
        assert(w@ =~= v@.take(keep as int).push('…'));
        string_of(&w)
    }
}

} // verus!
