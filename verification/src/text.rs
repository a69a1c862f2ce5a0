//! Character-level string helpers and the few std string and path
//! operations the library relies on.
use vstd::prelude::*;
use vstd::utf8::{decode_utf8, valid_utf8};

verus! {

/// `s` ends with `suffix`.
pub open spec fn ends_with(s: Seq<char>, suffix: Seq<char>) -> bool {
    suffix.len() <= s.len() && s.subrange(s.len() - suffix.len(), s.len() as int) == suffix
}

/// `s` starts with `prefix`.
pub open spec fn starts_with(s: Seq<char>, prefix: Seq<char>) -> bool {
    prefix.len() <= s.len() && s.subrange(0, prefix.len() as int) == prefix
}

/// The characters of `s`, in order.
pub fn chars_of(s: &str) -> (r: Vec<char>)
    ensures
        r@ == s@,
{
    broadcast use vstd::string::axiom_spec_iter;
    let mut r: Vec<char> = Vec::new();
    for c in it: s.chars()
        invariant
            it.seq() == s@,
            r@ == it.seq().take(it.index() as int),
    {
        r.push(c);
        assert(r@ =~= it.seq().take(it.index() + 1));
    }
    assert(r@ =~= s@);
    r
}

/// A string made of the characters `cs`, in order.
#[verifier::external_body]
pub(crate) fn string_of(cs: &[char]) -> (r: String)
    ensures
        r@ == cs@,
{
    cs.iter().collect()
}

/// A string holding a copy of `s`.
pub fn owned(s: &str) -> (r: String)
    ensures
        r@ == s@,
{
    s.to_owned()
}

/// Whether two character sequences are equal.
pub fn chars_equal(a: &[char], b: &[char]) -> (r: bool)
    ensures
        r == (a@ == b@),
{
    if a.len() != b.len() {
        return false;
    }
    let mut i: usize = 0;
    while i < a.len()
        invariant
            a@.len() == b@.len(),
            i <= a@.len(),
            forall|j: int| 0 <= j < i ==> a@[j] == b@[j],
        decreases a@.len() - i,
    {
        if a[i] != b[i] {
            return false;
        }
        i = i + 1;
    }
    assert(a@ =~= b@);
    true
}

/// Whether two strings hold the same characters.
pub fn str_equal(a: &str, b: &str) -> (r: bool)
    ensures
        r == (a@ == b@),
{
    let ca = chars_of(a);
    let cb = chars_of(b);
    chars_equal(ca.as_slice(), cb.as_slice())
}

/// Whether `s` ends with `suffix`.
pub fn str_ends_with(s: &str, suffix: &str) -> (r: bool)
    ensures
        r == ends_with(s@, suffix@),
{
    let cs = chars_of(s);
    let cx = chars_of(suffix);
    if cx.len() > cs.len() {
        return false;
    }
    let off: usize = cs.len() - cx.len();
    let mut i: usize = 0;
    while i < cx.len()
        invariant
            cs@ == s@,
            cx@ == suffix@,
            off == cs@.len() - cx@.len(),
            cx@.len() <= cs@.len(),
            cs@.len() <= usize::MAX,
            i <= cx@.len(),
            forall|j: int| 0 <= j < i ==> cs@[off + j] == cx@[j],
        decreases cx@.len() - i,
    {
        if cs[off + i] != cx[i] {
            assert(s@.subrange(s@.len() - suffix@.len(), s@.len() as int)[i as int] != suffix@[i as int]);
            return false;
        }
        i = i + 1;
    }
    assert(s@.subrange(s@.len() - suffix@.len(), s@.len() as int) =~= suffix@);
    true
}

/// Whether `s` starts with `prefix`.
pub fn str_starts_with(s: &str, prefix: &str) -> (r: bool)
    ensures
        r == starts_with(s@, prefix@),
{
    let cs = chars_of(s);
    let cp = chars_of(prefix);
    if cp.len() > cs.len() {
        return false;
    }
    let mut i: usize = 0;
    while i < cp.len()
        invariant
            cs@ == s@,
            cp@ == prefix@,
            cp@.len() <= cs@.len(),
            i <= cp@.len(),
            forall|j: int| 0 <= j < i ==> cs@[j] == cp@[j],
        decreases cp@.len() - i,
    {
        if cs[i] != cp[i] {
            assert(s@.subrange(0, prefix@.len() as int)[i as int] != prefix@[i as int]);
            return false;
        }
        i = i + 1;
    }
    assert(s@.subrange(0, prefix@.len() as int) =~= prefix@);
    true
}

/// What `str::to_lowercase` returns for a string: its lowercase
/// equivalent under the Unicode `Lowercase` property.
pub uninterp spec fn lowercase(s: Seq<char>) -> Seq<char>;

/// `str::to_lowercase`: the result is named by [`lowercase`].
#[verifier::external_body]
pub(crate) fn to_lowercase(s: &str) -> (r: String)
    ensures
        r@ == lowercase(s@),
{
    s.to_lowercase()
}

/// Whether `c` has the Unicode `White_Space` property, which
/// `char::is_whitespace` tests.
pub open spec fn is_white_space(c: char) -> bool {
    ('\u{9}' <= c && c <= '\u{d}') || c == ' ' || c == '\u{85}' || c == '\u{a0}' || c == '\u{1680}'
        || ('\u{2000}' <= c && c <= '\u{200a}') || c == '\u{2028}' || c == '\u{2029}' || c
        == '\u{202f}' || c == '\u{205f}' || c == '\u{3000}'
}

/// `s` without its leading white space.
pub open spec fn trim_start(s: Seq<char>) -> Seq<char>
    decreases s.len(),
{
    if s.len() > 0 && is_white_space(s[0]) {
        trim_start(s.drop_first())
    } else {
        s
    }
}

/// `s` without its trailing white space.
pub open spec fn trim_end(s: Seq<char>) -> Seq<char>
    decreases s.len(),
{
    if s.len() > 0 && is_white_space(s.last()) {
        trim_end(s.drop_last())
    } else {
        s
    }
}

/// `s` without leading and trailing white space, as `str::trim` gives it.
pub open spec fn trimmed(s: Seq<char>) -> Seq<char> {
    trim_end(trim_start(s))
}

/// Whether `c` is white space (see [`is_white_space`]).
pub fn white_space(c: char) -> (r: bool)
    ensures
        r == is_white_space(c),
{
    ('\u{9}' <= c && c <= '\u{d}') || c == ' ' || c == '\u{85}' || c == '\u{a0}' || c == '\u{1680}'
        || ('\u{2000}' <= c && c <= '\u{200a}') || c == '\u{2028}' || c == '\u{2029}' || c
        == '\u{202f}' || c == '\u{205f}' || c == '\u{3000}'
}

proof fn lemma_trim_start(s: Seq<char>, a: int)
    requires
        0 <= a <= s.len(),
        forall|i: int| 0 <= i < a ==> is_white_space(#[trigger] s[i]),
        a == s.len() || !is_white_space(s[a]),
    ensures
        trim_start(s) == s.skip(a),
    decreases a,
{
    if a == 0 {
        assert(s.skip(0) =~= s);
    } else {
        assert(is_white_space(s[0]));
        let t = s.drop_first();
        assert forall|i: int| 0 <= i < a - 1 implies is_white_space(#[trigger] t[i]) by {
            assert(t[i] == s[i + 1]);
        }
        if a < s.len() {
            assert(t[a - 1] == s[a]);
        }
        lemma_trim_start(t, a - 1);
        assert(t.skip(a - 1) =~= s.skip(a));
    }
}

proof fn lemma_trim_end(t: Seq<char>, b: int)
    requires
        0 <= b <= t.len(),
        forall|i: int| b <= i < t.len() ==> is_white_space(#[trigger] t[i]),
        b == 0 || !is_white_space(t[b - 1]),
    ensures
        trim_end(t) == t.take(b),
    decreases t.len() - b,
{
    if b == t.len() {
        assert(t.take(b) =~= t);
    } else {
        assert(is_white_space(t.last()));
        let u = t.drop_last();
        assert forall|i: int| b <= i < u.len() implies is_white_space(#[trigger] u[i]) by {
            assert(u[i] == t[i]);
        }
        if b > 0 {
            assert(u[b - 1] == t[b - 1]);
        }
        lemma_trim_end(u, b);
        assert(u.take(b) =~= t.take(b));
    }
}

/// `s` without leading and trailing white space, as `str::trim` gives it
/// (see [`trimmed`]).
pub fn trim(s: &str) -> (r: String)
    ensures
        r@ == trimmed(s@),
{
    let cs = chars_of(s);
    let mut a: usize = 0;
    while a < cs.len() && white_space(cs[a])
        invariant
            cs@ == s@,
            a <= cs@.len(),
            forall|i: int| 0 <= i < a ==> is_white_space(#[trigger] cs@[i]),
        decreases cs@.len() - a,
    {
        a = a + 1;
    }
    let mut b: usize = cs.len();
    while b > a && white_space(cs[b - 1])
        invariant
            cs@ == s@,
            a <= b <= cs@.len(),
            forall|i: int| b <= i < cs@.len() ==> is_white_space(#[trigger] cs@[i]),
        decreases b - a,
    {
        b = b - 1;
    }
    let mut out: Vec<char> = Vec::new();
    let mut i: usize = a;
    while i < b
        invariant
            cs@ == s@,
            a <= i <= b <= cs@.len(),
            out@ == cs@.subrange(a as int, i as int),
        decreases b - i,
    {
        out.push(cs[i]);
        i = i + 1;
        assert(out@ =~= cs@.subrange(a as int, i as int));
    }
    proof {
        let ghost sv = s@;
        lemma_trim_start(sv, a as int);
        let t = sv.skip(a as int);
        assert forall|k: int| (b - a) <= k < t.len() implies is_white_space(#[trigger] t[k]) by {
            assert(t[k] == sv[k + a]);
        }
        if b > a {
            assert(t[b - a - 1] == sv[b - 1]);
        }
        lemma_trim_end(t, b - a);
        assert(t.take(b - a) =~= sv.subrange(a as int, b as int));
    }
    string_of(out.as_slice())
}

/// What `format!("{:?}", s)` gives for a string: the string in double
/// quotes, with the characters that `str`'s `Debug` escapes escaped.
pub uninterp spec fn debug_quoted(s: Seq<char>) -> Seq<char>;

/// `str`'s `Debug` form: the result is named by [`debug_quoted`].
#[verifier::external_body]
pub(crate) fn debug_str(s: &str) -> (r: String)
    ensures
        r@ == debug_quoted(s@),
{
    format!("{:?}", s)
}

/// `std::str::from_utf8`: the decoded string exactly when `bytes` are
/// valid UTF-8.
#[verifier::external_body]
pub(crate) fn utf8_decode(bytes: &[u8]) -> (r: Option<String>)
    ensures
        r is Some <==> valid_utf8(bytes@),
        r matches Some(s) ==> s@ == decode_utf8(bytes@),
{
    match std::str::from_utf8(bytes) {
        Ok(s) => Some(s.to_owned()),
        Err(_) => None,
    }
}

/// What `Path::file_name` returns for a path: its final component, or
/// nothing when the path ends in `..` or is a root.
pub uninterp spec fn path_file_name(p: Seq<char>) -> Option<Seq<char>>;

/// `Path::file_name` on a UTF-8 path: the result is named by
/// [`path_file_name`].
#[verifier::external_body]
pub(crate) fn file_name(p: &str) -> (r: Option<String>)
    ensures
        r matches Some(n) ==> path_file_name(p@) == Some(n@),
        r is None ==> path_file_name(p@) is None,
{
    std::path::Path::new(p).file_name().map(|n| n.to_string_lossy().into_owned())
}

/// What `Path::parent` returns for a path: the path without its final
/// component, or nothing when it ends in a root or is empty.
pub uninterp spec fn path_parent(p: Seq<char>) -> Option<Seq<char>>;

/// `Path::parent` on a UTF-8 path: the result is named by [`path_parent`];
/// as the path without its final (non-empty) component it is shorter.
#[verifier::external_body]
pub(crate) fn parent(p: &str) -> (r: Option<String>)
    ensures
        r matches Some(q) ==> path_parent(p@) == Some(q@) && q@.len() < p@.len(),
        r is None ==> path_parent(p@) is None,
{
    std::path::Path::new(p).parent().map(|q| q.to_string_lossy().into_owned())
}

/// What `Path::file_stem` returns for a path: the file name without its
/// final extension.
pub uninterp spec fn path_file_stem(p: Seq<char>) -> Option<Seq<char>>;

/// `Path::file_stem` on a UTF-8 path: the result is named by
/// [`path_file_stem`].
#[verifier::external_body]
pub(crate) fn file_stem(p: &str) -> (r: Option<String>)
    ensures
        r matches Some(n) ==> path_file_stem(p@) == Some(n@),
        r is None ==> path_file_stem(p@) is None,
{
    std::path::Path::new(p).file_stem().map(|n| n.to_string_lossy().into_owned())
}

/// `base` joined with `rel` as `Path::join` does on Unix: an absolute
/// `rel` replaces `base`; otherwise a `/` separates them unless `base` is
/// empty or already ends in `/`.
pub open spec fn path_join(base: Seq<char>, rel: Seq<char>) -> Seq<char> {
    if rel.len() > 0 && rel[0] == '/' {
        rel
    } else if base.len() > 0 && base.last() != '/' {
        base + seq!['/'] + rel
    } else {
        base + rel
    }
}

/// `base` joined with `rel` (see [`path_join`]).
pub fn join(base: &str, rel: &str) -> (r: String)
    ensures
        r@ == path_join(base@, rel@),
{
    let cb = chars_of(base);
    let cr = chars_of(rel);
    if cr.len() > 0 && cr[0] == '/' {
        return owned(rel);
    }
    let mut out = cb;
    if out.len() > 0 && out[out.len() - 1] != '/' {
        out.push('/');
    }
    let mut i: usize = 0;
    let ghost start = out@;
    while i < cr.len()
        invariant
            cr@ == rel@,
            i <= cr@.len(),
            out@ == start + cr@.subrange(0, i as int),
        decreases cr@.len() - i,
    {
        out.push(cr[i]);
        i = i + 1;
        assert(out@ =~= start + cr@.subrange(0, i as int));
    }
    assert(cr@.subrange(0, cr@.len() as int) =~= cr@);
    assert(base@.len() > 0 && base@.last() != '/' ==> start =~= base@ + seq!['/']);
    string_of(out.as_slice())
}

/// Decimal digits of a natural number, most significant first.
pub open spec fn decimal(n: nat) -> Seq<char>
    decreases n,
{
    if n < 10 {
        seq![digit_char(n)]
    } else {
        decimal(n / 10) + seq![digit_char(n % 10)]
    }
}

/// The ASCII digit for `d < 10`.
pub open spec fn digit_char(d: nat) -> char {
    if d == 0 { '0' }
    else if d == 1 { '1' }
    else if d == 2 { '2' }
    else if d == 3 { '3' }
    else if d == 4 { '4' }
    else if d == 5 { '5' }
    else if d == 6 { '6' }
    else if d == 7 { '7' }
    else if d == 8 { '8' }
    else { '9' }
}

fn digit(d: u64) -> (c: char)
    requires
        d < 10,
    ensures
        c == digit_char(d as nat),
{
    if d == 0 { '0' }
    else if d == 1 { '1' }
    else if d == 2 { '2' }
    else if d == 3 { '3' }
    else if d == 4 { '4' }
    else if d == 5 { '5' }
    else if d == 6 { '6' }
    else if d == 7 { '7' }
    else if d == 8 { '8' }
    else { '9' }
}

/// Appends the decimal digits of `n` to `out`.
fn push_decimal(n: u64, out: &mut Vec<char>)
    ensures
        final(out)@ == old(out)@ + decimal(n as nat),
    decreases n,
{
    if n >= 10 {
        push_decimal(n / 10, out);
    }
    out.push(digit(n % 10));
}

/// The decimal text of `n`, as `u64`'s `Display` writes it.
pub fn decimal_text(n: u64) -> (r: String)
    ensures
        r@ == decimal(n as nat),
{
    let mut out: Vec<char> = Vec::new();
    push_decimal(n, &mut out);
    assert(out@ =~= decimal(n as nat));
    string_of(out.as_slice())
}

/// Decimal text of an integer, with a leading `-` when it is negative.
pub open spec fn signed_decimal(i: int) -> Seq<char> {
    if i < 0 {
        seq!['-'] + decimal((-i) as nat)
    } else {
        decimal(i as nat)
    }
}

/// The decimal text of `i`, as `i64`'s `Display` writes it.
pub fn signed_decimal_text(i: i64) -> (r: String)
    ensures
        r@ == signed_decimal(i as int),
{
    if i < 0 {
        let magnitude: u64 = ((-(i + 1)) as u64) + 1;
        assert(magnitude == -(i as int));
        let mut out: Vec<char> = Vec::new();
        out.push('-');
        push_decimal(magnitude, &mut out);
        string_of(out.as_slice())
    } else {
        decimal_text(i as u64)
    }
}

/// `a` followed by `b`.
pub fn concat(a: &str, b: &str) -> (r: String)
    ensures
        r@ == a@ + b@,
{
    owned(a).concat(b)
}

} // verus!
