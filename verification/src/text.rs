//! Character-level string helpers shared by the services.
//!
//! Every helper works on the `Seq<char>` view of a string, so the services can state their
//! contracts over plain character sequences.
use vstd::prelude::*;

verus! {

/// Unicode `White_Space` code points, the definition that `char::is_whitespace` uses.
pub open spec fn is_ws(c: char) -> bool {
    ||| ('\u{9}' <= c && c <= '\u{d}')
    ||| c == ' '
    ||| c == '\u{85}'
    ||| c == '\u{a0}'
    ||| c == '\u{1680}'
    ||| ('\u{2000}' <= c && c <= '\u{200a}')
    ||| c == '\u{2028}'
    ||| c == '\u{2029}'
    ||| c == '\u{202f}'
    ||| c == '\u{205f}'
    ||| c == '\u{3000}'
}

pub open spec fn is_digit(c: char) -> bool {
    '0' <= c && c <= '9'
}

pub open spec fn all_digits(s: Seq<char>) -> bool {
    forall|i: int| 0 <= i < s.len() ==> #[trigger] is_digit(s[i])
}

/// The sequence without its leading white space.
pub open spec fn trim_start(s: Seq<char>) -> Seq<char>
    decreases s.len(),
{
    if s.len() > 0 && is_ws(s[0]) {
        trim_start(s.drop_first())
    } else {
        s
    }
}

/// The sequence without its trailing white space.
pub open spec fn trim_end(s: Seq<char>) -> Seq<char>
    decreases s.len(),
{
    if s.len() > 0 && is_ws(s.last()) {
        trim_end(s.drop_last())
    } else {
        s
    }
}

/// What `str::trim` gives back: leading and trailing white space removed.
pub open spec fn trim(s: Seq<char>) -> Seq<char> {
    trim_end(trim_start(s))
}

/// `needle` occurs in `hay` at position `i`.
pub open spec fn occurs_at(hay: Seq<char>, needle: Seq<char>, i: int) -> bool {
    0 <= i && i + needle.len() <= hay.len() && hay.subrange(i, i + needle.len()) == needle
}

/// What `str::contains` gives back for a string pattern.
pub open spec fn contains(hay: Seq<char>, needle: Seq<char>) -> bool {
    exists|i: int| occurs_at(hay, needle, i)
}

pub open spec fn starts_with(s: Seq<char>, prefix: Seq<char>) -> bool {
    occurs_at(s, prefix, 0)
}

/// Lexicographic order of two strings by code point, the order of `str`'s `<`.
pub open spec fn lex_lt(a: Seq<char>, b: Seq<char>) -> bool
    decreases a.len(),
{
    if a.len() == 0 {
        b.len() > 0
    } else if b.len() == 0 {
        false
    } else if a[0] != b[0] {
        a[0] < b[0]
    } else {
        lex_lt(a.drop_first(), b.drop_first())
    }
}

/// The first `n` characters (or all of them when there are fewer).
pub open spec fn take_chars(s: Seq<char>, n: int) -> Seq<char> {
    if s.len() <= n {
        s
    } else {
        s.take(n)
    }
}

/// Collects the characters of a string slice (`str::chars` collected into a `Vec`).
pub(crate) fn chars_of(s: &str) -> (r: Vec<char>)
    ensures
        r@ == s@,
{
    let mut out: Vec<char> = Vec::new();
    for c in iter: s.chars()
        invariant
            iter.seq() == s@,
            out@ == s@.take(iter.index() as int),
    {
        out.push(c);
        proof {
            assert(s@.take(iter.index() + 1) =~= s@.take(iter.index() as int).push(c));
        }
    }
    proof {
        assert(out@ =~= s@);
    }
    out
}

/// Builds a `String` from characters (`String: FromIterator<char>`).
#[verifier::external_body]
pub(crate) fn string_of(v: &Vec<char>) -> (r: String)
    ensures
        r@ == v@,
{
    v.iter().collect()
}

pub fn is_whitespace(c: char) -> (r: bool)
    ensures
        r == is_ws(c),
{
    ('\u{9}' <= c && c <= '\u{d}') || c == ' ' || c == '\u{85}' || c == '\u{a0}' || c
        == '\u{1680}' || ('\u{2000}' <= c && c <= '\u{200a}') || c == '\u{2028}' || c
        == '\u{2029}' || c == '\u{202f}' || c == '\u{205f}' || c == '\u{3000}'
}

pub fn is_ascii_digit(c: char) -> (r: bool)
    ensures
        r == is_digit(c),
{
    '0' <= c && c <= '9'
}

/// A copy of `v[lo..hi]`.
pub fn sub_vec(v: &Vec<char>, lo: usize, hi: usize) -> (r: Vec<char>)
    requires
        lo <= hi <= v.len(),
    ensures
        r@ == v@.subrange(lo as int, hi as int),
{
    let mut r: Vec<char> = Vec::new();
    let mut i = lo;
    while i < hi
        invariant
            lo <= i <= hi <= v.len(),
            r@ == v@.subrange(lo as int, i as int),
        decreases hi - i,
    {
        r.push(v[i]);
        proof {
            assert(v@.subrange(lo as int, i + 1) == v@.subrange(lo as int, i as int).push(v@[i as int]));
        }
        i = i + 1;
    }
    r
}

proof fn lemma_trim_start_skip(s: Seq<char>, i: int)
    requires
        0 <= i <= s.len(),
        forall|k: int| 0 <= k < i ==> is_ws(#[trigger] s[k]),
    ensures
        trim_start(s) == trim_start(s.subrange(i, s.len() as int)),
    decreases i,
{
    if i > 0 {
        assert(is_ws(s[0]));
        assert(s.drop_first() == s.subrange(1, s.len() as int));
        let t = s.drop_first();
        assert forall|k: int| 0 <= k < i - 1 implies is_ws(#[trigger] t[k]) by {
            assert(t[k] == s[k + 1]);
        }
        lemma_trim_start_skip(t, i - 1);
        assert(t.subrange(i - 1, t.len() as int) == s.subrange(i, s.len() as int));
    } else {
        assert(s.subrange(0, s.len() as int) == s);
    }
}

proof fn lemma_trim_end_take(s: Seq<char>, j: int)
    requires
        0 <= j <= s.len(),
        forall|k: int| j <= k < s.len() ==> is_ws(#[trigger] s[k]),
    ensures
        trim_end(s) == trim_end(s.subrange(0, j)),
    decreases s.len() - j,
{
    if j < s.len() {
        assert(is_ws(s[s.len() - 1]));
        let t = s.drop_last();
        assert(t == s.subrange(0, s.len() - 1));
        assert forall|k: int| j <= k < t.len() implies is_ws(#[trigger] t[k]) by {
            assert(t[k] == s[k]);
        }
        lemma_trim_end_take(t, j);
        assert(t.subrange(0, j) == s.subrange(0, j));
    } else {
        assert(s.subrange(0, j) == s);
    }
}

/// Removes leading and trailing white space.
pub fn trim_vec(v: &Vec<char>) -> (r: Vec<char>)
    ensures
        r@ == trim(v@),
{
    let n = v.len();
    let mut i: usize = 0;
    while i < n && is_whitespace(v[i])
        invariant
            i <= n == v.len(),
            forall|k: int| 0 <= k < i ==> is_ws(#[trigger] v@[k]),
        decreases n - i,
    {
        i = i + 1;
    }
    proof {
        lemma_trim_start_skip(v@, i as int);
        let rest = v@.subrange(i as int, n as int);
        if rest.len() > 0 {
            assert(rest[0] == v@[i as int]);
        }
    }
    let ghost rest = v@.subrange(i as int, n as int);
    assert(trim_start(v@) == rest);
    let mut j: usize = n;
    while j > i && is_whitespace(v[j - 1])
        invariant
            i <= j <= n == v.len(),
            rest == v@.subrange(i as int, n as int),
            forall|k: int| j <= k < n ==> is_ws(#[trigger] v@[k]),
        decreases j,
    {
        j = j - 1;
    }
    proof {
        assert forall|k: int| j - i <= k < rest.len() implies is_ws(#[trigger] rest[k]) by {
            assert(rest[k] == v@[k + i]);
        }
        lemma_trim_end_take(rest, j - i);
        let mid = rest.subrange(0, j - i);
        assert(mid == v@.subrange(i as int, j as int));
        if mid.len() > 0 {
            assert(mid.last() == v@[j - 1]);
        }
    }
    sub_vec(v, i, j)
}

/// `str::trim` followed by `to_owned`.
pub fn trim_str(s: &str) -> (r: String)
    ensures
        r@ == trim(s@),
{
    let v = chars_of(s);
    let t = trim_vec(&v);
    string_of(&t)
}

/// Whether `s.trim()` is empty.
pub fn is_blank(s: &str) -> (r: bool)
    ensures
        r == (trim(s@).len() == 0),
{
    let v = chars_of(s);
    let t = trim_vec(&v);
    t.len() == 0
}

pub fn vec_eq(a: &Vec<char>, b: &Vec<char>) -> (r: bool)
    ensures
        r == (a@ == b@),
{
    if a.len() != b.len() {
        return false;
    }
    let mut i: usize = 0;
    while i < a.len()
        invariant
            a.len() == b.len(),
            i <= a.len(),
            forall|k: int| 0 <= k < i ==> a@[k] == b@[k],
        decreases a.len() - i,
    {
        if a[i] != b[i] {
            return false;
        }
        i = i + 1;
    }
    assert(a@ == b@);
    true
}

/// Equality of two string slices, by their characters.
pub fn str_eq(a: &str, b: &str) -> (r: bool)
    ensures
        r == (a@ == b@),
{
    let va = chars_of(a);
    let vb = chars_of(b);
    vec_eq(&va, &vb)
}

/// Whether `needle` occurs in `hay` at position `i`.
pub fn occurs_at_vec(hay: &Vec<char>, needle: &Vec<char>, i: usize) -> (r: bool)
    ensures
        r == occurs_at(hay@, needle@, i as int),
{
    if i > hay.len() || needle.len() > hay.len() - i {
        return false;
    }
    let mut k: usize = 0;
    while k < needle.len()
        invariant
            i + needle.len() <= hay.len(),
            k <= needle.len(),
            forall|m: int| 0 <= m < k ==> hay@[i + m] == needle@[m],
        decreases needle.len() - k,
    {
        if hay[i + k] != needle[k] {
            assert(hay@.subrange(i as int, i + needle.len())[k as int] == hay@[i + k]);
            return false;
        }
        k = k + 1;
    }
    assert(hay@.subrange(i as int, i + needle.len()) == needle@);
    true
}

/// `str::contains` with a string pattern, over characters.
pub fn contains_vec(hay: &Vec<char>, needle: &Vec<char>) -> (r: bool)
    ensures
        r == contains(hay@, needle@),
{
    if needle.len() > hay.len() {
        assert forall|i: int| !occurs_at(hay@, needle@, i) by {}
        return false;
    }
    if needle.len() == 0 {
        assert(hay@.subrange(0, 0) == needle@);
        assert(occurs_at(hay@, needle@, 0));
        return true;
    }
    let last = hay.len() - needle.len();
    let mut i: usize = 0;
    while i <= last
        invariant
            needle.len() <= hay.len(),
            needle.len() > 0,
            last == hay.len() - needle.len(),
            i <= last + 1,
            forall|k: int| 0 <= k < i ==> !occurs_at(hay@, needle@, k),
        decreases hay.len() - needle.len() + 1 - i,
    {
        if occurs_at_vec(hay, needle, i) {
            return true;
        }
        i = i + 1;
    }
    assert forall|k: int| !occurs_at(hay@, needle@, k) by {
        if 0 <= k < i {
        }
    }
    false
}

/// `str::contains` with a string pattern.
pub fn str_contains(hay: &str, needle: &str) -> (r: bool)
    ensures
        r == contains(hay@, needle@),
{
    let h = chars_of(hay);
    let n = chars_of(needle);
    contains_vec(&h, &n)
}

/// `str::starts_with` with a string pattern.
pub fn str_starts_with(s: &str, prefix: &str) -> (r: bool)
    ensures
        r == starts_with(s@, prefix@),
{
    let h = chars_of(s);
    let n = chars_of(prefix);
    occurs_at_vec(&h, &n, 0)
}

/// Whether every character is an ASCII digit.
pub fn all_ascii_digits(v: &Vec<char>) -> (r: bool)
    ensures
        r == all_digits(v@),
{
    let mut i: usize = 0;
    while i < v.len()
        invariant
            i <= v.len(),
            forall|k: int| 0 <= k < i ==> #[trigger] is_digit(v@[k]),
        decreases v.len() - i,
    {
        if !is_ascii_digit(v[i]) {
            return false;
        }
        i = i + 1;
    }
    true
}

/// `a < b` for strings.
pub fn lex_less(a: &Vec<char>, b: &Vec<char>) -> (r: bool)
    ensures
        r == lex_lt(a@, b@),
{
    let mut i: usize = 0;
    assert(a@.subrange(0, a.len() as int) == a@);
    assert(b@.subrange(0, b.len() as int) == b@);
    while i < a.len() && i < b.len() && a[i] == b[i]
        invariant
            i <= a.len(),
            i <= b.len(),
            lex_lt(a@, b@) == lex_lt(a@.subrange(i as int, a.len() as int), b@.subrange(
                i as int,
                b.len() as int,
            )),
        decreases a.len() - i,
    {
        proof {
            let sa = a@.subrange(i as int, a.len() as int);
            let sb = b@.subrange(i as int, b.len() as int);
            assert(sa.drop_first() == a@.subrange(i + 1, a.len() as int));
            assert(sb.drop_first() == b@.subrange(i + 1, b.len() as int));
            assert(sa[0] == a@[i as int]);
            assert(sb[0] == b@[i as int]);
        }
        i = i + 1;
    }
    proof {
        let sa = a@.subrange(i as int, a.len() as int);
        let sb = b@.subrange(i as int, b.len() as int);
        if sa.len() > 0 {
            assert(sa[0] == a@[i as int]);
        }
        if sb.len() > 0 {
            assert(sb[0] == b@[i as int]);
        }
    }
    if i == a.len() {
        i < b.len()
    } else if i == b.len() {
        false
    } else {
        a[i] < b[i]
    }
}

/// Concatenation of two strings.
pub fn concat2(a: &str, b: &str) -> (r: String)
    ensures
        r@ == a@ + b@,
{
    let mut r = String::from_str(a);
    r.append(b);
    r
}

/// Concatenation of three strings.
pub fn concat3(a: &str, b: &str, c: &str) -> (r: String)
    ensures
        r@ == a@ + b@ + c@,
{
    let mut r = String::from_str(a);
    r.append(b);
    r.append(c);
    r
}

/// The decimal digit for `d` in `0..10`.
pub open spec fn digit_char(d: int) -> char {
    if d == 0 {
        '0'
    } else if d == 1 {
        '1'
    } else if d == 2 {
        '2'
    } else if d == 3 {
        '3'
    } else if d == 4 {
        '4'
    } else if d == 5 {
        '5'
    } else if d == 6 {
        '6'
    } else if d == 7 {
        '7'
    } else if d == 8 {
        '8'
    } else {
        '9'
    }
}

/// The decimal text of a natural number, as `to_string` writes it.
pub open spec fn nat_text(n: nat) -> Seq<char>
    decreases n,
{
    if n < 10 {
        seq![digit_char(n as int)]
    } else {
        nat_text(n / 10).push(digit_char((n % 10) as int))
    }
}

/// The decimal text of an integer, with a leading `-` when it is negative.
pub open spec fn int_text(n: int) -> Seq<char> {
    if n < 0 {
        seq!['-'] + nat_text((-n) as nat)
    } else {
        nat_text(n as nat)
    }
}

fn digit(d: u64) -> (r: char)
    requires
        d < 10,
    ensures
        r == digit_char(d as int),
{
    if d == 0 {
        '0'
    } else if d == 1 {
        '1'
    } else if d == 2 {
        '2'
    } else if d == 3 {
        '3'
    } else if d == 4 {
        '4'
    } else if d == 5 {
        '5'
    } else if d == 6 {
        '6'
    } else if d == 7 {
        '7'
    } else if d == 8 {
        '8'
    } else {
        '9'
    }
}

fn push_digits(n: u64, out: &mut Vec<char>)
    ensures
        final(out)@ == old(out)@ + nat_text(n as nat),
    decreases n,
{
    if n >= 10 {
        push_digits(n / 10, out);
    }
    out.push(digit(n % 10));
    proof {
        if n >= 10 {
            assert(nat_text(n as nat) == nat_text((n / 10) as nat).push(digit_char((n % 10) as int)));
        }
    }
}

/// `u64::to_string`.
pub fn u64_text(n: u64) -> (r: String)
    ensures
        r@ == nat_text(n as nat),
{
    let mut v: Vec<char> = Vec::new();
    push_digits(n, &mut v);
    proof {
        assert(v@ =~= nat_text(n as nat));
    }
    string_of(&v)
}

/// `i64::to_string`.
pub fn i64_text(n: i64) -> (r: String)
    ensures
        r@ == int_text(n as int),
{
    let mut v: Vec<char> = Vec::new();
    if n < 0 {
        v.push('-');
        let m: u64 = (-(n as i128)) as u64;
        push_digits(m, &mut v);
    } else {
        push_digits(n as u64, &mut v);
        proof {
            assert(v@ =~= nat_text(n as nat));
        }
    }
    string_of(&v)
}

/// `to` before every character and at the end: what `str::replace` does with an empty pattern.
pub open spec fn interleave(s: Seq<char>, to: Seq<char>) -> Seq<char>
    decreases s.len(),
{
    if s.len() == 0 {
        to
    } else {
        to + seq![s[0]] + interleave(s.skip(1), to)
    }
}

/// What `str::replace(from, to)` gives: the non-overlapping occurrences of `from`, found left to
/// right, replaced by `to`.
pub open spec fn replace_spec(s: Seq<char>, from: Seq<char>, to: Seq<char>) -> Seq<char>
    decreases s.len(),
{
    if from.len() == 0 {
        interleave(s, to)
    } else if s.len() < from.len() {
        s
    } else if s.subrange(0, from.len() as int) == from {
        to + replace_spec(s.skip(from.len() as int), from, to)
    } else {
        seq![s[0]] + replace_spec(s.skip(1), from, to)
    }
}

/// Until the replacement text reaches `c`, replacing agrees with the original: the first `j`
/// characters of the result are those of `s` while none of them is `c`, where `to` and `from`
/// agree before the position `p` of `c` in `to`.
proof fn lemma_replace_prefix(s: Seq<char>, from: Seq<char>, to: Seq<char>, c: char, p: int, j: int)
    requires
        from.len() > 0,
        0 <= p < to.len(),
        p <= from.len(),
        to[p] == c,
        to.take(p) == from.take(p),
        0 <= j <= replace_spec(s, from, to).len(),
        forall|m: int| 0 <= m < j ==> replace_spec(s, from, to)[m] != c,
    ensures
        j <= s.len(),
        replace_spec(s, from, to).take(j) == s.take(j),
    decreases s.len(),
{
    let out = replace_spec(s, from, to);
    if s.len() < from.len() {
    } else if s.subrange(0, from.len() as int) == from {
        let r = replace_spec(s.skip(from.len() as int), from, to);
        assert(out == to + r);
        if j > p {
            assert(out[p] == to[p]);
        }
        assert(out.take(j) =~= to.take(p).take(j));
        assert(s.take(j) =~= from.take(p).take(j)) by {
            assert forall|m: int| 0 <= m < j implies s.take(j)[m] == from.take(p).take(j)[m] by {
                assert(s.subrange(0, from.len() as int)[m] == from[m]);
            }
        }
    } else if j > 0 {
        let t = s.skip(1);
        let r = replace_spec(t, from, to);
        assert(out == seq![s[0]] + r);
        assert forall|m: int| 0 <= m < j - 1 implies r[m] != c by {
            assert(out[m + 1] == r[m]);
        }
        lemma_replace_prefix(t, from, to, c, p, j - 1);
        assert(out.take(j) =~= seq![s[0]] + r.take(j - 1));
        assert(s.take(j) =~= seq![s[0]] + t.take(j - 1));
    } else {
        assert(out.take(0) =~= s.take(0));
    }
}

/// After replacing, `key` is nowhere in the result when every occurrence of `key` in `s` is an
/// occurrence of `from`, `key` holds neither `c` nor the last character of `to`, and `key`
/// occurs in `to` only inside the part agreeing with `from`, and then only when `s` holds no
/// `key` at all.
pub proof fn lemma_replace_leaves_no_key(
    s: Seq<char>,
    from: Seq<char>,
    to: Seq<char>,
    key: Seq<char>,
    c: char,
    p: int,
)
    requires
        from.len() > 0,
        key.len() > 0,
        0 <= p < to.len(),
        p <= from.len(),
        to[p] == c,
        to.take(p) == from.take(p),
        forall|m: int| 0 <= m < key.len() ==> key[m] != c && key[m] != to.last(),
        forall|i: int| #[trigger] occurs_at(s, key, i) ==> occurs_at(s, from, i),
        forall|i: int|
            #[trigger] occurs_at(to, key, i) ==> i + key.len() <= p && forall|n: int|
                !occurs_at(s, key, n),
    ensures
        forall|i: int| !occurs_at(replace_spec(s, from, to), key, i),
    decreases s.len(),
{
    let out = replace_spec(s, from, to);
    let k = key.len() as int;
    assert forall|i: int| !occurs_at(out, key, i) by {
        if occurs_at(out, key, i) {
            assert(out.subrange(i, i + k) == key);
            if s.len() < from.len() {
                assert(out == s);
                assert(occurs_at(s, from, i));
            } else if s.subrange(0, from.len() as int) == from {
                let f = from.len() as int;
                let t = s.skip(f);
                let r = replace_spec(t, from, to);
                assert(out == to + r);
                if i + k <= to.len() {
                    assert(to.subrange(i, i + k) =~= out.subrange(i, i + k));
                    assert(occurs_at(to, key, i));
                    assert(s.subrange(i, i + k) =~= key) by {
                        assert(i + k <= p);
                        assert forall|m: int| 0 <= m < k implies s.subrange(i, i + k)[m] == key[m] by {
                            assert(i + m < p);
                            assert(to.take(p)[i + m] == to[i + m]);
                            assert(from.take(p)[i + m] == from[i + m]);
                            assert(to.take(p)[i + m] == from.take(p)[i + m]);
                            assert(out[i + m] == to[i + m]);
                            assert(key[m] == out.subrange(i, i + k)[m]);
                            assert(s.subrange(0, f)[i + m] == from[i + m]);
                            assert(out.subrange(i, i + k)[m] == to[i + m]);
                        }
                    }
                    assert(occurs_at(s, key, i));
                } else if i < to.len() {
                    let m = to.len() - 1 - i;
                    assert(out.subrange(i, i + k)[m] == out[to.len() - 1]);
                    assert(out[to.len() - 1] == to.last());
                } else {
                    let i2 = i - to.len();
                    assert(r.subrange(i2, i2 + k) =~= out.subrange(i, i + k));
                    assert forall|n: int| #[trigger] occurs_at(t, key, n) implies occurs_at(t, from, n) by {
                        assert(t.subrange(n, n + k) =~= s.subrange(n + f, n + f + k));
                        assert(occurs_at(s, key, n + f));
                        assert(t.subrange(n, n + f) =~= s.subrange(n + f, n + f + f));
                    }
                    assert forall|n: int| #[trigger] occurs_at(to, key, n) implies n + key.len() <= p
                        && forall|q: int| !occurs_at(t, key, q) by {
                        assert forall|q: int| !occurs_at(t, key, q) by {
                            if occurs_at(t, key, q) {
                                assert(t.subrange(q, q + k) =~= s.subrange(q + f, q + f + k));
                                assert(occurs_at(s, key, q + f));
                            }
                        }
                    }
                    lemma_replace_leaves_no_key(t, from, to, key, c, p);
                    assert(occurs_at(r, key, i2));
                }
            } else {
                let t = s.skip(1);
                let r = replace_spec(t, from, to);
                assert(out == seq![s[0]] + r);
                if i == 0 {
                    assert forall|m: int| 0 <= m < k implies out[m] != c by {
                        assert(out.subrange(0, k)[m] == out[m]);
                    }
                    lemma_replace_prefix(s, from, to, c, p, k);
                    assert(out.take(k) =~= out.subrange(0, k));
                    assert(s.subrange(0, k) =~= s.take(k));
                    assert(occurs_at(s, key, 0));
                    assert(occurs_at(s, from, 0));
                } else {
                    let i2 = i - 1;
                    assert(r.subrange(i2, i2 + k) =~= out.subrange(i, i + k));
                    assert forall|n: int| #[trigger] occurs_at(t, key, n) implies occurs_at(t, from, n) by {
                        assert(t.subrange(n, n + k) =~= s.subrange(n + 1, n + 1 + k));
                        assert(occurs_at(s, key, n + 1));
                        assert(t.subrange(n, n + from.len()) =~= s.subrange(n + 1, n + 1 + from.len()));
                    }
                    assert forall|n: int| #[trigger] occurs_at(to, key, n) implies n + key.len() <= p
                        && forall|q: int| !occurs_at(t, key, q) by {
                        assert forall|q: int| !occurs_at(t, key, q) by {
                            if occurs_at(t, key, q) {
                                assert(t.subrange(q, q + k) =~= s.subrange(q + 1, q + 1 + k));
                                assert(occurs_at(s, key, q + 1));
                            }
                        }
                    }
                    lemma_replace_leaves_no_key(t, from, to, key, c, p);
                    assert(occurs_at(r, key, i2));
                }
            }
        }
    }
}

fn push_all(out: &mut Vec<char>, s: &Vec<char>)
    ensures
        final(out)@ == old(out)@ + s@,
{
    let mut i: usize = 0;
    while i < s.len()
        invariant
            0 <= i <= s.len(),
            out@ == old(out)@ + s@.take(i as int),
        decreases s.len() - i,
    {
        out.push(s[i]);
        proof {
            assert(s@.take(i as int + 1) =~= s@.take(i as int).push(s@[i as int]));
        }
        i = i + 1;
    }
    proof {
        assert(s@.take(s@.len() as int) =~= s@);
    }
}

/// `str::replace`.
pub fn replace_str(s: &str, from: &str, to: &str) -> (r: String)
    ensures
        r@ == replace_spec(s@, from@, to@),
{
    let sv = chars_of(s);
    let fv = chars_of(from);
    let tv = chars_of(to);
    let mut out: Vec<char> = Vec::new();
    let n = sv.len();
    let m = fv.len();
    let mut i: usize = 0;
    if m == 0 {
        proof {
            assert(sv@.skip(0) =~= sv@);
            assert(out@ + interleave(sv@, tv@) =~= interleave(sv@, tv@));
        }
        while i < n
            invariant
                0 <= i <= n == sv@.len(),
                fv@.len() == 0,
                interleave(sv@, tv@) == out@ + interleave(sv@.skip(i as int), tv@),
            decreases n - i,
        {
            let ghost before = out@;
            push_all(&mut out, &tv);
            out.push(sv[i]);
            proof {
                let rest = sv@.skip(i as int);
                assert(rest[0] == sv@[i as int]);
                assert(rest.skip(1) =~= sv@.skip(i + 1));
                assert(out@ =~= before + tv@ + seq![sv@[i as int]]);
            }
            i = i + 1;
        }
        push_all(&mut out, &tv);
        proof {
            assert(sv@.skip(n as int).len() == 0);
        }
        return string_of(&out);
    }
    proof {
        assert(sv@.skip(0) =~= sv@);
        assert(out@ + replace_spec(sv@, fv@, tv@) =~= replace_spec(sv@, fv@, tv@));
    }
    while i < n
        invariant
            0 <= i <= n == sv@.len(),
            m == fv@.len() > 0,
            replace_spec(sv@, fv@, tv@) == out@ + replace_spec(sv@.skip(i as int), fv@, tv@),
        decreases n - i,
    {
        let rest = Ghost(sv@.skip(i as int));
        let ghost before = out@;
        if m <= n - i && occurs_at_vec(&sv, &fv, i) {
            push_all(&mut out, &tv);
            proof {
                assert(rest@.subrange(0, m as int) =~= sv@.subrange(i as int, i + m));
                assert(rest@.skip(m as int) =~= sv@.skip(i + m));
                assert(out@ =~= before + tv@);
            }
            i = i + m;
        } else {
            out.push(sv[i]);
            proof {
                if rest@.len() >= m {
                    assert(rest@.subrange(0, m as int) =~= sv@.subrange(i as int, i + m));
                }
                assert(rest@[0] == sv@[i as int]);
                assert(rest@.skip(1) =~= sv@.skip(i + 1));
                assert(out@ =~= before + seq![sv@[i as int]]);
            }
            i = i + 1;
        }
    }
    proof {
        assert(sv@.skip(n as int).len() == 0);
        assert(out@ + Seq::<char>::empty() =~= out@);
    }
    string_of(&out)
}

/// Each line break (`\n` or `\r`) turned into a space.
pub open spec fn flatten_lines(s: Seq<char>) -> Seq<char> {
    s.map_values(|c: char| if c == '\n' || c == '\r' { ' ' } else { c })
}

/// `s.replace(['\n', '\r'], " ")`.
pub fn flatten_line_breaks(s: &str) -> (r: String)
    ensures
        r@ == flatten_lines(s@),
{
    let v = chars_of(s);
    let mut out: Vec<char> = Vec::new();
    let mut i: usize = 0;
    while i < v.len()
        invariant
            0 <= i <= v.len(),
            out@ == flatten_lines(v@.take(i as int)),
        decreases v.len() - i,
    {
        let c = v[i];
        out.push(if c == '\n' || c == '\r' { ' ' } else { c });
        proof {
            assert(flatten_lines(v@.take(i as int + 1)) =~= flatten_lines(v@.take(i as int)).push(
                if c == '\n' || c == '\r' { ' ' } else { c },
            ));
        }
        i = i + 1;
    }
    proof {
        assert(v@.take(v@.len() as int) =~= v@);
    }
    string_of(&out)
}

/// The first `n` characters as a `String` (`chars().take(n).collect()`), and whether there were
/// more.
pub fn take_prefix(s: &str, n: usize) -> (r: (String, bool))
    ensures
        r.0@ == take_chars(s@, n as int),
        r.1 == (s@.len() > n),
{
    let v = chars_of(s);
    if v.len() <= n {
        (string_of(&v), false)
    } else {
        let t = sub_vec(&v, 0, n);
        proof {
            assert(v@.subrange(0, n as int) =~= v@.take(n as int));
        }
        (string_of(&t), true)
    }
}

/// `[String]::join(sep)`.
pub open spec fn join_spec(items: Seq<Seq<char>>, sep: Seq<char>) -> Seq<char>
    decreases items.len(),
{
    if items.len() == 0 {
        Seq::empty()
    } else if items.len() == 1 {
        items[0]
    } else {
        join_spec(items.drop_last(), sep) + sep + items.last()
    }
}

pub fn join_strings(items: &Vec<String>, sep: &str) -> (r: String)
    ensures
        r@ == join_spec(items@.map_values(|x: String| x@), sep@),
{
    let ghost vs = items@.map_values(|x: String| x@);
    let mut out = String::new();
    let mut i: usize = 0;
    while i < items.len()
        invariant
            0 <= i <= items.len(),
            vs == items@.map_values(|x: String| x@),
            out@ == join_spec(vs.take(i as int), sep@),
        decreases items.len() - i,
    {
        proof {
            assert(vs.take(i as int + 1).drop_last() =~= vs.take(i as int));
            assert(vs.take(i as int + 1).last() == items@[i as int]@);
            if i == 0 {
                assert(vs.take(1)[0] == items@[0]@);
            }
        }
        if i > 0 {
            out.append(sep);
        }
        out.append(items[i].as_str());
        i = i + 1;
    }
    proof {
        assert(vs.take(vs.len() as int) =~= vs);
    }
    out
}

proof fn lemma_lex_irreflexive(a: Seq<char>)
    ensures
        !lex_lt(a, a),
    decreases a.len(),
{
    if a.len() > 0 {
        lemma_lex_irreflexive(a.drop_first());
    }
}

/// Two different strings are ordered one way or the other.
pub proof fn lemma_lex_total(a: Seq<char>, b: Seq<char>)
    ensures
        a == b || lex_lt(a, b) || lex_lt(b, a),
    decreases a.len(),
{
    if a.len() == 0 && b.len() == 0 {
        assert(a =~= b);
    } else if a.len() == 0 || b.len() == 0 {
    } else if a[0] != b[0] {
    } else {
        lemma_lex_total(a.drop_first(), b.drop_first());
        if a.drop_first() == b.drop_first() {
            assert(a =~= seq![a[0]] + a.drop_first());
            assert(b =~= seq![b[0]] + b.drop_first());
        }
    }
}

/// The order is asymmetric.
pub proof fn lemma_lex_asymmetric(a: Seq<char>, b: Seq<char>)
    ensures
        !(lex_lt(a, b) && lex_lt(b, a)),
    decreases a.len(),
{
    if a.len() > 0 && b.len() > 0 && a[0] == b[0] {
        lemma_lex_asymmetric(a.drop_first(), b.drop_first());
    }
}

/// The order is transitive.
pub proof fn lemma_lex_transitive(a: Seq<char>, b: Seq<char>, c: Seq<char>)
    requires
        lex_lt(a, b),
        lex_lt(b, c),
    ensures
        lex_lt(a, c),
    decreases a.len(),
{
    if a.len() > 0 && b.len() > 0 && c.len() > 0 && a[0] == b[0] && b[0] == c[0] {
        lemma_lex_transitive(a.drop_first(), b.drop_first(), c.drop_first());
    }
}


// ---------------------------------------------------------------------------------------------
// Unsigned 16-bit numbers
// ---------------------------------------------------------------------------------------------
/// The value of a run of ASCII digits.
pub open spec fn digits_value(s: Seq<char>) -> int
    decreases s.len(),
{
    if s.len() == 0 {
        0
    } else {
        digits_value(s.drop_last()) * 10 + (s.last() as int - '0' as int)
    }
}

/// `u16::from_str`: an optional `+`, then one or more ASCII digits whose value fits.
pub open spec fn u16_value(s: Seq<char>) -> Option<u16> {
    let d = if s.len() > 0 && s[0] == '+' {
        s.drop_first()
    } else {
        s
    };
    if d.len() > 0 && all_digits(d) && digits_value(d) < 65536 {
        Some(digits_value(d) as u16)
    } else {
        None
    }
}

proof fn lemma_digits_value_grows(d: Seq<char>, i: int)
    requires
        0 <= i <= d.len(),
        all_digits(d),
    ensures
        digits_value(d.take(i)) <= digits_value(d),
        0 <= digits_value(d.take(i)),
    decreases d.len() - i,
{
    if i < d.len() {
        lemma_digits_value_grows(d, i + 1);
        assert(d.take(i + 1).drop_last() =~= d.take(i));
        assert(is_digit(d[i]));
    } else {
        assert(d.take(i) =~= d);
        lemma_digits_nonneg(d);
    }
}

proof fn lemma_digits_nonneg(d: Seq<char>)
    requires
        all_digits(d),
    ensures
        0 <= digits_value(d),
    decreases d.len(),
{
    if d.len() > 0 {
        assert(is_digit(d[d.len() - 1]));
        lemma_digits_nonneg(d.drop_last());
    }
}

/// `str::parse::<u16>` on the characters.
pub fn parse_u16(s: &Vec<char>) -> (r: Option<u16>)
    ensures
        r == u16_value(s@),
{
    let start: usize = if s.len() > 0 && s[0] == '+' {
        1
    } else {
        0
    };
    let ghost d = if s@.len() > 0 && s@[0] == '+' {
        s@.drop_first()
    } else {
        s@
    };
    assert(d =~= s@.subrange(start as int, s@.len() as int));
    if start >= s.len() {
        return None;
    }
    let mut value: u32 = 0;
    let mut i: usize = start;
    while i < s.len()
        invariant
            start <= i <= s@.len(),
            start < s@.len(),
            d =~= s@.subrange(start as int, s@.len() as int),
            d == (if s@.len() > 0 && s@[0] == '+' {
                s@.drop_first()
            } else {
                s@
            }),
            all_digits(d.take(i - start)),
            value as int == digits_value(d.take(i - start)),
            value <= 65535,
        decreases s.len() - i,
    {
        let c = s[i];
        if !('0' <= c && c <= '9') {
            proof {
                assert(d[i - start] == c);
                assert(!is_digit(d[i - start]));
                assert(!all_digits(d));
            }
            return None;
        }
        proof {
            assert(d.take(i - start + 1).drop_last() =~= d.take(i - start));
            assert(d.take(i - start + 1).last() == c);
            assert forall|k: int| 0 <= k < d.take(i - start + 1).len() implies #[trigger] is_digit(
                d.take(i - start + 1)[k],
            ) by {
                if k < i - start {
                    assert(d.take(i - start + 1)[k] == d.take(i - start)[k]);
                }
            }
        }
        let next: u32 = value * 10 + (c as u32 - '0' as u32);
        proof {
            assert(digits_value(d.take(i - start + 1)) == next);
        }
        if next > 65535 {
            proof {
                if all_digits(d) {
                    lemma_digits_value_grows(d, i - start + 1);
                    assert(digits_value(d) >= 65536);
                }
            }
            return None;
        }
        value = next;
        i = i + 1;
    }
    proof {
        assert(d.take(i - start) =~= d);
    }
    Some(value as u16)
}


proof fn lemma_trim_start_head(s: Seq<char>)
    ensures
        trim_start(s).len() > 0 ==> !is_ws(trim_start(s)[0]),
    decreases s.len(),
{
    if s.len() > 0 && is_ws(s[0]) {
        lemma_trim_start_head(s.drop_first());
    }
}

proof fn lemma_trim_end_shape(x: Seq<char>)
    ensures
        trim_end(x).len() <= x.len(),
        trim_end(x) =~= x.take(trim_end(x).len() as int),
        trim_end(x).len() > 0 ==> !is_ws(trim_end(x).last()),
    decreases x.len(),
{
    if x.len() > 0 && is_ws(x.last()) {
        lemma_trim_end_shape(x.drop_last());
        assert(x.drop_last().take(trim_end(x).len() as int) =~= x.take(trim_end(x).len() as int));
    } else {
        assert(x.take(x.len() as int) =~= x);
    }
}

/// Trimming twice is trimming once.
pub proof fn lemma_trim_idempotent(s: Seq<char>)
    ensures
        trim(trim(s)) == trim(s),
{
    let u = trim_start(s);
    let v = trim_end(u);
    lemma_trim_start_head(s);
    lemma_trim_end_shape(u);
    if v.len() > 0 {
        assert(v[0] == u[0]);
    }
    assert(trim_start(v) == v);
    assert(trim_end(v) == v);
}

} // verus!
