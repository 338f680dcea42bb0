//! Character-sequence utilities: searching, splitting, trimming and
//! decimal formatting, each stated over `Seq<char>`.
use vstd::prelude::*;

verus! {

broadcast use vstd::string::group_string_axioms;

// ---------------------------------------------------------------------
// Specifications
// ---------------------------------------------------------------------

/// The text of an optional string.
pub open spec fn opt_view(s: Option<String>) -> Option<Seq<char>> {
    match s {
        Some(v) => Some(v@),
        None => None,
    }
}

/// The texts of a list of string pairs.
pub open spec fn pairs_view(v: Seq<(String, String)>) -> Seq<(Seq<char>, Seq<char>)> {
    v.map_values(|p: (String, String)| (p.0@, p.1@))
}

/// `p` occurs in `s` starting at index `i`.
pub open spec fn occurs_at(s: Seq<char>, p: Seq<char>, i: int) -> bool {
    0 <= i && i + p.len() <= s.len() && s.subrange(i, i + p.len()) == p
}

/// `s` contains `p` as a contiguous run of characters.
pub open spec fn seq_contains(s: Seq<char>, p: Seq<char>) -> bool {
    exists|i: int| occurs_at(s, p, i)
}

/// `s` starts with `p`.
pub open spec fn starts_with(s: Seq<char>, p: Seq<char>) -> bool {
    occurs_at(s, p, 0)
}

/// The first index at or after `i` where `p` occurs in `s`.
pub open spec fn find_from(s: Seq<char>, p: Seq<char>, i: int) -> Option<int>
    decreases s.len() + 1 - i,
{
    if i < 0 || i + p.len() > s.len() {
        None
    } else if occurs_at(s, p, i) {
        Some(i)
    } else {
        find_from(s, p, i + 1)
    }
}

/// The pieces of `s[start..]` between the non-overlapping occurrences of
/// `sep`, from left to right (as `str::split` yields them).
pub open spec fn split_from(s: Seq<char>, sep: Seq<char>, start: int) -> Seq<Seq<char>>
    decreases s.len() - start,
{
    if start < 0 || start > s.len() || sep.len() == 0 {
        seq![]
    } else {
        match find_from(s, sep, start) {
            None => seq![s.subrange(start, s.len() as int)],
            Some(k) => {
                proof {
                    lemma_find_from(s, sep, start);
                }
                seq![s.subrange(start, k)] + split_from(s, sep, k + sep.len())
            },
        }
    }
}

/// `str::split(sep)` on a nonempty separator.
pub open spec fn split(s: Seq<char>, sep: Seq<char>) -> Seq<Seq<char>> {
    split_from(s, sep, 0)
}

/// The first piece in `parts` that starts with `pre`.
pub open spec fn first_with_prefix(parts: Seq<Seq<char>>, pre: Seq<char>) -> Option<Seq<char>>
    decreases parts.len(),
{
    if parts.len() == 0 {
        None
    } else if starts_with(parts[0], pre) {
        Some(parts[0])
    } else {
        first_with_prefix(parts.drop_first(), pre)
    }
}

/// `str::trim_start_matches(p)`: removes every leading repetition of `p`.
pub open spec fn trim_start_matches(s: Seq<char>, p: Seq<char>) -> Seq<char>
    decreases s.len(),
{
    if p.len() > 0 && starts_with(s, p) {
        trim_start_matches(s.subrange(p.len() as int, s.len() as int), p)
    } else {
        s
    }
}

/// The characters that `char::is_whitespace` accepts (Unicode White_Space).
pub open spec fn is_white_space(c: char) -> bool {
    ||| c == '\t'
    ||| c == '\n'
    ||| c == '\u{0B}'
    ||| c == '\u{0C}'
    ||| c == '\r'
    ||| c == ' '
    ||| c == '\u{85}'
    ||| c == '\u{A0}'
    ||| c == '\u{1680}'
    ||| ('\u{2000}' <= c <= '\u{200A}')
    ||| c == '\u{2028}'
    ||| c == '\u{2029}'
    ||| c == '\u{202F}'
    ||| c == '\u{205F}'
    ||| c == '\u{3000}'
}

/// `str::trim_start`.
pub open spec fn trim_start_ws(s: Seq<char>) -> Seq<char>
    decreases s.len(),
{
    if s.len() > 0 && is_white_space(s[0]) {
        trim_start_ws(s.drop_first())
    } else {
        s
    }
}

/// `str::trim_end`.
pub open spec fn trim_end_ws(s: Seq<char>) -> Seq<char>
    decreases s.len(),
{
    if s.len() > 0 && is_white_space(s.last()) {
        trim_end_ws(s.drop_last())
    } else {
        s
    }
}

/// `str::trim`.
pub open spec fn trim_ws(s: Seq<char>) -> Seq<char> {
    trim_end_ws(trim_start_ws(s))
}

/// The decimal digit character for `d < 10`.
pub open spec fn digit_char(d: nat) -> char {
    (d + 48) as char
}

/// The decimal notation of `n`, as `u64::to_string` writes it.
pub open spec fn dec_chars(n: nat) -> Seq<char>
    decreases n,
{
    if n < 10 {
        seq![digit_char(n)]
    } else {
        dec_chars(n / 10).push(digit_char(n % 10))
    }
}

/// The decimal notation of a signed integer, as `i32::to_string` writes it.
pub open spec fn int_dec_chars(n: int) -> Seq<char> {
    if n < 0 {
        seq!['-'] + dec_chars((-n) as nat)
    } else {
        dec_chars(n as nat)
    }
}

/// Lexicographic order by code point; on strings this is the order of
/// `String`'s `Ord`, since UTF-8 keeps code point order bytewise.
pub open spec fn seq_lt(a: Seq<char>, b: Seq<char>) -> bool
    decreases a.len(),
{
    if a.len() == 0 {
        b.len() > 0
    } else if b.len() == 0 {
        false
    } else if a[0] < b[0] {
        true
    } else if a[0] == b[0] {
        seq_lt(a.drop_first(), b.drop_first())
    } else {
        false
    }
}

// ---------------------------------------------------------------------
// Lemmas
// ---------------------------------------------------------------------

/// What `find_from` returns: the least occurrence at or after `i`.
pub proof fn lemma_find_from(s: Seq<char>, p: Seq<char>, i: int)
    requires
        0 <= i,
    ensures
        match find_from(s, p, i) {
            Some(k) => i <= k && occurs_at(s, p, k) && forall|j: int|
                i <= j < k ==> !occurs_at(s, p, j),
            None => forall|j: int| i <= j ==> !occurs_at(s, p, j),
        },
    decreases s.len() + 1 - i,
{
    if i + p.len() > s.len() {
    } else if occurs_at(s, p, i) {
    } else {
        lemma_find_from(s, p, i + 1);
    }
}

/// `seq_lt` never relates a sequence to itself.
pub proof fn lemma_seq_lt_irreflexive(a: Seq<char>)
    ensures
        !seq_lt(a, a),
    decreases a.len(),
{
    if a.len() > 0 {
        lemma_seq_lt_irreflexive(a.drop_first());
    }
}

/// Any two distinct sequences are ordered one way or the other, never both.
pub proof fn lemma_seq_lt_total(a: Seq<char>, b: Seq<char>)
    ensures
        a == b || seq_lt(a, b) || seq_lt(b, a),
        !(seq_lt(a, b) && seq_lt(b, a)),
    decreases a.len(),
{
    if a.len() > 0 && b.len() > 0 && a[0] == b[0] {
        lemma_seq_lt_total(a.drop_first(), b.drop_first());
        if a.drop_first() == b.drop_first() {
            assert(a =~= b) by {
                assert forall|k: int| 0 <= k < a.len() implies a[k] == b[k] by {
                    if k > 0 {
                        assert(a[k] == a.drop_first()[k - 1]);
                        assert(b[k] == b.drop_first()[k - 1]);
                    }
                }
            }
        }
    } else if a.len() == 0 && b.len() == 0 {
        assert(a =~= b);
    } else if a.len() > 0 && b.len() > 0 {
    }
}

/// `seq_lt` is transitive.
pub proof fn lemma_seq_lt_transitive(a: Seq<char>, b: Seq<char>, c: Seq<char>)
    requires
        seq_lt(a, b),
        seq_lt(b, c),
    ensures
        seq_lt(a, c),
    decreases a.len(),
{
    if a.len() > 0 && b.len() > 0 && c.len() > 0 && a[0] == b[0] && b[0] == c[0] {
        lemma_seq_lt_transitive(a.drop_first(), b.drop_first(), c.drop_first());
    }
}

// ---------------------------------------------------------------------
// Conversions between strings and character vectors
// ---------------------------------------------------------------------

/// The characters of `s`, in order.
pub fn chars_of(s: &str) -> (v: Vec<char>)
    ensures
        v@ == s@,
{
    let mut v: Vec<char> = Vec::new();
    for c in it: s.chars()
        invariant
            it.seq() == s@,
            v@ == it.seq().take(it.index() as int),
    {
        v.push(c);
    }
    v
}

/// `String::pop` from std: removes and returns the last character, or
/// returns `None` and leaves an empty string as it is.
#[verifier::external_body]
pub(crate) fn pop_char(s: &mut String) -> (r: Option<char>)
    ensures
        old(s)@.len() > 0 ==> r == Some(old(s)@.last()) && final(s)@ == old(s)@.drop_last(),
        old(s)@.len() == 0 ==> r is None && final(s)@ == old(s)@,
{
    s.pop()
}

/// `String::push` from std: appends one character at the end.
#[verifier::external_body]
pub(crate) fn push_char(s: &mut String, c: char)
    ensures
        final(s)@ == old(s)@.push(c),
{
    s.push(c);
}

/// The string made of the characters of `v`, in order.
pub fn string_of(v: &[char]) -> (s: String)
    ensures
        s@ == v@,
{
    let mut s = String::new();
    for i in 0..v.len()
        invariant
            s@ == v@.take(i as int),
    {
        push_char(&mut s, v[i]);
        assert(v@.take(i + 1) =~= v@.take(i as int).push(v@[i as int]));
    }
    assert(v@.take(v.len() as int) =~= v@);
    s
}

/// The concatenation `a + b`.
pub fn concat(a: &str, b: &str) -> (s: String)
    ensures
        s@ == a@ + b@,
{
    let mut s = String::from_str(a);
    s.append(b);
    s
}

/// The characters `s[from..to]`.
pub fn subrange_of(s: &[char], from: usize, to: usize) -> (r: Vec<char>)
    requires
        from <= to <= s.len(),
    ensures
        r@ == s@.subrange(from as int, to as int),
{
    let mut r: Vec<char> = Vec::new();
    let mut i = from;
    while i < to
        invariant
            from <= i <= to <= s.len(),
            r@ == s@.subrange(from as int, i as int),
        decreases to - i,
    {
        r.push(s[i]);
        assert(s@.subrange(from as int, i + 1) =~= s@.subrange(from as int, i as int).push(
            s@[i as int],
        ));
        i += 1;
    }
    r
}

// ---------------------------------------------------------------------
// Searching
// ---------------------------------------------------------------------

/// Whether `a` and `b` hold the same characters.
pub fn chars_eq(a: &[char], b: &[char]) -> (r: bool)
    ensures
        r == (a@ == b@),
{
    if a.len() != b.len() {
        return false;
    }
    for i in 0..a.len()
        invariant
            a.len() == b.len(),
            forall|j: int| 0 <= j < i ==> a@[j] == b@[j],
    {
        if a[i] != b[i] {
            return false;
        }
    }
    assert(a@ =~= b@);
    true
}

/// Whether `p` occurs in `s` at index `i`.
pub fn occurs_at_exec(s: &[char], p: &[char], i: usize) -> (r: bool)
    ensures
        r == occurs_at(s@, p@, i as int),
{
    if p.len() > s.len() || i > s.len() - p.len() {
        return false;
    }
    for j in 0..p.len()
        invariant
            p.len() <= s.len(),
            i <= s.len() - p.len(),
            forall|k: int| 0 <= k < j ==> s@[i + k] == p@[k],
    {
        if s[i + j] != p[j] {
            assert(s@.subrange(i as int, i + p.len())[j as int] != p@[j as int]);
            return false;
        }
    }
    assert(s@.subrange(i as int, i + p.len()) =~= p@);
    true
}

/// The first index at or after `from` where `p` occurs in `s`.
pub fn find_from_exec(s: &[char], p: &[char], from: usize) -> (r: Option<usize>)
    ensures
        match r {
            Some(k) => find_from(s@, p@, from as int) == Some(k as int),
            None => find_from(s@, p@, from as int) is None,
        },
{
    if p.len() > s.len() || from > s.len() - p.len() {
        return None;
    }
    let limit = s.len() - p.len();
    let mut i = from;
    loop
        invariant
            p.len() <= s.len(),
            limit == s.len() - p.len(),
            from <= i <= limit,
            find_from(s@, p@, from as int) == find_from(s@, p@, i as int),
        decreases limit - i,
    {
        if occurs_at_exec(s, p, i) {
            return Some(i);
        }
        if i == limit {
            assert(find_from(s@, p@, i + 1) is None);
            return None;
        }
        i += 1;
    }
}

/// Whether `p` occurs anywhere in `s`.
pub fn contains_exec(s: &[char], p: &[char]) -> (r: bool)
    ensures
        r == seq_contains(s@, p@),
{
    proof {
        lemma_find_from(s@, p@, 0);
    }
    match find_from_exec(s, p, 0) {
        Some(k) => true,
        None => {
            assert forall|j: int| !occurs_at(s@, p@, j) by {
                if j < 0 {
                }
            }
            false
        },
    }
}

/// Whether the string `s` contains the string `p`.
pub fn str_contains(s: &str, p: &str) -> (r: bool)
    ensures
        r == seq_contains(s@, p@),
{
    let sv = chars_of(s);
    let pv = chars_of(p);
    contains_exec(&sv, &pv)
}

/// Whether the strings `a` and `b` are equal.
pub fn str_eq(a: &str, b: &str) -> (r: bool)
    ensures
        r == (a@ == b@),
{
    let av = chars_of(a);
    let bv = chars_of(b);
    chars_eq(&av, &bv)
}

/// `s.trim_start_matches(p)`.
pub fn trim_start_matches_exec(s: &[char], p: &[char]) -> (r: Vec<char>)
    ensures
        r@ == trim_start_matches(s@, p@),
{
    let mut i: usize = 0;
    if p.len() == 0 {
        return subrange_of(s, 0, s.len());
    }
    assert(s@.subrange(0, s.len() as int) =~= s@);
    while occurs_at_exec(s, p, i)
        invariant
            p.len() > 0,
            i <= s.len(),
            trim_start_matches(s@, p@) == trim_start_matches(
                s@.subrange(i as int, s.len() as int),
                p@,
            ),
        decreases s.len() - i,
    {
        let ghost rest = s@.subrange(i as int, s.len() as int);
        assert(rest.subrange(0, p.len() as int) =~= s@.subrange(i as int, i + p.len()));
        assert(rest.subrange(p.len() as int, rest.len() as int) =~= s@.subrange(
            i + p.len(),
            s.len() as int,
        ));
        i = i + p.len();
    }
    let ghost rest = s@.subrange(i as int, s.len() as int);
    assert(!starts_with(rest, p@)) by {
        if starts_with(rest, p@) {
            assert(rest.subrange(0, p.len() as int) =~= s@.subrange(i as int, i + p.len()));
        }
    }
    subrange_of(s, i, s.len())
}

/// The value of the first piece of `header`, split at `sep`, that starts
/// with `name`, with every leading repetition of `name` removed.
pub fn first_piece_value(header: &[char], sep: &[char], name: &[char]) -> (r: Option<Vec<char>>)
    requires
        sep.len() > 0,
    ensures
        match first_with_prefix(split(header@, sep@), name@) {
            Some(part) => r is Some && r->0@ == trim_start_matches(part, name@),
            None => r is None,
        },
{
    let mut start: usize = 0;
    loop
        invariant
            sep.len() > 0,
            start <= header.len(),
            first_with_prefix(split(header@, sep@), name@) == first_with_prefix(
                split_from(header@, sep@, start as int),
                name@,
            ),
        decreases header.len() - start,
    {
        let found = find_from_exec(header, sep, start);
        proof {
            lemma_find_from(header@, sep@, start as int);
        }
        let end = match found {
            Some(k) => k,
            None => header.len(),
        };
        let part = subrange_of(header, start, end);
        let ghost parts = split_from(header@, sep@, start as int);
        let ghost rest = match found {
            Some(k) => split_from(header@, sep@, k + sep.len()),
            None => Seq::<Seq<char>>::empty(),
        };
        assert(parts =~= seq![part@] + rest);
        assert(parts[0] == part@);
        assert(parts.drop_first() =~= rest);
        if occurs_at_exec(&part, name, 0) {
            return Some(trim_start_matches_exec(&part, name));
        }
        assert(first_with_prefix(parts, name@) == first_with_prefix(rest, name@));
        match found {
            Some(k) => {
                start = k + sep.len();
            },
            None => {
                return None;
            },
        }
    }
}

/// The first index at or after `i` whose character is not white space,
/// or `s.len()`.
fn skip_ws_forward(s: &[char], i: usize) -> (r: usize)
    requires
        i <= s.len(),
    ensures
        i <= r <= s.len(),
        trim_start_ws(s@.subrange(i as int, s.len() as int)) == s@.subrange(
            r as int,
            s.len() as int,
        ),
        r < s.len() ==> !is_white_space(s@[r as int]),
{
    let mut j = i;
    while j < s.len() && is_white_space_exec(s[j])
        invariant
            i <= j <= s.len(),
            trim_start_ws(s@.subrange(i as int, s.len() as int)) == trim_start_ws(
                s@.subrange(j as int, s.len() as int),
            ),
        decreases s.len() - j,
    {
        assert(s@.subrange(j as int, s.len() as int).drop_first() =~= s@.subrange(
            j + 1,
            s.len() as int,
        ));
        j += 1;
    }
    j
}

/// `char::is_whitespace`.
pub fn is_white_space_exec(c: char) -> (r: bool)
    ensures
        r == is_white_space(c),
{
    c == '\t' || c == '\n' || c == '\u{0B}' || c == '\u{0C}' || c == '\r' || c == ' ' || c
        == '\u{85}' || c == '\u{A0}' || c == '\u{1680}' || ('\u{2000}' <= c && c <= '\u{200A}')
        || c == '\u{2028}' || c == '\u{2029}' || c == '\u{202F}' || c == '\u{205F}' || c
        == '\u{3000}'
}

/// `s.trim()`: drops leading and trailing white space.
pub fn trim_exec(s: &[char]) -> (r: Vec<char>)
    ensures
        r@ == trim_ws(s@),
{
    let lo = skip_ws_forward(s, 0);
    assert(s@.subrange(0, s.len() as int) =~= s@);
    let mut hi = s.len();
    while hi > lo && is_white_space_exec(s[hi - 1])
        invariant
            lo <= hi <= s.len(),
            trim_ws(s@) == trim_end_ws(s@.subrange(lo as int, hi as int)),
        decreases hi,
    {
        assert(s@.subrange(lo as int, hi as int).drop_last() =~= s@.subrange(
            lo as int,
            hi - 1,
        ));
        hi -= 1;
    }
    proof {
        let t = s@.subrange(lo as int, hi as int);
        if t.len() > 0 {
            if hi < s.len() {
                assert(t[0] == s@.subrange(lo as int, s.len() as int)[0]);
            }
        }
    }
    subrange_of(s, lo, hi)
}

/// `s.trim()` on a string.
pub fn str_trim(s: &str) -> (r: String)
    ensures
        r@ == trim_ws(s@),
{
    let v = chars_of(s);
    let t = trim_exec(&v);
    string_of(&t)
}

/// Whether `a` comes strictly before `b` in code point order.
pub fn chars_lt(a: &[char], b: &[char]) -> (r: bool)
    ensures
        r == seq_lt(a@, b@),
{
    let mut i: usize = 0;
    assert(a@.skip(0) =~= a@);
    assert(b@.skip(0) =~= b@);
    while i < a.len() && i < b.len()
        invariant
            i <= a.len(),
            i <= b.len(),
            seq_lt(a@, b@) == seq_lt(a@.skip(i as int), b@.skip(i as int)),
            forall|k: int| 0 <= k < i ==> a@[k] == b@[k],
        decreases a.len() - i,
    {
        if a[i] < b[i] {
            return true;
        }
        if a[i] != b[i] {
            return false;
        }
        assert(a@.skip(i as int).drop_first() =~= a@.skip(i + 1));
        assert(b@.skip(i as int).drop_first() =~= b@.skip(i + 1));
        i += 1;
    }
    i == a.len() && i < b.len()
}

// ---------------------------------------------------------------------
// Decimal formatting
// ---------------------------------------------------------------------

fn digit_exec(d: u64) -> (c: char)
    requires
        d < 10,
    ensures
        c == digit_char(d as nat),
{
    let b: u8 = (d as u8) + 48;
    b as char
}

/// `n.to_string()` for an unsigned integer.
pub fn dec_u64(n: u64) -> (r: Vec<char>)
    ensures
        r@ == dec_chars(n as nat),
{
    let mut m = n;
    let mut rev: Vec<char> = Vec::new();
    while m >= 10
        invariant
            dec_chars(n as nat) == dec_chars(m as nat) + rev@.reverse(),
        decreases m,
    {
        let d = m % 10;
        let c = digit_exec(d);
        proof {
            assert(rev@.push(c).reverse() =~= seq![c] + rev@.reverse());
            assert(dec_chars(m as nat) == dec_chars((m / 10) as nat).push(c));
            assert(dec_chars((m / 10) as nat).push(c) + rev@.reverse() =~= dec_chars(
                (m / 10) as nat,
            ) + rev@.push(c).reverse());
        }
        rev.push(c);
        m = m / 10;
    }
    let mut out: Vec<char> = Vec::new();
    out.push(digit_exec(m));
    let mut k = rev.len();
    while k > 0
        invariant
            k <= rev.len(),
            out@ + rev@.take(k as int).reverse() == dec_chars(n as nat),
        decreases k,
    {
        proof {
            assert(rev@.take(k as int).reverse() =~= seq![rev@[k - 1]] + rev@.take(
                k - 1,
            ).reverse());
            assert(out@.push(rev@[k - 1]) + rev@.take(k - 1).reverse() =~= out@ + rev@.take(
                k as int,
            ).reverse());
        }
        out.push(rev[k - 1]);
        k -= 1;
    }
    assert(rev@.take(0).reverse() =~= Seq::<char>::empty());
    assert(out@ + Seq::<char>::empty() =~= out@);
    out
}

/// `n.to_string()` for an unsigned integer, as a string.
pub fn u64_to_string(n: u64) -> (s: String)
    ensures
        s@ == dec_chars(n as nat),
{
    let v = dec_u64(n);
    string_of(&v)
}

/// `n.to_string()` for a signed 32-bit integer.
pub fn i32_to_string(n: i32) -> (s: String)
    ensures
        s@ == int_dec_chars(n as int),
{
    if n < 0 {
        let m: u64 = (-(n as i64)) as u64;
        let mut v: Vec<char> = Vec::new();
        v.push('-');
        let mut d = dec_u64(m);
        v.append(&mut d);
        assert(v@ =~= seq!['-'] + dec_chars(m as nat));
        string_of(&v)
    } else {
        u64_to_string(n as u64)
    }
}

} // verus!
