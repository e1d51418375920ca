//! Character-level helpers shared by every module that builds or reads
//! text: decimal rendering of integers and conversions between `str`,
//! `String` and character vectors.

use vstd::prelude::*;

verus! {

/// The ASCII digit for `d`, which must be below ten.
pub open spec fn digit_char(d: int) -> char {
    ((48 + d) as u32) as char
}

/// Decimal digits of a natural number, most significant first, no
/// leading zeros (zero itself is the single digit `0`).
pub open spec fn nat_digits(n: nat) -> Seq<char>
    decreases n,
{
    if n < 10 {
        seq![digit_char(n as int)]
    } else {
        nat_digits(n / 10).push(digit_char((n % 10) as int))
    }
}

/// Decimal rendering of an integer, with a leading `-` when negative:
/// what `{}` prints for an integer.
pub open spec fn dec(n: int) -> Seq<char> {
    if n < 0 {
        seq!['-'] + nat_digits((-n) as nat)
    } else {
        nat_digits(n as nat)
    }
}

proof fn lemma_nat_digits_nonempty(n: nat)
    ensures
        nat_digits(n).len() >= 1,
    decreases n,
{
    if n >= 10 {
        lemma_nat_digits_nonempty(n / 10);
    }
}

/// The digits of `n`, most significant first.
fn digits_of(n: u64) -> (out: Vec<char>)
    ensures
        out@ == nat_digits(n as nat),
{
    let mut rev: Vec<char> = Vec::new();
    let mut m = n;
    // Collect least significant first, then reverse.
    loop
        invariant
            // nat_digits(n) == nat_digits(m) + reverse of what has been collected
            nat_digits(n as nat) == nat_digits(m as nat) + rev@.reverse(),
        ensures
            m < 10,
            nat_digits(n as nat) == nat_digits(m as nat) + rev@.reverse(),
        decreases m,
    {
        if m < 10 {
            break;
        }
        let d = m % 10;
        proof {
            assert(nat_digits(m as nat) == nat_digits((m / 10) as nat).push(digit_char(d as int)));
            assert(rev@.push(digit_char(d as int)).reverse() =~= seq![digit_char(d as int)] + rev@.reverse());
            assert(nat_digits((m / 10) as nat).push(digit_char(d as int)) + rev@.reverse()
                =~= nat_digits((m / 10) as nat) + (seq![digit_char(d as int)] + rev@.reverse()));
        }
        rev.push(((48u32 + d as u32) as u8) as char);
        m = m / 10;
    }
    rev.push(((48u32 + m as u32) as u8) as char);
    let mut out: Vec<char> = Vec::new();
    let mut i = rev.len();
    assert(rev@.reverse() =~= Seq::new(rev@.len(), |k: int| rev@[rev@.len() - 1 - k]));
    while i > 0
        invariant
            i <= rev@.len(),
            out@ =~= rev@.reverse().subrange(0, (rev@.len() - i) as int),
        decreases i,
    {
        i = i - 1;
        out.push(rev[i]);
    }
    proof {
        assert(nat_digits(m as nat) == seq![digit_char(m as int)]);
        assert(out@ =~= rev@.reverse());
    }
    out
}

/// `a` followed by `b`.
pub fn cat(a: &str, b: &str) -> (s: String)
    ensures
        s@ == a@ + b@,
{
    let mut out = String::from_str(a);
    out.append(b);
    out
}

/// `a`, `b` and `c`, one after the other.
pub fn cat3(a: &str, b: &str, c: &str) -> (s: String)
    ensures
        s@ == a@ + b@ + c@,
{
    let mut out = String::from_str(a);
    out.append(b);
    out.append(c);
    out
}

/// `n` as decimal text, the way `{}` formats an integer.
pub fn decimal(n: i64) -> (s: String)
    ensures
        s@ == dec(n as int),
{
    let wide = n as i128;
    if wide < 0 {
        let digits = digits_of((-wide) as u64);
        let mut out = String::from_str("-");
        let tail = string_from_chars(&digits);
        out.append(tail.as_str());
        proof {
            reveal_strlit("-");
        }
        out
    } else {
        let digits = digits_of(wide as u64);
        string_from_chars(&digits)
    }
}

/// `n` as decimal text, the way `{}` formats an unsigned integer.
pub fn decimal_unsigned(n: u64) -> (s: String)
    ensures
        s@ == dec(n as int),
{
    let digits = digits_of(n);
    string_from_chars(&digits)
}

/// The text of a character vector as a `String`: `collect` over the
/// characters, which keeps them in order and adds nothing.
#[verifier::external_body]
pub(crate) fn string_from_chars(chars: &Vec<char>) -> (s: String)
    ensures
        s@ == chars@,
{
    chars.iter().collect()
}

/// The characters of `s`, in order.
pub fn chars_of(s: &str) -> (out: Vec<char>)
    ensures
        out@ == s@,
{
    let mut out: Vec<char> = Vec::new();
    for c in it: s.chars()
        invariant
            out@ == it.seq().subrange(0, it.index() as int),
    {
        out.push(c);
    }
    out
}

/// Whether `pat` occurs in `s` starting at `i`.
pub open spec fn occurs_at(s: Seq<char>, pat: Seq<char>, i: int) -> bool {
    0 <= i && i + pat.len() <= s.len() && s.subrange(i, i + pat.len()) == pat
}

/// The first place at or after `from` where `pat` occurs, or -1 when it
/// occurs nowhere there: the leftmost match a left-to-right search finds.
pub open spec fn find_from(s: Seq<char>, pat: Seq<char>, from: int) -> int
    decreases s.len() + 1 - from,
{
    if from < 0 || from + pat.len() > s.len() {
        -1
    } else if occurs_at(s, pat, from) {
        from
    } else {
        find_from(s, pat, from + 1)
    }
}

pub(crate) proof fn lemma_find_from_bounds(s: Seq<char>, pat: Seq<char>, from: int)
    requires
        from >= 0,
    ensures
        find_from(s, pat, from) == -1 || (from <= find_from(s, pat, from) && find_from(
            s,
            pat,
            from,
        ) + pat.len() <= s.len() && occurs_at(s, pat, find_from(s, pat, from))),
    decreases s.len() + 1 - from,
{
    if from + pat.len() <= s.len() && !occurs_at(s, pat, from) {
        lemma_find_from_bounds(s, pat, from + 1);
    }
}

/// Whether `pat` occurs in `s` at `i`, computed.
pub fn occurs(s: &Vec<char>, pat: &Vec<char>, i: usize) -> (r: bool)
    ensures
        r == occurs_at(s@, pat@, i as int),
{
    if i > s.len() || pat.len() > s.len() - i {
        return false;
    }
    let n = s.len();
    let mut k: usize = 0;
    while k < pat.len()
        invariant
            n == s@.len(),
            i + pat@.len() <= s@.len(),
            k <= pat@.len(),
            forall|j: int| 0 <= j < k ==> s@[i + j] == pat@[j],
        decreases pat@.len() - k,
    {
        assert(i + k < s@.len());
        if s[i + k] != pat[k] {
            assert(s@.subrange(i as int, i + pat@.len())[k as int] != pat@[k as int]);
            return false;
        }
        k = k + 1;
    }
    assert(s@.subrange(i as int, i + pat@.len()) =~= pat@);
    true
}

/// The first place at or after `from` where `pat` occurs.
pub fn find(s: &Vec<char>, pat: &Vec<char>, from: usize) -> (r: Option<usize>)
    requires
        pat@.len() > 0,
    ensures
        match r {
            Some(i) => find_from(s@, pat@, from as int) == i as int && from <= i && i + pat@.len()
                <= s@.len() && occurs_at(s@, pat@, i as int),
            None => find_from(s@, pat@, from as int) == -1,
        },
{
    proof {
        lemma_find_from_bounds(s@, pat@, from as int);
    }
    let n = s.len();
    let mut i = from;
    while i <= n && pat.len() <= n - i
        invariant
            n == s@.len(),
            pat@.len() > 0,
            from <= i,
            find_from(s@, pat@, from as int) == find_from(s@, pat@, i as int),
        decreases s@.len() + 1 - i,
    {
        if occurs(s, pat, i) {
            return Some(i);
        }
        i = i + 1;
    }
    None
}

/// The first place at or after `from` where `c` stands.
pub fn find_char(s: &Vec<char>, c: char, from: usize) -> (r: Option<usize>)
    ensures
        match r {
            Some(i) => find_from(s@, seq![c], from as int) == i as int && from <= i && i < s@.len()
                && s@[i as int] == c,
            None => find_from(s@, seq![c], from as int) == -1,
        },
{
    let mut pat: Vec<char> = Vec::new();
    pat.push(c);
    assert(pat@ =~= seq![c]);
    let r = find(s, &pat, from);
    proof {
        if let Some(i) = r {
            assert(s@.subrange(i as int, i + 1)[0] == s@[i as int]);
        }
    }
    r
}

/// The characters `v[from..to]`.
pub fn slice_chars(v: &Vec<char>, from: usize, to: usize) -> (out: Vec<char>)
    requires
        from <= to <= v@.len(),
    ensures
        out@ == v@.subrange(from as int, to as int),
{
    let mut out: Vec<char> = Vec::new();
    let mut i = from;
    while i < to
        invariant
            from <= i <= to <= v@.len(),
            out@ == v@.subrange(from as int, i as int),
        decreases to - i,
    {
        out.push(v[i]);
        proof {
            assert(v@.subrange(from as int, i + 1) =~= v@.subrange(from as int, i as int).push(
                v@[i as int],
            ));
        }
        i = i + 1;
    }
    out
}

/// Whether two character vectors hold the same text.
pub fn same_chars(a: &Vec<char>, b: &Vec<char>) -> (r: bool)
    ensures
        r <==> a@ == b@,
{
    if a.len() != b.len() {
        return false;
    }
    let mut i: usize = 0;
    while i < a.len()
        invariant
            a@.len() == b@.len(),
            i <= a@.len(),
            forall|j: int| 0 <= j < i ==> a@[j] == b@[j],
        decreases a@.len() - i,
    {
        if a[i] != b[i] {
            return false;
        }
        i = i + 1;
    }
    assert(a@ =~= b@);
    true
}

/// Unicode white space, the set `char::is_whitespace` answers for.
pub open spec fn is_ws(c: char) -> bool {
    let v = c as u32;
    v == 0x20 || (0x09 <= v <= 0x0d) || v == 0x85 || v == 0xa0 || v == 0x1680 || (0x2000 <= v
        <= 0x200a) || v == 0x2028 || v == 0x2029 || v == 0x202f || v == 0x205f || v == 0x3000
}

/// [`is_ws`], computed.
pub fn is_whitespace(c: char) -> (r: bool)
    ensures
        r == is_ws(c),
{
    let v = c as u32;
    v == 0x20 || (0x09 <= v && v <= 0x0d) || v == 0x85 || v == 0xa0 || v == 0x1680 || (0x2000
        <= v && v <= 0x200a) || v == 0x2028 || v == 0x2029 || v == 0x202f || v == 0x205f || v
        == 0x3000
}

/// The first index at or after `i` that is not white space (or the end).
pub open spec fn skip_ws(s: Seq<char>, i: int) -> int
    decreases s.len() - i,
{
    if i < 0 || i >= s.len() {
        i
    } else if is_ws(s[i]) {
        skip_ws(s, i + 1)
    } else {
        i
    }
}

/// The end of `s[..j]` once its trailing white space is dropped.
pub open spec fn back_ws(s: Seq<char>, j: int) -> int
    decreases j,
{
    if j <= 0 || j > s.len() {
        j
    } else if is_ws(s[j - 1]) {
        back_ws(s, j - 1)
    } else {
        j
    }
}

pub(crate) proof fn lemma_skip_ws_bounds(s: Seq<char>, i: int)
    requires
        0 <= i <= s.len(),
    ensures
        i <= skip_ws(s, i) <= s.len(),
    decreases s.len() - i,
{
    if i < s.len() && is_ws(s[i]) {
        lemma_skip_ws_bounds(s, i + 1);
    }
}

pub(crate) proof fn lemma_back_ws_bounds(s: Seq<char>, j: int)
    requires
        0 <= j <= s.len(),
    ensures
        0 <= back_ws(s, j) <= j,
    decreases j,
{
    if j > 0 && is_ws(s[j - 1]) {
        lemma_back_ws_bounds(s, j - 1);
    }
}

/// `s` without its leading white space, as `str::trim_start` leaves it.
pub open spec fn trim_start_text(s: Seq<char>) -> Seq<char> {
    s.subrange(skip_ws(s, 0), s.len() as int)
}

/// `s` without leading or trailing white space, as `str::trim` leaves it.
pub open spec fn trim_text(s: Seq<char>) -> Seq<char> {
    let a = skip_ws(s, 0);
    let b = back_ws(s, s.len() as int);
    if b <= a {
        Seq::empty()
    } else {
        s.subrange(a, b)
    }
}

/// [`skip_ws`], computed.
pub fn skip_whitespace(s: &Vec<char>, from: usize) -> (r: usize)
    requires
        from <= s@.len(),
    ensures
        r as int == skip_ws(s@, from as int),
        from <= r <= s@.len(),
{
    let mut i = from;
    while i < s.len() && is_whitespace(s[i])
        invariant
            from <= i <= s@.len(),
            skip_ws(s@, from as int) == skip_ws(s@, i as int),
        decreases s@.len() - i,
    {
        i = i + 1;
    }
    i
}

/// [`back_ws`], computed.
pub fn back_whitespace(s: &Vec<char>, to: usize) -> (r: usize)
    requires
        to <= s@.len(),
    ensures
        r as int == back_ws(s@, to as int),
        r <= to,
{
    let mut j = to;
    while j > 0 && is_whitespace(s[j - 1])
        invariant
            j <= to <= s@.len(),
            back_ws(s@, to as int) == back_ws(s@, j as int),
        decreases j,
    {
        j = j - 1;
    }
    j
}

/// `s` with leading and trailing white space dropped.
pub fn trimmed(s: &Vec<char>) -> (out: Vec<char>)
    ensures
        out@ == trim_text(s@),
{
    let a = skip_whitespace(s, 0);
    let b = back_whitespace(s, s.len());
    if b <= a {
        let out: Vec<char> = Vec::new();
        assert(out@ =~= Seq::<char>::empty());
        out
    } else {
        slice_chars(s, a, b)
    }
}

/// The text of `s` with leading and trailing white space dropped.
pub fn trim(s: &str) -> (out: String)
    ensures
        out@ == trim_text(s@),
{
    let chars = chars_of(s);
    string_from_chars(&trimmed(&chars))
}

/// Whether `s` begins with `prefix`.
pub open spec fn starts_with(s: Seq<char>, prefix: Seq<char>) -> bool {
    prefix.len() <= s.len() && s.subrange(0, prefix.len() as int) == prefix
}

/// [`starts_with`] at offset `at`, computed.
pub fn starts_with_at(s: &Vec<char>, at: usize, prefix: &str) -> (r: bool)
    requires
        at <= s@.len(),
    ensures
        r == starts_with(s@.subrange(at as int, s@.len() as int), prefix@),
{
    let p = chars_of(prefix);
    let r = occurs(s, &p, at);
    proof {
        let tail = s@.subrange(at as int, s@.len() as int);
        if p@.len() <= tail.len() {
            assert(tail.subrange(0, p@.len() as int) =~= s@.subrange(at as int, at + p@.len()));
        }
    }
    r
}

/// Pieces of `s` between occurrences of `c`, as `str::split` yields them:
/// one more piece than there are separators, empty pieces included.
pub open spec fn split_text(s: Seq<char>, c: char) -> Seq<Seq<char>>
    decreases s.len(),
{
    let i = find_from(s, seq![c], 0);
    if i < 0 || i >= s.len() {
        seq![s]
    } else {
        seq![s.subrange(0, i)] + split_text(s.subrange(i + 1, s.len() as int), c)
    }
}

pub(crate) proof fn lemma_find_shift(s: Seq<char>, pat: Seq<char>, a: int, k: int)
    requires
        0 <= a <= s.len(),
        0 <= k,
        pat.len() > 0,
    ensures
        ({
            let t = s.subrange(a, s.len() as int);
            let r = find_from(t, pat, k);
            let q = find_from(s, pat, a + k);
            (r == -1 && q == -1) || (r >= 0 && q == r + a)
        }),
    decreases s.len() + 1 - a - k,
{
    let t = s.subrange(a, s.len() as int);
    if k + pat.len() <= t.len() {
        assert(t.subrange(k, k + pat.len()) =~= s.subrange(a + k, a + k + pat.len()));
        if !occurs_at(t, pat, k) {
            lemma_find_shift(s, pat, a, k + 1);
        }
    }
}

/// The pieces of `s` between occurrences of `c`, as `str::split` yields
/// them.
pub fn split_chars(s: &Vec<char>, c: char) -> (pieces: Vec<String>)
    ensures
        pieces@.map_values(|p: String| p@) == split_text(s@, c),
{
    let n = s.len();
    let mut pieces: Vec<String> = Vec::new();
    let mut start: usize = 0;
    proof {
        assert(s@.subrange(0, n as int) =~= s@);
        assert(pieces@.map_values(|p: String| p@) =~= Seq::<Seq<char>>::empty());
        assert(Seq::<Seq<char>>::empty() + split_text(s@, c) =~= split_text(s@, c));
    }
    loop
        invariant
            n == s@.len(),
            start <= n,
            pieces@.map_values(|p: String| p@) + split_text(s@.subrange(start as int, n as int), c)
                == split_text(s@, c),
        decreases n - start,
    {
        let ghost t = s@.subrange(start as int, n as int);
        proof {
            lemma_find_shift(s@, seq![c], start as int, 0);
        }
        let ghost before = pieces@.map_values(|p: String| p@);
        match find_char(s, c, start) {
            None => {
                let last = string_from_chars(&slice_chars(s, start, n));
                pieces.push(last);
                proof {
                    assert(split_text(t, c) == seq![t]);
                    assert(pieces@.map_values(|p: String| p@) =~= before.push(t));
                    assert(before + seq![t] =~= before.push(t));
                }
                return pieces;
            },
            Some(i) => {
                let piece = string_from_chars(&slice_chars(s, start, i));
                pieces.push(piece);
                proof {
                    let rel = i - start;
                    assert(t.subrange(0, rel as int) =~= s@.subrange(start as int, i as int));
                    assert(t.subrange(rel + 1, t.len() as int) =~= s@.subrange(i + 1, n as int));
                    assert(split_text(t, c) == seq![t.subrange(0, rel as int)] + split_text(
                        t.subrange(rel + 1, t.len() as int),
                        c,
                    ));
                    assert(pieces@.map_values(|p: String| p@) =~= before.push(
                        s@.subrange(start as int, i as int),
                    ));
                    assert(before.push(s@.subrange(start as int, i as int)) + split_text(
                        s@.subrange(i + 1, n as int),
                        c,
                    ) =~= before + (seq![s@.subrange(start as int, i as int)] + split_text(
                        s@.subrange(i + 1, n as int),
                        c,
                    )));
                }
                start = i + 1;
            },
        }
    }
}

} // verus!
