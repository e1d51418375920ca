//! Reading the hand-eye detector's replies.
//!
//! The replies are flat JSON of numbers and one string, so a full parser
//! would be a dependency for nothing. These read that shape and no more:
//! they find a key and hand back the text of its value; turning number
//! text into numbers is the caller's.

use vstd::prelude::*;

use crate::text::{
    split_chars,
    chars_of, find, find_char, find_from, occurs_at, skip_whitespace, skip_ws, slice_chars,
    split_text, starts_with, starts_with_at, string_from_chars, trim_start_text, trim_text,
    trimmed,
};

verus! {

/// A key as it appears in the reply: between double quotes.
pub open spec fn quoted(key: Seq<char>) -> Seq<char> {
    seq!['"'] + key + seq!['"']
}

/// The text after the first occurrence of `pat`, up to its next
/// occurrence or the end: what `split(pat).nth(1)` yields.
pub open spec fn after_first(s: Seq<char>, pat: Seq<char>) -> Option<Seq<char>> {
    let i = find_from(s, pat, 0);
    if i < 0 {
        None
    } else {
        let start = i + pat.len();
        let j = find_from(s, pat, start);
        Some(
            s.subrange(
                start,
                if j < 0 {
                    s.len() as int
                } else {
                    j
                },
            ),
        )
    }
}

/// The text after a key's first occurrence.
fn after_key(json: &Vec<char>, key: &str) -> (rest: Option<Vec<char>>)
    ensures
        match rest {
            Some(r) => after_first(json@, quoted(key@)) == Some(r@),
            None => after_first(json@, quoted(key@)) is None,
        },
{
    let k = chars_of(key);
    let mut pat: Vec<char> = Vec::new();
    pat.push('"');
    let mut i: usize = 0;
    while i < k.len()
        invariant
            i <= k@.len(),
            k@ == key@,
            pat@ == seq!['"'] + k@.subrange(0, i as int),
        decreases k@.len() - i,
    {
        pat.push(k[i]);
        proof {
            assert(k@.subrange(0, i + 1) =~= k@.subrange(0, i as int).push(k@[i as int]));
            assert(seq!['"'] + k@.subrange(0, i + 1) =~= (seq!['"'] + k@.subrange(0, i as int)).push(
                k@[i as int],
            ));
        }
        i = i + 1;
    }
    pat.push('"');
    assert(pat@ =~= quoted(key@));
    let n = json.len();
    match find(json, &pat, 0) {
        None => None,
        Some(i) => {
            proof {
                crate::text::lemma_find_from_bounds(json@, pat@, 0);
            }
            let start = i + pat.len();
            let end = match find(json, &pat, start) {
                Some(j) => {
                    proof {
                        crate::text::lemma_find_from_bounds(json@, pat@, start as int);
                    }
                    j
                },
                None => json.len(),
            };
            Some(slice_chars(json, start, end))
        },
    }
}

/// The string value of `key`: the text between the first two double
/// quotes after the key, or nothing when there are not two.
pub open spec fn field_str_text(json: Seq<char>, key: Seq<char>) -> Seq<char> {
    match after_first(json, quoted(key)) {
        None => Seq::empty(),
        Some(rest) => {
            let open = find_from(rest, seq!['"'], 0);
            if open < 0 {
                Seq::empty()
            } else {
                let end = find_from(rest, seq!['"'], open + 1);
                if end < 0 {
                    Seq::empty()
                } else {
                    rest.subrange(open + 1, end)
                }
            }
        },
    }
}

/// The string value of `key` in a reply, empty when it has none.
pub fn field_str(json: &str, key: &str) -> (value: String)
    ensures
        value@ == field_str_text(json@, key@),
{
    let chars = chars_of(json);
    let rest = match after_key(&chars, key) {
        Some(rest) => rest,
        None => return String::new(),
    };
    let rn = rest.len();
    let open = match find_char(&rest, '"', 0) {
        Some(open) => open,
        None => return String::new(),
    };
    proof {
        crate::text::lemma_find_from_bounds(rest@, seq!['"'], 0);
    }
    match find_char(&rest, '"', open + 1) {
        Some(end) => {
            proof {
                crate::text::lemma_find_from_bounds(rest@, seq!['"'], open + 1);
            }
            string_from_chars(&slice_chars(&rest, open + 1, end))
        },
        None => String::new(),
    }
}

/// Whether a reply answers the command `expect`: its `cmd` echo is
/// exactly that. The echo is the whole defence against a shifted stream,
/// where a well-formed detection belongs to a different pose.
pub fn reply_answers(line: &str, expect: &str) -> (r: bool)
    ensures
        r <==> field_str_text(line@, "cmd"@) == expect@,
{
    let answered = field_str(line, "cmd");
    let a = chars_of(answered.as_str());
    let b = chars_of(expect);
    crate::text::same_chars(&a, &b)
}

/// What a scalar field's value is, before any number is parsed.
#[derive(Debug, Clone, PartialEq, Eq)]
pub enum Scalar {
    /// The literal `true`.
    True,
    /// The literal `false` or `null`.
    FalseOrNull,
    /// The run of number characters (digits, `.`, `-`, `+`, `e`) the value
    /// starts with, possibly empty.
    Number(String),
}

/// A scalar as text.
pub enum ScalarText {
    True,
    FalseOrNull,
    Number(Seq<char>),
}

impl View for Scalar {
    type V = ScalarText;

    open spec fn view(&self) -> ScalarText {
        match self {
            Scalar::True => ScalarText::True,
            Scalar::FalseOrNull => ScalarText::FalseOrNull,
            Scalar::Number(s) => ScalarText::Number(s@),
        }
    }
}

/// Whether `c` may stand in a number's text.
pub open spec fn number_char(c: char) -> bool {
    ('0' <= c && c <= '9') || c == '.' || c == '-' || c == '+' || c == 'e'
}

/// The length of the run of number characters `s` starts with, from `i`.
pub open spec fn number_end(s: Seq<char>, i: int) -> int
    decreases s.len() - i,
{
    if i < 0 || i >= s.len() {
        i
    } else if number_char(s[i]) {
        number_end(s, i + 1)
    } else {
        i
    }
}

/// What a scalar value text means: `true`, `false`/`null`, or the number
/// run it starts with.
pub open spec fn scalar_of(v: Seq<char>) -> ScalarText {
    if starts_with(v, "true"@) {
        ScalarText::True
    } else if starts_with(v, "false"@) || starts_with(v, "null"@) {
        ScalarText::FalseOrNull
    } else {
        ScalarText::Number(v.subrange(0, number_end(v, 0)))
    }
}

/// The scalar value of `key`: after the key, white space, a colon and
/// more white space; `None` when the key or the colon is missing.
pub open spec fn field_scalar_text(json: Seq<char>, key: Seq<char>) -> Option<ScalarText> {
    match after_first(json, quoted(key)) {
        None => None,
        Some(rest) => {
            let r = trim_start_text(rest);
            if starts_with(r, ":"@) {
                Some(scalar_of(trim_start_text(r.subrange(1, r.len() as int))))
            } else {
                None
            }
        },
    }
}

proof fn lemma_trim_start_tail(s: Seq<char>, i: int)
    requires
        0 <= i <= s.len(),
    ensures
        trim_start_text(s.subrange(i, s.len() as int)) == s.subrange(
            skip_ws(s, i),
            s.len() as int,
        ),
        i <= skip_ws(s, i) <= s.len(),
    decreases s.len() - i,
{
    let t = s.subrange(i, s.len() as int);
    lemma_skip_shift(s, i, 0);
    crate::text::lemma_skip_ws_bounds(s, i);
    assert(t.subrange(skip_ws(t, 0), t.len() as int) =~= s.subrange(skip_ws(s, i), s.len() as int));
}

proof fn lemma_skip_shift(s: Seq<char>, i: int, k: int)
    requires
        0 <= i <= s.len(),
        0 <= k <= s.len() - i,
    ensures
        skip_ws(s.subrange(i, s.len() as int), k) + i == skip_ws(s, i + k),
    decreases s.len() - i - k,
{
    let t = s.subrange(i, s.len() as int);
    if k < t.len() && crate::text::is_ws(t[k]) {
        lemma_skip_shift(s, i, k + 1);
    }
}

proof fn lemma_number_end_bounds(s: Seq<char>, i: int)
    requires
        0 <= i <= s.len(),
    ensures
        i <= number_end(s, i) <= s.len(),
    decreases s.len() - i,
{
    if i < s.len() && number_char(s[i]) {
        lemma_number_end_bounds(s, i + 1);
    }
}

proof fn lemma_number_shift(s: Seq<char>, i: int, k: int)
    requires
        0 <= i <= s.len(),
        0 <= k <= s.len() - i,
    ensures
        number_end(s.subrange(i, s.len() as int), k) + i == number_end(s, i + k),
    decreases s.len() - i - k,
{
    let t = s.subrange(i, s.len() as int);
    if k < t.len() && number_char(t[k]) {
        lemma_number_shift(s, i, k + 1);
    }
}

/// The scalar value of `key` in a reply.
pub fn field_scalar(json: &str, key: &str) -> (value: Option<Scalar>)
    ensures
        match value {
            Some(v) => field_scalar_text(json@, key@) == Some(v@),
            None => field_scalar_text(json@, key@) is None,
        },
{
    let chars = chars_of(json);
    let rest = match after_key(&chars, key) {
        Some(rest) => rest,
        None => return None,
    };
    let a = skip_whitespace(&rest, 0);
    proof {
        lemma_trim_start_tail(rest@, 0);
        assert(rest@.subrange(0, rest@.len() as int) =~= rest@);
    }
    let rn = rest.len();
    proof {
        reveal_strlit(":");
    }
    if !starts_with_at(&rest, a, ":") {
        return None;
    }
    let b = skip_whitespace(&rest, a + 1);
    proof {
        let r = rest@.subrange(a as int, rest@.len() as int);
        assert(r.subrange(1, r.len() as int) =~= rest@.subrange(a + 1, rest@.len() as int));
        lemma_trim_start_tail(rest@, a + 1);
    }
    let v = slice_chars(&rest, b, rest.len());
    let scalar = if starts_with_at(&rest, b, "true") {
        Scalar::True
    } else if starts_with_at(&rest, b, "false") || starts_with_at(&rest, b, "null") {
        Scalar::FalseOrNull
    } else {
        let mut e = b;
        while e < rest.len() && is_number_char(rest[e])
            invariant
                b <= e <= rest@.len(),
                number_end(rest@, b as int) == number_end(rest@, e as int),
            decreases rest@.len() - e,
        {
            e = e + 1;
        }
        proof {
            lemma_number_shift(rest@, b as int, 0);
            assert(rest@.subrange(b as int, e as int) =~= v@.subrange(0, number_end(v@, 0)));
        }
        Scalar::Number(string_from_chars(&slice_chars(&rest, b, e)))
    };
    Some(scalar)
}

/// [`number_char`], computed.
fn is_number_char(c: char) -> (r: bool)
    ensures
        r == number_char(c),
{
    ('0' <= c && c <= '9') || c == '.' || c == '-' || c == '+' || c == 'e'
}

/// Why an array field could not be read.
#[derive(Debug, Clone, Copy, PartialEq, Eq, Structural)]
pub enum ArrayError {
    /// The reply has no such key.
    Missing,
    /// No `[` follows the key.
    NotArray,
    /// The `[` is never closed.
    Unterminated,
}

/// The first index at or after `i` that is neither `:` nor a space.
pub open spec fn skip_colon_space(s: Seq<char>, i: int) -> int
    decreases s.len() - i,
{
    if i < 0 || i >= s.len() {
        i
    } else if s[i] == ':' || s[i] == ' ' {
        skip_colon_space(s, i + 1)
    } else {
        i
    }
}

/// The element texts of an array field, unparsed and untrimmed, as the
/// comma-separated pieces between the first `[` after the key and the
/// first `]` after that. A `null` value is no elements -- not a reason to
/// look further along the line, where the next key's array would be read
/// under this key's name.
pub open spec fn field_array_text(json: Seq<char>, key: Seq<char>) -> Result<
    Seq<Seq<char>>,
    ArrayError,
> {
    match after_first(json, quoted(key)) {
        None => Err(ArrayError::Missing),
        Some(rest) => if starts_with(
            rest.subrange(skip_colon_space(rest, 0), rest.len() as int),
            "null"@,
        ) {
            Ok(Seq::empty())
        } else {
            let open = find_from(rest, seq!['['], 0);
            if open < 0 {
                Err(ArrayError::NotArray)
            } else {
                let close = find_from(rest, seq![']'], open);
                if close < 0 {
                    Err(ArrayError::Unterminated)
                } else {
                    Ok(split_text(rest.subrange(open + 1, close), ','))
                }
            }
        },
    }
}

/// A `null` array field is no elements: whatever array follows it on the
/// line is never read under its name.
pub proof fn law_a_null_field_is_no_numbers(json: Seq<char>, key: Seq<char>, rest: Seq<char>)
    requires
        after_first(json, quoted(key)) == Some(rest),
        starts_with(rest.subrange(skip_colon_space(rest, 0), rest.len() as int), "null"@),
    ensures
        field_array_text(json, key) == Ok::<Seq<Seq<char>>, ArrayError>(Seq::empty()),
{
}

/// The element texts of array field `key` in a reply.
pub fn field_array(json: &str, key: &str) -> (pieces: Result<Vec<String>, ArrayError>)
    ensures
        match pieces {
            Ok(p) => field_array_text(json@, key@) == Ok::<Seq<Seq<char>>, ArrayError>(
                p@.map_values(|x: String| x@),
            ),
            Err(e) => field_array_text(json@, key@) == Err::<Seq<Seq<char>>, ArrayError>(e),
        },
{
    let chars = chars_of(json);
    let rest = match after_key(&chars, key) {
        Some(rest) => rest,
        None => return Err(ArrayError::Missing),
    };
    let rn = rest.len();
    let mut i: usize = 0;
    while i < rn && (rest[i] == ':' || rest[i] == ' ')
        invariant
            rn == rest@.len(),
            i <= rn,
            skip_colon_space(rest@, 0) == skip_colon_space(rest@, i as int),
        decreases rn - i,
    {
        i = i + 1;
    }
    if starts_with_at(&rest, i, "null") {
        let none: Vec<String> = Vec::new();
        assert(none@.map_values(|x: String| x@) =~= Seq::<Seq<char>>::empty());
        return Ok(none);
    }
    let open = match find_char(&rest, '[', 0) {
        Some(open) => open,
        None => return Err(ArrayError::NotArray),
    };
    let close = match find_char(&rest, ']', open) {
        Some(close) => close,
        None => return Err(ArrayError::Unterminated),
    };
    let body = slice_chars(&rest, open + 1, close);
    Ok(crate::text::split_chars(&body, ','))
}

/// What one line of the saved aiming-pose file says: nothing (blank or
/// a `#` comment), the two sides of its first colon as they stand in
/// the trimmed line, or -- for a line with no colon -- the trimmed line
/// itself, which is not a pair at all. The sides keep their spaces so
/// that a complaint about one quotes it as written.
pub open spec fn pose_line_text(line: Seq<char>) -> Option<Result<(Seq<char>, Seq<char>), Seq<char>>> {
    let l = trim_text(line);
    if l.len() == 0 || starts_with(l, "#"@) {
        None
    } else {
        let i = find_from(l, seq![':'], 0);
        if i < 0 {
            Some(Err(l))
        } else {
            Some(Ok((l.subrange(0, i), l.subrange(i + 1, l.len() as int))))
        }
    }
}

/// The lines of a saved aiming-pose file that say something, in order.
pub open spec fn pose_lines_text(lines: Seq<Seq<char>>) -> Seq<Result<(Seq<char>, Seq<char>), Seq<char>>>
    decreases lines.len(),
{
    if lines.len() == 0 {
        Seq::empty()
    } else {
        let rest = pose_lines_text(lines.drop_first());
        match pose_line_text(lines[0]) {
            None => rest,
            Some(entry) => seq![entry] + rest,
        }
    }
}

/// One pose-file entry as text.
pub open spec fn entry_text(e: Result<(String, String), String>) -> Result<(Seq<char>, Seq<char>), Seq<char>> {
    match e {
        Ok((name, value)) => Ok((name@, value@)),
        Err(line) => Err(line@),
    }
}

/// The entries of a saved aiming-pose file, line by line: each joint's
/// name and value text, or the line that is not `joint: value`. Blank
/// lines and comments say nothing.
pub fn aim_pose_entries(text: &str) -> (entries: Vec<Result<(String, String), String>>)
    ensures
        entries@.map_values(|e: Result<(String, String), String>| entry_text(e))
            == pose_lines_text(split_text(text@, '\n')),
{
    let chars = chars_of(text);
    let lines = split_chars(&chars, '\n');
    let mut entries: Vec<Result<(String, String), String>> = Vec::new();
    let mut k = lines.len();
    let ghost views = lines@.map_values(|p: String| p@);
    // Built back to front so each step is one unfolding of the spec.
    let mut rev: Vec<Result<(String, String), String>> = Vec::new();
    while k > 0
        invariant
            k <= lines@.len(),
            views == lines@.map_values(|p: String| p@),
            views == split_text(text@, '\n'),
            rev@.map_values(|e: Result<(String, String), String>| entry_text(e)).reverse()
                == pose_lines_text(views.subrange(k as int, views.len() as int)),
        decreases k,
    {
        k = k - 1;
        let ghost tail = views.subrange(k + 1, views.len() as int);
        let ghost here = views.subrange(k as int, views.len() as int);
        proof {
            assert(here.drop_first() =~= tail);
            assert(here[0] == lines@[k as int]@);
        }
        let before_len = rev.len();
        let ghost before = rev@.map_values(|e: Result<(String, String), String>| entry_text(e));
        match pose_line(lines[k].as_str()) {
            None => {},
            Some(entry) => {
                rev.push(entry);
                proof {
                    let after = rev@.map_values(|e: Result<(String, String), String>| entry_text(e));
                    assert(after =~= before.push(entry_text(entry)));
                    assert(after.reverse() =~= seq![entry_text(entry)] + before.reverse());
                }
            },
        }
    }
    let mut i = rev.len();
    let ghost rv = rev@.map_values(|e: Result<(String, String), String>| entry_text(e));
    while i > 0
        invariant
            i <= rev@.len(),
            rv == rev@.map_values(|e: Result<(String, String), String>| entry_text(e)),
            entries@.map_values(|e: Result<(String, String), String>| entry_text(e)) =~= rv.reverse().subrange(
                0,
                (rv.len() - i) as int,
            ),
        decreases i,
    {
        i = i - 1;
        let e = clone_entry(&rev[i]);
        let ghost before = entries@.map_values(|e: Result<(String, String), String>| entry_text(e));
        entries.push(e);
        proof {
            assert(entries@.map_values(|e: Result<(String, String), String>| entry_text(e)) =~= before.push(
                entry_text(e),
            ));
            assert(rv.reverse()[rv.len() - 1 - i] == rv[i as int]);
        }
    }
    proof {
        assert(views.subrange(0, views.len() as int) =~= views);
    }
    entries
}

/// A copy of one entry.
fn clone_entry(e: &Result<(String, String), String>) -> (c: Result<(String, String), String>)
    ensures
        entry_text(c) == entry_text(*e),
{
    match e {
        Ok((name, value)) => Ok((name.clone(), value.clone())),
        Err(line) => Err(line.clone()),
    }
}

/// What one line of the aiming-pose file says.
pub fn pose_line(line: &str) -> (entry: Option<Result<(String, String), String>>)
    ensures
        match entry {
            Some(e) => pose_line_text(line@) == Some(entry_text(e)),
            None => pose_line_text(line@) is None,
        },
{
    let raw = chars_of(line);
    let l = trimmed(&raw);
    if l.len() == 0 || starts_with_at(&l, 0, "#") {
        proof {
            assert(l@.subrange(0, l@.len() as int) =~= l@);
        }
        return None;
    }
    proof {
        assert(l@.subrange(0, l@.len() as int) =~= l@);
    }
    match find_char(&l, ':', 0) {
        None => Some(Err(string_from_chars(&l))),
        Some(i) => {
            let name = slice_chars(&l, 0, i);
            let value = slice_chars(&l, i + 1, l.len());
            Some(Ok((string_from_chars(&name), string_from_chars(&value))))
        },
    }
}

} // verus!
