//! Comment-preserving edits of `taught_waypoints.yaml`.
//!
//! Saving edits the file textually -- the value after a scalar `key:` or
//! one entry of a flow list -- so every comment and untouched line
//! survives, unlike a parse-and-dump. Here is where the line is found and
//! the new text assembled; the numbers themselves, parsed and printed,
//! are the caller's.

use vstd::prelude::*;

use crate::text::{
    chars_of, skip_whitespace, skip_ws, slice_chars, split_chars, split_text, starts_with,
    starts_with_at, string_from_chars, trim_start_text, trim_text, trimmed,
};

verus! {

/// One editable location in the file: a scalar key, or one entry of a
/// flow list.
#[derive(Clone, Debug, PartialEq)]
pub enum Slot {
    Scalar(&'static str),
    List(&'static str, usize),
}

/// A slot as the key text and, for a list, the entry index.
pub enum SlotKey {
    Scalar(Seq<char>),
    List(Seq<char>, nat),
}

impl View for Slot {
    type V = SlotKey;

    open spec fn view(&self) -> SlotKey {
        match self {
            Slot::Scalar(key) => SlotKey::Scalar(key@),
            Slot::List(key, index) => SlotKey::List(key@, *index as nat),
        }
    }
}

/// `l` without one trailing carriage return.
pub open spec fn strip_cr(l: Seq<char>) -> Seq<char> {
    if l.len() > 0 && l.last() == '\r' {
        l.drop_last()
    } else {
        l
    }
}

/// The lines of `t` as `str::lines` yields them: split at each `\n`,
/// each terminated line without a `\r` before its `\n`, and no empty
/// line after a final `\n`.
pub open spec fn text_lines(t: Seq<char>) -> Seq<Seq<char>> {
    let p = split_text(t, '\n');
    let n = if p.last().len() == 0 {
        p.len() - 1
    } else {
        p.len() as int
    };
    Seq::new(
        n as nat,
        |k: int|
            if k < p.len() - 1 {
                strip_cr(p[k])
            } else {
                p[k]
            },
    )
}

/// Lines written back out, each followed by a `\n`: what
/// `lines.join("\n") + "\n"` gives for any lines at all.
pub open spec fn terminated(ls: Seq<Seq<char>>) -> Seq<char>
    decreases ls.len(),
{
    if ls.len() == 0 {
        Seq::empty()
    } else {
        terminated(ls.drop_last()) + ls.last() + seq!['\n']
    }
}

proof fn lemma_split_nonempty(s: Seq<char>, c: char)
    ensures
        split_text(s, c).len() >= 1,
{
}

/// The lines of `text`.
fn lines_of(text: &str) -> (lines: Vec<Vec<char>>)
    ensures
        lines@.map_values(|l: Vec<char>| l@) == text_lines(text@),
{
    let chars = chars_of(text);
    let pieces = split_chars(&chars, '\n');
    let ghost p = pieces@.map_values(|q: String| q@);
    proof {
        lemma_split_nonempty(text@, '\n');
    }
    let n = pieces.len();
    proof {
        assert(p[n - 1] == pieces@[n - 1]@);
    }
    let count: usize = if pieces[n - 1].as_str().is_empty() {
        n - 1
    } else {
        n
    };
    let mut lines: Vec<Vec<char>> = Vec::new();
    let mut k: usize = 0;
    while k < count
        invariant
            count <= n,
            n == pieces@.len(),
            p == pieces@.map_values(|q: String| q@),
            p == split_text(text@, '\n'),
            count == text_lines(text@).len(),
            k <= count,
            lines@.map_values(|l: Vec<char>| l@) =~= text_lines(text@).subrange(0, k as int),
        decreases count - k,
    {
        let mut l = chars_of(pieces[k].as_str());
        if k + 1 < n && l.len() > 0 && l[l.len() - 1] == '\r' {
            l.pop();
        }
        proof {
            assert(l@ == text_lines(text@)[k as int]);
        }
        let ghost before = lines@.map_values(|l: Vec<char>| l@);
        lines.push(l);
        proof {
            assert(lines@.map_values(|l: Vec<char>| l@) =~= before.push(
                text_lines(text@)[k as int],
            ));
            assert(text_lines(text@).subrange(0, k + 1) =~= text_lines(text@).subrange(
                0,
                k as int,
            ).push(text_lines(text@)[k as int]));
        }
        k = k + 1;
    }
    lines
}

/// What a key's line starts with once its indentation is dropped.
pub open spec fn key_prefix(key: Seq<char>) -> Seq<char> {
    key + seq![':']
}

/// Whether `line` is where `key` is set.
pub open spec fn is_key_line(line: Seq<char>, key: Seq<char>) -> bool {
    starts_with(trim_start_text(line), key_prefix(key))
}

/// The first line at or after `from` that sets `key`, or -1.
pub open spec fn first_key_line(lines: Seq<Seq<char>>, key: Seq<char>, from: int) -> int
    decreases lines.len() - from,
{
    if from < 0 || from >= lines.len() {
        -1
    } else if is_key_line(lines[from], key) {
        from
    } else {
        first_key_line(lines, key, from + 1)
    }
}

proof fn lemma_first_key_line_bounds(lines: Seq<Seq<char>>, key: Seq<char>, from: int)
    requires
        from >= 0,
    ensures
        first_key_line(lines, key, from) == -1 || (from <= first_key_line(lines, key, from)
            < lines.len() && is_key_line(lines[first_key_line(lines, key, from)], key)),
    decreases lines.len() - from,
{
    if from < lines.len() && !is_key_line(lines[from], key) {
        lemma_first_key_line_bounds(lines, key, from + 1);
    }
}

/// A line's indentation: its leading white space.
pub open spec fn indent_of(line: Seq<char>) -> Seq<char> {
    line.subrange(0, skip_ws(line, 0))
}

/// What follows `key:` on a line that sets `key`.
pub open spec fn after_prefix(line: Seq<char>, key: Seq<char>) -> Seq<char> {
    let t = trim_start_text(line);
    t.subrange(key.len() + 1int, t.len() as int)
}

/// Why an edit cannot be made.
#[derive(Clone, Copy, Debug, PartialEq, Eq, Structural)]
pub enum EditError {
    /// No line sets the key.
    NotFound,
    /// The list's `[` is never closed by a line ending in `]`.
    Unclosed,
    /// The value is not a `[...]` flow list.
    NotFlowList,
    /// The list has this many entries, and the index is not below it.
    TooShort(usize),
}

/// Where a key's line is: its index, its indentation, and its
/// `key: value` split.
fn key_line_at(l: &Vec<char>, kp: &str) -> (r: bool)
    ensures
        r == starts_with(trim_start_text(l@), kp@),
{
    let a = skip_whitespace(l, 0);
    starts_with_at(l, a, kp)
}

/// The first line at or after `from` that sets `key`, whose line prefix
/// is `kp`.
fn find_key_line(lines: &Vec<Vec<char>>, key: &str, kp: &str, from: usize) -> (r: Option<usize>)
    requires
        kp@ == key_prefix(key@),
    ensures
        match r {
            Some(i) => first_key_line(lines@.map_values(|l: Vec<char>| l@), key@, from as int)
                == i as int,
            None => first_key_line(lines@.map_values(|l: Vec<char>| l@), key@, from as int) == -1,
        },
{
    let ghost ls = lines@.map_values(|l: Vec<char>| l@);
    let mut i = from;
    while i < lines.len()
        invariant
            from <= i,
            ls == lines@.map_values(|l: Vec<char>| l@),
            kp@ == key_prefix(key@),
            first_key_line(ls, key@, from as int) == first_key_line(ls, key@, i as int),
        decreases lines@.len() - i,
    {
        assert(ls[i as int] == lines@[i as int]@);
        if key_line_at(&lines[i], kp) {
            return Some(i);
        }
        i = i + 1;
    }
    None
}

/// A scalar key's line, as found.
pub struct ScalarSite {
    /// Its index among the file's lines.
    pub line: usize,
    /// Its indentation.
    pub indent: String,
    /// The value text after `key:`, trimmed.
    pub value: String,
    /// Whether a later line sets the key again.
    pub repeated: bool,
}

/// A scalar site as text.
pub struct ScalarSiteText {
    pub line: int,
    pub indent: Seq<char>,
    pub value: Seq<char>,
    pub repeated: bool,
}

impl View for ScalarSite {
    type V = ScalarSiteText;

    open spec fn view(&self) -> ScalarSiteText {
        ScalarSiteText {
            line: self.line as int,
            indent: self.indent@,
            value: self.value@,
            repeated: self.repeated,
        }
    }
}

/// Where `key` is set as a scalar in `text`: the first line that sets it.
pub open spec fn scalar_site_text(text: Seq<char>, key: Seq<char>) -> Result<ScalarSiteText, EditError> {
    let ls = text_lines(text);
    let i = first_key_line(ls, key, 0);
    if i < 0 {
        Err(EditError::NotFound)
    } else {
        Ok(
            ScalarSiteText {
                line: i,
                indent: indent_of(ls[i]),
                value: trim_text(after_prefix(ls[i], key)),
                repeated: first_key_line(ls, key, i + 1) >= 0,
            },
        )
    }
}

/// The key's prefix, `key:`, as text.
fn prefix_of(key: &str) -> (kp: String)
    ensures
        kp@ == key_prefix(key@),
{
    let kp = crate::text::cat(key, ":");
    proof {
        reveal_strlit(":");
        assert(kp@ =~= key_prefix(key@));
    }
    kp
}

/// Finds the line that sets scalar `key` in `text`.
pub fn scalar_site(text: &str, key: &str) -> (r: Result<ScalarSite, EditError>)
    ensures
        match r {
            Ok(site) => scalar_site_text(text@, key@) == Ok::<ScalarSiteText, EditError>(site@),
            Err(e) => scalar_site_text(text@, key@) == Err::<ScalarSiteText, EditError>(e),
        },
{
    let lines = lines_of(text);
    let ghost ls = lines@.map_values(|l: Vec<char>| l@);
    let kp = prefix_of(key);
    let i = match find_key_line(&lines, key, kp.as_str(), 0) {
        Some(i) => i,
        None => return Err(EditError::NotFound),
    };
    proof {
        lemma_first_key_line_bounds(ls, key@, 0);
    }
    assert(i < lines.len());
    let l = &lines[i];
    assert(ls[i as int] == l@);
    let a = skip_whitespace(l, 0);
    let klen = chars_of(kp.as_str()).len();
    assert(a + klen <= l@.len());
    let indent = slice_chars(l, 0, a);
    let rest = slice_chars(l, a + klen, l.len());
    proof {
        let t = trim_start_text(l@);
        assert(t.subrange(key@.len() + 1int, t.len() as int) =~= rest@);
    }
    let value = trimmed(&rest);
    let again = find_key_line(&lines, key, kp.as_str(), i + 1);
    Ok(
        ScalarSite {
            line: i,
            indent: string_from_chars(&indent),
            value: string_from_chars(&value),
            repeated: again.is_some(),
        },
    )
}

/// Writes `l` and a line end after what `out` holds.
fn emit(out: &mut Vec<char>, l: &Vec<char>)
    ensures
        final(out)@ == old(out)@ + l@ + seq!['\n'],
{
    let ghost start = out@;
    let mut k: usize = 0;
    while k < l.len()
        invariant
            k <= l@.len(),
            out@ == start + l@.subrange(0, k as int),
        decreases l@.len() - k,
    {
        out.push(l[k]);
        proof {
            assert(l@.subrange(0, k + 1) =~= l@.subrange(0, k as int).push(l@[k as int]));
        }
        k = k + 1;
    }
    out.push('\n');
    proof {
        assert(l@.subrange(0, l@.len() as int) =~= l@);
    }
}

proof fn lemma_terminated_step(t: Seq<Seq<char>>, m: int)
    requires
        0 <= m < t.len(),
    ensures
        terminated(t.subrange(0, m + 1)) == terminated(t.subrange(0, m)) + t[m] + seq!['\n'],
{
    assert(t.subrange(0, m + 1).drop_last() =~= t.subrange(0, m));
}

/// `text` with its lines `first..=last` replaced by the single line
/// `line`, every other line kept as it was, and each line ended by `\n`.
pub open spec fn replaced_text(text: Seq<char>, first: int, last: int, line: Seq<char>) -> Seq<char> {
    let ls = text_lines(text);
    terminated(ls.subrange(0, first) + seq![line] + ls.subrange(last + 1, ls.len() as int))
}

/// The number of lines `text` has.
pub fn line_count(text: &str) -> (n: usize)
    ensures
        n == text_lines(text@).len(),
{
    let lines = lines_of(text);
    lines.len()
}

/// Replaces lines `first..=last` of `text` by `line`.
pub fn replace_lines(text: &str, first: usize, last: usize, line: &str) -> (out: String)
    requires
        first <= last < text_lines(text@).len(),
    ensures
        out@ == replaced_text(text@, first as int, last as int, line@),
{
    let lines = lines_of(text);
    let ghost ls = lines@.map_values(|l: Vec<char>| l@);
    let n = lines.len();
    let ghost target = ls.subrange(0, first as int) + seq![line@] + ls.subrange(
        last + 1,
        ls.len() as int,
    );
    let mut out: Vec<char> = Vec::new();
    let mut k: usize = 0;
    proof {
        assert(target.subrange(0, 0) =~= Seq::<Seq<char>>::empty());
    }
    while k < first
        invariant
            k <= first <= last < n,
            n == lines@.len(),
            ls == lines@.map_values(|l: Vec<char>| l@),
            target == ls.subrange(0, first as int) + seq![line@] + ls.subrange(
                last + 1,
                ls.len() as int,
            ),
            out@ == terminated(target.subrange(0, k as int)),
        decreases first - k,
    {
        emit(&mut out, &lines[k]);
        proof {
            lemma_terminated_step(target, k as int);
            assert(target[k as int] == lines@[k as int]@);
        }
        k = k + 1;
    }
    emit(&mut out, &chars_of(line));
    proof {
        lemma_terminated_step(target, first as int);
    }
    let mut j: usize = last + 1;
    while j < n
        invariant
            first <= last < j <= n,
            n == lines@.len(),
            ls == lines@.map_values(|l: Vec<char>| l@),
            target == ls.subrange(0, first as int) + seq![line@] + ls.subrange(
                last + 1,
                ls.len() as int,
            ),
            out@ == terminated(target.subrange(0, first + 1 + (j - last - 1))),
        decreases n - j,
    {
        emit(&mut out, &lines[j]);
        proof {
            lemma_terminated_step(target, first + 1 + (j - last - 1));
            assert(target[first + 1 + (j - last - 1)] == lines@[j as int]@);
        }
        j = j + 1;
    }
    proof {
        assert(target.subrange(0, first + 1 + (n - last - 1)) =~= target);
    }
    string_from_chars(&out)
}

/// The line that sets scalar `key` to `value` at `indent`.
pub fn scalar_line(indent: &str, key: &str, value: &str) -> (line: String)
    ensures
        line@ == indent@ + key@ + ": "@ + value@,
{
    let mut line = String::from_str(indent);
    line.append(key);
    line.append(": ");
    line.append(value);
    line
}

/// Whether a list's text so far is closed.
pub open spec fn ends_list(body: Seq<char>) -> bool {
    body.len() > 0 && body.last() == ']'
}

/// Gathers a flow list that starts on line `i` with text `body`: while
/// the text does not end in `]`, the next line is joined on with one
/// space. The last line used and the whole text, or `None` when the
/// file ends first.
pub open spec fn list_close(lines: Seq<Seq<char>>, i: int, body: Seq<char>) -> Option<(int, Seq<char>)>
    decreases lines.len() - i,
{
    if ends_list(body) {
        Some((i, body))
    } else if i < 0 || i + 1 >= lines.len() {
        None
    } else {
        list_close(lines, i + 1, body + seq![' '] + trim_text(lines[i + 1]))
    }
}

proof fn lemma_list_close_bounds(lines: Seq<Seq<char>>, i: int, body: Seq<char>)
    requires
        0 <= i < lines.len(),
    ensures
        match list_close(lines, i, body) {
            Some((end, b)) => i <= end < lines.len() && ends_list(b),
            None => true,
        },
    decreases lines.len() - i,
{
    if !ends_list(body) && i + 1 < lines.len() {
        lemma_list_close_bounds(lines, i + 1, body + seq![' '] + trim_text(lines[i + 1]));
    }
}

/// A flow list's lines, as found.
pub struct ListSite {
    /// The line that sets the key.
    pub first: usize,
    /// The line the list closes on.
    pub last: usize,
    /// The key line's indentation.
    pub indent: String,
    /// The entry texts between the brackets, split at each comma,
    /// untrimmed.
    pub entries: Vec<String>,
    /// Whether a line after the list sets the key again.
    pub repeated: bool,
}

/// A list site as text.
pub struct ListSiteText {
    pub first: int,
    pub last: int,
    pub indent: Seq<char>,
    pub entries: Seq<Seq<char>>,
    pub repeated: bool,
}

impl View for ListSite {
    type V = ListSiteText;

    open spec fn view(&self) -> ListSiteText {
        ListSiteText {
            first: self.first as int,
            last: self.last as int,
            indent: self.indent@,
            entries: self.entries@.map_values(|e: String| e@),
            repeated: self.repeated,
        }
    }
}

/// Where `key` is set as a flow list in `text`: the first line that sets
/// it, through the line its `]` closes on.
pub open spec fn list_site_text(text: Seq<char>, key: Seq<char>) -> Result<ListSiteText, EditError> {
    let ls = text_lines(text);
    let i = first_key_line(ls, key, 0);
    if i < 0 {
        Err(EditError::NotFound)
    } else {
        match list_close(ls, i, trim_text(after_prefix(ls[i], key))) {
            None => Err(EditError::Unclosed),
            Some((end, body)) => if body[0] != '[' {
                Err(EditError::NotFlowList)
            } else {
                Ok(
                    ListSiteText {
                        first: i,
                        last: end,
                        indent: indent_of(ls[i]),
                        entries: split_text(body.subrange(1, body.len() - 1), ','),
                        repeated: first_key_line(ls, key, end + 1) >= 0,
                    },
                )
            },
        }
    }
}

/// Writes `t` after what `out` holds.
fn append_chars(out: &mut Vec<char>, t: &Vec<char>)
    ensures
        final(out)@ == old(out)@ + t@,
{
    let ghost start = out@;
    let mut k: usize = 0;
    while k < t.len()
        invariant
            k <= t@.len(),
            out@ == start + t@.subrange(0, k as int),
        decreases t@.len() - k,
    {
        out.push(t[k]);
        proof {
            assert(t@.subrange(0, k + 1) =~= t@.subrange(0, k as int).push(t@[k as int]));
        }
        k = k + 1;
    }
    assert(t@.subrange(0, t@.len() as int) =~= t@);
}

/// [`ends_list`], computed.
fn closes_list(body: &Vec<char>) -> (r: bool)
    ensures
        r == ends_list(body@),
{
    body.len() > 0 && body[body.len() - 1] == ']'
}

/// Finds the flow list that sets `key` in `text`.
pub fn list_site(text: &str, key: &str) -> (r: Result<ListSite, EditError>)
    ensures
        match r {
            Ok(site) => list_site_text(text@, key@) == Ok::<ListSiteText, EditError>(site@),
            Err(e) => list_site_text(text@, key@) == Err::<ListSiteText, EditError>(e),
        },
{
    let lines = lines_of(text);
    let ghost ls = lines@.map_values(|l: Vec<char>| l@);
    let kp = prefix_of(key);
    let i = match find_key_line(&lines, key, kp.as_str(), 0) {
        Some(i) => i,
        None => return Err(EditError::NotFound),
    };
    proof {
        lemma_first_key_line_bounds(ls, key@, 0);
    }
    assert(i < lines.len());
    let l = &lines[i];
    assert(ls[i as int] == l@);
    let a = skip_whitespace(l, 0);
    let klen = chars_of(kp.as_str()).len();
    assert(a + klen <= l@.len());
    let indent = slice_chars(l, 0, a);
    let rest = slice_chars(l, a + klen, l.len());
    proof {
        let t = trim_start_text(l@);
        assert(t.subrange(key@.len() + 1int, t.len() as int) =~= rest@);
    }
    let mut body = trimmed(&rest);
    let ghost body0 = body@;
    assert(body0 == trim_text(after_prefix(ls[i as int], key@)));
    assert(ls == text_lines(text@));
    let mut end = i;
    let mut closed = closes_list(&body);
    while !closed
        invariant
            i <= end < lines@.len(),
            ls == lines@.map_values(|l: Vec<char>| l@),
            closed == ends_list(body@),
            ls == text_lines(text@),
            first_key_line(ls, key@, 0) == i,
            body0 == trim_text(after_prefix(ls[i as int], key@)),
            list_close(ls, i as int, body0) == list_close(ls, end as int, body@),
        decreases lines@.len() - end,
    {
        assert(end < lines@.len());
        assert(lines@.len() == lines.len());
        if end + 1 >= lines.len() {
            assert(list_close(ls, end as int, body@) is None);
            assert(list_close(ls, i as int, body0) is None);
            return Err(EditError::Unclosed);
        }
        let ghost was = body@;
        let ghost at = end as int;
        end = end + 1;
        body.push(' ');
        let t = trimmed(&lines[end]);
        proof {
            assert(ls[end as int] == lines@[end as int]@);
        }
        append_chars(&mut body, &t);
        proof {
            assert(body@ =~= was + seq![' '] + trim_text(ls[at + 1]));
            assert(list_close(ls, at, was) == list_close(ls, at + 1, body@));
        }
        closed = closes_list(&body);
    }
    proof {
        lemma_list_close_bounds(ls, i as int, body0);
    }
    if body[0] != '[' {
        return Err(EditError::NotFlowList);
    }
    let inner = slice_chars(&body, 1, body.len() - 1);
    let entries = split_chars(&inner, ',');
    let again = find_key_line(&lines, key, kp.as_str(), end + 1);
    Ok(
        ListSite {
            first: i,
            last: end,
            indent: string_from_chars(&indent),
            entries,
            repeated: again.is_some(),
        },
    )
}

/// `ls` joined with `sep` between each two.
pub open spec fn join_with(ls: Seq<Seq<char>>, sep: Seq<char>) -> Seq<char>
    decreases ls.len(),
{
    if ls.len() == 0 {
        Seq::empty()
    } else if ls.len() == 1 {
        ls[0]
    } else {
        join_with(ls.drop_last(), sep) + sep + ls.last()
    }
}

/// The line that sets list `key` at `indent` to `entries` with entry
/// `index` replaced by `value`.
pub open spec fn list_line_text(
    indent: Seq<char>,
    key: Seq<char>,
    entries: Seq<Seq<char>>,
    index: int,
    value: Seq<char>,
) -> Seq<char> {
    indent + key + ": ["@ + join_with(entries.update(index, value), ", "@) + "]"@
}

/// The line that sets list `key` to `entries` with entry `index` set to
/// `value`, or -- when the list is too short for `index` -- how long it
/// is.
pub fn list_line(indent: &str, key: &str, entries: &Vec<String>, index: usize, value: &str) -> (r:
    Result<String, EditError>)
    ensures
        index >= entries@.len() ==> r == Err::<String, EditError>(
            EditError::TooShort(entries@.len() as usize),
        ),
        index < entries@.len() ==> (r matches Ok(line) && line@ == list_line_text(
            indent@,
            key@,
            entries@.map_values(|e: String| e@),
            index as int,
            value@,
        )),
{
    if index >= entries.len() {
        return Err(EditError::TooShort(entries.len()));
    }
    let ghost target = entries@.map_values(|e: String| e@).update(index as int, value@);
    let mut out = String::from_str(indent);
    out.append(key);
    out.append(": [");
    let ghost head = out@;
    let mut k: usize = 0;
    proof {
        assert(target.subrange(0, 0) =~= Seq::<Seq<char>>::empty());
    }
    while k < entries.len()
        invariant
            k <= entries@.len(),
            index < entries@.len(),
            target == entries@.map_values(|e: String| e@).update(index as int, value@),
            head == indent@ + key@ + ": ["@,
            out@ == head + join_with(target.subrange(0, k as int), ", "@),
        decreases entries@.len() - k,
    {
        let ghost before = out@;
        if k > 0 {
            out.append(", ");
        }
        if k == index {
            out.append(value);
        } else {
            out.append(entries[k].as_str());
        }
        proof {
            let sub = target.subrange(0, k + 1);
            assert(sub.drop_last() =~= target.subrange(0, k as int));
            assert(sub.last() == target[k as int]);
            if k == 0 {
                assert(join_with(sub, ", "@) == sub[0]);
                assert(join_with(target.subrange(0, 0), ", "@) =~= Seq::<char>::empty());
            }
        }
        k = k + 1;
    }
    out.append("]");
    proof {
        assert(target.subrange(0, entries@.len() as int) =~= target);
    }
    Ok(out)
}

/// Whether `c` stands nowhere in `s`.
pub open spec fn free_of(s: Seq<char>, c: char) -> bool {
    forall|k: int| 0 <= k < s.len() ==> s[k] != c
}

/// Whether a line reads back as itself once written with a line end:
/// it holds no `\n` and does not end in `\r`.
pub open spec fn plain_line(l: Seq<char>) -> bool {
    free_of(l, '\n') && !(l.len() > 0 && l.last() == '\r')
}

proof fn lemma_find_none_before(s: Seq<char>, c: char, from: int)
    requires
        0 <= from,
    ensures
        ({
            let i = crate::text::find_from(s, seq![c], from);
            &&& i == -1 ==> forall|j: int| from <= j < s.len() ==> s[j] != c
            &&& i >= 0 ==> forall|j: int| from <= j < i ==> s[j] != c
        }),
    decreases s.len() + 1 - from,
{
    if from + 1 <= s.len() {
        if crate::text::occurs_at(s, seq![c], from) {
        } else {
            assert(s.subrange(from, from + 1) =~= seq![s[from]]);
            lemma_find_none_before(s, c, from + 1);
        }
    }
}

proof fn lemma_split_pieces_free(s: Seq<char>, c: char)
    ensures
        forall|k: int| 0 <= k < split_text(s, c).len() ==> free_of(#[trigger] split_text(s, c)[k], c),
    decreases s.len(),
{
    let i = crate::text::find_from(s, seq![c], 0);
    lemma_find_none_before(s, c, 0);
    crate::text::lemma_find_from_bounds(s, seq![c], 0);
    if i < 0 || i >= s.len() {
    } else {
        let rest = s.subrange(i + 1, s.len() as int);
        lemma_split_pieces_free(rest, c);
        let p = split_text(s, c);
        assert(p == seq![s.subrange(0, i)] + split_text(rest, c));
        assert forall|k: int| 0 <= k < p.len() implies free_of(#[trigger] p[k], c) by {
            if k > 0 {
                assert(p[k] == split_text(rest, c)[k - 1]);
            }
        }
    }
}

/// Every line of a text is free of line ends.
proof fn lemma_lines_free(t: Seq<char>)
    ensures
        forall|k: int| 0 <= k < text_lines(t).len() ==> free_of(#[trigger] text_lines(t)[k], '\n'),
{
    let p = split_text(t, '\n');
    lemma_split_pieces_free(t, '\n');
    assert forall|k: int| 0 <= k < text_lines(t).len() implies free_of(
        #[trigger] text_lines(t)[k],
        '\n',
    ) by {
        assert(free_of(p[k], '\n'));
    }
}

proof fn lemma_split_at_first(a: Seq<char>, b: Seq<char>, c: char)
    requires
        free_of(a, c),
    ensures
        split_text(a + seq![c] + b, c) == seq![a] + split_text(b, c),
{
    let s = a + seq![c] + b;
    lemma_find_at(a, b, c, 0);
    assert(s.subrange(0, a.len() as int) =~= a);
    assert(s.subrange(a.len() + 1int, s.len() as int) =~= b);
}

proof fn lemma_find_at(a: Seq<char>, b: Seq<char>, c: char, j: int)
    requires
        free_of(a, c),
        0 <= j <= a.len(),
    ensures
        crate::text::find_from(a + seq![c] + b, seq![c], j) == a.len(),
    decreases a.len() - j,
{
    let s = a + seq![c] + b;
    if j < a.len() {
        assert(s.subrange(j, j + 1)[0] == a[j]);
        lemma_find_at(a, b, c, j + 1);
    } else {
        assert(s.subrange(j, j + 1) =~= seq![c]);
    }
}

proof fn lemma_terminated_front(ls: Seq<Seq<char>>)
    requires
        ls.len() >= 1,
    ensures
        terminated(ls) == ls[0] + seq!['\n'] + terminated(ls.drop_first()),
    decreases ls.len(),
{
    if ls.len() == 1 {
        assert(ls.drop_last() =~= Seq::<Seq<char>>::empty());
        assert(ls.drop_first() =~= Seq::<Seq<char>>::empty());
        assert(terminated(ls.drop_last()) =~= Seq::<char>::empty());
        assert(terminated(ls.drop_first()) =~= Seq::<char>::empty());
        assert(ls.last() == ls[0]);
        assert(terminated(ls) =~= ls[0] + seq!['\n'] + terminated(ls.drop_first()));
    } else {
        lemma_terminated_front(ls.drop_last());
        assert(ls.drop_last().drop_first() =~= ls.drop_first().drop_last());
        assert(ls.drop_last()[0] == ls[0]);
        assert(ls.drop_first().last() == ls.last());
        assert(terminated(ls) =~= ls[0] + seq!['\n'] + terminated(ls.drop_first()));
    }
}

proof fn lemma_split_terminated(ls: Seq<Seq<char>>)
    requires
        forall|k: int| 0 <= k < ls.len() ==> free_of(#[trigger] ls[k], '\n'),
    ensures
        split_text(terminated(ls), '\n') == ls.push(Seq::<char>::empty()),
    decreases ls.len(),
{
    if ls.len() == 0 {
        assert(crate::text::find_from(Seq::<char>::empty(), seq!['\n'], 0) == -1);
        assert(split_text(Seq::<char>::empty(), '\n') =~= seq![Seq::<char>::empty()]);
    } else {
        lemma_terminated_front(ls);
        let rest = ls.drop_first();
        assert forall|k: int| 0 <= k < rest.len() implies free_of(#[trigger] rest[k], '\n') by {
            assert(rest[k] == ls[k + 1]);
        }
        lemma_split_terminated(rest);
        assert(free_of(ls[0], '\n'));
        lemma_split_at_first(ls[0], terminated(rest), '\n');
        assert(seq![ls[0]] + rest.push(Seq::<char>::empty()) =~= ls.push(Seq::<char>::empty()));
    }
}

/// Lines without line ends, written out, read back as the same lines.
proof fn lemma_lines_round_trip(ls: Seq<Seq<char>>)
    requires
        forall|k: int| 0 <= k < ls.len() ==> plain_line(#[trigger] ls[k]),
    ensures
        text_lines(terminated(ls)) == ls,
{
    assert forall|k: int| 0 <= k < ls.len() implies free_of(#[trigger] ls[k], '\n') by {
        assert(plain_line(ls[k]));
    }
    lemma_split_terminated(ls);
    let p = split_text(terminated(ls), '\n');
    assert(p.last().len() == 0);
    assert forall|k: int| 0 <= k < ls.len() implies #[trigger] text_lines(terminated(ls))[k]
        == ls[k] by {
        assert(p[k] == ls[k]);
        assert(plain_line(ls[k]));
    }
    assert(text_lines(terminated(ls)) =~= ls);
}

/// An edit touches only the lines it replaces: read back, the edited
/// text is the unedited text's lines up to `first`, the new line, and
/// its lines after `last`, every comment among them as it was.
/// Only a file whose final, unterminated line ends in a carriage return
/// reads back differently, that line losing its `\r` once it gains a
/// `\n`.
pub proof fn law_an_edit_keeps_every_other_line(text: Seq<char>, first: int, last: int, line: Seq<char>)
    requires
        0 <= first <= last < text_lines(text).len(),
        plain_line(line),
        forall|k: int|
            0 <= k < text_lines(text).len() ==> !(#[trigger] text_lines(text)[k].len() > 0
                && text_lines(text)[k].last() == '\r'),
    ensures
        text_lines(replaced_text(text, first, last, line)) == text_lines(text).subrange(0, first)
            + seq![line] + text_lines(text).subrange(last + 1, text_lines(text).len() as int),
{
    let ls = text_lines(text);
    let target = ls.subrange(0, first) + seq![line] + ls.subrange(last + 1, ls.len() as int);
    lemma_lines_free(text);
    assert forall|k: int| 0 <= k < target.len() implies plain_line(#[trigger] target[k]) by {
        if k < first {
            assert(target[k] == ls[k]);
            assert(free_of(ls[k], '\n'));
        } else if k > first {
            assert(target[k] == ls[k - first - 1 + last + 1]);
            assert(free_of(ls[k - first - 1 + last + 1], '\n'));
        }
    }
    lemma_lines_round_trip(target);
}

proof fn lemma_no_key_line_before(lines: Seq<Seq<char>>, key: Seq<char>, from: int, j: int)
    requires
        0 <= from <= j,
        first_key_line(lines, key, from) == -1 || j < first_key_line(lines, key, from),
        j < lines.len(),
    ensures
        !is_key_line(lines[j], key),
    decreases j - from,
{
    if j > from {
        if is_key_line(lines[from], key) {
        } else {
            lemma_no_key_line_before(lines, key, from + 1, j);
        }
    }
}

proof fn lemma_first_key_line_is(lines: Seq<Seq<char>>, key: Seq<char>, from: int, i: int)
    requires
        0 <= from <= i < lines.len(),
        is_key_line(lines[i], key),
        forall|j: int| from <= j < i ==> !is_key_line(#[trigger] lines[j], key),
    ensures
        first_key_line(lines, key, from) == i,
    decreases i - from,
{
    if from < i {
        lemma_first_key_line_is(lines, key, from + 1, i);
    }
}

proof fn lemma_first_key_line_same_tail(a: Seq<Seq<char>>, b: Seq<Seq<char>>, key: Seq<char>, from: int)
    requires
        0 <= from,
        a.len() == b.len(),
        forall|j: int| from <= j < a.len() ==> #[trigger] a[j] == b[j],
    ensures
        first_key_line(a, key, from) == first_key_line(b, key, from),
    decreases a.len() - from,
{
    if from < a.len() {
        lemma_first_key_line_same_tail(a, b, key, from + 1);
    }
}

proof fn lemma_skip_ws_stops(s: Seq<char>, j: int)
    requires
        0 <= j <= s.len(),
    ensures
        j <= skip_ws(s, j) <= s.len(),
        forall|k: int| j <= k < skip_ws(s, j) ==> crate::text::is_ws(#[trigger] s[k]),
        skip_ws(s, j) < s.len() ==> !crate::text::is_ws(s[skip_ws(s, j)]),
    decreases s.len() - j,
{
    if j < s.len() && crate::text::is_ws(s[j]) {
        lemma_skip_ws_stops(s, j + 1);
    }
}

proof fn lemma_skip_ws_is(s: Seq<char>, j: int, m: int)
    requires
        0 <= j <= m <= s.len(),
        forall|k: int| j <= k < m ==> crate::text::is_ws(#[trigger] s[k]),
        m < s.len() ==> !crate::text::is_ws(s[m]),
    ensures
        skip_ws(s, j) == m,
    decreases m - j,
{
    if j < m {
        lemma_skip_ws_is(s, j + 1, m);
    }
}

proof fn lemma_skip_ws_shift(v: Seq<char>, k: int)
    requires
        0 <= k <= v.len(),
    ensures
        skip_ws(seq![' '] + v, k + 1) == 1 + skip_ws(v, k),
    decreases v.len() - k,
{
    let w = seq![' '] + v;
    if k < v.len() {
        assert(w[k + 1] == v[k]);
        if crate::text::is_ws(v[k]) {
            lemma_skip_ws_shift(v, k + 1);
        }
    }
}

proof fn lemma_back_ws_shift(v: Seq<char>, k: int)
    requires
        0 <= k <= v.len(),
    ensures
        crate::text::back_ws(seq![' '] + v, k + 1) == if crate::text::back_ws(v, k) == 0 {
            0
        } else {
            1 + crate::text::back_ws(v, k)
        },
    decreases k,
{
    let w = seq![' '] + v;
    if k == 0 {
        assert(w[0] == ' ');
        assert(crate::text::is_ws(' '));
        assert(crate::text::back_ws(w, 0) == 0);
    } else {
        assert(w[k] == v[k - 1]);
        if crate::text::is_ws(v[k - 1]) {
            lemma_back_ws_shift(v, k - 1);
        }
    }
}

/// A space in front of a value does not change it once trimmed.
proof fn lemma_trim_after_space(v: Seq<char>)
    ensures
        trim_text(seq![' '] + v) == trim_text(v),
{
    let w = seq![' '] + v;
    assert(w[0] == ' ');
    assert(crate::text::is_ws(' '));
    assert(skip_ws(w, 0) == skip_ws(w, 1));
    lemma_skip_ws_shift(v, 0);
    lemma_back_ws_shift(v, v.len() as int);
    crate::text::lemma_skip_ws_bounds(v, 0);
    crate::text::lemma_back_ws_bounds(v, v.len() as int);
    let a = skip_ws(v, 0);
    let b = crate::text::back_ws(v, v.len() as int);
    if b > a {
        assert(w.subrange(a + 1, b + 1) =~= v.subrange(a, b));
    }
}

proof fn lemma_find_free(s: Seq<char>, c: char, j: int)
    requires
        free_of(s, c),
        0 <= j,
    ensures
        crate::text::find_from(s, seq![c], j) == -1,
    decreases s.len() + 1 - j,
{
    if j + 1 <= s.len() {
        assert(s.subrange(j, j + 1)[0] == s[j]);
        lemma_find_free(s, c, j + 1);
    }
}

proof fn lemma_join_front(ls: Seq<Seq<char>>, sep: Seq<char>)
    requires
        ls.len() >= 2,
    ensures
        join_with(ls, sep) == ls[0] + sep + join_with(ls.drop_first(), sep),
    decreases ls.len(),
{
    if ls.len() == 2 {
        assert(ls.drop_last().len() == 1);
        assert(join_with(ls.drop_last(), sep) == ls[0]);
        assert(ls.drop_first().len() == 1);
        assert(join_with(ls.drop_first(), sep) == ls[1]);
        assert(join_with(ls, sep) =~= ls[0] + sep + join_with(ls.drop_first(), sep));
    } else {
        lemma_join_front(ls.drop_last(), sep);
        assert(ls.drop_last().drop_first() =~= ls.drop_first().drop_last());
        assert(ls.drop_last()[0] == ls[0]);
        assert(ls.drop_first().last() == ls.last());
        assert(join_with(ls, sep) =~= ls[0] + sep + join_with(ls.drop_first(), sep));
    }
}

proof fn lemma_join_free(ls: Seq<Seq<char>>, sep: Seq<char>, c: char)
    requires
        free_of(sep, c),
        forall|k: int| 0 <= k < ls.len() ==> free_of(#[trigger] ls[k], c),
    ensures
        free_of(join_with(ls, sep), c),
    decreases ls.len(),
{
    if ls.len() >= 2 {
        assert forall|k: int| 0 <= k < ls.drop_last().len() implies free_of(
            #[trigger] ls.drop_last()[k],
            c,
        ) by {
            assert(ls.drop_last()[k] == ls[k]);
        }
        lemma_join_free(ls.drop_last(), sep, c);
        assert(free_of(ls.last(), c));
        let j = join_with(ls, sep);
        assert(j == join_with(ls.drop_last(), sep) + sep + ls.last());
    } else if ls.len() == 1 {
        assert(free_of(ls[0], c));
    }
}

/// List entries as a comma split of `[a, b, c]` gives them back: the
/// first as written, each later one after the space that follows its
/// comma.
pub open spec fn spaced(ls: Seq<Seq<char>>) -> Seq<Seq<char>> {
    Seq::new(
        ls.len(),
        |k: int|
            if k == 0 {
                ls[0]
            } else {
                seq![' '] + ls[k]
            },
    )
}

proof fn lemma_split_join(p: Seq<char>, ls: Seq<Seq<char>>)
    requires
        ls.len() >= 1,
        free_of(p, ','),
        forall|k: int| 0 <= k < ls.len() ==> free_of(#[trigger] ls[k], ','),
    ensures
        split_text(p + join_with(ls, ", "@), ',') == seq![p + ls[0]] + Seq::new(
            (ls.len() - 1) as nat,
            |k: int| seq![' '] + ls[k + 1],
        ),
    decreases ls.len(),
{
    reveal_strlit(", ");
    let head = p + ls[0];
    assert(free_of(ls[0], ','));
    assert(free_of(head, ',')) by {
        assert forall|k: int| 0 <= k < head.len() implies head[k] != ',' by {
            if k < p.len() {
                assert(head[k] == p[k]);
            } else {
                assert(head[k] == ls[0][k - p.len()]);
            }
        }
    }
    if ls.len() == 1 {
        assert(join_with(ls, ", "@) == ls[0]);
        lemma_find_free(head, ',', 0);
        assert(p + join_with(ls, ", "@) =~= head);
        assert(Seq::new((ls.len() - 1) as nat, |k: int| seq![' '] + ls[k + 1]) =~= Seq::<
            Seq<char>,
        >::empty());
        assert(split_text(head, ',') =~= seq![head]);
        assert(seq![head] + Seq::<Seq<char>>::empty() =~= seq![head]);
    } else {
        lemma_join_front(ls, ", "@);
        let rest = ls.drop_first();
        let tail = seq![' '] + join_with(rest, ", "@);
        assert(p + join_with(ls, ", "@) =~= head + seq![','] + tail);
        lemma_split_at_first(head, tail, ',');
        assert forall|k: int| 0 <= k < rest.len() implies free_of(#[trigger] rest[k], ',') by {
            assert(rest[k] == ls[k + 1]);
        }
        assert(free_of(seq![' '], ','));
        lemma_split_join(seq![' '], rest);
        assert(seq![' '] + join_with(rest, ", "@) =~= tail);
        assert(seq![head] + (seq![seq![' '] + rest[0]] + Seq::new(
            (rest.len() - 1) as nat,
            |k: int| seq![' '] + rest[k + 1],
        )) =~= seq![head] + Seq::new((ls.len() - 1) as nat, |k: int| seq![' '] + ls[k + 1]));
    }
}

/// A value that neither begins nor ends with white space is its own
/// trimmed text.
proof fn lemma_trim_exact(v: Seq<char>)
    requires
        v.len() > 0,
        !crate::text::is_ws(v[0]),
        !crate::text::is_ws(v.last()),
    ensures
        trim_text(v) == v,
{
    assert(skip_ws(v, 0) == 0);
    assert(crate::text::back_ws(v, v.len() as int) == v.len());
    assert(v.subrange(0, v.len() as int) =~= v);
}

/// What a list edit writes reads back: in the edited text the key is
/// set on the first line of the old list, now one line long, at the
/// same indentation, once, and its entries are the ones written -- the
/// first as it stands and each later one after the space its comma
/// leaves, so that each trimmed is the entry written, trimmed. Entries
/// must not hold a comma or a line end; a file whose final, unterminated
/// line ends in a carriage return is left out, as in
/// [`law_an_edit_keeps_every_other_line`].
pub proof fn law_a_list_edit_reads_back(
    text: Seq<char>,
    key: Seq<char>,
    entries: Seq<Seq<char>>,
    index: int,
    value: Seq<char>,
)
    requires
        list_site_text(text, key) is Ok,
        !list_site_text(text, key)->Ok_0.repeated,
        0 <= index < entries.len(),
        forall|k: int|
            0 <= k < entries.len() ==> free_of(#[trigger] entries[k], ',') && free_of(
                entries[k],
                '\n',
            ),
        free_of(value, ','),
        free_of(value, '\n'),
        forall|k: int|
            0 <= k < text_lines(text).len() ==> !(#[trigger] text_lines(text)[k].len() > 0
                && text_lines(text)[k].last() == '\r'),
    ensures
        ({
            let site = list_site_text(text, key)->Ok_0;
            let written = entries.update(index, value);
            let edited = replaced_text(
                text,
                site.first,
                site.last,
                list_line_text(site.indent, key, entries, index, value),
            );
            &&& list_site_text(edited, key) == Ok::<ListSiteText, EditError>(
                ListSiteText {
                    first: site.first,
                    last: site.first,
                    indent: site.indent,
                    entries: spaced(written),
                    repeated: false,
                },
            )
            &&& forall|k: int|
                0 <= k < written.len() ==> trim_text(#[trigger] spaced(written)[k]) == trim_text(
                    written[k],
                )
        }),
{
    reveal_strlit(": [");
    reveal_strlit(": ");
    reveal_strlit("]");
    reveal_strlit(", ");
    let ls = text_lines(text);
    let site = list_site_text(text, key)->Ok_0;
    let first = site.first;
    let i = first_key_line(ls, key, 0);
    lemma_first_key_line_bounds(ls, key, 0);
    lemma_list_close_bounds(ls, i, trim_text(after_prefix(ls[i], key)));
    let written = entries.update(index, value);
    assert forall|k: int| 0 <= k < written.len() implies free_of(#[trigger] written[k], ',')
        && free_of(written[k], '\n') by {
        if k != index {
            assert(written[k] == entries[k]);
        }
    }
    let joined = join_with(written, ", "@);
    let body = seq!['['] + joined + seq![']'];
    assert(free_of(", "@, '\n'));
    lemma_join_free(written, ", "@, '\n');
    assert(free_of(body, '\n')) by {
        assert forall|k: int| 0 <= k < body.len() implies body[k] != '\n' by {
            if 0 < k < body.len() - 1 {
                assert(body[k] == joined[k - 1]);
            }
        }
    }
    assert(body.last() == ']');
    let nl = list_line_text(site.indent, key, entries, index, value);
    assert(nl =~= scalar_line_text(site.indent, key, body));
    lemma_setting_line(text, key, first, site.last, body);
    // Read back, the list is this one line.
    assert(crate::text::is_ws(' '));
    lemma_trim_after_space(body);
    assert(!crate::text::is_ws('['));
    assert(!crate::text::is_ws(']'));
    lemma_trim_exact(body);
    assert(ends_list(body));
    assert(body.subrange(1, body.len() - 1) =~= seq![] + joined);
    assert(written.len() >= 1);
    assert(free_of(Seq::<char>::empty(), ','));
    lemma_split_join(Seq::<char>::empty(), written);
    assert(Seq::<char>::empty() + joined =~= joined);
    assert(seq![Seq::<char>::empty() + written[0]] + Seq::new(
        (written.len() - 1) as nat,
        |k: int| seq![' '] + written[k + 1],
    ) =~= spaced(written));
    assert forall|k: int| 0 <= k < written.len() implies trim_text(#[trigger] spaced(written)[k])
        == trim_text(written[k]) by {
        if k > 0 {
            lemma_trim_after_space(written[k]);
        }
    }
}

/// The line that sets scalar `key` to `value` at `indent`, as text.
pub open spec fn scalar_line_text(indent: Seq<char>, key: Seq<char>, value: Seq<char>) -> Seq<char> {
    indent + key + ": "@ + value
}

proof fn lemma_first_key_line_shift(
    a: Seq<Seq<char>>,
    b: Seq<Seq<char>>,
    key: Seq<char>,
    fa: int,
    fb: int,
)
    requires
        0 <= fa <= a.len(),
        0 <= fb <= b.len(),
        a.len() - fa == b.len() - fb,
        forall|j: int| 0 <= j < a.len() - fa ==> #[trigger] a[fa + j] == b[fb + j],
    ensures
        (first_key_line(a, key, fa) >= 0) == (first_key_line(b, key, fb) >= 0),
    decreases a.len() - fa,
{
    if fa < a.len() {
        assert(a[fa + 0] == b[fb + 0]);
        assert forall|j: int| 0 <= j < a.len() - (fa + 1) implies #[trigger] a[(fa + 1) + j] == b[(fb
            + 1) + j] by {
            assert(a[fa + (j + 1)] == b[fb + (j + 1)]);
        }
        lemma_first_key_line_shift(a, b, key, fa + 1, fb + 1);
    }
}

/// The line that sets `key` to `value` at the indentation of the line
/// it replaces, put in place of lines `first..=last`: read back, it is
/// the first line that sets the key, it keeps the indentation, `value`
/// follows its `key:` after one space, and the key is set again later
/// exactly when it was after `last`.
proof fn lemma_setting_line(text: Seq<char>, key: Seq<char>, first: int, last: int, value: Seq<char>)
    requires
        0 <= first <= last < text_lines(text).len(),
        first_key_line(text_lines(text), key, 0) == first,
        free_of(value, '\n'),
        !(value.len() > 0 && value.last() == '\r'),
        forall|k: int|
            0 <= k < text_lines(text).len() ==> !(#[trigger] text_lines(text)[k].len() > 0
                && text_lines(text)[k].last() == '\r'),
    ensures
        ({
            let ls = text_lines(text);
            let indent = indent_of(ls[first]);
            let nl = scalar_line_text(indent, key, value);
            let nls = text_lines(replaced_text(text, first, last, nl));
            &&& nls == ls.subrange(0, first) + seq![nl] + ls.subrange(last + 1, ls.len() as int)
            &&& first_key_line(nls, key, 0) == first
            &&& nls[first] == nl
            &&& indent_of(nl) == indent
            &&& after_prefix(nl, key) == seq![' '] + value
            &&& (first_key_line(nls, key, first + 1) >= 0) == (first_key_line(ls, key, last + 1)
                >= 0)
        }),
{
    reveal_strlit(": ");
    let ls = text_lines(text);
    lemma_first_key_line_bounds(ls, key, 0);
    let old_line = ls[first];
    let indent = indent_of(old_line);
    let a = skip_ws(old_line, 0);
    lemma_skip_ws_stops(old_line, 0);
    crate::text::lemma_skip_ws_bounds(old_line, 0);
    let kp = key_prefix(key);
    let t = trim_start_text(old_line);
    assert(t.subrange(0, kp.len() as int) == kp);
    assert(kp[0] == t[0]);
    assert(t[0] == old_line[a]);
    let nl = scalar_line_text(indent, key, value);
    let tail = key + ": "@ + value;
    assert(nl =~= indent + tail);
    assert(tail[0] == kp[0]);
    assert forall|k: int| 0 <= k < a implies crate::text::is_ws(#[trigger] nl[k]) by {
        assert(nl[k] == old_line[k]);
    }
    lemma_skip_ws_is(nl, 0, a);
    assert(trim_start_text(nl) =~= tail);
    assert(tail.subrange(0, kp.len() as int) =~= kp);
    assert(is_key_line(nl, key));
    assert(after_prefix(nl, key) =~= seq![' '] + value);
    assert(indent_of(nl) =~= indent);
    lemma_lines_free(text);
    assert(free_of(old_line, '\n'));
    assert(plain_line(nl)) by {
        assert forall|k: int| 0 <= k < nl.len() implies nl[k] != '\n' by {
            if k < a {
                assert(nl[k] == old_line[k]);
            } else if k < a + key.len() {
                assert(nl[k] == key[k - a]);
                assert(kp[k - a] == key[k - a]);
                assert(t.subrange(0, kp.len() as int)[k - a] == t[k - a]);
                assert(t[k - a] == old_line[k]);
            } else if k < a + key.len() + 2 {
            } else {
                assert(nl[k] == value[k - a - key.len() - 2]);
            }
        }
        if value.len() == 0 {
            assert(nl.last() == ' ');
        } else {
            assert(nl.last() == value.last());
        }
    }
    law_an_edit_keeps_every_other_line(text, first, last, nl);
    let nls = text_lines(replaced_text(text, first, last, nl));
    assert(nls[first] == nl);
    assert forall|j: int| 0 <= j < first implies !is_key_line(#[trigger] nls[j], key) by {
        assert(nls[j] == ls[j]);
        lemma_no_key_line_before(ls, key, 0, j);
    }
    lemma_first_key_line_is(nls, key, 0, first);
    assert forall|j: int| 0 <= j < nls.len() - (first + 1) implies #[trigger] nls[(first + 1) + j]
        == ls[(last + 1) + j] by {}
    lemma_first_key_line_shift(nls, ls, key, first + 1, last + 1);
}

/// What a scalar edit writes reads back: in the edited text the key is
/// set on the same line, at the same indentation, once, to the value
/// written (trimmed, as every value is read). A file whose final,
/// unterminated line ends in a carriage return is left out, as in
/// [`law_an_edit_keeps_every_other_line`].
pub proof fn law_a_scalar_edit_reads_back(text: Seq<char>, key: Seq<char>, value: Seq<char>)
    requires
        scalar_site_text(text, key) is Ok,
        !scalar_site_text(text, key)->Ok_0.repeated,
        plain_line(value),
        forall|k: int|
            0 <= k < text_lines(text).len() ==> !(#[trigger] text_lines(text)[k].len() > 0
                && text_lines(text)[k].last() == '\r'),
    ensures
        ({
            let site = scalar_site_text(text, key)->Ok_0;
            let edited = replaced_text(
                text,
                site.line,
                site.line,
                scalar_line_text(site.indent, key, value),
            );
            scalar_site_text(edited, key) == Ok::<ScalarSiteText, EditError>(
                ScalarSiteText {
                    line: site.line,
                    indent: site.indent,
                    value: trim_text(value),
                    repeated: false,
                },
            )
        }),
{
    let ls = text_lines(text);
    let i = first_key_line(ls, key, 0);
    lemma_first_key_line_bounds(ls, key, 0);
    lemma_setting_line(text, key, i, i, value);
    lemma_trim_after_space(value);
}


} // verus!
