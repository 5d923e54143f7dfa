//! The two control files that an unpacked archive may leave at the root of the
//! destination: the list of files to patch and the list of files to delete.
//!
//! Both are plain text with one entry per line, and every entry names a file
//! by its path below the destination. A line of the delete list is that path
//! as it stands. A line of the patch list is a record with one field,
//! `{"remoteName": "<path>"}`; blanks around its tokens do not matter.

use crate::text::{chars_of, optional_view, views};
use vstd::prelude::*;
use vstd::string::*;

verus! {

/// Where the first line feed of `text` stands; the length of `text` if it has
/// none.
pub open spec fn first_newline(text: Seq<char>) -> int
    decreases text.len(),
{
    if text.len() == 0 || text[0] == '\n' {
        0
    } else {
        1 + first_newline(text.skip(1))
    }
}

/// `line` without the carriage return at its end, if it has one.
pub open spec fn without_carriage_return(line: Seq<char>) -> Seq<char> {
    if line.len() > 0 && line.last() == '\r' {
        line.drop_last()
    } else {
        line
    }
}

/// The lines of `text`. A line ends at a line feed, or at a carriage return
/// directly followed by one; neither belongs to the line. What follows the
/// last line feed is a line too, unless it is empty.
pub open spec fn spec_lines(text: Seq<char>) -> Seq<Seq<char>>
    decreases text.len(),
{
    let end = first_newline(text);
    if text.len() == 0 {
        Seq::empty()
    } else if 0 <= end < text.len() {
        seq![without_carriage_return(text.take(end))] + spec_lines(text.skip(end + 1))
    } else {
        seq![text]
    }
}

/// Blanks are spaces and tabs.
pub open spec fn is_blank(c: char) -> bool {
    c == ' ' || c == '\t'
}

/// `text` without the blanks at its start.
pub open spec fn trim_start(text: Seq<char>) -> Seq<char>
    decreases text.len(),
{
    if text.len() > 0 && is_blank(text[0]) {
        trim_start(text.skip(1))
    } else {
        text
    }
}

/// `text` without the blanks at its end.
pub open spec fn trim_end(text: Seq<char>) -> Seq<char>
    decreases text.len(),
{
    if text.len() > 0 && is_blank(text.last()) {
        trim_end(text.drop_last())
    } else {
        text
    }
}

/// What follows `token` in `text`, once the blanks before the token are
/// passed; nothing if another thing than the token stands there.
pub open spec fn after(text: Option<Seq<char>>, token: Seq<char>) -> Option<Seq<char>> {
    match text {
        Some(text) => {
            let rest = trim_start(text);
            if token.is_prefix_of(rest) {
                Some(rest.skip(token.len() as int))
            } else {
                None
            }
        },
        None => None,
    }
}

/// What precedes `token` at the end of `text`, the blanks behind the token
/// left aside; nothing if `text` does not end in the token.
pub open spec fn before(text: Option<Seq<char>>, token: Seq<char>) -> Option<Seq<char>> {
    match text {
        Some(text) => {
            let rest = trim_end(text);
            if token.is_suffix_of(rest) {
                Some(rest.take(rest.len() - token.len()))
            } else {
                None
            }
        },
        None => None,
    }
}

/// The path that a line of the patch list names: what stands between the
/// quote that opens the value of `remoteName` and the quote before the closing
/// brace, taken as it is. A line of another shape names nothing.
pub open spec fn record_payload(line: Seq<char>) -> Option<Seq<char>> {
    let value = after(after(after(after(Some(line), "{"@), "\"remoteName\""@), ":"@), "\""@);
    before(before(value, "}"@), "\""@)
}

/// A line in the plain form, `{"remoteName": "` and `"}` around a path,
/// names that path, whatever characters the path holds.
pub proof fn law_plain_record(path: Seq<char>)
    ensures
        record_payload("{\"remoteName\": \""@ + path + "\"}"@) == Some(path),
{
    reveal_strlit("{\"remoteName\": \"");
    reveal_strlit("\"}");
    reveal_strlit("{");
    reveal_strlit("\"remoteName\"");
    reveal_strlit(":");
    reveal_strlit("\"");
    reveal_strlit("}");
    let head = "{\"remoteName\": \""@;
    let tail = "\"}"@;
    let line = head + path + tail;
    let end = line.len() as int;
    assert(trim_start(line) == line);
    assert("{"@ =~= line.subrange(0, 1));
    let opened = line.skip(1);
    assert(after(Some(line), "{"@) == Some(opened));
    assert(trim_start(opened) == opened);
    assert("\"remoteName\""@ =~= opened.subrange(0, 12));
    let keyed = opened.skip(12);
    assert(after(Some(opened), "\"remoteName\""@) == Some(keyed));
    assert(trim_start(keyed) == keyed);
    assert(":"@ =~= keyed.subrange(0, 1));
    let assigned = keyed.skip(1);
    assert(after(Some(keyed), ":"@) == Some(assigned));
    let quoted = assigned.skip(1);
    assert(quoted[0] == '"');
    assert(trim_start(quoted) == quoted);
    assert(trim_start(assigned) == quoted);
    assert("\""@ =~= quoted.subrange(0, 1));
    let value = quoted.skip(1);
    assert(after(Some(assigned), "\""@) == Some(value));
    assert(value =~= path + tail);
    assert(trim_end(value) == value);
    assert("}"@ =~= value.subrange(value.len() - 1, value.len() as int));
    let inner = value.take(value.len() - 1);
    assert(before(Some(value), "}"@) == Some(inner));
    assert(inner =~= path + seq!['"']);
    assert(trim_end(inner) == inner);
    assert("\""@ =~= inner.subrange(inner.len() - 1, inner.len() as int));
    assert(inner.take(inner.len() - 1) =~= path);
}

proof fn lemma_first_newline(text: Seq<char>, end: int)
    requires
        0 <= end <= text.len(),
        forall|i: int| 0 <= i < end ==> text[i] != '\n',
        end < text.len() ==> text[end] == '\n',
    ensures
        first_newline(text) == end,
    decreases end,
{
    if end > 0 {
        let rest = text.skip(1);
        assert forall|i: int| 0 <= i < end - 1 implies rest[i] != '\n' by {
            assert(rest[i] == text[i + 1]);
        }
        lemma_first_newline(rest, end - 1);
    }
}

/// Splits `text` into its lines.
pub fn split_lines(text: &str) -> (lines: Vec<String>)
    ensures
        views(lines@) == spec_lines(text@),
{
    let chars = chars_of(text);
    let mut lines: Vec<String> = Vec::new();
    let mut start: usize = 0;
    let mut at: usize = 0;
    proof {
        assert(text@.skip(0) =~= text@);
        assert(views(lines@) + spec_lines(text@) =~= spec_lines(text@));
    }
    while at < chars.len()
        invariant
            chars@ == text@,
            start <= at <= chars.len(),
            forall|i: int| start <= i < at ==> chars@[i] != '\n',
            views(lines@) + spec_lines(text@.skip(start as int)) == spec_lines(text@),
        decreases chars.len() - at,
    {
        if chars[at] == '\n' {
            let end = if start < at && chars[at - 1] == '\r' {
                at - 1
            } else {
                at
            };
            let line = String::from_str(text.substring_char(start, end));
            proof {
                let rest = text@.skip(start as int);
                lemma_first_newline(rest, at - start);
                assert(rest.take(at - start) =~= text@.subrange(start as int, at as int));
                assert(rest.skip(at - start + 1) =~= text@.skip(at + 1));
                assert(line@ =~= without_carriage_return(text@.subrange(start as int, at as int)));
                assert(views(lines@.push(line)) =~= views(lines@) + seq![line@]);
                assert((views(lines@) + seq![line@]) + spec_lines(text@.skip(at + 1)) =~= views(
                    lines@,
                ) + (seq![line@] + spec_lines(text@.skip(at + 1))));
            }
            lines.push(line);
            start = at + 1;
        }
        at += 1;
    }
    if start < chars.len() {
        let line = String::from_str(text.substring_char(start, chars.len()));
        proof {
            let rest = text@.skip(start as int);
            lemma_first_newline(rest, rest.len() as int);
            assert(line@ =~= rest);
            assert(views(lines@.push(line)) =~= views(lines@) + seq![line@]);
        }
        lines.push(line);
    } else {
        assert(views(lines@) + Seq::<Seq<char>>::empty() =~= views(lines@));
    }
    lines
}

/// Passes the blanks at the start of `chars[lo..hi]`.
fn skip_blanks(chars: &Vec<char>, lo: usize, hi: usize) -> (res: usize)
    requires
        lo <= hi <= chars.len(),
    ensures
        lo <= res <= hi,
        chars@.subrange(res as int, hi as int) == trim_start(chars@.subrange(lo as int, hi as int)),
{
    let mut at = lo;
    while at < hi && (chars[at] == ' ' || chars[at] == '\t')
        invariant
            lo <= at <= hi <= chars.len(),
            trim_start(chars@.subrange(at as int, hi as int)) == trim_start(
                chars@.subrange(lo as int, hi as int),
            ),
        decreases hi - at,
    {
        assert(chars@.subrange(at as int, hi as int).skip(1) =~= chars@.subrange(
            at + 1,
            hi as int,
        ));
        at += 1;
    }
    at
}

/// Passes the blanks at the end of `chars[lo..hi]`.
fn skip_blanks_back(chars: &Vec<char>, lo: usize, hi: usize) -> (res: usize)
    requires
        lo <= hi <= chars.len(),
    ensures
        lo <= res <= hi,
        chars@.subrange(lo as int, res as int) == trim_end(chars@.subrange(lo as int, hi as int)),
{
    let mut at = hi;
    while lo < at && (chars[at - 1] == ' ' || chars[at - 1] == '\t')
        invariant
            lo <= at <= hi <= chars.len(),
            trim_end(chars@.subrange(lo as int, at as int)) == trim_end(
                chars@.subrange(lo as int, hi as int),
            ),
        decreases at - lo,
    {
        assert(chars@.subrange(lo as int, at as int).drop_last() =~= chars@.subrange(
            lo as int,
            at - 1,
        ));
        at -= 1;
    }
    at
}

/// Passes blanks and then `token` at the start of `chars[lo..hi]`.
fn eat(chars: &Vec<char>, lo: usize, hi: usize, token: &Vec<char>) -> (res: Option<usize>)
    requires
        lo <= hi <= chars.len(),
    ensures
        match res {
            Some(next) => lo <= next <= hi && after(
                Some(chars@.subrange(lo as int, hi as int)),
                token@,
            ) == Some(chars@.subrange(next as int, hi as int)),
            None => after(Some(chars@.subrange(lo as int, hi as int)), token@) is None,
        },
{
    let from = skip_blanks(chars, lo, hi);
    let ghost rest = chars@.subrange(from as int, hi as int);
    if token.len() > hi - from {
        return None;
    }
    let mut i: usize = 0;
    while i < token.len()
        invariant
            lo <= from <= hi <= chars.len(),
            i <= token.len() <= hi - from,
            forall|j: int| 0 <= j < i ==> chars@[from + j] == token@[j],
            rest == chars@.subrange(from as int, hi as int),
            rest == trim_start(chars@.subrange(lo as int, hi as int)),
        decreases token.len() - i,
    {
        if chars[from + i] != token[i] {
            assert(rest.subrange(0, token@.len() as int)[i as int] != token@[i as int]);
            return None;
        }
        i += 1;
    }
    assert(token@ =~= rest.subrange(0, token@.len() as int));
    assert(rest.skip(token@.len() as int) =~= chars@.subrange(from + token.len(), hi as int));
    Some(from + token.len())
}

/// Passes blanks and then `token` at the end of `chars[lo..hi]`.
fn eat_back(chars: &Vec<char>, lo: usize, hi: usize, token: &Vec<char>) -> (res: Option<usize>)
    requires
        lo <= hi <= chars.len(),
    ensures
        match res {
            Some(next) => lo <= next <= hi && before(
                Some(chars@.subrange(lo as int, hi as int)),
                token@,
            ) == Some(chars@.subrange(lo as int, next as int)),
            None => before(Some(chars@.subrange(lo as int, hi as int)), token@) is None,
        },
{
    let to = skip_blanks_back(chars, lo, hi);
    let ghost rest = chars@.subrange(lo as int, to as int);
    if token.len() > to - lo {
        return None;
    }
    let from = to - token.len();
    let mut i: usize = 0;
    while i < token.len()
        invariant
            lo <= from <= to <= hi <= chars.len(),
            from + token.len() == to,
            i <= token.len(),
            forall|j: int| 0 <= j < i ==> chars@[from + j] == token@[j],
            rest == chars@.subrange(lo as int, to as int),
            rest == trim_end(chars@.subrange(lo as int, hi as int)),
        decreases token.len() - i,
    {
        if chars[from + i] != token[i] {
            assert(rest.subrange(rest.len() - token@.len(), rest.len() as int)[i as int]
                != token@[i as int]);
            return None;
        }
        i += 1;
    }
    assert(token@ =~= rest.subrange(rest.len() - token@.len(), rest.len() as int));
    assert(rest.take(rest.len() - token@.len()) =~= chars@.subrange(lo as int, from as int));
    Some(from)
}

/// Reads one line of the patch list: the path it names, or nothing if the
/// line is no record of one `remoteName` field.
pub fn parse_record(line: &str) -> (res: Option<String>)
    ensures
        optional_view(res) == record_payload(line@),
{
    let chars = chars_of(line);
    let brace_open = chars_of("{");
    let key = chars_of("\"remoteName\"");
    let colon = chars_of(":");
    let quote = chars_of("\"");
    let brace_close = chars_of("}");
    let hi = chars.len();
    assert(chars@.subrange(0, hi as int) =~= line@);
    let lo = match eat(&chars, 0, hi, &brace_open) {
        Some(next) => next,
        None => { return None; },
    };
    let lo = match eat(&chars, lo, hi, &key) {
        Some(next) => next,
        None => { return None; },
    };
    let lo = match eat(&chars, lo, hi, &colon) {
        Some(next) => next,
        None => { return None; },
    };
    let lo = match eat(&chars, lo, hi, &quote) {
        Some(next) => next,
        None => { return None; },
    };
    let hi = match eat_back(&chars, lo, hi, &brace_close) {
        Some(next) => next,
        None => { return None; },
    };
    let hi = match eat_back(&chars, lo, hi, &quote) {
        Some(next) => next,
        None => { return None; },
    };
    Some(String::from_str(line.substring_char(lo, hi)))
}

} // verus!
