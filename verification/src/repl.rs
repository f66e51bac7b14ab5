use crate::text::chars_of;
use vstd::prelude::*;

verus! {

/// Where the comment of a line starts: the first `//` at or after `i`, or the line's length.
pub open spec fn comment_start(s: Seq<char>, i: int) -> int
    decreases s.len() - i,
{
    if i < 0 || i + 1 >= s.len() {
        s.len() as int
    } else if s[i] == '/' && s[i + 1] == '/' {
        i
    } else {
        comment_start(s, i + 1)
    }
}

/// The opening bracket that a closing one matches.
pub open spec fn opener(c: char) -> char {
    if c == ')' {
        '('
    } else if c == ']' {
        '['
    } else {
        '{'
    }
}

/// Scans `code` from `i` on, `open` holding the brackets and the quote still open, innermost
/// last, and `skip` telling whether the character at `i` is escaped inside a string. The input
/// is complete when nothing is left open at the end; a closing bracket that matches nothing
/// open makes it complete at once, so that the parser reports the mistake.
pub open spec fn scan_complete(code: Seq<char>, i: int, open: Seq<char>, skip: bool) -> bool
    decreases code.len() - i,
{
    if i < 0 || i >= code.len() {
        open.len() == 0
    } else {
        let c = code[i];
        if skip {
            scan_complete(code, i + 1, open, false)
        } else if open.len() > 0 && open.last() == '"' {
            if c == '\\' {
                scan_complete(code, i + 1, open, true)
            } else if c == '"' {
                scan_complete(code, i + 1, open.drop_last(), false)
            } else {
                scan_complete(code, i + 1, open, false)
            }
        } else if c == '(' || c == '[' || c == '{' || c == '"' {
            scan_complete(code, i + 1, open.push(c), false)
        } else if c == ')' || c == ']' || c == '}' {
            if open.len() > 0 && open.last() == opener(c) {
                scan_complete(code, i + 1, open.drop_last(), false)
            } else {
                true
            }
        } else {
            scan_complete(code, i + 1, open, false)
        }
    }
}

/// Whether a line typed at the prompt is complete, judged on its part before any `//`.
pub open spec fn input_complete(line: Seq<char>) -> bool {
    scan_complete(line.take(comment_start(line, 0)), 0, seq![], false)
}

/// Whether a line typed at the prompt is complete: every bracket and string opened before any
/// `//` comment is closed. An incomplete line is continued on the next one.
pub fn validate(line: &str) -> (complete: bool)
    ensures
        complete == input_complete(line@),
{
    let chars = chars_of(line);
    let n = chars.len();
    let mut i: usize = 0;
    while n >= 1 && i < n - 1 && !(chars[i] == '/' && chars[i + 1] == '/')
        invariant
            n == chars@.len(),
            chars@ == line@,
            i <= n,
            comment_start(line@, 0) == comment_start(line@, i as int),
        decreases n - i,
    {
        i = i + 1;
    }
    let end = if n >= 1 && i < n - 1 {
        i
    } else {
        n
    };
    let ghost code = line@.take(end as int);
    let mut open: Vec<char> = Vec::new();
    let mut skip = false;
    let mut j: usize = 0;
    assert(open@ =~= Seq::<char>::empty());
    while j < end
        invariant
            end <= n,
            n == chars@.len(),
            chars@ == line@,
            code == line@.take(end as int),
            code == line@.take(comment_start(line@, 0)),
            j <= end,
            input_complete(line@) == scan_complete(code, j as int, open@, skip),
        decreases end - j,
    {
        let c = chars[j];
        assert(code[j as int] == c);
        if skip {
            skip = false;
        } else if open.len() > 0 && open[open.len() - 1] == '"' {
            if c == '\\' {
                skip = true;
            } else if c == '"' {
                open.pop();
            }
        } else if c == '(' || c == '[' || c == '{' || c == '"' {
            open.push(c);
        } else if c == ')' || c == ']' || c == '}' {
            let want = if c == ')' {
                '('
            } else if c == ']' {
                '['
            } else {
                '{'
            };
            if open.len() > 0 && open[open.len() - 1] == want {
                open.pop();
            } else {
                return true;
            }
        }
        j = j + 1;
    }
    open.len() == 0
}

} // verus!
