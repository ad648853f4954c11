//! Character- and line-level helpers: searching, runs, blank tests, splitting
//! a document into lines and joining line ranges back together.

use vstd::prelude::*;
use vstd::string::StrSliceExecFns;
use vstd::string::StringExecFns;

verus! {

/// The first index at or after `from` where `s` holds `c`.
pub open spec fn find_char(s: Seq<char>, from: int, c: char) -> Option<int>
    decreases s.len() - from,
{
    if from < 0 || from >= s.len() {
        None
    } else if s[from] == c {
        Some(from)
    } else {
        find_char(s, from + 1, c)
    }
}

pub proof fn lemma_find_char(s: Seq<char>, from: int, c: char)
    requires
        0 <= from <= s.len(),
    ensures
        match find_char(s, from, c) {
            Some(j) => from <= j < s.len() && s[j] == c && (forall|k: int|
                from <= k < j ==> s[k] != c),
            None => forall|k: int| from <= k < s.len() ==> s[k] != c,
        },
    decreases s.len() - from,
{
    if from < s.len() && s[from] != c {
        lemma_find_char(s, from + 1, c);
    }
}

pub fn find_char_at(s: &str, from: usize, c: char) -> (r: Option<usize>)
    requires
        from <= s@.len(),
    ensures
        find_char(s@, from as int, c) == match r {
            Some(j) => Some(j as int),
            None => None::<int>,
        },
    decreases s@.len() - from,
{
    if from >= s.unicode_len() {
        None
    } else if s.get_char(from) == c {
        Some(from)
    } else {
        find_char_at(s, from + 1, c)
    }
}

/// The length of the run of `c` starting at `from`.
pub open spec fn run_len(s: Seq<char>, from: int, c: char) -> nat
    decreases s.len() - from,
{
    if from < 0 || from >= s.len() || s[from] != c {
        0
    } else {
        1 + run_len(s, from + 1, c)
    }
}

pub proof fn lemma_run_len(s: Seq<char>, from: int, c: char)
    requires
        0 <= from <= s.len(),
    ensures
        from + run_len(s, from, c) <= s.len(),
    decreases s.len() - from,
{
    if from < s.len() && s[from] == c {
        lemma_run_len(s, from + 1, c);
    }
}

pub fn char_run(s: &str, from: usize, c: char) -> (r: usize)
    requires
        from <= s@.len(),
    ensures
        r == run_len(s@, from as int, c),
        from + r <= s@.len(),
    decreases s@.len() - from,
{
    if from >= s.unicode_len() || s.get_char(from) != c {
        0
    } else {
        1 + char_run(s, from + 1, c)
    }
}

/// Whether every character at or after `from` is a space or a tab.
pub open spec fn blank_from(s: Seq<char>, from: int) -> bool
    decreases s.len() - from,
{
    if from < 0 || from >= s.len() {
        true
    } else {
        (s[from] == ' ' || s[from] == '\t') && blank_from(s, from + 1)
    }
}

pub open spec fn is_blank_line(s: Seq<char>) -> bool {
    blank_from(s, 0)
}

pub fn blank_at(s: &str, from: usize) -> (r: bool)
    requires
        from <= s@.len(),
    ensures
        r == blank_from(s@, from as int),
    decreases s@.len() - from,
{
    if from >= s.unicode_len() {
        true
    } else {
        let c = s.get_char(from);
        (c == ' ' || c == '\t') && blank_at(s, from + 1)
    }
}

pub fn is_blank(s: &str) -> (r: bool)
    ensures
        r == is_blank_line(s@),
{
    let _ = s.unicode_len();
    blank_at(s, 0)
}

/// Whether `c` is a decimal digit.
pub open spec fn is_digit(c: char) -> bool {
    48 <= c as int && c as int <= 57
}

/// The length of the run of decimal digits starting at `from`.
pub open spec fn digit_run(s: Seq<char>, from: int) -> nat
    decreases s.len() - from,
{
    if from < 0 || from >= s.len() || !is_digit(s[from]) {
        0
    } else {
        1 + digit_run(s, from + 1)
    }
}

pub fn digit_run_at(s: &str, from: usize) -> (r: usize)
    requires
        from <= s@.len(),
    ensures
        r == digit_run(s@, from as int),
        from + r <= s@.len(),
    decreases s@.len() - from,
{
    if from >= s.unicode_len() {
        0
    } else {
        let u = s.get_char(from) as u32;
        if 48 <= u && u <= 57 {
            1 + digit_run_at(s, from + 1)
        } else {
            0
        }
    }
}

/// The lines `[from, to)` joined with a newline between each pair.
pub open spec fn join_range(lines: Seq<Seq<char>>, from: int, to: int) -> Seq<char>
    decreases to - from,
{
    if from < 0 || from >= to {
        Seq::empty()
    } else if from == to - 1 {
        lines[from]
    } else {
        lines[from] + seq!['\n'] + join_range(lines, from + 1, to)
    }
}

pub open spec fn lines_deep(v: Seq<String>) -> Seq<Seq<char>> {
    Seq::new(v.len(), |i: int| v[i]@)
}

pub fn join_lines(lines: &Vec<String>, from: usize, to: usize) -> (r: String)
    requires
        from <= lines@.len(),
        to <= lines@.len(),
    ensures
        r@ == join_range(lines_deep(lines@), from as int, to as int),
    decreases to - from,
{
    if from >= to {
        String::new()
    } else if from == to - 1 {
        lines[from].clone()
    } else {
        let mut r = lines[from].clone();
        r.append("\n");
        let rest = join_lines(lines, from + 1, to);
        r.append(rest.as_str());
        proof {
            reveal_strlit("\n");
            assert("\n"@ =~= seq!['\n']);
            assert(r@ =~= join_range(lines_deep(lines@), from as int, to as int));
        }
        r
    }
}

/// The document split at newlines, from position `from` on: every document
/// has at least one line, and each newline ends a line.
pub open spec fn spec_lines(s: Seq<char>, from: int) -> Seq<Seq<char>>
    decreases s.len() - from,
    when 0 <= from <= s.len()
{
    match find_char(s, from, '\n') {
        None => seq![s.subrange(from, s.len() as int)],
        Some(i) => {
            proof {
                lemma_find_char(s, from, '\n');
            }
            seq![s.subrange(from, i)] + spec_lines(s, i + 1)
        },
    }
}

pub fn split_lines_at(s: &str, from: usize) -> (r: Vec<String>)
    requires
        from <= s@.len(),
    ensures
        lines_deep(r@) == spec_lines(s@, from as int),
    decreases s@.len() - from,
{
    let n = s.unicode_len();
    match find_char_at(s, from, '\n') {
        None => {
            let mut v: Vec<String> = Vec::new();
            v.push(String::from_str(s.substring_char(from, n)));
            proof {
                assert(lines_deep(v@) =~= spec_lines(s@, from as int));
            }
            v
        },
        Some(i) => {
            proof {
                lemma_find_char(s@, from as int, '\n');
            }
            let first = String::from_str(s.substring_char(from, i));
            let mut rest = split_lines_at(s, i + 1);
            rest.insert(0, first);
            proof {
                assert(lines_deep(rest@) =~= spec_lines(s@, from as int));
            }
            rest
        },
    }
}

} // verus!
