//! Inline parsing: emphasis, strong emphasis, code spans and links inside the
//! merged text of a block.  Unmatched emphasis markers degrade to literal
//! text; unmatched link brackets or parentheses are a parse error.

use vstd::prelude::*;
use vstd::string::StrSliceExecFns;
use vstd::string::StringExecFns;
use crate::ast::{InlineSpan, SpanV, spans_view, span_view, group_spans_view};
use crate::text::{find_char, lemma_find_char, find_char_at};

verus! {

broadcast use group_spans_view;

/// Characters that open an inline construct.
pub open spec fn is_special(c: char) -> bool {
    c == '`' || c == '*' || c == '['
}

/// The length of the run of plain-text characters starting at `from`.
pub open spec fn text_run(s: Seq<char>, from: int) -> nat
    decreases s.len() - from,
{
    if from < 0 || from >= s.len() || is_special(s[from]) {
        0
    } else {
        1 + text_run(s, from + 1)
    }
}

pub proof fn lemma_text_run(s: Seq<char>, from: int)
    requires
        0 <= from <= s.len(),
    ensures
        from + text_run(s, from) <= s.len(),
    decreases s.len() - from,
{
    if from < s.len() && !is_special(s[from]) {
        lemma_text_run(s, from + 1);
    }
}

fn text_run_at(s: &str, from: usize) -> (r: usize)
    requires
        from <= s@.len(),
    ensures
        r == text_run(s@, from as int),
        from + r <= s@.len(),
    decreases s@.len() - from,
{
    if from >= s.unicode_len() {
        0
    } else {
        let c = s.get_char(from);
        if c == '`' || c == '*' || c == '[' {
            0
        } else {
            1 + text_run_at(s, from + 1)
        }
    }
}

/// The first index at or after `from` where two `*` stand side by side.
pub open spec fn find_strong(s: Seq<char>, from: int) -> Option<int>
    decreases s.len() - from,
{
    if from < 0 || from + 1 >= s.len() {
        None
    } else if s[from] == '*' && s[from + 1] == '*' {
        Some(from)
    } else {
        find_strong(s, from + 1)
    }
}

pub proof fn lemma_find_strong(s: Seq<char>, from: int)
    requires
        0 <= from,
    ensures
        match find_strong(s, from) {
            Some(j) => from <= j && j + 1 < s.len() && s[j] == '*' && s[j + 1] == '*',
            None => true,
        },
    decreases s.len() - from,
{
    if from + 1 < s.len() && !(s[from] == '*' && s[from + 1] == '*') {
        lemma_find_strong(s, from + 1);
    }
}

fn find_strong_at(s: &str, from: usize) -> (r: Option<usize>)
    requires
        from <= s@.len(),
    ensures
        find_strong(s@, from as int) == match r {
            Some(j) => Some(j as int),
            None => None::<int>,
        },
    decreases s@.len() - from,
{
    let n = s.unicode_len();
    if from >= n {
        None
    } else if from + 1 >= n {
        None
    } else if s.get_char(from) == '*' && s.get_char(from + 1) == '*' {
        Some(from)
    } else {
        find_strong_at(s, from + 1)
    }
}

/// Prepends a span to an inline parse result, keeping an error as it is.
pub open spec fn cons_span(x: SpanV, r: Result<Seq<SpanV>, ()>) -> Result<Seq<SpanV>, ()> {
    match r {
        Ok(v) => Ok(seq![x] + v),
        Err(e) => Err(e),
    }
}

/// The inline spans of `s` from position `from` on.  A backtick opens a code
/// span up to the next backtick; `**` and `*` open strong and emphasized
/// content up to the matching marker, parsed recursively; `[label](target)`
/// is a link.  A marker with no matching closer stands for itself as literal
/// text, except an unmatched `[` or a label followed by `(` with no `)`,
/// which are errors.
pub open spec fn spec_inline(s: Seq<char>, from: int) -> Result<Seq<SpanV>, ()>
    decreases s.len() - from,
    when 0 <= from <= s.len()
{
    if from >= s.len() {
        Ok(Seq::empty())
    } else if s[from] == '`' {
        match find_char(s, from + 1, '`') {
            Some(j) => {
                proof {
                    lemma_find_char(s, from + 1, '`');
                }
                cons_span(SpanV::CodeSpan(s.subrange(from + 1, j)), spec_inline(s, j + 1))
            },
            None => cons_span(SpanV::Text(seq!['`']), spec_inline(s, from + 1)),
        }
    } else if s[from] == '*' {
        if from + 1 < s.len() && s[from + 1] == '*' {
            match find_strong(s, from + 2) {
                Some(j) => {
                    proof {
                        lemma_find_strong(s, from + 2);
                    }
                    match spec_inline(s.subrange(from + 2, j), 0) {
                        Ok(inner) => cons_span(SpanV::Strong(inner), spec_inline(s, j + 2)),
                        Err(e) => Err(e),
                    }
                },
                None => cons_span(SpanV::Text(seq!['*', '*']), spec_inline(s, from + 2)),
            }
        } else {
            match find_char(s, from + 1, '*') {
                Some(j) => {
                    proof {
                        lemma_find_char(s, from + 1, '*');
                    }
                    match spec_inline(s.subrange(from + 1, j), 0) {
                        Ok(inner) => cons_span(SpanV::Emphasis(inner), spec_inline(s, j + 1)),
                        Err(e) => Err(e),
                    }
                },
                None => cons_span(SpanV::Text(seq!['*']), spec_inline(s, from + 1)),
            }
        }
    } else if s[from] == '[' {
        match find_char(s, from + 1, ']') {
            None => Err(()),
            Some(j) => {
                proof {
                    lemma_find_char(s, from + 1, ']');
                }
                if j + 1 < s.len() && s[j + 1] == '(' {
                    match find_char(s, j + 2, ')') {
                        None => Err(()),
                        Some(k) => {
                            proof {
                                lemma_find_char(s, j + 2, ')');
                            }
                            cons_span(
                                SpanV::Link {
                                    label: s.subrange(from + 1, j),
                                    target: s.subrange(j + 2, k),
                                },
                                spec_inline(s, k + 1),
                            )
                        },
                    }
                } else {
                    cons_span(SpanV::Text(seq!['[']), spec_inline(s, from + 1))
                }
            },
        }
    } else {
        let t = text_run(s, from);
        proof {
            lemma_text_run(s, from);
        }
        cons_span(SpanV::Text(s.subrange(from, from + t)), spec_inline(s, from + t))
    }
}

pub open spec fn inline_res_view(r: Result<Vec<InlineSpan>, ()>) -> Result<Seq<SpanV>, ()> {
    match r {
        Ok(v) => Ok(spans_view(v@)),
        Err(e) => Err(e),
    }
}

/// Parses the inline spans of `s` from position `from` on.
pub fn parse_inline_at(s: &str, from: usize) -> (r: Result<Vec<InlineSpan>, ()>)
    requires
        from <= s@.len(),
    ensures
        inline_res_view(r) == spec_inline(s@, from as int),
    decreases s@.len() - from,
{
    let n = s.unicode_len();
    if from >= n {
        let v: Vec<InlineSpan> = Vec::new();
        proof {
            assert(spans_view(v@) =~= Seq::<SpanV>::empty());
        }
        Ok(v)
    } else if s.get_char(from) == '`' {
        match find_char_at(s, from + 1, '`') {
            Some(j) => {
                proof {
                    lemma_find_char(s@, from as int + 1, '`');
                }
                let span = InlineSpan::CodeSpan(String::from_str(s.substring_char(from + 1, j)));
                prepend(span, parse_inline_at(s, j + 1))
            },
            None => {
                let span = InlineSpan::Text(String::from_str("`"));
                proof {
                    reveal_strlit("`");
                    assert("`"@ =~= seq!['`']);
                }
                prepend(span, parse_inline_at(s, from + 1))
            },
        }
    } else if s.get_char(from) == '*' {
        if from + 1 < n && s.get_char(from + 1) == '*' {
            match find_strong_at(s, from + 2) {
                Some(j) => {
                    proof {
                        lemma_find_strong(s@, from as int + 2);
                    }
                    match parse_inline_at(s.substring_char(from + 2, j), 0) {
                        Ok(inner) => prepend(InlineSpan::Strong(inner), parse_inline_at(s, j + 2)),
                        Err(e) => Err(e),
                    }
                },
                None => {
                    let span = InlineSpan::Text(String::from_str("**"));
                    proof {
                        reveal_strlit("**");
                        assert("**"@ =~= seq!['*', '*']);
                    }
                    prepend(span, parse_inline_at(s, from + 2))
                },
            }
        } else {
            match find_char_at(s, from + 1, '*') {
                Some(j) => {
                    proof {
                        lemma_find_char(s@, from as int + 1, '*');
                    }
                    match parse_inline_at(s.substring_char(from + 1, j), 0) {
                        Ok(inner) => prepend(
                            InlineSpan::Emphasis(inner),
                            parse_inline_at(s, j + 1),
                        ),
                        Err(e) => Err(e),
                    }
                },
                None => {
                    let span = InlineSpan::Text(String::from_str("*"));
                    proof {
                        reveal_strlit("*");
                        assert("*"@ =~= seq!['*']);
                    }
                    prepend(span, parse_inline_at(s, from + 1))
                },
            }
        }
    } else if s.get_char(from) == '[' {
        match find_char_at(s, from + 1, ']') {
            None => Err(()),
            Some(j) => {
                proof {
                    lemma_find_char(s@, from as int + 1, ']');
                }
                if j + 1 < n && s.get_char(j + 1) == '(' {
                    match find_char_at(s, j + 2, ')') {
                        None => Err(()),
                        Some(k) => {
                            proof {
                                lemma_find_char(s@, j as int + 2, ')');
                            }
                            let span = InlineSpan::Link {
                                label: String::from_str(s.substring_char(from + 1, j)),
                                target: String::from_str(s.substring_char(j + 2, k)),
                            };
                            prepend(span, parse_inline_at(s, k + 1))
                        },
                    }
                } else {
                    let span = InlineSpan::Text(String::from_str("["));
                    proof {
                        reveal_strlit("[");
                        assert("["@ =~= seq!['[']);
                    }
                    prepend(span, parse_inline_at(s, from + 1))
                }
            },
        }
    } else {
        let t = text_run_at(s, from);
        let span = InlineSpan::Text(String::from_str(s.substring_char(from, from + t)));
        prepend(span, parse_inline_at(s, from + t))
    }
}

/// Prepends a span to an inline parse result, keeping an error as it is.
fn prepend(x: InlineSpan, r: Result<Vec<InlineSpan>, ()>) -> (out: Result<Vec<InlineSpan>, ()>)
    ensures
        inline_res_view(out) == cons_span(span_view(x), inline_res_view(r)),
{
    match r {
        Ok(mut v) => {
            let ghost orig = v@;
            v.insert(0, x);
            proof {
                assert(v@ =~= seq![x] + orig);
                assert(spans_view(seq![x] + orig) =~= seq![span_view(x)] + spans_view(orig));
            }
            Ok(v)
        },
        Err(e) => Err(e),
    }
}

} // verus!
