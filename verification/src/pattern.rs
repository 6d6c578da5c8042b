//! The template pattern parser: decomposes a placeholder-bearing string
//! template such as `"vm-${string}"` into alternating literal strings and
//! placeholder type names.

use vstd::prelude::*;
use vstd::string::StrSliceExecFns;

use crate::convert::ConversionError;
use crate::ir::view_string_seq;
use crate::strutil::push_char;

verus! {

/// Scans a placeholder body from `j` at brace depth `depth`: the body's
/// characters up to the matching close brace, and the index just after it.
/// An unterminated body runs to the end of the pattern.
pub open spec fn scan_body(s: Seq<char>, j: int, depth: int) -> (Seq<char>, int)
    decreases s.len() - j,
{
    if j < 0 || j >= s.len() {
        (Seq::empty(), j)
    } else if s[j] == '}' && depth == 1 {
        (Seq::empty(), j + 1)
    } else {
        let d = if s[j] == '}' {
            depth - 1
        } else if s[j] == '{' {
            depth + 1
        } else {
            depth
        };
        let r = scan_body(s, j + 1, d);
        (seq![s[j]] + r.0, r.1)
    }
}

/// The scan never moves backwards, and never past the end of the pattern.
pub proof fn lemma_scan_body_advances(s: Seq<char>, j: int, depth: int)
    ensures
        scan_body(s, j, depth).1 >= j,
        j <= s.len() ==> scan_body(s, j, depth).1 <= s.len(),
    decreases s.len() - j,
{
    if 0 <= j < s.len() && !(s[j] == '}' && depth == 1) {
        let d = if s[j] == '}' {
            depth - 1
        } else if s[j] == '{' {
            depth + 1
        } else {
            depth
        };
        lemma_scan_body_advances(s, j + 1, d);
    }
}

/// Parses the pattern from position `i` with the literal accumulated so
/// far: `None` on an empty placeholder, otherwise the remaining literal
/// strings and placeholder bodies. The final literal (possibly empty) is
/// always appended, so there is one more string than there are types.
pub open spec fn parse_tail(s: Seq<char>, i: int, cur: Seq<char>) -> Option<
    (Seq<Seq<char>>, Seq<Seq<char>>),
>
    decreases s.len() - i
        via parse_tail_decreases
{
    if i < 0 || i >= s.len() {
        Option::Some((seq![cur], Seq::empty()))
    } else if s[i] == '$' && i + 1 < s.len() && s[i + 1] == '{' {
        let r = scan_body(s, i + 2, 1);
        if r.0.len() == 0 {
            Option::None
        } else {
            match parse_tail(s, r.1, Seq::empty()) {
                Option::Some((ss, ts)) => Option::Some((seq![cur] + ss, seq![r.0] + ts)),
                Option::None => Option::None,
            }
        }
    } else {
        parse_tail(s, i + 1, cur.push(s[i]))
    }
}

#[via_fn]
proof fn parse_tail_decreases(s: Seq<char>, i: int, cur: Seq<char>) {
    if 0 <= i < s.len() && s[i] == '$' && i + 1 < s.len() && s[i + 1] == '{' {
        lemma_scan_body_advances(s, i + 2, 1);
    }
}

/// What a pattern decomposes into: `None` exactly where it holds an empty
/// `${}` placeholder.
pub open spec fn pattern_parts(s: Seq<char>) -> Option<(Seq<Seq<char>>, Seq<Seq<char>>)> {
    parse_tail(s, 0, Seq::empty())
}

/// A successful parse yields exactly one more string than types: the
/// literals alternate with the placeholders and close the pattern.
pub proof fn lemma_pattern_shape(s: Seq<char>, i: int, cur: Seq<char>)
    ensures
        match parse_tail(s, i, cur) {
            Option::Some((ss, ts)) => ss.len() == ts.len() + 1,
            Option::None => true,
        },
    decreases s.len() - i,
{
    if i < 0 || i >= s.len() {
    } else if s[i] == '$' && i + 1 < s.len() && s[i + 1] == '{' {
        let r = scan_body(s, i + 2, 1);
        lemma_scan_body_advances(s, i + 2, 1);
        if r.0.len() != 0 {
            lemma_pattern_shape(s, r.1, Seq::empty());
        }
    } else {
        lemma_pattern_shape(s, i + 1, cur.push(s[i]));
    }
}

/// Parses a template literal pattern into its literal strings and its
/// placeholder type names.
///
/// `"vm-${string}"` becomes strings `["vm-", ""]` and types `["string"]`;
/// `"v${number}.${number}.${number}"` becomes strings `["v", ".", ".", ""]`
/// and types `["number", "number", "number"]`. A placeholder body may hold
/// nested braces. The only error is an empty placeholder `${}`.
#[verifier::loop_isolation(false)]
pub fn parse_template_pattern(pattern: &str) -> (r: Result<
    (Vec<String>, Vec<String>),
    ConversionError,
>)
    ensures
        match r {
            Result::Ok(parts) => {
                &&& pattern_parts(pattern@) == Option::Some(
                    (view_string_seq(parts.0@), view_string_seq(parts.1@)),
                )
                &&& parts.0@.len() == parts.1@.len() + 1
            },
            Result::Err(e) => {
                &&& pattern_parts(pattern@) is None
                &&& e == ConversionError::EmptyPlaceholder
            },
        },
{
    let n = pattern.unicode_len();
    let mut strings: Vec<String> = Vec::new();
    let mut types: Vec<String> = Vec::new();
    let mut cur = String::new();
    let mut i: usize = 0;
    while i < n
        invariant
            i <= n,
            n == pattern@.len(),
            parse_tail(pattern@, 0, Seq::empty()) == match parse_tail(
                pattern@,
                i as int,
                cur@,
            ) {
                Option::Some((ss, ts)) => Option::Some(
                    (view_string_seq(strings@) + ss, view_string_seq(types@) + ts),
                ),
                Option::None => Option::None::<(Seq<Seq<char>>, Seq<Seq<char>>)>,
            },
        decreases n - i,
    {
        let c = pattern.get_char(i);
        if c == '$' && i + 1 < n && pattern.get_char(i + 1) == '{' {
            let ghost gr = scan_body(pattern@, i as int + 2, 1);
            proof {
                lemma_scan_body_advances(pattern@, i as int + 2, 1);
            }
            let mut body = String::new();
            let mut j: usize = i + 2;
            let mut depth: usize = 1;
            while j < n
                invariant
                    i + 2 <= j <= n,
                    1 <= depth <= j - i - 1,
                    n == pattern@.len(),
                    scan_body(pattern@, i as int + 2, 1) == {
                        let r = scan_body(pattern@, j as int, depth as int);
                        (body@ + r.0, r.1)
                    },
                decreases n - j,
            {
                let tc = pattern.get_char(j);
                if tc == '}' && depth == 1 {
                    break;
                }
                if tc == '}' {
                    depth = depth - 1;
                } else if tc == '{' {
                    depth = depth + 1;
                }
                push_char(&mut body, tc);
                j = j + 1;
                proof {
                    assert(body@ + scan_body(pattern@, j as int, depth as int).0 =~= gr.0);
                }
            }
            let brk = j < n;
            proof {
                if brk {
                    assert(scan_body(pattern@, j as int, depth as int) == (
                        Seq::<char>::empty(),
                        j + 1,
                    ));
                } else {
                    assert(scan_body(pattern@, j as int, depth as int) == (
                        Seq::<char>::empty(),
                        j as int,
                    ));
                }
                assert(body@ + Seq::<char>::empty() =~= body@);
                assert(gr.0 =~= body@);
            }
            if body.as_str().unicode_len() == 0 {
                proof {
                    assert(parse_tail(pattern@, i as int, cur@) is None);
                }
                return Result::Err(ConversionError::EmptyPlaceholder);
            }
            let ghost old_strings = strings@;
            let ghost old_types = types@;
            let ghost old_cur = cur@;
            strings.push(cur);
            types.push(body);
            cur = String::new();
            proof {
                assert(view_string_seq(strings@) =~= view_string_seq(old_strings).push(old_cur));
                assert(view_string_seq(types@) =~= view_string_seq(old_types).push(gr.0));
                if parse_tail(pattern@, gr.1, Seq::<char>::empty()) is Some {
                    let (ss2, ts2) = parse_tail(pattern@, gr.1, Seq::<char>::empty())->Some_0;
                    assert(view_string_seq(old_strings) + (seq![old_cur] + ss2) =~= view_string_seq(
                        strings@,
                    ) + ss2);
                    assert(view_string_seq(old_types) + (seq![gr.0] + ts2) =~= view_string_seq(
                        types@,
                    ) + ts2);
                }
            }
            if brk {
                i = j + 1;
            } else {
                i = n;
            }
        } else {
            let ghost old_cur = cur@;
            push_char(&mut cur, c);
            i = i + 1;
        }
    }
    let ghost old_strings = strings@;
    let ghost old_cur = cur@;
    strings.push(cur);
    proof {
        assert(parse_tail(pattern@, n as int, old_cur) == Option::Some(
            (seq![old_cur], Seq::<Seq<char>>::empty()),
        ));
        assert(view_string_seq(strings@) =~= view_string_seq(old_strings) + seq![old_cur]);
        assert(view_string_seq(types@) + Seq::<Seq<char>>::empty() =~= view_string_seq(types@));
        lemma_pattern_shape(pattern@, 0, Seq::<char>::empty());
    }
    Result::Ok((strings, types))
}

} // verus!
