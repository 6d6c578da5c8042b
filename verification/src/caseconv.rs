//! Identifier case conversion for the rename-all member naming policies.
//!
//! Conversion is ASCII-based: the letters `a`..`z` and `A`..`Z` change case,
//! every other character passes through unchanged.

use vstd::prelude::*;
use vstd::string::StrSliceExecFns;

use crate::strutil::{push_char, str_eq};

verus! {

/// The ASCII-lowercased form of one character.
pub open spec fn lower_char(c: char) -> char {
    if 'A' <= c && c <= 'Z' {
        ((c as u8) + 32) as char
    } else {
        c
    }
}

/// The ASCII-uppercased form of one character.
pub open spec fn upper_char(c: char) -> char {
    if 'a' <= c && c <= 'z' {
        ((c as u8) - 32) as char
    } else {
        c
    }
}

pub open spec fn is_upper(c: char) -> bool {
    'A' <= c && c <= 'Z'
}

/// camelCase conversion from position `i` on, about to capitalise when
/// `cap` holds: underscores are dropped and capitalise the next character,
/// the first character is lowercased, everything else passes through.
pub open spec fn camel_tail(s: Seq<char>, i: int, cap: bool) -> Seq<char>
    decreases s.len() - i,
{
    if i < 0 || i >= s.len() {
        Seq::empty()
    } else if s[i] == '_' {
        camel_tail(s, i + 1, true)
    } else if cap {
        seq![upper_char(s[i])] + camel_tail(s, i + 1, false)
    } else if i == 0 {
        seq![lower_char(s[i])] + camel_tail(s, i + 1, false)
    } else {
        seq![s[i]] + camel_tail(s, i + 1, false)
    }
}

/// The camelCase form of a name.
pub open spec fn camel_chars(s: Seq<char>) -> Seq<char> {
    camel_tail(s, 0, false)
}

/// PascalCase conversion from position `i` on; as camelCase but the first
/// character is capitalised rather than lowercased.
pub open spec fn pascal_tail(s: Seq<char>, i: int, cap: bool) -> Seq<char>
    decreases s.len() - i,
{
    if i < 0 || i >= s.len() {
        Seq::empty()
    } else if s[i] == '_' {
        pascal_tail(s, i + 1, true)
    } else if cap {
        seq![upper_char(s[i])] + pascal_tail(s, i + 1, false)
    } else {
        seq![s[i]] + pascal_tail(s, i + 1, false)
    }
}

/// The PascalCase form of a name.
pub open spec fn pascal_chars(s: Seq<char>) -> Seq<char> {
    pascal_tail(s, 0, true)
}

/// snake_case conversion from position `i` on: an underscore is inserted
/// before each uppercase letter except at the start, and every character is
/// lowercased.
pub open spec fn snake_tail(s: Seq<char>, i: int) -> Seq<char>
    decreases s.len() - i,
{
    if i < 0 || i >= s.len() {
        Seq::empty()
    } else if is_upper(s[i]) && i > 0 {
        seq!['_', lower_char(s[i])] + snake_tail(s, i + 1)
    } else {
        seq![lower_char(s[i])] + snake_tail(s, i + 1)
    }
}

/// The snake_case form of a name.
pub open spec fn snake_chars(s: Seq<char>) -> Seq<char> {
    snake_tail(s, 0)
}

/// Every character uppercased.
pub open spec fn upper_chars(s: Seq<char>) -> Seq<char> {
    Seq::new(s.len(), |i: int| upper_char(s[i]))
}

/// Underscores replaced by dashes.
pub open spec fn dashed_chars(s: Seq<char>) -> Seq<char> {
    Seq::new(
        s.len(),
        |i: int|
            if s[i] == '_' {
                '-'
            } else {
                s[i]
            },
    )
}

/// Converts a name to camelCase.
#[verifier::loop_isolation(false)]
pub fn to_camel_case(name: &str) -> (r: String)
    ensures
        r@ == camel_chars(name@),
{
    let n = name.unicode_len();
    let mut out = String::new();
    let mut cap = false;
    let mut i: usize = 0;
    while i < n
        invariant
            i <= n,
            n == name@.len(),
            out@ + camel_tail(name@, i as int, cap) == camel_tail(name@, 0, false),
        decreases n - i,
    {
        let c = name.get_char(i);
        let ghost before = out@;
        let ghost cap0 = cap;
        if c == '_' {
            cap = true;
        } else if cap {
            push_char(&mut out, upper_ascii(c));
            cap = false;
        } else if i == 0 {
            push_char(&mut out, lower_ascii(c));
        } else {
            push_char(&mut out, c);
        }
        proof {
            assert(before + camel_tail(name@, i as int, cap0) =~= out@ + camel_tail(
                name@,
                i + 1,
                cap,
            ));
        }
        i = i + 1;
    }
    proof {
        assert(out@ + Seq::<char>::empty() =~= out@);
    }
    out
}

/// Converts a name to PascalCase.
#[verifier::loop_isolation(false)]
pub fn to_pascal_case(name: &str) -> (r: String)
    ensures
        r@ == pascal_chars(name@),
{
    let n = name.unicode_len();
    let mut out = String::new();
    let mut cap = true;
    let mut i: usize = 0;
    while i < n
        invariant
            i <= n,
            n == name@.len(),
            out@ + pascal_tail(name@, i as int, cap) == pascal_tail(name@, 0, true),
        decreases n - i,
    {
        let c = name.get_char(i);
        let ghost before = out@;
        let ghost cap0 = cap;
        if c == '_' {
            cap = true;
        } else if cap {
            push_char(&mut out, upper_ascii(c));
            cap = false;
        } else {
            push_char(&mut out, c);
        }
        proof {
            assert(before + pascal_tail(name@, i as int, cap0) =~= out@ + pascal_tail(
                name@,
                i + 1,
                cap,
            ));
        }
        i = i + 1;
    }
    proof {
        assert(out@ + Seq::<char>::empty() =~= out@);
    }
    out
}

/// Converts a name to snake_case, splitting on uppercase transitions.
#[verifier::loop_isolation(false)]
pub fn to_snake_case(name: &str) -> (r: String)
    ensures
        r@ == snake_chars(name@),
{
    let n = name.unicode_len();
    let mut out = String::new();
    let mut i: usize = 0;
    while i < n
        invariant
            i <= n,
            n == name@.len(),
            out@ + snake_tail(name@, i as int) == snake_tail(name@, 0),
        decreases n - i,
    {
        let c = name.get_char(i);
        let ghost before = out@;
        if c >= 'A' && c <= 'Z' && i > 0 {
            push_char(&mut out, '_');
        }
        push_char(&mut out, lower_ascii(c));
        proof {
            assert(before + snake_tail(name@, i as int) =~= out@ + snake_tail(name@, i + 1));
        }
        i = i + 1;
    }
    proof {
        assert(out@ + Seq::<char>::empty() =~= out@);
    }
    out
}

fn upper_ascii(c: char) -> (r: char)
    ensures
        r == upper_char(c),
{
    if c >= 'a' && c <= 'z' {
        (((c as u8) - 32) as char)
    } else {
        c
    }
}

fn lower_ascii(c: char) -> (r: char)
    ensures
        r == lower_char(c),
{
    if c >= 'A' && c <= 'Z' {
        (((c as u8) + 32) as char)
    } else {
        c
    }
}

/// Uppercases every character of `s`.
#[verifier::loop_isolation(false)]
fn to_upper_string(s: &str) -> (r: String)
    ensures
        r@ == upper_chars(s@),
{
    let n = s.unicode_len();
    let mut out = String::new();
    let mut i: usize = 0;
    while i < n
        invariant
            i <= n,
            n == s@.len(),
            out@.len() == i,
            forall|j: int| 0 <= j < i ==> out@[j] == upper_char(s@[j]),
        decreases n - i,
    {
        push_char(&mut out, upper_ascii(s.get_char(i)));
        i = i + 1;
    }
    proof {
        assert(out@ =~= upper_chars(s@));
    }
    out
}

/// Replaces every underscore in `s` with a dash.
#[verifier::loop_isolation(false)]
fn to_dashed_string(s: &str) -> (r: String)
    ensures
        r@ == dashed_chars(s@),
{
    let n = s.unicode_len();
    let mut out = String::new();
    let mut i: usize = 0;
    while i < n
        invariant
            i <= n,
            n == s@.len(),
            out@.len() == i,
            forall|j: int|
                0 <= j < i ==> out@[j] == (if s@[j] == '_' {
                    '-'
                } else {
                    s@[j]
                }),
        decreases n - i,
    {
        let c = s.get_char(i);
        if c == '_' {
            push_char(&mut out, '-');
        } else {
            push_char(&mut out, c);
        }
        i = i + 1;
    }
    proof {
        assert(out@ =~= dashed_chars(s@));
    }
    out
}

/// The six member-naming policies a container can ask for.
#[derive(Debug, Clone, Copy, PartialEq, Eq, Structural)]
pub enum RenameAll {
    /// camelCase
    CamelCase,
    /// PascalCase
    PascalCase,
    /// snake_case
    SnakeCase,
    /// SCREAMING_SNAKE_CASE
    ScreamingSnakeCase,
    /// kebab-case
    KebabCase,
    /// SCREAMING-KEBAB-CASE
    ScreamingKebabCase,
}

/// The result of applying a naming policy to a name. The snake_case
/// normalisation pass feeds each of the other formats.
pub open spec fn rename_all_chars(policy: RenameAll, s: Seq<char>) -> Seq<char> {
    match policy {
        RenameAll::CamelCase => camel_chars(s),
        RenameAll::PascalCase => pascal_chars(s),
        RenameAll::SnakeCase => snake_chars(s),
        RenameAll::ScreamingSnakeCase => upper_chars(snake_chars(s)),
        RenameAll::KebabCase => dashed_chars(snake_chars(s)),
        RenameAll::ScreamingKebabCase => upper_chars(dashed_chars(snake_chars(s))),
    }
}

/// The policy a rename-all token names, if any.
pub open spec fn rename_all_of(s: Seq<char>) -> Option<RenameAll> {
    if s == "camelCase"@ {
        Option::Some(RenameAll::CamelCase)
    } else if s == "PascalCase"@ {
        Option::Some(RenameAll::PascalCase)
    } else if s == "snake_case"@ {
        Option::Some(RenameAll::SnakeCase)
    } else if s == "SCREAMING_SNAKE_CASE"@ {
        Option::Some(RenameAll::ScreamingSnakeCase)
    } else if s == "kebab-case"@ {
        Option::Some(RenameAll::KebabCase)
    } else if s == "SCREAMING-KEBAB-CASE"@ {
        Option::Some(RenameAll::ScreamingKebabCase)
    } else {
        Option::None
    }
}

impl RenameAll {
    /// Parses a rename-all token; any unknown token yields `None`.
    pub fn from_str(s: &str) -> (r: Option<RenameAll>)
        ensures
            r == rename_all_of(s@),
    {
        if str_eq(s, "camelCase") {
            Option::Some(RenameAll::CamelCase)
        } else if str_eq(s, "PascalCase") {
            Option::Some(RenameAll::PascalCase)
        } else if str_eq(s, "snake_case") {
            Option::Some(RenameAll::SnakeCase)
        } else if str_eq(s, "SCREAMING_SNAKE_CASE") {
            Option::Some(RenameAll::ScreamingSnakeCase)
        } else if str_eq(s, "kebab-case") {
            Option::Some(RenameAll::KebabCase)
        } else if str_eq(s, "SCREAMING-KEBAB-CASE") {
            Option::Some(RenameAll::ScreamingKebabCase)
        } else {
            Option::None
        }
    }

    /// Applies this naming policy to a name.
    pub fn apply(&self, name: &str) -> (r: String)
        ensures
            r@ == rename_all_chars(*self, name@),
    {
        match self {
            RenameAll::CamelCase => to_camel_case(name),
            RenameAll::PascalCase => to_pascal_case(name),
            RenameAll::SnakeCase => to_snake_case(name),
            RenameAll::ScreamingSnakeCase => {
                let snake = to_snake_case(name);
                to_upper_string(snake.as_str())
            }
            RenameAll::KebabCase => {
                let snake = to_snake_case(name);
                to_dashed_string(snake.as_str())
            }
            RenameAll::ScreamingKebabCase => {
                let snake = to_snake_case(name);
                let dashed = to_dashed_string(snake.as_str());
                to_upper_string(dashed.as_str())
            }
        }
    }
}

} // verus!
