//! Character-level string utilities shared by the command parser and
//! the router: equality, searching for a separator, and whitespace
//! classification matching Unicode's White_Space property.

use vstd::prelude::*;

verus! {

/// True for exactly the characters with the Unicode White_Space
/// property, the set `char::is_whitespace` accepts.
pub open spec fn spec_is_whitespace(c: char) -> bool {
    c == ' ' || c == '\t' || c == '\n' || c == '\r' || c == '\u{b}' || c == '\u{c}'
        || c == '\u{85}' || c == '\u{a0}' || c == '\u{1680}'
        || ('\u{2000}' <= c && c <= '\u{200a}')
        || c == '\u{2028}' || c == '\u{2029}' || c == '\u{202f}' || c == '\u{205f}'
        || c == '\u{3000}'
}

pub fn is_whitespace_char(c: char) -> (r: bool)
    ensures
        r == spec_is_whitespace(c),
{
    c == ' ' || c == '\t' || c == '\n' || c == '\r' || c == '\u{b}' || c == '\u{c}'
        || c == '\u{85}' || c == '\u{a0}' || c == '\u{1680}'
        || ('\u{2000}' <= c && c <= '\u{200a}')
        || c == '\u{2028}' || c == '\u{2029}' || c == '\u{202f}' || c == '\u{205f}'
        || c == '\u{3000}'
}

/// A string is blank when every character is whitespace; `s.trim()`
/// is empty exactly on such strings.
pub open spec fn spec_is_blank(s: Seq<char>) -> bool {
    forall|i: int| 0 <= i < s.len() ==> spec_is_whitespace(#[trigger] s[i])
}

pub fn is_blank(s: &str) -> (r: bool)
    ensures
        r == spec_is_blank(s@),
{
    let n: usize = s.unicode_len();
    let mut i: usize = 0;
    while i < n
        invariant
            n == s@.len(),
            0 <= i <= n,
            forall|j: int| 0 <= j < i ==> spec_is_whitespace(#[trigger] s@[j]),
        decreases n - i,
    {
        let c = s.get_char(i);
        if !is_whitespace_char(c) {
            return false;
        }
        i = i + 1;
    }
    true
}

/// Character-wise equality of two string slices.
pub fn str_eq(a: &str, b: &str) -> (r: bool)
    ensures
        r == (a@ == b@),
{
    let na: usize = a.unicode_len();
    let nb: usize = b.unicode_len();
    if na != nb {
        assert(a@ != b@);
        return false;
    }
    let mut i: usize = 0;
    while i < na
        invariant
            na == a@.len(),
            na == b@.len(),
            0 <= i <= na,
            forall|j: int| 0 <= j < i ==> a@[j] == b@[j],
        decreases na - i,
    {
        if a.get_char(i) != b.get_char(i) {
            assert(a@ != b@);
            return false;
        }
        i = i + 1;
    }
    assert(a@ =~= b@);
    true
}

/// The character for one decimal digit.
pub open spec fn spec_digit_char(d: int) -> char {
    if d == 0 {
        '0'
    } else if d == 1 {
        '1'
    } else if d == 2 {
        '2'
    } else if d == 3 {
        '3'
    } else if d == 4 {
        '4'
    } else if d == 5 {
        '5'
    } else if d == 6 {
        '6'
    } else if d == 7 {
        '7'
    } else if d == 8 {
        '8'
    } else {
        '9'
    }
}

/// The canonical decimal form of a number: no sign, no leading zeros.
pub open spec fn spec_u64_string(n: nat) -> Seq<char>
    decreases n,
{
    if n < 10 {
        seq![spec_digit_char(n as int)]
    } else {
        spec_u64_string(n / 10).push(spec_digit_char((n % 10) as int))
    }
}

fn digit_str(d: u64) -> (r: &'static str)
    requires
        d < 10,
    ensures
        r@ == seq![spec_digit_char(d as int)],
{
    proof {
        reveal_strlit("0");
        reveal_strlit("1");
        reveal_strlit("2");
        reveal_strlit("3");
        reveal_strlit("4");
        reveal_strlit("5");
        reveal_strlit("6");
        reveal_strlit("7");
        reveal_strlit("8");
        reveal_strlit("9");
    }
    let r = match d {
        0 => "0",
        1 => "1",
        2 => "2",
        3 => "3",
        4 => "4",
        5 => "5",
        6 => "6",
        7 => "7",
        8 => "8",
        _ => "9",
    };
    proof {
        assert(r@ =~= seq![spec_digit_char(d as int)]);
    }
    r
}

/// Renders a number in its canonical decimal form.
pub fn u64_to_string(n: u64) -> (r: String)
    ensures
        r@ == spec_u64_string(n as nat),
    decreases n,
{
    if n < 10 {
        String::from_str(digit_str(n))
    } else {
        let mut s = u64_to_string(n / 10);
        s.append(digit_str(n % 10));
        proof {
            assert(s@ =~= spec_u64_string(n as nat));
        }
        s
    }
}

/// Index of the first occurrence of `c` in `s`, if any.
pub open spec fn spec_find_char(s: Seq<char>, c: char) -> Option<int> {
    if exists|i: int| 0 <= i < s.len() && s[i] == c {
        Some(choose|i: int| 0 <= i < s.len() && s[i] == c && forall|j: int| 0 <= j < i ==> s[j] != c)
    } else {
        None
    }
}

/// The characteristic properties of `spec_find_char`.
pub proof fn lemma_find_char_props(s: Seq<char>, c: char)
    ensures
        spec_find_char(s, c) is Some ==> {
            let i = spec_find_char(s, c)->Some_0;
            &&& 0 <= i < s.len()
            &&& s[i] == c
            &&& forall|j: int| 0 <= j < i ==> s[j] != c
        },
        spec_find_char(s, c) is None ==> forall|j: int| 0 <= j < s.len() ==> s[j] != c,
{
    if exists|i: int| 0 <= i < s.len() && s[i] == c {
        let w = choose|i: int| 0 <= i < s.len() && s[i] == c;
        lemma_first_occurrence(s, c, w);
    }
}

proof fn lemma_first_occurrence(s: Seq<char>, c: char, w: int)
    requires
        0 <= w < s.len(),
        s[w] == c,
    ensures
        exists|i: int| 0 <= i < s.len() && s[i] == c && (forall|j: int| 0 <= j < i ==> s[j] != c),
    decreases w,
{
    if forall|j: int| 0 <= j < w ==> s[j] != c {
    } else {
        let w2 = choose|j: int| 0 <= j < w && s[j] == c;
        lemma_first_occurrence(s, c, w2);
    }
}

pub fn find_char(s: &str, c: char) -> (r: Option<usize>)
    ensures
        match r {
            Some(i) => {
                &&& spec_find_char(s@, c) == Some(i as int)
                &&& 0 <= i < s@.len()
                &&& s@[i as int] == c
                &&& forall|j: int| 0 <= j < i ==> s@[j] != c
            },
            None => {
                &&& spec_find_char(s@, c) is None
                &&& forall|j: int| 0 <= j < s@.len() ==> s@[j] != c
            },
        },
{
    let n: usize = s.unicode_len();
    let mut i: usize = 0;
    while i < n
        invariant
            n == s@.len(),
            0 <= i <= n,
            forall|j: int| 0 <= j < i ==> s@[j] != c,
        decreases n - i,
    {
        if s.get_char(i) == c {
            proof {
                lemma_find_char_props(s@, c);
            }
            return Some(i);
        }
        i = i + 1;
    }
    proof {
        lemma_find_char_props(s@, c);
    }
    None
}

} // verus!
