//! Character-level building blocks for the lexical normalizer: ASCII
//! lowercasing, the punctuation sets that tokenization strips or reacts to,
//! and sequence-level cleaning operations over `Vec<char>` tokens.

use vstd::prelude::*;

verus! {

/// ASCII lowercasing of a single character; everything outside `'A'..='Z'`
/// passes through unchanged (tokenization assumes Latin script).
pub open spec fn lower_char_spec(c: char) -> char {
    match c {
        'A' => 'a',
        'B' => 'b',
        'C' => 'c',
        'D' => 'd',
        'E' => 'e',
        'F' => 'f',
        'G' => 'g',
        'H' => 'h',
        'I' => 'i',
        'J' => 'j',
        'K' => 'k',
        'L' => 'l',
        'M' => 'm',
        'N' => 'n',
        'O' => 'o',
        'P' => 'p',
        'Q' => 'q',
        'R' => 'r',
        'S' => 's',
        'T' => 't',
        'U' => 'u',
        'V' => 'v',
        'W' => 'w',
        'X' => 'x',
        'Y' => 'y',
        'Z' => 'z',
        _ => c,
    }
}

pub fn lower_char(c: char) -> (r: char)
    ensures
        r == lower_char_spec(c),
{
    match c {
        'A' => 'a',
        'B' => 'b',
        'C' => 'c',
        'D' => 'd',
        'E' => 'e',
        'F' => 'f',
        'G' => 'g',
        'H' => 'h',
        'I' => 'i',
        'J' => 'j',
        'K' => 'k',
        'L' => 'l',
        'M' => 'm',
        'N' => 'n',
        'O' => 'o',
        'P' => 'p',
        'Q' => 'q',
        'R' => 'r',
        'S' => 's',
        'T' => 't',
        'U' => 'u',
        'V' => 'v',
        'W' => 'w',
        'X' => 'x',
        'Y' => 'y',
        'Z' => 'z',
        _ => c,
    }
}

/// The punctuation the normalizer deletes outright: parentheses, straight and
/// curly quotation marks, section and asterisk marks, semicolon, colon,
/// apostrophe and underscore. Commas and sentence terminators are handled
/// separately because their presence must be observed before removal.
pub open spec fn is_stripped_punct(c: char) -> bool {
    c == '(' || c == ')' || c == '\u{a7}' || c == '*' || c == '"' || c == '\u{201c}'
        || c == '\u{201d}' || c == ';' || c == ':' || c == '\'' || c == '_'
}

pub fn stripped_punct(c: char) -> (r: bool)
    ensures
        r == is_stripped_punct(c),
{
    c == '(' || c == ')' || c == '\u{a7}' || c == '*' || c == '"' || c == '\u{201c}'
        || c == '\u{201d}' || c == ';' || c == ':' || c == '\'' || c == '_'
}

/// Sentence-terminating punctuation.
pub open spec fn is_terminator(c: char) -> bool {
    c == '.' || c == '?' || c == '!'
}

pub fn terminator(c: char) -> (r: bool)
    ensures
        r == is_terminator(c),
{
    c == '.' || c == '?' || c == '!'
}

/// ASCII whitespace, the token delimiter.
pub open spec fn is_space(c: char) -> bool {
    c == ' ' || c == '\t' || c == '\n' || c == '\r' || c == '\u{b}' || c == '\u{c}'
}

pub fn space(c: char) -> (r: bool)
    ensures
        r == is_space(c),
{
    c == ' ' || c == '\t' || c == '\n' || c == '\r' || c == '\u{b}' || c == '\u{c}'
}

/// A token lowercased character by character.
pub open spec fn lower_seq(s: Seq<char>) -> Seq<char> {
    s.map_values(|c: char| lower_char_spec(c))
}

/// The normalizer's first pass: lowercase and delete the stripped punctuation
/// set, keeping every other character in order.
pub open spec fn clean_seq(s: Seq<char>) -> Seq<char>
    decreases s.len(),
{
    if s.len() == 0 {
        Seq::empty()
    } else {
        let rest = clean_seq(s.drop_last());
        if is_stripped_punct(s.last()) {
            rest
        } else {
            rest.push(lower_char_spec(s.last()))
        }
    }
}

/// `s` with every occurrence of the comma deleted.
pub open spec fn strip_commas(s: Seq<char>) -> Seq<char>
    decreases s.len(),
{
    if s.len() == 0 {
        Seq::empty()
    } else {
        let rest = strip_commas(s.drop_last());
        if s.last() == ',' {
            rest
        } else {
            rest.push(s.last())
        }
    }
}

/// `s` with every sentence terminator deleted.
pub open spec fn strip_terminators(s: Seq<char>) -> Seq<char>
    decreases s.len(),
{
    if s.len() == 0 {
        Seq::empty()
    } else {
        let rest = strip_terminators(s.drop_last());
        if is_terminator(s.last()) {
            rest
        } else {
            rest.push(s.last())
        }
    }
}

pub fn lower_token(s: &Vec<char>) -> (r: Vec<char>)
    ensures
        r@ == lower_seq(s@),
{
    let mut out: Vec<char> = Vec::new();
    let mut i: usize = 0;
    while i < s.len()
        invariant
            i <= s.len(),
            out@ == lower_seq(s@.take(i as int)),
        decreases s.len() - i,
    {
        out.push(lower_char(s[i]));
        i = i + 1;
        proof {
            assert(s@.take(i as int).map_values(|c: char| lower_char_spec(c)) =~= s@.take(
                i - 1,
            ).map_values(|c: char| lower_char_spec(c)).push(lower_char_spec(s@[i - 1])));
        }
    }
    proof {
        assert(s@.take(s@.len() as int) =~= s@);
    }
    out
}

pub fn clean_token(s: &Vec<char>) -> (r: Vec<char>)
    ensures
        r@ == clean_seq(s@),
{
    let mut out: Vec<char> = Vec::new();
    let mut i: usize = 0;
    while i < s.len()
        invariant
            i <= s.len(),
            out@ == clean_seq(s@.take(i as int)),
        decreases s.len() - i,
    {
        if !stripped_punct(s[i]) {
            out.push(lower_char(s[i]));
        }
        i = i + 1;
        proof {
            assert(s@.take(i as int).drop_last() =~= s@.take(i - 1));
        }
    }
    proof {
        assert(s@.take(s@.len() as int) =~= s@);
    }
    out
}

pub fn strip_comma_token(s: &Vec<char>) -> (r: Vec<char>)
    ensures
        r@ == strip_commas(s@),
{
    let mut out: Vec<char> = Vec::new();
    let mut i: usize = 0;
    while i < s.len()
        invariant
            i <= s.len(),
            out@ == strip_commas(s@.take(i as int)),
        decreases s.len() - i,
    {
        if s[i] != ',' {
            out.push(s[i]);
        }
        i = i + 1;
        proof {
            assert(s@.take(i as int).drop_last() =~= s@.take(i - 1));
        }
    }
    proof {
        assert(s@.take(s@.len() as int) =~= s@);
    }
    out
}

pub fn strip_terminator_token(s: &Vec<char>) -> (r: Vec<char>)
    ensures
        r@ == strip_terminators(s@),
{
    let mut out: Vec<char> = Vec::new();
    let mut i: usize = 0;
    while i < s.len()
        invariant
            i <= s.len(),
            out@ == strip_terminators(s@.take(i as int)),
        decreases s.len() - i,
    {
        if !terminator(s[i]) {
            out.push(s[i]);
        }
        i = i + 1;
        proof {
            assert(s@.take(i as int).drop_last() =~= s@.take(i - 1));
        }
    }
    proof {
        assert(s@.take(s@.len() as int) =~= s@);
    }
    out
}

pub fn contains_char(s: &Vec<char>, c: char) -> (r: bool)
    ensures
        r == s@.contains(c),
{
    let mut i: usize = 0;
    while i < s.len()
        invariant
            i <= s.len(),
            forall|j: int| 0 <= j < i ==> s@[j] != c,
        decreases s.len() - i,
    {
        if s[i] == c {
            return true;
        }
        i = i + 1;
    }
    false
}

/// Whether the token holds a sentence terminator.
pub fn contains_terminator(s: &Vec<char>) -> (r: bool)
    ensures
        r == exists|j: int| 0 <= j < s@.len() && is_terminator(s@[j]),
{
    let mut i: usize = 0;
    while i < s.len()
        invariant
            i <= s.len(),
            forall|j: int| 0 <= j < i ==> !is_terminator(s@[j]),
        decreases s.len() - i,
    {
        if terminator(s[i]) {
            return true;
        }
        i = i + 1;
    }
    false
}

/// Character-sequence equality of two tokens.
pub fn tokens_equal(a: &Vec<char>, b: &Vec<char>) -> (r: bool)
    ensures
        r == (a@ == b@),
{
    if a.len() != b.len() {
        return false;
    }
    let mut i: usize = 0;
    while i < a.len()
        invariant
            i <= a.len(),
            a@.len() == b@.len(),
            forall|j: int| 0 <= j < i ==> a@[j] == b@[j],
        decreases a.len() - i,
    {
        if a[i] != b[i] {
            return false;
        }
        i = i + 1;
    }
    proof {
        assert(a@ =~= b@);
    }
    true
}

/// The characters of a string slice, in order, as a vector.
pub fn str_to_chars(s: &str) -> (r: Vec<char>)
    ensures
        r@ == s@,
{
    let n = s.unicode_len();
    let mut out: Vec<char> = Vec::new();
    let mut i: usize = 0;
    while i < n
        invariant
            n == s@.len(),
            i <= n,
            out@ == s@.take(i as int),
        decreases n - i,
    {
        out.push(s.get_char(i));
        i = i + 1;
        proof {
            assert(s@.take(i as int).drop_last() =~= s@.take(i - 1));
            assert(s@.take(i as int) =~= s@.take(i - 1).push(s@[i - 1]));
        }
    }
    proof {
        assert(s@.take(s@.len() as int) =~= s@);
    }
    out
}

/// Equality of two string slices, character by character.
pub fn str_equal(a: &str, b: &str) -> (r: bool)
    ensures
        r == (a@ == b@),
{
    let na = a.unicode_len();
    let nb = b.unicode_len();
    if na != nb {
        return false;
    }
    let mut i: usize = 0;
    while i < na
        invariant
            na == a@.len(),
            a@.len() == b@.len(),
            i <= na,
            forall|j: int| 0 <= j < i ==> a@[j] == b@[j],
        decreases na - i,
    {
        if a.get_char(i) != b.get_char(i) {
            return false;
        }
        i = i + 1;
    }
    proof {
        assert(a@ =~= b@);
    }
    true
}

} // verus!
