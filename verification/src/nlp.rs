//! The lexical normalizer's word-level rules: closed pronoun and conjunction
//! sets and the abbreviation table, each with an exact specification over
//! character sequences, plus the proof that abbreviation substitution is
//! idempotent.

use vstd::prelude::*;
use vstd::string::StrSliceExecFns;
use vstd::string::StringExecFns;
use crate::chars::str_equal;
use crate::chars::str_to_chars;
use crate::chars::tokens_equal;

verus! {

/// The closed pronoun set; membership is exact and case-sensitive.
pub open spec fn is_pronoun_spec(s: Seq<char>) -> bool {
    s == "i"@ || s == "you"@ || s == "he"@ || s == "she"@ || s == "we"@ || s == "they"@ || s
        == "it"@ || s == "whoever"@
}

pub fn is_pronoun(w: &str) -> (r: bool)
    ensures
        r == is_pronoun_spec(w@),
{
    str_equal(w, "i") || str_equal(w, "you") || str_equal(w, "he") || str_equal(w, "she")
        || str_equal(w, "we") || str_equal(w, "they") || str_equal(w, "it") || str_equal(
        w,
        "whoever",
    )
}

/// The closed conjunction set; membership is exact and case-sensitive. The
/// multi-word phrases and the entry with a trailing space can never match a
/// whitespace-delimited token, but they belong to the set all the same.
pub open spec fn is_conjunction_spec(s: Seq<char>) -> bool {
    ||| s == "and"@
    ||| s == "but"@
    ||| s == "or"@
    ||| s == "nor"@
    ||| s == "for"@
    ||| s == "yet"@
    ||| s == "so"@
    ||| s == "after"@
    ||| s == "although"@
    ||| s == "as"@
    ||| s == "as if"@
    ||| s == "as long as"@
    ||| s == "as much as"@
    ||| s == "as soon as"@
    ||| s == "as though"@
    ||| s == "because"@
    ||| s == "before"@
    ||| s == "even "@
    ||| s == "even if"@
    ||| s == "even though"@
    ||| s == "if"@
    ||| s == "if only"@
    ||| s == "if when"@
    ||| s == "if then"@
    ||| s == "inasmuch"@
    ||| s == "in order that"@
    ||| s == "just as"@
    ||| s == "lest"@
    ||| s == "now"@
    ||| s == "now since"@
    ||| s == "now that"@
    ||| s == "now when"@
    ||| s == "once"@
    ||| s == "provided"@
    ||| s == "provided that"@
    ||| s == "rather than"@
    ||| s == "since"@
    ||| s == "so that"@
    ||| s == "supposing"@
    ||| s == "than"@
    ||| s == "that"@
    ||| s == "though"@
    ||| s == "til"@
    ||| s == "unless"@
    ||| s == "until"@
    ||| s == "when"@
    ||| s == "whenever"@
    ||| s == "where"@
    ||| s == "whereas"@
    ||| s == "where if"@
    ||| s == "wherever"@
    ||| s == "whether"@
    ||| s == "which"@
    ||| s == "while"@
    ||| s == "who"@
    ||| s == "whoever"@
    ||| s == "why"@
}

pub fn is_conjunction(w: &str) -> (r: bool)
    ensures
        r == is_conjunction_spec(w@),
{
    str_equal(w, "and") || str_equal(w, "but") || str_equal(w, "or") || str_equal(w, "nor")
        || str_equal(w, "for") || str_equal(w, "yet") || str_equal(w, "so") || str_equal(w, "after")
        || str_equal(w, "although") || str_equal(w, "as") || str_equal(w, "as if") || str_equal(
        w,
        "as long as",
    ) || str_equal(w, "as much as") || str_equal(w, "as soon as") || str_equal(w, "as though")
        || str_equal(w, "because") || str_equal(w, "before") || str_equal(w, "even ") || str_equal(
        w,
        "even if",
    ) || str_equal(w, "even though") || str_equal(w, "if") || str_equal(w, "if only") || str_equal(
        w,
        "if when",
    ) || str_equal(w, "if then") || str_equal(w, "inasmuch") || str_equal(w, "in order that")
        || str_equal(w, "just as") || str_equal(w, "lest") || str_equal(w, "now") || str_equal(
        w,
        "now since",
    ) || str_equal(w, "now that") || str_equal(w, "now when") || str_equal(w, "once") || str_equal(
        w,
        "provided",
    ) || str_equal(w, "provided that") || str_equal(w, "rather than") || str_equal(w, "since")
        || str_equal(w, "so that") || str_equal(w, "supposing") || str_equal(w, "than")
        || str_equal(w, "that") || str_equal(w, "though") || str_equal(w, "til") || str_equal(
        w,
        "unless",
    ) || str_equal(w, "until") || str_equal(w, "when") || str_equal(w, "whenever") || str_equal(
        w,
        "where",
    ) || str_equal(w, "whereas") || str_equal(w, "where if") || str_equal(w, "wherever")
        || str_equal(w, "whether") || str_equal(w, "which") || str_equal(w, "while") || str_equal(
        w,
        "who",
    ) || str_equal(w, "whoever") || str_equal(w, "why")
}

/// A single lowercase letter followed by a period: a dropped initial.
pub open spec fn is_initial(s: Seq<char>) -> bool {
    s.len() == 2 && 'a' <= s[0] && s[0] <= 'z' && s[1] == '.'
}

/// The abbreviation table: an exact-match mapping applied after cleaning.
/// Named abbreviations expand to full words, dropped initials map to the
/// empty token, and everything else passes through unchanged.
pub open spec fn replace_word_spec(s: Seq<char>) -> Seq<char> {
    if s == "&c."@ {
        "etc"@
    } else if s == "wm."@ {
        "william"@
    } else if s == "tho."@ {
        "thomas"@
    } else if s == "geo."@ {
        "george"@
    } else if s == "st."@ {
        "saint"@
    } else if s == "vol."@ {
        "volume"@
    } else if s == "capt."@ {
        "captain"@
    } else if s == "mr."@ {
        "mister"@
    } else if s == "mrs."@ {
        "missus"@
    } else if s == "col."@ {
        "colonel"@
    } else if s == "gen."@ {
        "general"@
    } else if s == "mjr."@ {
        "major"@
    } else if s == "lat."@ {
        "latitude"@
    } else if s == "lon."@ {
        "longitude"@
    } else if is_initial(s) {
        Seq::empty()
    } else {
        s
    }
}

pub fn replace_word(w: String) -> (r: String)
    ensures
        r@ == replace_word_spec(w@),
{
    if str_equal(w.as_str(), "&c.") {
        String::from_str("etc")
    } else if str_equal(w.as_str(), "wm.") {
        String::from_str("william")
    } else if str_equal(w.as_str(), "tho.") {
        String::from_str("thomas")
    } else if str_equal(w.as_str(), "geo.") {
        String::from_str("george")
    } else if str_equal(w.as_str(), "st.") {
        String::from_str("saint")
    } else if str_equal(w.as_str(), "vol.") {
        String::from_str("volume")
    } else if str_equal(w.as_str(), "capt.") {
        String::from_str("captain")
    } else if str_equal(w.as_str(), "mr.") {
        String::from_str("mister")
    } else if str_equal(w.as_str(), "mrs.") {
        String::from_str("missus")
    } else if str_equal(w.as_str(), "col.") {
        String::from_str("colonel")
    } else if str_equal(w.as_str(), "gen.") {
        String::from_str("general")
    } else if str_equal(w.as_str(), "mjr.") {
        String::from_str("major")
    } else if str_equal(w.as_str(), "lat.") {
        String::from_str("latitude")
    } else if str_equal(w.as_str(), "lon.") {
        String::from_str("longitude")
    } else if initial_token_str(w.as_str()) {
        String::new()
    } else {
        w
    }
}

fn initial_token_str(w: &str) -> (r: bool)
    ensures
        r == is_initial(w@),
{
    if w.unicode_len() != 2 {
        return false;
    }
    let c0 = w.get_char(0);
    let c1 = w.get_char(1);
    'a' <= c0 && c0 <= 'z' && c1 == '.'
}

/// Whether a token's characters spell the given string.
pub fn token_matches(t: &Vec<char>, s: &str) -> (r: bool)
    ensures
        r == (t@ == s@),
{
    let lit = str_to_chars(s);
    tokens_equal(t, &lit)
}

/// Pronoun membership of a token held as characters.
pub fn is_pronoun_token(t: &Vec<char>) -> (r: bool)
    ensures
        r == is_pronoun_spec(t@),
{
    token_matches(t, "i") || token_matches(t, "you") || token_matches(t, "he") || token_matches(
        t,
        "she",
    ) || token_matches(t, "we") || token_matches(t, "they") || token_matches(t, "it")
        || token_matches(t, "whoever")
}

/// Conjunction membership of a token held as characters.
pub fn is_conjunction_token(t: &Vec<char>) -> (r: bool)
    ensures
        r == is_conjunction_spec(t@),
{
    token_matches(t, "and") || token_matches(t, "but") || token_matches(t, "or") || token_matches(
        t,
        "nor",
    ) || token_matches(t, "for") || token_matches(t, "yet") || token_matches(t, "so")
        || token_matches(t, "after") || token_matches(t, "although") || token_matches(t, "as")
        || token_matches(t, "as if") || token_matches(t, "as long as") || token_matches(
        t,
        "as much as",
    ) || token_matches(t, "as soon as") || token_matches(t, "as though") || token_matches(
        t,
        "because",
    ) || token_matches(t, "before") || token_matches(t, "even ") || token_matches(t, "even if")
        || token_matches(t, "even though") || token_matches(t, "if") || token_matches(t, "if only")
        || token_matches(t, "if when") || token_matches(t, "if then") || token_matches(
        t,
        "inasmuch",
    ) || token_matches(t, "in order that") || token_matches(t, "just as") || token_matches(
        t,
        "lest",
    ) || token_matches(t, "now") || token_matches(t, "now since") || token_matches(t, "now that")
        || token_matches(t, "now when") || token_matches(t, "once") || token_matches(t, "provided")
        || token_matches(t, "provided that") || token_matches(t, "rather than") || token_matches(
        t,
        "since",
    ) || token_matches(t, "so that") || token_matches(t, "supposing") || token_matches(t, "than")
        || token_matches(t, "that") || token_matches(t, "though") || token_matches(t, "til")
        || token_matches(t, "unless") || token_matches(t, "until") || token_matches(t, "when")
        || token_matches(t, "whenever") || token_matches(t, "where") || token_matches(t, "whereas")
        || token_matches(t, "where if") || token_matches(t, "wherever") || token_matches(
        t,
        "whether",
    ) || token_matches(t, "which") || token_matches(t, "while") || token_matches(t, "who")
        || token_matches(t, "whoever") || token_matches(t, "why")
}

/// Abbreviation substitution on a token held as characters.
pub fn replace_token(t: &Vec<char>) -> (r: Vec<char>)
    ensures
        r@ == replace_word_spec(t@),
{
    if token_matches(t, "&c.") {
        str_to_chars("etc")
    } else if token_matches(t, "wm.") {
        str_to_chars("william")
    } else if token_matches(t, "tho.") {
        str_to_chars("thomas")
    } else if token_matches(t, "geo.") {
        str_to_chars("george")
    } else if token_matches(t, "st.") {
        str_to_chars("saint")
    } else if token_matches(t, "vol.") {
        str_to_chars("volume")
    } else if token_matches(t, "capt.") {
        str_to_chars("captain")
    } else if token_matches(t, "mr.") {
        str_to_chars("mister")
    } else if token_matches(t, "mrs.") {
        str_to_chars("missus")
    } else if token_matches(t, "col.") {
        str_to_chars("colonel")
    } else if token_matches(t, "gen.") {
        str_to_chars("general")
    } else if token_matches(t, "mjr.") {
        str_to_chars("major")
    } else if token_matches(t, "lat.") {
        str_to_chars("latitude")
    } else if token_matches(t, "lon.") {
        str_to_chars("longitude")
    } else if initial_token(t) {
        Vec::new()
    } else {
        let mut out: Vec<char> = Vec::new();
        let mut i: usize = 0;
        while i < t.len()
            invariant
                i <= t.len(),
                out@ == t@.take(i as int),
            decreases t.len() - i,
        {
            out.push(t[i]);
            i = i + 1;
            proof {
                assert(t@.take(i as int) =~= t@.take(i - 1).push(t@[i - 1]));
            }
        }
        proof {
            assert(t@.take(t@.len() as int) =~= t@);
        }
        out
    }
}

fn initial_token(t: &Vec<char>) -> (r: bool)
    ensures
        r == is_initial(t@),
{
    t.len() == 2 && 'a' <= t[0] && t[0] <= 'z' && t[1] == '.'
}

/// Abbreviation substitution is idempotent: no output of the table matches a
/// table key again, so re-applying the substitution to its own result is a
/// no-op.
pub proof fn lemma_replace_word_idempotent(s: Seq<char>)
    ensures
        replace_word_spec(replace_word_spec(s)) == replace_word_spec(s),
{
    reveal_strlit("&c.");
    reveal_strlit("wm.");
    reveal_strlit("tho.");
    reveal_strlit("geo.");
    reveal_strlit("st.");
    reveal_strlit("vol.");
    reveal_strlit("capt.");
    reveal_strlit("mr.");
    reveal_strlit("mrs.");
    reveal_strlit("col.");
    reveal_strlit("gen.");
    reveal_strlit("mjr.");
    reveal_strlit("lat.");
    reveal_strlit("lon.");
    reveal_strlit("etc");
    reveal_strlit("william");
    reveal_strlit("thomas");
    reveal_strlit("george");
    reveal_strlit("saint");
    reveal_strlit("volume");
    reveal_strlit("captain");
    reveal_strlit("mister");
    reveal_strlit("missus");
    reveal_strlit("colonel");
    reveal_strlit("general");
    reveal_strlit("major");
    reveal_strlit("latitude");
    reveal_strlit("longitude");
    let r = replace_word_spec(s);
    if s == "&c."@ {
        assert(r == "etc"@);
        assert("etc"@[0] == 'e' && "wm."@[0] == 'w' && "st."@[0] == 's' && "mr."@[0] == 'm');
        assert(replace_word_spec(r) == r);
    } else if s == "wm."@ {
        assert(replace_word_spec(r) == r);
    } else if s == "tho."@ {
        assert(replace_word_spec(r) == r);
    } else if s == "geo."@ {
        assert(replace_word_spec(r) == r);
    } else if s == "st."@ {
        assert(r == "saint"@);
        assert("saint"@[0] == 's' && "capt."@[0] == 'c');
        assert(replace_word_spec(r) == r);
    } else if s == "vol."@ {
        assert(replace_word_spec(r) == r);
    } else if s == "capt."@ {
        assert(replace_word_spec(r) == r);
    } else if s == "mr."@ {
        assert(replace_word_spec(r) == r);
    } else if s == "mrs."@ {
        assert(replace_word_spec(r) == r);
    } else if s == "col."@ {
        assert(replace_word_spec(r) == r);
    } else if s == "gen."@ {
        assert(replace_word_spec(r) == r);
    } else if s == "mjr."@ {
        assert(r == "major"@);
        assert("major"@[0] == 'm' && "capt."@[0] == 'c');
        assert(replace_word_spec(r) == r);
    } else if s == "lat."@ {
        assert(replace_word_spec(r) == r);
    } else if s == "lon."@ {
        assert(replace_word_spec(r) == r);
    } else if is_initial(s) {
        assert(r == Seq::<char>::empty());
        assert(r.len() == 0);
        assert(replace_word_spec(r) == r);
    } else {
        assert(r == s);
    }
}

} // verus!
