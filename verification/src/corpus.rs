//! The sentence segmenter and counter: consumes a document's tokens in order
//! and accumulates per-sentence word, pronoun and conjunction counts, the
//! comma total, and a word-frequency table. The whole scan is specified as a
//! fold of a pure step function over the token sequence.

use vstd::prelude::*;
use crate::chars::clean_seq;
use crate::chars::clean_token;
use crate::chars::contains_char;
use crate::chars::contains_terminator;
use crate::chars::is_space;
use crate::chars::is_terminator;
use crate::chars::lower_seq;
use crate::chars::lower_token;
use crate::chars::space;
use crate::chars::strip_comma_token;
use crate::chars::strip_commas;
use crate::chars::strip_terminator_token;
use crate::chars::strip_terminators;
use crate::chars::tokens_equal;
use crate::nlp::is_conjunction_spec;
use crate::nlp::is_conjunction_token;
use crate::nlp::is_pronoun_spec;
use crate::nlp::is_pronoun_token;
use crate::nlp::replace_token;
use crate::nlp::replace_word_spec;
use vstd::pervasive::VecAdditionalExecFns;

verus! {

/// First index in `fr` whose key is `k`, or `-1` if the key is absent.
pub open spec fn find_key(fr: Seq<(Seq<char>, int)>, k: Seq<char>) -> int
    decreases fr.len(),
{
    if fr.len() == 0 {
        -1
    } else if fr[0].0 == k {
        0
    } else {
        let r = find_key(fr.drop_first(), k);
        if r < 0 {
            -1
        } else {
            r + 1
        }
    }
}

/// Insert-or-increment: bump the count of `k`, or append it with count 1.
pub open spec fn bump_spec(fr: Seq<(Seq<char>, int)>, k: Seq<char>) -> Seq<(Seq<char>, int)> {
    let i = find_key(fr, k);
    if i >= 0 {
        fr.update(i, (k, fr[i].1 + 1))
    } else {
        fr.push((k, 1))
    }
}

/// The word-frequency table: words in first-insertion order, each with its
/// occurrence count. The view is the sequence of (word, count) pairs.
pub struct WordCounts {
    entries: Vec<(Vec<char>, usize)>,
}

impl View for WordCounts {
    type V = Seq<(Seq<char>, int)>;

    closed spec fn view(&self) -> Seq<(Seq<char>, int)> {
        self.entries@.map_values(|p: (Vec<char>, usize)| (p.0@, p.1 as int))
    }
}

proof fn lemma_find_key_at(fr: Seq<(Seq<char>, int)>, k: Seq<char>, j: int)
    requires
        0 <= j < fr.len(),
        fr[j].0 == k,
        forall|jj: int| 0 <= jj < j ==> fr[jj].0 != k,
    ensures
        find_key(fr, k) == j,
    decreases j,
{
    if j == 0 {
    } else {
        assert(fr[0].0 != k);
        lemma_find_key_at(fr.drop_first(), k, j - 1);
    }
}

/// `find_key` yields `-1` or a valid index whose key is `k`.
pub proof fn lemma_find_key_range(fr: Seq<(Seq<char>, int)>, k: Seq<char>)
    ensures
        -1 <= find_key(fr, k) < fr.len(),
        find_key(fr, k) >= 0 ==> fr[find_key(fr, k)].0 == k,
    decreases fr.len(),
{
    if fr.len() > 0 && fr[0].0 != k {
        lemma_find_key_range(fr.drop_first(), k);
    }
}

proof fn lemma_find_key_absent(fr: Seq<(Seq<char>, int)>, k: Seq<char>)
    requires
        forall|jj: int| 0 <= jj < fr.len() ==> fr[jj].0 != k,
    ensures
        find_key(fr, k) == -1,
    decreases fr.len(),
{
    if fr.len() > 0 {
        lemma_find_key_absent(fr.drop_first(), k);
    }
}

impl WordCounts {
    pub fn new() -> (r: WordCounts)
        ensures
            r@ == Seq::<(Seq<char>, int)>::empty(),
    {
        let r = WordCounts { entries: Vec::new() };
        proof {
            assert(r@ =~= Seq::<(Seq<char>, int)>::empty());
        }
        r
    }

    pub fn len(&self) -> (r: usize)
        ensures
            r == self@.len(),
    {
        self.entries.len()
    }

    pub fn key_at(&self, i: usize) -> (r: &Vec<char>)
        requires
            i < self@.len(),
        ensures
            r@ == self@[i as int].0,
    {
        &self.entries[i].0
    }

    pub fn count_at(&self, i: usize) -> (r: usize)
        requires
            i < self@.len(),
        ensures
            r as int == self@[i as int].1,
    {
        self.entries[i].1
    }

    /// The count recorded for `k`: zero if the word was never inserted.
    pub fn count_of(&self, k: &Vec<char>) -> (r: usize)
        ensures
            find_key(self@, k@) >= 0 ==> r as int == self@[find_key(self@, k@)].1,
            find_key(self@, k@) < 0 ==> r == 0,
    {
        let mut j: usize = 0;
        while j < self.entries.len()
            invariant
                j <= self.entries.len(),
                self@.len() == self.entries@.len(),
                forall|jj: int| 0 <= jj < j ==> self@[jj].0 != k@,
            decreases self.entries.len() - j,
        {
            if tokens_equal(&self.entries[j].0, k) {
                proof {
                    lemma_find_key_at(self@, k@, j as int);
                }
                return self.entries[j].1;
            }
            j = j + 1;
        }
        proof {
            lemma_find_key_absent(self@, k@);
        }
        0
    }

    /// Every recorded count is nonnegative.
    pub proof fn lemma_counts_nonneg(&self)
        ensures
            forall|j: int| 0 <= j < self@.len() ==> #[trigger] self@[j].1 >= 0,
    {
        assert forall|j: int| 0 <= j < self@.len() implies #[trigger] self@[j].1 >= 0 by {
            assert(self@[j].1 == self.entries@[j].1 as int);
        }
    }

    /// Insert `k` with count 1, or increment its existing count.
    pub fn bump(&mut self, k: Vec<char>)
        requires
            find_key(old(self)@, k@) >= 0 ==> old(self)@[find_key(old(self)@, k@)].1
                < usize::MAX as int,
        ensures
            final(self)@ == bump_spec(old(self)@, k@),
    {
        let mut j: usize = 0;
        while j < self.entries.len()
            invariant
                j <= self.entries.len(),
                self@.len() == self.entries@.len(),
                *self == *old(self),
                find_key(old(self)@, k@) >= 0 ==> old(self)@[find_key(old(self)@, k@)].1
                    < usize::MAX as int,
                forall|jj: int| 0 <= jj < j ==> self@[jj].0 != k@,
            decreases self.entries.len() - j,
        {
            if tokens_equal(&self.entries[j].0, &k) {
                proof {
                    lemma_find_key_at(self@, k@, j as int);
                }
                let c = self.entries[j].1;
                proof {
                    assert(self@ == old(self)@);
                    assert(find_key(old(self)@, k@) == j as int);
                    assert(self@[j as int].1 == c as int);
                    assert(c < usize::MAX);
                }
                self.entries.set(j, (k, c + 1));
                proof {
                    assert(final(self)@ =~= bump_spec(old(self)@, k@));
                }
                return;
            }
            j = j + 1;
        }
        proof {
            lemma_find_key_absent(self@, k@);
        }
        self.entries.push((k, 1));
        proof {
            assert(final(self)@ =~= bump_spec(old(self)@, k@));
        }
    }
}

/// The scan's accumulator: closed sentences' counters, the comma total, the
/// frequency table, and the running counters of the open sentence.
pub struct Scan {
    pub sent_words: Seq<int>,
    pub sent_prons: Seq<int>,
    pub sent_conjs: Seq<int>,
    pub commas: int,
    pub freq: Seq<(Seq<char>, int)>,
    pub cur_words: int,
    pub cur_prons: int,
    pub cur_conjs: int,
}

pub open spec fn scan_init() -> Scan {
    Scan {
        sent_words: Seq::empty(),
        sent_prons: Seq::empty(),
        sent_conjs: Seq::empty(),
        commas: 0,
        freq: Seq::empty(),
        cur_words: 0,
        cur_prons: 0,
        cur_conjs: 0,
    }
}

pub open spec fn has_terminator(s: Seq<char>) -> bool {
    exists|j: int| 0 <= j < s.len() && is_terminator(s[j])
}

/// One token's effect on the accumulator. The token is cleaned (lowercased,
/// stripped of deleted punctuation), the word counter runs up, a comma is
/// observed and stripped, the abbreviation table is applied, pronoun and
/// conjunction membership is tested on the lowercased token, and a sentence
/// terminator closes the running sentence; the fully stripped word is then
/// counted in the frequency table unconditionally.
pub open spec fn scan_step(st: Scan, tok: Seq<char>) -> Scan {
    let cleaned = clean_seq(tok);
    let words = st.cur_words + 1;
    let commas = if cleaned.contains(',') {
        st.commas + 1
    } else {
        st.commas
    };
    let decommaed = if cleaned.contains(',') {
        strip_commas(cleaned)
    } else {
        cleaned
    };
    let replaced = replace_word_spec(decommaed);
    let low = lower_seq(tok);
    let prons = st.cur_prons + if is_pronoun_spec(low) {
        1int
    } else {
        0int
    };
    let conjs = st.cur_conjs + if is_conjunction_spec(low) {
        1int
    } else {
        0int
    };
    if has_terminator(replaced) {
        Scan {
            sent_words: st.sent_words.push(words),
            sent_prons: st.sent_prons.push(prons),
            sent_conjs: st.sent_conjs.push(conjs),
            commas,
            freq: bump_spec(st.freq, strip_terminators(replaced)),
            cur_words: 0,
            cur_prons: 0,
            cur_conjs: 0,
        }
    } else {
        Scan {
            sent_words: st.sent_words,
            sent_prons: st.sent_prons,
            sent_conjs: st.sent_conjs,
            commas,
            freq: bump_spec(st.freq, replaced),
            cur_words: words,
            cur_prons: prons,
            cur_conjs: conjs,
        }
    }
}

/// The scan of a whole token sequence, token by token from the start. A
/// trailing sentence without a terminator stays in the running counters and
/// is not flushed into the per-sentence sequences.
pub open spec fn scan_spec(toks: Seq<Seq<char>>) -> Scan
    decreases toks.len(),
{
    if toks.len() == 0 {
        scan_init()
    } else {
        scan_step(scan_spec(toks.drop_last()), toks.last())
    }
}

/// Every sentence the scan closes holds at least one word (the terminating
/// token itself), and the three per-sentence sequences stay equally long;
/// all running counters stay nonnegative.
pub proof fn lemma_scan_shape(toks: Seq<Seq<char>>)
    ensures
        scan_spec(toks).sent_prons.len() == scan_spec(toks).sent_words.len(),
        scan_spec(toks).sent_conjs.len() == scan_spec(toks).sent_words.len(),
        forall|k: int|
            0 <= k < scan_spec(toks).sent_words.len() ==> #[trigger] scan_spec(
                toks,
            ).sent_words[k] >= 1,
        forall|k: int|
            0 <= k < scan_spec(toks).sent_prons.len() ==> #[trigger] scan_spec(
                toks,
            ).sent_prons[k] >= 0,
        forall|k: int|
            0 <= k < scan_spec(toks).sent_conjs.len() ==> #[trigger] scan_spec(
                toks,
            ).sent_conjs[k] >= 0,
        scan_spec(toks).cur_words >= 0,
        scan_spec(toks).cur_prons >= 0,
        scan_spec(toks).cur_conjs >= 0,
    decreases toks.len(),
{
    if toks.len() > 0 {
        lemma_scan_shape(toks.drop_last());
    }
}

/// The views of a vector of tokens.
pub open spec fn views_of(toks: Seq<Vec<char>>) -> Seq<Seq<char>> {
    toks.map_values(|t: Vec<char>| t@)
}

/// One document's raw accumulation, as the scan leaves it.
pub struct CorpusData {
    pub name: String,
    pub total_sentences: usize,
    pub total_commas: usize,
    pub words_per_sentence: Vec<usize>,
    pub pronouns_per_sentence: Vec<usize>,
    pub conjunctions_per_sentence: Vec<usize>,
    pub word_frequencies: WordCounts,
    pub class: u8,
}

pub open spec fn usize_views(s: Seq<usize>) -> Seq<int> {
    s.map_values(|x: usize| x as int)
}

/// The accumulation matches the scan of the given token sequence.
pub open spec fn corpus_data_matches(d: CorpusData, toks: Seq<Seq<char>>) -> bool {
    let sc = scan_spec(toks);
    &&& usize_views(d.words_per_sentence@) == sc.sent_words
    &&& usize_views(d.pronouns_per_sentence@) == sc.sent_prons
    &&& usize_views(d.conjunctions_per_sentence@) == sc.sent_conjs
    &&& d.total_sentences as int == sc.sent_words.len()
    &&& d.total_commas as int == sc.commas
    &&& d.word_frequencies@ == sc.freq
}

/// Scan a document given as a sequence of whitespace-delimited tokens.
pub fn accumulate(name: String, class: u8, tokens: &Vec<Vec<char>>) -> (r: CorpusData)
    ensures
        corpus_data_matches(r, views_of(tokens@)),
        r.name == name,
        r.class == class,
{
    let ghost toks: Seq<Seq<char>> = views_of(tokens@);
    let mut total_sentences: usize = 0;
    let mut total_commas: usize = 0;
    let mut count_words: usize = 0;
    let mut count_prons: usize = 0;
    let mut count_conjs: usize = 0;
    let mut words_per_sentence: Vec<usize> = Vec::new();
    let mut pronouns_per_sentence: Vec<usize> = Vec::new();
    let mut conjunctions_per_sentence: Vec<usize> = Vec::new();
    let mut freq: WordCounts = WordCounts::new();
    let mut i: usize = 0;
    while i < tokens.len()
        invariant
            i <= tokens.len(),
            toks == views_of(tokens@),
            toks.len() == tokens@.len(),
            usize_views(words_per_sentence@) == scan_spec(toks.take(i as int)).sent_words,
            usize_views(pronouns_per_sentence@) == scan_spec(toks.take(i as int)).sent_prons,
            usize_views(conjunctions_per_sentence@) == scan_spec(toks.take(i as int)).sent_conjs,
            total_sentences as int == scan_spec(toks.take(i as int)).sent_words.len(),
            total_commas as int == scan_spec(toks.take(i as int)).commas,
            freq@ == scan_spec(toks.take(i as int)).freq,
            count_words as int == scan_spec(toks.take(i as int)).cur_words,
            count_prons as int == scan_spec(toks.take(i as int)).cur_prons,
            count_conjs as int == scan_spec(toks.take(i as int)).cur_conjs,
            total_commas <= i,
            total_sentences <= i,
            count_words <= i,
            count_prons <= i,
            count_conjs <= i,
            forall|jj: int| 0 <= jj < freq@.len() ==> 0 <= #[trigger] freq@[jj].1 <= i as int,
        decreases tokens.len() - i,
    {
        let ghost st0: Scan = scan_spec(toks.take(i as int));
        let tok = &tokens[i];
        proof {
            assert(toks[i as int] == tok@);
        }
        let cleaned = clean_token(tok);
        count_words = count_words + 1;
        let keyword = if contains_char(&cleaned, ',') {
            total_commas = total_commas + 1;
            strip_comma_token(&cleaned)
        } else {
            cleaned
        };
        let keyword = replace_token(&keyword);
        let low = lower_token(tok);
        if is_pronoun_token(&low) {
            count_prons = count_prons + 1;
        }
        if is_conjunction_token(&low) {
            count_conjs = count_conjs + 1;
        }
        let keyword = if contains_terminator(&keyword) {
            let stripped = strip_terminator_token(&keyword);
            total_sentences = total_sentences + 1;
            words_per_sentence.push(count_words);
            pronouns_per_sentence.push(count_prons);
            conjunctions_per_sentence.push(count_conjs);
            count_words = 0;
            count_prons = 0;
            count_conjs = 0;
            stripped
        } else {
            keyword
        };
        proof {
            lemma_find_key_range(freq@, keyword@);
        }
        let ghost f0: Seq<(Seq<char>, int)> = freq@;
        freq.bump(keyword);
        proof {
            lemma_find_key_range(f0, keyword@);
            assert forall|jj: int| 0 <= jj < freq@.len() implies 0 <= #[trigger] freq@[jj].1 <= i
                as int + 1 by {
                let fi = find_key(f0, keyword@);
                if fi >= 0 {
                    assert(freq@ == f0.update(fi, (keyword@, f0[fi].1 + 1)));
                    if jj != fi {
                        assert(freq@[jj] == f0[jj]);
                    }
                } else {
                    assert(freq@ == f0.push((keyword@, 1)));
                    if jj < f0.len() {
                        assert(freq@[jj] == f0[jj]);
                    }
                }
            }
        }
        i = i + 1;
        proof {
            assert(toks.take(i as int).drop_last() =~= toks.take(i - 1));
            assert(toks.take(i as int).last() == tok@);
            assert(scan_spec(toks.take(i as int)) == scan_step(st0, tok@));
            assert(usize_views(words_per_sentence@) == scan_spec(toks.take(i as int)).sent_words);
        }
    }
    proof {
        assert(toks.take(toks.len() as int) =~= toks);
    }
    CorpusData {
        name,
        total_sentences,
        total_commas,
        words_per_sentence,
        pronouns_per_sentence,
        conjunctions_per_sentence,
        word_frequencies: freq,
        class,
    }
}

/// Whitespace splitting of one character sequence, as an accumulator fold:
/// finished tokens so far, and the partial token being read.
pub open spec fn split_acc(s: Seq<char>) -> (Seq<Seq<char>>, Seq<char>)
    decreases s.len(),
{
    if s.len() == 0 {
        (Seq::empty(), Seq::empty())
    } else {
        let acc = split_acc(s.drop_last());
        let c = s.last();
        if is_space(c) {
            if acc.1.len() > 0 {
                (acc.0.push(acc.1), Seq::empty())
            } else {
                acc
            }
        } else {
            (acc.0, acc.1.push(c))
        }
    }
}

/// The whitespace-delimited tokens of one line, in order.
pub open spec fn split_ws(s: Seq<char>) -> Seq<Seq<char>> {
    let acc = split_acc(s);
    if acc.1.len() > 0 {
        acc.0.push(acc.1)
    } else {
        acc.0
    }
}

/// The tokens of a document given line by line; tokens never span lines.
pub open spec fn tokens_of_lines(lines: Seq<Seq<char>>) -> Seq<Seq<char>>
    decreases lines.len(),
{
    if lines.len() == 0 {
        Seq::empty()
    } else {
        tokens_of_lines(lines.drop_last()) + split_ws(lines.last())
    }
}

/// Split one line into whitespace-delimited tokens.
pub fn split_line(line: &str) -> (r: Vec<Vec<char>>)
    ensures
        views_of(r@) == split_ws(line@),
{
    let n = line.unicode_len();
    let mut toks: Vec<Vec<char>> = Vec::new();
    let mut cur: Vec<char> = Vec::new();
    let mut i: usize = 0;
    while i < n
        invariant
            n == line@.len(),
            i <= n,
            views_of(toks@) == split_acc(line@.take(i as int)).0,
            cur@ == split_acc(line@.take(i as int)).1,
        decreases n - i,
    {
        let c = line.get_char(i);
        if space(c) {
            if cur.len() > 0 {
                toks.push(cur);
                cur = Vec::new();
            }
        } else {
            cur.push(c);
        }
        i = i + 1;
        proof {
            assert(line@.take(i as int).drop_last() =~= line@.take(i - 1));
            assert(views_of(toks@) =~= split_acc(line@.take(i as int)).0);
        }
    }
    proof {
        assert(line@.take(n as int) =~= line@);
    }
    if cur.len() > 0 {
        toks.push(cur);
    }
    proof {
        assert(views_of(toks@) =~= split_ws(line@));
    }
    toks
}

/// Split a document's lines into one token sequence.
pub fn split_tokens(lines: &Vec<String>) -> (r: Vec<Vec<char>>)
    ensures
        views_of(r@) == tokens_of_lines(lines@.map_values(|l: String| l@)),
{
    let ghost lviews: Seq<Seq<char>> = lines@.map_values(|l: String| l@);
    let mut toks: Vec<Vec<char>> = Vec::new();
    let mut i: usize = 0;
    while i < lines.len()
        invariant
            i <= lines.len(),
            lviews == lines@.map_values(|l: String| l@),
            lviews.len() == lines@.len(),
            views_of(toks@) == tokens_of_lines(lviews.take(i as int)),
        decreases lines.len() - i,
    {
        let mut line_toks = split_line(lines[i].as_str());
        toks.append(&mut line_toks);
        i = i + 1;
        proof {
            assert(lviews.take(i as int).drop_last() =~= lviews.take(i - 1));
            assert(lviews.take(i as int).last() == lviews[i - 1]);
            assert(views_of(toks@) =~= tokens_of_lines(lviews.take(i as int)));
        }
    }
    proof {
        assert(lviews.take(lviews.len() as int) =~= lviews);
    }
    toks
}

/// Scan a whole document given as raw lines: tokenize, then accumulate.
pub fn scan_document(name: String, class: u8, lines: &Vec<String>) -> (r: CorpusData)
    ensures
        corpus_data_matches(r, tokens_of_lines(lines@.map_values(|l: String| l@))),
        r.name == name,
        r.class == class,
{
    let tokens = split_tokens(lines);
    accumulate(name, class, &tokens)
}

} // verus!
