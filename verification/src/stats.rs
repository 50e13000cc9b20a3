//! The distribution builder: reduces a raw accumulation to scalar corpus
//! metrics (total, unique, hapax and dis legomena counts) and four fixed-size
//! clamped histograms of bucket counts. The normalized distribution divides
//! each bucket by its denominator (`total_sentences` or `unique_words`); that
//! division is left to the display edge, guarded so that a zero denominator
//! yields an all-zero distribution, and the laws proved here give the integer
//! facts behind it: each histogram's buckets sum to its denominator.

use vstd::prelude::*;
use crate::corpus::CorpusData;
use crate::corpus::corpus_data_matches;
use crate::corpus::lemma_scan_shape;
use crate::corpus::usize_views;
use vstd::pervasive::VecAdditionalExecFns;

verus! {

/// Sum of a sequence of integers.
pub open spec fn seq_sum(s: Seq<int>) -> int
    decreases s.len(),
{
    if s.len() == 0 {
        0
    } else {
        seq_sum(s.drop_last()) + s.last()
    }
}

/// An `n`-bucket histogram of `s` under bucket assignment `f`; an element
/// whose bucket falls outside `[0, n)` is skipped.
pub open spec fn hist_of(s: Seq<int>, f: spec_fn(int) -> int, n: nat) -> Seq<int>
    decreases s.len(),
{
    if s.len() == 0 {
        Seq::new(n, |i: int| 0int)
    } else {
        let h = hist_of(s.drop_last(), f, n);
        let b = f(s.last());
        if 0 <= b < n {
            h.update(b, h[b] + 1)
        } else {
            h
        }
    }
}

/// How many elements of `s` land in some bucket of `[0, n)` under `f`.
pub open spec fn binned_count(s: Seq<int>, f: spec_fn(int) -> int, n: nat) -> int
    decreases s.len(),
{
    if s.len() == 0 {
        0
    } else {
        binned_count(s.drop_last(), f, n) + if 0 <= f(s.last()) < n {
            1int
        } else {
            0int
        }
    }
}

/// Sentence-length bucket: bucket `i` covers lengths `3i+1 ..= 3i+3`, lengths
/// above 108 clamp into bucket 35, and a zero-length entry is skipped.
pub open spec fn sentence_bucket(l: int) -> int {
    if l > 108 {
        35
    } else if l > 0 {
        (l - 1) / 3
    } else {
        -1
    }
}

/// Word-length bucket: bucket `i` holds words of `i+1` characters, lengths
/// above 26 clamp into bucket 25, and the empty word is skipped.
pub open spec fn word_bucket(l: int) -> int {
    if l > 26 {
        25
    } else if l > 0 {
        l - 1
    } else {
        -1
    }
}

/// Per-sentence occurrence bucket: counts of 19 or more clamp into bucket 19.
pub open spec fn count_bucket(l: int) -> int {
    if l > 19 {
        19
    } else {
        l
    }
}

pub open spec fn sentence_bucket_f() -> spec_fn(int) -> int {
    |l: int| sentence_bucket(l)
}

pub open spec fn word_bucket_f() -> spec_fn(int) -> int {
    |l: int| word_bucket(l)
}

pub open spec fn count_bucket_f() -> spec_fn(int) -> int {
    |l: int| count_bucket(l)
}

pub fn sentence_length_bucket(l: usize) -> (r: usize)
    requires
        l >= 1,
    ensures
        r as int == sentence_bucket(l as int),
        r < 36,
{
    if l > 108 {
        35
    } else {
        (l - 1) / 3
    }
}

pub fn word_length_bucket(l: usize) -> (r: usize)
    requires
        l >= 1,
    ensures
        r as int == word_bucket(l as int),
        r < 26,
{
    if l > 26 {
        25
    } else {
        l - 1
    }
}

pub fn count_bucket_index(l: usize) -> (r: usize)
    ensures
        r as int == count_bucket(l as int),
        r < 20,
{
    if l > 19 {
        19
    } else {
        l
    }
}

/// Scalar word statistics, as folds over the frequency table's entries;
/// empty words are excluded from every count.
pub open spec fn uniq_count(fr: Seq<(Seq<char>, int)>) -> int
    decreases fr.len(),
{
    if fr.len() == 0 {
        0
    } else {
        uniq_count(fr.drop_last()) + if fr.last().0.len() > 0 {
            1int
        } else {
            0int
        }
    }
}

pub open spec fn hapax_count(fr: Seq<(Seq<char>, int)>) -> int
    decreases fr.len(),
{
    if fr.len() == 0 {
        0
    } else {
        hapax_count(fr.drop_last()) + if fr.last().0.len() > 0 && fr.last().1 == 1 {
            1int
        } else {
            0int
        }
    }
}

pub open spec fn dis_count(fr: Seq<(Seq<char>, int)>) -> int
    decreases fr.len(),
{
    if fr.len() == 0 {
        0
    } else {
        dis_count(fr.drop_last()) + if fr.last().0.len() > 0 && fr.last().1 == 2 {
            1int
        } else {
            0int
        }
    }
}

pub open spec fn word_total(fr: Seq<(Seq<char>, int)>) -> int
    decreases fr.len(),
{
    if fr.len() == 0 {
        0
    } else {
        word_total(fr.drop_last()) + if fr.last().0.len() > 0 {
            fr.last().1
        } else {
            0int
        }
    }
}

/// The key lengths of the frequency table's entries, in order.
pub open spec fn word_lengths(fr: Seq<(Seq<char>, int)>) -> Seq<int> {
    fr.map_values(|p: (Seq<char>, int)| p.0.len() as int)
}

/// The derived summary of one document: scalar metrics and the four clamped
/// histograms, all as exact counts.
pub struct CorpusStats {
    pub name: String,
    pub total_sentences: usize,
    pub total_commas: usize,
    pub total_words: usize,
    pub hapax_legomena: usize,
    pub dis_legomena: usize,
    pub unique_words: usize,
    pub sentence_length_hist: Vec<usize>,
    pub word_length_hist: Vec<usize>,
    pub pronouns_hist: Vec<usize>,
    pub conjunctions_hist: Vec<usize>,
    pub class: u8,
}

/// What `statistics` promises of its result, relative to the raw data.
pub open spec fn stats_match(r: CorpusStats, d: CorpusData) -> bool {
    &&& r.name == d.name
    &&& r.class == d.class
    &&& r.total_sentences == d.total_sentences
    &&& r.total_commas == d.total_commas
    &&& r.total_words as int == word_total(d.word_frequencies@)
    &&& r.unique_words as int == uniq_count(d.word_frequencies@)
    &&& r.hapax_legomena as int == hapax_count(d.word_frequencies@)
    &&& r.dis_legomena as int == dis_count(d.word_frequencies@)
    &&& usize_views(r.word_length_hist@) == hist_of(
        word_lengths(d.word_frequencies@),
        word_bucket_f(),
        26,
    )
    &&& usize_views(r.sentence_length_hist@) == hist_of(
        usize_views(d.words_per_sentence@),
        sentence_bucket_f(),
        36,
    )
    &&& usize_views(r.pronouns_hist@) == hist_of(
        usize_views(d.pronouns_per_sentence@),
        count_bucket_f(),
        20,
    )
    &&& usize_views(r.conjunctions_hist@) == hist_of(
        usize_views(d.conjunctions_per_sentence@),
        count_bucket_f(),
        20,
    )
}

proof fn lemma_hist_bounds(s: Seq<int>, f: spec_fn(int) -> int, n: nat)
    ensures
        hist_of(s, f, n).len() == n,
        forall|b: int| 0 <= b < n ==> 0 <= #[trigger] hist_of(s, f, n)[b] <= s.len(),
    decreases s.len(),
{
    if s.len() > 0 {
        lemma_hist_bounds(s.drop_last(), f, n);
    }
}

proof fn lemma_sum_update(h: Seq<int>, b: int, v: int)
    requires
        0 <= b < h.len(),
    ensures
        seq_sum(h.update(b, v)) == seq_sum(h) - h[b] + v,
    decreases h.len(),
{
    if b == h.len() - 1 {
        assert(h.update(b, v).drop_last() =~= h.drop_last());
    } else {
        assert(h.update(b, v).drop_last() =~= h.drop_last().update(b, v));
        lemma_sum_update(h.drop_last(), b, v);
    }
}

/// Each element lands in at most one bucket, so the buckets of a histogram
/// sum to the number of binned elements.
pub proof fn lemma_hist_sum(s: Seq<int>, f: spec_fn(int) -> int, n: nat)
    ensures
        seq_sum(hist_of(s, f, n)) == binned_count(s, f, n),
    decreases s.len(),
{
    if s.len() == 0 {
        lemma_zero_sum(n);
    } else {
        lemma_hist_sum(s.drop_last(), f, n);
        lemma_hist_bounds(s.drop_last(), f, n);
        let h = hist_of(s.drop_last(), f, n);
        let b = f(s.last());
        if 0 <= b < n {
            lemma_sum_update(h, b, h[b] + 1);
        }
    }
}

proof fn lemma_zero_sum(n: nat)
    ensures
        seq_sum(Seq::new(n, |i: int| 0int)) == 0,
    decreases n,
{
    if n > 0 {
        assert(Seq::new(n, |i: int| 0int).drop_last() =~= Seq::new((n - 1) as nat, |i: int| 0int));
        lemma_zero_sum((n - 1) as nat);
    }
}

/// When every element is binned, the histogram accounts for all of them.
pub proof fn lemma_binned_all(s: Seq<int>, f: spec_fn(int) -> int, n: nat)
    requires
        forall|k: int| 0 <= k < s.len() ==> 0 <= #[trigger] f(s[k]) < n,
    ensures
        binned_count(s, f, n) == s.len(),
    decreases s.len(),
{
    if s.len() > 0 {
        assert(forall|k: int|
            0 <= k < s.drop_last().len() ==> #[trigger] s.drop_last()[k] == s[k]);
        lemma_binned_all(s.drop_last(), f, n);
    }
}

/// Every per-sentence occurrence count is binned: the pronoun and conjunction
/// histograms sum to the number of sentences.
pub proof fn lemma_count_hist_sum(s: Seq<int>)
    requires
        forall|k: int| 0 <= k < s.len() ==> #[trigger] s[k] >= 0,
    ensures
        seq_sum(hist_of(s, count_bucket_f(), 20)) == s.len(),
{
    lemma_hist_sum(s, count_bucket_f(), 20);
    lemma_binned_all(s, count_bucket_f(), 20);
}

/// Every sentence with at least one word is binned: the sentence-length
/// histogram sums to the number of sentences whenever no sentence is empty.
pub proof fn lemma_sentence_hist_sum(s: Seq<int>)
    requires
        forall|k: int| 0 <= k < s.len() ==> #[trigger] s[k] >= 1,
    ensures
        seq_sum(hist_of(s, sentence_bucket_f(), 36)) == s.len(),
{
    lemma_hist_sum(s, sentence_bucket_f(), 36);
    lemma_binned_all(s, sentence_bucket_f(), 36);
}

/// A frequency-table entry is binned by word length exactly when its key is
/// nonempty: the word-length histogram sums to the unique-word count.
pub proof fn lemma_word_hist_sum(fr: Seq<(Seq<char>, int)>)
    ensures
        seq_sum(hist_of(word_lengths(fr), word_bucket_f(), 26)) == uniq_count(fr),
{
    lemma_hist_sum(word_lengths(fr), word_bucket_f(), 26);
    lemma_word_binned_eq_uniq(fr);
}

proof fn lemma_word_binned_eq_uniq(fr: Seq<(Seq<char>, int)>)
    ensures
        binned_count(word_lengths(fr), word_bucket_f(), 26) == uniq_count(fr),
    decreases fr.len(),
{
    if fr.len() > 0 {
        assert(word_lengths(fr).drop_last() =~= word_lengths(fr.drop_last()));
        lemma_word_binned_eq_uniq(fr.drop_last());
        assert(word_lengths(fr).last() == fr.last().0.len() as int);
    }
}

/// Words occurring exactly once and words occurring exactly twice are
/// disjoint classes of unique words.
pub proof fn lemma_hapax_dis_le_unique(fr: Seq<(Seq<char>, int)>)
    ensures
        hapax_count(fr) + dis_count(fr) <= uniq_count(fr),
    decreases fr.len(),
{
    if fr.len() > 0 {
        lemma_hapax_dis_le_unique(fr.drop_last());
    }
}

proof fn lemma_word_total_prefix(fr: Seq<(Seq<char>, int)>, j: int)
    requires
        0 <= j <= fr.len(),
        forall|k: int| 0 <= k < fr.len() ==> #[trigger] fr[k].1 >= 0,
    ensures
        word_total(fr.take(j)) <= word_total(fr),
    decreases fr.len() - j,
{
    if j == fr.len() {
        assert(fr.take(j) =~= fr);
    } else {
        assert(fr.take(j + 1).drop_last() =~= fr.take(j));
        assert(fr.take(j + 1).last() == fr[j]);
        lemma_word_total_prefix(fr, j + 1);
    }
}

fn build_count_hist(s: &Vec<usize>) -> (h: Vec<usize>)
    ensures
        usize_views(h@) == hist_of(usize_views(s@), count_bucket_f(), 20),
{
    let mut h: Vec<usize> = vec![0; 20];
    proof {
        assert(usize_views(h@) =~= hist_of(usize_views(s@).take(0), count_bucket_f(), 20));
    }
    let mut i: usize = 0;
    while i < s.len()
        invariant
            i <= s.len(),
            h@.len() == 20,
            usize_views(h@) == hist_of(usize_views(s@).take(i as int), count_bucket_f(), 20),
        decreases s.len() - i,
    {
        let b = count_bucket_index(s[i]);
        proof {
            lemma_hist_bounds(usize_views(s@).take(i as int), count_bucket_f(), 20);
            assert(usize_views(h@)[b as int] == h@[b as int] as int);
            assert(h@[b as int] as int <= i as int);
        }
        let cur = h[b];
        h.set(b, cur + 1);
        i = i + 1;
        proof {
            assert(usize_views(s@).take(i as int).drop_last() =~= usize_views(s@).take(i - 1));
            assert(usize_views(s@).take(i as int).last() == s@[i - 1] as int);
            assert(usize_views(h@) =~= hist_of(usize_views(s@).take(i as int), count_bucket_f(), 20));
        }
    }
    proof {
        assert(usize_views(s@).take(s@.len() as int) =~= usize_views(s@));
    }
    h
}

fn build_sentence_hist(s: &Vec<usize>) -> (h: Vec<usize>)
    ensures
        usize_views(h@) == hist_of(usize_views(s@), sentence_bucket_f(), 36),
{
    let mut h: Vec<usize> = vec![0; 36];
    proof {
        assert(usize_views(h@) =~= hist_of(usize_views(s@).take(0), sentence_bucket_f(), 36));
    }
    let mut i: usize = 0;
    while i < s.len()
        invariant
            i <= s.len(),
            h@.len() == 36,
            usize_views(h@) == hist_of(usize_views(s@).take(i as int), sentence_bucket_f(), 36),
        decreases s.len() - i,
    {
        let l = s[i];
        if l >= 1 {
            let b = sentence_length_bucket(l);
            proof {
                lemma_hist_bounds(usize_views(s@).take(i as int), sentence_bucket_f(), 36);
                assert(usize_views(h@)[b as int] == h@[b as int] as int);
                assert(h@[b as int] as int <= i as int);
            }
            let cur = h[b];
            h.set(b, cur + 1);
        }
        i = i + 1;
        proof {
            assert(usize_views(s@).take(i as int).drop_last() =~= usize_views(s@).take(i - 1));
            assert(usize_views(s@).take(i as int).last() == s@[i - 1] as int);
            assert(usize_views(h@) =~= hist_of(
                usize_views(s@).take(i as int),
                sentence_bucket_f(),
                36,
            ));
        }
    }
    proof {
        assert(usize_views(s@).take(s@.len() as int) =~= usize_views(s@));
    }
    h
}

/// Reduce one document's raw accumulation to its summary.
pub fn statistics(data: &CorpusData) -> (r: CorpusStats)
    requires
        word_total(data.word_frequencies@) <= usize::MAX as int,
    ensures
        stats_match(r, *data),
{
    let fr = &data.word_frequencies;
    let ghost frv: Seq<(Seq<char>, int)> = fr@;
    proof {
        fr.lemma_counts_nonneg();
    }
    let mut total_words: usize = 0;
    let mut hapax: usize = 0;
    let mut dis: usize = 0;
    let mut unique: usize = 0;
    let mut whist: Vec<usize> = vec![0; 26];
    proof {
        assert(usize_views(whist@) =~= hist_of(word_lengths(frv.take(0)), word_bucket_f(), 26));
    }
    let n = fr.len();
    let mut j: usize = 0;
    while j < n
        invariant
            j <= n,
            n == frv.len(),
            frv == fr@,
            forall|k: int| 0 <= k < frv.len() ==> #[trigger] frv[k].1 >= 0,
            word_total(frv) <= usize::MAX as int,
            whist@.len() == 26,
            total_words as int == word_total(frv.take(j as int)),
            unique as int == uniq_count(frv.take(j as int)),
            hapax as int == hapax_count(frv.take(j as int)),
            dis as int == dis_count(frv.take(j as int)),
            unique <= j,
            hapax <= j,
            dis <= j,
            usize_views(whist@) == hist_of(word_lengths(frv.take(j as int)), word_bucket_f(), 26),
        decreases n - j,
    {
        let key = fr.key_at(j);
        let klen = key.len();
        let count = fr.count_at(j);
        if klen > 0 {
            let b = word_length_bucket(klen);
            proof {
                lemma_hist_bounds(word_lengths(frv.take(j as int)), word_bucket_f(), 26);
                assert(word_lengths(frv.take(j as int)).len() == j);
                assert(usize_views(whist@)[b as int] == whist@[b as int] as int);
                assert(whist@[b as int] as int <= j as int);
                lemma_word_total_prefix(frv, j + 1);
                assert(frv.take(j as int + 1).drop_last() =~= frv.take(j as int));
                assert(frv.take(j as int + 1).last() == frv[j as int]);
            }
            let cur = whist[b];
            whist.set(b, cur + 1);
            unique = unique + 1;
            total_words = total_words + count;
            if count == 1 {
                hapax = hapax + 1;
            } else if count == 2 {
                dis = dis + 1;
            }
        }
        j = j + 1;
        proof {
            assert(frv.take(j as int).drop_last() =~= frv.take(j - 1));
            assert(frv.take(j as int).last() == frv[j - 1]);
            assert(word_lengths(frv.take(j as int)).drop_last() =~= word_lengths(frv.take(j - 1)));
            assert(word_lengths(frv.take(j as int)).last() == frv[j - 1].0.len() as int);
            assert(usize_views(whist@) =~= hist_of(
                word_lengths(frv.take(j as int)),
                word_bucket_f(),
                26,
            ));
        }
    }
    proof {
        assert(frv.take(frv.len() as int) =~= frv);
    }
    let shist = build_sentence_hist(&data.words_per_sentence);
    let phist = build_count_hist(&data.pronouns_per_sentence);
    let chist = build_count_hist(&data.conjunctions_per_sentence);
    CorpusStats {
        name: data.name.clone(),
        total_sentences: data.total_sentences,
        total_commas: data.total_commas,
        total_words,
        hapax_legomena: hapax,
        dis_legomena: dis,
        unique_words: unique,
        sentence_length_hist: shist,
        word_length_hist: whist,
        pronouns_hist: phist,
        conjunctions_hist: chist,
        class: data.class,
    }
}


proof fn lemma_word_total_update(fr: Seq<(Seq<char>, int)>, i: int, p: (Seq<char>, int))
    requires
        0 <= i < fr.len(),
    ensures
        word_total(fr.update(i, p)) == word_total(fr) - (if fr[i].0.len() > 0 {
            fr[i].1
        } else {
            0int
        }) + (if p.0.len() > 0 {
            p.1
        } else {
            0int
        }),
    decreases fr.len(),
{
    if i == fr.len() - 1 {
        assert(fr.update(i, p).drop_last() =~= fr.drop_last());
    } else {
        assert(fr.update(i, p).drop_last() =~= fr.drop_last().update(i, p));
        lemma_word_total_update(fr.drop_last(), i, p);
    }
}

/// One insert-or-increment raises the summed word count by at most one.
pub proof fn lemma_bump_word_total(fr: Seq<(Seq<char>, int)>, k: Seq<char>)
    ensures
        word_total(crate::corpus::bump_spec(fr, k)) <= word_total(fr) + 1,
{
    crate::corpus::lemma_find_key_range(fr, k);
    let i = crate::corpus::find_key(fr, k);
    if i >= 0 {
        lemma_word_total_update(fr, i, (k, fr[i].1 + 1));
    } else {
        let pushed = fr.push((k, 1));
        assert(pushed.drop_last() =~= fr);
        assert(pushed.last() == (k, 1int));
    }
}

/// A scan inserts one word per token, so the frequency counts of a scanned
/// document sum to at most the token count: the machine-range requirement of
/// `statistics` holds of every document the segmenter produces.
pub proof fn lemma_scan_word_total(toks: Seq<Seq<char>>)
    ensures
        word_total(crate::corpus::scan_spec(toks).freq) <= toks.len(),
    decreases toks.len(),
{
    if toks.len() > 0 {
        lemma_scan_word_total(toks.drop_last());
        let st = crate::corpus::scan_spec(toks.drop_last());
        let stepped = crate::corpus::scan_step(st, toks.last());
        let cleaned = crate::chars::clean_seq(toks.last());
        let decommaed = if cleaned.contains(',') {
            crate::chars::strip_commas(cleaned)
        } else {
            cleaned
        };
        let replaced = crate::nlp::replace_word_spec(decommaed);
        if crate::corpus::has_terminator(replaced) {
            lemma_bump_word_total(st.freq, crate::chars::strip_terminators(replaced));
        } else {
            lemma_bump_word_total(st.freq, replaced);
        }
    }
}

/// The normalization invariant in integer form: for a summary derived from a
/// document scan, each histogram's buckets sum to its normalizing
/// denominator — the sentence histograms to `total_sentences` (each closed
/// sentence holds at least its terminating word) and the word-length
/// histogram to `unique_words` — so each distribution, divided by a nonzero
/// denominator, sums to one. `hapax + dis <= unique` comes with it.
pub proof fn lemma_histograms_sum_to_denominators(
    r: CorpusStats,
    d: CorpusData,
    toks: Seq<Seq<char>>,
)
    requires
        stats_match(r, d),
        corpus_data_matches(d, toks),
    ensures
        seq_sum(usize_views(r.sentence_length_hist@)) == r.total_sentences as int,
        seq_sum(usize_views(r.pronouns_hist@)) == r.total_sentences as int,
        seq_sum(usize_views(r.conjunctions_hist@)) == r.total_sentences as int,
        seq_sum(usize_views(r.word_length_hist@)) == r.unique_words as int,
        r.hapax_legomena as int + r.dis_legomena as int <= r.unique_words as int,
{
    lemma_scan_shape(toks);
    let ws = usize_views(d.words_per_sentence@);
    let ps = usize_views(d.pronouns_per_sentence@);
    let cs = usize_views(d.conjunctions_per_sentence@);
    assert(forall|k: int| 0 <= k < ws.len() ==> #[trigger] ws[k] >= 1);
    assert forall|k: int| 0 <= k < ps.len() implies #[trigger] ps[k] >= 0 by {
        assert(ps[k] == d.pronouns_per_sentence@[k] as int);
    }
    assert forall|k: int| 0 <= k < cs.len() implies #[trigger] cs[k] >= 0 by {
        assert(cs[k] == d.conjunctions_per_sentence@[k] as int);
    }
    lemma_sentence_hist_sum(ws);
    lemma_count_hist_sum(ps);
    lemma_count_hist_sum(cs);
    lemma_word_hist_sum(d.word_frequencies@);
    lemma_hapax_dis_le_unique(d.word_frequencies@);
}

} // verus!
