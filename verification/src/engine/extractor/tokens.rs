//! The keyword summariser: splits text into tokens, counts them, and
//! exports the most frequent ones.

use vstd::prelude::*;
use vstd::string::{StringExecFns, StringSliceAdditionalSpecFns};
use vstd::utf8::encode_utf8;
use crate::text::{alphanumeric, lowercase_of, strings_view, to_chars};

verus! {

/// The length of a token as `str::len` reports it: the number of bytes of
/// its UTF-8 encoding.
pub open spec fn byte_len(token: Seq<char>) -> usize {
    encode_utf8(token).len() as usize
}

/// A token is kept when it has at least `min_length` bytes.
pub open spec fn is_kept(token: Seq<char>, min_length: usize) -> bool {
    byte_len(token) >= min_length
}

/// The run that `text` ends with: the characters behind its last
/// separator. `marks` says of each character whether it belongs to a run;
/// the others are separators. Empty where `text` is empty or ends with a
/// separator.
pub open spec fn open_run(text: Seq<char>, marks: Seq<bool>) -> Seq<char>
    recommends
        marks.len() == text.len(),
    decreases text.len(),
{
    if text.len() == 0 {
        Seq::empty()
    } else if marks.last() {
        open_run(text.drop_last(), marks.drop_last()).push(text.last())
    } else {
        Seq::empty()
    }
}

/// The kept runs of `text` that a separator has closed, in order. A run is
/// a piece of the text between two neighbouring separators (or between the
/// start of the text and its first separator).
pub open spec fn closed_runs(text: Seq<char>, marks: Seq<bool>, min_length: usize) -> Seq<
    Seq<char>,
>
    recommends
        marks.len() == text.len(),
    decreases text.len(),
{
    if text.len() == 0 {
        Seq::empty()
    } else if marks.last() {
        closed_runs(text.drop_last(), marks.drop_last(), min_length)
    } else {
        let before = closed_runs(text.drop_last(), marks.drop_last(), min_length);
        let run = open_run(text.drop_last(), marks.drop_last());
        if is_kept(run, min_length) {
            before.push(run)
        } else {
            before
        }
    }
}

/// The kept pieces of a text that is cut at every separator, in order.
pub open spec fn cut_runs(text: Seq<char>, marks: Seq<bool>, min_length: usize) -> Seq<Seq<char>>
    recommends
        marks.len() == text.len(),
{
    let closed = closed_runs(text, marks, min_length);
    let run = open_run(text, marks);
    if is_kept(run, min_length) {
        closed.push(run)
    } else {
        closed
    }
}

/// Of each character of `text`, whether it is alphanumeric.
pub open spec fn alphanumeric_marks(text: Seq<char>) -> Seq<bool> {
    Seq::new(text.len(), |i: int| alphanumeric(text[i]))
}

/// The tokens of a line: the line is cut at every character that is not
/// alphanumeric, and the pieces with at least `min_length` bytes are kept,
/// in order.
pub open spec fn tokens_of(line: Seq<char>, min_length: usize) -> Seq<Seq<char>> {
    cut_runs(line, alphanumeric_marks(line), min_length)
}

/// The count after one more occurrence. A count that has reached
/// `usize::MAX` stays there.
pub open spec fn bump(count: usize) -> usize {
    if count < usize::MAX {
        (count + 1) as usize
    } else {
        count
    }
}

/// The first position of `entries` that holds `word`, or the length of
/// `entries` where none does.
pub open spec fn position_of(entries: Seq<(Seq<char>, usize)>, word: Seq<char>) -> int
    decreases entries.len(),
{
    if entries.len() == 0 {
        0
    } else if entries[0].0 == word {
        0
    } else {
        1 + position_of(entries.drop_first(), word)
    }
}

/// The entries after one occurrence of `word` is counted: the count of its
/// entry goes up by one, or, where it has none yet, a new entry with count
/// one is added at the end.
pub open spec fn record(entries: Seq<(Seq<char>, usize)>, word: Seq<char>) -> Seq<
    (Seq<char>, usize),
> {
    let i = position_of(entries, word);
    if i < entries.len() {
        entries.update(i, (word, bump(entries[i].1)))
    } else {
        entries.push((word, 1usize))
    }
}

/// The entries after each of `words` is counted in lowercase, in order.
pub open spec fn record_words(entries: Seq<(Seq<char>, usize)>, words: Seq<Seq<char>>) -> Seq<
    (Seq<char>, usize),
>
    decreases words.len(),
{
    if words.len() == 0 {
        entries
    } else {
        record(record_words(entries, words.drop_last()), lowercase_of(words.last()))
    }
}

/// The entries after the tokens of each of `lines` are counted, in order.
pub open spec fn record_lines(
    entries: Seq<(Seq<char>, usize)>,
    lines: Seq<Seq<char>>,
    min_length: usize,
) -> Seq<(Seq<char>, usize)>
    decreases lines.len(),
{
    if lines.len() == 0 {
        entries
    } else {
        record_words(
            record_lines(entries, lines.drop_last(), min_length),
            tokens_of(lines.last(), min_length),
        )
    }
}

/// `word` is the lowercase form of some text.
pub open spec fn is_lowercased(word: Seq<char>) -> bool {
    exists|source: Seq<char>| word == lowercase_of(source)
}

/// No two entries hold the same word, every word is the lowercase form of
/// a token, and every count is at least one.
pub open spec fn well_formed(entries: Seq<(Seq<char>, usize)>) -> bool {
    &&& forall|i: int, j: int|
        0 <= i < j < entries.len() ==> (#[trigger] entries[i]).0 != (#[trigger] entries[j]).0
    &&& forall|i: int| 0 <= i < entries.len() ==> is_lowercased((#[trigger] entries[i]).0)
    &&& forall|i: int| 0 <= i < entries.len() ==> (#[trigger] entries[i]).1 >= 1
}

/// The first position that holds `word` is the one before which no entry
/// holds it.
pub proof fn lemma_position_of(entries: Seq<(Seq<char>, usize)>, word: Seq<char>, i: int)
    requires
        0 <= i <= entries.len(),
        forall|k: int| 0 <= k < i ==> entries[k].0 != word,
        i < entries.len() ==> entries[i].0 == word,
    ensures
        position_of(entries, word) == i,
    decreases i,
{
    if i > 0 {
        let rest = entries.drop_first();
        assert forall|k: int| 0 <= k < i - 1 implies rest[k].0 != word by {
            assert(rest[k] == entries[k + 1]);
        }
        lemma_position_of(rest, word, i - 1);
    }
}

/// The position of a word lies within the entries or just behind them; an
/// entry at that position holds the word, and no entry before it does.
pub proof fn lemma_position_of_bounds(entries: Seq<(Seq<char>, usize)>, word: Seq<char>)
    ensures
        0 <= position_of(entries, word) <= entries.len(),
        position_of(entries, word) < entries.len() ==> entries[position_of(entries, word)].0
            == word,
        forall|k: int| 0 <= k < position_of(entries, word) ==> entries[k].0 != word,
    decreases entries.len(),
{
    if entries.len() > 0 && entries[0].0 != word {
        let rest = entries.drop_first();
        lemma_position_of_bounds(rest, word);
        assert forall|k: int| 0 <= k < position_of(entries, word) implies entries[k].0
            != word by {
            if k > 0 {
                assert(rest[k - 1] == entries[k]);
            }
        }
    }
}

/// Counting the lowercase form of a word keeps the entries well formed.
pub proof fn lemma_record_well_formed(entries: Seq<(Seq<char>, usize)>, source: Seq<char>)
    requires
        well_formed(entries),
    ensures
        well_formed(record(entries, lowercase_of(source))),
{
    let word = lowercase_of(source);
    let after = record(entries, word);
    lemma_position_of_bounds(entries, word);
    assert(is_lowercased(word));
    let p = position_of(entries, word);
    assert forall|i: int, j: int| 0 <= i < j < after.len() implies (#[trigger] after[i]).0 != (
    #[trigger] after[j]).0 by {
        if p < entries.len() {
            assert(after[i].0 == entries[i].0);
            assert(after[j].0 == entries[j].0);
        } else if j < entries.len() {
            assert(after[i] == entries[i]);
            assert(after[j] == entries[j]);
        } else {
            assert(after[i] == entries[i]);
        }
    }
    assert forall|i: int| 0 <= i < after.len() implies is_lowercased((#[trigger] after[i]).0) by {
        if i < entries.len() {
            assert(after[i].0 == entries[i].0);
        }
    }
    assert forall|i: int| 0 <= i < after.len() implies (#[trigger] after[i]).1 >= 1 by {
        if i < entries.len() && i != p {
            assert(after[i] == entries[i]);
        }
    }
}

/// Counting words keeps the entries well formed.
pub proof fn lemma_record_words_well_formed(
    entries: Seq<(Seq<char>, usize)>,
    words: Seq<Seq<char>>,
)
    requires
        well_formed(entries),
    ensures
        well_formed(record_words(entries, words)),
    decreases words.len(),
{
    if words.len() > 0 {
        lemma_record_words_well_formed(entries, words.drop_last());
        lemma_record_well_formed(record_words(entries, words.drop_last()), words.last());
    }
}

/// Counting the tokens of lines keeps the entries well formed.
pub proof fn lemma_record_lines_well_formed(
    entries: Seq<(Seq<char>, usize)>,
    lines: Seq<Seq<char>>,
    min_length: usize,
)
    requires
        well_formed(entries),
    ensures
        well_formed(record_lines(entries, lines, min_length)),
    decreases lines.len(),
{
    if lines.len() > 0 {
        lemma_record_lines_well_formed(entries, lines.drop_last(), min_length);
        lemma_record_words_well_formed(
            record_lines(entries, lines.drop_last(), min_length),
            tokens_of(lines.last(), min_length),
        );
    }
}

/// Where a new entry with count `count` goes in a ranking: just behind the
/// last entry whose count is at least `count`.
pub open spec fn insertion_point(ranking: Seq<(Seq<char>, usize)>, count: usize) -> int
    decreases ranking.len(),
{
    if ranking.len() == 0 {
        0
    } else if ranking.last().1 >= count {
        ranking.len() as int
    } else {
        insertion_point(ranking.drop_last(), count)
    }
}

/// The entries in rank order: by descending count, and among entries with
/// the same count, the one seen first comes first.
pub open spec fn ranked(entries: Seq<(Seq<char>, usize)>) -> Seq<(Seq<char>, usize)>
    decreases entries.len(),
{
    if entries.len() == 0 {
        Seq::empty()
    } else {
        let front = ranked(entries.drop_last());
        front.insert(insertion_point(front, entries.last().1), entries.last())
    }
}

/// The first `n` entries in rank order, or all of them where there are
/// fewer.
pub open spec fn top_entries(entries: Seq<(Seq<char>, usize)>, n: usize) -> Seq<
    (Seq<char>, usize),
> {
    let ranking = ranked(entries);
    if n < ranking.len() {
        ranking.take(n as int)
    } else {
        ranking
    }
}

/// The words of a list of entries, in order.
pub open spec fn words_of(entries: Seq<(Seq<char>, usize)>) -> Seq<Seq<char>> {
    Seq::new(entries.len(), |i: int| entries[i].0)
}

/// The words joined by single spaces.
pub open spec fn join_words(words: Seq<Seq<char>>) -> Seq<char>
    decreases words.len(),
{
    if words.len() == 0 {
        Seq::empty()
    } else if words.len() == 1 {
        words[0]
    } else {
        join_words(words.drop_last()) + seq![' '] + words.last()
    }
}

/// The summary of a table: its `n` most frequent words in rank order,
/// joined by single spaces.
pub open spec fn summary(entries: Seq<(Seq<char>, usize)>, n: usize) -> Seq<char> {
    join_words(words_of(top_entries(entries, n)))
}

/// Counts never rise along a ranking.
pub open spec fn descending(ranking: Seq<(Seq<char>, usize)>) -> bool {
    forall|i: int, j: int|
        0 <= i < j < ranking.len() ==> (#[trigger] ranking[i]).1 >= (#[trigger] ranking[j]).1
}

/// The insertion point lies within the ranking or just behind it; the entry
/// before it has at least the given count, and the entries from it on have
/// less.
pub proof fn lemma_insertion_point(ranking: Seq<(Seq<char>, usize)>, count: usize)
    ensures
        0 <= insertion_point(ranking, count) <= ranking.len(),
        insertion_point(ranking, count) > 0 ==> ranking[insertion_point(ranking, count) - 1].1
            >= count,
        forall|k: int|
            insertion_point(ranking, count) <= k < ranking.len() ==> (#[trigger] ranking[k]).1
                < count,
    decreases ranking.len(),
{
    if ranking.len() > 0 && ranking.last().1 < count {
        let front = ranking.drop_last();
        lemma_insertion_point(front, count);
        assert forall|k: int| insertion_point(ranking, count) <= k < ranking.len() implies (
        #[trigger] ranking[k]).1 < count by {
            if k < front.len() {
                assert(front[k] == ranking[k]);
            }
        }
        if insertion_point(ranking, count) > 0 {
            assert(front[insertion_point(ranking, count) - 1] == ranking[insertion_point(
                ranking,
                count,
            ) - 1]);
        }
    }
}

/// A position behind which every count is smaller, and before which the
/// count is at least as large, is the insertion point.
pub proof fn lemma_insertion_point_unique(
    ranking: Seq<(Seq<char>, usize)>,
    count: usize,
    p: int,
)
    requires
        0 <= p <= ranking.len(),
        p > 0 ==> ranking[p - 1].1 >= count,
        forall|k: int| p <= k < ranking.len() ==> (#[trigger] ranking[k]).1 < count,
    ensures
        insertion_point(ranking, count) == p,
    decreases ranking.len(),
{
    if ranking.len() > 0 {
        if ranking.last().1 >= count {
            if p < ranking.len() {
                assert(ranking[ranking.len() - 1].1 < count);
            }
        } else {
            let front = ranking.drop_last();
            assert(p < ranking.len());
            assert forall|k: int| p <= k < front.len() implies (#[trigger] front[k]).1
                < count by {
                assert(front[k] == ranking[k]);
            }
            if p > 0 {
                assert(front[p - 1] == ranking[p - 1]);
            }
            lemma_insertion_point_unique(front, count, p);
        }
    }
}

/// Putting an element into a sequence adds it to the sequence's multiset.
pub proof fn lemma_insert_to_multiset<A>(ranking: Seq<A>, p: int, entry: A)
    requires
        0 <= p <= ranking.len(),
    ensures
        ranking.insert(p, entry).to_multiset() == ranking.to_multiset().insert(entry),
{
    broadcast use vstd::seq_lib::group_to_multiset_ensures;

    let longer = ranking.insert(p, entry);
    assert(longer[p] == entry);
    assert(longer.remove(p) =~= ranking);
    assert(longer.to_multiset().remove(entry) == ranking.to_multiset());
    assert(longer.contains(entry));
    assert(longer.to_multiset().count(entry) > 0);
    assert(longer.to_multiset() =~= ranking.to_multiset().insert(entry));
}

/// A ranking holds exactly the entries it was made from, each as often.
pub proof fn lemma_ranked_is_permutation(entries: Seq<(Seq<char>, usize)>)
    ensures
        ranked(entries).to_multiset() == entries.to_multiset(),
        ranked(entries).len() == entries.len(),
    decreases entries.len(),
{
    broadcast use vstd::seq_lib::group_to_multiset_ensures;

    if entries.len() == 0 {
        assert(ranked(entries) =~= entries);
    } else {
        let front = entries.drop_last();
        lemma_ranked_is_permutation(front);
        lemma_insertion_point(ranked(front), entries.last().1);
        lemma_insert_to_multiset(
            ranked(front),
            insertion_point(ranked(front), entries.last().1),
            entries.last(),
        );
        assert(front.push(entries.last()) =~= entries);
    }
}

/// Counts never rise along a ranking.
pub proof fn lemma_ranked_is_descending(entries: Seq<(Seq<char>, usize)>)
    ensures
        descending(ranked(entries)),
    decreases entries.len(),
{
    if entries.len() > 0 {
        let front = ranked(entries.drop_last());
        let entry = entries.last();
        lemma_ranked_is_descending(entries.drop_last());
        lemma_insertion_point(front, entry.1);
        let p = insertion_point(front, entry.1);
        let ranking = front.insert(p, entry);
        assert forall|i: int, j: int| 0 <= i < j < ranking.len() implies (
        #[trigger] ranking[i]).1 >= (#[trigger] ranking[j]).1 by {
            if j < p {
                assert(ranking[i] == front[i] && ranking[j] == front[j]);
            } else if j == p {
                assert(ranking[i] == front[i]);
                if i < p - 1 {
                    assert(front[i].1 >= front[p - 1].1);
                }
            } else if i < p {
                assert(ranking[i] == front[i] && ranking[j] == front[j - 1]);
            } else if i == p {
                assert(ranking[j] == front[j - 1]);
            } else {
                assert(ranking[i] == front[i - 1] && ranking[j] == front[j - 1]);
            }
        }
    }
}

/// Ranking keeps a table well formed.
pub proof fn lemma_ranked_well_formed(entries: Seq<(Seq<char>, usize)>)
    requires
        well_formed(entries),
    ensures
        well_formed(ranked(entries)),
    decreases entries.len(),
{
    broadcast use vstd::seq_lib::group_to_multiset_ensures;

    if entries.len() > 0 {
        let rest = entries.drop_last();
        let entry = entries.last();
        assert forall|i: int| 0 <= i < rest.len() implies #[trigger] rest[i] == entries[i] by {}
        assert(well_formed(rest));
        lemma_ranked_well_formed(rest);
        lemma_ranked_is_permutation(rest);
        let front = ranked(rest);
        lemma_insertion_point(front, entry.1);
        let p = insertion_point(front, entry.1);
        let ranking = front.insert(p, entry);
        assert forall|k: int| 0 <= k < front.len() implies (#[trigger] front[k]).0
            != entry.0 by {
            assert(front.contains(front[k]));
            assert(rest.to_multiset().count(front[k]) > 0);
            assert(rest.contains(front[k]));
            let m = choose|m: int| 0 <= m < rest.len() && rest[m] == front[k];
            assert(entries[m] == front[k]);
            assert(entries[entries.len() - 1] == entry);
        }
        assert forall|i: int, j: int| 0 <= i < j < ranking.len() implies (
        #[trigger] ranking[i]).0 != (#[trigger] ranking[j]).0 by {
            if j < p {
                assert(ranking[i] == front[i] && ranking[j] == front[j]);
            } else if j == p {
                assert(ranking[i] == front[i]);
            } else if i < p {
                assert(ranking[i] == front[i] && ranking[j] == front[j - 1]);
            } else if i == p {
                assert(ranking[j] == front[j - 1]);
            } else {
                assert(ranking[i] == front[i - 1] && ranking[j] == front[j - 1]);
            }
        }
        assert forall|i: int| 0 <= i < ranking.len() implies is_lowercased(
            (#[trigger] ranking[i]).0,
        ) && ranking[i].1 >= 1 by {
            if i < p {
                assert(ranking[i] == front[i]);
            } else if i > p {
                assert(ranking[i] == front[i - 1]);
            } else {
                assert(entries[entries.len() - 1] == entry);
            }
        }
    }
}

/// The position of a word among the entries stays what it is when an
/// entry is added behind them; a word that is new gets the position of the
/// entry that brings it.
pub proof fn lemma_position_of_push(
    entries: Seq<(Seq<char>, usize)>,
    entry: (Seq<char>, usize),
    word: Seq<char>,
)
    ensures
        position_of(entries, word) < entries.len() ==> position_of(entries.push(entry), word)
            == position_of(entries, word),
        position_of(entries, word) >= entries.len() && entry.0 == word ==> position_of(
            entries.push(entry),
            word,
        ) == entries.len(),
{
    lemma_position_of_bounds(entries, word);
    let p = position_of(entries, word);
    let longer = entries.push(entry);
    if p < entries.len() || entry.0 == word {
        assert forall|k: int| 0 <= k < p implies longer[k].0 != word by {
            assert(longer[k] == entries[k]);
        }
        if p < entries.len() {
            assert(longer[p] == entries[p]);
        }
        lemma_position_of(longer, word, p);
    }
}

/// Among entries with the same count, the one whose word was seen first
/// comes first in the ranking.
pub proof fn lemma_ranked_keeps_order_of_ties(entries: Seq<(Seq<char>, usize)>)
    requires
        well_formed(entries),
    ensures
        forall|i: int, j: int|
            0 <= i < j < ranked(entries).len() && (#[trigger] ranked(entries)[i]).1 == (
            #[trigger] ranked(entries)[j]).1 ==> position_of(entries, ranked(entries)[i].0)
                < position_of(entries, ranked(entries)[j].0),
    decreases entries.len(),
{
    broadcast use vstd::seq_lib::group_to_multiset_ensures;

    if entries.len() > 0 {
        let rest = entries.drop_last();
        let entry = entries.last();
        assert forall|i: int| 0 <= i < rest.len() implies #[trigger] rest[i] == entries[i] by {}
        assert(well_formed(rest));
        assert(rest.push(entry) =~= entries);
        lemma_ranked_keeps_order_of_ties(rest);
        lemma_ranked_is_permutation(rest);
        let front = ranked(rest);
        lemma_insertion_point(front, entry.1);
        let p = insertion_point(front, entry.1);
        let ranking = front.insert(p, entry);
        // Every entry of the front keeps the position it had, which lies
        // before that of the new entry.
        assert forall|k: int| 0 <= k < front.len() implies position_of(
            entries,
            (#[trigger] front[k]).0,
        ) == position_of(rest, front[k].0) && position_of(rest, front[k].0) < rest.len() by {
            assert(front.contains(front[k]));
            assert(rest.to_multiset().count(front[k]) > 0);
            assert(rest.contains(front[k]));
            let m = choose|m: int| 0 <= m < rest.len() && rest[m] == front[k];
            lemma_position_of_bounds(rest, front[k].0);
            if position_of(rest, front[k].0) >= rest.len() {
                assert(rest[m].0 != front[k].0);
            }
            lemma_position_of_push(rest, entry, front[k].0);
        }
        assert(position_of(entries, entry.0) == rest.len()) by {
            lemma_position_of_bounds(rest, entry.0);
            if position_of(rest, entry.0) < rest.len() {
                let q = position_of(rest, entry.0);
                assert(entries[q] == rest[q]);
                assert(entries[entries.len() - 1] == entry);
                assert(entries[q].0 != entries[entries.len() - 1].0);
            }
            lemma_position_of_push(rest, entry, entry.0);
        }
        assert forall|i: int, j: int|
            0 <= i < j < ranking.len() && (#[trigger] ranking[i]).1 == (
            #[trigger] ranking[j]).1 implies position_of(entries, ranking[i].0) < position_of(
            entries,
            ranking[j].0,
        ) by {
            if j < p {
                assert(ranking[i] == front[i] && ranking[j] == front[j]);
            } else if j == p {
                assert(ranking[i] == front[i]);
            } else if i < p {
                assert(ranking[i] == front[i] && ranking[j] == front[j - 1]);
            } else if i == p {
                assert(ranking[j] == front[j - 1]);
                assert(front[j - 1].1 < entry.1);
            } else {
                assert(ranking[i] == front[i - 1] && ranking[j] == front[j - 1]);
            }
        }
    }
}

/// The summary that a text gets holds at most `n` words, no word twice,
/// and every word in lowercase.
pub proof fn lemma_summary_words(lines: Seq<Seq<char>>, min_length: usize, n: usize)
    ensures
        ({
            let words = words_of(top_entries(record_lines(Seq::empty(), lines, min_length), n));
            &&& words.len() <= n
            &&& words.no_duplicates()
            &&& forall|i: int| 0 <= i < words.len() ==> is_lowercased(#[trigger] words[i])
        }),
{
    let entries = record_lines(Seq::empty(), lines, min_length);
    assert(well_formed(Seq::<(Seq<char>, usize)>::empty()));
    lemma_record_lines_well_formed(Seq::empty(), lines, min_length);
    lemma_ranked_well_formed(entries);
    let ranking = ranked(entries);
    let top = top_entries(entries, n);
    let words = words_of(top);
    assert forall|i: int| 0 <= i < top.len() implies #[trigger] top[i] == ranking[i] by {}
    assert forall|i: int, j: int| 0 <= i < words.len() && 0 <= j < words.len() && i != j implies words[i]
        != words[j] by {
        assert(words[i] == ranking[i].0 && words[j] == ranking[j].0);
        if i < j {
            assert(ranking[i].0 != ranking[j].0);
        } else {
            assert(ranking[j].0 != ranking[i].0);
        }
    }
    assert forall|i: int| 0 <= i < words.len() implies is_lowercased(#[trigger] words[i]) by {
        assert(words[i] == ranking[i].0);
    }
}

/// Joining the first `i` of a list of words gives the start of what
/// joining the first `j` gives, for `i` up to `j`.
pub proof fn lemma_join_words_prefix(words: Seq<Seq<char>>, i: int, j: int)
    requires
        0 <= i <= j <= words.len(),
    ensures
        join_words(words.take(i)).is_prefix_of(join_words(words.take(j))),
    decreases j - i,
{
    let shorter = join_words(words.take(i));
    if i == j {
        assert(shorter =~= shorter.subrange(0, shorter.len() as int));
    } else {
        lemma_join_words_prefix(words, i, j - 1);
        let middle = join_words(words.take(j - 1));
        let longer = join_words(words.take(j));
        assert(words.take(j).drop_last() =~= words.take(j - 1));
        if j == 1 {
            assert(middle =~= Seq::<char>::empty());
        }
        assert(middle =~= longer.subrange(0, middle.len() as int));
        assert(shorter =~= longer.subrange(0, shorter.len() as int));
    }
}

/// The summary of the `n` most frequent words is the start of the summary
/// of the `m` most frequent words of the same table, for `n` up to `m`.
pub proof fn lemma_summary_prefix(entries: Seq<(Seq<char>, usize)>, n: usize, m: usize)
    requires
        n <= m,
    ensures
        summary(entries, n).is_prefix_of(summary(entries, m)),
{
    let all = words_of(ranked(entries));
    let i = if n < all.len() {
        n as int
    } else {
        all.len() as int
    };
    let j = if m < all.len() {
        m as int
    } else {
        all.len() as int
    };
    assert(words_of(top_entries(entries, n)) =~= all.take(i));
    assert(words_of(top_entries(entries, m)) =~= all.take(j));
    lemma_join_words_prefix(all, i, j);
}

/// The counts of a list of entries, in order.
pub open spec fn counts_of(entries: Seq<(Seq<char>, usize)>) -> Seq<usize> {
    Seq::new(entries.len(), |i: int| entries[i].1)
}

/// Two lists that hold the same entries, each as often, hold the same
/// counts, each as often.
pub proof fn lemma_counts_of_permutation(
    a: Seq<(Seq<char>, usize)>,
    b: Seq<(Seq<char>, usize)>,
)
    requires
        a.to_multiset() == b.to_multiset(),
    ensures
        counts_of(a).to_multiset() == counts_of(b).to_multiset(),
    decreases a.len(),
{
    broadcast use vstd::seq_lib::group_to_multiset_ensures;

    assert(a.len() == a.to_multiset().len());
    assert(b.len() == b.to_multiset().len());
    if a.len() == 0 {
        assert(counts_of(a) =~= counts_of(b));
    } else {
        let x = a.last();
        let front = a.drop_last();
        assert(front.push(x) =~= a);
        assert(a.contains(x));
        assert(b.to_multiset().count(x) > 0);
        assert(b.contains(x));
        let k = choose|k: int| 0 <= k < b.len() && b[k] == x;
        let rest = b.remove(k);
        assert(rest.to_multiset() =~= front.to_multiset());
        lemma_counts_of_permutation(front, rest);
        assert(counts_of(a) =~= counts_of(front).push(x.1));
        assert(counts_of(b) =~= counts_of(rest).insert(k, x.1));
        lemma_insert_to_multiset(counts_of(rest), k, x.1);
    }
}

/// The counts along a ranking do not depend on the order in which the
/// words were first seen: two tables that hold the same words with the
/// same counts rank them alike, but for the order among words of equal
/// count.
pub proof fn lemma_ranking_counts_ignore_order(
    a: Seq<(Seq<char>, usize)>,
    b: Seq<(Seq<char>, usize)>,
)
    requires
        a.to_multiset() == b.to_multiset(),
    ensures
        counts_of(ranked(a)) == counts_of(ranked(b)),
{
    lemma_ranked_is_permutation(a);
    lemma_ranked_is_permutation(b);
    lemma_ranked_is_descending(a);
    lemma_ranked_is_descending(b);
    lemma_counts_of_permutation(ranked(a), ranked(b));
    let at_least = |x: usize, y: usize| x >= y;
    let first = counts_of(ranked(a));
    let second = counts_of(ranked(b));
    assert(vstd::relations::total_ordering(at_least));
    assert forall|i: int, j: int| 0 <= i < j < first.len() implies #[trigger] at_least(
        first[i],
        first[j],
    ) by {
        assert(ranked(a)[i].1 >= ranked(a)[j].1);
    }
    assert forall|i: int, j: int| 0 <= i < j < second.len() implies #[trigger] at_least(
        second[i],
        second[j],
    ) by {
        assert(ranked(b)[i].1 >= ranked(b)[j].1);
    }
    vstd::seq_lib::lemma_sorted_unique(first, second, at_least);
}

/// The ranked words of a text depend on the text, the minimum token length
/// and `n` alone: two tables made from the same lines export the same words
/// in the same order.
pub proof fn lemma_top_n_repeatable(
    first: Seq<Seq<char>>,
    second: Seq<Seq<char>>,
    min_length: usize,
    n: usize,
)
    requires
        first == second,
    ensures
        top_entries(record_lines(Seq::empty(), first, min_length), n) == top_entries(
            record_lines(Seq::empty(), second, min_length),
            n,
        ),
        summary(record_lines(Seq::empty(), first, min_length), n) == summary(
            record_lines(Seq::empty(), second, min_length),
            n,
        ),
{
}

/// What a list of counted words holds.
pub open spec fn entries_view(entries: Seq<(String, usize)>) -> Seq<(Seq<char>, usize)> {
    Seq::new(entries.len(), |i: int| (entries[i].0@, entries[i].1))
}

/// The kept pieces of a text that is cut at its separators, in order.
/// `marks` says of each character whether it belongs to a piece; the
/// others are separators.
pub fn cut(chars: &Vec<char>, marks: &Vec<bool>, min_length: usize) -> (pieces: Vec<String>)
    requires
        marks.len() == chars.len(),
    ensures
        strings_view(pieces@) == cut_runs(chars@, marks@, min_length),
{
    let mut pieces: Vec<String> = Vec::new();
    let mut run = String::new();
    let mut i: usize = 0;
    assert(strings_view(pieces@) =~= closed_runs(chars@.take(0), marks@.take(0), min_length));
    while i < chars.len()
        invariant
            i <= chars.len(),
            marks.len() == chars.len(),
            run@ == open_run(chars@.take(i as int), marks@.take(i as int)),
            strings_view(pieces@) == closed_runs(
                chars@.take(i as int),
                marks@.take(i as int),
                min_length,
            ),
        decreases chars.len() - i,
    {
        assert(chars@.take(i + 1).drop_last() =~= chars@.take(i as int));
        assert(marks@.take(i + 1).drop_last() =~= marks@.take(i as int));
        assert(chars@.take(i + 1).last() == chars@[i as int]);
        assert(marks@.take(i + 1).last() == marks@[i as int]);
        if marks[i] {
            run.push(chars[i]);
        } else {
            if run.as_str().len() >= min_length {
                let ghost before = pieces@;
                pieces.push(run);
                assert(strings_view(pieces@) =~= strings_view(before).push(run@));
            }
            run = String::new();
        }
        i = i + 1;
    }
    assert(chars@.take(chars.len() as int) =~= chars@);
    assert(marks@.take(marks.len() as int) =~= marks@);
    if run.as_str().len() >= min_length {
        let ghost before = pieces@;
        pieces.push(run);
        assert(strings_view(pieces@) =~= strings_view(before).push(run@));
    }
    pieces
}

/// Counts one occurrence of `word` as it stands.
pub fn count_word(entries: &mut Vec<(String, usize)>, word: String)
    ensures
        entries_view(final(entries)@) == record(entries_view(old(entries)@), word@),
{
    let mut i: usize = 0;
    while i < entries.len()
        invariant
            i <= entries.len(),
            entries@ == old(entries)@,
            forall|k: int| 0 <= k < i ==> entries_view(entries@)[k].0 != word@,
        decreases entries.len() - i,
    {
        if entries[i].0 == word {
            proof {
                lemma_position_of(entries_view(entries@), word@, i as int);
            }
            let count = entries[i].1;
            let next = if count < usize::MAX {
                count + 1
            } else {
                count
            };
            let ghost before = entries_view(entries@);
            assert(before[i as int] == (word@, count));
            assert(next == bump(count));
            entries.set(i, (word, next));
            assert(entries_view(entries@) =~= before.update(i as int, (word@, next)));
            return ;
        }
        i = i + 1;
    }
    proof {
        lemma_position_of(entries_view(entries@), word@, i as int);
    }
    let ghost before = entries_view(entries@);
    entries.push((word, 1));
    assert(entries_view(entries@) =~= before.push((word@, 1usize)));
}

/// A table of lowercase tokens with the number of times each was seen,
/// in the order in which they were first seen.
#[derive(Debug)]
pub struct TextTokensDistribution {
    entries: Vec<(String, usize)>,
}

impl View for TextTokensDistribution {
    type V = Seq<(Seq<char>, usize)>;

    closed spec fn view(&self) -> Seq<(Seq<char>, usize)> {
        entries_view(self.entries@)
    }
}

impl Default for TextTokensDistribution {
    fn default() -> (d: Self)
        ensures
            d@ == Seq::<(Seq<char>, usize)>::empty(),
            well_formed(d@),
    {
        let d = TextTokensDistribution { entries: Vec::new() };
        assert(d@ =~= Seq::<(Seq<char>, usize)>::empty());
        d
    }
}

impl TextTokensDistribution {
    /// The tokens of `line`, in order.
    pub fn get_tokens(line: &str, min_length: usize) -> (tokens: Vec<String>)
        ensures
            strings_view(tokens@) == tokens_of(line@, min_length),
    {
        let chars = to_chars(line);
        let mut marks: Vec<bool> = Vec::new();
        let mut i: usize = 0;
        while i < chars.len()
            invariant
                i <= chars.len(),
                marks.len() == i,
                forall|k: int| 0 <= k < i ==> marks[k] == alphanumeric(chars[k]),
            decreases chars.len() - i,
        {
            marks.push(chars[i].is_alphanumeric());
            i = i + 1;
        }
        assert(marks@ =~= alphanumeric_marks(chars@));
        cut(&chars, &marks, min_length)
    }

    /// Counts one occurrence of `word`, in lowercase. A table that was
    /// well formed stays so.
    pub fn add_word(&mut self, word: &str)
        ensures
            final(self)@ == record(old(self)@, lowercase_of(word@)),
            well_formed(old(self)@) ==> well_formed(final(self)@),
    {
        proof {
            if well_formed(self@) {
                lemma_record_well_formed(self@, word@);
            }
        }
        count_word(&mut self.entries, word.to_lowercase());
    }

    /// The table of the tokens of `lines`, counted line by line. It is
    /// well formed: no word twice, every word in lowercase, every count at
    /// least one.
    pub fn from_buffer(lines: &Vec<String>, min_length: usize) -> (d: Self)
        ensures
            d@ == record_lines(Seq::empty(), strings_view(lines@), min_length),
            well_formed(d@),
    {
        proof {
            assert(well_formed(Seq::<(Seq<char>, usize)>::empty()));
            lemma_record_lines_well_formed(Seq::empty(), strings_view(lines@), min_length);
        }
        let mut d = TextTokensDistribution::default();
        let mut i: usize = 0;
        while i < lines.len()
            invariant
                i <= lines.len(),
                d@ == record_lines(Seq::empty(), strings_view(lines@).take(i as int), min_length),
            decreases lines.len() - i,
        {
            let tokens = Self::get_tokens(lines[i].as_str(), min_length);
            let ghost start = d@;
            let mut j: usize = 0;
            while j < tokens.len()
                invariant
                    j <= tokens.len(),
                    d@ == record_words(start, strings_view(tokens@).take(j as int)),
                decreases tokens.len() - j,
            {
                d.add_word(tokens[j].as_str());
                assert(strings_view(tokens@).take(j + 1).drop_last() =~= strings_view(
                    tokens@,
                ).take(j as int));
                j = j + 1;
            }
            assert(strings_view(tokens@).take(tokens.len() as int) =~= strings_view(tokens@));
            assert(strings_view(lines@).take(i + 1).drop_last() =~= strings_view(lines@).take(
                i as int,
            ));
            i = i + 1;
        }
        assert(strings_view(lines@).take(lines.len() as int) =~= strings_view(lines@));
        d
    }

    /// The `n` most frequent entries in rank order, or all of them where
    /// there are fewer. Of a well formed table they hold no word twice.
    pub fn top_n(&self, n: usize) -> (top: Vec<(String, usize)>)
        ensures
            entries_view(top@) == top_entries(self@, n),
            well_formed(self@) ==> well_formed(entries_view(top@)),
    {
        proof {
            if well_formed(self@) {
                lemma_ranked_well_formed(self@);
                let ranking = ranked(self@);
                let top = top_entries(self@, n);
                assert forall|i: int| 0 <= i < top.len() implies #[trigger] top[i]
                    == ranking[i] by {}
                assert(well_formed(top));
            }
        }
        let mut ranking: Vec<(String, usize)> = Vec::new();
        let mut i: usize = 0;
        assert(entries_view(ranking@) =~= ranked(self@.take(0)));
        while i < self.entries.len()
            invariant
                i <= self.entries.len(),
                entries_view(ranking@) == ranked(self@.take(i as int)),
            decreases self.entries.len() - i,
        {
            let count = self.entries[i].1;
            let mut p: usize = ranking.len();
            while p > 0 && ranking[p - 1].1 < count
                invariant
                    p <= ranking.len(),
                    forall|k: int|
                        p <= k < ranking.len() ==> (#[trigger] entries_view(ranking@)[k]).1
                            < count,
                decreases p,
            {
                p = p - 1;
            }
            proof {
                if p > 0 {
                    assert(entries_view(ranking@)[p - 1].1 == ranking@[p - 1].1);
                }
                lemma_insertion_point_unique(entries_view(ranking@), count, p as int);
                assert(self@.take(i + 1).drop_last() =~= self@.take(i as int));
                assert(self@.take(i + 1).last() == (self.entries@[i as int].0@, count));
            }
            let ghost before = entries_view(ranking@);
            let word = self.entries[i].0.clone();
            ranking.insert(p, (word, count));
            assert(entries_view(ranking@) =~= before.insert(p as int, (word@, count)));
            i = i + 1;
        }
        assert(self@.take(self.entries.len() as int) =~= self@);
        if n < ranking.len() {
            ranking.truncate(n);
            assert(entries_view(ranking@) =~= ranked(self@).take(n as int));
        }
        ranking
    }

    /// The `n` most frequent words in rank order, joined by single spaces.
    pub fn export_string_nth(&self, n: usize) -> (text: String)
        ensures
            text@ == summary(self@, n),
    {
        let top = self.top_n(n);
        let mut text = String::new();
        let mut i: usize = 0;
        assert(words_of(entries_view(top@)).take(0) =~= Seq::<Seq<char>>::empty());
        while i < top.len()
            invariant
                i <= top.len(),
                text@ == join_words(words_of(entries_view(top@)).take(i as int)),
            decreases top.len() - i,
        {
            let ghost words = words_of(entries_view(top@));
            assert(words.take(i + 1).drop_last() =~= words.take(i as int));
            assert(words.take(i + 1).last() == top@[i as int].0@);
            if i > 0 {
                text.push(' ');
            }
            text.append(top[i].0.as_str());
            proof {
                if i == 0 {
                    assert(words.take(1)[0] == top@[0].0@);
                    assert(text@ =~= top@[0].0@);
                } else {
                    assert(text@ =~= join_words(words.take(i as int)) + seq![' '] + top@[i as int].0@);
                }
            }
            i = i + 1;
        }
        assert(words_of(entries_view(top@)).take(top.len() as int) =~= words_of(
            entries_view(top@),
        ));
        text
    }

    /// Every word of the table in rank order, joined by single spaces.
    pub fn export_string(&self) -> (text: String)
        ensures
            text@ == join_words(words_of(ranked(self@))),
    {
        proof {
            lemma_ranked_is_permutation(self@);
        }
        self.export_string_nth(self.entries.len())
    }
}

} // verus!
