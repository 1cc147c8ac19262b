//! A summariser for whole texts: the text is stripped of everything but
//! letters, digits and white space, cut into words at spaces, and the
//! words are ordered by how often they occur and then by the words
//! themselves.

use vstd::prelude::*;
use vstd::string::{StringExecFns, StringSliceAdditionalSpecFns};
use vstd::utf8::encode_utf8;
use crate::engine::extractor::tokens::{
    count_word, entries_view, is_kept, join_words, record, words_of,
};
use crate::text::{alphanumeric, lowercase_of, strings_view, whitespace};

verus! {

/// How many words a summary of this kind holds unless told otherwise.
pub const DEFAULT_DISTRIBUTION_MAX_WORDS: usize = 200;

/// The shortest word that is counted unless told otherwise, in bytes.
pub const DEFAULT_MIN_WORD_LENGTH: usize = 3;

/// The characters of `text` that are alphanumeric or white space, in
/// order.
pub open spec fn letters_and_spaces(text: Seq<char>) -> Seq<char>
    decreases text.len(),
{
    if text.len() == 0 {
        Seq::empty()
    } else if alphanumeric(text.last()) || whitespace(text.last()) {
        letters_and_spaces(text.drop_last()).push(text.last())
    } else {
        letters_and_spaces(text.drop_last())
    }
}

/// The normal form of a text: its letters, digits and white space, in
/// lowercase.
pub open spec fn normalized(text: Seq<char>) -> Seq<char> {
    lowercase_of(letters_and_spaces(text))
}

/// The word that `text` ends with: what follows its last space, without
/// line feeds and carriage returns.
pub open spec fn open_word(text: Seq<char>) -> Seq<char>
    decreases text.len(),
{
    if text.len() == 0 {
        Seq::empty()
    } else if text.last() == ' ' {
        Seq::empty()
    } else if text.last() == '\n' || text.last() == '\r' {
        open_word(text.drop_last())
    } else {
        open_word(text.drop_last()).push(text.last())
    }
}

/// The kept words of `text` that a space has closed, in order.
pub open spec fn closed_words(text: Seq<char>, min_length: usize) -> Seq<Seq<char>>
    decreases text.len(),
{
    if text.len() == 0 {
        Seq::empty()
    } else if text.last() == ' ' {
        let before = closed_words(text.drop_last(), min_length);
        let word = open_word(text.drop_last());
        if is_kept(word, min_length) {
            before.push(word)
        } else {
            before
        }
    } else {
        closed_words(text.drop_last(), min_length)
    }
}

/// The words of a text: the text is cut at every space, line feeds and
/// carriage returns are taken out of the pieces, and the pieces with at
/// least `min_length` bytes are kept, in order.
pub open spec fn words_in(text: Seq<char>, min_length: usize) -> Seq<Seq<char>> {
    let closed = closed_words(text, min_length);
    let word = open_word(text);
    if is_kept(word, min_length) {
        closed.push(word)
    } else {
        closed
    }
}

/// The entries after each of `words` is counted as it stands, in order.
pub open spec fn tally(entries: Seq<(Seq<char>, usize)>, words: Seq<Seq<char>>) -> Seq<
    (Seq<char>, usize),
>
    decreases words.len(),
{
    if words.len() == 0 {
        entries
    } else {
        record(tally(entries, words.drop_last()), words.last())
    }
}

/// The order of texts by their bytes: at the first byte in which they
/// differ the smaller byte decides, and a text comes before every longer
/// text that starts with it.
pub open spec fn bytes_before(a: Seq<u8>, b: Seq<u8>) -> bool
    decreases a.len(),
{
    if b.len() == 0 {
        false
    } else if a.len() == 0 {
        true
    } else if a[0] != b[0] {
        a[0] < b[0]
    } else {
        bytes_before(a.drop_first(), b.drop_first())
    }
}

/// Whether the entry `a` goes before the entry `b`: it has the higher
/// count, or the same count and the word that comes first by its bytes.
pub open spec fn goes_before(a: (Seq<char>, usize), b: (Seq<char>, usize)) -> bool {
    a.1 > b.1 || (a.1 == b.1 && bytes_before(encode_utf8(a.0), encode_utf8(b.0)))
}

/// Where an entry goes in an arrangement: just behind the last entry that
/// it does not go before.
pub open spec fn slot_for(arrangement: Seq<(Seq<char>, usize)>, entry: (Seq<char>, usize)) -> int
    decreases arrangement.len(),
{
    if arrangement.len() == 0 {
        0
    } else if goes_before(entry, arrangement.last()) {
        slot_for(arrangement.drop_last(), entry)
    } else {
        arrangement.len() as int
    }
}

/// The entries arranged by descending count, and among entries with the
/// same count by their words.
pub open spec fn arranged(entries: Seq<(Seq<char>, usize)>) -> Seq<(Seq<char>, usize)>
    decreases entries.len(),
{
    if entries.len() == 0 {
        Seq::empty()
    } else {
        let front = arranged(entries.drop_last());
        front.insert(slot_for(front, entries.last()), entries.last())
    }
}

/// No entry stands behind one that it goes before.
pub open spec fn in_order(arrangement: Seq<(Seq<char>, usize)>) -> bool {
    forall|i: int, j: int|
        0 <= i < j < arrangement.len() ==> !goes_before(
            #[trigger] arrangement[j],
            #[trigger] arrangement[i],
        )
}

/// The most frequent words of a text, at most `max_words` of them: the
/// words of its normal form, each once, by descending count and then by
/// the words themselves.
pub open spec fn frequent_words(text: Seq<char>, min_length: usize, max_words: usize) -> Seq<
    Seq<char>,
> {
    let all = words_of(arranged(tally(Seq::empty(), words_in(normalized(text), min_length))));
    if max_words < all.len() {
        all.take(max_words as int)
    } else {
        all
    }
}

/// No text comes before itself.
pub proof fn lemma_bytes_before_irreflexive(a: Seq<u8>)
    ensures
        !bytes_before(a, a),
    decreases a.len(),
{
    if a.len() > 0 {
        lemma_bytes_before_irreflexive(a.drop_first());
    }
}

/// Of two different texts one comes before the other.
pub proof fn lemma_bytes_before_total(a: Seq<u8>, b: Seq<u8>)
    ensures
        a == b || bytes_before(a, b) || bytes_before(b, a),
    decreases a.len(),
{
    if a.len() > 0 && b.len() > 0 && a[0] == b[0] {
        lemma_bytes_before_total(a.drop_first(), b.drop_first());
        if a.drop_first() == b.drop_first() {
            assert(a =~= seq![a[0]] + a.drop_first());
            assert(b =~= seq![b[0]] + b.drop_first());
        }
    } else if a.len() == 0 && b.len() == 0 {
        assert(a =~= b);
    }
}

/// What comes before a text comes before everything that the text comes
/// before.
pub proof fn lemma_bytes_before_transitive(a: Seq<u8>, b: Seq<u8>, c: Seq<u8>)
    requires
        bytes_before(a, b),
        bytes_before(b, c),
    ensures
        bytes_before(a, c),
    decreases a.len(),
{
    if a.len() > 0 && b.len() > 0 && c.len() > 0 && a[0] == b[0] && b[0] == c[0] {
        lemma_bytes_before_transitive(a.drop_first(), b.drop_first(), c.drop_first());
    }
}

/// An entry that goes before another goes before a third, or the third
/// goes before the other.
pub proof fn lemma_goes_before_splits(
    a: (Seq<char>, usize),
    b: (Seq<char>, usize),
    c: (Seq<char>, usize),
)
    requires
        goes_before(a, b),
    ensures
        goes_before(a, c) || goes_before(c, b),
{
    let x = encode_utf8(a.0);
    let y = encode_utf8(b.0);
    let z = encode_utf8(c.0);
    if a.1 == b.1 && b.1 == c.1 {
        lemma_bytes_before_total(x, z);
        if x == z {
        } else if bytes_before(z, x) {
            lemma_bytes_before_transitive(z, x, y);
        }
    }
}

/// No entry goes before an entry that goes before it.
pub proof fn lemma_goes_before_one_way(a: (Seq<char>, usize), b: (Seq<char>, usize))
    requires
        goes_before(a, b),
    ensures
        !goes_before(b, a),
{
    let x = encode_utf8(a.0);
    let y = encode_utf8(b.0);
    if a.1 == b.1 && bytes_before(y, x) {
        lemma_bytes_before_transitive(x, y, x);
        lemma_bytes_before_irreflexive(x);
    }
}

/// The slot of an entry lies within the arrangement or just behind it;
/// the entry goes before everything from the slot on, and not before what
/// stands just before the slot.
pub proof fn lemma_slot_for(arrangement: Seq<(Seq<char>, usize)>, entry: (Seq<char>, usize))
    ensures
        0 <= slot_for(arrangement, entry) <= arrangement.len(),
        slot_for(arrangement, entry) > 0 ==> !goes_before(
            entry,
            arrangement[slot_for(arrangement, entry) - 1],
        ),
        forall|k: int|
            slot_for(arrangement, entry) <= k < arrangement.len() ==> goes_before(
                entry,
                #[trigger] arrangement[k],
            ),
    decreases arrangement.len(),
{
    if arrangement.len() > 0 && goes_before(entry, arrangement.last()) {
        let front = arrangement.drop_last();
        lemma_slot_for(front, entry);
        let p = slot_for(arrangement, entry);
        assert forall|k: int| p <= k < arrangement.len() implies goes_before(
            entry,
            #[trigger] arrangement[k],
        ) by {
            if k < front.len() {
                assert(front[k] == arrangement[k]);
            }
        }
        if p > 0 {
            assert(front[p - 1] == arrangement[p - 1]);
        }
    }
}

/// A position from which on the entry goes before everything, and before
/// which stands an entry that it does not go before, is the slot of the
/// entry.
pub proof fn lemma_slot_for_unique(
    arrangement: Seq<(Seq<char>, usize)>,
    entry: (Seq<char>, usize),
    p: int,
)
    requires
        0 <= p <= arrangement.len(),
        p > 0 ==> !goes_before(entry, arrangement[p - 1]),
        forall|k: int| p <= k < arrangement.len() ==> goes_before(entry, #[trigger] arrangement[k]),
    ensures
        slot_for(arrangement, entry) == p,
    decreases arrangement.len(),
{
    if arrangement.len() > 0 {
        if goes_before(entry, arrangement.last()) {
            let front = arrangement.drop_last();
            assert(p < arrangement.len());
            assert forall|k: int| p <= k < front.len() implies goes_before(
                entry,
                #[trigger] front[k],
            ) by {
                assert(front[k] == arrangement[k]);
            }
            if p > 0 {
                assert(front[p - 1] == arrangement[p - 1]);
            }
            lemma_slot_for_unique(front, entry, p);
        } else {
            if p < arrangement.len() {
                assert(goes_before(entry, arrangement[arrangement.len() - 1]));
            }
        }
    }
}

/// An arrangement is in order.
pub proof fn lemma_arranged_in_order(entries: Seq<(Seq<char>, usize)>)
    ensures
        in_order(arranged(entries)),
        arranged(entries).len() == entries.len(),
    decreases entries.len(),
{
    if entries.len() > 0 {
        let front = arranged(entries.drop_last());
        let entry = entries.last();
        lemma_arranged_in_order(entries.drop_last());
        lemma_slot_for(front, entry);
        let p = slot_for(front, entry);
        let arrangement = front.insert(p, entry);
        assert forall|i: int, j: int| 0 <= i < j < arrangement.len() implies !goes_before(
            #[trigger] arrangement[j],
            #[trigger] arrangement[i],
        ) by {
            if j < p {
                assert(arrangement[i] == front[i] && arrangement[j] == front[j]);
            } else if j == p {
                assert(arrangement[i] == front[i]);
                if goes_before(entry, front[i]) {
                    lemma_goes_before_splits(entry, front[i], front[p - 1]);
                    if i < p - 1 {
                        assert(!goes_before(front[p - 1], front[i]));
                    }
                }
            } else if i < p {
                assert(arrangement[i] == front[i] && arrangement[j] == front[j - 1]);
            } else if i == p {
                assert(arrangement[j] == front[j - 1]);
                lemma_goes_before_one_way(entry, front[j - 1]);
            } else {
                assert(arrangement[i] == front[i - 1] && arrangement[j] == front[j - 1]);
            }
        }
    }
}

/// An arrangement holds exactly the entries it was made from, each as
/// often.
pub proof fn lemma_arranged_is_permutation(entries: Seq<(Seq<char>, usize)>)
    ensures
        arranged(entries).to_multiset() == entries.to_multiset(),
    decreases entries.len(),
{
    broadcast use vstd::seq_lib::group_to_multiset_ensures;

    if entries.len() == 0 {
        assert(arranged(entries) =~= entries);
    } else {
        let rest = entries.drop_last();
        let entry = entries.last();
        lemma_arranged_is_permutation(rest);
        let front = arranged(rest);
        lemma_slot_for(front, entry);
        let p = slot_for(front, entry);
        let longer = front.insert(p, entry);
        assert(longer[p] == entry);
        assert(longer.remove(p) =~= front);
        assert(longer.to_multiset().remove(entry) == front.to_multiset());
        assert(longer.contains(entry));
        assert(longer.to_multiset().count(entry) > 0);
        assert(longer.to_multiset() =~= front.to_multiset().insert(entry));
        assert(rest.push(entry) =~= entries);
    }
}

/// The text without everything but its letters, digits and white space,
/// in lowercase.
pub fn text_normalize(text: &str) -> (normal: String)
    ensures
        normal@ == normalized(text@),
{
    let mut kept = String::new();
    for c in it: text.chars()
        invariant
            it.seq() == text@,
            kept@ == letters_and_spaces(text@.take(it.index() as int)),
    {
        let ghost after = text@.take(it.index() + 1);
        assert(after.drop_last() =~= text@.take(it.index() as int));
        assert(after.last() == c);
        if c.is_alphanumeric() || c.is_whitespace() {
            kept.push(c);
        }
    }
    assert(text@.take(text@.len() as int) =~= text@);
    kept.as_str().to_lowercase()
}

/// The words of `text`, in order.
pub fn split_words(text: &str, min_length: usize) -> (words: Vec<String>)
    ensures
        strings_view(words@) == words_in(text@, min_length),
{
    let mut words: Vec<String> = Vec::new();
    let mut word = String::new();
    assert(strings_view(words@) =~= closed_words(Seq::<char>::empty(), min_length));
    for c in it: text.chars()
        invariant
            it.seq() == text@,
            word@ == open_word(text@.take(it.index() as int)),
            strings_view(words@) == closed_words(text@.take(it.index() as int), min_length),
    {
        let ghost after = text@.take(it.index() + 1);
        assert(after.drop_last() =~= text@.take(it.index() as int));
        assert(after.last() == c);
        if c == ' ' {
            if word.as_str().len() >= min_length {
                let ghost before = words@;
                words.push(word);
                assert(strings_view(words@) =~= strings_view(before).push(word@));
            }
            word = String::new();
        } else if c == '\n' || c == '\r' {
        } else {
            word.push(c);
        }
    }
    assert(text@.take(text@.len() as int) =~= text@);
    if word.as_str().len() >= min_length {
        let ghost before = words@;
        words.push(word);
        assert(strings_view(words@) =~= strings_view(before).push(word@));
    }
    words
}

/// Whether the bytes `a` come before the bytes `b`.
pub fn bytes_less(a: &[u8], b: &[u8]) -> (less: bool)
    ensures
        less == bytes_before(a@, b@),
{
    let mut i: usize = 0;
    assert(a@.skip(0) =~= a@ && b@.skip(0) =~= b@);
    while i < a.len() && i < b.len()
        invariant
            i <= a.len(),
            i <= b.len(),
            bytes_before(a@, b@) == bytes_before(a@.skip(i as int), b@.skip(i as int)),
        decreases a.len() - i,
    {
        assert(a@.skip(i as int)[0] == a@[i as int]);
        assert(b@.skip(i as int)[0] == b@[i as int]);
        if a[i] != b[i] {
            return a[i] < b[i];
        }
        assert(a@.skip(i as int).drop_first() =~= a@.skip(i + 1));
        assert(b@.skip(i as int).drop_first() =~= b@.skip(i + 1));
        i = i + 1;
    }
    i < b.len()
}

/// Whether the entry `a` goes before the entry `b`.
fn entry_goes_before(a: &(String, usize), b: &(String, usize)) -> (before: bool)
    ensures
        before == goes_before((a.0@, a.1), (b.0@, b.1)),
{
    if a.1 != b.1 {
        a.1 > b.1
    } else {
        bytes_less(a.0.as_str().as_bytes(), b.0.as_str().as_bytes())
    }
}

/// The entries arranged by descending count and then by word.
pub fn arrange(entries: &Vec<(String, usize)>) -> (arrangement: Vec<(String, usize)>)
    ensures
        entries_view(arrangement@) == arranged(entries_view(entries@)),
{
    let mut arrangement: Vec<(String, usize)> = Vec::new();
    let mut i: usize = 0;
    let ghost all = entries_view(entries@);
    assert(entries_view(arrangement@) =~= arranged(all.take(0)));
    while i < entries.len()
        invariant
            i <= entries.len(),
            all == entries_view(entries@),
            entries_view(arrangement@) == arranged(all.take(i as int)),
        decreases entries.len() - i,
    {
        let mut p: usize = arrangement.len();
        while p > 0 && entry_goes_before(&entries[i], &arrangement[p - 1])
            invariant
                p <= arrangement.len(),
                i < entries.len(),
                all == entries_view(entries@),
                forall|k: int|
                    p <= k < arrangement.len() ==> goes_before(
                        all[i as int],
                        #[trigger] entries_view(arrangement@)[k],
                    ),
            decreases p,
        {
            p = p - 1;
        }
        proof {
            if p > 0 {
                assert(entries_view(arrangement@)[p - 1] == (
                    arrangement@[p - 1].0@,
                    arrangement@[p - 1].1,
                ));
            }
            lemma_slot_for_unique(entries_view(arrangement@), all[i as int], p as int);
            assert(all.take(i + 1).drop_last() =~= all.take(i as int));
            assert(all.take(i + 1).last() == all[i as int]);
        }
        let ghost before = entries_view(arrangement@);
        let word = entries[i].0.clone();
        let count = entries[i].1;
        arrangement.insert(p, (word, count));
        assert(entries_view(arrangement@) =~= before.insert(p as int, all[i as int]));
        i = i + 1;
    }
    assert(all.take(entries.len() as int) =~= all);
    arrangement
}

/// The most frequent words of `text`, at most `max_words` of them, each
/// at least `min_word_length` bytes long.
pub fn text_extract_distribution(text: String, min_word_length: usize, max_words: usize) -> (words:
    Vec<String>)
    ensures
        strings_view(words@) == frequent_words(text@, min_word_length, max_words),
{
    let normal = text_normalize(text.as_str());
    let found = split_words(normal.as_str(), min_word_length);
    let mut entries: Vec<(String, usize)> = Vec::new();
    let ghost all = strings_view(found@);
    assert(entries_view(entries@) =~= tally(Seq::empty(), all.take(0)));
    let mut i: usize = 0;
    while i < found.len()
        invariant
            i <= found.len(),
            all == strings_view(found@),
            entries_view(entries@) == tally(Seq::empty(), all.take(i as int)),
        decreases found.len() - i,
    {
        assert(all.take(i + 1).drop_last() =~= all.take(i as int));
        assert(all.take(i + 1).last() == found@[i as int]@);
        count_word(&mut entries, found[i].clone());
        i = i + 1;
    }
    assert(all.take(found.len() as int) =~= all);
    let mut arrangement = arrange(&entries);
    if max_words < arrangement.len() {
        arrangement.truncate(max_words);
    }
    let mut words: Vec<String> = Vec::new();
    let mut k: usize = 0;
    while k < arrangement.len()
        invariant
            k <= arrangement.len(),
            words.len() == k,
            forall|m: int| 0 <= m < k ==> (#[trigger] words[m])@ == arrangement[m].0@,
        decreases arrangement.len() - k,
    {
        words.push(arrangement[k].0.clone());
        k = k + 1;
    }
    assert(strings_view(words@) =~= words_of(entries_view(arrangement@)));
    assert(strings_view(words@) =~= frequent_words(text@, min_word_length, max_words));
    words
}

/// The most frequent words of `text`, joined by single spaces.
pub fn build_text_content(text: String, min_word_length: usize, max_words: usize) -> (content:
    String)
    ensures
        content@ == join_words(frequent_words(text@, min_word_length, max_words)),
{
    let words = text_extract_distribution(text, min_word_length, max_words);
    let mut content = String::new();
    let ghost all = strings_view(words@);
    let mut i: usize = 0;
    assert(all.take(0) =~= Seq::<Seq<char>>::empty());
    while i < words.len()
        invariant
            i <= words.len(),
            all == strings_view(words@),
            content@ == join_words(all.take(i as int)),
        decreases words.len() - i,
    {
        assert(all.take(i + 1).drop_last() =~= all.take(i as int));
        assert(all.take(i + 1).last() == words@[i as int]@);
        if i > 0 {
            content.push(' ');
        }
        content.append(words[i].as_str());
        proof {
            if i == 0 {
                assert(all.take(1)[0] == words@[0]@);
                assert(content@ =~= words@[0]@);
            } else {
                assert(content@ =~= join_words(all.take(i as int)) + seq![' '] + words@[i as int]@);
            }
        }
        i = i + 1;
    }
    assert(all.take(words.len() as int) =~= all);
    content
}

} // verus!
