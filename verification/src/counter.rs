//! Telling apart the files that share a key: each observation of a key gets
//! the next number, and the number decides what is appended to the name.

use vstd::prelude::*;
use vstd::hash_map::StringHashMap;
use crate::text::{
    decimal, digit_char, lemma_decimal_injective, lemma_decimal_leading, lemma_decimal_len,
    lemma_digit_char_injective, push_zero_padded, zero_padded,
};

verus! {

/// How often each key has been observed. A key that has never been observed
/// is not in the map.
pub type Counts = Map<Seq<char>, nat>;

/// The counts before anything has been observed.
pub open spec fn no_counts() -> Counts {
    Map::empty()
}

/// How often `key` has been observed.
pub open spec fn count_of(counts: Counts, key: Seq<char>) -> nat {
    if counts.dom().contains(key) {
        counts[key]
    } else {
        0
    }
}

/// The number that the next observation of `key` gets.
pub open spec fn suffix_after(counts: Counts, key: Seq<char>) -> nat {
    count_of(counts, key) + 1
}

/// The counts after one more observation of `key`.
pub open spec fn observed(counts: Counts, key: Seq<char>) -> Counts {
    counts.insert(key, count_of(counts, key) + 1)
}

/// Counts the observations of each key during one run.
pub struct NameCounter {
    counts: StringHashMap<u64>,
    issued: u64,
}

impl View for NameCounter {
    type V = Counts;

    closed spec fn view(&self) -> Counts {
        Map::new(
            |key: Seq<char>| self.counts@.contains_key(key),
            |key: Seq<char>| self.counts@[key] as nat,
        )
    }
}

impl NameCounter {
    /// How many numbers the counter has handed out in all.
    pub closed spec fn issued(&self) -> nat {
        self.issued as nat
    }

    /// No key has been observed more often than numbers were handed out.
    pub closed spec fn wf(&self) -> bool {
        forall|key: Seq<char>| #[trigger]
            self.counts@.contains_key(key) ==> self.counts@[key] <= self.issued
    }

    /// A counter that has observed nothing.
    pub fn new() -> (counter: NameCounter)
        ensures
            counter.wf(),
            counter@ == no_counts(),
            counter.issued() == 0,
    {
        let counter = NameCounter { counts: StringHashMap::new(), issued: 0 };
        assert(counter@ =~= no_counts());
        counter
    }

    /// How many numbers have been handed out in all.
    pub fn total(&self) -> (n: u64)
        ensures
            n == self.issued(),
    {
        self.issued
    }

    /// How often `key` has been observed.
    pub fn seen(&self, key: &str) -> (n: u64)
        ensures
            n == count_of(self@, key@),
    {
        match self.counts.get(key) {
            Some(count) => *count,
            None => 0,
        }
    }

    /// Observes `key` and hands out its number: 1 at the first observation,
    /// then 2, 3 and so on. The counts of all other keys stay. The exclusive
    /// borrow makes reading, counting and answering one step; callers that
    /// share a counter keep it behind a lock.
    pub fn next_suffix(&mut self, key: &str) -> (suffix: u64)
        requires
            old(self).wf(),
            old(self).issued() < u64::MAX,
        ensures
            final(self).wf(),
            suffix == suffix_after(old(self)@, key@),
            suffix >= 1,
            final(self)@ == observed(old(self)@, key@),
            final(self).issued() == old(self).issued() + 1,
    {
        let before = self.seen(key);
        assert(before <= self.issued) by {
            if self.counts@.contains_key(key@) {
            }
        }
        let suffix = before + 1;
        self.counts.insert(key.to_owned(), suffix);
        self.issued = self.issued + 1;
        assert(self@ =~= observed(old(self)@, key@));
        suffix
    }
}

/// What a number appends to a name: nothing for the first file of a key,
/// else `-` and the number in at least two digits.
pub open spec fn suffix_token(suffix: nat) -> Seq<char> {
    if suffix <= 1 {
        Seq::empty()
    } else {
        seq!['-'] + zero_padded(suffix, 2)
    }
}

/// Appends the token of `suffix` to `out`.
pub fn push_suffix_token(out: &mut Vec<char>, suffix: u64)
    ensures
        final(out)@ == old(out)@ + suffix_token(suffix as nat),
{
    let ghost before = out@;
    if suffix > 1 {
        out.push('-');
        push_zero_padded(out, suffix, 2);
    }
    assert(out@ =~= before + suffix_token(suffix as nat));
}

/// The first file of a key gets no token at all, so never `-01`; the second
/// to the ninety-ninth get `-` and exactly two digits. (From the hundredth
/// on the number needs three digits and more.)
pub proof fn lemma_suffix_token_shape(suffix: nat)
    ensures
        suffix == 1 ==> suffix_token(suffix) == Seq::<char>::empty(),
        2 <= suffix <= 99 ==> suffix_token(suffix) == seq![
            '-',
            digit_char(suffix / 10),
            digit_char(suffix % 10),
        ],
        suffix >= 2 ==> suffix_token(suffix).len() >= 3 && suffix_token(suffix)[0] == '-',
        suffix_token(suffix) != seq!['-', '0', '1'],
{
    lemma_decimal_len(suffix);
    if 2 <= suffix <= 9 {
        assert(decimal(suffix) == seq![digit_char(suffix)]);
        assert(Seq::new(1, |i: int| '0') + decimal(suffix) =~= seq!['0', digit_char(suffix)]);
        assert(digit_char(0) == '0');
        assert(suffix_token(suffix) =~= seq!['-', digit_char(suffix / 10), digit_char(suffix % 10)]);
        assert(suffix_token(suffix)[2] != '1');
    } else if 10 <= suffix <= 99 {
        assert(decimal(suffix / 10) == seq![digit_char(suffix / 10)]);
        assert(suffix_token(suffix) =~= seq!['-', digit_char(suffix / 10), digit_char(suffix % 10)]);
        assert(suffix_token(suffix)[1] != '0');
    } else if suffix >= 100 {
        assert(suffix_token(suffix).len() >= 4);
    } else {
        assert(suffix_token(suffix).len() == 0);
    }
    assert(seq!['-', '0', '1'].len() == 3);
}

/// Different numbers append different tokens, so that two files of one key
/// never get the same name.
pub proof fn lemma_suffix_token_injective(a: nat, b: nat)
    requires
        a >= 1,
        b >= 1,
        suffix_token(a) == suffix_token(b),
    ensures
        a == b,
{
    lemma_decimal_len(a);
    lemma_decimal_len(b);
    if a == 1 || b == 1 {
        if a != b {
            let other = if a == 1 {
                b
            } else {
                a
            };
            assert(suffix_token(other).len() >= 1);
            assert(suffix_token(1).len() == 0);
        }
    } else {
        let pa = zero_padded(a, 2);
        let pb = zero_padded(b, 2);
        assert(suffix_token(a).skip(1) =~= pa);
        assert(suffix_token(b).skip(1) =~= pb);
        let zero = Seq::new(1, |i: int| '0');
        if a < 10 && b < 10 {
            assert(pa[1] == digit_char(a)) by {
                assert(pa == zero + decimal(a));
                assert(decimal(a)[0] == digit_char(a));
            }
            assert(pb[1] == digit_char(b)) by {
                assert(pb == zero + decimal(b));
                assert(decimal(b)[0] == digit_char(b));
            }
            lemma_digit_char_injective(a, b);
        } else if a >= 10 && b >= 10 {
            lemma_decimal_injective(a, b);
        } else if a < 10 {
            assert(pa[0] == '0') by {
                assert(pa == zero + decimal(a));
                assert(zero[0] == '0');
            }
            lemma_decimal_leading(b);
        } else {
            assert(pb[0] == '0') by {
                assert(pb == zero + decimal(b));
                assert(zero[0] == '0');
            }
            lemma_decimal_leading(a);
        }
    }
}

/// The numbers handed out when the keys of `keys` are observed one after
/// another, starting from `counts`.
pub open spec fn suffixes(counts: Counts, keys: Seq<Seq<char>>) -> Seq<nat>
    decreases keys.len(),
{
    if keys.len() == 0 {
        Seq::empty()
    } else {
        seq![suffix_after(counts, keys[0])] + suffixes(observed(counts, keys[0]), keys.skip(1))
    }
}

/// How often `key` stands among the first `upto` of `keys`.
pub open spec fn occurrences(keys: Seq<Seq<char>>, key: Seq<char>, upto: int) -> nat
    decreases upto,
{
    if upto <= 0 {
        0
    } else {
        occurrences(keys, key, upto - 1) + (if upto <= keys.len() && keys[upto - 1] == key {
            1nat
        } else {
            0nat
        })
    }
}

/// Counting over `keys` is counting over its tail, plus one where the head
/// is the key.
proof fn lemma_occurrences_shift(keys: Seq<Seq<char>>, key: Seq<char>, upto: int)
    requires
        0 <= upto < keys.len(),
    ensures
        occurrences(keys, key, upto + 1) == occurrences(keys.skip(1), key, upto) + (if keys[0]
            == key {
            1nat
        } else {
            0nat
        }),
    decreases upto,
{
    if upto > 0 {
        lemma_occurrences_shift(keys, key, upto - 1);
        assert(keys.skip(1)[upto - 1] == keys[upto]);
    } else {
        assert(occurrences(keys, key, 0) == 0);
        assert(occurrences(keys.skip(1), key, 0) == 0);
    }
}

/// Each observation gets one more than its key had before it: the count the
/// run started with and the earlier observations of the same key.
pub proof fn lemma_suffixes(counts: Counts, keys: Seq<Seq<char>>, i: int)
    requires
        0 <= i < keys.len(),
    ensures
        suffixes(counts, keys).len() == keys.len(),
        suffixes(counts, keys)[i] == count_of(counts, keys[i]) + occurrences(keys, keys[i], i)
            + 1,
    decreases keys.len(),
{
    lemma_suffixes_len(counts, keys);
    if i > 0 {
        let next = observed(counts, keys[0]);
        let rest = keys.skip(1);
        assert(rest[i - 1] == keys[i]);
        lemma_suffixes(next, rest, i - 1);
        lemma_occurrences_shift(keys, keys[i], i - 1);
        assert(suffixes(counts, keys)[i] == suffixes(next, rest)[i - 1]);
    } else {
        assert(occurrences(keys, keys[0], 0) == 0);
    }
}

/// A run hands out one number for each key.
proof fn lemma_suffixes_len(counts: Counts, keys: Seq<Seq<char>>)
    ensures
        suffixes(counts, keys).len() == keys.len(),
    decreases keys.len(),
{
    if keys.len() > 0 {
        lemma_suffixes_len(observed(counts, keys[0]), keys.skip(1));
    }
}

/// The count over a longer prefix is no smaller, and greater where an
/// observation of the key lies between the two ends.
proof fn lemma_occurrences_bounds(keys: Seq<Seq<char>>, key: Seq<char>, lo: int, hi: int)
    requires
        0 <= lo <= hi <= keys.len(),
    ensures
        occurrences(keys, key, lo) <= occurrences(keys, key, hi),
        lo < hi && keys[lo] == key ==> occurrences(keys, key, lo) < occurrences(keys, key, hi),
    decreases hi - lo,
{
    if lo < hi {
        lemma_occurrences_bounds(keys, key, lo, hi - 1);
        if lo == hi - 1 {
            assert(occurrences(keys, key, lo) == occurrences(keys, key, hi - 1));
        }
    }
}

/// Among the first `upto` keys, the `n`-th observation of `key` exists for
/// each `n` up to the number of its observations.
proof fn lemma_nth_occurrence(keys: Seq<Seq<char>>, key: Seq<char>, upto: int, n: nat) -> (i: int)
    requires
        0 <= upto <= keys.len(),
        1 <= n <= occurrences(keys, key, upto),
    ensures
        0 <= i < upto,
        keys[i] == key,
        occurrences(keys, key, i) + 1 == n,
    decreases upto,
{
    if upto <= 0 {
        0
    } else if keys[upto - 1] == key && occurrences(keys, key, upto - 1) + 1 == n {
        upto - 1
    } else {
        lemma_nth_occurrence(keys, key, upto - 1, n)
    }
}

/// Whether a run over `keys` that starts with a fresh counter hands the
/// number `n` to an observation of `key`.
pub open spec fn handed_out(keys: Seq<Seq<char>>, key: Seq<char>, n: nat) -> bool {
    exists|i: int|
        0 <= i < keys.len() && keys[i] == key && #[trigger] suffixes(no_counts(), keys)[i] == n
}

/// In a run that starts with a fresh counter, in whatever order the files
/// come, the `count` files that share `key` get the numbers 1 to `count`:
/// each of them a number in that range, no two the same number, and each
/// number of the range goes to one of them.
pub proof fn lemma_suffixes_one_to_n(keys: Seq<Seq<char>>, key: Seq<char>)
    ensures
        suffixes(no_counts(), keys).len() == keys.len(),
        forall|i: int|
            0 <= i < keys.len() && keys[i] == key ==> 1 <= #[trigger] suffixes(no_counts(), keys)[i]
                <= occurrences(keys, key, keys.len() as int),
        forall|i: int, j: int|
            0 <= i < j < keys.len() && keys[i] == key && keys[j] == key ==> #[trigger] suffixes(
                no_counts(),
                keys,
            )[i] != #[trigger] suffixes(no_counts(), keys)[j],
        forall|n: nat|
            1 <= n <= occurrences(keys, key, keys.len() as int) ==> #[trigger] handed_out(
                keys,
                key,
                n,
            ),
{
    let all = suffixes(no_counts(), keys);
    let count = occurrences(keys, key, keys.len() as int);
    lemma_suffixes_len(no_counts(), keys);
    assert forall|i: int| 0 <= i < keys.len() && keys[i] == key implies 1 <= #[trigger] all[i]
        <= count by {
        lemma_suffixes(no_counts(), keys, i);
        lemma_occurrences_bounds(keys, key, i, keys.len() as int);
    }
    assert forall|i: int, j: int|
        0 <= i < j < keys.len() && keys[i] == key && keys[j] == key implies #[trigger] all[i]
        != #[trigger] all[j] by {
        lemma_suffixes(no_counts(), keys, i);
        lemma_suffixes(no_counts(), keys, j);
        lemma_occurrences_bounds(keys, key, i, j);
    }
    assert forall|n: nat| 1 <= n <= count implies #[trigger] handed_out(keys, key, n) by {
        let i = lemma_nth_occurrence(keys, key, keys.len() as int, n);
        lemma_suffixes(no_counts(), keys, i);
        assert(all[i] == n);
    }
}

} // verus!
