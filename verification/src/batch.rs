//! Collapsing many per-key reads into one: the requested keys lose their
//! repetitions, and the rows that one query returned are handed back out
//! to the keys they carry.

use vstd::prelude::*;

verus! {

/// The texts of a list of keys.
pub open spec fn texts(keys: Seq<String>) -> Seq<Seq<char>> {
    keys.map_values(|k: String| k@)
}

/// The keys in the order in which each first occurs.
pub open spec fn first_occurrences(keys: Seq<Seq<char>>) -> Seq<Seq<char>>
    decreases keys.len(),
{
    if keys.len() == 0 {
        Seq::empty()
    } else {
        let before = first_occurrences(keys.drop_last());
        if before.contains(keys.last()) {
            before
        } else {
            before.push(keys.last())
        }
    }
}

/// The positions of the rows that carry the key `k`, in row order.
pub open spec fn positions_of(row_keys: Seq<Seq<char>>, k: Seq<char>) -> Seq<int>
    decreases row_keys.len(),
{
    if row_keys.len() == 0 {
        Seq::empty()
    } else {
        let before = positions_of(row_keys.drop_last(), k);
        if row_keys.last() == k {
            before.push(row_keys.len() - 1)
        } else {
            before
        }
    }
}

/// The rows at the given positions, in the order of the positions.
pub open spec fn picked<T>(rows: Seq<T>, positions: Seq<int>) -> Seq<T> {
    positions.map_values(|i: int| rows[i])
}

/// The rows that carry the key `k`, in row order.
pub open spec fn rows_of<T>(rows: Seq<T>, key: spec_fn(T) -> Seq<char>, k: Seq<char>) -> Seq<T> {
    picked(rows, positions_of(rows.map_values(key), k))
}

/// A list of machine positions as mathematical ones.
pub open spec fn as_ints(positions: Seq<usize>) -> Seq<int> {
    positions.map_values(|p: usize| p as int)
}

/// The requested keys without repetitions and, for each of them, the
/// positions of the rows that carry it.
pub struct Groups {
    pub keys: Vec<String>,
    pub positions: Vec<Vec<usize>>,
}

impl Groups {
    /// The groups are those of the rows with the keys `row_keys` under
    /// the request `keys`.
    pub open spec fn groups(&self, row_keys: Seq<Seq<char>>, keys: Seq<Seq<char>>) -> bool {
        &&& self.keys.len() == self.positions.len()
        &&& texts(self.keys@) == first_occurrences(keys)
        &&& forall|j: int|
            0 <= j < self.positions.len() ==> as_ints((#[trigger] self.positions[j])@) == positions_of(
                row_keys,
                self.keys[j]@,
            )
        &&& forall|j: int, n: int|
            0 <= j < self.positions.len() && 0 <= n < self.positions[j].len() ==> (
            #[trigger] self.positions[j][n]) < row_keys.len()
    }
}

/// The first position at which `key` stands in `keys`.
pub fn slot_of(keys: &Vec<String>, key: &String) -> (slot: Option<usize>)
    ensures
        match slot {
            Some(j) => j < keys.len() && keys[j as int]@ == key@ && forall|n: int|
                0 <= n < j ==> #[trigger] texts(keys@)[n] != key@,
            None => !texts(keys@).contains(key@),
        },
{
    let mut j: usize = 0;
    while j < keys.len()
        invariant
            j <= keys.len(),
            forall|n: int| 0 <= n < j ==> #[trigger] texts(keys@)[n] != key@,
        decreases keys.len() - j,
    {
        if keys[j] == *key {
            return Some(j);
        }
        j += 1;
    }
    None
}

/// Drops the repetitions from a list of keys, keeping the order in which
/// each key first occurs.
pub fn distinct_keys(keys: &[String]) -> (out: Vec<String>)
    ensures
        texts(out@) == first_occurrences(texts(keys@)),
{
    let mut out: Vec<String> = Vec::new();
    let mut i: usize = 0;
    assert(texts(keys@).take(0) =~= Seq::empty());
    assert(texts(out@) =~= Seq::empty());
    while i < keys.len()
        invariant
            i <= keys.len(),
            texts(out@) == first_occurrences(texts(keys@).take(i as int)),
        decreases keys.len() - i,
    {
        let ghost upto = texts(keys@).take(i + 1);
        assert(upto.drop_last() =~= texts(keys@).take(i as int));
        assert(upto.last() == keys[i as int]@);
        match slot_of(&out, &keys[i]) {
            Some(j) => {
                assert(texts(out@)[j as int] == keys[i as int]@);
                assert(texts(out@).contains(upto.last()));
            },
            None => {
                let ghost before = out@;
                out.push(keys[i].clone());
                assert(texts(out@) =~= texts(before).push(keys[i as int]@));
            },
        }
        assert(texts(out@) == first_occurrences(upto));
        i += 1;
    }
    assert(texts(keys@).take(keys.len() as int) =~= texts(keys@));
    out
}

/// Hands the rows out to the requested keys: the result holds each
/// requested key once, in the order of first request, and beside it the
/// positions of the rows that carry it, in row order. A row whose key was
/// not requested goes to nobody.
pub fn group_rows(row_keys: &Vec<String>, keys: &[String]) -> (g: Groups)
    ensures
        g.groups(texts(row_keys@), texts(keys@)),
{
    let distinct = distinct_keys(keys);
    let mut positions: Vec<Vec<usize>> = Vec::new();
    let mut j: usize = 0;
    while j < distinct.len()
        invariant
            j <= distinct.len(),
            positions.len() == j,
            forall|n: int| 0 <= n < j ==> (#[trigger] positions[n])@.len() == 0,
        decreases distinct.len() - j,
    {
        positions.push(Vec::new());
        j += 1;
    }
    let mut i: usize = 0;
    assert(texts(row_keys@).take(0) =~= Seq::empty());
    assert forall|n: int| 0 <= n < positions.len() implies as_ints((#[trigger] positions[n])@)
        == positions_of(texts(row_keys@).take(0), distinct[n]@) by {
        assert(as_ints(positions[n]@) =~= Seq::empty());
    }
    while i < row_keys.len()
        invariant
            i <= row_keys.len(),
            positions.len() == distinct.len(),
            texts(distinct@) == first_occurrences(texts(keys@)),
            forall|n: int|
                0 <= n < positions.len() ==> as_ints((#[trigger] positions[n])@) == positions_of(
                    texts(row_keys@).take(i as int),
                    distinct[n]@,
                ),
            forall|n: int, m: int|
                0 <= n < positions.len() && 0 <= m < positions[n].len() ==> (
                #[trigger] positions[n][m]) < i,
        decreases row_keys.len() - i,
    {
        let ghost upto = texts(row_keys@).take(i + 1);
        assert(upto.drop_last() =~= texts(row_keys@).take(i as int));
        assert(upto.last() == row_keys[i as int]@);
        let ghost prev = positions@;
        match slot_of(&distinct, &row_keys[i]) {
            Some(slot) => {
                positions[slot].push(i);
                proof {
                    assert(as_ints(positions[slot as int]@) =~= as_ints(prev[slot as int]@).push(
                        i as int,
                    ));
                    assert forall|n: int| 0 <= n < positions.len() implies as_ints(
                        (#[trigger] positions[n])@,
                    ) == positions_of(upto, distinct[n]@) by {
                        if n != slot {
                            assert(positions[n] == prev[n]);
                            lemma_first_occurrences(texts(keys@));
                            assert(texts(distinct@)[n] != texts(distinct@)[slot as int]);
                        }
                    }
                    assert forall|n: int, m: int|
                        0 <= n < positions.len() && 0 <= m < positions[n].len() implies (
                    #[trigger] positions[n][m]) < i + 1 by {
                        if n != slot {
                            assert(positions[n] == prev[n]);
                            assert(prev[n][m] < i);
                        } else if m < prev[n].len() {
                            assert(positions[n][m] == prev[n][m]);
                            assert(prev[n][m] < i);
                        }
                    }
                }
            },
            None => {
                proof {
                    assert forall|n: int| 0 <= n < positions.len() implies as_ints(
                        (#[trigger] positions[n])@,
                    ) == positions_of(upto, distinct[n]@) by {
                        assert(texts(distinct@)[n] == distinct[n]@);
                        assert(texts(distinct@).contains(distinct[n]@));
                    }
                }
            },
        }
        i += 1;
    }
    assert(texts(row_keys@).take(row_keys.len() as int) =~= texts(row_keys@));
    Groups { keys: distinct, positions }
}

// ----- what holds of every batch ----------------------------------------

/// The keys of a batch are the requested keys: each requested key occurs,
/// no other does, and none occurs twice.
pub proof fn lemma_first_occurrences(keys: Seq<Seq<char>>)
    ensures
        first_occurrences(keys).no_duplicates(),
        first_occurrences(keys).to_set() == keys.to_set(),
        forall|k: Seq<char>| first_occurrences(keys).contains(k) <==> keys.contains(k),
    decreases keys.len(),
{
    let out = first_occurrences(keys);
    if keys.len() > 0 {
        let front = keys.drop_last();
        let before = first_occurrences(front);
        lemma_first_occurrences(front);
        assert forall|k: Seq<char>| out.contains(k) <==> keys.contains(k) by {
            if keys.contains(k) {
                let i = choose|i: int| 0 <= i < keys.len() && keys[i] == k;
                if i < keys.len() - 1 {
                    assert(front[i] == k);
                    assert(front.contains(k));
                    let j = choose|j: int| 0 <= j < before.len() && before[j] == k;
                    assert(out[j] == k);
                } else if !before.contains(keys.last()) {
                    assert(out[before.len() as int] == k);
                } else {
                    let j = choose|j: int| 0 <= j < before.len() && before[j] == k;
                    assert(out[j] == k);
                }
            }
            if out.contains(k) {
                let j = choose|j: int| 0 <= j < out.len() && out[j] == k;
                if j < before.len() {
                    assert(before[j] == k);
                    assert(before.contains(k));
                    assert(front.contains(k));
                    let i = choose|i: int| 0 <= i < front.len() && front[i] == k;
                    assert(keys[i] == k);
                } else {
                    assert(keys[keys.len() - 1] == k);
                }
            }
        }
        assert forall|i: int, j: int| 0 <= i < out.len() && 0 <= j < out.len() && i != j implies out[i]
            != out[j] by {
            if i < before.len() && j < before.len() {
                assert(before[i] != before[j]);
            } else if i < before.len() {
                assert(before[i] == out[i]);
            } else if j < before.len() {
                assert(before[j] == out[j]);
            }
        }
    } else {
        assert forall|k: Seq<char>| out.contains(k) <==> keys.contains(k) by {}
    }
    assert(out.to_set() =~= keys.to_set());
}

/// The positions handed to a key are increasing positions of rows that
/// carry the key, and no such row is left out.
pub proof fn lemma_positions_of(row_keys: Seq<Seq<char>>, k: Seq<char>)
    ensures
        forall|n: int|
            0 <= n < positions_of(row_keys, k).len() ==> 0 <= (#[trigger] positions_of(
                row_keys,
                k,
            )[n]) < row_keys.len() && row_keys[positions_of(row_keys, k)[n]] == k,
        forall|n: int, m: int|
            0 <= n < m < positions_of(row_keys, k).len() ==> positions_of(row_keys, k)[n]
                < positions_of(row_keys, k)[m],
        forall|i: int|
            0 <= i < row_keys.len() && row_keys[i] == k ==> positions_of(row_keys, k).contains(i),
        positions_of(row_keys, k).len() == 0 <==> !row_keys.contains(k),
    decreases row_keys.len(),
{
    let ps = positions_of(row_keys, k);
    if row_keys.len() > 0 {
        let front = row_keys.drop_last();
        let before = positions_of(front, k);
        lemma_positions_of(front, k);
        assert forall|i: int| 0 <= i < row_keys.len() && row_keys[i] == k implies ps.contains(i) by {
            if i < front.len() {
                assert(front[i] == k);
                let n = choose|n: int| 0 <= n < before.len() && before[n] == i;
                assert(ps[n] == i);
            } else {
                assert(ps[before.len() as int] == i);
            }
        }
        assert forall|n: int| 0 <= n < ps.len() implies 0 <= (#[trigger] ps[n]) < row_keys.len()
            && row_keys[ps[n]] == k by {
            if n < before.len() {
                assert(before[n] == ps[n]);
                assert(front[before[n]] == k);
            }
        }
        assert forall|n: int, m: int| 0 <= n < m < ps.len() implies ps[n] < ps[m] by {
            assert(before[n] == ps[n]);
            if m < before.len() {
                assert(before[m] == ps[m]);
            }
        }
        if ps.len() == 0 {
            if row_keys.contains(k) {
                let i = choose|i: int| 0 <= i < row_keys.len() && row_keys[i] == k;
                assert(ps.contains(i));
            }
        } else {
            assert(row_keys[ps[0]] == k);
        }
    }
}

/// The rows handed to a key are the rows that a read of that key alone
/// is answered with: the rows that carry the key, in row order. Handing
/// those rows out again gives the same rows.
pub proof fn lemma_rows_of_is_filter<T>(rows: Seq<T>, key: spec_fn(T) -> Seq<char>, k: Seq<char>)
    ensures
        rows_of(rows, key, k) == rows.filter(|r: T| key(r) == k),
        rows_of(rows_of(rows, key, k), key, k) == rows_of(rows, key, k),
        rows_of(rows, key, k).len() == 0 <==> !rows.map_values(key).contains(k),
    decreases rows.len(),
{
    lemma_rows_of_filter_inner(rows, key, k);
    let own = rows_of(rows, key, k);
    lemma_rows_of_filter_inner(own, key, k);
    let pred = |r: T| key(r) == k;
    assert(own.filter(pred) == own) by {
        assert forall|i: int| 0 <= i < own.len() implies pred(own[i]) by {
            rows.lemma_filter_pred(pred, i);
        }
        lemma_filter_all(own, pred);
    }
    lemma_positions_of(rows.map_values(key), k);
}

proof fn lemma_filter_all<T>(rows: Seq<T>, pred: spec_fn(T) -> bool)
    requires
        forall|i: int| 0 <= i < rows.len() ==> pred(rows[i]),
    ensures
        rows.filter(pred) == rows,
    decreases rows.len(),
{
    reveal(Seq::filter);
    if rows.len() > 0 {
        lemma_filter_all(rows.drop_last(), pred);
        assert(rows.drop_last().push(rows.last()) =~= rows);
    }
}

proof fn lemma_rows_of_filter_inner<T>(rows: Seq<T>, key: spec_fn(T) -> Seq<char>, k: Seq<char>)
    ensures
        rows_of(rows, key, k) == rows.filter(|r: T| key(r) == k),
    decreases rows.len(),
{
    reveal(Seq::filter);
    let pred = |r: T| key(r) == k;
    let row_keys = rows.map_values(key);
    if rows.len() > 0 {
        let front = rows.drop_last();
        lemma_rows_of_filter_inner(front, key, k);
        assert(row_keys.drop_last() =~= front.map_values(key));
        let before = positions_of(front.map_values(key), k);
        lemma_positions_of(front.map_values(key), k);
        assert(picked(rows, before) =~= picked(front, before));
        if row_keys.last() == k {
            assert(picked(rows, before.push(rows.len() - 1)) =~= picked(rows, before).push(
                rows.last(),
            ));
        }
        assert(rows_of(rows, key, k) =~= rows.filter(pred));
    } else {
        assert(rows_of(rows, key, k) =~= rows.filter(pred));
    }
}

} // verus!
