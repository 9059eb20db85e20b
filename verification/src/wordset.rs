//! Sets of words, and how much two of them overlap.

use crate::text::{contains_text, lemma_texts_push, slice, texts};
use vstd::prelude::*;
use vstd::seq_lib::seq_to_set_is_finite;

verus! {

/// How many different words two word lists have in common.
pub open spec fn shared_count(a: Seq<Seq<char>>, b: Seq<Seq<char>>) -> nat {
    a.to_set().intersect(b.to_set()).len()
}

/// How many different words two word lists hold together.
pub open spec fn union_count(a: Seq<Seq<char>>, b: Seq<Seq<char>>) -> nat {
    a.to_set().union(b.to_set()).len()
}

/// How many different words a word list holds.
pub open spec fn distinct_count(a: Seq<Seq<char>>) -> nat {
    a.to_set().len()
}

/// The words of `words` without repetitions, each at its first place.
pub fn distinct(words: &Vec<Vec<char>>) -> (d: Vec<Vec<char>>)
    ensures
        texts(d@).no_duplicates(),
        texts(d@).to_set() == texts(words@).to_set(),
        d.len() == distinct_count(texts(words@)),
        d.len() <= words.len(),
{
    let mut d: Vec<Vec<char>> = Vec::new();
    let mut i: usize = 0;
    proof {
        assert(texts(d@).to_set() =~= texts(words@).take(0).to_set());
    }
    while i < words.len()
        invariant
            i <= words.len(),
            d.len() <= i,
            texts(d@).no_duplicates(),
            texts(d@).to_set() == texts(words@).take(i as int).to_set(),
        decreases words.len() - i,
    {
        let ghost before = texts(d@);
        let ghost seen = texts(words@).take(i as int);
        let ghost w = words@[i as int]@;
        proof {
            assert(texts(words@).take(i as int + 1) =~= seen.push(w));
            seen.lemma_push_to_set_commute(w);
        }
        if !contains_text(&d, &words[i]) {
            let copy = slice(&words[i], 0, words[i].len());
            proof {
                assert(copy@ =~= w);
            }
            proof {
                lemma_texts_push(d@, copy);
                before.lemma_push_to_set_commute(w);
            }
            d.push(copy);
        } else {
            proof {
                assert(before.to_set().contains(w));
                assert(before.to_set().insert(w) =~= before.to_set());
            }
        }
        i += 1;
    }
    proof {
        assert(texts(words@).take(words.len() as int) =~= texts(words@));
        texts(d@).unique_seq_to_set();
    }
    d
}

/// Counts the different words that occur in both lists.
pub fn count_shared(a: &Vec<Vec<char>>, b: &Vec<Vec<char>>) -> (n: usize)
    ensures
        n == shared_count(texts(a@), texts(b@)),
        n <= distinct_count(texts(a@)),
{
    broadcast use seq_to_set_is_finite;

    let da = distinct(a);
    let ghost all = texts(da@);
    let ghost other = texts(b@).to_set();
    let mut n: usize = 0;
    let mut i: usize = 0;
    proof {
        assert(all.take(0).to_set().intersect(other) =~= Set::<Seq<char>>::empty());
    }
    while i < da.len()
        invariant
            i <= da.len(),
            n <= i,
            all == texts(da@),
            all.no_duplicates(),
            other == texts(b@).to_set(),
            n == all.take(i as int).to_set().intersect(other).len(),
        decreases da.len() - i,
    {
        let ghost seen = all.take(i as int);
        let ghost w = all[i as int];
        proof {
            assert(all.take(i as int + 1) =~= seen.push(w));
            seen.lemma_push_to_set_commute(w);
            assert(!seen.to_set().contains(w)) by {
                if seen.contains(w) {
                    let k = choose|k: int| 0 <= k < seen.len() && seen[k] == w;
                    assert(all[k] == all[i as int]);
                }
            }
        }
        if contains_text(b, &da[i]) {
            proof {
                assert(seen.to_set().insert(w).intersect(other) =~= seen.to_set().intersect(
                    other,
                ).insert(w));
            }
            n += 1;
        } else {
            proof {
                assert(seen.to_set().insert(w).intersect(other) =~= seen.to_set().intersect(
                    other,
                ));
            }
        }
        i += 1;
    }
    proof {
        assert(all.take(da.len() as int) =~= all);
    }
    n
}

/// Counts the different words that occur in either list.
pub fn count_union(a: &Vec<Vec<char>>, b: &Vec<Vec<char>>) -> (n: usize)
    ensures
        n == union_count(texts(a@), texts(b@)),
{
    let mut both: Vec<Vec<char>> = Vec::new();
    let mut i: usize = 0;
    while i < a.len()
        invariant
            i <= a.len(),
            texts(both@) == texts(a@).take(i as int),
        decreases a.len() - i,
    {
        let copy = slice(&a[i], 0, a[i].len());
        proof {
            assert(copy@ =~= a@[i as int]@);
            lemma_texts_push(both@, copy);
            assert(texts(a@).take(i as int + 1) =~= texts(a@).take(i as int).push(copy@));
        }
        both.push(copy);
        i += 1;
    }
    let mut j: usize = 0;
    proof {
        assert(texts(a@).take(a.len() as int) =~= texts(a@));
        assert(texts(both@) =~= texts(a@) + texts(b@).take(0));
    }
    while j < b.len()
        invariant
            j <= b.len(),
            texts(both@) == texts(a@) + texts(b@).take(j as int),
        decreases b.len() - j,
    {
        let copy = slice(&b[j], 0, b[j].len());
        proof {
            assert(copy@ =~= b@[j as int]@);
            lemma_texts_push(both@, copy);
            assert(texts(a@) + texts(b@).take(j as int + 1) =~= (texts(a@) + texts(b@).take(
                j as int,
            )).push(copy@));
        }
        both.push(copy);
        j += 1;
    }
    proof {
        assert(texts(b@).take(b.len() as int) =~= texts(b@));
        vstd::seq_lib::seq_to_set_distributes_over_add(texts(a@), texts(b@));
    }
    distinct(&both).len()
}

} // verus!
