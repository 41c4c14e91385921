//! Facts about keeping the present values of a sequence of options.

use vstd::prelude::*;

verus! {

/// The values of the `Some` entries, in order.
pub open spec fn somes<B>(s: Seq<Option<B>>) -> Seq<B>
    decreases s.len(),
{
    if s.len() == 0 {
        Seq::empty()
    } else {
        match s.last() {
            Some(b) => somes(s.drop_last()).push(b),
            None => somes(s.drop_last()),
        }
    }
}

/// The first `n` elements, or all of them when there are fewer.
pub open spec fn first_n<B>(s: Seq<B>, n: nat) -> Seq<B> {
    if s.len() <= n {
        s
    } else {
        s.take(n as int)
    }
}

pub proof fn lemma_somes_take_succ<B>(s: Seq<Option<B>>, i: int)
    requires
        0 <= i < s.len(),
    ensures
        somes(s.take(i + 1)) == match s[i] {
            Some(b) => somes(s.take(i)).push(b),
            None => somes(s.take(i)),
        },
{
    assert(s.take(i + 1).drop_last() =~= s.take(i));
}

pub proof fn lemma_somes_prefix<B>(s: Seq<Option<B>>, i: int, j: int)
    requires
        0 <= i <= j <= s.len(),
    ensures
        somes(s.take(i)).len() <= somes(s.take(j)).len(),
        somes(s.take(j)).take(somes(s.take(i)).len() as int) == somes(s.take(i)),
    decreases j - i,
{
    if i == j {
        assert(somes(s.take(j)).take(somes(s.take(i)).len() as int) =~= somes(s.take(i)));
    } else {
        lemma_somes_prefix(s, i, j - 1);
        lemma_somes_take_succ(s, j - 1);
        let a = somes(s.take(i));
        let b = somes(s.take(j - 1));
        assert(somes(s.take(j)).take(a.len() as int) =~= b.take(a.len() as int));
    }
}

/// Collecting the values of the `Some` entries of a prefix of `s` until `n`
/// of them are found, or `s` ends, gives the first `n` values of `s`.
pub proof fn lemma_somes_first_n<B>(s: Seq<Option<B>>, i: int, n: nat)
    requires
        0 <= i <= s.len(),
        somes(s.take(i)).len() <= n,
        i == s.len() || somes(s.take(i)).len() == n,
    ensures
        somes(s.take(i)) == first_n(somes(s), n),
{
    lemma_somes_prefix(s, i, s.len() as int);
    assert(s.take(s.len() as int) =~= s);
    if i == s.len() {
    } else {
        assert(somes(s).take(n as int) == somes(s.take(i)));
    }
}

/// Every value kept comes from a `Some` entry.
pub proof fn lemma_somes_member<B>(s: Seq<Option<B>>, k: int)
    requires
        0 <= k < somes(s).len(),
    ensures
        exists|j: int| 0 <= j < s.len() && #[trigger] s[j] == Some(somes(s)[k]),
    decreases s.len(),
{
    let rest = s.drop_last();
    match s.last() {
        Some(b) => {
            if k == somes(rest).len() {
                assert(s[s.len() - 1] == Some(somes(s)[k]));
            } else {
                lemma_somes_member(rest, k);
                let j = choose|j: int| 0 <= j < rest.len() && #[trigger] rest[j] == Some(somes(rest)[k]);
                assert(s[j] == Some(somes(s)[k]));
            }
        },
        None => {
            lemma_somes_member(rest, k);
            let j = choose|j: int| 0 <= j < rest.len() && #[trigger] rest[j] == Some(somes(rest)[k]);
            assert(s[j] == Some(somes(s)[k]));
        },
    }
}

/// The value of a `Some` entry is kept, at the position given by the number
/// of `Some` entries before it.
pub proof fn lemma_somes_at<B>(s: Seq<Option<B>>, j: int)
    requires
        0 <= j < s.len(),
        s[j] is Some,
    ensures
        somes(s.take(j)).len() < somes(s).len(),
        somes(s)[somes(s.take(j)).len() as int] == s[j]->0,
{
    lemma_somes_take_succ(s, j);
    lemma_somes_prefix(s, j + 1, s.len() as int);
    assert(s.take(s.len() as int) =~= s);
    let k = somes(s.take(j)).len() as int;
    assert(somes(s.take(j + 1))[k] == s[j]->0);
    assert(somes(s).take(somes(s.take(j + 1)).len() as int)[k] == somes(s)[k]);
}

} // verus!
