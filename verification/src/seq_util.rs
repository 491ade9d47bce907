//! First-match search and predicate-based removal over `Seq`, with the
//! lemmas the store's contracts are proved from.

use vstd::prelude::*;

verus! {

/// The first element of `s` satisfying `p`, scanning front to back.
pub open spec fn find_first<T>(s: Seq<T>, p: spec_fn(T) -> bool) -> Option<T>
    decreases s.len(),
{
    if s.len() == 0 {
        None
    } else if p(s[0]) {
        Some(s[0])
    } else {
        find_first(s.drop_first(), p)
    }
}

/// `s` without every element satisfying `p`, order of the rest kept.
pub open spec fn remove_where<T>(s: Seq<T>, p: spec_fn(T) -> bool) -> Seq<T>
    decreases s.len(),
{
    if s.len() == 0 {
        s
    } else {
        let rest = remove_where(s.drop_first(), p);
        if p(s[0]) {
            rest
        } else {
            seq![s[0]].add(rest)
        }
    }
}

/// Skipping a prefix with no match leaves the search result unchanged.
pub proof fn lemma_find_first_skip<T>(s: Seq<T>, p: spec_fn(T) -> bool, i: int)
    requires
        0 <= i <= s.len(),
        forall|k: int| 0 <= k < i ==> !p(s[k]),
    ensures
        find_first(s, p) == find_first(s.skip(i), p),
    decreases i,
{
    if i == 0 {
        assert(s.skip(0) =~= s);
    } else {
        assert(!p(s[0]));
        lemma_find_first_skip(s.drop_first(), p, i - 1);
        assert(s.drop_first().skip(i - 1) =~= s.skip(i));
    }
}

/// If no element matches, the search comes up empty.
pub proof fn lemma_find_first_none<T>(s: Seq<T>, p: spec_fn(T) -> bool)
    requires
        forall|k: int| 0 <= k < s.len() ==> !p(s[k]),
    ensures
        find_first(s, p) is None,
{
    lemma_find_first_skip(s, p, s.len() as int);
    assert(s.skip(s.len() as int) =~= Seq::<T>::empty());
}

/// If `i` is the first matching index, the search returns `s[i]`.
pub proof fn lemma_find_first_at<T>(s: Seq<T>, p: spec_fn(T) -> bool, i: int)
    requires
        0 <= i < s.len(),
        p(s[i]),
        forall|k: int| 0 <= k < i ==> !p(s[k]),
    ensures
        find_first(s, p) == Some(s[i]),
{
    lemma_find_first_skip(s, p, i);
    assert(s.skip(i)[0] == s[i]);
}

/// What a search result says about the sequence it came from.
pub proof fn lemma_find_first_characterize<T>(s: Seq<T>, p: spec_fn(T) -> bool)
    ensures
        match find_first(s, p) {
            Some(x) => p(x) && exists|i: int| 0 <= i < s.len() && s[i] == x,
            None => forall|i: int| 0 <= i < s.len() ==> !p(s[i]),
        },
    decreases s.len(),
{
    if s.len() > 0 && !p(s[0]) {
        lemma_find_first_characterize(s.drop_first(), p);
        match find_first(s.drop_first(), p) {
            Some(x) => {
                let i = choose|i: int|
                    0 <= i < s.drop_first().len() && s.drop_first()[i] == x;
                assert(s[i + 1] == x);
            },
            None => {
                assert forall|i: int| 0 <= i < s.len() implies !p(s[i]) by {
                    if i > 0 {
                        assert(s.drop_first()[i - 1] == s[i]);
                    }
                }
            },
        }
    }
}

/// Searching a sequence extended at the back: the old result wins if there
/// was one; otherwise the new element is checked.
pub proof fn lemma_find_first_push<T>(s: Seq<T>, p: spec_fn(T) -> bool, x: T)
    ensures
        find_first(s.push(x), p) == (if find_first(s, p) is Some {
            find_first(s, p)
        } else if p(x) {
            Some(x)
        } else {
            None::<T>
        }),
    decreases s.len(),
{
    if s.len() == 0 {
        assert(s.push(x)[0] == x);
        if p(x) {
            assert(find_first(s.push(x), p) == Some(x));
        } else {
            assert(s.push(x).drop_first() =~= Seq::<T>::empty());
            assert(find_first(Seq::<T>::empty(), p) is None);
            assert(find_first(s.push(x), p) is None);
        }
        assert(find_first(s, p) is None);
    } else {
        assert(s.push(x)[0] == s[0]);
        if p(s[0]) {
            assert(find_first(s.push(x), p) == Some(s[0]));
            assert(find_first(s, p) == Some(s[0]));
        } else {
            lemma_find_first_push(s.drop_first(), p, x);
            assert(s.push(x).drop_first() =~= s.drop_first().push(x));
            assert(find_first(s.push(x), p) == find_first(s.drop_first().push(x), p));
            assert(find_first(s, p) == find_first(s.drop_first(), p));
        }
    }
}

/// Nothing satisfying `p` survives `remove_where`.
pub proof fn lemma_remove_where_removes_all<T>(s: Seq<T>, p: spec_fn(T) -> bool)
    ensures
        forall|k: int| 0 <= k < remove_where(s, p).len() ==> !p(remove_where(s, p)[k]),
    decreases s.len(),
{
    if s.len() > 0 {
        lemma_remove_where_removes_all(s.drop_first(), p);
        if !p(s[0]) {
            let rest = remove_where(s.drop_first(), p);
            assert forall|k: int| 0 <= k < remove_where(s, p).len() implies !p(
                remove_where(s, p)[k],
            ) by {
                if k > 0 {
                    assert(remove_where(s, p)[k] == rest[k - 1]);
                }
            }
        }
    }
}

/// A sequence with no match is left as it stands.
pub proof fn lemma_remove_where_no_match<T>(s: Seq<T>, p: spec_fn(T) -> bool)
    requires
        forall|k: int| 0 <= k < s.len() ==> !p(s[k]),
    ensures
        remove_where(s, p) == s,
    decreases s.len(),
{
    if s.len() > 0 {
        assert forall|k: int| 0 <= k < s.drop_first().len() implies !p(s.drop_first()[k]) by {
            assert(s.drop_first()[k] == s[k + 1]);
        }
        lemma_remove_where_no_match(s.drop_first(), p);
        assert(remove_where(s, p) =~= s);
    }
}

/// Removing twice is the same as removing once.
pub proof fn lemma_remove_where_idempotent<T>(s: Seq<T>, p: spec_fn(T) -> bool)
    ensures
        remove_where(remove_where(s, p), p) == remove_where(s, p),
{
    lemma_remove_where_removes_all(s, p);
    lemma_remove_where_no_match(remove_where(s, p), p);
}

/// When exactly one element matches, `remove_where` is removal at its index.
pub proof fn lemma_remove_where_single_match<T>(s: Seq<T>, p: spec_fn(T) -> bool, i: int)
    requires
        0 <= i < s.len(),
        p(s[i]),
        forall|k: int| 0 <= k < s.len() && k != i ==> !p(s[k]),
    ensures
        remove_where(s, p) == s.remove(i),
    decreases i,
{
    if i == 0 {
        assert forall|k: int| 0 <= k < s.drop_first().len() implies !p(s.drop_first()[k]) by {
            assert(s.drop_first()[k] == s[k + 1]);
        }
        lemma_remove_where_no_match(s.drop_first(), p);
        assert(remove_where(s, p) =~= s.remove(0));
    } else {
        assert(!p(s[0]));
        assert forall|k: int| 0 <= k < s.drop_first().len() && k != i - 1 implies !p(
            s.drop_first()[k],
        ) by {
            assert(s.drop_first()[k] == s[k + 1]);
        }
        assert(s.drop_first()[i - 1] == s[i]);
        lemma_remove_where_single_match(s.drop_first(), p, i - 1);
        assert(seq![s[0]].add(s.drop_first().remove(i - 1)) =~= s.remove(i));
    }
}

} // verus!
