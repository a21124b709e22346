//! Sequences addressed by a player identity.
//!
//! Snapshots, merged ladders and demotion histories are all sequences whose
//! elements carry an identifying character sequence.  The spec functions
//! here say what it means for such a sequence to contain a key, to map each
//! key to at most one element, and which element a key selects (the first
//! match); the lemmas connect the recursive selector to those predicates so
//! that iterating implementations can be verified against them.

use vstd::prelude::*;

verus! {

/// No two elements carry the same key.
pub open spec fn keys_unique<T>(s: Seq<T>, key: spec_fn(T) -> Seq<char>) -> bool {
    forall|i: int, j: int| 0 <= i < j < s.len() ==> key(s[i]) != key(s[j])
}

/// Some element carries the key `id`.
pub open spec fn contains_key<T>(s: Seq<T>, key: spec_fn(T) -> Seq<char>, id: Seq<char>) -> bool {
    exists|i: int| 0 <= i < s.len() && key(s[i]) == id
}

/// The first element carrying the key `id`, if any.
pub open spec fn find_key<T>(s: Seq<T>, key: spec_fn(T) -> Seq<char>, id: Seq<char>) -> Option<T>
    decreases s.len(),
{
    if s.len() == 0 {
        None
    } else if key(s[0]) == id {
        Some(s[0])
    } else {
        find_key(s.drop_first(), key, id)
    }
}

/// `find_key` succeeds exactly on contained keys, and hands back an element
/// of the sequence that carries the key looked for.
pub proof fn lemma_find_key_characterization<T>(
    s: Seq<T>,
    key: spec_fn(T) -> Seq<char>,
    id: Seq<char>,
)
    ensures
        contains_key(s, key, id) <==> find_key(s, key, id) is Some,
        match find_key(s, key, id) {
            Some(t) => key(t) == id && exists|i: int| 0 <= i < s.len() && s[i] == t,
            None => !contains_key(s, key, id),
        },
    decreases s.len(),
{
    if s.len() == 0 {
    } else if key(s[0]) == id {
        assert(contains_key(s, key, id));
    } else {
        let rest = s.drop_first();
        lemma_find_key_characterization(rest, key, id);
        assert(forall|i: int| 0 <= i < rest.len() ==> rest[i] == s[i + 1]);
        if contains_key(s, key, id) {
            let i = choose|i: int| 0 <= i < s.len() && key(s[i]) == id;
            assert(rest[i - 1] == s[i]);
            assert(contains_key(rest, key, id));
        }
        if contains_key(rest, key, id) {
            let i = choose|i: int| 0 <= i < rest.len() && key(rest[i]) == id;
            assert(s[i + 1] == rest[i]);
            assert(contains_key(s, key, id));
        }
        match find_key(rest, key, id) {
            Some(t) => {
                let i = choose|i: int| 0 <= i < rest.len() && rest[i] == t;
                assert(s[i + 1] == t);
            },
            None => {},
        }
    }
}

/// Skipping a prefix that does not carry the key leaves `find_key` unchanged.
pub proof fn lemma_find_key_skip<T>(
    s: Seq<T>,
    key: spec_fn(T) -> Seq<char>,
    id: Seq<char>,
    n: int,
)
    requires
        0 <= n <= s.len(),
        forall|j: int| 0 <= j < n ==> key(s[j]) != id,
    ensures
        find_key(s, key, id) == find_key(s.skip(n), key, id),
    decreases n,
{
    if n == 0 {
        assert(s.skip(0) =~= s);
    } else {
        let rest = s.drop_first();
        assert(forall|j: int| 0 <= j < n - 1 ==> rest[j] == s[j + 1]);
        lemma_find_key_skip(rest, key, id, n - 1);
        assert(rest.skip(n - 1) =~= s.skip(n));
    }
}

/// Under unique keys, an element found at any index is the one `find_key`
/// selects.
pub proof fn lemma_find_key_unique<T>(
    s: Seq<T>,
    key: spec_fn(T) -> Seq<char>,
    i: int,
)
    requires
        keys_unique(s, key),
        0 <= i < s.len(),
    ensures
        find_key(s, key, key(s[i])) == Some(s[i]),
{
    let id = key(s[i]);
    assert(forall|j: int| 0 <= j < i ==> key(s[j]) != id);
    lemma_find_key_skip(s, key, id, i);
    assert(s.skip(i)[0] == s[i]);
}

/// `find_key` over a concatenation: the left part wins when it carries the
/// key.
pub proof fn lemma_find_key_add<T>(a: Seq<T>, b: Seq<T>, key: spec_fn(T) -> Seq<char>, id: Seq<char>)
    ensures
        find_key(a + b, key, id) == (if contains_key(a, key, id) {
            find_key(a, key, id)
        } else {
            find_key(b, key, id)
        }),
    decreases a.len(),
{
    lemma_find_key_characterization(a, key, id);
    if a.len() == 0 {
        assert(a + b =~= b);
    } else {
        assert((a + b)[0] == a[0]);
        if key(a[0]) == id {
            assert(contains_key(a, key, id));
        } else {
            assert((a + b).drop_first() =~= a.drop_first() + b);
            lemma_find_key_add(a.drop_first(), b, key, id);
            lemma_find_key_characterization(a.drop_first(), key, id);
        }
    }
}

/// `filter_map` distributes over concatenation.
pub proof fn lemma_filter_map_add<A, B>(a: Seq<A>, b: Seq<A>, f: spec_fn(A) -> Option<B>)
    ensures
        (a + b).filter_map(f) =~= a.filter_map(f) + b.filter_map(f),
    decreases b.len(),
{
    if b.len() == 0 {
        assert(a + b =~= a);
        assert(b.filter_map(f) =~= Seq::<B>::empty());
        assert(a.filter_map(f) + Seq::<B>::empty() =~= a.filter_map(f));
    } else {
        let ab = a + b;
        assert(ab.last() == b.last());
        assert(ab.drop_last() =~= a + b.drop_last());
        lemma_filter_map_add(a, b.drop_last(), f);
        match f(b.last()) {
            Some(s) => {
                assert(ab.filter_map(f) =~= ab.drop_last().filter_map(f) + seq![s]);
                assert(b.filter_map(f) =~= b.drop_last().filter_map(f) + seq![s]);
            },
            None => {
                assert(ab.filter_map(f) =~= ab.drop_last().filter_map(f));
                assert(b.filter_map(f) =~= b.drop_last().filter_map(f));
            },
        }
    }
}

/// An element the function keeps is in `filter_map`'s output.
pub proof fn lemma_filter_map_mem<A, B>(s: Seq<A>, f: spec_fn(A) -> Option<B>, i: int)
    requires
        0 <= i < s.len(),
        f(s[i]) is Some,
    ensures
        s.filter_map(f).contains(f(s[i])->Some_0),
    decreases s.len(),
{
    let out = s.filter_map(f);
    if i == s.len() - 1 {
        assert(s.last() == s[i]);
        assert(out =~= s.drop_last().filter_map(f) + seq![f(s[i])->Some_0]);
        assert(out[out.len() - 1] == f(s[i])->Some_0);
    } else {
        lemma_filter_map_mem(s.drop_last(), f, i);
        assert(s.drop_last()[i] == s[i]);
        let sub = s.drop_last().filter_map(f);
        let j = choose|j: int| 0 <= j < sub.len() && sub[j] == f(s[i])->Some_0;
        match f(s.last()) {
            Some(b) => {
                assert(out =~= sub + seq![b]);
                assert(out[j] == sub[j]);
            },
            None => {
                assert(out =~= sub);
            },
        }
    }
}

/// If the function keeps nothing, `filter_map` yields the empty sequence.
pub proof fn lemma_filter_map_all_none<A, B>(s: Seq<A>, f: spec_fn(A) -> Option<B>)
    requires
        forall|i: int| 0 <= i < s.len() ==> (#[trigger] f(s[i])) is None,
    ensures
        s.filter_map(f) =~= Seq::<B>::empty(),
    decreases s.len(),
{
    if s.len() > 0 {
        assert(f(s[s.len() - 1]) is None);
        assert(forall|i: int|
            0 <= i < s.drop_last().len() ==> s.drop_last()[i] == #[trigger] s[i]);
        lemma_filter_map_all_none(s.drop_last(), f);
    }
}

/// `filter_map` over a uniquely keyed sequence, with a key-respecting
/// function: the output is uniquely keyed, and looking an identity up in
/// the output is looking it up in the input and applying the function.
pub proof fn lemma_filter_map_keyed<A, B>(
    s: Seq<A>,
    f: spec_fn(A) -> Option<B>,
    ka: spec_fn(A) -> Seq<char>,
    kb: spec_fn(B) -> Seq<char>,
    id: Seq<char>,
)
    requires
        keys_unique(s, ka),
        forall|x: A| (#[trigger] f(x)) is Some ==> kb(f(x)->Some_0) == ka(x),
    ensures
        keys_unique(s.filter_map(f), kb),
        find_key(s.filter_map(f), kb, id) == (match find_key(s, ka, id) {
            Some(a) => f(a),
            None => None::<B>,
        }),
    decreases s.len(),
{
    if s.len() == 0 {
        assert(s.filter_map(f) =~= Seq::<B>::empty());
    } else {
        let rest = s.drop_first();
        let head = seq![s[0]];
        assert(s =~= head + rest);
        lemma_filter_map_add(head, rest, f);
        Seq::lemma_filter_map_singleton(s[0], f);
        let head_out = head.filter_map(f);
        let rest_out = rest.filter_map(f);
        assert(s.filter_map(f) =~= head_out + rest_out);
        assert(forall|i: int| 0 <= i < rest.len() ==> rest[i] == #[trigger] s[i + 1]);
        assert(keys_unique(rest, ka));
        lemma_filter_map_keyed(rest, f, ka, kb, id);
        // Keys of the tail's output come from the tail, so they all differ
        // from the head's key.
        assert forall|j: int| 0 <= j < rest_out.len() implies kb(#[trigger] rest_out[j])
            != ka(s[0]) by {
            rest.lemma_filter_map_contains(f, rest_out[j]);
            let t = choose|t: A| #[trigger] rest.contains(t) && f(t) == Some(rest_out[j]);
            let ti = choose|ti: int| 0 <= ti < rest.len() && rest[ti] == t;
            assert(s[ti + 1] == t);
            assert(ka(t) != ka(s[0]));
        }
        match f(s[0]) {
            Some(b0) => {
                assert(head_out =~= seq![b0]);
                assert(keys_unique(s.filter_map(f), kb)) by {
                    assert(forall|i: int|
                        0 <= i < rest_out.len() ==> (head_out + rest_out)[i + 1]
                            == #[trigger] rest_out[i]);
                }
                lemma_find_key_add(head_out, rest_out, kb, id);
                if kb(b0) == id {
                    assert(contains_key(head_out, kb, id));
                    assert(find_key(head_out, kb, id) == Some(b0));
                    assert(find_key(s, ka, id) == Some(s[0]));
                } else {
                    assert(!contains_key(head_out, kb, id));
                }
            },
            None => {
                assert(head_out =~= Seq::<B>::empty());
                assert(head_out + rest_out =~= rest_out);
                if ka(s[0]) == id {
                    // The head maps to nothing and no tail element carries
                    // its key, so the lookup in the output fails.
                    lemma_find_key_characterization(rest_out, kb, id);
                    lemma_find_key_characterization(rest, ka, id);
                    assert(find_key(s, ka, id) == Some(s[0]));
                    if contains_key(rest, ka, id) {
                        let i = choose|i: int| 0 <= i < rest.len() && ka(rest[i]) == id;
                        assert(s[i + 1] == rest[i]);
                        assert(false);
                    }
                    assert(find_key(rest_out, kb, id) is None);
                }
            },
        }
    }
}

/// Two functions that agree on every element of a sequence filter-map it
/// to the same output.
pub proof fn lemma_filter_map_congruence<A, B>(
    s: Seq<A>,
    f: spec_fn(A) -> Option<B>,
    g: spec_fn(A) -> Option<B>,
)
    requires
        forall|i: int| 0 <= i < s.len() ==> #[trigger] f(s[i]) == g(s[i]),
    ensures
        s.filter_map(f) =~= s.filter_map(g),
    decreases s.len(),
{
    if s.len() > 0 {
        assert(f(s[s.len() - 1]) == g(s[s.len() - 1]));
        assert(forall|i: int|
            0 <= i < s.drop_last().len() ==> s.drop_last()[i] == #[trigger] s[i]);
        lemma_filter_map_congruence(s.drop_last(), f, g);
    }
}

/// Mapping a key-preserving function over a sequence commutes with
/// `find_key`, and preserves unique keys.
pub proof fn lemma_find_key_map_values<A>(
    s: Seq<A>,
    f: spec_fn(A) -> A,
    key: spec_fn(A) -> Seq<char>,
    id: Seq<char>,
)
    requires
        forall|x: A| key(#[trigger] f(x)) == key(x),
    ensures
        find_key(s.map_values(f), key, id) == (match find_key(s, key, id) {
            Some(a) => Some(f(a)),
            None => None::<A>,
        }),
        keys_unique(s, key) ==> keys_unique(s.map_values(f), key),
        contains_key(s.map_values(f), key, id) == contains_key(s, key, id),
    decreases s.len(),
{
    lemma_find_key_characterization(s, key, id);
    lemma_find_key_characterization(s.map_values(f), key, id);
    if s.len() == 0 {
    } else {
        assert(s.map_values(f)[0] == f(s[0]));
        assert(s.map_values(f).drop_first() =~= s.drop_first().map_values(f));
        lemma_find_key_map_values(s.drop_first(), f, key, id);
        if keys_unique(s, key) {
            assert forall|i: int, j: int|
                0 <= i < j < s.map_values(f).len() implies key(s.map_values(f)[i]) != key(
                s.map_values(f)[j],
            ) by {
                assert(s.map_values(f)[i] == f(s[i]));
                assert(s.map_values(f)[j] == f(s[j]));
            }
        }
    }
}

} // verus!
