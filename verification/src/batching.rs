//! Bounded-size batches for store inserts.
//!
//! The store takes only so many rows per statement, so every insert is
//! issued in batches of at most [`crate::config::INSERT_CHUNK_SIZE`] rows.
//! Splitting is a performance detail, not a correctness one: concatenated,
//! the batches are exactly the input — and no batch is empty, so an empty
//! input yields no batch and no insert is ever attempted for it.

use vstd::prelude::*;

use crate::entities::Duplicable;

verus! {

/// The input split into consecutive runs of `size`, the last one shorter
/// when the length is no multiple of `size`.
pub open spec fn chunks_of<T>(s: Seq<T>, size: int) -> Seq<Seq<T>>
    recommends
        size >= 1,
    decreases s.len(),
    when size >= 1

{
    if s.len() == 0 {
        Seq::empty()
    } else if s.len() <= size {
        seq![s]
    } else {
        seq![s.take(size)] + chunks_of(s.skip(size), size)
    }
}

/// Each batch is nonempty and no longer than `size`, and together the
/// batches restore the input.
pub proof fn lemma_chunks_of_properties<T>(s: Seq<T>, size: int)
    requires
        size >= 1,
    ensures
        forall|i: int|
            0 <= i < chunks_of(s, size).len() ==> 1 <= (#[trigger] chunks_of(s, size)[i]).len()
                <= size,
        chunks_of(s, size).flatten() =~= s,
        chunks_of(s, size).len() == 0 <==> s.len() == 0,
    decreases s.len(),
{
    let out = chunks_of(s, size);
    if s.len() == 0 {
        assert(out.flatten() =~= s);
    } else if s.len() <= size {
        out.lemma_flatten_one_element();
        assert(out.flatten() =~= s);
    } else {
        let rest = chunks_of(s.skip(size), size);
        lemma_chunks_of_properties(s.skip(size), size);
        assert(forall|i: int| 0 <= i < rest.len() ==> out[i + 1] == #[trigger] rest[i]);
        assert(out.first() == s.take(size));
        assert(out.drop_first() =~= rest);
        assert(out.flatten() == s.take(size) + rest.flatten());
        assert(s.take(size) + s.skip(size) =~= s);
    }
}

/// Splits the rows into insert batches of at most `size` rows each.
#[verifier::loop_isolation(false)]
pub fn chunked<T: Duplicable>(items: &Vec<T>, size: usize) -> (r: Vec<Vec<T>>)
    requires
        size >= 1,
    ensures
        r.deep_view() == chunks_of(items.deep_view(), size as int),
{
    let ghost iv = items.deep_view();
    let ghost sz = size as int;
    let mut out: Vec<Vec<T>> = Vec::new();
    let n = items.len();
    let mut consumed: usize = 0;
    proof {
        assert(iv.skip(0) =~= iv);
        assert(out.deep_view() =~= Seq::<Seq<T::V>>::empty());
        assert(Seq::<Seq<T::V>>::empty() + chunks_of(iv, sz) =~= chunks_of(iv, sz));
    }
    while consumed < n
        invariant
            consumed <= n,
            chunks_of(iv, sz) =~= out.deep_view() + chunks_of(iv.skip(consumed as int), sz),
        decreases n - consumed,
    {
        let ghost pre = out.deep_view();
        let ghost suffix = iv.skip(consumed as int);
        let remaining = n - consumed;
        let len = if remaining < size {
            remaining
        } else {
            size
        };
        let mut chunk: Vec<T> = Vec::new();
        let mut k: usize = 0;
        while k < len
            invariant
                k <= len,
                consumed + len <= n,
                chunk.deep_view() =~= iv.subrange(consumed as int, consumed as int + k as int),
            decreases len - k,
        {
            let ghost cpre = chunk.deep_view();
            chunk.push(items[consumed + k].duplicate());
            proof {
                assert(chunk.deep_view() =~= cpre.push(iv[consumed as int + k as int]));
                assert(iv.subrange(consumed as int, consumed as int + k as int + 1) =~= iv.subrange(
                    consumed as int,
                    consumed as int + k as int,
                ).push(iv[consumed as int + k as int]));
            }
            k += 1;
        }
        proof {
            if suffix.len() <= sz {
                assert(chunk.deep_view() =~= suffix);
                assert(chunks_of(suffix, sz) =~= seq![suffix]);
                assert(iv.skip(n as int) =~= Seq::<T::V>::empty());
                assert(chunks_of(iv.skip(n as int), sz) =~= Seq::<Seq<T::V>>::empty());
            } else {
                assert(chunk.deep_view() =~= suffix.take(sz));
                assert(suffix.skip(sz) =~= iv.skip(consumed as int + sz));
                assert(chunks_of(suffix, sz) =~= seq![suffix.take(sz)] + chunks_of(
                    iv.skip(consumed as int + sz),
                    sz,
                ));
            }
        }
        out.push(chunk);
        proof {
            assert(out.deep_view() =~= pre.push(chunk.deep_view()));
            assert(pre.push(chunk.deep_view()) =~= pre + seq![chunk.deep_view()]);
        }
        consumed += len;
    }
    proof {
        assert(iv.skip(consumed as int) =~= Seq::<T::V>::empty());
        assert(chunks_of(iv.skip(consumed as int), sz) =~= Seq::<Seq<T::V>>::empty());
        assert(out.deep_view() + Seq::<Seq<T::V>>::empty() =~= out.deep_view());
    }
    out
}

} // verus!
