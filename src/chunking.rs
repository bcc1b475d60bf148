//! Partition of a record sequence into consecutive batches.

use vstd::prelude::*;

verus! {

/// The bounds `(start, end)` of the consecutive chunks of at most `b` items
/// that cover the positions `start..len`; only the last chunk may be shorter.
pub open spec fn chunk_bounds_from(start: int, len: int, b: int) -> Seq<(int, int)>
    decreases len - start,
{
    if b <= 0 || start >= len {
        Seq::empty()
    } else {
        let end = if len - start > b { start + b } else { len };
        seq![(start, end)] + chunk_bounds_from(end, len, b)
    }
}

/// The chunk bounds of a sequence of `len` items, for batch size `b`.
pub open spec fn chunk_bounds_spec(len: int, b: int) -> Seq<(int, int)> {
    chunk_bounds_from(0, len, b)
}

/// The pieces of `s` that `bounds` cut out, in order.
pub open spec fn chunk_slices<T>(s: Seq<T>, bounds: Seq<(int, int)>) -> Seq<Seq<T>> {
    Seq::new(bounds.len(), |k: int| s.subrange(bounds[k].0, bounds[k].1))
}

/// The chunks of `s` for batch size `b`.
pub open spec fn chunks_of<T>(s: Seq<T>, b: int) -> Seq<Seq<T>> {
    chunk_slices(s, chunk_bounds_spec(s.len() as int, b))
}

/// Integer view of executable bounds.
pub open spec fn bounds_view(v: Seq<(usize, usize)>) -> Seq<(int, int)> {
    v.map_values(|p: (usize, usize)| (p.0 as int, p.1 as int))
}

proof fn lemma_bounds_shape(start: int, len: int, b: int)
    requires
        0 <= start <= len,
        b > 0,
    ensures
        forall|k: int|
            0 <= k < chunk_bounds_from(start, len, b).len() ==> {
                let p = #[trigger] chunk_bounds_from(start, len, b)[k];
                start <= p.0 < p.1 <= len && p.1 - p.0 <= b
            },
    decreases len - start,
{
    if start < len {
        let end = if len - start > b { start + b } else { len };
        lemma_bounds_shape(end, len, b);
        let rest = chunk_bounds_from(end, len, b);
        assert forall|k: int| 0 <= k < chunk_bounds_from(start, len, b).len() implies {
            let p = #[trigger] chunk_bounds_from(start, len, b)[k];
            start <= p.0 < p.1 <= len && p.1 - p.0 <= b
        } by {
            if k > 0 {
                assert(chunk_bounds_from(start, len, b)[k] == rest[k - 1]);
            }
        }
    }
}

proof fn lemma_flatten_from<T>(s: Seq<T>, start: int, b: int)
    requires
        0 <= start <= s.len(),
        b > 0,
    ensures
        chunk_slices(s, chunk_bounds_from(start, s.len() as int, b)).flatten() == s.subrange(
            start,
            s.len() as int,
        ),
    decreases s.len() - start,
{
    let len = s.len() as int;
    let pieces = chunk_slices(s, chunk_bounds_from(start, len, b));
    if start >= len {
        assert(pieces.len() == 0);
        assert(s.subrange(start, len) =~= Seq::<T>::empty());
    } else {
        let end = if len - start > b { start + b } else { len };
        lemma_flatten_from(s, end, b);
        let rest = chunk_slices(s, chunk_bounds_from(end, len, b));
        assert(pieces.first() == s.subrange(start, end));
        assert(pieces.drop_first() =~= rest);
        assert(s.subrange(start, end) + s.subrange(end, len) =~= s.subrange(start, len));
    }
}

/// Chunking keeps order and loses nothing: joining the chunks of `s`, for any
/// batch size `b >= 1`, gives back `s`, and each chunk holds between 1 and `b`
/// items.
pub proof fn lemma_chunks_rejoin<T>(s: Seq<T>, b: int)
    requires
        b >= 1,
    ensures
        chunks_of(s, b).flatten() == s,
        forall|k: int|
            0 <= k < chunks_of(s, b).len() ==> 1 <= (#[trigger] chunks_of(s, b)[k]).len() <= b,
{
    lemma_flatten_from(s, 0, b);
    assert(s.subrange(0, s.len() as int) =~= s);
    lemma_bounds_shape(0, s.len() as int, b);
    assert forall|k: int| 0 <= k < chunks_of(s, b).len() implies 1 <= (
    #[trigger] chunks_of(s, b)[k]).len() <= b by {
        let p = chunk_bounds_spec(s.len() as int, b)[k];
        assert(chunks_of(s, b)[k] == s.subrange(p.0, p.1));
    }
}

/// The bounds of the chunks of a sequence of `len` items, batch size `batch_size`.
pub fn chunk_bounds(len: usize, batch_size: usize) -> (r: Vec<(usize, usize)>)
    requires
        batch_size > 0,
    ensures
        bounds_view(r@) == chunk_bounds_spec(len as int, batch_size as int),
{
    let mut r: Vec<(usize, usize)> = Vec::new();
    let mut start: usize = 0;
    while start < len
        invariant
            start <= len,
            batch_size > 0,
            bounds_view(r@) + chunk_bounds_from(start as int, len as int, batch_size as int)
                == chunk_bounds_spec(len as int, batch_size as int),
        decreases len - start,
    {
        let end: usize = if len - start > batch_size { start + batch_size } else { len };
        let ghost old_r = r@;
        r.push((start, end));
        assert(bounds_view(r@) =~= bounds_view(old_r).push((start as int, end as int)));
        assert(chunk_bounds_from(start as int, len as int, batch_size as int) == seq![
            (start as int, end as int),
        ] + chunk_bounds_from(end as int, len as int, batch_size as int));
        assert(bounds_view(r@) + chunk_bounds_from(end as int, len as int, batch_size as int)
            =~= bounds_view(old_r) + chunk_bounds_from(start as int, len as int, batch_size as int));
        start = end;
    }
    assert(bounds_view(r@) + chunk_bounds_from(start as int, len as int, batch_size as int)
        =~= bounds_view(r@));
    r
}

} // verus!
