//! The page-aware cross-address-space copy primitive.
//!
//! The address translator (external) resolves a destination virtual
//! range into an ordered list of physical byte-range slices, split
//! wherever a page boundary falls inside the range. The copy flattens
//! that slice list into one logical byte stream and fills it from the
//! source bytes in order, so a destination straddling any number of
//! pages receives exactly the same byte stream as a single contiguous
//! one.

use vstd::prelude::*;

verus! {

/// The byte stream a slice list stands for: the concatenation of the
/// slices in order.
pub open spec fn flat_bytes(slices: Seq<Vec<u8>>) -> Seq<u8>
    decreases slices.len(),
{
    if slices.len() == 0 {
        Seq::empty()
    } else {
        slices.first()@ + flat_bytes(slices.drop_first())
    }
}

/// Offset of slice `j` within the flattened byte stream.
pub open spec fn slice_offset(slices: Seq<Vec<u8>>, j: int) -> int {
    flat_bytes(slices.subrange(0, j)).len() as int
}

/// Appending a slice appends its bytes to the flattened stream.
pub proof fn lemma_flat_bytes_push(slices: Seq<Vec<u8>>, b: Vec<u8>)
    ensures
        flat_bytes(slices.push(b)) == flat_bytes(slices) + b@,
    decreases slices.len(),
{
    if slices.len() == 0 {
        let empty = Seq::<Vec<u8>>::empty();
        assert(slices.push(b).drop_first() =~= empty);
        assert(flat_bytes(empty) == Seq::<u8>::empty());
        assert(slices.push(b).first() == b);
        assert(flat_bytes(slices.push(b)) =~= flat_bytes(slices) + b@);
    } else {
        lemma_flat_bytes_push(slices.drop_first(), b);
        assert(slices.push(b).drop_first() =~= slices.drop_first().push(b));
        assert(slices.push(b).first() == slices.first());
        assert(flat_bytes(slices.push(b)) =~= flat_bytes(slices) + b@);
    }
}

/// Write the source bytes into the destination slices in order,
/// consuming source bytes sequentially across slice boundaries. The
/// destination must cover exactly the source's size, as the address
/// translator guarantees for a resolved range of that size.
///
/// Afterwards each slice holds the source segment at its own offset in
/// the flattened stream, the slice count and every slice length are
/// unchanged, and the flattened destination equals the source.
pub fn copyout(dst: &mut Vec<Vec<u8>>, src: &Vec<u8>)
    requires
        flat_bytes(old(dst)@).len() == src@.len(),
    ensures
        final(dst)@.len() == old(dst)@.len(),
        forall|j: int| 0 <= j < old(dst)@.len() ==> (#[trigger] final(dst)@[j])@.len()
            == old(dst)@[j]@.len(),
        forall|j: int| 0 <= j < old(dst)@.len() ==> (#[trigger] final(dst)@[j])@ == src@.subrange(
            slice_offset(old(dst)@, j),
            slice_offset(old(dst)@, j) + old(dst)@[j]@.len(),
        ),
        flat_bytes(final(dst)@) == src@,
{
    let ghost shape = dst@;
    let n = dst.len();
    let src_len = src.len();
    proof {
        assert(shape.subrange(0, n as int) =~= shape);
    }
    let mut out: Vec<Vec<u8>> = Vec::new();
    let mut k: usize = 0;
    let mut i: usize = 0;
    while i < n
        invariant
            0 <= i <= n,
            n == shape.len(),
            dst@ == shape,
            src_len == src@.len(),
            src@.len() == flat_bytes(shape).len(),
            out@.len() == i,
            k == slice_offset(shape, i as int),
            k + flat_bytes(shape.subrange(i as int, n as int)).len() == src_len,
            forall|j: int| 0 <= j < i ==> (#[trigger] out@[j])@.len() == shape[j]@.len(),
            forall|j: int| 0 <= j < i ==> (#[trigger] out@[j])@ == src@.subrange(
                slice_offset(shape, j),
                slice_offset(shape, j) + shape[j]@.len(),
            ),
            flat_bytes(out@) == src@.subrange(0, k as int),
        decreases n - i,
    {
        proof {
            assert(shape.subrange(i as int, n as int).first() == shape[i as int]);
            assert(shape.subrange(i as int, n as int).drop_first() =~= shape.subrange(
                i + 1,
                n as int,
            ));
            assert(shape.subrange(0, i + 1).drop_last() =~= shape.subrange(0, i as int));
            lemma_flat_bytes_push(shape.subrange(0, i as int), shape[i as int]);
            assert(shape.subrange(0, i as int).push(shape[i as int]) =~= shape.subrange(0, i + 1));
        }
        let len_i = dst[i].len();
        let ghost k0 = k;
        let mut filled: Vec<u8> = Vec::new();
        let mut b: usize = 0;
        while b < len_i
            invariant
                0 <= b <= len_i,
                k == k0 + b,
                k0 + len_i <= src_len,
                src_len == src@.len(),
                filled@.len() == b,
                filled@ == src@.subrange(k0 as int, k0 + b),
            decreases len_i - b,
        {
            filled.push(src[k]);
            proof {
                assert(filled@ =~= src@.subrange(k0 as int, k0 + b + 1));
            }
            k = k + 1;
            b = b + 1;
        }
        let ghost out_before = out@;
        out.push(filled);
        proof {
            lemma_flat_bytes_push(out_before, out@.last());
            assert(flat_bytes(out@) =~= src@.subrange(0, k as int));
        }
        i = i + 1;
    }
    proof {
        assert(shape.subrange(0, n as int) =~= shape);
        assert(src@.subrange(0, src@.len() as int) =~= src@);
    }
    *dst = out;
}

/// Splitting the destination across exactly two pages is transparent:
/// the two slices a cross-page copy produces, concatenated, are
/// byte-identical to the single slice the same-size single-page copy
/// produces, both equal to the source. The parameters are the slice
/// contents after the copy, as `copyout` guarantees them.
pub proof fn lemma_two_page_copy_matches_single(
    first_part: Seq<u8>,
    second_part: Seq<u8>,
    single: Seq<u8>,
    src: Seq<u8>,
)
    requires
        first_part.len() + second_part.len() == src.len(),
        single.len() == src.len(),
        first_part == src.subrange(0, first_part.len() as int),
        second_part == src.subrange(first_part.len() as int, src.len() as int),
        single == src.subrange(0, src.len() as int),
    ensures
        first_part + second_part == single,
        single == src,
{
    assert(first_part + second_part =~= src);
    assert(single =~= src);
}

} // verus!
