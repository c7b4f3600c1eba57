//! Lowering of 64-bit arguments onto a machine-word argument list.
//!
//! Syscalls that take 64-bit values must, on a 32-bit target, split each such
//! value across two consecutive machine-word arguments, low or high half
//! first according to the target's byte order; some ABIs further require the
//! pair to start on an even-numbered argument register, which may force one
//! padding word. On a 64-bit target the values pass through unchanged. The
//! argument list is three contiguous runs: leading plain words, one run of
//! wide values, trailing plain words.
//!
//! Every wide value is taken here by value and both halves are cut from
//! that one copy, so no argument expression is ever evaluated twice,
//! whatever the target.

use vstd::prelude::*;

verus! {

/// Width of the target's machine word.
#[derive(Clone, Copy, Debug, PartialEq, Eq, Structural)]
pub enum WordWidth {
    W32,
    W64,
}

/// Byte order of the target, which decides which half of a split 64-bit
/// value is passed first.
#[derive(Clone, Copy, Debug, PartialEq, Eq, Structural)]
pub enum Endian {
    Little,
    Big,
}

/// How a target lowers 64-bit arguments: its machine-word width, its byte
/// order, and whether its ABI requires a 64-bit value to start on an
/// even-numbered argument register.
#[derive(Clone, Copy, Debug, PartialEq, Eq, Structural)]
pub struct WideLayout {
    pub width: WordWidth,
    pub endian: Endian,
    pub aligned_pairs: bool,
}

/// The low 32-bit half of a 64-bit value.
pub open spec fn lo_half(w: u64) -> u64 {
    w & 0xFFFF_FFFFu64
}

/// The high 32-bit half of a 64-bit value.
pub open spec fn hi_half(w: u64) -> u64 {
    w >> 32u64
}

/// The two halves of a wide value in the order the target passes them:
/// low half first on a little-endian target, high half first on a
/// big-endian one.
pub open spec fn split_halves(e: Endian, w: u64) -> Seq<u64> {
    match e {
        Endian::Little => seq![lo_half(w), hi_half(w)],
        Endian::Big => seq![hi_half(w), lo_half(w)],
    }
}

/// A run of wide values split into halves, with no alignment padding.
pub open spec fn split_run(e: Endian, ws: Seq<u64>) -> Seq<u64>
    decreases ws.len(),
{
    if ws.len() == 0 {
        Seq::empty()
    } else {
        split_halves(e, ws.first()) + split_run(e, ws.drop_first())
    }
}

/// Whether one padding word must precede a wide value that would otherwise
/// start at zero-based argument position `pos`: only on a 32-bit target
/// whose ABI aligns 64-bit values to even register pairs, and only when the
/// position is odd.
pub open spec fn pad_before(t: WideLayout, pos: int) -> bool {
    t.width is W32 && t.aligned_pairs && pos % 2 == 1
}

/// The machine words that one wide value contributes when it starts at
/// argument position `pos`: the value itself on a 64-bit target; on a
/// 32-bit target its two halves, preceded by one zero padding word where
/// the ABI demands an even starting register and `pos` is odd.
pub open spec fn wide_words(t: WideLayout, pos: int, w: u64) -> Seq<u64> {
    match t.width {
        WordWidth::W64 => seq![w],
        WordWidth::W32 => if pad_before(t, pos) {
            seq![0u64] + split_halves(t.endian, w)
        } else {
            split_halves(t.endian, w)
        },
    }
}

/// The machine words of a whole run of wide values starting at argument
/// position `pos`.
pub open spec fn wide_run_words(t: WideLayout, pos: int, ws: Seq<u64>) -> Seq<u64>
    decreases ws.len(),
{
    if ws.len() == 0 {
        Seq::empty()
    } else {
        let head = wide_words(t, pos, ws.first());
        head + wide_run_words(t, pos + head.len(), ws.drop_first())
    }
}

/// The fully lowered argument list: leading plain words, then the wide run
/// split and padded as the target demands, then trailing plain words.
pub open spec fn lowered_args(
    t: WideLayout,
    lead: Seq<u64>,
    wide: Seq<u64>,
    trail: Seq<u64>,
) -> Seq<u64> {
    lead + wide_run_words(t, lead.len() as int, wide) + trail
}

/// Whether a value fits in the target's machine word.
pub open spec fn fits_word(width: WordWidth, w: u64) -> bool {
    width is W64 || w < 0x1_0000_0000
}

/// The two halves of a wide value carry exactly that value, and each fits
/// in a 32-bit machine word.
pub proof fn lemma_halves_reassemble(w: u64)
    ensures
        lo_half(w) + hi_half(w) * 0x1_0000_0000 == w,
        lo_half(w) < 0x1_0000_0000,
        hi_half(w) < 0x1_0000_0000,
{
    assert((w & 0xFFFF_FFFFu64) + (w >> 32u64) * 0x1_0000_0000 == w) by (bit_vector);
    assert(w & 0xFFFF_FFFFu64 < 0x1_0000_0000) by (bit_vector);
    assert(w >> 32u64 < 0x1_0000_0000) by (bit_vector);
}

/// Appending one more wide value to a run extends its words by exactly the
/// words of that value, placed at the position where the run's words end.
proof fn lemma_wide_run_snoc(t: WideLayout, pos: int, ws: Seq<u64>, w: u64)
    ensures
        wide_run_words(t, pos, ws.push(w)) == wide_run_words(t, pos, ws) + wide_words(
            t,
            pos + wide_run_words(t, pos, ws).len(),
            w,
        ),
    decreases ws.len(),
{
    if ws.len() == 0 {
        let head = wide_words(t, pos, w);
        assert(ws.push(w).first() == w);
        assert(ws.push(w).drop_first() =~= Seq::<u64>::empty());
        assert(wide_run_words(t, pos + head.len(), Seq::<u64>::empty()) == Seq::<u64>::empty());
        assert(wide_run_words(t, pos, ws.push(w)) == head + Seq::<u64>::empty());
        assert(wide_run_words(t, pos, ws.push(w)) =~= wide_run_words(t, pos, ws) + wide_words(
            t,
            pos + wide_run_words(t, pos, ws).len(),
            w,
        ));
    } else {
        let head = wide_words(t, pos, ws.first());
        assert(ws.push(w).first() == ws.first());
        assert(ws.push(w).drop_first() =~= ws.drop_first().push(w));
        lemma_wide_run_snoc(t, pos + head.len(), ws.drop_first(), w);
        assert(wide_run_words(t, pos, ws.push(w)) =~= wide_run_words(t, pos, ws) + wide_words(
            t,
            pos + wide_run_words(t, pos, ws).len(),
            w,
        ));
    }
}

/// Every word of a wide run fits the target's machine word: on a 32-bit
/// target the run consists only of 32-bit halves and zero padding.
proof fn lemma_run_fits(t: WideLayout, pos: int, ws: Seq<u64>)
    ensures
        forall|i: int|
            0 <= i < wide_run_words(t, pos, ws).len() ==> fits_word(
                t.width,
                #[trigger] wide_run_words(t, pos, ws)[i],
            ),
    decreases ws.len(),
{
    if ws.len() > 0 {
        lemma_halves_reassemble(ws.first());
        let head = wide_words(t, pos, ws.first());
        let rest = wide_run_words(t, pos + head.len(), ws.drop_first());
        lemma_run_fits(t, pos + head.len(), ws.drop_first());
        assert(forall|i: int| 0 <= i < head.len() ==> fits_word(t.width, #[trigger] head[i]));
        assert forall|i: int| 0 <= i < wide_run_words(t, pos, ws).len() implies fits_word(
            t.width,
            #[trigger] wide_run_words(t, pos, ws)[i],
        ) by {
            assert(wide_run_words(t, pos, ws) == head + rest);
            if i < head.len() {
                assert(wide_run_words(t, pos, ws)[i] == head[i]);
            } else {
                assert(wide_run_words(t, pos, ws)[i] == rest[i - head.len()]);
            }
        }
    }
}

/// A run that starts at an even position, or on an ABI without the pair
/// alignment rule, is split with no padding at all: after each wide value
/// the position stays even, so no later value needs padding either.
proof fn lemma_run_unpadded(t: WideLayout, pos: int, ws: Seq<u64>)
    requires
        t.width is W32,
        !t.aligned_pairs || pos % 2 == 0,
    ensures
        wide_run_words(t, pos, ws) == split_run(t.endian, ws),
    decreases ws.len(),
{
    if ws.len() > 0 {
        lemma_run_unpadded(t, pos + 2, ws.drop_first());
    }
}

/// On a 64-bit target every wide value passes through as a single machine
/// word, whatever the byte order or alignment rule.
pub proof fn lemma_wide_passthrough(t: WideLayout, lead: Seq<u64>, wide: Seq<u64>, trail: Seq<u64>)
    requires
        t.width is W64,
    ensures
        lowered_args(t, lead, wide, trail) == lead + wide + trail,
{
    lemma_run_is_identity(t, lead.len() as int, wide);
}

/// On a 64-bit target a wide run's words are the run itself.
proof fn lemma_run_is_identity(t: WideLayout, pos: int, ws: Seq<u64>)
    requires
        t.width is W64,
    ensures
        wide_run_words(t, pos, ws) == ws,
    decreases ws.len(),
{
    if ws.len() == 0 {
        assert(wide_run_words(t, pos, ws) =~= ws);
    } else {
        lemma_run_is_identity(t, pos + 1, ws.drop_first());
        assert(wide_run_words(t, pos, ws) =~= ws);
    }
}

/// On a 32-bit target without the pair alignment rule, one wide value
/// becomes exactly two consecutive machine words wherever it stands: the
/// low half first on a little-endian target, the high half first on a
/// big-endian one.
pub proof fn lemma_wide_split_order(t: WideLayout, lead: Seq<u64>, w: u64, trail: Seq<u64>)
    requires
        t.width is W32,
        !t.aligned_pairs,
    ensures
        t.endian is Little ==> lowered_args(t, lead, seq![w], trail) == lead + seq![
            w & 0xFFFF_FFFFu64,
            (w >> 32u64) & 0xFFFF_FFFFu64,
        ] + trail,
        t.endian is Big ==> lowered_args(t, lead, seq![w], trail) == lead + seq![
            (w >> 32u64) & 0xFFFF_FFFFu64,
            w & 0xFFFF_FFFFu64,
        ] + trail,
{
    assert((w >> 32u64) & 0xFFFF_FFFFu64 == w >> 32u64) by (bit_vector);
    lemma_run_unpadded(t, lead.len() as int, seq![w]);
    assert(seq![w].first() == w);
    assert(seq![w].drop_first() =~= Seq::<u64>::empty());
    assert(split_run(t.endian, Seq::<u64>::empty()) == Seq::<u64>::empty());
    assert(split_run(t.endian, seq![w]) =~= split_halves(t.endian, w));
    if t.endian is Little {
        assert(lowered_args(t, lead, seq![w], trail) =~= lead + seq![
            w & 0xFFFF_FFFFu64,
            (w >> 32u64) & 0xFFFF_FFFFu64,
        ] + trail);
    } else {
        assert(lowered_args(t, lead, seq![w], trail) =~= lead + seq![
            (w >> 32u64) & 0xFFFF_FFFFu64,
            w & 0xFFFF_FFFFu64,
        ] + trail);
    }
}

/// On a 32-bit target whose ABI aligns 64-bit values to even register
/// pairs, exactly one zero padding word precedes the wide run when the
/// count of leading plain arguments is odd, and none when it is even.
pub proof fn lemma_alignment_padding(t: WideLayout, lead: Seq<u64>, wide: Seq<u64>, trail: Seq<u64>)
    requires
        t.width is W32,
        t.aligned_pairs,
        wide.len() >= 1,
    ensures
        lead.len() % 2 == 1 ==> lowered_args(t, lead, wide, trail) == lead + seq![0u64]
            + split_run(t.endian, wide) + trail,
        lead.len() % 2 == 0 ==> lowered_args(t, lead, wide, trail) == lead + split_run(
            t.endian,
            wide,
        ) + trail,
{
    let pos = lead.len() as int;
    if pos % 2 == 1 {
        let head = wide_words(t, pos, wide.first());
        assert(head == seq![0u64] + split_halves(t.endian, wide.first()));
        lemma_run_unpadded(t, pos + 3, wide.drop_first());
        assert(split_run(t.endian, wide) == split_halves(t.endian, wide.first()) + split_run(
            t.endian,
            wide.drop_first(),
        ));
        assert(lowered_args(t, lead, wide, trail) =~= lead + seq![0u64] + split_run(
            t.endian,
            wide,
        ) + trail);
    } else {
        lemma_run_unpadded(t, pos, wide);
        assert(lowered_args(t, lead, wide, trail) =~= lead + split_run(t.endian, wide) + trail);
    }
}

/// Append to `out` the machine words for one wide argument, padding and
/// splitting it as the target demands for the position where `out`
/// currently ends.
pub fn push_wide_words(t: WideLayout, out: &mut Vec<u64>, w: u64)
    ensures
        final(out)@ == old(out)@ + wide_words(t, old(out)@.len() as int, w),
{
    match t.width {
        WordWidth::W64 => {
            out.push(w);
            assert(final(out)@ =~= old(out)@ + wide_words(t, old(out)@.len() as int, w));
        },
        WordWidth::W32 => {
            if t.aligned_pairs && out.len() % 2 == 1 {
                out.push(0);
            }
            let lo: u64 = w & 0xFFFF_FFFF;
            let hi: u64 = w >> 32;
            match t.endian {
                Endian::Little => {
                    out.push(lo);
                    out.push(hi);
                },
                Endian::Big => {
                    out.push(hi);
                    out.push(lo);
                },
            }
            assert(final(out)@ =~= old(out)@ + wide_words(t, old(out)@.len() as int, w));
        },
    }
}

/// Lower an argument list with a contiguous run of wide values onto the
/// target's machine words: leading plain arguments pass through, each wide
/// value is split or passed whole per the target, with one zero padding
/// word where the pair alignment rule demands it, and trailing plain
/// arguments follow.
pub fn lower_wide_args(
    t: WideLayout,
    lead: &Vec<u64>,
    wide: &Vec<u64>,
    trail: &Vec<u64>,
) -> (r: Vec<u64>)
    requires
        wide@.len() >= 1,
        forall|i: int| 0 <= i < lead@.len() ==> fits_word(t.width, #[trigger] lead@[i]),
        forall|i: int| 0 <= i < trail@.len() ==> fits_word(t.width, #[trigger] trail@[i]),
    ensures
        r@ == lowered_args(t, lead@, wide@, trail@),
        forall|i: int| 0 <= i < r@.len() ==> fits_word(t.width, #[trigger] r@[i]),
{
    let mut out: Vec<u64> = Vec::new();
    let mut i: usize = 0;
    while i < lead.len()
        invariant
            i <= lead@.len(),
            out@ == lead@.subrange(0, i as int),
        decreases lead@.len() - i,
    {
        out.push(lead[i]);
        assert(out@ =~= lead@.subrange(0, i + 1));
        i = i + 1;
    }
    assert(out@ =~= lead@);
    let mut j: usize = 0;
    while j < wide.len()
        invariant
            j <= wide@.len(),
            out@ == lead@ + wide_run_words(t, lead@.len() as int, wide@.subrange(0, j as int)),
        decreases wide@.len() - j,
    {
        let ghost prefix = wide@.subrange(0, j as int);
        push_wide_words(t, &mut out, wide[j]);
        proof {
            lemma_wide_run_snoc(t, lead@.len() as int, prefix, wide@[j as int]);
            assert(wide@.subrange(0, j + 1) =~= prefix.push(wide@[j as int]));
            assert(out@ =~= lead@ + wide_run_words(
                t,
                lead@.len() as int,
                wide@.subrange(0, j + 1),
            ));
        }
        j = j + 1;
    }
    assert(wide@.subrange(0, wide@.len() as int) =~= wide@);
    let mut k: usize = 0;
    while k < trail.len()
        invariant
            k <= trail@.len(),
            out@ == lead@ + wide_run_words(t, lead@.len() as int, wide@) + trail@.subrange(
                0,
                k as int,
            ),
        decreases trail@.len() - k,
    {
        out.push(trail[k]);
        assert(out@ =~= lead@ + wide_run_words(t, lead@.len() as int, wide@) + trail@.subrange(
            0,
            k + 1,
        ));
        k = k + 1;
    }
    proof {
        assert(trail@.subrange(0, trail@.len() as int) =~= trail@);
        assert(out@ =~= lowered_args(t, lead@, wide@, trail@));
        lemma_run_fits(t, lead@.len() as int, wide@);
    }
    out
}

} // verus!
