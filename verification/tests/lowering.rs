use scall::args64::lower_wide_args;
use scall::args64::push_wide_words;
use scall::args64::Endian;
use scall::args64::WideLayout;
use scall::args64::WordWidth;

const WIDE: u64 = 0x1234_5678_9ABC_DEF0;
const LO: u64 = 0x9ABC_DEF0;
const HI: u64 = 0x1234_5678;

fn layout(width: WordWidth, endian: Endian, aligned_pairs: bool) -> WideLayout {
    WideLayout { width, endian, aligned_pairs }
}

#[test]
fn split_little_endian_low_first() {
    let t = layout(WordWidth::W32, Endian::Little, false);
    let r = lower_wide_args(t, &vec![1, 2], &vec![WIDE], &vec![3]);
    assert_eq!(r, vec![1, 2, LO, HI, 3]);
}

#[test]
fn split_big_endian_high_first() {
    let t = layout(WordWidth::W32, Endian::Big, false);
    let r = lower_wide_args(t, &vec![1, 2], &vec![WIDE], &vec![3]);
    assert_eq!(r, vec![1, 2, HI, LO, 3]);
}

#[test]
fn split_masks_exact_halves() {
    let t = layout(WordWidth::W32, Endian::Little, false);
    let r = lower_wide_args(t, &vec![], &vec![WIDE], &vec![]);
    assert_eq!(r[0], WIDE & 0xFFFF_FFFF);
    assert_eq!(r[1], (WIDE >> 32) & 0xFFFF_FFFF);
}

#[test]
fn aligned_odd_lead_inserts_one_pad() {
    // One leading plain argument is odd: one zero pad precedes the halves.
    let t = layout(WordWidth::W32, Endian::Little, true);
    let r = lower_wide_args(t, &vec![5], &vec![WIDE], &vec![6]);
    assert_eq!(r, vec![5, 0, LO, HI, 6]);
}

#[test]
fn aligned_even_lead_inserts_no_pad() {
    let t = layout(WordWidth::W32, Endian::Little, true);
    let r0 = lower_wide_args(t, &vec![], &vec![WIDE], &vec![]);
    assert_eq!(r0, vec![LO, HI]);
    let r2 = lower_wide_args(t, &vec![5, 6], &vec![WIDE], &vec![]);
    assert_eq!(r2, vec![5, 6, LO, HI]);
}

#[test]
fn aligned_big_endian_pad_then_high_first() {
    let t = layout(WordWidth::W32, Endian::Big, true);
    let r = lower_wide_args(t, &vec![5], &vec![WIDE], &vec![]);
    assert_eq!(r, vec![5, 0, HI, LO]);
}

#[test]
fn aligned_run_pads_only_before_first_wide() {
    // After the first wide value the position is even again, so a
    // contiguous run needs at most one pad in all.
    let t = layout(WordWidth::W32, Endian::Little, true);
    let a: u64 = 0x0000_0001_0000_0002;
    let b: u64 = 0x0000_0003_0000_0004;
    let r = lower_wide_args(t, &vec![9], &vec![a, b], &vec![]);
    assert_eq!(r, vec![9, 0, 2, 1, 4, 3]);
}

#[test]
fn wide_passthrough_on_64_bit() {
    let t = layout(WordWidth::W64, Endian::Little, false);
    let r = lower_wide_args(t, &vec![1], &vec![WIDE, 7], &vec![2]);
    assert_eq!(r, vec![1, WIDE, 7, 2]);
}

#[test]
fn push_wide_words_pads_by_current_position() {
    let t = layout(WordWidth::W32, Endian::Little, true);
    let mut out: Vec<u64> = vec![1];
    push_wide_words(t, &mut out, WIDE);
    assert_eq!(out, vec![1, 0, LO, HI]);
    // The list is now even-length: a second wide value needs no pad.
    push_wide_words(t, &mut out, WIDE);
    assert_eq!(out, vec![1, 0, LO, HI, LO, HI]);
}
