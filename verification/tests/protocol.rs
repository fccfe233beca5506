use xcq::protocol::{pack_halves, unpack_halves};

#[test]
fn pack_puts_the_first_half_high() {
    assert_eq!(pack_halves(0x1000, 3), (0x1000u64 << 32) | 3);
    assert_eq!(pack_halves(0, 0), 0);
    assert_eq!(pack_halves(u32::MAX, u32::MAX), u64::MAX);
    assert_eq!(pack_halves(1, 0), 1u64 << 32);
}

#[test]
fn unpack_gives_back_what_was_packed() {
    for (hi, lo) in [(0u32, 0u32), (0x2_0000, 8), (1, u32::MAX), (u32::MAX, 17)] {
        assert_eq!(unpack_halves(pack_halves(hi, lo)), (hi, lo));
    }
}

#[test]
fn unpack_reads_the_high_half_first() {
    assert_eq!(unpack_halves((1u64 << 32) | 2), (1, 2));
}

#[test]
fn every_word_is_the_packing_of_its_halves() {
    for r in [0u64, 1, 0x1234_5678_9abc_def0, u64::MAX] {
        let (hi, lo) = unpack_halves(r);
        assert_eq!(pack_halves(hi, lo), r);
    }
}
