use bitarray::{Base, BitArray};

#[test]
fn new_works() {
    let arr = BitArray::<u64>::new(&[true, false, false, false, false, true, true, true]);
    assert_eq!(arr.to_binary_string(), "11100001");
}

#[test]
fn new_with_too_large_iter_works() {
    let arr = BitArray::<u128>::new(&[true; 129]);
    assert_eq!(arr, BitArray::all_one())
}

#[test]
fn get_works() {
    let arr = BitArray::<u64>::new(&[true, false, false, false, false, true, true, true]);

    assert_eq!(arr.get(0), true);
    assert_eq!(arr.get(2), false);
}

#[test]
fn iter_works() {
    let input = [true, false, false, false, false, true, true, true];
    let arr = BitArray::<u64>::new(&input);

    let mut it = arr.iter();
    let mut i: usize = 0;
    while let Some(b) = it.next() {
        if i < input.len() {
            assert_eq!(input[i], b, "the first elements must be the same as in the given iter");
        } else {
            assert_eq!(false, b, "the remaining elements must be false, as they were not set")
        }
        i += 1;
    }
    assert_eq!(i, 64);
}

#[test]
fn ones_work() {
    let expected = vec![0, 2, 4, 6];
    let arr = BitArray::<u8>::new(&[true, false, true, false, true, false, true, false]);

    let mut got: Vec<u8> = Vec::new();
    let mut it = arr.ones();
    while let Some(i) = it.next() {
        got.push(i);
    }
    assert_eq!(got, expected)
}

#[test]
fn zeroes_work() {
    let expected = vec![1, 3, 5, 7];
    let arr = BitArray::<u8>::new(&[true, false, true, false, true, false, true, false]);

    let mut got: Vec<u8> = Vec::new();
    let mut it = arr.zeroes();
    while let Some(i) = it.next() {
        got.push(i);
    }
    assert_eq!(got, expected)
}

#[test]
fn full_scan_width_8() {
    let input = [true, false, false, false, false, true, true, true];
    let arr = BitArray::<u8>::new(&input);

    let mut got: Vec<bool> = Vec::new();
    let mut it = arr.iter();
    while let Some(b) = it.next() {
        got.push(b);
    }
    assert_eq!(got, input.to_vec());

    let mut ones: Vec<u8> = Vec::new();
    let mut it = arr.ones();
    while let Some(i) = it.next() {
        ones.push(i);
    }
    assert_eq!(ones, vec![0, 5, 6, 7]);

    let mut zeroes: Vec<u8> = Vec::new();
    let mut it = arr.zeroes();
    while let Some(i) = it.next() {
        zeroes.push(i);
    }
    assert_eq!(zeroes, vec![1, 2, 3, 4]);
}

#[test]
fn truncation_width_8() {
    let arr = BitArray::<u8>::new(&[true; 129]);
    assert_eq!(arr, BitArray::all_one());
    let shortened = BitArray::<u8>::new(&[true; 8]);
    assert_eq!(arr, shortened);
}

#[test]
fn rendering_width_8() {
    let arr = BitArray::<u8>::new(&[true, false, false, false, false, true, true, true]);
    assert_eq!(arr.to_binary_string(), "11100001");
}

#[test]
fn rendering_skips_leading_zeroes() {
    let arr = BitArray::<u16>::new(&[false, true]);
    assert_eq!(arr.to_binary_string(), "10");
    assert_eq!(BitArray::<u32>::default().to_binary_string(), "0");
    assert_eq!(
        BitArray::<u8>::all_one().to_binary_string(),
        "11111111"
    );
}

#[test]
fn default_is_all_false_every_width() {
    let a8 = BitArray::<u8>::default();
    for i in 0..8 {
        assert_eq!(a8.get(i), false);
    }
    let a16 = BitArray::<u16>::default();
    for i in 0..16 {
        assert_eq!(a16.get(i), false);
    }
    let a32 = BitArray::<u32>::default();
    for i in 0..32 {
        assert_eq!(a32.get(i), false);
    }
    let a64 = BitArray::<u64>::default();
    for i in 0..64 {
        assert_eq!(a64.get(i), false);
    }
    let a128 = BitArray::<u128>::default();
    for i in 0..128 {
        assert_eq!(a128.get(i), false);
    }
}

#[test]
fn all_one_is_all_true_every_width() {
    let a8 = BitArray::<u8>::all_one();
    for i in 0..8 {
        assert_eq!(a8.get(i), true);
    }
    let a16 = BitArray::<u16>::all_one();
    for i in 0..16 {
        assert_eq!(a16.get(i), true);
    }
    let a32 = BitArray::<u32>::all_one();
    for i in 0..32 {
        assert_eq!(a32.get(i), true);
    }
    let a64 = BitArray::<u64>::all_one();
    for i in 0..64 {
        assert_eq!(a64.get(i), true);
    }
    let a128 = BitArray::<u128>::all_one();
    for i in 0..128 {
        assert_eq!(a128.get(i), true);
    }
}

#[test]
fn all_one_equals_new_of_long_true_input() {
    assert_eq!(BitArray::<u16>::new(&[true; 200]), BitArray::<u16>::all_one());
    assert_eq!(BitArray::<u64>::new(&[true; 200]), BitArray::<u64>::all_one());
}

#[test]
fn set_then_get_and_others_unchanged() {
    let before = BitArray::<u32>::new(&[true, false, true, false]);
    let mut arr = before;
    arr.set(7, true);
    assert_eq!(arr.get(7), true);
    for i in 0..32 {
        if i != 7 {
            assert_eq!(arr.get(i), before.get(i));
        }
    }
    arr.set(7, false);
    assert_eq!(arr.get(7), false);
    assert_eq!(arr, before);

    arr.set(0, false);
    assert_eq!(arr.get(0), false);
    for i in 1..32 {
        assert_eq!(arr.get(i), before.get(i));
    }
}

#[test]
fn short_input_pads_with_false() {
    let arr = BitArray::<u16>::new(&[true, true, false]);
    assert_eq!(arr.get(0), true);
    assert_eq!(arr.get(1), true);
    for i in 2..16 {
        assert_eq!(arr.get(i), false);
    }
}

#[test]
fn ones_rebuild_the_array() {
    let arr = BitArray::<u64>::new(&[
        false, true, true, false, false, true, false, true, true, false, true,
    ]);
    let mut rebuilt = BitArray::<u64>::default();
    let mut it = arr.ones();
    while let Some(i) = it.next() {
        rebuilt.set(i, true);
    }
    assert_eq!(rebuilt, arr);
}

#[test]
fn ones_and_zeroes_partition_the_index_range() {
    let arr = BitArray::<u32>::new(&[false, true, false, true, true, false, false, true, true]);

    let mut ones: Vec<u8> = Vec::new();
    let mut it = arr.ones();
    while let Some(i) = it.next() {
        ones.push(i);
    }
    let mut zeroes: Vec<u8> = Vec::new();
    let mut it = arr.zeroes();
    while let Some(i) = it.next() {
        zeroes.push(i);
    }

    for w in ones.windows(2) {
        assert!(w[0] < w[1]);
    }
    for w in zeroes.windows(2) {
        assert!(w[0] < w[1]);
    }
    for i in &ones {
        assert!(!zeroes.contains(i));
        assert_eq!(arr.get(*i), true);
    }
    for i in &zeroes {
        assert_eq!(arr.get(*i), false);
    }
    assert_eq!(ones.len() + zeroes.len(), 32);
}

#[test]
fn iterators_snapshot_the_array_at_creation() {
    let mut arr = BitArray::<u8>::new(&[true, false, true]);
    let mut it = arr.iter();
    let mut ones = arr.ones();
    arr.set(1, true);
    arr.set(0, false);

    assert_eq!(it.next(), Some(true));
    assert_eq!(it.next(), Some(false));
    assert_eq!(it.next(), Some(true));

    let mut got: Vec<u8> = Vec::new();
    while let Some(i) = ones.next() {
        got.push(i);
    }
    assert_eq!(got, vec![0, 2]);
}

#[test]
fn raw_value_round_trip() {
    let arr = BitArray::<u16>::new(&[true, false, false, true, true]);
    let raw = arr.to_raw();
    assert_eq!(raw, 0b11001u16);
    assert_eq!(BitArray::from_raw(raw), arr);
}

#[test]
fn base_primitives_work() {
    assert_eq!(<u8 as Base>::max_len(), 8);
    assert_eq!(<u16 as Base>::max_len(), 16);
    assert_eq!(<u32 as Base>::max_len(), 32);
    assert_eq!(<u64 as Base>::max_len(), 64);
    assert_eq!(<u128 as Base>::max_len(), 128);

    assert_eq!(<u32 as Base>::zero(), 0);
    assert_eq!(<u32 as Base>::one(), 1);
    assert_eq!(<u32 as Base>::max(), u32::MAX);
    assert_eq!(<u32 as Base>::one_at_index(5), 32);
    assert_eq!(<u128 as Base>::one_at_index(127), 1u128 << 127);
}
