use pac_rand::{EntropyUnavailable, PacRand, PacRandNum};

#[test]
fn four_u8_lanes_worked_example() {
    let mut g = PacRand::<u8, 4>::from_seed([0, 1, 2, 3]);
    assert_eq!(*g.update(), [1, 6, 11, 16]);
    assert_eq!(*g.update(), [6, 31, 56, 81]);
    assert_eq!(*g.state(), [6, 31, 56, 81]);
}

#[test]
fn state_of_explicit_seed_is_the_seed() {
    let g = PacRand::<i32, 3>::from_seed([-7, 0, i32::MAX]);
    assert_eq!(*g.state(), [-7, 0, i32::MAX]);
}

#[test]
fn splat_fills_every_lane() {
    let g = PacRand::<u64, 8>::splat(42);
    assert_eq!(*g.state(), [42u64; 8]);
}

#[test]
fn one_advance_is_times_five_plus_one_wrapping() {
    let mut a = PacRand::<u16, 4>::from_seed([0, 13107, 65535, 40000]);
    assert_eq!(*a.update(), [1, 0, 65532, 3393]);

    let mut b = PacRand::<i8, 4>::from_seed([-1, 25, 26, i8::MIN]);
    assert_eq!(*b.update(), [-4, 126, -125, -127]);

    let mut c = PacRand::<u128, 2>::from_seed([u128::MAX, 7]);
    assert_eq!(*c.update(), [u128::MAX - 3, 36]);

    let mut d = PacRand::<i64, 2>::from_seed([i64::MAX, -2]);
    assert_eq!(*d.update(), [i64::MAX.wrapping_mul(5).wrapping_add(1), -9]);

    let mut e = PacRand::<usize, 2>::from_seed([usize::MAX, 3]);
    assert_eq!(*e.update(), [usize::MAX - 3, 16]);

    let mut f = PacRand::<isize, 1>::from_seed([isize::MIN]);
    assert_eq!(*f.update(), [isize::MIN + 1]);

    let mut g = PacRand::<u32, 1>::from_seed([858993459]);
    assert_eq!(*g.update(), [0]);

    let mut h = PacRand::<i16, 1>::from_seed([-6554]);
    assert_eq!(*h.update(), [32767]);

    let mut k = PacRand::<i128, 1>::from_seed([i128::MIN + 1]);
    assert_eq!(*k.update(), [i128::MIN + 6]);
}

#[test]
fn same_seed_same_run() {
    let seed = [9u32, 1_000_000_007, 0, u32::MAX];
    let mut a = PacRand::<u32, 4>::from_seed(seed);
    let mut b = PacRand::<u32, 4>::from_seed(seed);
    for _ in 0..1000 {
        a.update();
        b.update();
    }
    assert_eq!(a.state(), b.state());
}

#[test]
fn lane_depends_on_its_own_seed_only() {
    let mut a = PacRand::<i16, 4>::from_seed([1, 2, 3, 4]);
    let mut b = PacRand::<i16, 4>::from_seed([-500, 2, 999, 4]);
    for _ in 0..77 {
        a.update();
        b.update();
    }
    assert_eq!(a.state()[1], b.state()[1]);
    assert_eq!(a.state()[3], b.state()[3]);
    assert_ne!(a.state()[0], b.state()[0]);
}

#[test]
fn splat_lanes_stay_equal() {
    let mut g = PacRand::<u8, 16>::splat(200);
    for _ in 0..300 {
        let s = *g.update();
        assert!(s.iter().all(|&x| x == s[0]));
    }
    let mut h = PacRand::<i64, 4>::splat(-123456789);
    for _ in 0..50 {
        let s = *h.update();
        assert!(s.iter().all(|&x| x == s[0]));
    }
}

#[test]
fn u8_lanes_have_period_256() {
    let seed: [u8; 8] = [0, 1, 2, 3, 127, 128, 200, 255];
    let mut g = PacRand::<u8, 8>::from_seed(seed);
    for step in 1..=256 {
        let s = *g.update();
        if step < 256 {
            assert_ne!(s[0], seed[0]);
        }
    }
    assert_eq!(*g.state(), seed);
}

#[test]
fn i8_and_u16_lanes_return_after_full_period() {
    let seed: [i8; 4] = [i8::MIN, -1, 0, i8::MAX];
    let mut g = PacRand::<i8, 4>::from_seed(seed);
    for _ in 0..256 {
        g.update();
    }
    assert_eq!(*g.state(), seed);

    let seed16: [u16; 2] = [0, 54321];
    let mut h = PacRand::<u16, 2>::from_seed(seed16);
    for _ in 0..65536 {
        h.update();
    }
    assert_eq!(*h.state(), seed16);
}

#[test]
fn u8_lane_visits_every_value_once() {
    let mut g = PacRand::<u8, 1>::from_seed([17]);
    let mut seen = [false; 256];
    for _ in 0..256 {
        let x = g.update()[0] as usize;
        assert!(!seen[x]);
        seen[x] = true;
    }
    assert!(seen.iter().all(|&b| b));
}

#[test]
fn bytes_are_read_little_endian_per_lane() {
    let g = PacRand::<u16, 2>::from_le_bytes(&[0x01, 0x02, 0xff, 0xff]);
    assert_eq!(*g.state(), [0x0201, 0xffff]);

    let h = PacRand::<i8, 3>::from_le_bytes(&[0xff, 0x80, 0x7f]);
    assert_eq!(*h.state(), [-1, -128, 127]);

    let k = PacRand::<i32, 1>::from_le_bytes(&[0x00, 0x00, 0x00, 0x80]);
    assert_eq!(*k.state(), [i32::MIN]);

    let bytes: Vec<u8> = (1..=32).collect();
    let m = PacRand::<u128, 2>::from_le_bytes(&bytes);
    let mut lo = [0u8; 16];
    let mut hi = [0u8; 16];
    lo.copy_from_slice(&bytes[..16]);
    hi.copy_from_slice(&bytes[16..]);
    assert_eq!(*m.state(), [u128::from_le_bytes(lo), u128::from_le_bytes(hi)]);

    let w = std::mem::size_of::<usize>();
    let mut ub = vec![0u8; 2 * w];
    ub[0] = 5;
    ub[2 * w - 1] = 0x80;
    let u = PacRand::<isize, 2>::from_le_bytes(&ub);
    assert_eq!(*u.state(), [5, isize::MIN]);
}

#[test]
fn failed_entropy_request_is_an_error() {
    let r = PacRand::<u32, 2>::from_entropy(false, &[1, 2, 3, 4, 5, 6, 7, 8]);
    assert!(matches!(r, Err(EntropyUnavailable)));
}

#[test]
fn filled_entropy_request_seeds_from_its_bytes() {
    let r = PacRand::<u32, 2>::from_entropy(true, &[1, 0, 0, 0, 0, 0, 0, 0x80]);
    match r {
        Ok(g) => assert_eq!(*g.state(), [1, 0x8000_0000]),
        Err(_) => panic!("a filled request gives a generator"),
    }
}

#[test]
fn random_constructions_differ() {
    let mut equal = 0;
    for _ in 0..100 {
        let a = PacRand::<u64, 4>::new().expect("entropy");
        let b = PacRand::<u64, 4>::new().expect("entropy");
        if a.state() == b.state() {
            equal += 1;
        }
    }
    assert_eq!(equal, 0);
}

#[test]
fn random_construction_then_advance_follows_recurrence() {
    let mut g = PacRand::<u8, 32>::new().expect("entropy");
    let before = *g.state();
    let after = *g.update();
    for i in 0..32 {
        assert_eq!(after[i], before[i].wrapping_mul(5).wrapping_add(1));
    }
}

#[test]
fn constants_are_five_and_one() {
    assert_eq!(<u8 as PacRandNum>::FIVE, 5);
    assert_eq!(<i128 as PacRandNum>::ONE, 1);
    assert_eq!(<isize as PacRandNum>::FIVE, 5);
    assert_eq!(<usize as PacRandNum>::ONE, 1);
}
