use cgroup_bandwidth_limit::simple_random::{rotate_left, Rng, Splitmix64, Xoshiro256ss, GAMMA};

fn mix(state: u64) -> u64 {
    let mut z = state;
    z = (z ^ (z >> 30)).wrapping_mul(0xBF58476D1CE4E5B9);
    z = (z ^ (z >> 37)).wrapping_mul(0x94D049BB133111EB);
    z ^ (z >> 31)
}

#[test]
fn splitmix_first_numbers() {
    let g = Splitmix64::new(0);
    let (g, a) = g.gen_const();
    let (_, b) = g.gen_const();
    assert_eq!(a, mix(0x9E3779B97F4A7C15));
    assert_eq!(b, mix(0x9E3779B97F4A7C15u64.wrapping_mul(2)));
    assert_ne!(a, b);
    assert_ne!(a, 0);
}

#[test]
fn splitmix_gen_agrees_with_gen_const() {
    let mut g = Splitmix64::new(12345);
    let mut h = Splitmix64::new(12345);
    for _ in 0..100 {
        let (next, expected) = h.gen_const();
        h = next;
        assert_eq!(g.gen(), expected);
    }
}

#[test]
fn splitmix_state_advances_by_gamma() {
    let mut g = Splitmix64::new(u64::MAX);
    for k in 1..50u64 {
        let n = g.gen();
        assert_eq!(n, mix(u64::MAX.wrapping_add(GAMMA.wrapping_mul(k))));
    }
}

#[test]
fn rotation() {
    assert_eq!(rotate_left(1, 1), 2);
    assert_eq!(rotate_left(1 << 63, 1), 1);
    assert_eq!(rotate_left(0x0123_4567_89ab_cdef, 8), 0x2345_6789_abcd_ef01);
    for k in 0..200u32 {
        assert_eq!(rotate_left(0xdead_beef_0bad_f00d, k), 0xdead_beef_0bad_f00du64.rotate_left(k));
    }
    assert_eq!(rotate_left(5, 0), 5);
    assert_eq!(rotate_left(5, 64), 5);
    assert_eq!(rotate_left(5, u32::MAX), 0x8000_0000_0000_0002);
}

fn reference_xoshiro(state: &mut [u64; 4]) -> u64 {
    let res = state[1].wrapping_mul(5).rotate_left(7).wrapping_mul(9);
    let t = state[1] << 17;
    state[2] ^= state[0];
    state[3] ^= state[1];
    state[1] ^= state[2];
    state[0] ^= state[3];
    state[2] ^= t;
    state[3] = state[3].rotate_left(45);
    res
}

#[test]
fn xoshiro_is_seeded_from_splitmix() {
    for seed in [0u64, 1, 42, u64::MAX] {
        let mut state = [0u64; 4];
        for (i, word) in state.iter_mut().enumerate() {
            *word = mix(seed.wrapping_add(GAMMA.wrapping_mul(i as u64 + 1)));
        }
        let mut g = Xoshiro256ss::new(seed);
        for _ in 0..200 {
            assert_eq!(g.gen(), reference_xoshiro(&mut state));
        }
    }
}

#[test]
fn xoshiro_numbers_differ() {
    let mut g = Xoshiro256ss::new(7);
    let a = g.gen();
    let b = g.gen();
    let c = g.gen();
    assert!(a != b || b != c);
}
