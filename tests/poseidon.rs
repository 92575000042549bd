use halo2curves_axiom::bn256::Fr;
use halo2curves_axiom::ff::{Field, PrimeField};
use poseidon_sponge::field::Fe;
use poseidon_sponge::sponge::{Permutation, Poseidon};
use rand_core::OsRng;
use std::cell::Cell;
use vstd::prelude::{nat, Seq};

const R_F: usize = 8;
const R_P: usize = 57;
const T: usize = 5;
const RATE: usize = 4;

/// A small permutation in the Hades shape: round constants, a quintic
/// S-box on every cell in full rounds and on the first cell in partial
/// rounds, and a fixed matrix mixing. It counts how often it runs.
#[derive(Debug, Clone)]
struct TestPermutation {
    r_f: usize,
    r_p: usize,
    calls: Cell<usize>,
}

fn to_fr(e: &Fe) -> Fr {
    Fr::from_repr(e.to_repr()).unwrap()
}

fn to_fe(x: Fr) -> Fe {
    Fe::from_repr(x.to_repr()).unwrap()
}

fn sbox(x: Fr) -> Fr {
    let x2 = x.square();
    x2.square() * x
}

impl Permutation for TestPermutation {
    // The two model functions only exist for the verifier; nothing runs them.
    fn permutation(&self, _state: Seq<nat>) -> Seq<nat> {
        unreachable!()
    }

    fn rounds(&self) -> (nat, nat) {
        unreachable!()
    }

    fn with_rounds(r_f: usize, r_p: usize) -> Self {
        TestPermutation { r_f, r_p, calls: Cell::new(0) }
    }

    fn permute(&self, state: &mut Vec<Fe>) {
        self.calls.set(self.calls.get() + 1);
        let width = state.len();
        let mut cells: Vec<Fr> = state.iter().map(to_fr).collect();
        let half = self.r_f / 2;
        for round in 0..(self.r_f + self.r_p) {
            for (i, c) in cells.iter_mut().enumerate() {
                *c += Fr::from((round * width + i + 1) as u64);
            }
            if round < half || round >= half + self.r_p {
                for c in cells.iter_mut() {
                    *c = sbox(*c);
                }
            } else {
                cells[0] = sbox(cells[0]);
            }
            let mut mixed = vec![Fr::ZERO; width];
            for (i, m) in mixed.iter_mut().enumerate() {
                for (j, c) in cells.iter().enumerate() {
                    *m += Fr::from((i * width + j + 2) as u64) * c;
                }
            }
            cells = mixed;
        }
        *state = cells.into_iter().map(to_fe).collect();
    }
}

fn gen_random_vec(len: usize) -> Vec<Fe> {
    (0..len).map(|_| to_fe(Fr::random(OsRng))).collect()
}

fn zero_state(width: usize) -> Vec<Fe> {
    vec![Fe::zero(); width]
}

/// Feeds `inputs` (a multiple of `rate` long) group by group, each group
/// behind a zero capacity cell, and reads the output cell.
fn by_hand(perm: &TestPermutation, width: usize, rate: usize, inputs: &[Fe]) -> Fe {
    assert!(inputs.len() % rate == 0);
    let mut state = zero_state(width);
    for chunk in inputs.chunks(rate) {
        let mut round_inputs = vec![Fe::zero()];
        round_inputs.extend_from_slice(chunk);
        for (cell, x) in state.iter_mut().zip(round_inputs.iter()) {
            *cell = cell.plus(x);
        }
        perm.permute(&mut state);
    }
    state[0]
}

fn same(a: &Fe, b: &Fe) -> bool {
    a.to_repr() == b.to_repr()
}

fn check_padding<const W: usize, const R: usize>() {
    let perm = TestPermutation::with_rounds(R_F, R_P);
    for number_of_iters in 1..25 {
        let mut poseidon = Poseidon::<TestPermutation, W, R>::new(R_F, R_P);
        let mut inputs = vec![];
        for number_of_inputs in 0..=number_of_iters {
            let chunk = gen_random_vec(number_of_inputs);
            poseidon.update(&chunk[..]);
            inputs.extend(chunk);
        }
        let result_0 = poseidon.squeeze();

        inputs.push(Fe::one());
        let offset = inputs.len() % R;
        if offset != 0 {
            inputs.extend(vec![Fe::zero(); R - offset]);
        }
        let result_1 = by_hand(&perm, W, R, &inputs);
        assert!(same(&result_0, &result_1));
    }
}

#[test]
fn poseidon_padding_with_last_chunk_len_is_not_rate_multiples() {
    let mut poseidon = Poseidon::<TestPermutation, T, RATE>::new(R_F, R_P);
    let number_of_permutation = 5;
    let number_of_inputs = RATE * number_of_permutation - 1;
    let inputs = gen_random_vec(number_of_inputs);

    poseidon.update(&inputs[..]);
    let result_0 = poseidon.squeeze();

    let perm = TestPermutation::with_rounds(R_F, R_P);
    let mut inputs = inputs.clone();
    inputs.push(Fe::one());
    assert!(inputs.len() % RATE == 0);
    let result_1 = by_hand(&perm, T, RATE, &inputs);

    assert!(same(&result_0, &result_1));
}

#[test]
fn poseidon_padding_with_last_chunk_len_is_rate_multiples() {
    let mut poseidon = Poseidon::<TestPermutation, T, RATE>::new(R_F, R_P);
    let number_of_permutation = 5;
    let number_of_inputs = RATE * number_of_permutation;
    let inputs = gen_random_vec(number_of_inputs);
    poseidon.update(&inputs[..]);
    let result_0 = poseidon.squeeze();

    let perm = TestPermutation::with_rounds(R_F, R_P);
    let mut inputs = inputs.clone();
    let mut extra_padding = vec![Fe::zero(); RATE];
    extra_padding[0] = Fe::one();
    inputs.extend(extra_padding);

    assert!(inputs.len() % RATE == 0);
    let result_1 = by_hand(&perm, T, RATE, &inputs);

    assert!(same(&result_0, &result_1));
}

#[test]
fn test_padding_3_2() {
    check_padding::<3, 2>();
}

#[test]
fn test_padding_4_3() {
    check_padding::<4, 3>();
}

#[test]
fn test_padding_5_4() {
    check_padding::<5, 4>();
}

#[test]
fn test_padding_6_5() {
    check_padding::<6, 5>();
}

#[test]
fn test_padding_7_6() {
    check_padding::<7, 6>();
}

#[test]
fn test_padding_8_7() {
    check_padding::<8, 7>();
}

#[test]
fn test_padding_9_8() {
    check_padding::<9, 8>();
}

#[test]
fn test_padding_10_9() {
    check_padding::<10, 9>();
}

#[test]
fn empty_input_squeezes_one_padding_group() {
    let mut poseidon = Poseidon::<TestPermutation, T, RATE>::new(R_F, R_P);
    poseidon.update(&[]);
    let result_0 = poseidon.squeeze();
    let perm = TestPermutation::with_rounds(R_F, R_P);
    let padding = vec![Fe::one(), Fe::zero(), Fe::zero(), Fe::zero()];
    assert!(same(&result_0, &by_hand(&perm, T, RATE, &padding)));
}

#[test]
fn split_updates_match_one_update() {
    let inputs = gen_random_vec(23);
    let mut whole = Poseidon::<TestPermutation, T, RATE>::new(R_F, R_P);
    whole.update(&inputs);
    let expected = whole.squeeze();

    let cuts: Vec<Vec<usize>> = vec![
        vec![0, 23],
        vec![0, 0, 1, 1, 23],
        vec![0, 3, 4, 8, 9, 23],
        vec![0, 1, 2, 3, 4, 5, 6, 7, 8, 9, 10, 11, 12, 13, 14, 15, 16, 17, 18, 19, 20, 21, 22, 23],
        vec![0, 7, 7, 19, 23, 23],
    ];
    for cut in cuts {
        let mut parts = Poseidon::<TestPermutation, T, RATE>::new(R_F, R_P);
        for w in cut.windows(2) {
            parts.update(&inputs[w[0]..w[1]]);
        }
        assert!(same(&parts.squeeze(), &expected));
    }
}

#[test]
fn reset_matches_fresh_hasher() {
    let follow_up = gen_random_vec(9);
    let mut fresh = Poseidon::<TestPermutation, T, RATE>::new(R_F, R_P);
    fresh.update(&follow_up);
    let expected = fresh.squeeze();

    let mut used = Poseidon::<TestPermutation, T, RATE>::new(R_F, R_P);
    used.update(&gen_random_vec(6));
    used.squeeze();
    used.update(&gen_random_vec(3));
    used.reset();
    used.update(&follow_up);
    assert!(same(&used.squeeze(), &expected));
}

#[test]
fn squeeze_and_reset_is_squeeze_then_reset() {
    let inputs = gen_random_vec(10);
    let next = gen_random_vec(5);

    let mut a = Poseidon::<TestPermutation, T, RATE>::new(R_F, R_P);
    a.update(&inputs);
    let ra = a.squeeze_and_reset();
    a.update(&next);
    let na = a.squeeze();

    let mut b = Poseidon::<TestPermutation, T, RATE>::new(R_F, R_P);
    b.update(&inputs);
    let rb = b.squeeze();
    b.reset();
    b.update(&next);
    let nb = b.squeeze();

    assert!(same(&ra, &rb));
    assert!(same(&na, &nb));
}

#[test]
fn squeeze_without_reset_keeps_state() {
    let mut a = Poseidon::<TestPermutation, T, RATE>::new(R_F, R_P);
    let r1 = a.squeeze();
    let r2 = a.squeeze();
    assert!(!same(&r1, &r2));
}

#[test]
fn aligned_input_costs_one_extra_permutation() {
    for k in 0..6 {
        let mut poseidon = Poseidon::<TestPermutation, T, RATE>::new(R_F, R_P);
        poseidon.update(&gen_random_vec(RATE * k));
        assert_eq!(poseidon.permutation().calls.get(), k);
        poseidon.squeeze();
        assert_eq!(poseidon.permutation().calls.get(), k + 1);
    }
}

#[test]
fn default_uses_eight_and_fifty_seven_rounds() {
    let inputs = gen_random_vec(7);
    let mut d = Poseidon::<TestPermutation, T, RATE>::default();
    d.update(&inputs);
    let mut n = Poseidon::<TestPermutation, T, RATE>::new(8, 57);
    n.update(&inputs);
    assert!(same(&d.squeeze(), &n.squeeze()));
    let d = Poseidon::<TestPermutation, T, RATE>::default();
    assert_eq!((d.permutation().r_f, d.permutation().r_p), (8, 57));
}

#[test]
fn finalize_bytes_reverses_the_canonical_encoding() {
    let data: Vec<u8> = vec![0, 1, 2, 250, 255, 17, 3];
    let mut poseidon = Poseidon::<TestPermutation, T, RATE>::new(R_F, R_P);
    poseidon.update_bytes(&data[..3]);
    poseidon.update_bytes(&data[3..]);
    let out = poseidon.finalize_bytes();

    let perm = TestPermutation::with_rounds(R_F, R_P);
    let mut lifted: Vec<Fe> = data.iter().map(|b| to_fe(Fr::from(*b as u64))).collect();
    lifted.push(Fe::one());
    while lifted.len() % RATE != 0 {
        lifted.push(Fe::zero());
    }
    let mut expected = by_hand(&perm, T, RATE, &lifted).to_repr();
    expected.reverse();
    assert_eq!(out, expected);
}

#[test]
fn block_size_is_capacity_times_rate() {
    assert_eq!(Poseidon::<TestPermutation, T, RATE>::block_size(), 253 * 4);
    assert_eq!(Poseidon::<TestPermutation, 3, 2>::block_size(), 506);
}

#[test]
fn field_addition_wraps_at_the_modulus() {
    let minus_one = to_fe(-Fr::ONE);
    let two = Fe::from_byte(2);
    let sum = minus_one.plus(&two);
    assert_eq!(sum.to_repr(), Fe::one().to_repr());
    let five = Fe::from_byte(2).plus(&Fe::from_byte(3));
    assert_eq!(five.to_repr(), Fe::from_byte(5).to_repr());
    assert_eq!(five.to_repr()[0], 5);
}

#[test]
fn from_repr_rejects_non_canonical_encodings() {
    let mut modulus = [0u8; 32];
    let hex = "30644e72e131a029b85045b68181585d2833e84879b9709143e1f593f0000001";
    for i in 0..32 {
        modulus[31 - i] = u8::from_str_radix(&hex[2 * i..2 * i + 2], 16).unwrap();
    }
    assert!(Fe::from_repr(modulus).is_none());
    assert!(Fe::from_repr([0xff; 32]).is_none());
    let mut below = modulus;
    below[0] -= 1;
    let e = Fe::from_repr(below).unwrap();
    assert_eq!(e.to_repr(), below);
    assert_eq!(e.to_repr(), (-Fr::ONE).to_repr());
    assert_eq!(Fe::from_byte(200).to_repr(), Fr::from(200u64).to_repr());
}
