//! The sponge: absorbing field elements in groups of the rate, padding, and
//! squeezing one element.

use crate::field::{field_capacity, le_value, modulus, Fe};
use vstd::prelude::*;

verus! {

/// The values of a sequence of field elements.
pub open spec fn values(s: Seq<Fe>) -> Seq<nat> {
    s.map_values(|e: Fe| e@)
}

/// A state of `n` zero values.
pub open spec fn zeros(n: nat) -> Seq<nat> {
    Seq::new(n, |i: int| 0nat)
}

/// The fixed-width permutation that the sponge is built over (round
/// constants, S-boxes and mixing). Its provider implements this trait; the
/// sponge relies on nothing else of it. `permutation` being a function, the
/// permutation is deterministic: it depends on the state it is given and on
/// what it was built with, nothing more.
pub trait Permutation: Sized {
    /// What `permute` makes of a state, as a sequence of values.
    spec fn permutation(&self, state: Seq<nat>) -> Seq<nat>;

    /// The round counts, full then partial, that the permutation was built with.
    spec fn rounds(&self) -> (nat, nat);

    /// Builds the permutation of `r_f` full and `r_p` partial rounds.
    fn with_rounds(r_f: usize, r_p: usize) -> (r: Self)
        ensures
            r.rounds() == (r_f as nat, r_p as nat),
    ;

    /// Applies the permutation to `state` in place.
    fn permute(&self, state: &mut Vec<Fe>)
        ensures
            final(state)@.len() == old(state)@.len(),
            values(final(state)@) == self.permutation(values(old(state)@)),
    ;
}

/// `state` with `chunk` added into the cells from index 1 on (a zero goes
/// into every other cell), modulo the field's modulus.
pub open spec fn add_chunk(state: Seq<nat>, chunk: Seq<nat>) -> Seq<nat> {
    Seq::new(
        state.len(),
        |i: int|
            ((state[i] + if 1 <= i <= chunk.len() {
                chunk[i - 1]
            } else {
                0
            }) % modulus()) as nat,
    )
}

/// The state after absorbing every full group of `rate` values of `input`,
/// one permutation per group; a shorter tail is left out.
pub open spec fn absorb<Q: Permutation>(q: Q, rate: nat, state: Seq<nat>, input: Seq<nat>) -> Seq<nat>
    decreases input.len(),
{
    if rate == 0 || input.len() < rate {
        state
    } else {
        absorb(q, rate, q.permutation(add_chunk(state, input.take(rate as int))), input.skip(rate as int))
    }
}

/// The tail of `input` after its full groups of `rate` values.
pub open spec fn pending(rate: nat, input: Seq<nat>) -> Seq<nat>
    decreases input.len(),
{
    if rate == 0 || input.len() < rate {
        input
    } else {
        pending(rate, input.skip(rate as int))
    }
}

/// The state after squeezing: the pending values and a closing one are added
/// in, and the state is permuted once more.
pub open spec fn finish<Q: Permutation>(q: Q, state: Seq<nat>, tail: Seq<nat>) -> Seq<nat> {
    q.permutation(add_chunk(state, tail.push(1)))
}

/// Bytes lifted one by one to the field elements of the same value.
pub open spec fn lift(bytes: Seq<u8>) -> Seq<nat> {
    bytes.map_values(|b: u8| b as nat)
}

/// Full rounds of the permutation that `default` builds.
pub const DEFAULT_FULL_ROUNDS: usize = 8;

/// Partial rounds of the permutation that `default` builds.
pub const DEFAULT_PARTIAL_ROUNDS: usize = 57;

/// A sponge hasher over a permutation of width `T` that takes `RATE` input
/// elements per permutation and yields a single element.
#[derive(Clone)]
pub struct Poseidon<P, const T: usize, const RATE: usize> {
    state: Vec<Fe>,
    perm: P,
    absorbing: Vec<Fe>,
    permutations: Ghost<nat>,
}

/// `state` with the first `j` values of `chunk` added in from index 1 on.
spec fn add_prefix(state: Seq<nat>, chunk: Seq<nat>, j: int) -> Seq<nat> {
    Seq::new(
        state.len(),
        |i: int|
            if 1 <= i <= j {
                ((state[i] + chunk[i - 1]) % modulus()) as nat
            } else {
                state[i]
            },
    )
}

/// Adds `chunk[start..start + len]` into `state` from index 1 on; cells past
/// the end of `state` are not reached.
fn add_into_state(state: &mut Vec<Fe>, chunk: &Vec<Fe>, start: usize, len: usize)
    requires
        start + len <= chunk@.len(),
    ensures
        final(state)@.len() == old(state)@.len(),
        values(final(state)@) == add_chunk(
            values(old(state)@),
            values(chunk@.subrange(start as int, start + len)),
        ),
{
    let ghost old_cells = state@;
    let ghost s0 = values(state@);
    let ghost c = values(chunk@.subrange(start as int, start + len));
    let n = chunk.len();
    let mut j: usize = 0;
    while j < len
        invariant
            start + len <= n,
            n == chunk@.len(),
            j <= len,
            s0 == values(old_cells),
            state@.len() == s0.len(),
            c == values(chunk@.subrange(start as int, start + len)),
            values(state@) == add_prefix(s0, c, j as int),
        decreases len - j,
    {
        if j + 1 < state.len() {
            assert(c[j as int] == chunk@[start + j]@);
            let ghost before = state@;
            assert(values(before)[j + 1] == before[j + 1]@);
            assert(add_prefix(s0, c, j as int)[j + 1] == s0[j + 1]);
            let v = state[j + 1].plus(&chunk[start + j]);
            state.set(j + 1, v);
            assert(values(state@) =~= values(before).update(j + 1, v@));
            assert(values(state@) =~= add_prefix(s0, c, j + 1));
        } else {
            assert(add_prefix(s0, c, j as int) =~= add_prefix(s0, c, j + 1));
        }
        j = j + 1;
    }
    proof {
        assert forall|i: int| 0 <= i < s0.len() implies add_prefix(s0, c, len as int)[i] == add_chunk(s0, c)[i] by {
            if !(1 <= i <= len) {
                old_cells[i].lemma_reduced();
                vstd::arithmetic::div_mod::lemma_small_mod(s0[i], modulus());
            }
        }
        assert(values(state@) =~= add_chunk(s0, c));
    }
}

/// A copy of `v[from..to]`.
fn copy_range(v: &Vec<Fe>, from: usize, to: usize) -> (r: Vec<Fe>)
    requires
        from <= to <= v@.len(),
    ensures
        r@ == v@.subrange(from as int, to as int),
{
    let mut r: Vec<Fe> = Vec::new();
    let mut i: usize = from;
    while i < to
        invariant
            from <= i <= to <= v@.len(),
            r@ == v@.subrange(from as int, i as int),
        decreases to - i,
    {
        r.push(v[i]);
        i = i + 1;
        assert(r@ =~= v@.subrange(from as int, i as int));
    }
    r
}

impl<P: Permutation, const T: usize, const RATE: usize> Poseidon<P, T, RATE> {
    /// The shape that every operation keeps: `T` cells, and fewer than `RATE`
    /// pending elements.
    pub closed spec fn wf(&self) -> bool {
        &&& self.state@.len() == T
        &&& (self.absorbing@.len() < RATE || self.absorbing@.len() == 0)
    }

    /// The values of the state cells.
    pub closed spec fn state_values(&self) -> Seq<nat> {
        values(self.state@)
    }

    /// The values absorbed since the last permutation, not yet permuted.
    pub closed spec fn pending_values(&self) -> Seq<nat> {
        values(self.absorbing@)
    }

    /// The permutation the hasher runs.
    pub closed spec fn permutation_used(&self) -> P {
        self.perm
    }

    /// How many times the permutation has run since construction.
    pub closed spec fn permutation_count(&self) -> nat {
        self.permutations@
    }

    fn zero_state() -> (r: Vec<Fe>)
        ensures
            r@.len() == T,
            values(r@) == zeros(T as nat),
    {
        let mut r: Vec<Fe> = Vec::new();
        let mut i: usize = 0;
        while i < T
            invariant
                i <= T,
                r@.len() == i,
                forall|k: int| 0 <= k < i ==> #[trigger] r@[k]@ == 0,
            decreases T - i,
        {
            r.push(Fe::zero());
            i = i + 1;
        }
        assert(values(r@) =~= zeros(T as nat));
        r
    }

    /// A hasher in the initial state, over the permutation of `r_f` full and
    /// `r_p` partial rounds.
    pub fn new(r_f: usize, r_p: usize) -> (r: Self)
        ensures
            r.wf(),
            r.permutation_used().rounds() == (r_f as nat, r_p as nat),
            r.state_values() == zeros(T as nat),
            r.pending_values() == Seq::<nat>::empty(),
            r.permutation_count() == 0,
    {
        let r = Poseidon {
            state: Self::zero_state(),
            perm: P::with_rounds(r_f, r_p),
            absorbing: Vec::new(),
            permutations: Ghost(0),
        };
        assert(r.pending_values() =~= Seq::<nat>::empty());
        r
    }

    /// The permutation the hasher runs.
    pub fn permutation(&self) -> (r: &P)
        ensures
            *r == self.permutation_used(),
    {
        &self.perm
    }

    /// Absorbs `elements`: each full group of `RATE` pending elements is
    /// added into the state and permuted; a shorter tail stays pending.
    pub fn update(&mut self, elements: &[Fe])
        requires
            old(self).wf(),
            RATE > 0,
        ensures
            final(self).wf(),
            final(self).permutation_used() == old(self).permutation_used(),
            final(self).state_values() == absorb(
                old(self).permutation_used(),
                RATE as nat,
                old(self).state_values(),
                old(self).pending_values() + values(elements@),
            ),
            final(self).pending_values() == pending(
                RATE as nat,
                old(self).pending_values() + values(elements@),
            ),
            final(self).permutation_count() == old(self).permutation_count() + (
            old(self).pending_values().len() + elements@.len()) / (RATE as nat),
    {
        let mut input = copy_range(&self.absorbing, 0, self.absorbing.len());
        let mut k: usize = 0;
        while k < elements.len()
            invariant
                k <= elements@.len(),
                input@ == self.absorbing@ + elements@.take(k as int),
            decreases elements@.len() - k,
        {
            input.push(elements[k]);
            k = k + 1;
            assert(input@ =~= self.absorbing@ + elements@.take(k as int));
        }
        let ghost whole = values(input@);
        assert(elements@.take(k as int) =~= elements@);
        assert(whole =~= values(self.absorbing@) + values(elements@));
        let ghost s0 = values(self.state@);
        let ghost q = self.perm;
        let ghost count0 = self.permutations@;
        let ghost mut groups: nat = 0;
        let mut pos: usize = 0;
        assert(whole.skip(0) =~= whole);
        while input.len() - pos >= RATE
            invariant
                RATE > 0,
                pos <= input@.len(),
                whole == values(input@),
                self.state@.len() == T,
                self.perm == q,
                absorb(q, RATE as nat, values(self.state@), whole.skip(pos as int)) == absorb(
                    q,
                    RATE as nat,
                    s0,
                    whole,
                ),
                pending(RATE as nat, whole.skip(pos as int)) == pending(RATE as nat, whole),
                pos == groups * RATE,
                self.permutations@ == count0 + groups,
            decreases input@.len() - pos,
        {
            let ghost rest = whole.skip(pos as int);
            add_into_state(&mut self.state, &input, pos, RATE);
            self.perm.permute(&mut self.state);
            self.permutations = Ghost(self.permutations@ + 1);
            proof {
                groups = groups + 1;
                assert(groups * RATE == (groups - 1) * RATE + RATE) by (nonlinear_arith);
                assert(values(input@.subrange(pos as int, pos + RATE)) =~= rest.take(RATE as int));
                assert(rest.skip(RATE as int) =~= whole.skip(pos + RATE));
            }
            pos = pos + RATE;
        }
        let tail = copy_range(&input, pos, input.len());
        proof {
            vstd::arithmetic::div_mod::lemma_fundamental_div_mod_converse(
                input@.len() as int,
                RATE as int,
                groups as int,
                input@.len() - pos,
            );
            assert(values(tail@) =~= whole.skip(pos as int));
        }
        self.absorbing = tail;
    }

    /// Closes the input: the pending elements and a closing one are added
    /// into the state, which is permuted once more; yields the output cell.
    /// The state is kept for further use.
    pub fn squeeze(&mut self) -> (r: Fe)
        requires
            old(self).wf(),
            RATE > 0,
            T > 0,
        ensures
            final(self).wf(),
            final(self).permutation_used() == old(self).permutation_used(),
            final(self).state_values() == finish(
                old(self).permutation_used(),
                old(self).state_values(),
                old(self).pending_values(),
            ),
            final(self).pending_values() == Seq::<nat>::empty(),
            final(self).permutation_count() == old(self).permutation_count() + 1,
            r@ == final(self).state_values()[0],
    {
        let mut last_chunk = copy_range(&self.absorbing, 0, self.absorbing.len());
        last_chunk.push(Fe::one());
        let len = last_chunk.len();
        add_into_state(&mut self.state, &last_chunk, 0, len);
        self.perm.permute(&mut self.state);
        self.permutations = Ghost(self.permutations@ + 1);
        proof {
            assert(values(last_chunk@.subrange(0, len as int)) =~= values(old(self).absorbing@).push(1));
        }
        self.absorbing = Vec::new();
        assert(self.pending_values() =~= Seq::<nat>::empty());
        self.state[0]
    }

    /// Brings the hasher back to its initial state; the permutation is kept.
    pub fn reset(&mut self)
        requires
            old(self).wf(),
        ensures
            final(self).wf(),
            final(self).permutation_used() == old(self).permutation_used(),
            final(self).state_values() == zeros(T as nat),
            final(self).pending_values() == Seq::<nat>::empty(),
            final(self).permutation_count() == old(self).permutation_count(),
    {
        self.state = Self::zero_state();
        self.absorbing = Vec::new();
        assert(self.pending_values() =~= Seq::<nat>::empty());
    }

    /// Squeezes, then resets: yields what `squeeze` yields and leaves the
    /// hasher in its initial state.
    pub fn squeeze_and_reset(&mut self) -> (r: Fe)
        requires
            old(self).wf(),
            RATE > 0,
            T > 0,
        ensures
            final(self).wf(),
            final(self).permutation_used() == old(self).permutation_used(),
            r@ == finish(
                old(self).permutation_used(),
                old(self).state_values(),
                old(self).pending_values(),
            )[0],
            final(self).state_values() == zeros(T as nat),
            final(self).pending_values() == Seq::<nat>::empty(),
            final(self).permutation_count() == old(self).permutation_count() + 1,
    {
        let result = self.squeeze();
        self.reset();
        result
    }

    /// Absorbs bytes, each lifted to the field element of the same value.
    pub fn update_bytes(&mut self, data: &[u8])
        requires
            old(self).wf(),
            RATE > 0,
        ensures
            final(self).wf(),
            final(self).permutation_used() == old(self).permutation_used(),
            final(self).state_values() == absorb(
                old(self).permutation_used(),
                RATE as nat,
                old(self).state_values(),
                old(self).pending_values() + lift(data@),
            ),
            final(self).pending_values() == pending(
                RATE as nat,
                old(self).pending_values() + lift(data@),
            ),
            final(self).permutation_count() == old(self).permutation_count() + (
            old(self).pending_values().len() + data@.len()) / (RATE as nat),
    {
        let mut lifted: Vec<Fe> = Vec::new();
        let mut i: usize = 0;
        while i < data.len()
            invariant
                i <= data@.len(),
                lifted@.len() == i,
                forall|k: int| 0 <= k < i ==> #[trigger] lifted@[k]@ == data@[k] as nat,
            decreases data@.len() - i,
        {
            lifted.push(Fe::from_byte(data[i]));
            i = i + 1;
        }
        assert(values(lifted@) =~= lift(data@));
        self.update(lifted.as_slice());
    }

    /// Squeezes and yields the output element's canonical little-endian
    /// encoding in reverse byte order; consumes the hasher.
    pub fn finalize_bytes(self) -> (out: [u8; 32])
        requires
            self.wf(),
            RATE > 0,
            T > 0,
        ensures
            le_value(out@.reverse()) == finish(
                self.permutation_used(),
                self.state_values(),
                self.pending_values(),
            )[0],
    {
        let mut hasher = self;
        let result = hasher.squeeze_and_reset();
        let repr = result.to_repr();
        let mut out = [0u8; 32];
        let mut i: usize = 0;
        while i < 32
            invariant
                i <= 32,
                forall|k: int| 0 <= k < i ==> out@[k] == repr@[31 - k],
            decreases 32 - i,
        {
            out[i] = repr[31 - i];
            i = i + 1;
        }
        assert(out@.reverse() =~= repr@);
        out
    }

    /// The nominal block size: the field's capacity in bits times `RATE`.
    pub fn block_size() -> (r: usize)
        requires
            253 * RATE <= usize::MAX,
        ensures
            r == 253 * RATE,
    {
        (field_capacity() as usize) * RATE
    }
}

impl<P: Permutation, const T: usize, const RATE: usize> Default for Poseidon<P, T, RATE> {
    /// A hasher in the initial state, over the permutation of eight full and
    /// fifty-seven partial rounds.
    fn default() -> (r: Self)
        ensures
            r.wf(),
            r.permutation_used().rounds() == (DEFAULT_FULL_ROUNDS as nat, DEFAULT_PARTIAL_ROUNDS as nat),
            r.state_values() == zeros(T as nat),
            r.pending_values() == Seq::<nat>::empty(),
            r.permutation_count() == 0,
    {
        Self::new(DEFAULT_FULL_ROUNDS, DEFAULT_PARTIAL_ROUNDS)
    }
}

} // verus!
