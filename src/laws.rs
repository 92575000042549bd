//! Laws of the sponge, stated over the model that the hasher's contracts use.

use crate::sponge::{absorb, add_chunk, finish, pending, zeros, Permutation};
use vstd::arithmetic::div_mod::{
    lemma_mod_self_0, lemma_mod_sub_multiples_vanish, lemma_small_mod,
};
use vstd::prelude::*;

verus! {

/// `input` padded the way squeezing closes it: a one, then zeros up to the
/// next multiple of `rate`.
pub open spec fn padded(rate: nat, input: Seq<nat>) -> Seq<nat> {
    input.push(1) + zeros(((rate - (input.len() + 1) % rate) % (rate as int)) as nat)
}

/// The state and pending elements after one update per part, in order.
pub open spec fn update_parts<Q: Permutation>(
    q: Q,
    rate: nat,
    state: Seq<nat>,
    buffer: Seq<nat>,
    parts: Seq<Seq<nat>>,
) -> (Seq<nat>, Seq<nat>)
    decreases parts.len(),
{
    if parts.len() == 0 {
        (state, buffer)
    } else {
        update_parts(
            q,
            rate,
            absorb(q, rate, state, buffer + parts[0]),
            pending(rate, buffer + parts[0]),
            parts.drop_first(),
        )
    }
}

proof fn lemma_absorb_concat<Q: Permutation>(
    q: Q,
    rate: nat,
    state: Seq<nat>,
    x: Seq<nat>,
    y: Seq<nat>,
)
    requires
        rate > 0,
    ensures
        absorb(q, rate, state, x + y) == absorb(q, rate, absorb(q, rate, state, x), pending(rate, x) + y),
        pending(rate, x + y) == pending(rate, pending(rate, x) + y),
    decreases x.len(),
{
    if x.len() >= rate {
        let s1 = q.permutation(add_chunk(state, x.take(rate as int)));
        lemma_absorb_concat(q, rate, s1, x.skip(rate as int), y);
        assert((x + y).take(rate as int) =~= x.take(rate as int));
        assert((x + y).skip(rate as int) =~= x.skip(rate as int) + y);
    }
}

/// Updating with `a` and then with `b` leaves the same state and the same
/// pending elements as a single update with `a` followed by `b`.
pub proof fn lemma_update_split<Q: Permutation>(
    q: Q,
    rate: nat,
    state: Seq<nat>,
    buffer: Seq<nat>,
    a: Seq<nat>,
    b: Seq<nat>,
)
    requires
        rate > 0,
    ensures
        absorb(q, rate, absorb(q, rate, state, buffer + a), pending(rate, buffer + a) + b)
            == absorb(q, rate, state, buffer + (a + b)),
        pending(rate, pending(rate, buffer + a) + b) == pending(rate, buffer + (a + b)),
{
    lemma_absorb_concat(q, rate, state, buffer + a, b);
    assert(buffer + a + b =~= buffer + (a + b));
}

/// However an input is cut into parts, one update per part leaves the same
/// state and the same pending elements as a single update with the whole.
pub proof fn lemma_update_parts<Q: Permutation>(
    q: Q,
    rate: nat,
    state: Seq<nat>,
    buffer: Seq<nat>,
    parts: Seq<Seq<nat>>,
)
    requires
        rate > 0,
        buffer.len() < rate,
    ensures
        update_parts(q, rate, state, buffer, parts) == (
            absorb(q, rate, state, buffer + parts.flatten()),
            pending(rate, buffer + parts.flatten()),
        ),
    decreases parts.len(),
{
    if parts.len() == 0 {
        assert(buffer + parts.flatten() =~= buffer);
    } else {
        let s1 = absorb(q, rate, state, buffer + parts[0]);
        let b1 = pending(rate, buffer + parts[0]);
        lemma_pending_len(rate, buffer + parts[0]);
        vstd::arithmetic::div_mod::lemma_mod_bound((buffer + parts[0]).len() as int, rate as int);
        lemma_update_parts(q, rate, s1, b1, parts.drop_first());
        lemma_update_split(q, rate, state, buffer, parts[0], parts.drop_first().flatten());
    }
}

/// The number of elements left pending is the input's length modulo the rate.
pub proof fn lemma_pending_len(rate: nat, input: Seq<nat>)
    requires
        rate > 0,
    ensures
        pending(rate, input).len() == input.len() % rate,
    decreases input.len(),
{
    if input.len() < rate {
        lemma_small_mod(input.len(), rate);
    } else {
        lemma_pending_len(rate, input.skip(rate as int));
        lemma_mod_sub_multiples_vanish(input.len() as int, rate as int);
    }
}

/// Squeezing after absorbing `input` from `state` gives the state reached by
/// absorbing the padded input: `input`, a one, and zeros up to a multiple of
/// the rate, each group of `rate` added into the cells behind the capacity
/// cell and permuted.
pub proof fn lemma_squeeze_is_padded_absorb<Q: Permutation>(
    q: Q,
    rate: nat,
    state: Seq<nat>,
    input: Seq<nat>,
)
    requires
        rate > 0,
    ensures
        finish(q, absorb(q, rate, state, input), pending(rate, input)) == absorb(
            q,
            rate,
            state,
            padded(rate, input),
        ),
    decreases input.len(),
{
    let p = padded(rate, input);
    let n = input.len() + 1;
    if input.len() < rate {
        if n == rate {
            lemma_mod_self_0(rate as int);
        } else {
            lemma_small_mod(n as nat, rate);
            lemma_small_mod((rate - n) as nat, rate);
        }
        assert(p.len() == rate);
        assert(p.take(rate as int) =~= p);
        let s1 = q.permutation(add_chunk(state, p));
        assert(absorb(q, rate, s1, p.skip(rate as int)) == s1);
        assert(add_chunk(state, p) =~= add_chunk(state, input.push(1)));
    } else {
        lemma_mod_sub_multiples_vanish(n as int, rate as int);
        let rest = input.skip(rate as int);
        assert(p.take(rate as int) =~= input.take(rate as int));
        assert(p.skip(rate as int) =~= padded(rate, rest));
        let s1 = q.permutation(add_chunk(state, input.take(rate as int)));
        lemma_squeeze_is_padded_absorb(q, rate, s1, rest);
    }
}

/// For input whose length is not a multiple of the rate, squeezing a fresh
/// hasher of width `width` yields the output cell of the zero-started state
/// after absorbing the padded input group by group.
pub proof fn lemma_padding_unaligned<Q: Permutation>(q: Q, width: nat, rate: nat, input: Seq<nat>)
    requires
        rate > 0,
        input.len() % rate != 0,
    ensures
        finish(q, absorb(q, rate, zeros(width), input), pending(rate, input))[0] == absorb(
            q,
            rate,
            zeros(width),
            padded(rate, input),
        )[0],
{
    lemma_squeeze_is_padded_absorb(q, rate, zeros(width), input);
}

/// For input whose length is a multiple of the rate nothing is left
/// pending, and squeezing permutes once more over a whole padding group
/// `[1, 0, ..., 0]`.
pub proof fn lemma_padding_aligned<Q: Permutation>(q: Q, rate: nat, state: Seq<nat>, input: Seq<nat>)
    requires
        rate > 0,
        input.len() % rate == 0,
    ensures
        pending(rate, input) == Seq::<nat>::empty(),
        padded(rate, input) == input + (seq![1nat] + zeros((rate - 1) as nat)),
        finish(q, absorb(q, rate, state, input), pending(rate, input)) == absorb(
            q,
            rate,
            absorb(q, rate, state, input),
            seq![1nat] + zeros((rate - 1) as nat),
        ),
{
    lemma_pending_len(rate, input);
    assert(pending(rate, input) =~= Seq::<nat>::empty());
    lemma_mod_sub_multiples_vanish((input.len() + 1) as int, rate as int);
    let n = input.len() + 1;
    if rate == 1 {
        assert(n % 1 == 0);
    } else {
        vstd::arithmetic::div_mod::lemma_fundamental_div_mod(input.len() as int, rate as int);
        vstd::arithmetic::div_mod::lemma_mod_multiples_vanish((input.len() as int) / (rate as int), 1, rate as int);
        lemma_small_mod(1, rate);
        lemma_small_mod((rate - 1) as nat, rate);
    }
    assert(padded(rate, input) =~= input + (seq![1nat] + zeros((rate - 1) as nat)));
    let s = absorb(q, rate, state, input);
    lemma_squeeze_is_padded_absorb(q, rate, s, seq![1nat] + zeros((rate - 1) as nat));
    let g = seq![1nat] + zeros((rate - 1) as nat);
    assert(g.take(rate as int) =~= g);
    assert(add_chunk(s, g) =~= add_chunk(s, Seq::<nat>::empty().push(1)));
    let s1 = q.permutation(add_chunk(s, g));
    assert(absorb(q, rate, s1, g.skip(rate as int)) == s1);
}

/// A hasher with nothing pending that absorbs `rate * k` elements runs the
/// permutation `k` times (the count that `update` states), and squeezing
/// then runs it once more: `k + 1` in all.
pub proof fn lemma_aligned_permutation_count(rate: nat, k: nat)
    requires
        rate > 0,
    ensures
        (rate * k) / rate + 1 == k + 1,
{
    vstd::arithmetic::div_mod::lemma_div_multiples_vanish(k as int, rate as int);
    assert(rate * k == k * rate) by (nonlinear_arith);
}

} // verus!
