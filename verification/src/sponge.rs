//! Hashing with the Poseidon2 sponge: eight entries of rate, four of
//! capacity, inputs overwriting the rate, no padding.
//!
//! Two hash functions are given. `hash_n_to_hash` absorbs the input a chunk
//! of eight at a time; `hash_no_pad` runs a hasher that takes one element
//! at a time. `lemma_hashers_agree` shows that they compute the same
//! function.

use crate::extension::{ExtensionField, Fp5};
use crate::field::{elements_view, encodings_view, fp_reduce, BaseField, MODULUS};
use crate::poseidon2::{
    lemma_permutation_width, permutation, reduce_all, state_view, Poseidon2Params, Poseidon2Spec,
};
use vstd::prelude::*;

verus! {

/// The number of state entries that input overwrites and output is read
/// from.
pub const RATE: usize = 8;

/// The state before anything is absorbed: all zero.
pub open spec fn initial_state() -> Seq<int> {
    Seq::new(12, |i: int| 0)
}

/// The state with its first entries replaced by the chunk.
pub open spec fn overwrite(state: Seq<int>, chunk: Seq<int>) -> Seq<int> {
    Seq::new(
        12,
        |i: int|
            if i < chunk.len() {
                chunk[i]
            } else {
                state[i]
            },
    )
}

/// The state after the input has been absorbed chunk by chunk, each chunk
/// of at most eight elements followed by one permutation. An empty input
/// leaves the state untouched.
pub open spec fn absorb(spec: Poseidon2Spec, state: Seq<int>, input: Seq<int>) -> Seq<int>
    decreases input.len(),
{
    if input.len() == 0 {
        state
    } else if input.len() <= 8 {
        permutation(spec, overwrite(state, input))
    } else {
        absorb(
            spec,
            permutation(spec, overwrite(state, input.subrange(0, 8))),
            input.subrange(8, input.len() as int),
        )
    }
}

/// The first `m` entries of the state after the input has been absorbed,
/// for `m` up to the rate.
pub open spec fn hash_n_to_m(spec: Poseidon2Spec, input: Seq<int>, m: int) -> Seq<int> {
    absorb(spec, initial_state(), input).subrange(0, m)
}

/// The four-element digest of the chunk-wise sponge.
pub open spec fn sponge_digest(spec: Poseidon2Spec, input: Seq<int>) -> Seq<int> {
    hash_n_to_m(spec, input, 4)
}

/// The state of the element-wise hasher after the rest of the input:
/// `filled` entries of the rate have been written since the last
/// permutation. Each element is written at the next entry; the state is
/// permuted when the rate is full, and at the end if something is pending.
pub open spec fn stream(spec: Poseidon2Spec, state: Seq<int>, filled: int, input: Seq<int>) -> Seq<
    int,
>
    decreases input.len(),
{
    if input.len() == 0 {
        if filled > 0 {
            permutation(spec, state)
        } else {
            state
        }
    } else {
        let written = state.update(filled, input[0]);
        if filled + 1 == 8 {
            stream(spec, permutation(spec, written), 0, input.drop_first())
        } else {
            stream(spec, written, filled + 1, input.drop_first())
        }
    }
}

/// The four-element digest of the element-wise hasher.
pub open spec fn hasher_digest(spec: Poseidon2Spec, input: Seq<int>) -> Seq<int> {
    stream(spec, initial_state(), 0, input).subrange(0, 4)
}

/// The extension-field element that an input hashes to: the first five
/// entries of the sponge state.
pub open spec fn hash_to_fp5(spec: Poseidon2Spec, input: Seq<int>) -> Fp5 {
    let s = absorb(spec, initial_state(), input);
    Fp5 { c0: s[0], c1: s[1], c2: s[2], c3: s[3], c4: s[4] }
}

/// Absorbing keeps the state at twelve entries.
pub proof fn lemma_absorb_width(spec: Poseidon2Spec, state: Seq<int>, input: Seq<int>)
    requires
        state.len() == 12,
    ensures
        absorb(spec, state, input).len() == 12,
    decreases input.len(),
{
    if input.len() == 0 {
    } else if input.len() <= 8 {
        lemma_permutation_width(spec, overwrite(state, input));
    } else {
        let next = permutation(spec, overwrite(state, input.subrange(0, 8)));
        lemma_permutation_width(spec, overwrite(state, input.subrange(0, 8)));
        lemma_absorb_width(spec, next, input.subrange(8, input.len() as int));
    }
}

/// The empty input is hashed without a permutation: both hash functions
/// give the all-zero digest, whatever the instance.
pub proof fn lemma_empty_digest(spec: Poseidon2Spec)
    ensures
        sponge_digest(spec, Seq::<int>::empty()) == seq![0int, 0int, 0int, 0int],
        hasher_digest(spec, Seq::<int>::empty()) == seq![0int, 0int, 0int, 0int],
        hash_to_fp5(spec, Seq::<int>::empty()) == Fp5::zero(),
{
    assert(sponge_digest(spec, Seq::<int>::empty()) =~= seq![0int, 0int, 0int, 0int]);
    assert(hasher_digest(spec, Seq::<int>::empty()) =~= seq![0int, 0int, 0int, 0int]);
}

/// The element-wise hasher, `chunk` written since the last permutation of
/// `state`, ends where the chunk-wise sponge ends on the chunk followed by
/// the rest of the input.
proof fn lemma_stream_is_absorb(
    spec: Poseidon2Spec,
    state: Seq<int>,
    chunk: Seq<int>,
    rest: Seq<int>,
)
    requires
        state.len() == 12,
        chunk.len() < 8,
    ensures
        stream(spec, overwrite(state, chunk), chunk.len() as int, rest) == absorb(
            spec,
            state,
            chunk + rest,
        ),
    decreases rest.len(),
{
    let filled = chunk.len() as int;
    let all = chunk + rest;
    if rest.len() == 0 {
        assert(all =~= chunk);
        if filled == 0 {
            assert(overwrite(state, chunk) =~= state);
        }
    } else {
        let longer = chunk.push(rest[0]);
        let tail = rest.drop_first();
        let written = overwrite(state, chunk).update(filled, rest[0]);
        assert(written =~= overwrite(state, longer));
        assert(longer + tail =~= all);
        if filled + 1 == 8 {
            let next = permutation(spec, written);
            lemma_permutation_width(spec, written);
            let none = Seq::<int>::empty();
            lemma_stream_is_absorb(spec, next, none, tail);
            assert(overwrite(next, none) =~= next);
            assert(none + tail =~= tail);
            assert(all.subrange(0, 8) =~= longer);
            assert(all.subrange(8, all.len() as int) =~= tail);
            if tail.len() == 0 {
                assert(all =~= longer);
            }
        } else {
            lemma_stream_is_absorb(spec, state, longer, tail);
        }
    }
}

/// The two hash functions agree on every input.
pub proof fn lemma_hashers_agree(spec: Poseidon2Spec, input: Seq<int>)
    ensures
        hasher_digest(spec, input) == sponge_digest(spec, input),
{
    let none = Seq::<int>::empty();
    lemma_stream_is_absorb(spec, initial_state(), none, input);
    assert(overwrite(initial_state(), none) =~= initial_state());
    assert(none + input =~= input);
}

/// A hash output: four field elements.
#[derive(Clone, Copy, PartialEq, Eq, Debug)]
pub struct Digest {
    elements: [BaseField; 4],
}

impl View for Digest {
    type V = Seq<int>;

    closed spec fn view(&self) -> Seq<int> {
        Seq::new(4, |i: int| self.elements[i]@)
    }
}

impl Digest {
    /// The four elements in order.
    pub fn elements(&self) -> (r: [BaseField; 4])
        ensures
            elements_view(r@) == self@,
    {
        assert(elements_view(self.elements@) =~= self@);
        self.elements
    }

    /// The canonical encodings of the four elements.
    pub fn to_canonical_u64s(&self) -> (r: [u64; 4])
        ensures
            encodings_view(r@) == self@,
            forall|i: int| 0 <= i < 4 ==> r[i] < MODULUS,
    {
        let r = [
            self.elements[0].to_canonical_u64(),
            self.elements[1].to_canonical_u64(),
            self.elements[2].to_canonical_u64(),
            self.elements[3].to_canonical_u64(),
        ];
        assert(encodings_view(r@) =~= self@);
        r
    }
}

/// Absorbing a nonempty input is absorbing its first chunk, permuting, and
/// absorbing what is left.
proof fn lemma_absorb_step(spec: Poseidon2Spec, state: Seq<int>, rest: Seq<int>, take: int)
    requires
        rest.len() > 0,
        take == if rest.len() < 8 {
            rest.len() as int
        } else {
            8
        },
    ensures
        absorb(spec, state, rest) == absorb(
            spec,
            permutation(spec, overwrite(state, rest.subrange(0, take))),
            rest.subrange(take, rest.len() as int),
        ),
{
    if rest.len() <= 8 {
        assert(rest.subrange(0, take) =~= rest);
    }
}

/// Writes `take` of the elements, from `pos` on, over the first entries of
/// the state.
fn overwrite_rate(state: &mut [BaseField; 12], elements: &[BaseField], pos: usize, take: usize)
    requires
        take <= 8,
        pos + take <= elements.len(),
    ensures
        state_view(*final(state)) == overwrite(
            state_view(*old(state)),
            elements_view(elements@).subrange(pos as int, pos + take),
        ),
{
    let ghost input = elements_view(elements@);
    let ghost before = state_view(*state);
    let mut i: usize = 0;
    assert(state_view(*state) =~= overwrite(before, input.subrange(pos as int, pos as int)));
    while i < take
        invariant
            input == elements_view(elements@),
            pos + take <= elements.len(),
            take <= 8,
            i <= take,
            before.len() == 12,
            state_view(*state) == overwrite(before, input.subrange(pos as int, pos + i)),
        decreases take - i,
    {
        let ghost prev = state_view(*state);
        let x = elements[pos + i];
        state[i] = x;
        proof {
            assert(input[pos + i] == x@);
            assert(state_view(*state) =~= prev.update(i as int, x@));
            assert(prev.update(i as int, x@) =~= overwrite(
                before,
                input.subrange(pos as int, pos + i + 1),
            ));
        }
        i += 1;
    }
}

/// The field elements that raw encodings stand for, each reduced.
pub fn reduce_to_elements(data: &[u64]) -> (elements: Vec<BaseField>)
    ensures
        elements_view(elements@) == reduce_all(data@),
{
    let mut elements: Vec<BaseField> = Vec::new();
    let mut i: usize = 0;
    while i < data.len()
        invariant
            i <= data.len(),
            elements.len() == i,
            forall|j: int| 0 <= j < i ==> elements[j]@ == fp_reduce(data[j] as int),
        decreases data.len() - i,
    {
        elements.push(BaseField::new(data[i]));
        i += 1;
    }
    assert(elements_view(elements@) =~= reduce_all(data@));
    elements
}

/// The state of the chunk-wise sponge after all of the elements.
pub fn absorb_elements(params: &Poseidon2Params, elements: &[BaseField]) -> (state: [BaseField;
    12])
    ensures
        state_view(state) == absorb(params@, initial_state(), elements_view(elements@)),
{
    let ghost input = elements_view(elements@);
    let n = elements.len();
    let z = BaseField::zero();
    let mut state = [z;12];
    assert(state_view(state) =~= initial_state());
    assert(input.subrange(0, n as int) =~= input);
    let mut pos: usize = 0;
    while pos < n
        invariant
            n == elements.len(),
            input == elements_view(elements@),
            pos <= n,
            absorb(params@, state_view(state), input.subrange(pos as int, n as int)) == absorb(
                params@,
                initial_state(),
                input,
            ),
        decreases n - pos,
    {
        let take = if n - pos < RATE {
            n - pos
        } else {
            RATE
        };
        let ghost rest = input.subrange(pos as int, n as int);
        proof {
            lemma_absorb_step(params@, state_view(state), rest, take as int);
            assert(rest.subrange(0, take as int) =~= input.subrange(pos as int, pos + take));
            assert(rest.subrange(take as int, rest.len() as int) =~= input.subrange(
                pos + take,
                n as int,
            ));
        }
        overwrite_rate(&mut state, elements, pos, take);
        state = params.permute(&state);
        pos = pos + take;
    }
    state
}

/// The state of the chunk-wise sponge after all of `data`, each raw value
/// reduced into the field on entry.
pub fn absorb_no_pad(params: &Poseidon2Params, data: &[u64]) -> (state: [BaseField; 12])
    ensures
        state_view(state) == absorb(params@, initial_state(), reduce_all(data@)),
{
    let elements = reduce_to_elements(data);
    absorb_elements(params, elements.as_slice())
}

/// The extension-field element that the elements hash to.
pub fn hash_elements_to_extension(params: &Poseidon2Params, elements: &[BaseField]) -> (r:
    ExtensionField)
    ensures
        r@ == hash_to_fp5(params@, elements_view(elements@)),
{
    let state = absorb_elements(params, elements);
    ExtensionField::new(state[0], state[1], state[2], state[3], state[4])
}

/// The chunk-wise sponge hash: absorb everything, then read the first four
/// entries of the state.
pub fn hash_n_to_hash(params: &Poseidon2Params, data: &[u64]) -> (digest: Digest)
    ensures
        digest@ == sponge_digest(params@, reduce_all(data@)),
{
    let state = absorb_no_pad(params, data);
    proof {
        lemma_absorb_width(params@, initial_state(), reduce_all(data@));
    }
    let digest = Digest { elements: [state[0], state[1], state[2], state[3]] };
    assert(digest@ =~= sponge_digest(params@, reduce_all(data@)));
    digest
}

/// The extension-field element that `data` hashes to: absorb everything,
/// then read the first five entries of the state as coefficients.
pub fn hash_to_extension(params: &Poseidon2Params, data: &[u64]) -> (r: ExtensionField)
    ensures
        r@ == hash_to_fp5(params@, reduce_all(data@)),
{
    let state = absorb_no_pad(params, data);
    ExtensionField::new(state[0], state[1], state[2], state[3], state[4])
}

/// The element-wise hasher: write each element at the next entry of the
/// rate, permute when the rate is full and once more at the end if
/// anything is pending, then read the first four entries of the state.
pub fn hash_no_pad(params: &Poseidon2Params, data: &[u64]) -> (digest: Digest)
    ensures
        digest@ == hasher_digest(params@, reduce_all(data@)),
{
    let ghost input = reduce_all(data@);
    let n = data.len();
    let z = BaseField::zero();
    let mut state = [z;12];
    assert(state_view(state) =~= initial_state());
    assert(input.subrange(0, n as int) =~= input);
    let mut filled: usize = 0;
    let mut pos: usize = 0;
    while pos < n
        invariant
            n == data.len(),
            input == reduce_all(data@),
            pos <= n,
            filled < 8,
            stream(params@, state_view(state), filled as int, input.subrange(pos as int, n as int))
                == stream(params@, initial_state(), 0, input),
        decreases n - pos,
    {
        let ghost rest = input.subrange(pos as int, n as int);
        let ghost before = state_view(state);
        let x = BaseField::new(data[pos]);
        state[filled] = x;
        assert(rest[0] == x@);
        assert(state_view(state) =~= before.update(filled as int, rest[0]));
        assert(input.subrange(pos as int + 1, n as int) =~= rest.drop_first());
        filled += 1;
        if filled == RATE {
            state = params.permute(&state);
            filled = 0;
        }
        pos += 1;
    }
    assert(input.subrange(n as int, n as int) =~= Seq::<int>::empty());
    if filled > 0 {
        state = params.permute(&state);
    }
    let digest = Digest { elements: [state[0], state[1], state[2], state[3]] };
    proof {
        let end = stream(params@, initial_state(), 0, input);
        assert(state_view(state) == end);
        assert(digest@ =~= end.subrange(0, 4));
    }
    digest
}

} // verus!
