use vstd::prelude::*;
use crate::hash::{spec_selector, selector_of};

verus! {

/// The big-endian bytes of a 64-bit word, most significant first.
pub open spec fn spec_u64_be(v: u64) -> Seq<u8> {
    Seq::new(8, |i: int| ((v >> ((7 - i) * 8)) & 0xff) as u8)
}

/// A 32-byte call-data word holding `v` in its low 8 bytes.
pub open spec fn spec_word(v: u64) -> Seq<u8> {
    Seq::new(24, |i: int| 0u8) + spec_u64_be(v)
}

/// The argument words of a call, concatenated.
pub open spec fn spec_words(args: Seq<u64>) -> Seq<u8>
    decreases args.len(),
{
    if args.len() == 0 {
        Seq::<u8>::empty()
    } else {
        spec_word(args[0]) + spec_words(args.skip(1))
    }
}

pub proof fn lemma_spec_words_len(args: Seq<u64>)
    ensures
        spec_words(args).len() == 32 * args.len(),
    decreases args.len(),
{
    if args.len() > 0 {
        lemma_spec_words_len(args.skip(1));
    }
}

/// The call data of an invocation: the four-byte selector of the signature
/// followed by one 32-byte word per argument.
pub open spec fn spec_encode_calldata(sig: Seq<char>, args: Seq<u64>) -> Seq<u8> {
    spec_selector(sig) + spec_words(args)
}

/// The 64-bit word read from the low 8 bytes of argument `i` of the call
/// data, big-endian.
pub open spec fn spec_decode_arg(data: Seq<u8>, i: int) -> u64 {
    spec_u64_from_be(data.subrange(4 + 32 * i + 24, 4 + 32 * i + 32))
}

/// Whether the call data holds at least `n` argument words.
pub open spec fn spec_has_args(data: Seq<u8>, n: int) -> bool {
    data.len() >= 4 + 32 * n
}

/// The big-endian value of a byte string.
pub open spec fn spec_u64_from_be(b: Seq<u8>) -> u64
    decreases b.len(),
{
    if b.len() == 0 {
        0
    } else {
        ((spec_u64_from_be(b.drop_last()) as nat * 256 + b.last() as nat) % 0x10000000000000000) as u64
    }
}

fn u64_be(v: u64) -> (r: Vec<u8>)
    ensures
        r@ == spec_u64_be(v),
{
    let mut r: Vec<u8> = Vec::new();
    let mut i: usize = 0;
    while i < 8
        invariant
            0 <= i <= 8,
            r@.len() == i,
            forall|j: int| 0 <= j < i ==> r@[j] == ((v >> ((7 - j) * 8)) & 0xff) as u8,
        decreases 8 - i,
    {
        let shift: u64 = (7 - i as u64) * 8;
        r.push(((v >> shift) & 0xff) as u8);
        i = i + 1;
    }
    proof {
        assert(r@ =~= spec_u64_be(v));
    }
    r
}

/// Encodes a call: selector of the signature, then each argument as a
/// 32-byte big-endian word.
pub fn encode_calldata(sig: &str, args: &Vec<u64>) -> (r: Vec<u8>)
    ensures
        r@ == spec_encode_calldata(sig@, args@),
        r@.len() == 4 + 32 * args@.len(),
{
    let mut r: Vec<u8> = selector_of(sig);
    let mut i: usize = 0;
    while i < args.len()
        invariant
            0 <= i <= args@.len(),
            r@ == spec_selector(sig@) + spec_words(args@.subrange(0, i as int)),
            r@.len() == 4 + 32 * i,
        decreases args@.len() - i,
    {
        let word: Vec<u8> = u64_be(args[i]);
        let mut j: usize = 0;
        while j < 24
            invariant
                0 <= j <= 24,
                word@ == spec_u64_be(args@[i as int]),
                0 <= i < args@.len(),
                r@ == spec_selector(sig@) + spec_words(args@.subrange(0, i as int)) + Seq::new(
                    j as nat,
                    |t: int| 0u8,
                ),
                r@.len() == 4 + 32 * i + j,
            decreases 24 - j,
        {
            r.push(0u8);
            proof {
                assert(r@ =~= spec_selector(sig@) + spec_words(args@.subrange(0, i as int))
                    + Seq::new((j + 1) as nat, |t: int| 0u8));
            }
            j = j + 1;
        }
        let mut t: usize = 0;
        while t < 8
            invariant
                0 <= t <= 8,
                word@ == spec_u64_be(args@[i as int]),
                0 <= i < args@.len(),
                word@.len() == 8,
                r@ == spec_selector(sig@) + spec_words(args@.subrange(0, i as int)) + Seq::new(
                    24,
                    |x: int| 0u8,
                ) + word@.subrange(0, t as int),
                r@.len() == 4 + 32 * i + 24 + t,
            decreases 8 - t,
        {
            r.push(word[t]);
            proof {
                assert(r@ =~= spec_selector(sig@) + spec_words(args@.subrange(0, i as int))
                    + Seq::new(24, |x: int| 0u8) + word@.subrange(0, t + 1 as int));
            }
            t = t + 1;
        }
        proof {
            let pre = args@.subrange(0, i as int);
            let cur = args@.subrange(0, i + 1 as int);
            assert(word@.subrange(0, 8) =~= word@);
            assert(spec_word(args@[i as int]) =~= Seq::new(24, |x: int| 0u8) + word@);
            lemma_words_snoc(pre, args@[i as int]);
            assert(cur =~= pre.push(args@[i as int]));
            assert(r@ =~= spec_selector(sig@) + spec_words(cur));
        }
        i = i + 1;
    }
    proof {
        assert(args@.subrange(0, args@.len() as int) =~= args@);
        lemma_spec_words_len(args@);
    }
    r
}

/// Appending one argument extends the word stream by one word.
proof fn lemma_words_snoc(args: Seq<u64>, v: u64)
    ensures
        spec_words(args.push(v)) == spec_words(args) + spec_word(v),
    decreases args.len(),
{
    if args.len() == 0 {
        assert(args.push(v).skip(1) =~= Seq::<u64>::empty());
        assert(args.push(v)[0] == v);
        assert(spec_words(args.push(v)) == spec_word(v) + spec_words(args.push(v).skip(1)));
        assert(spec_words(Seq::<u64>::empty()) == Seq::<u8>::empty());
        assert(spec_word(v) + Seq::<u8>::empty() =~= spec_word(v));
        assert(spec_words(args) + spec_word(v) =~= spec_word(v));
    } else {
        assert(args.push(v).skip(1) =~= args.skip(1).push(v));
        lemma_words_snoc(args.skip(1), v);
        assert(spec_words(args.push(v)) =~= spec_words(args) + spec_word(v));
    }
}

/// Reads argument `i` back out of encoded call data.
pub fn decode_arg(data: &Vec<u8>, i: usize) -> (r: u64)
    requires
        spec_has_args(data@, i + 1),
    ensures
        r == spec_decode_arg(data@, i as int),
{
    let n: usize = data.len();
    let base: usize = 4 + 32 * i + 24;
    let mut v: u64 = 0;
    let mut j: usize = 0;
    while j < 8
        invariant
            0 <= j <= 8,
            base == 4 + 32 * i + 24,
            n == data@.len(),
            data@.len() >= 4 + 32 * (i + 1),
            base + 8 <= n,
            v == spec_u64_from_be(data@.subrange(base as int, base + j as int)),
        decreases 8 - j,
    {
        let b: u8 = data[base + j];
        proof {
            let cur = data@.subrange(base as int, base + (j + 1) as int);
            assert(cur.drop_last() =~= data@.subrange(base as int, base + j as int));
            assert(cur.last() == data@[base + j]);
        }
        v = ((v as u128 * 256 + b as u128) % 0x10000000000000000) as u64;
        j = j + 1;
    }
    v
}

} // verus!
