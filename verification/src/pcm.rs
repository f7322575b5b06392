//! Samples as bytes: 24 bits in two's complement, lowest byte first.
use crate::bytes::byte_of;
use crate::frame::BYTES_PER_SAMPLE;
use vstd::prelude::*;

verus! {

/// The three lowest bytes of a sample, lowest first.
pub open spec fn i24_bytes(value: int) -> Seq<u8> {
    Seq::new(3, |k: int| byte_of(value, k as nat))
}

/// The sample whose bytes are the first three of `s`.
pub open spec fn i24_value(s: Seq<u8>) -> int {
    let unsigned = s[0] + 0x100 * s[1] + 0x1_0000 * s[2];
    if unsigned < 0x80_0000 {
        unsigned
    } else {
        unsigned - 0x100_0000
    }
}

/// The block in which both channels carry the samples `s`.
pub open spec fn stereo_bytes(s: Seq<i32>) -> Seq<u8>
    decreases s.len(),
{
    if s.len() == 0 {
        Seq::empty()
    } else {
        stereo_bytes(s.drop_last()) + i24_bytes(s.last() as int) + i24_bytes(s.last() as int)
    }
}

/// The three lowest bytes of `value`, lowest first.
pub fn i32_to_i24(value: i32) -> (b: [u8; 3])
    ensures
        b@ == i24_bytes(value as int),
{
    #[verifier::truncate]
    let bits: u32 = value as u32;
    assert(bits == value || bits == value + 0x1_0000_0000) by (bit_vector)
        requires
            bits == value as u32,
    ;
    proof {
        let x = value as int;
        assert((x + 0x1_0000_0000) / 0x100 == x / 0x100 + 0x100_0000);
        assert((x + 0x1_0000_0000) / 0x1_0000 == x / 0x1_0000 + 0x1_0000);
    }
    let b: [u8; 3] = [
        (bits % 0x100) as u8,
        (bits / 0x100 % 0x100) as u8,
        (bits / 0x1_0000 % 0x100) as u8,
    ];
    assert(b@ =~= i24_bytes(value as int));
    b
}

/// The block in which both channels carry the samples `samples`.
pub fn stereo(samples: &[i32]) -> (block: Vec<u8>)
    ensures
        block@ == stereo_bytes(samples@),
{
    let mut block: Vec<u8> = Vec::new();
    for k in 0..samples.len()
        invariant
            block@ == stereo_bytes(samples@.take(k as int)),
    {
        let ghost before = block@;
        let sample: [u8; 3] = i32_to_i24(samples[k]);
        block.extend_from_slice(&sample);
        block.extend_from_slice(&sample);
        assert(block@ =~= before + sample@ + sample@);
        assert(samples@.take(k + 1).drop_last() =~= samples@.take(k as int));
    }
    assert(samples@.take(samples@.len() as int) =~= samples@);
    block
}

/// A sample that 24 bits can hold is read back from its bytes.
pub proof fn law_i24_round_trip(value: int, rest: Seq<u8>)
    requires
        -0x80_0000 <= value < 0x80_0000,
    ensures
        i24_value(i24_bytes(value) + rest) == value,
{
    let unsigned = value % 0x100_0000;
    assert(value % 0x100 == unsigned % 0x100);
    assert(value / 0x100 % 0x100 == unsigned / 0x100 % 0x100);
    assert(value / 0x1_0000 % 0x100 == unsigned / 0x1_0000 % 0x100);
    assert(unsigned == unsigned % 0x100 + 0x100 * (unsigned / 0x100 % 0x100) + 0x1_0000 * (unsigned
        / 0x1_0000 % 0x100));
}

/// A block holds each sample twice, once for each channel, at its place, and the samples per
/// channel of the block are as many as went in.
pub proof fn law_stereo_samples(s: Seq<i32>)
    ensures
        stereo_bytes(s).len() == 2 * BYTES_PER_SAMPLE * s.len(),
        stereo_bytes(s).len() as int / (2 * BYTES_PER_SAMPLE) == s.len(),
        forall|k: int|
            #![trigger s[k]]
            0 <= k < s.len() ==> stereo_bytes(s).subrange(6 * k, 6 * k + 3) == i24_bytes(
                s[k] as int,
            ) && stereo_bytes(s).subrange(6 * k + 3, 6 * k + 6) == i24_bytes(s[k] as int),
    decreases s.len(),
{
    if s.len() > 0 {
        let front = s.drop_last();
        law_stereo_samples(front);
        let all = stereo_bytes(s);
        assert forall|k: int| #![trigger s[k]] 0 <= k < s.len() implies all.subrange(
            6 * k,
            6 * k + 3,
        ) == i24_bytes(s[k] as int) && all.subrange(6 * k + 3, 6 * k + 6) == i24_bytes(
            s[k] as int,
        ) by {
            if k < s.len() - 1 {
                assert(front[k] == s[k]);
                assert(all.subrange(6 * k, 6 * k + 3) =~= stereo_bytes(front).subrange(
                    6 * k,
                    6 * k + 3,
                ));
                assert(all.subrange(6 * k + 3, 6 * k + 6) =~= stereo_bytes(front).subrange(
                    6 * k + 3,
                    6 * k + 6,
                ));
            } else {
                assert(all.subrange(6 * k, 6 * k + 3) =~= i24_bytes(s[k] as int));
                assert(all.subrange(6 * k + 3, 6 * k + 6) =~= i24_bytes(s[k] as int));
            }
        }
    }
}

} // verus!
