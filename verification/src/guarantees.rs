//! What callers and servers can rely on, in plain numbers and bytes.
//!
//! Most laws here speak of a call: of the values that went in and of what came out of it,
//! or of several calls in a row. They use the formats' own words as little as they can, so
//! that they can be held against what a server expects and what a user asked for.
use crate::bytes::{
    be32, be64, le32, lemma_be64_round_trip, lemma_le32_round_trip, u16_from_le_bytes,
    u32_le_bytes,
};
use crate::frame::{
    assemble, law_receive_frames, receive, samples_per_channel, StreamFormat,
};
use crate::header::{decimal, law_header_round_trip, lemma_wire_size, read_header};
use crate::pcm::{i24_bytes, i32_to_i24, law_stereo_samples, stereo, stereo_bytes};
use crate::processor::{law_fresh_before_launch, silence, Added, AudioProcessor};
use crate::signal::Signal;
use frame_header::{EncodingFlag, Endianness};
use vstd::prelude::*;

verus! {

/// The four bytes of a number, lowest first, add up to the number.
pub proof fn law_u32_le_bytes(x: u32, b: [u8; 4])
    requires
        call_ensures(u32_le_bytes, (x,), b),
    ensures
        b@[0] + 0x100 * b@[1] + 0x1_0000 * b@[2] + 0x100_0000 * b@[3] == x,
{
    lemma_le32_round_trip(x as int, Seq::empty());
    assert(le32(x as int) + Seq::<u8>::empty() =~= le32(x as int));
}

/// The number that two bytes stand for, lowest first.
pub proof fn law_u16_from_le_bytes(b: [u8; 2], x: u16)
    requires
        call_ensures(u16_from_le_bytes, (b,), x),
    ensures
        x == b@[0] + 0x100 * b@[1],
{
}

/// The bytes of a sample are its 24 lowest bits, lowest byte first: the number that they stand
/// for differs from the sample by a multiple of 2 to the power of 24.
pub proof fn law_i32_to_i24(value: i32, b: [u8; 3])
    requires
        call_ensures(i32_to_i24, (value,), b),
    ensures
        (b@[0] + 0x100 * b@[1] + 0x1_0000 * b@[2] - value) % 0x100_0000 == 0,
{
    lemma_i24_bytes(value as int);
}

proof fn lemma_i24_bytes(value: int)
    ensures
        ({
            let b = i24_bytes(value);
            &&& b.len() == 3
            &&& (b[0] + 0x100 * b[1] + 0x1_0000 * b[2] - value) % 0x100_0000 == 0
        }),
{
    let b = i24_bytes(value);
    let above = value / 0x100_0000;
    assert(value == value % 0x100 + 0x100 * (value / 0x100));
    assert(value / 0x100 == value / 0x100 % 0x100 + 0x100 * (value / 0x1_0000));
    assert(value / 0x1_0000 == value / 0x1_0000 % 0x100 + 0x100 * above);
    assert(b[0] + 0x100 * b[1] + 0x1_0000 * b[2] - value == -(0x100_0000 * above));
}

/// A block of two channels holds six bytes for each sample: three for the left channel and the
/// same three for the right one, which are the 24 lowest bits of the sample.
pub proof fn law_stereo(samples: &[i32], block: Vec<u8>)
    requires
        call_ensures(stereo, (samples,), block),
    ensures
        block@.len() == 6 * samples@.len(),
        forall|k: int|
            #![trigger samples@[k]]
            0 <= k < samples@.len() ==> {
                &&& (block@[6 * k] + 0x100 * block@[6 * k + 1] + 0x1_0000 * block@[6 * k + 2]
                    - samples@[k]) % 0x100_0000 == 0
                &&& block@[6 * k + 3] == block@[6 * k]
                &&& block@[6 * k + 4] == block@[6 * k + 1]
                &&& block@[6 * k + 5] == block@[6 * k + 2]
            },
{
    let s = samples@;
    law_stereo_samples(s);
    assert(block@.len() == 6 * s.len());
    assert forall|k: int| #![trigger samples@[k]] 0 <= k < s.len() implies ({
        &&& (block@[6 * k] + 0x100 * block@[6 * k + 1] + 0x1_0000 * block@[6 * k + 2] - s[k])
            % 0x100_0000 == 0
        &&& block@[6 * k + 3] == block@[6 * k]
        &&& block@[6 * k + 4] == block@[6 * k + 1]
        &&& block@[6 * k + 5] == block@[6 * k + 2]
    }) by {
        assert(6 * k + 6 <= block@.len());
        let left = stereo_bytes(s).subrange(6 * k, 6 * k + 3);
        let right = stereo_bytes(s).subrange(6 * k + 3, 6 * k + 6);
        lemma_i24_bytes(s[k] as int);
        assert(left == i24_bytes(s[k] as int));
        assert(right == left);
        assert(block@[6 * k] == left[0] && block@[6 * k + 1] == left[1] && block@[6 * k + 2]
            == left[2]);
        assert(block@[6 * k + 3] == right[0] && block@[6 * k + 4] == right[1] && block@[6 * k
            + 5] == right[2]);
    }
}

/// A signal starts down.
pub proof fn law_signal_new(s: Signal)
    requires
        call_ensures(Signal::new, (), s),
    ensures
        !s.ready,
{
}

/// A raised signal is up, and a waiting thread is notified exactly when it was down.
pub proof fn law_signal_raise(s: &mut Signal, notify: bool)
    requires
        call_ensures(Signal::raise, (s,), notify),
    ensures
        final(s).ready,
        notify <==> !old(s).ready,
{
}

/// The transmit thread waits exactly while the signal is down and the shutdown flag is not set.
pub proof fn law_signal_keep_waiting(s: &Signal, shutdown: bool, b: bool)
    requires
        call_ensures(Signal::keep_waiting, (s, shutdown), b),
    ensures
        b <==> !s.ready && !shutdown,
{
}

/// A signal that was taken down is down.
pub proof fn law_signal_lower(s: &mut Signal)
    requires
        call_ensures(Signal::lower, (s,), ()),
    ensures
        !final(s).ready,
{
}

/// The samples per channel are as many whole ones as the block holds, at three bytes for each
/// channel.
pub proof fn law_samples_per_channel(frame_size: usize, num_channels: u8, samples: usize)
    requires
        call_ensures(samples_per_channel, (frame_size, num_channels), samples),
        num_channels > 0,
    ensures
        samples * (3 * num_channels) <= frame_size < (samples + 1) * (3 * num_channels),
{
    lemma_whole_samples(frame_size as int, num_channels, samples as int);
}

/// As many whole samples as there are in `n` bytes.
pub(crate) proof fn lemma_whole_samples(n: int, num_channels: u8, samples: int)
    requires
        num_channels > 0,
        n >= 0,
        samples == n / (num_channels * 3),
    ensures
        samples * (3 * num_channels) <= n < (samples + 1) * (3 * num_channels),
        0 <= samples <= n,
        n % (3 * num_channels) == 0 ==> samples * num_channels * 3 == n,
{
    let block = num_channels * 3;
    vstd::arithmetic::div_mod::lemma_fundamental_div_mod(n, block);
    assert(0 <= n % block < block) by (nonlinear_arith)
        requires
            block > 0,
    ;
    assert(block * samples == samples * (3 * num_channels)) by (nonlinear_arith)
        requires
            block == num_channels * 3,
    ;
    assert(block * samples == samples * num_channels * 3) by (nonlinear_arith)
        requires
            block == num_channels * 3,
    ;
    assert((samples + 1) * (3 * num_channels) == samples * (3 * num_channels) + 3 * num_channels)
        by (nonlinear_arith);
    assert(0 <= samples <= n) by (nonlinear_arith)
        requires
            block >= 1,
            n >= 0,
            0 <= n - block * samples < block,
    ;
}

/// The id is the one that the user fixed, whatever the server replied, or else the number that
/// the server replied, lowest byte first.
pub proof fn law_assigned_id(format: &StreamFormat, reply: [u8; 2], id: u64)
    requires
        call_ensures(StreamFormat::assigned_id, (format, reply), id),
    ensures
        format.frame_id matches Some(fixed) ==> id == fixed,
        format.frame_id is None ==> id == reply@[0] + 0x100 * reply@[1],
{
}

/// The length that is announced counts three bytes for each sample of each channel, the bytes
/// of the header, and its own four bytes.
pub proof fn law_announced_size(format: &StreamFormat, header: &Vec<u8>, total: u32)
    requires
        call_ensures(StreamFormat::announced_size, (format, header), total),
    ensures
        total == (format.samples_per_channel * format.num_channels * 3 + header@.len() + 4)
            % 0x1_0000_0000,
{
}

/// A frame that was put together is its length, lowest byte first, then the header, then the
/// audio, both unchanged. Nothing is left of what was there before.
pub proof fn law_assemble(total: u32, header: &Vec<u8>, payload: &Vec<u8>, out: &mut Vec<u8>)
    requires
        call_ensures(assemble, (total, header, payload, out), ()),
    ensures
        ({
            let s = final(out)@;
            &&& s.len() == 4 + header@.len() + payload@.len()
            &&& s[0] + 0x100 * s[1] + 0x1_0000 * s[2] + 0x100_0000 * s[3] == total
            &&& s.subrange(4, 4int + header@.len()) == header@
            &&& s.skip(4int + header@.len()) == payload@
        }),
{
    let s = final(out)@;
    lemma_le32_round_trip(total as int, header@ + payload@);
    assert(s =~= le32(total as int) + (header@ + payload@));
    assert(s.subrange(4, 4int + header@.len()) =~= header@);
    assert(s.skip(4int + header@.len()) =~= payload@);
}

/// Frames can have a header if and only if there are 1 to 16 channels, the sample rate is one
/// of four, and the 16 lowest bits of the sample count make at most 4095.
pub proof fn law_valid(format: StreamFormat)
    ensures
        format.valid() <==> {
            &&& 1 <= format.num_channels <= 16
            &&& format.sample_rate == 16000 || format.sample_rate == 44100 || format.sample_rate
                == 48000 || format.sample_rate == 96000
            &&& format.samples_per_channel as int % 0x1_0000 <= 4095
        },
{
}

/// Why frames cannot have a header: the channels, the sample count or the sample rate, in this
/// order.
pub proof fn law_refusal(format: StreamFormat)
    ensures
        format.num_channels < 1 || format.num_channels > 16 ==> format.refusal()
            == "Channel count must be between 1 and 16"@,
        1 <= format.num_channels <= 16 && format.samples_per_channel as int % 0x1_0000 > 4095
            ==> format.refusal() == "Sample size exceeds maximum value (4095)"@,
        1 <= format.num_channels <= 16 && format.samples_per_channel as int % 0x1_0000 <= 4095
            ==> format.refusal() == "Invalid sample rate: "@ + decimal(format.sample_rate as nat)
            + ". Must be one of: [16000, 44100, 48000, 96000]"@,
{
}

/// The number whose decimal digits are `s`.
pub open spec fn decimal_value(s: Seq<char>) -> int
    decreases s.len(),
{
    if s.len() == 0 {
        0
    } else {
        10 * decimal_value(s.drop_last()) + (s.last() as int - '0' as int)
    }
}

/// A number in decimal is made of digits, which stand for the number, and does not begin with
/// a zero unless it is zero.
pub proof fn law_decimal(n: nat)
    ensures
        decimal(n).len() > 0,
        forall|k: int| 0 <= k < decimal(n).len() ==> '0' <= #[trigger] decimal(n)[k] <= '9',
        decimal_value(decimal(n)) == n,
        n > 0 ==> decimal(n)[0] != '0',
    decreases n,
{
    let s = decimal(n);
    reveal_with_fuel(decimal_value, 2);
    if n >= 10 {
        law_decimal(n / 10);
        assert(s.drop_last() =~= decimal(n / 10));
        assert forall|k: int| 0 <= k < s.len() implies '0' <= #[trigger] s[k] <= '9' by {
            if k < s.len() - 1 {
                assert(s[k] == decimal(n / 10)[k]);
            }
        }
    } else {
        assert(s.drop_last() =~= Seq::empty());
    }
}

/// The bytes of the header for a format that can have one: the first tells the sample rate, the
/// second that there are 24 bits, a timestamp, an id, signed samples and the lowest byte
/// first, the next two the channels and the sample count, and then come the id and the
/// timestamp, highest byte first.
proof fn lemma_header_bytes(format: StreamFormat, id: u64, pts: u64)
    requires
        1 <= format.num_channels <= 16,
        format.sample_rate == 16000 || format.sample_rate == 44100 || format.sample_rate == 48000
            || format.sample_rate == 96000,
        format.samples_per_channel as int % 0x1_0000 <= 4095,
    ensures
        ({
            let s = format.header(id, pts).wire();
            let samples = format.samples_per_channel as int % 0x1_0000;
            &&& s.len() == 20
            &&& format.sample_rate == 16000 ==> s[0] == 0xA8
            &&& format.sample_rate == 44100 ==> s[0] == 0xA9
            &&& format.sample_rate == 48000 ==> s[0] == 0xAA
            &&& format.sample_rate == 96000 ==> s[0] == 0xAB
            &&& s[1] == 0x70
            &&& s[2] == 16 * (format.num_channels - 1) + samples / 0x100
            &&& s[3] == samples % 0x100
            &&& s[11] + 0x100 * s[10] + 0x1_0000 * s[9] + 0x100_0000 * s[8] + 0x1_0000_0000 * (s[7]
                + 0x100 * s[6] + 0x1_0000 * s[5] + 0x100_0000 * s[4]) == id
            &&& s[19] + 0x100 * s[18] + 0x1_0000 * s[17] + 0x100_0000 * s[16] + 0x1_0000_0000 * (
            s[15] + 0x100 * s[14] + 0x1_0000 * s[13] + 0x100_0000 * s[12]) == pts
        }),
{
    let h = format.header(id, pts);
    let s = h.wire();
    let word = h.word();
    let samples = format.samples_per_channel as int % 0x1_0000;
    let rate = word / 0x100_0000;
    let low = (format.num_channels - 1) * 0x1000 + samples;
    assert(low < 0x1_0000);
    assert(word == rate * 0x100_0000 + 0x70_0000 + low);
    assert(word / 0x1_0000 == rate * 0x100 + 0x70);
    assert(word / 0x100 == rate * 0x1_0000 + 0x7000 + low / 0x100);
    assert(word / 0x100 % 0x100 == low / 0x100);
    assert(low / 0x100 == 16 * (format.num_channels - 1) + samples / 0x100);
    assert(word % 0x100 == samples % 0x100);
    assert(s.take(4) =~= be32(word));
    assert(s[0] == be32(word)[0] && s[1] == be32(word)[1] && s[2] == be32(word)[2] && s[3]
        == be32(word)[3]);
    let i = be64(id as int);
    let p = be64(pts as int);
    lemma_be64_round_trip(id, Seq::empty());
    lemma_be64_round_trip(pts, Seq::empty());
    assert(i + Seq::<u8>::empty() =~= i);
    assert(p + Seq::<u8>::empty() =~= p);
    assert(s.subrange(4, 12) =~= i);
    assert(s.subrange(12, 20) =~= p);
    assert forall|k: int| 0 <= k < 8 implies s[4 + k] == #[trigger] i[k] && s[12 + k] == p[k] by {
        assert(s.subrange(4, 12)[k] == i[k]);
        assert(s.subrange(12, 20)[k] == p[k]);
    }
    assert(i[0] == s[4] && i[1] == s[5] && i[2] == s[6] && i[3] == s[7]);
    assert(i[4] == s[8] && i[5] == s[9] && i[6] == s[10] && i[7] == s[11]);
    assert(p[0] == s[12] && p[1] == s[13] && p[2] == s[14] && p[3] == s[15]);
    assert(p[4] == s[16] && p[5] == s[17] && p[6] == s[18] && p[7] == s[19]);
    assert(i.skip(4)[0] == i[4] && i.skip(4)[1] == i[5] && i.skip(4)[2] == i[6] && i.skip(4)[3]
        == i[7]);
    assert(p.skip(4)[0] == p[4] && p.skip(4)[1] == p[5] && p.skip(4)[2] == p[6] && p.skip(4)[3]
        == p[7]);
}

/// A header that is still to be stamped has the bytes that the format asks for and the given id;
/// where there can be none, the reason is told.
pub proof fn law_unstamped_header(format: &StreamFormat, id: u64, r: Result<Vec<u8>, String>)
    requires
        call_ensures(StreamFormat::unstamped_header, (format, id), r),
    ensures
        r is Ok <==> {
            &&& 1 <= format.num_channels <= 16
            &&& format.sample_rate == 16000 || format.sample_rate == 44100 || format.sample_rate
                == 48000 || format.sample_rate == 96000
            &&& format.samples_per_channel as int % 0x1_0000 <= 4095
        },
        r matches Ok(bytes) ==> {
            let s = bytes@;
            let samples = format.samples_per_channel as int % 0x1_0000;
            &&& s.len() == 20
            &&& format.sample_rate == 16000 ==> s[0] == 0xA8
            &&& format.sample_rate == 44100 ==> s[0] == 0xA9
            &&& format.sample_rate == 48000 ==> s[0] == 0xAA
            &&& format.sample_rate == 96000 ==> s[0] == 0xAB
            &&& s[1] == 0x70
            &&& s[2] == 16 * (format.num_channels - 1) + samples / 0x100
            &&& s[3] == samples % 0x100
            &&& s[11] + 0x100 * s[10] + 0x1_0000 * s[9] + 0x100_0000 * s[8] + 0x1_0000_0000 * (s[7]
                + 0x100 * s[6] + 0x1_0000 * s[5] + 0x100_0000 * s[4]) == id
            &&& s[19] + 0x100 * s[18] + 0x1_0000 * s[17] + 0x100_0000 * s[16] + 0x1_0000_0000 * (
            s[15] + 0x100 * s[14] + 0x1_0000 * s[13] + 0x100_0000 * s[12]) == 123
        },
        r matches Err(text) ==> {
            &&& format.num_channels < 1 || format.num_channels > 16 ==> text@
                == "Channel count must be between 1 and 16"@
            &&& 1 <= format.num_channels <= 16 && format.samples_per_channel as int % 0x1_0000
                > 4095 ==> text@ == "Sample size exceeds maximum value (4095)"@
            &&& 1 <= format.num_channels <= 16 && format.samples_per_channel as int % 0x1_0000
                <= 4095 ==> text@ == "Invalid sample rate: "@ + decimal(format.sample_rate as nat)
                + ". Must be one of: [16000, 44100, 48000, 96000]"@
        },
{
    law_valid(*format);
    law_refusal(*format);
    if r is Ok {
        lemma_header_bytes(*format, id, 123);
    }
}

/// Each byte of a frame: four of the length, which is that of the audio that the format asks
/// for and 24 more; twenty of the header; and the audio, unchanged.
pub proof fn law_frame_bytes(format: StreamFormat, id: u64, ts: u64, payload: Seq<u8>)
    requires
        1 <= format.num_channels <= 16,
        format.sample_rate == 16000 || format.sample_rate == 44100 || format.sample_rate == 48000
            || format.sample_rate == 96000,
        format.samples_per_channel as int % 0x1_0000 <= 4095,
    ensures
        ({
            let s = format.frame(id, ts, payload);
            let samples = format.samples_per_channel as int % 0x1_0000;
            &&& s.len() == 24 + payload.len()
            &&& s[0] + 0x100 * s[1] + 0x1_0000 * s[2] + 0x100_0000 * s[3] == (
            format.samples_per_channel * format.num_channels * 3 + 24) % 0x1_0000_0000
            &&& format.sample_rate == 16000 ==> s[4] == 0xA8
            &&& format.sample_rate == 44100 ==> s[4] == 0xA9
            &&& format.sample_rate == 48000 ==> s[4] == 0xAA
            &&& format.sample_rate == 96000 ==> s[4] == 0xAB
            &&& s[5] == 0x70
            &&& s[6] == 16 * (format.num_channels - 1) + samples / 0x100
            &&& s[7] == samples % 0x100
            &&& s[15] + 0x100 * s[14] + 0x1_0000 * s[13] + 0x100_0000 * s[12] + 0x1_0000_0000 * (
            s[11] + 0x100 * s[10] + 0x1_0000 * s[9] + 0x100_0000 * s[8]) == id
            &&& s[23] + 0x100 * s[22] + 0x1_0000 * s[21] + 0x100_0000 * s[20] + 0x1_0000_0000 * (
            s[19] + 0x100 * s[18] + 0x1_0000 * s[17] + 0x100_0000 * s[16]) == ts
            &&& s.skip(24) == payload
        }),
{
    let s = format.frame(id, ts, payload);
    let wire = format.header(id, ts).wire();
    let total = format.total_size() % 0x1_0000_0000;
    lemma_header_bytes(format, id, ts);
    lemma_le32_round_trip(total, wire + payload);
    assert(s =~= le32(total) + (wire + payload));
    assert forall|k: int| 0 <= k < 20 implies s[4 + k] == #[trigger] wire[k] by {}
    assert(s[4] == wire[0] && s[5] == wire[1] && s[6] == wire[2] && s[7] == wire[3]);
    assert(s[8] == wire[4] && s[9] == wire[5] && s[10] == wire[6] && s[11] == wire[7]);
    assert(s[12] == wire[8] && s[13] == wire[9] && s[14] == wire[10] && s[15] == wire[11]);
    assert(s[16] == wire[12] && s[17] == wire[13] && s[18] == wire[14] && s[19] == wire[15]);
    assert(s[20] == wire[16] && s[21] == wire[17] && s[22] == wire[18] && s[23] == wire[19]);
    assert(s.skip(24) =~= payload);
}

/// What a receiver reads out of the header of a frame is what the stream is: its sample rate,
/// its channels, 24 bits, signed, lowest byte first, the sample count, the id and the block's
/// timestamp.
pub proof fn law_frame_header(format: StreamFormat, id: u64, ts: u64, payload: Seq<u8>)
    requires
        1 <= format.num_channels <= 16,
        format.sample_rate == 16000 || format.sample_rate == 44100 || format.sample_rate == 48000
            || format.sample_rate == 96000,
        format.samples_per_channel as int % 0x1_0000 <= 4095,
    ensures
        read_header(format.frame(id, ts, payload).skip(4)) matches Some(h) && {
            &&& h.sample_rate == format.sample_rate
            &&& h.channels == format.num_channels
            &&& h.sample_size == format.samples_per_channel as int % 0x1_0000
            &&& h.bits_per_sample == 24
            &&& h.encoding == EncodingFlag::PCMSigned
            &&& h.endianness == Endianness::LittleEndian
            &&& h.id == Some(id)
            &&& h.pts == Some(ts)
        },
{
    let h = format.header(id, ts);
    law_header_round_trip(h, payload);
    assert(format.frame(id, ts, payload).skip(4) =~= h.wire() + payload);
}

/// The header of a frame carries the id that the user fixed, whatever the server replied, or
/// else the number that the server replied, lowest byte first.
pub proof fn law_frame_id(
    format: &StreamFormat,
    reply: [u8; 2],
    id: u64,
    ts: u64,
    payload: Seq<u8>,
)
    requires
        call_ensures(StreamFormat::assigned_id, (format, reply), id),
        1 <= format.num_channels <= 16,
        format.sample_rate == 16000 || format.sample_rate == 44100 || format.sample_rate == 48000
            || format.sample_rate == 96000,
        format.samples_per_channel as int % 0x1_0000 <= 4095,
    ensures
        read_header(format.frame(id, ts, payload).skip(4)) matches Some(h) && {
            &&& format.frame_id matches Some(fixed) ==> h.id == Some(fixed as u64)
            &&& format.frame_id is None ==> h.id == Some((reply@[0] + 0x100 * reply@[1]) as u64)
        },
{
    law_frame_header(*format, id, ts, payload);
}

/// Frames follow one another without a gap, in the order of the blocks that they carry: the
/// bytes of one block more are those of the blocks before it and then its own.
pub proof fn law_frames_follow(
    format: StreamFormat,
    id: u64,
    items: Seq<(u64, Seq<u8>)>,
    ts: u64,
    payload: Seq<u8>,
)
    ensures
        format.frames(id, Seq::empty()) == Seq::<u8>::empty(),
        format.frames(id, items.push((ts, payload))) == format.frames(id, items) + format.frame(
            id,
            ts,
            payload,
        ),
{
    assert(items.push((ts, payload)).drop_last() =~= items);
}

/// What a receiver makes of the frames of a stream: as many blocks as were sent, each unchanged
/// and in its place, under a header that says what the stream is and when the block is due. It
/// holds of blocks with three bytes for each sample of each channel, in frames whose length
/// 32 bits can say.
pub proof fn law_received_blocks(format: StreamFormat, id: u64, items: Seq<(u64, Seq<u8>)>)
    requires
        1 <= format.num_channels <= 16,
        format.sample_rate == 16000 || format.sample_rate == 44100 || format.sample_rate == 48000
            || format.sample_rate == 96000,
        format.samples_per_channel as int % 0x1_0000 <= 4095,
        format.samples_per_channel * format.num_channels * 3 + 24 < 0x1_0000_0000,
        forall|k: int|
            0 <= k < items.len() ==> (#[trigger] items[k]).1.len() == format.samples_per_channel
                * format.num_channels * 3,
    ensures
        ({
            let received = receive(format.frames(id, items));
            &&& received.len() == items.len()
            &&& forall|k: int|
                0 <= k < items.len() ==> {
                    let (h, audio) = #[trigger] received[k];
                    &&& audio == items[k].1
                    &&& h.pts == Some(items[k].0)
                    &&& h.id == Some(id)
                    &&& h.sample_rate == format.sample_rate
                    &&& h.channels == format.num_channels
                    &&& h.sample_size == format.samples_per_channel as int % 0x1_0000
                    &&& h.bits_per_sample == 24
                    &&& h.encoding == EncodingFlag::PCMSigned
                    &&& h.endianness == Endianness::LittleEndian
                }
        }),
{
    law_receive_frames(format, id, items);
}

/// A new processor has the path, the channels and the sample rate that it was asked for, no
/// fixed id, and an empty queue.
pub proof fn law_new(socket_path: String, num_channels: u8, sample_rate: u32, p: AudioProcessor)
    requires
        call_ensures(AudioProcessor::new, (socket_path, num_channels, sample_rate), p),
    ensures
        p.wf(),
        p@.socket_path == socket_path@,
        p@.num_channels == num_channels,
        p@.sample_rate == sample_rate,
        p@.frame_id is None,
        p@.samples_per_channel is None,
        !p@.started,
        !p@.shutdown,
        p@.queued.len() == 0,
        p@.taken == 0,
        p@.looks == 0,
        p@.spares_taken == 0,
        p@.spares_seen == 0,
        p@.spare_looks == 0,
{
}

/// A fixed id takes the place of any other, and nothing else changes.
pub proof fn law_with_frame_id(before: AudioProcessor, frame_id: u16, p: AudioProcessor)
    requires
        call_ensures(AudioProcessor::with_frame_id, (before, frame_id), p),
    ensures
        p.wf(),
        p@.frame_id == Some(frame_id),
        p@.socket_path == before@.socket_path,
        p@.num_channels == before@.num_channels,
        p@.sample_rate == before@.sample_rate,
        p@.samples_per_channel == before@.samples_per_channel,
        p@.started == before@.started,
        p@.shutdown == before@.shutdown,
        p@.log == before@.log,
        p@.queued == before@.queued,
        p@.taken == before@.taken,
        p@.looks == before@.looks,
        p@.spare_log == before@.spare_log,
        p@.spares_taken == before@.spares_taken,
        p@.spares_seen == before@.spares_seen,
        p@.spare_looks == before@.spare_looks,
{
}

/// The shutdown flag is set, and nothing else changes. The flag is then read back.
pub proof fn law_shutdown(p: &mut AudioProcessor, b: bool)
    requires
        call_ensures(AudioProcessor::shutdown, (p,), ()),
        call_ensures(AudioProcessor::is_shutdown, (&*final(p),), b),
    ensures
        b,
        final(p).wf(),
        final(p)@.shutdown,
        final(p)@.socket_path == old(p)@.socket_path,
        final(p)@.num_channels == old(p)@.num_channels,
        final(p)@.sample_rate == old(p)@.sample_rate,
        final(p)@.frame_id == old(p)@.frame_id,
        final(p)@.samples_per_channel == old(p)@.samples_per_channel,
        final(p)@.started == old(p)@.started,
        final(p)@.log == old(p)@.log,
        final(p)@.queued == old(p)@.queued,
        final(p)@.taken == old(p)@.taken,
        final(p)@.looks == old(p)@.looks,
        final(p)@.spare_log == old(p)@.spare_log,
        final(p)@.spares_taken == old(p)@.spares_taken,
        final(p)@.spares_seen == old(p)@.spares_seen,
        final(p)@.spare_looks == old(p)@.spare_looks,
{
}

/// The shutdown flag can be read.
pub proof fn law_is_shutdown(p: &AudioProcessor, b: bool)
    requires
        call_ensures(AudioProcessor::is_shutdown, (p,), b),
    ensures
        b <==> p@.shutdown,
{
}

/// The first block launches a transmitter for the path, the channels, the sample rate and the
/// fixed id that the user gave, with as many samples per channel as the block holds whole, at
/// three bytes for each channel. Nothing was connected, taken or sent yet; the rings are the
/// processor's own; and there are 256 spares, all silent and as long as the block.
pub proof fn law_add_launches(p: &mut AudioProcessor, data: &[u8], ts: u64, added: Added)
    requires
        old(p).wf(),
        call_ensures(AudioProcessor::add, (p, data, ts), added),
        !old(p)@.started,
        old(p)@.num_channels > 0,
    ensures
        added.transmitter matches Some(t) && {
            &&& t.wf()
            &&& t@.socket_path == old(p)@.socket_path
            &&& t@.format.num_channels == old(p)@.num_channels
            &&& t@.format.sample_rate == old(p)@.sample_rate
            &&& t@.format.frame_id == old(p)@.frame_id
            &&& t@.format.samples_per_channel * (3 * old(p)@.num_channels) <= data@.len() < (
            t@.format.samples_per_channel + 1) * (3 * old(p)@.num_channels)
            &&& t@.phase is Offline
            &&& t@.log == old(p)@.log
            &&& t@.taken == 0
            &&& t@.seen == 0
            &&& t@.spare_log == old(p)@.spare_log
            &&& t@.spares.len() == 256
            &&& forall|k: int|
                0 <= k < 256 ==> (#[trigger] t@.spares[k]).len() == data@.len() && forall|i: int|
                    0 <= i < data@.len() ==> t@.spares[k][i] == 0
            &&& t@.spares_taken == 0
            &&& t@.sent.len() == 0
            &&& final(p)@.samples_per_channel == Some(t@.format.samples_per_channel)
        },
        final(p)@.started,
        final(p)@.spares_taken == 1,
        final(p)@.spares_seen == 256,
        added.queued,
        final(p)@.queued == seq![(ts, data@)],
{
    let n = data@.len() as int;
    assert(n == data.len());
    let channels = old(p)@.num_channels;
    lemma_whole_samples(n, channels, n / (channels * 3));
    law_fresh_before_launch(&*old(p));
    let t = added.transmitter->0;
    assert forall|k: int| 0 <= k < 256 implies (#[trigger] t@.spares[k]).len() == n
        && forall|i: int| 0 <= i < n ==> t@.spares[k][i] == 0 by {
        assert(t@.spares[k] == silence(n as nat));
    }
    assert(final(p)@.queued =~= seq![(ts, data@)]);
}

/// A later block launches no other transmitter and does not change the frame size.
pub proof fn law_add_launches_once(p: &mut AudioProcessor, data: &[u8], ts: u64, added: Added)
    requires
        call_ensures(AudioProcessor::add, (p, data, ts), added),
        old(p)@.started,
    ensures
        added.transmitter is None,
        final(p)@.started,
        final(p)@.samples_per_channel == old(p)@.samples_per_channel,
{
}

/// A block changes nothing of what the user asked for, nor does it move to other rings.
pub proof fn law_add_keeps(p: &mut AudioProcessor, data: &[u8], ts: u64, added: Added)
    requires
        call_ensures(AudioProcessor::add, (p, data, ts), added),
    ensures
        final(p).wf(),
        final(p)@.socket_path == old(p)@.socket_path,
        final(p)@.num_channels == old(p)@.num_channels,
        final(p)@.sample_rate == old(p)@.sample_rate,
        final(p)@.frame_id == old(p)@.frame_id,
        final(p)@.shutdown == old(p)@.shutdown,
        final(p)@.log == old(p)@.log,
        final(p)@.spare_log == old(p)@.spare_log,
{
}

/// A block goes to the end of the queue with its timestamp, unchanged, or is dropped, and
/// dropped only when 256 blocks wait. The ring is asked how many were taken exactly when 256
/// are known to wait; `taken` is what it answers then.
pub proof fn law_add_queues(
    p: &mut AudioProcessor,
    data: &[u8],
    ts: u64,
    added: Added,
    taken: nat,
)
    requires
        call_ensures(AudioProcessor::add, (p, data, ts), added),
        old(p)@.taken <= taken,
        final(p)@.looks > old(p)@.looks ==> final(p)@.taken == taken,
    ensures
        added.queued <==> old(p)@.queued.len() < 256 + taken,
        added.queued ==> final(p)@.queued == old(p)@.queued.push((ts, data@)),
        !added.queued ==> final(p)@.queued == old(p)@.queued,
        old(p)@.queued.len() < 256 + old(p)@.taken ==> final(p)@.looks == old(p)@.looks
            && final(p)@.taken == old(p)@.taken,
        old(p)@.queued.len() >= 256 + old(p)@.taken ==> final(p)@.looks == old(p)@.looks + 1
            && final(p)@.taken == taken,
{
}

/// A block is copied into a spare buffer whenever there is one. The ring is asked how many were
/// put there exactly when none is known to be there; `put` is what it answers then.
pub proof fn law_add_takes_spare(
    p: &mut AudioProcessor,
    data: &[u8],
    ts: u64,
    added: Added,
    put: nat,
)
    requires
        call_ensures(AudioProcessor::add, (p, data, ts), added),
        old(p)@.started,
        old(p)@.spares_seen <= put,
        final(p)@.spare_looks > old(p)@.spare_looks ==> final(p)@.spares_seen == put,
    ensures
        old(p)@.spares_taken < put ==> final(p)@.spares_taken == old(p)@.spares_taken + 1,
        old(p)@.spares_taken >= put ==> final(p)@.spares_taken == old(p)@.spares_taken,
        old(p)@.spares_taken < old(p)@.spares_seen ==> final(p)@.spare_looks == old(p)@.spare_looks
            && final(p)@.spares_seen == old(p)@.spares_seen,
        old(p)@.spares_taken >= old(p)@.spares_seen ==> final(p)@.spare_looks
            == old(p)@.spare_looks + 1 && final(p)@.spares_seen == put,
{
}

/// The length in front of a frame of the stream counts every byte of the frame, if the first
/// block was made of whole samples: for a block as long as the first it is the block's own
/// length and 24 more. It holds where 32 bits can say it.
pub proof fn law_announced_length(
    p: &mut AudioProcessor,
    data: &[u8],
    ts: u64,
    added: Added,
    id: u64,
    due: u64,
    block: Seq<u8>,
)
    requires
        call_ensures(AudioProcessor::add, (p, data, ts), added),
        !old(p)@.started,
        old(p)@.num_channels > 0,
        data@.len() as int % (3 * old(p)@.num_channels) == 0,
        data@.len() + 24 < 0x1_0000_0000,
        block.len() == data@.len(),
    ensures
        added.transmitter matches Some(t) && {
            let s = t@.format.frame(id, due, block);
            &&& s[0] + 0x100 * s[1] + 0x1_0000 * s[2] + 0x100_0000 * s[3] == data@.len() + 24
            &&& s.len() == data@.len() + 24
            &&& s.skip(24) == block
        },
{
    let n = data@.len() as int;
    assert(n == data.len());
    let channels = old(p)@.num_channels;
    lemma_whole_samples(n, channels, n / (channels * 3));
    let format = added.transmitter->0@.format;
    let wire = format.header(id, due).wire();
    lemma_wire_size(format.header(id, due));
    lemma_le32_round_trip(n + 24, wire + block);
    assert(format.frame(id, due, block) =~= le32(n + 24) + (wire + block));
    assert(format.frame(id, due, block).skip(24) =~= block);
}

/// A processor takes every block, of any length and with any timestamp, as soon as it has a
/// channel, and every other call at any time.
pub proof fn law_processor_accepts(p: &mut AudioProcessor, data: &[u8], ts: u64, frame_id: u16)
    requires
        old(p).wf(),
    ensures
        old(p)@.num_channels > 0 ==> call_requires(AudioProcessor::add, (p, data, ts)),
        call_requires(AudioProcessor::with_frame_id, (*old(p), frame_id)),
        call_requires(AudioProcessor::shutdown, (p,)),
        call_requires(AudioProcessor::is_shutdown, (&*old(p),)),
{
}

/// A processor can be made for any path, channels and sample rate.
pub proof fn law_new_accepts(socket_path: String, num_channels: u8, sample_rate: u32)
    ensures
        call_requires(AudioProcessor::new, (socket_path, num_channels, sample_rate)),
{
}

} // verus!
