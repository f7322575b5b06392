//! The header in front of the audio of each frame.
//!
//! The header is made, encoded and patched by the `frame_header` crate. [`Header`] holds
//! its fields as plain values, [`Header::wire`] says which bytes they become, and
//! [`read_header`] which fields a receiver reads out of bytes.
use crate::bytes::{
    be32, be32_value, be64, be64_value, lemma_be32_round_trip, lemma_be64_round_trip,
};
use frame_header::{EncodingFlag, Endianness, FrameHeader};
use vstd::prelude::*;

verus! {

/// The `frame_header` crate's encodings.
#[verifier::external_type_specification]
pub struct ExEncodingFlag(frame_header::EncodingFlag);

/// The `frame_header` crate's byte orders.
#[verifier::external_type_specification]
pub struct ExEndianness(frame_header::Endianness);

/// The fields of a frame header.
pub struct Header {
    pub encoding: EncodingFlag,
    /// Samples per channel in the frame.
    pub sample_size: u16,
    pub sample_rate: u32,
    pub channels: u8,
    pub bits_per_sample: u8,
    pub endianness: Endianness,
    pub id: Option<u64>,
    /// The presentation timestamp.
    pub pts: Option<u64>,
}

/// The number that stands for an encoding.
pub open spec fn encoding_code(encoding: EncodingFlag) -> int {
    match encoding {
        EncodingFlag::PCMSigned => 0,
        EncodingFlag::PCMFloat => 1,
        EncodingFlag::Opus => 2,
        EncodingFlag::FLAC => 3,
        EncodingFlag::AAC => 4,
        EncodingFlag::H264 => 5,
    }
}

/// The number that stands for a byte order.
pub open spec fn endianness_code(endianness: Endianness) -> int {
    match endianness {
        Endianness::LittleEndian => 0,
        Endianness::BigEndian => 1,
    }
}

/// The number that stands for one of the four sample rates.
pub open spec fn sample_rate_code(sample_rate: u32) -> int {
    if sample_rate == 16000 {
        0
    } else if sample_rate == 44100 {
        1
    } else if sample_rate == 48000 {
        2
    } else {
        3
    }
}

/// The number that stands for one of the three sample widths.
pub open spec fn bits_code(bits_per_sample: u8) -> int {
    if bits_per_sample == 16 {
        0
    } else if bits_per_sample == 24 {
        1
    } else {
        2
    }
}

/// 1 where an optional field is there, 0 where it is not.
pub open spec fn presence(field: Option<u64>) -> int {
    if field is Some {
        1
    } else {
        0
    }
}

/// The bytes of an optional field, highest first; none where it is not there.
pub open spec fn field_bytes(field: Option<u64>) -> Seq<u8> {
    match field {
        Some(value) => be64(value as int),
        None => Seq::empty(),
    }
}

impl Header {
    /// Whether the fields make a header at all.
    pub open spec fn valid(self) -> bool {
        &&& 1 <= self.channels <= 16
        &&& self.bits_per_sample == 16 || self.bits_per_sample == 24 || self.bits_per_sample == 32
        &&& self.sample_size <= 0xFFF
        &&& self.sample_rate == 16000 || self.sample_rate == 44100 || self.sample_rate == 48000
            || self.sample_rate == 96000
    }

    /// The first 32 bits: from the top, a magic number of 6 bits, then the sample rate (2),
    /// the sample width (2), whether there is a timestamp (1) and an id (1), the encoding
    /// (3), the byte order (1), the channels less one (4) and the sample count (12).
    pub open spec fn word(self) -> int {
        0x2A * 0x400_0000 + sample_rate_code(self.sample_rate) * 0x100_0000 + bits_code(
            self.bits_per_sample,
        ) * 0x40_0000 + presence(self.pts) * 0x20_0000 + presence(self.id) * 0x10_0000
            + encoding_code(self.encoding) * 0x2_0000 + endianness_code(self.endianness) * 0x1_0000
            + (self.channels - 1) * 0x1000 + self.sample_size
    }

    /// The bytes of the header: the word, the id and the timestamp, highest byte first.
    pub open spec fn wire(self) -> Seq<u8> {
        be32(self.word()) + field_bytes(self.id) + field_bytes(self.pts)
    }

    /// How many bytes the header takes.
    pub open spec fn size(self) -> int {
        4 + 8 * presence(self.id) + 8 * presence(self.pts)
    }

    /// The same header with another timestamp.
    pub open spec fn with_pts(self, pts: Option<u64>) -> Header {
        Header { pts: pts, ..self }
    }
}

/// The fields of the header at the front of `s`, if one is there.
pub open spec fn read_header(s: Seq<u8>) -> Option<Header> {
    let word = be32_value(s);
    let has_id = word / 0x10_0000 % 2 == 1;
    let has_pts = word / 0x20_0000 % 2 == 1;
    let id_at: int = 4;
    let pts_at: int = if has_id {
        12
    } else {
        4
    };
    let end: int = if has_pts {
        pts_at + 8
    } else {
        pts_at
    };
    let rate = word / 0x100_0000 % 4;
    let bits = word / 0x40_0000 % 4;
    let encoding = word / 0x2_0000 % 8;
    if s.len() < 4 || s.len() < end || word / 0x400_0000 != 0x2A || bits > 2 || encoding > 5 {
        None
    } else {
        Some(
            Header {
                encoding: if encoding == 0 {
                    EncodingFlag::PCMSigned
                } else if encoding == 1 {
                    EncodingFlag::PCMFloat
                } else if encoding == 2 {
                    EncodingFlag::Opus
                } else if encoding == 3 {
                    EncodingFlag::FLAC
                } else if encoding == 4 {
                    EncodingFlag::AAC
                } else {
                    EncodingFlag::H264
                },
                sample_size: (word % 0x1000) as u16,
                sample_rate: if rate == 0 {
                    16000
                } else if rate == 1 {
                    44100
                } else if rate == 2 {
                    48000
                } else {
                    96000
                },
                channels: (word / 0x1000 % 16 + 1) as u8,
                bits_per_sample: if bits == 0 {
                    16
                } else if bits == 1 {
                    24
                } else {
                    32
                },
                endianness: if word / 0x1_0000 % 2 == 0 {
                    Endianness::LittleEndian
                } else {
                    Endianness::BigEndian
                },
                id: if has_id {
                    Some(be64_value(s.skip(id_at)) as u64)
                } else {
                    None
                },
                pts: if has_pts {
                    Some(be64_value(s.skip(pts_at)) as u64)
                } else {
                    None
                },
            },
        )
    }
}

/// The number `n` in decimal.
pub open spec fn decimal(n: nat) -> Seq<char>
    decreases n,
{
    let digit = ('0' as int + n % 10) as char;
    if n < 10 {
        seq![digit]
    } else {
        decimal(n / 10).push(digit)
    }
}

/// The text that says why fields make no header. The first reason counts.
pub open spec fn refusal(h: Header) -> Seq<char> {
    if h.channels < 1 || h.channels > 16 {
        "Channel count must be between 1 and 16"@
    } else if h.bits_per_sample != 16 && h.bits_per_sample != 24 && h.bits_per_sample != 32 {
        "Bits per sample must be 16, 24, or 32"@
    } else if h.sample_size > 0xFFF {
        "Sample size exceeds maximum value (4095)"@
    } else {
        "Invalid sample rate: "@ + decimal(h.sample_rate as nat)
            + ". Must be one of: [16000, 44100, 48000, 96000]"@
    }
}

/// Makes a header with `frame_header::FrameHeader::new` and writes it to a new vector with
/// `FrameHeader::encode`: fields that make a header become its bytes, and others are
/// refused with a text that gives the reason.
#[verifier::external_body]
pub(crate) fn encode_header(h: &Header) -> (r: Result<Vec<u8>, String>)
    ensures
        match r {
            Ok(bytes) => h.valid() && bytes@ == h.wire(),
            Err(text) => !h.valid() && text@ == refusal(*h),
        },
{
    let header = FrameHeader::new(
        h.encoding, h.sample_size, h.sample_rate, h.channels,
        h.bits_per_sample, h.endianness, h.id, h.pts,
    )?;
    let mut bytes = Vec::with_capacity(header.size());
    header.encode(&mut bytes).ok();
    Ok(bytes)
}

/// Calls `frame_header::FrameHeader::patch_pts`: in the bytes of a header that has a
/// timestamp, another timestamp takes its place, and nothing else changes. The number of
/// bytes stays the same whatever they hold. What happens to other bytes is left open.
#[verifier::external_body]
pub(crate) fn patch_pts(bytes: &mut Vec<u8>, pts: Option<u64>) -> (r: Result<(), String>)
    ensures
        final(bytes)@.len() == old(bytes)@.len(),
        forall|h: Header|
            h.valid() && h.pts is Some && pts is Some && old(bytes)@ == #[trigger] h.wire()
                ==> r is Ok && final(bytes)@ == h.with_pts(pts).wire(),
{
    FrameHeader::patch_pts(bytes, pts)
}

/// Each field of a header's word can be read back out of it.
proof fn lemma_word_fields(h: Header)
    requires
        h.valid(),
    ensures
        0 <= h.word() < 0x1_0000_0000,
        h.word() / 0x400_0000 == 0x2A,
        h.word() / 0x100_0000 % 4 == sample_rate_code(h.sample_rate),
        h.word() / 0x40_0000 % 4 == bits_code(h.bits_per_sample),
        h.word() / 0x20_0000 % 2 == presence(h.pts),
        h.word() / 0x10_0000 % 2 == presence(h.id),
        h.word() / 0x2_0000 % 8 == encoding_code(h.encoding),
        h.word() / 0x1_0000 % 2 == endianness_code(h.endianness),
        h.word() / 0x1000 % 16 == h.channels - 1,
        h.word() % 0x1000 == h.sample_size,
{
    let channels = h.channels - 1;
    let above_channels = 0x2A * 0x400 + sample_rate_code(h.sample_rate) * 0x100 + bits_code(
        h.bits_per_sample,
    ) * 0x40 + presence(h.pts) * 0x20 + presence(h.id) * 0x10 + encoding_code(h.encoding) * 2
        + endianness_code(h.endianness);
    assert(h.word() == above_channels * 0x1_0000 + channels * 0x1000 + h.sample_size);
    assert(h.word() / 0x1_0000 == above_channels);
    assert(h.word() / 0x1000 == above_channels * 16 + channels);
    assert(h.word() / 0x2_0000 == above_channels / 2);
    assert(h.word() / 0x10_0000 == above_channels / 0x10);
    assert(h.word() / 0x20_0000 == above_channels / 0x20);
    assert(h.word() / 0x40_0000 == above_channels / 0x40);
    assert(h.word() / 0x100_0000 == above_channels / 0x100);
    assert(h.word() / 0x400_0000 == above_channels / 0x400);
}

/// The bytes of a header are as many as its size says.
pub proof fn lemma_wire_size(h: Header)
    ensures
        h.wire().len() == h.size(),
{
}

/// The bytes of a header are as many as its size says, and what a receiver reads out of
/// them, whatever follows, are the fields that went in.
pub proof fn law_header_round_trip(h: Header, rest: Seq<u8>)
    requires
        h.valid(),
    ensures
        h.wire().len() == h.size(),
        read_header(h.wire() + rest) == Some(h),
{
    let s = h.wire() + rest;
    let word = h.word();
    let tail = field_bytes(h.id) + (field_bytes(h.pts) + rest);
    assert(s =~= be32(word) + tail);
    lemma_word_fields(h);
    lemma_be32_round_trip(word, tail);
    match h.id {
        Some(id) => {
            assert(s.skip(4) =~= be64(id as int) + (field_bytes(h.pts) + rest));
            lemma_be64_round_trip(id, field_bytes(h.pts) + rest);
        },
        None => {},
    }
    match h.pts {
        Some(pts) => {
            let pts_at: int = if h.id is Some {
                12
            } else {
                4
            };
            assert(s.skip(pts_at) =~= be64(pts as int) + rest);
            lemma_be64_round_trip(pts, rest);
        },
        None => {},
    }
}

} // verus!
