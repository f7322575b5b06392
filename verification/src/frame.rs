//! Frames: what one block of audio looks like on the socket.
//!
//! A frame is its own length as a 32-bit number (lowest byte first, the four bytes of the
//! number counted), then the header with the block's timestamp, then the audio as it was
//! handed in.
use crate::bytes::{
    le16_value, le32, le32_value, lemma_le32_round_trip, u16_from_le_bytes, u32_le_bytes,
};
use crate::header::{
    encode_header, law_header_round_trip, lemma_wire_size, patch_pts, read_header, refusal, Header,
};
use frame_header::{EncodingFlag, Endianness};
use vstd::prelude::*;

verus! {

/// Samples are 24 bits wide.
pub const BITS_PER_SAMPLE: u8 = 24;

/// Which is three bytes.
pub const BYTES_PER_SAMPLE: usize = 3;

/// The timestamp in a header that has not been stamped yet.
pub const UNSTAMPED: u64 = 123;

/// The bytes of a header that has an id and a timestamp.
pub const HEADER_SIZE: usize = 20;

/// The bytes of the length in front of a frame.
pub const LENGTH_SIZE: usize = 4;

/// How many samples each of `num_channels` channels has in a block of `frame_size` bytes.
pub fn samples_per_channel(frame_size: usize, num_channels: u8) -> (samples: usize)
    requires
        num_channels > 0,
    ensures
        samples == frame_size as int / (num_channels * BYTES_PER_SAMPLE),
        samples * num_channels * BYTES_PER_SAMPLE <= frame_size,
{
    proof {
        let block = num_channels * BYTES_PER_SAMPLE;
        vstd::arithmetic::div_mod::lemma_fundamental_div_mod(frame_size as int, block);
        let samples = frame_size as int / block;
        assert(samples * num_channels * BYTES_PER_SAMPLE == block * samples) by (nonlinear_arith)
            requires
                block == num_channels * BYTES_PER_SAMPLE,
        ;
    }
    frame_size / (num_channels as usize * BYTES_PER_SAMPLE)
}

/// What stays the same in all frames of one run.
#[derive(Clone, Copy)]
pub struct StreamFormat {
    pub samples_per_channel: usize,
    pub num_channels: u8,
    pub sample_rate: u32,
    /// An id that stands in place of the one that the server assigns.
    pub frame_id: Option<u16>,
}

impl StreamFormat {
    /// The bytes of audio in a frame.
    pub open spec fn frame_size(self) -> int {
        self.samples_per_channel * self.num_channels * BYTES_PER_SAMPLE
    }

    /// Whether the audio of a frame can lie in memory.
    pub open spec fn wf(self) -> bool {
        self.frame_size() <= usize::MAX
    }

    /// The id in the headers, once the server has replied.
    pub open spec fn id(self, reply: Seq<u8>) -> int {
        match self.frame_id {
            Some(id) => id as int,
            None => le16_value(reply),
        }
    }

    /// The header of the frame with timestamp `pts`. The header has 16 bits for the sample
    /// count, and takes the lowest ones of it.
    pub open spec fn header(self, id: u64, pts: u64) -> Header {
        Header {
            encoding: EncodingFlag::PCMSigned,
            sample_size: (self.samples_per_channel as int % 0x1_0000) as u16,
            sample_rate: self.sample_rate,
            channels: self.num_channels,
            bits_per_sample: BITS_PER_SAMPLE,
            endianness: Endianness::LittleEndian,
            id: Some(id),
            pts: Some(pts),
        }
    }

    /// Whether frames can have a header. It depends on neither the id nor the timestamp.
    pub open spec fn valid(self) -> bool {
        self.header(0, 0).valid()
    }

    /// The bytes of a frame whose audio has the frame size.
    pub open spec fn total_size(self) -> int {
        self.frame_size() + HEADER_SIZE + LENGTH_SIZE
    }

    /// The frame that carries `payload` with timestamp `ts`. The length in front of it is the
    /// total size, of which 32 bits are sent, whatever the payload is.
    pub open spec fn frame(self, id: u64, ts: u64, payload: Seq<u8>) -> Seq<u8> {
        le32(self.total_size() % 0x1_0000_0000) + self.header(id, ts).wire() + payload
    }

    /// The frames that carry `items` one after the other.
    pub open spec fn frames(self, id: u64, items: Seq<(u64, Seq<u8>)>) -> Seq<u8>
        decreases items.len(),
    {
        if items.len() == 0 {
            Seq::empty()
        } else {
            self.frames(id, items.drop_last()) + self.frame(id, items.last().0, items.last().1)
        }
    }

    /// The id for the headers of a connection on which the server replied `reply`.
    pub fn assigned_id(&self, reply: [u8; 2]) -> (id: u64)
        ensures
            id == self.id(reply@),
    {
        match self.frame_id {
            Some(id) => id as u64,
            None => u16_from_le_bytes(reply) as u64,
        }
    }

    /// The bytes of a header that is still to be stamped, or the text that says why frames
    /// cannot have a header.
    pub fn unstamped_header(&self, id: u64) -> (r: Result<Vec<u8>, String>)
        ensures
            match r {
                Ok(bytes) => self.valid() && bytes@ == self.header(id, UNSTAMPED).wire(),
                Err(text) => !self.valid() && text@ == self.refusal(),
            },
    {
        let samples: usize = self.samples_per_channel;
        #[verifier::truncate]
        let sample_size: u16 = samples as u16;
        assert(sample_size == samples % 0x1_0000) by (bit_vector)
            requires
                sample_size == samples as u16,
        ;
        encode_header(
            &Header {
                encoding: EncodingFlag::PCMSigned,
                sample_size,
                sample_rate: self.sample_rate,
                channels: self.num_channels,
                bits_per_sample: BITS_PER_SAMPLE,
                endianness: Endianness::LittleEndian,
                id: Some(id),
                pts: Some(UNSTAMPED),
            },
        )
    }

    /// Why frames cannot have a header.
    pub open spec fn refusal(self) -> Seq<char> {
        refusal(self.header(0, 0))
    }

    /// The length in front of each frame, whose header has the bytes `header`.
    pub fn announced_size(&self, header: &Vec<u8>) -> (total: u32)
        requires
            self.wf(),
        ensures
            total == (self.frame_size() + header@.len() + LENGTH_SIZE) % 0x1_0000_0000,
    {
        proof {
            assert(0 <= self.samples_per_channel * self.num_channels
                <= self.samples_per_channel * self.num_channels * BYTES_PER_SAMPLE)
                by (nonlinear_arith);
        }
        let frame_size: usize = self.samples_per_channel * self.num_channels as usize
            * BYTES_PER_SAMPLE;
        let total: u64 = frame_size.wrapping_add(header.len()).wrapping_add(LENGTH_SIZE) as u64;
        #[verifier::truncate]
        let low: u32 = total as u32;
        assert(low == total % 0x1_0000_0000) by (bit_vector)
            requires
                low == total as u32,
        ;
        low
    }
}

/// Puts the timestamp `ts` into the header of a connection.
pub(crate) fn stamp(format: &StreamFormat, Ghost(id): Ghost<u64>, header: &mut Vec<u8>, ts: u64)
    requires
        format.valid(),
        exists|pts: u64| old(header)@ == #[trigger] format.header(id, pts).wire(),
    ensures
        final(header)@ == format.header(id, ts).wire(),
{
    let ghost pts = choose|pts: u64| old(header)@ == #[trigger] format.header(id, pts).wire();
    let _ = patch_pts(header, Some(ts));
    assert(format.header(id, pts).with_pts(Some(ts)) == format.header(id, ts));
}

/// Puts a frame together in `out`, whose memory is used again.
pub fn assemble(total: u32, header: &Vec<u8>, payload: &Vec<u8>, out: &mut Vec<u8>)
    ensures
        final(out)@ == le32(total as int) + header@ + payload@,
{
    let length: [u8; 4] = u32_le_bytes(total);
    out.clear();
    out.extend_from_slice(&length);
    out.extend_from_slice(header.as_slice());
    out.extend_from_slice(payload.as_slice());
    assert(out@ =~= le32(total as int) + header@ + payload@);
}

/// What a receiver makes of the bytes `s` that follow the greeting: it reads a length, then
/// as many bytes as are left of it, takes the header off their front and keeps the rest as
/// audio, and goes on after them. Bytes without a header are passed over; the receiver stops
/// where the bytes end or a length does not count its own bytes.
pub open spec fn receive(s: Seq<u8>) -> Seq<(Header, Seq<u8>)>
    decreases s.len(),
{
    let total = le32_value(s);
    if s.len() < LENGTH_SIZE || total < LENGTH_SIZE || s.len() < total {
        Seq::empty()
    } else {
        let body = s.subrange(LENGTH_SIZE as int, total);
        let later = receive(s.skip(total));
        match read_header(body) {
            Some(h) => seq![(h, body.skip(h.size()))] + later,
            None => later,
        }
    }
}

/// Frames that carry one item more than `items` in front begin with its frame.
proof fn lemma_frames_front(format: StreamFormat, id: u64, items: Seq<(u64, Seq<u8>)>)
    requires
        items.len() > 0,
    ensures
        format.frames(id, items) == format.frame(id, items[0].0, items[0].1) + format.frames(
            id,
            items.skip(1),
        ),
    decreases items.len(),
{
    let rest = items.skip(1);
    let first = format.frame(id, items[0].0, items[0].1);
    if items.len() == 1 {
        assert(items.drop_last() =~= Seq::empty());
        assert(rest =~= Seq::empty());
        assert(format.frames(id, items) =~= first + format.frames(id, rest));
    } else {
        let last = format.frame(id, items.last().0, items.last().1);
        lemma_frames_front(format, id, items.drop_last());
        assert(items.drop_last().skip(1) =~= rest.drop_last());
        assert(rest.last() == items.last());
        assert(items.drop_last()[0] == items[0]);
        assert(format.frames(id, items) =~= first + (format.frames(id, rest.drop_last()) + last));
    }
}

/// A length can be read back from in front of two pieces.
proof fn lemma_length_prefix(total: int, wire: Seq<u8>, payload: Seq<u8>, frame: Seq<u8>)
    requires
        0 <= total < 0x1_0000_0000,
        frame == le32(total % 0x1_0000_0000) + wire + payload,
    ensures
        frame.len() == LENGTH_SIZE + wire.len() + payload.len(),
        le32_value(frame) == total,
{
    assert(le32(total) + wire + payload =~= le32(total) + (wire + payload));
    lemma_le32_round_trip(total, wire + payload);
}

/// A frame whose audio has the frame size is as long as the length in front of it says, if
/// 32 bits can say so.
pub proof fn law_frame_length(format: StreamFormat, id: u64, ts: u64, payload: Seq<u8>)
    requires
        format.valid(),
        payload.len() == format.frame_size(),
        format.total_size() < 0x1_0000_0000,
    ensures
        format.frame(id, ts, payload).len() == format.total_size(),
        le32_value(format.frame(id, ts, payload)) == format.total_size(),
{
    let h = format.header(id, ts);
    lemma_wire_size(h);
    lemma_length_prefix(
        format.total_size(),
        h.wire(),
        payload,
        format.frame(id, ts, payload),
    );
}

/// What a receiver makes of frames is what they carry: each block of audio unchanged, in
/// order, under a header with the block's timestamp and the format of the stream. It holds
/// of blocks that have the frame size, in frames whose length 32 bits can say.
pub proof fn law_receive_frames(format: StreamFormat, id: u64, items: Seq<(u64, Seq<u8>)>)
    requires
        format.valid(),
        format.total_size() < 0x1_0000_0000,
        forall|k: int|
            0 <= k < items.len() ==> (#[trigger] items[k]).1.len() == format.frame_size(),
    ensures
        receive(format.frames(id, items)) == items.map_values(
            |item: (u64, Seq<u8>)| (format.header(id, item.0), item.1),
        ),
    decreases items.len(),
{
    let carried = |item: (u64, Seq<u8>)| (format.header(id, item.0), item.1);
    let s = format.frames(id, items);
    if items.len() == 0 {
        assert(receive(s) =~= items.map_values(carried));
    } else {
        let (ts, payload) = items[0];
        let rest = items.skip(1);
        let h = format.header(id, ts);
        let total = format.total_size();
        let first = format.frame(id, ts, payload);
        lemma_frames_front(format, id, items);
        law_frame_length(format, id, ts, payload);
        law_header_round_trip(h, payload);
        law_receive_frames(format, id, rest);
        assert(le32_value(s) == le32_value(first));
        let body = s.subrange(LENGTH_SIZE as int, total);
        assert(body =~= h.wire() + payload);
        assert(body.skip(h.size()) =~= payload);
        assert(s.skip(total) =~= format.frames(id, rest));
        assert(receive(s) == seq![(h, payload)] + receive(format.frames(id, rest)));
        assert(receive(s) =~= items.map_values(carried));
    }
}

} // verus!
