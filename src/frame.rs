use vstd::prelude::*;

use crate::error::Error;
use crate::mask::{mask_key, Mask};

verus! {

/// Describes the length of the payload data within an individual WebSocket frame.
#[derive(Copy, Clone, Debug, PartialEq, Eq, Structural)]
pub enum DataLength {
    /// Holds the length of a payload of 125 bytes or shorter.
    Small(u8),
    /// Holds the length of a payload between 126 and 65535 bytes.
    Medium(u16),
    /// Holds the length of a payload between 65536 and 2^63 bytes.
    Large(u64),
}

/// The shortest form of a payload length.
pub open spec fn canonical_length(n: u64) -> DataLength {
    if n <= 125 {
        DataLength::Small(n as u8)
    } else if n <= 65535 {
        DataLength::Medium(n as u16)
    } else {
        DataLength::Large(n)
    }
}

/// The payload length that a received length field stands for, or why it is refused.
pub open spec fn length_value(len: DataLength) -> Result<u64, Error> {
    match len {
        DataLength::Small(n) => Ok(n as u64),
        DataLength::Medium(n) => if n <= 125 {
            Err(Error::NonCanonical16(n))
        } else {
            Ok(n as u64)
        },
        DataLength::Large(n) => if n <= 65535 {
            Err(Error::NonCanonical64(n))
        } else if n >= 0x8000_0000_0000_0000 {
            Err(Error::FrameTooLong(n))
        } else {
            Ok(n)
        },
    }
}

/// The number of length bytes after the second header byte.
pub open spec fn length_field_len(len: DataLength) -> nat {
    match len {
        DataLength::Small(_) => 0,
        DataLength::Medium(_) => 2,
        DataLength::Large(_) => 8,
    }
}

impl DataLength {
    /// Returns the shortest form of the payload length `n`.
    pub fn from_u64(n: u64) -> (r: DataLength)
        ensures
            r == canonical_length(n),
    {
        if n <= 125 {
            DataLength::Small(n as u8)
        } else if n <= 65535 {
            DataLength::Medium(n as u16)
        } else {
            DataLength::Large(n)
        }
    }

    /// Returns the shortest form of the payload length `n`.
    pub fn from_usize(n: usize) -> (r: DataLength)
        ensures
            r == canonical_length(n as u64),
    {
        DataLength::from_u64(n as u64)
    }

    /// Returns the payload length, refusing non-canonical forms and lengths of 2^63 or more.
    pub fn to_u64(self) -> (r: Result<u64, Error>)
        ensures
            r == length_value(self),
    {
        match self {
            DataLength::Small(n) => Ok(n as u64),
            DataLength::Medium(n) => {
                if n <= 125 {
                    Err(Error::NonCanonical16(n))
                } else {
                    Ok(n as u64)
                }
            },
            DataLength::Large(n) => {
                if n <= 65535 {
                    Err(Error::NonCanonical64(n))
                } else if n >= 0x8000_0000_0000_0000 {
                    Err(Error::FrameTooLong(n))
                } else {
                    Ok(n)
                }
            },
        }
    }

    /// Returns the payload length as a `usize`, refusing what `to_u64` refuses
    /// and lengths that do not fit the address space.
    pub fn to_usize(self) -> (r: Result<usize, Error>)
        ensures
            match length_value(self) {
                Ok(n) => if n <= usize::MAX {
                    r == Ok::<usize, Error>(n as usize)
                } else {
                    r == Err::<usize, Error>(Error::FrameTooLong(n))
                },
                Err(e) => r == Err::<usize, Error>(e),
            },
    {
        let n = self.to_u64()?;
        if n > usize::MAX as u64 {
            return Err(Error::FrameTooLong(n));
        }
        Ok(n as usize)
    }
}

impl From<u64> for DataLength {
    fn from(n: u64) -> (r: DataLength) {
        DataLength::from_u64(n)
    }
}

impl vstd::std_specs::convert::FromSpecImpl<u64> for DataLength {
    open spec fn obeys_from_spec() -> bool {
        true
    }

    open spec fn from_spec(v: u64) -> DataLength {
        canonical_length(v)
    }
}

/// Describes an individual frame within a WebSocket message at a low level.
#[derive(Copy, Clone, Debug, PartialEq, Eq, Structural)]
pub struct FrameHeader {
    /// The FIN bit: this is the last frame of a message.
    pub fin: bool,
    /// The RSV1, RSV2 and RSV3 bits, in place (bits 4 to 6 of the first byte).
    pub rsv: u8,
    /// The 4-bit opcode; 0 is a continuation.
    pub opcode: u8,
    /// The masking key, if the payload is masked.
    pub mask: Option<Mask>,
    /// The payload length.
    pub data_len: DataLength,
}

/// The big-endian bytes of a 16-bit value.
pub open spec fn be16(n: u16) -> Seq<u8> {
    seq![(n >> 8) as u8, n as u8]
}

/// The big-endian bytes of a 64-bit value.
pub open spec fn be64(n: u64) -> Seq<u8> {
    seq![
        (n >> 56) as u8,
        (n >> 48) as u8,
        (n >> 40) as u8,
        (n >> 32) as u8,
        (n >> 24) as u8,
        (n >> 16) as u8,
        (n >> 8) as u8,
        n as u8,
    ]
}

/// The 16-bit value whose big-endian bytes start at `i`.
pub open spec fn read_be16(b: Seq<u8>, i: int) -> u16 {
    ((b[i] as u16) << 8u16) | (b[i + 1] as u16)
}

/// The 64-bit value whose big-endian bytes start at `i`.
pub open spec fn read_be64(b: Seq<u8>, i: int) -> u64 {
    ((b[i] as u64) << 56u64) | ((b[i + 1] as u64) << 48u64) | ((b[i + 2] as u64) << 40u64) | ((
    b[i + 3] as u64) << 32u64) | ((b[i + 4] as u64) << 24u64) | ((b[i + 5] as u64) << 16u64) | ((
    b[i + 6] as u64) << 8u64) | (b[i + 7] as u64)
}

/// The mask value whose key bytes start at `i`.
pub open spec fn read_key(b: Seq<u8>, i: int) -> u32 {
    (b[i] as u32) | ((b[i + 1] as u32) << 8u32) | ((b[i + 2] as u32) << 16u32) | ((
    b[i + 3] as u32) << 24u32)
}

impl FrameHeader {
    /// The header's fields fit the bits that the wire gives them.
    pub open spec fn wf(self) -> bool {
        &&& self.rsv & 0x8f == 0
        &&& self.opcode <= 15
        &&& (self.data_len matches DataLength::Small(n) ==> n <= 125)
    }

    /// The serialized length of the header.
    pub open spec fn spec_header_len(self) -> nat {
        2 + length_field_len(self.data_len) + if self.mask is Some {
            4nat
        } else {
            0nat
        }
    }
}

/// The first header byte: FIN, RSV and opcode.
pub open spec fn first_byte(h: FrameHeader) -> u8 {
    (if h.fin {
        0x80u8
    } else {
        0u8
    }) | h.rsv | h.opcode
}

/// The second header byte: the mask bit and the 7-bit length.
pub open spec fn second_byte(h: FrameHeader) -> u8 {
    (if h.mask is Some {
        0x80u8
    } else {
        0u8
    }) | match h.data_len {
        DataLength::Small(n) => n,
        DataLength::Medium(_) => 126u8,
        DataLength::Large(_) => 127u8,
    }
}

/// The bytes of the extended length field.
pub open spec fn length_field(len: DataLength) -> Seq<u8> {
    match len {
        DataLength::Small(_) => Seq::empty(),
        DataLength::Medium(n) => be16(n),
        DataLength::Large(n) => be64(n),
    }
}

/// The serialized header.
pub open spec fn header_bytes(h: FrameHeader) -> Seq<u8> {
    seq![first_byte(h), second_byte(h)] + length_field(h.data_len) + match h.mask {
        Some(m) => mask_key(m.0),
        None => Seq::empty(),
    }
}

/// The header at the front of `buf` and its length, or `None` while `buf` is
/// too short to hold all of it.
pub open spec fn parse_header(buf: Seq<u8>) -> Option<(FrameHeader, nat)> {
    if buf.len() < 2 {
        None
    } else {
        let b0 = buf[0];
        let b1 = buf[1];
        let len7 = b1 & 0x7f;
        let ext: nat = if len7 == 127 {
            8
        } else if len7 == 126 {
            2
        } else {
            0
        };
        let key: nat = if b1 & 0x80 == 0 {
            0
        } else {
            4
        };
        if buf.len() < 2 + ext + key {
            None
        } else {
            let data_len = if len7 == 127 {
                DataLength::Large(read_be64(buf, 2))
            } else if len7 == 126 {
                DataLength::Medium(read_be16(buf, 2))
            } else {
                DataLength::Small(len7)
            };
            let mask = if b1 & 0x80 == 0 {
                None
            } else {
                Some(Mask(read_key(buf, (2 + ext) as int)))
            };
            Some(
                (
                    FrameHeader {
                        fin: b0 & 0x80 != 0,
                        rsv: b0 & 0x70,
                        opcode: b0 & 0x0f,
                        mask,
                        data_len,
                    },
                    2 + ext + key,
                ),
            )
        }
    }
}

/// Reading back the big-endian bytes of a 16-bit value gives the value.
proof fn lemma_be16(n: u16)
    ensures
        read_be16(be16(n), 0) == n,
{
    let b0 = (n >> 8) as u8;
    let b1 = n as u8;
    assert((((b0 as u16) << 8u16) | (b1 as u16)) == n) by (bit_vector)
        requires
            b0 == (n >> 8) as u8,
            b1 == n as u8,
    ;
}

/// Reading back the big-endian bytes of a 64-bit value gives the value.
proof fn lemma_be64(n: u64)
    ensures
        read_be64(be64(n), 0) == n,
{
    let b = be64(n);
    let (b0, b1, b2, b3, b4, b5, b6, b7) = (b[0], b[1], b[2], b[3], b[4], b[5], b[6], b[7]);
    assert(((b0 as u64) << 56u64) | ((b1 as u64) << 48u64) | ((b2 as u64) << 40u64) | ((
    b3 as u64) << 32u64) | ((b4 as u64) << 24u64) | ((b5 as u64) << 16u64) | ((b6 as u64)
        << 8u64) | (b7 as u64) == n) by (bit_vector)
        requires
            b0 == (n >> 56) as u8,
            b1 == (n >> 48) as u8,
            b2 == (n >> 40) as u8,
            b3 == (n >> 32) as u8,
            b4 == (n >> 24) as u8,
            b5 == (n >> 16) as u8,
            b6 == (n >> 8) as u8,
            b7 == n as u8,
    ;
}

/// Reading back the key bytes of a mask value gives the value.
proof fn lemma_key(m: u32)
    ensures
        read_key(mask_key(m), 0) == m,
{
    let k = mask_key(m);
    let (b0, b1, b2, b3) = (k[0], k[1], k[2], k[3]);
    assert((b0 as u32) | ((b1 as u32) << 8u32) | ((b2 as u32) << 16u32) | ((b3 as u32) << 24u32)
        == m) by (bit_vector)
        requires
            b0 == m as u8,
            b1 == (m >> 8) as u8,
            b2 == (m >> 16) as u8,
            b3 == (m >> 24) as u8,
    ;
}

/// The fields packed into the first byte can be read back from it.
proof fn lemma_first_byte(fin_bit: u8, rsv: u8, opcode: u8)
    requires
        fin_bit == 0 || fin_bit == 0x80,
        rsv & 0x8f == 0,
        opcode <= 15,
    ensures
        ((fin_bit | rsv | opcode) & 0x80 != 0) == (fin_bit == 0x80),
        (fin_bit | rsv | opcode) & 0x70 == rsv,
        (fin_bit | rsv | opcode) & 0x0f == opcode,
{
    assert(((fin_bit | rsv | opcode) & 0x80 != 0) == (fin_bit == 0x80)) by (bit_vector)
        requires
            fin_bit == 0 || fin_bit == 0x80,
            rsv & 0x8f == 0,
            opcode <= 15,
    ;
    assert((fin_bit | rsv | opcode) & 0x70 == rsv) by (bit_vector)
        requires
            fin_bit == 0 || fin_bit == 0x80,
            rsv & 0x8f == 0,
            opcode <= 15,
    ;
    assert((fin_bit | rsv | opcode) & 0x0f == opcode) by (bit_vector)
        requires
            fin_bit == 0 || fin_bit == 0x80,
            rsv & 0x8f == 0,
            opcode <= 15,
    ;
}

/// The mask bit and the 7-bit length can be read back from the second byte.
proof fn lemma_second_byte(mask_bit: u8, len7: u8)
    requires
        mask_bit == 0 || mask_bit == 0x80,
        len7 <= 127,
    ensures
        (mask_bit | len7) & 0x7f == len7,
        ((mask_bit | len7) & 0x80 == 0) == (mask_bit == 0),
{
    assert((mask_bit | len7) & 0x7f == len7) by (bit_vector)
        requires
            mask_bit == 0 || mask_bit == 0x80,
            len7 <= 127,
    ;
    assert(((mask_bit | len7) & 0x80 == 0) == (mask_bit == 0)) by (bit_vector)
        requires
            mask_bit == 0 || mask_bit == 0x80,
            len7 <= 127,
    ;
}

/// Parsing a serialized header, whatever bytes follow it, gives back the header
/// and consumes exactly its serialized length.
pub proof fn lemma_header_round_trip(h: FrameHeader, rest: Seq<u8>)
    requires
        h.wf(),
    ensures
        parse_header(header_bytes(h) + rest) == Some((h, h.spec_header_len())),
        header_bytes(h).len() == h.spec_header_len(),
{
    let buf = header_bytes(h) + rest;
    let fin_bit: u8 = if h.fin {
        0x80
    } else {
        0
    };
    let mask_bit: u8 = if h.mask is Some {
        0x80
    } else {
        0
    };
    let len7: u8 = match h.data_len {
        DataLength::Small(n) => n,
        DataLength::Medium(_) => 126,
        DataLength::Large(_) => 127,
    };
    lemma_first_byte(fin_bit, h.rsv, h.opcode);
    lemma_second_byte(mask_bit, len7);
    let ext = length_field_len(h.data_len);
    assert(buf[0] == first_byte(h));
    assert(buf[1] == second_byte(h));
    match h.data_len {
        DataLength::Small(n) => {},
        DataLength::Medium(n) => {
            lemma_be16(n);
            assert(buf[2] == be16(n)[0]);
            assert(buf[3] == be16(n)[1]);
        },
        DataLength::Large(n) => {
            lemma_be64(n);
            assert(forall|j: int| 0 <= j < 8 ==> buf[2 + j] == #[trigger] be64(n)[j]);
        },
    }
    match h.mask {
        Some(m) => {
            lemma_key(m.0);
            assert(forall|j: int|
                0 <= j < 4 ==> buf[2 + ext + j] == #[trigger] mask_key(m.0)[j]);
        },
        None => {},
    }
}

/// Reads a big-endian 16-bit value at `i`.
fn read_u16_be(buf: &[u8], i: usize) -> (r: u16)
    requires
        i + 2 <= buf@.len(),
    ensures
        r == read_be16(buf@, i as int),
{
    ((buf[i] as u16) << 8) | (buf[i + 1] as u16)
}

/// Reads a big-endian 64-bit value at `i`.
fn read_u64_be(buf: &[u8], i: usize) -> (r: u64)
    requires
        i + 8 <= buf@.len(),
    ensures
        r == read_be64(buf@, i as int),
{
    ((buf[i] as u64) << 56) | ((buf[i + 1] as u64) << 48) | ((buf[i + 2] as u64) << 40) | ((
    buf[i + 3] as u64) << 32) | ((buf[i + 4] as u64) << 24) | ((buf[i + 5] as u64) << 16) | ((
    buf[i + 6] as u64) << 8) | (buf[i + 7] as u64)
}

/// Reads the four key bytes of a mask at `i`.
fn read_mask_key(buf: &[u8], i: usize) -> (r: u32)
    requires
        i + 4 <= buf@.len(),
    ensures
        r == read_key(buf@, i as int),
{
    (buf[i] as u32) | ((buf[i + 1] as u32) << 8) | ((buf[i + 2] as u32) << 16) | ((buf[i + 3] as u32)
        << 24)
}

impl FrameHeader {
    /// Returns a `FrameHeader` struct.
    pub fn new(fin: bool, rsv: u8, opcode: u8, mask: Option<Mask>, data_len: DataLength) -> (r:
        FrameHeader)
        ensures
            r == (FrameHeader { fin, rsv, opcode, mask, data_len }),
    {
        FrameHeader { fin, rsv, opcode, mask, data_len }
    }

    /// Returns the WebSocket FIN bit, which indicates that this is the last frame in the message.
    pub fn fin(&self) -> (r: bool)
        ensures
            r == self.fin,
    {
        self.fin
    }

    /// Returns the WebSocket RSV1, RSV2 and RSV3 bits.
    pub fn rsv(&self) -> (r: u8)
        ensures
            r == self.rsv,
    {
        self.rsv
    }

    /// Returns the WebSocket opcode, which defines the interpretation of the frame payload data.
    pub fn opcode(&self) -> (r: u8)
        ensures
            r == self.opcode,
    {
        self.opcode
    }

    /// Returns the frame's mask.
    pub fn mask(&self) -> (r: Option<Mask>)
        ensures
            r == self.mask,
    {
        self.mask
    }

    /// Returns the length of the payload data that follows this header.
    pub fn data_len(&self) -> (r: DataLength)
        ensures
            r == self.data_len,
    {
        self.data_len
    }

    /// Returns the total length of the frame header: between 2 and 14 bytes,
    /// depending on the presence of a mask and the length of the payload data.
    pub fn header_len(&self) -> (r: usize)
        ensures
            r == self.spec_header_len(),
    {
        let mut len: usize = 2;
        len = len + match self.data_len {
            DataLength::Small(_) => 0,
            DataLength::Medium(_) => 2,
            DataLength::Large(_) => 8,
        };
        if self.mask.is_some() {
            len = len + 4;
        }
        len
    }

    /// Parses the header at the front of `buf`, returning it with its length,
    /// or `None` while `buf` is too short to hold all of it.
    pub fn parse_slice(buf: &[u8]) -> (r: Option<(FrameHeader, usize)>)
        ensures
            match r {
                None => parse_header(buf@) is None,
                Some((h, n)) => parse_header(buf@) == Some((h, n as nat)),
            },
    {
        if buf.len() < 2 {
            return None;
        }
        let b0 = buf[0];
        let b1 = buf[1];
        let len7 = b1 & 0x7f;
        let ext: usize = if len7 == 127 {
            8
        } else if len7 == 126 {
            2
        } else {
            0
        };
        let key: usize = if b1 & 0x80 == 0 {
            0
        } else {
            4
        };
        if buf.len() < 2 + ext + key {
            return None;
        }
        let data_len = if len7 == 127 {
            DataLength::Large(read_u64_be(buf, 2))
        } else if len7 == 126 {
            DataLength::Medium(read_u16_be(buf, 2))
        } else {
            DataLength::Small(len7)
        };
        let mask = if b1 & 0x80 == 0 {
            None
        } else {
            Some(Mask(read_mask_key(buf, 2 + ext)))
        };
        let header = FrameHeader {
            fin: b0 & 0x80 != 0,
            rsv: b0 & 0x70,
            opcode: b0 & 0x0f,
            mask,
            data_len,
        };
        Some((header, 2 + ext + key))
    }

    /// Writes the header to the front of `dst`.
    pub fn write_to_slice(&self, dst: &mut [u8])
        requires
            self.wf(),
            old(dst)@.len() >= self.spec_header_len(),
        ensures
            final(dst)@ == header_bytes(*self) + old(dst)@.subrange(
                self.spec_header_len() as int,
                old(dst)@.len() as int,
            ),
    {
        let ghost orig = dst@;
        let fin_bit: u8 = if self.fin {
            0x80
        } else {
            0
        };
        dst[0] = fin_bit | self.rsv | self.opcode;
        let mask_bit: u8 = if self.mask.is_some() {
            0x80
        } else {
            0
        };
        let ext: usize = match self.data_len {
            DataLength::Small(n) => {
                dst[1] = mask_bit | n;
                0
            },
            DataLength::Medium(n) => {
                dst[1] = mask_bit | 126;
                dst[2] = (n >> 8) as u8;
                dst[3] = n as u8;
                2
            },
            DataLength::Large(n) => {
                dst[1] = mask_bit | 127;
                dst[2] = (n >> 56) as u8;
                dst[3] = (n >> 48) as u8;
                dst[4] = (n >> 40) as u8;
                dst[5] = (n >> 32) as u8;
                dst[6] = (n >> 24) as u8;
                dst[7] = (n >> 16) as u8;
                dst[8] = (n >> 8) as u8;
                dst[9] = n as u8;
                8
            },
        };
        if let Some(m) = self.mask {
            let k = m.0;
            dst[2 + ext] = k as u8;
            dst[3 + ext] = (k >> 8) as u8;
            dst[4 + ext] = (k >> 16) as u8;
            dst[5 + ext] = (k >> 24) as u8;
        }
        assert(dst@ =~= header_bytes(*self) + orig.subrange(
            self.spec_header_len() as int,
            orig.len() as int,
        ));
    }

    /// Appends the header to `dst`.
    pub fn write_to_bytes(&self, dst: &mut Vec<u8>)
        requires
            self.wf(),
        ensures
            final(dst)@ == old(dst)@ + header_bytes(*self),
    {
        let header_len = self.header_len();
        let mut buf = [0u8; 14];
        self.write_to_slice(&mut buf);
        let mut i: usize = 0;
        while i < header_len
            invariant
                i <= header_len,
                header_len == self.spec_header_len(),
                buf@.subrange(0, header_len as int) == header_bytes(*self),
                dst@ == old(dst)@ + header_bytes(*self).subrange(0, i as int),
            decreases header_len - i,
        {
            dst.push(buf[i]);
            i = i + 1;
            assert(header_bytes(*self).subrange(0, i as int) =~= header_bytes(*self).subrange(
                0,
                i - 1,
            ).push(buf@[i - 1]));
        }
        assert(header_bytes(*self).subrange(0, header_len as int) =~= header_bytes(*self));
    }
}

impl FrameHeader {
    /// Returns the length of the whole frame, header and payload, refusing the
    /// lengths that `DataLength::to_u64` refuses.
    pub fn frame_len(&self) -> (r: Result<u64, Error>)
        ensures
            match length_value(self.data_len) {
                Ok(n) => r == Ok::<u64, Error>((self.spec_header_len() + n) as u64),
                Err(e) => r == Err::<u64, Error>(e),
            },
    {
        let n = match self.data_len.to_u64() {
            Ok(n) => n,
            Err(e) => {
                return Err(e);
            },
        };
        Ok(self.header_len() as u64 + n)
    }
}

/// Codec for the header portion of WebSocket frames.
pub struct FrameHeaderCodec;

impl FrameHeaderCodec {
    /// Parses the header at the front of `src`, returning it with the number of
    /// bytes it spans, or `None` while `src` is too short to hold all of it.
    pub fn decode(&mut self, src: &[u8]) -> (r: Option<(FrameHeader, usize)>)
        ensures
            match r {
                None => parse_header(src@) is None,
                Some((h, n)) => parse_header(src@) == Some((h, n as nat)),
            },
    {
        FrameHeader::parse_slice(src)
    }

    /// Appends the serialized header to `dst`.
    pub fn encode(&mut self, item: &FrameHeader, dst: &mut Vec<u8>)
        requires
            item.wf(),
        ensures
            final(dst)@ == old(dst)@ + header_bytes(*item),
    {
        item.write_to_bytes(dst)
    }
}

} // verus!
