use vstd::prelude::*;
use vstd::slice::{slice_subrange, slice_to_vec};
use vstd::string::*;
use vstd::utf8::*;

use crate::error::Error;
use crate::frame::{
    canonical_length, header_bytes, lemma_header_round_trip, length_value, parse_header, DataLength,
    FrameHeader,
};
use crate::mask::{lemma_mask_twice, mask_in_place, mask_key, masked, Mask};
use crate::opcode::{is_control_opcode, lemma_opcode_round_trip, opcode_of, opcode_value, Opcode};

verus! {

/// Relies on std::str::from_utf8: it accepts exactly the well-formed UTF-8
/// byte sequences, and the text it hands back is made of those bytes.
#[verifier::external_body]
pub(crate) fn utf8_str(b: &[u8]) -> (r: Option<&str>)
    ensures
        r is Some <==> valid_utf8(b@),
        r matches Some(s) ==> s.spec_bytes() == b@,
{
    std::str::from_utf8(b).ok()
}

/// Why a message with this opcode and payload may not exist, if it may not.
///
/// Text must be UTF-8. A close payload is empty, or a two-byte status code
/// followed by a UTF-8 reason.
pub open spec fn message_error(opcode: Opcode, data: Seq<u8>) -> Option<Error> {
    if opcode == Opcode::Text && !valid_utf8(data) {
        Some(Error::InvalidUtf8)
    } else if opcode == Opcode::Close && data.len() > 0 && (data.len() < 2 || !valid_utf8(
        data.subrange(2, data.len() as int),
    )) {
        Some(Error::InvalidCloseBody)
    } else {
        None
    }
}

/// Checks a message's payload against its opcode.
fn check_message(opcode: Opcode, data: &[u8]) -> (r: Option<Error>)
    ensures
        r == message_error(opcode, data@),
{
    match opcode {
        Opcode::Text => {
            if utf8_str(data).is_none() {
                return Some(Error::InvalidUtf8);
            }
        },
        Opcode::Close => {
            if data.len() > 0 {
                if data.len() < 2 {
                    return Some(Error::InvalidCloseBody);
                }
                if utf8_str(slice_subrange(data, 2, data.len())).is_none() {
                    return Some(Error::InvalidCloseBody);
                }
            }
        },
        _ => {},
    }
    None
}

/// A text string, a block of binary data or a WebSocket control frame.
#[derive(Debug)]
pub struct Message {
    opcode: Opcode,
    data: Vec<u8>,
}

impl View for Message {
    type V = (Opcode, Seq<u8>);

    closed spec fn view(&self) -> (Opcode, Seq<u8>) {
        (self.opcode, self.data@)
    }
}

impl Message {
    #[verifier::type_invariant]
    spec fn inv(&self) -> bool {
        message_error(self.opcode, self.data@) is None
    }

    /// Creates a message, refusing text that is not UTF-8 and close payloads
    /// that are not a status code and a UTF-8 reason.
    pub fn new(opcode: Opcode, data: Vec<u8>) -> (r: Result<Message, Error>)
        ensures
            match message_error(opcode, data@) {
                Some(e) => r == Err::<Message, Error>(e),
                None => r matches Ok(m) && m@ == (opcode, data@),
            },
    {
        match check_message(opcode, data.as_slice()) {
            Some(e) => Err(e),
            None => Ok(Message { opcode, data }),
        }
    }

    /// Creates a text message from a `String`.
    pub fn text(data: String) -> (r: Message)
        ensures
            r@ == (Opcode::Text, encode_utf8(data@)),
    {
        let bytes = slice_to_vec(data.as_str().as_bytes());
        proof {
            encode_utf8_valid_utf8(data@);
        }
        Message { opcode: Opcode::Text, data: bytes }
    }

    /// Creates a binary message.
    pub fn binary(data: Vec<u8>) -> (r: Message)
        ensures
            r@ == (Opcode::Binary, data@),
    {
        Message { opcode: Opcode::Binary, data }
    }

    /// Creates a message that indicates the connection is about to be closed.
    ///
    /// The `reason` parameter is an optional numerical status code and text
    /// description; the payload is the code in big-endian order followed by the text.
    pub fn close(reason: Option<(u16, String)>) -> (r: Message)
        ensures
            r@.0 == Opcode::Close,
            match reason {
                Some((code, text)) => r@.1 == seq![(code >> 8) as u8, code as u8] + encode_utf8(
                    text@,
                ),
                None => r@.1 == Seq::<u8>::empty(),
            },
    {
        match reason {
            Some((code, text)) => {
                let mut data: Vec<u8> = Vec::new();
                data.push((code >> 8) as u8);
                data.push(code as u8);
                let mut rest = slice_to_vec(text.as_str().as_bytes());
                data.append(&mut rest);
                proof {
                    encode_utf8_valid_utf8(text@);
                    assert(data@.subrange(2, data@.len() as int) =~= encode_utf8(text@));
                    assert(data@ =~= seq![(code >> 8) as u8, code as u8] + encode_utf8(text@));
                }
                Message { opcode: Opcode::Close, data }
            },
            None => Message { opcode: Opcode::Close, data: Vec::new() },
        }
    }

    /// Creates a message requesting a pong response.
    pub fn ping(data: Vec<u8>) -> (r: Message)
        ensures
            r@ == (Opcode::Ping, data@),
    {
        Message { opcode: Opcode::Ping, data }
    }

    /// Creates a response to a ping message.
    pub fn pong(data: Vec<u8>) -> (r: Message)
        ensures
            r@ == (Opcode::Pong, data@),
    {
        Message { opcode: Opcode::Pong, data }
    }

    /// Returns this message's WebSocket opcode.
    pub fn opcode(&self) -> (r: Opcode)
        ensures
            r == self@.0,
    {
        self.opcode
    }

    /// Returns the data held in this message.
    pub fn data(&self) -> (r: &[u8])
        ensures
            r@ == self@.1,
    {
        self.data.as_slice()
    }

    /// Consumes the message, returning its data.
    pub fn into_data(self) -> (r: Vec<u8>)
        ensures
            r@ == self@.1,
    {
        self.data
    }

    /// For text messages, returns the text; `None` otherwise.
    pub fn as_text(&self) -> (r: Option<&str>)
        ensures
            r is Some <==> self@.0 == Opcode::Text,
            r matches Some(s) ==> s.spec_bytes() == self@.1,
    {
        proof {
            use_type_invariant(self);
        }
        if self.opcode.is_text() {
            utf8_str(self.data.as_slice())
        } else {
            None
        }
    }

    /// Returns the header of the single frame that carries this message.
    pub fn header(&self, mask: Option<Mask>) -> (r: FrameHeader)
        ensures
            r == message_header(self@.0, self@.1.len(), mask),
            r.wf(),
    {
        assert(0u8 & 0x8fu8 == 0u8) by (bit_vector);
        FrameHeader {
            fin: true,
            rsv: 0,
            opcode: self.opcode.value(),
            mask,
            data_len: DataLength::from_usize(self.data.len()),
        }
    }
}

impl Clone for Message {
    fn clone(&self) -> (r: Message)
        ensures
            r@ == self@,
    {
        proof {
            use_type_invariant(self);
        }
        Message { opcode: self.opcode, data: slice_to_vec(self.data.as_slice()) }
    }
}

impl PartialEq for Message {
    fn eq(&self, other: &Message) -> (r: bool)
        ensures
            r == (self@ == other@),
    {
        if self.opcode != other.opcode || self.data.len() != other.data.len() {
            return false;
        }
        let mut i: usize = 0;
        while i < self.data.len()
            invariant
                i <= self.data@.len(),
                self.data@.len() == other.data@.len(),
                forall|k: int| 0 <= k < i ==> self.data@[k] == other.data@[k],
            decreases self.data@.len() - i,
        {
            if self.data[i] != other.data[i] {
                return false;
            }
            i = i + 1;
        }
        assert(self.data@ =~= other.data@);
        true
    }
}

impl vstd::std_specs::cmp::PartialEqSpecImpl for Message {
    open spec fn obeys_eq_spec() -> bool {
        true
    }

    open spec fn eq_spec(&self, other: &Message) -> bool {
        self@ == other@
    }
}

/// The header of the single, final, unmasked-or-masked frame that carries a message.
pub open spec fn message_header(opcode: Opcode, len: nat, mask: Option<Mask>) -> FrameHeader {
    FrameHeader {
        fin: true,
        rsv: 0,
        opcode: opcode_value(opcode),
        mask,
        data_len: canonical_length(len as u64),
    }
}

/// A payload as it stands on the wire under an optional mask.
pub open spec fn apply_mask(data: Seq<u8>, mask: Option<Mask>) -> Seq<u8> {
    match mask {
        Some(m) => masked(data, m.0),
        None => data,
    }
}

/// The bytes of the frame that carries a message.
pub open spec fn frame_bytes(m: (Opcode, Seq<u8>), mask: Option<Mask>) -> Seq<u8> {
    header_bytes(message_header(m.0, m.1.len(), mask)) + apply_mask(m.1, mask)
}

/// What one frame does to the decoder, given the fragmented message in progress.
pub enum FrameStep {
    /// A message is complete; the message in progress afterwards.
    Emit(Opcode, Seq<u8>, Option<(Opcode, Seq<u8>)>),
    /// No message yet; the message in progress afterwards.
    Continue(Option<(Opcode, Seq<u8>)>),
    /// The frame breaks the protocol.
    Fail(Error),
}

/// What one call of the decoder comes to.
pub enum DecodeOutcome {
    /// A message, the bytes consumed, and the message in progress afterwards.
    Emit { opcode: Opcode, data: Seq<u8>, consumed: nat, pending: Option<(Opcode, Seq<u8>)> },
    /// More bytes are needed; the bytes consumed by continuation frames, how
    /// many more bytes to make room for, and the message in progress afterwards.
    Wait { consumed: nat, reserve: nat, pending: Option<(Opcode, Seq<u8>)> },
    /// The input breaks the protocol.
    Fail(Error),
}

/// Emits a message if its payload suits its opcode.
pub open spec fn emit_step(
    opcode: Opcode,
    data: Seq<u8>,
    pending: Option<(Opcode, Seq<u8>)>,
) -> FrameStep {
    match message_error(opcode, data) {
        Some(e) => FrameStep::Fail(e),
        None => FrameStep::Emit(opcode, data, pending),
    }
}

/// The reassembly rules for one complete frame with header `h`, payload length
/// `n` and unmasked payload `payload`.
pub open spec fn frame_step(
    pending: Option<(Opcode, Seq<u8>)>,
    h: FrameHeader,
    n: u64,
    payload: Seq<u8>,
) -> FrameStep {
    if h.rsv != 0 {
        FrameStep::Fail(Error::ReservedBits(h.rsv))
    } else if h.opcode == 0 {
        match pending {
            None => FrameStep::Fail(Error::ContinuationFirst),
            Some((op, data)) => if h.fin {
                emit_step(op, data + payload, None)
            } else {
                FrameStep::Continue(Some((op, data + payload)))
            },
        }
    } else {
        match opcode_of(h.opcode) {
            None => FrameStep::Fail(Error::UnsupportedOpcode(h.opcode)),
            Some(op) => if is_control_opcode(op) && n >= 126 {
                FrameStep::Fail(Error::ControlFrameTooLong(n))
            } else {
                match pending {
                    Some(p) => if h.fin && is_control_opcode(op) {
                        emit_step(op, payload, Some(p))
                    } else {
                        FrameStep::Fail(Error::ExpectedContinuation(op))
                    },
                    None => if h.fin {
                        emit_step(op, payload, None)
                    } else if is_control_opcode(op) {
                        FrameStep::Fail(Error::FragmentedControlFrame)
                    } else {
                        FrameStep::Continue(Some((op, payload)))
                    },
                }
            },
        }
    }
}

/// The room to ask for when a frame of `frame_len` bytes is incomplete: the
/// frame, in chunks of at most 1 GiB, and the next frame header.
pub open spec fn frame_reserve(frame_len: nat) -> nat {
    (if frame_len < 0x4000_0000 {
        frame_len
    } else {
        0x4000_0000
    }) + 512
}

/// Decoding `buf` from position `pos` on, with `pending` the fragmented message
/// in progress.
pub open spec fn decode_from(
    pending: Option<(Opcode, Seq<u8>)>,
    buf: Seq<u8>,
    pos: nat,
) -> DecodeOutcome
    decreases buf.len() - pos,
{
    if pos > buf.len() {
        // no frame starts past the end of the buffer
        DecodeOutcome::Wait { consumed: pos, reserve: 512, pending }
    } else {
        let rest = buf.subrange(pos as int, buf.len() as int);
        match parse_header(rest) {
            None => DecodeOutcome::Wait { consumed: pos, reserve: 512, pending },
            Some((h, hl)) => match length_value(h.data_len) {
                Err(e) => DecodeOutcome::Fail(e),
                Ok(n) => if n > usize::MAX {
                    DecodeOutcome::Fail(Error::FrameTooLong(n))
                } else if hl + n > rest.len() {
                    if hl + n > usize::MAX - rest.len() {
                        DecodeOutcome::Fail(Error::FrameTooLong((hl + n) as u64))
                    } else {
                        DecodeOutcome::Wait { consumed: pos, reserve: frame_reserve((hl + n) as nat), pending }
                    }
                } else {
                    let payload = apply_mask(rest.subrange(hl as int, hl + n), h.mask);
                    match frame_step(pending, h, n, payload) {
                        FrameStep::Fail(e) => DecodeOutcome::Fail(e),
                        FrameStep::Emit(op, data, p) => DecodeOutcome::Emit {
                            opcode: op,
                            data,
                            consumed: (pos + hl + n) as nat,
                            pending: p,
                        },
                        FrameStep::Continue(p) => decode_from(p, buf, (pos + hl + n) as nat),
                    }
                },
            },
        }
    }
}

/// XORing with zero keeps a byte.
proof fn lemma_xor_zero(b: u8)
    ensures
        b ^ 0u8 == b,
{
    assert(b ^ 0u8 == b) by (bit_vector);
}

/// A header is at least two bytes long.
proof fn lemma_parse_header_len(buf: Seq<u8>)
    ensures
        parse_header(buf) matches Some((h, hl)) ==> hl >= 2 && hl <= buf.len() && hl
            == h.spec_header_len(),
{
}

/// What the decoder hands back.
#[derive(Debug)]
pub enum Decoded {
    /// A complete message, and the number of bytes of the buffer it consumed.
    Message { message: Message, consumed: usize },
    /// No message yet: the number of bytes consumed by continuation frames
    /// (whose payload the codec now holds), and how many more bytes to make room for.
    NeedMore { consumed: usize, reserve: usize },
}

/// Codec for WebSocket messages: it reassembles fragmented messages on decode,
/// and sends each message as one frame on encode.
#[derive(Clone, Debug)]
pub struct MessageCodec {
    interrupted_message: Option<(Opcode, Vec<u8>)>,
    use_mask: bool,
}

/// The plain value of a fragmented message in progress.
pub open spec fn pending_view(p: Option<(Opcode, Vec<u8>)>) -> Option<(Opcode, Seq<u8>)> {
    match p {
        Some((op, v)) => Some((op, v@)),
        None => None,
    }
}

/// Unmasks the payload at `start..start + len` of `src` into a new buffer.
fn unmasked_payload(src: &[u8], start: usize, len: usize, mask: Option<Mask>) -> (r: Vec<u8>)
    requires
        start + len <= src@.len(),
        start + len <= usize::MAX,
    ensures
        r@ == apply_mask(src@.subrange(start as int, start + len), mask),
{
    let mut data = slice_to_vec(slice_subrange(src, start, start + len));
    if let Some(m) = mask {
        mask_in_place(data.as_mut_slice(), m);
    }
    data
}

/// Hands back a decoded message, unless its payload does not suit its opcode.
fn emit(opcode: Opcode, data: Vec<u8>, consumed: usize) -> (r: Result<Decoded, Error>)
    ensures
        match message_error(opcode, data@) {
            Some(e) => r == Err::<Decoded, Error>(e),
            None => r matches Ok(Decoded::Message { message, consumed: c }) && message@ == (
            opcode,
            data@,
            ) && c == consumed,
        },
{
    match check_message(opcode, data.as_slice()) {
        Some(e) => Err(e),
        None => Ok(Decoded::Message { message: Message { opcode, data }, consumed }),
    }
}

impl MessageCodec {
    /// The fragmented message in progress, if any.
    pub closed spec fn pending(&self) -> Option<(Opcode, Seq<u8>)> {
        pending_view(self.interrupted_message)
    }

    /// Whether encoded frames are masked.
    pub closed spec fn masks_output(&self) -> bool {
        self.use_mask
    }

    /// Creates a `MessageCodec` for a client: encoded messages are masked.
    pub fn client() -> (r: MessageCodec)
        ensures
            r.masks_output(),
            r.pending() is None,
    {
        MessageCodec::with_masked_encode(true)
    }

    /// Creates a `MessageCodec` for a server: encoded messages are not masked.
    pub fn server() -> (r: MessageCodec)
        ensures
            !r.masks_output(),
            r.pending() is None,
    {
        MessageCodec::with_masked_encode(false)
    }

    /// Creates a `MessageCodec` while specifying whether to mask encoded messages.
    pub fn with_masked_encode(use_mask: bool) -> (r: MessageCodec)
        ensures
            r.masks_output() == use_mask,
            r.pending() is None,
    {
        MessageCodec { interrupted_message: None, use_mask }
    }

    /// Decodes the front of `src`: one message, or a request for more bytes.
    ///
    /// Frames of a fragmented message are consumed as they arrive and their
    /// payload kept until the final frame; a control frame between them is
    /// handed back at once.
    pub fn decode(&mut self, src: &[u8]) -> (r: Result<Decoded, Error>)
        ensures
            final(self).masks_output() == old(self).masks_output(),
            match decode_from(old(self).pending(), src@, 0) {
                DecodeOutcome::Emit { opcode, data, consumed, pending } => r matches Ok(
                    Decoded::Message { message, consumed: c },
                ) && message@ == (opcode, data) && c == consumed && final(self).pending()
                    == pending,
                DecodeOutcome::Wait { consumed, reserve, pending } => r == Ok::<Decoded, Error>(
                    Decoded::NeedMore { consumed: consumed as usize, reserve: reserve as usize },
                ) && final(self).pending() == pending,
                DecodeOutcome::Fail(e) => r == Err::<Decoded, Error>(e),
            },
    {
        let mut state = self.interrupted_message.take();
        let mut pos: usize = 0;
        loop
            invariant
                pos <= src@.len(),
                self.use_mask == old(self).use_mask,
                self.interrupted_message is None,
                decode_from(old(self).pending(), src@, 0) == decode_from(
                    pending_view(state),
                    src@,
                    pos as nat,
                ),
            decreases src@.len() - pos,
        {
            let rest = slice_subrange(src, pos, src.len());
            proof {
                lemma_parse_header_len(rest@);
            }
            let (header, header_len) = match FrameHeader::parse_slice(rest) {
                Some(parsed) => parsed,
                None => {
                    self.interrupted_message = state;
                    return Ok(Decoded::NeedMore { consumed: pos, reserve: 512 });
                },
            };
            let data_len = match header.data_len.to_usize() {
                Ok(n) => n,
                Err(e) => {
                    return Err(e);
                },
            };
            let remaining = rest.len();
            if data_len > remaining - header_len {
                let frame_len: u64 = header_len as u64 + data_len as u64;
                if frame_len > (usize::MAX - remaining) as u64 {
                    return Err(Error::FrameTooLong(frame_len));
                }
                let frame_len = frame_len as usize;
                let reserve: usize = if frame_len < 0x4000_0000 {
                    frame_len
                } else {
                    0x4000_0000
                } + 512;
                self.interrupted_message = state;
                return Ok(Decoded::NeedMore { consumed: pos, reserve });
            }
            if header.rsv != 0 {
                return Err(Error::ReservedBits(header.rsv));
            }
            let mut payload = unmasked_payload(rest, header_len, data_len, header.mask);
            let opcode = if header.opcode == 0 {
                None
            } else {
                match Opcode::try_from(header.opcode) {
                    None => {
                        return Err(Error::UnsupportedOpcode(header.opcode));
                    },
                    Some(op) => {
                        if op.is_control() && data_len >= 126 {
                            return Err(Error::ControlFrameTooLong(data_len as u64));
                        }
                        Some(op)
                    },
                }
            };
            let consumed = pos + header_len + data_len;
            state = match state {
                Some((partial_opcode, mut partial_data)) => {
                    match opcode {
                        Some(op) => {
                            if header.fin && op.is_control() {
                                self.interrupted_message = Some((partial_opcode, partial_data));
                                return emit(op, payload, consumed);
                            }
                            return Err(Error::ExpectedContinuation(op));
                        },
                        None => {
                            partial_data.append(&mut payload);
                            if header.fin {
                                return emit(partial_opcode, partial_data, consumed);
                            }
                            Some((partial_opcode, partial_data))
                        },
                    }
                },
                None => {
                    match opcode {
                        Some(op) => {
                            if header.fin {
                                return emit(op, payload, consumed);
                            }
                            if op.is_control() {
                                return Err(Error::FragmentedControlFrame);
                            }
                            Some((op, payload))
                        },
                        None => {
                            return Err(Error::ContinuationFirst);
                        },
                    }
                },
            };
            pos = consumed;
        }
    }

    /// Appends the frame that carries `item` to `dst`, masked with `mask` if given.
    pub fn encode_with_mask(&self, item: &Message, mask: Option<Mask>, dst: &mut Vec<u8>)
        ensures
            final(dst)@ == old(dst)@ + frame_bytes(item@, mask),
    {
        let header = item.header(mask);
        let header_len = header.header_len();
        let len = item.data.len();
        if len <= usize::MAX - header_len {
            dst.reserve(header_len + len);
        }
        header.write_to_bytes(dst);
        let ghost start = dst@;
        let key: [u8; 4] = match mask {
            Some(m) => [m.0 as u8, (m.0 >> 8) as u8, (m.0 >> 16) as u8, (m.0 >> 24) as u8],
            None => [0u8; 4],
        };
        let mut i: usize = 0;
        while i < len
            invariant
                i <= len,
                len == item@.1.len(),
                mask matches Some(m) ==> key@ == mask_key(m.0),
                mask is None ==> key@ == seq![0u8, 0u8, 0u8, 0u8],
                dst@ == start + apply_mask(item@.1, mask).subrange(0, i as int),
            decreases len - i,
        {
            let b = item.data[i] ^ key[i % 4];
            proof {
                lemma_xor_zero(item@.1[i as int]);
            }
            dst.push(b);
            i = i + 1;
            assert(apply_mask(item@.1, mask).subrange(0, i as int) =~= apply_mask(
                item@.1,
                mask,
            ).subrange(0, i - 1).push(b));
        }
        assert(apply_mask(item@.1, mask).subrange(0, len as int) =~= apply_mask(item@.1, mask));
    }

    /// Appends the frame that carries `item` to `dst`, masked with a freshly
    /// drawn mask when the codec masks its output.
    pub fn encode(&mut self, item: &Message, dst: &mut Vec<u8>)
        ensures
            final(self).pending() == old(self).pending(),
            final(self).masks_output() == old(self).masks_output(),
            exists|mask: Option<Mask>|
                (mask is Some) == old(self).masks_output() && final(dst)@ == old(dst)@
                    + frame_bytes(item@, mask),
    {
        let mask = if self.use_mask {
            Some(Mask::new())
        } else {
            None
        };
        self.encode_with_mask(item, mask, dst);
    }
}

/// A canonical length below 2^63 is accepted as the length it encodes.
proof fn lemma_canonical_length_value(n: u64)
    requires
        n < 0x8000_0000_0000_0000,
    ensures
        length_value(canonical_length(n)) == Ok::<u64, Error>(n),
        canonical_length(n) matches DataLength::Small(k) ==> k <= 125,
{
}

/// The header of a message's frame fits the wire.
proof fn lemma_message_header_wf(opcode: Opcode, len: nat, mask: Option<Mask>)
    ensures
        message_header(opcode, len, mask).wf(),
{
    assert(0u8 & 0x8fu8 == 0u8) by (bit_vector);
}

/// A parsed header depends only on the bytes it spans: a prefix of the buffer
/// that holds them parses the same, and a shorter one parses to `None`.
proof fn lemma_parse_prefix(b: Seq<u8>, k: int)
    requires
        0 <= k <= b.len(),
    ensures
        parse_header(b) matches Some((h, hl)) ==> (k >= hl ==> parse_header(b.subrange(0, k))
            == Some((h, hl))) && (k < hl ==> parse_header(b.subrange(0, k)) is None),
{
    let p = b.subrange(0, k);
    assert(forall|i: int| 0 <= i < k ==> p[i] == b[i]);
}

/// Decoding the frame that carries a message, whatever bytes follow it, gives
/// back the message and consumes exactly the frame.
pub proof fn lemma_message_round_trip(m: (Opcode, Seq<u8>), mask: Option<Mask>, rest: Seq<u8>)
    requires
        message_error(m.0, m.1) is None,
        is_control_opcode(m.0) ==> m.1.len() <= 125,
        m.1.len() < 0x8000_0000_0000_0000,
        m.1.len() <= usize::MAX,
    ensures
        decode_from(None, frame_bytes(m, mask) + rest, 0) == (DecodeOutcome::Emit {
            opcode: m.0,
            data: m.1,
            consumed: frame_bytes(m, mask).len(),
            pending: None,
        }),
{
    let h = message_header(m.0, m.1.len(), mask);
    let n = m.1.len() as u64;
    let body = apply_mask(m.1, mask);
    let buf = frame_bytes(m, mask) + rest;
    lemma_message_header_wf(m.0, m.1.len(), mask);
    lemma_header_round_trip(h, body + rest);
    assert(buf =~= header_bytes(h) + (body + rest));
    assert(buf.subrange(0, buf.len() as int) =~= buf);
    lemma_canonical_length_value(n);
    lemma_opcode_round_trip(m.0);
    let hl = h.spec_header_len();
    assert(buf.subrange(hl as int, hl + n) =~= body);
    if let Some(k) = mask {
        lemma_mask_twice(m.1, k.0);
    }
    assert(apply_mask(body, mask) == m.1);
}

/// Every proper prefix of a message's frame leaves the decoder waiting, with
/// nothing consumed and no message in progress: fed one byte at a time, the
/// decoder hands back nothing until the last byte, and then the message.
pub proof fn lemma_prefix_waits(m: (Opcode, Seq<u8>), mask: Option<Mask>, k: nat)
    requires
        message_error(m.0, m.1) is None,
        is_control_opcode(m.0) ==> m.1.len() <= 125,
        m.1.len() < 0x8000_0000_0000_0000,
        2 * (m.1.len() + 14) <= usize::MAX,
        k < frame_bytes(m, mask).len(),
    ensures
        decode_from(None, frame_bytes(m, mask).subrange(0, k as int), 0) matches DecodeOutcome::Wait {
            consumed,
            pending,
            ..
        } && consumed == 0 && pending is None,
{
    let h = message_header(m.0, m.1.len(), mask);
    let n = m.1.len() as u64;
    let body = apply_mask(m.1, mask);
    let full = frame_bytes(m, mask);
    let p = full.subrange(0, k as int);
    lemma_message_header_wf(m.0, m.1.len(), mask);
    lemma_header_round_trip(h, body);
    lemma_canonical_length_value(n);
    lemma_parse_prefix(full, k as int);
    assert(p.subrange(0, p.len() as int) =~= p);
}

/// A frame whose length field is 2^63 or more is refused as too long as soon
/// as its header is in, before any payload is read.
pub proof fn lemma_huge_length_fails(
    pending: Option<(Opcode, Seq<u8>)>,
    buf: Seq<u8>,
    h: FrameHeader,
    hl: nat,
    n: u64,
)
    requires
        parse_header(buf) == Some((h, hl)),
        h.data_len == DataLength::Large(n),
        n >= 0x8000_0000_0000_0000,
    ensures
        decode_from(pending, buf, 0) == DecodeOutcome::Fail(Error::FrameTooLong(n)),
{
    assert(buf.subrange(0, buf.len() as int) =~= buf);
}

/// A complete control frame with a payload of 126 bytes or more is refused.
pub proof fn lemma_long_control_fails(
    pending: Option<(Opcode, Seq<u8>)>,
    buf: Seq<u8>,
    h: FrameHeader,
    hl: nat,
    n: u64,
)
    requires
        parse_header(buf) == Some((h, hl)),
        length_value(h.data_len) == Ok::<u64, Error>(n),
        n >= 126,
        opcode_of(h.opcode) matches Some(op) && is_control_opcode(op),
        hl + n <= buf.len(),
    ensures
        decode_from(pending, buf, 0) is Fail,
{
    assert(buf.subrange(0, buf.len() as int) =~= buf);
}

/// A complete control frame without its FIN bit is refused.
pub proof fn lemma_fragmented_control_fails(
    pending: Option<(Opcode, Seq<u8>)>,
    buf: Seq<u8>,
    h: FrameHeader,
    hl: nat,
    n: u64,
)
    requires
        parse_header(buf) == Some((h, hl)),
        length_value(h.data_len) == Ok::<u64, Error>(n),
        !h.fin,
        opcode_of(h.opcode) matches Some(op) && is_control_opcode(op),
        hl + n <= buf.len(),
    ensures
        decode_from(pending, buf, 0) is Fail,
{
    assert(buf.subrange(0, buf.len() as int) =~= buf);
}

} // verus!
