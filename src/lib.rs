//! A WebSocket (RFC 6455) codec core: frame headers, payload masking, message
//! reassembly and the opening handshake, with their behaviour stated and proved.
//!
//! The codec works on byte slices and vectors and does no I/O: callers read
//! into a buffer, hand it to a decoder, and drop the bytes it reports as consumed.

pub mod client;
pub mod close;
pub mod error;
pub mod frame;
pub mod mask;
pub mod message;
pub mod opcode;
pub mod text;
pub mod upgrade;

pub use crate::client::{build_request, make_key, ClientBuilder, UrlParts};
pub use crate::close::{CloseCode, CloseFrame};
pub use crate::error::Error;
pub use crate::frame::{DataLength, FrameHeader, FrameHeaderCodec};
pub use crate::mask::{
    mask_aligned_copy, mask_aligned_in_place, mask_copy, mask_in_place, mask_u8_copy, mask_u8_in_place, Mask,
};
pub use crate::message::{Decoded, Message, MessageCodec};
pub use crate::opcode::Opcode;
pub use crate::text::{contains_ignore_ascii_case, eq_ignore_ascii_case};
pub use crate::upgrade::{check_server_response, header, ClientRequest, HttpResponse, UpgradeCodec};
