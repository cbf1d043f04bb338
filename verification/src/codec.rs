//! The wire format of the request/response protocol.
//!
//! A frame is the whole content of one stream: the UTF-8 encoding of the
//! payload's text, with no length prefix and no delimiter. The caller reads a
//! stream to its end and hands the bytes over, or takes the bytes of a frame
//! and writes all of them.
use crate::protocol::{MyProtocol, MyRequest, MyResponse};
use std::string::FromUtf8Error;
use vstd::prelude::*;
use vstd::slice::slice_to_vec;
use vstd::utf8::{decode_utf8, encode_utf8, encode_utf8_decode_utf8, encode_utf8_valid_utf8, valid_utf8};

verus! {

/// Why a frame could not be decoded.
#[derive(Debug, Clone, Copy, PartialEq, Eq, Structural)]
pub enum CodecError {
    /// The frame is not the UTF-8 encoding of any text.
    InvalidUtf8,
}

impl CodecError {
    /// A description for the operator.
    pub fn message(&self) -> (text: String)
        ensures
            text@ == "frame is not valid UTF-8"@,
    {
        "frame is not valid UTF-8".to_owned()
    }
}

/// The frame that carries `text`.
pub open spec fn frame_of(text: Seq<char>) -> Seq<u8> {
    encode_utf8(text)
}

/// The text that `frame` carries, or the reason why it carries none.
pub open spec fn text_of(frame: Seq<u8>) -> Result<Seq<char>, CodecError> {
    if valid_utf8(frame) {
        Ok(decode_utf8(frame))
    } else {
        Err(CodecError::InvalidUtf8)
    }
}

/// The error that std reports for bytes that are no UTF-8; nothing is read
/// from it.
#[verifier::external_type_specification]
#[verifier::external_body]
pub struct ExFromUtf8Error(FromUtf8Error);

/// `String::from_utf8` of std: it succeeds exactly on well-formed UTF-8, and
/// the string it then returns has the given bytes as its encoding.
pub assume_specification[ String::from_utf8 ](vec: Vec<u8>) -> (r: Result<String, FromUtf8Error>)
    ensures
        r is Ok <==> valid_utf8(vec@),
        r matches Ok(s) ==> encode_utf8(s@) == vec@,
;

/// The codec of the protocol. It holds no state: every frame stands alone.
#[derive(Debug, Default)]
pub struct MyCodec();

impl Clone for MyCodec {
    fn clone(&self) -> (copy: MyCodec)
        ensures
            copy == *self,
    {
        MyCodec()
    }
}

/// Decodes one frame.
fn decode(frame: Vec<u8>) -> (r: Result<String, CodecError>)
    ensures
        r is Ok <==> valid_utf8(frame@),
        r matches Ok(s) ==> s@ == decode_utf8(frame@),
        r matches Err(e) ==> e == CodecError::InvalidUtf8,
{
    match String::from_utf8(frame) {
        Ok(s) => {
            proof {
                encode_utf8_decode_utf8(s@);
            }
            Ok(s)
        },
        Err(_) => Err(CodecError::InvalidUtf8),
    }
}

/// Encodes one payload.
fn encode(text: &String) -> (frame: Vec<u8>)
    ensures
        frame@ == frame_of(text@),
{
    slice_to_vec(text.as_str().as_bytes())
}

impl MyCodec {
    /// Decodes the frame of a request, read from a stream up to its end.
    pub fn read_request(&mut self, protocol: &MyProtocol, frame: Vec<u8>) -> (r: Result<
        MyRequest,
        CodecError,
    >)
        ensures
            r is Ok <==> valid_utf8(frame@),
            r matches Ok(s) ==> text_of(frame@) == Ok::<Seq<char>, CodecError>(s@),
            r matches Err(e) ==> text_of(frame@) == Err::<Seq<char>, CodecError>(e),
    {
        decode(frame)
    }

    /// Decodes the frame of a response, read from a stream up to its end.
    pub fn read_response(&mut self, protocol: &MyProtocol, frame: Vec<u8>) -> (r: Result<
        MyResponse,
        CodecError,
    >)
        ensures
            r is Ok <==> valid_utf8(frame@),
            r matches Ok(s) ==> text_of(frame@) == Ok::<Seq<char>, CodecError>(s@),
            r matches Err(e) ==> text_of(frame@) == Err::<Seq<char>, CodecError>(e),
    {
        decode(frame)
    }

    /// The frame of a request: all of it is to be written to the stream.
    pub fn write_request(&mut self, protocol: &MyProtocol, req: MyRequest) -> (frame: Vec<u8>)
        ensures
            frame@ == frame_of(req@),
    {
        encode(&req)
    }

    /// The frame of a response: all of it is to be written to the stream.
    pub fn write_response(&mut self, protocol: &MyProtocol, res: MyResponse) -> (frame: Vec<u8>)
        ensures
            frame@ == frame_of(res@),
    {
        encode(&res)
    }
}

/// Every text survives the wire: its frame decodes, and to that same text.
pub proof fn lemma_round_trip(text: Seq<char>)
    ensures
        text_of(frame_of(text)) == Ok::<Seq<char>, CodecError>(text),
{
    encode_utf8_valid_utf8(text);
    encode_utf8_decode_utf8(text);
}

} // verus!
