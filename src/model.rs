use vstd::prelude::*;

use tract_onnx::pb::ModelProto;

verus! {

#[verifier::external_type_specification]
#[verifier::external_body]
pub struct ExModelProto(tract_onnx::pb::ModelProto);

#[verifier::external_type_specification]
#[verifier::external_body]
pub struct ExDecodeError(prost::DecodeError);

/// Whether `bytes` are a well-formed protobuf encoding of an ONNX model message.
pub uninterp spec fn is_model_encoding(bytes: Seq<u8>) -> bool;

/// The model message that `bytes` encode: a function of the bytes alone.
pub uninterp spec fn decoded_model(bytes: Seq<u8>) -> ModelProto;

pub open spec fn decode_error_prefix() -> Seq<char> {
    "failed to decode Protobuf message: "@
}

/// Relies on `prost::Message::decode` for `tract_onnx::pb::ModelProto`: it succeeds exactly
/// on well-formed encodings, and on an empty buffer, which it reads as the default message;
/// the message it returns depends on the bytes alone.
#[verifier::external_body]
fn decode_model_proto(bytes: &[u8]) -> (r: Result<ModelProto, prost::DecodeError>)
    ensures
        r is Ok <==> is_model_encoding(bytes@),
        bytes@.len() == 0 ==> r is Ok,
        r matches Ok(p) ==> p == decoded_model(bytes@),
{
    <ModelProto as prost::Message>::decode(bytes::Bytes::copy_from_slice(bytes))
}

/// Relies on the `Display` impl of `prost::DecodeError`, which starts every message
/// with the same prefix.
#[verifier::external_body]
fn decode_error_text(e: &prost::DecodeError) -> (r: String)
    ensures
        decode_error_prefix().is_prefix_of(r@),
{
    e.to_string()
}

/// Reads the model definition from its binary form, or says why it cannot be read.
pub fn decode_model(bytes: &Vec<u8>) -> (r: Result<ModelProto, String>)
    ensures
        r is Ok <==> is_model_encoding(bytes@),
        bytes@.len() == 0 ==> r is Ok,
        r matches Ok(p) ==> p == decoded_model(bytes@),
        r matches Err(detail) ==> decode_error_prefix().is_prefix_of(detail@),
{
    match decode_model_proto(bytes.as_slice()) {
        Ok(proto) => Ok(proto),
        Err(e) => Err(decode_error_text(&e)),
    }
}

} // verus!

verus! {

/// Decoding is reproducible: models decoded from equal bytes are equal.
pub proof fn lemma_decode_reproducible(first: Seq<u8>, second: Seq<u8>, a: ModelProto, b: ModelProto)
    requires
        first == second,
        a == decoded_model(first),
        b == decoded_model(second),
    ensures
        a == b,
{
}

} // verus!
