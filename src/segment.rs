//! The byte segments that make up one frame on the wire, as the frame codec
//! of `send_it` carries them, and the text held in a segment.
use send_it::Segment;
use vstd::prelude::*;
use vstd::utf8::{decode_utf8, encode_utf8, valid_utf8};

verus! {

#[verifier::external_type_specification]
#[verifier::external_body]
pub struct ExSegment(send_it::Segment);

/// The bytes a segment holds.
pub uninterp spec fn segment_bytes(s: Segment) -> Seq<u8>;

/// What lossy UTF-8 decoding makes of bytes that are not valid UTF-8.
pub uninterp spec fn lossy_utf8(b: Seq<u8>) -> Seq<char>;

/// The text read from a segment: its characters where the bytes are valid
/// UTF-8, a lossy decoding where they are not.
pub open spec fn text_of(b: Seq<u8>) -> Seq<char> {
    if valid_utf8(b) {
        decode_utf8(b)
    } else {
        lossy_utf8(b)
    }
}

/// The bytes of each segment of a frame.
pub open spec fn frame_bytes(v: Seq<Segment>) -> Seq<Seq<u8>> {
    v.map_values(|s: Segment| segment_bytes(s))
}

/// Relies on `impl From<String> for Segment`: the segment holds the UTF-8
/// bytes of the string.
#[verifier::external_body]
pub fn text_segment(s: String) -> (r: Segment)
    ensures
        segment_bytes(r) == encode_utf8(s@),
{
    Segment::from(s)
}

/// Relies on `impl From<Vec<u8>> for Segment`: the segment holds the bytes.
#[verifier::external_body]
pub fn byte_segment(b: Vec<u8>) -> (r: Segment)
    ensures
        segment_bytes(r) == b@,
{
    Segment::from(b)
}

/// Relies on `Segment::to_raw`: a copy of the bytes the segment holds.
#[verifier::external_body]
pub fn segment_raw(s: &Segment) -> (r: Vec<u8>)
    ensures
        r@ == segment_bytes(*s),
{
    s.to_raw()
}

/// Relies on `impl Display for Segment`, which writes
/// `String::from_utf8_lossy` of the bytes: valid UTF-8 is decoded as it is.
#[verifier::external_body]
pub fn segment_text(s: &Segment) -> (r: String)
    ensures
        valid_utf8(segment_bytes(*s)) ==> r@ == decode_utf8(segment_bytes(*s)),
        !valid_utf8(segment_bytes(*s)) ==> r@ == lossy_utf8(segment_bytes(*s)),
{
    s.to_string()
}

/// Text written into a segment reads back unchanged.
pub proof fn lemma_text_round_trip(s: Seq<char>)
    ensures
        text_of(encode_utf8(s)) == s,
{
    vstd::utf8::encode_utf8_valid_utf8(s);
    vstd::utf8::encode_utf8_decode_utf8(s);
}

} // verus!
