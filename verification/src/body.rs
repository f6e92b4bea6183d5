use vstd::prelude::*;
use vstd::string::*;
use vstd::utf8::encode_utf8;
use crate::error::{ObtError, Status};
use crate::path::components_view;
use crate::response::ContentType;
use crate::text::bytes_eq;

verus! {

/// The most bytes of a request body that are held in memory.
pub const MAX_SIZE: usize = 262_144;

/// The chunks of a body, one after another.
pub open spec fn concatenated(chunks: Seq<Seq<u8>>) -> Seq<u8>
    decreases chunks.len(),
{
    if chunks.len() == 0 {
        Seq::empty()
    } else {
        concatenated(chunks.drop_last()) + chunks.last()
    }
}

/// The one media type that the synchronisation endpoint takes, as header bytes.
pub open spec fn expected_media_type() -> Seq<u8> {
    encode_utf8(ContentType::MsgPack.spec_as_str())
}

/// Whether a request with this `content-type` header is taken: the header is
/// absent, or it names the expected media type.
pub open spec fn content_type_accepted(declared: Option<Seq<u8>>) -> bool {
    match declared {
        None => true,
        Some(value) => value == expected_media_type(),
    }
}

/// The description of the error for a request with another content type.
pub open spec fn wrong_type_message() -> Seq<char> {
    "Request wrong content type"@
}

/// The description of the error for a body over the limit.
pub open spec fn overflow_message() -> Seq<char> {
    "request body overflow"@
}

/// The description of the error for a body that does not decode.
pub open spec fn decode_message(detail: Seq<char>) -> Seq<char> {
    "Cannot deserialize message: "@ + detail
}

/// The view of an optional header value.
pub open spec fn header_view(declared: Option<&[u8]>) -> Option<Seq<u8>> {
    match declared {
        None => None,
        Some(value) => Some(value@),
    }
}

/// A body never shrinks as chunks arrive.
pub proof fn lemma_concatenated_grows(chunks: Seq<Seq<u8>>, n: int)
    requires
        0 <= n <= chunks.len(),
    ensures
        concatenated(chunks.take(n)).len() <= concatenated(chunks).len(),
    decreases chunks.len(),
{
    if n == chunks.len() {
        assert(chunks.take(n) == chunks);
    } else {
        lemma_concatenated_grows(chunks.drop_last(), n);
        assert(chunks.drop_last().take(n) == chunks.take(n));
    }
}

/// Refuses a request whose declared content type is not the expected one.
pub fn check_content_type(declared: Option<&[u8]>) -> (r: Result<(), ObtError>)
    ensures
        r is Ok <==> content_type_accepted(header_view(declared)),
        r is Err ==> r->Err_0.status() == Status::Forbidden && r->Err_0.description()
            == wrong_type_message(),
{
    match declared {
        None => Ok(()),
        Some(value) => {
            if bytes_eq(value, ContentType::MsgPack.as_str().as_bytes()) {
                Ok(())
            } else {
                Err(ObtError::new(Status::Forbidden, "Request wrong content type"))
            }
        },
    }
}

/// The error for a complete body that the deserializer refused; `detail` is
/// the deserializer's own message.
pub fn decode_failure(detail: &str) -> (r: ObtError)
    ensures
        r.status() == Status::InternalServerError,
        r.description() == decode_message(detail@),
{
    let mut text = "Cannot deserialize message: ".to_owned();
    text.append(detail);
    ObtError::new(Status::InternalServerError, text.as_str())
}

/// The growable byte buffer of the serde_bytes crate. What it holds is
/// known here only through `buffered`.
#[verifier::external_type_specification]
#[verifier::external_body]
pub struct ExByteBuf(serde_bytes::ByteBuf);

/// The bytes that a buffer holds, in order.
pub uninterp spec fn buffered(buffer: serde_bytes::ByteBuf) -> Seq<u8>;

/// `ByteBuf::new`: a buffer that holds nothing.
#[verifier::external_body]
fn buffer_new() -> (r: serde_bytes::ByteBuf)
    ensures
        buffered(r) == Seq::<u8>::empty(),
{
    serde_bytes::ByteBuf::new()
}

/// `len` of the vector that a `ByteBuf` wraps: the number of bytes held.
#[verifier::external_body]
fn buffer_len(buffer: &serde_bytes::ByteBuf) -> (r: usize)
    ensures
        r == buffered(*buffer).len(),
{
    buffer.len()
}

/// `extend_from_slice` on the vector that a `ByteBuf` wraps: the chunk is
/// copied to the end, and what was held stays in front of it.
#[verifier::external_body]
fn buffer_extend(buffer: &mut serde_bytes::ByteBuf, chunk: &[u8])
    ensures
        buffered(*final(buffer)) == buffered(*old(buffer)) + chunk@,
{
    buffer.extend_from_slice(chunk)
}

/// `ByteBuf::into_vec`: the bytes held, as a vector.
#[verifier::external_body]
fn buffer_into_vec(buffer: serde_bytes::ByteBuf) -> (r: Vec<u8>)
    ensures
        r@ == buffered(buffer),
{
    buffer.into_vec()
}

/// The part of a request body that has arrived, never more than `MAX_SIZE` bytes.
#[derive(Debug)]
pub struct BodyBuffer {
    data: serde_bytes::ByteBuf,
}

impl View for BodyBuffer {
    type V = Seq<u8>;

    closed spec fn view(&self) -> Seq<u8> {
        buffered(self.data)
    }
}

impl BodyBuffer {
    #[verifier::type_invariant]
    spec fn within_limit(self) -> bool {
        buffered(self.data).len() <= MAX_SIZE
    }

    /// A buffer that holds nothing yet.
    pub fn new() -> (r: BodyBuffer)
        ensures
            r@ == Seq::<u8>::empty(),
    {
        BodyBuffer { data: buffer_new() }
    }

    /// The number of bytes that have arrived.
    pub fn len(&self) -> (r: usize)
        ensures
            r == self@.len(),
            r <= MAX_SIZE,
    {
        proof {
            use_type_invariant(self);
        }
        buffer_len(&self.data)
    }

    /// Takes the next chunk. The chunk is refused, and nothing of it kept,
    /// the moment the body would grow over the limit.
    pub fn push(&mut self, chunk: &[u8]) -> (r: Result<(), ObtError>)
        ensures
            r is Ok <==> old(self)@.len() + chunk@.len() <= MAX_SIZE,
            r is Ok ==> final(self)@ == old(self)@ + chunk@,
            r is Err ==> final(self)@ == old(self)@ && r->Err_0.status() == Status::Forbidden
                && r->Err_0.description() == overflow_message(),
    {
        proof {
            use_type_invariant(&*self);
        }
        if chunk.len() > MAX_SIZE - buffer_len(&self.data) {
            return Err(ObtError::new(Status::Forbidden, "request body overflow"));
        }
        let mut data = buffer_new();
        std::mem::swap(&mut data, &mut self.data);
        buffer_extend(&mut data, chunk);
        self.data = data;
        Ok(())
    }

    /// The body, once the last chunk has arrived.
    pub fn into_bytes(self) -> (r: Vec<u8>)
        ensures
            r@ == self@,
            r@.len() <= MAX_SIZE,
    {
        proof {
            use_type_invariant(&self);
        }
        buffer_into_vec(self.data)
    }
}

/// Takes a whole body, chunk by chunk in the order of arrival. The request
/// is refused for a content type other than the expected one, whatever its
/// body holds, and for a body of more than `MAX_SIZE` bytes; otherwise the
/// result is the chunks joined.
pub fn collect(declared: Option<&[u8]>, chunks: &Vec<Vec<u8>>) -> (r: Result<Vec<u8>, ObtError>)
    ensures
        r is Ok <==> content_type_accepted(header_view(declared)) && concatenated(
            components_view(chunks@),
        ).len() <= MAX_SIZE,
        r is Ok ==> r->Ok_0@ == concatenated(components_view(chunks@)),
        r is Err ==> r->Err_0.status() == Status::Forbidden,
        r is Err ==> r->Err_0.description() == if content_type_accepted(header_view(declared)) {
            overflow_message()
        } else {
            wrong_type_message()
        },
{
    match check_content_type(declared) {
        Ok(()) => {},
        Err(e) => {
            return Err(e);
        },
    }
    let ghost all = components_view(chunks@);
    let mut body = BodyBuffer::new();
    let mut i: usize = 0;
    assert(all.take(0).len() == 0);
    while i < chunks.len()
        invariant
            i <= chunks.len(),
            all == components_view(chunks@),
            content_type_accepted(header_view(declared)),
            body@ == concatenated(all.take(i as int)),
        decreases chunks.len() - i,
    {
        assert(all.take(i + 1).drop_last() == all.take(i as int));
        assert(all.take(i + 1).last() == chunks@[i as int]@);
        match body.push(chunks[i].as_slice()) {
            Ok(()) => {},
            Err(e) => {
                proof {
                    lemma_concatenated_grows(all, i + 1);
                }
                return Err(e);
            },
        }
        i += 1;
    }
    assert(all.take(chunks.len() as int) == all);
    Ok(body.into_bytes())
}

} // verus!
