use vstd::prelude::*;

verus! {

#[verifier::external_type_specification]
#[verifier::external_body]
pub struct ExContext(md5::Context);

/// The bytes that an md5 context has consumed so far.
pub uninterp spec fn md5_input(c: md5::Context) -> Seq<u8>;

/// The md5 digest of `data`, as 32 lowercase hex digits.
pub uninterp spec fn md5_hex(data: Seq<u8>) -> Seq<char>;

pub open spec fn is_lower_hex(c: char) -> bool {
    ('0' <= c && c <= '9') || ('a' <= c && c <= 'f')
}

/// Relies on md5::Context::new: a fresh context has consumed nothing.
#[verifier::external_body]
fn context_new() -> (r: md5::Context)
    ensures
        md5_input(r) == Seq::<u8>::empty(),
{
    md5::Context::new()
}

/// Relies on md5::Context::consume: the bytes are appended to what the
/// context has consumed.
#[verifier::external_body]
fn context_consume(c: &mut md5::Context, data: &[u8])
    ensures
        md5_input(*final(c)) == md5_input(*old(c)) + data@,
{
    c.consume(data)
}

/// Relies on md5::Context::finalize and the LowerHex format of md5::Digest:
/// the digest of everything consumed, two lowercase hex digits per byte of
/// the 16-byte digest.
#[verifier::external_body]
fn context_finalize_hex(c: md5::Context) -> (r: String)
    ensures
        r@ == md5_hex(md5_input(c)),
        r@.len() == 32,
        forall|i: int| 0 <= i < r@.len() ==> is_lower_hex(#[trigger] r@[i]),
{
    format!("{:x}", c.finalize())
}

/// An md5 digest computed over content handed in piece by piece, so that a
/// file is never held in memory whole.
pub struct ContentDigest {
    ctx: md5::Context,
}

impl View for ContentDigest {
    type V = Seq<u8>;

    /// The content handed in so far.
    closed spec fn view(&self) -> Seq<u8> {
        md5_input(self.ctx)
    }
}

impl ContentDigest {
    pub fn new() -> (r: ContentDigest)
        ensures
            r@ == Seq::<u8>::empty(),
    {
        ContentDigest { ctx: context_new() }
    }

    /// Hands in the next piece of content.
    pub fn update(&mut self, data: &[u8])
        ensures
            final(self)@ == old(self)@ + data@,
    {
        context_consume(&mut self.ctx, data);
    }

    /// The digest of all content handed in, as 32 lowercase hex digits.
    pub fn finish(self) -> (r: String)
        ensures
            r@ == md5_hex(self@),
            r@.len() == 32,
            forall|i: int| 0 <= i < r@.len() ==> is_lower_hex(#[trigger] r@[i]),
    {
        context_finalize_hex(self.ctx)
    }
}

} // verus!
