use vstd::prelude::*;

verus! {

/// The gzip stream (default level, header without name, time or comment)
/// that encodes `data`.
pub uninterp spec fn gzip_of(data: Seq<u8>) -> Seq<u8>;

/// Relies on `flate2::write::GzEncoder` with `Compression::default()`: the
/// gzip stream of `data`, which depends on the bytes alone (the header's
/// time field stays zero). Writing into a `Vec` cannot fail.
#[verifier::external_body]
pub(crate) fn compress_data(data: &[u8]) -> (r: Vec<u8>)
    ensures
        r@ == gzip_of(data@),
{
    let mut encoder = flate2::write::GzEncoder::new(Vec::new(), flate2::Compression::default());
    std::io::Write::write_all(&mut encoder, data).expect("writing into a Vec cannot fail");
    encoder.finish().expect("writing into a Vec cannot fail")
}

/// Relies on `flate2::read::GzDecoder`: gzip is lossless, so the stream
/// `gzip_of(p)` decodes to `p`; a stream that does not decode gives `None`.
#[verifier::external_body]
fn gunzip(data: &[u8]) -> (r: Option<Vec<u8>>)
    ensures
        forall|p: Seq<u8>| #[trigger] gzip_of(p) == data@ ==> r is Some && r->0@ == p,
{
    let mut out = Vec::new();
    match std::io::Read::read_to_end(&mut flate2::read::GzDecoder::new(data), &mut out) {
        Ok(_) => Some(out),
        Err(_) => None,
    }
}

/// Restores a stored reveal payload to the bytes that were revealed.
pub fn decompress_payload(stored: &Vec<u8>) -> (r: Option<Vec<u8>>)
    ensures
        forall|p: Seq<u8>| #[trigger] gzip_of(p) == stored@ ==> r is Some && r->0@ == p,
{
    gunzip(stored.as_slice())
}

} // verus!
