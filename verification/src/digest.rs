//! Content hashing: every blob in the store is addressed by the lowercase
//! hexadecimal MD5 digest of its bytes, and fresh revision identifiers are
//! drawn from the same 32-character space at random.

use md5::Digest;
use vstd::prelude::*;
use vstd::string::StringExecFns;

verus! {

/// The lowercase hexadecimal MD5 digest of a byte sequence: a function of the
/// bytes alone, left uninterpreted here and computed by the digest wrapper.
pub uninterp spec fn md5_hex_of(bytes: Seq<u8>) -> Seq<char>;

/// The digest the empty byte sequence hashes to, which identifies the
/// zero revision of every package.
pub open spec fn spec_zero_srcmd5() -> Seq<char> {
    "d41d8cd98f00b204e9800998ecf8427e"@
}

/// Relies on md5::Md5 (the RFC 1321 digest, 16 bytes) and
/// base16ct::lower::encode_string (two lowercase hex characters per byte):
/// the result is a function of the input bytes alone, 32 characters long,
/// and on empty input it is the well-known digest of the empty message.
#[verifier::external_body]
pub fn content_md5(bytes: &[u8]) -> (r: String)
    ensures
        r@ == md5_hex_of(bytes@),
        r@.len() == 32,
        bytes@.len() == 0 ==> r@ == spec_zero_srcmd5(),
{
    base16ct::lower::encode_string(&md5::Md5::digest(bytes))
}

/// Relies on rand::random for 16 fresh bytes and
/// base16ct::lower::encode_string: nothing is promised of the value beyond
/// its length, since it depends on the process's random state.
#[verifier::external_body]
pub fn random_md5() -> (r: String)
    ensures
        r@.len() == 32,
{
    let md5bytes: [u8; 16] = rand::random();
    base16ct::lower::encode_string(&md5bytes)
}

/// The digest every package reports before its first revision is committed.
pub fn zero_rev_srcmd5() -> (r: String)
    ensures
        r@ == spec_zero_srcmd5(),
{
    let r = String::from_str("d41d8cd98f00b204e9800998ecf8427e");
    r
}

} // verus!
