use vstd::prelude::*;
use vstd::string::StringExecFns;

verus! {

/// The lowercase hex SHA-256 digest of a string's UTF-8 bytes.
pub uninterp spec fn sha256_hex(s: Seq<char>) -> Seq<char>;

/// Relies on `sha256::digest` on a `&str`: it hex-encodes the SHA-256 of the
/// string's bytes, 32 bytes as 64 characters.
#[verifier::external_body]
fn digest_hex(s: &str) -> (r: String)
    ensures
        r@ == sha256_hex(s@),
        r@.len() == 64,
{
    sha256::digest(s)
}

/// The credential sent to the server: the digest of the password.
pub fn credential_from_password(password: &str) -> (r: String)
    ensures
        r@ == sha256_hex(password@),
        r@.len() == 64,
{
    digest_hex(password)
}

pub open spec fn bearer_spec(credential: Seq<char>) -> Seq<char> {
    seq!['B', 'e', 'a', 'r', 'e', 'r', ' '] + credential
}

/// The `Authorization` header value for `credential`.
pub fn bearer_header(credential: &str) -> (r: String)
    ensures
        r@ == bearer_spec(credential@),
{
    let mut r = String::from_str("Bearer ");
    proof {
        reveal_strlit("Bearer ");
    }
    assert(r@ =~= seq!['B', 'e', 'a', 'r', 'e', 'r', ' ']);
    r.append(credential);
    r
}

pub open spec fn endpoint_spec(host: Seq<char>, path: Seq<char>) -> Seq<char> {
    seq!['h', 't', 't', 'p', ':', '/', '/'] + host + seq!['/'] + path
}

/// The URL of the endpoint `path` on the server at `host`.
pub fn endpoint_url(host: &str, path: &str) -> (r: String)
    ensures
        r@ == endpoint_spec(host@, path@),
{
    let mut r = String::from_str("http://");
    proof {
        reveal_strlit("http://");
        reveal_strlit("/");
    }
    assert(r@ =~= seq!['h', 't', 't', 'p', ':', '/', '/']);
    r.append(host);
    r.append("/");
    r.append(path);
    assert(r@ =~= endpoint_spec(host@, path@));
    r
}

} // verus!
