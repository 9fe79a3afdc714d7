//! Basic authentication: the credential pair the mock accepts, reading a
//! pair back from a request's Base64 credentials, and the check requests go
//! through.

use base64ct::Encoding;
use vstd::prelude::*;
use vstd::string::StrSliceExecFns;
use vstd::string::StringExecFns;
use vstd::utf8::decode_utf8;
use vstd::utf8::valid_utf8;

verus! {

/// A username and password pair.
#[derive(Debug)]
pub struct BasicAuth {
    pub username: String,
    pub password: String,
}

impl Clone for BasicAuth {
    fn clone(&self) -> (r: Self)
        ensures
            r == *self,
    {
        BasicAuth { username: self.username.clone(), password: self.password.clone() }
    }
}

impl BasicAuth {
    /// A pair from its parts.
    pub fn new(username: &String, password: &String) -> (r: Self)
        ensures
            r.username@ == username@,
            r.password@ == password@,
    {
        BasicAuth { username: username.clone(), password: password.clone() }
    }

    /// The username.
    pub fn username(&self) -> (r: &str)
        ensures
            r@ == self.username@,
    {
        self.username.as_str()
    }

    /// The password.
    pub fn password(&self) -> (r: &str)
        ensures
            r@ == self.password@,
    {
        self.password.as_str()
    }
}

/// What Base64 credential bytes decode to, if anything: a function of the
/// bytes alone.
pub uninterp spec fn base64_decode_of(bytes: Seq<u8>) -> Option<Seq<u8>>;

/// Relies on base64ct::Base64::decode_vec, standard Base64 with padding:
/// the result is a function of the input bytes alone; bytes that are not
/// UTF-8, or not valid Base64, decode to nothing.
#[verifier::external_body]
fn base64_decode(credentials: &[u8]) -> (r: Option<Vec<u8>>)
    ensures
        match r {
            Some(v) => base64_decode_of(credentials@) == Some(v@),
            None => base64_decode_of(credentials@) is None,
        },
{
    let s = match core::str::from_utf8(credentials) {
        Ok(s) => s,
        Err(_) => {
            return None;
        },
    };
    base64ct::Base64::decode_vec(s).ok()
}

/// Relies on String::from_utf8: it succeeds exactly on valid UTF-8 and
/// decodes it.
#[verifier::external_body]
fn bytes_to_utf8(v: Vec<u8>) -> (r: Option<String>)
    ensures
        match r {
            Some(s) => valid_utf8(v@) && s@ == decode_utf8(v@),
            None => !valid_utf8(v@),
        },
{
    String::from_utf8(v).ok()
}

/// The position of the first colon, or minus one.
pub open spec fn spec_first_colon(cs: Seq<char>) -> int
    decreases cs.len(),
{
    if cs.len() == 0 {
        -1
    } else if cs[0] == ':' {
        0
    } else {
        let r = spec_first_colon(cs.drop_first());
        if r < 0 {
            -1
        } else {
            r + 1
        }
    }
}

/// A colon at a position with none before it is the first colon.
pub proof fn lemma_first_colon_at(cs: Seq<char>, i: int)
    requires
        0 <= i < cs.len(),
        cs[i] == ':',
        forall|j: int| 0 <= j < i ==> cs[j] != ':',
    ensures
        spec_first_colon(cs) == i,
    decreases i,
{
    if i == 0 {
    } else {
        let tail = cs.drop_first();
        assert forall|j: int| 0 <= j < i - 1 implies tail[j] != ':' by {
            assert(tail[j] == cs[j + 1]);
        }
        assert(tail[i - 1] == cs[i]);
        lemma_first_colon_at(tail, i - 1);
    }
}

/// No colon anywhere means no first colon.
pub proof fn lemma_no_colon(cs: Seq<char>)
    requires
        forall|j: int| 0 <= j < cs.len() ==> cs[j] != ':',
    ensures
        spec_first_colon(cs) < 0,
    decreases cs.len(),
{
    if cs.len() > 0 {
        let tail = cs.drop_first();
        assert forall|j: int| 0 <= j < tail.len() implies tail[j] != ':' by {
            assert(tail[j] == cs[j + 1]);
        }
        lemma_no_colon(tail);
    }
}

/// The credential pair Base64 bytes stand for: the decoded text up to its
/// first colon, and everything after it.
pub open spec fn spec_credentials_of(bytes: Seq<u8>) -> Option<(Seq<char>, Seq<char>)> {
    match base64_decode_of(bytes) {
        None => None,
        Some(b) => if !valid_utf8(b) {
            None
        } else {
            let cs = decode_utf8(b);
            let i = spec_first_colon(cs);
            if i < 0 {
                None
            } else {
                Some((cs.take(i), cs.skip(i + 1)))
            }
        },
    }
}

impl BasicAuth {
    /// Reads a pair back from a request's Base64 credential bytes: the
    /// decoded text up to the first colon names the user, the rest is the
    /// password.
    pub fn from_credentials(credentials: &[u8]) -> (r: Result<Self, ()>)
        ensures
            match r {
                Ok(a) => spec_credentials_of(credentials@) == Some((a.username@, a.password@)),
                Err(_) => spec_credentials_of(credentials@) is None,
            },
    {
        let decoded = match base64_decode(credentials) {
            Some(v) => v,
            None => {
                return Err(());
            },
        };
        let text = match bytes_to_utf8(decoded) {
            Some(s) => s,
            None => {
                return Err(());
            },
        };
        let text_ref = text.as_str();
        let n = text_ref.unicode_len();
        let mut i: usize = 0;
        while i < n
            invariant
                i <= n,
                n == text@.len(),
                text_ref@ == text@,
                forall|j: int| 0 <= j < i ==> text@[j] != ':',
                match base64_decode_of(credentials@) {
                    Some(b) => valid_utf8(b) && decode_utf8(b) == text@,
                    None => false,
                },
            decreases n - i,
        {
            if text_ref.get_char(i) == ':' {
                proof {
                    lemma_first_colon_at(text@, i as int);
                }
                let username = text_ref.substring_char(0, i).to_owned();
                let password = text_ref.substring_char(i + 1, n).to_owned();
                proof {
                    assert(username@ =~= text@.take(i as int));
                    assert(password@ =~= text@.skip(i + 1));
                }
                return Ok(BasicAuth { username, password });
            }
            i = i + 1;
        }
        proof {
            lemma_no_colon(text@);
        }
        Err(())
    }
}

/// Whether presented credentials pass against the expected pair: the mock
/// accepts a request when the username or the password agrees.
pub open spec fn spec_credentials_accepted(expected: BasicAuth, given: BasicAuth) -> bool {
    expected.username@ == given.username@ || expected.password@ == given.password@
}

/// Checks presented credentials against the expected pair.
pub fn check_credentials(expected: &BasicAuth, given: &BasicAuth) -> (r: bool)
    ensures
        r == spec_credentials_accepted(*expected, *given),
{
    expected.username == given.username || expected.password == given.password
}

} // verus!
