//! Credential material: either a root secret or a derived client-credential
//! bundle, owned by the caller and only borrowed by the wallet for the calls
//! that need it. Both input forms are ASCII hex; parsing is exact: a
//! malformed input is rejected with the reason, never truncated or guessed.

use vstd::prelude::*;
use vstd::string::{StrSliceExecFns, StringSliceAdditionalSpecFns};

use crate::errors::CredentialError;

verus! {

/// An ASCII hex digit (`0-9`, `a-f`, `A-F`), as a byte.
pub open spec fn is_hex_digit(b: u8) -> bool {
    (48 <= b && b <= 57) || (97 <= b && b <= 102) || (65 <= b && b <= 70)
}

/// The numeric value of an ASCII hex digit.
pub open spec fn hex_val(b: u8) -> u8 {
    if 48 <= b && b <= 57 {
        (b - 48) as u8
    } else if 97 <= b && b <= 102 {
        ((b - 97) + 10) as u8
    } else {
        ((b - 65) + 10) as u8
    }
}

/// The byte encoded by a pair of hex digits, high digit first.
pub open spec fn hex_pair(hi: u8, lo: u8) -> u8 {
    (hex_val(hi) * 16 + hex_val(lo)) as u8
}

/// Decodable hex input: even length, every byte a hex digit.
pub open spec fn hex_ok(s: Seq<u8>) -> bool {
    s.len() % 2 == 0 && (forall|i: int| 0 <= i < s.len() ==> is_hex_digit(#[trigger] s[i]))
}

/// `out` is the byte string that the hex input `s` encodes.
pub open spec fn hex_decoded(s: Seq<u8>, out: Seq<u8>) -> bool {
    out.len() * 2 == s.len() && (forall|i: int|
        0 <= i < out.len() ==> #[trigger] out[i] == hex_pair(s[2 * i], s[2 * i + 1]))
}

/// Runtime test for an ASCII hex digit.
fn is_hex_digit_exec(b: u8) -> (r: bool)
    ensures
        r == is_hex_digit(b),
{
    (b >= 48 && b <= 57) || (b >= 97 && b <= 102) || (b >= 65 && b <= 70)
}

/// The numeric value of a hex digit, at runtime.
fn hex_digit_val(b: u8) -> (v: u8)
    requires
        is_hex_digit(b),
    ensures
        v == hex_val(b),
        v < 16,
{
    if b >= 48 && b <= 57 {
        b - 48
    } else if b >= 97 && b <= 102 {
        (b - 97) + 10
    } else {
        (b - 65) + 10
    }
}

/// Decode an ASCII-hex byte string. Succeeds exactly on decodable input
/// (even length, hex digits throughout) and returns exactly the encoded
/// bytes; reports whether the length or a digit was at fault.
pub fn decode_hex(input: &Vec<u8>) -> (r: Result<Vec<u8>, CredentialError>)
    ensures
        match r {
            Ok(out) => hex_ok(input@) && hex_decoded(input@, out@),
            Err(e) => {
                &&& !hex_ok(input@)
                &&& (e == CredentialError::InvalidLength <==> input@.len() % 2 != 0)
                &&& (e == CredentialError::InvalidHexDigit <==> input@.len() % 2 == 0)
            },
        },
{
    let n = input.len();
    if n % 2 != 0 {
        return Err(CredentialError::InvalidLength);
    }
    let mut out: Vec<u8> = Vec::new();
    let mut i: usize = 0;
    while i < n
        invariant
            n == input@.len(),
            n % 2 == 0,
            i % 2 == 0,
            i <= n,
            out@.len() * 2 == i,
            forall|k: int| 0 <= k < i ==> is_hex_digit(#[trigger] input@[k]),
            forall|k: int|
                0 <= k < out@.len() ==> #[trigger] out@[k] == hex_pair(
                    input@[2 * k],
                    input@[2 * k + 1],
                ),
        decreases n - i,
    {
        let hi = input[i];
        let lo = input[i + 1];
        if !is_hex_digit_exec(hi) {
            proof {
                assert(!is_hex_digit(input@[i as int]));
            }
            return Err(CredentialError::InvalidHexDigit);
        }
        if !is_hex_digit_exec(lo) {
            proof {
                assert(!is_hex_digit(input@[i as int + 1]));
            }
            return Err(CredentialError::InvalidHexDigit);
        }
        let v = hex_digit_val(hi) * 16 + hex_digit_val(lo);
        out.push(v);
        i = i + 2;
    }
    Ok(out)
}

/// A 32-byte root secret: the seed entropy a wallet identity is derived
/// from. Key-derivation itself happens on the remote node at provisioning.
pub struct RootSeed {
    bytes: Vec<u8>,
}

impl View for RootSeed {
    type V = Seq<u8>;

    closed spec fn view(&self) -> Seq<u8> {
        self.bytes@
    }
}

impl RootSeed {
    /// A root seed always holds exactly 32 bytes.
    pub open spec fn wf(&self) -> bool {
        self@.len() == 32
    }

    /// Wrap raw seed entropy; rejects any length other than 32 bytes.
    pub fn new(bytes: Vec<u8>) -> (r: Result<RootSeed, CredentialError>)
        ensures
            match r {
                Ok(seed) => bytes@.len() == 32 && seed@ == bytes@ && seed.wf(),
                Err(e) => bytes@.len() != 32 && e == CredentialError::InvalidLength,
            },
    {
        if bytes.len() == 32 {
            Ok(RootSeed { bytes })
        } else {
            Err(CredentialError::InvalidLength)
        }
    }

    /// The raw seed entropy. Handle with care: this is the root secret.
    pub fn expose_bytes(&self) -> (r: &Vec<u8>)
        ensures
            r@ == self@,
    {
        &self.bytes
    }

    /// Parse a root seed from its canonical text form: exactly 64 ASCII hex
    /// characters encoding the 32 seed bytes.
    pub fn from_hex(s: &str) -> (r: Result<RootSeed, CredentialError>)
        ensures
            match r {
                Ok(seed) => {
                    &&& s.spec_bytes().len() == 64
                    &&& hex_ok(s.spec_bytes())
                    &&& hex_decoded(s.spec_bytes(), seed@)
                    &&& seed.wf()
                },
                Err(e) => {
                    &&& !(s.spec_bytes().len() == 64 && hex_ok(s.spec_bytes()))
                    &&& (e == CredentialError::InvalidLength <==> s.spec_bytes().len() != 64)
                    &&& (e == CredentialError::InvalidHexDigit <==> s.spec_bytes().len() == 64
                        && !hex_ok(s.spec_bytes()))
                },
            },
    {
        let bytes = s.as_bytes_vec();
        if bytes.len() != 64 {
            return Err(CredentialError::InvalidLength);
        }
        match decode_hex(&bytes) {
            Ok(out) => Ok(RootSeed { bytes: out }),
            Err(_) => Err(CredentialError::InvalidHexDigit),
        }
    }
}

/// A user's node public key: 32 bytes identifying the identity at the
/// remote backend.
pub struct UserPk {
    bytes: Vec<u8>,
}

impl View for UserPk {
    type V = Seq<u8>;

    closed spec fn view(&self) -> Seq<u8> {
        self.bytes@
    }
}

impl UserPk {
    /// A public key always holds exactly 32 bytes.
    pub open spec fn wf(&self) -> bool {
        self@.len() == 32
    }

    /// Wrap raw key bytes; rejects any length other than 32 bytes.
    pub fn new(bytes: Vec<u8>) -> (r: Result<UserPk, CredentialError>)
        ensures
            match r {
                Ok(pk) => bytes@.len() == 32 && pk@ == bytes@ && pk.wf(),
                Err(e) => bytes@.len() != 32 && e == CredentialError::InvalidLength,
            },
    {
        if bytes.len() == 32 {
            Ok(UserPk { bytes })
        } else {
            Err(CredentialError::InvalidLength)
        }
    }

    /// The raw key bytes.
    pub fn as_bytes(&self) -> (r: &Vec<u8>)
        ensures
            r@ == self@,
    {
        &self.bytes
    }
}

impl Clone for UserPk {
    fn clone(&self) -> (r: Self)
        ensures
            r@ == self@,
    {
        UserPk { bytes: copy_bytes(&self.bytes) }
    }
}

/// An elementwise copy of a byte vector.
fn copy_bytes(v: &Vec<u8>) -> (out: Vec<u8>)
    ensures
        out@ == v@,
{
    let mut out: Vec<u8> = Vec::new();
    let mut i: usize = 0;
    while i < v.len()
        invariant
            i <= v@.len(),
            out@ == v@.take(i as int),
        decreases v@.len() - i,
    {
        out.push(v[i]);
        proof {
            assert(v@.take(i as int + 1) =~= v@.take(i as int).push(v@[i as int]));
        }
        i = i + 1;
    }
    proof {
        assert(v@.take(v@.len() as int) =~= v@);
    }
    out
}

/// A derived client-credential bundle: the user's public key plus opaque
/// authentication material. It holds no root secret.
pub struct ClientCredentials {
    /// The identity this bundle authenticates.
    pub user_pk: UserPk,
    /// Opaque authentication material for the remote backend.
    pub auth_token: Vec<u8>,
}

impl ClientCredentials {
    /// Bundle well-formedness: the key has its full length.
    pub open spec fn wf(&self) -> bool {
        self.user_pk.wf()
    }

    /// Parse a bundle from its serialized form: ASCII hex whose first 64
    /// digits encode the 32-byte user public key and whose remainder
    /// encodes the authentication token (possibly empty).
    pub fn try_from_hex_blob(s: &str) -> (r: Result<ClientCredentials, CredentialError>)
        ensures
            match r {
                Ok(c) => {
                    &&& s.spec_bytes().len() >= 64
                    &&& hex_ok(s.spec_bytes())
                    &&& hex_decoded(s.spec_bytes(), c.user_pk@ + c.auth_token@)
                    &&& c.user_pk@.len() == 32
                    &&& c.wf()
                },
                Err(e) => {
                    &&& !(s.spec_bytes().len() >= 64 && hex_ok(s.spec_bytes()))
                    &&& (e == CredentialError::InvalidLength <==> (s.spec_bytes().len() % 2 != 0
                        || s.spec_bytes().len() < 64))
                    &&& (e == CredentialError::InvalidHexDigit <==> (s.spec_bytes().len() % 2 == 0
                        && s.spec_bytes().len() >= 64 && !hex_ok(s.spec_bytes())))
                },
            },
    {
        let bytes = s.as_bytes_vec();
        if bytes.len() % 2 != 0 || bytes.len() < 64 {
            return Err(CredentialError::InvalidLength);
        }
        match decode_hex(&bytes) {
            Ok(mut out) => {
                let ghost decoded = out@;
                let auth_token = out.split_off(32);
                proof {
                    assert(out@ + auth_token@ =~= decoded);
                }
                let pk = UserPk { bytes: out };
                Ok(ClientCredentials { user_pk: pk, auth_token })
            },
            Err(_) => Err(CredentialError::InvalidHexDigit),
        }
    }
}

/// The caller-owned credential material: exactly one of a root secret or a
/// derived client-credential bundle, never both.
pub enum Credentials {
    /// Seed entropy; the backend derives the identity at provisioning.
    RootSeed(RootSeed),
    /// A derived bundle with the identity's public key.
    ClientCredentials(ClientCredentials),
}

impl Credentials {
    /// Whichever variant is held is well formed.
    pub open spec fn wf(&self) -> bool {
        match self {
            Credentials::RootSeed(seed) => seed.wf(),
            Credentials::ClientCredentials(c) => c.wf(),
        }
    }

    /// The user public key: known up front only for the bundle form; for a
    /// root seed it becomes known once the remote node is provisioned.
    pub fn user_pk(&self) -> (r: Option<&UserPk>)
        ensures
            match self {
                Credentials::RootSeed(_) => r is None,
                Credentials::ClientCredentials(c) => r matches Some(pk) && *pk == c.user_pk,
            },
    {
        match self {
            Credentials::RootSeed(_) => None,
            Credentials::ClientCredentials(c) => Some(&c.user_pk),
        }
    }
}

} // verus!
