//! Fixed-size opaque identifiers, their canonical hex encodings, and the
//! device secret presented beside an identity at connection time.
//!
//! A `ClientID` names a client of the wire protocol; a `DeviceID` names a
//! physical device in the broker's registry. The two are structurally
//! identical 16-byte values but deliberately distinct types, so one is never
//! passed where the other is meant.

use crate::error::Error;
use vstd::prelude::*;

verus! {

/// Length in bytes of every identity value.
pub const CLIENT_ID_SIZE: usize = 16;

/// The lowercase hex digit for a value below 16.
pub open spec fn hex_digit_char(n: u8) -> char
    recommends
        n < 16,
{
    if n < 10 {
        ((n + 48) as u8) as char
    } else {
        ((n + 87) as u8) as char
    }
}

/// Canonical lowercase hex encoding: two digits per byte, high nibble first.
pub open spec fn hex_of(s: Seq<u8>) -> Seq<char> {
    Seq::new(
        s.len() * 2,
        |i: int|
            if i % 2 == 0 {
                hex_digit_char((s[i / 2] / 16) as u8)
            } else {
                hex_digit_char((s[i / 2] % 16) as u8)
            },
    )
}

/// Whether a byte is an ASCII hex digit, either case.
pub open spec fn is_hex_digit_byte(b: u8) -> bool {
    (48 <= b && b <= 57) || (97 <= b && b <= 102) || (65 <= b && b <= 70)
}

/// The value of an ASCII hex digit byte.
pub open spec fn hex_digit_val(b: u8) -> u8
    recommends
        is_hex_digit_byte(b),
{
    if 48 <= b && b <= 57 {
        (b - 48) as u8
    } else if 97 <= b && b <= 102 {
        (b - 87) as u8
    } else {
        (b - 55) as u8
    }
}

/// Whether a byte string is a decodable hex text: even length, digits only.
pub open spec fn hex_bytes_valid(s: Seq<u8>) -> bool {
    &&& s.len() % 2 == 0
    &&& forall|i: int| 0 <= i < s.len() ==> is_hex_digit_byte(s[i])
}

/// The bytes a valid hex text decodes to, high nibble first.
pub open spec fn hex_parse(s: Seq<u8>) -> Seq<u8>
    recommends
        hex_bytes_valid(s),
{
    Seq::new(s.len() / 2, |i: int| (hex_digit_val(s[2 * i]) * 16 + hex_digit_val(s[2 * i + 1])) as u8)
}

/// Relies on hex::encode: lowercase output, two digits per input byte, high
/// nibble first.
#[verifier::external_body]
fn hex_encode16(bytes: &[u8; 16]) -> (r: String)
    ensures
        r@ == hex_of(bytes@),
{
    hex::encode(bytes)
}

#[verifier::external_type_specification]
#[verifier::external_body]
pub struct ExFromHexError(hex::FromHexError);

/// Relies on hex::decode: succeeds exactly on even-length input made of hex
/// digits of either case, pairing digits high nibble then low nibble.
#[verifier::external_body]
fn hex_decode(bytes: &[u8]) -> (r: Result<Vec<u8>, hex::FromHexError>)
    ensures
        r matches Ok(v) ==> hex_bytes_valid(bytes@) && v@ == hex_parse(bytes@),
        r matches Err(_) ==> !hex_bytes_valid(bytes@),
{
    hex::decode(bytes)
}

/// Relies on rand::random: draws 16 bytes from the thread-local generator.
/// Nothing is promised of the drawn value.
#[verifier::external_body]
fn random_id_bytes() -> [u8; 16] {
    rand::random()
}

/// The result a textual identity parse must have: exactly 32 hex digits, or
/// the rejection the protocol prescribes for it.
pub open spec fn spec_parse_id(v: Seq<u8>) -> Result<Seq<u8>, Error> {
    if hex_bytes_valid(v) && v.len() == 32 {
        Ok(hex_parse(v))
    } else {
        Err(Error::InvalidSize { expected: 16 as usize, received: (v.len() / 2) as usize })
    }
}

/// Shared body of the two identity parsers.
fn parse_id_bytes(v: &[u8]) -> (r: Result<[u8; 16], Error>)
    ensures
        r matches Ok(b) ==> spec_parse_id(v@) == Ok::<Seq<u8>, Error>(b@),
        r matches Err(e) ==> spec_parse_id(v@) == Err::<Seq<u8>, Error>(e),
{
    match hex_decode(v) {
        Ok(bytes) => {
            if bytes.len() == CLIENT_ID_SIZE {
                let inner: [u8; 16] = [
                    bytes[0],
                    bytes[1],
                    bytes[2],
                    bytes[3],
                    bytes[4],
                    bytes[5],
                    bytes[6],
                    bytes[7],
                    bytes[8],
                    bytes[9],
                    bytes[10],
                    bytes[11],
                    bytes[12],
                    bytes[13],
                    bytes[14],
                    bytes[15],
                ];
                assert(inner@ =~= bytes@);
                Ok(inner)
            } else {
                Err(Error::InvalidSize { expected: CLIENT_ID_SIZE, received: bytes.len() })
            }
        },
        Err(_) => Err(Error::InvalidSize { expected: CLIENT_ID_SIZE, received: v.len() / 2 }),
    }
}

/// Opaque identifier of a protocol client: 16 raw bytes, compared
/// structurally, never ordered.
#[derive(Clone, Copy, Debug, PartialEq, Eq, Hash)]
pub struct ClientID {
    inner: [u8; CLIENT_ID_SIZE],
}

impl View for ClientID {
    type V = Seq<u8>;

    closed spec fn view(&self) -> Seq<u8> {
        self.inner@
    }
}

impl ClientID {
    /// Wraps 16 raw bytes as an identifier.
    pub fn from_bytes(bytes: [u8; CLIENT_ID_SIZE]) -> (r: Self)
        ensures
            r@ == bytes@,
    {
        ClientID { inner: bytes }
    }

    /// Hands the raw bytes back.
    pub fn into_bytes(self) -> (r: [u8; CLIENT_ID_SIZE])
        ensures
            r@ == self@,
    {
        self.inner
    }

    /// Parses the canonical hex form; rejects anything that does not decode
    /// to exactly 16 bytes.
    pub fn try_from(v: &[u8]) -> (r: Result<Self, Error>)
        ensures
            r matches Ok(c) ==> spec_parse_id(v@) == Ok::<Seq<u8>, Error>(c@),
            r matches Err(e) ==> spec_parse_id(v@) == Err::<Seq<u8>, Error>(e),
    {
        match parse_id_bytes(v) {
            Ok(inner) => Ok(ClientID { inner }),
            Err(e) => Err(e),
        }
    }

    /// The canonical lowercase hex form.
    pub fn to_hex(&self) -> (r: String)
        ensures
            r@ == hex_of(self@),
    {
        hex_encode16(&self.inner)
    }

    /// A freshly drawn random identifier, for provisioning time.
    pub fn random() -> (r: Self) {
        ClientID { inner: random_id_bytes() }
    }

    /// Structural equality over the raw bytes.
    pub fn equals(&self, other: &Self) -> (r: bool)
        ensures
            r == (self@ == other@),
    {
        eq_bytes16(&self.inner, &other.inner)
    }
}

impl Default for ClientID {
    /// The all-zero identifier.
    fn default() -> (r: Self)
        ensures
            r@.len() == 16,
            forall|i: int| 0 <= i < 16 ==> r@[i] == 0u8,
    {
        ClientID { inner: [0; CLIENT_ID_SIZE] }
    }
}

/// Opaque identifier of a physical device: same shape as `ClientID`, but a
/// namespace of its own.
#[derive(Clone, Copy, Debug, PartialEq, Eq, Hash)]
pub struct DeviceID {
    inner: [u8; CLIENT_ID_SIZE],
}

impl View for DeviceID {
    type V = Seq<u8>;

    closed spec fn view(&self) -> Seq<u8> {
        self.inner@
    }
}

impl DeviceID {
    /// Wraps 16 raw bytes as an identifier.
    pub fn from_bytes(bytes: [u8; CLIENT_ID_SIZE]) -> (r: Self)
        ensures
            r@ == bytes@,
    {
        DeviceID { inner: bytes }
    }

    /// Hands the raw bytes back.
    pub fn into_bytes(self) -> (r: [u8; CLIENT_ID_SIZE])
        ensures
            r@ == self@,
    {
        self.inner
    }

    /// Parses the canonical hex form; rejects anything that does not decode
    /// to exactly 16 bytes.
    pub fn try_from(v: &[u8]) -> (r: Result<Self, Error>)
        ensures
            r matches Ok(c) ==> spec_parse_id(v@) == Ok::<Seq<u8>, Error>(c@),
            r matches Err(e) ==> spec_parse_id(v@) == Err::<Seq<u8>, Error>(e),
    {
        match parse_id_bytes(v) {
            Ok(inner) => Ok(DeviceID { inner }),
            Err(e) => Err(e),
        }
    }

    /// The canonical lowercase hex form.
    pub fn to_hex(&self) -> (r: String)
        ensures
            r@ == hex_of(self@),
    {
        hex_encode16(&self.inner)
    }

    /// A freshly drawn random identifier, for provisioning time.
    pub fn random() -> (r: Self) {
        DeviceID { inner: random_id_bytes() }
    }

    /// Structural equality over the raw bytes.
    pub fn equals(&self, other: &Self) -> (r: bool)
        ensures
            r == (self@ == other@),
    {
        eq_bytes16(&self.inner, &other.inner)
    }
}

/// The secret a device presents with its identity when it connects. Opaque
/// bytes; read-only after provisioning.
#[derive(Clone, Debug, PartialEq, Eq)]
pub struct DevicePassword {
    inner: Vec<u8>,
}

impl View for DevicePassword {
    type V = Seq<u8>;

    closed spec fn view(&self) -> Seq<u8> {
        self.inner@
    }
}

impl DevicePassword {
    /// Wraps the raw secret bytes.
    pub fn from_bytes(bytes: Vec<u8>) -> (r: Self)
        ensures
            r@ == bytes@,
    {
        DevicePassword { inner: bytes }
    }

    /// Structural equality over the secret bytes.
    pub fn equals(&self, other: &Self) -> (r: bool)
        ensures
            r == (self@ == other@),
    {
        let n = self.inner.len();
        if n != other.inner.len() {
            return false;
        }
        let mut i: usize = 0;
        while i < n
            invariant
                n == self.inner.len(),
                n == other.inner.len(),
                0 <= i <= n,
                forall|j: int| 0 <= j < i ==> self.inner@[j] == other.inner@[j],
            decreases n - i,
        {
            if self.inner[i] != other.inner[i] {
                return false;
            }
            i = i + 1;
        }
        assert(self.inner@ =~= other.inner@);
        true
    }
}

/// Equality of two 16-byte arrays.
fn eq_bytes16(a: &[u8; 16], b: &[u8; 16]) -> (r: bool)
    ensures
        r == (a@ == b@),
{
    let mut i: usize = 0;
    while i < 16
        invariant
            0 <= i <= 16,
            forall|j: int| 0 <= j < i ==> a@[j] == b@[j],
        decreases 16 - i,
    {
        if a[i] != b[i] {
            return false;
        }
        i = i + 1;
    }
    assert(a@ =~= b@);
    true
}

} // verus!
