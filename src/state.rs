use vstd::prelude::*;
use vstd::bytes::{spec_u32_to_le_bytes, spec_u32_from_le_bytes, u32_to_le_bytes, u32_from_le_bytes};
use vstd::slice::{slice_subrange, slice_to_vec};
use vstd::utf8::{encode_utf8, decode_utf8, valid_utf8};

verus! {

/// A postal address as stored in one account.
#[derive(Clone, Debug, PartialEq, Eq)]
pub struct AddressInfo {
    pub name: String,
    pub house_number: u8,
    pub street: String,
    pub city: String,
}

/// The mathematical value of an `AddressInfo`: its text fields as characters.
pub ghost struct AddressModel {
    pub name: Seq<char>,
    pub house_number: u8,
    pub street: Seq<char>,
    pub city: Seq<char>,
}

impl View for AddressInfo {
    type V = AddressModel;

    open spec fn view(&self) -> AddressModel {
        AddressModel {
            name: self.name@,
            house_number: self.house_number,
            street: self.street@,
            city: self.city@,
        }
    }
}

/// Why a byte buffer does not decode to an address.
#[derive(Clone, Copy, Debug, PartialEq, Eq, Structural)]
pub enum CodecError {
    /// The buffer ends before a length prefix or a field body is complete.
    InsufficientBytes,
    /// The body of a text field is not UTF-8.
    InvalidUtf8,
    /// The canonical decoder refused the buffer.
    Deserialization,
}

impl CodecError {
    /// A fixed human-readable description of the error.
    pub fn message(&self) -> (r: &'static str)
        ensures
            *self == CodecError::InsufficientBytes ==> r@ == "Insufficient bytes"@,
            *self == CodecError::InvalidUtf8 ==> r@ == "Invalid UTF-8"@,
            *self == CodecError::Deserialization ==> r@ == "Failed to deserialize"@,
    {
        match self {
            CodecError::InsufficientBytes => "Insufficient bytes",
            CodecError::InvalidUtf8 => "Invalid UTF-8",
            CodecError::Deserialization => "Failed to deserialize",
        }
    }
}

/// The UTF-8 bytes of a text field.
pub open spec fn text_bytes(s: Seq<char>) -> Seq<u8> {
    encode_utf8(s)
}

/// A text field may be framed when its byte length fits in the 4-byte prefix.
pub open spec fn text_fits(s: Seq<char>) -> bool {
    text_bytes(s).len() <= u32::MAX
}

/// A text field on the wire: its byte length as 4 little-endian bytes, then its bytes.
pub open spec fn framed_text(s: Seq<char>) -> Seq<u8> {
    spec_u32_to_le_bytes(text_bytes(s).len() as u32) + text_bytes(s)
}

impl AddressModel {
    /// Every text field can be framed.
    pub open spec fn wf(self) -> bool {
        &&& text_fits(self.name)
        &&& text_fits(self.street)
        &&& text_fits(self.city)
    }

    /// The encoding of an address: name, house number, street, city, in that order.
    pub open spec fn encoding(self) -> Seq<u8> {
        framed_text(self.name) + seq![self.house_number] + framed_text(self.street)
            + framed_text(self.city)
    }
}

impl AddressInfo {
    pub fn new(name: String, house_number: u8, street: String, city: String) -> (r: Self)
        ensures
            r.name == name,
            r.house_number == house_number,
            r.street == street,
            r.city == city,
    {
        AddressInfo { name, house_number, street, city }
    }
}

/// Appends `s` to `out` as a framed text field.
fn push_framed_text(out: &mut Vec<u8>, s: &String)
    requires
        text_fits(s@),
    ensures
        final(out)@ == old(out)@ + framed_text(s@),
{
    let bytes = s.as_str().as_bytes();
    let mut prefix = u32_to_le_bytes(bytes.len() as u32);
    let mut body = slice_to_vec(bytes);
    out.append(&mut prefix);
    out.append(&mut body);
}

impl AddressInfo {
    /// Encodes the address in the length-prefixed layout.
    pub fn to_le_bytes(&self) -> (r: Vec<u8>)
        requires
            self@.wf(),
        ensures
            r@ == self@.encoding(),
    {
        let mut bytes: Vec<u8> = Vec::new();
        push_framed_text(&mut bytes, &self.name);
        bytes.push(self.house_number);
        push_framed_text(&mut bytes, &self.street);
        push_framed_text(&mut bytes, &self.city);
        proof {
            assert(bytes@ =~= self@.encoding());
        }
        bytes
    }
}

/// The raw bytes of a text field on the wire, before UTF-8 decoding: a 4-byte
/// little-endian length, then that many bytes.
pub open spec fn raw_frame(body: Seq<u8>) -> Seq<u8> {
    spec_u32_to_le_bytes(body.len() as u32) + body
}

/// Reads one framed text field at the start of `b`: its characters and the number
/// of bytes it spans, or why it cannot be read.
pub open spec fn parse_text(b: Seq<u8>) -> Result<(Seq<char>, int), CodecError> {
    if b.len() < 4 {
        Err(CodecError::InsufficientBytes)
    } else {
        let n = spec_u32_from_le_bytes(b.subrange(0, 4)) as int;
        if b.len() < 4 + n {
            Err(CodecError::InsufficientBytes)
        } else if !valid_utf8(b.subrange(4, 4 + n)) {
            Err(CodecError::InvalidUtf8)
        } else {
            Ok((decode_utf8(b.subrange(4, 4 + n)), 4 + n))
        }
    }
}

/// Reads an address at the start of `b`, field by field: the address and the number
/// of bytes it spans, or the first reason a field cannot be read.
pub open spec fn parse_address(b: Seq<u8>) -> Result<(AddressModel, int), CodecError> {
    match parse_text(b) {
        Err(e) => Err(e),
        Ok((name, p1)) => if b.len() < p1 + 1 {
            Err(CodecError::InsufficientBytes)
        } else {
            let p2 = p1 + 1;
            match parse_text(b.subrange(p2, b.len() as int)) {
                Err(e) => Err(e),
                Ok((street, l2)) => {
                    let p3 = p2 + l2;
                    match parse_text(b.subrange(p3, b.len() as int)) {
                        Err(e) => Err(e),
                        Ok((city, l3)) => Ok(
                            (
                                AddressModel { name, house_number: b[p1], street, city },
                                p3 + l3,
                            ),
                        ),
                    }
                },
            }
        },
    }
}

/// Relies on `String::from_utf8`: it succeeds exactly on UTF-8 input, and the string
/// holds the characters that the bytes encode.
#[verifier::external_body]
fn string_from_utf8(v: Vec<u8>) -> (r: Option<String>)
    ensures
        r is Some <==> valid_utf8(v@),
        r matches Some(s) ==> s@ == decode_utf8(v@),
{
    String::from_utf8(v).ok()
}

/// Reads the framed text field that starts at `pos`; on success also returns the
/// position just past it.
fn read_text(bytes: &[u8], pos: usize) -> (r: Result<(String, usize), CodecError>)
    requires
        pos <= bytes@.len(),
    ensures
        match (r, parse_text(bytes@.subrange(pos as int, bytes@.len() as int))) {
            (Ok((s, end)), Ok((t, n))) => s@ == t && end == pos + n,
            (Err(e), Err(f)) => e == f,
            _ => false,
        },
{
    let ghost b = bytes@.subrange(pos as int, bytes@.len() as int);
    if bytes.len() - pos < 4 {
        return Err(CodecError::InsufficientBytes);
    }
    let prefix = slice_subrange(bytes, pos, pos + 4);
    assert(prefix@ =~= b.subrange(0, 4));
    let n = u32_from_le_bytes(prefix) as usize;
    if bytes.len() - pos - 4 < n {
        return Err(CodecError::InsufficientBytes);
    }
    let body = slice_subrange(bytes, pos + 4, pos + 4 + n);
    assert(body@ =~= b.subrange(4, 4 + n as int));
    match string_from_utf8(slice_to_vec(body)) {
        Some(s) => Ok((s, pos + 4 + n)),
        None => Err(CodecError::InvalidUtf8),
    }
}

impl AddressInfo {
    /// Decodes an address from the start of `bytes` in the length-prefixed layout,
    /// returning it with the number of bytes it spans. Bytes after it are left alone.
    pub fn from_le_bytes(bytes: &[u8]) -> (r: Result<(Self, usize), CodecError>)
        ensures
            match (r, parse_address(bytes@)) {
                (Ok((v, n)), Ok((m, k))) => v@ == m && n == k,
                (Err(e), Err(f)) => e == f,
                _ => false,
            },
    {
        assert(bytes@.subrange(0, bytes@.len() as int) =~= bytes@);
        let (name, pos) = match read_text(bytes, 0) {
            Ok(x) => x,
            Err(e) => return Err(e),
        };
        if bytes.len() - pos < 1 {
            return Err(CodecError::InsufficientBytes);
        }
        let house_number = bytes[pos];
        let (street, pos) = match read_text(bytes, pos + 1) {
            Ok(x) => x,
            Err(e) => return Err(e),
        };
        let (city, pos) = match read_text(bytes, pos) {
            Ok(x) => x,
            Err(e) => return Err(e),
        };
        Ok((AddressInfo { name, house_number, street, city }, pos))
    }
}

} // verus!
