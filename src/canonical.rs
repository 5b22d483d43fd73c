use vstd::prelude::*;
use borsh::BorshDeserialize;
use crate::state::{AddressInfo, AddressModel, CodecError, framed_text, parse_address, parse_text, text_fits};

verus! {

/// The canonical encoding of an address: the serializer's encoding of each field, in
/// declaration order, concatenated with nothing between or around them.
pub open spec fn canonical_encoding(m: AddressModel) -> Seq<u8> {
    seq![framed_text(m.name), seq![m.house_number], framed_text(m.street), framed_text(m.city)].flatten()
}

#[verifier::external_type_specification]
#[verifier::external_body]
pub struct ExIoError(borsh::io::Error);

/// Relies on `borsh::to_vec` for a `String`: the byte length as a `u32` in little-endian
/// order, then the UTF-8 bytes; an error exactly when the length does not fit in a `u32`.
#[verifier::external_body]
fn borsh_string_bytes(s: &String) -> (r: Result<Vec<u8>, borsh::io::Error>)
    ensures
        r is Ok <==> text_fits(s@),
        r matches Ok(v) ==> v@ == framed_text(s@),
{
    borsh::to_vec(s)
}

/// Relies on `<String as BorshDeserialize>::deserialize`: it reads a `u32` length in
/// little-endian order and that many bytes, fails where the buffer is too short or the
/// bytes are not UTF-8, and leaves the buffer just past what it read.
#[verifier::external_body]
fn borsh_read_string<'a>(buf: &'a [u8]) -> (r: Result<(String, &'a [u8]), borsh::io::Error>)
    ensures
        match (r, parse_text(buf@)) {
            (Ok((s, rest)), Ok((t, n))) => s@ == t && rest@ == buf@.subrange(n, buf@.len() as int),
            (Err(_), Err(_)) => true,
            _ => false,
        },
{
    let mut rest = buf;
    let s = String::deserialize(&mut rest);
    s.map(|s| (s, rest))
}

impl AddressInfo {
    /// The canonical encoding: each field as the structure serializer writes it, in
    /// declaration order, with nothing around them. It fails only when a text field is
    /// too long to frame.
    pub fn try_to_vec(&self) -> (r: Result<Vec<u8>, borsh::io::Error>)
        ensures
            r is Ok <==> self@.wf(),
            r matches Ok(v) ==> v@ == canonical_encoding(self@),
    {
        let mut name = match borsh_string_bytes(&self.name) {
            Ok(v) => v,
            Err(e) => return Err(e),
        };
        let mut street = match borsh_string_bytes(&self.street) {
            Ok(v) => v,
            Err(e) => return Err(e),
        };
        let mut city = match borsh_string_bytes(&self.city) {
            Ok(v) => v,
            Err(e) => return Err(e),
        };
        let mut bytes: Vec<u8> = Vec::new();
        bytes.append(&mut name);
        bytes.push(self.house_number);
        bytes.append(&mut street);
        bytes.append(&mut city);
        proof {
            crate::laws::lemma_canonical_fields(self@);
            assert(bytes@ =~= canonical_encoding(self@));
        }
        Ok(bytes)
    }

    /// Decodes a buffer that holds exactly one canonically encoded address, with no
    /// bytes after it.
    pub fn try_from_slice(bytes: &[u8]) -> (r: Result<Self, CodecError>)
        ensures
            r matches Ok(v) ==> parse_address(bytes@) == Ok::<_, CodecError>((v@, bytes@.len() as int)),
            r is Err <==> !(parse_address(bytes@) matches Ok((_, n)) && n == bytes@.len()),
            r matches Err(e) ==> e == CodecError::Deserialization,
    {
        let ghost b = bytes@;
        let (name, rest) = match borsh_read_string(bytes) {
            Ok(x) => x,
            Err(_) => return Err(CodecError::Deserialization),
        };
        let ghost p1 = b.len() - rest@.len();
        if rest.len() < 1 {
            return Err(CodecError::Deserialization);
        }
        let house_number = rest[0];
        let rest = vstd::slice::slice_subrange(rest, 1, rest.len());
        assert(rest@ =~= b.subrange(p1 + 1, b.len() as int));
        let (street, rest) = match borsh_read_string(rest) {
            Ok(x) => x,
            Err(_) => return Err(CodecError::Deserialization),
        };
        let ghost p3 = b.len() - rest@.len();
        assert(rest@ =~= b.subrange(p3, b.len() as int));
        let (city, rest) = match borsh_read_string(rest) {
            Ok(x) => x,
            Err(_) => return Err(CodecError::Deserialization),
        };
        if rest.len() != 0 {
            return Err(CodecError::Deserialization);
        }
        Ok(AddressInfo { name, house_number, street, city })
    }
}

} // verus!
