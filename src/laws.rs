use vstd::prelude::*;
use vstd::bytes::lemma_auto_spec_u32_to_from_le_bytes;
use vstd::utf8::{encode_utf8_decode_utf8, encode_utf8_valid_utf8};
use crate::canonical::canonical_encoding;
use vstd::utf8::valid_utf8;
use crate::state::{AddressModel, CodecError, framed_text, parse_address, parse_text, raw_frame, text_bytes, text_fits};

verus! {

/// The canonical encoding written out field by field.
pub proof fn lemma_canonical_fields(m: AddressModel)
    ensures
        canonical_encoding(m) == framed_text(m.name) + seq![m.house_number] + framed_text(m.street)
            + framed_text(m.city),
{
    let fields = seq![framed_text(m.name), seq![m.house_number], framed_text(m.street), framed_text(m.city)];
    assert(fields.drop_first().drop_first().drop_first().drop_first().flatten() =~= Seq::<u8>::empty());
    assert(fields.drop_first().drop_first().drop_first().flatten() =~= framed_text(m.city));
    assert(fields.drop_first().drop_first().flatten() =~= framed_text(m.street) + framed_text(m.city));
    assert(fields.drop_first().flatten() =~= seq![m.house_number] + framed_text(m.street) + framed_text(m.city));
    assert(fields.flatten() =~= framed_text(m.name) + seq![m.house_number] + framed_text(m.street)
        + framed_text(m.city));
}

/// Reading a text field from a prefix of its frame followed by other bytes: a prefix
/// that stops inside the frame is too short; one that covers it yields the text, and
/// what follows is the matching prefix of the other bytes.
pub proof fn lemma_parse_framed_prefix(s: Seq<char>, rest: Seq<u8>, k: int)
    requires
        text_fits(s),
        0 <= k <= framed_text(s).len() + rest.len(),
    ensures
        k < framed_text(s).len() ==> parse_text((framed_text(s) + rest).subrange(0, k))
            == Err::<(Seq<char>, int), CodecError>(CodecError::InsufficientBytes),
        k >= framed_text(s).len() ==> {
            &&& parse_text((framed_text(s) + rest).subrange(0, k)) == Ok::<_, CodecError>(
                (s, framed_text(s).len() as int),
            )
            &&& (framed_text(s) + rest).subrange(0, k).subrange(framed_text(s).len() as int, k)
                == rest.subrange(0, k - framed_text(s).len())
        },
{
    broadcast use encode_utf8_valid_utf8, encode_utf8_decode_utf8;

    lemma_auto_spec_u32_to_from_le_bytes();
    let t = text_bytes(s);
    let whole = framed_text(s) + rest;
    let b = whole.subrange(0, k);
    let n = t.len() as int;
    if k >= 4 {
        assert(b.subrange(0, 4) =~= vstd::bytes::spec_u32_to_le_bytes(t.len() as u32));
        if k >= 4 + n {
            assert(b.subrange(4, 4 + n) =~= t);
            assert(b.subrange(framed_text(s).len() as int, k) =~= rest.subrange(0, k - framed_text(s).len()));
        }
    }
}

/// Reading an address from a prefix of its encoding: every prefix that stops before the
/// end is too short, and the whole encoding yields the address and its full length.
pub proof fn lemma_parse_encoding_prefix(m: AddressModel, k: int)
    requires
        m.wf(),
        0 <= k <= m.encoding().len(),
    ensures
        k < m.encoding().len() ==> parse_address(m.encoding().subrange(0, k))
            == Err::<(AddressModel, int), CodecError>(CodecError::InsufficientBytes),
        k == m.encoding().len() ==> parse_address(m.encoding())
            == Ok::<_, CodecError>((m, m.encoding().len() as int)),
{
    let enc = m.encoding();
    let f1 = framed_text(m.name);
    let f2 = framed_text(m.street);
    let f3 = framed_text(m.city);
    let rest1 = seq![m.house_number] + f2 + f3;
    assert(enc =~= f1 + rest1);
    assert(enc.subrange(0, enc.len() as int) =~= enc);
    let b = enc.subrange(0, k);
    lemma_parse_framed_prefix(m.name, rest1, k);
    if k >= f1.len() + 1 {
        let p2 = f1.len() + 1int;
        let k2 = k - p2;
        assert(b.subrange(p2, k) =~= (f2 + f3).subrange(0, k2));
        lemma_parse_framed_prefix(m.street, f3, k2);
        if k2 >= f2.len() {
            let p3 = p2 + f2.len() as int;
            let k3 = k - p3;
            assert(b.subrange(p3, k) =~= (f3 + Seq::<u8>::empty()).subrange(0, k3));
            lemma_parse_framed_prefix(m.city, Seq::<u8>::empty(), k3);
            assert(b[f1.len() as int] == m.house_number);
        }
    }
}

/// Reading a text field whose body is not UTF-8 fails with `InvalidUtf8`, whatever follows.
pub proof fn lemma_parse_bad_text(body: Seq<u8>, rest: Seq<u8>)
    requires
        !valid_utf8(body),
        body.len() <= u32::MAX,
    ensures
        parse_text(raw_frame(body) + rest) == Err::<(Seq<char>, int), CodecError>(CodecError::InvalidUtf8),
{
    lemma_auto_spec_u32_to_from_le_bytes();
    let b = raw_frame(body) + rest;
    let n = body.len() as int;
    assert(b.subrange(0, 4) =~= vstd::bytes::spec_u32_to_le_bytes(body.len() as u32));
    assert(b.subrange(4, 4 + n) =~= body);
}

/// Decoding what was encoded gives back the same address, in both formats: the
/// length-prefixed decoder reports the whole encoding as consumed, and so the canonical
/// decoder, which asks that nothing follow the address, accepts it too.
pub proof fn law_round_trip(m: AddressModel)
    requires
        m.wf(),
    ensures
        parse_address(m.encoding()) == Ok::<_, CodecError>((m, m.encoding().len() as int)),
        parse_address(canonical_encoding(m)) == Ok::<_, CodecError>(
            (m, canonical_encoding(m).len() as int),
        ),
{
    lemma_canonical_fields(m);
    lemma_parse_encoding_prefix(m, m.encoding().len() as int);
}

/// The canonical encoding and the length-prefixed encoding of an address are the same
/// bytes.
pub proof fn law_format_parity(m: AddressModel)
    ensures
        canonical_encoding(m) == m.encoding(),
{
    lemma_canonical_fields(m);
}

/// Every proper, non-empty prefix of an encoded address is too short to decode: both
/// decoders see `InsufficientBytes` at the field where the bytes run out.
pub proof fn law_truncation(m: AddressModel, k: int)
    requires
        m.wf(),
        0 < k < m.encoding().len(),
    ensures
        parse_address(m.encoding().subrange(0, k))
            == Err::<(AddressModel, int), CodecError>(CodecError::InsufficientBytes),
        parse_address(canonical_encoding(m).subrange(0, k))
            == Err::<(AddressModel, int), CodecError>(CodecError::InsufficientBytes),
{
    lemma_canonical_fields(m);
    lemma_parse_encoding_prefix(m, k);
}

proof fn lemma_bad_street(m: AddressModel, bad: Seq<u8>)
    requires
        m.wf(),
        parse_text(bad) == Err::<(Seq<char>, int), CodecError>(CodecError::InvalidUtf8),
    ensures
        parse_address(framed_text(m.name) + seq![m.house_number] + bad)
            == Err::<(AddressModel, int), CodecError>(CodecError::InvalidUtf8),
{
    let f1 = framed_text(m.name);
    let h = seq![m.house_number];
    let b2 = f1 + h + bad;
    let r2 = h + bad;
    assert(b2 =~= f1 + r2);
    assert(b2.subrange(0, b2.len() as int) =~= b2);
    lemma_parse_framed_prefix(m.name, r2, b2.len() as int);
    assert(b2.subrange(f1.len() + 1int, b2.len() as int) =~= bad);
}

proof fn lemma_bad_city(m: AddressModel, bad: Seq<u8>)
    requires
        m.wf(),
        parse_text(bad) == Err::<(Seq<char>, int), CodecError>(CodecError::InvalidUtf8),
    ensures
        parse_address(framed_text(m.name) + seq![m.house_number] + framed_text(m.street) + bad)
            == Err::<(AddressModel, int), CodecError>(CodecError::InvalidUtf8),
{
    let f1 = framed_text(m.name);
    let f2 = framed_text(m.street);
    let h = seq![m.house_number];
    let b3 = f1 + h + f2 + bad;
    let r3 = h + f2 + bad;
    assert(b3 =~= f1 + r3);
    assert(b3.subrange(0, b3.len() as int) =~= b3);
    lemma_parse_framed_prefix(m.name, r3, b3.len() as int);
    let s3 = b3.subrange(f1.len() + 1int, b3.len() as int);
    assert(s3 =~= f2 + bad);
    assert(s3.subrange(0, s3.len() as int) =~= s3);
    lemma_parse_framed_prefix(m.street, bad, s3.len() as int);
    assert(b3.subrange(f1.len() + 1 + f2.len() as int, b3.len() as int) =~= bad);
}

/// A buffer in which the name, the street or the city is framed correctly but its body
/// is not UTF-8, with the fields before it well formed, fails to decode with
/// `InvalidUtf8`, whatever bytes follow.
pub proof fn law_invalid_utf8(m: AddressModel, body: Seq<u8>, rest: Seq<u8>)
    requires
        m.wf(),
        !valid_utf8(body),
        body.len() <= u32::MAX,
    ensures
        parse_address(raw_frame(body) + rest)
            == Err::<(AddressModel, int), CodecError>(CodecError::InvalidUtf8),
        parse_address(framed_text(m.name) + seq![m.house_number] + raw_frame(body) + rest)
            == Err::<(AddressModel, int), CodecError>(CodecError::InvalidUtf8),
        parse_address(
            framed_text(m.name) + seq![m.house_number] + framed_text(m.street) + raw_frame(body) + rest,
        ) == Err::<(AddressModel, int), CodecError>(CodecError::InvalidUtf8),
{
    let bad = raw_frame(body) + rest;
    lemma_parse_bad_text(body, rest);
    lemma_bad_street(m, bad);
    lemma_bad_city(m, bad);
    assert(framed_text(m.name) + seq![m.house_number] + raw_frame(body) + rest
        =~= framed_text(m.name) + seq![m.house_number] + bad);
    assert(framed_text(m.name) + seq![m.house_number] + framed_text(m.street) + raw_frame(body) + rest
        =~= framed_text(m.name) + seq![m.house_number] + framed_text(m.street) + bad);
}

} // verus!
