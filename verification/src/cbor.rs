//! The CBOR reader of `ciborium`, and `std`'s lossy UTF-8 decoding, as the
//! library calls them. Everything here is trusted: the contracts below are
//! believed, not proved.
use vstd::prelude::*;

use crate::value::{Cbor, CborModel};
use ciborium::Value as Item;

verus! {

#[verifier::external_type_specification]
#[verifier::external_body]
pub struct ExCiboriumValue(ciborium::Value);

/// The item that `ciborium::de::from_reader` reads from the front of
/// `bytes`, or `None` where it reports an error. Bytes after the first item
/// are not read.
pub uninterp spec fn cbor_decoded(bytes: Seq<u8>) -> Option<CborModel>;

/// `String::from_utf8_lossy`: the text of `bytes` with each invalid UTF-8
/// sequence replaced by U+FFFD.
pub uninterp spec fn utf8_lossy(bytes: Seq<u8>) -> Seq<char>;

/// Moves a `ciborium::Value` into the library's term type, variant for
/// variant (floats by their bit pattern; a variant this model does not name
/// by its debug text).
#[verifier::external_body]
fn term_from_value(v: Item) -> Cbor {
    match v {
        Item::Integer(n) => Cbor::Integer(n.into()),
        Item::Bytes(b) => Cbor::Bytes(b),
        Item::Float(f) => Cbor::Float(f.to_bits()),
        Item::Text(t) => Cbor::Text(t),
        Item::Bool(b) => Cbor::Bool(b),
        Item::Null => Cbor::Null,
        Item::Tag(t, inner) => Cbor::Tag(t, Box::new(term_from_value(*inner))),
        Item::Array(items) => Cbor::Array(items.into_iter().map(term_from_value).collect()),
        Item::Map(ps) => Cbor::Dict(
            ps.into_iter().map(|(k, x)| (term_from_value(k), term_from_value(x))).collect()
        ),
        other => Cbor::Other(format!("{other:?}")),
    }
}

/// `ciborium::de::from_reader` into a `ciborium::Value`: the contract says
/// only that the result is the named item `cbor_decoded(bytes)`; what CBOR
/// decoding yields for given bytes is left to ciborium.
#[verifier::external_body]
pub(crate) fn decode_cbor(bytes: &[u8]) -> (r: Option<Cbor>)
    ensures
        match r {
            Some(c) => cbor_decoded(bytes@) == Some(c.model()),
            None => cbor_decoded(bytes@) is None,
        },
{
    ciborium::de::from_reader::<Item, _>(bytes).ok().map(term_from_value)
}

/// `String::from_utf8_lossy(bytes).into_owned()`: the result is the named
/// text `utf8_lossy(bytes)`.
#[verifier::external_body]
pub(crate) fn lossy_text(bytes: &[u8]) -> (s: String)
    ensures
        s@ == utf8_lossy(bytes@),
{
    String::from_utf8_lossy(bytes).into_owned()
}

} // verus!
