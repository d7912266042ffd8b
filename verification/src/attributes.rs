//! Object attributes: the well-known attribute names, parsing of
//! caller-supplied names, and the rendering back to canonical header
//! form.

use vstd::prelude::*;

use crate::text::{lower, str_eq, to_ascii_lower};

verus! {

/// An attribute of a stored object: one of the well-known headers, or a
/// free-form metadata key.
#[derive(Clone, Debug, PartialEq, Eq)]
pub enum Attribute {
    ContentDisposition,
    ContentEncoding,
    ContentLanguage,
    ContentType,
    CacheControl,
    Metadata(String),
}

/// The well-known attribute a lowercased name denotes, if any: each
/// well-known header is accepted with or without its hyphen.
pub open spec fn spec_well_known_attribute(t: Seq<char>) -> Option<Attribute> {
    if t == "content-disposition"@ || t == "contentdisposition"@ {
        Some(Attribute::ContentDisposition)
    } else if t == "content-encoding"@ || t == "contentencoding"@ {
        Some(Attribute::ContentEncoding)
    } else if t == "content-language"@ || t == "contentlanguage"@ {
        Some(Attribute::ContentLanguage)
    } else if t == "content-type"@ || t == "contenttype"@ {
        Some(Attribute::ContentType)
    } else if t == "cache-control"@ || t == "cachecontrol"@ {
        Some(Attribute::CacheControl)
    } else {
        None
    }
}

/// Parse a caller-supplied attribute name, ignoring ASCII case.
pub fn parse_attribute(s: &str) -> (r: Attribute)
    ensures
        spec_well_known_attribute(lower(s@)) is Some ==> r == spec_well_known_attribute(
            lower(s@),
        )->0,
        spec_well_known_attribute(lower(s@)) is None ==> (r matches Attribute::Metadata(m) && m@
            == lower(s@)),
{
    let low = to_ascii_lower(s);
    let t = low.as_str();
    if str_eq(t, "content-disposition") || str_eq(t, "contentdisposition") {
        Attribute::ContentDisposition
    } else if str_eq(t, "content-encoding") || str_eq(t, "contentencoding") {
        Attribute::ContentEncoding
    } else if str_eq(t, "content-language") || str_eq(t, "contentlanguage") {
        Attribute::ContentLanguage
    } else if str_eq(t, "content-type") || str_eq(t, "contenttype") {
        Attribute::ContentType
    } else if str_eq(t, "cache-control") || str_eq(t, "cachecontrol") {
        Attribute::CacheControl
    } else {
        Attribute::Metadata(low)
    }
}

/// The canonical rendering of an attribute: the well-known headers in
/// their hyphenated form, a metadata key as itself.
pub fn attribute_name(a: &Attribute) -> (r: String)
    ensures
        *a is ContentDisposition ==> r@ == "Content-Disposition"@,
        *a is ContentEncoding ==> r@ == "Content-Encoding"@,
        *a is ContentLanguage ==> r@ == "Content-Language"@,
        *a is ContentType ==> r@ == "Content-Type"@,
        *a is CacheControl ==> r@ == "Cache-Control"@,
        *a matches Attribute::Metadata(m) ==> r@ == m@,
{
    match a {
        Attribute::ContentDisposition => "Content-Disposition".to_owned(),
        Attribute::ContentEncoding => "Content-Encoding".to_owned(),
        Attribute::ContentLanguage => "Content-Language".to_owned(),
        Attribute::ContentType => "Content-Type".to_owned(),
        Attribute::CacheControl => "Cache-Control".to_owned(),
        Attribute::Metadata(m) => m.clone(),
    }
}

} // verus!
