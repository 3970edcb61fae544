//! Token metadata: where a token URI points, and reading the document found there.
use vstd::prelude::*;
use vstd::utf8::is_char_boundary;
use vstd::string::StringSliceAdditionalSpecFns;
use crate::document::{Attribute, AttributeValue, DisplayType, MetadataType, TokenMetadata};

verus! {

/// Whether `b` starts with the bytes of `p`.
pub open spec fn has_prefix(b: Seq<u8>, p: Seq<u8>) -> bool {
    p.len() <= b.len() && b.subrange(0, p.len() as int) == p
}

pub open spec fn ipfs_scheme() -> Seq<u8> {
    seq![105u8, 112, 102, 115, 58, 47, 47]
}

pub open spec fn http_scheme() -> Seq<u8> {
    seq![104u8, 116, 116, 112, 58, 47, 47]
}

pub open spec fn https_scheme() -> Seq<u8> {
    seq![104u8, 116, 116, 112, 115, 58, 47, 47]
}

pub open spec fn data_scheme() -> Seq<u8> {
    seq![100u8, 97, 116, 97, 58]
}

/// Index of the first comma in `b`, if any.
pub open spec fn first_comma(b: Seq<u8>) -> Option<int> {
    if exists|i: int| 0 <= i < b.len() && b[i] == 44u8 {
        Some(choose|i: int| 0 <= i < b.len() && b[i] == 44u8 && forall|j: int| 0 <= j < i ==> b[j] != 44u8)
    } else {
        None
    }
}

fn starts_with_bytes(b: &[u8], p: &[u8]) -> (r: bool)
    ensures
        r == has_prefix(b@, p@),
{
    if p.len() > b.len() {
        return false;
    }
    let mut i: usize = 0;
    while i < p.len()
        invariant
            p@.len() <= b@.len(),
            i <= p@.len(),
            forall|j: int| 0 <= j < i ==> b@[j] == p@[j],
        decreases p@.len() - i,
    {
        if b[i] != p[i] {
            assert(b@.subrange(0, p@.len() as int)[i as int] != p@[i as int]);
            return false;
        }
        i = i + 1;
    }
    assert(b@.subrange(0, p@.len() as int) =~= p@);
    true
}

fn find_comma(b: &[u8]) -> (r: Option<usize>)
    ensures
        r is Some <==> first_comma(b@) is Some,
        r is Some ==> r->0 as int == first_comma(b@)->0,
        r is Some ==> r->0 < b@.len(),
{
    let mut i: usize = 0;
    while i < b.len()
        invariant
            i <= b@.len(),
            forall|j: int| 0 <= j < i ==> b@[j] != 44u8,
        decreases b@.len() - i,
    {
        if b[i] == 44u8 {
            let ghost k = first_comma(b@)->0;
            assert(b@[k] == 44u8 && forall|j: int| 0 <= j < k ==> b@[j] != 44u8);
            assert(k == i) by {
                if k < i {
                    assert(b@[k] != 44u8);
                } else if k > i {
                    assert(b@[i as int] != 44u8);
                }
            }
            return Some(i);
        }
        i = i + 1;
    }
    None
}

pub open spec fn split_ok(uri: &str, at: int) -> bool {
    0 <= at <= uri.spec_bytes().len() && is_char_boundary(uri.spec_bytes(), at)
}

/// The source a token URI names: `ipfs://` references are content-addressed
/// (the part after the scheme is kept), `http://` and `https://` URLs are web
/// documents, and anything else is carried on chain: for a `data:` URI the
/// payload after its first comma, otherwise the URI itself.
pub fn metadata_type<'a>(uri: &'a str) -> (r: MetadataType<'a>)
    ensures
        ({
            let b = uri.spec_bytes();
            if has_prefix(b, ipfs_scheme()) && split_ok(uri, 7) {
                r matches MetadataType::Ipfs(p) && p.spec_bytes() == b.subrange(7, b.len() as int)
            } else if has_prefix(b, http_scheme()) || has_prefix(b, https_scheme()) {
                r == MetadataType::Http(uri)
            } else if has_prefix(b, data_scheme()) && first_comma(b) is Some && split_ok(
                uri,
                first_comma(b)->0 + 1,
            ) {
                r matches MetadataType::OnChain(p) && p.spec_bytes() == b.subrange(
                    first_comma(b)->0 + 1,
                    b.len() as int,
                )
            } else {
                r == MetadataType::OnChain(uri)
            }
        }),
{
    let b = uri.as_bytes();
    let ipfs: [u8; 7] = [105u8, 112, 102, 115, 58, 47, 47];
    let http: [u8; 7] = [104u8, 116, 116, 112, 58, 47, 47];
    let https: [u8; 8] = [104u8, 116, 116, 112, 115, 58, 47, 47];
    let data: [u8; 5] = [100u8, 97, 116, 97, 58];
    assert(ipfs@ =~= ipfs_scheme());
    assert(http@ =~= http_scheme());
    assert(https@ =~= https_scheme());
    assert(data@ =~= data_scheme());
    if starts_with_bytes(b, ipfs.as_slice()) && uri.is_char_boundary(7) {
        let (_, rest) = uri.split_at(7);
        return MetadataType::Ipfs(rest);
    }
    if starts_with_bytes(b, http.as_slice()) || starts_with_bytes(b, https.as_slice()) {
        return MetadataType::Http(uri);
    }
    if starts_with_bytes(b, data.as_slice()) {
        if let Some(c) = find_comma(b) {
            let blen = b.len();
            assert(c < blen);
            if uri.is_char_boundary(c + 1) {
                let (_, rest) = uri.split_at(c + 1);
                return MetadataType::OnChain(rest);
            }
        }
    }
    MetadataType::OnChain(uri)
}

pub open spec fn base64_marker() -> Seq<u8> {
    seq![59u8, 98, 97, 115, 101, 54, 52]
}

/// Whether `uri` is a `data:` URI whose header (before the first comma) ends
/// in `;base64`: its payload is then base64 text.
pub open spec fn spec_is_base64_data_uri(b: Seq<u8>) -> bool {
    has_prefix(b, data_scheme()) && (first_comma(b) matches Some(c) && c >= 7 && b.subrange(c - 7, c)
        == base64_marker())
}

pub fn is_base64_data_uri(uri: &str) -> (r: bool)
    ensures
        r == spec_is_base64_data_uri(uri.spec_bytes()),
{
    let b = uri.as_bytes();
    let data: [u8; 5] = [100u8, 97, 116, 97, 58];
    let marker: [u8; 7] = [59u8, 98, 97, 115, 101, 54, 52];
    assert(data@ =~= data_scheme());
    assert(marker@ =~= base64_marker());
    if !starts_with_bytes(b, data.as_slice()) {
        return false;
    }
    let c = match find_comma(b) {
        Some(c) => c,
        None => return false,
    };
    if c < 7 {
        return false;
    }
    let mut i: usize = 0;
    while i < 7
        invariant
            7 <= c < b@.len(),
            first_comma(b@) == Some(c as int),
            has_prefix(b@, data_scheme()),
            b@ == uri.spec_bytes(),
            i <= 7,
            marker@ == base64_marker(),
            forall|j: int| 0 <= j < i ==> b@[c - 7 + j] == marker@[j],
        decreases 7 - i,
    {
        if b[c - 7 + i] != marker[i] {
            assert(b@.subrange(c - 7, c as int)[i as int] != base64_marker()[i as int]);
            assert(b@.subrange(c - 7, c as int) != base64_marker());
            return false;
        }
        i = i + 1;
    }
    assert(b@.subrange(c - 7, c as int) =~= base64_marker());
    true
}

/// A parsed JSON document; numbers keep their literal text.
#[derive(Debug)]
pub enum JsonValue {
    Null,
    Bool(bool),
    Number(String),
    Str(String),
    Array(Vec<JsonValue>),
    Object(Vec<JsonField>),
}

/// One member of a JSON object.
#[derive(Debug)]
pub struct JsonField {
    pub key: String,
    pub value: JsonValue,
}

pub open spec fn all_str(s: Seq<JsonValue>) -> bool {
    forall|i: int| 0 <= i < s.len() ==> #[trigger] s[i] is Str
}

pub open spec fn all_number(s: Seq<JsonValue>) -> bool {
    forall|i: int| 0 <= i < s.len() ==> #[trigger] s[i] is Number
}

pub open spec fn all_bool(s: Seq<JsonValue>) -> bool {
    forall|i: int| 0 <= i < s.len() ==> #[trigger] s[i] is Bool
}

/// The text of each string (or number literal) of `s`, in order.
pub open spec fn texts_match(t: Seq<String>, s: Seq<JsonValue>) -> bool {
    &&& t.len() == s.len()
    &&& forall|i: int| 0 <= i < s.len() ==> match #[trigger] s[i] {
        JsonValue::Str(x) => t[i]@ == x@,
        JsonValue::Number(x) => t[i]@ == x@,
        _ => false,
    }
}

/// Whether a JSON value has one of the attribute-value shapes.
pub open spec fn value_shape_ok(v: JsonValue) -> bool {
    match v {
        JsonValue::Str(_) | JsonValue::Number(_) | JsonValue::Bool(_) => true,
        JsonValue::Array(items) => all_str(items@) || all_number(items@) || all_bool(items@),
        _ => false,
    }
}

/// `a` is what the shape probe reads from `v`: string, then number, then
/// boolean, then a list of strings, of numbers, of booleans; the first
/// shape that fits wins (so an empty list is a list of strings).
pub open spec fn value_matches(a: AttributeValue, v: JsonValue) -> bool {
    match v {
        JsonValue::Str(x) => a matches AttributeValue::String(t) && t@ == x@,
        JsonValue::Number(x) => a matches AttributeValue::Number(t) && t@ == x@,
        JsonValue::Bool(b) => a == AttributeValue::Bool(b),
        JsonValue::Array(items) => if all_str(items@) {
            a matches AttributeValue::StringVec(t) && texts_match(t@, items@)
        } else if all_number(items@) {
            a matches AttributeValue::NumberVec(t) && texts_match(t@, items@)
        } else {
            a matches AttributeValue::BoolVec(t) && t@.len() == items@.len() && forall|i: int|
                0 <= i < items@.len() ==> items@[i] == JsonValue::Bool(#[trigger] t@[i])
        },
        _ => false,
    }
}

fn texts_of(items: &Vec<JsonValue>, numbers: bool) -> (r: Option<Vec<String>>)
    ensures
        !numbers ==> (r is Some <==> all_str(items@)),
        numbers ==> (r is Some <==> all_number(items@)),
        r is Some ==> texts_match(r->0@, items@),
{
    let mut out: Vec<String> = Vec::new();
    let mut i: usize = 0;
    while i < items.len()
        invariant
            i <= items@.len(),
            out@.len() == i,
            !numbers ==> all_str(items@.subrange(0, i as int)),
            numbers ==> all_number(items@.subrange(0, i as int)),
            forall|j: int| 0 <= j < i ==> match #[trigger] items@[j] {
                JsonValue::Str(x) => out@[j]@ == x@,
                JsonValue::Number(x) => out@[j]@ == x@,
                _ => false,
            },
        decreases items@.len() - i,
    {
        match &items[i] {
            JsonValue::Str(x) => {
                if numbers {
                    return None;
                }
                out.push(x.clone());
            },
            JsonValue::Number(x) => {
                if !numbers {
                    return None;
                }
                out.push(x.clone());
            },
            _ => {
                return None;
            },
        }
        proof {
            assert forall|j: int| 0 <= j < i + 1 implies #[trigger] items@.subrange(0, i + 1)[j]
                == items@[j] by {}
        }
        i = i + 1;
    }
    assert(items@.subrange(0, i as int) =~= items@);
    Some(out)
}

fn bools_of(items: &Vec<JsonValue>) -> (r: Option<Vec<bool>>)
    ensures
        r is Some <==> all_bool(items@),
        r matches Some(t) ==> t@.len() == items@.len() && forall|i: int|
            0 <= i < items@.len() ==> items@[i] == JsonValue::Bool(#[trigger] t@[i]),
{
    let mut out: Vec<bool> = Vec::new();
    let mut i: usize = 0;
    while i < items.len()
        invariant
            i <= items@.len(),
            out@.len() == i,
            forall|j: int| 0 <= j < i ==> items@[j] == JsonValue::Bool(#[trigger] out@[j]),
        decreases items@.len() - i,
    {
        match &items[i] {
            JsonValue::Bool(b) => out.push(*b),
            _ => {
                return None;
            },
        }
        i = i + 1;
    }
    assert forall|j: int| 0 <= j < items@.len() implies #[trigger] items@[j] is Bool by {
        assert(items@[j] == JsonValue::Bool(out@[j]));
    }
    Some(out)
}

/// Reads an attribute value by its shape; `None` when none fits (such as a
/// list mixing kinds).
pub fn attribute_value_of(v: &JsonValue) -> (r: Option<AttributeValue>)
    ensures
        r is Some <==> value_shape_ok(*v),
        r matches Some(a) ==> value_matches(a, *v),
{
    match v {
        JsonValue::Str(s) => Some(AttributeValue::String(s.clone())),
        JsonValue::Number(n) => Some(AttributeValue::Number(n.clone())),
        JsonValue::Bool(b) => Some(AttributeValue::Bool(*b)),
        JsonValue::Array(items) => {
            if let Some(t) = texts_of(items, false) {
                return Some(AttributeValue::StringVec(t));
            }
            if let Some(t) = texts_of(items, true) {
                return Some(AttributeValue::NumberVec(t));
            }
            match bools_of(items) {
                Some(t) => Some(AttributeValue::BoolVec(t)),
                None => None,
            }
        },
        _ => None,
    }
}

/// The value of the first member named `key`.
pub open spec fn field_of(fields: Seq<JsonField>, key: Seq<char>) -> Option<JsonValue>
    decreases fields.len(),
{
    if fields.len() == 0 {
        None
    } else if fields[0].key@ == key {
        Some(fields[0].value)
    } else {
        field_of(fields.drop_first(), key)
    }
}

/// The member `key` when it is a string.
pub open spec fn str_field(fields: Seq<JsonField>, key: Seq<char>) -> Option<Seq<char>> {
    match field_of(fields, key) {
        Some(JsonValue::Str(s)) => Some(s@),
        _ => None,
    }
}

pub open spec fn opt_view(o: Option<String>) -> Option<Seq<char>> {
    match o {
        Some(s) => Some(s@),
        None => None,
    }
}

pub(crate) fn find_field(fields: &Vec<JsonField>, key: &String) -> (r: Option<usize>)
    ensures
        match field_of(fields@, key@) {
            None => r is None,
            Some(v) => r is Some && r->0 < fields@.len() && fields@[r->0 as int].value == v,
        },
{
    let mut i: usize = 0;
    assert(fields@.subrange(0, fields@.len() as int) =~= fields@);
    while i < fields.len()
        invariant
            i <= fields@.len(),
            field_of(fields@, key@) == field_of(fields@.subrange(i as int, fields@.len() as int), key@),
        decreases fields@.len() - i,
    {
        proof {
            let rest = fields@.subrange(i as int, fields@.len() as int);
            assert(rest.drop_first() =~= fields@.subrange(i + 1, fields@.len() as int));
            assert(rest[0] == fields@[i as int]);
        }
        if fields[i].key == *key {
            return Some(i);
        }
        i = i + 1;
    }
    None
}

fn string_member(fields: &Vec<JsonField>, key: &str) -> (r: Option<String>)
    ensures
        opt_view(r) == str_field(fields@, key@),
{
    let k = key.to_owned();
    match find_field(fields, &k) {
        Some(i) => match &fields[i].value {
            JsonValue::Str(s) => Some(s.clone()),
            _ => None,
        },
        None => None,
    }
}

/// The display hints, spelled as the metadata standard spells them.
pub open spec fn display_type_named(s: Seq<char>) -> Option<DisplayType> {
    if s == "Number"@ {
        Some(DisplayType::Number)
    } else if s == "BoostPercentage"@ {
        Some(DisplayType::BoostPercentage)
    } else if s == "BoostNumber"@ {
        Some(DisplayType::BoostNumber)
    } else if s == "Date"@ {
        Some(DisplayType::Date)
    } else {
        None
    }
}

/// Whether an attribute object can be read: it has a `value` of an accepted
/// shape, and its `trait_type` and `display_type`, when given, are a string
/// and a known hint.
pub open spec fn attribute_ok(v: JsonValue) -> bool {
    match v {
        JsonValue::Object(fs) => {
            &&& value_member_ok(field_of(fs@, "value"@))
            &&& trait_member_ok(field_of(fs@, "trait_type"@))
            &&& display_member_ok(field_of(fs@, "display_type"@))
        },
        _ => false,
    }
}

pub open spec fn value_member_ok(o: Option<JsonValue>) -> bool {
    match o {
        Some(x) => value_shape_ok(x),
        None => false,
    }
}

pub open spec fn trait_member_ok(o: Option<JsonValue>) -> bool {
    match o {
        None | Some(JsonValue::Null) | Some(JsonValue::Str(_)) => true,
        _ => false,
    }
}

pub open spec fn display_member_ok(o: Option<JsonValue>) -> bool {
    match o {
        None | Some(JsonValue::Null) => true,
        Some(JsonValue::Str(d)) => display_type_named(d@) is Some,
        _ => false,
    }
}

/// `a` is the attribute read from the object `v`.
pub open spec fn attribute_matches(a: Attribute, v: JsonValue) -> bool {
    match v {
        JsonValue::Object(fs) => {
            &&& value_matches(a.value, field_of(fs@, "value"@)->0)
            &&& opt_view(a.trait_type) == str_field(fs@, "trait_type"@)
            &&& a.display_type == match str_field(fs@, "display_type"@) {
                Some(d) => display_type_named(d),
                None => None,
            }
        },
        _ => false,
    }
}

fn display_type_of(s: &String) -> (r: Option<DisplayType>)
    ensures
        r == display_type_named(s@),
{
    if *s == "Number".to_owned() {
        Some(DisplayType::Number)
    } else if *s == "BoostPercentage".to_owned() {
        Some(DisplayType::BoostPercentage)
    } else if *s == "BoostNumber".to_owned() {
        Some(DisplayType::BoostNumber)
    } else if *s == "Date".to_owned() {
        Some(DisplayType::Date)
    } else {
        None
    }
}

/// Reads one entry of `attributes`; `None` when it cannot be read.
pub fn attribute_of(v: &JsonValue) -> (r: Option<Attribute>)
    ensures
        r is Some <==> attribute_ok(*v),
        r matches Some(a) ==> attribute_matches(a, *v),
{
    let fs = match v {
        JsonValue::Object(fs) => fs,
        _ => return None,
    };
    let value = match find_field(fs, &"value".to_owned()) {
        Some(i) => match attribute_value_of(&fs[i].value) {
            Some(a) => a,
            None => return None,
        },
        None => return None,
    };
    let trait_type = match find_field(fs, &"trait_type".to_owned()) {
        Some(i) => match &fs[i].value {
            JsonValue::Str(s) => Some(s.clone()),
            JsonValue::Null => None,
            _ => return None,
        },
        None => None,
    };
    let display_type = match find_field(fs, &"display_type".to_owned()) {
        Some(i) => match &fs[i].value {
            JsonValue::Str(s) => match display_type_of(s) {
                Some(d) => Some(d),
                None => return None,
            },
            JsonValue::Null => None,
            _ => return None,
        },
        None => None,
    };
    Some(Attribute { display_type, trait_type, value })
}

/// The entries of `items` that read as attributes, in order.
pub open spec fn readable_attributes(items: Seq<JsonValue>) -> Seq<JsonValue>
    decreases items.len(),
{
    if items.len() == 0 {
        Seq::empty()
    } else if attribute_ok(items.last()) {
        readable_attributes(items.drop_last()).push(items.last())
    } else {
        readable_attributes(items.drop_last())
    }
}

pub open spec fn attributes_match(a: Seq<Attribute>, items: Seq<JsonValue>) -> bool {
    let k = readable_attributes(items);
    &&& a.len() == k.len()
    &&& forall|j: int| 0 <= j < k.len() ==> attribute_matches(#[trigger] a[j], k[j])
}

fn attributes_of(items: &Vec<JsonValue>) -> (r: Vec<Attribute>)
    ensures
        attributes_match(r@, items@),
{
    let mut out: Vec<Attribute> = Vec::new();
    let mut i: usize = 0;
    while i < items.len()
        invariant
            i <= items@.len(),
            attributes_match(out@, items@.subrange(0, i as int)),
        decreases items@.len() - i,
    {
        let ghost pre = items@.subrange(0, i as int);
        let ghost next = items@.subrange(0, i + 1);
        proof {
            assert(next.drop_last() =~= pre);
            assert(next.last() == items@[i as int]);
        }
        match attribute_of(&items[i]) {
            Some(a) => {
                out.push(a);
            },
            None => {},
        }
        i = i + 1;
    }
    assert(items@.subrange(0, i as int) =~= items@);
    out
}

/// `m` is the metadata read from the members `fs`: each descriptive field
/// when it is a string, and the readable entries of an `attributes` list.
pub open spec fn metadata_matches(m: TokenMetadata, fs: Seq<JsonField>) -> bool {
    &&& opt_view(m.image) == str_field(fs, "image"@)
    &&& opt_view(m.image_data) == str_field(fs, "image_data"@)
    &&& opt_view(m.external_url) == str_field(fs, "external_url"@)
    &&& opt_view(m.description) == str_field(fs, "description"@)
    &&& opt_view(m.name) == str_field(fs, "name"@)
    &&& opt_view(m.background_color) == str_field(fs, "background_color"@)
    &&& opt_view(m.animation_url) == str_field(fs, "animation_url"@)
    &&& opt_view(m.youtube_url) == str_field(fs, "youtube_url"@)
    &&& match field_of(fs, "attributes"@) {
        Some(JsonValue::Array(items)) => m.attributes matches Some(a) && attributes_match(a@, items@),
        _ => m.attributes is None,
    }
}

/// Reads a metadata document; `None` when it is not a JSON object.
pub fn token_metadata_from_json(v: &JsonValue) -> (r: Option<TokenMetadata>)
    ensures
        r is Some <==> v is Object,
        r matches Some(m) ==> metadata_matches(m, v->Object_0@),
{
    let fs = match v {
        JsonValue::Object(fs) => fs,
        _ => return None,
    };
    let attributes = match find_field(fs, &"attributes".to_owned()) {
        Some(i) => match &fs[i].value {
            JsonValue::Array(items) => Some(attributes_of(items)),
            _ => None,
        },
        None => None,
    };
    Some(TokenMetadata {
        image: string_member(fs, "image"),
        image_data: string_member(fs, "image_data"),
        external_url: string_member(fs, "external_url"),
        description: string_member(fs, "description"),
        name: string_member(fs, "name"),
        attributes,
        background_color: string_member(fs, "background_color"),
        animation_url: string_member(fs, "animation_url"),
        youtube_url: string_member(fs, "youtube_url"),
    })
}

/// The metadata to store for a token. `document` is what fetching and JSON
/// parsing gave, `None` on any failure (unreachable host, bad JSON, empty or
/// unsupported URI). Never fails: whatever cannot be read gives the empty
/// metadata.
pub fn resolve_token_metadata(document: Option<JsonValue>) -> (r: TokenMetadata)
    ensures
        match document {
            Some(JsonValue::Object(fs)) => metadata_matches(r, fs@),
            _ => r.spec_is_empty(),
        },
{
    match document {
        Some(v) => match token_metadata_from_json(&v) {
            Some(m) => m,
            None => TokenMetadata::empty(),
        },
        None => TokenMetadata::empty(),
    }
}

} // verus!
