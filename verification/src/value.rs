//! The IPP value model: a closed tagged union over the wire's value-tag
//! space, its spec-level counterpart, and the typed accessors callers use
//! to read attribute values.

use vstd::prelude::*;
use vstd::utf8::{decode_utf8, encode_utf8, valid_utf8};

verus! {

// Delimiter tags: group boundaries and the end-of-attributes marker.
pub const TAG_OPERATION_ATTRIBUTES: u8 = 0x01;

pub const TAG_JOB_ATTRIBUTES: u8 = 0x02;

pub const TAG_END_OF_ATTRIBUTES: u8 = 0x03;

pub const TAG_PRINTER_ATTRIBUTES: u8 = 0x04;

pub const TAG_UNSUPPORTED_ATTRIBUTES: u8 = 0x05;

pub const TAG_SUBSCRIPTION_ATTRIBUTES: u8 = 0x06;

pub const TAG_EVENT_NOTIFICATION_ATTRIBUTES: u8 = 0x07;

// Value tags.
pub const TAG_INTEGER: u8 = 0x21;

pub const TAG_BOOLEAN: u8 = 0x22;

pub const TAG_ENUM: u8 = 0x23;

pub const TAG_OCTET_STRING: u8 = 0x30;

pub const TAG_DATE_TIME: u8 = 0x31;

pub const TAG_RESOLUTION: u8 = 0x32;

pub const TAG_RANGE_OF_INTEGER: u8 = 0x33;

pub const TAG_BEG_COLLECTION: u8 = 0x34;

pub const TAG_TEXT_WITH_LANGUAGE: u8 = 0x35;

pub const TAG_NAME_WITH_LANGUAGE: u8 = 0x36;

pub const TAG_END_COLLECTION: u8 = 0x37;

pub const TAG_TEXT_WITHOUT_LANGUAGE: u8 = 0x41;

pub const TAG_NAME_WITHOUT_LANGUAGE: u8 = 0x42;

pub const TAG_KEYWORD: u8 = 0x44;

pub const TAG_URI: u8 = 0x45;

pub const TAG_URI_SCHEME: u8 = 0x46;

pub const TAG_CHARSET: u8 = 0x47;

pub const TAG_NATURAL_LANGUAGE: u8 = 0x48;

pub const TAG_MIME_MEDIA_TYPE: u8 = 0x49;

pub const TAG_MEMBER_ATTR_NAME: u8 = 0x4A;

/// An eleven-byte IPP dateTime value.
#[derive(Clone, Copy, PartialEq, Eq, Structural, Debug)]
pub struct IppDateTime {
    pub year: u16,
    pub month: u8,
    pub day: u8,
    pub hour: u8,
    pub minutes: u8,
    pub seconds: u8,
    pub deciseconds: u8,
    pub utc_dir: u8,
    pub utc_hours: u8,
    pub utc_minutes: u8,
}

/// A nine-byte IPP resolution value.
#[derive(Clone, Copy, PartialEq, Eq, Structural, Debug)]
pub struct IppResolution {
    pub xres: i32,
    pub yres: i32,
    pub units: u8,
}

/// One IPP attribute value. String-shaped variants hold the raw wire bytes;
/// they are decoded to text lossily on access, so any response byte sequence
/// is representable. Tags outside the handled set are preserved verbatim in
/// `Other`.
#[derive(Debug)]
pub enum IppValue {
    Integer(i32),
    Boolean(bool),
    Enum(i32),
    OctetString(Vec<u8>),
    DateTime(IppDateTime),
    Resolution(IppResolution),
    RangeOfInteger { low: i32, high: i32 },
    TextWithLanguage { language: Vec<u8>, text: Vec<u8> },
    NameWithLanguage { language: Vec<u8>, name: Vec<u8> },
    TextWithoutLanguage(Vec<u8>),
    NameWithoutLanguage(Vec<u8>),
    Keyword(Vec<u8>),
    Uri(Vec<u8>),
    UriScheme(Vec<u8>),
    Charset(Vec<u8>),
    NaturalLanguage(Vec<u8>),
    MimeMediaType(Vec<u8>),
    MemberAttrName(Vec<u8>),
    Collection(Vec<IppMember>),
    Other { tag: u8, data: Vec<u8> },
}

/// A named member of a collection value.
#[derive(Debug)]
pub struct IppMember {
    pub name: Vec<u8>,
    pub value: IppValue,
}

/// The spec-level counterpart of `IppValue`.
#[verifier::ext_equal]
pub enum ValueV {
    Integer(i32),
    Boolean(bool),
    Enum(i32),
    OctetString(Seq<u8>),
    DateTime(IppDateTime),
    Resolution(IppResolution),
    RangeOfInteger { low: i32, high: i32 },
    TextWithLanguage { language: Seq<u8>, text: Seq<u8> },
    NameWithLanguage { language: Seq<u8>, name: Seq<u8> },
    TextWithoutLanguage(Seq<u8>),
    NameWithoutLanguage(Seq<u8>),
    Keyword(Seq<u8>),
    Uri(Seq<u8>),
    UriScheme(Seq<u8>),
    Charset(Seq<u8>),
    NaturalLanguage(Seq<u8>),
    MimeMediaType(Seq<u8>),
    MemberAttrName(Seq<u8>),
    Collection(Seq<MemberV>),
    Other { tag: u8, data: Seq<u8> },
}

/// The spec-level counterpart of `IppMember`.
#[verifier::ext_equal]
pub struct MemberV {
    pub name: Seq<u8>,
    pub value: ValueV,
}

/// The spec-level value an `IppValue` stands for.
pub open spec fn value_view(v: IppValue) -> ValueV
    decreases v,
{
    match v {
        IppValue::Integer(i) => ValueV::Integer(i),
        IppValue::Boolean(b) => ValueV::Boolean(b),
        IppValue::Enum(i) => ValueV::Enum(i),
        IppValue::OctetString(d) => ValueV::OctetString(d@),
        IppValue::DateTime(d) => ValueV::DateTime(d),
        IppValue::Resolution(r) => ValueV::Resolution(r),
        IppValue::RangeOfInteger { low, high } => ValueV::RangeOfInteger { low, high },
        IppValue::TextWithLanguage { language, text } => ValueV::TextWithLanguage {
            language: language@,
            text: text@,
        },
        IppValue::NameWithLanguage { language, name } => ValueV::NameWithLanguage {
            language: language@,
            name: name@,
        },
        IppValue::TextWithoutLanguage(d) => ValueV::TextWithoutLanguage(d@),
        IppValue::NameWithoutLanguage(d) => ValueV::NameWithoutLanguage(d@),
        IppValue::Keyword(d) => ValueV::Keyword(d@),
        IppValue::Uri(d) => ValueV::Uri(d@),
        IppValue::UriScheme(d) => ValueV::UriScheme(d@),
        IppValue::Charset(d) => ValueV::Charset(d@),
        IppValue::NaturalLanguage(d) => ValueV::NaturalLanguage(d@),
        IppValue::MimeMediaType(d) => ValueV::MimeMediaType(d@),
        IppValue::MemberAttrName(d) => ValueV::MemberAttrName(d@),
        IppValue::Collection(ms) => ValueV::Collection(members_view(ms@)),
        IppValue::Other { tag, data } => ValueV::Other { tag, data: data@ },
    }
}

/// The spec-level member list a member vector stands for.
pub open spec fn members_view(ms: Seq<IppMember>) -> Seq<MemberV>
    decreases ms,
{
    if ms.len() == 0 {
        Seq::empty()
    } else {
        seq![member_view(ms[0])] + members_view(ms.drop_first())
    }
}

/// The spec-level member an `IppMember` stands for.
pub open spec fn member_view(m: IppMember) -> MemberV
    decreases m,
{
    MemberV { name: m.name@, value: value_view(m.value) }
}

/// The spec-level value list a value vector stands for.
pub open spec fn values_view(vs: Seq<IppValue>) -> Seq<ValueV>
    decreases vs,
{
    if vs.len() == 0 {
        Seq::empty()
    } else {
        seq![value_view(vs[0])] + values_view(vs.drop_first())
    }
}

impl View for IppValue {
    type V = ValueV;

    open spec fn view(&self) -> ValueV {
        value_view(*self)
    }
}

impl View for IppMember {
    type V = MemberV;

    open spec fn view(&self) -> MemberV {
        member_view(*self)
    }
}

pub proof fn lemma_members_view(ms: Seq<IppMember>)
    ensures
        members_view(ms).len() == ms.len(),
        forall|i: int| 0 <= i < ms.len() ==> members_view(ms)[i] == member_view(ms[i]),
    decreases ms.len(),
{
    if ms.len() > 0 {
        lemma_members_view(ms.drop_first());
    }
}

pub proof fn lemma_values_view(vs: Seq<IppValue>)
    ensures
        values_view(vs).len() == vs.len(),
        forall|i: int| 0 <= i < vs.len() ==> values_view(vs)[i] == value_view(vs[i]),
    decreases vs.len(),
{
    if vs.len() > 0 {
        lemma_values_view(vs.drop_first());
    }
}

pub proof fn lemma_values_view_push(vs: Seq<IppValue>, v: IppValue)
    ensures
        values_view(vs.push(v)) == values_view(vs).push(value_view(v)),
{
    lemma_values_view(vs.push(v));
    lemma_values_view(vs);
    assert(values_view(vs.push(v)) =~= values_view(vs).push(value_view(v)));
}

/// True of the tags this codec decodes into a dedicated variant; anything
/// else is preserved as `Other`.
pub open spec fn spec_tag_known(tag: u8) -> bool {
    tag == TAG_INTEGER || tag == TAG_BOOLEAN || tag == TAG_ENUM || tag == TAG_OCTET_STRING || tag
        == TAG_DATE_TIME || tag == TAG_RESOLUTION || tag == TAG_RANGE_OF_INTEGER || tag
        == TAG_BEG_COLLECTION || tag == TAG_TEXT_WITH_LANGUAGE || tag == TAG_NAME_WITH_LANGUAGE
        || tag == TAG_END_COLLECTION || tag == TAG_TEXT_WITHOUT_LANGUAGE || tag
        == TAG_NAME_WITHOUT_LANGUAGE || tag == TAG_KEYWORD || tag == TAG_URI || tag
        == TAG_URI_SCHEME || tag == TAG_CHARSET || tag == TAG_NATURAL_LANGUAGE || tag
        == TAG_MIME_MEDIA_TYPE || tag == TAG_MEMBER_ATTR_NAME
}

/// The value tag a value carries on the wire.
pub open spec fn spec_value_tag(v: ValueV) -> u8 {
    match v {
        ValueV::Integer(_) => TAG_INTEGER,
        ValueV::Boolean(_) => TAG_BOOLEAN,
        ValueV::Enum(_) => TAG_ENUM,
        ValueV::OctetString(_) => TAG_OCTET_STRING,
        ValueV::DateTime(_) => TAG_DATE_TIME,
        ValueV::Resolution(_) => TAG_RESOLUTION,
        ValueV::RangeOfInteger { .. } => TAG_RANGE_OF_INTEGER,
        ValueV::TextWithLanguage { .. } => TAG_TEXT_WITH_LANGUAGE,
        ValueV::NameWithLanguage { .. } => TAG_NAME_WITH_LANGUAGE,
        ValueV::TextWithoutLanguage(_) => TAG_TEXT_WITHOUT_LANGUAGE,
        ValueV::NameWithoutLanguage(_) => TAG_NAME_WITHOUT_LANGUAGE,
        ValueV::Keyword(_) => TAG_KEYWORD,
        ValueV::Uri(_) => TAG_URI,
        ValueV::UriScheme(_) => TAG_URI_SCHEME,
        ValueV::Charset(_) => TAG_CHARSET,
        ValueV::NaturalLanguage(_) => TAG_NATURAL_LANGUAGE,
        ValueV::MimeMediaType(_) => TAG_MIME_MEDIA_TYPE,
        ValueV::MemberAttrName(_) => TAG_MEMBER_ATTR_NAME,
        ValueV::Collection(_) => TAG_BEG_COLLECTION,
        ValueV::Other { tag, .. } => tag,
    }
}

impl IppValue {
    /// The value tag this value carries on the wire.
    pub fn value_tag(&self) -> (r: u8)
        ensures
            r == spec_value_tag(self@),
    {
        match self {
            IppValue::Integer(_) => TAG_INTEGER,
            IppValue::Boolean(_) => TAG_BOOLEAN,
            IppValue::Enum(_) => TAG_ENUM,
            IppValue::OctetString(_) => TAG_OCTET_STRING,
            IppValue::DateTime(_) => TAG_DATE_TIME,
            IppValue::Resolution(_) => TAG_RESOLUTION,
            IppValue::RangeOfInteger { .. } => TAG_RANGE_OF_INTEGER,
            IppValue::TextWithLanguage { .. } => TAG_TEXT_WITH_LANGUAGE,
            IppValue::NameWithLanguage { .. } => TAG_NAME_WITH_LANGUAGE,
            IppValue::TextWithoutLanguage(_) => TAG_TEXT_WITHOUT_LANGUAGE,
            IppValue::NameWithoutLanguage(_) => TAG_NAME_WITHOUT_LANGUAGE,
            IppValue::Keyword(_) => TAG_KEYWORD,
            IppValue::Uri(_) => TAG_URI,
            IppValue::UriScheme(_) => TAG_URI_SCHEME,
            IppValue::Charset(_) => TAG_CHARSET,
            IppValue::NaturalLanguage(_) => TAG_NATURAL_LANGUAGE,
            IppValue::MimeMediaType(_) => TAG_MIME_MEDIA_TYPE,
            IppValue::MemberAttrName(_) => TAG_MEMBER_ATTR_NAME,
            IppValue::Collection(_) => TAG_BEG_COLLECTION,
            IppValue::Other { tag, .. } => *tag,
        }
    }

    /// Builds a keyword value from a string.
    pub fn keyword(s: &str) -> (r: IppValue)
        ensures
            r@ == ValueV::Keyword(encode_utf8(s@)),
    {
        IppValue::Keyword(str_bytes(s))
    }

    /// Builds a URI value from a string.
    pub fn uri(s: &str) -> (r: IppValue)
        ensures
            r@ == ValueV::Uri(encode_utf8(s@)),
    {
        IppValue::Uri(str_bytes(s))
    }

    /// Builds a charset value from a string.
    pub fn charset(s: &str) -> (r: IppValue)
        ensures
            r@ == ValueV::Charset(encode_utf8(s@)),
    {
        IppValue::Charset(str_bytes(s))
    }

    /// Builds a natural-language value from a string.
    pub fn natural_language(s: &str) -> (r: IppValue)
        ensures
            r@ == ValueV::NaturalLanguage(encode_utf8(s@)),
    {
        IppValue::NaturalLanguage(str_bytes(s))
    }

    /// Builds a name-without-language value from a string.
    pub fn name_without_language(s: &str) -> (r: IppValue)
        ensures
            r@ == ValueV::NameWithoutLanguage(encode_utf8(s@)),
    {
        IppValue::NameWithoutLanguage(str_bytes(s))
    }

    /// Builds a text-without-language value from a string.
    pub fn text_without_language(s: &str) -> (r: IppValue)
        ensures
            r@ == ValueV::TextWithoutLanguage(encode_utf8(s@)),
    {
        IppValue::TextWithoutLanguage(str_bytes(s))
    }

    /// The integer a value holds, or `InvalidAttributeType` for another shape.
    pub fn as_integer(&self) -> (r: Result<i32, crate::IppError>)
        ensures
            match self@ {
                ValueV::Integer(i) => r == Ok::<i32, crate::IppError>(i),
                _ => r == Err::<i32, crate::IppError>(crate::IppError::InvalidAttributeType),
            },
    {
        match self {
            IppValue::Integer(i) => Ok(*i),
            _ => Err(crate::IppError::InvalidAttributeType),
        }
    }

    /// The enum code a value holds, or `InvalidAttributeType` for another shape.
    pub fn as_enum(&self) -> (r: Result<i32, crate::IppError>)
        ensures
            match self@ {
                ValueV::Enum(i) => r == Ok::<i32, crate::IppError>(i),
                _ => r == Err::<i32, crate::IppError>(crate::IppError::InvalidAttributeType),
            },
    {
        match self {
            IppValue::Enum(i) => Ok(*i),
            _ => Err(crate::IppError::InvalidAttributeType),
        }
    }

    /// The boolean a value holds, or `InvalidAttributeType` for another shape.
    pub fn as_boolean(&self) -> (r: Result<bool, crate::IppError>)
        ensures
            match self@ {
                ValueV::Boolean(b) => r == Ok::<bool, crate::IppError>(b),
                _ => r == Err::<bool, crate::IppError>(crate::IppError::InvalidAttributeType),
            },
    {
        match self {
            IppValue::Boolean(b) => Ok(*b),
            _ => Err(crate::IppError::InvalidAttributeType),
        }
    }

    /// The text a string-shaped value holds, decoded lossily, or
    /// `InvalidAttributeType` for a non-textual shape.
    pub fn as_string(&self) -> (r: Result<String, crate::IppError>)
        ensures
            match spec_text_bytes(self@) {
                Some(d) => r matches Ok(s) && s@ == spec_lossy_utf8(d) && (valid_utf8(d) ==> s@
                    == decode_utf8(d)),
                None => r == Err::<String, crate::IppError>(
                    crate::IppError::InvalidAttributeType,
                ),
            },
    {
        match self {
            IppValue::OctetString(d) => Ok(bytes_to_string_lossy(d.as_slice())),
            IppValue::TextWithoutLanguage(d) => Ok(bytes_to_string_lossy(d.as_slice())),
            IppValue::NameWithoutLanguage(d) => Ok(bytes_to_string_lossy(d.as_slice())),
            IppValue::Keyword(d) => Ok(bytes_to_string_lossy(d.as_slice())),
            IppValue::Uri(d) => Ok(bytes_to_string_lossy(d.as_slice())),
            IppValue::UriScheme(d) => Ok(bytes_to_string_lossy(d.as_slice())),
            IppValue::Charset(d) => Ok(bytes_to_string_lossy(d.as_slice())),
            IppValue::NaturalLanguage(d) => Ok(bytes_to_string_lossy(d.as_slice())),
            IppValue::MimeMediaType(d) => Ok(bytes_to_string_lossy(d.as_slice())),
            IppValue::MemberAttrName(d) => Ok(bytes_to_string_lossy(d.as_slice())),
            IppValue::TextWithLanguage { text, .. } => Ok(bytes_to_string_lossy(text.as_slice())),
            IppValue::NameWithLanguage { name, .. } => Ok(bytes_to_string_lossy(name.as_slice())),
            _ => Err(crate::IppError::InvalidAttributeType),
        }
    }
}

/// The byte content `as_string` decodes, for string-shaped values.
pub open spec fn spec_text_bytes(v: ValueV) -> Option<Seq<u8>> {
    match v {
        ValueV::OctetString(d) => Some(d),
        ValueV::TextWithoutLanguage(d) => Some(d),
        ValueV::NameWithoutLanguage(d) => Some(d),
        ValueV::Keyword(d) => Some(d),
        ValueV::Uri(d) => Some(d),
        ValueV::UriScheme(d) => Some(d),
        ValueV::Charset(d) => Some(d),
        ValueV::NaturalLanguage(d) => Some(d),
        ValueV::MimeMediaType(d) => Some(d),
        ValueV::MemberAttrName(d) => Some(d),
        ValueV::TextWithLanguage { text, .. } => Some(text),
        ValueV::NameWithLanguage { name, .. } => Some(name),
        _ => None,
    }
}

/// What `String::from_utf8_lossy` returns: a function of the bytes alone.
pub uninterp spec fn spec_lossy_utf8(b: Seq<u8>) -> Seq<char>;

/// Relies on `String::from_utf8_lossy`: its result depends on the bytes
/// alone, and a valid UTF-8 sequence decodes to exactly its characters.
#[verifier::external_body]
pub(crate) fn bytes_to_string_lossy(b: &[u8]) -> (r: String)
    ensures
        r@ == spec_lossy_utf8(b@),
        valid_utf8(b@) ==> r@ == decode_utf8(b@),
{
    String::from_utf8_lossy(b).into_owned()
}

/// The UTF-8 bytes of a string slice, as an owned vector.
pub fn str_bytes(s: &str) -> (r: Vec<u8>)
    ensures
        r@ == encode_utf8(s@),
{
    vstd::slice::slice_to_vec(s.as_bytes())
}

/// Well-formedness of a value for encoding: every length-prefixed byte field
/// fits its 16-bit length, a with-language value fits its outer length, and
/// an `Other` tag does not collide with a handled tag or a delimiter.
pub open spec fn wf_value(v: ValueV) -> bool
    decreases v,
{
    match v {
        ValueV::Integer(_) => true,
        ValueV::Boolean(_) => true,
        ValueV::Enum(_) => true,
        ValueV::OctetString(d) => d.len() <= 0xFFFF,
        ValueV::DateTime(_) => true,
        ValueV::Resolution(_) => true,
        ValueV::RangeOfInteger { .. } => true,
        ValueV::TextWithLanguage { language, text } => language.len() <= 0xFFFF && text.len()
            <= 0xFFFF && 4 + language.len() + text.len() <= 0xFFFF,
        ValueV::NameWithLanguage { language, name } => language.len() <= 0xFFFF && name.len()
            <= 0xFFFF && 4 + language.len() + name.len() <= 0xFFFF,
        ValueV::TextWithoutLanguage(d) => d.len() <= 0xFFFF,
        ValueV::NameWithoutLanguage(d) => d.len() <= 0xFFFF,
        ValueV::Keyword(d) => d.len() <= 0xFFFF,
        ValueV::Uri(d) => d.len() <= 0xFFFF,
        ValueV::UriScheme(d) => d.len() <= 0xFFFF,
        ValueV::Charset(d) => d.len() <= 0xFFFF,
        ValueV::NaturalLanguage(d) => d.len() <= 0xFFFF,
        ValueV::MimeMediaType(d) => d.len() <= 0xFFFF,
        ValueV::MemberAttrName(d) => d.len() <= 0xFFFF,
        ValueV::Collection(ms) => wf_members(ms),
        ValueV::Other { tag, data } => data.len() <= 0xFFFF && !spec_tag_known(tag) && tag >= 0x10,
    }
}

/// Well-formedness of a collection member list.
pub open spec fn wf_members(ms: Seq<MemberV>) -> bool
    decreases ms,
{
    if ms.len() == 0 {
        true
    } else {
        wf_member(ms[0]) && wf_members(ms.drop_first())
    }
}

/// Well-formedness of one collection member.
pub open spec fn wf_member(m: MemberV) -> bool
    decreases m,
{
    m.name.len() <= 0xFFFF && wf_value(m.value)
}

} // verus!
