//! The parser half of the codec: spec functions giving the unique parse of a
//! byte stream into raw entries, values, collection members, attributes and
//! groups, and an executable parser proved to return exactly that parse.

use vstd::prelude::*;

use crate::attribute::{spec_group_tag, AttrV, GroupV, IppAttribute, IppGroup};
use crate::value::{
    member_view, members_view, value_view, IppDateTime, IppMember, IppResolution, IppValue,
    MemberV, ValueV, TAG_BEG_COLLECTION, TAG_BOOLEAN, TAG_CHARSET, TAG_DATE_TIME,
    TAG_END_COLLECTION, TAG_END_OF_ATTRIBUTES, TAG_ENUM, TAG_INTEGER, TAG_KEYWORD,
    TAG_MEMBER_ATTR_NAME, TAG_MIME_MEDIA_TYPE, TAG_NAME_WITHOUT_LANGUAGE,
    TAG_NAME_WITH_LANGUAGE, TAG_NATURAL_LANGUAGE, TAG_OCTET_STRING, TAG_RANGE_OF_INTEGER,
    TAG_RESOLUTION, TAG_TEXT_WITHOUT_LANGUAGE, TAG_TEXT_WITH_LANGUAGE, TAG_URI, TAG_URI_SCHEME,
};
use crate::wire;
use crate::IppError;

verus! {

/// One raw wire entry: its tag, name bytes, value bytes, and the position
/// one past its last byte.
#[verifier::ext_equal]
pub struct RawV {
    pub tag: u8,
    pub name: Seq<u8>,
    pub data: Seq<u8>,
    pub end: int,
}

/// The unique raw entry at `pos`, or `None` when the data ends too early.
pub open spec fn sp_raw(b: Seq<u8>, pos: int) -> Option<RawV> {
    if pos < 0 || pos + 3 > b.len() {
        None
    } else {
        let nl = wire::spec_u16_from_be(b[pos + 1], b[pos + 2]) as int;
        if pos + 5 + nl > b.len() {
            None
        } else {
            let dl = wire::spec_u16_from_be(b[pos + 3 + nl], b[pos + 4 + nl]) as int;
            if pos + 5 + nl + dl > b.len() {
                None
            } else {
                Some(
                    RawV {
                        tag: b[pos],
                        name: b.subrange(pos + 3, pos + 3 + nl),
                        data: b.subrange(pos + 5 + nl, pos + 5 + nl + dl),
                        end: pos + 5 + nl + dl,
                    },
                )
            }
        }
    }
}

/// The value a non-collection entry's bytes decode to: `None` when a
/// fixed-size length disagrees, a boolean byte is out of range, a
/// with-language value's inner lengths disagree, a collection delimiter
/// strays outside a collection, or the tag is a delimiter.
pub open spec fn sp_value(tag: u8, d: Seq<u8>) -> Option<ValueV> {
    if tag == TAG_INTEGER {
        if d.len() == 4 {
            Some(ValueV::Integer(wire::spec_i32_from_be(d[0], d[1], d[2], d[3])))
        } else {
            None
        }
    } else if tag == TAG_BOOLEAN {
        if d.len() == 1 && (d[0] == 0 || d[0] == 1) {
            Some(ValueV::Boolean(d[0] == 1))
        } else {
            None
        }
    } else if tag == TAG_ENUM {
        if d.len() == 4 {
            Some(ValueV::Enum(wire::spec_i32_from_be(d[0], d[1], d[2], d[3])))
        } else {
            None
        }
    } else if tag == TAG_OCTET_STRING {
        Some(ValueV::OctetString(d))
    } else if tag == TAG_DATE_TIME {
        if d.len() == 11 {
            Some(
                ValueV::DateTime(
                    IppDateTime {
                        year: wire::spec_u16_from_be(d[0], d[1]),
                        month: d[2],
                        day: d[3],
                        hour: d[4],
                        minutes: d[5],
                        seconds: d[6],
                        deciseconds: d[7],
                        utc_dir: d[8],
                        utc_hours: d[9],
                        utc_minutes: d[10],
                    },
                ),
            )
        } else {
            None
        }
    } else if tag == TAG_RESOLUTION {
        if d.len() == 9 {
            Some(
                ValueV::Resolution(
                    IppResolution {
                        xres: wire::spec_i32_from_be(d[0], d[1], d[2], d[3]),
                        yres: wire::spec_i32_from_be(d[4], d[5], d[6], d[7]),
                        units: d[8],
                    },
                ),
            )
        } else {
            None
        }
    } else if tag == TAG_RANGE_OF_INTEGER {
        if d.len() == 8 {
            Some(
                ValueV::RangeOfInteger {
                    low: wire::spec_i32_from_be(d[0], d[1], d[2], d[3]),
                    high: wire::spec_i32_from_be(d[4], d[5], d[6], d[7]),
                },
            )
        } else {
            None
        }
    } else if tag == TAG_TEXT_WITH_LANGUAGE || tag == TAG_NAME_WITH_LANGUAGE {
        if d.len() < 2 {
            None
        } else {
            let ll = wire::spec_u16_from_be(d[0], d[1]) as int;
            if 4 + ll > d.len() {
                None
            } else {
                let tl = wire::spec_u16_from_be(d[2 + ll], d[3 + ll]) as int;
                if 4 + ll + tl != d.len() {
                    None
                } else if tag == TAG_TEXT_WITH_LANGUAGE {
                    Some(
                        ValueV::TextWithLanguage {
                            language: d.subrange(2, 2 + ll),
                            text: d.subrange(4 + ll, 4 + ll + tl),
                        },
                    )
                } else {
                    Some(
                        ValueV::NameWithLanguage {
                            language: d.subrange(2, 2 + ll),
                            name: d.subrange(4 + ll, 4 + ll + tl),
                        },
                    )
                }
            }
        }
    } else if tag == TAG_TEXT_WITHOUT_LANGUAGE {
        Some(ValueV::TextWithoutLanguage(d))
    } else if tag == TAG_NAME_WITHOUT_LANGUAGE {
        Some(ValueV::NameWithoutLanguage(d))
    } else if tag == TAG_KEYWORD {
        Some(ValueV::Keyword(d))
    } else if tag == TAG_URI {
        Some(ValueV::Uri(d))
    } else if tag == TAG_URI_SCHEME {
        Some(ValueV::UriScheme(d))
    } else if tag == TAG_CHARSET {
        Some(ValueV::Charset(d))
    } else if tag == TAG_NATURAL_LANGUAGE {
        Some(ValueV::NaturalLanguage(d))
    } else if tag == TAG_MIME_MEDIA_TYPE {
        Some(ValueV::MimeMediaType(d))
    } else if tag == TAG_MEMBER_ATTR_NAME {
        Some(ValueV::MemberAttrName(d))
    } else if tag == TAG_BEG_COLLECTION || tag == TAG_END_COLLECTION {
        None
    } else if tag >= 0x10 {
        Some(ValueV::Other { tag, data: d })
    } else {
        None
    }
}

/// The members of a collection from `pos` up to and including its
/// end-collection entry, and the position after that entry. Each member is
/// a member-attr-name entry carrying the member's name, then its value
/// entry (a nested collection recursing through its own member entries).
pub open spec fn sp_members(b: Seq<u8>, pos: int) -> Option<(Seq<MemberV>, int)>
    decreases b.len() - pos,
{
    match sp_raw(b, pos) {
        None => None,
        Some(raw) => {
            if raw.tag == TAG_END_COLLECTION {
                Some((Seq::empty(), raw.end))
            } else if raw.tag == TAG_MEMBER_ATTR_NAME && raw.name.len() == 0 {
                match sp_raw(b, raw.end) {
                    None => None,
                    Some(vraw) => {
                        if vraw.name.len() != 0 {
                            None
                        } else if vraw.tag == TAG_BEG_COLLECTION {
                            match sp_members(b, vraw.end) {
                                None => None,
                                Some((inner, p2)) => {
                                    if p2 <= vraw.end || p2 > b.len() {
                                        None
                                    } else {
                                        match sp_members(b, p2) {
                                            None => None,
                                            Some((rest, p3)) => Some(
                                                (
                                                    seq![
                                                        MemberV {
                                                            name: raw.data,
                                                            value: ValueV::Collection(inner),
                                                        },
                                                    ] + rest,
                                                    p3,
                                                ),
                                            ),
                                        }
                                    }
                                },
                            }
                        } else {
                            match sp_value(vraw.tag, vraw.data) {
                                None => None,
                                Some(v) => match sp_members(b, vraw.end) {
                                    None => None,
                                    Some((rest, p3)) => Some(
                                        (seq![MemberV { name: raw.data, value: v }] + rest, p3),
                                    ),
                                },
                            }
                        }
                    },
                }
            } else {
                None
            }
        },
    }
}

/// Adds a parsed value to the attribute list under construction: a
/// non-empty name starts a new attribute; an empty name continues the last
/// one, and is malformed when there is none.
pub open spec fn sp_push_value(acc: Seq<AttrV>, name: Seq<u8>, v: ValueV) -> Option<Seq<AttrV>> {
    if name.len() > 0 {
        Some(acc.push(AttrV { name, values: seq![v] }))
    } else if acc.len() > 0 {
        let last = acc[acc.len() - 1];
        Some(acc.update(acc.len() - 1, AttrV { name: last.name, values: last.values.push(v) }))
    } else {
        None
    }
}

/// The attributes of one group body from `pos` up to (not consuming) the
/// next delimiter byte, appended to `acc`, and that delimiter's position.
pub open spec fn sp_attrs(b: Seq<u8>, pos: int, acc: Seq<AttrV>) -> Option<(Seq<AttrV>, int)>
    decreases b.len() - pos,
{
    if pos < 0 || pos >= b.len() {
        None
    } else if b[pos] < 0x10 {
        Some((acc, pos))
    } else {
        match sp_raw(b, pos) {
            None => None,
            Some(raw) => {
                if raw.tag == TAG_BEG_COLLECTION {
                    match sp_members(b, raw.end) {
                        None => None,
                        Some((inner, p2)) => {
                            if p2 <= raw.end || p2 > b.len() {
                                None
                            } else {
                                match sp_push_value(acc, raw.name, ValueV::Collection(inner)) {
                                    None => None,
                                    Some(acc2) => sp_attrs(b, p2, acc2),
                                }
                            }
                        },
                    }
                } else {
                    match sp_value(raw.tag, raw.data) {
                        None => None,
                        Some(v) => match sp_push_value(acc, raw.name, v) {
                            None => None,
                            Some(acc2) => sp_attrs(b, raw.end, acc2),
                        },
                    }
                }
            },
        }
    }
}

/// The groups from `pos` up to and including the end-of-attributes byte,
/// appended to `acc`, and the position after that byte.
pub open spec fn sp_groups(b: Seq<u8>, pos: int, acc: Seq<GroupV>) -> Option<(Seq<GroupV>, int)>
    decreases b.len() - pos,
{
    if pos < 0 || pos >= b.len() {
        None
    } else if b[pos] == TAG_END_OF_ATTRIBUTES {
        Some((acc, pos + 1))
    } else if spec_group_tag(b[pos]) {
        match sp_attrs(b, pos + 1, Seq::empty()) {
            None => None,
            Some((attrs, p2)) => {
                if p2 < pos + 1 || p2 > b.len() {
                    None
                } else {
                    sp_groups(b, p2, acc.push(GroupV { tag: b[pos], attrs }))
                }
            },
        }
    } else {
        None
    }
}

pub proof fn lemma_sp_raw_advance(b: Seq<u8>, pos: int)
    ensures
        sp_raw(b, pos) matches Some(raw) ==> pos + 5 <= raw.end <= b.len(),
{
}

pub proof fn lemma_sp_members_advance(b: Seq<u8>, pos: int)
    ensures
        sp_members(b, pos) matches Some(r) ==> pos + 5 <= r.1 <= b.len(),
    decreases b.len() - pos,
{
    if sp_members(b, pos) is Some {
        let raw = sp_raw(b, pos).unwrap();
        lemma_sp_raw_advance(b, pos);
        if raw.tag == TAG_END_COLLECTION {
        } else {
            let vraw = sp_raw(b, raw.end).unwrap();
            lemma_sp_raw_advance(b, raw.end);
            if vraw.tag == TAG_BEG_COLLECTION {
                let (inner, p2) = sp_members(b, vraw.end).unwrap();
                lemma_sp_members_advance(b, vraw.end);
                lemma_sp_members_advance(b, p2);
            } else {
                lemma_sp_members_advance(b, vraw.end);
            }
        }
    }
}

pub proof fn lemma_sp_attrs_advance(b: Seq<u8>, pos: int, acc: Seq<AttrV>)
    ensures
        sp_attrs(b, pos, acc) matches Some(r) ==> pos <= r.1 <= b.len(),
    decreases b.len() - pos,
{
    if sp_attrs(b, pos, acc) is Some {
        if pos < b.len() && b[pos] >= 0x10 {
            let raw = sp_raw(b, pos).unwrap();
            lemma_sp_raw_advance(b, pos);
            if raw.tag == TAG_BEG_COLLECTION {
                let (inner, p2) = sp_members(b, raw.end).unwrap();
                let acc2 = sp_push_value(acc, raw.name, ValueV::Collection(inner)).unwrap();
                lemma_sp_attrs_advance(b, p2, acc2);
            } else {
                let v = sp_value(raw.tag, raw.data).unwrap();
                let acc2 = sp_push_value(acc, raw.name, v).unwrap();
                lemma_sp_attrs_advance(b, raw.end, acc2);
            }
        }
    }
}

pub proof fn lemma_sp_groups_advance(b: Seq<u8>, pos: int, acc: Seq<GroupV>)
    ensures
        sp_groups(b, pos, acc) matches Some(r) ==> pos < r.1 <= b.len(),
    decreases b.len() - pos,
{
    if sp_groups(b, pos, acc) is Some {
        if 0 <= pos < b.len() && b[pos] != TAG_END_OF_ATTRIBUTES && spec_group_tag(b[pos]) {
            let (attrs, p2) = sp_attrs(b, pos + 1, Seq::empty()).unwrap();
            lemma_sp_groups_advance(b, p2, acc.push(GroupV { tag: b[pos], attrs }));
        }
    }
}

/// Copies `len` bytes of `data` starting at `pos` into an owned vector.
fn read_bytes(data: &[u8], pos: usize, len: usize) -> (r: Vec<u8>)
    requires
        pos + len <= data@.len(),
    ensures
        r@ == data@.subrange(pos as int, pos + len),
{
    proof {
        vstd::slice::axiom_spec_len(data);
        assert(vstd::slice::spec_slice_len(data) == data@.len());
    }
    let s = vstd::slice::slice_subrange(data, pos, pos + len);
    vstd::slice::slice_to_vec(s)
}

/// Reads the raw entry at `pos`, or `MalformedStream` when the data ends
/// too early.
fn parse_raw(data: &[u8], pos: usize) -> (r: Result<(u8, Vec<u8>, Vec<u8>, usize), IppError>)
    ensures
        match r {
            Ok((tag, name, dbytes, end)) => sp_raw(data@, pos as int) matches Some(raw)
                && raw.tag == tag && raw.name == name@ && raw.data == dbytes@ && raw.end
                == end as int,
            Err(e) => sp_raw(data@, pos as int) is None && e == IppError::MalformedStream,
        },
{
    let n = data.len();
    if pos >= n || n - pos < 3 {
        return Err(IppError::MalformedStream);
    }
    let tag = data[pos];
    let nl = wire::read_u16_be(data, pos + 1) as usize;
    if n - pos < 5 || n - pos - 5 < nl {
        return Err(IppError::MalformedStream);
    }
    let name = read_bytes(data, pos + 3, nl);
    let dl = wire::read_u16_be(data, pos + 3 + nl) as usize;
    if n - pos - 5 - nl < dl {
        return Err(IppError::MalformedStream);
    }
    let dbytes = read_bytes(data, pos + 5 + nl, dl);
    Ok((tag, name, dbytes, pos + 5 + nl + dl))
}

/// Decodes a non-collection entry's value bytes, or `MalformedStream` when
/// `sp_value` refuses them.
fn parse_value(tag: u8, d: Vec<u8>) -> (r: Result<IppValue, IppError>)
    ensures
        match r {
            Ok(v) => sp_value(tag, d@) == Some(value_view(v)),
            Err(e) => sp_value(tag, d@) is None && e == IppError::MalformedStream,
        },
{
    if tag == TAG_INTEGER {
        if d.len() == 4 {
            Ok(IppValue::Integer(wire::read_i32_be(d.as_slice(), 0)))
        } else {
            Err(IppError::MalformedStream)
        }
    } else if tag == TAG_BOOLEAN {
        if d.len() == 1 && (d[0] == 0 || d[0] == 1) {
            Ok(IppValue::Boolean(d[0] == 1))
        } else {
            Err(IppError::MalformedStream)
        }
    } else if tag == TAG_ENUM {
        if d.len() == 4 {
            Ok(IppValue::Enum(wire::read_i32_be(d.as_slice(), 0)))
        } else {
            Err(IppError::MalformedStream)
        }
    } else if tag == TAG_OCTET_STRING {
        Ok(IppValue::OctetString(d))
    } else if tag == TAG_DATE_TIME {
        if d.len() == 11 {
            Ok(
                IppValue::DateTime(
                    IppDateTime {
                        year: wire::read_u16_be(d.as_slice(), 0),
                        month: d[2],
                        day: d[3],
                        hour: d[4],
                        minutes: d[5],
                        seconds: d[6],
                        deciseconds: d[7],
                        utc_dir: d[8],
                        utc_hours: d[9],
                        utc_minutes: d[10],
                    },
                ),
            )
        } else {
            Err(IppError::MalformedStream)
        }
    } else if tag == TAG_RESOLUTION {
        if d.len() == 9 {
            Ok(
                IppValue::Resolution(
                    IppResolution {
                        xres: wire::read_i32_be(d.as_slice(), 0),
                        yres: wire::read_i32_be(d.as_slice(), 4),
                        units: d[8],
                    },
                ),
            )
        } else {
            Err(IppError::MalformedStream)
        }
    } else if tag == TAG_RANGE_OF_INTEGER {
        if d.len() == 8 {
            Ok(
                IppValue::RangeOfInteger {
                    low: wire::read_i32_be(d.as_slice(), 0),
                    high: wire::read_i32_be(d.as_slice(), 4),
                },
            )
        } else {
            Err(IppError::MalformedStream)
        }
    } else if tag == TAG_TEXT_WITH_LANGUAGE || tag == TAG_NAME_WITH_LANGUAGE {
        let n = d.len();
        if n < 2 {
            return Err(IppError::MalformedStream);
        }
        let ll = wire::read_u16_be(d.as_slice(), 0) as usize;
        if n < 4 || n - 4 < ll {
            return Err(IppError::MalformedStream);
        }
        let tl = wire::read_u16_be(d.as_slice(), 2 + ll) as usize;
        if 4 + ll + tl != n {
            return Err(IppError::MalformedStream);
        }
        let language = read_bytes(d.as_slice(), 2, ll);
        let body = read_bytes(d.as_slice(), 4 + ll, tl);
        if tag == TAG_TEXT_WITH_LANGUAGE {
            Ok(IppValue::TextWithLanguage { language, text: body })
        } else {
            Ok(IppValue::NameWithLanguage { language, name: body })
        }
    } else if tag == TAG_TEXT_WITHOUT_LANGUAGE {
        Ok(IppValue::TextWithoutLanguage(d))
    } else if tag == TAG_NAME_WITHOUT_LANGUAGE {
        Ok(IppValue::NameWithoutLanguage(d))
    } else if tag == TAG_KEYWORD {
        Ok(IppValue::Keyword(d))
    } else if tag == TAG_URI {
        Ok(IppValue::Uri(d))
    } else if tag == TAG_URI_SCHEME {
        Ok(IppValue::UriScheme(d))
    } else if tag == TAG_CHARSET {
        Ok(IppValue::Charset(d))
    } else if tag == TAG_NATURAL_LANGUAGE {
        Ok(IppValue::NaturalLanguage(d))
    } else if tag == TAG_MIME_MEDIA_TYPE {
        Ok(IppValue::MimeMediaType(d))
    } else if tag == TAG_MEMBER_ATTR_NAME {
        Ok(IppValue::MemberAttrName(d))
    } else if tag == TAG_BEG_COLLECTION || tag == TAG_END_COLLECTION {
        Err(IppError::MalformedStream)
    } else if tag >= 0x10 {
        Ok(IppValue::Other { tag, data: d })
    } else {
        Err(IppError::MalformedStream)
    }
}

/// Parses a collection's members from `pos` through the end-collection
/// entry, returning them and the position after it.
fn parse_members(data: &[u8], pos: usize) -> (r: Result<(Vec<IppMember>, usize), IppError>)
    ensures
        match r {
            Ok((ms, p)) => sp_members(data@, pos as int) == Some(
                (members_view(ms@), p as int),
            ) && p <= data@.len(),
            Err(e) => sp_members(data@, pos as int) is None && e == IppError::MalformedStream,
        },
    decreases data@.len() - pos,
{
    let (tag, name, dbytes, end) = match parse_raw(data, pos) {
        Ok(x) => x,
        Err(e) => {
            return Err(e);
        },
    };
    if tag == TAG_END_COLLECTION {
        let ms: Vec<IppMember> = Vec::new();
        proof {
            assert(members_view(ms@) =~= Seq::<MemberV>::empty());
        }
        return Ok((ms, end));
    }
    if !(tag == TAG_MEMBER_ATTR_NAME && name.len() == 0) {
        return Err(IppError::MalformedStream);
    }
    let (vtag, vname, vdbytes, vend) = match parse_raw(data, end) {
        Ok(x) => x,
        Err(e) => {
            return Err(e);
        },
    };
    if vname.len() != 0 {
        return Err(IppError::MalformedStream);
    }
    if vtag == TAG_BEG_COLLECTION {
        let (inner, p2) = match parse_members(data, vend) {
            Ok(x) => x,
            Err(e) => {
                return Err(e);
            },
        };
        if p2 <= vend {
            return Err(IppError::MalformedStream);
        }
        let (mut rest, p3) = match parse_members(data, p2) {
            Ok(x) => x,
            Err(e) => {
                return Err(e);
            },
        };
        let m = IppMember { name: dbytes, value: IppValue::Collection(inner) };
        let ghost old_rest = rest@;
        rest.insert(0, m);
        proof {
            assert(rest@ =~= seq![m] + old_rest);
            lemma_members_view_cons(m, old_rest);
        }
        Ok((rest, p3))
    } else {
        let v = match parse_value(vtag, vdbytes) {
            Ok(x) => x,
            Err(e) => {
                return Err(e);
            },
        };
        let (mut rest, p3) = match parse_members(data, vend) {
            Ok(x) => x,
            Err(e) => {
                return Err(e);
            },
        };
        let m = IppMember { name: dbytes, value: v };
        let ghost old_rest = rest@;
        rest.insert(0, m);
        proof {
            assert(rest@ =~= seq![m] + old_rest);
            lemma_members_view_cons(m, old_rest);
        }
        Ok((rest, p3))
    }
}

proof fn lemma_members_view_cons(m: IppMember, s: Seq<IppMember>)
    ensures
        members_view(seq![m] + s) == seq![member_view(m)] + members_view(s),
{
    let s2 = seq![m] + s;
    assert(s2.len() > 0);
    assert(s2[0] == m);
    assert(s2.drop_first() =~= s);
}

/// Parses one group body from `pos` up to the next delimiter byte,
/// appending the attributes to `attrs`, and returns the delimiter's
/// position.
fn parse_attrs(data: &[u8], pos: usize, attrs: &mut Vec<IppAttribute>) -> (r: Result<
    usize,
    IppError,
>)
    ensures
        match r {
            Ok(p) => sp_attrs(data@, pos as int, crate::attribute::attrs_view(old(attrs)@))
                == Some((crate::attribute::attrs_view(final(attrs)@), p as int)) && p
                < data@.len(),
            Err(e) => sp_attrs(data@, pos as int, crate::attribute::attrs_view(old(attrs)@))
                is None && e == IppError::MalformedStream,
        },
    decreases data@.len() - pos,
{
    if pos >= data.len() {
        return Err(IppError::MalformedStream);
    }
    if data[pos] < 0x10 {
        return Ok(pos);
    }
    let (tag, name, dbytes, end) = match parse_raw(data, pos) {
        Ok(x) => x,
        Err(e) => {
            return Err(e);
        },
    };
    let (v, vpos) = if tag == TAG_BEG_COLLECTION {
        let (inner, p2) = match parse_members(data, end) {
            Ok(x) => x,
            Err(e) => {
                return Err(e);
            },
        };
        if p2 <= end {
            return Err(IppError::MalformedStream);
        }
        (IppValue::Collection(inner), p2)
    } else {
        let v = match parse_value(tag, dbytes) {
            Ok(x) => x,
            Err(e) => {
                return Err(e);
            },
        };
        (v, end)
    };
    let ghost acc = crate::attribute::attrs_view(attrs@);
    if name.len() > 0 {
        let a = IppAttribute::from_raw(name, v);
        proof {
            crate::attribute::lemma_attrs_view_push(attrs@, a);
        }
        attrs.push(a);
    } else {
        let mut a = match attrs.pop() {
            Some(a) => a,
            None => {
                return Err(IppError::MalformedStream);
            },
        };
        let ghost popped = attrs@;
        a.push_value(v);
        attrs.push(a);
        proof {
            crate::attribute::lemma_attrs_view_push(popped, a);
            crate::attribute::lemma_attrs_view(old(attrs)@);
            crate::attribute::lemma_attrs_view(attrs@);
            assert(crate::attribute::attrs_view(attrs@) =~= sp_push_value(
                acc,
                name@,
                value_view(v),
            ).unwrap());
        }
    }
    parse_attrs(data, vpos, attrs)
}

/// Parses the groups from `pos` through the end-of-attributes byte,
/// appending them to `groups`, and returns the position after it.
pub fn parse_groups(data: &[u8], pos: usize, groups: &mut Vec<IppGroup>) -> (r: Result<
    usize,
    IppError,
>)
    ensures
        match r {
            Ok(p) => sp_groups(data@, pos as int, crate::attribute::groups_view(old(groups)@))
                == Some((crate::attribute::groups_view(final(groups)@), p as int)) && p
                <= data@.len(),
            Err(e) => sp_groups(data@, pos as int, crate::attribute::groups_view(old(groups)@))
                is None && e == IppError::MalformedStream,
        },
    decreases data@.len() - pos,
{
    if pos >= data.len() {
        return Err(IppError::MalformedStream);
    }
    let t = data[pos];
    if t == TAG_END_OF_ATTRIBUTES {
        return Ok(pos + 1);
    }
    if !crate::codec::group_tag_ok(t) {
        return Err(IppError::MalformedStream);
    }
    let mut attrs: Vec<IppAttribute> = Vec::new();
    proof {
        assert(crate::attribute::attrs_view(attrs@) =~= Seq::<AttrV>::empty());
    }
    let p2 = match parse_attrs(data, pos + 1, &mut attrs) {
        Ok(p) => p,
        Err(e) => {
            return Err(e);
        },
    };
    proof {
        lemma_sp_attrs_advance(data@, pos + 1, Seq::empty());
    }
    let g = IppGroup { tag: t, attributes: attrs };
    proof {
        crate::attribute::lemma_groups_view_push(groups@, g);
    }
    groups.push(g);
    parse_groups(data, p2, groups)
}

} // verus!
