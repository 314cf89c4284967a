//! The serializer half of the codec: spec functions giving the exact byte
//! sequence of every value, attribute and group, executable well-formedness
//! checks, and writers proved to emit exactly those bytes.

use vstd::prelude::*;

use crate::attribute::{
    attrs_view, wf_attr, wf_attrs, wf_group, wf_groups, wf_values, AttrV, GroupV,
    IppAttribute, IppGroup,
};
use crate::value::{
    lemma_members_view, lemma_values_view, member_view, members_view, spec_tag_known,
    spec_value_tag, value_view, values_view, wf_member, wf_members, wf_value, IppMember,
    IppValue, MemberV, ValueV, TAG_BEG_COLLECTION, TAG_END_COLLECTION, TAG_MEMBER_ATTR_NAME,
};
use crate::wire;

verus! {

/// One wire entry: value tag, two-byte name length, name bytes, two-byte
/// value length, value bytes.
pub open spec fn enc_raw(tag: u8, name: Seq<u8>, data: Seq<u8>) -> Seq<u8> {
    seq![tag] + wire::spec_u16_be(name.len() as u16) + name + wire::spec_u16_be(
        data.len() as u16,
    ) + data
}

/// The value bytes of a non-collection value (a collection's entry carries
/// no value bytes; its members follow as further entries).
pub open spec fn enc_value_data(v: ValueV) -> Seq<u8> {
    match v {
        ValueV::Integer(i) => wire::spec_i32_be(i),
        ValueV::Boolean(b) => seq![(if b { 1u8 } else { 0u8 })],
        ValueV::Enum(i) => wire::spec_i32_be(i),
        ValueV::OctetString(d) => d,
        ValueV::DateTime(d) => wire::spec_u16_be(d.year) + seq![
            d.month,
            d.day,
            d.hour,
            d.minutes,
            d.seconds,
            d.deciseconds,
            d.utc_dir,
            d.utc_hours,
            d.utc_minutes,
        ],
        ValueV::Resolution(r) => wire::spec_i32_be(r.xres) + wire::spec_i32_be(r.yres)
            + seq![r.units],
        ValueV::RangeOfInteger { low, high } => wire::spec_i32_be(low) + wire::spec_i32_be(high),
        ValueV::TextWithLanguage { language, text } => wire::spec_u16_be(language.len() as u16)
            + language + wire::spec_u16_be(text.len() as u16) + text,
        ValueV::NameWithLanguage { language, name } => wire::spec_u16_be(language.len() as u16)
            + language + wire::spec_u16_be(name.len() as u16) + name,
        ValueV::TextWithoutLanguage(d) => d,
        ValueV::NameWithoutLanguage(d) => d,
        ValueV::Keyword(d) => d,
        ValueV::Uri(d) => d,
        ValueV::UriScheme(d) => d,
        ValueV::Charset(d) => d,
        ValueV::NaturalLanguage(d) => d,
        ValueV::MimeMediaType(d) => d,
        ValueV::MemberAttrName(d) => d,
        ValueV::Collection(_) => Seq::empty(),
        ValueV::Other { data, .. } => data,
    }
}

/// The full wire encoding of one value under the given entry name: one entry
/// for a scalar value; for a collection, its entry followed by its member
/// entries and the end-collection entry.
pub open spec fn enc_value_entry(name: Seq<u8>, v: ValueV) -> Seq<u8>
    decreases v, 0int,
{
    match v {
        ValueV::Collection(ms) => enc_raw(TAG_BEG_COLLECTION, name, Seq::empty())
            + enc_members_from(ms, 0),
        _ => enc_raw(spec_value_tag(v), name, enc_value_data(v)),
    }
}

/// The wire encoding of a collection's members from index `i` on, ending
/// with the end-collection entry: each member is a member-attr-name entry
/// carrying the member's name, then the member's value entry with an empty
/// name.
pub open spec fn enc_members_from(ms: Seq<MemberV>, i: int) -> Seq<u8>
    decreases ms, ms.len() - i,
{
    if i < 0 || i >= ms.len() {
        enc_raw(TAG_END_COLLECTION, Seq::empty(), Seq::empty())
    } else {
        enc_raw(TAG_MEMBER_ATTR_NAME, Seq::empty(), ms[i].name) + enc_value_entry(
            Seq::empty(),
            ms[i].value,
        ) + enc_members_from(ms, i + 1)
    }
}

/// The 1setOf continuation entries: each further value under an empty name.
pub open spec fn enc_values_from(vs: Seq<ValueV>, i: int) -> Seq<u8>
    decreases vs.len() - i,
{
    if i < 0 || i >= vs.len() {
        Seq::empty()
    } else {
        enc_value_entry(Seq::empty(), vs[i]) + enc_values_from(vs, i + 1)
    }
}

/// The wire encoding of one attribute: the first value under the full name,
/// every further value as an empty-name continuation.
pub open spec fn enc_attr(a: AttrV) -> Seq<u8> {
    enc_value_entry(a.name, a.values[0]) + enc_values_from(a.values, 1)
}

/// The wire encoding of an attribute list from index `i` on.
pub open spec fn enc_attrs_from(attrs: Seq<AttrV>, i: int) -> Seq<u8>
    decreases attrs.len() - i,
{
    if i < 0 || i >= attrs.len() {
        Seq::empty()
    } else {
        enc_attr(attrs[i]) + enc_attrs_from(attrs, i + 1)
    }
}

/// The wire encoding of one group: its delimiter tag, then its attributes.
pub open spec fn enc_group(g: GroupV) -> Seq<u8> {
    seq![g.tag] + enc_attrs_from(g.attrs, 0)
}

/// The wire encoding of a group list from index `i` on.
pub open spec fn enc_groups_from(gs: Seq<GroupV>, i: int) -> Seq<u8>
    decreases gs.len() - i,
{
    if i < 0 || i >= gs.len() {
        Seq::empty()
    } else {
        enc_group(gs[i]) + enc_groups_from(gs, i + 1)
    }
}

// Index characterizations of the recursive well-formedness predicates.
pub proof fn lemma_wf_members_index(ms: Seq<MemberV>)
    ensures
        wf_members(ms) <==> (forall|j: int| 0 <= j < ms.len() ==> wf_member(#[trigger] ms[j])),
    decreases ms.len(),
{
    if ms.len() > 0 {
        lemma_wf_members_index(ms.drop_first());
        assert(forall|j: int|
            1 <= j < ms.len() ==> ms.drop_first()[j - 1] == #[trigger] ms[j]);
    }
}

pub proof fn lemma_wf_values_index(vs: Seq<ValueV>)
    ensures
        wf_values(vs) <==> (forall|j: int| 0 <= j < vs.len() ==> wf_value(#[trigger] vs[j])),
    decreases vs.len(),
{
    if vs.len() > 0 {
        lemma_wf_values_index(vs.drop_first());
        assert(forall|j: int|
            1 <= j < vs.len() ==> vs.drop_first()[j - 1] == #[trigger] vs[j]);
    }
}

pub proof fn lemma_wf_attrs_index(attrs: Seq<AttrV>)
    ensures
        wf_attrs(attrs) <==> (forall|j: int|
            0 <= j < attrs.len() ==> wf_attr(#[trigger] attrs[j])),
    decreases attrs.len(),
{
    if attrs.len() > 0 {
        lemma_wf_attrs_index(attrs.drop_first());
        assert(forall|j: int|
            1 <= j < attrs.len() ==> attrs.drop_first()[j - 1] == #[trigger] attrs[j]);
    }
}

pub proof fn lemma_wf_groups_index(gs: Seq<GroupV>)
    ensures
        wf_groups(gs) <==> (forall|j: int| 0 <= j < gs.len() ==> wf_group(#[trigger] gs[j])),
    decreases gs.len(),
{
    if gs.len() > 0 {
        lemma_wf_groups_index(gs.drop_first());
        assert(forall|j: int|
            1 <= j < gs.len() ==> gs.drop_first()[j - 1] == #[trigger] gs[j]);
    }
}

/// True of the tags this codec maps to a dedicated variant.
pub fn tag_is_known(tag: u8) -> (r: bool)
    ensures
        r == spec_tag_known(tag),
{
    (0x21 <= tag && tag <= 0x23) || (0x30 <= tag && tag <= 0x37) || (0x41 <= tag && tag <= 0x42)
        || (0x44 <= tag && tag <= 0x4A)
}

/// Checks that every member from index `i` on is well-formed.
fn check_members(ms: &Vec<IppMember>, i: usize) -> (r: bool)
    requires
        i <= ms@.len(),
    ensures
        r <==> (forall|j: int|
            i <= j < ms@.len() ==> wf_member(#[trigger] members_view(ms@)[j])),
    decreases *ms, ms@.len() - i,
{
    proof {
        lemma_members_view(ms@);
    }
    if i >= ms.len() {
        true
    } else if ms[i].name.len() <= 0xFFFF && check_value(&ms[i].value) {
        let r = check_members(ms, i + 1);
        proof {
            assert(members_view(ms@)[i as int] == member_view(ms@[i as int]));
            assert(wf_member(members_view(ms@)[i as int]));
        }
        r
    } else {
        proof {
            assert(members_view(ms@)[i as int] == member_view(ms@[i as int]));
            assert(!wf_member(members_view(ms@)[i as int]));
        }
        false
    }
}

/// Checks that a value is well-formed for encoding.
pub fn check_value(v: &IppValue) -> (r: bool)
    ensures
        r == wf_value(v@),
    decreases *v, 0int,
{
    match v {
        IppValue::Integer(_) => true,
        IppValue::Boolean(_) => true,
        IppValue::Enum(_) => true,
        IppValue::OctetString(d) => d.len() <= 0xFFFF,
        IppValue::DateTime(_) => true,
        IppValue::Resolution(_) => true,
        IppValue::RangeOfInteger { .. } => true,
        IppValue::TextWithLanguage { language, text } => language.len() <= 0xFFFF && text.len()
            <= 0xFFFF && 4 + language.len() + text.len() <= 0xFFFF,
        IppValue::NameWithLanguage { language, name } => language.len() <= 0xFFFF && name.len()
            <= 0xFFFF && 4 + language.len() + name.len() <= 0xFFFF,
        IppValue::TextWithoutLanguage(d) => d.len() <= 0xFFFF,
        IppValue::NameWithoutLanguage(d) => d.len() <= 0xFFFF,
        IppValue::Keyword(d) => d.len() <= 0xFFFF,
        IppValue::Uri(d) => d.len() <= 0xFFFF,
        IppValue::UriScheme(d) => d.len() <= 0xFFFF,
        IppValue::Charset(d) => d.len() <= 0xFFFF,
        IppValue::NaturalLanguage(d) => d.len() <= 0xFFFF,
        IppValue::MimeMediaType(d) => d.len() <= 0xFFFF,
        IppValue::MemberAttrName(d) => d.len() <= 0xFFFF,
        IppValue::Collection(ms) => {
            let r = check_members(ms, 0);
            proof {
                lemma_wf_members_index(members_view(ms@));
                lemma_members_view(ms@);
            }
            r
        },
        IppValue::Other { tag, data } => data.len() <= 0xFFFF && !tag_is_known(*tag) && *tag
            >= 0x10,
    }
}

/// Checks that every value from index `i` on is well-formed.
fn check_values(vs: &Vec<IppValue>, i: usize) -> (r: bool)
    requires
        i <= vs@.len(),
    ensures
        r <==> (forall|j: int| i <= j < vs@.len() ==> wf_value(#[trigger] values_view(vs@)[j])),
    decreases vs@.len() - i,
{
    proof {
        lemma_values_view(vs@);
    }
    if i >= vs.len() {
        true
    } else if check_value(&vs[i]) {
        let r = check_values(vs, i + 1);
        proof {
            assert(wf_value(values_view(vs@)[i as int]));
        }
        r
    } else {
        proof {
            assert(!wf_value(values_view(vs@)[i as int]));
        }
        false
    }
}

/// Checks that an attribute is well-formed for encoding.
pub fn check_attr(a: &IppAttribute) -> (r: bool)
    ensures
        r == wf_attr(a@),
{
    proof {
        lemma_wf_values_index(values_view(a.values@));
        lemma_values_view(a.values@);
    }
    1 <= a.name.len() && a.name.len() <= 0xFFFF && a.values.len() >= 1 && check_values(
        &a.values,
        0,
    )
}

/// Checks that every attribute from index `i` on is well-formed.
fn check_attrs(attrs: &Vec<IppAttribute>, i: usize) -> (r: bool)
    requires
        i <= attrs@.len(),
    ensures
        r <==> (forall|j: int|
            i <= j < attrs@.len() ==> wf_attr(#[trigger] attrs_view(attrs@)[j])),
    decreases attrs@.len() - i,
{
    proof {
        crate::attribute::lemma_attrs_view(attrs@);
    }
    if i >= attrs.len() {
        true
    } else if check_attr(&attrs[i]) {
        let r = check_attrs(attrs, i + 1);
        proof {
            assert(wf_attr(attrs_view(attrs@)[i as int]));
        }
        r
    } else {
        proof {
            assert(!wf_attr(attrs_view(attrs@)[i as int]));
        }
        false
    }
}

/// True of the bytes that open an attribute group.
pub fn group_tag_ok(tag: u8) -> (r: bool)
    ensures
        r == crate::attribute::spec_group_tag(tag),
{
    0x01 <= tag && tag <= 0x07 && tag != 0x03
}

/// Checks that every group from index `i` on is well-formed.
pub fn check_groups(gs: &Vec<IppGroup>, i: usize) -> (r: bool)
    requires
        i <= gs@.len(),
    ensures
        r <==> (forall|j: int|
            i <= j < gs@.len() ==> wf_group(#[trigger] crate::attribute::groups_view(gs@)[j])),
    decreases gs@.len() - i,
{
    proof {
        crate::attribute::lemma_groups_view(gs@);
    }
    if i >= gs.len() {
        true
    } else {
        proof {
            lemma_wf_attrs_index(attrs_view(gs@[i as int].attributes@));
            crate::attribute::lemma_attrs_view(gs@[i as int].attributes@);
        }
        if group_tag_ok(gs[i].tag) && check_attrs(&gs[i].attributes, 0) {
            let r = check_groups(gs, i + 1);
            proof {
                assert(wf_group(crate::attribute::groups_view(gs@)[i as int]));
            }
            r
        } else {
            proof {
                assert(!wf_group(crate::attribute::groups_view(gs@)[i as int]));
            }
            false
        }
    }
}

/// Appends one entry header and name: tag, name length, name, value length.
fn write_entry_header(out: &mut Vec<u8>, tag: u8, name: &Vec<u8>, dlen: usize)
    requires
        name@.len() <= 0xFFFF,
        dlen <= 0xFFFF,
    ensures
        final(out)@ == old(out)@ + seq![tag] + wire::spec_u16_be(name@.len() as u16) + name@
            + wire::spec_u16_be(dlen as u16),
{
    out.push(tag);
    wire::write_u16_be(out, name.len() as u16);
    out.extend_from_slice(name.as_slice());
    wire::write_u16_be(out, dlen as u16);
    assert(final(out)@ =~= old(out)@ + seq![tag] + wire::spec_u16_be(name@.len() as u16) + name@
        + wire::spec_u16_be(dlen as u16));
}

/// The byte length of a value's value field.
fn value_data_len(v: &IppValue) -> (r: usize)
    requires
        wf_value(v@),
    ensures
        r == enc_value_data(v@).len(),
        r <= 0xFFFF,
{
    match v {
        IppValue::Integer(_) => 4,
        IppValue::Boolean(_) => 1,
        IppValue::Enum(_) => 4,
        IppValue::OctetString(d) => d.len(),
        IppValue::DateTime(_) => 11,
        IppValue::Resolution(_) => 9,
        IppValue::RangeOfInteger { .. } => 8,
        IppValue::TextWithLanguage { language, text } => 4 + language.len() + text.len(),
        IppValue::NameWithLanguage { language, name } => 4 + language.len() + name.len(),
        IppValue::TextWithoutLanguage(d) => d.len(),
        IppValue::NameWithoutLanguage(d) => d.len(),
        IppValue::Keyword(d) => d.len(),
        IppValue::Uri(d) => d.len(),
        IppValue::UriScheme(d) => d.len(),
        IppValue::Charset(d) => d.len(),
        IppValue::NaturalLanguage(d) => d.len(),
        IppValue::MimeMediaType(d) => d.len(),
        IppValue::MemberAttrName(d) => d.len(),
        IppValue::Collection(_) => 0,
        IppValue::Other { data, .. } => data.len(),
    }
}

/// Appends the value bytes of a non-collection value; a collection appends
/// nothing here.
fn write_value_data(out: &mut Vec<u8>, v: &IppValue)
    requires
        wf_value(v@),
    ensures
        final(out)@ == old(out)@ + enc_value_data(v@),
{
    match v {
        IppValue::Integer(i) => wire::write_i32_be(out, *i),
        IppValue::Boolean(b) => {
            out.push(if *b { 1 } else { 0 });
            assert(final(out)@ =~= old(out)@ + enc_value_data(v@));
        },
        IppValue::Enum(i) => wire::write_i32_be(out, *i),
        IppValue::OctetString(d) => {
            out.extend_from_slice(d.as_slice());
        },
        IppValue::DateTime(d) => {
            wire::write_u16_be(out, d.year);
            out.push(d.month);
            out.push(d.day);
            out.push(d.hour);
            out.push(d.minutes);
            out.push(d.seconds);
            out.push(d.deciseconds);
            out.push(d.utc_dir);
            out.push(d.utc_hours);
            out.push(d.utc_minutes);
            assert(final(out)@ =~= old(out)@ + enc_value_data(v@));
        },
        IppValue::Resolution(r) => {
            wire::write_i32_be(out, r.xres);
            wire::write_i32_be(out, r.yres);
            out.push(r.units);
            assert(final(out)@ =~= old(out)@ + enc_value_data(v@));
        },
        IppValue::RangeOfInteger { low, high } => {
            wire::write_i32_be(out, *low);
            wire::write_i32_be(out, *high);
            assert(final(out)@ =~= old(out)@ + enc_value_data(v@));
        },
        IppValue::TextWithLanguage { language, text } => {
            wire::write_u16_be(out, language.len() as u16);
            out.extend_from_slice(language.as_slice());
            wire::write_u16_be(out, text.len() as u16);
            out.extend_from_slice(text.as_slice());
            assert(final(out)@ =~= old(out)@ + enc_value_data(v@));
        },
        IppValue::NameWithLanguage { language, name } => {
            wire::write_u16_be(out, language.len() as u16);
            out.extend_from_slice(language.as_slice());
            wire::write_u16_be(out, name.len() as u16);
            out.extend_from_slice(name.as_slice());
            assert(final(out)@ =~= old(out)@ + enc_value_data(v@));
        },
        IppValue::TextWithoutLanguage(d) => {
            out.extend_from_slice(d.as_slice());
        },
        IppValue::NameWithoutLanguage(d) => {
            out.extend_from_slice(d.as_slice());
        },
        IppValue::Keyword(d) => {
            out.extend_from_slice(d.as_slice());
        },
        IppValue::Uri(d) => {
            out.extend_from_slice(d.as_slice());
        },
        IppValue::UriScheme(d) => {
            out.extend_from_slice(d.as_slice());
        },
        IppValue::Charset(d) => {
            out.extend_from_slice(d.as_slice());
        },
        IppValue::NaturalLanguage(d) => {
            out.extend_from_slice(d.as_slice());
        },
        IppValue::MimeMediaType(d) => {
            out.extend_from_slice(d.as_slice());
        },
        IppValue::MemberAttrName(d) => {
            out.extend_from_slice(d.as_slice());
        },
        IppValue::Collection(_) => {
            assert(final(out)@ =~= old(out)@ + enc_value_data(v@));
        },
        IppValue::Other { data, .. } => {
            out.extend_from_slice(data.as_slice());
        },
    }
}

/// Appends the full wire encoding of one value under the given entry name.
pub fn write_value_entry(out: &mut Vec<u8>, name: &Vec<u8>, v: &IppValue)
    requires
        name@.len() <= 0xFFFF,
        wf_value(v@),
    ensures
        final(out)@ == old(out)@ + enc_value_entry(name@, v@),
    decreases *v, 0int,
{
    match v {
        IppValue::Collection(ms) => {
            proof {
                lemma_wf_members_index(members_view(ms@));
                lemma_members_view(ms@);
            }
            write_entry_header(out, TAG_BEG_COLLECTION, name, 0);
            write_members(out, ms, 0);
            assert(final(out)@ =~= old(out)@ + enc_value_entry(name@, v@));
        },
        _ => {
            let dlen = value_data_len(v);
            let tag = v.value_tag();
            write_entry_header(out, tag, name, dlen);
            write_value_data(out, v);
            assert(final(out)@ =~= old(out)@ + enc_value_entry(name@, v@));
        },
    }
}

/// Appends the member entries of a collection from index `i` on, then the
/// end-collection entry.
fn write_members(out: &mut Vec<u8>, ms: &Vec<IppMember>, i: usize)
    requires
        i <= ms@.len(),
        forall|j: int| i <= j < ms@.len() ==> wf_member(#[trigger] members_view(ms@)[j]),
    ensures
        final(out)@ == old(out)@ + enc_members_from(members_view(ms@), i as int),
    decreases *ms, ms@.len() - i,
{
    proof {
        lemma_members_view(ms@);
    }
    let empty_name: Vec<u8> = Vec::new();
    if i >= ms.len() {
        write_entry_header(out, TAG_END_COLLECTION, &empty_name, 0);
        assert(final(out)@ =~= old(out)@ + enc_members_from(members_view(ms@), i as int));
    } else {
        proof {
            assert(wf_member(members_view(ms@)[i as int]));
        }
        write_entry_header(out, TAG_MEMBER_ATTR_NAME, &empty_name, ms[i].name.len());
        out.extend_from_slice(ms[i].name.as_slice());
        write_value_entry(out, &empty_name, &ms[i].value);
        write_members(out, ms, i + 1);
        assert(final(out)@ =~= old(out)@ + enc_members_from(members_view(ms@), i as int));
    }
}

/// Appends the 1setOf continuation entries from index `i` on.
fn write_values_from(out: &mut Vec<u8>, vs: &Vec<IppValue>, i: usize)
    requires
        i <= vs@.len(),
        forall|j: int| i <= j < vs@.len() ==> wf_value(#[trigger] values_view(vs@)[j]),
    ensures
        final(out)@ == old(out)@ + enc_values_from(values_view(vs@), i as int),
    decreases vs@.len() - i,
{
    proof {
        lemma_values_view(vs@);
    }
    let empty_name: Vec<u8> = Vec::new();
    if i >= vs.len() {
        assert(final(out)@ =~= old(out)@ + enc_values_from(values_view(vs@), i as int));
    } else {
        proof {
            assert(wf_value(values_view(vs@)[i as int]));
        }
        write_value_entry(out, &empty_name, &vs[i]);
        write_values_from(out, vs, i + 1);
        assert(final(out)@ =~= old(out)@ + enc_values_from(values_view(vs@), i as int));
    }
}

/// Appends the wire encoding of one attribute.
pub fn write_attr(out: &mut Vec<u8>, a: &IppAttribute)
    requires
        wf_attr(a@),
    ensures
        final(out)@ == old(out)@ + enc_attr(a@),
{
    proof {
        lemma_values_view(a.values@);
        lemma_wf_values_index(values_view(a.values@));
    }
    assert(wf_value(values_view(a.values@)[0]));
    write_value_entry(out, &a.name, &a.values[0]);
    write_values_from(out, &a.values, 1);
    assert(final(out)@ =~= old(out)@ + enc_attr(a@));
}

/// Appends the wire encoding of the attributes from index `i` on.
fn write_attrs_from(out: &mut Vec<u8>, attrs: &Vec<IppAttribute>, i: usize)
    requires
        i <= attrs@.len(),
        forall|j: int| i <= j < attrs@.len() ==> wf_attr(#[trigger] attrs_view(attrs@)[j]),
    ensures
        final(out)@ == old(out)@ + enc_attrs_from(attrs_view(attrs@), i as int),
    decreases attrs@.len() - i,
{
    proof {
        crate::attribute::lemma_attrs_view(attrs@);
    }
    if i >= attrs.len() {
        assert(final(out)@ =~= old(out)@ + enc_attrs_from(attrs_view(attrs@), i as int));
    } else {
        proof {
            assert(wf_attr(attrs_view(attrs@)[i as int]));
            assert(attrs_view(attrs@)[i as int] == attrs@[i as int]@);
        }
        write_attr(out, &attrs[i]);
        write_attrs_from(out, attrs, i + 1);
        assert(final(out)@ =~= old(out)@ + enc_attrs_from(attrs_view(attrs@), i as int));
    }
}

/// Appends the wire encoding of one group.
pub fn write_group(out: &mut Vec<u8>, g: &IppGroup)
    requires
        wf_group(g@),
    ensures
        final(out)@ == old(out)@ + enc_group(g@),
{
    proof {
        lemma_wf_attrs_index(attrs_view(g.attributes@));
        crate::attribute::lemma_attrs_view(g.attributes@);
    }
    assert(forall|j: int|
        0 <= j < attrs_view(g.attributes@).len() ==> wf_attr(
            #[trigger] attrs_view(g.attributes@)[j],
        ));
    out.push(g.tag);
    write_attrs_from(out, &g.attributes, 0);
    assert(final(out)@ =~= old(out)@ + enc_group(g@));
}

/// Appends the wire encoding of the groups from index `i` on.
pub fn write_groups_from(out: &mut Vec<u8>, gs: &Vec<IppGroup>, i: usize)
    requires
        i <= gs@.len(),
        forall|j: int|
            i <= j < gs@.len() ==> wf_group(#[trigger] crate::attribute::groups_view(gs@)[j]),
    ensures
        final(out)@ == old(out)@ + enc_groups_from(crate::attribute::groups_view(gs@), i as int),
    decreases gs@.len() - i,
{
    proof {
        crate::attribute::lemma_groups_view(gs@);
    }
    if i >= gs.len() {
        assert(final(out)@ =~= old(out)@ + enc_groups_from(
            crate::attribute::groups_view(gs@),
            i as int,
        ));
    } else {
        proof {
            assert(wf_group(crate::attribute::groups_view(gs@)[i as int]));
            assert(crate::attribute::groups_view(gs@)[i as int] == gs@[i as int]@);
        }
        write_group(out, &gs[i]);
        write_groups_from(out, gs, i + 1);
        assert(final(out)@ =~= old(out)@ + enc_groups_from(
            crate::attribute::groups_view(gs@),
            i as int,
        ));
    }
}

} // verus!
