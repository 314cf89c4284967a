//! The laws the codec obeys, stated and proved over the spec encoder and
//! the spec parser: every well-formed message round-trips through
//! serialize-then-parse unchanged, the 1setOf continuation convention
//! round-trips a multi-valued attribute, unknown tags are preserved
//! byte-identically, and the message framing keeps the header first, the
//! end-of-attributes byte after the groups, and the payload last.

use vstd::prelude::*;

use crate::attribute::{wf_attr, AttrV, GroupV};
use crate::codec::{
    enc_attr, enc_attrs_from, enc_groups_from, enc_members_from, enc_raw, enc_value_data,
    enc_value_entry, enc_values_from, lemma_wf_attrs_index, lemma_wf_groups_index,
};
use crate::parser::{sp_attrs, sp_groups, sp_members, sp_push_value, sp_raw, sp_value, RawV};
use crate::value::{
    spec_tag_known, spec_value_tag, wf_member, wf_value, MemberV, ValueV, TAG_BEG_COLLECTION,
    TAG_END_COLLECTION, TAG_END_OF_ATTRIBUTES, TAG_MEMBER_ATTR_NAME,
};
use crate::wire;

verus! {

/// A subrange equal to a concatenation splits into subranges equal to the
/// parts.
pub proof fn lemma_subrange_split(b: Seq<u8>, pos: int, x: Seq<u8>, y: Seq<u8>)
    requires
        0 <= pos,
        pos + x.len() + y.len() <= b.len(),
        b.subrange(pos, pos + x.len() + y.len()) == x + y,
    ensures
        b.subrange(pos, pos + x.len()) == x,
        b.subrange(pos + x.len(), pos + x.len() + y.len()) == y,
{
    let whole = b.subrange(pos, pos + x.len() + y.len());
    assert(b.subrange(pos, pos + x.len()) =~= x) by {
        assert forall|k: int| 0 <= k < x.len() implies b.subrange(pos, pos + x.len())[k]
            == x[k] by {
            assert(whole[k] == (x + y)[k]);
            assert((x + y)[k] == x[k]);
        }
    }
    assert(b.subrange(pos + x.len(), pos + x.len() + y.len()) =~= y) by {
        assert forall|k: int| 0 <= k < y.len() implies b.subrange(
            pos + x.len(),
            pos + x.len() + y.len(),
        )[k] == y[k] by {
            assert(whole[x.len() + k] == (x + y)[x.len() + k]);
            assert((x + y)[x.len() + k] == y[k]);
        }
    }
}

/// The bytes of one wire entry parse back to exactly its tag, name and
/// value bytes.
pub proof fn lemma_sp_raw_of_enc(b: Seq<u8>, pos: int, tag: u8, name: Seq<u8>, data: Seq<u8>)
    requires
        0 <= pos,
        name.len() <= 0xFFFF,
        data.len() <= 0xFFFF,
        pos + 5 + name.len() + data.len() <= b.len(),
        b.subrange(pos, pos + 5 + name.len() + data.len()) == enc_raw(tag, name, data),
    ensures
        sp_raw(b, pos) == Some(
            RawV { tag, name, data, end: pos + 5 + name.len() + data.len() },
        ),
{
    let nl = name.len() as int;
    let dl = data.len() as int;
    let ll = 5 + nl + dl;
    let e = enc_raw(tag, name, data);
    let nb = wire::spec_u16_be(name.len() as u16);
    let db = wire::spec_u16_be(data.len() as u16);
    assert(e == seq![tag] + nb + name + db + data);
    assert(e.len() == ll);
    assert forall|k: int| 0 <= k < ll implies b[pos + k] == e[k] by {
        assert(b.subrange(pos, pos + ll)[k] == b[pos + k]);
    }
    wire::lemma_u16_be_round(name.len() as u16);
    wire::lemma_u16_be_round(data.len() as u16);
    assert(e[0] == tag);
    assert(e[1] == nb[0] && e[2] == nb[1]);
    assert(wire::spec_u16_from_be(b[pos + 1], b[pos + 2]) == name.len() as u16);
    assert(forall|k: int| 0 <= k < nl ==> e[3 + k] == name[k]);
    assert(e[3 + nl] == db[0] && e[4 + nl] == db[1]);
    assert(wire::spec_u16_from_be(b[pos + 3 + nl], b[pos + 4 + nl]) == data.len() as u16);
    assert(forall|k: int| 0 <= k < dl ==> e[5 + nl + k] == data[k]);
    assert(b.subrange(pos + 3, pos + 3 + nl) =~= name);
    assert(b.subrange(pos + 5 + nl, pos + 5 + nl + dl) =~= data);
}

/// The value tag of a well-formed value is never a delimiter byte.
pub proof fn lemma_value_tag_high(v: ValueV)
    requires
        wf_value(v),
    ensures
        spec_value_tag(v) >= 0x10,
{
}

/// The value bytes of a well-formed non-collection value decode back to
/// exactly that value.
pub proof fn lemma_sp_value_of_enc(v: ValueV)
    requires
        wf_value(v),
        !(v is Collection),
    ensures
        sp_value(spec_value_tag(v), enc_value_data(v)) == Some(v),
{
    let d = enc_value_data(v);
    match v {
        ValueV::Integer(i) => {
            wire::lemma_i32_be_round(i);
        },
        ValueV::Boolean(bv) => {
        },
        ValueV::Enum(i) => {
            wire::lemma_i32_be_round(i);
        },
        ValueV::DateTime(dt) => {
            let yb = wire::spec_u16_be(dt.year);
            let rest = seq![
                dt.month,
                dt.day,
                dt.hour,
                dt.minutes,
                dt.seconds,
                dt.deciseconds,
                dt.utc_dir,
                dt.utc_hours,
                dt.utc_minutes,
            ];
            assert(d == yb + rest);
            assert(d.len() == 11);
            wire::lemma_u16_be_round(dt.year);
            assert(d[0] == yb[0] && d[1] == yb[1]);
            assert(d[2] == dt.month && d[3] == dt.day && d[4] == dt.hour && d[5] == dt.minutes
                && d[6] == dt.seconds && d[7] == dt.deciseconds && d[8] == dt.utc_dir && d[9]
                == dt.utc_hours && d[10] == dt.utc_minutes);
        },
        ValueV::Resolution(res) => {
            let xb = wire::spec_i32_be(res.xres);
            let yb = wire::spec_i32_be(res.yres);
            assert(d == xb + yb + seq![res.units]);
            assert(d.len() == 9);
            wire::lemma_i32_be_round(res.xres);
            wire::lemma_i32_be_round(res.yres);
            assert(d[0] == xb[0] && d[1] == xb[1] && d[2] == xb[2] && d[3] == xb[3]);
            assert(d[4] == yb[0] && d[5] == yb[1] && d[6] == yb[2] && d[7] == yb[3]);
            assert(d[8] == res.units);
        },
        ValueV::RangeOfInteger { low, high } => {
            let lb = wire::spec_i32_be(low);
            let hb = wire::spec_i32_be(high);
            assert(d == lb + hb);
            assert(d.len() == 8);
            wire::lemma_i32_be_round(low);
            wire::lemma_i32_be_round(high);
            assert(d[0] == lb[0] && d[1] == lb[1] && d[2] == lb[2] && d[3] == lb[3]);
            assert(d[4] == hb[0] && d[5] == hb[1] && d[6] == hb[2] && d[7] == hb[3]);
        },
        ValueV::TextWithLanguage { language, text } => {
            lemma_with_language_parses(language, text);
        },
        ValueV::NameWithLanguage { language, name } => {
            lemma_with_language_parses(language, name);
        },
        _ => {
        },
    }
}

/// The inner layout of a with-language value decodes back to its two byte
/// fields.
proof fn lemma_with_language_parses(language: Seq<u8>, body: Seq<u8>)
    requires
        language.len() <= 0xFFFF,
        body.len() <= 0xFFFF,
        4 + language.len() + body.len() <= 0xFFFF,
    ensures
        ({
            let d = wire::spec_u16_be(language.len() as u16) + language + wire::spec_u16_be(
                body.len() as u16,
            ) + body;
            let ll = language.len() as int;
            let tl = body.len() as int;
            d.len() == 4 + ll + tl && wire::spec_u16_from_be(d[0], d[1]) == language.len() as u16
                && wire::spec_u16_from_be(d[2 + ll], d[3 + ll]) == body.len() as u16
                && d.subrange(2, 2 + ll) == language && d.subrange(4 + ll, 4 + ll + tl) == body
        }),
{
    let lb = wire::spec_u16_be(language.len() as u16);
    let bb = wire::spec_u16_be(body.len() as u16);
    let d = lb + language + bb + body;
    let ll = language.len() as int;
    let tl = body.len() as int;
    wire::lemma_u16_be_round(language.len() as u16);
    wire::lemma_u16_be_round(body.len() as u16);
    assert(d[0] == lb[0] && d[1] == lb[1]);
    assert(forall|k: int| 0 <= k < ll ==> d[2 + k] == language[k]);
    assert(d[2 + ll] == bb[0] && d[3 + ll] == bb[1]);
    assert(forall|k: int| 0 <= k < tl ==> d[4 + ll + k] == body[k]);
    assert(d.subrange(2, 2 + ll) =~= language);
    assert(d.subrange(4 + ll, 4 + ll + tl) =~= body);
}

/// The value bytes of every well-formed value fit the 16-bit length field.
pub proof fn lemma_enc_value_data_len(v: ValueV)
    requires
        wf_value(v),
    ensures
        enc_value_data(v).len() <= 0xFFFF,
{
}

/// The encoding of a collection's remaining members is never empty: it
/// ends with the five-byte end-collection entry.
pub proof fn lemma_enc_members_len(ms: Seq<MemberV>, i: int)
    ensures
        enc_members_from(ms, i).len() >= 5,
{
    if i < 0 || i >= ms.len() {
        assert(enc_members_from(ms, i) == enc_raw(TAG_END_COLLECTION, Seq::empty(), Seq::empty()));
    } else {
        assert(enc_members_from(ms, i).len() >= enc_raw(
            TAG_MEMBER_ATTR_NAME,
            Seq::empty(),
            ms[i].name,
        ).len());
    }
}

/// One encoded value entry at `pos` parses as its raw entry; a simple
/// value's bytes decode back to it, and a collection's member entries
/// parse back to its members, ending exactly at the entry's end.
pub proof fn lemma_value_entry_consumed(b: Seq<u8>, pos: int, name: Seq<u8>, v: ValueV)
    requires
        0 <= pos,
        name.len() <= 0xFFFF,
        wf_value(v),
        pos + enc_value_entry(name, v).len() <= b.len(),
        b.subrange(pos, pos + enc_value_entry(name, v).len()) == enc_value_entry(name, v),
    ensures
        ({
            let r = sp_raw(b, pos);
            let ll = enc_value_entry(name, v).len() as int;
            &&& r is Some
            &&& r.unwrap().name == name
            &&& r.unwrap().tag == spec_value_tag(v)
            &&& match v {
                ValueV::Collection(ms) => {
                    &&& r.unwrap().end == pos + 5 + name.len()
                    &&& r.unwrap().end < pos + ll <= b.len()
                    &&& sp_members(b, r.unwrap().end) == Some((ms, pos + ll))
                },
                _ => {
                    &&& r.unwrap().end == pos + ll
                    &&& sp_value(r.unwrap().tag, r.unwrap().data) == Some(v)
                },
            }
        }),
    decreases v, 0int,
{
    match v {
        ValueV::Collection(ms) => {
            let head = enc_raw(TAG_BEG_COLLECTION, name, Seq::empty());
            let tail = enc_members_from(ms, 0);
            assert(enc_value_entry(name, v) == head + tail);
            lemma_subrange_split(b, pos, head, tail);
            lemma_sp_raw_of_enc(b, pos, TAG_BEG_COLLECTION, name, Seq::empty());
            crate::codec::lemma_wf_members_index(ms);
            lemma_members_consumed(b, pos + head.len(), ms, 0);
            lemma_enc_members_len(ms, 0);
            assert(ms.skip(0) =~= ms);
        },
        _ => {
            assert(enc_value_entry(name, v) == enc_raw(
                spec_value_tag(v),
                name,
                enc_value_data(v),
            ));
            lemma_enc_value_data_len(v);
            lemma_sp_raw_of_enc(b, pos, spec_value_tag(v), name, enc_value_data(v));
            lemma_sp_value_of_enc(v);
        },
    }
}

/// The encoded members of a collection from index `i` on parse back to
/// exactly those members, consuming through the end-collection entry.
pub proof fn lemma_members_consumed(b: Seq<u8>, pos: int, ms: Seq<MemberV>, i: int)
    requires
        0 <= pos,
        0 <= i <= ms.len(),
        forall|j: int| i <= j < ms.len() ==> wf_member(#[trigger] ms[j]),
        pos + enc_members_from(ms, i).len() <= b.len(),
        b.subrange(pos, pos + enc_members_from(ms, i).len()) == enc_members_from(ms, i),
    ensures
        sp_members(b, pos) == Some((ms.skip(i), pos + enc_members_from(ms, i).len())),
    decreases ms, ms.len() - i,
{
    if i >= ms.len() {
        lemma_sp_raw_of_enc(b, pos, TAG_END_COLLECTION, Seq::empty(), Seq::empty());
        assert(ms.skip(i) =~= Seq::<MemberV>::empty());
    } else {
        let nament = enc_raw(TAG_MEMBER_ATTR_NAME, Seq::empty(), ms[i].name);
        let vent = enc_value_entry(Seq::empty(), ms[i].value);
        let rest = enc_members_from(ms, i + 1);
        assert(enc_members_from(ms, i) == nament + vent + rest);
        assert(nament + vent + rest =~= nament + (vent + rest));
        lemma_subrange_split(b, pos, nament, vent + rest);
        let p1 = pos + nament.len();
        lemma_subrange_split(b, p1, vent, rest);
        assert(wf_member(ms[i]));
        lemma_sp_raw_of_enc(b, pos, TAG_MEMBER_ATTR_NAME, Seq::empty(), ms[i].name);
        lemma_value_entry_consumed(b, p1, Seq::empty(), ms[i].value);
        let p2 = p1 + vent.len();
        lemma_members_consumed(b, p2, ms, i + 1);
        assert(seq![ms[i]] + ms.skip(i + 1) =~= ms.skip(i));
        let raw = sp_raw(b, pos).unwrap();
        let vraw = sp_raw(b, p1).unwrap();
        match ms[i].value {
            ValueV::Collection(inner) => {
                assert(vraw.tag == TAG_BEG_COLLECTION);
                assert(sp_members(b, pos) == Some((ms.skip(i), pos + enc_members_from(
                    ms,
                    i,
                ).len())));
            },
            _ => {
                assert(vraw.tag != TAG_BEG_COLLECTION);
                assert(vraw.tag != TAG_END_COLLECTION && vraw.tag != TAG_MEMBER_ATTR_NAME || (
                vraw.tag == TAG_MEMBER_ATTR_NAME));
                assert(sp_members(b, pos) == Some((ms.skip(i), pos + enc_members_from(
                    ms,
                    i,
                ).len())));
            },
        }
    }
}

/// The encoded attributes of a group body from index `i` on, followed by a
/// delimiter byte, parse back to exactly those attributes appended to the
/// accumulator, stopping at the delimiter.
pub proof fn lemma_attrs_parse(b: Seq<u8>, pos: int, acc: Seq<AttrV>, attrs: Seq<AttrV>, i: int)
    requires
        0 <= pos,
        0 <= i <= attrs.len(),
        forall|j: int| i <= j < attrs.len() ==> wf_attr(#[trigger] attrs[j]),
        pos + enc_attrs_from(attrs, i).len() < b.len(),
        b.subrange(pos, pos + enc_attrs_from(attrs, i).len()) == enc_attrs_from(attrs, i),
        b[pos + enc_attrs_from(attrs, i).len()] < 0x10,
    ensures
        sp_attrs(b, pos, acc) == Some(
            (acc + attrs.skip(i), pos + enc_attrs_from(attrs, i).len()),
        ),
    decreases attrs.len() - i, 1int, 0int,
{
    if i >= attrs.len() {
        assert(enc_attrs_from(attrs, i).len() == 0);
        assert(acc + attrs.skip(i) =~= acc);
    } else {
        let a = attrs[i];
        assert(wf_attr(a));
        let first = enc_value_entry(a.name, a.values[0]);
        let conts = enc_values_from(a.values, 1);
        let rest = enc_attrs_from(attrs, i + 1);
        assert(enc_attrs_from(attrs, i) == (first + conts) + rest);
        assert((first + conts) + rest =~= first + (conts + rest));
        lemma_subrange_split(b, pos, first, conts + rest);
        crate::codec::lemma_wf_values_index(a.values);
        lemma_value_entry_consumed(b, pos, a.name, a.values[0]);
        lemma_value_tag_high(a.values[0]);
        let raw = sp_raw(b, pos).unwrap();
        assert(b[pos] == raw.tag);
        assert(b[pos] >= 0x10);
        let p1 = pos + first.len();
        assert(sp_push_value(acc, a.name, a.values[0]) == Some(
            acc.push(AttrV { name: a.name, values: seq![a.values[0]] }),
        ));
        assert(seq![a.values[0]] =~= a.values.take(1));
        assert(AttrV { name: a.name, values: seq![a.values[0]] } =~~= (AttrV {
            name: a.name,
            values: a.values.take(1),
        }));
        lemma_values_parse(b, p1, acc, attrs, i, 1);
    }
}

/// The 1setOf continuation entries of the attribute at index `i`, from its
/// `j`-th value on, followed by the remaining attributes and a delimiter,
/// parse back to the completed attribute list.
pub proof fn lemma_values_parse(
    b: Seq<u8>,
    pos: int,
    base: Seq<AttrV>,
    attrs: Seq<AttrV>,
    i: int,
    j: int,
)
    requires
        0 <= pos,
        0 <= i < attrs.len(),
        1 <= j <= attrs[i].values.len(),
        forall|k: int| i <= k < attrs.len() ==> wf_attr(#[trigger] attrs[k]),
        pos + (enc_values_from(attrs[i].values, j) + enc_attrs_from(attrs, i + 1)).len()
            < b.len(),
        b.subrange(
            pos,
            pos + (enc_values_from(attrs[i].values, j) + enc_attrs_from(attrs, i + 1)).len(),
        ) == enc_values_from(attrs[i].values, j) + enc_attrs_from(attrs, i + 1),
        b[pos + (enc_values_from(attrs[i].values, j) + enc_attrs_from(attrs, i + 1)).len()]
            < 0x10,
    ensures
        sp_attrs(
            b,
            pos,
            base.push(AttrV { name: attrs[i].name, values: attrs[i].values.take(j) }),
        ) == Some(
            (
                base + attrs.skip(i),
                pos + (enc_values_from(attrs[i].values, j) + enc_attrs_from(attrs, i + 1)).len(),
            ),
        ),
    decreases attrs.len() - i, 0int, attrs[i].values.len() - j,
{
    let vs = attrs[i].values;
    let acc = base.push(AttrV { name: attrs[i].name, values: vs.take(j) });
    if j >= vs.len() {
        assert(vs.take(j) =~= vs);
        assert(acc =~~= base.push(attrs[i]));
        assert(enc_values_from(vs, j) =~= Seq::<u8>::empty());
        assert(enc_values_from(vs, j) + enc_attrs_from(attrs, i + 1) =~= enc_attrs_from(
            attrs,
            i + 1,
        ));
        lemma_attrs_parse(b, pos, acc, attrs, i + 1);
        assert(base.push(attrs[i]) + attrs.skip(i + 1) =~= base + attrs.skip(i));
    } else {
        let first = enc_value_entry(Seq::empty(), vs[j]);
        let rest = enc_values_from(vs, j + 1) + enc_attrs_from(attrs, i + 1);
        assert(enc_values_from(vs, j) + enc_attrs_from(attrs, i + 1) =~= first + rest);
        lemma_subrange_split(b, pos, first, rest);
        crate::codec::lemma_wf_values_index(vs);
        lemma_value_entry_consumed(b, pos, Seq::empty(), vs[j]);
        lemma_value_tag_high(vs[j]);
        let raw = sp_raw(b, pos).unwrap();
        assert(b[pos] == raw.tag);
        assert(b[pos] >= 0x10);
        assert(acc.len() == base.len() + 1);
        assert(acc[acc.len() - 1] == AttrV { name: attrs[i].name, values: vs.take(j) });
        assert(vs.take(j).push(vs[j]) =~= vs.take(j + 1));
        assert(sp_push_value(acc, Seq::empty(), vs[j]) == Some(
            acc.update(
                acc.len() - 1,
                AttrV { name: attrs[i].name, values: vs.take(j).push(vs[j]) },
            ),
        ));
        assert(acc.update(
            acc.len() - 1,
            AttrV { name: attrs[i].name, values: vs.take(j).push(vs[j]) },
        ) =~~= base.push(AttrV { name: attrs[i].name, values: vs.take(j + 1) }));
        lemma_values_parse(b, pos + first.len(), base, attrs, i, j + 1);
    }
}

/// The encoded groups from index `i` on, followed by the
/// end-of-attributes byte, parse back to exactly those groups appended to
/// the accumulator, consuming that byte.
pub proof fn lemma_groups_parse(b: Seq<u8>, pos: int, acc: Seq<GroupV>, gs: Seq<GroupV>, i: int)
    requires
        0 <= pos,
        0 <= i <= gs.len(),
        forall|j: int| i <= j < gs.len() ==> crate::attribute::wf_group(#[trigger] gs[j]),
        pos + enc_groups_from(gs, i).len() < b.len(),
        b.subrange(pos, pos + enc_groups_from(gs, i).len()) == enc_groups_from(gs, i),
        b[pos + enc_groups_from(gs, i).len()] == TAG_END_OF_ATTRIBUTES,
    ensures
        sp_groups(b, pos, acc) == Some(
            (acc + gs.skip(i), pos + enc_groups_from(gs, i).len() + 1),
        ),
    decreases gs.len() - i,
{
    if i >= gs.len() {
        assert(enc_groups_from(gs, i).len() == 0);
        assert(acc + gs.skip(i) =~= acc);
    } else {
        let g = gs[i];
        assert(crate::attribute::wf_group(g));
        let ga = enc_attrs_from(g.attrs, 0);
        let rest = enc_groups_from(gs, i + 1);
        assert(enc_groups_from(gs, i) == (seq![g.tag] + ga) + rest);
        assert((seq![g.tag] + ga) + rest =~= seq![g.tag] + (ga + rest));
        lemma_subrange_split(b, pos, seq![g.tag], ga + rest);
        let p1 = pos + 1;
        lemma_subrange_split(b, p1, ga, rest);
        assert(b.subrange(pos, pos + 1)[0] == b[pos]);
        assert(b[pos] == g.tag);
        lemma_wf_attrs_index(g.attrs);
        // the byte after this group body is a delimiter: the next group's
        // tag, or the terminal end-of-attributes byte
        let pa = p1 + ga.len();
        if i + 1 < gs.len() {
            assert(crate::attribute::wf_group(gs[i + 1]));
            assert(enc_groups_from(gs, i + 1) == (seq![gs[i + 1].tag] + enc_attrs_from(
                gs[i + 1].attrs,
                0,
            )) + enc_groups_from(gs, i + 2));
            assert(rest[0] == gs[i + 1].tag);
            assert(b.subrange(pa, pa + rest.len())[0] == b[pa]);
            assert(b[pa] == gs[i + 1].tag);
            assert(b[pa] < 0x10);
        } else {
            assert(rest.len() == 0);
            assert(b[pa] == TAG_END_OF_ATTRIBUTES);
            assert(b[pa] < 0x10);
        }
        lemma_attrs_parse(b, p1, Seq::empty(), g.attrs, 0);
        assert(Seq::empty() + g.attrs.skip(0) =~= g.attrs);
        assert(GroupV { tag: b[pos], attrs: g.attrs } =~~= g);
        lemma_groups_parse(b, pa, acc.push(g), gs, i + 1);
        assert(acc.push(g) + gs.skip(i + 1) =~= acc + gs.skip(i));
    }
}

/// The round-trip law: every well-formed message, serialized and parsed
/// back, yields the same header, the same groups with attribute order
/// preserved in each and group order preserved overall, and the same
/// payload.
pub proof fn lemma_round_trip(m: crate::request::MsgV)
    requires
        crate::request::wf_msg(m),
    ensures
        crate::request::sp_msg(crate::request::enc_msg(m)) == Some(m),
{
    let b = crate::request::enc_msg(m);
    let hb = crate::spec_header_bytes(m.header);
    let gb = enc_groups_from(m.groups, 0);
    assert(b == (hb + gb + seq![TAG_END_OF_ATTRIBUTES]) + m.payload);
    assert(hb.len() == 8);
    let glen = gb.len() as int;
    let pend = 8 + glen + 1;
    assert(b.len() == pend + m.payload.len());
    // header bytes
    let vb = wire::spec_u16_be(m.header.version);
    let sb = wire::spec_u16_be(m.header.operation_status);
    let rb = wire::spec_u32_be(m.header.request_id);
    assert(hb == vb + sb + rb);
    assert(b[0] == vb[0] && b[1] == vb[1]);
    assert(b[2] == sb[0] && b[3] == sb[1]);
    assert(b[4] == rb[0] && b[5] == rb[1] && b[6] == rb[2] && b[7] == rb[3]);
    wire::lemma_u16_be_round(m.header.version);
    wire::lemma_u16_be_round(m.header.operation_status);
    wire::lemma_u32_be_round(m.header.request_id);
    assert(wire::spec_u16_from_be(b[0], b[1]) == m.header.version);
    assert(wire::spec_u16_from_be(b[2], b[3]) == m.header.operation_status);
    assert(wire::spec_u32_from_be(b[4], b[5], b[6], b[7]) == m.header.request_id);
    // group bytes
    assert(b.subrange(8, 8 + glen) =~= gb) by {
        assert forall|k: int| 0 <= k < glen implies b.subrange(8, 8 + glen)[k] == gb[k] by {
            assert(b[8 + k] == ((hb + gb + seq![TAG_END_OF_ATTRIBUTES]) + m.payload)[8 + k]);
        }
    }
    assert(b[8 + glen] == TAG_END_OF_ATTRIBUTES);
    lemma_wf_groups_index(m.groups);
    lemma_groups_parse(b, 8, Seq::empty(), m.groups, 0);
    assert(Seq::empty() + m.groups.skip(0) =~= m.groups);
    // payload bytes
    assert(b.subrange(pend, b.len() as int) =~= m.payload);
    // the parsed header equals the original
    assert(crate::request::sp_msg(b) == Some(m)) by {
        let got = crate::request::sp_msg(b).unwrap();
        assert(got.header == m.header);
        assert(got.groups == m.groups);
        assert(got.payload == m.payload);
        assert(got =~~= m);
    }
}

/// The 1setOf law: an attribute with N values serializes to one leading
/// entry carrying the full name and N - 1 continuation entries with an
/// empty name, and those entries parse back to a single attribute holding
/// the same N values in order.
pub proof fn lemma_one_set_of(a: AttrV)
    requires
        wf_attr(a),
    ensures
        enc_attr(a) == enc_value_entry(a.name, a.values[0]) + enc_values_from(a.values, 1),
        sp_attrs(
            enc_attr(a) + seq![TAG_END_OF_ATTRIBUTES],
            0,
            Seq::empty(),
        ) == Some((seq![a], enc_attr(a).len() as int)),
{
    let b = enc_attr(a) + seq![TAG_END_OF_ATTRIBUTES];
    let attrs = seq![a];
    assert(enc_attrs_from(attrs, 0) =~= enc_attr(a) + enc_attrs_from(attrs, 1));
    assert(enc_attrs_from(attrs, 1) =~= Seq::<u8>::empty());
    assert(enc_attrs_from(attrs, 0) =~= enc_attr(a));
    assert(b.subrange(0, enc_attr(a).len() as int) =~= enc_attr(a));
    assert(b[enc_attr(a).len() as int] == TAG_END_OF_ATTRIBUTES);
    assert(forall|j: int| 0 <= j < attrs.len() ==> wf_attr(#[trigger] attrs[j]));
    lemma_attrs_parse(b, 0, Seq::empty(), attrs, 0);
    assert(Seq::empty() + attrs.skip(0) =~= attrs);
}

/// The unknown-tag preservation law: any byte sequence shaped as an entry
/// with an unhandled tag parses into an `Other` value carrying the tag and
/// bytes verbatim, and that value re-serializes to the identical bytes.
pub proof fn lemma_unknown_tag_preserved(tag: u8, name: Seq<u8>, data: Seq<u8>)
    requires
        tag >= 0x10,
        !spec_tag_known(tag),
        1 <= name.len() <= 0xFFFF,
        data.len() <= 0xFFFF,
    ensures
        ({
            let a = AttrV { name, values: seq![ValueV::Other { tag, data }] };
            enc_attr(a) == enc_raw(tag, name, data) && sp_attrs(
                enc_raw(tag, name, data) + seq![TAG_END_OF_ATTRIBUTES],
                0,
                Seq::empty(),
            ) == Some((seq![a], enc_raw(tag, name, data).len() as int))
        }),
{
    let v = ValueV::Other { tag, data };
    let a = AttrV { name, values: seq![v] };
    assert(wf_value(v));
    assert(crate::attribute::wf_values(a.values.drop_first()));
    assert(wf_attr(a));
    assert(enc_values_from(a.values, 1) =~= Seq::<u8>::empty());
    assert(enc_value_entry(name, v) == enc_raw(tag, name, data));
    assert(enc_attr(a) =~= enc_raw(tag, name, data));
    lemma_one_set_of(a);
}

/// The framing law: the serialized message is the eight header bytes, the
/// groups, the end-of-attributes byte, then the payload verbatim, and the
/// header round-trips unchanged with a nonzero request id preserved.
pub proof fn lemma_header_framing(m: crate::request::MsgV)
    requires
        crate::request::wf_msg(m),
    ensures
        ({
            let b = crate::request::enc_msg(m);
            let pstart = b.len() - m.payload.len();
            &&& b.len() >= 9 + m.payload.len()
            &&& b.subrange(0, 8) == crate::spec_header_bytes(m.header)
            &&& b[pstart - 1] == TAG_END_OF_ATTRIBUTES
            &&& b.subrange(pstart as int, b.len() as int) == m.payload
            &&& crate::request::sp_msg(b) matches Some(got) && got.header == m.header
                && got.header.request_id == m.header.request_id
        }),
{
    let b = crate::request::enc_msg(m);
    let hb = crate::spec_header_bytes(m.header);
    let gb = enc_groups_from(m.groups, 0);
    assert(b == (hb + gb + seq![TAG_END_OF_ATTRIBUTES]) + m.payload);
    assert(hb.len() == 8);
    assert(b.subrange(0, 8) =~= hb);
    let pstart = b.len() - m.payload.len();
    assert(b[pstart - 1] == TAG_END_OF_ATTRIBUTES);
    assert(b.subrange(pstart as int, b.len() as int) =~= m.payload);
    lemma_round_trip(m);
}

} // verus!
