//! The request/response container: header, ordered attribute groups and an
//! optional payload, with a serializer and parser proved against the spec
//! encoding and the spec parse of whole messages.

use vstd::prelude::*;
use vstd::utf8::encode_utf8;

use crate::attribute::{
    attrs_view, groups_view, spec_set_attribute, wf_groups, AttrV, DelimiterTag, GroupV,
    IppAttribute, IppAttributeList, IppGroup, ATTRIBUTES_CHARSET, ATTRIBUTES_NATURAL_LANGUAGE,
    PRINTER_URI,
};
use crate::codec::{enc_groups_from, write_groups_from};
use crate::parser::{parse_groups, sp_groups};
use crate::value::{IppValue, ValueV, TAG_END_OF_ATTRIBUTES};
use crate::wire;
use crate::{spec_header_bytes, IppError, IppHeader};

verus! {

/// The spec-level message: header, groups, and the payload bytes that
/// follow the end-of-attributes byte (empty when there is no payload).
#[verifier::ext_equal]
pub struct MsgV {
    pub header: IppHeader,
    pub groups: Seq<GroupV>,
    pub payload: Seq<u8>,
}

/// Well-formedness of a message for encoding: every group well-formed.
pub open spec fn wf_msg(m: MsgV) -> bool {
    wf_groups(m.groups)
}

/// The full wire encoding of a message: eight header bytes, each group,
/// the end-of-attributes byte, then the payload verbatim.
pub open spec fn enc_msg(m: MsgV) -> Seq<u8> {
    spec_header_bytes(m.header) + enc_groups_from(m.groups, 0) + seq![TAG_END_OF_ATTRIBUTES]
        + m.payload
}

/// The unique parse of a whole message, or `None` when the framing is
/// violated.
pub open spec fn sp_msg(b: Seq<u8>) -> Option<MsgV> {
    if b.len() < 8 {
        None
    } else {
        let header = IppHeader {
            version: wire::spec_u16_from_be(b[0], b[1]),
            operation_status: wire::spec_u16_from_be(b[2], b[3]),
            request_id: wire::spec_u32_from_be(b[4], b[5], b[6], b[7]),
        };
        match sp_groups(b, 8, Seq::empty()) {
            None => None,
            Some((gs, p)) => {
                if p < 8 || p > b.len() {
                    None
                } else {
                    Some(MsgV { header, groups: gs, payload: b.subrange(p, b.len() as int) })
                }
            },
        }
    }
}

/// The common first attributes of every request's operation group:
/// attributes-charset, attributes-natural-language, then the printer URI,
/// in that order.
pub open spec fn spec_base_op_attrs(uri: Seq<char>) -> Seq<AttrV> {
    seq![
        AttrV {
            name: encode_utf8(ATTRIBUTES_CHARSET@),
            values: seq![ValueV::Charset(encode_utf8("utf-8"@))],
        },
        AttrV {
            name: encode_utf8(ATTRIBUTES_NATURAL_LANGUAGE@),
            values: seq![ValueV::NaturalLanguage(encode_utf8("en"@))],
        },
        AttrV { name: encode_utf8(PRINTER_URI@), values: seq![ValueV::Uri(encode_utf8(uri))] },
    ]
}

/// An IPP message under construction or as parsed: header, groups, payload.
#[derive(Debug)]
pub struct IppRequestResponse {
    pub header: IppHeader,
    pub attributes: IppAttributeList,
    pub payload: Vec<u8>,
}

impl View for IppRequestResponse {
    type V = MsgV;

    open spec fn view(&self) -> MsgV {
        MsgV { header: self.header, groups: self.attributes@, payload: self.payload@ }
    }
}

/// Builds the three required first attributes of the operation group.
pub(crate) fn base_op_attrs(uri: &str) -> (r: Vec<IppAttribute>)
    ensures
        attrs_view(r@) == spec_base_op_attrs(uri@),
{
    let a1 = IppAttribute::new(ATTRIBUTES_CHARSET, IppValue::charset("utf-8"));
    let a2 = IppAttribute::new(ATTRIBUTES_NATURAL_LANGUAGE, IppValue::natural_language("en"));
    let a3 = IppAttribute::new(PRINTER_URI, IppValue::uri(uri));
    let r = vec![a1, a2, a3];
    proof {
        crate::attribute::lemma_attrs_view(r@);
        assert(attrs_view(r@) =~~= spec_base_op_attrs(uri@));
    }
    r
}

impl IppRequestResponse {
    /// Creates a fresh request for the given operation and printer URI,
    /// holding the three required first attributes; an empty URI is
    /// `ParamError`.
    pub fn new(operation: crate::operation::Operation, uri: &str) -> (r: Result<
        IppRequestResponse,
        IppError,
    >)
        ensures
            uri@.len() == 0 <==> r is Err,
            r matches Err(e) ==> e matches IppError::ParamError(_),
            r matches Ok(req) ==> req@ == (MsgV {
                header: IppHeader {
                    version: crate::IPP_VERSION,
                    operation_status: operation.spec_code(),
                    request_id: 1,
                },
                groups: seq![
                    GroupV {
                        tag: crate::value::TAG_OPERATION_ATTRIBUTES,
                        attrs: spec_base_op_attrs(uri@),
                    },
                ],
                payload: Seq::empty(),
            }),
    {
        if uri.is_empty() {
            return Err(IppError::ParamError("empty printer URI".to_owned()));
        }
        let attrs = base_op_attrs(uri);
        let g = IppGroup { tag: crate::value::TAG_OPERATION_ATTRIBUTES, attributes: attrs };
        let groups = vec![g];
        let list = IppAttributeList { groups };
        let req = IppRequestResponse {
            header: IppHeader::new(crate::IPP_VERSION, operation.code(), 1),
            attributes: list,
            payload: Vec::new(),
        };
        proof {
            crate::attribute::lemma_groups_view(req.attributes.groups@);
            assert(req.attributes@ =~~= seq![
                GroupV {
                    tag: crate::value::TAG_OPERATION_ATTRIBUTES,
                    attrs: spec_base_op_attrs(uri@),
                },
            ]);
            assert(req@ =~~= (MsgV {
                header: IppHeader {
                    version: crate::IPP_VERSION,
                    operation_status: operation.spec_code(),
                    request_id: 1,
                },
                groups: seq![
                    GroupV {
                        tag: crate::value::TAG_OPERATION_ATTRIBUTES,
                        attrs: spec_base_op_attrs(uri@),
                    },
                ],
                payload: Seq::empty(),
            }));
        }
        Ok(req)
    }

    /// The message header.
    pub fn header(&self) -> (r: &IppHeader)
        ensures
            r == self@.header,
    {
        &self.header
    }

    /// The attribute groups.
    pub fn attributes(&self) -> (r: &IppAttributeList)
        ensures
            r@ == self@.groups,
    {
        &self.attributes
    }

    /// The payload bytes.
    pub fn payload(&self) -> (r: &Vec<u8>)
        ensures
            r@ == self@.payload,
    {
        &self.payload
    }

    /// Attaches the document payload.
    pub fn set_payload(&mut self, payload: Vec<u8>)
        ensures
            final(self)@ == (MsgV { payload: payload@, ..old(self)@ }),
    {
        self.payload = payload;
    }

    /// Inserts an attribute under the group with the given delimiter tag.
    pub fn set_attribute(&mut self, tag: DelimiterTag, attr: IppAttribute)
        ensures
            final(self)@ == (MsgV {
                groups: spec_set_attribute(old(self)@.groups, tag.spec_as_u8(), attr@),
                ..old(self)@
            }),
    {
        self.attributes.set_attribute(tag, attr);
    }

    /// Serializes the message: header, groups, end-of-attributes byte, then
    /// the payload. A message whose attributes cannot be framed (a name or
    /// value longer than its 16-bit length field allows, or an invalid tag)
    /// is `ParamError`.
    pub fn to_bytes(&self) -> (r: Result<Vec<u8>, IppError>)
        ensures
            wf_msg(self@) ==> (r matches Ok(v) && v@ == enc_msg(self@)),
            !wf_msg(self@) ==> (r matches Err(e) && e matches IppError::ParamError(_)),
    {
        proof {
            crate::codec::lemma_wf_groups_index(groups_view(self.attributes.groups@));
            crate::attribute::lemma_groups_view(self.attributes.groups@);
        }
        if !crate::codec::check_groups(&self.attributes.groups, 0) {
            return Err(IppError::ParamError("attribute data cannot be framed".to_owned()));
        }
        let mut out: Vec<u8> = Vec::new();
        self.header.write(&mut out);
        write_groups_from(&mut out, &self.attributes.groups, 0);
        out.push(TAG_END_OF_ATTRIBUTES);
        out.extend_from_slice(self.payload.as_slice());
        proof {
            assert(out@ =~= enc_msg(self@));
        }
        Ok(out)
    }

    /// Parses a whole message from bytes; any framing violation is
    /// `MalformedStream`.
    pub fn from_bytes(data: &[u8]) -> (r: Result<IppRequestResponse, IppError>)
        ensures
            match sp_msg(data@) {
                Some(m) => r matches Ok(req) && req@ == m,
                None => r matches Err(e) && e == IppError::MalformedStream,
            },
    {
        if data.len() < 8 {
            return Err(IppError::MalformedStream);
        }
        let header = IppHeader::new(
            wire::read_u16_be(data, 0),
            wire::read_u16_be(data, 2),
            wire::read_u32_be(data, 4),
        );
        let mut groups: Vec<IppGroup> = Vec::new();
        proof {
            assert(groups_view(groups@) =~= Seq::<GroupV>::empty());
        }
        let p = match parse_groups(data, 8, &mut groups) {
            Ok(p) => p,
            Err(e) => {
                return Err(e);
            },
        };
        proof {
            crate::parser::lemma_sp_groups_advance(data@, 8, Seq::empty());
        }
        let n = data.len();
        let payload = {
            let s = vstd::slice::slice_subrange(data, p, n);
            vstd::slice::slice_to_vec(s)
        };
        let req = IppRequestResponse {
            header,
            attributes: IppAttributeList { groups },
            payload,
        };
        proof {
            assert(req@ =~~= sp_msg(data@).unwrap());
        }
        Ok(req)
    }
}

} // verus!
