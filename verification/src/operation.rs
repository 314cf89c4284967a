//! High-level IPP operations: each one is a typed builder that lowers its
//! parameters to a ready-to-send request, with a contract giving the exact
//! groups and attributes the request carries.

use vstd::prelude::*;
use vstd::utf8::encode_utf8;

use crate::attribute::{
    attrs_view, AttrV, GroupV, IppAttribute, IppAttributeList, IppGroup, JOB_ID, JOB_NAME,
    LAST_DOCUMENT, REQUESTED_ATTRIBUTES, REQUESTING_USER_NAME,
};
use crate::request::{base_op_attrs, spec_base_op_attrs, IppRequestResponse, MsgV};
use crate::value::{
    values_view, IppValue, ValueV, TAG_JOB_ATTRIBUTES, TAG_OPERATION_ATTRIBUTES,
};
use crate::{IppError, IppHeader, IPP_VERSION};

verus! {

/// The IPP operations this library builds requests for.
#[derive(Clone, Copy, PartialEq, Eq, Structural, Debug)]
pub enum Operation {
    PrintJob,
    CreateJob,
    SendDocument,
    GetPrinterAttributes,
    CupsGetPrinters,
}

impl Operation {
    /// The two-byte operation code carried in the request header.
    pub open spec fn spec_code(self) -> u16 {
        match self {
            Operation::PrintJob => 0x0002,
            Operation::CreateJob => 0x0005,
            Operation::SendDocument => 0x0006,
            Operation::GetPrinterAttributes => 0x000B,
            Operation::CupsGetPrinters => 0x4002,
        }
    }

    /// The two-byte operation code carried in the request header.
    pub fn code(self) -> (r: u16)
        ensures
            r == self.spec_code(),
    {
        match self {
            Operation::PrintJob => 0x0002,
            Operation::CreateJob => 0x0005,
            Operation::SendDocument => 0x0006,
            Operation::GetPrinterAttributes => 0x000B,
            Operation::CupsGetPrinters => 0x4002,
        }
    }
}

/// A single IPP operation, lowered to a wire-ready request on demand.
pub trait IppOperation: Sized {
    /// The operation code this operation places in the request header.
    spec fn op_code(&self) -> u16;

    /// Lowers this operation to a request for the given printer URI; an
    /// empty URI is `ParamError`.
    fn into_ipp_request(self, uri: &str) -> (r: Result<IppRequestResponse, IppError>)
        ensures
            uri@.len() == 0 <==> r is Err,
            r matches Err(e) ==> e matches IppError::ParamError(_),
            r matches Ok(req) ==> req@.header == (IppHeader {
                version: IPP_VERSION,
                operation_status: self.op_code(),
                request_id: 1,
            }),
    ;
}

/// The requesting-user-name attribute, when a user name is set.
pub open spec fn spec_user_name_attrs(u: Option<String>) -> Seq<AttrV> {
    match u {
        Some(s) => seq![
            AttrV {
                name: encode_utf8(REQUESTING_USER_NAME@),
                values: seq![ValueV::NameWithoutLanguage(encode_utf8(s@))],
            },
        ],
        None => Seq::empty(),
    }
}

/// The job-name attribute, when a job name is set.
pub open spec fn spec_job_name_attrs(j: Option<String>) -> Seq<AttrV> {
    match j {
        Some(s) => seq![
            AttrV {
                name: encode_utf8(JOB_NAME@),
                values: seq![ValueV::NameWithoutLanguage(encode_utf8(s@))],
            },
        ],
        None => Seq::empty(),
    }
}

/// The job-attributes group, when any job attributes were added.
pub open spec fn spec_job_group(attrs: Seq<AttrV>) -> Seq<GroupV> {
    if attrs.len() == 0 {
        Seq::empty()
    } else {
        seq![GroupV { tag: TAG_JOB_ATTRIBUTES, attrs }]
    }
}

/// Appends the requesting-user-name attribute when set.
fn push_user_name(op_attrs: &mut Vec<IppAttribute>, user_name: &Option<String>)
    ensures
        attrs_view(final(op_attrs)@) == attrs_view(old(op_attrs)@) + spec_user_name_attrs(
            *user_name,
        ),
{
    match user_name {
        Some(u) => {
            let a = IppAttribute::new(
                REQUESTING_USER_NAME,
                IppValue::name_without_language(u.as_str()),
            );
            proof {
                crate::attribute::lemma_attrs_view_push(op_attrs@, a);
            }
            op_attrs.push(a);
            assert(attrs_view(final(op_attrs)@) =~~= attrs_view(old(op_attrs)@)
                + spec_user_name_attrs(*user_name));
        },
        None => {
            assert(attrs_view(final(op_attrs)@) =~= attrs_view(old(op_attrs)@)
                + spec_user_name_attrs(*user_name));
        },
    }
}

/// Appends the job-name attribute when set.
fn push_job_name(op_attrs: &mut Vec<IppAttribute>, job_name: &Option<String>)
    ensures
        attrs_view(final(op_attrs)@) == attrs_view(old(op_attrs)@) + spec_job_name_attrs(
            *job_name,
        ),
{
    match job_name {
        Some(j) => {
            let a = IppAttribute::new(JOB_NAME, IppValue::name_without_language(j.as_str()));
            proof {
                crate::attribute::lemma_attrs_view_push(op_attrs@, a);
            }
            op_attrs.push(a);
            assert(attrs_view(final(op_attrs)@) =~~= attrs_view(old(op_attrs)@)
                + spec_job_name_attrs(*job_name));
        },
        None => {
            assert(attrs_view(final(op_attrs)@) =~= attrs_view(old(op_attrs)@)
                + spec_job_name_attrs(*job_name));
        },
    }
}

/// Assembles a request from an operation group, an optional job group, and
/// a payload.
fn assemble(
    code: u16,
    op_attrs: Vec<IppAttribute>,
    job_attrs: Vec<IppAttribute>,
    payload: Vec<u8>,
) -> (r: IppRequestResponse)
    ensures
        r@ == (MsgV {
            header: IppHeader { version: IPP_VERSION, operation_status: code, request_id: 1 },
            groups: seq![GroupV { tag: TAG_OPERATION_ATTRIBUTES, attrs: attrs_view(op_attrs@) }]
                + spec_job_group(attrs_view(job_attrs@)),
            payload: payload@,
        }),
{
    proof {
        crate::attribute::lemma_attrs_view(job_attrs@);
    }
    let has_job = job_attrs.len() > 0;
    let g = IppGroup { tag: TAG_OPERATION_ATTRIBUTES, attributes: op_attrs };
    let mut groups = vec![g];
    proof {
        crate::attribute::lemma_groups_view(groups@);
    }
    if has_job {
        let jg = IppGroup { tag: TAG_JOB_ATTRIBUTES, attributes: job_attrs };
        proof {
            crate::attribute::lemma_groups_view_push(groups@, jg);
        }
        groups.push(jg);
    }
    let r = IppRequestResponse {
        header: IppHeader::new(IPP_VERSION, code, 1),
        attributes: IppAttributeList { groups },
        payload,
    };
    proof {
        crate::attribute::lemma_groups_view(r.attributes.groups@);
        assert(r@ =~~= (MsgV {
            header: IppHeader { version: IPP_VERSION, operation_status: code, request_id: 1 },
            groups: seq![
                GroupV { tag: TAG_OPERATION_ATTRIBUTES, attrs: attrs_view(op_attrs@) },
            ] + spec_job_group(attrs_view(job_attrs@)),
            payload: payload@,
        }));
    }
    r
}

/// The Print-Job operation: sends one document to be printed.
pub struct PrintJob {
    pub stream: Vec<u8>,
    pub user_name: Option<String>,
    pub job_name: Option<String>,
    pub attributes: Vec<IppAttribute>,
}

impl PrintJob {
    /// Creates a Print-Job operation from the document bytes, an optional
    /// requesting user name, and an optional job name.
    pub fn new(stream: Vec<u8>, user_name: Option<String>, job_name: Option<String>) -> (r:
        PrintJob)
        ensures
            r.stream == stream,
            r.user_name == user_name,
            r.job_name == job_name,
            r.attributes@.len() == 0,
    {
        PrintJob { stream, user_name, job_name, attributes: Vec::new() }
    }

    /// Adds an extra job attribute, emitted in the job-attributes group.
    pub fn add_attribute(&mut self, attribute: IppAttribute)
        ensures
            final(self).attributes@ == old(self).attributes@.push(attribute),
            final(self).stream == old(self).stream,
            final(self).user_name == old(self).user_name,
            final(self).job_name == old(self).job_name,
    {
        self.attributes.push(attribute);
    }
}

impl IppOperation for PrintJob {
    open spec fn op_code(&self) -> u16 {
        0x0002
    }

    fn into_ipp_request(self, uri: &str) -> (r: Result<IppRequestResponse, IppError>)
        ensures
            r matches Ok(req) ==> req@ == (MsgV {
                header: IppHeader {
                    version: IPP_VERSION,
                    operation_status: 0x0002,
                    request_id: 1,
                },
                groups: seq![
                    GroupV {
                        tag: TAG_OPERATION_ATTRIBUTES,
                        attrs: spec_base_op_attrs(uri@) + spec_user_name_attrs(self.user_name)
                            + spec_job_name_attrs(self.job_name),
                    },
                ] + spec_job_group(attrs_view(self.attributes@)),
                payload: self.stream@,
            }),
    {
        if uri.is_empty() {
            return Err(IppError::ParamError("empty printer URI".to_owned()));
        }
        let PrintJob { stream, user_name, job_name, attributes } = self;
        let mut op_attrs = base_op_attrs(uri);
        push_user_name(&mut op_attrs, &user_name);
        push_job_name(&mut op_attrs, &job_name);
        Ok(assemble(Operation::PrintJob.code(), op_attrs, attributes, stream))
    }
}

/// The Get-Printer-Attributes operation: asks a printer to describe
/// itself, optionally naming the attributes requested.
pub struct GetPrinterAttributes {
    pub attributes: Vec<String>,
}

/// The keyword values of the requested attribute names, in order.
pub open spec fn spec_keyword_values(ss: Seq<String>) -> Seq<ValueV> {
    Seq::new(ss.len(), |i: int| ValueV::Keyword(encode_utf8(ss[i]@)))
}

/// The requested-attributes attribute, when any names were requested.
pub open spec fn spec_requested_attrs(ss: Seq<String>) -> Seq<AttrV> {
    if ss.len() == 0 {
        Seq::empty()
    } else {
        seq![
            AttrV { name: encode_utf8(REQUESTED_ATTRIBUTES@), values: spec_keyword_values(ss) },
        ]
    }
}

impl GetPrinterAttributes {
    /// Creates a Get-Printer-Attributes operation requesting all
    /// attributes.
    pub fn new() -> (r: GetPrinterAttributes)
        ensures
            r.attributes@.len() == 0,
    {
        GetPrinterAttributes { attributes: Vec::new() }
    }

    /// Creates a Get-Printer-Attributes operation requesting the named
    /// attributes.
    pub fn with_attributes(attributes: Vec<String>) -> (r: GetPrinterAttributes)
        ensures
            r.attributes == attributes,
    {
        GetPrinterAttributes { attributes }
    }
}

impl IppOperation for GetPrinterAttributes {
    open spec fn op_code(&self) -> u16 {
        0x000B
    }

    fn into_ipp_request(self, uri: &str) -> (r: Result<IppRequestResponse, IppError>)
        ensures
            r matches Ok(req) ==> req@ == (MsgV {
                header: IppHeader {
                    version: IPP_VERSION,
                    operation_status: 0x000B,
                    request_id: 1,
                },
                groups: seq![
                    GroupV {
                        tag: TAG_OPERATION_ATTRIBUTES,
                        attrs: spec_base_op_attrs(uri@) + spec_requested_attrs(
                            self.attributes@,
                        ),
                    },
                ],
                payload: Seq::empty(),
            }),
    {
        if uri.is_empty() {
            return Err(IppError::ParamError("empty printer URI".to_owned()));
        }
        let GetPrinterAttributes { attributes } = self;
        let mut op_attrs = base_op_attrs(uri);
        let ghost base = attrs_view(op_attrs@);
        if attributes.len() > 0 {
            let mut vals: Vec<IppValue> = Vec::new();
            let n = attributes.len();
            let mut i: usize = 0;
            proof {
                assert(values_view(vals@) =~= spec_keyword_values(attributes@.take(0)));
            }
            while i < n
                invariant
                    i <= n,
                    n == attributes@.len(),
                    values_view(vals@) == spec_keyword_values(attributes@.take(i as int)),
                decreases n - i,
            {
                let v = IppValue::keyword(attributes[i].as_str());
                proof {
                    crate::value::lemma_values_view_push(vals@, v);
                }
                vals.push(v);
                proof {
                    assert(values_view(vals@) =~~= spec_keyword_values(
                        attributes@.take(i + 1),
                    ));
                }
                i = i + 1;
            }
            proof {
                assert(attributes@.take(n as int) =~= attributes@);
            }
            let a = IppAttribute::new_set(REQUESTED_ATTRIBUTES, vals);
            proof {
                crate::attribute::lemma_attrs_view_push(op_attrs@, a);
            }
            op_attrs.push(a);
            proof {
                assert(attrs_view(op_attrs@) =~~= base + spec_requested_attrs(attributes@));
            }
        } else {
            proof {
                assert(attrs_view(op_attrs@) =~= base + spec_requested_attrs(attributes@));
            }
        }
        let empty_jobs: Vec<IppAttribute> = Vec::new();
        let empty_payload: Vec<u8> = Vec::new();
        let req = assemble(Operation::GetPrinterAttributes.code(), op_attrs, empty_jobs,
            empty_payload);
        proof {
            assert(attrs_view(empty_jobs@) =~= Seq::<AttrV>::empty());
        }
        Ok(req)
    }
}

/// The Create-Job operation: opens a job that documents are then sent to.
pub struct CreateJob {
    pub job_name: Option<String>,
    pub attributes: Vec<IppAttribute>,
}

impl CreateJob {
    /// Creates a Create-Job operation with an optional job name.
    pub fn new(job_name: Option<String>) -> (r: CreateJob)
        ensures
            r.job_name == job_name,
            r.attributes@.len() == 0,
    {
        CreateJob { job_name, attributes: Vec::new() }
    }

    /// Adds an extra job attribute, emitted in the job-attributes group.
    pub fn add_attribute(&mut self, attribute: IppAttribute)
        ensures
            final(self).attributes@ == old(self).attributes@.push(attribute),
            final(self).job_name == old(self).job_name,
    {
        self.attributes.push(attribute);
    }
}

impl IppOperation for CreateJob {
    open spec fn op_code(&self) -> u16 {
        0x0005
    }

    fn into_ipp_request(self, uri: &str) -> (r: Result<IppRequestResponse, IppError>)
        ensures
            r matches Ok(req) ==> req@ == (MsgV {
                header: IppHeader {
                    version: IPP_VERSION,
                    operation_status: 0x0005,
                    request_id: 1,
                },
                groups: seq![
                    GroupV {
                        tag: TAG_OPERATION_ATTRIBUTES,
                        attrs: spec_base_op_attrs(uri@) + spec_job_name_attrs(self.job_name),
                    },
                ] + spec_job_group(attrs_view(self.attributes@)),
                payload: Seq::empty(),
            }),
    {
        if uri.is_empty() {
            return Err(IppError::ParamError("empty printer URI".to_owned()));
        }
        let CreateJob { job_name, attributes } = self;
        let mut op_attrs = base_op_attrs(uri);
        push_job_name(&mut op_attrs, &job_name);
        let empty_payload: Vec<u8> = Vec::new();
        Ok(assemble(Operation::CreateJob.code(), op_attrs, attributes, empty_payload))
    }
}

/// The Send-Document operation: sends one document of a created job.
pub struct SendDocument {
    pub job_id: i32,
    pub stream: Vec<u8>,
    pub user_name: Option<String>,
    pub last: bool,
}

impl SendDocument {
    /// Creates a Send-Document operation for the job id returned by
    /// Create-Job, with the document bytes, an optional requesting user
    /// name, and whether this document is the job's last.
    pub fn new(job_id: i32, stream: Vec<u8>, user_name: Option<String>, last: bool) -> (r:
        SendDocument)
        ensures
            r.job_id == job_id,
            r.stream == stream,
            r.user_name == user_name,
            r.last == last,
    {
        SendDocument { job_id, stream, user_name, last }
    }
}

impl IppOperation for SendDocument {
    open spec fn op_code(&self) -> u16 {
        0x0006
    }

    fn into_ipp_request(self, uri: &str) -> (r: Result<IppRequestResponse, IppError>)
        ensures
            r matches Ok(req) ==> req@ == (MsgV {
                header: IppHeader {
                    version: IPP_VERSION,
                    operation_status: 0x0006,
                    request_id: 1,
                },
                groups: seq![
                    GroupV {
                        tag: TAG_OPERATION_ATTRIBUTES,
                        attrs: spec_base_op_attrs(uri@) + seq![
                            AttrV {
                                name: encode_utf8(JOB_ID@),
                                values: seq![ValueV::Integer(self.job_id)],
                            },
                        ] + spec_user_name_attrs(self.user_name) + seq![
                            AttrV {
                                name: encode_utf8(LAST_DOCUMENT@),
                                values: seq![ValueV::Boolean(self.last)],
                            },
                        ],
                    },
                ],
                payload: self.stream@,
            }),
    {
        if uri.is_empty() {
            return Err(IppError::ParamError("empty printer URI".to_owned()));
        }
        let SendDocument { job_id, stream, user_name, last } = self;
        let mut op_attrs = base_op_attrs(uri);
        let a_job = IppAttribute::new(JOB_ID, IppValue::Integer(job_id));
        proof {
            crate::attribute::lemma_attrs_view_push(op_attrs@, a_job);
        }
        op_attrs.push(a_job);
        push_user_name(&mut op_attrs, &user_name);
        let a_last = IppAttribute::new(LAST_DOCUMENT, IppValue::Boolean(last));
        proof {
            crate::attribute::lemma_attrs_view_push(op_attrs@, a_last);
        }
        op_attrs.push(a_last);
        proof {
            assert(attrs_view(op_attrs@) =~~= spec_base_op_attrs(uri@) + seq![
                AttrV { name: encode_utf8(JOB_ID@), values: seq![ValueV::Integer(job_id)] },
            ] + spec_user_name_attrs(user_name) + seq![
                AttrV { name: encode_utf8(LAST_DOCUMENT@), values: seq![ValueV::Boolean(last)] },
            ]);
        }
        let empty_jobs: Vec<IppAttribute> = Vec::new();
        let req = assemble(Operation::SendDocument.code(), op_attrs, empty_jobs, stream);
        proof {
            assert(attrs_view(empty_jobs@) =~= Seq::<AttrV>::empty());
        }
        Ok(req)
    }
}

/// The CUPS-Get-Printers operation: asks a CUPS server for its printers.
pub struct CupsGetPrinters {
}

impl CupsGetPrinters {
    /// Creates a CUPS-Get-Printers operation.
    pub fn new() -> CupsGetPrinters {
        CupsGetPrinters {  }
    }
}

impl IppOperation for CupsGetPrinters {
    open spec fn op_code(&self) -> u16 {
        0x4002
    }

    fn into_ipp_request(self, uri: &str) -> (r: Result<IppRequestResponse, IppError>)
        ensures
            r matches Ok(req) ==> req@ == (MsgV {
                header: IppHeader {
                    version: IPP_VERSION,
                    operation_status: 0x4002,
                    request_id: 1,
                },
                groups: seq![
                    GroupV { tag: TAG_OPERATION_ATTRIBUTES, attrs: spec_base_op_attrs(uri@) },
                ],
                payload: Seq::empty(),
            }),
    {
        if uri.is_empty() {
            return Err(IppError::ParamError("empty printer URI".to_owned()));
        }
        let op_attrs = base_op_attrs(uri);
        let empty_jobs: Vec<IppAttribute> = Vec::new();
        let empty_payload: Vec<u8> = Vec::new();
        let req = assemble(Operation::CupsGetPrinters.code(), op_attrs, empty_jobs,
            empty_payload);
        proof {
            assert(attrs_view(empty_jobs@) =~= Seq::<AttrV>::empty());
        }
        Ok(req)
    }
}

} // verus!
