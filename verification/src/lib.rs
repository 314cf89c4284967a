//! A client-side implementation of the Internet Printing Protocol (IPP):
//! the binary attribute codec of RFC 8010, the request/response container,
//! typed operation builders, and the status-gating client core. The HTTP
//! transport itself is left to the embedding program; this crate turns
//! operations into wire bytes and wire bytes back into typed responses.

use vstd::prelude::*;

pub mod attribute;
pub mod client;
pub mod codec;
pub mod laws;
pub mod operation;
pub mod parser;
pub mod request;
pub mod statuscode;
pub mod value;
pub mod wire;

pub use attribute::{DelimiterTag, IppAttribute, IppAttributeList};
pub use client::IppClient;
pub use operation::{
    CreateJob, CupsGetPrinters, GetPrinterAttributes, IppOperation, Operation, PrintJob,
    SendDocument,
};
pub use request::IppRequestResponse;
pub use value::IppValue;

verus! {

/// The IPP protocol version emitted in every request: major 1, minor 1.
pub const IPP_VERSION: u16 = 0x0101;

/// The error taxonomy of the library.
#[derive(Debug)]
pub enum IppError {
    /// The underlying byte transport failed; the caller may retry.
    TransportError(String),
    /// Local I/O on a payload source or buffer failed.
    IoError(String),
    /// The binary framing of a message was violated: premature end of data,
    /// bad delimiter sequencing, a continuation value with no preceding
    /// attribute, or a length that disagrees with a fixed-size value.
    MalformedStream,
    /// A value tag the parser refuses under a strict policy.
    UnknownValueTag(u8),
    /// The response parsed, but its operation status was not in the
    /// successful range; carries the numeric status code.
    StatusError(u16),
    /// A required attribute lookup returned nothing; carries the name.
    MissingAttribute(String),
    /// A typed view of a value was requested whose tag does not match.
    InvalidAttributeType,
    /// An invalid argument was given to an operation builder.
    ParamError(String),
}

/// The diagnostic name of each error kind.
pub open spec fn spec_error_kind_name(e: IppError) -> &'static str {
    match e {
        IppError::TransportError(_) => "transport error",
        IppError::IoError(_) => "I/O error",
        IppError::MalformedStream => "malformed IPP stream",
        IppError::UnknownValueTag(_) => "unknown IPP value tag",
        IppError::StatusError(_) => "IPP status error",
        IppError::MissingAttribute(_) => "missing IPP attribute",
        IppError::InvalidAttributeType => "IPP attribute type mismatch",
        IppError::ParamError(_) => "parameter error",
    }
}

impl IppError {
    /// The diagnostic name of this error's kind.
    pub fn kind_name(&self) -> (r: &'static str)
        ensures
            r == spec_error_kind_name(*self),
    {
        match self {
            IppError::TransportError(_) => "transport error",
            IppError::IoError(_) => "I/O error",
            IppError::MalformedStream => "malformed IPP stream",
            IppError::UnknownValueTag(_) => "unknown IPP value tag",
            IppError::StatusError(_) => "IPP status error",
            IppError::MissingAttribute(_) => "missing IPP attribute",
            IppError::InvalidAttributeType => "IPP attribute type mismatch",
            IppError::ParamError(_) => "parameter error",
        }
    }

    /// The process exit code conventionally reported for this error.
    pub fn as_exit_code(&self) -> (r: i32)
        ensures
            r == match self {
                IppError::ParamError(_) => 1int,
                IppError::TransportError(_) => 2,
                IppError::IoError(_) => 3,
                IppError::MalformedStream => 4,
                IppError::MissingAttribute(_) => 5,
                IppError::InvalidAttributeType => 5,
                IppError::StatusError(_) => 6,
                IppError::UnknownValueTag(_) => 7,
            },
    {
        match self {
            IppError::ParamError(_) => 1,
            IppError::TransportError(_) => 2,
            IppError::IoError(_) => 3,
            IppError::MalformedStream => 4,
            IppError::MissingAttribute(_) => 5,
            IppError::InvalidAttributeType => 5,
            IppError::StatusError(_) => 6,
            IppError::UnknownValueTag(_) => 7,
        }
    }
}

/// The fixed eight-byte message header: protocol version, operation code
/// (on requests) or status code (on responses), and a nonzero request id.
#[derive(Clone, Copy, PartialEq, Eq, Structural, Debug)]
pub struct IppHeader {
    pub version: u16,
    pub operation_status: u16,
    pub request_id: u32,
}

/// The eight header bytes on the wire: version, operation or status, and
/// request id, each big-endian.
pub open spec fn spec_header_bytes(h: IppHeader) -> Seq<u8> {
    wire::spec_u16_be(h.version) + wire::spec_u16_be(h.operation_status) + wire::spec_u32_be(
        h.request_id,
    )
}

impl IppHeader {
    /// Creates a header from its three fields.
    pub fn new(version: u16, status: u16, request_id: u32) -> (r: IppHeader)
        ensures
            r == (IppHeader { version, operation_status: status, request_id }),
    {
        IppHeader { version, operation_status: status, request_id }
    }

    /// Appends the eight header bytes.
    pub fn write(&self, out: &mut Vec<u8>)
        ensures
            final(out)@ == old(out)@ + spec_header_bytes(*self),
    {
        wire::write_u16_be(out, self.version);
        wire::write_u16_be(out, self.operation_status);
        wire::write_u32_be(out, self.request_id);
        assert(final(out)@ =~= old(out)@ + spec_header_bytes(*self));
    }

    /// Reads the eight header bytes from a reader; too little data is
    /// `MalformedStream`.
    pub fn from_reader<R: ReadIppExt>(reader: &mut R) -> (r: Result<IppHeader, IppError>)
        ensures
            old(reader).cursor() + 8 <= old(reader).buf().len() ==> (r matches Ok(h)
                && final(reader).buf() == old(reader).buf()
                && final(reader).cursor() == old(reader).cursor() + 8 && h == (IppHeader {
                version: wire::spec_u16_from_be(
                    old(reader).buf()[old(reader).cursor() as int],
                    old(reader).buf()[old(reader).cursor() as int + 1],
                ),
                operation_status: wire::spec_u16_from_be(
                    old(reader).buf()[old(reader).cursor() as int + 2],
                    old(reader).buf()[old(reader).cursor() as int + 3],
                ),
                request_id: wire::spec_u32_from_be(
                    old(reader).buf()[old(reader).cursor() as int + 4],
                    old(reader).buf()[old(reader).cursor() as int + 5],
                    old(reader).buf()[old(reader).cursor() as int + 6],
                    old(reader).buf()[old(reader).cursor() as int + 7],
                ),
            })),
            old(reader).cursor() + 8 > old(reader).buf().len() ==> r is Err,
    {
        let bytes = match reader.read_vec(8) {
            Ok(v) => v,
            Err(_) => {
                return Err(IppError::MalformedStream);
            },
        };
        proof {
            assert(old(reader).cursor() + 8 <= old(reader).buf().len());
            assert(bytes@.len() == 8);
        }
        Ok(
            IppHeader::new(
                wire::read_u16_be(bytes.as_slice(), 0),
                wire::read_u16_be(bytes.as_slice(), 2),
                wire::read_u32_be(bytes.as_slice(), 4),
            ),
        )
    }
}

/// A byte source the wire primitives read from: an owned buffer and a
/// cursor that only moves forward.
pub struct IppReader {
    pub data: Vec<u8>,
    pub pos: usize,
}

impl IppReader {
    /// Creates a reader over the given bytes, positioned at the start.
    pub fn new(data: Vec<u8>) -> (r: IppReader)
        ensures
            r.data == data,
            r.pos == 0,
    {
        IppReader { data, pos: 0 }
    }
}

/// Length-delimited reads every IPP byte source offers: a byte vector of a
/// given length, and the same bytes decoded lossily to text.
pub trait ReadIppExt: Sized {
    /// The bytes this source reads from.
    spec fn buf(&self) -> Seq<u8>;

    /// The position of the next unread byte.
    spec fn cursor(&self) -> nat;

    /// Reads exactly `len` bytes; too little data is `IoError` and leaves
    /// the source unchanged.
    fn read_vec(&mut self, len: usize) -> (r: Result<Vec<u8>, IppError>)
        ensures
            final(self).buf() == old(self).buf(),
            old(self).cursor() + len <= old(self).buf().len() ==> (r matches Ok(v)
                && v@.len() == len && v@ == old(self).buf().subrange(
                old(self).cursor() as int,
                old(self).cursor() + len,
            ) && final(self).cursor() == old(self).cursor() + len),
            old(self).cursor() + len > old(self).buf().len() ==> (r matches Err(e) && e matches
                IppError::IoError(_) && final(self).cursor() == old(self).cursor()),
    ;

    /// Reads exactly `len` bytes as text, decoded lossily.
    fn read_string(&mut self, len: usize) -> (r: Result<String, IppError>)
        ensures
            final(self).buf() == old(self).buf(),
            old(self).cursor() + len <= old(self).buf().len() ==> (r matches Ok(s) && s@
                == crate::value::spec_lossy_utf8(
                old(self).buf().subrange(old(self).cursor() as int, old(self).cursor() + len),
            ) && final(self).cursor() == old(self).cursor() + len),
            old(self).cursor() + len > old(self).buf().len() ==> (r matches Err(e) && e matches
                IppError::IoError(_) && final(self).cursor() == old(self).cursor()),
    ;
}

impl ReadIppExt for IppReader {
    open spec fn buf(&self) -> Seq<u8> {
        self.data@
    }

    open spec fn cursor(&self) -> nat {
        self.pos as nat
    }

    fn read_vec(&mut self, len: usize) -> (r: Result<Vec<u8>, IppError>) {
        let n = self.data.len();
        if self.pos > n || n - self.pos < len {
            return Err(IppError::IoError("unexpected end of data".to_owned()));
        }
        let mut out: Vec<u8> = Vec::new();
        let mut i: usize = 0;
        while i < len
            invariant
                i <= len,
                self.pos + len <= self.data@.len(),
                self.data@.len() <= usize::MAX,
                out@.len() == i,
                forall|j: int| 0 <= j < i ==> out@[j] == self.data@[self.pos + j],
            decreases len - i,
        {
            out.push(self.data[self.pos + i]);
            i = i + 1;
        }
        self.pos = self.pos + len;
        proof {
            assert(out@ =~= old(self).buf().subrange(
                old(self).cursor() as int,
                old(self).cursor() + len,
            ));
        }
        Ok(out)
    }

    fn read_string(&mut self, len: usize) -> (r: Result<String, IppError>) {
        let bytes = match self.read_vec(len) {
            Ok(v) => v,
            Err(e) => {
                return Err(e);
            },
        };
        Ok(crate::value::bytes_to_string_lossy(bytes.as_slice()))
    }
}

} // verus!
