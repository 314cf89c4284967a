//! The status-code taxonomy: the 16-bit status space partitioned into its
//! five classes, and symbolic names for the common codes, for diagnostics.

use vstd::prelude::*;

verus! {

/// The class of a 16-bit status code.
#[derive(Clone, Copy, PartialEq, Eq, Structural, Debug)]
pub enum StatusClass {
    Successful,
    Informational,
    Redirection,
    ClientError,
    ServerError,
    Unknown,
}

/// The class a status code falls in.
pub open spec fn spec_status_class(code: u16) -> StatusClass {
    if code <= 0x00FF {
        StatusClass::Successful
    } else if code <= 0x01FF {
        StatusClass::Informational
    } else if code <= 0x02FF {
        StatusClass::Redirection
    } else if 0x0400 <= code && code <= 0x04FF {
        StatusClass::ClientError
    } else if 0x0500 <= code && code <= 0x05FF {
        StatusClass::ServerError
    } else {
        StatusClass::Unknown
    }
}

/// The class a status code falls in.
pub fn status_class(code: u16) -> (r: StatusClass)
    ensures
        r == spec_status_class(code),
{
    if code <= 0x00FF {
        StatusClass::Successful
    } else if code <= 0x01FF {
        StatusClass::Informational
    } else if code <= 0x02FF {
        StatusClass::Redirection
    } else if 0x0400 <= code && code <= 0x04FF {
        StatusClass::ClientError
    } else if 0x0500 <= code && code <= 0x05FF {
        StatusClass::ServerError
    } else {
        StatusClass::Unknown
    }
}

/// True of the codes in the successful range.
pub fn is_success(code: u16) -> (r: bool)
    ensures
        r <==> code <= 0x00FF,
{
    code <= 0x00FF
}

/// The symbolic name of a status code.
pub open spec fn spec_status_name(code: u16) -> &'static str {
    match code {
        0x0000u16 => "successful-ok",
        0x0001u16 => "successful-ok-ignored-or-substituted-attributes",
        0x0002u16 => "successful-ok-conflicting-attributes",
        0x0400u16 => "client-error-bad-request",
        0x0401u16 => "client-error-forbidden",
        0x0402u16 => "client-error-not-authenticated",
        0x0403u16 => "client-error-not-authorized",
        0x0404u16 => "client-error-not-possible",
        0x0405u16 => "client-error-timeout",
        0x0406u16 => "client-error-not-found",
        0x0407u16 => "client-error-gone",
        0x0408u16 => "client-error-request-entity-too-large",
        0x0409u16 => "client-error-request-value-too-long",
        0x040Au16 => "client-error-document-format-not-supported",
        0x040Bu16 => "client-error-attributes-or-values-not-supported",
        0x040Cu16 => "client-error-uri-scheme-not-supported",
        0x040Du16 => "client-error-charset-not-supported",
        0x040Eu16 => "client-error-conflicting-attributes",
        0x0500u16 => "server-error-internal-error",
        0x0501u16 => "server-error-operation-not-supported",
        0x0502u16 => "server-error-service-unavailable",
        0x0503u16 => "server-error-version-not-supported",
        0x0504u16 => "server-error-device-error",
        0x0505u16 => "server-error-temporary-error",
        0x0506u16 => "server-error-not-accepting-jobs",
        0x0507u16 => "server-error-busy",
        0x0508u16 => "server-error-job-canceled",
        _ => "unknown-status-code",
    }
}

/// The symbolic name of a status code.
pub fn status_name(code: u16) -> (r: &'static str)
    ensures
        r == spec_status_name(code),
{
    match code {
        0x0000u16 => "successful-ok",
        0x0001u16 => "successful-ok-ignored-or-substituted-attributes",
        0x0002u16 => "successful-ok-conflicting-attributes",
        0x0400u16 => "client-error-bad-request",
        0x0401u16 => "client-error-forbidden",
        0x0402u16 => "client-error-not-authenticated",
        0x0403u16 => "client-error-not-authorized",
        0x0404u16 => "client-error-not-possible",
        0x0405u16 => "client-error-timeout",
        0x0406u16 => "client-error-not-found",
        0x0407u16 => "client-error-gone",
        0x0408u16 => "client-error-request-entity-too-large",
        0x0409u16 => "client-error-request-value-too-long",
        0x040Au16 => "client-error-document-format-not-supported",
        0x040Bu16 => "client-error-attributes-or-values-not-supported",
        0x040Cu16 => "client-error-uri-scheme-not-supported",
        0x040Du16 => "client-error-charset-not-supported",
        0x040Eu16 => "client-error-conflicting-attributes",
        0x0500u16 => "server-error-internal-error",
        0x0501u16 => "server-error-operation-not-supported",
        0x0502u16 => "server-error-service-unavailable",
        0x0503u16 => "server-error-version-not-supported",
        0x0504u16 => "server-error-device-error",
        0x0505u16 => "server-error-temporary-error",
        0x0506u16 => "server-error-not-accepting-jobs",
        0x0507u16 => "server-error-busy",
        0x0508u16 => "server-error-job-canceled",
        _ => "unknown-status-code",
    }
}

/// The symbolic name of a printer-state enum value.
pub open spec fn spec_printer_state_name(code: i32) -> &'static str {
    if code == 3 {
        "idle"
    } else if code == 4 {
        "processing"
    } else if code == 5 {
        "stopped"
    } else {
        "unknown"
    }
}

/// The symbolic name of a printer-state enum value: 3 is idle, 4 is
/// processing, 5 is stopped.
pub fn printer_state_name(code: i32) -> (r: &'static str)
    ensures
        r == spec_printer_state_name(code),
{
    if code == 3 {
        "idle"
    } else if code == 4 {
        "processing"
    } else if code == 5 {
        "stopped"
    } else {
        "unknown"
    }
}

} // verus!
