use ipp::attribute::{DelimiterTag, IppAttribute};
use ipp::client::IppClient;
use ipp::request::IppRequestResponse;
use ipp::statuscode::{is_success, status_class, status_name, StatusClass};
use ipp::value::{IppMember, IppValue};
use ipp::IppError;

fn push_entry(out: &mut Vec<u8>, tag: u8, name: &[u8], value: &[u8]) {
    out.push(tag);
    out.push((name.len() >> 8) as u8);
    out.push((name.len() & 0xff) as u8);
    out.extend_from_slice(name);
    out.push((value.len() >> 8) as u8);
    out.push((value.len() & 0xff) as u8);
    out.extend_from_slice(value);
}

fn response_header(status: u16) -> Vec<u8> {
    vec![0x01, 0x01, (status >> 8) as u8, (status & 0xff) as u8, 0x00, 0x00, 0x00, 0x01]
}

#[test]
fn it_works() {
}

#[test]
fn parse_printer_attributes_group() {
    // one printer-attributes group: printer-name = keyword "p",
    // printer-state = enum 3
    let mut bytes = response_header(0x0000);
    bytes.push(0x04);
    push_entry(&mut bytes, 0x44, b"printer-name", b"p");
    push_entry(&mut bytes, 0x23, b"printer-state", &[0, 0, 0, 3]);
    bytes.push(0x03);

    let resp = IppRequestResponse::from_bytes(&bytes).unwrap();
    let attrs = resp.attributes();
    let name = attrs.get(DelimiterTag::PrinterAttributes, "printer-name").unwrap();
    assert_eq!(name.value().as_string().unwrap(), "p");
    let state = attrs.get(DelimiterTag::PrinterAttributes, "printer-state").unwrap();
    let code = state.value().as_enum().unwrap();
    assert_eq!(code, 3);
    assert_eq!(ipp::statuscode::printer_state_name(code), "idle");
}

#[test]
fn status_error_is_gated() {
    // parses successfully, but the client refuses the status
    let mut bytes = response_header(0x0400);
    bytes.push(0x01);
    push_entry(&mut bytes, 0x47, b"attributes-charset", b"utf-8");
    bytes.push(0x03);

    assert!(IppRequestResponse::from_bytes(&bytes).is_ok());
    let client = IppClient::new("ipp://host/printers/p");
    match client.handle_response(&bytes) {
        Err(IppError::StatusError(code)) => assert_eq!(code, 0x0400),
        _ => panic!("expected StatusError"),
    }
}

#[test]
fn success_status_is_returned() {
    let mut bytes = response_header(0x0000);
    bytes.push(0x01);
    push_entry(&mut bytes, 0x47, b"attributes-charset", b"utf-8");
    bytes.push(0x03);
    let client = IppClient::new("ipp://host/printers/p");
    let resp = client.handle_response(&bytes).unwrap();
    assert_eq!(resp.header().operation_status, 0x0000);
}

#[test]
fn truncated_value_length_is_malformed() {
    let mut bytes = response_header(0x0000);
    bytes.push(0x04);
    // entry cut off in the middle of the value-length field
    bytes.push(0x44);
    bytes.push(0x00);
    bytes.push(0x0c);
    bytes.extend_from_slice(b"printer-name");
    bytes.push(0x00);
    match IppRequestResponse::from_bytes(&bytes) {
        Err(IppError::MalformedStream) => {},
        _ => panic!("expected MalformedStream"),
    }
}

#[test]
fn unknown_tag_round_trips() {
    // a value with undefined tag 0x5F and four raw bytes survives
    // parse -> serialize byte-identically
    let mut bytes = response_header(0x0000);
    bytes.push(0x04);
    push_entry(&mut bytes, 0x5F, b"future-attr", &[0xDE, 0xAD, 0xBE, 0xEF]);
    bytes.push(0x03);

    let resp = IppRequestResponse::from_bytes(&bytes).unwrap();
    let attr = resp.attributes().get(DelimiterTag::PrinterAttributes, "future-attr").unwrap();
    match attr.value() {
        IppValue::Other { tag, data } => {
            assert_eq!(*tag, 0x5F);
            assert_eq!(data.as_slice(), &[0xDE, 0xAD, 0xBE, 0xEF]);
        },
        _ => panic!("expected Other"),
    }
    let again = resp.to_bytes().unwrap();
    assert_eq!(again, bytes);
}

#[test]
fn one_set_of_round_trips() {
    // three keyword values: one named entry, two empty-name continuations
    let mut bytes = response_header(0x0000);
    bytes.push(0x04);
    push_entry(&mut bytes, 0x44, b"finishings-supported", b"none");
    push_entry(&mut bytes, 0x44, b"", b"staple");
    push_entry(&mut bytes, 0x44, b"", b"punch");
    bytes.push(0x03);

    let resp = IppRequestResponse::from_bytes(&bytes).unwrap();
    let attr = resp.attributes().get(
        DelimiterTag::PrinterAttributes,
        "finishings-supported",
    ).unwrap();
    assert_eq!(attr.values().len(), 3);
    assert_eq!(attr.values()[0].as_string().unwrap(), "none");
    assert_eq!(attr.values()[1].as_string().unwrap(), "staple");
    assert_eq!(attr.values()[2].as_string().unwrap(), "punch");
    let again = resp.to_bytes().unwrap();
    assert_eq!(again, bytes);
}

#[test]
fn continuation_without_attribute_is_malformed() {
    let mut bytes = response_header(0x0000);
    bytes.push(0x04);
    push_entry(&mut bytes, 0x44, b"", b"stray");
    bytes.push(0x03);
    match IppRequestResponse::from_bytes(&bytes) {
        Err(IppError::MalformedStream) => {},
        _ => panic!("expected MalformedStream"),
    }
}

#[test]
fn fixed_size_values_round_trip() {
    let mut bytes = response_header(0x0000);
    bytes.push(0x04);
    push_entry(&mut bytes, 0x21, b"copies", &[0, 0, 0, 7]);
    push_entry(&mut bytes, 0x22, b"duplex", &[1]);
    push_entry(&mut bytes, 0x33, b"copies-supported", &[0, 0, 0, 1, 0, 0, 0, 99]);
    push_entry(
        &mut bytes,
        0x32,
        b"printer-resolution",
        &[0, 0, 0x02, 0x58, 0, 0, 0x02, 0x58, 3],
    );
    push_entry(
        &mut bytes,
        0x31,
        b"printer-current-time",
        &[0x07, 0xE8, 6, 1, 12, 30, 59, 0, b'+', 2, 0],
    );
    push_entry(&mut bytes, 0x35, b"printer-info", &[0, 2, b'e', b'n', 0, 2, b'h', b'i']);
    bytes.push(0x03);

    let resp = IppRequestResponse::from_bytes(&bytes).unwrap();
    let attrs = resp.attributes();
    let copies = attrs.get(DelimiterTag::PrinterAttributes, "copies").unwrap();
    assert_eq!(copies.value().as_integer().unwrap(), 7);
    let duplex = attrs.get(DelimiterTag::PrinterAttributes, "duplex").unwrap();
    assert_eq!(duplex.value().as_boolean().unwrap(), true);
    match attrs.get(DelimiterTag::PrinterAttributes, "copies-supported").unwrap().value() {
        IppValue::RangeOfInteger { low, high } => {
            assert_eq!(*low, 1);
            assert_eq!(*high, 99);
        },
        _ => panic!("expected RangeOfInteger"),
    }
    match attrs.get(DelimiterTag::PrinterAttributes, "printer-resolution").unwrap().value() {
        IppValue::Resolution(r) => {
            assert_eq!(r.xres, 600);
            assert_eq!(r.yres, 600);
            assert_eq!(r.units, 3);
        },
        _ => panic!("expected Resolution"),
    }
    match attrs.get(DelimiterTag::PrinterAttributes, "printer-current-time").unwrap().value() {
        IppValue::DateTime(d) => {
            assert_eq!(d.year, 2024);
            assert_eq!(d.month, 6);
            assert_eq!(d.minutes, 30);
        },
        _ => panic!("expected DateTime"),
    }
    match attrs.get(DelimiterTag::PrinterAttributes, "printer-info").unwrap().value() {
        IppValue::TextWithLanguage { language, text } => {
            assert_eq!(language.as_slice(), b"en");
            assert_eq!(text.as_slice(), b"hi");
        },
        _ => panic!("expected TextWithLanguage"),
    }
    let again = resp.to_bytes().unwrap();
    assert_eq!(again, bytes);
}

#[test]
fn integer_with_wrong_length_is_malformed() {
    let mut bytes = response_header(0x0000);
    bytes.push(0x04);
    push_entry(&mut bytes, 0x21, b"copies", &[0, 0, 7]);
    bytes.push(0x03);
    match IppRequestResponse::from_bytes(&bytes) {
        Err(IppError::MalformedStream) => {},
        _ => panic!("expected MalformedStream"),
    }
}

#[test]
fn collection_round_trips() {
    // media-col = { media-size = { x-dimension = 21000 } , media-type = "plain" }
    let mut bytes = response_header(0x0000);
    bytes.push(0x04);
    push_entry(&mut bytes, 0x34, b"media-col", b"");
    push_entry(&mut bytes, 0x4A, b"", b"media-size");
    push_entry(&mut bytes, 0x34, b"", b"");
    push_entry(&mut bytes, 0x4A, b"", b"x-dimension");
    push_entry(&mut bytes, 0x21, b"", &[0, 0, 0x52, 0x08]);
    push_entry(&mut bytes, 0x37, b"", b"");
    push_entry(&mut bytes, 0x4A, b"", b"media-type");
    push_entry(&mut bytes, 0x44, b"", b"plain");
    push_entry(&mut bytes, 0x37, b"", b"");
    bytes.push(0x03);

    let resp = IppRequestResponse::from_bytes(&bytes).unwrap();
    let attr = resp.attributes().get(DelimiterTag::PrinterAttributes, "media-col").unwrap();
    match attr.value() {
        IppValue::Collection(members) => {
            assert_eq!(members.len(), 2);
            assert_eq!(members[0].name.as_slice(), b"media-size");
            match &members[0].value {
                IppValue::Collection(inner) => {
                    assert_eq!(inner.len(), 1);
                    assert_eq!(inner[0].name.as_slice(), b"x-dimension");
                    match &inner[0].value {
                        IppValue::Integer(x) => assert_eq!(*x, 21000),
                        _ => panic!("expected Integer"),
                    }
                },
                _ => panic!("expected nested Collection"),
            }
            assert_eq!(members[1].name.as_slice(), b"media-type");
        },
        _ => panic!("expected Collection"),
    }
    let again = resp.to_bytes().unwrap();
    assert_eq!(again, bytes);
}

#[test]
fn built_collection_survives_round_trip() {
    let inner = IppValue::Collection(vec![IppMember {
        name: b"x-dimension".to_vec(),
        value: IppValue::Integer(21000),
    }]);
    let members = vec![
        IppMember { name: b"media-size".to_vec(), value: inner },
        IppMember { name: b"media-type".to_vec(), value: IppValue::keyword("plain") },
    ];
    let mut req = IppRequestResponse::new(
        ipp::operation::Operation::GetPrinterAttributes,
        "ipp://host/printers/p",
    )
    .unwrap();
    req.set_attribute(
        DelimiterTag::OperationAttributes,
        IppAttribute::new("media-col", IppValue::Collection(members)),
    );
    let bytes = req.to_bytes().unwrap();
    let parsed = IppRequestResponse::from_bytes(&bytes).unwrap();
    let again = parsed.to_bytes().unwrap();
    assert_eq!(bytes, again);
}

#[test]
fn lossy_text_decoding_replaces_invalid_bytes() {
    let mut bytes = response_header(0x0000);
    bytes.push(0x04);
    push_entry(&mut bytes, 0x44, b"weird", &[0xFF]);
    bytes.push(0x03);
    let resp = IppRequestResponse::from_bytes(&bytes).unwrap();
    let attr = resp.attributes().get(DelimiterTag::PrinterAttributes, "weird").unwrap();
    assert_eq!(attr.value().as_string().unwrap(), "\u{FFFD}");
}

#[test]
fn missing_attribute_and_wrong_type_errors() {
    let mut bytes = response_header(0x0000);
    bytes.push(0x04);
    push_entry(&mut bytes, 0x22, b"duplex", &[0]);
    bytes.push(0x03);
    let resp = IppRequestResponse::from_bytes(&bytes).unwrap();
    match resp.attributes().require(DelimiterTag::PrinterAttributes, "printer-name") {
        Err(IppError::MissingAttribute(name)) => assert_eq!(name, "printer-name"),
        _ => panic!("expected MissingAttribute"),
    }
    let duplex = resp.attributes().get(DelimiterTag::PrinterAttributes, "duplex").unwrap();
    match duplex.value().as_integer() {
        Err(IppError::InvalidAttributeType) => {},
        _ => panic!("expected InvalidAttributeType"),
    }
}

#[test]
fn exit_codes_follow_the_error_kind() {
    assert_eq!(IppError::ParamError(String::from("x")).as_exit_code(), 1);
    assert_eq!(IppError::TransportError(String::from("x")).as_exit_code(), 2);
    assert_eq!(IppError::IoError(String::from("x")).as_exit_code(), 3);
    assert_eq!(IppError::MalformedStream.as_exit_code(), 4);
    assert_eq!(IppError::MissingAttribute(String::from("x")).as_exit_code(), 5);
    assert_eq!(IppError::InvalidAttributeType.as_exit_code(), 5);
    assert_eq!(IppError::StatusError(0x0400).as_exit_code(), 6);
    assert_eq!(IppError::UnknownValueTag(0x5F).as_exit_code(), 7);
}

#[test]
fn status_names_and_classes() {
    assert!(is_success(0x0000));
    assert!(is_success(0x00FF));
    assert!(!is_success(0x0100));
    assert_eq!(status_class(0x0000), StatusClass::Successful);
    assert_eq!(status_class(0x0100), StatusClass::Informational);
    assert_eq!(status_class(0x0200), StatusClass::Redirection);
    assert_eq!(status_class(0x0400), StatusClass::ClientError);
    assert_eq!(status_class(0x0500), StatusClass::ServerError);
    assert_eq!(status_class(0x0300), StatusClass::Unknown);
    assert_eq!(status_name(0x0000), "successful-ok");
    assert_eq!(status_name(0x0400), "client-error-bad-request");
    assert_eq!(status_name(0x0506), "server-error-not-accepting-jobs");
    assert_eq!(status_name(0x0300), "unknown-status-code");
}

#[test]
fn empty_group_parses_and_round_trips() {
    let mut bytes = response_header(0x0000);
    bytes.push(0x04);
    bytes.push(0x03);
    let resp = IppRequestResponse::from_bytes(&bytes).unwrap();
    let group = resp.attributes().get_group(DelimiterTag::PrinterAttributes).unwrap();
    assert_eq!(group.attributes().len(), 0);
    assert_eq!(resp.to_bytes().unwrap(), bytes);
}

#[test]
fn oversized_value_cannot_be_framed() {
    let mut req = IppRequestResponse::new(
        ipp::operation::Operation::GetPrinterAttributes,
        "ipp://host/printers/p",
    )
    .unwrap();
    req.set_attribute(
        DelimiterTag::OperationAttributes,
        IppAttribute::new("document-data", IppValue::OctetString(vec![0u8; 0x10000])),
    );
    match req.to_bytes() {
        Err(IppError::ParamError(_)) => {},
        _ => panic!("expected ParamError"),
    }
}

#[test]
fn payload_follows_end_of_attributes_on_parse() {
    let mut bytes = response_header(0x0000);
    bytes.push(0x01);
    push_entry(&mut bytes, 0x47, b"attributes-charset", b"utf-8");
    bytes.push(0x03);
    bytes.extend_from_slice(&[9, 8, 7]);
    let resp = IppRequestResponse::from_bytes(&bytes).unwrap();
    assert_eq!(resp.payload().as_slice(), &[9, 8, 7]);
    assert_eq!(resp.to_bytes().unwrap(), bytes);
}
