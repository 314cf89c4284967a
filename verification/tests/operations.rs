use ipp::attribute::{DelimiterTag, IppAttribute};
use ipp::operation::{
    CreateJob, CupsGetPrinters, GetPrinterAttributes, IppOperation, PrintJob, SendDocument,
};
use ipp::request::IppRequestResponse;
use ipp::value::IppValue;
use ipp::{IppError, IppHeader, IppReader, ReadIppExt};

fn expect_entry(out: &mut Vec<u8>, tag: u8, name: &[u8], value: &[u8]) {
    out.push(tag);
    out.push((name.len() >> 8) as u8);
    out.push((name.len() & 0xff) as u8);
    out.extend_from_slice(name);
    out.push((value.len() >> 8) as u8);
    out.push((value.len() & 0xff) as u8);
    out.extend_from_slice(value);
}

#[test]
fn get_printer_attributes_request_bytes() {
    // the exact wire form of a Get-Printer-Attributes request with two
    // requested attribute names
    let op = GetPrinterAttributes::with_attributes(vec![
        String::from("printer-name"),
        String::from("printer-state"),
    ]);
    let req = op.into_ipp_request("ipp://host/printers/p").unwrap();
    let bytes = req.to_bytes().unwrap();

    let mut expected: Vec<u8> = vec![0x01, 0x01, 0x00, 0x0B, 0x00, 0x00, 0x00, 0x01, 0x01];
    expect_entry(&mut expected, 0x47, b"attributes-charset", b"utf-8");
    expect_entry(&mut expected, 0x48, b"attributes-natural-language", b"en");
    expect_entry(&mut expected, 0x45, b"printer-uri", b"ipp://host/printers/p");
    expect_entry(&mut expected, 0x44, b"requested-attributes", b"printer-name");
    expect_entry(&mut expected, 0x44, b"", b"printer-state");
    expected.push(0x03);
    assert_eq!(bytes, expected);
}

#[test]
fn get_printer_attributes_without_names_has_no_requested_attributes() {
    let req = GetPrinterAttributes::new().into_ipp_request("ipp://host/printers/p").unwrap();
    assert!(req.attributes().get(
        DelimiterTag::OperationAttributes,
        "requested-attributes",
    ).is_none());
    assert!(req.attributes().get(DelimiterTag::OperationAttributes, "printer-uri").is_some());
}

#[test]
fn create_job_then_send_document() {
    // a Create-Job response carrying job-id = 42 in job-attributes
    let mut resp_bytes: Vec<u8> =
        vec![0x01, 0x01, 0x00, 0x00, 0x00, 0x00, 0x00, 0x01, 0x02];
    expect_entry(&mut resp_bytes, 0x21, b"job-id", &[0, 0, 0, 42]);
    resp_bytes.push(0x03);
    let resp = IppRequestResponse::from_bytes(&resp_bytes).unwrap();
    let job_id = resp
        .attributes()
        .get(DelimiterTag::JobAttributes, "job-id")
        .unwrap()
        .value()
        .as_integer()
        .unwrap();
    assert_eq!(job_id, 42);

    // a Send-Document with that job id, last = true, and a 3-byte payload
    let op = SendDocument::new(job_id, vec![0xAA, 0xBB, 0xCC], Some(String::from("user")), true);
    let req = op.into_ipp_request("ipp://host/printers/p").unwrap();
    let bytes = req.to_bytes().unwrap();
    assert_eq!(&bytes[bytes.len() - 3..], &[0xAA, 0xBB, 0xCC]);

    let attrs = req.attributes();
    let sent_id = attrs.get(DelimiterTag::OperationAttributes, "job-id").unwrap();
    assert_eq!(sent_id.value().as_integer().unwrap(), 42);
    let last = attrs.get(DelimiterTag::OperationAttributes, "last-document").unwrap();
    assert_eq!(last.value().as_boolean().unwrap(), true);

    // on the wire: job-id = integer 42, last-document = boolean 1
    let mut id_entry: Vec<u8> = Vec::new();
    expect_entry(&mut id_entry, 0x21, b"job-id", &[0, 0, 0, 42]);
    assert!(bytes.windows(id_entry.len()).any(|w| w == id_entry.as_slice()));
    let mut last_entry: Vec<u8> = Vec::new();
    expect_entry(&mut last_entry, 0x22, b"last-document", &[1]);
    assert!(bytes.windows(last_entry.len()).any(|w| w == last_entry.as_slice()));
}

#[test]
fn print_job_carries_names_and_payload() {
    let mut op = PrintJob::new(
        vec![1, 2, 3, 4],
        Some(String::from("alice")),
        Some(String::from("report")),
    );
    op.add_attribute(IppAttribute::new("colormodel", IppValue::keyword("grayscale")));
    let req = op.into_ipp_request("ipp://host/printers/p").unwrap();

    let attrs = req.attributes();
    let user = attrs.get(DelimiterTag::OperationAttributes, "requesting-user-name").unwrap();
    assert_eq!(user.value().as_string().unwrap(), "alice");
    let job = attrs.get(DelimiterTag::OperationAttributes, "job-name").unwrap();
    assert_eq!(job.value().as_string().unwrap(), "report");
    let cm = attrs.get(DelimiterTag::JobAttributes, "colormodel").unwrap();
    assert_eq!(cm.value().as_string().unwrap(), "grayscale");

    let bytes = req.to_bytes().unwrap();
    assert_eq!(&bytes[bytes.len() - 4..], &[1, 2, 3, 4]);
    // a parse of our own request gives the same bytes back
    let parsed = IppRequestResponse::from_bytes(&bytes).unwrap();
    assert_eq!(parsed.to_bytes().unwrap(), bytes);
    assert_eq!(parsed.payload().as_slice(), &[1, 2, 3, 4]);
}

#[test]
fn create_job_groups() {
    let mut op = CreateJob::new(Some(String::from("big-job")));
    op.add_attribute(IppAttribute::new("copies", IppValue::Integer(2)));
    let req = op.into_ipp_request("ipp://host/printers/p").unwrap();
    assert_eq!(req.header().operation_status, 0x0005);
    let jn = req.attributes().get(DelimiterTag::OperationAttributes, "job-name").unwrap();
    assert_eq!(jn.value().as_string().unwrap(), "big-job");
    let copies = req.attributes().get(DelimiterTag::JobAttributes, "copies").unwrap();
    assert_eq!(copies.value().as_integer().unwrap(), 2);
}

#[test]
fn cups_get_printers_request() {
    let req = CupsGetPrinters::new().into_ipp_request("ipp://host/").unwrap();
    assert_eq!(req.header().operation_status, 0x4002);
    assert_eq!(req.header().version, 0x0101);
    assert_ne!(req.header().request_id, 0);
}

#[test]
fn empty_uri_is_param_error() {
    match GetPrinterAttributes::new().into_ipp_request("") {
        Err(IppError::ParamError(_)) => {},
        _ => panic!("expected ParamError"),
    }
    match PrintJob::new(vec![], None::<String>, None::<String>).into_ipp_request("") {
        Err(IppError::ParamError(_)) => {},
        _ => panic!("expected ParamError"),
    }
}

#[test]
fn set_attribute_replaces_by_name() {
    let mut req = IppRequestResponse::new(
        ipp::operation::Operation::GetPrinterAttributes,
        "ipp://host/printers/p",
    )
    .unwrap();
    req.set_attribute(
        DelimiterTag::OperationAttributes,
        IppAttribute::new("requesting-user-name", IppValue::name_without_language("a")),
    );
    req.set_attribute(
        DelimiterTag::OperationAttributes,
        IppAttribute::new("requesting-user-name", IppValue::name_without_language("b")),
    );
    let group = req.attributes().get_group(DelimiterTag::OperationAttributes).unwrap();
    assert_eq!(group.attributes().len(), 4);
    let user = group.get("requesting-user-name").unwrap();
    assert_eq!(user.value().as_string().unwrap(), "b");
}

#[test]
fn reader_reads_header_and_strings() {
    let data: Vec<u8> = vec![0x01, 0x01, 0x04, 0x00, 0x00, 0x00, 0x00, 0x2A, b'h', b'i'];
    let mut reader = IppReader::new(data);
    let header = IppHeader::from_reader(&mut reader).unwrap();
    assert_eq!(header.version, 0x0101);
    assert_eq!(header.operation_status, 0x0400);
    assert_eq!(header.request_id, 42);
    let text = reader.read_string(2).unwrap();
    assert_eq!(text, "hi");
    match reader.read_vec(1) {
        Err(IppError::IoError(_)) => {},
        _ => panic!("expected IoError"),
    }
}

#[test]
fn header_write_emits_big_endian() {
    let header = IppHeader::new(0x0101, 0x000B, 0x01020304);
    let mut out: Vec<u8> = Vec::new();
    header.write(&mut out);
    assert_eq!(out, vec![0x01, 0x01, 0x00, 0x0B, 0x01, 0x02, 0x03, 0x04]);
}

#[test]
fn client_prepare_builds_request_bytes() {
    let client = ipp::client::IppClient::new("ipp://host/printers/p");
    let bytes = client.prepare(GetPrinterAttributes::new()).unwrap();
    assert_eq!(&bytes[0..4], &[0x01, 0x01, 0x00, 0x0B]);
    assert_eq!(*bytes.last().unwrap(), 0x03);
}
