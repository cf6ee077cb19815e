use domain_probe::probe::tls::{cert_info_of, parse_cert, CertFields, SanName};


/// A self-signed certificate for `test.example`, valid through 2024, with
/// the alternative names `test.example`, `192.0.2.7` and `www.test.example`.
const CERT: [u8; 456] = [
    0x30, 0x82, 0x01, 0xc4, 0x30, 0x82, 0x01, 0x69, 0xa0, 0x03, 0x02, 0x01, 0x02, 0x02, 0x01, 0x01,
    0x30, 0x0a, 0x06, 0x08, 0x2a, 0x86, 0x48, 0xce, 0x3d, 0x04, 0x03, 0x02, 0x30, 0x27, 0x31, 0x15,
    0x30, 0x13, 0x06, 0x03, 0x55, 0x04, 0x03, 0x0c, 0x0c, 0x74, 0x65, 0x73, 0x74, 0x2e, 0x65, 0x78,
    0x61, 0x6d, 0x70, 0x6c, 0x65, 0x31, 0x0e, 0x30, 0x0c, 0x06, 0x03, 0x55, 0x04, 0x0a, 0x0c, 0x05,
    0x50, 0x72, 0x6f, 0x62, 0x65, 0x30, 0x1e, 0x17, 0x0d, 0x32, 0x34, 0x30, 0x31, 0x30, 0x31, 0x30,
    0x30, 0x30, 0x30, 0x30, 0x30, 0x5a, 0x17, 0x0d, 0x32, 0x35, 0x30, 0x31, 0x30, 0x31, 0x30, 0x30,
    0x30, 0x30, 0x30, 0x30, 0x5a, 0x30, 0x27, 0x31, 0x15, 0x30, 0x13, 0x06, 0x03, 0x55, 0x04, 0x03,
    0x0c, 0x0c, 0x74, 0x65, 0x73, 0x74, 0x2e, 0x65, 0x78, 0x61, 0x6d, 0x70, 0x6c, 0x65, 0x31, 0x0e,
    0x30, 0x0c, 0x06, 0x03, 0x55, 0x04, 0x0a, 0x0c, 0x05, 0x50, 0x72, 0x6f, 0x62, 0x65, 0x30, 0x59,
    0x30, 0x13, 0x06, 0x07, 0x2a, 0x86, 0x48, 0xce, 0x3d, 0x02, 0x01, 0x06, 0x08, 0x2a, 0x86, 0x48,
    0xce, 0x3d, 0x03, 0x01, 0x07, 0x03, 0x42, 0x00, 0x04, 0xa5, 0xa6, 0xa7, 0xb4, 0xc5, 0x28, 0x59,
    0x91, 0x23, 0x71, 0xd3, 0x0a, 0x37, 0xa0, 0x10, 0xea, 0x42, 0xe1, 0x7d, 0xcb, 0x2e, 0x6e, 0x8a,
    0xae, 0x9a, 0x16, 0xb0, 0x81, 0x3c, 0x2b, 0xef, 0xfe, 0x74, 0x65, 0x2b, 0xca, 0xc9, 0x24, 0x9e,
    0xc3, 0xaa, 0xb9, 0xf5, 0xa2, 0xaf, 0x45, 0x46, 0x18, 0x5a, 0x06, 0xff, 0x44, 0xbb, 0xae, 0x71,
    0x2f, 0xf8, 0x90, 0x52, 0xc4, 0x96, 0x9e, 0x10, 0xfc, 0xa3, 0x81, 0x85, 0x30, 0x81, 0x82, 0x30,
    0x1d, 0x06, 0x03, 0x55, 0x1d, 0x0e, 0x04, 0x16, 0x04, 0x14, 0x6c, 0x56, 0xbf, 0x41, 0xb3, 0x8b,
    0x54, 0x38, 0x63, 0xa7, 0xf2, 0x28, 0x8a, 0x9b, 0xfd, 0xf1, 0xa2, 0x8d, 0x38, 0x5b, 0x30, 0x1f,
    0x06, 0x03, 0x55, 0x1d, 0x23, 0x04, 0x18, 0x30, 0x16, 0x80, 0x14, 0x6c, 0x56, 0xbf, 0x41, 0xb3,
    0x8b, 0x54, 0x38, 0x63, 0xa7, 0xf2, 0x28, 0x8a, 0x9b, 0xfd, 0xf1, 0xa2, 0x8d, 0x38, 0x5b, 0x30,
    0x0f, 0x06, 0x03, 0x55, 0x1d, 0x13, 0x01, 0x01, 0xff, 0x04, 0x05, 0x30, 0x03, 0x01, 0x01, 0xff,
    0x30, 0x2f, 0x06, 0x03, 0x55, 0x1d, 0x11, 0x04, 0x28, 0x30, 0x26, 0x82, 0x0c, 0x74, 0x65, 0x73,
    0x74, 0x2e, 0x65, 0x78, 0x61, 0x6d, 0x70, 0x6c, 0x65, 0x87, 0x04, 0xc0, 0x00, 0x02, 0x07, 0x82,
    0x10, 0x77, 0x77, 0x77, 0x2e, 0x74, 0x65, 0x73, 0x74, 0x2e, 0x65, 0x78, 0x61, 0x6d, 0x70, 0x6c,
    0x65, 0x30, 0x0a, 0x06, 0x08, 0x2a, 0x86, 0x48, 0xce, 0x3d, 0x04, 0x03, 0x02, 0x03, 0x49, 0x00,
    0x30, 0x46, 0x02, 0x21, 0x00, 0xc2, 0xe0, 0x39, 0x2d, 0x96, 0x5e, 0xb1, 0x23, 0x42, 0x81, 0x81,
    0x43, 0x25, 0xeb, 0x28, 0x13, 0xd6, 0x1b, 0x30, 0x5d, 0x60, 0xd4, 0x9b, 0xfd, 0x89, 0x99, 0x1c,
    0xb1, 0xe0, 0x71, 0xdf, 0x8f, 0x02, 0x21, 0x00, 0xe5, 0x40, 0x53, 0xf4, 0x53, 0x94, 0x06, 0x67,
    0x78, 0x23, 0x3a, 0xd6, 0x1e, 0x7c, 0xfb, 0x64, 0xce, 0xe5, 0x83, 0xd0, 0xc8, 0x18, 0xb8, 0x83,
    0xe0, 0xb3, 0x5e, 0x8b, 0x8d, 0x93, 0x4d, 0x04,
];

#[test]
fn parse_cert_reads_names_dates_and_alternative_names() {
    let f = parse_cert(&CERT).unwrap();
    assert_eq!(f.subject.as_deref(), Some("test.example"));
    assert_eq!(f.issuer.as_deref(), Some("test.example"));
    assert_eq!(f.not_before_secs, 1_704_067_200);
    assert_eq!(f.not_after_secs, 1_735_689_600);
    assert_eq!(f.san.len(), 3);
    assert!(matches!(&f.san[0], SanName::Dns(d) if d == "test.example"));
    assert!(matches!(&f.san[1], SanName::Ip(b) if b == &vec![192, 0, 2, 7]));
    assert!(matches!(&f.san[2], SanName::Dns(d) if d == "www.test.example"));
    let c = cert_info_of(Some(f), vec!["192.0.2.7".to_string()], true);
    assert_eq!(c.subject, "test.example");
    assert_eq!(c.san, vec!["test.example".to_string(), "192.0.2.7".to_string(), "www.test.example".to_string()]);
    assert_eq!(c.not_before.map(|t| (t.secs, t.nanos)), Some((1_704_067_200, 0)));
    assert!(c.is_leaf);
}

#[test]
fn parse_cert_refuses_bytes_that_are_no_certificate() {
    assert!(parse_cert(&[0x30, 0x03, 0x02, 0x01, 0x01]).is_none());
    assert!(parse_cert(&[]).is_none());
}

#[test]
fn unparsed_and_nameless_certificates() {
    let c = cert_info_of(None, vec![], false);
    assert_eq!(c.subject, "(parse error)");
    assert_eq!(c.issuer, "(parse error)");
    assert!(c.not_before.is_none() && c.san.is_empty() && !c.is_leaf);
    let f = CertFields {
        subject: None,
        issuer: Some("CA".to_string()),
        not_before_secs: 0,
        not_after_secs: 86_400,
        san: vec![SanName::Other, SanName::Ip(vec![0; 16]), SanName::Dns("a.example".to_string()), SanName::Ip(vec![1, 2])],
    };
    let c = cert_info_of(Some(f), vec!["::".to_string(), "IP:[01, 02]".to_string()], true);
    assert_eq!(c.subject, "");
    assert_eq!(c.issuer, "CA");
    assert_eq!(c.san, vec!["::".to_string(), "a.example".to_string(), "IP:[01, 02]".to_string()]);
    assert_eq!(c.not_after.map(|t| (t.secs, t.nanos)), Some((86_400, 0)));
}
