use rubyshd::tls::{extract_client_certificate_details, ClientCertificateDetails};

fn certificate_of_alice() -> Vec<u8> {
    vec![
    0x30, 0x82, 0x01, 0x9c, 0x30, 0x82, 0x01, 0x41, 0xa0, 0x03, 0x02, 0x01, 0x02, 0x02, 0x14, 0x79,
    0x5e, 0x03, 0xe6, 0x8a, 0xdc, 0xf6, 0x1b, 0x16, 0x02, 0xfc, 0x7f, 0x10, 0x1d, 0x25, 0xc9, 0x8d,
    0x00, 0x1e, 0xda, 0x30, 0x0a, 0x06, 0x08, 0x2a, 0x86, 0x48, 0xce, 0x3d, 0x04, 0x03, 0x02, 0x30,
    0x22, 0x31, 0x0e, 0x30, 0x0c, 0x06, 0x03, 0x55, 0x04, 0x03, 0x0c, 0x05, 0x61, 0x6c, 0x69, 0x63,
    0x65, 0x31, 0x10, 0x30, 0x0e, 0x06, 0x03, 0x55, 0x04, 0x0a, 0x0c, 0x07, 0x45, 0x78, 0x61, 0x6d,
    0x70, 0x6c, 0x65, 0x30, 0x20, 0x17, 0x0d, 0x32, 0x36, 0x31, 0x30, 0x32, 0x38, 0x32, 0x31, 0x31,
    0x34, 0x35, 0x30, 0x5a, 0x18, 0x0f, 0x32, 0x31, 0x32, 0x36, 0x31, 0x30, 0x30, 0x34, 0x32, 0x31,
    0x31, 0x34, 0x35, 0x30, 0x5a, 0x30, 0x22, 0x31, 0x0e, 0x30, 0x0c, 0x06, 0x03, 0x55, 0x04, 0x03,
    0x0c, 0x05, 0x61, 0x6c, 0x69, 0x63, 0x65, 0x31, 0x10, 0x30, 0x0e, 0x06, 0x03, 0x55, 0x04, 0x0a,
    0x0c, 0x07, 0x45, 0x78, 0x61, 0x6d, 0x70, 0x6c, 0x65, 0x30, 0x59, 0x30, 0x13, 0x06, 0x07, 0x2a,
    0x86, 0x48, 0xce, 0x3d, 0x02, 0x01, 0x06, 0x08, 0x2a, 0x86, 0x48, 0xce, 0x3d, 0x03, 0x01, 0x07,
    0x03, 0x42, 0x00, 0x04, 0x97, 0x9a, 0x25, 0x2b, 0xc1, 0xb0, 0x4c, 0xe5, 0x0c, 0x61, 0xc2, 0x7c,
    0x00, 0x91, 0x2d, 0x9a, 0xd0, 0x8c, 0x2e, 0x3e, 0xb6, 0x93, 0x3b, 0xe8, 0x5d, 0x1a, 0x56, 0x93,
    0x36, 0x8c, 0x99, 0x1e, 0xa4, 0x61, 0xdb, 0x7b, 0x83, 0xf8, 0xa1, 0x48, 0xd0, 0xe8, 0x5d, 0xc4,
    0xd1, 0xa6, 0xbd, 0xbf, 0x95, 0xbd, 0xf5, 0x1c, 0x0e, 0xac, 0xe8, 0xf2, 0x93, 0x7d, 0x6e, 0xd6,
    0x85, 0x13, 0xee, 0x54, 0xa3, 0x53, 0x30, 0x51, 0x30, 0x1d, 0x06, 0x03, 0x55, 0x1d, 0x0e, 0x04,
    0x16, 0x04, 0x14, 0x41, 0x5e, 0x48, 0xa6, 0xdd, 0x1f, 0xe0, 0x64, 0xf6, 0xc9, 0x4b, 0xda, 0x18,
    0x7e, 0x3c, 0x72, 0x8c, 0xf4, 0xe4, 0x29, 0x30, 0x1f, 0x06, 0x03, 0x55, 0x1d, 0x23, 0x04, 0x18,
    0x30, 0x16, 0x80, 0x14, 0x41, 0x5e, 0x48, 0xa6, 0xdd, 0x1f, 0xe0, 0x64, 0xf6, 0xc9, 0x4b, 0xda,
    0x18, 0x7e, 0x3c, 0x72, 0x8c, 0xf4, 0xe4, 0x29, 0x30, 0x0f, 0x06, 0x03, 0x55, 0x1d, 0x13, 0x01,
    0x01, 0xff, 0x04, 0x05, 0x30, 0x03, 0x01, 0x01, 0xff, 0x30, 0x0a, 0x06, 0x08, 0x2a, 0x86, 0x48,
    0xce, 0x3d, 0x04, 0x03, 0x02, 0x03, 0x49, 0x00, 0x30, 0x46, 0x02, 0x21, 0x00, 0xf5, 0xb4, 0x02,
    0xea, 0xe9, 0x69, 0xad, 0xe8, 0xb8, 0xba, 0x6a, 0x5a, 0x2d, 0xa4, 0xe6, 0x40, 0x17, 0x85, 0x0a,
    0xba, 0xa6, 0x03, 0x31, 0x6f, 0xde, 0xc3, 0x9a, 0x15, 0xdf, 0xc0, 0xa0, 0x9b, 0x02, 0x21, 0x00,
    0xf7, 0x28, 0xed, 0xbe, 0x21, 0x4c, 0xaf, 0xa4, 0x00, 0x3d, 0x83, 0x60, 0x9b, 0x31, 0xd8, 0x96,
    0x17, 0xbc, 0xc1, 0xcc, 0x97, 0x0e, 0xa0, 0xfd, 0x95, 0x33, 0x80, 0xa7, 0x29, 0x04, 0x50, 0xaf,
    ]
}

fn certificate_without_common_name() -> Vec<u8> {
    vec![
    0x30, 0x82, 0x01, 0x79, 0x30, 0x82, 0x01, 0x1f, 0xa0, 0x03, 0x02, 0x01, 0x02, 0x02, 0x14, 0x53,
    0x18, 0x51, 0x97, 0x82, 0x17, 0xaa, 0x59, 0x89, 0xc0, 0x93, 0x27, 0xb6, 0xb6, 0x65, 0x52, 0x6a,
    0xbd, 0x78, 0x06, 0x30, 0x0a, 0x06, 0x08, 0x2a, 0x86, 0x48, 0xce, 0x3d, 0x04, 0x03, 0x02, 0x30,
    0x11, 0x31, 0x0f, 0x30, 0x0d, 0x06, 0x03, 0x55, 0x04, 0x0a, 0x0c, 0x06, 0x4e, 0x6f, 0x4e, 0x61,
    0x6d, 0x65, 0x30, 0x20, 0x17, 0x0d, 0x32, 0x36, 0x31, 0x30, 0x32, 0x38, 0x32, 0x31, 0x31, 0x34,
    0x35, 0x30, 0x5a, 0x18, 0x0f, 0x32, 0x31, 0x32, 0x36, 0x31, 0x30, 0x30, 0x34, 0x32, 0x31, 0x31,
    0x34, 0x35, 0x30, 0x5a, 0x30, 0x11, 0x31, 0x0f, 0x30, 0x0d, 0x06, 0x03, 0x55, 0x04, 0x0a, 0x0c,
    0x06, 0x4e, 0x6f, 0x4e, 0x61, 0x6d, 0x65, 0x30, 0x59, 0x30, 0x13, 0x06, 0x07, 0x2a, 0x86, 0x48,
    0xce, 0x3d, 0x02, 0x01, 0x06, 0x08, 0x2a, 0x86, 0x48, 0xce, 0x3d, 0x03, 0x01, 0x07, 0x03, 0x42,
    0x00, 0x04, 0x5d, 0x54, 0x4b, 0x44, 0x50, 0x3a, 0x12, 0x58, 0xd4, 0xeb, 0x5a, 0x71, 0x88, 0x5e,
    0x56, 0x0d, 0xd3, 0x51, 0x73, 0xda, 0x0f, 0xfc, 0x21, 0x2a, 0x2e, 0x32, 0x95, 0x26, 0x9e, 0xd4,
    0x6f, 0xdc, 0x0b, 0xdf, 0x1b, 0x73, 0x3a, 0xab, 0x8c, 0x94, 0x74, 0xd0, 0xa2, 0xcc, 0x17, 0x6d,
    0x92, 0x16, 0xb1, 0x50, 0x4d, 0xfb, 0x49, 0x59, 0x46, 0x65, 0xdb, 0x4a, 0x16, 0x83, 0xd5, 0x4c,
    0xb3, 0xb5, 0xa3, 0x53, 0x30, 0x51, 0x30, 0x1d, 0x06, 0x03, 0x55, 0x1d, 0x0e, 0x04, 0x16, 0x04,
    0x14, 0x9c, 0xdc, 0xfb, 0xb5, 0x50, 0x79, 0x1d, 0x70, 0x81, 0xc8, 0x3c, 0x53, 0xd6, 0xdb, 0x41,
    0x0c, 0xf5, 0x23, 0xf8, 0x72, 0x30, 0x1f, 0x06, 0x03, 0x55, 0x1d, 0x23, 0x04, 0x18, 0x30, 0x16,
    0x80, 0x14, 0x9c, 0xdc, 0xfb, 0xb5, 0x50, 0x79, 0x1d, 0x70, 0x81, 0xc8, 0x3c, 0x53, 0xd6, 0xdb,
    0x41, 0x0c, 0xf5, 0x23, 0xf8, 0x72, 0x30, 0x0f, 0x06, 0x03, 0x55, 0x1d, 0x13, 0x01, 0x01, 0xff,
    0x04, 0x05, 0x30, 0x03, 0x01, 0x01, 0xff, 0x30, 0x0a, 0x06, 0x08, 0x2a, 0x86, 0x48, 0xce, 0x3d,
    0x04, 0x03, 0x02, 0x03, 0x48, 0x00, 0x30, 0x45, 0x02, 0x20, 0x5d, 0x73, 0x37, 0xaf, 0xe5, 0xa0,
    0xbe, 0x51, 0x53, 0xda, 0x4e, 0xca, 0x4a, 0x55, 0x1f, 0xdd, 0x02, 0x14, 0x53, 0x37, 0xae, 0x29,
    0x37, 0xed, 0xc9, 0x7c, 0xd4, 0x34, 0xc0, 0xab, 0x38, 0xb5, 0x02, 0x21, 0x00, 0xfb, 0x35, 0x39,
    0x69, 0x47, 0x2c, 0xe7, 0xc2, 0x7e, 0xc4, 0xe8, 0xfb, 0xbd, 0x8a, 0x30, 0x33, 0x31, 0x5b, 0x95,
    0x70, 0x5e, 0xd7, 0x35, 0xb2, 0x3b, 0xec, 0xe3, 0x17, 0x81, 0x45, 0x5c, 0xf9,
    ]
}

#[test]
fn the_anonymous_identity_is_called_anonymous() {
    let identity = ClientCertificateDetails::new_anonymous();
    assert!(identity.is_anonymous());
    assert_eq!(identity.common_name(), "anonymous");
    assert_eq!(identity.to_string(), "anonymous");
}

#[test]
fn an_authenticated_identity_is_called_by_its_name() {
    let identity = ClientCertificateDetails::new_authenticated("alice");
    assert!(!identity.is_anonymous());
    assert_eq!(identity.common_name(), "alice");
    assert_eq!(identity.to_string(), "alice");
}

#[test]
fn without_certificates_the_peer_is_anonymous() {
    assert!(extract_client_certificate_details(None).is_anonymous());
    let empty: Vec<Vec<u8>> = vec![];
    assert!(extract_client_certificate_details(Some(&empty)).is_anonymous());
}

#[test]
fn the_common_name_of_the_first_certificate_is_the_identity() {
    let chain = vec![certificate_of_alice(), certificate_without_common_name()];
    let identity = extract_client_certificate_details(Some(&chain));
    assert_eq!(identity, ClientCertificateDetails::new_authenticated("alice"));
}

#[test]
fn only_the_first_certificate_counts() {
    let chain = vec![certificate_without_common_name(), certificate_of_alice()];
    assert!(extract_client_certificate_details(Some(&chain)).is_anonymous());
}

#[test]
fn a_certificate_that_cannot_be_parsed_gives_the_anonymous_identity() {
    let chain = vec![vec![0x30, 0x03, 0x01, 0x02, 0x03]];
    assert!(extract_client_certificate_details(Some(&chain)).is_anonymous());
    let mut cut = certificate_of_alice();
    cut.truncate(100);
    assert!(extract_client_certificate_details(Some(&vec![cut])).is_anonymous());
}
