use cloud_meta::error::check_status;
use cloud_meta::{Amazon, Azure, Error, Google, Method, Oracle};

fn headers(h: &[(String, Vec<u8>)]) -> Vec<(String, String)> {
    h.iter().map(|(n, v)| (n.clone(), String::from_utf8(v.clone()).unwrap())).collect()
}

#[test]
fn non_success_status_is_response_error() {
    assert_eq!(check_status(404, b"x".to_vec()), Err(Error::Response(404)));
    assert_eq!(check_status(500, Vec::new()), Err(Error::Response(500)));
    assert_eq!(check_status(199, Vec::new()), Err(Error::Response(199)));
    assert_eq!(check_status(300, Vec::new()), Err(Error::Response(300)));
    assert_eq!(check_status(200, b"ok".to_vec()), Ok(b"ok".to_vec()));
    assert_eq!(check_status(299, Vec::new()), Ok(Vec::new()));
}

#[test]
fn amazon_instance_request_with_token() {
    let amazon = Amazon::new();
    let req = amazon.instance(Some(b"tok-1")).unwrap();
    assert_eq!(req.method, Method::Get);
    assert_eq!(req.uri, "http://169.254.169.254/2021-07-15/dynamic/instance-identity/document");
    assert_eq!(headers(&req.headers), vec![("X-aws-ec2-metadata-token".to_string(), "tok-1".to_string())]);
}

#[test]
fn amazon_get_without_token_has_no_header() {
    let amazon = Amazon::new();
    let req = amazon.get("meta-data/", None).unwrap();
    assert_eq!(req.uri, "http://169.254.169.254/2021-07-15/meta-data/");
    assert!(req.headers.is_empty());
}

#[test]
fn amazon_token_failure_still_asks_for_document() {
    let amazon = Amazon::new();
    let req = amazon.instance_after_token(Err(Error::Response(403))).unwrap();
    assert_eq!(req.method, Method::Get);
    assert_eq!(req.uri, "http://169.254.169.254/2021-07-15/dynamic/instance-identity/document");
    assert!(req.headers.is_empty());
    let req = amazon.instance_after_token(Ok(b"abc".to_vec())).unwrap();
    assert_eq!(headers(&req.headers), vec![("X-aws-ec2-metadata-token".to_string(), "abc".to_string())]);
}

#[test]
fn amazon_token_request_carries_ttl() {
    let amazon = Amazon::new();
    let req = amazon.token(60).unwrap();
    assert_eq!(req.method, Method::Put);
    assert_eq!(req.uri, "http://169.254.169.254/latest/api/token");
    assert_eq!(headers(&req.headers), vec![("X-aws-ec2-metadata-token-ttl-seconds".to_string(), "60".to_string())]);
    let req = amazon.token(0).unwrap();
    assert_eq!(req.headers[0].1, b"0".to_vec());
    let req = amazon.token(u64::MAX).unwrap();
    assert_eq!(req.headers[0].1, b"18446744073709551615".to_vec());
}

#[test]
fn amazon_rejects_bad_token_and_bad_path() {
    let amazon = Amazon::new();
    assert_eq!(
        amazon.instance(Some(b"bad\ntoken")).err(),
        Some(Error::Internal("failed to parse header value".to_string()))
    );
    assert!(matches!(amazon.get("a b", None), Err(Error::Internal(_))));
}

#[test]
fn azure_instance_request() {
    let req = Azure::new().instance().unwrap();
    assert_eq!(req.method, Method::Get);
    assert_eq!(req.uri, "http://169.254.169.254/metadata/instance?api-version=2021-05-01");
    assert_eq!(headers(&req.headers), vec![("Metadata".to_string(), "true".to_string())]);
    assert!(matches!(Azure::new().get("a b"), Err(Error::Internal(_))));
}

#[test]
fn google_instance_request() {
    let google = Google::new();
    let req = google.instance().unwrap();
    assert_eq!(req.uri, "http://metadata.google.internal/computeMetadata/v1/instance/?recursive=true");
    assert_eq!(headers(&req.headers), vec![("Metadata-Flavor".to_string(), "Google".to_string())]);
    let req = google.get("project/project-id", false).unwrap();
    assert_eq!(req.uri, "http://metadata.google.internal/computeMetadata/v1/project/project-id?recursive=false");
    assert!(matches!(google.get("a b", false), Err(Error::Internal(_))));
}

#[test]
fn oracle_instance_request() {
    let req = Oracle::new().instance().unwrap();
    assert_eq!(req.method, Method::Get);
    assert_eq!(req.uri, "http://169.254.169.254/opc/v2/instance");
    assert_eq!(headers(&req.headers), vec![("Authorization".to_string(), "Bearer Oracle".to_string())]);
    assert!(matches!(Oracle::new().get("a b"), Err(Error::Internal(_))));
}
