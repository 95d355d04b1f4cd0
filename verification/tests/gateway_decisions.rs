use rover_ops::gateway::{
    backend_urls_outcome, backend_urls_rejection, rover_creation_result, rover_update_result,
    AuthBody,
};
use rover_ops::numtext::i32_string;
use rover_ops::types::Urls;

#[test]
fn auth_body_wraps_the_token_with_the_bearer_scheme() {
    let body = AuthBody::new("tok123".to_string());
    assert_eq!(body.access_token, "tok123".to_string());
    assert_eq!(body.token_type, "Bearer".to_string());
}

#[test]
fn empty_backend_url_is_rejected() {
    let urls = Urls { image_server_url: "".to_string() };
    let rejection = backend_urls_rejection(&urls).expect("empty url is rejected");
    assert_eq!(rejection.info, "Image server URL cannot be empty".to_string());
    assert_eq!(rejection.status, 0);
}

#[test]
fn present_backend_url_is_accepted() {
    let urls = Urls { image_server_url: "http://svc/data".to_string() };
    assert!(backend_urls_rejection(&urls).is_none());
}

#[test]
fn backend_url_store_outcomes() {
    let ok = backend_urls_outcome(Ok(()));
    assert_eq!(ok.status, 1);
    assert_eq!(ok.info, "".to_string());
    let err = backend_urls_outcome(Err("down".to_string()));
    assert_eq!(err.status, 0);
    assert_eq!(err.info, "Redis error: down".to_string());
}

#[test]
fn device_update_acknowledgement() {
    let ok = rover_update_result("1");
    assert_eq!((ok.status, ok.info.as_str(), ok.time.as_str()), (1, "success", ""));
    let fail = rover_update_result("0");
    assert_eq!((fail.status, fail.info.as_str()), (0, "fail"));
    let odd = rover_update_result("oops");
    assert_eq!((odd.status, odd.info.as_str()), (0, "fail"));
}

#[test]
fn device_creation_acknowledgement() {
    let ok = rover_creation_result(true);
    assert_eq!((ok.status, ok.info.as_str()), (1, "success"));
    let fail = rover_creation_result(false);
    assert_eq!((fail.status, fail.info.as_str()), (0, "fail"));
}

#[test]
fn decimal_text_of_identifiers() {
    assert_eq!(i32_string(0), "0".to_string());
    assert_eq!(i32_string(42), "42".to_string());
    assert_eq!(i32_string(-1), "-1".to_string());
    assert_eq!(i32_string(1000), "1000".to_string());
    assert_eq!(i32_string(i32::MAX), "2147483647".to_string());
    assert_eq!(i32_string(i32::MIN), "-2147483648".to_string());
}
