use cargonode::cn_core::registry::{
    availability_request_error, name_availability, package_info_request_error,
    package_info_status, package_url, unreadable_answer_error, RequestFailure,
};
use cargonode::cn_core::Error;

#[test]
fn package_address() {
    assert_eq!(package_url("express"), "https://registry.npmjs.org/express");
}

#[test]
fn availability_follows_the_status() {
    assert_eq!(name_availability(404), Ok(true));
    assert_eq!(name_availability(200), Ok(false));
    assert_eq!(
        name_availability(500),
        Err(Error::Registry("Unexpected registry response: 500 - 500".to_string()))
    );
    assert_eq!(
        name_availability(429),
        Err(Error::Registry("Unexpected registry response: 429 - 429".to_string()))
    );
}

#[test]
fn package_information_follows_the_status() {
    assert_eq!(package_info_status("react", 200), Ok(()));
    assert_eq!(
        package_info_status("react", 404),
        Err(Error::Registry("Package 'react' not found".to_string()))
    );
    assert_eq!(
        package_info_status("react", 302),
        Err(Error::Registry("Unexpected registry response: 302 - 302".to_string()))
    );
}

#[test]
fn request_failures() {
    assert_eq!(
        availability_request_error(RequestFailure::Timeout),
        Error::Network("Registry request timed out".to_string())
    );
    assert_eq!(
        availability_request_error(RequestFailure::Connect),
        Error::Network("Failed to connect to registry".to_string())
    );
    assert_eq!(
        availability_request_error(RequestFailure::Other("reset".to_string())),
        Error::Network("Registry request failed: reset".to_string())
    );
    assert_eq!(
        package_info_request_error("reset"),
        Error::Network("Registry request failed: reset".to_string())
    );
    assert_eq!(
        unreadable_answer_error("eof"),
        Error::Registry("Failed to parse registry response: eof".to_string())
    );
}
