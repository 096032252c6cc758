use libhfd::error::ApiError;
use libhfd::error::ErrorKind;

#[test]
fn every_error_has_its_sentence() {
    assert_eq!(ApiError::MissingHeader("etag".to_string()).message(), "Header etag is missing");
    assert_eq!(ApiError::InvalidHeader("content-range".to_string()).message(), "Header content-range is invalid");
    assert_eq!(
        ApiError::InvalidHeaderValue("failed to parse header value".to_string()).message(),
        "Invalid header value failed to parse header value"
    );
    assert_eq!(ApiError::ToStr.message(), "header value is not a string");
    assert_eq!(ApiError::RequestError("timed out".to_string()).message(), "request error: timed out");
    assert_eq!(ApiError::ParseIntError.message(), "Cannot parse int");
    assert_eq!(ApiError::IoError("disk full".to_string()).message(), "I/O error disk full");
    assert_eq!(
        ApiError::TryAcquireError("no permits available".to_string()).message(),
        "Try acquire: no permits available"
    );
    assert_eq!(ApiError::AcquireError("semaphore closed".to_string()).message(), "Acquire: semaphore closed");
}

#[test]
fn too_many_retries_reports_what_it_wraps() {
    let inner = ApiError::TooManyRetries(Box::new(ApiError::IoError("x".to_string())));
    let outer = ApiError::TooManyRetries(Box::new(inner));
    assert_eq!(outer.message(), "Too many retries: Too many retries: I/O error x");
}

#[test]
fn every_error_has_its_kind() {
    assert_eq!(ApiError::MissingHeader("etag".to_string()).kind(), ErrorKind::MissingResponseHeader);
    assert_eq!(ApiError::InvalidHeader("etag".to_string()).kind(), ErrorKind::InvalidResponseHeader);
    assert_eq!(ApiError::InvalidHeaderValue("x".to_string()).kind(), ErrorKind::InvalidResponseHeader);
    assert_eq!(ApiError::ToStr.kind(), ErrorKind::InvalidResponseHeader);
    assert_eq!(ApiError::ParseIntError.kind(), ErrorKind::InvalidResponseHeader);
    assert_eq!(ApiError::RequestError("x".to_string()).kind(), ErrorKind::Transport);
    assert_eq!(ApiError::IoError("x".to_string()).kind(), ErrorKind::Io);
    assert_eq!(ApiError::TooManyRetries(Box::new(ApiError::ToStr)).kind(), ErrorKind::TooManyRetries);
    assert_eq!(ApiError::TryAcquireError("x".to_string()).kind(), ErrorKind::ConcurrencyLimit);
    assert_eq!(ApiError::AcquireError("x".to_string()).kind(), ErrorKind::ConcurrencyLimit);
}
