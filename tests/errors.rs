use woof::error::{InvalidPathSegment, MissingPathSegment};
use woof::Error;

#[test]
fn error_statuses() {
    assert_eq!(MissingPathSegment("id").status_code(), 404);
    assert_eq!(InvalidPathSegment("id").status_code(), 400);
    assert_eq!(Error::NotFound.status_code(), 404);
    assert_eq!(Error::Conflict("dup".to_string()).status_code(), 409);
    assert_eq!(Error::Backend("down".to_string()).status_code(), 500);
}

#[test]
fn error_messages() {
    assert_eq!(MissingPathSegment("post_id").message(), "Missing path segment post_id");
    assert_eq!(InvalidPathSegment("voter").message(), "Invalid path segment voter");
    assert_eq!(Error::NotFound.message(), "Not found");
    assert_eq!(Error::Backend("down".to_string()).message(), "down");
}
