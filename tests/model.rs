use blog_engine::model::{str_lt, BlogEntry, Field, Status, ValidationError};
use blog_engine::utils::GenericError;

fn entry(id: &str, title: &str, content: &str, author: &str) -> BlogEntry {
    BlogEntry {
        _id: id.to_string(),
        title: title.to_string(),
        content: content.to_string(),
        author: author.to_string(),
        last_edit_date: "Today".to_string(),
        status: Status::Draft,
    }
}

#[test]
fn validation_minimums() {
    assert_eq!(entry("", "Hi", "0123456789", "Al").validate(), Ok(()));
    assert_eq!(
        entry("", "", "", "").validate(),
        Err(ValidationError { field: Field::Title })
    );
    assert_eq!(
        entry("", "H", "0123456789", "Al").validate(),
        Err(ValidationError { field: Field::Title })
    );
    assert_eq!(entry("", "é", "0123456789", "Al").validate(), Ok(()));
    assert_eq!(
        entry("", "Hé", "ééééa", "Al").validate(),
        Err(ValidationError { field: Field::Content })
    );
    assert_eq!(entry("", "Hé", "ééééé", "Al").validate(), Ok(()));
    assert_eq!(entry("", "Hi", "0123456789", "A").validate(), Ok(()));
    assert_eq!(
        entry("", "Hi", "0123456789", "").validate(),
        Err(ValidationError { field: Field::Author })
    );
}

#[test]
fn code_point_order() {
    assert!(str_lt("", "a"));
    assert!(!str_lt("a", ""));
    assert!(!str_lt("abc", "abc"));
    assert!(str_lt("ab", "abc"));
    assert!(str_lt("Zebra", "apple"));
    assert!(str_lt("z", "é"));
}

#[test]
fn entries_order_by_title_then_id() {
    let a = entry("2", "Same", "0123456789", "Al");
    let b = entry("1", "Same", "0123456789", "Al");
    let c = entry("0", "Tail", "0123456789", "Al");
    assert!(b.listed_before(&a));
    assert!(!a.listed_before(&b));
    assert!(a.listed_before(&c));
    assert!(!a.listed_before(&a));
    let d = a.duplicate();
    assert_eq!(d._id, "2");
    assert_eq!(d.title, "Same");
}

#[test]
fn generic_error_keeps_message() {
    let e = GenericError::new("store unreachable");
    assert_eq!(e.description(), "store unreachable");
}

#[test]
fn status_defaults_to_draft() {
    assert_eq!(Status::default(), Status::Draft);
}
