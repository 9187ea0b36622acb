use blog_engine::model::{BlogEntry, Field, Status, ValidationError};
use blog_engine::store::{BlogStore, RepoError};

fn entry(id: &str, title: &str, content: &str, author: &str, status: Status) -> BlogEntry {
    BlogEntry {
        _id: id.to_string(),
        title: title.to_string(),
        content: content.to_string(),
        author: author.to_string(),
        last_edit_date: "Today".to_string(),
        status,
    }
}

fn titles(list: &[BlogEntry]) -> Vec<String> {
    list.iter().map(|e| e.title.clone()).collect()
}

#[test]
fn draft_hidden_until_published() {
    let mut store = BlogStore::new();
    let id = store
        .add_blog(entry("", "Hi there", "0123456789", "A", Status::Draft))
        .unwrap();
    assert!(store.fetch_all_published_blogs(true).is_empty());
    let all = store.fetch_all_published_blogs(false);
    assert_eq!(all.len(), 1);
    assert_eq!(all[0]._id, id);
    assert_eq!(all[0].author, "A");
    assert_eq!(all[0].status, Status::Draft);

    let mut published = store.find_blog(id.clone()).unwrap();
    published.status = Status::Published;
    store.update_blog(published).unwrap();
    let public = store.fetch_all_published_blogs(true);
    assert_eq!(public.len(), 1);
    assert_eq!(public[0]._id, id);
    assert_eq!(public[0].status, Status::Published);
}

#[test]
fn create_with_id_is_rejected() {
    let mut store = BlogStore::new();
    let r = store.add_blog(entry("abc", "Hi there", "0123456789", "Al", Status::Draft));
    assert_eq!(r, Err(RepoError::IdAlreadySet));
    assert!(store.fetch_all_published_blogs(false).is_empty());
    assert_eq!(store.find_blog("abc".to_string()).unwrap_err(), RepoError::NotFound);
}

#[test]
fn get_after_create_returns_fields_and_new_id() {
    let mut store = BlogStore::new();
    let id = store
        .add_blog(entry("", "Title", "Some content here", "Author", Status::Published))
        .unwrap();
    assert_eq!(id.len(), 24);
    assert!(id.chars().all(|c| c.is_ascii_digit() || ('a'..='f').contains(&c)));
    let got = store.find_blog(id.clone()).unwrap();
    assert_eq!(got._id, id);
    assert_eq!(got.title, "Title");
    assert_eq!(got.content, "Some content here");
    assert_eq!(got.author, "Author");
    assert_eq!(got.last_edit_date, "Today");
    assert_eq!(got.status, Status::Published);
}

#[test]
fn created_ids_are_distinct() {
    let mut store = BlogStore::new();
    let a = store.add_blog(entry("", "One", "0123456789", "Al", Status::Draft)).unwrap();
    let b = store.add_blog(entry("", "Two", "0123456789", "Al", Status::Draft)).unwrap();
    assert_ne!(a, b);
}

#[test]
fn create_with_given_id() {
    let mut store = BlogStore::new();
    let r = store.add_blog_with_id(entry("", "One", "0123456789", "Al", Status::Draft), "k1".to_string());
    assert_eq!(r, Ok("k1".to_string()));
    let clash = store.add_blog_with_id(entry("", "Two", "0123456789", "Al", Status::Draft), "k1".to_string());
    assert_eq!(clash, Err(RepoError::Store));
    let empty = store.add_blog_with_id(entry("", "Two", "0123456789", "Al", Status::Draft), String::new());
    assert_eq!(empty, Err(RepoError::Store));
    assert_eq!(store.fetch_all_published_blogs(false).len(), 1);
}

#[test]
fn create_validates_each_field() {
    let mut store = BlogStore::new();
    let t = store.add_blog(entry("", "H", "0123456789", "Al", Status::Draft));
    assert_eq!(t, Err(RepoError::Validation(ValidationError { field: Field::Title })));
    let c = store.add_blog(entry("", "Hi", "012345678", "Al", Status::Draft));
    assert_eq!(c, Err(RepoError::Validation(ValidationError { field: Field::Content })));
    let a = store.add_blog(entry("", "Hi", "0123456789", "", Status::Draft));
    assert_eq!(a, Err(RepoError::Validation(ValidationError { field: Field::Author })));
    assert!(store.fetch_all_published_blogs(false).is_empty());
}

#[test]
fn update_round_trips() {
    let mut store = BlogStore::new();
    let id = store.add_blog(entry("", "Before", "0123456789", "Al", Status::Draft)).unwrap();
    let mut changed = entry(&id, "After", "new content!!", "Bo", Status::Published);
    changed.last_edit_date = "Tomorrow".to_string();
    assert_eq!(store.update_blog(changed), Ok(()));
    let got = store.find_blog(id.clone()).unwrap();
    assert_eq!(got._id, id);
    assert_eq!(got.title, "After");
    assert_eq!(got.content, "new content!!");
    assert_eq!(got.author, "Bo");
    assert_eq!(got.last_edit_date, "Tomorrow");
    assert_eq!(got.status, Status::Published);
}

#[test]
fn update_missing_is_not_found() {
    let mut store = BlogStore::new();
    store.add_blog(entry("", "Before", "0123456789", "Al", Status::Draft)).unwrap();
    let r = store.update_blog(entry("nope", "After", "0123456789", "Al", Status::Draft));
    assert_eq!(r, Err(RepoError::NotFound));
    let bad = store.update_blog(entry("nope", "A", "0123456789", "Al", Status::Draft));
    assert_eq!(bad, Err(RepoError::Validation(ValidationError { field: Field::Title })));
}

#[test]
fn delete_then_get_and_delete_again() {
    let mut store = BlogStore::new();
    let id = store.add_blog(entry("", "Gone soon", "0123456789", "Al", Status::Published)).unwrap();
    assert_eq!(store.delete_blog(id.clone()), Ok(()));
    assert_eq!(store.find_blog(id.clone()).unwrap_err(), RepoError::NotFound);
    assert_eq!(store.delete_blog(id), Err(RepoError::NotFound));
    assert!(store.fetch_all_published_blogs(false).is_empty());
}

#[test]
fn listing_is_ordered_by_title_then_id() {
    let loaded = vec![
        entry("b", "Zebra", "0123456789", "Al", Status::Published),
        entry("c", "Apple", "0123456789", "Al", Status::Draft),
        entry("z", "Mango", "0123456789", "Al", Status::Published),
        entry("a", "Mango", "0123456789", "Al", Status::Published),
        entry("d", "apple", "0123456789", "Al", Status::Published),
    ];
    let store = BlogStore::from_entries(loaded).unwrap();
    let all = store.fetch_all_published_blogs(false);
    assert_eq!(titles(&all), vec!["Apple", "Mango", "Mango", "Zebra", "apple"]);
    assert_eq!(all[1]._id, "a");
    assert_eq!(all[2]._id, "z");
    let public = store.fetch_all_published_blogs(true);
    assert_eq!(titles(&public), vec!["Mango", "Mango", "Zebra", "apple"]);
}

#[test]
fn loading_rejects_bad_ids() {
    let dup = vec![
        entry("a", "One", "0123456789", "Al", Status::Draft),
        entry("a", "Two", "0123456789", "Al", Status::Draft),
    ];
    assert_eq!(BlogStore::from_entries(dup).err(), Some(RepoError::Store));
    let empty = vec![entry("", "One", "0123456789", "Al", Status::Draft)];
    assert_eq!(BlogStore::from_entries(empty).err(), Some(RepoError::Store));
}

#[test]
fn save_creates_or_replaces() {
    let mut store = BlogStore::new();
    let id = store.save_blog(entry("", "Fresh", "0123456789", "Al", Status::Draft)).unwrap();
    assert_eq!(id.len(), 24);
    let again = store.save_blog(entry(&id, "Fresh again", "0123456789", "Al", Status::Published));
    assert_eq!(again, Ok(id.clone()));
    assert_eq!(store.find_blog(id).unwrap().title, "Fresh again");
    assert_eq!(store.fetch_all_published_blogs(false).len(), 1);
    let missing = store.save_blog(entry("missing", "Other", "0123456789", "Al", Status::Draft));
    assert_eq!(missing, Err(RepoError::NotFound));
    let short = store.save_blog(entry("", "O", "0123456789", "Al", Status::Draft));
    assert_eq!(short, Err(RepoError::Validation(ValidationError { field: Field::Title })));
}
