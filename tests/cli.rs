use e621_downloader::cli::Args;
use e621_downloader::tag::{TagSearchType, TagType};

#[test]
fn no_override_is_null() {
    let a = Args { tag: None, artist: None, pool: None };
    assert!(a.is_null());
    let b = Args { tag: None, artist: Some(vec![]), pool: None };
    assert!(!b.is_null());
}

#[test]
fn overrides_become_artist_and_pool_groups() {
    let a = Args {
        tag: None,
        artist: Some(vec![String::from("foo"), String::from("bar")]),
        pool: Some(vec![123, -4]),
    };
    let gs = a.to_groups();
    assert_eq!(gs.len(), 2);
    assert_eq!(gs[0].name, "artists");
    assert_eq!(gs[0].tags.len(), 2);
    assert_eq!(gs[0].tags[1].name, "bar");
    assert_eq!(gs[0].tags[1].search_type, TagSearchType::Special);
    assert_eq!(gs[0].tags[1].tag_type, TagType::Artist);
    assert_eq!(gs[1].name, "pool");
    assert_eq!(gs[1].tags[0].name, "123");
    assert_eq!(gs[1].tags[1].name, "-4");
    assert_eq!(gs[1].tags[0].search_type, TagSearchType::General);
    assert_eq!(gs[1].tags[0].tag_type, TagType::Pool);
    let none = Args { tag: Some(String::from("t.txt")), artist: None, pool: None }.to_groups();
    assert_eq!(none.len(), 2);
    assert!(none[0].tags.is_empty() && none[1].tags.is_empty());
}
