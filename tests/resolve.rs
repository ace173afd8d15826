use e621_downloader::resolve::{parse_line, resolve, ResolutionError};
use e621_downloader::tag::{Group, Tag, TagSearchType, TagType};

fn tag(name: &str, search: TagSearchType, kind: TagType) -> Tag {
    Tag::new(name, search, kind)
}

#[test]
fn resolves_artist_and_pool_sections() {
    let groups = resolve("artists: foo, bar\npool: 123").unwrap();
    assert_eq!(groups.len(), 2);
    let mut artists = Group::new(String::from("artists"));
    artists.push_tag(tag("foo", TagSearchType::Special, TagType::Artist));
    artists.push_tag(tag("bar", TagSearchType::Special, TagType::Artist));
    let mut pool = Group::new(String::from("pool"));
    pool.push_tag(tag("123", TagSearchType::General, TagType::Pool));
    assert_eq!(groups[0], artists);
    assert_eq!(groups[1], pool);
}

#[test]
fn resolving_twice_gives_equal_groups() {
    let src = "artists: a\n\n  general : cat , dog,\nsets: 7, x\n";
    let a = resolve(src).unwrap();
    let b = resolve(src).unwrap();
    assert_eq!(a, b);
    assert_eq!(a.len(), 3);
    assert_eq!(a[1].name, "general");
    assert_eq!(a[1].tags.len(), 2);
    assert_eq!(a[1].tags[0], tag("cat", TagSearchType::General, TagType::General));
    assert_eq!(a[2].tags[0], tag("7", TagSearchType::General, TagType::PostSet));
    assert_eq!(a[2].tags[1], tag("x", TagSearchType::General, TagType::Unknown));
}

#[test]
fn empty_section_gives_empty_group() {
    let groups = resolve("misc:\nartists: z").unwrap();
    assert_eq!(groups.len(), 2);
    assert_eq!(groups[0].name, "misc");
    assert!(groups[0].tags.is_empty());
}

#[test]
fn unknown_section_tokens_are_unknown() {
    let g = parse_line("stuff: wolf").unwrap();
    assert_eq!(g.tags[0], tag("wolf", TagSearchType::General, TagType::Unknown));
}

#[test]
fn line_without_colon_is_malformed() {
    assert_eq!(resolve("artists: a\njust words").unwrap_err(), ResolutionError::MalformedSource);
    assert_eq!(resolve(": b").unwrap_err(), ResolutionError::MalformedSource);
}

#[test]
fn blank_source_is_empty_input() {
    assert_eq!(resolve("").unwrap_err(), ResolutionError::EmptyInput);
    assert_eq!(resolve("  \n\t\n").unwrap_err(), ResolutionError::EmptyInput);
}
