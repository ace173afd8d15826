use e621_downloader::blacklist::Blacklist;
use e621_downloader::grabber::{FetchError, Grabber, Post, Rating};
use e621_downloader::request::query_of;
use e621_downloader::tag::{Group, Tag, TagSearchType, TagType};

fn post(id: u64, tags: &[&str]) -> Post {
    Post {
        id,
        md5: format!("md5-{}", id),
        file_url: format!("https://static1.e621.net/{}.png", id),
        extension: String::from("png"),
        tags: tags.iter().map(|t| t.to_string()).collect(),
        rating: Rating::Safe,
        score: 1,
    }
}

fn group(name: &str, kind: TagType, tags: &[&str]) -> Group {
    let mut g = Group::new(String::from(name));
    for t in tags {
        g.push_tag(Tag::new(t, TagSearchType::General, kind));
    }
    g
}

fn ids(g: &Grabber) -> Vec<u64> {
    g.grabbed.iter().map(|k| k.post.id).collect()
}

fn grabber(blacklist: Blacklist) -> Grabber {
    Grabber::new(blacklist, vec![TagType::Pool, TagType::PostSet], 750)
}

#[test]
fn collects_pages_until_empty_page() {
    let mut g = grabber(Blacklist::empty());
    let groups = vec![group("artists", TagType::Artist, &["foo"])];
    let answers = vec![vec![
        Ok(vec![post(1, &[]), post(2, &[])]),
        Ok(vec![post(3, &[])]),
        Ok(vec![]),
        Ok(vec![post(4, &[])]),
    ]];
    g.grab(&groups, &answers);
    assert_eq!(ids(&g), vec![1, 2, 3]);
}

#[test]
fn next_page_stops_after_empty_page() {
    let g = grabber(Blacklist::empty());
    assert_eq!(g.next_page(1, &Ok(vec![post(1, &[]), post(2, &[])])), Some(2));
    assert_eq!(g.next_page(2, &Ok(vec![post(3, &[])])), Some(3));
    assert_eq!(g.next_page(3, &Ok(vec![])), None);
    assert_eq!(g.next_page(750, &Ok(vec![post(9, &[])])), None);
}

#[test]
fn unavailable_page_ends_only_its_group() {
    let mut g = grabber(Blacklist::empty());
    let groups = vec![
        group("a", TagType::Artist, &["foo"]),
        group("b", TagType::Artist, &["bar"]),
    ];
    let answers = vec![
        vec![Ok(vec![post(1, &[]), post(2, &[])]), Err(FetchError::Unavailable), Ok(vec![post(5, &[])])],
        vec![Ok(vec![post(3, &[])]), Ok(vec![])],
    ];
    g.grab(&groups, &answers);
    assert_eq!(ids(&g), vec![1, 2, 3]);
    assert_eq!(g.grabbed[2].group, 1);
    let mut h = grabber(Blacklist::empty());
    let invalid = vec![
        vec![Err(FetchError::InvalidQuery)],
        vec![Ok(vec![post(8, &[])]), Ok(vec![])],
    ];
    h.grab(&groups, &invalid);
    assert_eq!(ids(&h), vec![8]);
}

#[test]
fn overlapping_groups_keep_each_id_once() {
    let mut g = grabber(Blacklist::empty());
    let groups = vec![
        group("a", TagType::Artist, &["foo"]),
        group("b", TagType::Artist, &["bar"]),
    ];
    let answers = vec![
        vec![Ok(vec![post(1, &[]), post(2, &[]), post(1, &[])]), Ok(vec![])],
        vec![Ok(vec![post(2, &[]), post(3, &[])]), Ok(vec![])],
    ];
    g.grab(&groups, &answers);
    assert_eq!(ids(&g), vec![1, 2, 3]);
    assert_eq!(g.grabbed[1].group, 0);
}

#[test]
fn group_without_tags_contributes_nothing() {
    let mut g = grabber(Blacklist::empty());
    let groups = vec![Group::new(String::from("empty")), group("b", TagType::General, &["x"])];
    let answers = vec![vec![Ok(vec![post(1, &[])])], vec![Ok(vec![post(2, &[])])]];
    g.grab(&groups, &answers);
    assert_eq!(ids(&g), vec![2]);
}

#[test]
fn blacklist_excludes_except_bypassed_groups() {
    let bl = Blacklist::compile("gore\nferal -solo");
    let mut g = grabber(bl);
    let groups = vec![
        group("artists", TagType::Artist, &["foo"]),
        group("pool", TagType::Pool, &["12"]),
    ];
    let answers = vec![
        vec![Ok(vec![
            post(1, &["gore", "cat"]),
            post(2, &["cat"]),
            post(3, &["feral"]),
            post(4, &["feral", "solo"]),
        ])],
        vec![Ok(vec![post(5, &["gore"]), post(1, &["gore"])])],
    ];
    g.grab(&groups, &answers);
    assert_eq!(ids(&g), vec![2, 4, 5, 1]);
}

#[test]
fn blacklist_rules_compile_terms() {
    let bl = Blacklist::compile("  a  -b \n\n c");
    assert_eq!(bl.rules.len(), 2);
    assert_eq!(bl.rules[0].terms.len(), 2);
    assert_eq!(bl.rules[0].terms[1].tag, "b");
    assert!(bl.rules[0].terms[1].negated);
    assert!(bl.is_blacklisted(&vec![String::from("a")]));
    assert!(!bl.is_blacklisted(&vec![String::from("a"), String::from("b")]));
    assert!(bl.is_blacklisted(&vec![String::from("c")]));
    assert!(!Blacklist::empty().is_blacklisted(&vec![String::from("c")]));
}

#[test]
fn colons_inside_tags_are_kept() {
    let g = e621_downloader::resolve::resolve("general: cat, rating:s").unwrap();
    assert_eq!(g[0].tags.len(), 2);
    assert_eq!(g[0].tags[1].name, "rating:s");
    assert_eq!(query_of(&g[0]), "cat rating:s");
}

#[test]
fn query_combines_tags() {
    let mut g = group("mixed", TagType::General, &["cat", "rating:s"]);
    g.push_tag(Tag::new("42", TagSearchType::General, TagType::Pool));
    g.push_tag(Tag::new("7", TagSearchType::General, TagType::PostSet));
    assert_eq!(query_of(&g), "cat rating:s pool:42 set:7");
    assert_eq!(query_of(&Group::new(String::from("e"))), "");
}

#[test]
fn duplicate_post_keeps_fields() {
    let p = post(7, &["a", "b"]);
    let q = p.duplicate();
    assert_eq!(q.id, 7);
    assert_eq!(q.tags, p.tags);
    assert_eq!(q.md5, p.md5);
}
