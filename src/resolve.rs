use vstd::prelude::*;
use vstd::string::StrSliceExecFns;
use vstd::string::StringExecFns;

use crate::tag::{group_models, Group, GroupModel, Tag, TagModel, TagSearchType, TagType};
use crate::text::{fields, split_fields, string_views, trim, trimmed};

verus! {

/// Why a tag specification could not be resolved into groups.
#[derive(Clone, Copy, Debug, PartialEq, Eq, Structural)]
pub enum ResolutionError {
    /// A non-blank line is not of the form `section: tag, tag, ...`.
    MalformedSource,
    /// The source holds no section at all.
    EmptyInput,
}

pub open spec fn is_digit(c: char) -> bool {
    '0' <= c && c <= '9'
}

/// A non-empty run of decimal digits.
pub open spec fn all_digits(s: Seq<char>) -> bool {
    s.len() > 0 && forall|i: int| 0 <= i < s.len() ==> is_digit(#[trigger] s[i])
}

/// The category that a section's name gives to its tags.
pub open spec fn section_type(name: Seq<char>) -> TagType {
    if name == "artists"@ || name == "artist"@ {
        TagType::Artist
    } else if name == "pools"@ || name == "pool"@ {
        TagType::Pool
    } else if name == "sets"@ || name == "set"@ {
        TagType::PostSet
    } else if name == "posts"@ || name == "single"@ {
        TagType::Single
    } else if name == "general"@ || name == "tags"@ {
        TagType::General
    } else {
        TagType::Unknown
    }
}

/// How a token is classified under a section of the given category: artists
/// need the special artist lookup, pools and sets take numeric ids only, and
/// everything else is a plain keyword.
pub open spec fn classify(section: TagType, token: Seq<char>) -> TagModel {
    match section {
        TagType::Artist => (token, TagSearchType::Special, TagType::Artist),
        TagType::Pool | TagType::PostSet => if all_digits(token) {
            (token, TagSearchType::General, section)
        } else {
            (token, TagSearchType::General, TagType::Unknown)
        },
        _ => (token, TagSearchType::General, section),
    }
}

/// The tags of a section: each comma-separated piece, trimmed, empty ones left out.
pub open spec fn section_tags(section: TagType, pieces: Seq<Seq<char>>) -> Seq<TagModel>
    decreases pieces.len(),
{
    if pieces.len() == 0 {
        Seq::<TagModel>::empty()
    } else {
        let prev = section_tags(section, pieces.drop_last());
        let t = trimmed(pieces.last());
        if t.len() == 0 {
            prev
        } else {
            prev.push(classify(section, t))
        }
    }
}

/// The index of the first `c` in `s` at or after `i`, or `s.len()` when there is none.
pub open spec fn find_from(s: Seq<char>, c: char, i: int) -> int
    decreases s.len() - i,
{
    if 0 <= i < s.len() {
        if s[i] == c {
            i
        } else {
            find_from(s, c, i + 1)
        }
    } else {
        s.len() as int
    }
}

/// The group that one non-blank line describes: a non-empty section name, a
/// `:`, and the section's tags; tags may hold further colons (`rating:s`).
pub open spec fn line_group(line: Seq<char>) -> Option<GroupModel> {
    let k = find_from(line, ':', 0);
    let name = trimmed(line.take(k));
    if k < line.len() && name.len() > 0 {
        Some((name, section_tags(section_type(name), fields(line.subrange(k + 1, line.len() as int), ','))))
    } else {
        None
    }
}

/// The groups of the given lines, in order; blank lines are skipped.
pub open spec fn resolve_lines(lines: Seq<Seq<char>>) -> Result<Seq<GroupModel>, ResolutionError>
    decreases lines.len(),
{
    if lines.len() == 0 {
        Ok(Seq::<GroupModel>::empty())
    } else {
        match resolve_lines(lines.drop_last()) {
            Err(e) => Err(e),
            Ok(gs) => if trimmed(lines.last()).len() == 0 {
                Ok(gs)
            } else {
                match line_group(lines.last()) {
                    Some(g) => Ok(gs.push(g)),
                    None => Err(ResolutionError::MalformedSource),
                }
            },
        }
    }
}

/// What a whole tag specification resolves to.
pub open spec fn resolve_spec(source: Seq<char>) -> Result<Seq<GroupModel>, ResolutionError> {
    match resolve_lines(fields(source, '\n')) {
        Err(e) => Err(e),
        Ok(gs) => if gs.len() == 0 {
            Err(ResolutionError::EmptyInput)
        } else {
            Ok(gs)
        },
    }
}

proof fn lemma_error_persists(lines: Seq<Seq<char>>, k: int)
    requires
        0 <= k <= lines.len(),
        resolve_lines(lines.take(k)) is Err,
    ensures
        resolve_lines(lines) == resolve_lines(lines.take(k)),
    decreases lines.len() - k,
{
    if k < lines.len() {
        assert(lines.take(k + 1).drop_last() =~= lines.take(k));
        lemma_error_persists(lines, k + 1);
    } else {
        assert(lines.take(k) =~= lines);
    }
}

fn is_number(s: &String) -> (r: bool)
    ensures
        r == all_digits(s@),
{
    let n = s.as_str().unicode_len();
    if n == 0 {
        return false;
    }
    let mut i: usize = 0;
    while i < n
        invariant
            i <= n,
            n == s@.len(),
            forall|j: int| 0 <= j < i ==> is_digit(#[trigger] s@[j]),
        decreases n - i,
    {
        let c = s.as_str().get_char(i);
        if !('0' <= c && c <= '9') {
            return false;
        }
        i = i + 1;
    }
    true
}

fn name_is(name: &String, a: &str, b: &str) -> (r: bool)
    ensures
        r == (name@ == a@ || name@ == b@),
{
    let x = String::from_str(a);
    let y = String::from_str(b);
    *name == x || *name == y
}

fn section_type_of(name: &String) -> (r: TagType)
    ensures
        r == section_type(name@),
{
    if name_is(name, "artists", "artist") {
        TagType::Artist
    } else if name_is(name, "pools", "pool") {
        TagType::Pool
    } else if name_is(name, "sets", "set") {
        TagType::PostSet
    } else if name_is(name, "posts", "single") {
        TagType::Single
    } else if name_is(name, "general", "tags") {
        TagType::General
    } else {
        TagType::Unknown
    }
}

fn classify_token(section: TagType, token: &String) -> (r: Tag)
    ensures
        r@ == classify(section, token@),
{
    match section {
        TagType::Artist => Tag::new(token.as_str(), TagSearchType::Special, TagType::Artist),
        TagType::Pool | TagType::PostSet => if is_number(token) {
            Tag::new(token.as_str(), TagSearchType::General, section)
        } else {
            Tag::new(token.as_str(), TagSearchType::General, TagType::Unknown)
        },
        _ => Tag::new(token.as_str(), TagSearchType::General, section),
    }
}

/// Parses one line `section: tag, tag, ...` into its group.
pub fn parse_line(line: &str) -> (r: Option<Group>)
    ensures
        match r {
            Some(g) => line_group(line@) == Some(g@),
            None => line_group(line@) is None,
        },
{
    let n = line.unicode_len();
    let mut k: usize = 0;
    while k < n && line.get_char(k) != ':'
        invariant
            k <= n,
            n == line@.len(),
            find_from(line@, ':', 0) == find_from(line@, ':', k as int),
        decreases n - k,
    {
        k = k + 1;
    }
    if k == n {
        return None;
    }
    assert(find_from(line@, ':', k as int) == k);
    let head = line.substring_char(0, k);
    assert(head@ =~= line@.take(k as int));
    let name = trim(head);
    if name.as_str().unicode_len() == 0 {
        return None;
    }
    let section = section_type_of(&name);
    let pieces = split_fields(line.substring_char(k + 1, n), ',');
    let ghost ps = string_views(pieces@);
    let mut group = Group::new(name);
    let mut j: usize = 0;
    assert(ps.take(0) =~= Seq::<Seq<char>>::empty());
    while j < pieces.len()
        invariant
            j <= pieces@.len(),
            ps == string_views(pieces@),
            group@.0 == trimmed(line@.take(k as int)),
            k < n,
            n == line@.len(),
            ps == fields(line@.subrange(k + 1, n as int), ','),
            group@.1 == section_tags(section, ps.take(j as int)),
        decreases pieces@.len() - j,
    {
        assert(ps.take(j + 1).drop_last() =~= ps.take(j as int));
        assert(ps[j as int] == pieces@[j as int]@);
        let t = trim(pieces[j].as_str());
        if t.as_str().unicode_len() > 0 {
            let tag = classify_token(section, &t);
            group.push_tag(tag);
        }
        j = j + 1;
    }
    assert(ps.take(j as int) =~= ps);
    Some(group)
}

/// Resolves a tag specification, one section per line, into its groups in
/// input order.
pub fn resolve(source: &str) -> (r: Result<Vec<Group>, ResolutionError>)
    ensures
        match r {
            Ok(gs) => resolve_spec(source@) == Ok::<_, ResolutionError>(group_models(gs@)),
            Err(e) => resolve_spec(source@) == Err::<Seq<GroupModel>, _>(e),
        },
{
    let lines = split_fields(source, '\n');
    let ghost ls = string_views(lines@);
    let mut groups: Vec<Group> = Vec::new();
    let mut i: usize = 0;
    assert(ls.take(0) =~= Seq::<Seq<char>>::empty());
    assert(group_models(groups@) =~= Seq::<GroupModel>::empty());
    while i < lines.len()
        invariant
            i <= lines@.len(),
            ls == string_views(lines@),
            ls == fields(source@, '\n'),
            resolve_lines(ls.take(i as int)) == Ok::<_, ResolutionError>(group_models(groups@)),
        decreases lines@.len() - i,
    {
        assert(ls.take(i + 1).drop_last() =~= ls.take(i as int));
        assert(ls[i as int] == lines@[i as int]@);
        let t = trim(lines[i].as_str());
        if t.as_str().unicode_len() > 0 {
            match parse_line(lines[i].as_str()) {
                Some(g) => {
                    let ghost before = groups@;
                    groups.push(g);
                    assert(group_models(groups@) =~= group_models(before).push(g@));
                },
                None => {
                    proof {
                        lemma_error_persists(ls, i + 1);
                    }
                    return Err(ResolutionError::MalformedSource);
                },
            }
        }
        i = i + 1;
    }
    assert(ls.take(i as int) =~= ls);
    if groups.len() == 0 {
        return Err(ResolutionError::EmptyInput);
    }
    Ok(groups)
}

} // verus!
