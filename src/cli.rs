use vstd::prelude::*;
use vstd::string::StringExecFns;

use crate::tag::{group_models, Group, GroupModel, Tag, TagModel, TagSearchType, TagType};
use crate::text::{decimal, decimal_i64};

verus! {

/// Command-line overrides of the tag file: a tag file, artist names, pool ids.
#[derive(Debug)]
pub struct Args {
    pub tag: Option<String>,
    pub artist: Option<Vec<String>>,
    pub pool: Option<Vec<i64>>,
}

pub open spec fn artist_tags(names: Seq<String>) -> Seq<TagModel> {
    names.map_values(|a: String| (a@, TagSearchType::Special, TagType::Artist))
}

pub open spec fn pool_tags(ids: Seq<i64>) -> Seq<TagModel> {
    ids.map_values(|p: i64| (decimal(p as int), TagSearchType::General, TagType::Pool))
}

/// The groups the overrides stand for: an `artists` group and a `pool` group,
/// in that order, each empty when its option is absent.
pub open spec fn args_groups(args: Args) -> Seq<GroupModel> {
    let artists = match args.artist {
        Some(v) => artist_tags(v@),
        None => Seq::<TagModel>::empty(),
    };
    let pools = match args.pool {
        Some(v) => pool_tags(v@),
        None => Seq::<TagModel>::empty(),
    };
    seq![("artists"@, artists), ("pool"@, pools)]
}

impl Args {
    /// Whether no override was given, so that the tag file is used.
    pub fn is_null(&self) -> (r: bool)
        ensures
            r == (self.tag is None && self.artist is None && self.pool is None),
    {
        self.tag.is_none() && self.artist.is_none() && self.pool.is_none()
    }

    /// The groups that the overrides stand for.
    pub fn to_groups(&self) -> (r: Vec<Group>)
        ensures
            group_models(r@) == args_groups(*self),
    {
        let mut artist_group = Group::new(String::from_str("artists"));
        match &self.artist {
            Some(names) => {
                let mut i: usize = 0;
                while i < names.len()
                    invariant
                        i <= names@.len(),
                        artist_group@ == ("artists"@, artist_tags(names@).take(i as int)),
                    decreases names@.len() - i,
                {
                    artist_group.push_tag(
                        Tag::new(names[i].as_str(), TagSearchType::Special, TagType::Artist),
                    );
                    i = i + 1;
                    assert(artist_tags(names@).take(i as int) =~= artist_tags(names@).take(
                        i - 1,
                    ).push(artist_tags(names@)[i - 1]));
                }
                assert(artist_tags(names@).take(i as int) =~= artist_tags(names@));
            },
            None => {},
        }
        let mut pool_group = Group::new(String::from_str("pool"));
        match &self.pool {
            Some(ids) => {
                let mut i: usize = 0;
                while i < ids.len()
                    invariant
                        i <= ids@.len(),
                        pool_group@ == ("pool"@, pool_tags(ids@).take(i as int)),
                    decreases ids@.len() - i,
                {
                    let name = decimal_i64(ids[i]);
                    pool_group.push_tag(
                        Tag::new(name.as_str(), TagSearchType::General, TagType::Pool),
                    );
                    i = i + 1;
                    assert(pool_tags(ids@).take(i as int) =~= pool_tags(ids@).take(i - 1).push(
                        pool_tags(ids@)[i - 1],
                    ));
                }
                assert(pool_tags(ids@).take(i as int) =~= pool_tags(ids@));
            },
            None => {},
        }
        let mut groups: Vec<Group> = Vec::new();
        groups.push(artist_group);
        groups.push(pool_group);
        assert(group_models(groups@) =~= args_groups(*self));
        groups
    }
}

} // verus!
