use vstd::prelude::*;
use vstd::string::StringExecFns;

verus! {

/// How a tag is sent to the remote search.
#[derive(Clone, Copy, Debug, PartialEq, Eq, Structural)]
pub enum TagSearchType {
    General,
    Special,
}

/// The semantic category a tag was classified into.
#[derive(Clone, Copy, Debug, PartialEq, Eq, Structural)]
pub enum TagType {
    General,
    Artist,
    Pool,
    PostSet,
    Single,
    Unknown,
}

/// A single search term with its search kind and category.
#[derive(Debug)]
pub struct Tag {
    pub name: String,
    pub search_type: TagSearchType,
    pub tag_type: TagType,
}

/// The mathematical model of a tag: its name, search kind and category.
pub type TagModel = (Seq<char>, TagSearchType, TagType);

/// The mathematical model of a group: its name and its tags in order.
pub type GroupModel = (Seq<char>, Seq<TagModel>);

impl View for Tag {
    type V = TagModel;

    open spec fn view(&self) -> TagModel {
        (self.name@, self.search_type, self.tag_type)
    }
}

impl Tag {
    pub fn new(name: &str, search_type: TagSearchType, tag_type: TagType) -> (r: Tag)
        ensures
            r@ == (name@, search_type, tag_type),
    {
        Tag { name: String::from_str(name), search_type, tag_type }
    }

    /// A tag with the same name, search kind and category.
    pub fn duplicate(&self) -> (r: Tag)
        ensures
            r@ == self@,
    {
        Tag { name: self.name.clone(), search_type: self.search_type, tag_type: self.tag_type }
    }
}

impl PartialEq for Tag {
    fn eq(&self, o: &Tag) -> (r: bool) {
        self.name == o.name && self.search_type == o.search_type && self.tag_type == o.tag_type
    }
}

impl vstd::std_specs::cmp::PartialEqSpecImpl for Tag {
    open spec fn obeys_eq_spec() -> bool {
        true
    }

    open spec fn eq_spec(&self, o: &Tag) -> bool {
        self@ == o@
    }
}

/// A named collection of tags that forms one download target.
#[derive(Debug)]
pub struct Group {
    pub name: String,
    pub tags: Vec<Tag>,
}

pub open spec fn tag_models(tags: Seq<Tag>) -> Seq<TagModel> {
    tags.map_values(|t: Tag| t@)
}

impl View for Group {
    type V = GroupModel;

    open spec fn view(&self) -> GroupModel {
        (self.name@, tag_models(self.tags@))
    }
}

pub open spec fn group_models(gs: Seq<Group>) -> Seq<GroupModel> {
    gs.map_values(|g: Group| g@)
}

/// The category of a group: that of its first tag, `General` when it has none.
pub open spec fn group_category_spec(g: GroupModel) -> TagType {
    if g.1.len() > 0 {
        g.1[0].2
    } else {
        TagType::General
    }
}

impl Group {
    pub fn new(name: String) -> (r: Group)
        ensures
            r@ == (name@, Seq::<TagModel>::empty()),
    {
        let r = Group { name, tags: Vec::new() };
        assert(tag_models(r.tags@) =~= Seq::<TagModel>::empty());
        r
    }

    /// Appends a tag at the end of the group.
    pub fn push_tag(&mut self, tag: Tag)
        ensures
            final(self)@ == (old(self)@.0, old(self)@.1.push(tag@)),
    {
        self.tags.push(tag);
        assert(tag_models(self.tags@) =~= tag_models(old(self).tags@).push(tag@));
    }

    pub fn is_empty(&self) -> (r: bool)
        ensures
            r == (self@.1.len() == 0),
    {
        self.tags.len() == 0
    }

    pub fn category(&self) -> (r: TagType)
        ensures
            r == group_category_spec(self@),
    {
        if self.tags.len() > 0 {
            self.tags[0].tag_type
        } else {
            TagType::General
        }
    }

    /// A group with the same name and tags.
    pub fn duplicate(&self) -> (r: Group)
        ensures
            r@ == self@,
    {
        let mut tags: Vec<Tag> = Vec::new();
        let mut i: usize = 0;
        while i < self.tags.len()
            invariant
                i <= self.tags@.len(),
                tag_models(tags@) =~= tag_models(self.tags@).take(i as int),
            decreases self.tags@.len() - i,
        {
            let t = self.tags[i].duplicate();
            let ghost before = tags@;
            tags.push(t);
            assert(tags@ == before.push(t));
            assert(tag_models(tags@) =~= tag_models(before).push(self.tags@[i as int]@));
            i = i + 1;
            assert(tag_models(tags@) =~= tag_models(self.tags@).take(i as int));
        }
        assert(tag_models(self.tags@).take(i as int) =~= tag_models(self.tags@));
        Group { name: self.name.clone(), tags }
    }
}

impl PartialEq for Group {
    fn eq(&self, o: &Group) -> (r: bool) {
        if self.name != o.name || self.tags.len() != o.tags.len() {
            assert(tag_models(self.tags@).len() == self.tags@.len());
            assert(tag_models(o.tags@).len() == o.tags@.len());
            return false;
        }
        let mut i: usize = 0;
        while i < self.tags.len()
            invariant
                i <= self.tags@.len(),
                self.tags@.len() == o.tags@.len(),
                forall|j: int| 0 <= j < i ==> #[trigger] self.tags@[j]@ == o.tags@[j]@,
            decreases self.tags@.len() - i,
        {
            if !(self.tags[i] == o.tags[i]) {
                assert(tag_models(self.tags@)[i as int] != tag_models(o.tags@)[i as int]);
                return false;
            }
            i = i + 1;
        }
        assert(tag_models(self.tags@) =~= tag_models(o.tags@));
        true
    }
}

impl vstd::std_specs::cmp::PartialEqSpecImpl for Group {
    open spec fn obeys_eq_spec() -> bool {
        true
    }

    open spec fn eq_spec(&self, o: &Group) -> bool {
        self@ == o@
    }
}

} // verus!
