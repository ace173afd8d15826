use vstd::prelude::*;

use crate::blacklist::{blacklisted, Blacklist, TermModel};
use crate::tag::{group_category_spec, group_models, Group, GroupModel, TagType};
use crate::text::string_views;

verus! {

/// Content rating of a post.
#[derive(Clone, Copy, Debug, PartialEq, Eq, Structural)]
pub enum Rating {
    Safe,
    Questionable,
    Explicit,
}

/// One remote content item; its identity is `id`.
#[derive(Debug)]
pub struct Post {
    pub id: u64,
    pub md5: String,
    pub file_url: String,
    pub extension: String,
    pub tags: Vec<String>,
    pub rating: Rating,
    pub score: i64,
}

pub ghost struct PostModel {
    pub id: u64,
    pub md5: Seq<char>,
    pub file_url: Seq<char>,
    pub extension: Seq<char>,
    pub tags: Seq<Seq<char>>,
    pub rating: Rating,
    pub score: i64,
}

impl View for Post {
    type V = PostModel;

    open spec fn view(&self) -> PostModel {
        PostModel {
            id: self.id,
            md5: self.md5@,
            file_url: self.file_url@,
            extension: self.extension@,
            tags: string_views(self.tags@),
            rating: self.rating,
            score: self.score,
        }
    }
}

pub open spec fn post_models(ps: Seq<Post>) -> Seq<PostModel> {
    ps.map_values(|p: Post| p@)
}

impl Post {
    /// A post with the same fields.
    pub fn duplicate(&self) -> (r: Post)
        ensures
            r@ == self@,
    {
        let mut tags: Vec<String> = Vec::new();
        let mut i: usize = 0;
        while i < self.tags.len()
            invariant
                i <= self.tags@.len(),
                tags@ == self.tags@.take(i as int),
            decreases self.tags@.len() - i,
        {
            tags.push(self.tags[i].clone());
            i = i + 1;
            assert(tags@ =~= self.tags@.take(i as int));
        }
        assert(self.tags@.take(i as int) =~= self.tags@);
        Post {
            id: self.id,
            md5: self.md5.clone(),
            file_url: self.file_url.clone(),
            extension: self.extension.clone(),
            tags,
            rating: self.rating,
            score: self.score,
        }
    }
}

/// Why the request sender could not deliver a page.
#[derive(Clone, Copy, Debug, PartialEq, Eq, Structural)]
pub enum FetchError {
    InvalidQuery,
    Unavailable,
    RateLimited,
}

/// What a page request came back with: its posts, or `None` on a fetch error.
pub open spec fn page_model(r: Result<Vec<Post>, FetchError>) -> Option<Seq<PostModel>> {
    match r {
        Ok(v) => Some(post_models(v@)),
        Err(_) => None,
    }
}

pub open spec fn page_models(rs: Seq<Result<Vec<Post>, FetchError>>) -> Seq<Option<Seq<PostModel>>> {
    rs.map_values(|r: Result<Vec<Post>, FetchError>| page_model(r))
}

/// A post kept by the grabber, with the index and category of the group that
/// first produced it.
#[derive(Debug)]
pub struct GrabbedPost {
    pub group: usize,
    pub category: TagType,
    pub post: Post,
}

pub type GrabbedModel = (usize, TagType, PostModel);

impl View for GrabbedPost {
    type V = GrabbedModel;

    open spec fn view(&self) -> GrabbedModel {
        (self.group, self.category, self.post@)
    }
}

pub open spec fn grabbed_models(gs: Seq<GrabbedPost>) -> Seq<GrabbedModel> {
    gs.map_values(|g: GrabbedPost| g@)
}

pub open spec fn kept_ids(kept: Seq<GrabbedModel>) -> Seq<u64> {
    kept.map_values(|k: GrabbedModel| k.2.id)
}

/// The kept list after one fetched post: it is dropped when its id was kept
/// already, or when the blacklist matches it and its group is not bypassed.
pub open spec fn take_post(
    kept: Seq<GrabbedModel>,
    group: usize,
    category: TagType,
    bypassed: bool,
    rules: Seq<Seq<TermModel>>,
    p: PostModel,
) -> Seq<GrabbedModel> {
    if kept_ids(kept).contains(p.id) || (!bypassed && blacklisted(rules, p.tags)) {
        kept
    } else {
        kept.push((group, category, p))
    }
}

/// The kept list after a page of posts, taken in order.
pub open spec fn take_page(
    kept: Seq<GrabbedModel>,
    group: usize,
    category: TagType,
    bypassed: bool,
    rules: Seq<Seq<TermModel>>,
    ps: Seq<PostModel>,
) -> Seq<GrabbedModel>
    decreases ps.len(),
{
    if ps.len() == 0 {
        kept
    } else {
        take_post(
            take_page(kept, group, category, bypassed, rules, ps.drop_last()),
            group,
            category,
            bypassed,
            rules,
            ps.last(),
        )
    }
}

/// Whether the page at index `i` (page `i + 1`) is fetched and has posts.
pub open spec fn page_has_posts(pages: Seq<Option<Seq<PostModel>>>, i: int) -> bool {
    0 <= i < pages.len() && pages[i] is Some && pages[i]->0.len() > 0
}

/// How many pages, from index `i` on, are taken: pagination stops at the first
/// empty page, the first failed one, the end of the answers, or `max` pages.
pub open spec fn pages_taken(pages: Seq<Option<Seq<PostModel>>>, i: nat, max: nat) -> nat
    decreases max - i,
{
    if i < max && page_has_posts(pages, i as int) {
        pages_taken(pages, i + 1, max)
    } else {
        i
    }
}

/// The kept list after the first `k` pages of one group.
pub open spec fn take_pages(
    kept: Seq<GrabbedModel>,
    group: usize,
    category: TagType,
    bypassed: bool,
    rules: Seq<Seq<TermModel>>,
    pages: Seq<Option<Seq<PostModel>>>,
    k: nat,
) -> Seq<GrabbedModel>
    decreases k,
{
    if k == 0 {
        kept
    } else {
        let prev = take_pages(kept, group, category, bypassed, rules, pages, (k - 1) as nat);
        match pages[k - 1] {
            Some(ps) => take_page(prev, group, category, bypassed, rules, ps),
            None => prev,
        }
    }
}

/// The kept list after every group, in order; `answers[i]` holds the pages
/// that the request sender gave for group `i`, page 1 first. A group with no
/// tags is not queried.
pub open spec fn grab_spec(
    kept: Seq<GrabbedModel>,
    groups: Seq<GroupModel>,
    answers: Seq<Seq<Option<Seq<PostModel>>>>,
    rules: Seq<Seq<TermModel>>,
    bypass: Seq<TagType>,
    max: nat,
) -> Seq<GrabbedModel>
    decreases groups.len(),
{
    if groups.len() == 0 {
        kept
    } else {
        let i = (groups.len() - 1) as int;
        let prev = grab_spec(kept, groups.drop_last(), answers, rules, bypass, max);
        let g = groups.last();
        let c = group_category_spec(g);
        if g.1.len() == 0 {
            prev
        } else {
            take_pages(
                prev,
                i as usize,
                c,
                bypass.contains(c),
                rules,
                answers[i],
                pages_taken(answers[i], 0, max),
            )
        }
    }
}

/// The kept list holds each id once, and a blacklisted post only where its
/// group's category is bypassed.
pub open spec fn sound(
    kept: Seq<GrabbedModel>,
    rules: Seq<Seq<TermModel>>,
    bypass: Seq<TagType>,
) -> bool {
    &&& kept_ids(kept).no_duplicates()
    &&& forall|j: int|
        0 <= j < kept.len() && blacklisted(rules, #[trigger] kept[j].2.tags) ==> bypass.contains(
            kept[j].1,
        )
}


pub open spec fn answer_models(
    answers: Seq<Vec<Result<Vec<Post>, FetchError>>>,
) -> Seq<Seq<Option<Seq<PostModel>>>> {
    answers.map_values(|a: Vec<Result<Vec<Post>, FetchError>>| page_models(a@))
}

proof fn lemma_kept_ids_push(kept: Seq<GrabbedModel>, x: GrabbedModel)
    ensures
        kept_ids(kept.push(x)) == kept_ids(kept).push(x.2.id),
{
    assert(kept_ids(kept.push(x)) =~= kept_ids(kept).push(x.2.id));
}

/// Taking one post keeps the kept list sound.
pub proof fn lemma_take_post_sound(
    kept: Seq<GrabbedModel>,
    group: usize,
    category: TagType,
    rules: Seq<Seq<TermModel>>,
    bypass: Seq<TagType>,
    p: PostModel,
)
    requires
        sound(kept, rules, bypass),
    ensures
        sound(take_post(kept, group, category, bypass.contains(category), rules, p), rules, bypass),
{
    let byp = bypass.contains(category);
    if !(kept_ids(kept).contains(p.id) || (!byp && blacklisted(rules, p.tags))) {
        let x = (group, category, p);
        lemma_kept_ids_push(kept, x);
        let ids = kept_ids(kept);
        let nids = ids.push(p.id);
        assert forall|a: int, b: int| 0 <= a < nids.len() && 0 <= b < nids.len() && a != b
            implies nids[a] != nids[b] by {
            if a < ids.len() && b < ids.len() {
            } else if a == ids.len() {
                assert(ids[b] == nids[b]);
            } else {
                assert(ids[a] == nids[a]);
            }
        }
        let nk = kept.push(x);
        assert forall|j: int|
            0 <= j < nk.len() && blacklisted(rules, #[trigger] nk[j].2.tags) implies bypass.contains(
            nk[j].1,
        ) by {
            if j < kept.len() {
                assert(nk[j] == kept[j]);
            }
        }
    }
}

/// Taking a page of posts keeps the kept list sound.
pub proof fn lemma_take_page_sound(
    kept: Seq<GrabbedModel>,
    group: usize,
    category: TagType,
    rules: Seq<Seq<TermModel>>,
    bypass: Seq<TagType>,
    ps: Seq<PostModel>,
)
    requires
        sound(kept, rules, bypass),
    ensures
        sound(take_page(kept, group, category, bypass.contains(category), rules, ps), rules, bypass),
    decreases ps.len(),
{
    if ps.len() > 0 {
        lemma_take_page_sound(kept, group, category, rules, bypass, ps.drop_last());
        lemma_take_post_sound(
            take_page(kept, group, category, bypass.contains(category), rules, ps.drop_last()),
            group,
            category,
            rules,
            bypass,
            ps.last(),
        );
    }
}

proof fn lemma_take_pages_sound(
    kept: Seq<GrabbedModel>,
    group: usize,
    category: TagType,
    rules: Seq<Seq<TermModel>>,
    bypass: Seq<TagType>,
    pages: Seq<Option<Seq<PostModel>>>,
    k: nat,
)
    requires
        sound(kept, rules, bypass),
        k <= pages.len(),
    ensures
        sound(
            take_pages(kept, group, category, bypass.contains(category), rules, pages, k),
            rules,
            bypass,
        ),
    decreases k,
{
    if k > 0 {
        lemma_take_pages_sound(kept, group, category, rules, bypass, pages, (k - 1) as nat);
        match pages[k - 1] {
            Some(ps) => lemma_take_page_sound(
                take_pages(
                    kept,
                    group,
                    category,
                    bypass.contains(category),
                    rules,
                    pages,
                    (k - 1) as nat,
                ),
                group,
                category,
                rules,
                bypass,
                ps,
            ),
            None => {},
        }
    }
}

proof fn lemma_pages_taken_bound(pages: Seq<Option<Seq<PostModel>>>, i: nat, max: nat)
    requires
        i <= pages.len(),
    ensures
        i <= pages_taken(pages, i, max) <= pages.len(),
    decreases max - i,
{
    if i < max && page_has_posts(pages, i as int) {
        lemma_pages_taken_bound(pages, i + 1, max);
    }
}

/// Whatever the request sender answers, the posts kept over a whole run hold
/// each id at most once, and a post that the blacklist matches is kept only
/// where the category of the group that produced it is bypassed.
pub proof fn lemma_grab_sound(
    groups: Seq<GroupModel>,
    answers: Seq<Seq<Option<Seq<PostModel>>>>,
    rules: Seq<Seq<TermModel>>,
    bypass: Seq<TagType>,
    max: nat,
)
    requires
        answers.len() == groups.len(),
    ensures
        sound(grab_spec(Seq::empty(), groups, answers, rules, bypass, max), rules, bypass),
    decreases groups.len(),
{
    if groups.len() == 0 {
        assert(kept_ids(Seq::<GrabbedModel>::empty()) =~= Seq::<u64>::empty());
    } else {
        let i = groups.len() - 1;
        lemma_grab_sound(groups.drop_last(), answers.drop_last(), rules, bypass, max);
        lemma_grab_answers_prefix(Seq::empty(), groups.drop_last(), answers, rules, bypass, max);
        let prev = grab_spec(Seq::empty(), groups.drop_last(), answers, rules, bypass, max);
        let g = groups.last();
        let c = group_category_spec(g);
        if g.1.len() > 0 {
            lemma_pages_taken_bound(answers[i], 0, max);
            lemma_take_pages_sound(
                prev,
                i as usize,
                c,
                rules,
                bypass,
                answers[i],
                pages_taken(answers[i], 0, max),
            );
        }
    }
}

/// Only the answers for the groups considered matter.
proof fn lemma_grab_answers_prefix(
    kept: Seq<GrabbedModel>,
    groups: Seq<GroupModel>,
    answers: Seq<Seq<Option<Seq<PostModel>>>>,
    rules: Seq<Seq<TermModel>>,
    bypass: Seq<TagType>,
    max: nat,
)
    requires
        groups.len() < answers.len(),
    ensures
        grab_spec(kept, groups, answers, rules, bypass, max) == grab_spec(
            kept,
            groups,
            answers.drop_last(),
            rules,
            bypass,
            max,
        ),
    decreases groups.len(),
{
    if groups.len() > 0 {
        lemma_grab_answers_prefix(kept, groups.drop_last(), answers, rules, bypass, max);
    }
}

/// Every post kept after the first `k` pages of a group that already held
/// only entries of queried groups is either such an entry or from this group.
proof fn lemma_take_page_groups(
    kept: Seq<GrabbedModel>,
    group: usize,
    category: TagType,
    bypassed: bool,
    rules: Seq<Seq<TermModel>>,
    ps: Seq<PostModel>,
)
    ensures
        forall|j: int|
            0 <= j < take_page(kept, group, category, bypassed, rules, ps).len() ==> (j
                < kept.len() && #[trigger] take_page(kept, group, category, bypassed, rules, ps)[j]
                == kept[j]) || take_page(kept, group, category, bypassed, rules, ps)[j].0
                == group,
    decreases ps.len(),
{
    if ps.len() > 0 {
        lemma_take_page_groups(kept, group, category, bypassed, rules, ps.drop_last());
        let prev = take_page(kept, group, category, bypassed, rules, ps.drop_last());
        let cur = take_page(kept, group, category, bypassed, rules, ps);
        assert forall|j: int| 0 <= j < cur.len() implies (j < kept.len() && #[trigger] cur[j]
            == kept[j]) || cur[j].0 == group by {
            if j < prev.len() {
                assert(cur[j] == prev[j]);
                if j < kept.len() && prev[j] == kept[j] {
                } else {
                    assert(prev[j].0 == group);
                }
            }
        }
    }
}

proof fn lemma_take_pages_groups(
    kept: Seq<GrabbedModel>,
    group: usize,
    category: TagType,
    bypassed: bool,
    rules: Seq<Seq<TermModel>>,
    pages: Seq<Option<Seq<PostModel>>>,
    k: nat,
)
    ensures
        forall|j: int|
            0 <= j < take_pages(kept, group, category, bypassed, rules, pages, k).len() ==> (j
                < kept.len() && #[trigger] take_pages(
                kept,
                group,
                category,
                bypassed,
                rules,
                pages,
                k,
            )[j] == kept[j]) || take_pages(kept, group, category, bypassed, rules, pages, k)[j].0
                == group,
    decreases k,
{
    if k > 0 {
        let prev = take_pages(kept, group, category, bypassed, rules, pages, (k - 1) as nat);
        lemma_take_pages_groups(kept, group, category, bypassed, rules, pages, (k - 1) as nat);
        match pages[k - 1] {
            Some(ps) => {
                lemma_take_page_groups(prev, group, category, bypassed, rules, ps);
                let cur = take_page(prev, group, category, bypassed, rules, ps);
                assert forall|j: int| 0 <= j < cur.len() implies (j < kept.len() && #[trigger] cur[j]
                    == kept[j]) || cur[j].0 == group by {
                    if j < prev.len() && cur[j] == prev[j] {
                    }
                }
            },
            None => {},
        }
    }
}

/// A group with no tags contributes no post: every kept post comes from a
/// group that has tags.
pub proof fn lemma_empty_group_contributes_nothing(
    groups: Seq<GroupModel>,
    answers: Seq<Seq<Option<Seq<PostModel>>>>,
    rules: Seq<Seq<TermModel>>,
    bypass: Seq<TagType>,
    max: nat,
)
    requires
        groups.len() <= usize::MAX,
    ensures
        forall|j: int|
            0 <= j < grab_spec(Seq::empty(), groups, answers, rules, bypass, max).len() ==> {
                let k = #[trigger] grab_spec(Seq::empty(), groups, answers, rules, bypass, max)[j];
                k.0 < groups.len() && groups[k.0 as int].1.len() > 0
            },
    decreases groups.len(),
{
    if groups.len() > 0 {
        let i = groups.len() - 1;
        lemma_empty_group_contributes_nothing(groups.drop_last(), answers, rules, bypass, max);
        let prev = grab_spec(Seq::empty(), groups.drop_last(), answers, rules, bypass, max);
        let g = groups.last();
        let c = group_category_spec(g);
        let cur = grab_spec(Seq::empty(), groups, answers, rules, bypass, max);
        if g.1.len() > 0 {
            lemma_take_pages_groups(
                prev,
                i as usize,
                c,
                bypass.contains(c),
                rules,
                answers[i],
                pages_taken(answers[i], 0, max),
            );
        }
        assert forall|j: int| 0 <= j < cur.len() implies #[trigger] cur[j].0 < groups.len()
            && groups[cur[j].0 as int].1.len() > 0 by {
            if j < prev.len() && cur[j] == prev[j] {
                assert(prev[j].0 < groups.drop_last().len());
                assert(groups.drop_last()[prev[j].0 as int] == groups[prev[j].0 as int]);
            }
        }
    }
}

/// Whether an answer to a page request holds posts.
pub fn has_posts(r: &Result<Vec<Post>, FetchError>) -> (b: bool)
    ensures
        b == (page_model(*r) is Some && page_model(*r)->0.len() > 0),
{
    match r {
        Ok(v) => v.len() > 0,
        Err(_) => false,
    }
}

/// Drives the paginated queries of a run and keeps the deduplicated,
/// filtered posts in the order they were first seen.
#[derive(Debug)]
pub struct Grabber {
    pub blacklist: Blacklist,
    /// Categories whose groups are kept whole, blacklist or not.
    pub bypass: Vec<TagType>,
    /// The most pages fetched for one group.
    pub max_pages: u32,
    pub grabbed: Vec<GrabbedPost>,
    /// Fetched posts dropped as duplicates or by the blacklist, saturating.
    pub dropped: usize,
}

impl Grabber {
    pub open spec fn wf(&self) -> bool {
        sound(grabbed_models(self.grabbed@), self.blacklist@, self.bypass@)
    }

    pub open spec fn kept(&self) -> Seq<GrabbedModel> {
        grabbed_models(self.grabbed@)
    }

    pub fn new(blacklist: Blacklist, bypass: Vec<TagType>, max_pages: u32) -> (r: Grabber)
        ensures
            r.wf(),
            r.kept().len() == 0,
            r.blacklist@ == blacklist@,
            r.bypass@ == bypass@,
            r.max_pages == max_pages,
            r.dropped == 0,
    {
        let r = Grabber { blacklist, bypass, max_pages, grabbed: Vec::new(), dropped: 0 };
        assert(kept_ids(r.kept()) =~= Seq::<u64>::empty());
        r
    }

    /// Whether groups of category `c` skip the blacklist.
    pub fn bypasses(&self, c: TagType) -> (r: bool)
        ensures
            r == self.bypass@.contains(c),
    {
        let mut i: usize = 0;
        while i < self.bypass.len()
            invariant
                i <= self.bypass@.len(),
                forall|j: int| 0 <= j < i ==> self.bypass@[j] != c,
            decreases self.bypass@.len() - i,
        {
            if self.bypass[i] == c {
                return true;
            }
            i = i + 1;
        }
        false
    }

    /// Whether a post with this id is kept already.
    pub fn is_kept(&self, id: u64) -> (r: bool)
        ensures
            r == kept_ids(self.kept()).contains(id),
    {
        let mut i: usize = 0;
        while i < self.grabbed.len()
            invariant
                i <= self.grabbed@.len(),
                forall|j: int| 0 <= j < i ==> #[trigger] kept_ids(self.kept())[j] != id,
            decreases self.grabbed@.len() - i,
        {
            if self.grabbed[i].post.id == id {
                assert(kept_ids(self.kept())[i as int] == id);
                return true;
            }
            i = i + 1;
        }
        false
    }

    /// Takes one fetched post of group `group`: kept unless its id was kept
    /// already or the blacklist excludes it.
    pub fn accept_post(&mut self, group: usize, category: TagType, p: &Post)
        requires
            old(self).wf(),
        ensures
            final(self).wf(),
            final(self).kept() == take_post(
                old(self).kept(),
                group,
                category,
                old(self).bypass@.contains(category),
                old(self).blacklist@,
                p@,
            ),
            final(self).dropped == (if final(self).kept().len() == old(self).kept().len() {
                if old(self).dropped < usize::MAX {
                    (old(self).dropped + 1) as usize
                } else {
                    old(self).dropped
                }
            } else {
                old(self).dropped
            }),
            final(self).blacklist@ == old(self).blacklist@,
            final(self).bypass@ == old(self).bypass@,
            final(self).max_pages == old(self).max_pages,
    {
        proof {
            lemma_take_post_sound(
                self.kept(),
                group,
                category,
                self.blacklist@,
                self.bypass@,
                p@,
            );
        }
        if self.is_kept(p.id) || (!self.bypasses(category) && self.blacklist.is_blacklisted(
            &p.tags,
        )) {
            if self.dropped < usize::MAX {
                self.dropped = self.dropped + 1;
            }
            return;
        }
        let post = p.duplicate();
        let ghost before = self.grabbed@;
        self.grabbed.push(GrabbedPost { group, category, post });
        assert(grabbed_models(self.grabbed@) =~= grabbed_models(before).push(
            (group, category, p@),
        ));
    }

    /// Takes a page of fetched posts of group `group`, in order.
    pub fn accept_page(&mut self, group: usize, category: TagType, page: &Vec<Post>)
        requires
            old(self).wf(),
        ensures
            final(self).wf(),
            final(self).kept() == take_page(
                old(self).kept(),
                group,
                category,
                old(self).bypass@.contains(category),
                old(self).blacklist@,
                post_models(page@),
            ),
            final(self).blacklist@ == old(self).blacklist@,
            final(self).bypass@ == old(self).bypass@,
            final(self).max_pages == old(self).max_pages,
    {
        let ghost ps = post_models(page@);
        let ghost start = self.kept();
        let mut i: usize = 0;
        assert(ps.take(0) =~= Seq::<PostModel>::empty());
        while i < page.len()
            invariant
                i <= page@.len(),
                ps == post_models(page@),
                self.wf(),
                self.kept() == take_page(
                    start,
                    group,
                    category,
                    self.bypass@.contains(category),
                    self.blacklist@,
                    ps.take(i as int),
                ),
                self.blacklist@ == old(self).blacklist@,
                self.bypass@ == old(self).bypass@,
                self.max_pages == old(self).max_pages,
            decreases page@.len() - i,
        {
            assert(ps.take(i + 1).drop_last() =~= ps.take(i as int));
            assert(ps[i as int] == page@[i as int]@);
            self.accept_post(group, category, &page[i]);
            i = i + 1;
        }
        assert(ps.take(i as int) =~= ps);
    }

    /// After page `page` came back with `result`: the next page to request,
    /// or `None` when this group is done (an empty page, a fetch error, or the
    /// page limit reached).
    pub fn next_page(&self, page: u32, result: &Result<Vec<Post>, FetchError>) -> (r: Option<u32>)
        ensures
            r == (if page < self.max_pages && page_model(*result) is Some
                && page_model(*result)->0.len() > 0 {
                Some((page + 1) as u32)
            } else {
                None::<u32>
            }),
    {
        if page < self.max_pages && has_posts(result) {
            Some(page + 1)
        } else {
            None
        }
    }

    /// Grabs one group from the answers the request sender gave for it,
    /// `answers[p]` being page `p + 1`. A group without tags is skipped.
    pub fn grab_group(
        &mut self,
        index: usize,
        group: &Group,
        answers: &Vec<Result<Vec<Post>, FetchError>>,
    )
        requires
            old(self).wf(),
        ensures
            final(self).wf(),
            final(self).kept() == (if group@.1.len() == 0 {
                old(self).kept()
            } else {
                take_pages(
                    old(self).kept(),
                    index,
                    group_category_spec(group@),
                    old(self).bypass@.contains(group_category_spec(group@)),
                    old(self).blacklist@,
                    page_models(answers@),
                    pages_taken(page_models(answers@), 0, old(self).max_pages as nat),
                )
            }),
            final(self).blacklist@ == old(self).blacklist@,
            final(self).bypass@ == old(self).bypass@,
            final(self).max_pages == old(self).max_pages,
    {
        if group.is_empty() {
            return;
        }
        let category = group.category();
        let ghost pm = page_models(answers@);
        let ghost byp = self.bypass@.contains(category);
        let ghost start = self.kept();
        let ghost max = self.max_pages as nat;
        let limit: usize = if (self.max_pages as usize) < answers.len() {
            self.max_pages as usize
        } else {
            answers.len()
        };
        let mut p: usize = 0;
        while p < limit && has_posts(&answers[p])
            invariant
                p <= limit,
                limit <= answers@.len(),
                limit <= max,
                limit == answers@.len() || limit == max,
                pm == page_models(answers@),
                max == self.max_pages as nat,
                byp == self.bypass@.contains(category),
                self.wf(),
                pages_taken(pm, 0, max) == pages_taken(pm, p as nat, max),
                self.kept() == take_pages(start, index, category, byp, self.blacklist@, pm, p as nat),
                self.blacklist@ == old(self).blacklist@,
                self.bypass@ == old(self).bypass@,
                self.max_pages == old(self).max_pages,
            decreases limit - p,
        {
            assert(pm[p as int] == page_model(answers@[p as int]));
            match &answers[p] {
                Ok(v) => {
                    self.accept_page(index, category, v);
                },
                Err(_) => {},
            }
            p = p + 1;
        }
        assert(pages_taken(pm, p as nat, max) == p);
    }

    /// Grabs every group in order, `answers[i]` holding the pages the request
    /// sender gave for group `i`.
    pub fn grab(&mut self, groups: &Vec<Group>, answers: &Vec<Vec<Result<Vec<Post>, FetchError>>>)
        requires
            old(self).wf(),
            answers@.len() == groups@.len(),
        ensures
            final(self).wf(),
            final(self).kept() == grab_spec(
                old(self).kept(),
                group_models(groups@),
                answer_models(answers@),
                old(self).blacklist@,
                old(self).bypass@,
                old(self).max_pages as nat,
            ),
            final(self).blacklist@ == old(self).blacklist@,
            final(self).bypass@ == old(self).bypass@,
            final(self).max_pages == old(self).max_pages,
    {
        let ghost gm = group_models(groups@);
        let ghost am = answer_models(answers@);
        let ghost start = self.kept();
        let mut i: usize = 0;
        assert(gm.take(0) =~= Seq::<GroupModel>::empty());
        while i < groups.len()
            invariant
                i <= groups@.len(),
                answers@.len() == groups@.len(),
                gm == group_models(groups@),
                am == answer_models(answers@),
                self.wf(),
                self.kept() == grab_spec(
                    start,
                    gm.take(i as int),
                    am,
                    self.blacklist@,
                    self.bypass@,
                    self.max_pages as nat,
                ),
                self.blacklist@ == old(self).blacklist@,
                self.bypass@ == old(self).bypass@,
                self.max_pages == old(self).max_pages,
            decreases groups@.len() - i,
        {
            assert(gm.take(i + 1).drop_last() =~= gm.take(i as int));
            assert(gm[i as int] == groups@[i as int]@);
            assert(am[i as int] == page_models(answers@[i as int]@));
            self.grab_group(i, &groups[i], &answers[i]);
            i = i + 1;
        }
        assert(gm.take(i as int) =~= gm);
    }
}

} // verus!
