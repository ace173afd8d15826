use vstd::prelude::*;
use vstd::string::StrSliceExecFns;
use vstd::string::StringExecFns;

use crate::text::{fields, has_tag, split_fields, string_views, trim, trimmed};

verus! {

/// One condition of a rule: the tag must be present, or absent when negated.
#[derive(Debug)]
pub struct BlacklistTerm {
    pub tag: String,
    pub negated: bool,
}

/// A rule matches a post when every one of its terms holds.
#[derive(Debug)]
pub struct BlacklistRule {
    pub terms: Vec<BlacklistTerm>,
}

/// A post is blacklisted when any rule matches it.
#[derive(Debug)]
pub struct Blacklist {
    pub rules: Vec<BlacklistRule>,
}

pub type TermModel = (Seq<char>, bool);

impl View for BlacklistTerm {
    type V = TermModel;

    open spec fn view(&self) -> TermModel {
        (self.tag@, self.negated)
    }
}

impl View for BlacklistRule {
    type V = Seq<TermModel>;

    open spec fn view(&self) -> Seq<TermModel> {
        self.terms@.map_values(|t: BlacklistTerm| t@)
    }
}

impl View for Blacklist {
    type V = Seq<Seq<TermModel>>;

    open spec fn view(&self) -> Seq<Seq<TermModel>> {
        self.rules@.map_values(|r: BlacklistRule| r@)
    }
}

pub open spec fn term_holds(term: TermModel, tags: Seq<Seq<char>>) -> bool {
    tags.contains(term.0) != term.1
}

pub open spec fn rule_matches(rule: Seq<TermModel>, tags: Seq<Seq<char>>) -> bool {
    rule.len() > 0 && forall|i: int| 0 <= i < rule.len() ==> term_holds(#[trigger] rule[i], tags)
}

pub open spec fn blacklisted(rules: Seq<Seq<TermModel>>, tags: Seq<Seq<char>>) -> bool {
    exists|i: int| 0 <= i < rules.len() && rule_matches(#[trigger] rules[i], tags)
}

/// The term a token stands for: a leading `-` negates it.
pub open spec fn term_of(token: Seq<char>) -> TermModel {
    if token.len() > 0 && token[0] == '-' {
        (token.drop_first(), true)
    } else {
        (token, false)
    }
}

/// The terms of a rule line: its space-separated tokens, trimmed, empty ones left out.
pub open spec fn rule_terms(pieces: Seq<Seq<char>>) -> Seq<TermModel>
    decreases pieces.len(),
{
    if pieces.len() == 0 {
        Seq::<TermModel>::empty()
    } else {
        let prev = rule_terms(pieces.drop_last());
        let t = trimmed(pieces.last());
        if t.len() == 0 {
            prev
        } else {
            prev.push(term_of(t))
        }
    }
}

/// The rules of a blacklist text: one per line that holds a term.
pub open spec fn blacklist_rules(lines: Seq<Seq<char>>) -> Seq<Seq<TermModel>>
    decreases lines.len(),
{
    if lines.len() == 0 {
        Seq::<Seq<TermModel>>::empty()
    } else {
        let prev = blacklist_rules(lines.drop_last());
        let r = rule_terms(fields(lines.last(), ' '));
        if r.len() == 0 {
            prev
        } else {
            prev.push(r)
        }
    }
}

fn term_from_token(token: &String) -> (r: BlacklistTerm)
    ensures
        r@ == term_of(token@),
{
    let n = token.as_str().unicode_len();
    if n > 0 && token.as_str().get_char(0) == '-' {
        let rest = token.as_str().substring_char(1, n);
        assert(rest@ =~= token@.drop_first());
        BlacklistTerm { tag: String::from_str(rest), negated: true }
    } else {
        BlacklistTerm { tag: token.clone(), negated: false }
    }
}

impl BlacklistRule {
    /// Compiles one line of space-separated terms.
    pub fn compile(line: &str) -> (r: BlacklistRule)
        ensures
            r@ == rule_terms(fields(line@, ' ')),
    {
        let pieces = split_fields(line, ' ');
        let ghost ps = string_views(pieces@);
        let mut terms: Vec<BlacklistTerm> = Vec::new();
        let mut j: usize = 0;
        assert(ps.take(0) =~= Seq::<Seq<char>>::empty());
        assert(terms@.map_values(|t: BlacklistTerm| t@) =~= Seq::<TermModel>::empty());
        while j < pieces.len()
            invariant
                j <= pieces@.len(),
                ps == string_views(pieces@),
                terms@.map_values(|t: BlacklistTerm| t@) == rule_terms(ps.take(j as int)),
            decreases pieces@.len() - j,
        {
            assert(ps.take(j + 1).drop_last() =~= ps.take(j as int));
            assert(ps[j as int] == pieces@[j as int]@);
            let t = trim(pieces[j].as_str());
            if t.as_str().unicode_len() > 0 {
                let term = term_from_token(&t);
                let ghost before = terms@;
                terms.push(term);
                assert(terms@.map_values(|t: BlacklistTerm| t@) =~= before.map_values(
                    |t: BlacklistTerm| t@,
                ).push(term@));
            }
            j = j + 1;
        }
        assert(ps.take(j as int) =~= ps);
        BlacklistRule { terms }
    }

    /// Whether every term of the rule holds of `tags`.
    pub fn matches(&self, tags: &Vec<String>) -> (r: bool)
        ensures
            r == rule_matches(self@, string_views(tags@)),
    {
        if self.terms.len() == 0 {
            return false;
        }
        let mut i: usize = 0;
        while i < self.terms.len()
            invariant
                i <= self.terms@.len(),
                forall|j: int|
                    0 <= j < i ==> term_holds(#[trigger] self@[j], string_views(tags@)),
            decreases self.terms@.len() - i,
        {
            let present = has_tag(tags, &self.terms[i].tag);
            if present == self.terms[i].negated {
                assert(!term_holds(self@[i as int], string_views(tags@)));
                return false;
            }
            i = i + 1;
        }
        true
    }
}

impl Blacklist {
    /// A blacklist that matches nothing.
    pub fn empty() -> (r: Blacklist)
        ensures
            r@.len() == 0,
    {
        Blacklist { rules: Vec::new() }
    }

    /// Compiles a blacklist text, one rule per line.
    pub fn compile(text: &str) -> (r: Blacklist)
        ensures
            r@ == blacklist_rules(fields(text@, '\n')),
    {
        let lines = split_fields(text, '\n');
        let ghost ls = string_views(lines@);
        let mut rules: Vec<BlacklistRule> = Vec::new();
        let mut j: usize = 0;
        assert(ls.take(0) =~= Seq::<Seq<char>>::empty());
        assert(rules@.map_values(|r: BlacklistRule| r@) =~= Seq::<Seq<TermModel>>::empty());
        while j < lines.len()
            invariant
                j <= lines@.len(),
                ls == string_views(lines@),
                rules@.map_values(|r: BlacklistRule| r@) == blacklist_rules(ls.take(j as int)),
            decreases lines@.len() - j,
        {
            assert(ls.take(j + 1).drop_last() =~= ls.take(j as int));
            assert(ls[j as int] == lines@[j as int]@);
            let rule = BlacklistRule::compile(lines[j].as_str());
            if rule.terms.len() > 0 {
                let ghost before = rules@;
                rules.push(rule);
                assert(rules@.map_values(|r: BlacklistRule| r@) =~= before.map_values(
                    |r: BlacklistRule| r@,
                ).push(rule@));
            }
            j = j + 1;
        }
        assert(ls.take(j as int) =~= ls);
        Blacklist { rules }
    }

    /// Whether any rule matches `tags`.
    pub fn is_blacklisted(&self, tags: &Vec<String>) -> (r: bool)
        ensures
            r == blacklisted(self@, string_views(tags@)),
    {
        let mut i: usize = 0;
        while i < self.rules.len()
            invariant
                i <= self.rules@.len(),
                forall|j: int|
                    0 <= j < i ==> !rule_matches(#[trigger] self@[j], string_views(tags@)),
            decreases self.rules@.len() - i,
        {
            if self.rules[i].matches(tags) {
                assert(rule_matches(self@[i as int], string_views(tags@)));
                return true;
            }
            i = i + 1;
        }
        false
    }
}

} // verus!
