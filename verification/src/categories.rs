//! Named categories and the rules that tag torrents by themselves.

use crate::names::{NameMap, NameSet};
use crate::text::{contains, lowercase, occurs, texts};
use vstd::prelude::*;

verus! {

/// A named category: torrents in it inherit its save path when they are added without one of
/// their own.
#[derive(Debug, Clone, PartialEq, Eq)]
pub struct Category {
    pub save_path: String,
    /// tags that every torrent added in the category gets
    pub add_tags: Vec<String>,
}

/// The configured categories by name.
#[derive(Debug, Clone, PartialEq, Eq)]
pub struct Categories {
    pub entries: NameMap<Category>,
}

/// A rule that tags torrents. All its matchers must hold; a rule without matchers always
/// matches.
#[derive(Debug, Clone, PartialEq, Eq)]
pub struct TagRule {
    pub name: String,
    /// torrents of at least this many bytes match
    pub size_min: Option<i64>,
    /// torrents of at most this many bytes match
    pub size_max: Option<i64>,
    /// matched against the torrent's name, whatever the case
    pub name_contains: Option<String>,
    /// matched against each tracker address, whatever the case
    pub tracker_contains: Option<String>,
    /// tags that a match adds
    pub add_tags: Vec<String>,
}

/// The configured rules.
#[derive(Debug, Clone, PartialEq, Eq)]
pub struct TagRules {
    pub rules: Vec<TagRule>,
}

/// `needle` occurs in `hay` when case is left out of account.
pub open spec fn occurs_any_case(hay: Seq<char>, needle: Seq<char>) -> bool {
    occurs(lowercase(hay), lowercase(needle))
}

impl TagRule {
    /// The rule matches a torrent of that name, size and trackers.
    pub open spec fn matches(self, name: Seq<char>, size: i64, trackers: Seq<Seq<char>>) -> bool {
        &&& self.size_min matches Some(least) ==> size >= least
        &&& self.size_max matches Some(most) ==> size <= most
        &&& self.name_contains matches Some(needle) ==> occurs_any_case(name, needle@)
        &&& self.tracker_contains matches Some(needle) ==> exists|i: int|
            0 <= i < trackers.len() && occurs_any_case(#[trigger] trackers[i], needle@)
    }
}

/// Whether the needle occurs in one of the texts, whatever the case.
fn any_contains(list: &[String], needle: &str) -> (r: bool)
    ensures
        r == exists|i: int|
            0 <= i < list@.len() && occurs_any_case(#[trigger] texts(list@)[i], needle@),
{
    let lower = needle.to_lowercase();
    let mut i: usize = 0;
    while i < list.len()
        invariant
            i <= list@.len(),
            lower@ == lowercase(needle@),
            forall|j: int| 0 <= j < i ==> !occurs_any_case(#[trigger] texts(list@)[j], needle@),
        decreases list@.len() - i,
    {
        let own = list[i].as_str().to_lowercase();
        if contains(own.as_str(), lower.as_str()) {
            assert(occurs_any_case(texts(list@)[i as int], needle@));
            return true;
        }
        i = i + 1;
    }
    false
}

impl TagRules {
    /// The torrent gets the tag from one of the first `n` rules.
    pub open spec fn gives(
        self,
        n: int,
        tag: Seq<char>,
        name: Seq<char>,
        size: i64,
        trackers: Seq<Seq<char>>,
    ) -> bool {
        exists|i: int|
            0 <= i < n && (#[trigger] self.rules@[i]).matches(name, size, trackers) && texts(
                self.rules@[i].add_tags@,
            ).contains(tag)
    }

    /// Holds every rule against a torrent and returns all the tags of those that match.
    pub fn evaluate(&self, torrent_name: &str, total_size: i64, tracker_urls: &[String]) -> (r:
        NameSet)
        ensures
            r.wf(),
            forall|tag: Seq<char>| #[trigger]
                r.has(tag) <==> self.gives(
                    self.rules@.len() as int,
                    tag,
                    torrent_name@,
                    total_size,
                    texts(tracker_urls@),
                ),
    {
        let ghost trackers = texts(tracker_urls@);
        let mut tags = NameSet::new();
        let mut i: usize = 0;
        while i < self.rules.len()
            invariant
                i <= self.rules@.len(),
                trackers == texts(tracker_urls@),
                tags.wf(),
                forall|tag: Seq<char>| #[trigger]
                    tags.has(tag) <==> self.gives(
                        i as int,
                        tag,
                        torrent_name@,
                        total_size,
                        trackers,
                    ),
            decreases self.rules@.len() - i,
        {
            let rule = &self.rules[i];
            let big_enough = match rule.size_min {
                Some(least) => total_size >= least,
                None => true,
            };
            let small_enough = match rule.size_max {
                Some(most) => total_size <= most,
                None => true,
            };
            let named = match &rule.name_contains {
                Some(needle) => {
                    let hay = torrent_name.to_lowercase();
                    let low = needle.as_str().to_lowercase();
                    contains(hay.as_str(), low.as_str())
                },
                None => true,
            };
            let announced = match &rule.tracker_contains {
                Some(needle) => any_contains(tracker_urls, needle.as_str()),
                None => true,
            };
            assert((big_enough && small_enough && named && announced) == rule.matches(
                torrent_name@,
                total_size,
                trackers,
            ));
            let ghost before = tags;
            if big_enough && small_enough && named && announced {
                tags.extend_list(&rule.add_tags);
            }
            proof {
                assert forall|tag: Seq<char>| #[trigger]
                    tags.has(tag) <==> self.gives(
                        i + 1,
                        tag,
                        torrent_name@,
                        total_size,
                        trackers,
                    ) by {
                    let hit = self.rules@[i as int].matches(torrent_name@, total_size, trackers)
                        && texts(self.rules@[i as int].add_tags@).contains(tag);
                    if self.gives(i as int, tag, torrent_name@, total_size, trackers) {
                        let k = choose|k: int|
                            0 <= k < i && (#[trigger] self.rules@[k]).matches(
                                torrent_name@,
                                total_size,
                                trackers,
                            ) && texts(self.rules@[k].add_tags@).contains(tag);
                        assert(0 <= k < i + 1 && self.rules@[k].matches(
                            torrent_name@,
                            total_size,
                            trackers,
                        ));
                    }
                    assert(before.has(tag) == self.gives(
                        i as int,
                        tag,
                        torrent_name@,
                        total_size,
                        trackers,
                    ));
                }
            }
            i = i + 1;
        }
        tags
    }
}

impl Categories {
    /// The category of that name.
    pub fn get(&self, name: &str) -> (r: Option<&Category>)
        requires
            self.entries.wf(),
        ensures
            r is Some <==> self.entries.has(name@),
            r matches Some(c) ==> *c == self.entries.at(name@),
    {
        self.entries.get(name)
    }
}

/// A rule without matchers gives its tags to every torrent.
pub proof fn law_rule_without_matchers_always_matches(
    rule: TagRule,
    name: Seq<char>,
    size: i64,
    trackers: Seq<Seq<char>>,
)
    requires
        rule.size_min is None,
        rule.size_max is None,
        rule.name_contains is None,
        rule.tracker_contains is None,
    ensures
        rule.matches(name, size, trackers),
{
}

} // verus!
