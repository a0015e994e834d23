//! Output filters: each one is given an entry and either hands it on,
//! possibly changed, or swallows it.
use crate::entry::{strs, Entry};
use crate::text::{contains_text, has_infix, last_segment, last_segment_of, same_text};
use vstd::prelude::*;

verus! {

/// A stage of the filter chain.
pub trait OutputFilter {
    /// Hands the entry on (`Some`) or swallows it (`None`).
    fn filter<E: Entry>(&mut self, entry: E) -> Option<E>;
}

/// Whether `s` holds the text `x`.
pub open spec fn holds_text(s: Seq<Seq<char>>, x: Seq<char>) -> bool {
    exists|i: int| 0 <= i < s.len() && s[i] == x
}

/// Whether `s` holds the text `x`.
pub fn holds(s: &Vec<String>, x: &str) -> (r: bool)
    ensures
        r == holds_text(strs(s@), x@),
{
    let mut i: usize = 0;
    while i < s.len()
        invariant
            i <= s.len(),
            forall|j: int| 0 <= j < i ==> strs(s@)[j] != x@,
        decreases s.len() - i,
    {
        if same_text(s[i].as_str(), x) {
            assert(strs(s@)[i as int] == x@);
            return true;
        }
        i = i + 1;
    }
    false
}

/// A list of host names.
#[derive(Debug, Clone)]
pub struct FilterNet {
    pub hosts: Vec<String>,
}

impl FilterNet {
    pub fn new(hosts: Vec<String>) -> (r: Self)
        ensures
            r.hosts@ == hosts@,
    {
        FilterNet { hosts }
    }

    /// A pattern matches a host when it is the same text.
    pub fn matches(filter_pattern: &str, host: &str) -> (r: bool)
        ensures
            r == (filter_pattern@ == host@),
    {
        same_text(filter_pattern, host)
    }

    /// Whether some host of the list matches `site`.
    pub fn any_matches_on(&self, site: &str) -> (r: bool)
        ensures
            r == holds_text(strs(self.hosts@), site@),
    {
        holds(&self.hosts, site)
    }
}

/// The configuration of a blacklist: banned tags and banned names. A
/// missing list bans nothing.
pub struct BlacklistConfig {
    pub tags: Option<Vec<String>>,
    pub names: Option<Vec<String>>,
}

/// Swallows entries whose title holds a banned name, or which carry a
/// banned tag.
pub struct BlacklistFilter {
    pub tags: Vec<String>,
    pub names: Vec<String>,
}

/// Some banned name occurs in the title.
pub open spec fn names_hit(names: Seq<Seq<char>>, title: Option<Seq<char>>) -> bool {
    match title {
        Some(t) => exists|i: int| 0 <= i < names.len() && has_infix(t, #[trigger] names[i]),
        None => false,
    }
}

/// Some banned tag is among the entry's tags.
pub open spec fn tags_hit(banned: Seq<Seq<char>>, tags: Option<Seq<Seq<char>>>) -> bool {
    match tags {
        Some(t) => exists|i: int| 0 <= i < banned.len() && holds_text(t, #[trigger] banned[i]),
        None => false,
    }
}

fn or_empty(o: Option<Vec<String>>) -> (r: Vec<String>)
    ensures
        r@ == match o {
            Some(v) => v@,
            None => Seq::<String>::empty(),
        },
{
    match o {
        Some(v) => v,
        None => Vec::new(),
    }
}

impl BlacklistFilter {
    /// The one blacklist that a configuration describes.
    pub fn build_filters(config: BlacklistConfig) -> (r: Vec<BlacklistFilter>)
        ensures
            r.len() == 1,
            r[0].tags@ == match config.tags {
                Some(v) => v@,
                None => Seq::<String>::empty(),
            },
            r[0].names@ == match config.names {
                Some(v) => v@,
                None => Seq::<String>::empty(),
            },
    {
        let f = BlacklistFilter { tags: or_empty(config.tags), names: or_empty(config.names) };
        let mut r = Vec::new();
        r.push(f);
        r
    }

    /// Swallows `entry`, which holds the banned `tag`.
    pub fn swallow<E: Entry>(&self, entry: E, tag: String) -> (r: Option<E>)
        ensures
            r is None,
    {
        None
    }

    /// Swallows the entry when its title holds a banned name or when it
    /// carries a banned tag; otherwise hands it on unchanged.
    pub fn filter<E: Entry>(&mut self, entry: E) -> (r: Option<E>)
        ensures
            r is None <==> (names_hit(strs(old(self).names@), entry.title_view()) || tags_hit(
                strs(old(self).tags@),
                entry.tags_view(),
            )),
            r is Some ==> r == Some(entry),
            *final(self) == *old(self),
    {
        let title = entry.title();
        if let Some(t) = &title {
            let mut i: usize = 0;
            while i < self.names.len()
                invariant
                    i <= self.names.len(),
                    entry.title_view() == Some(t@),
                    forall|j: int| 0 <= j < i ==> !has_infix(t@, #[trigger] strs(self.names@)[j]),
                decreases self.names.len() - i,
            {
                if contains_text(t.as_str(), self.names[i].as_str()) {
                    assert(has_infix(t@, strs(self.names@)[i as int]));
                    let banned = self.names[i].clone();
                    return self.swallow(entry, banned);
                }
                i = i + 1;
            }
        }
        if let Some(tags) = entry.tags() {
            let mut i: usize = 0;
            while i < self.tags.len()
                invariant
                    i <= self.tags.len(),
                    entry.tags_view() == Some(strs(tags@)),
                    forall|j: int| 0 <= j < i ==> !holds_text(strs(tags@), #[trigger] strs(self.tags@)[j]),
                decreases self.tags.len() - i,
            {
                if holds(tags, self.tags[i].as_str()) {
                    assert(holds_text(strs(tags@), strs(self.tags@)[i as int]));
                    let banned = self.tags[i].clone();
                    return self.swallow(entry, banned);
                }
                i = i + 1;
            }
        }
        Some(entry)
    }
}

impl OutputFilter for BlacklistFilter {
    fn filter<E: Entry>(&mut self, entry: E) -> Option<E> {
        BlacklistFilter::filter(self, entry)
    }
}

/// The configuration of a dedupe filter: it has no settings.
pub struct DedupeConfig {}

/// Swallows every entry whose content it has seen before.
pub struct DedupeFilter {
    memory: Vec<String>,
}

impl DedupeFilter {
    /// The content locations seen so far.
    pub closed spec fn seen(&self) -> Seq<Seq<char>> {
        strs(self.memory@)
    }

    pub fn new(config: DedupeConfig) -> (r: Self)
        ensures
            r.seen() == Seq::<Seq<char>>::empty(),
    {
        let r = DedupeFilter { memory: Vec::new() };
        assert(r.seen() =~= Seq::<Seq<char>>::empty());
        r
    }

    /// The one dedupe filter that a configuration describes.
    pub fn build_filters(config: DedupeConfig) -> (r: Vec<DedupeFilter>)
        ensures
            r.len() == 1,
            r[0].seen() == Seq::<Seq<char>>::empty(),
    {
        let mut r = Vec::new();
        r.push(DedupeFilter::new(config));
        r
    }

    /// Swallows the entry when its content has been seen before, and
    /// otherwise remembers the content and hands the entry on unchanged.
    /// An entry without content always passes.
    pub fn filter<E: Entry>(&mut self, entry: E) -> (r: Option<E>)
        ensures
            match entry.content_url_view() {
                Some(u) => if holds_text(old(self).seen(), u) {
                    r is None && final(self).seen() == old(self).seen()
                } else {
                    r == Some(entry) && final(self).seen() == old(self).seen().push(u)
                },
                None => r == Some(entry) && final(self).seen() == old(self).seen(),
            },
    {
        match entry.content_url() {
            Some(u) => {
                if holds(&self.memory, u.as_str()) {
                    None
                } else {
                    let ghost u_view = u@;
                    self.memory.push(u);
                    assert(strs(self.memory@) =~= strs(old(self).memory@).push(u_view));
                    Some(entry)
                }
            },
            None => Some(entry),
        }
    }
}

impl OutputFilter for DedupeFilter {
    fn filter<E: Entry>(&mut self, entry: E) -> Option<E> {
        DedupeFilter::filter(self, entry)
    }
}

/// The last stage of a chain: whatever reaches it was not handled before,
/// and it swallows it.
pub struct WarningFilter;

impl WarningFilter {
    pub fn filter<E: Entry>(&mut self, entry: E) -> (r: Option<E>)
        ensures
            r is None,
    {
        None
    }
}

impl OutputFilter for WarningFilter {
    fn filter<E: Entry>(&mut self, entry: E) -> Option<E> {
        WarningFilter::filter(self, entry)
    }
}

/// The configuration of a filter that saves content: the directory to
/// save into.
pub struct FilesConfig {
    pub root: String,
}

/// Saves the content of every entry under the configured directory, and
/// hands every entry on.
pub struct FilesSavingFilter {
    pub config: FilesConfig,
}

impl FilesSavingFilter {
    pub fn new(config: FilesConfig) -> (r: Self)
        ensures
            r.config.root@ == config.root@,
    {
        FilesSavingFilter { config }
    }

    /// The one saving filter that a configuration describes.
    pub fn build_filters(config: FilesConfig) -> (r: Vec<FilesSavingFilter>)
        ensures
            r.len() == 1,
            r[0].config.root@ == config.root@,
    {
        let mut r = Vec::new();
        r.push(FilesSavingFilter::new(config));
        r
    }

    /// The name that content found at `url` is saved under: the last
    /// segment of its path.
    pub fn file_name(url: &str) -> (r: String)
        ensures
            r@ == last_segment(url@),
    {
        last_segment_of(url)
    }
}

} // verus!
