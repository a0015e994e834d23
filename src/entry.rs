//! Entries: the items that flow from the pollers through the filter chain.
//! Every field of an entry is optional; sources differ in what they know.
use crate::booru::GelbooruEntry;
use vstd::prelude::*;

verus! {

/// The text of an optional string.
pub open spec fn opt_str(o: Option<String>) -> Option<Seq<char>> {
    match o {
        Some(s) => Some(s@),
        None => None,
    }
}

/// The texts of a list of strings.
pub open spec fn strs(v: Seq<String>) -> Seq<Seq<char>> {
    v.map_values(|s: String| s@)
}

/// The texts of an optional list of strings.
pub open spec fn opt_strs(o: Option<&Vec<String>>) -> Option<Seq<Seq<char>>> {
    match o {
        Some(v) => Some(strs(v@)),
        None => None,
    }
}

/// The texts of a list of (name, value) pairs.
pub open spec fn pairs(v: Seq<(String, String)>) -> Seq<(Seq<char>, Seq<char>)> {
    v.map_values(|p: (String, String)| (p.0@, p.1@))
}

/// A copy of an optional string.
pub(crate) fn clone_opt(o: &Option<String>) -> (r: Option<String>)
    ensures
        opt_str(r) == opt_str(*o),
{
    match o {
        Some(s) => Some(s.clone()),
        None => None,
    }
}

/// An item found by a source.
pub trait Entry {
    spec fn source_url_view(&self) -> Option<Seq<char>>;

    spec fn content_url_view(&self) -> Option<Seq<char>>;

    spec fn title_url_view(&self) -> Option<Seq<char>>;

    spec fn image_url_view(&self) -> Option<Seq<char>>;

    spec fn title_view(&self) -> Option<Seq<char>>;

    spec fn tags_view(&self) -> Option<Seq<Seq<char>>>;

    spec fn extra_fields_view(&self) -> Seq<(Seq<char>, Seq<char>)>;

    /// Where the item was found.
    fn source_url(&self) -> (r: Option<String>)
        ensures
            opt_str(r) == self.source_url_view(),
    ;

    /// The media that the item is about.
    fn content_url(&self) -> (r: Option<String>)
        ensures
            opt_str(r) == self.content_url_view(),
    ;

    /// The link behind the title.
    fn title_url(&self) -> (r: Option<String>)
        ensures
            opt_str(r) == self.title_url_view(),
    ;

    fn image_url(&self) -> (r: Option<String>)
        ensures
            opt_str(r) == self.image_url_view(),
    ;

    fn title(&self) -> (r: Option<String>)
        ensures
            opt_str(r) == self.title_view(),
    ;

    fn tags(&self) -> (r: Option<&Vec<String>>)
        ensures
            opt_strs(r) == self.tags_view(),
    ;

    /// Extra (name, value) pairs to display with the item.
    fn build_extra_fields(&self) -> (r: Vec<(String, String)>)
        ensures
            pairs(r@) == self.extra_fields_view(),
    ;
}

/// An entry whose fields are given as they are. Its content is its image.
#[derive(Debug)]
pub struct DefaultEntry {
    pub content_url: Option<String>,
    pub title_url: Option<String>,
    pub image_url: Option<String>,
    pub title: Option<String>,
    pub tags: Option<Vec<String>>,
}

impl Entry for DefaultEntry {
    open spec fn source_url_view(&self) -> Option<Seq<char>> {
        None
    }

    open spec fn content_url_view(&self) -> Option<Seq<char>> {
        opt_str(self.image_url)
    }

    open spec fn title_url_view(&self) -> Option<Seq<char>> {
        opt_str(self.title_url)
    }

    open spec fn image_url_view(&self) -> Option<Seq<char>> {
        opt_str(self.image_url)
    }

    open spec fn title_view(&self) -> Option<Seq<char>> {
        opt_str(self.title)
    }

    open spec fn tags_view(&self) -> Option<Seq<Seq<char>>> {
        match self.tags {
            Some(t) => Some(strs(t@)),
            None => None,
        }
    }

    open spec fn extra_fields_view(&self) -> Seq<(Seq<char>, Seq<char>)> {
        Seq::empty()
    }

    fn source_url(&self) -> (r: Option<String>) {
        None
    }

    fn content_url(&self) -> (r: Option<String>) {
        self.image_url()
    }

    fn title_url(&self) -> (r: Option<String>) {
        clone_opt(&self.title_url)
    }

    fn image_url(&self) -> (r: Option<String>) {
        clone_opt(&self.image_url)
    }

    fn title(&self) -> (r: Option<String>) {
        clone_opt(&self.title)
    }

    fn tags(&self) -> (r: Option<&Vec<String>>) {
        match &self.tags {
            Some(t) => Some(t),
            None => None,
        }
    }

    fn build_extra_fields(&self) -> (r: Vec<(String, String)>) {
        let r: Vec<(String, String)> = Vec::new();
        assert(pairs(r@) =~= Seq::<(Seq<char>, Seq<char>)>::empty());
        r
    }
}

/// An entry in flight through the pipeline, whichever source made it.
#[derive(Debug)]
pub enum EntryBox {
    Default(DefaultEntry),
    Gelbooru(GelbooruEntry),
}

impl Entry for EntryBox {
    open spec fn source_url_view(&self) -> Option<Seq<char>> {
        match self {
            EntryBox::Default(e) => e.source_url_view(),
            EntryBox::Gelbooru(e) => e.source_url_view(),
        }
    }

    open spec fn content_url_view(&self) -> Option<Seq<char>> {
        match self {
            EntryBox::Default(e) => e.content_url_view(),
            EntryBox::Gelbooru(e) => e.content_url_view(),
        }
    }

    open spec fn title_url_view(&self) -> Option<Seq<char>> {
        match self {
            EntryBox::Default(e) => e.title_url_view(),
            EntryBox::Gelbooru(e) => e.title_url_view(),
        }
    }

    open spec fn image_url_view(&self) -> Option<Seq<char>> {
        match self {
            EntryBox::Default(e) => e.image_url_view(),
            EntryBox::Gelbooru(e) => e.image_url_view(),
        }
    }

    open spec fn title_view(&self) -> Option<Seq<char>> {
        match self {
            EntryBox::Default(e) => e.title_view(),
            EntryBox::Gelbooru(e) => e.title_view(),
        }
    }

    open spec fn tags_view(&self) -> Option<Seq<Seq<char>>> {
        match self {
            EntryBox::Default(e) => e.tags_view(),
            EntryBox::Gelbooru(e) => e.tags_view(),
        }
    }

    open spec fn extra_fields_view(&self) -> Seq<(Seq<char>, Seq<char>)> {
        match self {
            EntryBox::Default(e) => e.extra_fields_view(),
            EntryBox::Gelbooru(e) => e.extra_fields_view(),
        }
    }

    fn source_url(&self) -> (r: Option<String>) {
        match self {
            EntryBox::Default(e) => e.source_url(),
            EntryBox::Gelbooru(e) => e.source_url(),
        }
    }

    fn content_url(&self) -> (r: Option<String>) {
        match self {
            EntryBox::Default(e) => e.content_url(),
            EntryBox::Gelbooru(e) => e.content_url(),
        }
    }

    fn title_url(&self) -> (r: Option<String>) {
        match self {
            EntryBox::Default(e) => e.title_url(),
            EntryBox::Gelbooru(e) => e.title_url(),
        }
    }

    fn image_url(&self) -> (r: Option<String>) {
        match self {
            EntryBox::Default(e) => e.image_url(),
            EntryBox::Gelbooru(e) => e.image_url(),
        }
    }

    fn title(&self) -> (r: Option<String>) {
        match self {
            EntryBox::Default(e) => e.title(),
            EntryBox::Gelbooru(e) => e.title(),
        }
    }

    fn tags(&self) -> (r: Option<&Vec<String>>) {
        match self {
            EntryBox::Default(e) => e.tags(),
            EntryBox::Gelbooru(e) => e.tags(),
        }
    }

    fn build_extra_fields(&self) -> (r: Vec<(String, String)>) {
        match self {
            EntryBox::Default(e) => e.build_extra_fields(),
            EntryBox::Gelbooru(e) => e.build_extra_fields(),
        }
    }
}

} // verus!
