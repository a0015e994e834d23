//! The Gelbooru source: its configuration, the streams it polls (one per
//! tag), the paging through its post listing, and what an entry shows.
use crate::entry::{clone_opt, opt_str, pairs, strs, Entry};
use crate::filters::{holds, holds_text};
use crate::sieve::{opt_view, plan_of, start_view, PollCycle};
use crate::text::{chars_of, string_of};
use crate::token::{decimal_value, id_to_token, is_decimal, token_to_id};
use crate::url::{index_of, query_of, upsert, Url};
use regex::Regex;
use vstd::prelude::*;

verus! {

/// The listing of posts, newest first; `tags` and `pid` (the offset) are added.
pub const PAGE_URL_BASE: &'static str = "https://gelbooru.com/index.php?page=post&s=list";

/// The identifier of each post in a listing page.
pub const ID_PATTERN: &'static str = r#"<a id="p(?P<id>\w+)""#;

/// The image of a post page.
pub const IMAGE_URL_PATTERN: &'static str = r#"image\.attr\('src','(?P<url>.+)'\);"#;

/// The tags of a post page, separated by white space.
pub const TAGS_PATTERN: &'static str = r#"data-tags="(?P<tags>(\s?([^\s"])*\s?)*)"#;

/// The artist of a post page.
pub const ARTIST_PATTERN: &'static str = r#"class="tag-type-artist"><span class="sm-hidden"><a href=".+?">\?</a> </span><a href=".+?">(?P<artist>.+?)</a>"#;

/// The characters of a post page.
pub const CHARACTERS_PATTERN: &'static str = r#"class="tag-type-character"><span class="sm-hidden"><a href=".+?">\?</a> </span><a href=".+?">(?P<character>.+?)</a>"#;

/// What group `group` of the first match of `pattern` in `text` holds
/// (`None` without a match, or when the group took no part in it).
pub uninterp spec fn first_capture_of(pattern: Seq<char>, text: Seq<char>, group: Seq<char>) -> Option<Seq<char>>;

/// What group `group` holds in each successive match of `pattern` in `text`.
pub uninterp spec fn all_captures_of(pattern: Seq<char>, text: Seq<char>, group: Seq<char>) -> Seq<Option<Seq<char>>>;

/// The white-space separated words of `s`.
pub uninterp spec fn words_of(s: Seq<char>) -> Seq<Seq<char>>;

/// Relies on regex::Regex::new, Regex::captures and Captures::name: the
/// text of a named group in the first match. The result depends on the
/// three texts alone.
#[verifier::external_body]
fn first_capture(pattern: &str, text: &str, group: &str) -> (r: Option<String>)
    ensures
        opt_str(r) == first_capture_of(pattern@, text@, group@),
{
    match Regex::new(pattern) {
        Ok(re) => re.captures(text).and_then(|c| c.name(group).map(|m| m.as_str().to_string())),
        Err(_) => None,
    }
}

/// Relies on regex::Regex::new, Regex::captures_iter and Captures::name:
/// the text of a named group in each match, in order. The result depends
/// on the three texts alone.
#[verifier::external_body]
fn all_captures(pattern: &str, text: &str, group: &str) -> (r: Vec<Option<String>>)
    ensures
        r@.map_values(|o: Option<String>| opt_str(o)) == all_captures_of(pattern@, text@, group@),
{
    match Regex::new(pattern) {
        Ok(re) => re.captures_iter(text).map(|c| c.name(group).map(|m| m.as_str().to_string())).collect(),
        Err(_) => Vec::new(),
    }
}

/// Relies on str::split_whitespace: the words of `s`, in order.
#[verifier::external_body]
fn words(s: &str) -> (r: Vec<String>)
    ensures
        strs(r@) == words_of(s@),
{
    s.split_whitespace().map(|w| w.to_string()).collect()
}

/// `s` joined with `sep` between neighbours.
pub open spec fn joined(s: Seq<Seq<char>>, sep: Seq<char>) -> Seq<char>
    decreases s.len(),
{
    if s.len() == 0 {
        Seq::empty()
    } else if s.len() == 1 {
        s[0]
    } else {
        joined(s.drop_last(), sep) + sep + s.last()
    }
}

/// Relies on itertools::join: the items' texts (their `Display` form, the
/// text itself for a `String`) joined with `sep` between neighbours.
#[verifier::external_body]
fn join_texts(items: &Vec<String>, sep: &str) -> (r: String)
    ensures
        r@ == joined(strs(items@), sep@),
{
    itertools::join(items.iter(), sep)
}

/// Default bootstrap limit of a Gelbooru stream.
pub fn _produce_16() -> (r: isize)
    ensures
        r == 16,
{
    16
}

/// Default incremental limit of a Gelbooru stream.
pub fn _produce_n_1() -> (r: isize)
    ensures
        r == -1,
{
    -1
}

/// The configuration of the Gelbooru source: the tags to follow and the
/// limits of their streams.
pub struct GelbooruConfig {
    pub tags: Vec<String>,
    pub fresh_poll_limit: isize,
    pub poll_limit: isize,
    pub tags_in_embed: bool,
}

/// The configuration of the Danbooru source.
pub struct DanbooruConfig {
    pub tags: Vec<String>,
}

/// Global settings: where the token store lives.
pub struct MainConfig {
    pub database: String,
}

/// One Gelbooru stream: the posts of one tag.
pub struct GelbooruAggregator {
    pub tag: String,
    pub fresh_poll_limit: isize,
    pub poll_limit: isize,
    pub tags_in_embed: bool,
}

impl GelbooruAggregator {
    pub fn new(tag: String, fresh_poll_limit: isize, poll_limit: isize, tags_in_embed: bool) -> (r: Self)
        ensures
            r.tag@ == tag@,
            r.fresh_poll_limit == fresh_poll_limit,
            r.poll_limit == poll_limit,
            r.tags_in_embed == tags_in_embed,
    {
        GelbooruAggregator { tag, fresh_poll_limit, poll_limit, tags_in_embed }
    }

    /// The poll cycle of this stream, given what the token store returned.
    pub fn start_cycle(&self, stored: Option<&str>) -> (r: PollCycle)
        ensures
            r.wf(),
            r@ == start_view(plan_of(opt_view(stored), self.fresh_poll_limit, self.poll_limit)),
    {
        PollCycle::start(stored, self.fresh_poll_limit, self.poll_limit)
    }
}

/// The source that builds Gelbooru streams.
pub struct GelbooruFactory;

impl GelbooruFactory {
    pub const NAME: &'static str = "gelbooru";

    /// One stream per configured tag, in order, with the configured limits.
    pub fn build_aggregators(config: GelbooruConfig) -> (r: Vec<GelbooruAggregator>)
        ensures
            r.len() == config.tags.len(),
            forall|i: int|
                0 <= i < r.len() ==> {
                    &&& (#[trigger] r[i]).tag@ == config.tags[i]@
                    &&& r[i].fresh_poll_limit == config.fresh_poll_limit
                    &&& r[i].poll_limit == config.poll_limit
                    &&& r[i].tags_in_embed == config.tags_in_embed
                },
    {
        let mut r: Vec<GelbooruAggregator> = Vec::new();
        let mut i: usize = 0;
        while i < config.tags.len()
            invariant
                i <= config.tags.len(),
                r.len() == i,
                forall|j: int|
                    0 <= j < i ==> {
                        &&& (#[trigger] r[j]).tag@ == config.tags[j]@
                        &&& r[j].fresh_poll_limit == config.fresh_poll_limit
                        &&& r[j].poll_limit == config.poll_limit
                        &&& r[j].tags_in_embed == config.tags_in_embed
                    },
            decreases config.tags.len() - i,
        {
            let a = GelbooruAggregator::new(
                config.tags[i].clone(),
                config.fresh_poll_limit,
                config.poll_limit,
                config.tags_in_embed,
            );
            r.push(a);
            i = i + 1;
        }
        r
    }
}

/// The Danbooru source: it builds no streams yet.
pub struct DanbooruFactory;

impl DanbooruFactory {
    pub const NAME: &'static str = "danbooru";

    pub fn build_aggregators(config: DanbooruConfig) -> (r: Vec<GelbooruAggregator>)
        ensures
            r.len() == 0,
    {
        Vec::new()
    }
}

/// The identifiers that the captured texts denote, in order; a text that is
/// not a decimal number that fits is left out.
pub open spec fn parsed_ids(caps: Seq<Option<Seq<char>>>) -> Seq<u64>
    decreases caps.len(),
{
    if caps.len() == 0 {
        Seq::empty()
    } else {
        let init = parsed_ids(caps.drop_last());
        match caps.last() {
            Some(t) => if is_decimal(t) && decimal_value(t) <= u64::MAX {
                init.push(decimal_value(t) as u64)
            } else {
                init
            },
            None => init,
        }
    }
}

/// A cursor over the post listing of one tag.
pub struct GelbooruPage {
    url: Url,
    post_cnt: usize,
    offset: usize,
    posts: Vec<u64>,
}

impl GelbooruPage {
    /// The posts of the current page that have not been handed out yet,
    /// the next one last.
    pub closed spec fn pending(&self) -> Seq<u64> {
        self.posts@
    }

    /// The offset of the current page in the listing.
    pub closed spec fn offset_view(&self) -> nat {
        self.offset as nat
    }

    /// The query of the current page's address.
    pub closed spec fn query_view(&self) -> Seq<(Seq<char>, Seq<char>)> {
        self.url.query_view()
    }

    /// The base of the current page's address.
    pub closed spec fn base_view(&self) -> Seq<char> {
        self.url.base_view()
    }

    /// How many posts the current page held when it was loaded.
    pub closed spec fn loaded_count(&self) -> nat {
        self.post_cnt as nat
    }

    /// The cursor at the start of the listing of `tag`, with nothing loaded.
    pub fn tag(tag: &String) -> (r: Self)
        ensures
            r.pending() == Seq::<u64>::empty(),
            r.offset_view() == 0,
            r.loaded_count() == 0,
            r.base_view() == PAGE_URL_BASE@.take(index_of(PAGE_URL_BASE@, '?') as int),
            r.query_view() == upsert(upsert(query_of(PAGE_URL_BASE@), "tags"@, tag@), "pid"@, "0"@),
    {
        let mut url = Url::from_string_with_query(PAGE_URL_BASE.to_owned());
        url.insert_query("tags".to_owned(), tag.clone());
        url.insert_query("pid".to_owned(), "0".to_owned());
        GelbooruPage { url, post_cnt: 0, offset: 0, posts: Vec::new() }
    }

    /// The address of the current page.
    pub fn page_url(&self) -> (r: String)
        ensures
            r@ == crate::url::render(self.base_view(), self.query_view()),
    {
        self.url.to_string()
    }

    /// Takes in the text of the current page: its posts, in the page's
    /// order (newest first), become the ones to hand out.
    pub fn load(&mut self, raw: &str)
        ensures
            final(self).pending() == parsed_ids(all_captures_of(ID_PATTERN@, raw@, "id"@)).reverse(),
            final(self).loaded_count() == parsed_ids(all_captures_of(ID_PATTERN@, raw@, "id"@)).len(),
            final(self).offset_view() == old(self).offset_view(),
            final(self).base_view() == old(self).base_view(),
            final(self).query_view() == old(self).query_view(),
    {
        self.load_ids(all_captures(ID_PATTERN, raw, "id"));
    }

    /// Takes in the identifiers captured from the current page, in the
    /// page's order: those that are numbers become the posts to hand out.
    pub fn load_ids(&mut self, captures: Vec<Option<String>>)
        ensures
            final(self).pending() == parsed_ids(captures@.map_values(|o: Option<String>| opt_str(o))).reverse(),
            final(self).loaded_count() == parsed_ids(captures@.map_values(|o: Option<String>| opt_str(o))).len(),
            final(self).offset_view() == old(self).offset_view(),
            final(self).base_view() == old(self).base_view(),
            final(self).query_view() == old(self).query_view(),
    {
        let caps = captures;
        let ghost cv = caps@.map_values(|o: Option<String>| opt_str(o));
        let mut ids: Vec<u64> = Vec::new();
        let mut i: usize = 0;
        while i < caps.len()
            invariant
                i <= caps.len(),
                cv == caps@.map_values(|o: Option<String>| opt_str(o)),
                ids@ == parsed_ids(cv.take(i as int)),
            decreases caps.len() - i,
        {
            assert(cv.take(i + 1).drop_last() =~= cv.take(i as int));
            assert(cv.take(i + 1).last() == opt_str(caps@[i as int]));
            match &caps[i] {
                Some(t) => {
                    if let Some(id) = token_to_id(t.as_str()) {
                        ids.push(id);
                    }
                },
                None => {},
            }
            i = i + 1;
        }
        assert(cv.take(caps.len() as int) =~= cv);
        let ghost in_order = ids@;
        let mut posts: Vec<u64> = Vec::new();
        let mut k: usize = ids.len();
        while k > 0
            invariant
                k <= ids.len(),
                ids@ == in_order,
                posts@ == in_order.subrange(k as int, in_order.len() as int).reverse(),
            decreases k,
        {
            k = k - 1;
            posts.push(ids[k]);
            assert(posts@ =~= in_order.subrange(k as int, in_order.len() as int).reverse());
        }
        assert(in_order.subrange(0, in_order.len() as int) =~= in_order);
        self.post_cnt = ids.len();
        self.posts = posts;
    }

    /// The next post of the current page, newest first; `None` once the
    /// page is used up.
    pub fn next_post(&mut self) -> (r: Option<u64>)
        ensures
            old(self).pending().len() == 0 ==> r is None && final(self).pending() == old(self).pending(),
            old(self).pending().len() > 0 ==> r == Some(old(self).pending().last())
                && final(self).pending() == old(self).pending().drop_last(),
            final(self).offset_view() == old(self).offset_view(),
    {
        self.posts.pop()
    }

    /// Moves the cursor to the page after the current one: the offset grows
    /// by the number of posts the current page held.
    pub fn next_page(&mut self)
        ensures
            final(self).offset_view() == if old(self).offset_view() + old(self).loaded_count() <= usize::MAX {
                old(self).offset_view() + old(self).loaded_count()
            } else {
                usize::MAX as nat
            },
            final(self).pending() == old(self).pending(),
            final(self).loaded_count() == old(self).loaded_count(),
            final(self).base_view() == old(self).base_view(),
            final(self).query_view() == upsert(old(self).query_view(), "pid"@, crate::token::decimal(final(self).offset_view())),
    {
        self.offset = if self.offset <= usize::MAX - self.post_cnt {
            self.offset + self.post_cnt
        } else {
            usize::MAX
        };
        self.url.insert_query("pid".to_owned(), id_to_token(self.offset as u64));
    }
}

/// The texts of `s`, each kept once, in order of first appearance.
pub open spec fn distinct(s: Seq<Seq<char>>) -> Seq<Seq<char>>
    decreases s.len(),
{
    if s.len() == 0 {
        Seq::empty()
    } else {
        let init = distinct(s.drop_last());
        if holds_text(init, s.last()) {
            init
        } else {
            init.push(s.last())
        }
    }
}

/// The texts that the captures hold, in order (a capture that holds
/// nothing is left out).
pub open spec fn captured(caps: Seq<Option<Seq<char>>>) -> Seq<Seq<char>>
    decreases caps.len(),
{
    if caps.len() == 0 {
        Seq::empty()
    } else {
        match caps.last() {
            Some(t) => captured(caps.drop_last()).push(t),
            None => captured(caps.drop_last()),
        }
    }
}

fn distinct_of(s: &Vec<String>) -> (r: Vec<String>)
    ensures
        strs(r@) == distinct(strs(s@)),
{
    let mut r: Vec<String> = Vec::new();
    let mut i: usize = 0;
    while i < s.len()
        invariant
            i <= s.len(),
            strs(r@) == distinct(strs(s@).take(i as int)),
        decreases s.len() - i,
    {
        assert(strs(s@).take(i + 1).drop_last() =~= strs(s@).take(i as int));
        assert(strs(s@).take(i + 1).last() == s@[i as int]@);
        if !holds(&r, s[i].as_str()) {
            let ghost before = r@;
            r.push(s[i].clone());
            assert(strs(r@) =~= strs(before).push(s@[i as int]@));
        }
        i = i + 1;
    }
    assert(strs(s@).take(s.len() as int) =~= strs(s@));
    r
}

fn captured_of(caps: Vec<Option<String>>) -> (r: Vec<String>)
    ensures
        strs(r@) == captured(caps@.map_values(|o: Option<String>| opt_str(o))),
{
    let ghost cv = caps@.map_values(|o: Option<String>| opt_str(o));
    let mut r: Vec<String> = Vec::new();
    let mut i: usize = 0;
    while i < caps.len()
        invariant
            i <= caps.len(),
            cv == caps@.map_values(|o: Option<String>| opt_str(o)),
            strs(r@) == captured(cv.take(i as int)),
        decreases caps.len() - i,
    {
        assert(cv.take(i + 1).drop_last() =~= cv.take(i as int));
        assert(cv.take(i + 1).last() == opt_str(caps@[i as int]));
        match &caps[i] {
            Some(t) => {
                let ghost before = r@;
                r.push(t.clone());
                assert(strs(r@) =~= strs(before).push(t@));
            },
            None => {},
        }
        i = i + 1;
    }
    assert(cv.take(caps.len() as int) =~= cv);
    r
}

/// `"c"`: a character's name in quotes.
pub open spec fn quoted(c: Seq<char>) -> Seq<char> {
    seq!['"'] + c + seq!['"']
}

/// The title of a Gelbooru post: its characters, quoted and joined by
/// commas, then who drew it.
pub open spec fn gelbooru_title(characters: Seq<Seq<char>>, artist: Option<Seq<char>>) -> Seq<char> {
    let joined_chars = joined(characters.map_values(|c: Seq<char>| quoted(c)), ","@);
    let chars = if joined_chars.len() == 0 { "untagged character(s)"@ } else { joined_chars };
    match artist {
        Some(a) => chars + " by \""@ + a + "\""@,
        None => chars + " by untagged artist"@,
    }
}

/// The extra fields of a Gelbooru post: its tags and its artist, when tags
/// go in the embed; nothing otherwise.
pub open spec fn gelbooru_fields(tags: Seq<Seq<char>>, artist: Option<Seq<char>>, tags_in_embed: bool) -> Seq<(Seq<char>, Seq<char>)> {
    if tags_in_embed {
        let t = seq![("Tags"@, joined(tags, ", "@))];
        match artist {
            Some(a) => t.push(("artist"@, a)),
            None => t,
        }
    } else {
        Seq::empty()
    }
}

/// A post of Gelbooru.
#[derive(Debug)]
pub struct GelbooruEntry {
    pub tags: Vec<String>,
    pub image_url: Option<String>,
    pub post_url: String,
    pub artist: Option<String>,
    pub characters: Vec<String>,
    pub tags_in_embed: bool,
}

fn concat(a: &str, b: &str) -> (r: String)
    ensures
        r@ == a@ + b@,
{
    let mut v = chars_of(a);
    let w = chars_of(b);
    let mut i: usize = 0;
    while i < w.len()
        invariant
            i <= w.len(),
            v@ == a@ + w@.take(i as int),
        decreases w.len() - i,
    {
        v.push(w[i]);
        i = i + 1;
        assert(v@ =~= a@ + w@.take(i as int));
    }
    assert(w@.take(w.len() as int) =~= w@);
    string_of(&v)
}

impl GelbooruEntry {
    /// The address of the page of post `id`.
    pub fn post_page_url(id: u64) -> (r: String)
        ensures
            r@ == "https://gelbooru.com/index.php?page=post&s=view&id="@ + crate::token::decimal(id as nat),
    {
        concat("https://gelbooru.com/index.php?page=post&s=view&id=", id_to_token(id).as_str())
    }

    /// The post that the page text `raw`, found at `post_url`, describes.
    pub fn extract_info(post_url: String, raw: String, tags_in_embed: bool) -> (r: Self)
        ensures
            r.post_url@ == post_url@,
            opt_str(r.image_url) == first_capture_of(IMAGE_URL_PATTERN@, raw@, "url"@),
            strs(r.tags@) == match first_capture_of(TAGS_PATTERN@, raw@, "tags"@) {
                Some(t) => distinct(words_of(t)),
                None => Seq::<Seq<char>>::empty(),
            },
            opt_str(r.artist) == first_capture_of(ARTIST_PATTERN@, raw@, "artist"@),
            strs(r.characters@) == distinct(
                captured(all_captures_of(CHARACTERS_PATTERN@, raw@, "character"@)),
            ),
            r.tags_in_embed == tags_in_embed,
    {
        let image_url = first_capture(IMAGE_URL_PATTERN, raw.as_str(), "url");
        let tag_words = match first_capture(TAGS_PATTERN, raw.as_str(), "tags") {
            Some(t) => Some(words(t.as_str())),
            None => None,
        };
        let artist = first_capture(ARTIST_PATTERN, raw.as_str(), "artist");
        let characters = all_captures(CHARACTERS_PATTERN, raw.as_str(), "character");
        GelbooruEntry::from_captures(post_url, image_url, tag_words, artist, characters, tags_in_embed)
    }

    /// The post that the captures of its page describe: the image, the
    /// words of the tag list (`None` without one), the artist, and each
    /// character capture. Tags and characters are kept once each, in
    /// order of first appearance.
    pub fn from_captures(
        post_url: String,
        image_url: Option<String>,
        tag_words: Option<Vec<String>>,
        artist: Option<String>,
        characters: Vec<Option<String>>,
        tags_in_embed: bool,
    ) -> (r: Self)
        ensures
            r.post_url@ == post_url@,
            opt_str(r.image_url) == opt_str(image_url),
            strs(r.tags@) == match tag_words {
                Some(w) => distinct(strs(w@)),
                None => Seq::<Seq<char>>::empty(),
            },
            opt_str(r.artist) == opt_str(artist),
            strs(r.characters@) == distinct(captured(characters@.map_values(|o: Option<String>| opt_str(o)))),
            r.tags_in_embed == tags_in_embed,
    {
        let tags = match tag_words {
            Some(w) => distinct_of(&w),
            None => {
                let e: Vec<String> = Vec::new();
                assert(strs(e@) =~= Seq::<Seq<char>>::empty());
                e
            },
        };
        let characters = distinct_of(&captured_of(characters));
        GelbooruEntry { tags, image_url, post_url, artist, characters, tags_in_embed }
    }

    fn title_text(&self) -> (r: String)
        ensures
            r@ == gelbooru_title(strs(self.characters@), opt_str(self.artist)),
    {
        let mut quoted_names: Vec<String> = Vec::new();
        let mut i: usize = 0;
        while i < self.characters.len()
            invariant
                i <= self.characters.len(),
                strs(quoted_names@) == strs(self.characters@).take(i as int).map_values(
                    |c: Seq<char>| quoted(c),
                ),
            decreases self.characters.len() - i,
        {
            let q = concat(concat("\"", self.characters[i].as_str()).as_str(), "\"");
            let ghost before = quoted_names@;
            quoted_names.push(q);
            proof {
                assert(strs(quoted_names@) =~= strs(before).push(q@));
                assert(strs(self.characters@).take(i + 1).map_values(|c: Seq<char>| quoted(c))
                    =~= strs(self.characters@).take(i as int).map_values(|c: Seq<char>| quoted(c)).push(
                    quoted(self.characters@[i as int]@),
                ));
                reveal_strlit("\"");
                assert(q@ =~= quoted(self.characters@[i as int]@));
            }
            i = i + 1;
        }
        assert(strs(self.characters@).take(self.characters.len() as int) =~= strs(self.characters@));
        let joined_chars = join_texts(&quoted_names, ",");
        let chars = if joined_chars.as_str().is_empty() {
            "untagged character(s)".to_owned()
        } else {
            joined_chars
        };
        match &self.artist {
            Some(a) => concat(concat(concat(chars.as_str(), " by \"").as_str(), a.as_str()).as_str(), "\""),
            None => concat(chars.as_str(), " by untagged artist"),
        }
    }
}

impl Entry for GelbooruEntry {
    open spec fn source_url_view(&self) -> Option<Seq<char>> {
        None
    }

    open spec fn content_url_view(&self) -> Option<Seq<char>> {
        opt_str(self.image_url)
    }

    open spec fn title_url_view(&self) -> Option<Seq<char>> {
        Some(self.post_url@)
    }

    open spec fn image_url_view(&self) -> Option<Seq<char>> {
        opt_str(self.image_url)
    }

    open spec fn title_view(&self) -> Option<Seq<char>> {
        Some(gelbooru_title(strs(self.characters@), opt_str(self.artist)))
    }

    open spec fn tags_view(&self) -> Option<Seq<Seq<char>>> {
        Some(strs(self.tags@))
    }

    open spec fn extra_fields_view(&self) -> Seq<(Seq<char>, Seq<char>)> {
        gelbooru_fields(strs(self.tags@), opt_str(self.artist), self.tags_in_embed)
    }

    fn source_url(&self) -> (r: Option<String>) {
        None
    }

    fn content_url(&self) -> (r: Option<String>) {
        clone_opt(&self.image_url)
    }

    fn title_url(&self) -> (r: Option<String>) {
        Some(self.post_url.clone())
    }

    fn image_url(&self) -> (r: Option<String>) {
        clone_opt(&self.image_url)
    }

    fn title(&self) -> (r: Option<String>) {
        Some(self.title_text())
    }

    fn tags(&self) -> (r: Option<&Vec<String>>) {
        Some(&self.tags)
    }

    fn build_extra_fields(&self) -> (r: Vec<(String, String)>) {
        let mut map: Vec<(String, String)> = Vec::new();
        if self.tags_in_embed {
            map.push(("Tags".to_owned(), join_texts(&self.tags, ", ")));
            if let Some(artist) = &self.artist {
                map.push(("artist".to_owned(), artist.clone()));
            }
        }
        assert(pairs(map@) =~= gelbooru_fields(strs(self.tags@), opt_str(self.artist), self.tags_in_embed));
        map
    }
}

} // verus!
