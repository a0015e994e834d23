//! A URL held as a base and an ordered query map, and its text forms.
use crate::entry::pairs;
use crate::text::{chars_of, string_of};
use linked_hash_map::LinkedHashMap;
use reqwest::Url as WebUrl;
use vstd::prelude::*;

verus! {

#[verifier::external_type_specification]
#[verifier::external_body]
#[verifier::reject_recursive_types(K)]
#[verifier::reject_recursive_types(V)]
#[verifier::reject_recursive_types(S)]
pub struct ExLinkedHashMap<K, V, S>(LinkedHashMap<K, V, S>);

/// The (key, value) pairs that a query map holds, in iteration order.
pub uninterp spec fn query_entries(m: LinkedHashMap<String, String>) -> Seq<(Seq<char>, Seq<char>)>;

/// The pairs after an insert of `(k, v)`: a pair with key `k` leaves its
/// place, and `(k, v)` comes last.
pub open spec fn upsert(s: Seq<(Seq<char>, Seq<char>)>, k: Seq<char>, v: Seq<char>) -> Seq<(Seq<char>, Seq<char>)> {
    s.filter(|e: (Seq<char>, Seq<char>)| e.0 != k).push((k, v))
}

/// Relies on LinkedHashMap::new: the map is empty.
#[verifier::external_body]
fn map_new() -> (r: LinkedHashMap<String, String>)
    ensures
        query_entries(r) == Seq::<(Seq<char>, Seq<char>)>::empty(),
{
    LinkedHashMap::new()
}

/// Relies on LinkedHashMap::insert: a new key is added last; for a key that
/// is present the value is replaced and the entry moves to the end of the
/// order (the node is detached and attached again).
#[verifier::external_body]
fn map_insert(m: &mut LinkedHashMap<String, String>, k: String, v: String)
    ensures
        query_entries(*final(m)) == upsert(query_entries(*old(m)), k@, v@),
{
    m.insert(k, v);
}

/// Relies on LinkedHashMap::iter: the pairs in the map's order.
#[verifier::external_body]
fn map_pairs(m: &LinkedHashMap<String, String>) -> (r: Vec<(String, String)>)
    ensures
        pairs(r@) == query_entries(*m),
{
    m.iter().map(|(k, v)| (k.clone(), v.clone())).collect()
}

#[verifier::external_type_specification]
#[verifier::external_body]
pub struct ExWebUrl(WebUrl);

/// Whether `s` is a URL that reqwest's parser accepts.
pub uninterp spec fn parses_as_url(s: Seq<char>) -> bool;

/// Relies on reqwest::Url::parse (the url crate's parser): it succeeds or
/// fails on the text alone.
#[verifier::external_body]
fn parse_url(s: &str) -> (r: Option<WebUrl>)
    ensures
        r is Some <==> parses_as_url(s@),
{
    WebUrl::parse(s).ok()
}

/// The position of the first `c` in `s`, or its length when there is none.
pub open spec fn index_of(s: Seq<char>, c: char) -> nat
    decreases s.len(),
{
    if s.len() == 0 {
        0
    } else if s[0] == c {
        0
    } else {
        1 + index_of(s.drop_first(), c)
    }
}

/// The text after the first `c` of `s` (empty when there is none).
pub open spec fn after(s: Seq<char>, c: char) -> Seq<char> {
    let i = index_of(s, c) as int;
    if i < s.len() {
        s.subrange(i + 1, s.len() as int)
    } else {
        Seq::empty()
    }
}

/// The pieces of `s` between the separators `c`, and the piece being built.
pub open spec fn split_acc(s: Seq<char>, c: char) -> (Seq<Seq<char>>, Seq<char>)
    decreases s.len(),
{
    if s.len() == 0 {
        (Seq::empty(), Seq::empty())
    } else {
        let (parts, cur) = split_acc(s.drop_last(), c);
        if s.last() == c {
            (parts.push(cur), Seq::empty())
        } else {
            (parts, cur.push(s.last()))
        }
    }
}

/// The pieces of `s` between the separators `c` (one piece when there are none).
pub open spec fn split_on(s: Seq<char>, c: char) -> Seq<Seq<char>> {
    let (parts, cur) = split_acc(s, c);
    parts.push(cur)
}

/// A `key=value` piece as a pair; a piece without `=` has an empty value.
pub open spec fn pair_of(e: Seq<char>) -> (Seq<char>, Seq<char>) {
    (e.take(index_of(e, '=') as int), after(e, '='))
}

/// The pairs after inserting each `key=value` piece in turn.
pub open spec fn insert_pieces(s: Seq<(Seq<char>, Seq<char>)>, pieces: Seq<Seq<char>>) -> Seq<(Seq<char>, Seq<char>)>
    decreases pieces.len(),
{
    if pieces.len() == 0 {
        s
    } else {
        let p = pair_of(pieces.last());
        upsert(insert_pieces(s, pieces.drop_last()), p.0, p.1)
    }
}

/// The query that the text `s` of a URL holds: none without a `?`.
pub open spec fn query_of(s: Seq<char>) -> Seq<(Seq<char>, Seq<char>)> {
    if index_of(s, '?') < s.len() {
        insert_pieces(Seq::empty(), split_on(after(s, '?'), '&'))
    } else {
        Seq::empty()
    }
}

/// `key=value` pairs joined by `&`.
pub open spec fn render_pairs(s: Seq<(Seq<char>, Seq<char>)>) -> Seq<char>
    decreases s.len(),
{
    if s.len() == 0 {
        Seq::empty()
    } else {
        let one = s.last().0 + seq!['='] + s.last().1;
        if s.len() == 1 {
            one
        } else {
            render_pairs(s.drop_last()) + seq!['&'] + one
        }
    }
}

/// The text of a URL with base `base` and query pairs `q`.
pub open spec fn render(base: Seq<char>, q: Seq<(Seq<char>, Seq<char>)>) -> Seq<char> {
    if q.len() == 0 {
        base
    } else {
        base + seq!['?'] + render_pairs(q)
    }
}

/// A URL: a base and an ordered query.
pub struct Url {
    base: String,
    query: LinkedHashMap<String, String>,
}

fn first_index(v: &Vec<char>, c: char) -> (r: usize)
    ensures
        r == index_of(v@, c),
        r <= v.len(),
{
    let mut i: usize = 0;
    assert(v@.subrange(0, v.len() as int) =~= v@);
    while i < v.len() && v[i] != c
        invariant
            i <= v.len(),
            index_of(v@, c) == i + index_of(v@.subrange(i as int, v.len() as int), c),
        decreases v.len() - i,
    {
        assert(v@.subrange(i as int, v.len() as int).drop_first() =~= v@.subrange(i + 1, v.len() as int));
        i = i + 1;
    }
    proof {
        if i < v.len() {
            assert(v@.subrange(i as int, v.len() as int)[0] == c);
        }
    }
    i
}

fn slice_of(v: &Vec<char>, from: usize, to: usize) -> (r: Vec<char>)
    requires
        from <= to <= v.len(),
    ensures
        r@ == v@.subrange(from as int, to as int),
{
    let mut r: Vec<char> = Vec::new();
    let mut i: usize = from;
    while i < to
        invariant
            from <= i <= to <= v.len(),
            r@ == v@.subrange(from as int, i as int),
        decreases to - i,
    {
        r.push(v[i]);
        i = i + 1;
        assert(r@ =~= v@.subrange(from as int, i as int));
    }
    r
}

fn append_chars(r: &mut Vec<char>, s: &Vec<char>)
    ensures
        final(r)@ == old(r)@ + s@,
{
    let mut i: usize = 0;
    while i < s.len()
        invariant
            i <= s.len(),
            r@ == old(r)@ + s@.take(i as int),
        decreases s.len() - i,
    {
        r.push(s[i]);
        i = i + 1;
        assert(r@ =~= old(r)@ + s@.take(i as int));
    }
    assert(s@.take(s.len() as int) =~= s@);
}

impl Url {
    /// The base text.
    pub closed spec fn base_view(&self) -> Seq<char> {
        self.base@
    }

    /// The query pairs, in order.
    pub closed spec fn query_view(&self) -> Seq<(Seq<char>, Seq<char>)> {
        query_entries(self.query)
    }

    /// A URL with base `s` and no query.
    pub fn from_string_base(s: String) -> (r: Self)
        ensures
            r.base_view() == s@,
            r.query_view() == Seq::<(Seq<char>, Seq<char>)>::empty(),
    {
        Url { base: s, query: map_new() }
    }

    /// Parses `base?k1=v1&k2=v2...`. Without a `?` the query is empty;
    /// with one, each `&`-separated piece is a pair split at its first `=`,
    /// and a later pair with the same key replaces an earlier one.
    pub fn from_string_with_query(s: String) -> (r: Self)
        ensures
            r.base_view() == s@.take(index_of(s@, '?') as int),
            r.query_view() == query_of(s@),
    {
        let v = chars_of(s.as_str());
        let q = first_index(&v, '?');
        let base = string_of(&slice_of(&v, 0, q));
        let mut query = map_new();
        assert(s@.take(q as int) =~= s@.subrange(0, q as int));
        if q < v.len() {
            let raw = slice_of(&v, q + 1, v.len());
            let mut cur: Vec<char> = Vec::new();
            let mut i: usize = 0;
            let ghost mut done: Seq<Seq<char>> = Seq::empty();
            while i < raw.len()
                invariant
                    i <= raw.len(),
                    split_acc(raw@.take(i as int), '&') == (done, cur@),
                    query_entries(query) == insert_pieces(Seq::empty(), done),
                decreases raw.len() - i,
            {
                assert(raw@.take(i + 1).drop_last() =~= raw@.take(i as int));
                if raw[i] == '&' {
                    Url::insert_piece(&mut query, &cur);
                    proof {
                        assert(done.push(cur@).drop_last() =~= done);
                        done = done.push(cur@);
                    }
                    cur = Vec::new();
                } else {
                    cur.push(raw[i]);
                }
                i = i + 1;
            }
            Url::insert_piece(&mut query, &cur);
            proof {
                assert(raw@.take(raw.len() as int) =~= raw@);
                assert(done.push(cur@).drop_last() =~= done);
            }
        }
        Url { base, query }
    }

    fn insert_piece(query: &mut LinkedHashMap<String, String>, piece: &Vec<char>)
        ensures
            query_entries(*final(query)) == upsert(query_entries(*old(query)), pair_of(piece@).0, pair_of(piece@).1),
    {
        let e = first_index(piece, '=');
        let k = string_of(&slice_of(piece, 0, e));
        let val = if e < piece.len() {
            slice_of(piece, e + 1, piece.len())
        } else {
            Vec::new()
        };
        proof {
            assert(piece@.take(e as int) =~= piece@.subrange(0, e as int));
            if e >= piece.len() {
                assert(val@ =~= Seq::<char>::empty());
            }
        }
        map_insert(query, Url::decode_part(&k), Url::decode_part(&string_of(&val)));
    }

    /// The text of the URL: the base, then `?` and the pairs joined by `&`
    /// when the query is not empty.
    pub fn to_string(&self) -> (r: String)
        ensures
            r@ == render(self.base_view(), self.query_view()),
    {
        let entries = map_pairs(&self.query);
        let mut out = chars_of(self.base.as_str());
        if entries.len() > 0 {
            out.push('?');
        }
        let ghost prefix = out@;
        let mut i: usize = 0;
        while i < entries.len()
            invariant
                i <= entries.len(),
                pairs(entries@) == self.query_view(),
                prefix == if entries.len() > 0 { self.base_view() + seq!['?'] } else { self.base_view() },
                out@ == prefix + render_pairs(pairs(entries@).take(i as int)),
            decreases entries.len() - i,
        {
            let ghost before = out@;
            let ghost ps = pairs(entries@);
            if i > 0 {
                out.push('&');
            }
            let k = chars_of(Url::encode_part(entries[i].0.as_str()).as_str());
            append_chars(&mut out, &k);
            out.push('=');
            let val = chars_of(Url::encode_part(entries[i].1.as_str()).as_str());
            append_chars(&mut out, &val);
            proof {
                assert(ps.take(i + 1).drop_last() =~= ps.take(i as int));
                assert(ps.take(i + 1).last() == ps[i as int]);
                if i == 0 {
                    assert(ps.take(0) =~= Seq::<(Seq<char>, Seq<char>)>::empty());
                }
                assert(out@ =~= prefix + render_pairs(ps.take(i + 1)));
            }
            i = i + 1;
        }
        proof {
            assert(pairs(entries@).take(entries.len() as int) =~= pairs(entries@));
            assert(self.base_view() + Seq::<char>::empty() =~= self.base_view());
        }
        string_of(&out)
    }

    /// A query key or value as held in the map, from its text in a URL
    /// (the text is kept as it is).
    fn decode_part(s: &String) -> (r: String)
        ensures
            r@ == s@,
    {
        s.clone()
    }

    /// A query key or value as written in a URL (the text is kept as it is).
    fn encode_part(s: &str) -> (r: String)
        ensures
            r@ == s@,
    {
        s.to_owned()
    }

    /// The query map.
    pub fn query(&self) -> (r: &LinkedHashMap<String, String>)
        ensures
            query_entries(*r) == self.query_view(),
    {
        &self.query
    }

    /// The URL as reqwest takes it; `None` when its text is not a URL.
    pub fn into_url(&self) -> (r: Option<WebUrl>)
        ensures
            r is Some <==> parses_as_url(render(self.base_view(), self.query_view())),
    {
        let text = self.to_string();
        parse_url(text.as_str())
    }

    /// The query map, to change in place.
    pub fn query_mut(&mut self) -> (r: &mut LinkedHashMap<String, String>)
        ensures
            query_entries(*r) == old(self).query_view(),
            final(self).query_view() == query_entries(*final(r)),
            final(self).base_view() == old(self).base_view(),
    {
        &mut self.query
    }

    /// Sets query key `k` to `v`; the pair comes last.
    pub fn insert_query(&mut self, k: String, v: String)
        ensures
            final(self).base_view() == old(self).base_view(),
            final(self).query_view() == upsert(old(self).query_view(), k@, v@),
    {
        map_insert(&mut self.query, k, v);
    }
}

} // verus!
