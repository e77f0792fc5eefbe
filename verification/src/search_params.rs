//! `URLSearchParams` for extension scripts: name/value pairs kept in their
//! `application/x-www-form-urlencoded` text, read and rewritten by each
//! operation.

use vstd::prelude::*;
use crate::text::{
    chars_of, free_of, join, lemma_split_append, lemma_split_free, lemma_split_nonempty,
    lemma_split_pieces_free, split, split_chars, str_eq, string_of_range,
};

verus! {

// ─── the form encoding ────────────────────────────────────────────────────

/// Pairs of a form-encoded text, in order (`url::form_urlencoded::parse`).
pub uninterp spec fn form_pairs(s: Seq<char>) -> Seq<(Seq<char>, Seq<char>)>;

/// The name of the first pair a form-encoded piece holds, or empty.
pub open spec fn form_decoded(s: Seq<char>) -> Seq<char> {
    if form_pairs(s).len() > 0 {
        form_pairs(s)[0].0
    } else {
        Seq::empty()
    }
}

/// Form-encoded text of a list of pairs
/// (`url::form_urlencoded::Serializer`).
pub uninterp spec fn form_serialized(pairs: Seq<(Seq<char>, Seq<char>)>) -> Seq<char>;

/// Text that form decoding leaves unchanged: no `&`, `=`, `+` or `%`.
pub open spec fn form_plain(s: Seq<char>) -> bool {
    forall|i: int| 0 <= i < s.len() ==> s[i] != '&' && s[i] != '=' && s[i] != '+' && s[i] != '%'
}

/// Characters the form serializer writes as they are.
pub open spec fn form_unchanged(c: char) -> bool {
    c == '*' || c == '-' || c == '.' || c == '_' || ('0' <= c <= '9') || ('A' <= c <= 'Z') || (
    'a' <= c <= 'z')
}

/// Every character of `s` is written as it is.
pub open spec fn all_unchanged(s: Seq<char>) -> bool {
    forall|i: int| 0 <= i < s.len() ==> form_unchanged(s[i])
}

/// `name=value` pieces joined with `&`.
pub open spec fn joined_pairs(ps: Seq<(Seq<char>, Seq<char>)>) -> Seq<char> {
    join(Seq::new(ps.len(), |i: int| ps[i].0 + "="@ + ps[i].1), "&"@)
}

/// The pairs' names and values are all written as they are.
pub open spec fn pairs_unchanged(ps: Seq<(Seq<char>, Seq<char>)>) -> bool {
    forall|i: int| 0 <= i < ps.len() ==> all_unchanged(#[trigger] ps[i].0) && all_unchanged(ps[i].1)
}

/// The text of each pair.
pub open spec fn pair_views(ps: Seq<(String, String)>) -> Seq<(Seq<char>, Seq<char>)> {
    Seq::new(ps.len(), |i: int| (ps[i].0@, ps[i].1@))
}

/// Calls `url::form_urlencoded::parse` and collects its pairs. Claimed:
/// the pairs depend on the text alone; empty text has none; and text
/// without `&`, `=`, `+` or `%` is one pair, named by the text, with an
/// empty value.
#[verifier::external_body]
pub(crate) fn parse_form(s: &str) -> (r: Vec<(String, String)>)
    ensures
        pair_views(r@) == form_pairs(s@),
        s@.len() == 0 ==> r@.len() == 0,
        s@.len() > 0 && form_plain(s@) ==> pair_views(r@) == seq![(s@, Seq::<char>::empty())],
{
    url::form_urlencoded::parse(s.as_bytes()).into_owned().collect()
}

/// The name of the first pair a piece holds, or empty.
fn form_decode(s: &str) -> (r: String)
    ensures
        r@ == form_decoded(s@),
        form_plain(s@) ==> r@ == s@,
{
    let ps = parse_form(s);
    if ps.len() > 0 {
        assert(pair_views(ps@)[0] == (ps@[0].0@, ps@[0].1@));
        ps[0].0.clone()
    } else {
        String::new()
    }
}

/// What form decoding gives for the encoding of `t`: nothing for empty
/// text, else one pair named `t` with an empty value.
pub open spec fn decodes_as(t: Seq<char>) -> Seq<(Seq<char>, Seq<char>)> {
    if t.len() == 0 {
        Seq::empty()
    } else {
        seq![(t, Seq::<char>::empty())]
    }
}

/// `piece` is the encoding of the pair `(name, value)`: the part before its
/// first `=` decodes to `name`, the part after it to `value`.
pub open spec fn encodes_pair(piece: Seq<char>, name: Seq<char>, value: Seq<char>) -> bool {
    &&& form_pairs(before_first(piece, '=')) == decodes_as(name)
    &&& form_pairs(after_first(piece, '=')) == decodes_as(value)
}

/// Calls `url::form_urlencoded::Serializer` on the pairs. Claimed: the
/// result depends on the pairs' text alone; when every name and value
/// consists of characters the serializer keeps (`A`-`Z`, `a`-`z`, `0`-`9`,
/// `*-._`), it is `name=value` pieces joined with `&`. In general it is
/// one piece per pair joined with `&` (empty for no pairs), each piece the
/// encoded name, `=`, and the encoded value; the encoding writes no `&` or
/// `=` and decodes back to the text it encodes.
#[verifier::external_body]
fn form_serialize(ps: &Vec<(String, String)>) -> (r: String)
    ensures
        r@ == form_serialized(pair_views(ps@)),
        pairs_unchanged(pair_views(ps@)) ==> r@ == joined_pairs(pair_views(ps@)),
        ps@.len() == 0 ==> r@.len() == 0,
        ps@.len() > 0 ==> r@.len() > 0 && split(r@, '&').len() == ps@.len(),
        ps@.len() > 0 ==> forall|i: int| 0 <= i < ps@.len() ==> encodes_pair(
            #[trigger] split(r@, '&')[i],
            ps@[i].0@,
            ps@[i].1@,
        ),
{
    url::form_urlencoded::Serializer::new(String::new()).extend_pairs(ps.iter()).finish()
}

// ─── reading the stored text ──────────────────────────────────────────────

/// The part of `p` before its first `c` (all of `p` when it has none).
pub open spec fn before_first(p: Seq<char>, c: char) -> Seq<char>
    decreases p.len(),
{
    if p.len() == 0 {
        p
    } else if p[0] == c {
        Seq::empty()
    } else {
        seq![p[0]] + before_first(p.drop_first(), c)
    }
}

/// The part of `p` after its first `c` (empty when it has none).
pub open spec fn after_first(p: Seq<char>, c: char) -> Seq<char>
    decreases p.len(),
{
    if p.len() == 0 {
        p
    } else if p[0] == c {
        p.drop_first()
    } else {
        after_first(p.drop_first(), c)
    }
}

/// The pair one `name=value` piece stands for.
pub open spec fn decoded_entry(piece: Seq<char>) -> (Seq<char>, Seq<char>) {
    (form_decoded(before_first(piece, '=')), form_decoded(after_first(piece, '=')))
}

/// The pairs stored in `data`: none for empty text, else one per
/// `&`-separated piece.
pub open spec fn stored_entries(data: Seq<char>) -> Seq<(Seq<char>, Seq<char>)> {
    if data.len() == 0 {
        Seq::empty()
    } else {
        Seq::new(split(data, '&').len(), |i: int| decoded_entry(split(data, '&')[i]))
    }
}

/// The pairs given by the pieces of an initial query, empty pieces skipped.
pub open spec fn init_entries(pieces: Seq<Seq<char>>) -> Seq<(Seq<char>, Seq<char>)>
    decreases pieces.len(),
{
    if pieces.len() == 0 {
        Seq::empty()
    } else if pieces.last().len() == 0 {
        init_entries(pieces.drop_last())
    } else {
        init_entries(pieces.drop_last()).push(decoded_entry(pieces.last()))
    }
}

/// A query without its leading `?`.
pub open spec fn query_body(s: Seq<char>) -> Seq<char> {
    if s.len() > 0 && s[0] == '?' {
        s.drop_first()
    } else {
        s
    }
}

/// The pairs an initial query string gives.
pub open spec fn query_entries(init: Option<Seq<char>>) -> Seq<(Seq<char>, Seq<char>)> {
    match init {
        Some(s) => init_entries(split(query_body(s), '&')),
        None => Seq::empty(),
    }
}

proof fn lemma_first_split(p: Seq<char>, c: char, k: int)
    requires
        0 <= k <= p.len(),
        forall|j: int| 0 <= j < k ==> p[j] != c,
        k < p.len() ==> p[k] == c,
    ensures
        before_first(p, c) == p.take(k),
        after_first(p, c) == (if k < p.len() { p.skip(k + 1) } else { Seq::<char>::empty() }),
    decreases k,
{
    if k == 0 {
        if p.len() == 0 {
            assert(p.take(0) =~= p);
        } else {
            assert(p.take(0) =~= Seq::<char>::empty());
            assert(p.skip(1) =~= p.drop_first());
        }
    } else {
        lemma_first_split(p.drop_first(), c, k - 1);
        assert(seq![p[0]] + p.drop_first().take(k - 1) =~= p.take(k));
        if k < p.len() {
            assert(p.drop_first().skip(k) =~= p.skip(k + 1));
        }
    }
}

/// The pair one piece stands for.
fn entry_of(piece: &Vec<char>) -> (r: (String, String))
    ensures
        (r.0@, r.1@) == decoded_entry(piece@),
{
    let mut k: usize = 0;
    while k < piece.len() && piece[k] != '='
        invariant
            k <= piece.len(),
            forall|j: int| 0 <= j < k ==> piece@[j] != '=',
        decreases piece.len() - k,
    {
        k = k + 1;
    }
    proof {
        lemma_first_split(piece@, '=', k as int);
    }
    let name = string_of_range(piece, 0, k);
    let value = if k < piece.len() {
        string_of_range(piece, k + 1, piece.len())
    } else {
        string_of_range(piece, k, k)
    };
    proof {
        assert(piece@.subrange(0, k as int) =~= piece@.take(k as int));
        if k < piece.len() {
            assert(piece@.subrange(k + 1, piece@.len() as int) =~= piece@.skip(k + 1));
        } else {
            assert(piece@.subrange(k as int, k as int) =~= Seq::<char>::empty());
        }
    }
    (form_decode(name.as_str()), form_decode(value.as_str()))
}

/// The pairs stored in `data`.
pub fn parse_usp_data(data: &str) -> (r: Vec<(String, String)>)
    ensures
        pair_views(r@) == stored_entries(data@),
{
    let mut r: Vec<(String, String)> = Vec::new();
    if data.is_empty() {
        assert(pair_views(r@) =~= stored_entries(data@));
        return r;
    }
    let v = chars_of(data);
    let pieces = split_chars(&v, '&');
    let ghost want = stored_entries(data@);
    let mut i: usize = 0;
    while i < pieces.len()
        invariant
            v@ == data@,
            data@.len() > 0,
            pieces@.len() == split(v@, '&').len(),
            forall|k: int| 0 <= k < pieces@.len() ==> (#[trigger] pieces@[k])@ == split(v@, '&')[k],
            want == stored_entries(data@),
            i <= pieces.len(),
            pair_views(r@) == want.take(i as int),
        decreases pieces.len() - i,
    {
        let e = entry_of(&pieces[i]);
        proof {
            lemma_pair_views_push(r@, e);
            assert(want[i as int] == decoded_entry(split(data@, '&')[i as int]));
        }
        r.push(e);
        i = i + 1;
        assert(pair_views(r@) =~= want.take(i as int));
    }
    assert(want.take(pieces.len() as int) =~= want);
    r
}

/// The form-encoded text of the pairs.
pub fn serialize_params(params: &Vec<(String, String)>) -> (r: String)
    ensures
        r@ == form_serialized(pair_views(params@)),
        pairs_unchanged(pair_views(params@)) ==> r@ == joined_pairs(pair_views(params@)),
        stored_entries(r@) == pair_views(params@),
{
    let r = form_serialize(params);
    proof {
        let ps = pair_views(params@);
        if params@.len() > 0 {
            let pieces = split(r@, '&');
            assert forall|i: int| 0 <= i < ps.len() implies #[trigger] decoded_entry(pieces[i]) == ps[i] by {
                assert(encodes_pair(pieces[i], params@[i].0@, params@[i].1@));
            }
            assert(stored_entries(r@) =~= ps);
        } else {
            assert(stored_entries(r@) =~= ps);
        }
    }
    r
}

// ─── operations on the pairs ──────────────────────────────────────────────

/// Value of the first pair named `key`.
pub open spec fn first_value(es: Seq<(Seq<char>, Seq<char>)>, key: Seq<char>) -> Option<Seq<char>>
    decreases es.len(),
{
    if es.len() == 0 {
        None
    } else if es[0].0 == key {
        Some(es[0].1)
    } else {
        first_value(es.drop_first(), key)
    }
}

/// Some pair is named `key`.
pub open spec fn has_key(es: Seq<(Seq<char>, Seq<char>)>, key: Seq<char>) -> bool {
    exists|i: int| 0 <= i < es.len() && (#[trigger] es[i]).0 == key
}

/// The pairs not named `key`, in order.
pub open spec fn without_key(es: Seq<(Seq<char>, Seq<char>)>, key: Seq<char>) -> Seq<(Seq<char>, Seq<char>)>
    decreases es.len(),
{
    if es.len() == 0 {
        es
    } else if es.last().0 == key {
        without_key(es.drop_last(), key)
    } else {
        without_key(es.drop_last(), key).push(es.last())
    }
}

/// Values of the pairs named `key`, in order.
pub open spec fn values_for(es: Seq<(Seq<char>, Seq<char>)>, key: Seq<char>) -> Seq<Seq<char>>
    decreases es.len(),
{
    if es.len() == 0 {
        Seq::empty()
    } else if es.last().0 == key {
        values_for(es.drop_last(), key).push(es.last().1)
    } else {
        values_for(es.drop_last(), key)
    }
}

/// The pairs after `set(key, value)`: every pair named `key` removed, then
/// `(key, value)` added at the end.
pub open spec fn with_set(es: Seq<(Seq<char>, Seq<char>)>, key: Seq<char>, value: Seq<char>) -> Seq<(Seq<char>, Seq<char>)> {
    without_key(es, key).push((key, value))
}

proof fn lemma_pair_views_push(ps: Seq<(String, String)>, p: (String, String))
    ensures
        pair_views(ps.push(p)) == pair_views(ps).push((p.0@, p.1@)),
{
    assert(pair_views(ps.push(p)) =~= pair_views(ps).push((p.0@, p.1@)));
}

/// The pairs not named `key`.
fn remove_key(ps: &Vec<(String, String)>, key: &str) -> (r: Vec<(String, String)>)
    ensures
        pair_views(r@) == without_key(pair_views(ps@), key@),
{
    let mut r: Vec<(String, String)> = Vec::new();
    let mut i: usize = 0;
    while i < ps.len()
        invariant
            i <= ps.len(),
            pair_views(r@) == without_key(pair_views(ps@.take(i as int)), key@),
        decreases ps.len() - i,
    {
        let ghost before = ps@.take(i as int);
        proof {
            assert(ps@.take(i + 1) =~= before.push(ps@[i as int]));
            lemma_pair_views_push(before, ps@[i as int]);
            assert(pair_views(before.push(ps@[i as int])).drop_last() =~= pair_views(before));
        }
        if !str_eq(ps[i].0.as_str(), key) {
            let a = ps[i].0.clone();
            let b = ps[i].1.clone();
            proof {
                lemma_pair_views_push(r@, (a, b));
            }
            r.push((a, b));
        }
        i = i + 1;
    }
    assert(ps@.take(ps.len() as int) =~= ps@);
    r
}

/// First-match lookup agrees with walking the pairs from the front.
proof fn lemma_first_value_take(es: Seq<(Seq<char>, Seq<char>)>, key: Seq<char>, i: int)
    requires
        0 <= i < es.len(),
        forall|j: int| 0 <= j < i ==> es[j].0 != key,
        es[i].0 == key,
    ensures
        first_value(es, key) == Some(es[i].1),
    decreases i,
{
    if i > 0 {
        lemma_first_value_take(es.drop_first(), key, i - 1);
    }
}

proof fn lemma_first_value_none(es: Seq<(Seq<char>, Seq<char>)>, key: Seq<char>)
    requires
        forall|j: int| 0 <= j < es.len() ==> es[j].0 != key,
    ensures
        first_value(es, key) is None,
    decreases es.len(),
{
    if es.len() > 0 {
        lemma_first_value_none(es.drop_first(), key);
    }
}

/// Form-encoded `URLSearchParams` state.
#[derive(Debug, Clone)]
pub struct UrlSearchParams {
    /// The pairs in form-encoded text.
    pub data: String,
}

impl UrlSearchParams {
    /// The pairs the stored text holds.
    pub open spec fn entries_of(&self) -> Seq<(Seq<char>, Seq<char>)> {
        stored_entries(self.data@)
    }

    /// Params from an optional query string (a leading `?` is ignored, and
    /// so are empty pieces).
    pub fn new(init: Option<&str>) -> (r: Self)
        ensures
            r.data@ == form_serialized(query_entries(
                match init {
                    Some(s) => Some(s@),
                    None => None,
                },
            )),
            r.entries_of() == query_entries(
                match init {
                    Some(s) => Some(s@),
                    None => None,
                },
            ),
    {
        let mut ps: Vec<(String, String)> = Vec::new();
        match init {
            Some(s) => {
                let v = chars_of(s);
                let start: usize = if v.len() > 0 && v[0] == '?' { 1 } else { 0 };
                let body = string_of_range(&v, start, v.len());
                proof {
                    if start == 1 {
                        assert(v@.subrange(1, v@.len() as int) =~= v@.drop_first());
                    } else {
                        assert(v@.subrange(0, v@.len() as int) =~= v@);
                    }
                }
                let bv = chars_of(body.as_str());
                let pieces = split_chars(&bv, '&');
                let ghost all = split(query_body(s@), '&');
                let mut i: usize = 0;
                while i < pieces.len()
                    invariant
                        bv@ == query_body(s@),
                        all == split(query_body(s@), '&'),
                        pieces@.len() == all.len(),
                        forall|k: int| 0 <= k < pieces@.len() ==> (#[trigger] pieces@[k])@ == all[k],
                        i <= pieces.len(),
                        pair_views(ps@) == init_entries(all.take(i as int)),
                    decreases pieces.len() - i,
                {
                    proof {
                        assert(all.take(i + 1).drop_last() =~= all.take(i as int));
                    }
                    if pieces[i].len() > 0 {
                        let e = entry_of(&pieces[i]);
                        proof {
                            lemma_pair_views_push(ps@, e);
                        }
                        ps.push(e);
                    }
                    i = i + 1;
                }
                assert(all.take(pieces.len() as int) =~= all);
            },
            None => {
                assert(pair_views(ps@) =~= Seq::<(Seq<char>, Seq<char>)>::empty());
            },
        }
        UrlSearchParams { data: serialize_params(&ps) }
    }

    /// Params holding exactly the given pairs.
    pub fn from_pairs(pairs: &Vec<(String, String)>) -> (r: Self)
        ensures
            r.data@ == form_serialized(pair_views(pairs@)),
            r.entries_of() == pair_views(pairs@),
    {
        UrlSearchParams { data: serialize_params(pairs) }
    }

    /// Value of the first pair named `key`.
    pub fn get(&self, key: &str) -> (r: Option<String>)
        ensures
            match r {
                Some(v) => first_value(self.entries_of(), key@) == Some(v@),
                None => first_value(self.entries_of(), key@) is None,
            },
    {
        let ps = parse_usp_data(self.data.as_str());
        let ghost es = pair_views(ps@);
        let mut i: usize = 0;
        while i < ps.len()
            invariant
                es == pair_views(ps@),
                es == self.entries_of(),
                i <= ps.len(),
                forall|j: int| 0 <= j < i ==> es[j].0 != key@,
            decreases ps.len() - i,
        {
            if str_eq(ps[i].0.as_str(), key) {
                proof {
                    lemma_first_value_take(es, key@, i as int);
                }
                return Some(ps[i].1.clone());
            }
            i = i + 1;
        }
        proof {
            lemma_first_value_none(es, key@);
        }
        None
    }

    /// Some pair is named `key`.
    pub fn has(&self, key: &str) -> (b: bool)
        ensures
            b == has_key(self.entries_of(), key@),
    {
        let ps = parse_usp_data(self.data.as_str());
        let ghost es = pair_views(ps@);
        let mut i: usize = 0;
        while i < ps.len()
            invariant
                es == pair_views(ps@),
                es == self.entries_of(),
                i <= ps.len(),
                forall|j: int| 0 <= j < i ==> es[j].0 != key@,
            decreases ps.len() - i,
        {
            if str_eq(ps[i].0.as_str(), key) {
                assert(es[i as int].0 == key@);
                return true;
            }
            i = i + 1;
        }
        false
    }

    /// Replaces every pair named `key` by one `(key, value)` at the end.
    pub fn set(&mut self, key: &str, value: &str)
        ensures
            final(self).data@ == form_serialized(with_set(old(self).entries_of(), key@, value@)),
            final(self).entries_of() == with_set(old(self).entries_of(), key@, value@),
    {
        let ps = parse_usp_data(self.data.as_str());
        let mut kept = remove_key(&ps, key);
        let entry = (key.to_owned(), value.to_owned());
        proof {
            lemma_pair_views_push(kept@, entry);
        }
        kept.push(entry);
        self.data = serialize_params(&kept);
    }

    /// Adds `(key, value)` at the end.
    pub fn append(&mut self, key: &str, value: &str)
        ensures
            final(self).data@ == form_serialized(old(self).entries_of().push((key@, value@))),
            final(self).entries_of() == old(self).entries_of().push((key@, value@)),
    {
        let mut ps = parse_usp_data(self.data.as_str());
        let entry = (key.to_owned(), value.to_owned());
        proof {
            lemma_pair_views_push(ps@, entry);
        }
        ps.push(entry);
        self.data = serialize_params(&ps);
    }

    /// Removes every pair named `key`.
    pub fn delete(&mut self, key: &str)
        ensures
            final(self).data@ == form_serialized(without_key(old(self).entries_of(), key@)),
            final(self).entries_of() == without_key(old(self).entries_of(), key@),
    {
        let ps = parse_usp_data(self.data.as_str());
        let kept = remove_key(&ps, key);
        self.data = serialize_params(&kept);
    }

    /// The form-encoded text (`toString()`).
    pub fn serialized(&self) -> (r: String)
        ensures
            r@ == self.data@,
    {
        self.data.clone()
    }

    /// Values of every pair named `key`, in order.
    pub fn get_all(&self, key: &str) -> (r: Vec<String>)
        ensures
            r@.len() == values_for(self.entries_of(), key@).len(),
            forall|i: int| 0 <= i < r@.len() ==> (#[trigger] r@[i])@ == values_for(self.entries_of(), key@)[i],
    {
        let ps = parse_usp_data(self.data.as_str());
        let ghost es = pair_views(ps@);
        let mut r: Vec<String> = Vec::new();
        let mut i: usize = 0;
        while i < ps.len()
            invariant
                es == pair_views(ps@),
                es == self.entries_of(),
                i <= ps.len(),
                r@.len() == values_for(es.take(i as int), key@).len(),
                forall|k: int| 0 <= k < r@.len() ==> (#[trigger] r@[k])@ == values_for(es.take(i as int), key@)[k],
            decreases ps.len() - i,
        {
            proof {
                assert(es.take(i + 1).drop_last() =~= es.take(i as int));
            }
            if str_eq(ps[i].0.as_str(), key) {
                r.push(ps[i].1.clone());
            }
            i = i + 1;
        }
        assert(es.take(ps.len() as int) =~= es);
        r
    }

    /// Names of all pairs, in order.
    pub fn keys(&self) -> (r: Vec<String>)
        ensures
            r@.len() == self.entries_of().len(),
            forall|i: int| 0 <= i < r@.len() ==> (#[trigger] r@[i])@ == self.entries_of()[i].0,
    {
        let ps = parse_usp_data(self.data.as_str());
        let mut r: Vec<String> = Vec::new();
        let mut i: usize = 0;
        while i < ps.len()
            invariant
                pair_views(ps@) == self.entries_of(),
                i <= ps.len(),
                r@.len() == i,
                forall|k: int| 0 <= k < i ==> (#[trigger] r@[k])@ == self.entries_of()[k].0,
            decreases ps.len() - i,
        {
            r.push(ps[i].0.clone());
            i = i + 1;
        }
        r
    }

    /// Values of all pairs, in order.
    pub fn values(&self) -> (r: Vec<String>)
        ensures
            r@.len() == self.entries_of().len(),
            forall|i: int| 0 <= i < r@.len() ==> (#[trigger] r@[i])@ == self.entries_of()[i].1,
    {
        let ps = parse_usp_data(self.data.as_str());
        let mut r: Vec<String> = Vec::new();
        let mut i: usize = 0;
        while i < ps.len()
            invariant
                pair_views(ps@) == self.entries_of(),
                i <= ps.len(),
                r@.len() == i,
                forall|k: int| 0 <= k < i ==> (#[trigger] r@[k])@ == self.entries_of()[k].1,
            decreases ps.len() - i,
        {
            r.push(ps[i].1.clone());
            i = i + 1;
        }
        r
    }

    /// All pairs, in order.
    pub fn entries(&self) -> (r: Vec<(String, String)>)
        ensures
            pair_views(r@) == self.entries_of(),
    {
        parse_usp_data(self.data.as_str())
    }
}

// ─── laws of the pair operations ─────────────────────────────────────────

proof fn lemma_first_value_push(es: Seq<(Seq<char>, Seq<char>)>, e: (Seq<char>, Seq<char>), key: Seq<char>)
    ensures
        first_value(es.push(e), key) == (match first_value(es, key) {
            Some(v) => Some(v),
            None => if e.0 == key { Some(e.1) } else { None },
        }),
    decreases es.len(),
{
    if es.len() > 0 {
        assert(es.push(e).drop_first() =~= es.drop_first().push(e));
        assert(es.push(e)[0] == es[0]);
        lemma_first_value_push(es.drop_first(), e, key);
    } else {
        assert(es.push(e).drop_first() =~= Seq::<(Seq<char>, Seq<char>)>::empty());
        assert(es.push(e)[0] == e);
        assert(first_value(es.push(e).drop_first(), key) is None);
    }
}

proof fn lemma_without_key(es: Seq<(Seq<char>, Seq<char>)>, key: Seq<char>, other: Seq<char>)
    requires
        other != key,
    ensures
        forall|i: int| 0 <= i < without_key(es, key).len() ==> (#[trigger] without_key(es, key)[i]).0 != key,
        first_value(without_key(es, key), key) is None,
        first_value(without_key(es, key), other) == first_value(es, other),
    decreases es.len(),
{
    if es.len() > 0 {
        let d = es.drop_last();
        let l = es.last();
        lemma_without_key(d, key, other);
        assert(d.push(l) =~= es);
        lemma_first_value_push(d, l, other);
        lemma_first_value_push(d, l, key);
        if l.0 != key {
            lemma_first_value_push(without_key(d, key), l, key);
            lemma_first_value_push(without_key(d, key), l, other);
        }
    }
}

/// After `set(key, value)` the first (and only) pair named `key` holds
/// `value`, and lookups of every other name are unchanged.
pub proof fn lemma_set_then_get(es: Seq<(Seq<char>, Seq<char>)>, key: Seq<char>, value: Seq<char>, other: Seq<char>)
    requires
        other != key,
    ensures
        first_value(with_set(es, key, value), key) == Some(value),
        has_key(with_set(es, key, value), key),
        values_for(with_set(es, key, value), key) == seq![value],
        first_value(with_set(es, key, value), other) == first_value(es, other),
{
    lemma_without_key(es, key, other);
    let w = without_key(es, key);
    lemma_first_value_push(w, (key, value), key);
    lemma_first_value_push(w, (key, value), other);
    assert(with_set(es, key, value)[w.len() as int].0 == key);
    lemma_values_absent(w, key);
    assert(with_set(es, key, value).drop_last() =~= w);
}

proof fn lemma_values_absent(es: Seq<(Seq<char>, Seq<char>)>, key: Seq<char>)
    requires
        forall|i: int| 0 <= i < es.len() ==> (#[trigger] es[i]).0 != key,
    ensures
        values_for(es, key) == Seq::<Seq<char>>::empty(),
    decreases es.len(),
{
    if es.len() > 0 {
        lemma_values_absent(es.drop_last(), key);
    }
}

/// After `delete(key)` no pair is named `key`, and lookups of every other
/// name are unchanged.
pub proof fn lemma_delete_then_has(es: Seq<(Seq<char>, Seq<char>)>, key: Seq<char>, other: Seq<char>)
    requires
        other != key,
    ensures
        !has_key(without_key(es, key), key),
        first_value(without_key(es, key), key) is None,
        first_value(without_key(es, key), other) == first_value(es, other),
{
    lemma_without_key(es, key, other);
}

/// `append(key, value)` keeps every earlier pair first: a lookup of `key`
/// finds `value` only when no pair was named `key` before, and `getAll`
/// ends with `value`.
pub proof fn lemma_append_then_get(es: Seq<(Seq<char>, Seq<char>)>, key: Seq<char>, value: Seq<char>)
    ensures
        first_value(es.push((key, value)), key) == (match first_value(es, key) {
            Some(v) => Some(v),
            None => Some(value),
        }),
        values_for(es.push((key, value)), key) == values_for(es, key).push(value),
{
    lemma_first_value_push(es, (key, value), key);
    assert(es.push((key, value)).drop_last() =~= es);
}

} // verus!
