//! Articles found by a search, and the short hint shown for each.
use vstd::prelude::*;
use vstd::string::StringSliceAdditionalSpecFns;
use vstd::utf8::{decode_utf8, encode_utf8, is_char_boundary};
use crate::text::{occurs_at, byte_slice, concatenate, decimal, find_bytes, find_prefix_in, first_word, i64_to_decimal, space_position};

verus! {

/// An article that a search can return.
pub struct Article {
    pub id: String,
    pub title: String,
    pub body: String,
    pub url: String,
    pub thumb: String,
}

/// A topic of the ApeCoin forum, as its search answers it.
pub struct Topic {
    pub id: i32,
    pub title: String,
    pub slug: String,
}

/// The forum's answer to a search.
pub struct ForumResponse {
    pub topics: Option<Vec<Topic>>,
}

/// Where the hint is cut from the body's bytes: start, end, and whether "..." follows.
///
/// With no query: the first 30 bytes. With a query: up to 15 bytes on each side of the
/// first occurrence of the query's first word, then "..."; when that word does not
/// occur, the first 50 bytes. Shorter bodies are taken whole.
pub open spec fn hint_cut(body: Seq<u8>, query: Seq<u8>) -> (int, int, bool) {
    if query.len() == 0 {
        (0, if body.len() > 30 { 30 } else { body.len() as int }, false)
    } else {
        match find_bytes(body, first_word(query)) {
            Some(pos) => (
                if pos > 15 { pos - 15 } else { 0 },
                if pos + 15 < body.len() { pos + 15 } else { body.len() as int },
                true,
            ),
            None => (0, if body.len() > 50 { 50 } else { body.len() as int }, false),
        }
    }
}

/// The hint can be cut: both cut points fall on character boundaries.
pub open spec fn hint_defined(body: Seq<char>, query: Seq<char>) -> bool {
    let cut = hint_cut(encode_utf8(body), encode_utf8(query));
    is_char_boundary(encode_utf8(body), cut.0) && is_char_boundary(encode_utf8(body), cut.1)
}

/// The hint shown for an article with body `body` when searching for `query`.
pub open spec fn hint_spec(body: Seq<char>, query: Seq<char>) -> Seq<char> {
    let cut = hint_cut(encode_utf8(body), encode_utf8(query));
    decode_utf8(encode_utf8(body).subrange(cut.0, cut.1)) + if cut.2 {
        "..."@
    } else {
        Seq::<char>::empty()
    }
}

/// How the hint is cut, in terms of the body's and the query's bytes:
/// - with an empty query, it is the first 30 bytes of the body (all of a shorter body);
/// - when the query's first word (its bytes up to the first space) first occurs at
///   byte `p`, it is the bytes from `p - 15` (or the start) to `p + 15` (or the end),
///   followed by "...";
/// - when that word occurs nowhere, it is the first 50 bytes (all of a shorter body).
pub proof fn lemma_hint_cuts(body: Seq<char>, query: Seq<char>, p: int)
    ensures
        encode_utf8(query).len() == 0 ==> hint_spec(body, query) == decode_utf8(
            encode_utf8(body).subrange(0, if encode_utf8(body).len() > 30 { 30 } else { encode_utf8(body).len() as int }),
        ),
        encode_utf8(query).len() > 0 && occurs_at(encode_utf8(body), first_word(encode_utf8(query)), p) && (forall|j: int|
            0 <= j < p ==> !occurs_at(encode_utf8(body), first_word(encode_utf8(query)), j)) ==> hint_spec(body, query)
            == decode_utf8(
            encode_utf8(body).subrange(
                if p > 15 { p - 15 } else { 0 },
                if p + 15 < encode_utf8(body).len() { p + 15 } else { encode_utf8(body).len() as int },
            ),
        ) + "..."@,
        encode_utf8(query).len() > 0 && (forall|j: int| !occurs_at(encode_utf8(body), first_word(encode_utf8(query)), j))
            ==> hint_spec(body, query) == decode_utf8(
            encode_utf8(body).subrange(0, if encode_utf8(body).len() > 50 { 50 } else { encode_utf8(body).len() as int }),
        ),
{
    let b = encode_utf8(body);
    let w = first_word(encode_utf8(query));
    crate::text::lemma_find_bytes_is_first_occurrence(b, w);
    if encode_utf8(query).len() > 0 && occurs_at(b, w, p) && (forall|j: int| 0 <= j < p ==> !occurs_at(b, w, j)) {
        match find_bytes(b, w) {
            Some(q) => {
                if q < p {
                    assert(!occurs_at(b, w, q));
                }
                if p < q {
                    assert(0 <= p);
                }
                assert(q == p);
            },
            None => {
                assert(!occurs_at(b, w, p));
            },
        }
    }
    if encode_utf8(query).len() > 0 && (forall|j: int| !occurs_at(b, w, j)) {
        match find_bytes(b, w) {
            Some(q) => {
                assert(!occurs_at(b, w, q));
            },
            None => {},
        }
    }
}

impl Article {
    /// A short piece of the body to show next to the article: around the first
    /// word of `query` when it occurs, else the body's beginning.
    pub fn hint(&self, query: &str) -> (r: String)
        requires
            hint_defined(self.body@, query@),
        ensures
            r@ == hint_spec(self.body@, query@),
    {
        let body = self.body.as_str();
        let ghost bb = body.spec_bytes();
        let b = body.as_bytes();
        let q = query.as_bytes();
        let blen = b.len();
        proof {
            vstd::utf8::encode_utf8_valid_utf8(body@);
            vstd::utf8::is_char_boundary_start_end_of_seq(bb);
        }
        let ghost qb = query.spec_bytes();
        assert(bb == encode_utf8(self.body@));
        if q.len() == 0 {
            let end = if blen > 30 { 30 } else { blen };
            assert(hint_cut(bb, qb) == (0int, end as int, false));
            String::from_str(byte_slice(body, 0, end))
        } else {
            let k = space_position(q);
            proof {
                crate::text::lemma_find_from_found(bb, first_word(q@), 0);
            }
            assert(q@.take(k as int) == first_word(q@));
            match find_prefix_in(b, q, k) {
                Some(pos) => {
                    let start = if pos > 15 { pos - 15 } else { 0 };
                    let end = if blen - pos > 15 { pos + 15 } else { blen };
                    let mut h = String::from_str(byte_slice(body, start, end));
                    proof {
                        reveal_strlit("...");
                    }
                    h.append("...");
                    h
                },
                None => {
                    let end = if blen > 50 { 50 } else { blen };
                    String::from_str(byte_slice(body, 0, end))
                },
            }
        }
    }
}


/// The forum's search request for `query`.
pub fn forum_search_url(query: &str) -> (r: String)
    ensures
        r@ == "https://forum.apecoin.com/search/query?term="@ + query@,
{
    concatenate("https://forum.apecoin.com/search/query?term=", query)
}

/// The picture shown next to an article found on the forum.
pub open spec fn forum_thumb() -> Seq<char> {
    "https://cdn.stamp.fyi/space/apecoin.eth?s=160&cb=ec19915e02892e80"@
}

/// The address of a forum topic.
pub open spec fn forum_topic_url(slug: Seq<char>, id: i32) -> Seq<char> {
    "https://forum.apecoin.com/t/"@ + slug + "/"@ + decimal(id as int)
}

/// `a` is the article that presents the forum topic `t`: the topic's number as its
/// id, the topic's title as both title and body, the topic's address and the forum picture.
pub open spec fn presents_topic(a: Article, t: Topic) -> bool {
    &&& a.id@ == decimal(t.id as int)
    &&& a.title@ == t.title@
    &&& a.body@ == t.title@
    &&& a.url@ == forum_topic_url(t.slug@, t.id)
    &&& a.thumb@ == forum_thumb()
}

/// The article for a forum topic carries the topic's number in decimal as its id,
/// its title as title and body, the address `/t/<slug>/<number>` on the forum, and
/// the forum's picture.
pub proof fn lemma_topic_article(a: Article, t: Topic)
    ensures
        presents_topic(a, t) <==> {
            &&& a.id@ == decimal(t.id as int)
            &&& a.title@ == t.title@
            &&& a.body@ == t.title@
            &&& a.url@ == "https://forum.apecoin.com/t/"@ + t.slug@ + "/"@ + decimal(t.id as int)
            &&& a.thumb@ == "https://cdn.stamp.fyi/space/apecoin.eth?s=160&cb=ec19915e02892e80"@
        },
{
}

/// The article that presents a forum topic.
pub fn forum_article(topic: &Topic) -> (r: Article)
    ensures
        presents_topic(r, *topic),
{
    let id = i64_to_decimal(topic.id as i64);
    let mut url = concatenate("https://forum.apecoin.com/t/", topic.slug.as_str());
    url.append("/");
    url.append(id.as_str());
    Article {
        id,
        body: topic.title.clone(),
        title: topic.title.clone(),
        url,
        thumb: String::from_str("https://cdn.stamp.fyi/space/apecoin.eth?s=160&cb=ec19915e02892e80"),
    }
}

/// The topics of a forum answer: none when it holds no list.
pub open spec fn answer_topics(response: ForumResponse) -> Seq<Topic> {
    match response.topics {
        Some(topics) => topics@,
        None => Seq::empty(),
    }
}

/// The articles that present the topics of a forum answer, in the forum's order.
pub fn forum_articles(response: &ForumResponse) -> (r: Vec<Article>)
    ensures
        r@.len() == answer_topics(*response).len(),
        forall|i: int|
            0 <= i < r@.len() ==> presents_topic(#[trigger] r@[i], answer_topics(*response)[i]),
{
    let mut out: Vec<Article> = Vec::new();
    match &response.topics {
        Some(topics) => {
            let n = topics.len();
            let mut i: usize = 0;
            while i < n
                invariant
                    n == topics@.len(),
                    response.topics == Some(*topics),
                    0 <= i <= n,
                    out@.len() == i,
                    forall|j: int| 0 <= j < i ==> presents_topic(#[trigger] out@[j], topics@[j]),
                decreases n - i,
            {
                out.push(forum_article(&topics[i]));
                i = i + 1;
            }
        },
        None => {},
    }
    out
}

/// The forum's articles followed by those of the site's own index.
pub fn combine_results(topics: Vec<Article>, hits: Vec<Article>) -> (r: Vec<Article>)
    ensures
        r@ == topics@ + hits@,
{
    let mut all = topics;
    let mut rest = hits;
    all.append(&mut rest);
    all
}

} // verus!
