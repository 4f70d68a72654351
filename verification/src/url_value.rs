//! A parsed URL as the cleaning engine sees it: the serialized string, the
//! host, and the decoded query pairs, all plain values. Parsing and
//! serialization belong to the `url` crate, an outside collaborator, so what
//! it produces is named, never restated; the query-pair sequence, though, is
//! owned and rewritten by verified code once the URL is parsed.

use vstd::prelude::*;
use vstd::string::*;

verus! {

#[verifier::external_type_specification]
#[verifier::external_body]
pub struct ExUrl(url::Url);

/// Whether `url::Url::parse` accepts the string `s`.
pub uninterp spec fn url_ok(s: Seq<char>) -> bool;

/// What `url::Url::as_str` returns on the URL parsed from `s` (the
/// normalized serialization).
pub uninterp spec fn url_serial(s: Seq<char>) -> Seq<char>;

/// What `url::Url::host_str` returns on the URL parsed from `s`, the empty
/// string standing for a URL without a host.
pub uninterp spec fn url_host(s: Seq<char>) -> Seq<char>;

/// What `url::Url::query_pairs` yields on the URL parsed from `s`: the
/// decoded key/value pairs, in order.
pub uninterp spec fn url_params(s: Seq<char>) -> Seq<(Seq<char>, Seq<char>)>;

/// What `url::Url::as_str` returns after `url::Url::set_query(q)` on the URL
/// whose serialization is `s`.
pub uninterp spec fn url_serial_after_query(s: Seq<char>, q: Option<Seq<char>>) -> Seq<char>;

/// What `urlencoding::decode` returns on `s`: the percent-decoded string,
/// or `None` when the decoded bytes are not UTF-8.
pub uninterp spec fn pct_decoded(s: Seq<char>) -> Option<Seq<char>>;

/// Relies on `urlencoding::decode`: percent-decodes `s`, failing exactly
/// when the decoded bytes are not valid UTF-8.
#[verifier::external_body]
pub(crate) fn percent_decode(s: &str) -> (r: Option<String>)
    ensures
        r is Some <==> pct_decoded(s@) is Some,
        r is Some ==> r->0@ == pct_decoded(s@)->0,
{
    match urlencoding::decode(s) {
        Ok(cow) => Some(cow.into_owned()),
        Err(_) => None,
    }
}

/// The spec-level shape of a [`ParsedUrl`].
#[verifier::ext_equal]
pub ghost struct UrlView {
    /// The serialized URL string.
    pub serial: Seq<char>,
    /// The host, empty when the URL has none.
    pub host: Seq<char>,
    /// The decoded query pairs, in order.
    pub params: Seq<(Seq<char>, Seq<char>)>,
}

/// The view of a freshly parsed string: every component is a named
/// projection of the `url` crate's parse result.
pub open spec fn parsed_view(s: Seq<char>) -> UrlView {
    UrlView { serial: url_serial(s), host: url_host(s), params: url_params(s) }
}

/// The views of a sequence of owned string pairs.
pub open spec fn pairs_view(ps: Seq<(String, String)>) -> Seq<(Seq<char>, Seq<char>)> {
    ps.map_values(|p: (String, String)| (p.0@, p.1@))
}

/// The query string rebuilt from the first `n` pairs: `k=v` items joined
/// with `&`.
pub open spec fn query_prefix(ps: Seq<(Seq<char>, Seq<char>)>, n: int) -> Seq<char>
    decreases n,
{
    if n <= 0 {
        Seq::empty()
    } else if n == 1 {
        ps[0].0 + "="@ + ps[0].1
    } else {
        query_prefix(ps, n - 1) + "&"@ + ps[n - 1].0 + "="@ + ps[n - 1].1
    }
}

/// The query string rebuilt from surviving pairs.
pub open spec fn query_string_of(ps: Seq<(Seq<char>, Seq<char>)>) -> Seq<char> {
    query_prefix(ps, ps.len() as int)
}

/// The serialization after the query of `s` is replaced by the rebuilt
/// query of `ps` (`None` when no pair survives, dropping the query).
pub open spec fn serial_with_params(s: Seq<char>, ps: Seq<(Seq<char>, Seq<char>)>) -> Seq<char> {
    if ps.len() == 0 {
        url_serial_after_query(s, Option::None)
    } else {
        url_serial_after_query(s, Option::Some(query_string_of(ps)))
    }
}

/// A URL parsed by the `url` crate, together with the plain projections the
/// cleaning engine reads. `serialized` and `host` always mirror `inner`;
/// `params` starts as the decoded query pairs of `inner` and afterwards is
/// owned by the engine, which keeps it at the pairs it last wrote.
#[derive(Debug)]
pub struct ParsedUrl {
    inner: url::Url,
    serialized: String,
    host: String,
    params: Vec<(String, String)>,
}

impl View for ParsedUrl {
    type V = UrlView;

    closed spec fn view(&self) -> UrlView {
        UrlView { serial: self.serialized@, host: self.host@, params: pairs_view(self.params@) }
    }
}

impl ParsedUrl {
    /// Relies on `url::Url::parse` and the projections `as_str`,
    /// `host_str` and `query_pairs` of its result.
    #[verifier::external_body]
    pub(crate) fn parse(s: &str) -> (r: Option<ParsedUrl>)
        ensures
            r is Some <==> url_ok(s@),
            r is Some ==> r->0@.serial == url_serial(s@),
            r is Some ==> r->0@.host == url_host(s@),
            r is Some ==> r->0@.params == url_params(s@),
    {
        match url::Url::parse(s) {
            Ok(inner) => {
                let serialized = inner.as_str().to_string();
                let host = inner.host_str().unwrap_or("").to_string();
                let params = inner
                    .query_pairs()
                    .map(|(k, v)| (k.into_owned(), v.into_owned()))
                    .collect();
                Some(ParsedUrl { inner, serialized, host, params })
            },
            Err(_) => None,
        }
    }

    /// The serialized URL.
    pub fn as_str(&self) -> (s: &str)
        ensures
            s@ == self@.serial,
    {
        self.serialized.as_str()
    }

    /// The host, empty when the URL has none.
    pub fn host_str(&self) -> (s: &str)
        ensures
            s@ == self@.host,
    {
        self.host.as_str()
    }

    /// How many query pairs the URL carries.
    pub fn param_len(&self) -> (n: usize)
        ensures
            n == self@.params.len(),
    {
        self.params.len()
    }

    /// One query pair, by position.
    pub fn param_at(&self, i: usize) -> (p: (&String, &String))
        requires
            i < self@.params.len(),
        ensures
            p.0@ == self@.params[i as int].0,
            p.1@ == self@.params[i as int].1,
    {
        let p = &self.params[i];
        (&p.0, &p.1)
    }

    /// Relies on `url::Url::set_query` (which replaces only the query
    /// component, leaving the host as it was) and `url::Url::as_str` for
    /// the new serialization. The `params` projection is not touched here.
    #[verifier::external_body]
    fn set_query_raw(&mut self, q: Option<&str>)
        ensures
            final(self)@.serial == url_serial_after_query(
                old(self)@.serial,
                match q {
                    Option::Some(s) => Option::Some(s@),
                    Option::None => Option::None,
                },
            ),
            final(self)@.host == old(self)@.host,
            final(self)@.params == old(self)@.params,
    {
        self.inner.set_query(q);
        self.serialized = self.inner.as_str().to_string();
    }

    /// Replaces the query pairs: the URL's query becomes the `k=v` items of
    /// `ps` joined with `&`, or is dropped entirely when `ps` is empty.
    pub(crate) fn set_pairs(&mut self, ps: Vec<(String, String)>)
        ensures
            final(self)@.serial == serial_with_params(old(self)@.serial, pairs_view(ps@)),
            final(self)@.host == old(self)@.host,
            final(self)@.params == pairs_view(ps@),
    {
        if ps.len() == 0 {
            self.set_query_raw(None);
        } else {
            let mut qs = String::new();
            let mut i: usize = 0;
            while i < ps.len()
                invariant
                    i <= ps.len(),
                    qs@ == query_prefix(pairs_view(ps@), i as int),
                decreases ps.len() - i,
            {
                if i > 0 {
                    qs.append("&");
                }
                qs.append(ps[i].0.as_str());
                qs.append("=");
                qs.append(ps[i].1.as_str());
                proof {
                    assert(pairs_view(ps@)[i as int] == (ps@[i as int].0@, ps@[i as int].1@));
                }
                i = i + 1;
            }
            self.set_query_raw(Some(qs.as_str()));
        }
        self.params = ps;
    }
}

} // verus!
