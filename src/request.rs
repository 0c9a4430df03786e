use vstd::prelude::*;
use vstd::string::StringExecFns;

use crate::error::Error;
use crate::kv::{body_map, kv_parse, pairs_map, keys_unique, KvPair};

verus! {

/// Whether reqwest's URL parser (the `url` crate's) reads the text as an
/// absolute URL.
pub uninterp spec fn url_parses_absolute(s: Seq<char>) -> bool;

/// Whether the URL that the text parses as has a host.
pub uninterp spec fn url_has_host(s: Seq<char>) -> bool;

/// A URL that requests may go to: an absolute URL with a scheme and a host.
pub open spec fn url_accepted(s: Seq<char>) -> bool {
    url_parses_absolute(s) && url_has_host(s)
}

/// Relies on `FromStr for reqwest::Url` (the `url` crate's parser) and, on
/// the parsed URL, `Url::has_host`: `None` where the text is not an absolute
/// URL, else whether that URL has a host.
#[verifier::external_body]
fn parse_url_host(s: &str) -> (r: Option<bool>)
    ensures
        r is Some == url_parses_absolute(s@),
        r is Some ==> r->Some_0 == url_has_host(s@),
{
    match s.parse::<reqwest::Url>() {
        Ok(u) => Some(u.has_host()),
        Err(_) => None,
    }
}

/// Validates that `s` is an absolute URL with a scheme and a host, and hands it
/// back unchanged.
pub fn parse_url(s: &str) -> (r: Result<String, Error>)
    ensures
        match r {
            Ok(u) => url_accepted(s@) && u@ == s@,
            Err(e) => !url_accepted(s@) && e is InvalidUrl && e->InvalidUrl_0@ == s@,
        },
{
    match parse_url_host(s) {
        Some(true) => Ok(s.to_owned()),
        _ => Err(Error::InvalidUrl(s.to_owned())),
    }
}

/// A GET request: a validated URL.
pub struct Get {
    url: String,
}

impl Get {
    #[verifier::type_invariant]
    spec fn inv(&self) -> bool {
        url_accepted(self.url@)
    }

    /// The URL of the request.
    pub closed spec fn url_view(&self) -> Seq<char> {
        self.url@
    }

    /// A GET request to `url`, once `url` is validated.
    pub fn new(url: &str) -> (r: Result<Get, Error>)
        ensures
            match r {
                Ok(g) => url_accepted(url@) && g.url_view() == url@,
                Err(e) => !url_accepted(url@) && e is InvalidUrl && e->InvalidUrl_0@ == url@,
            },
    {
        match parse_url(url) {
            Ok(u) => Ok(Get { url: u }),
            Err(e) => Err(e),
        }
    }

    /// The URL of the request; it has passed URL validation.
    pub fn url(&self) -> (r: &String)
        ensures
            r@ == self.url_view(),
            url_accepted(r@),
    {
        proof {
            use_type_invariant(self);
        }
        &self.url
    }
}

/// The pairs that a sequence of tokens reads as, where each one is a pair.
pub open spec fn tokens_read_as(tokens: Seq<String>, pairs: Seq<KvPair>) -> bool {
    &&& pairs.len() == tokens.len()
    &&& forall|i: int|
        0 <= i < tokens.len() ==> kv_parse(tokens[i]@) == Some((pairs[i].key@, pairs[i].value@))
}

/// The first token, if any, that is not a pair.
pub open spec fn first_malformed(tokens: Seq<String>, i: int) -> bool {
    &&& 0 <= i < tokens.len()
    &&& kv_parse(tokens[i]@) is None
    &&& forall|j: int| 0 <= j < i ==> kv_parse(tokens[j]@) is Some
}

/// A POST request: a validated URL and the pairs of its body.
pub struct Post {
    url: String,
    body: Vec<KvPair>,
}

impl Post {
    #[verifier::type_invariant]
    spec fn inv(&self) -> bool {
        url_accepted(self.url@)
    }

    /// The URL of the request.
    pub closed spec fn url_view(&self) -> Seq<char> {
        self.url@
    }

    /// The pairs of the body, in the order given.
    pub closed spec fn body_view(&self) -> Seq<KvPair> {
        self.body@
    }

    /// A POST request to `url` whose body is read from `tokens`, each one a
    /// `key=value` pair. The URL is validated first, then the tokens are read in order.
    pub fn new(url: &str, tokens: &Vec<String>) -> (r: Result<Post, Error>)
        ensures
            match r {
                Ok(p) => url_accepted(url@) && p.url_view() == url@ && tokens_read_as(
                    tokens@,
                    p.body_view(),
                ),
                Err(e) => if !url_accepted(url@) {
                    e is InvalidUrl && e->InvalidUrl_0@ == url@
                } else {
                    e is MalformedPair && exists|i: int|
                        first_malformed(tokens@, i) && e->MalformedPair_0@ == tokens@[i]@
                },
            },
    {
        let u = match parse_url(url) {
            Ok(u) => u,
            Err(e) => return Err(e),
        };
        let mut body: Vec<KvPair> = Vec::new();
        let mut i: usize = 0;
        while i < tokens.len()
            invariant
                i <= tokens.len(),
                url_accepted(url@),
                u@ == url@,
                tokens_read_as(tokens@.take(i as int), body@),
            decreases tokens.len() - i,
        {
            match KvPair::parse(tokens[i].as_str()) {
                Ok(p) => {
                    body.push(p);
                },
                Err(e) => {
                    assert(first_malformed(tokens@, i as int)) by {
                        assert forall|j: int| 0 <= j < i implies kv_parse(tokens@[j]@) is Some by {
                            assert(tokens@.take(i as int)[j] == tokens@[j]);
                        }
                    }
                    assert(exists|k: int|
                        first_malformed(tokens@, k) && e->MalformedPair_0@ == tokens@[k]@);
                    return Err(e);
                },
            }
            assert forall|j: int| 0 <= j < i + 1 implies kv_parse(tokens@.take(i + 1)[j]@)
                == Some((body@[j].key@, body@[j].value@)) by {
                if j < i {
                    assert(tokens@.take(i as int)[j] == tokens@.take(i + 1)[j]);
                }
            }
            i = i + 1;
        }
        assert(tokens@.take(tokens.len() as int) =~= tokens@);
        Ok(Post { url: u, body })
    }

    /// The URL of the request; it has passed URL validation.
    pub fn url(&self) -> (r: &String)
        ensures
            r@ == self.url_view(),
            url_accepted(r@),
    {
        proof {
            use_type_invariant(self);
        }
        &self.url
    }

    /// The pairs of the body, in the order given.
    pub fn body(&self) -> (r: &Vec<KvPair>)
        ensures
            r@ == self.body_view(),
    {
        &self.body
    }

    /// What is sent as the body: one entry per key, the last pair with a key
    /// giving its value.
    pub fn body_map(&self) -> (r: Vec<KvPair>)
        ensures
            keys_unique(r@),
            pairs_map(r@) == pairs_map(self.body_view()),
    {
        body_map(&self.body)
    }
}

/// The request that the command line asks for.
pub enum Method {
    Get(Get),
    Post(Post),
}

impl Method {
    /// The URL that the request goes to; it has passed URL validation.
    pub fn url(&self) -> (r: &String)
        ensures
            url_accepted(r@),
            match self {
                Method::Get(g) => r@ == g.url_view(),
                Method::Post(p) => r@ == p.url_view(),
            },
    {
        match self {
            Method::Get(g) => g.url(),
            Method::Post(p) => p.url(),
        }
    }
}

/// The headers that every request carries: a marker naming the client, and
/// its user agent.
pub fn fixed_headers() -> (r: Vec<(String, String)>)
    ensures
        r@.len() == 2,
        r@[0].0@ == "X-POWERED-BY"@,
        r@[0].1@ == "Rust"@,
        r@[1].0@ == "User-Agent"@,
        r@[1].1@ == "Rust Httpie"@,
{
    let mut r: Vec<(String, String)> = Vec::new();
    r.push((String::from_str("X-POWERED-BY"), String::from_str("Rust")));
    r.push((String::from_str("User-Agent"), String::from_str("Rust Httpie")));
    r
}

} // verus!
