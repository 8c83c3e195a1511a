//! The configuration of a mock: its routes and the credentials that a route may ask for.

use vstd::prelude::*;
use crate::text::text_eq;

verus! {

/// The credentials that the authentication schemes compare a request against.
///
/// No field is required. A scheme reads only the fields that concern it and takes an
/// absent one as the empty text.
#[derive(Debug, Clone, PartialEq)]
pub struct AuthConfig {
    pub username: Option<String>,
    pub password: Option<String>,
    pub token: Option<String>,
    pub header: Option<String>,
    pub key: Option<String>,
    pub realm: Option<String>,
    pub nonce: Option<String>,
    pub algorithm: Option<String>,
    pub qop: Option<String>,
    pub opaque: Option<String>,
    pub consumer_key: Option<String>,
    pub consumer_secret: Option<String>,
    pub token_secret: Option<String>,
    pub access_key: Option<String>,
    pub secret_key: Option<String>,
    pub region: Option<String>,
    pub service: Option<String>,
    pub auth_id: Option<String>,
    pub auth_key: Option<String>,
    pub hawk_algorithm: Option<String>,
}

impl AuthConfig {
    /// Every field is absent.
    pub open spec fn is_blank(&self) -> bool {
        &&& self.username is None
        &&& self.password is None
        &&& self.token is None
        &&& self.header is None
        &&& self.key is None
        &&& self.realm is None
        &&& self.nonce is None
        &&& self.algorithm is None
        &&& self.qop is None
        &&& self.opaque is None
        &&& self.consumer_key is None
        &&& self.consumer_secret is None
        &&& self.token_secret is None
        &&& self.access_key is None
        &&& self.secret_key is None
        &&& self.region is None
        &&& self.service is None
        &&& self.auth_id is None
        &&& self.auth_key is None
        &&& self.hawk_algorithm is None
    }
}

impl Default for AuthConfig {
    fn default() -> (config: AuthConfig)
        ensures
            config.is_blank(),
    {
        AuthConfig {
            username: None,
            password: None,
            token: None,
            header: None,
            key: None,
            realm: None,
            nonce: None,
            algorithm: None,
            qop: None,
            opaque: None,
            consumer_key: None,
            consumer_secret: None,
            token_secret: None,
            access_key: None,
            secret_key: None,
            region: None,
            service: None,
            auth_id: None,
            auth_key: None,
            hawk_algorithm: None,
        }
    }
}

/// The text of an optional field: the empty text where the field is absent.
pub open spec fn text_or_empty(field: Option<String>) -> Seq<char> {
    match field {
        Some(text) => text@,
        None => Seq::empty(),
    }
}

/// The text of an optional field, or `fallback` where the field is absent.
pub open spec fn text_or(field: Option<String>, fallback: Seq<char>) -> Seq<char> {
    match field {
        Some(text) => text@,
        None => fallback,
    }
}

/// Reads an optional field, taking `fallback` where it is absent.
pub fn field_or<'a>(field: &'a Option<String>, fallback: &'a str) -> (text: &'a str)
    ensures
        text@ == text_or(*field, fallback@),
{
    match field {
        Some(text) => text.as_str(),
        None => fallback,
    }
}

/// Reads an optional field, taking the empty text where it is absent.
pub fn field_or_empty<'a>(field: &'a Option<String>) -> (text: &'a str)
    ensures
        text@ == text_or_empty(*field),
{
    proof {
        reveal_strlit("");
        assert(""@ =~= Seq::<char>::empty());
    }
    field_or(field, "")
}

/// The texts of a list of headers.
pub open spec fn header_texts(headers: Seq<(String, String)>) -> Seq<(Seq<char>, Seq<char>)> {
    Seq::new(headers.len(), |i: int| (headers[i].0@, headers[i].1@))
}

/// No name occurs twice in a list of headers. Names are compared as they are written.
pub open spec fn distinct_names(pairs: Seq<(Seq<char>, Seq<char>)>) -> bool {
    forall|i: int, j: int|
        #![trigger pairs[i], pairs[j]]
        0 <= i < j < pairs.len() ==> pairs[i].0 != pairs[j].0
}

/// The mapping that a list of headers stands for: each name has the value of the last
/// pair that gives it.
pub open spec fn header_map(pairs: Seq<(Seq<char>, Seq<char>)>) -> Map<Seq<char>, Seq<char>>
    decreases pairs.len(),
{
    if pairs.len() == 0 {
        Map::empty()
    } else {
        header_map(pairs.drop_last()).insert(pairs.last().0, pairs.last().1)
    }
}

/// The names of the mapping are the names of the list.
pub proof fn lemma_header_map_names(pairs: Seq<(Seq<char>, Seq<char>)>, name: Seq<char>)
    ensures
        header_map(pairs).contains_key(name) <==> exists|i: int|
            0 <= i < pairs.len() && (#[trigger] pairs[i]).0 == name,
    decreases pairs.len(),
{
    if pairs.len() > 0 {
        let front = pairs.drop_last();
        lemma_header_map_names(front, name);
        if exists|i: int| 0 <= i < front.len() && (#[trigger] front[i]).0 == name {
            let i = choose|i: int| 0 <= i < front.len() && (#[trigger] front[i]).0 == name;
            assert(pairs[i].0 == name);
        }
        if exists|i: int| 0 <= i < pairs.len() && (#[trigger] pairs[i]).0 == name {
            let i = choose|i: int| 0 <= i < pairs.len() && (#[trigger] pairs[i]).0 == name;
            if i < front.len() {
                assert(front[i].0 == name);
            }
        }
    }
}

/// Where no name occurs twice, the mapping gives each name the value that stands
/// beside it.
pub proof fn lemma_header_map_value(pairs: Seq<(Seq<char>, Seq<char>)>, i: int)
    requires
        distinct_names(pairs),
        0 <= i < pairs.len(),
    ensures
        header_map(pairs).contains_key(pairs[i].0),
        header_map(pairs)[pairs[i].0] == pairs[i].1,
    decreases pairs.len(),
{
    let front = pairs.drop_last();
    if i < front.len() {
        assert(distinct_names(front)) by {
            assert forall|a: int, b: int| 0 <= a < b < front.len() implies front[a].0
                != front[b].0 by {
                assert(front[a] == pairs[a] && front[b] == pairs[b]);
            }
        }
        lemma_header_map_value(front, i);
        assert(front[i] == pairs[i]);
        assert(pairs[i].0 != pairs.last().0);
    }
}

proof fn lemma_header_map_replace(pairs: Seq<(Seq<char>, Seq<char>)>, k: int, value: Seq<char>)
    requires
        distinct_names(pairs),
        0 <= k < pairs.len(),
    ensures
        distinct_names(pairs.update(k, (pairs[k].0, value))),
        header_map(pairs.update(k, (pairs[k].0, value))) == header_map(pairs).insert(
            pairs[k].0,
            value,
        ),
{
    let name = pairs[k].0;
    let changed = pairs.update(k, (name, value));
    assert forall|a: int, b: int| 0 <= a < b < changed.len() implies changed[a].0
        != changed[b].0 by {
        assert(changed[a].0 == pairs[a].0 && changed[b].0 == pairs[b].0);
    }
    let left = header_map(changed);
    let right = header_map(pairs).insert(name, value);
    assert forall|n: Seq<char>| left.contains_key(n) <==> right.contains_key(n) by {
        lemma_header_map_names(changed, n);
        lemma_header_map_names(pairs, n);
        if exists|i: int| 0 <= i < changed.len() && (#[trigger] changed[i]).0 == n {
            let i = choose|i: int| 0 <= i < changed.len() && (#[trigger] changed[i]).0 == n;
            assert(pairs[i].0 == n);
        }
        if exists|i: int| 0 <= i < pairs.len() && (#[trigger] pairs[i]).0 == n {
            let i = choose|i: int| 0 <= i < pairs.len() && (#[trigger] pairs[i]).0 == n;
            assert(changed[i].0 == n);
        }
        if n == name {
            assert(changed[k].0 == n);
        }
    }
    assert forall|n: Seq<char>| left.contains_key(n) implies left[n] == right[n] by {
        lemma_header_map_names(changed, n);
        let i = choose|i: int| 0 <= i < changed.len() && (#[trigger] changed[i]).0 == n;
        lemma_header_map_value(changed, i);
        if i != k {
            assert(pairs[i].0 == n);
            lemma_header_map_value(pairs, i);
            assert(changed[i] == pairs[i]);
            assert(n != name) by {
                if i < k {
                    assert(pairs[i].0 != pairs[k].0);
                } else {
                    assert(pairs[k].0 != pairs[i].0);
                }
            }
        }
    }
    assert(left =~= right);
}

/// Where `name` stands in a list of headers.
fn name_position(headers: &Vec<(String, String)>, name: &str) -> (found: Option<usize>)
    ensures
        match found {
            Some(k) => k < headers@.len() && headers@[k as int].0@ == name@,
            None => forall|i: int| 0 <= i < headers@.len() ==> (#[trigger] headers@[i]).0@ != name@,
        },
{
    let mut i: usize = 0;
    while i < headers.len()
        invariant
            i <= headers@.len(),
            forall|j: int| 0 <= j < i ==> (#[trigger] headers@[j]).0@ != name@,
        decreases headers@.len() - i,
    {
        if text_eq(headers[i].0.as_str(), name) {
            return Some(i);
        }
        i += 1;
    }
    None
}

/// Reads a list of headers as a mapping is filled: a pair whose name was given before
/// replaces the value of that name. No name occurs twice in what is kept.
pub fn keep_last_per_name(headers: &Vec<(String, String)>) -> (kept: Vec<(String, String)>)
    ensures
        distinct_names(header_texts(kept@)),
        header_map(header_texts(kept@)) == header_map(header_texts(headers@)),
{
    let mut kept: Vec<(String, String)> = Vec::new();
    let mut i: usize = 0;
    assert(header_texts(headers@).take(0) =~= Seq::empty());
    assert(header_texts(kept@) =~= Seq::empty());
    while i < headers.len()
        invariant
            i <= headers@.len(),
            distinct_names(header_texts(kept@)),
            header_map(header_texts(kept@)) == header_map(header_texts(headers@).take(i as int)),
        decreases headers@.len() - i,
    {
        let name = headers[i].0.clone();
        let value = headers[i].1.clone();
        let ghost before = header_texts(kept@);
        let ghost given = header_texts(headers@);
        proof {
            let read = given.take(i + 1);
            assert(read.drop_last() =~= given.take(i as int));
            assert(read.last() == (name@, value@));
        }
        match name_position(&kept, name.as_str()) {
            Some(k) => {
                proof {
                    lemma_header_map_replace(before, k as int, value@);
                }
                kept.set(k, (name, value));
                assert(header_texts(kept@) =~= before.update(k as int, (before[k as int].0, value@)));
            },
            None => {
                kept.push((name, value));
                proof {
                    let after = header_texts(kept@);
                    assert(after =~= before.push((name@, value@)));
                    assert(after.drop_last() =~= before);
                    assert forall|a: int, b: int| 0 <= a < b < after.len() implies after[a].0
                        != after[b].0 by {
                        if b < before.len() {
                            assert(after[a] == before[a] && after[b] == before[b]);
                        } else {
                            assert(after[a].0 == kept@[a].0@);
                        }
                    }
                }
            },
        }
        i += 1;
    }
    assert(header_texts(headers@).take(i as int) =~= header_texts(headers@));
    kept
}

/// One canned response and the requests it answers.
///
/// `path` is a pattern of segments separated by `/`; a segment that begins with `:`
/// stands for any one segment of a request path. `headers` are the response headers in
/// the order in which they are sent; they stand for a mapping from name to value, and a
/// route is well formed if no name occurs twice among them. An absent `auth_type`
/// means that no scheme guards the route.
#[derive(Debug, Clone, PartialEq)]
pub struct MockRoute {
    pub id: String,
    pub method: String,
    pub path: String,
    pub status: u16,
    pub body: String,
    pub headers: Option<Vec<(String, String)>>,
    pub auth_type: Option<String>,
    pub auth_config: Option<AuthConfig>,
}

impl MockRoute {
    /// No header name occurs twice among the route's headers.
    pub open spec fn well_formed(&self) -> bool {
        match self.headers {
            Some(headers) => distinct_names(header_texts(headers@)),
            None => true,
        }
    }

    /// Whether the route is well formed.
    pub fn is_well_formed(&self) -> (yes: bool)
        ensures
            yes == self.well_formed(),
    {
        match &self.headers {
            Some(headers) => {
                let ghost texts = header_texts(headers@);
                let mut i: usize = 0;
                while i < headers.len()
                    invariant
                        i <= headers@.len(),
                        self.headers == Some(*headers),
                        texts == header_texts(headers@),
                        forall|a: int, b: int| 0 <= a < b < i ==> texts[a].0 != texts[b].0,
                    decreases headers@.len() - i,
                {
                    let mut j: usize = 0;
                    while j < i
                        invariant
                            j <= i < headers@.len(),
                            self.headers == Some(*headers),
                            texts == header_texts(headers@),
                            forall|a: int| 0 <= a < j ==> texts[a].0 != texts[i as int].0,
                        decreases i - j,
                    {
                        if text_eq(headers[j].0.as_str(), headers[i].0.as_str()) {
                            assert(texts[j as int].0 == texts[i as int].0);
                            return false;
                        }
                        j += 1;
                    }
                    i += 1;
                }
                true
            },
            None => true,
        }
    }
}

} // verus!
