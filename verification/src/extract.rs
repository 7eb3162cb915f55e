//! The extraction engine: the component values of a parsed URL as plain
//! values, and the ordered result map a sequence of requested components
//! yields, with the query component expanded to its decoded pairs.

use vstd::prelude::*;
use vstd::string::StrSliceExecFns;
use vstd::string::StringExecFns;
use crate::component::{UrlComponent, url_key, lemma_names_distinct};
use crate::resultmap::{EntryValue, ResultMap, ValView, seq_has_key, spec_insert};
use crate::text::{dec_digits, str_eq, u16_to_string};
use crate::urlmodel;
use crate::urlmodel::{fragment_of, host_of, password_of, path_of, port_of, query_of, scheme_of, url_str, user_of};

verus! {

/// The component values of one parsed URL, as plain values.
pub struct UrlParts {
    /// The full serialization of the URL.
    pub full: String,
    /// The scheme, lower-cased, without the `:` delimiter.
    pub scheme: String,
    /// The host, if the URL's authority includes one.
    pub host: Option<String>,
    /// The username; empty when none is present.
    pub username: String,
    /// The password, if one was set.
    pub password: Option<String>,
    /// The explicit port, if one is present in the serialization.
    pub port: Option<u16>,
    /// The path, possibly empty.
    pub path: String,
    /// The raw (undecoded) query string, if a `?` was present.
    pub query: Option<String>,
    /// The fragment, if a `#` was present.
    pub fragment: Option<String>,
    /// The decoded query key/value pairs.
    pub pairs: Vec<(String, String)>,
}

/// The well-known default port of a scheme, as the `url` crate assigns
/// them: 80 for `http` and `ws`, 443 for `https` and `wss`, 21 for
/// `ftp`, none otherwise.
pub open spec fn spec_default_port(s: Seq<char>) -> Option<u16> {
    if s == "http"@ || s == "ws"@ {
        Some(80u16)
    } else if s == "https"@ || s == "wss"@ {
        Some(443u16)
    } else if s == "ftp"@ {
        Some(21u16)
    } else {
        None
    }
}

/// The well-known default port of a scheme.
pub fn default_port(s: &str) -> (r: Option<u16>)
    ensures
        r == spec_default_port(s@),
{
    if str_eq(s, "http") || str_eq(s, "ws") {
        Some(80)
    } else if str_eq(s, "https") || str_eq(s, "wss") {
        Some(443)
    } else if str_eq(s, "ftp") {
        Some(21)
    } else {
        None
    }
}

impl UrlParts {
    /// The snapshot holds exactly the component values of a URL with
    /// the given serialization, as the URL model reads them.
    pub open spec fn matches_url(self, s: Seq<char>) -> bool {
        &&& self.full@ == s
        &&& self.scheme@ == scheme_of(s)
        &&& self.host.deep_view() == host_of(s)
        &&& self.username@ == user_of(s)
        &&& self.password.deep_view() == password_of(s)
        &&& self.port == port_of(s)
        &&& self.path@ == path_of(s)
        &&& self.query.deep_view() == query_of(s)
        &&& self.fragment.deep_view() == fragment_of(s)
    }

    /// The decoded query pairs agree with the raw query string.
    pub open spec fn consistent(self) -> bool {
        match self.query {
            Some(q) => self.pairs.deep_view() == urlmodel::decoded_pairs(q@),
            None => self.pairs@.len() == 0,
        }
    }

    /// The explicit port if present, otherwise the scheme's well-known
    /// default port, if it has one.
    pub open spec fn spec_effective_port(self) -> Option<u16> {
        match self.port {
            Some(p) => Some(p),
            None => spec_default_port(self.scheme@),
        }
    }

    /// The scalar value of a component, if it is defined: absent
    /// components yield `None`, present ones their textual value.
    pub open spec fn spec_fetch(self, c: UrlComponent) -> Option<Seq<char>> {
        match c {
            UrlComponent::Fragment => match self.fragment {
                Some(s) => Some(s@),
                None => None,
            },
            UrlComponent::Host => match self.host {
                Some(s) => Some(s@),
                None => None,
            },
            UrlComponent::Password => match self.password {
                Some(s) => Some(s@),
                None => None,
            },
            UrlComponent::Path => Some(self.path@),
            UrlComponent::Port => match self.spec_effective_port() {
                Some(p) => Some(dec_digits(p as nat)),
                None => None,
            },
            UrlComponent::Query => match self.query {
                Some(s) => Some(s@),
                None => None,
            },
            UrlComponent::Scheme => Some(self.scheme@),
            UrlComponent::User => Some(self.username@),
        }
    }

    /// The scalar value of a component, if it is defined.
    pub fn fetch(&self, c: UrlComponent) -> (r: Option<String>)
        ensures
            r is Some <==> self.spec_fetch(c) is Some,
            r matches Some(s) ==> self.spec_fetch(c) == Some(s@),
    {
        match c {
            UrlComponent::Fragment => match &self.fragment {
                Some(s) => Some(s.clone()),
                None => None,
            },
            UrlComponent::Host => match &self.host {
                Some(s) => Some(s.clone()),
                None => None,
            },
            UrlComponent::Password => match &self.password {
                Some(s) => Some(s.clone()),
                None => None,
            },
            UrlComponent::Path => Some(self.path.clone()),
            UrlComponent::Port => {
                let explicit = match &self.port {
                    Some(p) => Some(*p),
                    None => None,
                };
                let eff = match explicit {
                    Some(p) => Some(p),
                    None => default_port(self.scheme.as_str()),
                };
                match eff {
                    Some(p) => Some(u16_to_string(p)),
                    None => None,
                }
            }
            UrlComponent::Query => match &self.query {
                Some(s) => Some(s.clone()),
                None => None,
            },
            UrlComponent::Scheme => Some(self.scheme.clone()),
            UrlComponent::User => Some(self.username.clone()),
        }
    }
}

/// The result-map entry a component contributes, if any: the query
/// component contributes its decoded pairs when at least one exists,
/// every other component its value when defined and non-empty.
pub open spec fn spec_entry(p: UrlParts, c: UrlComponent) -> Option<(Seq<char>, ValView)> {
    if c == UrlComponent::Query {
        if p.pairs.deep_view().len() > 0 {
            Some((c.spec_name(), ValView::Pairs(p.pairs.deep_view())))
        } else {
            None
        }
    } else {
        match p.spec_fetch(c) {
            Some(v) => if v.len() > 0 {
                Some((c.spec_name(), ValView::Text(v)))
            } else {
                None
            },
            None => None,
        }
    }
}

/// Folds the requested components into an accumulated entry sequence,
/// inserting each component's entry under first-occurrence order.
pub open spec fn spec_extend(
    acc: Seq<(Seq<char>, ValView)>,
    p: UrlParts,
    comps: Seq<UrlComponent>,
) -> Seq<(Seq<char>, ValView)>
    decreases comps.len(),
{
    if comps.len() == 0 {
        acc
    } else {
        let acc2 = match spec_entry(p, comps[0]) {
            Some(e) => spec_insert(acc, e.0, e.1),
            None => acc,
        };
        spec_extend(acc2, p, comps.drop_first())
    }
}

/// The ordered result map of an extraction: the full URL first, then
/// each requested component's entry in first-occurrence order.
pub open spec fn spec_extract(p: UrlParts, comps: Seq<UrlComponent>) -> Seq<
    (Seq<char>, ValView),
> {
    spec_extend(seq![(url_key(), ValView::Text(p.full@))], p, comps)
}

/// Clones a vector of string pairs.
fn clone_pairs(v: &Vec<(String, String)>) -> (r: Vec<(String, String)>)
    ensures
        r.deep_view() == v.deep_view(),
{
    let mut r: Vec<(String, String)> = Vec::new();
    let n = v.len();
    let mut i: usize = 0;
    while i < n
        invariant
            n == v@.len(),
            i <= n,
            r@.len() == i,
            r.deep_view() =~= v.deep_view().take(i as int),
        decreases n - i,
    {
        let k = v[i].0.clone();
        let val = v[i].1.clone();
        r.push((k, val));
        proof {
            assert(r@.len() == i + 1);
            assert(r@[i as int] == (k, val));
            assert(r@[i as int].deep_view() == (k@, val@));
            assert(v.deep_view()[i as int] == (v@[i as int].0@, v@[i as int].1@));
            assert(r.deep_view() =~= v.deep_view().take(i + 1));
        }
        i = i + 1;
    }
    proof {
        assert(r.deep_view() =~= v.deep_view());
    }
    r
}

/// Builds the ordered result map for the requested components.
pub fn extract_from_parts(p: &UrlParts, comps: &Vec<UrlComponent>) -> (m: ResultMap)
    ensures
        m@ == spec_extract(*p, comps@),
        m.wf(),
{
    let mut m = ResultMap::empty();
    m.insert_if_absent(String::from_str("url"), EntryValue::Text(p.full.clone()));
    proof {
        assert(m@ =~= seq![(url_key(), ValView::Text(p.full@))]);
        assert(comps@.skip(0) =~= comps@);
    }
    let n = comps.len();
    let mut i: usize = 0;
    while i < n
        invariant
            n == comps@.len(),
            i <= n,
            m.wf(),
            spec_extend(m@, *p, comps@.skip(i as int)) == spec_extract(*p, comps@),
        decreases n - i,
    {
        let c = comps[i];
        let ghost pre = m@;
        if matches!(c, UrlComponent::Query) {
            if p.pairs.len() > 0 {
                let cloned = clone_pairs(&p.pairs);
                m.insert_if_absent(String::from_str("query"), EntryValue::Pairs(cloned));
            }
            proof {
                assert(p.pairs.deep_view().len() == p.pairs@.len());
            }
        } else {
            let fetched = p.fetch(c);
            match fetched {
                Some(v) => {
                    if !v.as_str().is_empty() {
                        m.insert_if_absent(String::from_str(c.name()), EntryValue::Text(v));
                    }
                }
                None => {}
            }
        }
        proof {
            let cs = comps@.skip(i as int);
            assert(cs[0] == comps@[i as int]);
            assert(cs.drop_first() =~= comps@.skip(i + 1));
            match spec_entry(*p, c) {
                Some(e) => {
                    assert(m@ == spec_insert(pre, e.0, e.1));
                }
                None => {
                    assert(m@ == pre);
                }
            }
            assert(spec_extend(pre, *p, cs) == spec_extend(m@, *p, comps@.skip(i + 1)));
        }
        i = i + 1;
    }
    proof {
        assert(comps@.skip(n as int) =~= Seq::<UrlComponent>::empty());
    }
    m
}

/// An entry value that is not empty: a non-empty string, or at least
/// one query pair.
pub open spec fn nonempty_val(v: ValView) -> bool {
    match v {
        ValView::Text(s) => s.len() > 0,
        ValView::Pairs(q) => q.len() > 0,
    }
}

/// Every entry other than the full-URL one has a non-empty value.
pub open spec fn no_empty_entries(s: Seq<(Seq<char>, ValView)>) -> bool {
    forall|i: int| 0 <= i < s.len() && s[i].0 != url_key() ==> nonempty_val(s[i].1)
}

/// Folding components onto an accumulator only appends entries.
proof fn lemma_extend_prefix(
    acc: Seq<(Seq<char>, ValView)>,
    p: UrlParts,
    comps: Seq<UrlComponent>,
)
    ensures
        spec_extend(acc, p, comps).len() >= acc.len(),
        forall|i: int| 0 <= i < acc.len() ==> spec_extend(acc, p, comps)[i] == acc[i],
    decreases comps.len(),
{
    if comps.len() > 0 {
        match spec_entry(p, comps[0]) {
            Some(e) => {
                let acc2 = spec_insert(acc, e.0, e.1);
                assert(spec_extend(acc, p, comps) == spec_extend(acc2, p, comps.drop_first()));
                lemma_extend_prefix(acc2, p, comps.drop_first());
                assert(forall|i: int| 0 <= i < acc.len() ==> acc2[i] == acc[i]);
            }
            None => {
                assert(spec_extend(acc, p, comps) == spec_extend(acc, p, comps.drop_first()));
                lemma_extend_prefix(acc, p, comps.drop_first());
            }
        }
    }
}

/// Folding components never adds an empty value.
proof fn lemma_extend_no_empty(
    acc: Seq<(Seq<char>, ValView)>,
    p: UrlParts,
    comps: Seq<UrlComponent>,
)
    requires
        no_empty_entries(acc),
    ensures
        no_empty_entries(spec_extend(acc, p, comps)),
    decreases comps.len(),
{
    if comps.len() > 0 {
        match spec_entry(p, comps[0]) {
            Some(e) => {
                let acc2 = spec_insert(acc, e.0, e.1);
                assert(nonempty_val(e.1));
                assert(no_empty_entries(acc2)) by {
                    if !seq_has_key(acc, e.0) {
                        assert forall|i: int|
                            0 <= i < acc2.len() && acc2[i].0 != url_key()
                            implies nonempty_val(acc2[i].1) by {
                            if i < acc.len() {
                                assert(acc2[i] == acc[i]);
                            }
                        }
                    }
                }
                lemma_extend_no_empty(acc2, p, comps.drop_first());
            }
            None => {
                lemma_extend_no_empty(acc, p, comps.drop_first());
            }
        }
    }
}

/// Omission rule: in every extraction result the full URL stands first,
/// and every other entry's value is non-empty — a component whose value
/// is empty (or whose query has no pairs) never appears.
pub proof fn lemma_omission_rule(p: UrlParts, comps: Seq<UrlComponent>)
    ensures
        spec_extract(p, comps).len() >= 1,
        spec_extract(p, comps)[0] == (url_key(), ValView::Text(p.full@)),
        no_empty_entries(spec_extract(p, comps)),
{
    let init = seq![(url_key(), ValView::Text(p.full@))];
    assert(no_empty_entries(init));
    lemma_extend_prefix(init, p, comps);
    lemma_extend_no_empty(init, p, comps);
    assert(spec_extract(p, comps) == spec_extend(init, p, comps));
    assert(spec_extend(init, p, comps)[0] == init[0]);
    assert(init[0] == (url_key(), ValView::Text(p.full@)));
}

/// Single-component extraction: requesting one component yields exactly
/// one entry besides the full URL, named by the component's registry
/// name, when the component's value is defined and non-empty; otherwise
/// only the full-URL entry.
pub proof fn lemma_single_request(p: UrlParts, c: UrlComponent)
    ensures
        spec_entry(p, c) matches Some(e) ==> spec_extract(p, seq![c]) == seq![
            (url_key(), ValView::Text(p.full@)),
            e,
        ] && e.0 == c.spec_name(),
        spec_entry(p, c) is None ==> spec_extract(p, seq![c]) == seq![
            (url_key(), ValView::Text(p.full@)),
        ],
{
    lemma_names_distinct();
    let init = seq![(url_key(), ValView::Text(p.full@))];
    let comps = seq![c];
    assert(comps[0] == c);
    assert(comps.drop_first() =~= Seq::<UrlComponent>::empty());
    match spec_entry(p, c) {
        Some(e) => {
            assert(e.0 == c.spec_name());
            assert(!seq_has_key(init, e.0));
            let acc2 = spec_insert(init, e.0, e.1);
            assert(acc2 == init.push(e));
            assert(spec_extract(p, comps) == spec_extend(acc2, p, comps.drop_first()));
            assert(spec_extend(acc2, p, comps.drop_first()) == acc2);
            assert(init.push(e) =~= seq![(url_key(), ValView::Text(p.full@)), e]);
        }
        None => {
            assert(spec_extract(p, comps) == spec_extend(init, p, comps.drop_first()));
            assert(spec_extend(init, p, comps.drop_first()) == init);
        }
    }
}

/// The nested value the query component contributes.
pub open spec fn query_val(p: UrlParts) -> ValView {
    ValView::Pairs(p.pairs.deep_view())
}

/// Folding components: a `query` entry appears exactly when one was
/// already there or `query` is requested and at least one pair exists,
/// and any `query` entry holds the decoded pairs.
proof fn lemma_extend_query(
    acc: Seq<(Seq<char>, ValView)>,
    p: UrlParts,
    comps: Seq<UrlComponent>,
)
    requires
        forall|i: int| 0 <= i < acc.len() && acc[i].0 == "query"@ ==> acc[i].1 == query_val(p),
    ensures
        seq_has_key(spec_extend(acc, p, comps), "query"@) <==> (seq_has_key(acc, "query"@) || (
        comps.contains(UrlComponent::Query) && p.pairs.deep_view().len() > 0)),
        forall|i: int|
            0 <= i < spec_extend(acc, p, comps).len() && spec_extend(acc, p, comps)[i].0
                == "query"@ ==> spec_extend(acc, p, comps)[i].1 == query_val(p),
    decreases comps.len(),
{
    lemma_names_distinct();
    if comps.len() > 0 {
        let c = comps[0];
        let rest = comps.drop_first();
        assert(comps.contains(c));
        assert(comps.contains(UrlComponent::Query) <==> (c == UrlComponent::Query
            || rest.contains(UrlComponent::Query))) by {
            if comps.contains(UrlComponent::Query) {
                let j = choose|j: int|
                    0 <= j < comps.len() && comps[j] == UrlComponent::Query;
                if j > 0 {
                    assert(rest[j - 1] == UrlComponent::Query);
                    assert(rest.contains(UrlComponent::Query));
                }
            }
            if rest.contains(UrlComponent::Query) {
                let j = choose|j: int| 0 <= j < rest.len() && rest[j] == UrlComponent::Query;
                assert(comps[j + 1] == UrlComponent::Query);
            }
        }
        match spec_entry(p, c) {
            Some(e) => {
                let acc2 = spec_insert(acc, e.0, e.1);
                assert(e.0 == c.spec_name());
                if c == UrlComponent::Query {
                    assert(e.0 == "query"@);
                    assert(e.1 == query_val(p));
                    assert(p.pairs.deep_view().len() > 0);
                } else {
                    assert(c.spec_name() != UrlComponent::Query.spec_name());
                    assert(e.0 != "query"@);
                }
                assert forall|i: int|
                    0 <= i < acc2.len() && acc2[i].0 == "query"@
                    implies acc2[i].1 == query_val(p) by {
                    if i < acc.len() {
                        assert(acc2[i] == acc[i]);
                    }
                }
                assert(seq_has_key(acc2, "query"@) <==> (seq_has_key(acc, "query"@) || e.0
                    == "query"@)) by {
                    if seq_has_key(acc2, "query"@) {
                        let j = choose|j: int| 0 <= j < acc2.len() && acc2[j].0 == "query"@;
                        if j < acc.len() {
                            assert(acc2[j] == acc[j]);
                        }
                    }
                    if seq_has_key(acc, "query"@) {
                        let j = choose|j: int| 0 <= j < acc.len() && acc[j].0 == "query"@;
                        assert(acc2[j].0 == "query"@);
                    }
                    if !seq_has_key(acc, e.0) && e.0 == "query"@ {
                        assert(acc2[acc.len() as int].0 == "query"@);
                    }
                }
                lemma_extend_query(acc2, p, rest);
            }
            None => {
                lemma_extend_query(acc, p, rest);
            }
        }
    }
}

/// Query expansion: the extraction result has a `query` entry exactly
/// when `query` was requested and the URL's query decodes to at least
/// one pair, and that entry holds the nested mapping of decoded pairs.
pub proof fn lemma_query_expansion(p: UrlParts, comps: Seq<UrlComponent>)
    ensures
        seq_has_key(spec_extract(p, comps), "query"@) <==> (comps.contains(UrlComponent::Query)
            && p.pairs.deep_view().len() > 0),
        forall|i: int|
            0 <= i < spec_extract(p, comps).len() && spec_extract(p, comps)[i].0 == "query"@
                ==> spec_extract(p, comps)[i].1 == ValView::Pairs(p.pairs.deep_view()),
{
    lemma_names_distinct();
    let init = seq![(url_key(), ValView::Text(p.full@))];
    assert(UrlComponent::Query.spec_name() == "query"@);
    assert(url_key() != "query"@);
    assert(!seq_has_key(init, "query"@));
    lemma_extend_query(init, p, comps);
}

/// Default-port rule: with no explicit port, a `https` URL's port
/// component is the decimal rendering of 443.
pub proof fn lemma_https_default_port(p: UrlParts)
    requires
        p.scheme@ == "https"@,
        p.port is None,
    ensures
        p.spec_fetch(UrlComponent::Port) == Some(dec_digits(443)),
{
    reveal_strlit("http");
    reveal_strlit("https");
    reveal_strlit("ws");
    assert("http"@.len() == 4 && "https"@.len() == 5 && "ws"@.len() == 2);
    assert(spec_default_port(p.scheme@) == Some(443u16));
}

/// Takes the component values of a parsed URL as plain values.
pub fn snapshot(u: &url::Url) -> (p: UrlParts)
    ensures
        p.consistent(),
        p.matches_url(url_str(*u)),
        p.scheme@.len() > 0,
{
    let query = urlmodel::url_query(u);
    let pairs = match &query {
        Some(q) => urlmodel::decode_query_pairs(q.as_str()),
        None => Vec::new(),
    };
    UrlParts {
        full: urlmodel::url_full(u),
        scheme: urlmodel::url_scheme(u),
        host: urlmodel::url_host(u),
        username: urlmodel::url_username(u),
        password: urlmodel::url_password(u),
        port: urlmodel::url_port(u),
        path: urlmodel::url_path(u),
        query,
        fragment: urlmodel::url_fragment(u),
        pairs,
    }
}

} // verus!
