//! The closed registry of addressable URL components and their stable
//! lowercase names, used for argument matching and as output keys.

use vstd::prelude::*;
use crate::text::{ascii_lower, str_eq, to_ascii_lower};

verus! {

/// One of the eight addressable structural parts of a URL.
#[derive(Clone, Copy, Debug, PartialEq, Eq, Structural)]
pub enum UrlComponent {
    Fragment,
    Host,
    Password,
    Path,
    Port,
    Query,
    Scheme,
    User,
}

impl UrlComponent {
    /// The registry name of this component.
    pub open spec fn spec_name(self) -> Seq<char> {
        match self {
            UrlComponent::Fragment => "fragment"@,
            UrlComponent::Host => "host"@,
            UrlComponent::Password => "password"@,
            UrlComponent::Path => "path"@,
            UrlComponent::Port => "port"@,
            UrlComponent::Query => "query"@,
            UrlComponent::Scheme => "scheme"@,
            UrlComponent::User => "user"@,
        }
    }

    /// The registry name of this component.
    pub fn name(self) -> (r: &'static str)
        ensures
            r@ == self.spec_name(),
    {
        match self {
            UrlComponent::Fragment => "fragment",
            UrlComponent::Host => "host",
            UrlComponent::Password => "password",
            UrlComponent::Path => "path",
            UrlComponent::Port => "port",
            UrlComponent::Query => "query",
            UrlComponent::Scheme => "scheme",
            UrlComponent::User => "user",
        }
    }

    /// The component a registry name denotes, if any.
    pub open spec fn spec_of_name(s: Seq<char>) -> Option<UrlComponent> {
        if s == "fragment"@ {
            Some(UrlComponent::Fragment)
        } else if s == "host"@ {
            Some(UrlComponent::Host)
        } else if s == "password"@ {
            Some(UrlComponent::Password)
        } else if s == "path"@ {
            Some(UrlComponent::Path)
        } else if s == "port"@ {
            Some(UrlComponent::Port)
        } else if s == "query"@ {
            Some(UrlComponent::Query)
        } else if s == "scheme"@ {
            Some(UrlComponent::Scheme)
        } else if s == "user"@ {
            Some(UrlComponent::User)
        } else {
            None
        }
    }

    /// Looks a component up by its registry name.
    pub fn of_name(s: &str) -> (r: Option<UrlComponent>)
        ensures
            r == Self::spec_of_name(s@),
    {
        if str_eq(s, "fragment") {
            Some(UrlComponent::Fragment)
        } else if str_eq(s, "host") {
            Some(UrlComponent::Host)
        } else if str_eq(s, "password") {
            Some(UrlComponent::Password)
        } else if str_eq(s, "path") {
            Some(UrlComponent::Path)
        } else if str_eq(s, "port") {
            Some(UrlComponent::Port)
        } else if str_eq(s, "query") {
            Some(UrlComponent::Query)
        } else if str_eq(s, "scheme") {
            Some(UrlComponent::Scheme)
        } else if str_eq(s, "user") {
            Some(UrlComponent::User)
        } else {
            None
        }
    }

    /// Looks a component up by its registry name, ignoring ASCII
    /// case, as `set` tokens are matched.
    pub fn of_name_ignore_case(s: &str) -> (r: Option<UrlComponent>)
        ensures
            r == Self::spec_of_name(ascii_lower(s@)),
    {
        let lowered = to_ascii_lower(s);
        Self::of_name(lowered.as_str())
    }

    /// All components, in registry order.
    pub open spec fn spec_all() -> Seq<UrlComponent> {
        seq![
            UrlComponent::Fragment,
            UrlComponent::Host,
            UrlComponent::Password,
            UrlComponent::Path,
            UrlComponent::Port,
            UrlComponent::Query,
            UrlComponent::Scheme,
            UrlComponent::User,
        ]
    }

    /// All components, in registry order.
    pub fn all() -> (r: Vec<UrlComponent>)
        ensures
            r@ == Self::spec_all(),
    {
        let mut v: Vec<UrlComponent> = Vec::new();
        v.push(UrlComponent::Fragment);
        v.push(UrlComponent::Host);
        v.push(UrlComponent::Password);
        v.push(UrlComponent::Path);
        v.push(UrlComponent::Port);
        v.push(UrlComponent::Query);
        v.push(UrlComponent::Scheme);
        v.push(UrlComponent::User);
        proof {
            assert(v@ =~= Self::spec_all());
        }
        v
    }
}

/// The key under which the full URL stands in every result map.
pub open spec fn url_key() -> Seq<char> {
    "url"@
}

/// Distinct components have distinct registry names, and none is named
/// like the full-URL key.
pub proof fn lemma_names_distinct()
    ensures
        forall|a: UrlComponent, b: UrlComponent|
            a.spec_name() == b.spec_name() ==> a == b,
        forall|a: UrlComponent| a.spec_name() != url_key(),
{
    reveal_strlit("fragment");
    reveal_strlit("host");
    reveal_strlit("password");
    reveal_strlit("path");
    reveal_strlit("port");
    reveal_strlit("query");
    reveal_strlit("scheme");
    reveal_strlit("user");
    reveal_strlit("url");
    assert("fragment"@.len() == 8 && "fragment"@[0] == 'f');
    assert("host"@.len() == 4 && "host"@[0] == 'h');
    assert("password"@.len() == 8 && "password"@[0] == 'p');
    assert("path"@.len() == 4 && "path"@[0] == 'p' && "path"@[1] == 'a');
    assert("port"@.len() == 4 && "port"@[0] == 'p' && "port"@[1] == 'o');
    assert("query"@.len() == 5);
    assert("scheme"@.len() == 6);
    assert("user"@.len() == 4 && "user"@[0] == 'u');
    assert("url"@.len() == 3);
    assert forall|a: UrlComponent, b: UrlComponent|
        a.spec_name() == b.spec_name() implies a == b by {
        if a != b {
            assert(a.spec_name() != b.spec_name());
        }
    }
    assert forall|a: UrlComponent| a.spec_name() != url_key() by {
        assert(a.spec_name().len() != 3 || a.spec_name()[0] != 'u' || a.spec_name()[2] != 'l');
    }
}

} // verus!
