//! The mutation engine: `component=value` assignment tokens, and their
//! sequential application to a URL, failing fast on the first rejected
//! assignment.

use vstd::prelude::*;
use vstd::string::StrSliceExecFns;
use vstd::string::StringExecFns;
use crate::component::UrlComponent;
use crate::errors::CoreError;
use crate::text::{ascii_lower, is_u16_seq, parse_u16, str_chars, u16_seq_value};
use crate::urlmodel;
use crate::urlmodel::{set_fragment_of, set_host_of, set_password_of, set_path_of, set_port_of, set_query_of, set_scheme_of, set_username_of, url_str};

verus! {

/// One assignment: a component and the raw value to install.
#[derive(Debug, Clone)]
pub struct SetAction {
    pub target: UrlComponent,
    pub value: String,
}

/// The position of the first `=` in `s`, if any.
pub open spec fn eq_pos(s: Seq<char>) -> Option<int>
    decreases s.len(),
{
    if s.len() == 0 {
        None
    } else if s[0] == '=' {
        Some(0)
    } else {
        match eq_pos(s.drop_first()) {
            Some(i) => Some(i + 1),
            None => None,
        }
    }
}

/// A found first `=` is characterized by its position: an `=` there and
/// none before it.
proof fn lemma_eq_pos_at(s: Seq<char>, i: int)
    requires
        0 <= i < s.len(),
        s[i] == '=',
        forall|j: int| 0 <= j < i ==> s[j] != '=',
    ensures
        eq_pos(s) == Some(i),
    decreases s.len(),
{
    if i > 0 {
        let rest = s.drop_first();
        assert(rest[i - 1] == s[i]);
        assert forall|j: int| 0 <= j < i - 1 implies rest[j] != '=' by {
            assert(rest[j] == s[j + 1]);
        }
        lemma_eq_pos_at(rest, i - 1);
    }
}

/// Without any `=`, there is no position.
proof fn lemma_eq_pos_none(s: Seq<char>)
    requires
        forall|j: int| 0 <= j < s.len() ==> s[j] != '=',
    ensures
        eq_pos(s) is None,
    decreases s.len(),
{
    if s.len() > 0 {
        let rest = s.drop_first();
        assert forall|j: int| 0 <= j < rest.len() implies rest[j] != '=' by {
            assert(rest[j] == s[j + 1]);
        }
        lemma_eq_pos_none(rest);
    }
}

/// Splits a raw token on its first `=` into a component name and a
/// value.  The name is matched against the registry ignoring ASCII
/// case; a token without `=` is a syntax error; a name outside the
/// registry is an unknown-component error.  No URL is touched here.
pub fn parse_assignment(token: &str) -> (r: Result<SetAction, CoreError>)
    ensures
        r matches Ok(a) ==> eq_pos(token@) matches Some(i)
            && UrlComponent::spec_of_name(ascii_lower(token@.take(i))) == Some(a.target)
            && a.value@ == token@.skip(i + 1),
        r matches Err(e) ==> match e {
            CoreError::AssignmentSyntax { token: t } => t@ == token@ && eq_pos(token@) is None,
            CoreError::UnknownComponent { name } => eq_pos(token@) matches Some(i)
                && name@ == token@.take(i)
                && UrlComponent::spec_of_name(ascii_lower(token@.take(i))) is None,
            _ => false,
        },
{
    let chars = str_chars(token);
    let n = chars.len();
    let mut i: usize = 0;
    while i < n
        invariant
            n == token@.len(),
            chars@ == token@,
            i <= n,
            forall|j: int| 0 <= j < i ==> token@[j] != '=',
        decreases n - i,
    {
        if chars[i] == '=' {
            proof {
                lemma_eq_pos_at(token@, i as int);
            }
            let name = token.substring_char(0, i);
            let value = token.substring_char(i + 1, n);
            proof {
                assert(name@ =~= token@.take(i as int));
                assert(value@ =~= token@.skip(i + 1));
            }
            return match UrlComponent::of_name_ignore_case(name) {
                Some(c) => Ok(SetAction { target: c, value: String::from_str(value) }),
                None => Err(CoreError::UnknownComponent { name: String::from_str(name) }),
            };
        }
        i = i + 1;
    }
    proof {
        lemma_eq_pos_none(token@);
    }
    Err(CoreError::AssignmentSyntax { token: String::from_str(token) })
}

/// Assignments to these components cannot be rejected by the URL model.
pub open spec fn infallible_target(c: UrlComponent) -> bool {
    c == UrlComponent::Fragment || c == UrlComponent::Query || c == UrlComponent::Path
}

/// The outcome of one assignment on a URL with the given serialization:
/// the new serialization, or `None` where the URL model rejects the
/// value.  A port value must be a valid 16-bit decimal token before the
/// model is asked at all.
pub open spec fn set_outcome(s: Seq<char>, c: UrlComponent, v: Seq<char>) -> Option<Seq<char>> {
    match c {
        UrlComponent::Fragment => Some(set_fragment_of(s, v)),
        UrlComponent::Query => Some(set_query_of(s, v)),
        UrlComponent::Path => Some(set_path_of(s, v)),
        UrlComponent::Host => set_host_of(s, v),
        UrlComponent::Password => set_password_of(s, v),
        UrlComponent::Scheme => set_scheme_of(s, v),
        UrlComponent::User => set_username_of(s, v),
        UrlComponent::Port => if is_u16_seq(v) {
            set_port_of(s, u16_seq_value(v) as u16)
        } else {
            None
        },
    }
}

/// The serialization after applying the assignments in order, or
/// `None` where the first rejected assignment stops the run.
pub open spec fn spec_apply(s: Seq<char>, acts: Seq<SetAction>) -> Option<Seq<char>>
    decreases acts.len(),
{
    if acts.len() == 0 {
        Some(s)
    } else {
        match set_outcome(s, acts[0].target, acts[0].value@) {
            Some(s2) => spec_apply(s2, acts.drop_first()),
            None => None,
        }
    }
}

/// Applying a sequence splits at any position: the whole run is the
/// run of the prefix followed by the run of the rest.
proof fn lemma_spec_apply_split(s: Seq<char>, acts: Seq<SetAction>, i: int)
    requires
        0 <= i <= acts.len(),
    ensures
        spec_apply(s, acts) == (match spec_apply(s, acts.take(i)) {
            Some(m) => spec_apply(m, acts.skip(i)),
            None => None::<Seq<char>>,
        }),
    decreases i,
{
    if i == 0 {
        assert(acts.take(0) =~= Seq::<SetAction>::empty());
        assert(spec_apply(s, acts.take(0)) == Some(s));
        assert(acts.skip(0) =~= acts);
    } else {
        let a0 = acts[0];
        let rest = acts.drop_first();
        assert(acts.take(i)[0] == a0);
        assert(acts.take(i).drop_first() =~= rest.take(i - 1));
        assert(acts.skip(i) =~= rest.skip(i - 1));
        match set_outcome(s, a0.target, a0.value@) {
            Some(s2) => {
                assert(spec_apply(s, acts) == spec_apply(s2, rest));
                assert(spec_apply(s, acts.take(i)) == spec_apply(s2, rest.take(i - 1)));
                lemma_spec_apply_split(s2, rest, i - 1);
            }
            None => {
                assert(spec_apply(s, acts) is None);
                assert(spec_apply(s, acts.take(i)) is None);
            }
        }
    }
}

/// Applies one assignment to the URL.  Success and the new URL state
/// are exactly `set_outcome` on the old serialization; a rejected
/// assignment names the offending component and raw value and leaves
/// the URL exactly as it was; fragment, query and path assignments
/// always succeed.
pub fn apply_assignment(u: &mut url::Url, a: &SetAction) -> (r: Result<(), CoreError>)
    ensures
        r is Ok <==> set_outcome(url_str(*old(u)), a.target, a.value@) is Some,
        r is Ok ==> Some(url_str(*final(u))) == set_outcome(url_str(*old(u)), a.target, a.value@),
        r is Err ==> *final(u) == *old(u),
        r matches Err(e) ==> e matches CoreError::ComponentSet { component, value }
            && component == a.target && value@ == a.value@,
        infallible_target(a.target) ==> r is Ok,
{
    match a.target {
        UrlComponent::Fragment => {
            urlmodel::url_set_fragment(u, a.value.as_str());
            Ok(())
        }
        UrlComponent::Query => {
            urlmodel::url_set_query(u, a.value.as_str());
            Ok(())
        }
        UrlComponent::Path => {
            urlmodel::url_set_path(u, a.value.as_str());
            Ok(())
        }
        UrlComponent::Host => {
            match urlmodel::url_set_host(u, a.value.as_str()) {
                Ok(()) => Ok(()),
                Err(()) => Err(
                    CoreError::ComponentSet { component: a.target, value: a.value.clone() },
                ),
            }
        }
        UrlComponent::Password => {
            match urlmodel::url_set_password(u, a.value.as_str()) {
                Ok(()) => Ok(()),
                Err(()) => Err(
                    CoreError::ComponentSet { component: a.target, value: a.value.clone() },
                ),
            }
        }
        UrlComponent::Scheme => {
            match urlmodel::url_set_scheme(u, a.value.as_str()) {
                Ok(()) => Ok(()),
                Err(()) => Err(
                    CoreError::ComponentSet { component: a.target, value: a.value.clone() },
                ),
            }
        }
        UrlComponent::User => {
            match urlmodel::url_set_username(u, a.value.as_str()) {
                Ok(()) => Ok(()),
                Err(()) => Err(
                    CoreError::ComponentSet { component: a.target, value: a.value.clone() },
                ),
            }
        }
        UrlComponent::Port => {
            match parse_u16(a.value.as_str()) {
                Some(p) => match urlmodel::url_set_port(u, p) {
                    Ok(()) => Ok(()),
                    Err(()) => Err(
                        CoreError::ComponentSet { component: a.target, value: a.value.clone() },
                    ),
                },
                None => Err(
                    CoreError::ComponentSet { component: a.target, value: a.value.clone() },
                ),
            }
        }
    }
}

/// Applies the assignments strictly in input order, mutating one
/// shared URL.  Success and the final URL state are exactly
/// `spec_apply` on the old serialization; the first rejected
/// assignment aborts with its error, and the assignments already
/// applied remain applied — the URL is left at the state the prefix
/// before the failing assignment produced.
pub fn apply_assignments(u: &mut url::Url, actions: &Vec<SetAction>) -> (r: Result<
    (),
    CoreError,
>)
    ensures
        r is Ok <==> spec_apply(url_str(*old(u)), actions@) is Some,
        r is Ok ==> spec_apply(url_str(*old(u)), actions@) == Some(url_str(*final(u))),
        r matches Err(e) ==> exists|i: int|
            #![trigger actions@[i]]
            0 <= i < actions@.len() && (e matches CoreError::ComponentSet { component, value }
                && component == actions@[i].target && value@ == actions@[i].value@)
                && spec_apply(url_str(*old(u)), actions@.take(i)) == Some(url_str(*final(u)))
                && set_outcome(url_str(*final(u)), actions@[i].target, actions@[i].value@)
                is None,
        (forall|i: int| 0 <= i < actions@.len() ==> infallible_target(actions@[i].target))
            ==> r is Ok,
        r is Ok ==> forall|i: int|
            0 <= i < actions@.len() && actions@[i].target == UrlComponent::Port
                ==> is_u16_seq(actions@[i].value@),
{
    let ghost s0 = url_str(*u);
    proof {
        assert(actions@.take(0) =~= Seq::<SetAction>::empty());
    }
    let n = actions.len();
    let mut i: usize = 0;
    while i < n
        invariant
            n == actions@.len(),
            i <= n,
            s0 == url_str(*old(u)),
            spec_apply(s0, actions@.take(i as int)) == Some(url_str(*u)),
            forall|j: int|
                0 <= j < i && actions@[j].target == UrlComponent::Port ==> is_u16_seq(
                    actions@[j].value@,
                ),
        decreases n - i,
    {
        let ghost m = url_str(*u);
        let r = apply_assignment(u, &actions[i]);
        proof {
            let a = actions@[i as int];
            lemma_spec_apply_split(s0, actions@.take(i + 1), i as int);
            assert(actions@.take(i + 1).take(i as int) =~= actions@.take(i as int));
            assert(actions@.take(i + 1).skip(i as int) =~= seq![a]);
            assert(seq![a][0] == a);
            assert(seq![a].drop_first() =~= Seq::<SetAction>::empty());
            match set_outcome(m, a.target, a.value@) {
                Some(s2) => {
                    assert(spec_apply(s2, seq![a].drop_first()) == Some(s2));
                    assert(spec_apply(m, seq![a]) == Some(s2));
                }
                None => {
                    assert(spec_apply(m, seq![a]) is None);
                }
            }
            assert(spec_apply(s0, actions@.take(i + 1)) == spec_apply(m, seq![a]));
        }
        match r {
            Ok(()) => {}
            Err(e) => {
                proof {
                    let a = actions@[i as int];
                    assert(e matches CoreError::ComponentSet { component, value }
                        && component == a.target && value@ == a.value@);
                    assert(set_outcome(url_str(*u), a.target, a.value@) is None);
                    assert(!infallible_target(a.target));
                    lemma_spec_apply_split(s0, actions@, i as int);
                    assert(actions@.skip(i as int)[0] == a);
                    assert(spec_apply(url_str(*u), actions@.skip(i as int)) is None);
                    assert(spec_apply(s0, actions@) is None);
                }
                return Err(e);
            }
        }
        i = i + 1;
    }
    proof {
        assert(actions@.take(n as int) =~= actions@);
    }
    Ok(())
}

} // verus!
