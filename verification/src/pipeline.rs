//! The per-URL pipeline: run a get or set action against one parsed
//! URL and produce the single output line for it.

use vstd::prelude::*;
use crate::component::UrlComponent;
use crate::errors::CoreError;
use crate::extract::{extract_from_parts, lemma_omission_rule, snapshot, spec_extract, UrlParts};
use crate::mutate::{apply_assignments, infallible_target, set_outcome, spec_apply, SetAction};
use crate::render::{render_json, render_plain_get, spec_render_json, spec_render_plain_get};
use crate::text::{chars_to_string, str_chars};
use vstd::string::StringExecFns;
use crate::urlmodel;
use crate::urlmodel::{parse_of, url_str};

verus! {

/// The action to run against each URL.
#[derive(Debug)]
pub enum Action {
    /// Extract the listed components, in order.
    Get { targets: Vec<UrlComponent> },
    /// Apply the assignments, in order.
    Mutate { actions: Vec<SetAction> },
}

/// Runs the action against one parsed URL and returns the output line,
/// newline-terminated.  A get cannot fail, leaves the URL unchanged,
/// and renders the extraction of the snapshot of this URL; a set
/// applies the assignments in order — succeeding exactly when
/// `spec_apply` does on the URL's serialization — and renders either
/// the final URL's serialization (plain) or the extraction of every
/// component of the mutated URL (JSON).
pub fn process_url(u: &mut url::Url, action: &Action, json: bool) -> (r: Result<
    String,
    CoreError,
>)
    ensures
        action matches Action::Get { targets } ==> r is Ok && *final(u) == *old(u),
        action matches Action::Get { targets } ==> (r matches Ok(line) ==> exists|p: UrlParts|
            #![trigger spec_extract(p, targets@)]
            p.consistent() && p.matches_url(url_str(*old(u))) && p.scheme@.len() > 0
                && line@ == (if json {
                spec_render_json(spec_extract(p, targets@))
            } else {
                spec_render_plain_get(spec_extract(p, targets@))
            }) + seq!['\n']),
        action matches Action::Mutate { actions } ==> (r is Ok <==> spec_apply(
            url_str(*old(u)),
            actions@,
        ) is Some),
        action matches Action::Mutate { actions } ==> (r is Ok ==> spec_apply(
            url_str(*old(u)),
            actions@,
        ) == Some(url_str(*final(u)))),
        action matches Action::Mutate { actions } ==> (!json ==> (r matches Ok(line)
            ==> line@ == url_str(*final(u)) + seq!['\n'])),
        action matches Action::Mutate { actions } ==> (json ==> (r matches Ok(line) ==> exists|
            p: UrlParts,
        |
            #![trigger spec_extract(p, UrlComponent::spec_all())]
            p.consistent() && p.matches_url(url_str(*final(u))) && p.scheme@.len() > 0
                && line@ == spec_render_json(
                spec_extract(p, UrlComponent::spec_all()),
            ) + seq!['\n'])),
        r matches Ok(line) ==> line@.len() >= 1 && line@.last() == '\n',
        r matches Err(e) ==> (action matches Action::Mutate { actions } && exists|i: int|
            #![trigger actions@[i]]
            0 <= i < actions@.len() && (e matches CoreError::ComponentSet { component, value }
                && component == actions@[i].target && value@ == actions@[i].value@)
                && spec_apply(url_str(*old(u)), actions@.take(i)) == Some(url_str(*final(u)))
                && set_outcome(url_str(*final(u)), actions@[i].target, actions@[i].value@)
                is None),
        action matches Action::Mutate { actions } ==> ((forall|i: int|
            0 <= i < actions@.len() ==> infallible_target(actions@[i].target)) ==> r is Ok),
{
    match action {
        Action::Get { targets } => {
            let parts = snapshot(u);
            let m = extract_from_parts(&parts, targets);
            proof {
                lemma_omission_rule(parts, targets@);
            }
            let mut v = if json {
                render_json(&m)
            } else {
                render_plain_get(&m)
            };
            v.push('\n');
            let line = chars_to_string(&v);
            proof {
                assert(spec_extract(parts, targets@) == m@);
            }
            Ok(line)
        }
        Action::Mutate { actions } => {
            match apply_assignments(u, actions) {
                Err(e) => Err(e),
                Ok(()) => {
                    if json {
                        let parts = snapshot(u);
                        let all = UrlComponent::all();
                        let m = extract_from_parts(&parts, &all);
                        let mut v = render_json(&m);
                        v.push('\n');
                        let line = chars_to_string(&v);
                        proof {
                            assert(spec_extract(parts, UrlComponent::spec_all()) == m@);
                        }
                        Ok(line)
                    } else {
                        let full = urlmodel::url_full(u);
                        let mut v = str_chars(full.as_str());
                        v.push('\n');
                        let line = chars_to_string(&v);
                        proof {
                            assert(line@ =~= full@ + seq!['\n']);
                        }
                        Ok(line)
                    }
                }
            }
        }
    }
}

/// Parses one input line as an absolute URL and runs the action
/// against it.  The URL-parse error arises exactly when the line is
/// not a valid absolute URL, and names the offending input; a get on a
/// valid line always succeeds and renders the extraction of that URL's
/// snapshot; a set succeeds exactly when every assignment does, and in
/// plain mode the output line is the mutated URL's serialization.
pub fn process_line(line: &str, action: &Action, json: bool) -> (r: Result<String, CoreError>)
    ensures
        r matches Err(e) ==> match e {
            CoreError::UrlParse { input } => input@ == line@ && parse_of(line@) is None,
            CoreError::ComponentSet { component, value } => action matches Action::Mutate {
                actions,
            } && parse_of(line@) is Some,
            _ => false,
        },
        action matches Action::Get { targets } ==> (r is Ok <==> parse_of(line@) is Some),
        action matches Action::Get { targets } ==> (r matches Ok(out) ==> (parse_of(line@)
            matches Some(s) && exists|p: UrlParts|
            #![trigger spec_extract(p, targets@)]
            p.consistent() && p.matches_url(s) && p.scheme@.len() > 0 && out@ == (if json {
                spec_render_json(spec_extract(p, targets@))
            } else {
                spec_render_plain_get(spec_extract(p, targets@))
            }) + seq!['\n'])),
        action matches Action::Mutate { actions } ==> (r is Ok <==> (parse_of(line@)
            matches Some(s) && spec_apply(s, actions@) is Some)),
        action matches Action::Mutate { actions } ==> (!json ==> (r matches Ok(out) ==> (
        parse_of(line@) matches Some(s) && spec_apply(s, actions@) matches Some(sf) && out@ == sf
            + seq!['\n']))),
        action matches Action::Mutate { actions } ==> (json ==> (r matches Ok(out) ==> (
        parse_of(line@) matches Some(s) && spec_apply(s, actions@) matches Some(sf) && exists|
            p: UrlParts,
        |
            #![trigger spec_extract(p, UrlComponent::spec_all())]
            p.consistent() && p.matches_url(sf) && p.scheme@.len() > 0 && out@ == spec_render_json(
                spec_extract(p, UrlComponent::spec_all()),
            ) + seq!['\n']))),
        r matches Ok(out) ==> out@.len() >= 1 && out@.last() == '\n',
{
    match urlmodel::url_parse(line) {
        Ok(mut u) => process_url(&mut u, action, json),
        Err(()) => Err(
            CoreError::UrlParse { input: String::from_str(line) },
        ),
    }
}

} // verus!
