//! What each tool answers, given what the search service returned: the
//! payloads built from results, and the text of a failed call.

use vstd::prelude::*;

use super::schema::{
    clamp, ListLensesPayload, MinimalLens, MinimalSuggestion, StatusResponse, SuggestPayload,
};
use crate::domain::model::{opt_view, LensV, SessionAuthV};
use crate::domain::{DomainError, DomainResult, KagiVertical, Lens, Session, SessionAuth, Suggestion};

verus! {

/// The tools whose calls can fail with a domain error.
#[derive(Debug, Clone, Copy, PartialEq, Eq, Structural)]
pub enum Tool {
    Search,
    Fetch,
    Wikipedia,
    Suggest,
    FastGpt,
    Vertical(KagiVertical),
    ListLenses,
}

impl Tool {
    /// The words that open the error text of a failed call.
    pub open spec fn failure_prefix(self) -> Seq<char> {
        match self {
            Tool::Search => "kagi search failed"@,
            Tool::Fetch => "fetch failed"@,
            Tool::Wikipedia => "wikipedia lookup failed"@,
            Tool::Suggest => "suggest failed"@,
            Tool::FastGpt => "fastgpt failed"@,
            Tool::Vertical(v) => v.name_spec() + " vertical search failed"@,
            Tool::ListLenses => "list_lenses failed"@,
        }
    }

    fn prefix(self) -> (r: String)
        ensures
            r@ == self.failure_prefix(),
    {
        match self {
            Tool::Search => String::from_str("kagi search failed"),
            Tool::Fetch => String::from_str("fetch failed"),
            Tool::Wikipedia => String::from_str("wikipedia lookup failed"),
            Tool::Suggest => String::from_str("suggest failed"),
            Tool::FastGpt => String::from_str("fastgpt failed"),
            Tool::Vertical(v) => String::from_str(v.name()).concat(" vertical search failed"),
            Tool::ListLenses => String::from_str("list_lenses failed"),
        }
    }

    /// The error text a failed call of the tool reports: its prefix, a
    /// colon, and the error's message.
    pub fn failure_text(self, e: &DomainError) -> (r: String)
        ensures
            r@ == self.failure_prefix() + ": "@ + e.message_spec(),
    {
        let p = self.prefix();
        let m = e.message();
        p.concat(": ").concat(m.as_str())
    }
}

/// The name `kagi_status` gives an authentication method.
pub open spec fn auth_kind_spec(a: SessionAuthV) -> Seq<char> {
    match a {
        SessionAuthV::Cookie { .. } => "cookie"@,
        SessionAuthV::UrlToken(_) => "url_token"@,
    }
}

/// The name `kagi_status` gives an authentication method.
pub fn auth_kind(a: &SessionAuth) -> (r: &'static str)
    ensures
        r@ == auth_kind_spec(a@),
{
    match a {
        SessionAuth::Cookie { .. } => "cookie",
        SessionAuth::UrlToken(_) => "url_token",
    }
}

/// The answer of `kagi_status` for the outcome of session discovery: on
/// success the browser and the authentication method, with no error; on
/// failure no browser and no method, and the error's message.
pub fn status_response(r: &DomainResult<Session>) -> (s: StatusResponse)
    ensures
        s.session_found == r.is_ok(),
        match r {
            Ok(sess) => {
                &&& opt_view(s.source) == Some(sess.source.name_spec())
                &&& opt_view(s.auth_kind) == Some(auth_kind_spec(sess.auth@))
                &&& s.error is None
            },
            Err(e) => {
                &&& s.source is None
                &&& s.auth_kind is None
                &&& opt_view(s.error) == Some(e.message_spec())
            },
        },
{
    match r {
        Ok(sess) => StatusResponse {
            session_found: true,
            source: Some(String::from_str(sess.source.as_str())),
            auth_kind: Some(String::from_str(auth_kind(&sess.auth))),
            error: None,
        },
        Err(e) => StatusResponse { session_found: false, source: None, auth_kind: None, error: Some(e.message()) },
    }
}

/// How many suggestions `kagi_suggest` returns at most: the limit asked
/// for, 10 by default.
pub open spec fn suggest_limit_spec(limit: Option<u8>) -> int {
    match limit {
        Some(l) => l as int,
        None => 10,
    }
}

fn suggest_limit(limit: Option<u8>) -> (r: usize)
    ensures
        r == suggest_limit_spec(limit),
{
    match limit {
        Some(l) => l as usize,
        None => 10,
    }
}

/// Whether a reported suggestion carries a domain suggestion field for
/// field.
pub open spec fn minimal_suggestion_of(m: MinimalSuggestion, s: Suggestion) -> bool {
    &&& m.text@ == s.text@
    &&& opt_view(m.description) == opt_view(s.description)
    &&& opt_view(m.image_url) == opt_view(s.image_url)
    &&& opt_view(m.source) == opt_view(s.source)
}

/// The payload of `kagi_suggest`: the first suggestions, no more than the
/// limit allows, in order and field for field, with their count.
pub fn suggest_payload(query: String, limit: Option<u8>, sug: Vec<Suggestion>) -> (p: SuggestPayload)
    ensures
        p.query@ == query@,
        p.count == p.suggestions@.len(),
        p.suggestions@.len() == if sug@.len() < suggest_limit_spec(limit) {
            sug@.len() as int
        } else {
            suggest_limit_spec(limit)
        },
        forall|i: int| 0 <= i < p.suggestions@.len() ==> minimal_suggestion_of(#[trigger] p.suggestions@[i], sug@[i]),
{
    let limit = suggest_limit(limit);
    let ghost orig = sug@;
    let mut rest = sug;
    rest.truncate(limit);
    let count = rest.len();
    let ghost kept = rest@;
    let mut suggestions: Vec<MinimalSuggestion> = Vec::new();
    let mut i: usize = 0;
    while i < count
        invariant
            count == kept.len(),
            kept.len() <= orig.len(),
            forall|j: int| 0 <= j < kept.len() ==> kept[j] == orig[j],
            i <= count,
            rest@ == kept.skip(i as int),
            suggestions@.len() == i,
            forall|j: int| 0 <= j < i ==> minimal_suggestion_of(#[trigger] suggestions@[j], orig[j]),
        decreases count - i,
    {
        proof {
            assert(rest@.len() == count - i);
        }
        let s = rest.remove(0);
        proof {
            assert(s == kept[i as int]);
            assert(rest@ =~= kept.skip(i + 1));
        }
        suggestions.push(MinimalSuggestion::from(s));
        i = i + 1;
    }
    SuggestPayload { query, count, suggestions }
}

/// The payload of `kagi_list_lenses`: every lens, in order and field for
/// field, with their count.
pub fn list_lenses_payload(lenses: Vec<Lens>) -> (p: ListLensesPayload)
    ensures
        p.count == lenses@.len(),
        p.lenses@.len() == lenses@.len(),
        forall|i: int| 0 <= i < p.lenses@.len() ==> {
            let m = #[trigger] p.lenses@[i];
            let l: LensV = lenses@[i]@;
            m.id == l.id && m.name@ == l.name && opt_view(m.description) == l.description && m.active == l.active
        },
{
    let count = lenses.len();
    let ghost orig = lenses@;
    let mut rest = lenses;
    let mut out: Vec<MinimalLens> = Vec::new();
    let mut i: usize = 0;
    while i < count
        invariant
            count == orig.len(),
            i <= count,
            rest@ == orig.skip(i as int),
            out@.len() == i,
            forall|j: int| 0 <= j < i ==> {
                let m = #[trigger] out@[j];
                let l: LensV = orig[j]@;
                m.id == l.id && m.name@ == l.name && opt_view(m.description) == l.description && m.active == l.active
            },
        decreases count - i,
    {
        proof {
            assert(rest@.len() == count - i);
        }
        let l = rest.remove(0);
        proof {
            assert(l == orig[i as int]);
            assert(rest@ =~= orig.skip(i + 1));
        }
        out.push(MinimalLens::from(l));
        i = i + 1;
    }
    ListLensesPayload { count, lenses: out }
}

} // verus!
