//! Owner consent: the one caller-injectable decision point.
//!
//! The authorization flow validates a request first and only then puts the
//! pending grant before a [`ConsentSolicitor`].  The decision is ephemeral:
//! it steers the flow and is not persisted.

use crate::scope::ScopeSet;
use vstd::prelude::*;

verus! {

/// What the owner is asked to approve: the validated client, redirect URI,
/// effective scope and the client-supplied state.
pub struct ConsentRequest {
    pub client_id: String,
    pub redirect_uri: String,
    pub scope: ScopeSet,
    pub state: Option<String>,
}

/// The owner's answer.
pub enum ConsentDecision {
    Authorized { owner: String },
    Denied,
}

/// The pluggable consent decision point.  An implementation may consult
/// any UI or policy; the flow promises a redirect with a fresh code on
/// `Authorized` and an `access_denied` redirect on `Denied`.
pub trait ConsentSolicitor {
    fn decide(&mut self, pending: &ConsentRequest) -> ConsentDecision;
}

/// The stock solicitor: approves every request on behalf of a fixed owner.
#[derive(Default)]
pub struct GummaAuthSolicitor;

impl ConsentSolicitor for GummaAuthSolicitor {
    fn decide(&mut self, _pending: &ConsentRequest) -> (r: ConsentDecision)
        ensures
            r matches ConsentDecision::Authorized { owner } && owner@
                == "Tjenixen kingelingen!!!"@,
    {
        ConsentDecision::Authorized { owner: "Tjenixen kingelingen!!!".to_owned() }
    }
}

/// A solicitor that denies every request; handy where consent must come
/// from somewhere else entirely.
#[derive(Default)]
pub struct DenyAllSolicitor;

impl ConsentSolicitor for DenyAllSolicitor {
    fn decide(&mut self, _pending: &ConsentRequest) -> (r: ConsentDecision)
        ensures
            r is Denied,
    {
        ConsentDecision::Denied
    }
}

} // verus!
