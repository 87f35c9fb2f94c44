//! A single-process OAuth2 authorization-server core.
//!
//! The crate keeps three in-memory stores (a client registry, a store of
//! authorization grants, and a token issuer) and drives the two OAuth2
//! endpoints over them: `authorize`, which validates an authorization
//! request, solicits owner consent and redirects back with a fresh
//! single-use code, and `token`, which authenticates the client, redeems
//! a grant code (or a refresh token) exactly once and answers with a JSON
//! token body.  HTTP framework bindings live outside this crate; they hand
//! requests in and carry responses out as plain values.

pub mod authorize;
pub mod base64;
pub mod consent;
pub mod encode;
pub mod endpoint;
pub mod entropy;
pub mod grants;
pub mod params;
pub mod registry;
pub mod response;
pub mod scope;
pub mod text;
pub mod token_flow;
pub mod tokens;

use vstd::prelude::*;

verus! {

/// Marker for a todo entry: checked off or still open.
#[derive(Clone, Copy, PartialEq, Eq, Structural, Debug)]
pub enum TodoState {
    Checked,
    Unchecked,
}

impl TodoState {
    /// Flips the state to the opposite one.
    pub fn toggle(&self) -> (r: Self)
        ensures
            r == (match self {
                TodoState::Checked => TodoState::Unchecked,
                TodoState::Unchecked => TodoState::Checked,
            }),
    {
        match self {
            TodoState::Checked => TodoState::Unchecked,
            TodoState::Unchecked => TodoState::Checked,
        }
    }
}

} // verus!
