//! The endpoint coordinator: the registry, the grant store and the token
//! issuer behind the two wire endpoints.
//!
//! `authorize` runs the validation chain, puts the pending grant before
//! the solicitor and redirects back with a fresh code; `token` runs the
//! exchange chain and answers with the token JSON.  Both take the clock
//! reading from the caller and draw their randomness here.

use crate::authorize::{authorize_grant, authorize_validate, auth_decision, grant_recorded,
    AuthDecision, AuthError, error_redirect_chars, code_redirect_chars};
use crate::consent::ConsentSolicitor;
use crate::grants::{GrantStore, GRANT_TTL_SECONDS};
use crate::params::GummaAuthRequest;
use crate::registry::{Client, ClientRegistry};
use crate::response::{GummaAuthResponse, Status};
use crate::scope::ScopeSet;
use crate::text::code_chars;
use crate::token_flow::{token_exchange, token_outcome};
use crate::tokens::TokenIssuer;
use vstd::prelude::*;

verus! {

/// The three stores composed into one integration point for HTTP adapters.
pub struct GummaAuthEndpoint {
    pub registry: ClientRegistry,
    pub grants: GrantStore,
    pub issuer: TokenIssuer,
}

impl GummaAuthEndpoint {
    /// All three stores well formed.
    pub open spec fn wf(&self) -> bool {
        self.registry.wf() && self.grants.wf() && self.issuer.wf()
    }

    /// Composes an endpoint out of its three stores.
    pub fn new(registry: ClientRegistry, grants: GrantStore, issuer: TokenIssuer) -> (r: Self)
        ensures
            r.registry == registry,
            r.grants == grants,
            r.issuer == issuer,
    {
        GummaAuthEndpoint { registry, grants, issuer }
    }

    /// Runs one authorize request at clock reading `now`.  The outcome
    /// follows [`auth_decision`]; when the request validates, the answer
    /// turns on the solicitor: denial redirects with `access_denied`,
    /// approval records a grant with a fresh random code and redirects
    /// with it, and only a full store answers an internal error.
    pub fn authorize<S: ConsentSolicitor>(
        &mut self,
        req: &GummaAuthRequest,
        now: u64,
        solicitor: &mut S,
    ) -> (resp: GummaAuthResponse)
        requires
            old(self).wf(),
        ensures
            final(self).wf(),
            final(self).registry == old(self).registry,
            final(self).issuer == old(self).issuer,
            match auth_decision(old(self).registry, req.spec_query()) {
                AuthDecision::Refused => resp.status == Status::BadRequest && resp.location is None
                    && final(self).grants == old(self).grants,
                AuthDecision::RedirectErr { uri, error, state } => resp.status == Status::Redirect
                    && (resp.location matches Some(l) && l@ == error_redirect_chars(
                    uri,
                    error,
                    state,
                )) && final(self).grants == old(self).grants,
                AuthDecision::Proceed { client_id, redirect_uri, scope_tokens, state } => {
                    ||| (resp.status == Status::Redirect && exists|rb: int|
                        (resp.location matches Some(l) && l@ == code_redirect_chars(
                            redirect_uri,
                            code_chars(rb, old(self).grants.next_serial as int),
                            state,
                        )) && #[trigger] grant_recorded(
                            old(self).grants,
                            final(self).grants,
                            client_id,
                            redirect_uri,
                            scope_tokens,
                            now,
                            rb,
                        ))
                    ||| (resp.status == Status::Redirect && (resp.location matches Some(l) && l@
                        == error_redirect_chars(redirect_uri, AuthError::AccessDenied, state))
                        && final(self).grants == old(self).grants)
                    ||| (resp.status == Status::InternalError && resp.location is None
                        && resp.www_authenticate is None && resp.body is None && final(self).grants
                        == old(self).grants && !old(self).grants.can_issue(
                        now,
                        GRANT_TTL_SECONDS,
                    ))
                },
            },
    {
        let cr = match authorize_validate(&self.registry, req) {
            Ok(cr) => cr,
            Err(resp) => {
                return resp;
            },
        };
        let ghost cr0 = cr;
        let decision = solicitor.decide(&cr);
        let rb: u128 = rand::random();
        let resp = authorize_grant(&mut self.grants, cr, &decision, now, rb);
        proof {
            if decision is Authorized && old(self).grants.can_issue(now, GRANT_TTL_SECONDS) {
                assert(grant_recorded(
                    old(self).grants,
                    self.grants,
                    cr0.client_id@,
                    cr0.redirect_uri@,
                    cr0.scope.words(),
                    now,
                    rb as int,
                ));
            }
        }
        resp
    }

    /// Runs one token request at clock reading `now`.  The outcome follows
    /// [`crate::token_flow::token_decision`] for the randomness drawn here.
    pub fn token(&mut self, req: &GummaAuthRequest, now: u64) -> (resp: GummaAuthResponse)
        requires
            old(self).wf(),
        ensures
            final(self).wf(),
            final(self).registry == old(self).registry,
            final(self).grants.next_serial == old(self).grants.next_serial,
            exists|ra: int, rr: int|
                #[trigger] token_outcome(
                    old(self).registry,
                    old(self).grants,
                    old(self).issuer,
                    final(self).grants,
                    final(self).issuer,
                    req.spec_body(),
                    req.spec_auth(),
                    now,
                    ra,
                    rr,
                    resp,
                ),
    {
        let ra: u128 = rand::random();
        let rr: u128 = rand::random();
        let resp = token_exchange(
            &self.registry,
            &mut self.grants,
            &mut self.issuer,
            req,
            now,
            ra,
            rr,
        );
        proof {
            assert(token_outcome(
                old(self).registry,
                old(self).grants,
                old(self).issuer,
                self.grants,
                self.issuer,
                req.spec_body(),
                req.spec_auth(),
                now,
                ra as int,
                rr as int,
                resp,
            ));
        }
        resp
    }
}

/// The stock demo endpoint: a fresh grant store and token issuer over a
/// registry holding the one public client `plupp` with its redirect URI
/// and the scope `all`.
pub fn endpoint() -> (r: GummaAuthEndpoint)
    ensures
        r.wf(),
        r.grants.grants@.len() == 0,
        r.issuer.tokens@.len() == 0,
        r.registry.ids() =~= seq!["plupp"@],
        r.registry.has_client("plupp"@),
        r.registry.client_named("plupp"@).kind is Public,
        r.registry.client_named("plupp"@).uris()
            =~= seq!["http://localhost:3000/api/auth/redirect"@],
        r.registry.client_named("plupp"@).allowed_scopes.words() =~= seq!["all"@],
{
    let mut registry = ClientRegistry::new();
    let mut tokens: Vec<String> = Vec::new();
    tokens.push("all".to_owned());
    let scope = ScopeSet { tokens };
    proof {
        reveal_strlit("all");
        assert(scope.words() =~= seq!["all"@]);
        assert(crate::scope::scope_token_ok("all"@));
        assert(scope.wf());
    }
    let client = Client::public(
        "plupp".to_owned(),
        "http://localhost:3000/api/auth/redirect".to_owned(),
        scope,
    );
    proof {
        reveal_strlit("plupp");
        reveal_strlit("http://localhost:3000/api/auth/redirect");
        assert(crate::registry::uri_ok("http://localhost:3000/api/auth/redirect"@));
        assert(client.wf());
    }
    let outcome = registry.register(client);
    proof {
        assert(outcome is Ok);
        assert(registry.clients@[0].id@ == "plupp"@);
        assert(registry.client_named("plupp"@) == registry.clients@[0]);
    }
    GummaAuthEndpoint { registry, grants: GrantStore::new(), issuer: TokenIssuer::new() }
}

} // verus!
