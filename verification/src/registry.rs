//! The client registry: the set of registered OAuth clients.
//!
//! A client is either public or confidential; a confidential client carries
//! the credential bytes the operator registered for it (a hash, if the
//! operator stores hashes), and is authenticated by a constant-time
//! comparison against them.  Redirect URIs are matched exactly, character
//! for character: a mismatch fails closed.

use crate::scope::ScopeSet;
use vstd::prelude::*;
use vstd::string::StringSliceAdditionalSpecFns;

verus! {

/// A character a registered redirect URI may contain: printable ASCII
/// without space or the fragment marker.
pub open spec fn uri_char_ok(c: char) -> bool {
    0x21 <= c as u32 && c as u32 <= 0x7e && c != '#'
}

/// A well-formed redirect URI for registration purposes.
pub open spec fn uri_ok(u: Seq<char>) -> bool {
    u.len() > 0 && (forall|i: int| 0 <= i < u.len() ==> uri_char_ok(u[i]))
}

/// Decides [`uri_ok`].
pub fn uri_wellformed(u: &str) -> (r: bool)
    ensures
        r == uri_ok(u@),
{
    let n = u.unicode_len();
    if n == 0 {
        return false;
    }
    for i in 0..n
        invariant
            n == u@.len(),
            forall|j: int| 0 <= j < i ==> uri_char_ok(u@[j]),
    {
        let c = u.get_char(i);
        let v = c as u32;
        if !(0x21 <= v && v <= 0x7e) || c == '#' {
            return false;
        }
    }
    true
}

/// Whether a client authenticates with a credential or by identity alone.
pub enum ClientKind {
    Public,
    Confidential { credential: Vec<u8> },
}

/// One registered client.
pub struct Client {
    pub id: String,
    pub kind: ClientKind,
    pub redirect_uris: Vec<String>,
    pub allowed_scopes: ScopeSet,
}

impl Client {
    /// The registered redirect URIs as character sequences.
    pub open spec fn uris(&self) -> Seq<Seq<char>> {
        self.redirect_uris@.map_values(|s: String| s@)
    }

    /// A registrable client: nonempty id, well-formed URIs, well-formed scopes.
    pub open spec fn wf(&self) -> bool {
        &&& self.id@.len() > 0
        &&& forall|i: int| 0 <= i < self.uris().len() ==> uri_ok(#[trigger] self.uris()[i])
        &&& self.allowed_scopes.wf()
    }

    /// A public client with one registered redirect URI.
    pub fn public(id: String, redirect_uri: String, allowed_scopes: ScopeSet) -> (r: Client)
        ensures
            r.id@ == id@,
            r.kind is Public,
            r.uris() =~= seq![redirect_uri@],
            r.allowed_scopes == allowed_scopes,
    {
        let mut redirect_uris: Vec<String> = Vec::new();
        redirect_uris.push(redirect_uri);
        Client { id, kind: ClientKind::Public, redirect_uris, allowed_scopes }
    }

    /// A confidential client with one registered redirect URI and the
    /// credential bytes it must present.
    pub fn confidential(
        id: String,
        redirect_uri: String,
        allowed_scopes: ScopeSet,
        credential: Vec<u8>,
    ) -> (r: Client)
        ensures
            r.id@ == id@,
            r.kind matches ClientKind::Confidential { credential: c } && c@ == credential@,
            r.uris() =~= seq![redirect_uri@],
            r.allowed_scopes == allowed_scopes,
    {
        let mut redirect_uris: Vec<String> = Vec::new();
        redirect_uris.push(redirect_uri);
        Client { id, kind: ClientKind::Confidential { credential }, redirect_uris, allowed_scopes }
    }

    /// Decides [`Client::wf`].
    pub fn wf_check(&self) -> (r: bool)
        ensures
            r == self.wf(),
    {
        if self.id.as_str().unicode_len() == 0 {
            return false;
        }
        let n = self.redirect_uris.len();
        for i in 0..n
            invariant
                n == self.redirect_uris.len(),
                forall|j: int| 0 <= j < i ==> uri_ok(#[trigger] self.uris()[j]),
        {
            if !uri_wellformed(self.redirect_uris[i].as_str()) {
                assert(!uri_ok(self.uris()[i as int]));
                return false;
            }
        }
        self.allowed_scopes.wf_check()
    }
}

/// Why a registration was refused.
#[derive(Clone, Copy, PartialEq, Eq, Structural, Debug)]
pub enum RegisterError {
    DuplicateClient,
    MalformedClient,
}

/// Compares two byte strings of equal length without an early exit, so the
/// time taken does not depend on where they first differ.
pub fn bytes_ct_eq(a: &[u8], b: &[u8]) -> (r: bool)
    ensures
        r == (a@ == b@),
{
    if a.len() != b.len() {
        proof {
            assert(a@ != b@);
        }
        return false;
    }
    let n = a.len();
    let mut diff: u8 = 0;
    for i in 0..n
        invariant
            n == a@.len(),
            n == b@.len(),
            (diff == 0) == (forall|j: int| 0 <= j < i ==> a@[j] == b@[j]),
    {
        let x = a[i];
        let y = b[i];
        let d = x ^ y;
        proof {
            assert((x ^ y == 0) == (x == y)) by (bit_vector);
            assert(((diff | d) == 0) == (diff == 0 && d == 0)) by (bit_vector);
        }
        diff = diff | d;
    }
    proof {
        if diff == 0 {
            assert(a@ =~= b@);
        }
    }
    diff == 0
}

/// Compares two strings by contents without an early exit, through their
/// UTF-8 bytes; equal byte strings decode to equal character strings.
pub fn str_ct_eq(a: &str, b: &str) -> (r: bool)
    ensures
        r == (a@ == b@),
{
    let r = bytes_ct_eq(a.as_bytes(), b.as_bytes());
    proof {
        if a.spec_bytes() == b.spec_bytes() {
            vstd::utf8::encode_utf8_decode_utf8(a@);
            vstd::utf8::encode_utf8_decode_utf8(b@);
        }
    }
    r
}

/// The registry of all registered clients, keyed by their unique ids.
pub struct ClientRegistry {
    pub clients: Vec<Client>,
}

impl ClientRegistry {
    /// The registered ids, in registration order.
    pub open spec fn ids(&self) -> Seq<Seq<char>> {
        self.clients@.map_values(|c: Client| c.id@)
    }

    /// Every client registrable, every id unique.
    pub open spec fn wf(&self) -> bool {
        &&& forall|i: int| 0 <= i < self.clients@.len() ==> (#[trigger] self.clients@[i]).wf()
        &&& forall|i: int, j: int| 0 <= i < j < self.clients@.len() ==> self.ids()[i] != self.ids()[j]
    }

    /// Whether some client carries the id.
    pub open spec fn has_client(&self, id: Seq<char>) -> bool {
        exists|i: int| 0 <= i < self.clients@.len() && (#[trigger] self.clients@[i]).id@ == id
    }

    /// The client carrying the id; meaningful when [`Self::has_client`].
    pub open spec fn client_named(&self, id: Seq<char>) -> Client {
        self.clients@[choose|i: int|
            0 <= i < self.clients@.len() && (#[trigger] self.clients@[i]).id@ == id]
    }

    /// An empty registry.
    pub fn new() -> (r: Self)
        ensures
            r.wf(),
            r.clients@ =~= Seq::<Client>::empty(),
    {
        ClientRegistry { clients: Vec::new() }
    }

    /// Registers a client: refused iff the id is already taken (first) or
    /// the client is not registrable.
    pub fn register(&mut self, client: Client) -> (r: Result<(), RegisterError>)
        requires
            old(self).wf(),
        ensures
            final(self).wf(),
            r == Err::<(), RegisterError>(RegisterError::DuplicateClient) <==> old(
                self,
            ).has_client(client.id@),
            r == Err::<(), RegisterError>(RegisterError::MalformedClient) <==> (!old(
                self,
            ).has_client(client.id@) && !client.wf()),
            r is Ok <==> (!old(self).has_client(client.id@) && client.wf()),
            r is Ok ==> final(self).clients@ =~= old(self).clients@.push(client),
            r is Err ==> *final(self) == *old(self),
    {
        let n = self.clients.len();
        for i in 0..n
            invariant
                n == self.clients.len(),
                *self == *old(self),
                old(self).wf(),
                forall|j: int| 0 <= j < i ==> (#[trigger] self.clients@[j]).id@ != client.id@,
        {
            if crate::text::str_eq(self.clients[i].id.as_str(), client.id.as_str()) {
                return Err(RegisterError::DuplicateClient);
            }
        }
        if !client.wf_check() {
            return Err(RegisterError::MalformedClient);
        }
        let ghost before = *self;
        self.clients.push(client);
        proof {
            assert forall|i: int, j: int|
                0 <= i < j < self.clients@.len() implies self.ids()[i] != self.ids()[j] by {
                if j < self.clients@.len() - 1 {
                    assert(before.ids()[i] != before.ids()[j]);
                }
            }
        }
        Ok(())
    }

    /// Looks a client up by id.
    pub fn lookup<'a>(&'a self, id: &str) -> (r: Option<&'a Client>)
        requires
            self.wf(),
        ensures
            (r is Some) == self.has_client(id@),
            r matches Some(c) ==> *c == self.client_named(id@) && c.wf(),
    {
        let n = self.clients.len();
        for i in 0..n
            invariant
                self.wf(),
                n == self.clients.len(),
                forall|j: int| 0 <= j < i ==> (#[trigger] self.clients@[j]).id@ != id@,
        {
            if crate::text::str_eq(self.clients[i].id.as_str(), id) {
                proof {
                    let k = choose|k: int|
                        0 <= k < self.clients@.len() && (#[trigger] self.clients@[k]).id@ == id@;
                    assert(self.ids()[k] == id@ && self.ids()[i as int] == id@);
                    assert(k == i as int);
                }
                return Some(&self.clients[i]);
            }
        }
        None
    }

    /// Authenticates a confidential client: true iff the id is registered
    /// as confidential and the presented credential equals the stored one.
    /// Public clients carry no credential and never authenticate this way.
    pub fn authenticate(&self, id: &str, credential: &[u8]) -> (r: bool)
        requires
            self.wf(),
        ensures
            r == (self.has_client(id@) && match self.client_named(id@).kind {
                ClientKind::Confidential { credential: c } => c@ == credential@,
                ClientKind::Public => false,
            }),
    {
        match self.lookup(id) {
            Some(client) => match &client.kind {
                ClientKind::Confidential { credential: stored } => bytes_ct_eq(
                    stored.as_slice(),
                    credential,
                ),
                ClientKind::Public => false,
            },
            None => false,
        }
    }

    /// True iff the id is registered and `uri` exactly equals one of that
    /// client's registered redirect URIs.
    pub fn validate_redirect_uri(&self, id: &str, uri: &str) -> (r: bool)
        requires
            self.wf(),
        ensures
            r == (self.has_client(id@) && self.client_named(id@).uris().contains(uri@)),
    {
        match self.lookup(id) {
            Some(client) => {
                let n = client.redirect_uris.len();
                for i in 0..n
                    invariant
                        n == client.redirect_uris.len(),
                        self.wf(),
                        self.has_client(id@),
                        *client == self.client_named(id@),
                        forall|j: int| 0 <= j < i ==> client.uris()[j] != uri@,
                {
                    if crate::text::str_eq(client.redirect_uris[i].as_str(), uri) {
                        assert(client.uris()[i as int] == uri@);
                        return true;
                    }
                }
                proof {
                    if client.uris().contains(uri@) {
                        let j = choose|j: int|
                            0 <= j < client.uris().len() && client.uris()[j] == uri@;
                        assert(client.uris()[j] == uri@);
                    }
                }
                false
            },
            None => false,
        }
    }

    /// Returns the requested scope itself iff the id is registered and the
    /// request is a subset of that client's allowed scopes; `None` otherwise.
    pub fn validate_scope(&self, id: &str, requested: &ScopeSet) -> (r: Option<ScopeSet>)
        requires
            self.wf(),
        ensures
            (r is Some) == (self.has_client(id@) && requested@.subset_of(
                self.client_named(id@).allowed_scopes@,
            )),
            r matches Some(sc) ==> sc.words() =~= requested.words() && sc@ =~= requested@
                && sc.wf() == requested.wf(),
    {
        match self.lookup(id) {
            Some(client) => {
                if requested.subset_of(&client.allowed_scopes) {
                    Some(requested.duplicate())
                } else {
                    None
                }
            },
            None => None,
        }
    }
}

} // verus!
