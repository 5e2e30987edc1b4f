//! GitHub SSH-key authentication: a credentials registry worker, a verifier
//! that checks a signature against a user's published SSH key, and the
//! access control that consults the registry.
//!
//! Fetching `https://github.com/<nickname>.keys` and the message passing
//! between workers are I/O and live at the application edge; this module
//! holds the decisions: what a verifier concludes from a fetched key and a
//! proof, what the registry records and answers, and what access control
//! makes of a registry answer.

use vstd::prelude::*;

use crate::compare::{contains_string, spec_contains_string};
use crate::entity_id::EntityIdentifier;
use crate::error::{EntityError, Error};
use crate::routing::Address;
use crate::vault::ProfileVault;
use crate::worker::Worker;

verus! {

/// An error from the GitHub integration.
#[derive(Clone, Copy, Debug, PartialEq, Eq, Structural)]
pub enum GithubError {
    /// Fetching the user's published keys failed.
    HttpError,
}

/// Integer code associated with the GitHub error domain.
pub const GITHUB_DOMAIN_CODE: u32 = 22000;

impl GithubError {
    /// The code of this error within the GitHub domain.
    pub fn code(&self) -> (r: u32)
        ensures
            r == 1,
    {
        match self {
            GithubError::HttpError => 1,
        }
    }

    /// The node-level error for this error.
    pub fn to_error(&self) -> (r: Error)
        ensures
            r.code == GITHUB_DOMAIN_CODE + 1,
            r.domain@ == "OCKAM_GITHUB"@,
    {
        Error::new(GITHUB_DOMAIN_CODE + self.code(), "OCKAM_GITHUB".to_owned())
    }
}

/// The vault capabilities the GitHub integration needs of a profile vault.
pub trait GhVault: ProfileVault {

}

impl<D: ProfileVault> GhVault for D {

}

/// What the credentials registry can be asked.
#[derive(Clone, Debug, PartialEq, Eq)]
pub enum CredentialsRegistryRequest {
    /// Record that an entity proved control of these GitHub nicknames.
    AddCredential {
        /// The entity the credential belongs to.
        identifier: EntityIdentifier,
        /// The nicknames it proved.
        gh_nicknames: Vec<String>,
    },
    /// Ask whether an entity proved control of a nickname.
    CheckCredential {
        /// The entity to look up.
        identifier: EntityIdentifier,
        /// The nickname to check.
        gh_nickname: String,
    },
}

/// What the credentials registry answers.
#[derive(Clone, Debug, PartialEq, Eq)]
pub enum CredentialsRegistryResponse {
    /// The credential was recorded.
    AddCredential,
    /// Whether the entity proved control of the nickname.
    CheckCredential(bool),
}

/// One recorded credential: an entity and the nicknames it proved.
#[derive(Clone, Debug, PartialEq, Eq)]
pub struct Entry {
    /// The entity the credential belongs to.
    pub entity_identifier: EntityIdentifier,
    /// The nicknames it proved.
    pub gh_nicknames: Vec<String>,
}

/// The first recorded entry for an entity, if any.
pub open spec fn spec_find_entry(entries: Seq<Entry>, id: Seq<char>) -> Option<Entry>
    decreases entries.len(),
{
    if entries.len() == 0 {
        None
    } else if entries.first().entity_identifier.inner@ == id {
        Some(entries.first())
    } else {
        spec_find_entry(entries.drop_first(), id)
    }
}

/// Whether the registry holds a credential binding `id` to `nickname`.
pub open spec fn spec_check_credential(entries: Seq<Entry>, id: Seq<char>, nickname: Seq<char>) -> bool {
    match spec_find_entry(entries, id) {
        Some(e) => spec_contains_string(e.gh_nicknames@, nickname),
        None => false,
    }
}

/// The worker that owns the credentials registry.
pub struct CredentialsRegistryWorker {
    registry: Vec<Entry>,
}

impl View for CredentialsRegistryWorker {
    type V = Seq<Entry>;

    closed spec fn view(&self) -> Seq<Entry> {
        self.registry@
    }
}

impl Default for CredentialsRegistryWorker {
    /// A worker with an empty registry.
    fn default() -> (r: Self)
        ensures
            r@ == Seq::<Entry>::empty(),
    {
        CredentialsRegistryWorker { registry: Vec::new() }
    }
}

impl CredentialsRegistryWorker {
    /// Handle one request: record a credential, or answer a lookup against
    /// the first entry recorded for the entity. The answer goes back to the
    /// requester's return route.
    #[verifier::loop_isolation(false)]
    pub fn handle(&mut self, msg: CredentialsRegistryRequest) -> (res: CredentialsRegistryResponse)
        ensures
            match msg {
                CredentialsRegistryRequest::AddCredential { identifier, gh_nicknames } => {
                    &&& final(self)@ == old(self)@.push(
                        Entry { entity_identifier: identifier, gh_nicknames },
                    )
                    &&& res == CredentialsRegistryResponse::AddCredential
                },
                CredentialsRegistryRequest::CheckCredential { identifier, gh_nickname } => {
                    &&& final(self)@ == old(self)@
                    &&& res == CredentialsRegistryResponse::CheckCredential(
                        spec_check_credential(old(self)@, identifier.inner@, gh_nickname@),
                    )
                },
            },
    {
        match msg {
            CredentialsRegistryRequest::AddCredential { identifier, gh_nicknames } => {
                self.registry.push(Entry { entity_identifier: identifier, gh_nicknames });
                CredentialsRegistryResponse::AddCredential
            },
            CredentialsRegistryRequest::CheckCredential { identifier, gh_nickname } => {
                let n = self.registry.len();
                let mut i: usize = 0;
                proof {
                    assert(self@.skip(0) =~= self@);
                }
                while i < n
                    invariant
                        0 <= i <= n,
                        n == self@.len(),
                        spec_find_entry(self@, identifier.inner@) == spec_find_entry(
                            self@.skip(i as int),
                            identifier.inner@,
                        ),
                    decreases n - i,
                {
                    proof {
                        assert(self@.skip(i as int).first() == self@[i as int]);
                        assert(self@.skip(i as int).drop_first() =~= self@.skip(i + 1));
                    }
                    let entry = &self.registry[i];
                    if entry.entity_identifier.equals(&identifier) {
                        let found = contains_string(&entry.gh_nicknames, &gh_nickname);
                        return CredentialsRegistryResponse::CheckCredential(found);
                    }
                    i = i + 1;
                }
                CredentialsRegistryResponse::CheckCredential(false)
            },
        }
    }
}

impl Worker for CredentialsRegistryWorker {
    type Context = ();

    fn initialize(&mut self, _context: &mut ()) -> Result<(), Error> {
        Ok(())
    }

    fn shutdown(&mut self, _context: &mut ()) -> Result<(), Error> {
        Ok(())
    }
}

/// What the SSH verifier can be asked: check a proof for a nickname.
#[derive(Clone, Debug, PartialEq, Eq)]
pub enum GithubSshVerifierRequest {
    /// Verify that `proof` was produced by a key published for `nickname`.
    Verify {
        /// The GitHub nickname whose published keys authenticate the proof.
        nickname: String,
        /// The signature presented as proof.
        proof: Vec<u8>,
    },
}

/// What the SSH verifier answers.
#[derive(Clone, Debug, PartialEq, Eq)]
pub enum GithubSshVerifierResponse {
    /// Whether the proof checked out.
    Verify(bool),
}

/// The authentication hash the proof is taken over. The secure-channel hash
/// is not yet threaded through to this worker, so a fixed placeholder is
/// used on both the signing and the verifying side.
pub open spec fn spec_auth_hash() -> Seq<u8> {
    Seq::new(32, |i: int| 0u8)
}

/// Executable counterpart of [`spec_auth_hash`].
pub fn auth_hash_placeholder() -> (r: Vec<u8>)
    ensures
        r@ == spec_auth_hash(),
{
    let mut v: Vec<u8> = Vec::new();
    let mut i: usize = 0;
    while i < 32
        invariant
            0 <= i <= 32,
            v@.len() == i,
            forall|j: int| 0 <= j < i ==> v@[j] == 0u8,
        decreases 32 - i,
    {
        v.push(0u8);
        i = i + 1;
    }
    proof {
        assert(v@ =~= spec_auth_hash());
    }
    v
}

/// The worker that verifies GitHub SSH proofs and records the result with
/// the credentials registry.
pub struct GithubSshVerifier<V: GhVault> {
    /// Where the credentials registry lives.
    pub registry_address: Address,
    /// The vault used to check signatures.
    pub vault: V,
}

impl<V: GhVault> GithubSshVerifier<V> {
    /// A verifier that reports to the registry at `registry_address`.
    pub fn new(registry_address: Address, vault: V) -> (r: Self)
        ensures
            r.registry_address == registry_address,
            r.vault == vault,
    {
        GithubSshVerifier { registry_address, vault }
    }

    /// Decide on one verification request, given the public key already
    /// extracted from the nickname's published keys (fetching them is I/O
    /// and happens at the application edge).
    ///
    /// Returns the registry request to send — the credential is recorded
    /// whatever the verdict, as the registry keeps the verdict alongside —
    /// and the response for the requester.
    pub fn process(
        &mut self,
        their_profile_id: EntityIdentifier,
        nickname: String,
        public_key: &[u8],
        proof: &[u8],
    ) -> (r: Result<(CredentialsRegistryRequest, GithubSshVerifierResponse), EntityError>)
        ensures
            r matches Ok((req, resp)) ==> ({
                &&& req matches CredentialsRegistryRequest::AddCredential {
                    identifier,
                    gh_nicknames,
                } && identifier == their_profile_id && gh_nicknames@.len() == 1
                    && gh_nicknames@[0] == nickname
                &&& resp == GithubSshVerifierResponse::Verify(
                    V::verify_spec(proof@, public_key@, spec_auth_hash()),
                )
            }),
    {
        let auth_hash = auth_hash_placeholder();
        let res = match self.vault.verify(proof, public_key, auth_hash.as_slice()) {
            Ok(b) => b,
            Err(e) => {
                return Err(e);
            },
        };
        let mut gh_nicknames: Vec<String> = Vec::new();
        gh_nicknames.push(nickname);
        let req = CredentialsRegistryRequest::AddCredential {
            identifier: their_profile_id,
            gh_nicknames,
        };
        Ok((req, GithubSshVerifierResponse::Verify(res)))
    }
}

impl<V: GhVault> Worker for GithubSshVerifier<V> {
    type Context = ();

    fn initialize(&mut self, _context: &mut ()) -> Result<(), Error> {
        Ok(())
    }

    fn shutdown(&mut self, _context: &mut ()) -> Result<(), Error> {
        Ok(())
    }
}

/// The client side of GitHub SSH authentication: it signs the
/// authentication hash with the entity's key and presents the proof to a
/// verifier.
pub struct GithubSshAuth<V: GhVault> {
    /// The vault holding the entity's keys.
    pub vault: V,
}

impl<V: GhVault> GithubSshAuth<V> {
    /// A client around a vault.
    pub fn new(vault: V) -> (r: Self)
        ensures
            r.vault == vault,
    {
        GithubSshAuth { vault }
    }

    /// Build the verification request that presents this entity's
    /// credential: a proof signed with `key` over the authentication hash.
    /// Sending it down the verifier route is the application's part.
    pub fn make_presentation(&mut self, nickname: String, key: &[u8]) -> (r: Result<
        GithubSshVerifierRequest,
        EntityError,
    >)
        ensures
            r matches Ok(req) ==> req matches GithubSshVerifierRequest::Verify { nickname: n, proof }
                && n == nickname && proof@ == V::sign_spec(key@, spec_auth_hash()),
    {
        let auth_hash = auth_hash_placeholder();
        let proof = match self.vault.sign(key, auth_hash.as_slice()) {
            Ok(p) => p,
            Err(e) => {
                return Err(e);
            },
        };
        Ok(GithubSshVerifierRequest::Verify { nickname, proof })
    }

    /// Read the verifier's verdict out of its response.
    pub fn take_verify_response(resp: GithubSshVerifierResponse) -> (r: bool)
        ensures
            resp == GithubSshVerifierResponse::Verify(r),
    {
        match resp {
            GithubSshVerifierResponse::Verify(res) => res,
        }
    }
}

/// Access control that lets a message through only when its sender proved
/// control of the allowed GitHub nickname.
pub struct GithubSshAccessControl {
    /// The nickname whose owner is allowed through.
    pub allowed_nickname: String,
    /// Where the credentials registry lives.
    pub registry_address: Address,
}

impl GithubSshAccessControl {
    /// Access control for one allowed nickname, consulting the registry at
    /// `registry_address`.
    pub fn new(allowed_nickname: String, registry_address: Address) -> (r: Self)
        ensures
            r.allowed_nickname == allowed_nickname,
            r.registry_address == registry_address,
    {
        GithubSshAccessControl { allowed_nickname, registry_address }
    }

    /// The registry lookup for a message whose sender is `identifier`.
    pub fn check_request(&self, identifier: EntityIdentifier) -> (r: CredentialsRegistryRequest)
        ensures
            r matches CredentialsRegistryRequest::CheckCredential { identifier: i, gh_nickname }
                && i == identifier && gh_nickname == self.allowed_nickname,
    {
        CredentialsRegistryRequest::CheckCredential {
            identifier,
            gh_nickname: self.allowed_nickname.clone(),
        }
    }

    /// Whether the registry's answer authorizes the message. Only a
    /// `CheckCredential` answer can arrive here: the registry answers
    /// lookups with lookups' answers.
    pub fn interpret_response(response: CredentialsRegistryResponse) -> (r: bool)
        requires
            response is CheckCredential,
        ensures
            response == CredentialsRegistryResponse::CheckCredential(r),
    {
        match response {
            CredentialsRegistryResponse::CheckCredential(b) => b,
            CredentialsRegistryResponse::AddCredential => false,
        }
    }
}

} // verus!
