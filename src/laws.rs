//! Properties of the registry that relate several operations, stated over
//! the model that the operations' contracts speak of.
use vstd::prelude::*;

use crate::digest::token_preimage;
use crate::registry::{RegistryError, RegistryModel};

verus! {

/// Initializing twice: the second call fails with `AlreadyInitialized` and
/// leaves the state as the first call left it.
pub proof fn lemma_initialize_once(m: RegistryModel, first: Seq<u8>, second: Seq<u8>)
    ensures
        ({
            let after_first = m.initialize_step(first).0;
            after_first.initialize_step(second) == (after_first, Err::<(), RegistryError>(
                RegistryError::AlreadyInitialized,
            ))
        }),
{
}

/// Once an identity has been issued a credential, a further issue to it by
/// the admin fails with `AlreadyHasCredential` and changes nothing, so the
/// first credential's metadata stays as it was.
pub proof fn lemma_single_credential(
    m: RegistryModel,
    issuer_is_admin: bool,
    to: Seq<u8>,
    name: Seq<char>,
    description: Seq<char>,
    image_url: Seq<char>,
    timestamp: u64,
    name2: Seq<char>,
    description2: Seq<char>,
    image_url2: Seq<char>,
    timestamp2: u64,
)
    requires
        m.issue_step(issuer_is_admin, to, name, description, image_url, timestamp).1 is Ok,
    ensures
        ({
            let after = m.issue_step(issuer_is_admin, to, name, description, image_url, timestamp).0;
            after.issue_step(true, to, name2, description2, image_url2, timestamp2) == (
                after,
                Err::<Seq<u8>, RegistryError>(RegistryError::AlreadyHasCredential),
            )
        }),
{
}

/// An identity that holds a credential cannot be issued another: the admin's
/// attempt fails with `AlreadyHasCredential` and changes nothing.
pub proof fn lemma_bound_identity_not_reissued(
    m: RegistryModel,
    to: Seq<u8>,
    name: Seq<char>,
    description: Seq<char>,
    image_url: Seq<char>,
    timestamp: u64,
)
    requires
        m.token_of.contains_key(to),
    ensures
        m.issue_step(true, to, name, description, image_url, timestamp) == (
            m,
            Err::<Seq<u8>, RegistryError>(RegistryError::AlreadyHasCredential),
        ),
{
}

/// No operation removes or rebinds the credential of an identity: whatever
/// token an identity holds, it holds after every issue, revoke, reactivate
/// and initialize.
pub proof fn lemma_bindings_persist(
    m: RegistryModel,
    who: Seq<u8>,
    caller_is_admin: bool,
    other: Seq<u8>,
    name: Seq<char>,
    description: Seq<char>,
    image_url: Seq<char>,
    timestamp: u64,
    admin: Seq<u8>,
)
    requires
        m.token_of.contains_key(who),
    ensures
        ({
            let after_issue = m.issue_step(caller_is_admin, other, name, description, image_url, timestamp).0;
            let after_revoke = m.revoke_step(caller_is_admin, other).0;
            let after_reactivate = m.reactivate_step(caller_is_admin, other).0;
            let after_initialize = m.initialize_step(admin).0;
            &&& after_issue.token_of.contains_key(who) && after_issue.token_of[who] == m.token_of[who]
            &&& after_revoke.token_of.contains_key(who) && after_revoke.token_of[who] == m.token_of[who]
            &&& after_reactivate.token_of.contains_key(who) && after_reactivate.token_of[who] == m.token_of[who]
            &&& after_initialize.token_of.contains_key(who) && after_initialize.token_of[who] == m.token_of[who]
        }),
{
}

/// Two distinct identities given a credential of the same name at the same
/// time hash different inputs to derive their token identifiers.
pub proof fn lemma_distinct_owners_distinct_preimages(
    a: Seq<u8>,
    b: Seq<u8>,
    name: Seq<char>,
    timestamp: u64,
)
    requires
        a != b,
    ensures
        token_preimage(a, name, timestamp) != token_preimage(b, name, timestamp),
{
    let pa = token_preimage(a, name, timestamp);
    let pb = token_preimage(b, name, timestamp);
    let tail = token_preimage(Seq::empty(), name, timestamp);
    assert(pa =~= a + tail);
    assert(pb =~= b + tail);
    if pa == pb {
        assert(a.len() == b.len());
        assert(a =~= pa.subrange(0, a.len() as int));
        assert(b =~= pb.subrange(0, b.len() as int));
    }
}

/// Access follows liveness: right after an issue the holder has access, after
/// a revoke they do not, after a reactivate they do again; throughout, the
/// credential's metadata changes in its liveness flag alone.
pub proof fn lemma_access_follows_liveness(
    m: RegistryModel,
    to: Seq<u8>,
    name: Seq<char>,
    description: Seq<char>,
    image_url: Seq<char>,
    timestamp: u64,
)
    requires
        m.issue_step(true, to, name, description, image_url, timestamp).1 is Ok,
    ensures
        ({
            let issued = m.issue_step(true, to, name, description, image_url, timestamp).0;
            let revoked = issued.revoke_step(true, to).0;
            let reactivated = revoked.reactivate_step(true, to).0;
            &&& issued.access_of(to)
            &&& !revoked.access_of(to)
            &&& reactivated.access_of(to)
            &&& issued.metadata_for(to) is Some
            &&& revoked.metadata_for(to) == Some(issued.metadata_for(to).unwrap().with_active(false))
            &&& reactivated.metadata_for(to) == Some(issued.metadata_for(to).unwrap().with_active(true))
            &&& revoked.token_of == issued.token_of
            &&& reactivated.token_of == issued.token_of
            &&& revoked.owner_of == issued.owner_of
            &&& reactivated.owner_of == issued.owner_of
        }),
{
}

/// A caller who is not the admin is refused with `Unauthorized` by issue,
/// revoke and reactivate, and the state does not change.
pub proof fn lemma_unauthorized_changes_nothing(
    m: RegistryModel,
    who: Seq<u8>,
    name: Seq<char>,
    description: Seq<char>,
    image_url: Seq<char>,
    timestamp: u64,
)
    ensures
        m.issue_step(false, who, name, description, image_url, timestamp) == (
            m,
            Err::<Seq<u8>, RegistryError>(RegistryError::Unauthorized),
        ),
        m.revoke_step(false, who) == (m, Err::<(), RegistryError>(RegistryError::Unauthorized)),
        m.reactivate_step(false, who) == (m, Err::<(), RegistryError>(
            RegistryError::Unauthorized,
        )),
{
}

/// An identity that was never issued a credential has no access and no
/// metadata; neither query fails.
pub proof fn lemma_absent_identity(m: RegistryModel, who: Seq<u8>)
    requires
        !m.token_of.contains_key(who),
    ensures
        !m.access_of(who),
        m.metadata_for(who) is None,
{
}

} // verus!
