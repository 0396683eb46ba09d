//! The credential registry: who the admin is, which token each identity
//! holds, who owns each token, and each token's metadata.
use vstd::prelude::*;
use vstd::slice::slice_to_vec;
use vstd::utf8::encode_utf8;

use crate::digest::{derive_token_id, token_id_of, MAX_PREIMAGE_LEN};
use crate::store::ByteMap;

verus! {

/// Why an operation of the registry was refused.
#[derive(Clone, Copy, Debug, PartialEq, Eq, Structural)]
pub enum RegistryError {
    AlreadyInitialized,
    Unauthorized,
    AlreadyHasCredential,
    NoCredential,
}

/// An identity, held as its encoded form (the bytes its address serializes to).
#[derive(Debug)]
pub struct Identity {
    pub encoded: Vec<u8>,
}

impl View for Identity {
    type V = Seq<u8>;

    open spec fn view(&self) -> Seq<u8> {
        self.encoded@
    }
}

impl Identity {
    pub fn new(encoded: Vec<u8>) -> (r: Identity)
        ensures
            r@ == encoded@,
    {
        Identity { encoded }
    }

    pub fn duplicate(&self) -> (r: Identity)
        ensures
            r@ == self@,
    {
        Identity { encoded: slice_to_vec(self.encoded.as_slice()) }
    }
}

/// The metadata of a credential.
#[derive(Clone, Debug, PartialEq, Eq)]
pub struct NftMetadata {
    pub name: String,
    pub description: String,
    pub image_url: String,
    pub is_active: bool,
}

/// The metadata of a credential as mathematical values.
pub struct MetadataView {
    pub name: Seq<char>,
    pub description: Seq<char>,
    pub image_url: Seq<char>,
    pub is_active: bool,
}

impl View for NftMetadata {
    type V = MetadataView;

    open spec fn view(&self) -> MetadataView {
        MetadataView {
            name: self.name@,
            description: self.description@,
            image_url: self.image_url@,
            is_active: self.is_active,
        }
    }
}

impl MetadataView {
    /// The same metadata with its liveness flag set to `active`.
    pub open spec fn with_active(self, active: bool) -> MetadataView {
        MetadataView {
            name: self.name,
            description: self.description,
            image_url: self.image_url,
            is_active: active,
        }
    }
}

impl NftMetadata {
    pub fn new(name: String, description: String, image_url: String, is_active: bool) -> (r:
        NftMetadata)
        ensures
            r@ == (MetadataView { name: name@, description: description@, image_url: image_url@, is_active }),
    {
        NftMetadata { name, description, image_url, is_active }
    }

    /// A copy of this metadata with its liveness flag set to `active`.
    pub fn with_active(&self, active: bool) -> (r: NftMetadata)
        ensures
            r@ == self@.with_active(active),
    {
        NftMetadata {
            name: self.name.clone(),
            description: self.description.clone(),
            image_url: self.image_url.clone(),
            is_active: active,
        }
    }
}

/// The state of the registry as mathematical values. Identities and token
/// identifiers are byte strings.
pub struct RegistryModel {
    pub admin: Option<Seq<u8>>,
    /// token identifier -> owning identity
    pub owner_of: Map<Seq<u8>, Seq<u8>>,
    /// identity -> token identifier
    pub token_of: Map<Seq<u8>, Seq<u8>>,
    /// token identifier -> metadata
    pub metadata_of: Map<Seq<u8>, MetadataView>,
}

impl RegistryModel {
    /// A registry with no admin and no credentials.
    pub open spec fn empty() -> RegistryModel {
        RegistryModel {
            admin: None,
            owner_of: Map::empty(),
            token_of: Map::empty(),
            metadata_of: Map::empty(),
        }
    }

    /// Every token bound to an identity has an owner record and metadata.
    pub open spec fn is_valid(self) -> bool {
        forall|who: Seq<u8>| #[trigger]
            self.token_of.contains_key(who) ==> {
                &&& self.owner_of.contains_key(self.token_of[who])
                &&& self.metadata_of.contains_key(self.token_of[who])
            }
    }

    pub open spec fn is_initialized(self) -> bool {
        self.admin is Some
    }

    /// Whether `who` holds a credential that is active.
    pub open spec fn access_of(self, who: Seq<u8>) -> bool {
        self.token_of.contains_key(who) && self.metadata_of[self.token_of[who]].is_active
    }

    /// The metadata of the credential bound to `who`, if any.
    pub open spec fn metadata_for(self, who: Seq<u8>) -> Option<MetadataView> {
        if self.token_of.contains_key(who) {
            Some(self.metadata_of[self.token_of[who]])
        } else {
            None
        }
    }

    /// Sets the admin once; a second attempt changes nothing.
    pub open spec fn initialize_step(self, admin: Seq<u8>) -> (RegistryModel, Result<(), RegistryError>) {
        if self.admin is Some {
            (self, Err(RegistryError::AlreadyInitialized))
        } else {
            (RegistryModel { admin: Some(admin), ..self }, Ok(()))
        }
    }

    /// Issues a credential to `to`, active, under the token identifier
    /// derived from `to`, `name` and `timestamp`.
    pub open spec fn issue_step(
        self,
        caller_is_admin: bool,
        to: Seq<u8>,
        name: Seq<char>,
        description: Seq<char>,
        image_url: Seq<char>,
        timestamp: u64,
    ) -> (RegistryModel, Result<Seq<u8>, RegistryError>) {
        if !caller_is_admin {
            (self, Err(RegistryError::Unauthorized))
        } else if self.token_of.contains_key(to) {
            (self, Err(RegistryError::AlreadyHasCredential))
        } else {
            let id = token_id_of(to, name, timestamp);
            let meta = MetadataView { name, description, image_url, is_active: true };
            (
                RegistryModel {
                    admin: self.admin,
                    owner_of: self.owner_of.insert(id, to),
                    token_of: self.token_of.insert(to, id),
                    metadata_of: self.metadata_of.insert(id, meta),
                },
                Ok(id),
            )
        }
    }

    /// Sets the liveness flag of the credential bound to `who`.
    pub open spec fn set_active_step(self, caller_is_admin: bool, who: Seq<u8>, active: bool) -> (
        RegistryModel,
        Result<(), RegistryError>,
    ) {
        if !caller_is_admin {
            (self, Err(RegistryError::Unauthorized))
        } else if !self.token_of.contains_key(who) {
            (self, Err(RegistryError::NoCredential))
        } else {
            let id = self.token_of[who];
            (
                RegistryModel {
                    metadata_of: self.metadata_of.insert(id, self.metadata_of[id].with_active(active)),
                    ..self
                },
                Ok(()),
            )
        }
    }

    pub open spec fn revoke_step(self, caller_is_admin: bool, who: Seq<u8>) -> (
        RegistryModel,
        Result<(), RegistryError>,
    ) {
        self.set_active_step(caller_is_admin, who, false)
    }

    pub open spec fn reactivate_step(self, caller_is_admin: bool, who: Seq<u8>) -> (
        RegistryModel,
        Result<(), RegistryError>,
    ) {
        self.set_active_step(caller_is_admin, who, true)
    }
}

/// A token identifier result as mathematical values.
pub open spec fn token_result_view(r: Result<[u8; 32], RegistryError>) -> Result<Seq<u8>, RegistryError> {
    match r {
        Ok(id) => Ok(id@),
        Err(e) => Err(e),
    }
}

/// An optional metadata record as mathematical values.
pub open spec fn metadata_option_view(r: Option<NftMetadata>) -> Option<MetadataView> {
    match r {
        Some(m) => Some(m@),
        None => None,
    }
}

/// The credential registry.
pub struct AccessNftContract {
    admin: Option<Identity>,
    nft_owner: ByteMap<Identity>,
    owner_nft: ByteMap<[u8; 32]>,
    nft_metadata: ByteMap<NftMetadata>,
}

impl View for AccessNftContract {
    type V = RegistryModel;

    closed spec fn view(&self) -> RegistryModel {
        RegistryModel {
            admin: match self.admin {
                Some(a) => Some(a@),
                None => None,
            },
            owner_of: self.nft_owner@,
            token_of: self.owner_nft@,
            metadata_of: self.nft_metadata@,
        }
    }
}

impl AccessNftContract {
    pub closed spec fn wf(&self) -> bool {
        &&& self.nft_owner.wf()
        &&& self.owner_nft.wf()
        &&& self.nft_metadata.wf()
        &&& self@.is_valid()
    }

    /// An empty registry, with no admin yet.
    pub fn new() -> (r: AccessNftContract)
        ensures
            r.wf(),
            r@ == RegistryModel::empty(),
    {
        let r = AccessNftContract {
            admin: None,
            nft_owner: ByteMap::new(),
            owner_nft: ByteMap::new(),
            nft_metadata: ByteMap::new(),
        };
        assert(r@.owner_of == Map::<Seq<u8>, Seq<u8>>::empty());
        r
    }

    pub fn is_initialized(&self) -> (r: bool)
        ensures
            r == self@.is_initialized(),
    {
        self.admin.is_some()
    }

    /// The admin identity, once set.
    pub fn admin(&self) -> (r: Option<&Identity>)
        ensures
            r is Some == self@.admin is Some,
            r matches Some(a) ==> self@.admin == Some(a@),
    {
        match &self.admin {
            Some(a) => Some(a),
            None => None,
        }
    }

    /// Sets the admin, which may be done once only.
    pub fn initialize(&mut self, admin: Identity) -> (r: Result<(), RegistryError>)
        requires
            old(self).wf(),
        ensures
            final(self).wf(),
            (final(self)@, r) == old(self)@.initialize_step(admin@),
    {
        if self.admin.is_some() {
            return Err(RegistryError::AlreadyInitialized);
        }
        self.admin = Some(admin);
        assert(self@.token_of == old(self)@.token_of);
        assert(self@.owner_of == old(self)@.owner_of);
        assert(self@.metadata_of == old(self)@.metadata_of);
        Ok(())
    }

    /// Issues a credential to `to`. Only the admin may issue, and an identity
    /// holds at most one credential. The token identifier is the SHA-256
    /// digest of `to`'s encoding, the UTF-8 bytes of `name` and the
    /// big-endian `timestamp`; the credential starts active.
    pub fn mint_nft(
        &mut self,
        caller_is_admin: bool,
        to: Identity,
        name: String,
        description: String,
        image_url: String,
        timestamp: u64,
    ) -> (r: Result<[u8; 32], RegistryError>)
        requires
            old(self).wf(),
            old(self)@.is_initialized(),
            to@.len() + encode_utf8(name@).len() + 8 <= MAX_PREIMAGE_LEN,
        ensures
            final(self).wf(),
            (final(self)@, token_result_view(r)) == old(self)@.issue_step(
                caller_is_admin,
                to@,
                name@,
                description@,
                image_url@,
                timestamp,
            ),
    {
        if !caller_is_admin {
            return Err(RegistryError::Unauthorized);
        }
        if self.owner_nft.contains_key(to.encoded.as_slice()) {
            return Err(RegistryError::AlreadyHasCredential);
        }
        let id = derive_token_id(to.encoded.as_slice(), name.as_str(), timestamp);
        self.nft_owner.insert(slice_to_vec(id.as_slice()), to.duplicate());
        self.owner_nft.insert(to.encoded, id);
        let meta = NftMetadata::new(name, description, image_url, true);
        self.nft_metadata.insert(slice_to_vec(id.as_slice()), meta);
        Ok(id)
    }

    /// Whether `user` holds a credential that is active.
    pub fn has_access(&self, user: &Identity) -> (r: bool)
        requires
            self.wf(),
        ensures
            r == self@.access_of(user@),
    {
        match self.owner_nft.get(user.encoded.as_slice()) {
            Some(id) => match self.nft_metadata.get(id.as_slice()) {
                Some(meta) => meta.is_active,
                None => false,
            },
            None => false,
        }
    }

    /// The identity that owns the token `id`, if any.
    pub fn get_owner(&self, id: &[u8; 32]) -> (r: Option<Identity>)
        requires
            self.wf(),
        ensures
            r is Some == self@.owner_of.contains_key(id@),
            r matches Some(who) ==> who@ == self@.owner_of[id@],
    {
        match self.nft_owner.get(id.as_slice()) {
            Some(who) => Some(who.duplicate()),
            None => None,
        }
    }

    /// The metadata of the credential that `user` holds, active or not.
    pub fn get_nft_metadata(&self, user: &Identity) -> (r: Option<NftMetadata>)
        requires
            self.wf(),
        ensures
            metadata_option_view(r) == self@.metadata_for(user@),
    {
        match self.owner_nft.get(user.encoded.as_slice()) {
            Some(id) => match self.nft_metadata.get(id.as_slice()) {
                Some(meta) => Some(meta.with_active(meta.is_active)),
                None => None,
            },
            None => None,
        }
    }

    fn set_active(&mut self, caller_is_admin: bool, user: &Identity, active: bool) -> (r: Result<
        (),
        RegistryError,
    >)
        requires
            old(self).wf(),
        ensures
            final(self).wf(),
            (final(self)@, r) == old(self)@.set_active_step(caller_is_admin, user@, active),
    {
        if !caller_is_admin {
            return Err(RegistryError::Unauthorized);
        }
        let id: [u8; 32] = match self.owner_nft.get(user.encoded.as_slice()) {
            Some(id) => *id,
            None => {
                return Err(RegistryError::NoCredential);
            },
        };
        let updated = match self.nft_metadata.get(id.as_slice()) {
            Some(meta) => meta.with_active(active),
            None => {
                return Err(RegistryError::NoCredential);
            },
        };
        self.nft_metadata.insert(slice_to_vec(id.as_slice()), updated);
        assert(self@.token_of == old(self)@.token_of);
        assert(self@.owner_of == old(self)@.owner_of);
        assert forall|who: Seq<u8>| #[trigger] self@.token_of.contains_key(who) implies self@.metadata_of.contains_key(self@.token_of[who]) by {
            assert(old(self)@.metadata_of.contains_key(old(self)@.token_of[who]));
        }
        Ok(())
    }

    /// Deactivates the credential that `user` holds; it stays bound to them.
    pub fn revoke_nft(&mut self, caller_is_admin: bool, user: &Identity) -> (r: Result<
        (),
        RegistryError,
    >)
        requires
            old(self).wf(),
            old(self)@.is_initialized(),
        ensures
            final(self).wf(),
            (final(self)@, r) == old(self)@.revoke_step(caller_is_admin, user@),
    {
        self.set_active(caller_is_admin, user, false)
    }

    /// Activates again the credential that `user` holds.
    pub fn reactivate_nft(&mut self, caller_is_admin: bool, user: &Identity) -> (r: Result<
        (),
        RegistryError,
    >)
        requires
            old(self).wf(),
            old(self)@.is_initialized(),
        ensures
            final(self).wf(),
            (final(self)@, r) == old(self)@.reactivate_step(caller_is_admin, user@),
    {
        self.set_active(caller_is_admin, user, true)
    }
}

} // verus!
