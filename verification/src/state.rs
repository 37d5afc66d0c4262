//! Process-wide vault state: the optional current session (`None` means
//! locked), the streaming server's bound port, and the bounded cache of
//! already-decrypted asset bytes.
//!
//! The caller guards an `AppState` with its own locks and follows the
//! locking discipline of the design: the session cell is held only long
//! enough to read metadata (the key is copied out, never borrowed across
//! I/O), and nothing is held across a disk read or a decrypt. The
//! decisions themselves — lock checks, lookups, cache policy, range
//! semantics — are made and proved here.

use vstd::prelude::*;
use vstd::slice::slice_to_vec;

use crate::cache::{AssetCache, CACHE_CAPACITY};
use crate::database::VaultManager;
use crate::errors::VaultError;
use crate::models::Asset;
use crate::range::{apply_range, apply_range_ensures, opt_str_view, AssetResponse};
use crate::security::{decrypt_data, decrypt_spec, KEY_LEN, P_MAX};

verus! {

/// The shared state of the running application.
pub struct AppState {
    /// The current session; `None` means the vault is locked.
    pub vault: Option<VaultManager>,
    /// The local streaming server's bound port, set once at startup.
    pub server_port: u16,
    /// Decrypted asset bytes, keyed by asset id.
    pub asset_cache: AssetCache,
}

/// How a request for an asset's bytes proceeds after the metadata lookup.
pub enum ServePlan {
    /// The decrypted bytes were cached: no disk read, no decryption.
    Cached {
        /// The cached decrypted bytes.
        data: Vec<u8>,
        /// The asset's mime type, freshly resolved from the table.
        mime_type: String,
    },
    /// The blob must be read from disk and decrypted.
    FromDisk {
        /// Blob filename relative to the asset directory.
        file_path: String,
        /// A copy of the session's asset key, fixed before any I/O.
        key: Vec<u8>,
        /// The asset's mime type.
        mime_type: String,
    },
}

impl AppState {
    /// Well-formed: any current session and the cache are well-formed.
    pub open spec fn wf(self) -> bool {
        &&& (self.vault matches Some(m) ==> m.wf())
        &&& self.asset_cache.wf()
    }

    /// A fresh, locked state with no cached assets and no bound port.
    pub fn new() -> (r: AppState)
        ensures
            r.wf(),
            r.vault is None,
            r.server_port == 0,
            r.asset_cache.len_spec() == 0,
            forall|x: Seq<char>| !r.asset_cache.has_id(x),
    {
        AppState { vault: None, server_port: 0, asset_cache: AssetCache::new() }
    }

    /// The streaming server's bound port.
    pub fn get_server_port(&self) -> (r: u16)
        ensures
            r == self.server_port,
    {
        self.server_port
    }

    /// Record the streaming server's bound port.
    pub fn set_server_port(&mut self, port: u16)
        ensures
            final(self).server_port == port,
            final(self).vault == old(self).vault,
            final(self).asset_cache == old(self).asset_cache,
    {
        self.server_port = port;
    }

    /// Replace the process-wide session outright: the vault is unlocked
    /// with this session from here on.
    pub fn install_session(&mut self, manager: VaultManager)
        requires
            old(self).wf(),
            manager.wf(),
        ensures
            final(self).wf(),
            final(self).vault == Some(manager),
            final(self).server_port == old(self).server_port,
            final(self).asset_cache == old(self).asset_cache,
    {
        self.vault = Some(manager);
    }

    /// Lock the vault: drop the session, and with it the asset key and
    /// the store handle, outright.
    pub fn close_vault(&mut self)
        requires
            old(self).wf(),
        ensures
            final(self).wf(),
            final(self).vault is None,
            final(self).server_port == old(self).server_port,
            final(self).asset_cache == old(self).asset_cache,
    {
        self.vault = None;
    }

    /// Resolve a request for an asset's bytes as far as shared state
    /// takes it: fail when the vault is locked or the id is unknown;
    /// otherwise serve from the cache, or instruct the caller what to
    /// read from disk and which key to decrypt it with. The mime type is
    /// resolved from the table in every case.
    pub fn prepare_asset(&self, id: &String) -> (r: Result<ServePlan, VaultError>)
        requires
            self.wf(),
        ensures
            self.vault is None ==> r == Err::<ServePlan, VaultError>(VaultError::VaultLocked),
            self.vault matches Some(m) ==> {
                &&& !m.has_asset(id@) ==> r == Err::<ServePlan, VaultError>(VaultError::NotFound)
                &&& m.has_asset(id@) && self.asset_cache.has_id(id@) ==> (r matches Ok(p)
                    && p matches ServePlan::Cached { data, mime_type } && data@
                    == self.asset_cache.entry_at(id@) && mime_type@ == m.asset_at(id@).mime_type@)
                &&& m.has_asset(id@) && !self.asset_cache.has_id(id@) ==> (r matches Ok(p)
                    && p matches ServePlan::FromDisk { file_path, key, mime_type } && file_path@
                    == m.asset_at(id@).file_path@ && key@ == m.asset_key@ && mime_type@
                    == m.asset_at(id@).mime_type@)
            },
    {
        let m = match &self.vault {
            Some(m) => m,
            None => {
                return Err(VaultError::VaultLocked);
            },
        };
        let asset = match m.lookup_asset(id) {
            Some(a) => a,
            None => {
                return Err(VaultError::NotFound);
            },
        };
        match self.asset_cache.lookup(id) {
            Some(data) => Ok(ServePlan::Cached { data, mime_type: asset.mime_type }),
            None => Ok(
                ServePlan::FromDisk {
                    file_path: asset.file_path,
                    key: slice_to_vec(m.asset_key.as_slice()),
                    mime_type: asset.mime_type,
                },
            ),
        }
    }

    /// Finish a cache-miss request: decrypt the blob with the key fixed
    /// at lookup time, cache the plaintext under the asset id (evicting
    /// one arbitrary entry if the cache is full), and answer the range
    /// request from it. Fails with `DecryptionError`, and caches
    /// nothing, exactly when authenticated decryption fails.
    pub fn finish_serve(
        &mut self,
        id: String,
        mime_type: String,
        key: &[u8],
        encrypted: &[u8],
        range_header: Option<&str>,
    ) -> (r: Result<AssetResponse, VaultError>)
        requires
            old(self).wf(),
            key@.len() == KEY_LEN,
        ensures
            final(self).wf(),
            final(self).vault == old(self).vault,
            final(self).server_port == old(self).server_port,
            match decrypt_spec(encrypted@, key@) {
                Ok(plain) => {
                    &&& r matches Ok(resp) && apply_range_ensures(
                        resp,
                        plain,
                        mime_type@,
                        opt_str_view(range_header),
                    )
                    &&& final(self).asset_cache.has_id(id@)
                    &&& final(self).asset_cache.entry_at(id@) == plain
                    &&& forall|x: Seq<char>|
                        x != id@ && final(self).asset_cache.has_id(x) ==> old(self).asset_cache.has_id(x) && final(self).asset_cache.entry_at(x) == old(self).asset_cache.entry_at(x)
                    &&& old(self).asset_cache.len_spec() < CACHE_CAPACITY && !old(self).asset_cache.has_id(id@) ==> forall|x: Seq<char>|
                        old(self).asset_cache.has_id(x) ==> final(self).asset_cache.has_id(x)
                    &&& final(self).asset_cache.len_spec() <= CACHE_CAPACITY
                },
                Err(_) => r == Err::<AssetResponse, VaultError>(VaultError::DecryptionError)
                    && *final(self) == *old(self),
            },
    {
        let plain = match decrypt_data(encrypted, key) {
            Ok(p) => p,
            Err(_) => {
                return Err(VaultError::DecryptionError);
            },
        };
        self.asset_cache.insert(id, slice_to_vec(plain.as_slice()));
        Ok(apply_range(plain, mime_type, range_header))
    }

    /// Delete an asset: remove its record, invalidate its cache entry so
    /// stale plaintext is never served, and hand back the blob filename
    /// for the caller to delete on disk. Fails with `VaultLocked` with
    /// no session and `NotFound` for an unknown id; nothing changes on
    /// failure.
    pub fn delete_asset(&mut self, id: &String) -> (r: Result<String, VaultError>)
        requires
            old(self).wf(),
        ensures
            final(self).wf(),
            final(self).server_port == old(self).server_port,
            old(self).vault is None ==> r == Err::<String, VaultError>(VaultError::VaultLocked)
                && *final(self) == *old(self),
            old(self).vault matches Some(m) ==> match r {
                Ok(path) => {
                    &&& m.has_asset(id@)
                    &&& path@ == m.asset_at(id@).file_path@
                    &&& final(self).vault matches Some(m2) && {
                        &&& !m2.has_asset(id@)
                        &&& m2.asset_key@ == m.asset_key@
                        &&& forall|x: Seq<char>|
                            x != id@ ==> (m2.has_asset(x) <==> m.has_asset(x)) && (m2.has_asset(x)
                                ==> m2.asset_at(x) == m.asset_at(x))
                    }
                    &&& !final(self).asset_cache.has_id(id@)
                    &&& forall|x: Seq<char>|
                        x != id@ ==> (final(self).asset_cache.has_id(x) <==> old(self).asset_cache.has_id(x)) && (final(self).asset_cache.has_id(x) ==> final(self).asset_cache.entry_at(x) == old(self).asset_cache.entry_at(x))
                },
                Err(e) => {
                    &&& e == VaultError::NotFound
                    &&& !m.has_asset(id@)
                    &&& *final(self) == *old(self)
                },
            },
    {
        let m = match &mut self.vault {
            Some(m) => m,
            None => {
                return Err(VaultError::VaultLocked);
            },
        };
        let removed = match m.remove_asset(id) {
            Ok(a) => a,
            Err(e) => {
                return Err(e);
            },
        };
        self.asset_cache.invalidate(id);
        Ok(removed.file_path)
    }

    /// Delete every asset owned by a shard (the cascade of a shard
    /// deletion): remove their records, invalidate their cache entries so
    /// no decrypted bytes of a deleted asset stay in memory, and hand
    /// back the removed records, whose `file_path`s name the blobs to
    /// delete on disk. Fails with `VaultLocked` with no session.
    pub fn delete_shard_assets(&mut self, shard_id: &String) -> (r: Result<Vec<Asset>, VaultError>)
        requires
            old(self).wf(),
        ensures
            final(self).wf(),
            final(self).server_port == old(self).server_port,
            old(self).vault is None ==> r == Err::<Vec<Asset>, VaultError>(VaultError::VaultLocked)
                && *final(self) == *old(self),
            old(self).vault matches Some(m) ==> (r matches Ok(removed) && {
                &&& final(self).vault matches Some(m2) && {
                    &&& m2.asset_key@ == m.asset_key@
                    &&& forall|x: Seq<char>|
                        m2.has_asset(x) <==> (m.has_asset(x) && !crate::database::owned_by(
                            m.asset_at(x),
                            shard_id@,
                        ))
                    &&& forall|x: Seq<char>| m2.has_asset(x) ==> m2.asset_at(x) == m.asset_at(x)
                }
                &&& forall|k: int|
                    0 <= k < removed@.len() ==> m.has_asset(#[trigger] removed@[k].id@)
                        && removed@[k] == m.asset_at(removed@[k].id@)
                        && crate::database::owned_by(removed@[k], shard_id@)
                &&& forall|x: Seq<char>|
                    m.has_asset(x) && crate::database::owned_by(m.asset_at(x), shard_id@)
                        ==> exists|k: int|
                        0 <= k < removed@.len() && #[trigger] removed@[k].id@ == x
                &&& forall|x: Seq<char>|
                    crate::database::id_in_assets(removed@, x) ==> !final(self).asset_cache.has_id(x)
                &&& forall|x: Seq<char>|
                    !crate::database::id_in_assets(removed@, x) ==> (final(self).asset_cache.has_id(x) <==> old(self).asset_cache.has_id(x)) && (final(self).asset_cache.has_id(x) ==> final(self).asset_cache.entry_at(x) == old(self).asset_cache.entry_at(x))
            }),
    {
        let removed = {
            let m = match &mut self.vault {
                Some(m) => m,
                None => {
                    return Err(VaultError::VaultLocked);
                },
            };
            m.remove_assets_of_shard(shard_id)
        };
        let ghost mid = *self;
        let n = removed.len();
        let mut k: usize = 0;
        while k < n
            invariant
                n == removed@.len(),
                0 <= k <= n,
                self.vault == mid.vault,
                self.server_port == mid.server_port,
                self.asset_cache.wf(),
                forall|j: int|
                    0 <= j < k ==> !self.asset_cache.has_id(#[trigger] removed@[j].id@),
                forall|x: Seq<char>|
                    (forall|j: int| 0 <= j < k ==> #[trigger] removed@[j].id@ != x) ==> (
                    self.asset_cache.has_id(x) <==> mid.asset_cache.has_id(x))
                        && (self.asset_cache.has_id(x) ==> self.asset_cache.entry_at(x)
                        == mid.asset_cache.entry_at(x)),
            decreases n - k,
        {
            self.asset_cache.invalidate(&removed[k].id);
            k = k + 1;
        }
        proof {
            assert forall|x: Seq<char>|
                crate::database::id_in_assets(removed@, x) implies !self.asset_cache.has_id(
                x,
            ) by {
                let j = choose|j: int| 0 <= j < removed@.len() && removed@[j].id@ == x;
                assert(!self.asset_cache.has_id(removed@[j].id@));
            }
            assert forall|x: Seq<char>|
                !crate::database::id_in_assets(removed@, x) implies (self.asset_cache.has_id(x)
                <==> mid.asset_cache.has_id(x)) && (self.asset_cache.has_id(x)
                ==> self.asset_cache.entry_at(x) == mid.asset_cache.entry_at(x)) by {
                assert forall|j: int| 0 <= j < removed@.len() implies #[trigger] removed@[j].id@
                    != x by {
                    if removed@[j].id@ == x {
                        assert(crate::database::id_in_assets(removed@, x));
                    }
                }
            }
        }
        Ok(removed)
    }

    /// Import raw bytes as a new asset of the unlocked vault: encrypt
    /// them, record the asset, and hand back the record and the
    /// encrypted blob for the caller to persist. Fails with
    /// `VaultLocked` with no session.
    pub fn import_asset(
        &mut self,
        raw_data: &[u8],
        file_stem: String,
        extension: String,
        created_at: String,
    ) -> (r: Result<(Asset, Vec<u8>), VaultError>)
        requires
            old(self).wf(),
        ensures
            final(self).wf(),
            final(self).server_port == old(self).server_port,
            final(self).asset_cache == old(self).asset_cache,
            old(self).vault is None ==> r == Err::<(Asset, Vec<u8>), VaultError>(
                VaultError::VaultLocked,
            ) && *final(self) == *old(self),
            old(self).vault matches Some(m) ==> match r {
                Ok(p) => {
                    &&& raw_data@.len() <= P_MAX
                    &&& p.0.id@.len() == 36
                    &&& !m.has_asset(p.0.id@)
                    &&& p.0.shard_id is None
                    &&& p.0.file_path@ == p.0.id@ + "."@ + extension@
                    &&& p.0.original_name@ == file_stem@
                    &&& p.0.mime_type@ == crate::database::mime_type_spec(extension@)
                    &&& p.0.created_at@ == created_at@
                    &&& final(self).vault matches Some(m2) && m2.assets@ == m.assets@.push(p.0)
                        && m2.asset_key@ == m.asset_key@
                    &&& decrypt_spec(p.1@, m.asset_key@) == Ok::<
                        Seq<u8>,
                        crate::errors::SecurityError,
                    >(raw_data@)
                },
                Err(e) => {
                    &&& *final(self) == *old(self)
                    &&& (e == VaultError::EncryptionError <==> raw_data@.len() > P_MAX)
                    &&& (e == VaultError::EncryptionError || e == VaultError::IoError)
                    &&& (e == VaultError::IoError ==> exists|k: int|
                        0 <= k < m.assets@.len() && (#[trigger] m.assets@[k]).id@.len() == 36)
                },
            },
    {
        let m = match &mut self.vault {
            Some(m) => m,
            None => {
                return Err(VaultError::VaultLocked);
            },
        };
        m.import_asset(raw_data, file_stem, extension, created_at)
    }

    /// Set the owner of every asset referenced in a record's text to
    /// that record, unconditionally overwriting any prior owner, and
    /// hand back the touched ids. Fails with `VaultLocked` with no
    /// session.
    pub fn link_assets(&mut self, shard_id: &String, content: &str) -> (r: Result<
        Vec<String>,
        VaultError,
    >)
        requires
            old(self).wf(),
        ensures
            final(self).wf(),
            final(self).server_port == old(self).server_port,
            final(self).asset_cache == old(self).asset_cache,
            old(self).vault is None ==> r == Err::<Vec<String>, VaultError>(
                VaultError::VaultLocked,
            ) && *final(self) == *old(self),
            old(self).vault matches Some(m) ==> (r matches Ok(touched) && final(self).vault
                matches Some(m2) && crate::database::link_assets_post(
                m,
                m2,
                touched@,
                shard_id@,
                content@,
            )),
    {
        let m = match &mut self.vault {
            Some(m) => m,
            None => {
                return Err(VaultError::VaultLocked);
            },
        };
        Ok(m.link_assets(shard_id, content))
    }
}

/// Deletion law: once `delete_asset` succeeds for an id, a request for
/// that id resolves to `NotFound` — with or without prior caching, and
/// never to stale cached bytes.
pub fn delete_then_request(state: &mut AppState, id: &String) -> (r: (
    Result<String, VaultError>,
    Result<ServePlan, VaultError>,
))
    requires
        old(state).wf(),
    ensures
        r.0 is Ok ==> r.1 == Err::<ServePlan, VaultError>(VaultError::NotFound),
{
    let deleted = state.delete_asset(id);
    let requested = state.prepare_asset(id);
    (deleted, requested)
}

impl Default for AppState {
    /// The initial state: locked, no port bound, empty cache.
    fn default() -> (r: AppState)
        ensures
            r.wf(),
            r.vault is None,
            r.server_port == 0,
            r.asset_cache.len_spec() == 0,
    {
        AppState::new()
    }
}

} // verus!
