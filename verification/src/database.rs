//! The vault session: creation, unlock, and the asset table.
//!
//! A `VaultManager` exists exactly while the vault is unlocked. It holds
//! the derived asset key, the vault's paths, and the asset records the
//! store describes. Opening the store itself, reading the salt file and
//! verifying the password against the store are performed by the caller;
//! the decisions — which path to take, what key to derive, and whether a
//! session may be handed out — are made here.

use vstd::prelude::*;
use vstd::string::StrSliceExecFns;
use vstd::string::StringExecFns;

use crate::errors::{SecurityError, VaultError};
use crate::models::Asset;
use crate::security::{
    decrypt_spec, derive_key, derive_key_spec, encrypt_data, generate_salt, KEY_LEN, P_MAX,
    SALT_LEN,
};
use crate::strutil::{lower_chars, str_eq_lowered, str_matches_at};

verus! {

/// Which of the two unlock paths applies to a vault directory.
#[derive(Debug, Clone, Copy, PartialEq, Eq, Structural)]
pub enum UnlockPath {
    /// The store file is absent: create a fresh vault.
    Create,
    /// The store file and the salt file are present: open and verify.
    Open,
}

/// Decide the unlock path from what is on disk: a missing store file
/// means a fresh vault is created (never overwriting an existing store);
/// a store file without a salt file is a corrupted vault and fails with
/// `MissingSalt`, never with `InvalidPassword`.
pub fn plan_unlock(db_exists: bool, salt_exists: bool) -> (r: Result<UnlockPath, VaultError>)
    ensures
        !db_exists ==> r == Ok::<UnlockPath, VaultError>(UnlockPath::Create),
        db_exists && !salt_exists ==> r == Err::<UnlockPath, VaultError>(VaultError::MissingSalt),
        db_exists && salt_exists ==> r == Ok::<UnlockPath, VaultError>(UnlockPath::Open),
{
    if !db_exists {
        Ok(UnlockPath::Create)
    } else if !salt_exists {
        Err(VaultError::MissingSalt)
    } else {
        Ok(UnlockPath::Open)
    }
}

/// What a status probe of a vault directory reports: `existing` when the
/// store file is present, `new` when it is not, an error for a path that
/// is no directory.
pub fn vault_status(path_is_dir: bool, db_exists: bool) -> (r: Result<String, String>)
    ensures
        !path_is_dir ==> (r matches Err(e) && e@ == "Invalid path"@),
        path_is_dir && db_exists ==> (r matches Ok(s) && s@ == "existing"@),
        path_is_dir && !db_exists ==> (r matches Ok(s) && s@ == "new"@),
{
    if !path_is_dir {
        Err(String::from_str("Invalid path"))
    } else if db_exists {
        Ok(String::from_str("existing"))
    } else {
        Ok(String::from_str("new"))
    }
}

/// Whether the asset ids of `assets` are pairwise distinct.
pub open spec fn distinct_asset_ids(assets: Seq<Asset>) -> bool {
    forall|i: int, j: int| 0 <= i < j < assets.len() ==> assets[i].id@ != assets[j].id@
}

/// The in-memory session of an unlocked vault.
#[derive(Debug)]
pub struct VaultManager {
    /// Path of the vault's relational-store file.
    pub db_path: String,
    /// Path of the directory holding the encrypted asset blobs.
    pub asset_path: String,
    /// The 32-byte asset key, held only while the vault is unlocked.
    pub asset_key: Vec<u8>,
    /// The asset records of this vault, with pairwise distinct ids.
    pub assets: Vec<Asset>,
}

impl VaultManager {
    /// Well-formed: the key has the cipher's length and ids are distinct.
    pub open spec fn wf(self) -> bool {
        &&& self.asset_key@.len() == KEY_LEN
        &&& distinct_asset_ids(self.assets@)
    }

    /// Whether the asset table holds an asset with this id.
    pub open spec fn has_asset(self, id: Seq<char>) -> bool {
        exists|i: int| 0 <= i < self.assets@.len() && self.assets@[i].id@ == id
    }

    /// The asset record with this id (meaningful only when present).
    pub open spec fn asset_at(self, id: Seq<char>) -> Asset {
        self.assets@[choose|i: int| 0 <= i < self.assets@.len() && self.assets@[i].id@ == id]
    }

    /// Create a fresh vault session: generate a salt, derive the asset
    /// key from the password and that salt, and start with an empty
    /// asset table. The salt is returned alongside so the caller can
    /// persist it; it is never regenerated for an existing vault.
    pub fn create_session(db_path: String, asset_path: String, password: &str) -> (r: (
        VaultManager,
        Vec<u8>,
    ))
        ensures
            r.0.wf(),
            r.0.db_path@ == db_path@,
            r.0.asset_path@ == asset_path@,
            r.0.assets@.len() == 0,
            r.1@.len() == SALT_LEN,
            r.0.asset_key@ == derive_key_spec(password@, r.1@),
    {
        let salt = generate_salt();
        let asset_key = derive_key(password, salt.as_slice());
        (VaultManager { db_path, asset_path, asset_key, assets: Vec::new() }, salt)
    }

    /// Open an existing vault: derive the asset key from the password
    /// and the persisted salt, and hand out a session only when the
    /// store accepted the password on its verification read
    /// (`verify_read_ok`); otherwise fail with `InvalidPassword` and
    /// retain nothing.
    pub fn open_session(
        db_path: String,
        asset_path: String,
        password: &str,
        salt: &[u8],
        assets: Vec<Asset>,
        verify_read_ok: bool,
    ) -> (r: Result<VaultManager, VaultError>)
        requires
            distinct_asset_ids(assets@),
        ensures
            match r {
                Ok(m) => {
                    &&& verify_read_ok
                    &&& m.wf()
                    &&& m.db_path@ == db_path@
                    &&& m.asset_path@ == asset_path@
                    &&& m.asset_key@ == derive_key_spec(password@, salt@)
                    &&& m.assets@ == assets@
                },
                Err(e) => e == VaultError::InvalidPassword && !verify_read_ok,
            },
    {
        let asset_key = derive_key(password, salt);
        if verify_read_ok {
            Ok(VaultManager { db_path, asset_path, asset_key, assets })
        } else {
            Err(VaultError::InvalidPassword)
        }
    }
}

/// Whether `content` embeds a reference `asset://<id>` to this 36-character
/// asset id.
pub open spec fn referenced_in(content: Seq<char>, id: Seq<char>) -> bool {
    id.len() == 36 && exists|i: int|
        0 <= i && i + 44 <= content.len() && #[trigger] content.subrange(i, i + 8) == "asset://"@
            && content.subrange(i + 8, i + 44) == id
}

/// Whether some record in `assets` carries this id.
pub open spec fn id_in_assets(assets: Seq<Asset>, x: Seq<char>) -> bool {
    exists|k: int| 0 <= k < assets.len() && #[trigger] assets[k].id@ == x
}

/// Whether an asset is owned by the shard with this id.
pub open spec fn owned_by(a: Asset, shard_id: Seq<char>) -> bool {
    a.shard_id matches Some(s) && s@ == shard_id
}

/// Whether `b` is `a` with its owner set to `owner` and every other field
/// unchanged.
pub open spec fn linked_to(a: Asset, b: Asset, owner: Seq<char>) -> bool {
    &&& b.id@ == a.id@
    &&& b.file_path@ == a.file_path@
    &&& b.original_name@ == a.original_name@
    &&& b.mime_type@ == a.mime_type@
    &&& b.created_at@ == a.created_at@
    &&& b.shard_id matches Some(s) && s@ == owner
}

/// Whether `content` embeds a reference to this asset id.
pub fn content_references(content: &str, id: &str) -> (r: bool)
    ensures
        r == referenced_in(content@, id@),
{
    proof {
        reveal_strlit("asset://");
    }
    if id.unicode_len() != 36 {
        return false;
    }
    let n = content.unicode_len();
    if n < 44 {
        return false;
    }
    let mut p: usize = 0;
    while p <= n - 44
        invariant
            n == content@.len(),
            n >= 44,
            id@.len() == 36,
            "asset://"@.len() == 8,
            0 <= p <= n - 43,
            forall|q: int|
                0 <= q < p ==> !(#[trigger] content@.subrange(q, q + 8) == "asset://"@
                    && content@.subrange(q + 8, q + 44) == id@),
        decreases n - p,
    {
        if str_matches_at(content, p, "asset://") && str_matches_at(content, p + 8, id) {
            return true;
        }
        p = p + 1;
    }
    false
}

/// Relies on `uuid::Uuid::new_v4` and its hyphenated rendering: a fresh
/// random version-4 UUID as a 36-character string. Nothing more is
/// promised of a random value.
#[verifier::external_body]
fn new_uuid_string() -> (r: String)
    ensures
        r@.len() == 36,
{
    uuid::Uuid::new_v4().to_string()
}

/// After removing the record at index `i` from a table with distinct ids,
/// every remaining id was present before with the same record, the
/// removed id is gone, and distinctness is preserved.
proof fn lemma_asset_remove_keeps(pre: VaultManager, post: VaultManager, i: int)
    requires
        distinct_asset_ids(pre.assets@),
        0 <= i < pre.assets@.len(),
        post.assets@ == pre.assets@.remove(i),
    ensures
        distinct_asset_ids(post.assets@),
        post.assets@.len() == pre.assets@.len() - 1,
        !post.has_asset(pre.assets@[i].id@),
        forall|x: Seq<char>|
            post.has_asset(x) ==> pre.has_asset(x) && post.asset_at(x) == pre.asset_at(x),
        forall|x: Seq<char>| x != pre.assets@[i].id@ && pre.has_asset(x) ==> post.has_asset(x),
{
    assert forall|x: Seq<char>| post.has_asset(x) implies pre.has_asset(x) && post.asset_at(x)
        == pre.asset_at(x) by {
        let k = choose|k: int| 0 <= k < post.assets@.len() && post.assets@[k].id@ == x;
        let src: int = if k < i {
            k
        } else {
            k + 1
        };
        assert(pre.assets@[src].id@ == x);
        let kp = choose|kp: int| 0 <= kp < pre.assets@.len() && pre.assets@[kp].id@ == x;
        assert(kp == src);
        let kq = choose|kq: int| 0 <= kq < post.assets@.len() && post.assets@[kq].id@ == x;
        assert(kq == k);
    }
    if post.has_asset(pre.assets@[i].id@) {
        let k = choose|k: int|
            0 <= k < post.assets@.len() && post.assets@[k].id@ == pre.assets@[i].id@;
        let src: int = if k < i {
            k
        } else {
            k + 1
        };
        assert(pre.assets@[src].id@ == pre.assets@[i].id@);
        assert(src != i);
        assert(false);
    }
    assert forall|x: Seq<char>|
        x != pre.assets@[i].id@ && pre.has_asset(x) implies post.has_asset(x) by {
        let k = choose|k: int| 0 <= k < pre.assets@.len() && pre.assets@[k].id@ == x;
        if k < i {
            assert(post.assets@[k].id@ == x);
        } else {
            assert(k != i);
            assert(post.assets@[k - 1].id@ == x);
        }
    }
}

/// What linking a record's references establishes: the table holds the
/// same ids; every referenced asset is re-owned by the shard with all
/// other fields kept; every unreferenced asset is untouched; and
/// `touched` holds exactly the referenced ids of the table.
pub open spec fn link_assets_post(
    pre: VaultManager,
    post: VaultManager,
    touched: Seq<String>,
    shard_id: Seq<char>,
    content: Seq<char>,
) -> bool {
    &&& post.asset_key@ == pre.asset_key@
    &&& post.db_path == pre.db_path
    &&& post.asset_path == pre.asset_path
    &&& post.assets@.len() == pre.assets@.len()
    &&& forall|x: Seq<char>| post.has_asset(x) <==> pre.has_asset(x)
    &&& forall|x: Seq<char>|
        pre.has_asset(x) && referenced_in(content, x) ==> linked_to(
            pre.asset_at(x),
            post.asset_at(x),
            shard_id,
        )
    &&& forall|x: Seq<char>|
        pre.has_asset(x) && !referenced_in(content, x) ==> post.asset_at(x) == pre.asset_at(x)
    &&& forall|k: int|
        0 <= k < touched.len() ==> pre.has_asset(#[trigger] touched[k]@) && referenced_in(
            content,
            touched[k]@,
        )
    &&& forall|x: Seq<char>|
        pre.has_asset(x) && referenced_in(content, x) ==> exists|k: int|
            0 <= k < touched.len() && #[trigger] touched[k]@ == x
}

/// The predicate selecting assets not owned by this shard.
pub open spec fn keeps_shard(shard_id: Seq<char>) -> spec_fn(Asset) -> bool {
    |a: Asset| !owned_by(a, shard_id)
}

/// The predicate selecting assets owned by this shard.
pub open spec fn owns_shard(shard_id: Seq<char>) -> spec_fn(Asset) -> bool {
    |a: Asset| owned_by(a, shard_id)
}

/// Every element of a filtered asset sequence occurs in the source.
proof fn lemma_filter_elem_assets(s: Seq<Asset>, pred: spec_fn(Asset) -> bool, k: int)
    requires
        0 <= k < s.filter(pred).len(),
    ensures
        exists|j: int| 0 <= j < s.len() && #[trigger] s[j] == s.filter(pred)[k],
    decreases s.len(),
{
    reveal(Seq::filter);
    if s.len() > 0 {
        let fd = s.drop_last().filter(pred);
        if pred(s.last()) && k == fd.len() {
            assert(s[s.len() - 1] == s.filter(pred)[k]);
        } else {
            lemma_filter_elem_assets(s.drop_last(), pred, k);
            let j = choose|j: int|
                0 <= j < s.drop_last().len() && s.drop_last()[j] == fd[k];
            assert(s[j] == s.filter(pred)[k]);
        }
    }
}

/// Filtering keeps asset ids pairwise distinct.
proof fn lemma_filter_distinct_assets(s: Seq<Asset>, pred: spec_fn(Asset) -> bool)
    requires
        distinct_asset_ids(s),
    ensures
        distinct_asset_ids(s.filter(pred)),
        s.filter(pred).len() <= s.len(),
    decreases s.len(),
{
    reveal(Seq::filter);
    if s.len() > 0 {
        assert(distinct_asset_ids(s.drop_last()));
        lemma_filter_distinct_assets(s.drop_last(), pred);
        let fd = s.drop_last().filter(pred);
        if pred(s.last()) {
            assert forall|k: int| 0 <= k < fd.len() implies #[trigger] fd[k].id@
                != s.last().id@ by {
                lemma_filter_elem_assets(s.drop_last(), pred, k);
                let j = choose|j: int|
                    0 <= j < s.drop_last().len() && s.drop_last()[j] == fd[k];
                assert(s[j].id@ != s[s.len() - 1].id@);
            }
            assert forall|i: int, j: int|
                0 <= i < j < s.filter(pred).len() implies s.filter(pred)[i].id@ != s.filter(
                pred,
            )[j].id@ by {
                if j < fd.len() {
                    assert(s.filter(pred)[i] == fd[i]);
                    assert(s.filter(pred)[j] == fd[j]);
                } else {
                    assert(s.filter(pred)[i] == fd[i]);
                    assert(s.filter(pred)[j] == s.last());
                }
            }
        }
    }
}

impl VaultManager {
    /// The index of the asset record with this id, if any.
    fn find_asset_index(&self, id: &String) -> (r: Option<usize>)
        ensures
            match r {
                Some(i) => i < self.assets@.len() && self.assets@[i as int].id@ == id@,
                None => !self.has_asset(id@),
            },
    {
        let n = self.assets.len();
        let mut i: usize = 0;
        while i < n
            invariant
                n == self.assets@.len(),
                0 <= i <= n,
                forall|j: int| 0 <= j < i ==> self.assets@[j].id@ != id@,
            decreases n - i,
        {
            if self.assets[i].id == *id {
                return Some(i);
            }
            i = i + 1;
        }
        None
    }

    /// The asset record with this id, copied, if any: the metadata
    /// lookup of the streaming endpoint and the delete path.
    pub fn lookup_asset(&self, id: &String) -> (r: Option<Asset>)
        requires
            self.wf(),
        ensures
            match r {
                Some(a) => self.has_asset(id@) && a == self.asset_at(id@),
                None => !self.has_asset(id@),
            },
    {
        match self.find_asset_index(id) {
            Some(i) => {
                proof {
                    let k = choose|k: int|
                        0 <= k < self.assets@.len() && self.assets@[k].id@ == id@;
                    assert(k == i);
                }
                Some(self.assets[i].duplicate())
            },
            None => None,
        }
    }

    /// Import raw bytes as a new asset under a given fresh id: encrypt
    /// them under the session's asset key, record the asset (unowned,
    /// with a guessed mime type and a blob filename of id plus
    /// extension), and hand back the record together with the encrypted
    /// blob for the caller to persist. Fails with `EncryptionError`
    /// exactly when the bytes exceed the cipher's length bound, and with
    /// `IoError` when the id is already taken; nothing changes on
    /// failure.
    pub fn import_asset_with_id(
        &mut self,
        id: String,
        raw_data: &[u8],
        file_stem: String,
        extension: String,
        created_at: String,
    ) -> (r: Result<(Asset, Vec<u8>), VaultError>)
        requires
            old(self).wf(),
        ensures
            final(self).wf(),
            match r {
                Ok(p) => {
                    &&& raw_data@.len() <= P_MAX
                    &&& !old(self).has_asset(id@)
                    &&& p.0.id@ == id@
                    &&& p.0.shard_id is None
                    &&& p.0.file_path@ == id@ + "."@ + extension@
                    &&& p.0.original_name@ == file_stem@
                    &&& p.0.mime_type@ == mime_type_spec(extension@)
                    &&& p.0.created_at@ == created_at@
                    &&& final(self).assets@ == old(self).assets@.push(p.0)
                    &&& final(self).asset_key@ == old(self).asset_key@
                    &&& final(self).db_path == old(self).db_path
                    &&& final(self).asset_path == old(self).asset_path
                    &&& decrypt_spec(p.1@, old(self).asset_key@) == Ok::<Seq<u8>, SecurityError>(
                        raw_data@,
                    )
                },
                Err(e) => {
                    &&& *final(self) == *old(self)
                    &&& (e == VaultError::EncryptionError <==> raw_data@.len() > P_MAX)
                    &&& (e == VaultError::EncryptionError || e == VaultError::IoError)
                    &&& (e == VaultError::IoError ==> old(self).has_asset(id@))
                },
            },
    {
        let blob = match encrypt_data(raw_data, self.asset_key.as_slice()) {
            Ok(b) => b,
            Err(_) => {
                return Err(VaultError::EncryptionError);
            },
        };
        if self.find_asset_index(&id).is_some() {
            return Err(VaultError::IoError);
        }
        let file_path = id.clone().concat(".").concat(extension.as_str());
        let mime_type = mime_type_for(extension.as_str());
        let asset = Asset {
            id,
            shard_id: None,
            file_path,
            original_name: file_stem,
            mime_type,
            created_at,
        };
        let ghost pre = *self;
        let ghost aview = asset;
        self.assets.push(asset.duplicate());
        proof {
            let n = pre.assets@.len() as int;
            assert forall|i: int, j: int|
                0 <= i < j < self.assets@.len() implies self.assets@[i].id@
                != self.assets@[j].id@ by {
                if j < n {
                    assert(self.assets@[i] == pre.assets@[i]);
                    assert(self.assets@[j] == pre.assets@[j]);
                } else {
                    assert(self.assets@[i] == pre.assets@[i]);
                    assert(pre.assets@[i].id@ != aview.id@);
                }
            }
        }
        Ok((asset, blob))
    }

    /// Import raw bytes as a new asset under a freshly generated id.
    /// What holds of the result holds whatever id was drawn: on success
    /// the new record carries a 36-character id that was not yet in the
    /// table, and the returned blob decrypts to the imported bytes under
    /// the session's key. An id collision (`IoError`) can occur only
    /// when the table already holds some 36-character id, so an import
    /// into a table without one — a fresh vault above all — succeeds
    /// whenever the bytes are within the cipher's bound.
    pub fn import_asset(
        &mut self,
        raw_data: &[u8],
        file_stem: String,
        extension: String,
        created_at: String,
    ) -> (r: Result<(Asset, Vec<u8>), VaultError>)
        requires
            old(self).wf(),
        ensures
            final(self).wf(),
            match r {
                Ok(p) => {
                    &&& raw_data@.len() <= P_MAX
                    &&& p.0.id@.len() == 36
                    &&& !old(self).has_asset(p.0.id@)
                    &&& p.0.shard_id is None
                    &&& p.0.file_path@ == p.0.id@ + "."@ + extension@
                    &&& p.0.original_name@ == file_stem@
                    &&& p.0.mime_type@ == mime_type_spec(extension@)
                    &&& p.0.created_at@ == created_at@
                    &&& final(self).assets@ == old(self).assets@.push(p.0)
                    &&& final(self).asset_key@ == old(self).asset_key@
                    &&& final(self).db_path == old(self).db_path
                    &&& final(self).asset_path == old(self).asset_path
                    &&& decrypt_spec(p.1@, old(self).asset_key@) == Ok::<Seq<u8>, SecurityError>(
                        raw_data@,
                    )
                },
                Err(e) => {
                    &&& *final(self) == *old(self)
                    &&& (e == VaultError::EncryptionError <==> raw_data@.len() > P_MAX)
                    &&& (e == VaultError::EncryptionError || e == VaultError::IoError)
                    &&& (e == VaultError::IoError ==> exists|k: int|
                        0 <= k < old(self).assets@.len() && (#[trigger] old(
                            self,
                        ).assets@[k]).id@.len() == 36)
                },
            },
    {
        let ghost pre = *self;
        let id = new_uuid_string();
        let ghost id_view = id@;
        let r = self.import_asset_with_id(id, raw_data, file_stem, extension, created_at);
        proof {
            if pre.has_asset(id_view) {
                let k = choose|k: int|
                    0 <= k < pre.assets@.len() && pre.assets@[k].id@ == id_view;
                assert((pre.assets@[k]).id@.len() == 36);
            }
        }
        r
    }

    /// Remove every asset record owned by this shard and hand the
    /// removed records back (their `file_path`s name the blobs to delete
    /// on disk). Every asset of another or no owner is untouched.
    pub fn remove_assets_of_shard(&mut self, shard_id: &String) -> (r: Vec<Asset>)
        requires
            old(self).wf(),
        ensures
            final(self).wf(),
            final(self).asset_key@ == old(self).asset_key@,
            final(self).db_path == old(self).db_path,
            final(self).asset_path == old(self).asset_path,
            forall|x: Seq<char>|
                final(self).has_asset(x) <==> (old(self).has_asset(x) && !owned_by(
                    old(self).asset_at(x),
                    shard_id@,
                )),
            forall|x: Seq<char>|
                final(self).has_asset(x) ==> final(self).asset_at(x) == old(self).asset_at(x),
            forall|k: int|
                0 <= k < r@.len() ==> old(self).has_asset(#[trigger] r@[k].id@) && r@[k] == old(
                    self,
                ).asset_at(r@[k].id@) && owned_by(r@[k], shard_id@),
            forall|x: Seq<char>|
                old(self).has_asset(x) && owned_by(old(self).asset_at(x), shard_id@)
                    ==> exists|k: int| 0 <= k < r@.len() && #[trigger] r@[k].id@ == x,
    {
        let ghost pre = *self;
        let ghost kp = keeps_shard(shard_id@);
        let ghost rp = owns_shard(shard_id@);
        let n = self.assets.len();
        let mut kept: Vec<Asset> = Vec::new();
        let mut removed: Vec<Asset> = Vec::new();
        let mut i: usize = 0;
        while i < n
            invariant
                n == self.assets@.len(),
                *self == pre,
                pre.wf(),
                0 <= i <= n,
                kp == keeps_shard(shard_id@),
                rp == owns_shard(shard_id@),
                kept@ == pre.assets@.take(i as int).filter(kp),
                removed@ == pre.assets@.take(i as int).filter(rp),
            decreases n - i,
        {
            let a = self.assets[i].duplicate();
            let owned = match &a.shard_id {
                Some(s) => *s == *shard_id,
                None => false,
            };
            proof {
                let iv = i as int;
                assert(a == pre.assets@[iv]);
                assert(owned == owned_by(pre.assets@[iv], shard_id@));
                assert(pre.assets@.take(iv + 1).drop_last() =~= pre.assets@.take(iv));
                assert(pre.assets@.take(iv + 1).last() == pre.assets@[iv]);
                reveal(Seq::filter);
            }
            if owned {
                removed.push(a);
            } else {
                kept.push(a);
            }
            i = i + 1;
        }
        proof {
            assert(pre.assets@.take(n as int) =~= pre.assets@);
        }
        self.assets = kept;
        proof {
            lemma_filter_distinct_assets(pre.assets@, kp);
            lemma_filter_distinct_assets(pre.assets@, rp);
            broadcast use vstd::seq_lib::group_filter_ensures;

            assert forall|x: Seq<char>|
                self.has_asset(x) implies (pre.has_asset(x) && !owned_by(
                pre.asset_at(x),
                shard_id@,
            ) && self.asset_at(x) == pre.asset_at(x)) by {
                let k = choose|k: int|
                    0 <= k < self.assets@.len() && self.assets@[k].id@ == x;
                lemma_filter_elem_assets(pre.assets@, kp, k);
                let j = choose|j: int|
                    0 <= j < pre.assets@.len() && pre.assets@[j] == self.assets@[k];
                assert(pre.assets@[j].id@ == x);
                let jp = choose|jp: int| 0 <= jp < pre.assets@.len() && pre.assets@[jp].id@ == x;
                assert(jp == j);
                assert(pre.asset_at(x) == pre.assets@[j]);
                assert(kp(self.assets@[k]));
                let kq = choose|kq: int|
                    0 <= kq < self.assets@.len() && self.assets@[kq].id@ == x;
                assert(kq == k);
            }
            assert forall|x: Seq<char>|
                pre.has_asset(x) && !owned_by(pre.asset_at(x), shard_id@) implies self.has_asset(
                x,
            ) by {
                let jp = choose|jp: int| 0 <= jp < pre.assets@.len() && pre.assets@[jp].id@ == x;
                assert(pre.asset_at(x) == pre.assets@[jp]);
                assert(kp(pre.assets@[jp]));
                assert(pre.assets@.filter(kp).contains(pre.assets@[jp]));
                let k = choose|k: int|
                    0 <= k < self.assets@.len() && self.assets@[k] == pre.assets@[jp];
                assert(self.assets@[k].id@ == x);
            }
            assert forall|k: int|
                0 <= k < removed@.len() implies pre.has_asset(#[trigger] removed@[k].id@)
                && removed@[k] == pre.asset_at(removed@[k].id@) && owned_by(
                removed@[k],
                shard_id@,
            ) by {
                lemma_filter_elem_assets(pre.assets@, rp, k);
                let j = choose|j: int|
                    0 <= j < pre.assets@.len() && pre.assets@[j] == removed@[k];
                assert(pre.assets@[j].id@ == removed@[k].id@);
                let jp = choose|jp: int|
                    0 <= jp < pre.assets@.len() && pre.assets@[jp].id@ == removed@[k].id@;
                assert(jp == j);
                assert(rp(removed@[k]));
            }
            assert forall|x: Seq<char>|
                pre.has_asset(x) && owned_by(pre.asset_at(x), shard_id@) implies exists|k: int|
                0 <= k < removed@.len() && #[trigger] removed@[k].id@ == x by {
                let jp = choose|jp: int| 0 <= jp < pre.assets@.len() && pre.assets@[jp].id@ == x;
                assert(pre.asset_at(x) == pre.assets@[jp]);
                assert(rp(pre.assets@[jp]));
                assert(pre.assets@.filter(rp).contains(pre.assets@[jp]));
                let k = choose|k: int|
                    0 <= k < removed@.len() && removed@[k] == pre.assets@[jp];
                assert(removed@[k].id@ == x);
            }
        }
        removed
    }

    /// Set the owner of every asset whose id is embedded in `content` as
    /// an `asset://<id>` reference to this shard, unconditionally
    /// overwriting any prior owner, and hand back the touched ids. Every
    /// unreferenced asset, and every other field, is unchanged.
    pub fn link_assets(&mut self, shard_id: &String, content: &str) -> (r: Vec<String>)
        requires
            old(self).wf(),
        ensures
            final(self).wf(),
            link_assets_post(*old(self), *final(self), r@, shard_id@, content@),
    {
        let ghost pre = *self;
        let n = self.assets.len();
        let mut updated: Vec<Asset> = Vec::new();
        let mut touched: Vec<String> = Vec::new();
        let mut i: usize = 0;
        while i < n
            invariant
                n == self.assets@.len(),
                *self == pre,
                pre.wf(),
                0 <= i <= n,
                updated@.len() == i,
                forall|j: int|
                    0 <= j < i ==> #[trigger] updated@[j].id@ == pre.assets@[j].id@,
                forall|j: int|
                    0 <= j < i && referenced_in(content@, pre.assets@[j].id@) ==> linked_to(
                        #[trigger] pre.assets@[j],
                        updated@[j],
                        shard_id@,
                    ),
                forall|j: int|
                    0 <= j < i && !referenced_in(content@, pre.assets@[j].id@)
                        ==> #[trigger] updated@[j] == pre.assets@[j],
                forall|k: int|
                    0 <= k < touched@.len() ==> pre.has_asset(#[trigger] touched@[k]@)
                        && referenced_in(content@, touched@[k]@),
                forall|j: int|
                    0 <= j < i && referenced_in(content@, #[trigger] pre.assets@[j].id@)
                        ==> exists|k: int|
                        0 <= k < touched@.len() && #[trigger] touched@[k]@
                            == pre.assets@[j].id@,
            decreases n - i,
        {
            let ghost touched0 = touched@;
            let mut a = self.assets[i].duplicate();
            let hit = content_references(content, a.id.as_str());
            if hit {
                touched.push(a.id.clone());
                a.shard_id = Some(shard_id.clone());
                updated.push(a);
            } else {
                updated.push(a);
            }
            proof {
                let iv = i as int;
                assert forall|j: int|
                    0 <= j < iv + 1 && referenced_in(
                        content@,
                        #[trigger] pre.assets@[j].id@,
                    ) implies exists|k: int|
                    0 <= k < touched@.len() && #[trigger] touched@[k]@ == pre.assets@[j].id@ by {
                    if j < iv {
                        let k0 = choose|k0: int|
                            0 <= k0 < touched0.len() && touched0[k0]@ == pre.assets@[j].id@;
                        assert(touched@[k0]@ == pre.assets@[j].id@);
                    } else {
                        assert(hit);
                        assert(touched@[touched@.len() - 1]@ == pre.assets@[j].id@);
                    }
                }
            }
            i = i + 1;
        }
        self.assets = updated;
        proof {
            assert forall|x: Seq<char>|
                self.has_asset(x) implies pre.has_asset(x) by {
                let k = choose|k: int|
                    0 <= k < self.assets@.len() && self.assets@[k].id@ == x;
                assert(pre.assets@[k].id@ == x);
            }
            assert forall|x: Seq<char>|
                pre.has_asset(x) implies self.has_asset(x) by {
                let k = choose|k: int| 0 <= k < pre.assets@.len() && pre.assets@[k].id@ == x;
                assert(self.assets@[k].id@ == x);
            }
            assert forall|i0: int, j0: int|
                0 <= i0 < j0 < self.assets@.len() implies self.assets@[i0].id@
                != self.assets@[j0].id@ by {
                assert(self.assets@[i0].id@ == pre.assets@[i0].id@);
                assert(self.assets@[j0].id@ == pre.assets@[j0].id@);
            }
            assert forall|x: Seq<char>| pre.has_asset(x) implies {
                let a0 = pre.asset_at(x);
                let a1 = self.asset_at(x);
                if referenced_in(content@, x) {
                    linked_to(a0, a1, shard_id@)
                } else {
                    a1 == a0
                }
            } by {
                let jp = choose|jp: int| 0 <= jp < pre.assets@.len() && pre.assets@[jp].id@ == x;
                let jq = choose|jq: int|
                    0 <= jq < self.assets@.len() && self.assets@[jq].id@ == x;
                assert(self.assets@[jp].id@ == x);
                assert(jq == jp);
                assert(pre.asset_at(x) == pre.assets@[jp]);
                assert(self.asset_at(x) == self.assets@[jp]);
            }
        }
        touched
    }

    /// Remove the asset record with this id and hand it back (its
    /// `file_path` names the blob to delete on disk). Fails with
    /// `NotFound` exactly when no such record exists; every other record
    /// is untouched.
    pub fn remove_asset(&mut self, id: &String) -> (r: Result<Asset, VaultError>)
        requires
            old(self).wf(),
        ensures
            final(self).wf(),
            final(self).asset_key@ == old(self).asset_key@,
            final(self).db_path == old(self).db_path,
            final(self).asset_path == old(self).asset_path,
            match r {
                Ok(a) => {
                    &&& old(self).has_asset(id@)
                    &&& a == old(self).asset_at(id@)
                    &&& !final(self).has_asset(id@)
                    &&& final(self).assets@.len() == old(self).assets@.len() - 1
                    &&& forall|x: Seq<char>|
                        x != id@ ==> (final(self).has_asset(x) <==> old(self).has_asset(x)) && (
                        final(self).has_asset(x) ==> final(self).asset_at(x) == old(
                            self,
                        ).asset_at(x))
                },
                Err(e) => {
                    &&& e == VaultError::NotFound
                    &&& !old(self).has_asset(id@)
                    &&& *final(self) == *old(self)
                },
            },
    {
        let ghost pre = *self;
        match self.find_asset_index(id) {
            Some(i) => {
                let a = self.assets.remove(i);
                proof {
                    lemma_asset_remove_keeps(pre, *self, i as int);
                    let k = choose|k: int|
                        0 <= k < pre.assets@.len() && pre.assets@[k].id@ == id@;
                    assert(k == i);
                }
                Ok(a)
            },
            None => Err(VaultError::NotFound),
        }
    }
}

/// The mime type guessed for a file extension, compared after ASCII
/// lower-casing; unknown extensions fall back to a generic binary type.
pub open spec fn mime_type_spec(ext: Seq<char>) -> Seq<char> {
    let l = lower_chars(ext);
    if l == "png"@ {
        "image/png"@
    } else if l == "jpg"@ || l == "jpeg"@ {
        "image/jpeg"@
    } else if l == "gif"@ {
        "image/gif"@
    } else if l == "webp"@ {
        "image/webp"@
    } else if l == "mp4"@ {
        "video/mp4"@
    } else if l == "webm"@ {
        "video/webm"@
    } else if l == "mkv"@ {
        "video/x-matroska"@
    } else if l == "mp3"@ {
        "audio/mpeg"@
    } else if l == "wav"@ {
        "audio/wav"@
    } else if l == "ogg"@ {
        "audio/ogg"@
    } else if l == "pdf"@ {
        "application/pdf"@
    } else if l == "vtt"@ {
        "text/vtt"@
    } else if l == "srt"@ {
        "application/x-subrip"@
    } else {
        "application/octet-stream"@
    }
}

/// Guess an imported file's mime type from its extension.
pub fn mime_type_for(extension: &str) -> (r: String)
    ensures
        r@ == mime_type_spec(extension@),
{
    if str_eq_lowered(extension, "png") {
        String::from_str("image/png")
    } else if str_eq_lowered(extension, "jpg") || str_eq_lowered(extension, "jpeg") {
        String::from_str("image/jpeg")
    } else if str_eq_lowered(extension, "gif") {
        String::from_str("image/gif")
    } else if str_eq_lowered(extension, "webp") {
        String::from_str("image/webp")
    } else if str_eq_lowered(extension, "mp4") {
        String::from_str("video/mp4")
    } else if str_eq_lowered(extension, "webm") {
        String::from_str("video/webm")
    } else if str_eq_lowered(extension, "mkv") {
        String::from_str("video/x-matroska")
    } else if str_eq_lowered(extension, "mp3") {
        String::from_str("audio/mpeg")
    } else if str_eq_lowered(extension, "wav") {
        String::from_str("audio/wav")
    } else if str_eq_lowered(extension, "ogg") {
        String::from_str("audio/ogg")
    } else if str_eq_lowered(extension, "pdf") {
        String::from_str("application/pdf")
    } else if str_eq_lowered(extension, "vtt") {
        String::from_str("text/vtt")
    } else if str_eq_lowered(extension, "srt") {
        String::from_str("application/x-subrip")
    } else {
        String::from_str("application/octet-stream")
    }
}

} // verus!
