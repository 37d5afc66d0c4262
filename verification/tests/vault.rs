use shard_vault::database::{
    content_references, mime_type_for, plan_unlock, vault_status, UnlockPath, VaultManager,
};
use shard_vault::VaultError;

#[test]
fn missing_store_means_create() {
    assert_eq!(plan_unlock(false, false), Ok(UnlockPath::Create));
    assert_eq!(plan_unlock(false, true), Ok(UnlockPath::Create));
}

#[test]
fn missing_salt_is_reported_as_missing_salt() {
    // Never InvalidPassword: the caller must distinguish corruption
    // from a wrong password.
    assert_eq!(plan_unlock(true, false), Err(VaultError::MissingSalt));
}

#[test]
fn present_store_and_salt_mean_open() {
    assert_eq!(plan_unlock(true, true), Ok(UnlockPath::Open));
}

#[test]
fn status_probe() {
    assert_eq!(vault_status(false, false), Err("Invalid path".to_string()));
    assert_eq!(vault_status(true, true), Ok("existing".to_string()));
    assert_eq!(vault_status(true, false), Ok("new".to_string()));
}

#[test]
fn unlock_with_correct_password_matches_creation_key() {
    let (created, salt) = VaultManager::create_session(
        "/vault/shards.db".to_string(),
        "/vault/assets".to_string(),
        "hunter2",
    );
    assert_eq!(salt.len(), 16);
    assert_eq!(created.asset_key.len(), 32);
    // The store accepts the correct password on its verification read.
    let reopened = VaultManager::open_session(
        "/vault/shards.db".to_string(),
        "/vault/assets".to_string(),
        "hunter2",
        &salt,
        Vec::new(),
        true,
    )
    .unwrap();
    assert_eq!(reopened.asset_key, created.asset_key);
}

#[test]
fn unlock_with_wrong_password_is_invalid_password() {
    let (_, salt) = VaultManager::create_session(
        "/vault/shards.db".to_string(),
        "/vault/assets".to_string(),
        "hunter2",
    );
    // The store rejects a wrong password by failing the verification read.
    let r = VaultManager::open_session(
        "/vault/shards.db".to_string(),
        "/vault/assets".to_string(),
        "wrong password",
        &salt,
        Vec::new(),
        false,
    );
    assert_eq!(r.unwrap_err(), VaultError::InvalidPassword);
}

#[test]
fn mime_guesses() {
    assert_eq!(mime_type_for("png"), "image/png");
    assert_eq!(mime_type_for("JPG"), "image/jpeg");
    assert_eq!(mime_type_for("jpeg"), "image/jpeg");
    assert_eq!(mime_type_for("Mp4"), "video/mp4");
    assert_eq!(mime_type_for("mkv"), "video/x-matroska");
    assert_eq!(mime_type_for("srt"), "application/x-subrip");
    assert_eq!(mime_type_for("exe"), "application/octet-stream");
    assert_eq!(mime_type_for(""), "application/octet-stream");
}

#[test]
fn reference_scanner_finds_embedded_ids() {
    let id = "123e4567-e89b-42d3-a456-426614174000";
    let content = format!("intro text asset://{id} trailing");
    assert!(content_references(&content, id));
    assert!(content_references(&format!("asset://{id}"), id));
    assert!(!content_references("no references here", id));
    // The marker alone, or a different id after it, is no reference.
    assert!(!content_references("asset://", id));
    assert!(!content_references(
        "asset://ffffffff-ffff-ffff-ffff-ffffffffffff",
        id
    ));
    // A reference cut short at the end of the text does not count.
    let cut = format!("asset://{}", &id[..35]);
    assert!(!content_references(&cut, id));
}

#[test]
fn import_records_an_unowned_asset() {
    let (mut m, _salt) = VaultManager::create_session(
        "/v/shards.db".to_string(),
        "/v/assets".to_string(),
        "pw",
    );
    let raw = b"binary image bytes".to_vec();
    let (asset, blob) = m
        .import_asset(&raw, "cat".to_string(), "png".to_string(), "2024-01-01".to_string())
        .unwrap();
    assert_eq!(asset.id.len(), 36);
    assert_eq!(asset.shard_id, None);
    assert_eq!(asset.file_path, format!("{}.png", asset.id));
    assert_eq!(asset.original_name, "cat");
    assert_eq!(asset.mime_type, "image/png");
    assert_eq!(asset.created_at, "2024-01-01");
    assert_eq!(m.assets.len(), 1);
    // The blob on disk decrypts back to the imported bytes.
    let back = shard_vault::security::decrypt_data(&blob, &m.asset_key).unwrap();
    assert_eq!(back, raw);
}

#[test]
fn remove_asset_and_not_found() {
    let (mut m, _salt) =
        VaultManager::create_session("/v/db".to_string(), "/v/assets".to_string(), "pw");
    let (asset, _blob) = m
        .import_asset(b"x", "a".to_string(), "pdf".to_string(), "t".to_string())
        .unwrap();
    let removed = m.remove_asset(&asset.id).unwrap();
    assert_eq!(removed.file_path, asset.file_path);
    assert_eq!(m.assets.len(), 0);
    assert_eq!(m.remove_asset(&asset.id).unwrap_err(), VaultError::NotFound);
}

#[test]
fn link_assets_overwrites_ownership() {
    let (mut m, _salt) =
        VaultManager::create_session("/v/db".to_string(), "/v/assets".to_string(), "pw");
    let (a1, _) = m
        .import_asset(b"one", "one".to_string(), "png".to_string(), "t".to_string())
        .unwrap();
    let (a2, _) = m
        .import_asset(b"two", "two".to_string(), "png".to_string(), "t".to_string())
        .unwrap();
    let content = format!("see asset://{} here", a1.id);
    let touched = m.link_assets(&"shard-1".to_string(), &content);
    assert_eq!(touched, vec![a1.id.clone()]);
    assert_eq!(m.assets[0].shard_id, Some("shard-1".to_string()));
    assert_eq!(m.assets[1].shard_id, None);
    // A later save of another record referencing the same asset steals it.
    let touched = m.link_assets(&"shard-2".to_string(), &content);
    assert_eq!(touched, vec![a1.id.clone()]);
    assert_eq!(m.assets[0].shard_id, Some("shard-2".to_string()));
    let _ = a2;
}

#[test]
fn cascade_removes_only_owned_assets() {
    let (mut m, _salt) =
        VaultManager::create_session("/v/db".to_string(), "/v/assets".to_string(), "pw");
    let (a1, _) = m
        .import_asset(b"one", "one".to_string(), "png".to_string(), "t".to_string())
        .unwrap();
    let (a2, _) = m
        .import_asset(b"two", "two".to_string(), "png".to_string(), "t".to_string())
        .unwrap();
    let content = format!("asset://{}", a1.id);
    m.link_assets(&"shard-1".to_string(), &content);
    let removed = m.remove_assets_of_shard(&"shard-1".to_string());
    assert_eq!(removed.len(), 1);
    assert_eq!(removed[0].id, a1.id);
    assert_eq!(m.assets.len(), 1);
    assert_eq!(m.assets[0].id, a2.id);
}

#[test]
fn imports_into_fresh_vault_always_succeed() {
    // No 36-character id exists yet, so no drawn id can collide: every
    // import within the cipher's bound is owed success.
    let (mut m, _salt) =
        VaultManager::create_session("/v/db".to_string(), "/v/assets".to_string(), "pw");
    for i in 0..40u8 {
        let (asset, _blob) = m
            .import_asset(&[i], format!("file{i}"), "png".to_string(), "t".to_string())
            .unwrap();
        assert_eq!(asset.id.len(), 36);
    }
    assert_eq!(m.assets.len(), 40);
}
