use shard_vault::cache::{AssetCache, CACHE_CAPACITY};
use shard_vault::database::VaultManager;
use shard_vault::range::HttpStatus;
use shard_vault::security::encrypt_data;
use shard_vault::state::{AppState, ServePlan};
use shard_vault::VaultError;

fn unlocked_state_with_asset(raw: &[u8]) -> (AppState, String, Vec<u8>) {
    let (mut m, _salt) =
        VaultManager::create_session("/v/db".to_string(), "/v/assets".to_string(), "pw");
    let (asset, blob) = m
        .import_asset(raw, "clip".to_string(), "mp4".to_string(), "t".to_string())
        .unwrap();
    let mut state = AppState::new();
    state.install_session(m);
    (state, asset.id, blob)
}

#[test]
fn cache_never_exceeds_capacity() {
    let mut cache = AssetCache::new();
    for i in 0..(CACHE_CAPACITY + 10) {
        cache.insert(format!("id-{i}"), vec![i as u8]);
        assert!(cache.len() <= CACHE_CAPACITY);
    }
    assert_eq!(cache.len(), CACHE_CAPACITY);
    // The newest entry is always present.
    let last = format!("id-{}", CACHE_CAPACITY + 9);
    assert_eq!(cache.lookup(&last), Some(vec![(CACHE_CAPACITY + 9) as u8]));
}

#[test]
fn cache_lookup_insert_invalidate() {
    let mut cache = AssetCache::new();
    assert_eq!(cache.lookup(&"a".to_string()), None);
    cache.insert("a".to_string(), vec![1, 2, 3]);
    cache.insert("b".to_string(), vec![4]);
    assert_eq!(cache.lookup(&"a".to_string()), Some(vec![1, 2, 3]));
    cache.insert("a".to_string(), vec![9]);
    assert_eq!(cache.lookup(&"a".to_string()), Some(vec![9]));
    assert_eq!(cache.len(), 2);
    cache.invalidate(&"a".to_string());
    assert_eq!(cache.lookup(&"a".to_string()), None);
    assert_eq!(cache.lookup(&"b".to_string()), Some(vec![4]));
}

#[test]
fn locked_vault_refuses_requests() {
    let state = AppState::new();
    let r = state.prepare_asset(&"any".to_string());
    assert!(matches!(r, Err(VaultError::VaultLocked)));
}

#[test]
fn unknown_asset_is_not_found() {
    let (state, _id, _blob) = unlocked_state_with_asset(b"bytes");
    let r = state.prepare_asset(&"no-such-id".to_string());
    assert!(matches!(r, Err(VaultError::NotFound)));
}

#[test]
fn miss_then_hit_serves_same_bytes() {
    let raw: Vec<u8> = (0u32..1000).map(|i| (i % 256) as u8).collect();
    let (mut state, id, blob) = unlocked_state_with_asset(&raw);
    // First request: a miss that tells the caller what to read.
    let plan = state.prepare_asset(&id).unwrap();
    let (file_path, key, mime_type) = match plan {
        ServePlan::FromDisk { file_path, key, mime_type } => (file_path, key, mime_type),
        ServePlan::Cached { .. } => panic!("nothing was cached yet"),
    };
    assert_eq!(file_path, format!("{id}.mp4"));
    assert_eq!(mime_type, "video/mp4");
    // The caller reads the blob from disk and finishes the request.
    let resp = state
        .finish_serve(id.clone(), mime_type, &key, &blob, Some("bytes=0-99"))
        .unwrap();
    assert_eq!(resp.status, HttpStatus::PartialContent);
    assert_eq!(resp.body, &raw[0..100]);
    // Second request: a hit, no disk read needed.
    match state.prepare_asset(&id).unwrap() {
        ServePlan::Cached { data, mime_type } => {
            assert_eq!(data, raw);
            assert_eq!(mime_type, "video/mp4");
        },
        ServePlan::FromDisk { .. } => panic!("the decrypted bytes were not cached"),
    }
}

#[test]
fn corrupted_blob_fails_and_caches_nothing() {
    let (mut state, id, blob) = unlocked_state_with_asset(b"some media");
    let mut bad = blob.clone();
    let last = bad.len() - 1;
    bad[last] ^= 1;
    let plan = state.prepare_asset(&id).unwrap();
    let key = match plan {
        ServePlan::FromDisk { key, .. } => key,
        ServePlan::Cached { .. } => panic!("nothing was cached yet"),
    };
    let r = state.finish_serve(id.clone(), "video/mp4".to_string(), &key, &bad, None);
    assert!(matches!(r, Err(VaultError::DecryptionError)));
    assert!(matches!(
        state.prepare_asset(&id).unwrap(),
        ServePlan::FromDisk { .. }
    ));
}

#[test]
fn deleted_asset_is_never_served() {
    let (mut state, id, blob) = unlocked_state_with_asset(b"media to delete");
    // Cache it first by serving it once.
    let key = match state.prepare_asset(&id).unwrap() {
        ServePlan::FromDisk { key, .. } => key,
        ServePlan::Cached { .. } => panic!("nothing was cached yet"),
    };
    state
        .finish_serve(id.clone(), "video/mp4".to_string(), &key, &blob, None)
        .unwrap();
    assert!(matches!(
        state.prepare_asset(&id).unwrap(),
        ServePlan::Cached { .. }
    ));
    // Delete it: the record and the cache entry both go.
    let path = state.delete_asset(&id).unwrap();
    assert_eq!(path, format!("{id}.mp4"));
    assert!(matches!(
        state.prepare_asset(&id),
        Err(VaultError::NotFound)
    ));
    assert!(matches!(
        state.delete_asset(&id),
        Err(VaultError::NotFound)
    ));
}

#[test]
fn delete_without_prior_caching_is_not_found_too() {
    let (mut state, id, _blob) = unlocked_state_with_asset(b"never served");
    state.delete_asset(&id).unwrap();
    assert!(matches!(
        state.prepare_asset(&id),
        Err(VaultError::NotFound)
    ));
}

#[test]
fn close_vault_locks_requests_out() {
    let (mut state, id, _blob) = unlocked_state_with_asset(b"bytes");
    state.close_vault();
    assert!(matches!(
        state.prepare_asset(&id),
        Err(VaultError::VaultLocked)
    ));
    assert!(matches!(
        state.delete_asset(&id),
        Err(VaultError::VaultLocked)
    ));
}

#[test]
fn server_port_round_trip() {
    let mut state = AppState::new();
    assert_eq!(state.get_server_port(), 0);
    state.set_server_port(43211);
    assert_eq!(state.get_server_port(), 43211);
}

#[test]
fn full_response_decrypts_through_the_pipeline() {
    let raw = b"whole file served at once".to_vec();
    let (mut state, id, blob) = unlocked_state_with_asset(&raw);
    let key = match state.prepare_asset(&id).unwrap() {
        ServePlan::FromDisk { key, .. } => key,
        ServePlan::Cached { .. } => panic!("nothing was cached yet"),
    };
    let resp = state
        .finish_serve(id, "video/mp4".to_string(), &key, &blob, None)
        .unwrap();
    assert_eq!(resp.status, HttpStatus::Okay);
    assert_eq!(resp.body, raw);
    assert!(resp.accept_ranges);
}

#[test]
fn import_through_state_requires_unlock() {
    let mut state = AppState::new();
    let r = state.import_asset(b"raw", "n".to_string(), "png".to_string(), "t".to_string());
    assert!(matches!(r, Err(VaultError::VaultLocked)));
}

#[test]
fn encrypt_rejects_nothing_reasonable() {
    // Every plaintext a test can build is far below the cipher's bound.
    let key = vec![2u8; 32];
    assert!(encrypt_data(&vec![0u8; 1 << 20], &key).is_ok());
}

#[test]
fn delete_then_request_law_function() {
    let (mut state, id, _blob) = unlocked_state_with_asset(b"to be deleted");
    let (deleted, requested) = shard_vault::state::delete_then_request(&mut state, &id);
    assert!(deleted.is_ok());
    assert!(matches!(requested, Err(VaultError::NotFound)));
}

#[test]
fn cascade_delete_invalidates_cache() {
    let raw = b"owned media".to_vec();
    let (mut state, id, blob) = unlocked_state_with_asset(&raw);
    // Link the asset to a shard, then cache its bytes by serving once.
    state
        .link_assets(&"shard-9".to_string(), &format!("asset://{id}"))
        .unwrap();
    let key = match state.prepare_asset(&id).unwrap() {
        ServePlan::FromDisk { key, .. } => key,
        ServePlan::Cached { .. } => panic!("nothing was cached yet"),
    };
    state
        .finish_serve(id.clone(), "video/mp4".to_string(), &key, &blob, None)
        .unwrap();
    assert!(state.asset_cache.lookup(&id).is_some());
    // Deleting the owning shard removes the asset and its cache entry:
    // no decrypted bytes of a deleted asset stay in memory.
    let removed = state.delete_shard_assets(&"shard-9".to_string()).unwrap();
    assert_eq!(removed.len(), 1);
    assert_eq!(removed[0].id, id);
    assert!(state.asset_cache.lookup(&id).is_none());
    assert!(matches!(
        state.prepare_asset(&id),
        Err(VaultError::NotFound)
    ));
}

#[test]
fn insert_at_capacity_evicts_exactly_one() {
    let mut cache = AssetCache::new();
    for i in 0..CACHE_CAPACITY {
        cache.insert(format!("id-{i}"), vec![i as u8]);
    }
    assert_eq!(cache.len(), CACHE_CAPACITY);
    cache.insert("one-more".to_string(), vec![0xAA]);
    assert_eq!(cache.len(), CACHE_CAPACITY);
    assert_eq!(cache.lookup(&"one-more".to_string()), Some(vec![0xAA]));
}
