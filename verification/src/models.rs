//! The records the vault stores: user-authored shards and their binary
//! asset attachments.

use vstd::prelude::*;

verus! {

/// A user-authored record: title, text content and tags.
#[derive(Debug, Clone)]
pub struct Shard {
    /// Opaque unique identifier.
    pub id: String,
    /// Title text.
    pub title: String,
    /// Body text; may embed `asset://<id>` references.
    pub content: String,
    /// Free-form tags.
    pub tags: Vec<String>,
    /// Creation timestamp.
    pub created_at: String,
    /// Last-update timestamp.
    pub updated_at: String,
}

/// A binary attachment stored as an independently encrypted blob.
#[derive(Debug, Clone)]
pub struct Asset {
    /// Opaque unique identifier.
    pub id: String,
    /// The owning shard, unset until an owning record is saved.
    pub shard_id: Option<String>,
    /// Filename of the encrypted blob, relative to the asset directory.
    pub file_path: String,
    /// The imported file's original name (without extension).
    pub original_name: String,
    /// Guessed mime type, used by the streaming endpoint.
    pub mime_type: String,
    /// Creation timestamp.
    pub created_at: String,
}

impl Asset {
    /// A field-wise copy.
    pub fn duplicate(&self) -> (r: Asset)
        ensures
            r == *self,
    {
        Asset {
            id: self.id.clone(),
            shard_id: match &self.shard_id {
                Some(s) => Some(s.clone()),
                None => None,
            },
            file_path: self.file_path.clone(),
            original_name: self.original_name.clone(),
            mime_type: self.mime_type.clone(),
            created_at: self.created_at.clone(),
        }
    }
}

} // verus!
