//! Caller-driven multipart sessions.
//!
//! These managers expose the session primitives — part numbering, result
//! bookkeeping, and the payload a Complete call needs — to callers who
//! supply their own chunking policy. They perform no ordering of their
//! own: the caller is responsible for recording results in part-number
//! order. A driver pairs each manager with the storage collaborator: it
//! creates the session, performs each transfer (or, for the presigned
//! variant, hands the caller a signed request descriptor instead), and
//! completes or aborts the session with the state kept here.

use vstd::prelude::*;
use crate::ETag;

verus! {

/// Manages one multipart upload manually: keeps the session id, assigns
/// part numbers in order, and accumulates the integrity tags and byte
/// count that Complete needs.
pub struct UploadManager {
    pub e_tags: Vec<ETag>,
    pub upload_id: String,
    pub part_index: usize,
    pub bucket_name: String,
    pub object_name: String,
    pub bytes_uploaded: usize,
}

impl UploadManager {
    /// Every recorded result sits at the position its part number names:
    /// the tags are contiguous from part number 1 in recording order.
    pub open spec fn wf(self) -> bool {
        &&& self.e_tags@.len() <= self.part_index
        &&& forall|k: int|
            0 <= k < self.e_tags@.len() ==> (#[trigger] self.e_tags@[k]).part_number == k + 1
    }

    /// Starts the bookkeeping for a fresh multipart session: no parts yet,
    /// no bytes uploaded.
    pub fn new(upload_id: String, bucket_name: String, object_name: String) -> (m: UploadManager)
        ensures
            m.e_tags@.len() == 0,
            m.upload_id == upload_id,
            m.part_index == 0,
            m.bucket_name == bucket_name,
            m.object_name == object_name,
            m.bytes_uploaded == 0,
            m.wf(),
    {
        UploadManager {
            e_tags: Vec::new(),
            upload_id,
            part_index: 0,
            bucket_name,
            object_name,
            bytes_uploaded: 0,
        }
    }

    /// Claims the next part number for a part of `part_len` bytes and
    /// counts its bytes. The transfer itself is the driver's to perform;
    /// its tag is recorded afterwards with [`UploadManager::record_part`].
    pub fn begin_part(&mut self, part_len: usize) -> (part_number: usize)
        requires
            old(self).part_index < usize::MAX,
            old(self).bytes_uploaded + part_len <= usize::MAX,
        ensures
            part_number == old(self).part_index + 1,
            final(self).part_index == old(self).part_index + 1,
            final(self).bytes_uploaded == old(self).bytes_uploaded + part_len,
            final(self).e_tags == old(self).e_tags,
            final(self).upload_id == old(self).upload_id,
            final(self).bucket_name == old(self).bucket_name,
            final(self).object_name == old(self).object_name,
    {
        let part_number = self.part_index + 1;
        self.part_index = part_number;
        self.bytes_uploaded = self.bytes_uploaded + part_len;
        part_number
    }

    /// Records the integrity tag one part upload returned, under its part
    /// number. Results must be recorded in the order the numbers were
    /// claimed, with none skipped, as Complete expects them.
    pub fn record_part(&mut self, e_tag: String, part_number: usize)
        requires
            old(self).wf(),
            part_number == old(self).e_tags@.len() + 1,
            part_number <= old(self).part_index,
        ensures
            final(self).e_tags@ == old(self).e_tags@.push(
                ETag { e_tag: e_tag, part_number: part_number },
            ),
            final(self).wf(),
            final(self).part_index == old(self).part_index,
            final(self).bytes_uploaded == old(self).bytes_uploaded,
            final(self).upload_id == old(self).upload_id,
            final(self).bucket_name == old(self).bucket_name,
            final(self).object_name == old(self).object_name,
    {
        self.e_tags.push(ETag { e_tag, part_number });
    }

    /// The ordered results a Complete call must receive: every recorded
    /// tag, contiguous from part number 1.
    pub fn completed_parts(&self) -> (r: &Vec<ETag>)
        ensures
            r == &self.e_tags,
    {
        &self.e_tags
    }

    /// The total bytes this session uploaded, reported to the caller once
    /// Complete succeeds.
    pub fn total_bytes_uploaded(&self) -> (r: usize)
        ensures
            r == self.bytes_uploaded,
    {
        self.bytes_uploaded
    }
}

/// Manages one presigned multipart upload: the engine only assigns part
/// numbers and keeps the session identity; the caller performs each
/// transfer through a signed request descriptor and records the tags
/// itself.
pub struct PresignedUploadManager {
    pub upload_id: String,
    pub part_index: usize,
    pub bucket_name: String,
    pub object_name: String,
}

impl PresignedUploadManager {
    /// Starts the bookkeeping for a fresh presigned session: the first
    /// part will be numbered 1.
    pub fn new(upload_id: String, bucket_name: String, object_name: String) -> (m:
        PresignedUploadManager)
        ensures
            m.upload_id == upload_id,
            m.part_index == 1,
            m.bucket_name == bucket_name,
            m.object_name == object_name,
    {
        PresignedUploadManager { upload_id, part_index: 1, bucket_name, object_name }
    }

    /// Claims the next part number, as the shared atomic counter does:
    /// returns the current number and advances it.
    pub fn next_part(&mut self) -> (part_number: usize)
        requires
            old(self).part_index < usize::MAX,
        ensures
            part_number == old(self).part_index,
            final(self).part_index == old(self).part_index + 1,
            final(self).upload_id == old(self).upload_id,
            final(self).bucket_name == old(self).bucket_name,
            final(self).object_name == old(self).object_name,
    {
        let part_number = self.part_index;
        self.part_index = self.part_index + 1;
        part_number
    }
}

} // verus!
