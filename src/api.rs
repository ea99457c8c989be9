//! The records a gateway node sends and receives over its HTTP interface,
//! and how each is filled in from what the node found on disk.
use vstd::prelude::*;
use crate::local_store::{format_time, time_text};

verus! {

/// One bucket in a bucket listing, with totals over the files it holds.
#[derive(Debug)]
pub struct BucketInfo {
    pub name: String,
    pub size: u64,
    pub created: String,
    pub modified: String,
    pub file_count: usize,
}

/// The answer to a bucket listing.
#[derive(Debug)]
pub struct BucketsResponse {
    pub buckets: Vec<BucketInfo>,
}

/// A request to create a bucket.
#[derive(Debug)]
pub struct CreateBucketReq {
    pub name: String,
}

/// The answer to an upload.
#[derive(Debug)]
pub struct UploadFileResp {
    pub success: bool,
    pub file: FileInfo,
}

/// What was stored by an upload.
#[derive(Debug)]
pub struct FileInfo {
    /// The generated object key.
    pub name: String,
    /// The file name the client gave.
    pub original_name: String,
    pub size: u64,
    /// Where the bytes were written on the node's disk.
    pub path: String,
    pub bucket: String,
}

/// The answer to a file listing of one bucket.
#[derive(Debug)]
pub struct FilesListResp {
    pub files: Vec<FileInfoShort>,
    pub bucket: String,
}

/// One file in a file listing.
#[derive(Debug)]
pub struct FileInfoShort {
    pub name: String,
    pub size: u64,
    pub created: String,
    pub modified: String,
    pub bucket: String,
}

/// A request to register a node; each member left out is filled in from the
/// node that receives it.
#[derive(Debug)]
pub struct NodeRegisterReq {
    pub id: Option<String>,
    pub host: Option<String>,
    pub port: Option<u16>,
}

/// The sum of a sequence of sizes.
pub open spec fn total_size(sizes: Seq<u64>) -> nat
    decreases sizes.len(),
{
    if sizes.len() == 0 {
        0
    } else {
        total_size(sizes.drop_last()) + sizes.last() as nat
    }
}

/// The listing entry for bucket `name`, whose files have the sizes
/// `file_sizes`, with its creation and modification times in seconds since
/// the epoch where known.
pub fn bucket_info(name: String, file_sizes: &Vec<u64>, created: Option<u64>, modified: Option<u64>) -> (r: BucketInfo)
    requires
        total_size(file_sizes@) <= u64::MAX,
    ensures
        r.name@ == name@,
        r.size as nat == total_size(file_sizes@),
        r.file_count == file_sizes@.len(),
        r.created@ == time_text(created),
        r.modified@ == time_text(modified),
{
    let mut size: u64 = 0;
    let mut i: usize = 0;
    while i < file_sizes.len()
        invariant
            i <= file_sizes@.len(),
            size as nat == total_size(file_sizes@.subrange(0, i as int)),
            total_size(file_sizes@) <= u64::MAX,
        decreases file_sizes@.len() - i,
    {
        proof {
            assert(file_sizes@.subrange(0, i + 1).drop_last() =~= file_sizes@.subrange(0, i as int));
            lemma_total_size_prefix(file_sizes@, i + 1);
        }
        size = size + file_sizes[i];
        i = i + 1;
    }
    assert(file_sizes@.subrange(0, i as int) =~= file_sizes@);
    BucketInfo {
        name,
        size,
        created: format_time(created),
        modified: format_time(modified),
        file_count: file_sizes.len(),
    }
}

/// The sizes of a prefix never add up to more than all the sizes.
proof fn lemma_total_size_prefix(sizes: Seq<u64>, k: int)
    requires
        0 <= k <= sizes.len(),
    ensures
        total_size(sizes.subrange(0, k)) <= total_size(sizes),
    decreases sizes.len() - k,
{
    if k == sizes.len() {
        assert(sizes.subrange(0, k) =~= sizes);
    } else {
        lemma_total_size_prefix(sizes.drop_last(), k);
        assert(sizes.drop_last().subrange(0, k) =~= sizes.subrange(0, k));
    }
}

/// The listing entry for one file of `bucket`.
pub fn file_entry(name: String, size: u64, created: Option<u64>, modified: Option<u64>, bucket: String) -> (r: FileInfoShort)
    ensures
        r.name@ == name@,
        r.size == size,
        r.created@ == time_text(created),
        r.modified@ == time_text(modified),
        r.bucket@ == bucket@,
{
    FileInfoShort { name, size, created: format_time(created), modified: format_time(modified), bucket }
}

/// The answer to a successful upload of `original_name` into `bucket`,
/// stored under `key` at `path`.
pub fn upload_response(key: String, original_name: String, size: u64, path: String, bucket: String) -> (r: UploadFileResp)
    ensures
        r.success,
        r.file.name@ == key@,
        r.file.original_name@ == original_name@,
        r.file.size == size,
        r.file.path@ == path@,
        r.file.bucket@ == bucket@,
{
    UploadFileResp { success: true, file: FileInfo { name: key, original_name, size, path, bucket } }
}

} // verus!
