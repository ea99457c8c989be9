//! The decisions a node takes about its own disk: which bucket names are
//! acceptable, when a create or a delete is refused, how a fresh object key
//! is formed, and how a timestamp is shown. The disk itself is read and
//! written by the caller, which hands in what it found.
use vstd::prelude::*;
use crate::text::{
    decimal, decimal_string, is_digit, lemma_decimal_digits, lemma_decimal_injective, owned, push_char, push_decimal,
    same_text,
};

verus! {

/// Why a request about local buckets or objects is refused.
#[derive(Debug, Clone, Copy, PartialEq, Eq, Structural)]
pub enum StoreError {
    /// The bucket name is empty.
    EmptyName,
    /// The bucket name holds a character other than `a`-`z`, `0`-`9` and `-`,
    /// or starts or ends with `-`.
    InvalidName,
    /// A bucket of that name already exists.
    AlreadyExists,
    /// The bucket or object does not exist.
    NotFound,
}

impl StoreError {
    /// The HTTP status that reports this error.
    pub fn status(&self) -> (r: u16)
        ensures
            r == match *self {
                StoreError::EmptyName | StoreError::InvalidName => 400u16,
                StoreError::AlreadyExists => 409u16,
                StoreError::NotFound => 404u16,
            },
    {
        match self {
            StoreError::EmptyName | StoreError::InvalidName => 400,
            StoreError::AlreadyExists => 409,
            StoreError::NotFound => 404,
        }
    }
}

pub open spec fn bucket_char(c: char) -> bool {
    ('a' <= c <= 'z') || ('0' <= c <= '9') || c == '-'
}

/// A bucket name: non-empty, only lowercase ASCII letters, digits and `-`,
/// and neither first nor last character a `-`.
pub open spec fn valid_bucket_name(s: Seq<char>) -> bool {
    &&& s.len() > 0
    &&& forall|i: int| 0 <= i < s.len() ==> bucket_char(#[trigger] s[i])
    &&& s[0] != '-'
    &&& s.last() != '-'
}

/// Whether `name` may name a bucket.
pub fn is_valid_bucket_name(name: &str) -> (r: bool)
    ensures
        r == valid_bucket_name(name@),
{
    let n = name.unicode_len();
    if n == 0 {
        return false;
    }
    let mut i: usize = 0;
    while i < n
        invariant
            i <= n,
            n == name@.len(),
            forall|j: int| 0 <= j < i ==> bucket_char(#[trigger] name@[j]),
        decreases n - i,
    {
        let c = name.get_char(i);
        let ok = ('a' <= c && c <= 'z') || ('0' <= c && c <= '9') || c == '-';
        if !ok {
            assert(!bucket_char(name@[i as int]));
            return false;
        }
        i = i + 1;
    }
    name.get_char(0) != '-' && name.get_char(n - 1) != '-'
}

/// What a create request for bucket `name` comes to, given whether a bucket
/// of that name is already on disk. `Ok` means the caller creates it.
pub open spec fn new_bucket_outcome(name: Seq<char>, exists: bool) -> Result<(), StoreError> {
    if name.len() == 0 {
        Err(StoreError::EmptyName)
    } else if !valid_bucket_name(name) {
        Err(StoreError::InvalidName)
    } else if exists {
        Err(StoreError::AlreadyExists)
    } else {
        Ok(())
    }
}

/// Decides a create request for bucket `name`; `exists` says whether a
/// bucket of that name is already on disk. The name is checked first, so an
/// invalid name is refused whatever is on disk, and nothing is created.
pub fn check_new_bucket(name: &str, exists: bool) -> (r: Result<(), StoreError>)
    ensures
        r == new_bucket_outcome(name@, exists),
        !valid_bucket_name(name@) ==> (r == Err::<(), StoreError>(StoreError::EmptyName) || r
            == Err::<(), StoreError>(StoreError::InvalidName)),
{
    if name.unicode_len() == 0 {
        return Err(StoreError::EmptyName);
    }
    if !is_valid_bucket_name(name) {
        return Err(StoreError::InvalidName);
    }
    if exists {
        return Err(StoreError::AlreadyExists);
    }
    Ok(())
}

/// Creating a bucket with a valid name succeeds while no bucket of that name
/// exists, and once it exists a second create is refused as a conflict.
pub proof fn lemma_create_bucket_once(name: Seq<char>)
    requires
        valid_bucket_name(name),
    ensures
        new_bucket_outcome(name, false) == Ok::<(), StoreError>(()),
        new_bucket_outcome(name, true) == Err::<(), StoreError>(StoreError::AlreadyExists),
{
}

/// An invalid bucket name is refused as invalid input, whether or not a
/// directory of that name exists, so a create never makes one.
pub proof fn lemma_invalid_name_refused(name: Seq<char>, exists: bool)
    requires
        !valid_bucket_name(name),
    ensures
        new_bucket_outcome(name, exists) == Err::<(), StoreError>(StoreError::EmptyName)
            || new_bucket_outcome(name, exists) == Err::<(), StoreError>(StoreError::InvalidName),
        new_bucket_outcome(name, exists) is Err,
{
}

/// What a request on an existing bucket or object (delete, list, stat) comes
/// to, given whether it is on disk.
pub fn require_present(exists: bool) -> (r: Result<(), StoreError>)
    ensures
        r == (if exists { Ok::<(), StoreError>(()) } else { Err(StoreError::NotFound) }),
{
    if exists { Ok(()) } else { Err(StoreError::NotFound) }
}

/// How a modification time or creation time is shown: whole seconds since the
/// Unix epoch in decimal, or `0` when the time is unknown.
pub open spec fn time_text(secs: Option<u64>) -> Seq<char> {
    match secs {
        Some(s) => decimal(s as nat),
        None => seq!['0'],
    }
}

/// Shows a file time given as whole seconds since the Unix epoch; `None`
/// stands for a time the file system could not give or one before the epoch.
pub fn format_time(secs: Option<u64>) -> (r: String)
    ensures
        r@ == time_text(secs),
{
    match secs {
        Some(s) => decimal_string(s),
        None => {
            let mut out = String::new();
            push_char(&mut out, '0');
            assert(out@ =~= seq!['0']);
            out
        },
    }
}

/// The key under which an upload is stored: the upload time in milliseconds
/// since the epoch, a random number, and the name the client gave the file,
/// joined by `-`.
pub open spec fn object_key_text(millis: nat, nonce: nat, original: Seq<char>) -> Seq<char> {
    decimal(millis) + seq!['-'] + decimal(nonce) + seq!['-'] + original
}

/// Relies on `RngCore::try_fill_bytes` of `rand::rngs::OsRng`: four bytes
/// from the operating system's random source, read as a little-endian number
/// as `OsRng::next_u32` reads them, or `None` when that source fails. Nothing
/// is known of the number.
#[verifier::external_body]
pub fn rand_u32() -> Option<u32> {
    let mut buf = [0u8; 4];
    match <rand::rngs::OsRng as rand::RngCore>::try_fill_bytes(&mut rand::rngs::OsRng, &mut buf) {
        Ok(()) => Some(u32::from_le_bytes(buf)),
        Err(_) => None,
    }
}

/// Relies on chrono's `DateTime::<Utc>::from_timestamp` and
/// `DateTime::timestamp_millis`, fed from `SystemTime::now`: the current time
/// in milliseconds since the Unix epoch, or `None` when the clock reads a
/// time before the epoch or beyond chrono's range. Nothing is known of it.
#[verifier::external_body]
fn now_millis() -> Option<u64> {
    let since = std::time::SystemTime::now().duration_since(std::time::UNIX_EPOCH).ok()?;
    let t = chrono::DateTime::<chrono::Utc>::from_timestamp(since.as_secs() as i64, since.subsec_nanos())?;
    u64::try_from(t.timestamp_millis()).ok()
}

/// The object key for an upload of `original` at `millis` with the random
/// number `nonce`.
pub fn object_key(millis: u64, nonce: u32, original: &str) -> (r: String)
    ensures
        r@ == object_key_text(millis as nat, nonce as nat, original@),
{
    let mut out = decimal_string(millis);
    push_char(&mut out, '-');
    push_decimal(&mut out, nonce as u64);
    push_char(&mut out, '-');
    out.append(original);
    out
}

/// A fresh key for an upload of `original`, from the current time and a
/// random number; `None` when the clock or the random source gives neither.
/// Uploads never overwrite: each gets a key of its own.
pub fn new_object_key(original: &str) -> (r: Option<String>)
    ensures
        r matches Some(k) ==> exists|millis: u64, nonce: u32|
            k@ == object_key_text(millis as nat, nonce as nat, original@),
{
    let millis = match now_millis() {
        Some(m) => m,
        None => return None,
    };
    let nonce = match rand_u32() {
        Some(n) => n,
        None => return None,
    };
    let k = object_key(millis, nonce, original);
    assert(k@ == object_key_text(millis as nat, nonce as nat, original@));
    Some(k)
}

/// Two uploads of the same original name get different keys unless they
/// happened in the same millisecond and drew the same random number.
pub proof fn lemma_object_keys_distinct(m1: nat, n1: nat, m2: nat, n2: nat, original: Seq<char>)
    requires
        m1 != m2 || n1 != n2,
    ensures
        object_key_text(m1, n1, original) != object_key_text(m2, n2, original),
{
    let k1 = object_key_text(m1, n1, original);
    let k2 = object_key_text(m2, n2, original);
    if k1 == k2 {
        let a1 = decimal(m1);
        let a2 = decimal(m2);
        let b1 = decimal(n1);
        let b2 = decimal(n2);
        lemma_decimal_digits(m1);
        lemma_decimal_digits(m2);
        lemma_decimal_digits(n1);
        lemma_decimal_digits(n2);
        // The first `-` of a key ends the time part.
        if a1.len() < a2.len() {
            assert(k1[a1.len() as int] == '-');
            assert(k2[a1.len() as int] == a2[a1.len() as int]);
            assert(is_digit(a2[a1.len() as int]));
        } else if a2.len() < a1.len() {
            assert(k2[a2.len() as int] == '-');
            assert(k1[a2.len() as int] == a1[a2.len() as int]);
            assert(is_digit(a1[a2.len() as int]));
        } else {
            assert(a1 =~= k1.subrange(0, a1.len() as int));
            assert(a2 =~= k2.subrange(0, a2.len() as int));
            lemma_decimal_injective(m1, m2);
            let s: int = a1.len() as int + 1;
            // The next `-` ends the random part.
            if b1.len() < b2.len() {
                assert(k1[s + b1.len() as int] == '-');
                assert(k2[s + b1.len() as int] == b2[b1.len() as int]);
                assert(is_digit(b2[b1.len() as int]));
            } else if b2.len() < b1.len() {
                assert(k2[s + b2.len() as int] == '-');
                assert(k1[s + b2.len() as int] == b1[b2.len() as int]);
                assert(is_digit(b1[b2.len() as int]));
            } else {
                assert(b1 =~= k1.subrange(s, s + b1.len() as int));
                assert(b2 =~= k2.subrange(s, s + b2.len() as int));
                lemma_decimal_injective(n1, n2);
            }
        }
    }
}

/// Whether an upload form field is the file: the field named `file`, or one
/// with no name at all.
pub fn is_file_field(field_name: Option<&str>) -> (r: bool)
    ensures
        r == match field_name {
            Some(n) => n@ == "file"@,
            None => true,
        },
{
    match field_name {
        Some(n) => same_text(n, "file"),
        None => true,
    }
}

/// The name an upload is known by: the file name the client sent, or
/// `upload.bin` when it sent none.
pub fn original_name_or_default(file_name: Option<&str>) -> (r: String)
    ensures
        r@ == match file_name {
            Some(n) => n@,
            None => "upload.bin"@,
        },
{
    match file_name {
        Some(n) => owned(n),
        None => owned("upload.bin"),
    }
}

/// What an upload does with the next part of its form.
#[derive(Debug, Clone, Copy, PartialEq, Eq, Structural)]
pub enum UploadStep {
    /// Not the file: go on to the next part.
    Skip,
    /// The file: store it and answer; later parts are not read.
    Store,
    /// The form ended without a file: refuse the upload.
    NoFile,
}

/// The step for the next part of an upload form: `part` is `None` when the
/// form has no more parts (or cannot be read further), else the part's field
/// name, itself `None` when the part has none.
pub fn next_upload_step(part: Option<Option<&str>>) -> (r: UploadStep)
    ensures
        r == match part {
            None => UploadStep::NoFile,
            Some(Some(n)) => if n@ == "file"@ { UploadStep::Store } else { UploadStep::Skip },
            Some(None) => UploadStep::Store,
        },
{
    match part {
        None => UploadStep::NoFile,
        Some(name) => if is_file_field(name) { UploadStep::Store } else { UploadStep::Skip },
    }
}

} // verus!
