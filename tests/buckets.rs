use fileio::api::{bucket_info, file_entry, upload_response};
use fileio::directory::plan_object_delete;
use fileio::local_store::{
    check_new_bucket, format_time, is_file_field, is_valid_bucket_name, new_object_key, next_upload_step, object_key,
    original_name_or_default, rand_u32, require_present, StoreError, UploadStep,
};

#[test]
fn valid_bucket_created_once_then_conflict() {
    for name in ["my-bucket", "a", "abc123", "a-b-c", "0", "9z"] {
        assert!(is_valid_bucket_name(name), "{}", name);
        assert_eq!(check_new_bucket(name, false), Ok(()));
        assert_eq!(check_new_bucket(name, true), Err(StoreError::AlreadyExists));
    }
}

#[test]
fn empty_bucket_name_is_refused() {
    assert!(!is_valid_bucket_name(""));
    assert_eq!(check_new_bucket("", false), Err(StoreError::EmptyName));
    assert_eq!(check_new_bucket("", true), Err(StoreError::EmptyName));
}

#[test]
fn invalid_bucket_names_are_refused_before_disk_state() {
    for name in ["MyBucket", "-abc", "abc-", "-", "ab_c", "ab c", "a.b", "ümlaut", "ab/c"] {
        assert!(!is_valid_bucket_name(name), "{}", name);
        assert_eq!(check_new_bucket(name, false), Err(StoreError::InvalidName));
        assert_eq!(check_new_bucket(name, true), Err(StoreError::InvalidName));
    }
}

#[test]
fn error_statuses() {
    assert_eq!(StoreError::EmptyName.status(), 400);
    assert_eq!(StoreError::InvalidName.status(), 400);
    assert_eq!(StoreError::AlreadyExists.status(), 409);
    assert_eq!(StoreError::NotFound.status(), 404);
}

#[test]
fn deleting_missing_things_is_not_found() {
    assert_eq!(require_present(false), Err(StoreError::NotFound));
    assert_eq!(require_present(true), Ok(()));
    assert_eq!(plan_object_delete("b", "o1", false), Err(StoreError::NotFound));
    assert_eq!(plan_object_delete("b", "o1", true), Ok("b:o1".to_string()));
}

#[test]
fn times_are_shown_in_seconds() {
    assert_eq!(format_time(Some(0)), "0");
    assert_eq!(format_time(Some(1700000000)), "1700000000");
    assert_eq!(format_time(Some(u64::MAX)), "18446744073709551615");
    assert_eq!(format_time(None), "0");
}

#[test]
fn object_key_joins_time_nonce_and_name() {
    assert_eq!(object_key(1700000000123, 42, "a.txt"), "1700000000123-42-a.txt");
    assert_eq!(object_key(0, 0, ""), "0-0-");
    assert_eq!(object_key(5, u32::MAX, "x-y"), "5-4294967295-x-y");
}

#[test]
fn same_name_uploaded_twice_gets_two_keys() {
    let k1 = new_object_key("photo.png").unwrap();
    let k2 = new_object_key("photo.png").unwrap();
    assert_ne!(k1, k2);
    for k in [&k1, &k2] {
        assert!(k.ends_with("-photo.png"));
        let parts: Vec<&str> = k.splitn(3, '-').collect();
        assert_eq!(parts.len(), 3);
        assert!(parts[0].parse::<u64>().unwrap() > 1_600_000_000_000);
        assert!(parts[1].parse::<u32>().is_ok());
        assert_eq!(parts[2], "photo.png");
    }
}

#[test]
fn random_numbers_vary() {
    let draws: Vec<u32> = (0..8).map(|_| rand_u32().unwrap()).collect();
    assert!(draws.iter().any(|d| *d != draws[0]));
}

#[test]
fn upload_form_fields() {
    assert!(is_file_field(Some("file")));
    assert!(is_file_field(None));
    assert!(!is_file_field(Some("avatar")));
    assert!(!is_file_field(Some("File")));
    assert_eq!(original_name_or_default(Some("notes.md")), "notes.md");
    assert_eq!(original_name_or_default(None), "upload.bin");
}

#[test]
fn bucket_totals() {
    let info = bucket_info("photos".to_string(), &vec![1, 2, 3], Some(5), None);
    assert_eq!(info.name, "photos");
    assert_eq!(info.size, 6);
    assert_eq!(info.file_count, 3);
    assert_eq!(info.created, "5");
    assert_eq!(info.modified, "0");
    let empty = bucket_info("empty".to_string(), &vec![], None, Some(7));
    assert_eq!(empty.size, 0);
    assert_eq!(empty.file_count, 0);
    assert_eq!(empty.modified, "7");
    let big = bucket_info("big".to_string(), &vec![u64::MAX - 1, 1], None, None);
    assert_eq!(big.size, u64::MAX);
}

#[test]
fn listing_and_upload_records() {
    let e = file_entry("k".to_string(), 10, Some(1), Some(2), "b".to_string());
    assert_eq!((e.name.as_str(), e.size, e.created.as_str(), e.modified.as_str(), e.bucket.as_str()), ("k", 10, "1", "2", "b"));
    let u = upload_response("1-2-a".to_string(), "a".to_string(), 3, "./storage/b/1-2-a".to_string(), "b".to_string());
    assert!(u.success);
    assert_eq!(u.file.name, "1-2-a");
    assert_eq!(u.file.original_name, "a");
    assert_eq!(u.file.size, 3);
    assert_eq!(u.file.path, "./storage/b/1-2-a");
    assert_eq!(u.file.bucket, "b");
}

#[test]
fn upload_form_steps() {
    assert_eq!(next_upload_step(Some(Some("file"))), UploadStep::Store);
    assert_eq!(next_upload_step(Some(None)), UploadStep::Store);
    assert_eq!(next_upload_step(Some(Some("description"))), UploadStep::Skip);
    assert_eq!(next_upload_step(Some(Some(""))), UploadStep::Skip);
    assert_eq!(next_upload_step(None), UploadStep::NoFile);
}
