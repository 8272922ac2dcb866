use frostbyte::address::encode_address;
use frostbyte::file_manager::{get_base_home_path, get_frostbyte_base_path, get_path, FileErrors};
use frostbyte::keystore::get_keystore_path;
use frostbyte::store::{AccountStore, StoreError};

#[test]
fn store_reads_back_what_was_written() {
    let mut store = AccountStore::new();
    assert_eq!(store.len(), 0);
    store.write(String::from("alice"), vec![1, 2, 3]).expect("fresh name");
    store.write(String::from("bob"), vec![4, 5]).expect("fresh name");
    assert_eq!(store.read(&String::from("alice")).expect("present"), &vec![1, 2, 3]);
    assert_eq!(store.read(&String::from("bob")).expect("present"), &vec![4, 5]);
}

#[test]
fn store_rejects_duplicate_names() {
    let mut store = AccountStore::new();
    store.write(String::from("alice"), vec![1]).expect("fresh name");
    let r = store.write(String::from("alice"), vec![2]);
    assert!(matches!(r, Err(StoreError::AlreadyExists)));
    assert_eq!(store.len(), 1);
    assert_eq!(store.read(&String::from("alice")).expect("present"), &vec![1]);
}

#[test]
fn store_reports_missing_names() {
    let store = AccountStore::new();
    let r = store.read(&String::from("nobody"));
    assert!(matches!(r, Err(StoreError::NotFound)));
}

#[test]
fn store_lists_names_in_insertion_order() {
    let mut store = AccountStore::new();
    for name in ["a1", "a2", "a3"] {
        store.write(String::from(name), vec![0]).expect("fresh name");
    }
    let names = store.list();
    assert_eq!(names, vec!["a1", "a2", "a3"]);
}

#[test]
fn hex_address_of_known_bytes() {
    assert_eq!(encode_address(&[0x00, 0x0f, 0xa0, 0xff]), "000fa0ff");
    assert_eq!(encode_address(&[]), "");
}

#[test]
fn path_is_base_slash_relative() {
    let p = get_path("/home/user/.frostbyte", "keystore", true, false).expect("created");
    assert_eq!(p, "/home/user/.frostbyte/keystore");
}

#[test]
fn path_missing_without_leave_to_create() {
    let r = get_path("/home/user/.frostbyte", "keystore", false, false);
    assert!(matches!(r, Err(FileErrors::DoesNotExist)));
    let p = get_path("/home/user/.frostbyte", "keystore", false, true).expect("present");
    assert_eq!(p, "/home/user/.frostbyte/keystore");
}

#[test]
fn base_path_is_under_home() {
    let p = get_frostbyte_base_path("/home/user").expect("always resolves");
    assert_eq!(p, "/home/user/.frostbyte");
}

#[test]
fn home_path_prefers_appdata() {
    let p = get_base_home_path(Some(String::from("C:\\appdata")), Some(String::from("/home/u")));
    assert_eq!(p.expect("appdata set"), "C:\\appdata");
    let p = get_base_home_path(None, Some(String::from("/home/u")));
    assert_eq!(p.expect("home set"), "/home/u");
    assert!(get_base_home_path(None, None).is_err());
}

#[test]
fn keystore_path_is_under_base() {
    let p = get_keystore_path("/home/user/.frostbyte", false).expect("created when missing");
    assert_eq!(p, "/home/user/.frostbyte/keystore");
}
