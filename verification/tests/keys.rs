use orbitbuild::keys::{
    create_dir_failure, default_data_dir, dirs_home, key_path, load_or_generate_secret_key,
    load_secret_key, read_failure, resolve_secret_key, save_secret_key, write_failure, KeyError,
    KeyOrigin, NodeKey,
};
use orbitbuild::path::FsPath;
use orbitbuild::router::NodeBuilder;

fn generated(origin: KeyOrigin) -> NodeKey {
    match origin {
        KeyOrigin::Generated(key) => key,
        KeyOrigin::Loaded(_) => panic!("the key is new"),
    }
}

fn loaded(origin: KeyOrigin) -> NodeKey {
    match origin {
        KeyOrigin::Loaded(key) => key,
        KeyOrigin::Generated(_) => panic!("the key was stored"),
    }
}

#[test]
fn load_or_generate_creates_key() {
    let key = generated(load_or_generate_secret_key(None).unwrap_or_else(|_| panic!()));

    // File should be exactly 32 bytes
    let bytes = save_secret_key(&key);
    assert_eq!(bytes.len(), 32);

    // Loading again should return the same key
    let key2 = loaded(load_or_generate_secret_key(Some(&bytes)).unwrap_or_else(|_| panic!()));
    assert_eq!(key.bytes, key2.bytes);
}

#[test]
fn load_existing_key() {
    let original = NodeKey { bytes: rand::random::<[u8; 32]>() };
    let contents = save_secret_key(&original);

    let loaded = load_secret_key(&contents).unwrap_or_else(|_| panic!());
    assert_eq!(original.bytes, loaded.bytes);
}

#[test]
fn rejects_wrong_size_key_file() {
    let result = load_secret_key(&[0u8; 16]);
    assert!(result.is_err());
    assert!(result.err().unwrap().to_string().contains("32 bytes"));
}

#[test]
fn key_path_constructed_correctly() {
    let data = FsPath::from_text("/tmp/orbitbuild");
    assert_eq!(key_path(&data), FsPath::from_text("/tmp/orbitbuild/node.key"));
}

#[test]
fn generated_keys_differ() {
    let a = generated(load_or_generate_secret_key(None).unwrap_or_else(|_| panic!()));
    let b = generated(load_or_generate_secret_key(None).unwrap_or_else(|_| panic!()));
    assert_ne!(a.bytes, b.bytes);
}

#[test]
fn fresh_bytes_make_the_key() {
    let key = generated(resolve_secret_key(None, [9; 32]).unwrap_or_else(|_| panic!()));
    assert_eq!(key.bytes, [9; 32]);
    let key = loaded(resolve_secret_key(Some(&[5; 32]), [9; 32]).unwrap_or_else(|_| panic!()));
    assert_eq!(key.bytes, [5; 32]);
    assert_eq!(resolve_secret_key(Some(&[5; 33]), [9; 32]).err(), Some(KeyError::WrongSize));
    assert_eq!(resolve_secret_key(Some(&[]), [9; 32]).err(), Some(KeyError::WrongSize));
}

#[test]
fn data_directory_is_in_the_home_directory() {
    assert_eq!(
        default_data_dir(Some("/home/user"), Some("C:")),
        Ok(FsPath::from_text("/home/user/.orbitbuild"))
    );
    assert_eq!(
        default_data_dir(None, Some("/profile/")),
        Ok(FsPath::from_text("/profile/.orbitbuild"))
    );
    assert_eq!(default_data_dir(Some(""), None), Ok(FsPath::from_text(".orbitbuild")));
    let error = default_data_dir(None, None).unwrap_err();
    assert_eq!(error, KeyError::NoHome);
    assert_eq!(
        error.to_string(),
        "could not determine home directory: neither $HOME nor $USERPROFILE is set"
    );
    assert_eq!(dirs_home(Some("/h"), None), Ok(FsPath::from_text("/h")));
}

#[test]
fn failures_name_the_path() {
    let path = FsPath::from_text("/d/node.key");
    assert_eq!(read_failure(&path), "failed to read secret key from /d/node.key");
    assert_eq!(write_failure(&path), "failed to write secret key to /d/node.key");
    assert_eq!(
        create_dir_failure(&FsPath::from_text("/d")),
        "failed to create directory /d"
    );
}

#[test]
fn nodes_keep_their_keys() {
    let (first, to_store) = NodeBuilder::from_data_dir(None).unwrap_or_else(|_| panic!());
    let contents = to_store.unwrap();
    let (second, nothing) =
        NodeBuilder::from_data_dir(Some(&contents)).unwrap_or_else(|_| panic!());
    assert!(nothing.is_none());
    assert_eq!(first.secret_key().bytes, second.secret_key().bytes);
    assert_eq!(NodeBuilder::from_data_dir(Some(&[1])).err(), Some(KeyError::WrongSize));
}
