//! Node identity: every node has a permanent ed25519 key, kept in a file of its data directory
//! so that the node is the same after a restart.

use vstd::prelude::*;
use vstd::slice::slice_to_vec;
use vstd::utf8;

use crate::encoding;
use crate::path;
use crate::path::FsPath;

verus! {

/// The directory for OrbitBuild data in a home directory.
pub const ORBITBUILD_DIR: &'static str = ".orbitbuild";

/// The name of the file with the node's secret key.
pub const KEY_FILE: &'static str = "node.key";

/// The length of a secret key, in bytes.
pub const KEY_LENGTH: usize = 32;

/// The secret key of a node, in the form in which it is stored.
#[derive(Clone, Copy)]
pub struct NodeKey {
    pub bytes: [u8; 32],
}

/// Why a node has no identity or no place for it.
#[derive(Debug, Clone, Copy, PartialEq, Eq, Structural)]
pub enum KeyError {
    /// There is neither `$HOME` nor `$USERPROFILE`.
    NoHome,
    /// A key file does not hold exactly one key.
    WrongSize,
}

/// What came of looking for the key of a node.
#[derive(Clone, Copy)]
pub enum KeyOrigin {
    /// The key was stored before.
    Loaded(NodeKey),
    /// The key is new, and has yet to be stored.
    Generated(NodeKey),
}

/// The key that a file with the given contents holds: all of them, where they have the length
/// of a key.
pub open spec fn stored_key(contents: Seq<u8>) -> Option<Seq<u8>> {
    if contents.len() == KEY_LENGTH {
        Some(contents)
    } else {
        None
    }
}

/// The contents of the file that stores a key: its bytes, and nothing else.
pub open spec fn key_file(key: Seq<u8>) -> Seq<u8> {
    key
}

impl KeyError {
    /// The message that describes this error.
    pub fn to_string(&self) -> (message: String)
        ensures
            message@ == match self {
                KeyError::NoHome =>
                    "could not determine home directory: neither $HOME nor $USERPROFILE is set"@,
                KeyError::WrongSize => "secret key file must be exactly 32 bytes"@,
            },
    {
        match self {
            KeyError::NoHome =>
                "could not determine home directory: neither $HOME nor $USERPROFILE is set".to_owned(),
            KeyError::WrongSize => "secret key file must be exactly 32 bytes".to_owned(),
        }
    }
}

/// What is said to have failed when a key file cannot be read.
pub fn read_failure(path: &FsPath) -> (context: String)
    ensures
        context@ == "failed to read secret key from "@ + encoding::shown(path@),
{
    "failed to read secret key from ".to_owned().concat(path.display().as_str())
}

/// What is said to have failed when the directory for a key file cannot be created.
pub fn create_dir_failure(dir: &FsPath) -> (context: String)
    ensures
        context@ == "failed to create directory "@ + encoding::shown(dir@),
{
    "failed to create directory ".to_owned().concat(dir.display().as_str())
}

/// What is said to have failed when a key file cannot be written.
pub fn write_failure(path: &FsPath) -> (context: String)
    ensures
        context@ == "failed to write secret key to "@ + encoding::shown(path@),
{
    "failed to write secret key to ".to_owned().concat(path.display().as_str())
}

/// The home directory: `$HOME`, or `$USERPROFILE` where that is not set.
pub fn dirs_home(home: Option<&str>, user_profile: Option<&str>) -> (res: Result<FsPath, KeyError>)
    ensures
        match (home, user_profile) {
            (Some(dir), _) => res matches Ok(path) && path@ == utf8::encode_utf8(dir@),
            (None, Some(dir)) => res matches Ok(path) && path@ == utf8::encode_utf8(dir@),
            (None, None) => res matches Err(e) && e == KeyError::NoHome,
        },
{
    match home {
        Some(dir) => Ok(FsPath::from_text(dir)),
        None => match user_profile {
            Some(dir) => Ok(FsPath::from_text(dir)),
            None => Err(KeyError::NoHome),
        },
    }
}

/// The data directory where none is chosen: `.orbitbuild` in the home directory.
pub fn default_data_dir(home: Option<&str>, user_profile: Option<&str>) -> (res: Result<
    FsPath,
    KeyError,
>)
    ensures
        match (home, user_profile) {
            (Some(dir), _) => res matches Ok(path) && path@ == path::path_join(
                utf8::encode_utf8(dir@),
                utf8::encode_utf8(ORBITBUILD_DIR@),
            ),
            (None, Some(dir)) => res matches Ok(path) && path@ == path::path_join(
                utf8::encode_utf8(dir@),
                utf8::encode_utf8(ORBITBUILD_DIR@),
            ),
            (None, None) => res matches Err(e) && e == KeyError::NoHome,
        },
{
    match dirs_home(home, user_profile) {
        Ok(dir) => Ok(dir.join(ORBITBUILD_DIR)),
        Err(e) => Err(e),
    }
}

/// The file with the secret key of the node whose data directory is `data_dir`.
pub fn key_path(data_dir: &FsPath) -> (path: FsPath)
    ensures
        path@ == path::path_join(data_dir@, utf8::encode_utf8(KEY_FILE@)),
{
    data_dir.join(KEY_FILE)
}

/// The key that a file with the contents `bytes` holds.
pub fn load_secret_key(bytes: &[u8]) -> (res: Result<NodeKey, KeyError>)
    ensures
        match res {
            Ok(key) => stored_key(bytes@) == Some(key.bytes@),
            Err(e) => e == KeyError::WrongSize && stored_key(bytes@) is None,
        },
{
    match key_array(bytes) {
        Some(arr) => Ok(NodeKey { bytes: arr }),
        None => Err(KeyError::WrongSize),
    }
}

/// `bytes` as an array, where there are exactly as many as a key has.
pub fn key_array(bytes: &[u8]) -> (res: Option<[u8; 32]>)
    ensures
        match res {
            Some(arr) => arr@ == bytes@,
            None => bytes@.len() != KEY_LENGTH,
        },
{
    if bytes.len() != KEY_LENGTH {
        return None;
    }
    let mut arr: [u8; 32] = [0u8;32];
    let mut i: usize = 0;
    while i < KEY_LENGTH
        invariant
            i <= KEY_LENGTH,
            bytes@.len() == KEY_LENGTH,
            arr@.len() == KEY_LENGTH,
            forall|j: int| 0 <= j < i ==> arr@[j] == bytes@[j],
        decreases KEY_LENGTH - i,
    {
        arr[i] = bytes[i];
        i = i + 1;
    }
    assert(arr@ =~= bytes@);
    Some(arr)
}

/// The contents of the file that stores `key`.
pub fn save_secret_key(key: &NodeKey) -> (contents: Vec<u8>)
    ensures
        contents@ == key_file(key.bytes@),
{
    slice_to_vec(key.bytes.as_slice())
}

/// Calls `rand::random`. Nothing is claimed of the result, which is random.
#[verifier::external_body]
fn random_key() -> (bytes: [u8; 32])
{
    rand::random::<[u8; 32]>()
}

/// The key of a node whose key file has the contents `stored`, or, where there is no such file,
/// a new key made of the random bytes `fresh`.
pub fn resolve_secret_key(stored: Option<&[u8]>, fresh: [u8; 32]) -> (res: Result<
    KeyOrigin,
    KeyError,
>)
    ensures
        match (stored, res) {
            (Some(bytes), Ok(KeyOrigin::Loaded(key))) => stored_key(bytes@) == Some(key.bytes@),
            (Some(bytes), Err(e)) => e == KeyError::WrongSize && stored_key(bytes@) is None,
            (None, Ok(KeyOrigin::Generated(key))) => key.bytes == fresh,
            _ => false,
        },
{
    match stored {
        Some(bytes) => match load_secret_key(bytes) {
            Ok(key) => Ok(KeyOrigin::Loaded(key)),
            Err(e) => Err(e),
        },
        None => Ok(KeyOrigin::Generated(NodeKey { bytes: fresh })),
    }
}

/// The key of a node whose key file has the contents `stored`, or, where there is no such file,
/// a new random key, which the caller stores with [`save_secret_key`].
pub fn load_or_generate_secret_key(stored: Option<&[u8]>) -> (res: Result<KeyOrigin, KeyError>)
    ensures
        match (stored, res) {
            (Some(bytes), Ok(KeyOrigin::Loaded(key))) => stored_key(bytes@) == Some(key.bytes@),
            (Some(bytes), Err(e)) => e == KeyError::WrongSize && stored_key(bytes@) is None,
            (None, Ok(KeyOrigin::Generated(_))) => true,
            _ => false,
        },
{
    resolve_secret_key(stored, random_key())
}

/// A node keeps its identity: the file that stores a key holds that key, and no other.
pub proof fn identity_survives_restart(key: NodeKey, contents: Seq<u8>)
    ensures
        key_file(key.bytes@).len() == KEY_LENGTH,
        stored_key(key_file(key.bytes@)) == Some(key.bytes@),
        stored_key(contents) == Some(key.bytes@) ==> contents == key_file(key.bytes@),
{
}

/// A key is stored as it is: the file holds the thirty-two bytes of the key and nothing else, and
/// a file of any other length holds no key.
pub proof fn keys_are_stored_as_they_are(key: Seq<u8>, contents: Seq<u8>)
    ensures
        key_file(key) == key,
        contents.len() == 32 ==> stored_key(contents) == Some(contents),
        contents.len() != 32 ==> stored_key(contents) is None,
{
}

/// Where the key is kept: under the directory `.orbitbuild`, in the file `node.key`.
pub proof fn places_of_the_key()
    ensures
        ORBITBUILD_DIR@ == ".orbitbuild"@,
        KEY_FILE@ == "node.key"@,
        KEY_LENGTH == 32,
{
}

} // verus!
