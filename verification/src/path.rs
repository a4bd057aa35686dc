//! File system paths.

use vstd::prelude::*;
use vstd::slice::slice_to_vec;
use vstd::utf8;

use crate::encoding;

verus! {

/// The byte `/`, which separates the components of a path.
pub const SEPARATOR: u8 = 47;

/// A Unix path: the bytes that the system calls take. They need not be UTF-8.
#[derive(Debug, PartialEq, Eq)]
pub struct FsPath {
    pub bytes: Vec<u8>,
}

impl View for FsPath {
    type V = Seq<u8>;

    open spec fn view(&self) -> Seq<u8> {
        self.bytes@
    }
}

/// `base` extended by `name`: an absolute `name` takes the place of `base`; otherwise the two
/// stand with one separator between them, unless `base` is empty or ends in a separator.
pub open spec fn path_join(base: Seq<u8>, name: Seq<u8>) -> Seq<u8> {
    if name.len() > 0 && name[0] == SEPARATOR {
        name
    } else if base.len() == 0 || base.last() == SEPARATOR {
        base + name
    } else {
        base.push(SEPARATOR) + name
    }
}

impl Clone for FsPath {
    fn clone(&self) -> (path: FsPath)
        ensures
            path@ == self@,
    {
        FsPath { bytes: slice_to_vec(self.bytes.as_slice()) }
    }
}

impl FsPath {
    /// The path that `text` spells.
    pub fn from_text(text: &str) -> (path: FsPath)
        ensures
            path@ == utf8::encode_utf8(text@),
    {
        FsPath { bytes: slice_to_vec(text.as_bytes()) }
    }

    /// This path extended by `name`.
    pub fn join(&self, name: &str) -> (path: FsPath)
        ensures
            path@ == path_join(self@, utf8::encode_utf8(name@)),
    {
        let tail: &[u8] = name.as_bytes();
        if tail.len() > 0 && tail[0] == SEPARATOR {
            return FsPath { bytes: slice_to_vec(tail) };
        }
        let mut bytes: Vec<u8> = slice_to_vec(self.bytes.as_slice());
        if bytes.len() > 0 && bytes[bytes.len() - 1] != SEPARATOR {
            bytes.push(SEPARATOR);
        }
        let mut rest: Vec<u8> = slice_to_vec(tail);
        bytes.append(&mut rest);
        FsPath { bytes }
    }

    /// This path as text, where it is UTF-8.
    pub fn to_str(&self) -> (text: Option<&str>)
        ensures
            match text {
                Some(t) => utf8::valid_utf8(self@) && t@ == utf8::decode_utf8(self@),
                None => !utf8::valid_utf8(self@),
            },
    {
        encoding::utf8_decode(self.bytes.as_slice())
    }

    /// This path as text to be shown, with a replacement character for what is not UTF-8.
    pub fn display(&self) -> (text: String)
        ensures
            text@ == encoding::shown(self@),
    {
        encoding::utf8_decode_lossy(self.bytes.as_slice())
    }
}

/// A relative name stands at the end of the path that it is joined to, after everything that the
/// path held and at most one separator, which is there exactly if one was missing. An absolute
/// name stands alone.
pub proof fn joined_paths_hold_both_parts(base: Seq<u8>, name: Seq<u8>)
    ensures
        name.len() > 0 && name[0] == 47 ==> path_join(base, name) == name,
        !(name.len() > 0 && name[0] == 47) ==> {
            let between = path_join(base, name).len() - base.len() - name.len();
            &&& between == if base.len() > 0 && base.last() != 47 {
                1int
            } else {
                0
            }
            &&& path_join(base, name).take(base.len() as int) == base
            &&& path_join(base, name).skip(base.len() + between) == name
            &&& between == 1 ==> path_join(base, name)[base.len() as int] == 47
        },
{
    let joined = path_join(base, name);
    if !(name.len() > 0 && name[0] == 47) {
        let between = joined.len() - base.len() - name.len();
        assert(joined.take(base.len() as int) =~= base);
        assert(joined.skip(base.len() + between) =~= name);
    }
}

} // verus!
