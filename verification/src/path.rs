//! Paths of the filesystem, as rows of bytes.

use vstd::prelude::*;
use vstd::utf8::{encode_utf8, encode_utf8_decode_utf8};

verus! {

/// The byte that separates the parts of a path.
pub const SEPARATOR: u8 = 47;

/// A path: any bytes, not necessarily text.
#[derive(Debug, PartialEq, Eq)]
pub struct FsPath {
    pub bytes: Vec<u8>,
}

impl View for FsPath {
    type V = Seq<u8>;

    open spec fn view(&self) -> Seq<u8> {
        self.bytes@
    }
}

/// `name` below `base`: with one separator between them, or `name` alone where it is
/// absolute.
pub open spec fn joined(base: Seq<u8>, name: Seq<u8>) -> Seq<u8> {
    if name.len() > 0 && name[0] == SEPARATOR {
        name
    } else if base.len() == 0 || base.last() == SEPARATOR {
        base + name
    } else {
        base.push(SEPARATOR) + name
    }
}

/// The file that is called `name` in the directory `base`.
pub open spec fn file_in(base: Seq<u8>, name: Seq<char>) -> Seq<u8> {
    joined(base, encode_utf8(name))
}

fn append_bytes(to: &mut Vec<u8>, from: &[u8])
    ensures
        final(to)@ == old(to)@ + from@,
{
    let mut i: usize = 0;
    while i < from.len()
        invariant
            i <= from.len(),
            to@ == old(to)@ + from@.take(i as int),
        decreases from.len() - i,
    {
        to.push(from[i]);
        i = i + 1;
        assert(from@.take(i as int) =~= from@.take(i - 1).push(from@[i - 1]));
    }
    assert(from@.take(i as int) =~= from@);
}

impl Clone for FsPath {
    fn clone(&self) -> (res: Self)
        ensures
            res@ == self@,
    {
        let mut bytes: Vec<u8> = Vec::new();
        append_bytes(&mut bytes, self.bytes.as_slice());
        assert(bytes@ =~= self@);
        FsPath { bytes }
    }
}

impl FsPath {
    /// The path that a text spells.
    pub fn from_text(text: &str) -> (res: FsPath)
        ensures
            res@ == encode_utf8(text@),
    {
        let mut bytes: Vec<u8> = Vec::new();
        append_bytes(&mut bytes, text.as_bytes());
        assert(bytes@ =~= encode_utf8(text@));
        FsPath { bytes }
    }

    /// The path of `name` below this one.
    pub fn join(&self, name: &str) -> (res: FsPath)
        ensures
            res@ == file_in(self@, name@),
    {
        let tail: &[u8] = name.as_bytes();
        if tail.len() > 0 && tail[0] == SEPARATOR {
            return FsPath::from_text(name);
        }
        let mut res: FsPath = self.clone();
        if res.bytes.len() > 0 && res.bytes[res.bytes.len() - 1] != SEPARATOR {
            res.bytes.push(SEPARATOR);
        }
        append_bytes(&mut res.bytes, tail);
        res
    }
}

/// Different texts spell different paths.
pub proof fn paths_of_texts_are_distinct(a: Seq<char>, b: Seq<char>)
    requires
        encode_utf8(a) == encode_utf8(b),
    ensures
        a == b,
{
    encode_utf8_decode_utf8(a);
    encode_utf8_decode_utf8(b);
}

/// A name that is not absolute is found below a directory: the path begins with the directory,
/// ends with the name, and has nothing in between but one separator, which the directory may
/// end with already. An absolute name is a path by itself.
pub proof fn names_are_found_below_their_directory(base: Seq<u8>, name: Seq<u8>)
    ensures
        ({
            let path = joined(base, name);
            let absolute = name.len() > 0 && name[0] == 47;
            let gap: int = if base.len() > 0 && base.last() != 47 {
                1
            } else {
                0
            };
            &&& absolute ==> path == name
            &&& !absolute ==> {
                &&& path.len() == base.len() + gap + name.len()
                &&& path.take(base.len() as int) == base
                &&& path.skip(base.len() + gap) == name
                &&& gap == 1 ==> path[base.len() as int] == 47
            }
        }),
{
    let path = joined(base, name);
    if !(name.len() > 0 && name[0] == 47) {
        assert(path.take(base.len() as int) =~= base);
        if base.len() > 0 && base.last() != 47 {
            assert(path.skip((base.len() + 1) as int) =~= name);
        } else {
            assert(path.skip(base.len() as int) =~= name);
        }
    }
}

/// The file that a text names in a directory is found below it by the bytes of the text.
pub proof fn files_are_named_by_bytes(base: Seq<u8>, name: Seq<char>)
    ensures
        file_in(base, name) == joined(base, encode_utf8(name)),
{
}

} // verus!
