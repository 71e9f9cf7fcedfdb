//! A minimal in-memory file abstraction: a handle is its textual contents,
//! and reading yields the encoded bytes.

use vstd::prelude::*;
use vstd::utf8::encode_utf8;

verus! {

/// An in-memory stand-in for a file: the handle carries the contents.
pub type File = String;

/// Open the file.  On this in-memory representation opening always succeeds
/// and leaves the contents alone.
pub fn open(file: &mut File) -> (r: bool)
    ensures
        r == true,
        *final(file) == *old(file),
{
    true
}

/// Close the file.  Closing always succeeds and leaves the contents alone.
pub fn close(file: &mut File) -> (r: bool)
    ensures
        r == true,
        *final(file) == *old(file),
{
    true
}

/// Read the whole file, appending its UTF-8 bytes to `save_to`.
#[verifier::loop_isolation(false)]
pub fn read(file: &mut File, save_to: &mut Vec<u8>)
    ensures
        *final(file) == *old(file),
        final(save_to)@ == old(save_to)@ + encode_utf8(old(file)@),
{
    let bytes = file.as_str().as_bytes();
    let mut i: usize = 0;
    while i < bytes.len()
        invariant
            i <= bytes@.len(),
            save_to@.len() == old(save_to)@.len() + i,
            forall|j: int| 0 <= j < old(save_to)@.len() ==> save_to@[j] == old(save_to)@[j],
            forall|j: int| 0 <= j < i ==> save_to@[old(save_to)@.len() + j] == bytes@[j],
        decreases bytes@.len() - i,
    {
        save_to.push(bytes[i]);
        i = i + 1;
    }
    proof {
        assert(save_to@ =~= old(save_to)@ + bytes@);
    }
}

} // verus!
