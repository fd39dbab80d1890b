//! The image format: a fixed four-byte header, then the instruction stream.

use vstd::prelude::*;

verus! {

/// The header that starts every image: a zero byte, then `TWN`.
pub open spec fn magic() -> Seq<u8> {
    seq![0x00u8, 0x54u8, 0x57u8, 0x4Eu8]
}

/// `bytes` starts with the header.
pub open spec fn has_magic(bytes: Seq<u8>) -> bool {
    bytes.len() >= 4 && bytes.subrange(0, 4) == magic()
}

/// Appends the header to `out`.
pub fn push_magic(out: &mut Vec<u8>)
    ensures
        final(out)@ == old(out)@ + magic(),
{
    let ghost before = out@;
    out.push(0x00);
    out.push(0x54);
    out.push(0x57);
    out.push(0x4E);
    assert(out@ =~= before + magic());
}

/// Whether `bytes` starts with the header, so that a machine can load it.
pub fn is_image(bytes: &Vec<u8>) -> (r: bool)
    ensures
        r == has_magic(bytes@),
{
    if bytes.len() < 4 {
        return false;
    }
    let r = bytes[0] == 0x00 && bytes[1] == 0x54 && bytes[2] == 0x57 && bytes[3] == 0x4E;
    assert(r == (bytes@.subrange(0, 4) =~= magic()));
    r
}

} // verus!
