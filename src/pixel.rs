use vstd::prelude::*;

verus! {

/// The two bytes of a 16-bit pixel exchanged: the low byte moves up and the
/// high byte moves down.
pub open spec fn swapped(p: u16) -> u16 {
    ((p % 256) * 256 + p / 256) as u16
}

/// Converts a pixel from the renderer's native encoding (little endian) to
/// the byte order of the panel bus (big endian).
pub fn to_wire(pixel: u16) -> (r: u16)
    ensures
        r == swapped(pixel),
{
    let lo: u16 = pixel & 0xff;
    let hi: u16 = (pixel & 0xff00) >> 8;
    assert(lo == pixel % 256 && hi == pixel / 256) by (bit_vector)
        requires
            lo == pixel & 0xff,
            hi == (pixel & 0xff00) >> 8,
    ;
    lo * 256 + hi
}

/// Exchanging the bytes of a pixel twice gives back the pixel.
pub proof fn lemma_swap_involutive(p: u16)
    ensures
        swapped(swapped(p)) == p,
{
}

} // verus!
