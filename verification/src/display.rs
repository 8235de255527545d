//! The commands that the GC9A01 panel is driven with.
use vstd::prelude::*;

verus! {

/// Column address set: the horizontal extent of the window that pixel data fills.
pub const CASET: u8 = 0x2A;
/// Row address set: the vertical extent of that window.
pub const RASET: u8 = 0x2B;
/// Memory write: the pixel data that follows fills the window.
pub const RAMWR: u8 = 0x2C;

/// The parameters of an address command: start and end, each big-endian.
pub open spec fn window_params(start: u16, end: u16) -> Seq<u8> {
    seq![(start / 256) as u8, (start % 256) as u8, (end / 256) as u8, (end % 256) as u8]
}

/// The parameters of an address command for `[start, end]`.
fn window_bytes(start: u16, end: u16) -> (p: [u8; 4])
    ensures
        p@ == window_params(start, end),
{
    let p = [(start >> 8) as u8, start as u8, (end >> 8) as u8, end as u8];
    assert(((start >> 8u16) as u8) == ((start / 256) as u8)) by (bit_vector);
    assert((start as u8) == ((start % 256) as u8)) by (bit_vector);
    assert(((end >> 8u16) as u8) == ((end / 256) as u8)) by (bit_vector);
    assert((end as u8) == ((end % 256) as u8)) by (bit_vector);
    assert(p@ =~= window_params(start, end));
    p
}

/// The two commands that set the panel's address window to columns
/// `[x0, x1]` and rows `[y0, y1]`, in the order they are sent.
pub fn set_addr_window(x0: u16, y0: u16, x1: u16, y1: u16) -> (cmds: [(u8, [u8; 4]); 2])
    ensures
        cmds[0].0 == CASET,
        cmds[0].1@ == window_params(x0, x1),
        cmds[1].0 == RASET,
        cmds[1].1@ == window_params(y0, y1),
{
    [(CASET, window_bytes(x0, x1)), (RASET, window_bytes(y0, y1))]
}


/// The parameters of an address command are its start and end, each high
/// byte first: reading them back big-endian gives the start and the end.
pub proof fn lemma_window_params_big_endian(start: u16, end: u16)
    ensures
        window_params(start, end).len() == 4,
        window_params(start, end)[0] * 256 + window_params(start, end)[1] == start,
        window_params(start, end)[2] * 256 + window_params(start, end)[3] == end,
{
}

} // verus!
