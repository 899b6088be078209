use vstd::prelude::*;
use byteorder::{LittleEndian, ReadBytesExt};

verus! {

/// The little-endian value of the first four bytes of `b`.
pub open spec fn le_u32(b: Seq<u8>) -> int {
    b[0] as int + 256 * b[1] as int + 65536 * b[2] as int + 16777216 * b[3] as int
}

/// Calls `byteorder::ReadBytesExt::read_u32::<LittleEndian>` on the slice:
/// it fills four bytes with `read_exact` and fails when fewer remain;
/// otherwise it returns the little-endian value of the first four bytes.
#[verifier::external_body]
fn read_u32_le(buf: &[u8]) -> (r: Option<u32>)
    ensures
        buf@.len() >= 4 ==> r == Some(le_u32(buf@) as u32),
        buf@.len() < 4 ==> r is None,
{
    let mut reader = buf;
    reader.read_u32::<LittleEndian>().ok()
}

/// How a compiled ship file is laid out: three header words (each the
/// first half of an 8-byte slot), then the ship's info, its texture, and
/// its model.
#[derive(PartialEq, Eq, Structural, Copy, Clone, Debug)]
pub struct ShipLayout {
    pub info_size: usize,
    pub texture_size: usize,
    pub num_indices: usize,
    /// Where the texture starts (after a 24-byte header and the info).
    pub texture_start: usize,
    /// Where the texture ends and the model starts.
    pub object_start: usize,
}

/// The layout a file of bytes `b` declares, when it is long enough for its
/// header and for the sections its header declares.
pub open spec fn spec_ship_layout(b: Seq<u8>) -> Option<ShipLayout> {
    if b.len() < 24 {
        None
    } else {
        let info = le_u32(b.subrange(0, 8));
        let texture = le_u32(b.subrange(8, 16));
        let indices = le_u32(b.subrange(16, 24));
        if info + 24 > b.len() || info + texture + 24 > b.len() {
            None
        } else {
            Some(ShipLayout {
                info_size: info as usize,
                texture_size: texture as usize,
                num_indices: indices as usize,
                texture_start: (info + 24) as usize,
                object_start: (info + texture + 24) as usize,
            })
        }
    }
}

/// Reads the header of a compiled ship file. `None` when the file is
/// shorter than its header or than the sections its header declares.
pub fn ship_layout(bytes: &[u8]) -> (r: Option<ShipLayout>)
    ensures
        r == spec_ship_layout(bytes@),
{
    if bytes.len() < 24 {
        return None;
    }
    let info = read_u32_le(&bytes[0..8]);
    let texture = read_u32_le(&bytes[8..16]);
    let indices = read_u32_le(&bytes[16..24]);
    match (info, texture, indices) {
        (Some(info), Some(texture), Some(indices)) => {
            assert(bytes@.subrange(0, 8).len() == 8);
            let len = bytes.len();
            if info as usize > len || len - (info as usize) < 24 {
                return None;
            }
            let texture_start = info as usize + 24;
            if texture as usize > len - texture_start {
                return None;
            }
            let object_start = texture_start + texture as usize;
            Some(ShipLayout {
                info_size: info as usize,
                texture_size: texture as usize,
                num_indices: indices as usize,
                texture_start,
                object_start,
            })
        },
        _ => None,
    }
}

} // verus!
