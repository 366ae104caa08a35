use vstd::prelude::*;

use crate::error::FbError;

verus! {

/// Bytes occupied by the framebuffer header: two little-endian `u16` fields.
pub const HEADER_SIZE: usize = 4;

/// The grid dimensions read from the start of the shared region.
#[derive(Clone, Copy, Debug, PartialEq, Eq, Structural)]
pub struct Header {
    pub width: u16,
    pub height: u16,
}

/// The `u16` stored as two bytes, least significant first.
pub open spec fn spec_le16(b0: u8, b1: u8) -> u16 {
    (b0 + 256 * b1) as u16
}

/// The `u32` stored as four bytes, least significant first.
pub open spec fn spec_le32(b0: u8, b1: u8, b2: u8, b3: u8) -> u32 {
    (b0 + 256 * b1 + 65536 * b2 + 16777216 * b3) as u32
}

impl Header {
    /// Both axes are non-zero.
    pub open spec fn valid(self) -> bool {
        self.width > 0 && self.height > 0
    }

    /// Number of pixel cells in the grid.
    pub open spec fn spec_cell_count(self) -> int {
        self.width * self.height
    }

    /// Bytes the region must hold: the header plus four bytes per cell.
    pub open spec fn spec_required_len(self) -> int {
        HEADER_SIZE + 4 * self.spec_cell_count()
    }

    /// Number of pixel cells in the grid.
    pub fn cell_count(&self) -> (n: usize)
        ensures
            n == self.spec_cell_count(),
    {
        proof {
            assert(self.width * self.height <= 0xFFFF * 0xFFFF) by (nonlinear_arith)
                requires
                    self.width <= 0xFFFF,
                    self.height <= 0xFFFF,
            ;
        }
        self.width as usize * self.height as usize
    }

    /// Bytes the region must hold for this header's grid.
    pub fn required_len(&self) -> (n: u64)
        ensures
            n == self.spec_required_len(),
    {
        proof {
            assert(self.width * self.height <= 0xFFFF * 0xFFFF) by (nonlinear_arith)
                requires
                    self.width <= 0xFFFF,
                    self.height <= 0xFFFF,
            ;
        }
        HEADER_SIZE as u64 + 4 * (self.width as u64 * self.height as u64)
    }
}

/// Reads the header from the front of the shared region.
///
/// A region shorter than the header fails with `RegionTooSmall`; a zero
/// width or height fails with `InvalidDimensions`; otherwise the two
/// little-endian `u16` fields are returned. A pure read, no side effects.
pub fn parse_header(region: &[u8]) -> (r: Result<Header, FbError>)
    ensures
        region@.len() < HEADER_SIZE ==> r == Err::<Header, FbError>(FbError::RegionTooSmall),
        region@.len() >= HEADER_SIZE ==> {
            let w = spec_le16(region@[0], region@[1]);
            let h = spec_le16(region@[2], region@[3]);
            if w == 0 || h == 0 {
                r == Err::<Header, FbError>(FbError::InvalidDimensions)
            } else {
                r == Ok::<Header, FbError>(Header { width: w, height: h })
            }
        },
{
    if region.len() < HEADER_SIZE {
        return Err(FbError::RegionTooSmall);
    }
    let width: u16 = region[0] as u16 + 256 * (region[1] as u16);
    let height: u16 = region[2] as u16 + 256 * (region[3] as u16);
    if width == 0 || height == 0 {
        return Err(FbError::InvalidDimensions);
    }
    Ok(Header { width, height })
}

/// Checks that the region is long enough for the whole cell array,
/// not merely for the header.
pub fn validate_region_len(region_len: usize, header: &Header) -> (r: Result<(), FbError>)
    ensures
        r is Ok <==> region_len >= header.spec_required_len(),
        r is Err ==> r == Err::<(), FbError>(FbError::RegionTooSmall),
{
    let required = header.required_len();
    if (region_len as u64) < required {
        Err(FbError::RegionTooSmall)
    } else {
        Ok(())
    }
}

/// Decodes the cell array that follows the header: one little-endian
/// `u32` per grid cell. Fails with `RegionTooSmall` when the region does
/// not hold `width * height` whole cells after the header.
pub fn decode_cells(region: &[u8], header: &Header) -> (r: Result<Vec<u32>, FbError>)
    ensures
        r is Ok <==> region@.len() >= header.spec_required_len(),
        r is Err ==> r == Err::<Vec<u32>, FbError>(FbError::RegionTooSmall),
        r matches Ok(cells) ==> {
            &&& cells@.len() == header.spec_cell_count()
            &&& forall|i: int|
                0 <= i < cells@.len() ==> cells@[i] == spec_le32(
                    region@[HEADER_SIZE + 4 * i],
                    region@[HEADER_SIZE + 4 * i + 1],
                    region@[HEADER_SIZE + 4 * i + 2],
                    region@[HEADER_SIZE + 4 * i + 3],
                )
        },
{
    if let Err(e) = validate_region_len(region.len(), header) {
        return Err(e);
    }
    let n = header.cell_count();
    let region_len = region.len();
    let mut cells: Vec<u32> = Vec::new();
    let mut i: usize = 0;
    while i < n
        invariant
            0 <= i <= n,
            n == header.spec_cell_count(),
            region_len == region@.len(),
            region@.len() >= header.spec_required_len(),
            cells@.len() == i,
            forall|j: int|
                0 <= j < i ==> cells@[j] == spec_le32(
                    region@[HEADER_SIZE + 4 * j],
                    region@[HEADER_SIZE + 4 * j + 1],
                    region@[HEADER_SIZE + 4 * j + 2],
                    region@[HEADER_SIZE + 4 * j + 3],
                ),
        decreases n - i,
    {
        let base = HEADER_SIZE + 4 * i;
        let cell = region[base] as u32 + 256 * (region[base + 1] as u32) + 65536 * (region[base
            + 2] as u32) + 16777216 * (region[base + 3] as u32);
        cells.push(cell);
        i = i + 1;
    }
    Ok(cells)
}

} // verus!
