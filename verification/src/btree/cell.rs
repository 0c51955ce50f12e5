//! The cells of a page of a B+Tree.

use vstd::prelude::*;
use crate::byteutils::{le_value, read_u32_le, read_u64_le};

verus! {

/// Why bytes are no cell.
#[derive(Debug, Clone, Copy, PartialEq, Eq, Structural)]
pub enum BTreeCellErr {
    CellLengthTooSmall(usize),
    PayloadLengthTooSmall(u32),
}

/// A cell: the page to its left, the length of its payload, the page on
/// which the payload goes on where it does not fit, and the part of the
/// payload that is in the cell.
#[derive(Debug, PartialEq)]
pub struct BTreeCell<'a> {
    pub left_page: u64,
    pub payload_length: u32,
    pub overflow_page: Option<u64>,
    pub in_page_payload: &'a [u8],
}

/// A cell as mathematics sees it.
pub struct BTreeCellView {
    pub left_page: u64,
    pub payload_length: u32,
    pub overflow_page: Option<u64>,
    pub in_page_payload: Seq<u8>,
}

impl<'a> View for BTreeCell<'a> {
    type V = BTreeCellView;

    open spec fn view(&self) -> BTreeCellView {
        BTreeCellView {
            left_page: self.left_page,
            payload_length: self.payload_length,
            overflow_page: self.overflow_page,
            in_page_payload: self.in_page_payload@,
        }
    }
}

/// The cell that bytes hold: the left page in eight bytes and the length
/// of the payload in four, least significant byte first; then the
/// payload, or where it is longer than the rest of the cell the overflow
/// page in eight bytes and the start of the payload. A cell has at least
/// 24 bytes and a payload at least 4.
pub open spec fn cell_of(data: Seq<u8>) -> Result<BTreeCellView, BTreeCellErr> {
    if data.len() < 24 {
        Err(BTreeCellErr::CellLengthTooSmall(data.len() as usize))
    } else {
        let left_page = le_value(data.subrange(0, 8)) as u64;
        let payload_length = le_value(data.subrange(8, 12)) as u32;
        if payload_length < 4 {
            Err(BTreeCellErr::PayloadLengthTooSmall(payload_length))
        } else if payload_length > data.len() - 12 {
            Ok(
                BTreeCellView {
                    left_page,
                    payload_length,
                    overflow_page: Some(le_value(data.subrange(12, 20)) as u64),
                    in_page_payload: data.subrange(20, data.len() as int),
                },
            )
        } else {
            Ok(
                BTreeCellView {
                    left_page,
                    payload_length,
                    overflow_page: None,
                    in_page_payload: data.subrange(12, 12 + payload_length),
                },
            )
        }
    }
}

impl<'a> BTreeCell<'a> {
    /// Reads a cell from its bytes.
    pub fn read(data: &'a [u8]) -> (r: Result<BTreeCell<'a>, BTreeCellErr>)
        ensures
            match r {
                Ok(cell) => cell_of(data@) == Ok::<BTreeCellView, BTreeCellErr>(cell@),
                Err(e) => cell_of(data@) == Err::<BTreeCellView, BTreeCellErr>(e),
            },
    {
        let len: usize = data.len();
        if len < 24 {
            return Err(BTreeCellErr::CellLengthTooSmall(len));
        }
        let left_page = read_u64_le(vstd::slice::slice_subrange(data, 0, 8));
        let payload_length = read_u32_le(vstd::slice::slice_subrange(data, 8, 12));
        if payload_length < 4 {
            return Err(BTreeCellErr::PayloadLengthTooSmall(payload_length));
        }
        if payload_length as u64 > (len - 12) as u64 {
            let overflow_page = read_u64_le(vstd::slice::slice_subrange(data, 12, 20));
            Ok(
                BTreeCell {
                    left_page,
                    payload_length,
                    overflow_page: Some(overflow_page),
                    in_page_payload: vstd::slice::slice_subrange(data, 20, len),
                },
            )
        } else {
            Ok(
                BTreeCell {
                    left_page,
                    payload_length,
                    overflow_page: None,
                    in_page_payload: vstd::slice::slice_subrange(
                        data,
                        12,
                        12 + payload_length as usize,
                    ),
                },
            )
        }
    }
}

} // verus!
