//! The header of a page of a B+Tree.

use vstd::prelude::*;
use crate::byteutils::{
    le_bytes, le_value, read_u16_le, read_u64_le, write_u16_le, write_u64_le,
};

verus! {

/// Why bytes are no page, or a header cannot be written.
#[derive(Debug, Clone, Copy, PartialEq, Eq, Structural)]
pub enum BTreePageErr {
    PageLengthWrong(usize),
    HeaderLengthWrong(usize),
    InteriorMustContainRightPage,
}

/// The least length of a page.
pub const MIN_PAGE_LENGTH: usize = 64;

/// The flag of a root page.
pub const ROOT_PAGE: u8 = 2;

/// The flag of a leaf page.
pub const LEAF_PAGE: u8 = 1;

/// A page that was read: what its header says, and its data behind the
/// header.
#[derive(Debug, PartialEq)]
pub struct BTreePageRead<'a> {
    pub root: bool,
    pub leaf: bool,
    pub page_cell_count: u16,
    pub cell_length: u16,
    pub right_page: Option<u64>,
    pub data: &'a [u8],
}

/// The header of a page to write.
#[derive(Debug, Clone, Copy, PartialEq, Eq, Structural)]
pub struct BTreePageWrite {
    pub root: bool,
    pub leaf: bool,
    pub page_cell_count: u16,
    pub cell_length: u16,
    pub right_page: Option<u64>,
}

/// Whether a number is a power of two.
pub open spec fn is_power_of_two(n: nat) -> bool
    decreases n,
{
    if n == 1 {
        true
    } else if n == 0 || n % 2 == 1 {
        false
    } else {
        is_power_of_two(n / 2)
    }
}

/// Whether the flag byte has the bit of a root page.
pub open spec fn has_root_flag(flags: u8) -> bool {
    (flags / 2) % 2 == 1
}

/// Whether the flag byte has the bit of a leaf page.
pub open spec fn has_leaf_flag(flags: u8) -> bool {
    flags % 2 == 1
}

/// The header that the first 16 bytes of a page hold: the flags in the
/// first byte, the number of cells in bytes 4 and 5, the length of a cell
/// in bytes 6 and 7, and the page to the right in bytes 8 to 15, where 0
/// stands for none. Only a leaf can be without a page to its right. The
/// length of a page is a power of two, and at least 64.
pub open spec fn page_header_of(data: Seq<u8>) -> Result<BTreePageWrite, BTreePageErr> {
    if !(is_power_of_two(data.len()) && data.len() >= 64) {
        Err(BTreePageErr::PageLengthWrong(data.len() as usize))
    } else {
        let leaf = has_leaf_flag(data[0]);
        let right = le_value(data.subrange(8, 16)) as u64;
        if right == 0 && !leaf {
            Err(BTreePageErr::InteriorMustContainRightPage)
        } else {
            Ok(
                BTreePageWrite {
                    root: has_root_flag(data[0]),
                    leaf,
                    page_cell_count: le_value(data.subrange(4, 6)) as u16,
                    cell_length: le_value(data.subrange(6, 8)) as u16,
                    right_page: if right == 0 {
                        None
                    } else {
                        Some(right)
                    },
                },
            )
        }
    }
}

/// The 16 bytes of a header.
pub open spec fn page_header_bytes(header: BTreePageWrite) -> Seq<u8> {
    seq![
        ((if header.root {
            2int
        } else {
            0int
        }) + (if header.leaf {
            1int
        } else {
            0int
        })) as u8,
        0u8,
        0u8,
        0u8,
    ] + le_bytes(header.page_cell_count as nat, 2) + le_bytes(header.cell_length as nat, 2)
        + le_bytes(
        match header.right_page {
            Some(page) => page as nat,
            None => 0nat,
        },
        8,
    )
}

fn power_of_two(n: usize) -> (r: bool)
    ensures
        r == is_power_of_two(n as nat),
{
    let mut m: usize = n;
    while m > 1 && m % 2 == 0
        invariant
            is_power_of_two(n as nat) == is_power_of_two(m as nat),
        decreases m,
    {
        m = m / 2;
    }
    m == 1
}

impl<'a> BTreePageRead<'a> {
    /// The header of the page.
    pub open spec fn header(&self) -> BTreePageWrite {
        BTreePageWrite {
            root: self.root,
            leaf: self.leaf,
            page_cell_count: self.page_cell_count,
            cell_length: self.cell_length,
            right_page: self.right_page,
        }
    }

    /// Reads a page from its bytes.
    pub fn read(data: &'a [u8]) -> (r: Result<BTreePageRead<'a>, BTreePageErr>)
        ensures
            match r {
                Ok(page) => page_header_of(data@) == Ok::<BTreePageWrite, BTreePageErr>(
                    page.header(),
                ) && page.data@ == data@.subrange(16, data@.len() as int),
                Err(e) => page_header_of(data@) == Err::<BTreePageWrite, BTreePageErr>(e),
            },
    {
        // Ensure the page length is a power of two and is the minimum page length
        let len: usize = data.len();
        if !(power_of_two(len) && len >= MIN_PAGE_LENGTH) {
            return Err(BTreePageErr::PageLengthWrong(len));
        }
        let flags: u8 = data[0];
        let page_cell_count = read_u16_le(vstd::slice::slice_subrange(data, 4, 6));
        let cell_length = read_u16_le(vstd::slice::slice_subrange(data, 6, 8));
        let root: bool = (flags / 2) % 2 == 1;
        let leaf: bool = flags % 2 == 1;
        let right: u64 = read_u64_le(vstd::slice::slice_subrange(data, 8, 16));
        let right_page = if right == 0 {
            // Make sure that this is a leaf node.
            // "0" indicates the last leaf node of the B+Tree.
            if leaf {
                None
            } else {
                return Err(BTreePageErr::InteriorMustContainRightPage);
            }
        } else {
            Some(right)
        };
        Ok(
            BTreePageRead {
                root,
                leaf,
                page_cell_count,
                cell_length,
                right_page,
                data: vstd::slice::slice_subrange(data, 16, len),
            },
        )
    }

    /// The header to write for the page.
    pub fn to_write(&self) -> (r: BTreePageWrite)
        ensures
            r == self.header(),
    {
        BTreePageWrite {
            root: self.root,
            leaf: self.leaf,
            page_cell_count: self.page_cell_count,
            cell_length: self.cell_length,
            right_page: self.right_page,
        }
    }
}

impl BTreePageWrite {
    /// Writes the header into 16 bytes. A buffer of another length, and a
    /// page that is no leaf and has no page to its right, are refused and
    /// the buffer is left as it was.
    pub fn write(&self, data: &mut [u8]) -> (r: Result<(), BTreePageErr>)
        ensures
            match r {
                Ok(_) => {
                    &&& old(data)@.len() == 16
                    &&& self.leaf || self.right_page.is_some()
                    &&& final(data)@ == page_header_bytes(*self)
                },
                Err(e) => {
                    &&& final(data)@ == old(data)@
                    &&& e == if old(data)@.len() != 16 {
                        BTreePageErr::HeaderLengthWrong(old(data)@.len() as usize)
                    } else {
                        BTreePageErr::InteriorMustContainRightPage
                    }
                    &&& old(data)@.len() != 16 || (!self.leaf && self.right_page.is_none())
                },
            },
    {
        let len: usize = data.len();
        if len != 16 {
            return Err(BTreePageErr::HeaderLengthWrong(len));
        }
        if !self.leaf && self.right_page.is_none() {
            return Err(BTreePageErr::InteriorMustContainRightPage);
        }
        let right_page: u64 = match self.right_page {
            None => 0,
            Some(page) => page,
        };
        let mut flags: u8 = 0;
        if self.root {
            flags = flags + ROOT_PAGE;
        }
        if self.leaf {
            flags = flags + LEAF_PAGE;
        }
        let mut count: Vec<u8> = Vec::new();
        count.push(0);
        count.push(0);
        write_u16_le(self.page_cell_count, count.as_mut_slice());
        let mut length: Vec<u8> = Vec::new();
        length.push(0);
        length.push(0);
        write_u16_le(self.cell_length, length.as_mut_slice());
        let mut right: Vec<u8> = Vec::new();
        let mut k: usize = 0;
        while k < 8
            invariant
                k <= 8,
                right@.len() == k,
            decreases 8 - k,
        {
            right.push(0);
            k = k + 1;
        }
        write_u64_le(right_page, right.as_mut_slice());
        proof {
            crate::byteutils::lemma_le_bytes_len(self.page_cell_count as nat, 2);
            crate::byteutils::lemma_le_bytes_len(self.cell_length as nat, 2);
            crate::byteutils::lemma_le_bytes_len(right_page as nat, 8);
        }
        data[0] = flags;
        data[1] = 0;
        data[2] = 0;
        data[3] = 0;
        data[4] = count[0];
        data[5] = count[1];
        data[6] = length[0];
        data[7] = length[1];
        let mut i: usize = 0;
        while i < 8
            invariant
                i <= 8,
                data@.len() == 16,
                right@.len() == 8,
                data@.subrange(0, 8) == seq![
                    flags,
                    0u8,
                    0u8,
                    0u8,
                    count@[0],
                    count@[1],
                    length@[0],
                    length@[1],
                ],
                data@.subrange(8, 8 + i as int) == right@.subrange(0, i as int),
            decreases 8 - i,
        {
            let ghost before = data@;
            data[8 + i] = right[i];
            proof {
                assert(data@.subrange(0, 8) =~= before.subrange(0, 8));
                assert(data@.subrange(8, 8 + i as int + 1) =~= right@.subrange(0, i as int + 1));
            }
            i = i + 1;
        }
        proof {
            crate::byteutils::lemma_le_bytes_len(self.page_cell_count as nat, 2);
            crate::byteutils::lemma_le_bytes_len(self.cell_length as nat, 2);
            assert(right@.subrange(0, 8) =~= right@);
            assert(data@ =~= data@.subrange(0, 8) + data@.subrange(8, 16));
            assert(data@ =~= page_header_bytes(*self));
        }
        Ok(())
    }
}

} // verus!
