use llamadb::btree::cell::{BTreeCell, BTreeCellErr};
use llamadb::btree::page::{BTreePageErr, BTreePageRead, BTreePageWrite};

#[test]
fn test_btree_cell_unused() {
    // Cell with unused data
    assert_eq!(BTreeCell::read(&[
        0x01, 0x02, 0x03, 0x04, 0x05, 0x06, 0x07, 0x08,
        5, 0, 0, 0,
        9, 8, 7, 6, 5,
        0, 0, 0, 0, 0, 0, 0     // unused data (and padding to 24 bytes)
    ]).unwrap(), BTreeCell {
        left_page: 0x0807060504030201,
        payload_length: 5,
        overflow_page: None,
        in_page_payload: &[9, 8, 7, 6, 5]
    });
}

#[test]
fn test_btree_cell_overflow() {
    // Cell with overflow
    assert_eq!(BTreeCell::read(&[
        0x01, 0x02, 0x03, 0x04, 0x05, 0x06, 0x07, 0x08,
        27, 0, 0, 0,
        0x09, 0x0A, 0x0B, 0x0C, 0x0D, 0x0E, 0x0F, 0x10,
        9, 8, 7, 6, 5, 4, 3, 2, 1, 0
    ]).unwrap(), BTreeCell {
        left_page: 0x0807060504030201,
        payload_length: 27,
        overflow_page: Some(0x100F0E0D0C0B0A09),
        in_page_payload: &[9, 8, 7, 6, 5, 4, 3, 2, 1, 0]
    });
}

#[test]
fn test_btree_cell_corrupt() {
    // Cell length is too small
    assert_eq!(BTreeCell::read(&[
        0x01, 0x02, 0x03, 0x04, 0x05, 0x06, 0x07, 0x08,
        5, 0, 0, 0,
        9, 8, 7, 6, 5
    ]).unwrap_err(), BTreeCellErr::CellLengthTooSmall(17));

    // Payload length is too small
    assert_eq!(BTreeCell::read(&[
        0x01, 0x02, 0x03, 0x04, 0x05, 0x06, 0x07, 0x08,
        3, 0, 0, 0,
        9, 8, 7,
        0, 0, 0, 0, 0, 0, 0, 0, 0   // unused data (and padding to 24 bytes)
    ]).unwrap_err(), BTreeCellErr::PayloadLengthTooSmall(3));
}

#[test]
fn test_btree_page_readwrite() {
    let header_buf = [
        0x02,
        0, 0, 0,
        5, 0,
        24, 0,
        0x02, 0x04, 0x06, 0x08, 0x0A, 0x0C, 0x0E, 0x10
    ];

    let mut page_buf: Vec<u8> = header_buf.to_vec();
    page_buf.extend(0..128-16);

    let page = BTreePageRead::read(page_buf.as_slice()).unwrap();
    assert_eq!(page, BTreePageRead {
        root: true,
        leaf: false,
        page_cell_count: 5,
        cell_length: 24,
        right_page: Some(0x100E0C0A08060402),
        data: &page_buf.as_slice()[16..]
    });

    let mut write_header_buf = [0; 16];
    page.to_write().write(&mut write_header_buf).unwrap();
    assert_eq!(header_buf, write_header_buf);
}

#[test]
fn test_btree_page_errors() {
    let short = [0u8; 32];
    assert_eq!(BTreePageRead::read(&short).unwrap_err(), BTreePageErr::PageLengthWrong(32));
    let odd = [0u8; 96];
    assert_eq!(BTreePageRead::read(&odd).unwrap_err(), BTreePageErr::PageLengthWrong(96));
    // no page to the right, and no leaf
    let interior = [0u8; 64];
    assert_eq!(
        BTreePageRead::read(&interior).unwrap_err(),
        BTreePageErr::InteriorMustContainRightPage
    );
    let mut leaf = [0u8; 64];
    leaf[0] = 0x01;
    let page = BTreePageRead::read(&leaf).unwrap();
    assert_eq!(page.right_page, None);
    assert!(page.leaf);
    assert!(!page.root);

    let header = BTreePageWrite {
        root: false,
        leaf: false,
        page_cell_count: 0,
        cell_length: 0,
        right_page: None,
    };
    let mut buf = [9u8; 16];
    assert_eq!(header.write(&mut buf).unwrap_err(), BTreePageErr::InteriorMustContainRightPage);
    assert_eq!(buf, [9u8; 16]);
    let mut long = [9u8; 17];
    assert_eq!(header.write(&mut long).unwrap_err(), BTreePageErr::HeaderLengthWrong(17));
}
