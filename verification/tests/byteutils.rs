use llamadb::byteutils::{
    read_dbfloat, read_sdbinteger, read_u16_le, read_u32_le, read_u64_le, read_udbinteger,
    read_uvar, write_dbfloat, write_sdbinteger, write_u16_le, write_u32_le, write_u64_le,
    write_udbinteger, write_uvar,
};

fn test_u16() -> Vec<(u16, Vec<u8>)> {
    vec![
        (0x0201, vec![0x01, 0x02]),
        (0x0000, vec![0x00, 0x00]),
        (0xFFFF, vec![0xFF, 0xFF]),
    ]
}

fn test_u32() -> Vec<(u32, Vec<u8>)> {
    vec![(0x04030201, vec![0x01, 0x02, 0x03, 0x04])]
}

fn test_u64() -> Vec<(u64, Vec<u8>)> {
    vec![(0x0807060504030201, vec![0x01, 0x02, 0x03, 0x04, 0x05, 0x06, 0x07, 0x08])]
}

fn test_uvar() -> Vec<(u64, Vec<u8>)> {
    vec![
        (0x00, vec![0x00]),
        (0x7F, vec![0x7F]),
        (0x80, vec![0x81, 0x00]),
        (0xFF, vec![0x81, 0x7F]),
        (0x0100, vec![0x82, 0x00]),
        (0xFFFF_FFFF, vec![0x8F, 0xFF, 0xFF, 0xFF, 0x7F]),
        (0x1234_5678_9ABC_DEF0, vec![0x92, 0x9A, 0x95, 0xCF, 0x89, 0xD5, 0xF3, 0xBD, 0x70]),
        (0xFFFF_FFFF_FFFF_FFFF, vec![0x81, 0xFF, 0xFF, 0xFF, 0xFF, 0xFF, 0xFF, 0xFF, 0xFF, 0x7F]),
    ]
}

fn test_udb() -> Vec<(u64, Vec<u8>)> {
    vec![
        (0, vec![0x00]),
        (255, vec![0x00, 0x00, 0x00, 0xFF]),
        (0, vec![0x00, 0x00, 0x00, 0x00, 0x00, 0x00, 0x00, 0x00]),
        (1 << 63, vec![0x80, 0x00, 0x00, 0x00, 0x00, 0x00, 0x00, 0x00]),
        (!0, vec![0xFF, 0xFF, 0xFF, 0xFF, 0xFF, 0xFF, 0xFF, 0xFF]),
    ]
}

fn test_sdb() -> Vec<(i64, Vec<u8>)> {
    vec![
        (-1, vec![0x7F]),
        (-32768, vec![0x00, 0x00]),
        (-1, vec![0x7F, 0xFF]),
        (0, vec![0x80, 0x00]),
        (32767, vec![0xFF, 0xFF]),
        (std::i64::MIN, vec![0x00, 0x00, 0x00, 0x00, 0x00, 0x00, 0x00, 0x00]),
        (std::i64::MAX, vec![0xFF, 0xFF, 0xFF, 0xFF, 0xFF, 0xFF, 0xFF, 0xFF]),
    ]
}

#[test]
fn test_read_u16_le() {
    for (v, buf) in test_u16() {
        assert_eq!(v, read_u16_le(&buf));
    }
}

#[test]
fn test_read_u32_le() {
    for (v, buf) in test_u32() {
        assert_eq!(v, read_u32_le(&buf));
    }
}

#[test]
fn test_read_u64_le() {
    for (v, buf) in test_u64() {
        assert_eq!(v, read_u64_le(&buf));
    }
}

#[test]
fn test_read_uvar() {
    for (v, buf) in test_uvar() {
        assert_eq!((buf.len(), v), read_uvar(&buf).unwrap());
    }
}

#[test]
fn test_read_udbinteger() {
    for (v, buf) in test_udb() {
        assert_eq!(v, read_udbinteger(&buf));
    }
}

#[test]
fn test_read_sdbinteger() {
    for (v, buf) in test_sdb() {
        assert_eq!(v, read_sdbinteger(&buf));
    }
}

#[test]
fn test_write_u16_le() {
    let mut write_buf = [0; 2];

    for (v, buf) in test_u16() {
        write_u16_le(v, &mut write_buf);
        assert_eq!(buf, write_buf);
    }
}

#[test]
fn test_write_u32_le() {
    let mut write_buf = [0; 4];

    for (v, buf) in test_u32() {
        write_u32_le(v, &mut write_buf);
        assert_eq!(buf, write_buf);
    }
}

#[test]
fn test_write_u64_le() {
    let mut write_buf = [0; 8];

    for (v, buf) in test_u64() {
        write_u64_le(v, &mut write_buf);
        assert_eq!(buf, write_buf);
    }
}

#[test]
fn test_write_uvar() {
    let mut write_buf = [0; 10];

    for (v, buf) in test_uvar() {
        let written = write_uvar(v, &mut write_buf).unwrap();
        assert_eq!(buf, &write_buf[0..written]);
    }
}

#[test]
fn test_write_udbinteger() {
    let mut write_buf = [0; 8];

    for (v, buf) in test_udb() {
        let b = &mut write_buf[0..buf.len()];
        write_udbinteger(v, b);
        assert_eq!(buf, b);
    }
}

#[test]
fn test_write_sdbinteger() {
    let mut write_buf = [0; 8];

    for (v, buf) in test_sdb() {
        let b = &mut write_buf[0..buf.len()];
        write_sdbinteger(v, b);
        assert_eq!(buf, b);
    }
}

#[test]
fn test_read_uvar_runs_out() {
    assert_eq!(read_uvar(&[]), None);
    assert_eq!(read_uvar(&[0x81, 0xFF]), None);
    // The number ends at the first byte without the flag.
    assert_eq!(read_uvar(&[0x81, 0x00, 0x7F]), Some((2, 0x80)));
}

#[test]
fn test_write_uvar_short_buffer() {
    let mut write_buf = [7; 1];
    assert_eq!(write_uvar(0x80, &mut write_buf), None);
    assert_eq!(write_buf, [7]);
    let mut longer = [7; 3];
    assert_eq!(write_uvar(0x80, &mut longer), Some(2));
    assert_eq!(longer, [0x81, 0x00, 7]);
}

#[test]
fn test_write_udbinteger_keeps_low_bytes() {
    let mut write_buf = [0; 2];
    write_udbinteger(0x0102_0304, &mut write_buf);
    assert_eq!(write_buf, [0x03, 0x04]);
}

#[test]
fn test_write_sdbinteger_outside_range() {
    // 128 does not fit one byte: its low byte is kept.
    let mut write_buf = [0; 1];
    write_sdbinteger(128, &mut write_buf);
    assert_eq!(write_buf, [0x00]);
    write_sdbinteger(127, &mut write_buf);
    assert_eq!(write_buf, [0xFF]);
    write_sdbinteger(-128, &mut write_buf);
    assert_eq!(write_buf, [0x00]);
}

#[test]
fn test_dbfloat_bytes() {
    let mut buf = [0; 8];
    write_dbfloat(0.0f64.to_bits(), &mut buf);
    assert_eq!(buf, [0x80, 0, 0, 0, 0, 0, 0, 0]);
    assert_eq!(read_dbfloat(&buf), 0.0f64.to_bits());
    write_dbfloat(1.0f64.to_bits(), &mut buf);
    assert_eq!(buf, [0xBF, 0xF0, 0, 0, 0, 0, 0, 0]);
    assert_eq!(read_dbfloat(&buf), 1.0f64.to_bits());
    write_dbfloat((-1.0f64).to_bits(), &mut buf);
    assert_eq!(buf, [0x40, 0x0F, 0xFF, 0xFF, 0xFF, 0xFF, 0xFF, 0xFF]);
    assert_eq!(read_dbfloat(&buf), (-1.0f64).to_bits());
    write_dbfloat((-0.0f64).to_bits(), &mut buf);
    assert_eq!(buf, [0x7F, 0xFF, 0xFF, 0xFF, 0xFF, 0xFF, 0xFF, 0xFF]);
    assert_eq!(read_dbfloat(&buf), (-0.0f64).to_bits());
}

#[test]
fn test_dbfloat_sorts() {
    let values = [-1.0e300f64, -2.5, -1.0, -0.0, 0.0, 1.0e-300, 1.0, 2.5, 1.0e300];
    for i in 0..values.len() {
        for j in 0..values.len() {
            let mut a = [0; 8];
            let mut b = [0; 8];
            write_dbfloat(values[i].to_bits(), &mut a);
            write_dbfloat(values[j].to_bits(), &mut b);
            if values[i] < values[j] {
                assert!(a < b);
            }
        }
    }
}

#[test]
fn test_sdbinteger_sorts() {
    let values = [-32768i64, -300, -1, 0, 1, 255, 256, 32767];
    for i in 0..values.len() {
        for j in 0..values.len() {
            let mut a = [0; 2];
            let mut b = [0; 2];
            write_sdbinteger(values[i], &mut a);
            write_sdbinteger(values[j], &mut b);
            assert_eq!(values[i] < values[j], a < b);
            assert_eq!(read_sdbinteger(&a), values[i]);
        }
    }
}
