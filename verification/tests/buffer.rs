use crabby_dns::buffer::{BufferError, BytePacketBuffer, BUF_SIZE};

#[test]
fn fill_slice_smaller() {
    let bin = b"supercooltest";
    let mut buf = BytePacketBuffer::new();
    buf.fill_from_slice(bin);
    assert_eq!(bin[..], buf.buf[..bin.len()]);
}

#[test]
fn fill_slice_larger() {
    let bin = vec![1u8; BUF_SIZE + 8];
    let mut buf = BytePacketBuffer::new();
    buf.fill_from_slice(&bin[..]);
    assert_eq!(bin[..BUF_SIZE], buf.buf[..]);
}

#[test]
fn peek_init_happy() {
    let bin = b"supercooltest";
    let mut buf = BytePacketBuffer::new();
    buf.fill_from_slice(bin);
    assert_eq!(0, buf.pos());
    assert_eq!(b"s"[0], buf.peek().unwrap());
}

#[test]
fn step_happy() {
    let bin = b"supercooltest";
    let mut buf = BytePacketBuffer::new();
    buf.fill_from_slice(bin);
    buf.step(5);
    assert_eq!(5, buf.pos());
    assert_eq!(b"c"[0], buf.peek().unwrap());
}

#[test]
fn step_err_buf_over() {
    let mut buf = BytePacketBuffer::new();
    buf.step(BUF_SIZE);
    assert_eq!(BUF_SIZE, buf.pos());
    let _err = buf.peek().err();
    assert!(matches!(Some(BufferError::ReadOverrun), _err));
}

#[test]
fn seek_happy() {
    let bin = b"supercooltest";
    let mut buf = BytePacketBuffer::new();
    buf.fill_from_slice(bin);
    buf.seek(8);
    assert_eq!(8, buf.pos());
    buf.seek(2);
    assert_eq!(2, buf.pos());
    assert_eq!(b"p"[0], buf.peek().unwrap());
}

#[test]
fn seek_err_buf_over() {
    let mut buf = BytePacketBuffer::new();
    buf.seek(BUF_SIZE + 5);
    assert_eq!(BUF_SIZE + 5, buf.pos());
    let _err = buf.peek().err();
    assert!(matches!(Some(BufferError::ReadOverrun), _err));
}

#[test]
fn peek_slice_happy() {
    let bin = b"supercooltest";
    let mut buf = BytePacketBuffer::new();
    buf.fill_from_slice(bin);
    assert_eq!(b"cool"[..], *buf.peek_slice(5, 4).unwrap());
}

#[test]
fn peek_slice_err_buf_over() {
    let buf = BytePacketBuffer::new();
    let _err = buf.peek_slice(BUF_SIZE - 5, 10).err();
    assert!(matches!(Some(BufferError::ReadOverrun), _err));
}

#[test]
fn pop_happy() {
    let bin = b"supercooltest";
    let mut buf = BytePacketBuffer::new();
    buf.fill_from_slice(bin);
    assert_eq!(b"s"[0], buf.pop().unwrap());
    buf.seek(5);
    assert_eq!(b"c"[0], buf.pop().unwrap());
}

#[test]
fn pop_err_buf_over() {
    let mut buf = BytePacketBuffer::new();
    buf.seek(BUF_SIZE);
    let _err = buf.pop().err();
    assert!(matches!(Some(BufferError::ReadOverrun), _err));
}

#[test]
fn pop_u16_happy() {
    let bin: [u8; 4] = [0x1F, 0xFA, 0xCC, 0x37];
    let mut buf = BytePacketBuffer::new();
    buf.fill_from_slice(&bin[..]);
    assert_eq!(0x1FFA, buf.pop_u16().unwrap());
    assert_eq!(0xCC37, buf.pop_u16().unwrap());
    buf.seek(1);
    assert_eq!(0xFACC, buf.pop_u16().unwrap());
}

#[test]
fn pop_u16_err_buf_over() {
    let bin: [u8; BUF_SIZE] = [0xFF; BUF_SIZE];
    let mut buf = BytePacketBuffer::new();
    buf.fill_from_slice(&bin[..]);
    buf.seek(BUF_SIZE - 1);
    let _err = buf.pop_u16().err();
    assert!(matches!(Some(BufferError::ReadOverrun), _err));
}

#[test]
fn pop_u32_happy() {
    let bin: [u8; 8] = [0x1F, 0xFA, 0xCC, 0x37, 0x41, 0x1B, 0xFE, 0x12];
    let mut buf = BytePacketBuffer::new();
    buf.fill_from_slice(&bin[..]);
    assert_eq!(0x1FFACC37, buf.pop_u32().unwrap());
    assert_eq!(0x411BFE12, buf.pop_u32().unwrap());
    buf.seek(2);
    assert_eq!(0xCC37411B, buf.pop_u32().unwrap());
}

#[test]
fn pop_u32_err_buf_over() {
    let bin: [u8; BUF_SIZE] = [0xFF; BUF_SIZE];
    let mut buf = BytePacketBuffer::new();
    buf.fill_from_slice(&bin[..]);
    buf.seek(BUF_SIZE - 3);
    let _err = buf.pop_u32().err();
    assert!(matches!(Some(BufferError::ReadOverrun), _err));
}

#[test]
fn fill_then_read_back_prefix() {
    let bin = b"0123456789abcdef";
    let mut buf = BytePacketBuffer::new();
    buf.fill_from_slice(bin);
    let back = buf.peek_slice(0, bin.len()).unwrap();
    assert_eq!(&bin[..], back);
    assert_eq!(0u8, buf.peek_slice(bin.len(), 1).unwrap()[0]);
}

#[test]
fn fill_overlong_keeps_capacity_prefix() {
    let mut long = vec![0u8; BUF_SIZE + 100];
    for (i, b) in long.iter_mut().enumerate() {
        *b = (i % 251) as u8;
    }
    let mut buf = BytePacketBuffer::new();
    buf.fill_from_slice(&long[..]);
    assert_eq!(long[..BUF_SIZE], buf.buf[..]);
}

#[test]
fn push_happy() {
    let mut buf = BytePacketBuffer::new();
    buf.push(0xAB).unwrap();
    assert_eq!(1, buf.pos());
    assert_eq!(0xAB, buf.buf[0]);
}

#[test]
fn push_err_buf_over() {
    let mut buf = BytePacketBuffer::new();
    buf.seek(BUF_SIZE);
    assert_eq!(Err(BufferError::WriteOverrun), buf.push(0xAB));
}

#[test]
fn push_slice_happy() {
    let mut buf = BytePacketBuffer::new();
    buf.push_slice(b"cool").unwrap();
    assert_eq!(4, buf.pos());
    assert_eq!(b"cool"[..], buf.buf[..4]);
}

#[test]
fn push_slice_err_buf_over() {
    let mut buf = BytePacketBuffer::new();
    buf.seek(BUF_SIZE - 4);
    assert_eq!(Err(BufferError::WriteOverrun), buf.push_slice(b"cool"));
    assert_eq!(BUF_SIZE - 4, buf.pos());
}

#[test]
fn push_u16_big_endian() {
    let mut buf = BytePacketBuffer::new();
    buf.push_u16(0x1FFA).unwrap();
    assert_eq!([0x1F, 0xFA], buf.buf[..2]);
    assert_eq!(2, buf.pos());
}

#[test]
fn push_u16_err_buf_over() {
    let mut buf = BytePacketBuffer::new();
    buf.seek(BUF_SIZE - 1);
    assert_eq!(Err(BufferError::WriteOverrun), buf.push_u16(0x1FFA));
    assert_eq!(BUF_SIZE - 1, buf.pos());
}

#[test]
fn push_u32_big_endian() {
    let mut buf = BytePacketBuffer::new();
    buf.push_u32(0x1FFACC37).unwrap();
    assert_eq!([0x1F, 0xFA, 0xCC, 0x37], buf.buf[..4]);
    assert_eq!(4, buf.pos());
}

#[test]
fn push_u32_err_buf_over() {
    let mut buf = BytePacketBuffer::new();
    buf.seek(BUF_SIZE - 3);
    assert_eq!(Err(BufferError::WriteOverrun), buf.push_u32(0x1FFACC37));
}

#[test]
fn default_is_fresh() {
    let buf = BytePacketBuffer::default();
    assert_eq!(0, buf.pos());
    assert!(buf.buf.iter().all(|b| *b == 0));
}
