use chip8::arch;
use chip8::error::ChipError;
use chip8::ram::Ram;

#[test]
fn clear_when_created() {
    let ram = Ram::new();

    for i in 0..arch::RAMSIZE {
        assert_eq!(ram.read_u8(i).unwrap(), 0);
    }
}

#[test]
fn write_u8_read_u8() {
    let mut ram = Ram::new();

    ram.write_u8(0x0, 0x00).unwrap();
    ram.write_u8(0x1, 0x10).unwrap();

    assert_eq!(ram.read_u8(0x0).unwrap(), 0x00);
    assert_eq!(ram.read_u8(0x1).unwrap(), 0x10);

    ram.write_u8(0xff0, 0x00).unwrap();
    ram.write_u8(0xff1, 0x10).unwrap();

    assert_eq!(ram.read_u8(0xff0).unwrap(), 0x00);
    assert_eq!(ram.read_u8(0xff1).unwrap(), 0x10);
}

#[test]
fn write_u16_read_u16() {
    let mut ram = Ram::new();

    ram.write_u16(0x0, 0x1122).unwrap();
    ram.write_u16(0x2, 0x3344).unwrap();

    assert_eq!(ram.read_u16(0x0).unwrap(), 0x1122);
    assert_eq!(ram.read_u16(0x2).unwrap(), 0x3344);
}

#[test]
fn write_u16_read_u8() {
    let mut ram = Ram::new();

    ram.write_u16(0x0, 0x1122).unwrap();
    assert_eq!(ram.read_u8(0x0).unwrap(), 0x11);
    assert_eq!(ram.read_u8(0x1).unwrap(), 0x22);

    ram.write_u16(0x2, 0x3344).unwrap();
    assert_eq!(ram.read_u8(0x2).unwrap(), 0x33);
    assert_eq!(ram.read_u8(0x3).unwrap(), 0x44);
}

#[test]
fn load_block_u16() {
    let mut ram = Ram::new();

    let data = [0x1122u16];
    ram.load_block_u16(0, &data).unwrap();
    assert_eq!(ram.read_u16(0).unwrap(), 0x1122u16);

    let data = [0x1122u16, 0x3344u16, 0x5566u16];
    let mut addr = 0x200;
    ram.load_block_u16(addr, &data).unwrap();
    for bb in data {
        assert_eq!(ram.read_u16(addr).unwrap(), bb);
        addr += 2;
    }
}

#[test]
fn load_block_u8() {
    let mut ram = Ram::new();

    let data = [0x12];
    ram.load_block_u8(0, &data).unwrap();
    assert_eq!(ram.read_u8(0).unwrap(), 0x12);

    let data = [0x11, 0x22, 0x33, 0x44, 0x55, 0x66];
    let mut addr = 0x200;
    ram.load_block_u8(addr, &data).unwrap();
    for bb in data {
        assert_eq!(ram.read_u8(addr).unwrap(), bb);
        addr += 1;
    }
}

#[test]
fn load_block_returns_next_free_address() {
    let mut ram = Ram::new();
    assert_eq!(ram.load_block_u8(0x10, &[1, 2, 3]), Ok(0x13));
    assert_eq!(ram.load_block_u16(0x20, &[0xAABB, 0xCCDD]), Ok(0x24));
    assert_eq!(ram.load_block_u8(0x30, &[]), Ok(0x30));
    assert_eq!(ram.load_block_u8(4096, &[]), Ok(4096));
}

#[test]
fn access_beyond_memory_is_refused() {
    let mut ram = Ram::new();
    assert_eq!(ram.read_u8(4096), Err(ChipError::AddressOutOfRange));
    assert_eq!(ram.read_u8(u32::MAX), Err(ChipError::AddressOutOfRange));
    assert_eq!(ram.write_u8(4096, 1), Err(ChipError::AddressOutOfRange));
    assert_eq!(ram.read_u16(4095), Err(ChipError::AddressOutOfRange));
    assert_eq!(ram.write_u16(4095, 0x1234), Err(ChipError::AddressOutOfRange));
    assert_eq!(ram.read_u8(4095), Ok(0));
    assert_eq!(ram.write_u16(4094, 0x1234), Ok(()));
    assert_eq!(ram.read_u16(4094), Ok(0x1234));
}

#[test]
fn block_that_does_not_fit_changes_nothing() {
    let mut ram = Ram::new();
    assert_eq!(ram.load_block_u8(4094, &[1, 2, 3]), Err(ChipError::AddressOutOfRange));
    assert_eq!(ram.read_u8(4094), Ok(0));
    assert_eq!(ram.read_u8(4095), Ok(0));
    assert_eq!(ram.load_block_u16(4093, &[0x0102, 0x0304]), Err(ChipError::AddressOutOfRange));
    assert_eq!(ram.read_u8(4093), Ok(0));
    assert_eq!(ram.load_block_u16(4092, &[0x0102, 0x0304]), Ok(4096));
    assert_eq!(ram.read_u8(4092), Ok(1));
    assert_eq!(ram.read_u8(4095), Ok(4));
    assert_eq!(ram.load_block_u8(u32::MAX, &[1]), Err(ChipError::AddressOutOfRange));
}

#[test]
fn block_leaves_the_rest_alone() {
    let mut ram = Ram::new();
    ram.write_u8(0x0ff, 0xAA).unwrap();
    ram.write_u8(0x103, 0xBB).unwrap();
    ram.load_block_u8(0x100, &[1, 2, 3]).unwrap();
    assert_eq!(ram.read_u8(0x0ff), Ok(0xAA));
    assert_eq!(ram.read_u8(0x100), Ok(1));
    assert_eq!(ram.read_u8(0x102), Ok(3));
    assert_eq!(ram.read_u8(0x103), Ok(0xBB));
}
