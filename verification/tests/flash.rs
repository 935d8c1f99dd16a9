use embedded_hal_sim::flash::w25q32jv::Error;
use embedded_hal_sim::flash::w25q32jv::ErrorKind;
use embedded_hal_sim::flash::w25q32jv::W25q32jv;
use embedded_hal_sim::flash::w25q32jv::PAGE_SIZE;
use embedded_hal_sim::flash::w25q32jv::SECTOR_SIZE;

#[test]
fn test() {
    let mut data = vec![0xFFu8; SECTOR_SIZE as usize];
    data[0] = 0;
    data[1] = 1;
    data[2] = 2;
    data[3] = 3;

    let mut flash = W25q32jv::new(data);
    let mut dst = [0; 5];
    flash.read(0, &mut dst).unwrap();
    assert_eq!(dst, [0, 1, 2, 3, 0xFF]);

    // Writing ones changes nothing: a write can only clear bits.
    flash.write(0, &[0xFF, 0xFF, 0xFF, 0xFF, 0xFF]).unwrap();
    flash.read(0, &mut dst).unwrap();
    assert_eq!(dst, [0, 1, 2, 3, 0xFF]);

    // Writing zeros clears every bit.
    flash.write(0, &[0x00, 0x00, 0x00, 0x00, 0x00]).unwrap();
    flash.read(0, &mut dst).unwrap();
    assert_eq!(dst, [0, 0, 0, 0, 0]);

    // Erasing sets every bit.
    flash.erase(0, SECTOR_SIZE).unwrap();
    flash.read(0, &mut dst).unwrap();
    assert_eq!(dst, [0xFF, 0xFF, 0xFF, 0xFF, 0xFF]);

    {
        // Bulk write, single reads
        let mut read_bytes = [0; 1];
        let bytes_to_write = [0x12, 0x34, 0x56, 0x78, 0x9a];
        flash.write(0, &bytes_to_write).unwrap();
        for (i, expected_byte) in bytes_to_write.iter().enumerate() {
            flash.read(i as u32, &mut read_bytes).unwrap();
            assert_eq!(read_bytes[0], *expected_byte);
        }
    }

    flash.erase(0, SECTOR_SIZE).unwrap();
    assert_eq!(flash.erase(0, 2), Err(Error::NotAligned));
    assert_eq!(flash.erase(1, SECTOR_SIZE), Err(Error::NotAligned));
    assert_eq!(flash.erase(SECTOR_SIZE, 0), Err(Error::OutOfBounds));

    {
        // Single writes, bulk read
        let mut read_bytes = [0; 5];
        let bytes_to_write = [0x12, 0x34, 0x56, 0x78, 0x9a];

        for (i, byte_to_write) in bytes_to_write.iter().enumerate() {
            flash.write(i as u32, &[*byte_to_write]).unwrap();
        }

        flash.read(0, &mut read_bytes).unwrap();
        assert_eq!(read_bytes, bytes_to_write);
    }
}

fn two_sectors() -> W25q32jv {
    let mut data = vec![0xFFu8; 2 * SECTOR_SIZE as usize];
    for (i, byte) in data.iter_mut().enumerate() {
        *byte = (i % 251) as u8;
    }
    W25q32jv::new(data)
}

#[test]
fn sizes_are_those_of_the_part() {
    assert_eq!(PAGE_SIZE, 256);
    assert_eq!(SECTOR_SIZE, 4096);
}

#[test]
fn capacity_is_the_length_of_the_image() {
    assert_eq!(two_sectors().capacity(), 8192);
    assert_eq!(W25q32jv::new(Vec::new()).capacity(), 0);
}

#[test]
fn read_copies_the_addressed_range() {
    let mut flash = two_sectors();
    let mut dst = [0u8; 4];
    assert_eq!(flash.read(250, &mut dst), Ok(()));
    assert_eq!(dst, [250, 0, 1, 2]);
    let mut last = [0u8; 1];
    assert_eq!(flash.read(8191, &mut last), Ok(()));
    assert_eq!(last, [(8191 % 251) as u8]);
    let mut none = [0u8; 0];
    assert_eq!(flash.read(8192, &mut none), Ok(()));
}

#[test]
fn read_past_the_end_is_out_of_bounds() {
    let mut flash = two_sectors();
    let mut dst = [7u8; 4];
    assert_eq!(flash.read(8190, &mut dst), Err(Error::OutOfBounds));
    assert_eq!(dst, [7, 7, 7, 7]);
    assert_eq!(flash.read(8193, &mut dst), Err(Error::OutOfBounds));
    assert_eq!(flash.read(u32::MAX, &mut dst), Err(Error::OutOfBounds));
    assert_eq!(dst, [7, 7, 7, 7]);
}

#[test]
fn write_merges_by_bitwise_and() {
    let mut flash = W25q32jv::new(vec![0b1111_0000, 0b1010_1010, 0xFF, 0x00]);
    assert_eq!(flash.write(0, &[0b1100_1100, 0b0110_0110, 0x5A, 0xFF]), Ok(()));
    let mut dst = [0u8; 4];
    flash.read(0, &mut dst).unwrap();
    assert_eq!(dst, [0b1100_0000, 0b0010_0010, 0x5A, 0x00]);
}

#[test]
fn write_leaves_the_other_bytes_alone() {
    let mut flash = W25q32jv::new(vec![0xFF; 8]);
    flash.write(3, &[0x0F, 0xF0]).unwrap();
    let mut dst = [0u8; 8];
    flash.read(0, &mut dst).unwrap();
    assert_eq!(dst, [0xFF, 0xFF, 0xFF, 0x0F, 0xF0, 0xFF, 0xFF, 0xFF]);
}

#[test]
fn write_drops_what_lies_behind_the_end() {
    let mut flash = W25q32jv::new(vec![0xFF; 4]);
    assert_eq!(flash.write(2, &[1, 2, 3, 4]), Ok(()));
    let mut dst = [0u8; 4];
    flash.read(0, &mut dst).unwrap();
    assert_eq!(dst, [0xFF, 0xFF, 1, 2]);
    assert_eq!(flash.write(4, &[9]), Ok(()));
    flash.read(0, &mut dst).unwrap();
    assert_eq!(dst, [0xFF, 0xFF, 1, 2]);
}

#[test]
fn write_behind_the_end_is_out_of_bounds() {
    let mut flash = W25q32jv::new(vec![0xFF; 4]);
    assert_eq!(flash.write(5, &[0]), Err(Error::OutOfBounds));
    assert_eq!(flash.write(5, &[]), Err(Error::OutOfBounds));
    let mut dst = [0u8; 4];
    flash.read(0, &mut dst).unwrap();
    assert_eq!(dst, [0xFF; 4]);
}

#[test]
fn erase_fills_the_range_and_no_more() {
    let mut flash = W25q32jv::new(vec![0x11; 3 * SECTOR_SIZE as usize]);
    assert_eq!(flash.erase(SECTOR_SIZE, 2 * SECTOR_SIZE), Ok(()));
    let mut dst = [0u8; 2];
    flash.read(SECTOR_SIZE - 1, &mut dst).unwrap();
    assert_eq!(dst, [0x11, 0xFF]);
    flash.read(2 * SECTOR_SIZE - 1, &mut dst).unwrap();
    assert_eq!(dst, [0xFF, 0x11]);
}

#[test]
fn erase_of_an_empty_range_changes_nothing() {
    let mut flash = W25q32jv::new(vec![0x11; SECTOR_SIZE as usize]);
    assert_eq!(flash.erase(SECTOR_SIZE, SECTOR_SIZE), Ok(()));
    assert_eq!(flash.erase(0, 0), Ok(()));
    let mut dst = [0u8; 1];
    flash.read(0, &mut dst).unwrap();
    assert_eq!(dst, [0x11]);
}

#[test]
fn erase_checks_alignment_before_order() {
    let mut flash = two_sectors();
    assert_eq!(flash.erase(SECTOR_SIZE + 1, 0), Err(Error::NotAligned));
    assert_eq!(flash.erase(SECTOR_SIZE, 1), Err(Error::NotAligned));
    assert_eq!(flash.erase(PAGE_SIZE, SECTOR_SIZE), Err(Error::NotAligned));
    assert_eq!(flash.erase(2 * SECTOR_SIZE, SECTOR_SIZE), Err(Error::OutOfBounds));
}

#[test]
fn erase_past_the_end_is_out_of_bounds() {
    let mut flash = two_sectors();
    assert_eq!(flash.erase(0, 3 * SECTOR_SIZE), Err(Error::OutOfBounds));
    let mut dst = [0u8; 3];
    flash.read(0, &mut dst).unwrap();
    assert_eq!(dst, [0, 1, 2]);
}

#[test]
fn erase_then_write_then_read_gives_what_was_written() {
    let mut flash = two_sectors();
    flash.erase(SECTOR_SIZE, 2 * SECTOR_SIZE).unwrap();
    let written = [0xDE, 0xAD, 0xBE, 0xEF, 0x00, 0xFF];
    flash.write(SECTOR_SIZE + 100, &written).unwrap();
    let mut dst = [0u8; 6];
    flash.read(SECTOR_SIZE + 100, &mut dst).unwrap();
    assert_eq!(dst, written);
}

#[test]
fn errors_sort_into_kinds() {
    assert_eq!(Error::NotAligned.kind(), ErrorKind::NotAligned);
    assert_eq!(Error::OutOfBounds.kind(), ErrorKind::OutOfBounds);
    assert_eq!(Error::WriteEnableFail.kind(), ErrorKind::Other);
    assert_eq!(Error::ReadbackFail.kind(), ErrorKind::Other);
}
