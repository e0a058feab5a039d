use rpi_imgpatcher::rpi_image::layout::{MbrTable, PartitionEntry, FAT32_WITH_CHS, FAT32_WITH_LBA};
use rpi_imgpatcher::rpi_image::{Error, FatPartitionLayout};
use std::io::Cursor;

#[test]
fn test_fat_partition_layout_new() {
    let mbr_data = vec![0u8; 1024];
    let mut mbr = mbrman::MBR::new_from(&mut Cursor::new(&mbr_data), 512, [0; 4]).unwrap();

    mbr[1] = mbrman::MBRPartitionEntry {
        boot: mbrman::BOOT_INACTIVE,
        starting_lba: 100,
        sectors: 200,
        sys: FAT32_WITH_LBA,
        first_chs: mbrman::CHS::empty(),
        last_chs: mbrman::CHS::empty(),
    };

    let mut mbr_cursor = Cursor::new(vec![0u8; 1024]);
    mbr.write_into(&mut mbr_cursor).unwrap();
    mbr_cursor.set_position(0);

    let layout = FatPartitionLayout::new(&mut mbr_cursor).unwrap();
    assert_eq!(layout.base, 100 * 512);
    assert_eq!(layout.length, 200 * 512);
}

#[test]
fn test_fat_partition_layout_no_fat() {
    let mbr_data = vec![0u8; 1024];
    let mut mbr = mbrman::MBR::new_from(&mut Cursor::new(&mbr_data), 512, [0; 4]).unwrap();

    mbr[1] = mbrman::MBRPartitionEntry {
        boot: mbrman::BOOT_INACTIVE,
        starting_lba: 100,
        sectors: 200,
        sys: 0x83, // Linux
        first_chs: mbrman::CHS::empty(),
        last_chs: mbrman::CHS::empty(),
    };

    let mut mbr_cursor = Cursor::new(vec![0u8; 1024]);
    mbr.write_into(&mut mbr_cursor).unwrap();
    mbr_cursor.set_position(0);

    let result = FatPartitionLayout::new(&mut mbr_cursor);
    assert!(matches!(result, Err(Error::InvalidImage)));
}

#[test]
fn unreadable_table_is_an_mbr_error() {
    let mut cursor = Cursor::new(vec![0u8; 1024]);
    assert!(matches!(FatPartitionLayout::new(&mut cursor), Err(Error::Mbr(_))));
}

fn entry(sys: u8, starting_lba: u32, sectors: u32) -> PartitionEntry {
    PartitionEntry { sys, starting_lba, sectors }
}

#[test]
fn the_first_fat32_partition_is_chosen() {
    let table = MbrTable {
        sector_size: 4096,
        partitions: vec![entry(0x83, 1, 2), entry(FAT32_WITH_CHS, 8, 16), entry(FAT32_WITH_LBA, 100, 100)],
    };
    let layout = FatPartitionLayout::from_table(&table).unwrap();
    assert_eq!(layout.base, 8 * 4096);
    assert_eq!(layout.length, 16 * 4096);
}

#[test]
fn large_partitions_do_not_overflow() {
    let table = MbrTable { sector_size: 512, partitions: vec![entry(FAT32_WITH_LBA, u32::MAX, u32::MAX)] };
    let layout = FatPartitionLayout::from_table(&table).unwrap();
    assert_eq!(layout.base, u32::MAX as u64 * 512);
    assert_eq!(layout.length, u32::MAX as u64 * 512);
}

#[test]
fn table_without_fat32_is_invalid() {
    let table = MbrTable { sector_size: 512, partitions: vec![entry(0x07, 1, 2)] };
    assert!(matches!(FatPartitionLayout::from_table(&table), Err(Error::InvalidImage)));
    let empty = MbrTable { sector_size: 512, partitions: vec![] };
    assert!(matches!(FatPartitionLayout::from_table(&empty), Err(Error::InvalidImage)));
}

/// A raw 512-byte sector holding an MBR whose first primary entry is `sys`,
/// starting at `lba` and `sectors` long.
fn raw_mbr(sys: u8, lba: u32, sectors: u32) -> Vec<u8> {
    let mut disk = vec![0u8; 2048];
    disk[446 + 4] = sys;
    disk[446 + 8..446 + 12].copy_from_slice(&lba.to_le_bytes());
    disk[446 + 12..446 + 16].copy_from_slice(&sectors.to_le_bytes());
    disk[510] = 0x55;
    disk[511] = 0xAA;
    disk
}

#[test]
fn partition_starting_at_sector_zero_is_read() {
    let mut disk = Cursor::new(raw_mbr(FAT32_WITH_LBA, 0, 100));
    let layout = FatPartitionLayout::new(&mut disk).unwrap();
    assert_eq!(layout.base, 0);
    assert_eq!(layout.length, 100 * 512);
}

#[test]
fn table_is_read_from_the_start_of_the_disk() {
    let mut disk = Cursor::new(raw_mbr(FAT32_WITH_CHS, 8192, 4));
    disk.set_position(1000);
    let layout = FatPartitionLayout::new(&mut disk).unwrap();
    assert_eq!(layout.base, 8192 * 512);
    assert_eq!(layout.length, 4 * 512);
}

#[test]
fn missing_boot_signature_is_an_mbr_error() {
    let mut bytes = raw_mbr(FAT32_WITH_LBA, 1, 1);
    bytes[511] = 0;
    let mut disk = Cursor::new(bytes);
    assert!(matches!(FatPartitionLayout::new(&mut disk), Err(Error::Mbr(_))));
}
