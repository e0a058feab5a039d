//! Where the boot FAT partition lies inside a disk image, found from the
//! image's MBR partition table.
use crate::rpi_image::Error;
use mbrman::Error as MbrmanError;
use vstd::prelude::*;

verus! {

/// FAT32 with CHS addressing.
pub const FAT32_WITH_CHS: u8 = 0xB;

/// FAT32 with LBA addressing.
pub const FAT32_WITH_LBA: u8 = 0xC;

/// The byte range of the boot FAT partition inside a disk image.
#[derive(Debug, Clone, Copy)]
pub struct FatPartitionLayout {
    /// Offset of the partition's first byte.
    pub base: u64,
    /// Length of the partition in bytes.
    pub length: u64,
}

/// One entry of an MBR partition table, as the layout reads it.
#[derive(Debug, Clone, Copy)]
pub struct PartitionEntry {
    /// The partition type.
    pub sys: u8,
    /// The first sector of the partition.
    pub starting_lba: u32,
    /// The number of sectors of the partition.
    pub sectors: u32,
}

/// The partition table of a disk: its sector size and its entries, in the
/// order in which they are searched.
pub struct MbrTable {
    pub sector_size: u32,
    pub partitions: Vec<PartitionEntry>,
}

/// An entry as a tuple of plain values: type, first sector, sector count.
pub open spec fn entry_view(e: PartitionEntry) -> (u8, u32, u32) {
    (e.sys, e.starting_lba, e.sectors)
}

/// The entries of a table as tuples.
pub open spec fn entries_view(v: Seq<PartitionEntry>) -> Seq<(u8, u32, u32)> {
    v.map_values(|e: PartitionEntry| entry_view(e))
}

/// Reads the primary partition table of a disk with
/// `mbrman::MBRHeader::read_from`, which seeks to the start of the disk,
/// decodes the 512-byte header and checks its boot signature and the boot
/// flag of each entry, and lists the four primary entries with
/// `MBRHeader::iter`, partition 1 first. The contract claims only that a
/// table that was read has four entries: what they hold depends on the disk.
#[verifier::external_body]
fn read_primary_entries<R: std::io::Read + std::io::Seek>(input_img: &mut R) -> (r: Result<Vec<PartitionEntry>, MbrmanError>)
    ensures
        r matches Ok(v) ==> v.len() == 4,
{
    let header = mbrman::MBRHeader::read_from(input_img)?;
    Ok(header.iter().map(|(_, p)| PartitionEntry {
        sys: p.sys,
        starting_lba: p.starting_lba,
        sectors: p.sectors,
    }).collect())
}

/// Whether a partition type is FAT32.
pub open spec fn is_fat32(sys: u8) -> bool {
    sys == FAT32_WITH_CHS || sys == FAT32_WITH_LBA
}

/// The position of the first FAT32 entry.
pub open spec fn first_fat32(p: Seq<(u8, u32, u32)>) -> Option<int>
    decreases p.len(),
{
    if p.len() == 0 {
        None
    } else if is_fat32(p[0].0) {
        Some(0)
    } else {
        match first_fat32(p.drop_first()) {
            Some(i) => Some(i + 1),
            None => None,
        }
    }
}

/// The byte range of the first FAT32 partition of a table, if it has one.
pub open spec fn fat_layout(sector_size: u32, p: Seq<(u8, u32, u32)>) -> Option<(u64, u64)> {
    match first_fat32(p) {
        Some(i) => Some(
            (
                (p[i].1 as int * sector_size as int) as u64,
                (p[i].2 as int * sector_size as int) as u64,
            ),
        ),
        None => None,
    }
}

proof fn lemma_first_fat32(p: Seq<(u8, u32, u32)>)
    ensures
        first_fat32(p) matches Some(i) ==> 0 <= i < p.len() && is_fat32(p[i].0) && forall|j: int|
            0 <= j < i ==> !is_fat32(#[trigger] p[j].0),
        first_fat32(p) is None ==> forall|j: int| 0 <= j < p.len() ==> !is_fat32(#[trigger] p[j].0),
    decreases p.len(),
{
    if p.len() > 0 {
        lemma_first_fat32(p.drop_first());
        assert forall|j: int| 0 < j < p.len() implies p[j] == p.drop_first()[j - 1] by {}
    }
}

/// The first FAT32 entry is the one chosen: it is FAT32 and no entry before
/// it is; a table without FAT32 entries has no layout.
pub proof fn lemma_fat_layout_picks_first_fat32(sector_size: u32, p: Seq<(u8, u32, u32)>)
    ensures
        fat_layout(sector_size, p) is None <==> forall|j: int| 0 <= j < p.len() ==> !is_fat32(#[trigger] p[j].0),
        fat_layout(sector_size, p) matches Some(l) ==> exists|i: int|
            0 <= i < p.len() && is_fat32(p[i].0) && (forall|j: int| 0 <= j < i ==> !is_fat32(#[trigger] p[j].0))
                && l.0 == p[i].1 as int * sector_size as int && l.1 == p[i].2 as int * sector_size as int,
{
    lemma_first_fat32(p);
    if let Some(i) = first_fat32(p) {
        assert(p[i].1 as int * sector_size as int <= u32::MAX as int * u32::MAX as int) by (nonlinear_arith)
            requires p[i].1 <= u32::MAX, sector_size <= u32::MAX;
        assert(p[i].2 as int * sector_size as int <= u32::MAX as int * u32::MAX as int) by (nonlinear_arith)
            requires p[i].2 <= u32::MAX, sector_size <= u32::MAX;
        assert(!(forall|j: int| 0 <= j < p.len() ==> !is_fat32(#[trigger] p[j].0))) by {
            assert(is_fat32(p[i].0));
        }
    }
}

impl FatPartitionLayout {
    /// The layout of the first FAT32 partition (type 0x0B or 0x0C) of a
    /// partition table: its first byte and its length, in sectors times the
    /// sector size. A table without one is an `InvalidImage`.
    pub fn from_table(table: &MbrTable) -> (r: Result<Self, Error>)
        ensures
            match fat_layout(table.sector_size, entries_view(table.partitions@)) {
                Some(l) => r matches Ok(v) && v.base == l.0 && v.length == l.1,
                None => r matches Err(e) && e is InvalidImage,
            },
    {
        let ghost p = entries_view(table.partitions@);
        let n = table.partitions.len();
        let mut k: usize = 0;
        assert(p.skip(0) =~= p);
        while k < n
            invariant
                n == table.partitions@.len(),
                p == entries_view(table.partitions@),
                k <= n,
                forall|j: int| 0 <= j < k ==> !is_fat32(#[trigger] p[j].0),
                first_fat32(p) == match first_fat32(p.skip(k as int)) {
                    Some(i) => Some(i + k),
                    None => None::<int>,
                },
            decreases n - k,
        {
            let e = table.partitions[k];
            assert(p[k as int] == entry_view(e));
            assert(p.skip(k as int).drop_first() =~= p.skip(k + 1));
            if e.sys == FAT32_WITH_CHS || e.sys == FAT32_WITH_LBA {
                let ss = table.sector_size as u64;
                assert(e.starting_lba as u64 * ss <= u32::MAX as u64 * u32::MAX as u64) by (nonlinear_arith)
                    requires e.starting_lba <= u32::MAX, ss <= u32::MAX;
                assert(e.sectors as u64 * ss <= u32::MAX as u64 * u32::MAX as u64) by (nonlinear_arith)
                    requires e.sectors <= u32::MAX, ss <= u32::MAX;
                let base = e.starting_lba as u64 * ss;
                let length = e.sectors as u64 * ss;
                return Ok(FatPartitionLayout { base, length });
            }
            k = k + 1;
        }
        assert(p.skip(n as int) =~= Seq::<(u8, u32, u32)>::empty());
        Err(Error::InvalidImage)
    }

    /// The layout of the boot FAT partition of a disk: the four primary
    /// entries of its partition table are read with `mbrman` (sector size
    /// 512) and the first FAT32 partition among them is chosen, as
    /// [`FatPartitionLayout::from_table`] does. An unreadable table is an
    /// `Mbr` error; a table without FAT32 primary partition is an
    /// `InvalidImage`. Logical partitions inside an extended partition are
    /// not searched.
    pub fn new<R: std::io::Read + std::io::Seek>(input_img: &mut R) -> (r: Result<Self, Error>)
        ensures
            r matches Err(e) ==> e is Mbr || e is InvalidImage,
            r matches Ok(l) ==> exists|p: Seq<(u8, u32, u32)>|
                p.len() == 4 && fat_layout(512, p) == Some((l.base, l.length)),
            (r matches Err(e) && e is InvalidImage) ==> exists|p: Seq<(u8, u32, u32)>|
                p.len() == 4 && fat_layout(512, p) is None,
    {
        match read_primary_entries(input_img) {
            Ok(partitions) => {
                let table = MbrTable { sector_size: 512, partitions };
                FatPartitionLayout::from_table(&table)
            },
            Err(e) => Err(Error::Mbr(e)),
        }
    }
}

} // verus!
