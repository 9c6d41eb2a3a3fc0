use vm_instance::error::Error;
use vm_instance::locator::{
    ceiling_div, locate_entry, PvmfwEntry, Scan, ScanStep, Stage, PVMFW_UUID,
};
use vm_instance::partition::{Block, Partition, BLK_SIZE};

const FOREIGN: u128 = 0x0a1b_2c3d_4e5f_6071_8293_a4b5_c6d7_e8f9;

fn image_header() -> Block {
    let mut block = [0u8; BLK_SIZE];
    block[..19].copy_from_slice(b"Android-VM-instance");
    block[19] = 1;
    block
}

fn entry(uuid: u128, payload_size: u64) -> Block {
    let mut block = [0u8; BLK_SIZE];
    block[..16].copy_from_slice(&uuid.to_be_bytes());
    block[16..24].copy_from_slice(&payload_size.to_le_bytes());
    block
}

fn free() -> Block {
    [0u8; BLK_SIZE]
}

/// A payload block that would read as the owned header if it were taken
/// for one.
fn decoy() -> Block {
    entry(PVMFW_UUID, 40)
}

fn partition(blocks: Vec<Block>) -> Partition {
    Partition { blocks }
}

#[test]
fn block_size() {
    assert_eq!(BLK_SIZE, 512);
}

#[test]
fn new_partition_is_zeroed() {
    let partition = Partition::new(3);
    assert_eq!(partition.len(), 3);
    assert_eq!(partition.blocks, vec![[0u8; BLK_SIZE]; 3]);
    assert_eq!(partition.read_block(2), Some([0u8; BLK_SIZE]));
    assert_eq!(partition.read_block(3), None);
    assert_eq!(Partition::new(0).len(), 0);
}

#[test]
fn write_block_replaces_one_block() {
    let mut partition = Partition::new(3);
    let block = entry(FOREIGN, 9);
    assert!(partition.write_block(1, &block));
    assert_eq!(partition.blocks, vec![free(), block, free()]);
    assert!(!partition.write_block(3, &block));
    assert_eq!(partition.blocks, vec![free(), block, free()]);
}

#[test]
fn ceiling_division() {
    assert_eq!(ceiling_div(0, 512), Some(0));
    assert_eq!(ceiling_div(1, 512), Some(1));
    assert_eq!(ceiling_div(511, 512), Some(1));
    assert_eq!(ceiling_div(512, 512), Some(1));
    assert_eq!(ceiling_div(513, 512), Some(2));
    assert_eq!(ceiling_div(1024, 512), Some(2));
    assert_eq!(ceiling_div(u64::MAX, 512), Some(1 << 55));
    assert_eq!(ceiling_div(u64::MAX, 1), Some(u64::MAX));
    assert_eq!(ceiling_div(u64::MAX, u64::MAX), Some(1));
    assert_eq!(ceiling_div(7, 0), None);
}

#[test]
fn fresh_image_is_free_at_block_one() {
    for blocks in [2usize, 3, 64] {
        let mut partition = Partition::new(blocks);
        assert!(partition.write_block(0, &image_header()));
        assert_eq!(locate_entry(&partition), Ok(PvmfwEntry::New { header_index: 1 }));
    }
}

#[test]
fn image_of_header_alone_is_full() {
    assert_eq!(locate_entry(&partition(vec![image_header()])), Err(Error::InstanceImageFull));
}

#[test]
fn empty_partition_has_no_header() {
    assert_eq!(locate_entry(&Partition::new(0)), Err(Error::MissingInstanceImageHeader));
}

#[test]
fn zeroed_partition_has_an_invalid_header() {
    assert_eq!(locate_entry(&Partition::new(8)), Err(Error::InvalidInstanceImageHeader));
}

#[test]
fn any_changed_magic_byte_invalidates_the_image() {
    for at in 0..19 {
        let mut header = image_header();
        header[at] ^= 0x40;
        assert_eq!(
            locate_entry(&partition(vec![header, free()])),
            Err(Error::InvalidInstanceImageHeader)
        );
    }
}

#[test]
fn any_other_version_invalidates_the_image() {
    for version in [0u16, 2, 0x0100, 0x0101, 0xffff] {
        let mut header = image_header();
        header[19..21].copy_from_slice(&version.to_le_bytes());
        assert_eq!(
            locate_entry(&partition(vec![header, free()])),
            Err(Error::InvalidInstanceImageHeader)
        );
    }
}

#[test]
fn bytes_after_the_header_fields_do_not_matter() {
    let mut header = image_header();
    for byte in header[21..].iter_mut() {
        *byte = 0xee;
    }
    assert_eq!(
        locate_entry(&partition(vec![header, free()])),
        Ok(PvmfwEntry::New { header_index: 1 })
    );
}

#[test]
fn owned_entry_is_found() {
    let blocks = vec![image_header(), entry(PVMFW_UUID, 157), decoy(), free()];
    assert_eq!(
        locate_entry(&partition(blocks)),
        Ok(PvmfwEntry::Existing { header_index: 1, payload_size: 157 })
    );
}

#[test]
fn first_of_two_owned_entries_is_taken() {
    let blocks =
        vec![image_header(), entry(PVMFW_UUID, 10), free(), entry(PVMFW_UUID, 20), free()];
    assert_eq!(
        locate_entry(&partition(blocks)),
        Ok(PvmfwEntry::Existing { header_index: 1, payload_size: 10 })
    );
}

#[test]
fn free_slot_before_an_owned_entry_ends_the_scan() {
    let blocks = vec![image_header(), free(), entry(PVMFW_UUID, 10), free()];
    assert_eq!(locate_entry(&partition(blocks)), Ok(PvmfwEntry::New { header_index: 1 }));
}

#[test]
fn foreign_entries_of_one_byte_one_block_and_one_block_plus_one_byte() {
    let blocks = vec![
        image_header(),
        entry(FOREIGN, 1),
        decoy(),
        entry(FOREIGN + 1, BLK_SIZE as u64),
        decoy(),
        entry(FOREIGN + 2, BLK_SIZE as u64 + 1),
        decoy(),
        decoy(),
        free(),
        decoy(),
    ];
    assert_eq!(locate_entry(&partition(blocks)), Ok(PvmfwEntry::New { header_index: 8 }));
}

#[test]
fn owned_entry_after_foreign_entries() {
    let blocks = vec![
        image_header(),
        entry(FOREIGN, 513),
        free(),
        free(),
        entry(FOREIGN, 0),
        entry(PVMFW_UUID, 157),
        free(),
    ];
    assert_eq!(
        locate_entry(&partition(blocks)),
        Ok(PvmfwEntry::Existing { header_index: 5, payload_size: 157 })
    );
}

#[test]
fn foreign_entry_without_payload_takes_one_block() {
    let blocks = vec![image_header(), entry(FOREIGN, 0), free()];
    assert_eq!(locate_entry(&partition(blocks)), Ok(PvmfwEntry::New { header_index: 2 }));
}

#[test]
fn image_of_foreign_entries_is_full() {
    let blocks = vec![
        image_header(),
        entry(FOREIGN, 0),
        entry(FOREIGN, 0),
        entry(FOREIGN + 7, 0),
        entry(FOREIGN, 0),
    ];
    assert_eq!(locate_entry(&partition(blocks)), Err(Error::InstanceImageFull));
    let blocks = vec![image_header(), entry(FOREIGN, 512), decoy(), entry(FOREIGN, 1), decoy()];
    assert_eq!(locate_entry(&partition(blocks)), Err(Error::InstanceImageFull));
}

#[test]
fn foreign_entry_that_reaches_the_end_fills_the_image() {
    let blocks = vec![image_header(), entry(FOREIGN, 1024), decoy(), decoy()];
    assert_eq!(locate_entry(&partition(blocks)), Err(Error::InstanceImageFull));
}

#[test]
fn foreign_entry_that_overruns_the_image_fills_it() {
    for size in [1025u64, 1 << 32, u64::MAX - 1, u64::MAX] {
        let blocks = vec![image_header(), entry(FOREIGN, size), free(), free()];
        assert_eq!(locate_entry(&partition(blocks)), Err(Error::InstanceImageFull));
    }
}

#[test]
fn header_index_of_both_kinds() {
    assert_eq!(PvmfwEntry::New { header_index: 4 }.header_index(), 4);
    assert_eq!(PvmfwEntry::Existing { header_index: 9, payload_size: 1 }.header_index(), 9);
    assert_eq!(PvmfwEntry::uuid().as_u128(), 0x90d2174a038a4bc6adf3824848fc5825);
}

#[test]
fn indices_are_visited_in_order() {
    let mut indices = Partition::new(3).indices();
    assert_eq!(indices.next(), Some(0));
    assert_eq!(indices.next(), Some(1));
    assert_eq!(indices.next(), Some(2));
    assert_eq!(indices.next(), None);
    assert_eq!(indices.next(), None);
    assert_eq!(Partition::new(0).indices().next(), None);
}

#[test]
fn indices_are_passed_over() {
    let mut indices = Partition::new(10).indices();
    indices.advance_by(0);
    assert_eq!(indices.next(), Some(0));
    indices.advance_by(3);
    assert_eq!(indices.next(), Some(4));
    indices.advance_by(4);
    assert_eq!(indices.next(), Some(9));
    indices.advance_by(1);
    assert_eq!(indices.next(), None);

    let mut indices = Partition::new(10).indices();
    indices.advance_by(10);
    assert_eq!(indices.next(), None);
    let mut indices = Partition::new(10).indices();
    indices.advance_by(u64::MAX);
    assert_eq!(indices.next(), None);
    let mut indices = Partition::new(10).indices();
    indices.advance_by(9);
    assert_eq!(indices.next(), Some(9));
}

/// Runs the scan by steps on the blocks, and gives what it ends in together
/// with the indices of the blocks that it asked for.
fn scan_by_steps(blocks: &[Block]) -> (Result<PvmfwEntry, Error>, Vec<usize>) {
    let mut asked = Vec::new();
    let mut step = Scan::start(blocks.len());
    loop {
        match step {
            ScanStep::Done(entry) => return (entry, asked),
            ScanStep::Read(scan) => {
                asked.push(scan.index);
                step = scan.next(&blocks[scan.index]);
            }
        }
    }
}

#[test]
fn scan_begins_with_the_image_header() {
    assert_eq!(Scan::start(0), ScanStep::Done(Err(Error::MissingInstanceImageHeader)));
    match Scan::start(9) {
        ScanStep::Read(scan) => {
            assert_eq!(scan.stage, Stage::ImageHeader);
            assert_eq!(scan.index, 0);
        }
        ScanStep::Done(_) => panic!("a scan of nine blocks ended before it read one"),
    }
}

#[test]
fn scan_asks_only_for_the_headers_on_its_way() {
    let blocks = vec![
        image_header(),
        entry(FOREIGN, 1),
        decoy(),
        entry(FOREIGN + 1, BLK_SIZE as u64),
        decoy(),
        entry(FOREIGN + 2, BLK_SIZE as u64 + 1),
        decoy(),
        decoy(),
        free(),
        decoy(),
    ];
    assert_eq!(
        scan_by_steps(&blocks),
        (Ok(PvmfwEntry::New { header_index: 8 }), vec![0, 1, 3, 5, 8])
    );
    let blocks = vec![image_header(), entry(PVMFW_UUID, 157), decoy(), free()];
    assert_eq!(
        scan_by_steps(&blocks),
        (Ok(PvmfwEntry::Existing { header_index: 1, payload_size: 157 }), vec![0, 1])
    );
}

#[test]
fn scan_stops_at_a_bad_header_or_at_the_end() {
    assert_eq!(
        scan_by_steps(&[free(), free()]),
        (Err(Error::InvalidInstanceImageHeader), vec![0])
    );
    assert_eq!(scan_by_steps(&[image_header()]), (Err(Error::InstanceImageFull), vec![0]));
    assert_eq!(
        scan_by_steps(&[image_header(), entry(FOREIGN, 1024), decoy(), decoy()]),
        (Err(Error::InstanceImageFull), vec![0, 1])
    );
    assert_eq!(
        scan_by_steps(&[image_header(), entry(FOREIGN, u64::MAX), free()]),
        (Err(Error::InstanceImageFull), vec![0, 1])
    );
    assert_eq!(scan_by_steps(&[]), (Err(Error::MissingInstanceImageHeader), vec![]));
}

#[test]
fn scan_by_steps_agrees_with_locate_entry() {
    let images = [
        vec![image_header(), free()],
        vec![image_header(), entry(FOREIGN, 513), free(), free(), entry(PVMFW_UUID, 9), free()],
        vec![image_header(), entry(FOREIGN, 0), entry(FOREIGN, 0)],
        vec![free()],
        vec![],
    ];
    for blocks in images {
        assert_eq!(scan_by_steps(&blocks).0, locate_entry(&partition(blocks)));
    }
}
