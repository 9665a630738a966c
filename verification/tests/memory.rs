use telefork::failure::{ErrorKind, TeleError};
use telefork::memory::{transfer_outcome, Chunk, Transfer};

fn chunks_of(addr: u64, length: u64) -> Vec<Chunk> {
    let mut transfer = Transfer::new(addr, length).unwrap();
    let mut chunks = Vec::new();
    while let Some(chunk) = transfer.next_chunk() {
        chunks.push(chunk);
    }
    assert_eq!(transfer.remaining(), 0);
    assert_eq!(transfer.next_chunk(), None);
    chunks
}

#[test]
fn region_moves_a_page_at_a_time() {
    assert_eq!(
        chunks_of(0x10000, 3 * 4096),
        vec![
            Chunk { addr: 0x10000, len: 4096 },
            Chunk { addr: 0x11000, len: 4096 },
            Chunk { addr: 0x12000, len: 4096 },
        ]
    );
}

#[test]
fn last_piece_is_what_is_left() {
    assert_eq!(
        chunks_of(0x7000, 4096 + 17),
        vec![Chunk { addr: 0x7000, len: 4096 }, Chunk { addr: 0x8000, len: 17 }]
    );
    assert_eq!(chunks_of(0x7000, 9), vec![Chunk { addr: 0x7000, len: 9 }]);
}

#[test]
fn empty_region_has_no_piece() {
    assert_eq!(chunks_of(0x7000, 0), Vec::new());
}

#[test]
fn heap_of_64_mib_moves_in_16384_pieces_that_lie_end_to_end() {
    let addr: u64 = 0x7f00_0000_0000;
    let length: u64 = 64 * 1024 * 1024;
    let chunks = chunks_of(addr, length);
    assert_eq!(chunks.len(), 16384);
    let mut next: u64 = addr;
    for chunk in &chunks {
        assert_eq!(chunk.addr, next);
        assert_eq!(chunk.len, 4096);
        next += chunk.len;
    }
    assert_eq!(next, addr + length);
}

#[test]
fn transfer_counts_down() {
    let mut transfer = Transfer::new(0x1000, 10000).unwrap();
    assert_eq!(transfer.addr(), 0x1000);
    assert_eq!(transfer.length(), 10000);
    assert_eq!(transfer.remaining(), 10000);
    assert_eq!(transfer.next_chunk(), Some(Chunk { addr: 0x1000, len: 4096 }));
    assert_eq!(transfer.remaining(), 5904);
    assert_eq!(transfer.next_chunk(), Some(Chunk { addr: 0x2000, len: 4096 }));
    assert_eq!(transfer.remaining(), 1808);
    assert_eq!(transfer.next_chunk(), Some(Chunk { addr: 0x3000, len: 1808 }));
    assert_eq!(transfer.remaining(), 0);
    assert_eq!(transfer.next_chunk(), None);
    assert_eq!(transfer.addr(), 0x1000);
    assert_eq!(transfer.length(), 10000);
}

#[test]
fn region_past_the_last_address_is_refused() {
    assert_eq!(Transfer::new(u64::MAX, 1).err(), Some(TeleError::RegionOverflow));
    assert_eq!(Transfer::new(u64::MAX - 4095, 4097).err(), Some(TeleError::RegionOverflow));
    assert!(Transfer::new(u64::MAX - 4096, 4096).is_ok());
    assert!(Transfer::new(u64::MAX, 0).is_ok());
}

#[test]
fn region_that_ends_at_the_last_address_moves_whole() {
    let chunks = chunks_of(u64::MAX - 5000, 5000);
    assert_eq!(
        chunks,
        vec![
            Chunk { addr: u64::MAX - 5000, len: 4096 },
            Chunk { addr: u64::MAX - 904, len: 904 },
        ]
    );
}

#[test]
fn short_count_is_a_failure() {
    assert_eq!(transfer_outcome(4096, 4096), Ok(()));
    assert_eq!(transfer_outcome(0, 0), Ok(()));
    assert_eq!(transfer_outcome(4096, 0), Err(TeleError::ShortTransfer));
    assert_eq!(transfer_outcome(4096, 4095), Err(TeleError::ShortTransfer));
    assert_eq!(transfer_outcome(17, 4096), Err(TeleError::ShortTransfer));
    assert_eq!(TeleError::ShortTransfer.kind(), ErrorKind::Io);
}
