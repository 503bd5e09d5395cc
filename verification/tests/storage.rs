use mudu_kernel::common::endian::{read_u64, write_u64};
use mudu_kernel::common::error::EC;
use mudu_kernel::storage::bufer_manager::{
    fetch_step, initial_free_list, FetchAction, FetchEvent, FetchStage, FetchedFrom, FreeList,
};
use mudu_kernel::storage::constant::{
    page_offset_range_lsn, page_offset_range_page_id, LayoutDataHeader, LayoutExtentHeader, OffsetPage,
};
use mudu_kernel::storage::data_file::{
    DataFileExtents, ExtentSource, FileIdCounter, FreeExtents, _current_file_id, _next_file_id, extent_page_id,
};
use mudu_kernel::storage::extent::{Extent, ExtentMeta, ExtentPayload, QuadBitmap, QuadState};
use mudu_kernel::storage::frame_ctrl::{write_header, FrameCtrl};
use mudu_kernel::storage::log_entry::{lsn_init, next_lsn, LogEntry, LsnCounter};
use mudu_kernel::storage::page_block::{PageBlock, PageUpdate};
use mudu_kernel::storage::table_space::{alloc_step, AllocAction, AllocEvent, AllocStage};
use mudu_kernel::storage::page_index::{PageIndex, INVALID_FILE_ID, INVALID_PAGE_ID};

#[test]
fn endian_is_big_endian_and_round_trips() {
    let mut v = vec![0u8; 12];
    write_u64(&mut v, 2, 0x0102_0304_0506_0708);
    assert_eq!(v, vec![0, 0, 1, 2, 3, 4, 5, 6, 7, 8, 0, 0]);
    assert_eq!(read_u64(&v, 2), 0x0102_0304_0506_0708);
}

#[test]
fn layout_ranges() {
    assert_eq!(page_offset_range_page_id(), 0..8);
    assert_eq!(page_offset_range_lsn(), 8..16);
    assert_eq!(OffsetPage::total(), 0..64);
    assert_eq!(LayoutExtentHeader::size(), 64);
    assert_eq!(LayoutExtentHeader::range(), 0..128);
    assert_eq!(LayoutExtentHeader::range_of_page(), 64..128);
    assert_eq!(LayoutExtentHeader::range_page_count(), 16..24);
    assert_eq!(LayoutExtentHeader::offset_bitmap(), 64);
    assert_eq!(LayoutDataHeader::range_free_end_page(), 8..16);
}

#[test]
fn bitmap_get_after_set_and_bounds() {
    let mut b = QuadBitmap::new(5);
    assert_eq!(b.get(4), Some(QuadState::State0));
    assert_eq!(b.set(4, QuadState::State2), Ok(()));
    assert_eq!(b.get(4), Some(QuadState::State2));
    assert_eq!(b.get(3), Some(QuadState::State0));
    assert_eq!(b.get(5), None);
    assert_eq!(b.set(5, QuadState::State1), Err("Index out of bounds"));
    assert_eq!(b.set_range(3, &[QuadState::State3, QuadState::State3, QuadState::State3]), Err("Range out of bounds"));
    assert_eq!(b.set_range(1, &[QuadState::State3, QuadState::State1]), Ok(()));
    let states: Vec<QuadState> = (0..5).map(|i| b.get(i).unwrap()).collect();
    assert_eq!(states, vec![QuadState::State0, QuadState::State3, QuadState::State1, QuadState::State0, QuadState::State2]);
    assert_eq!(b.debug_string(), "QuadStateBitmap[State0, State3, State1, State0, State2]");
}

#[test]
fn bitmap_from_bytes_and_counts() {
    // 0b11_10_01_00: states 0, 1, 2, 3 from the lowest bits up
    let b = QuadBitmap::from(&[0b1110_0100u8, 0xFF]);
    assert_eq!(b.len(), 8);
    assert!(!b.is_empty());
    assert_eq!(b.get(0), Some(QuadState::State0));
    assert_eq!(b.get(3), Some(QuadState::State3));
    assert_eq!(b.count_state0(), 1);
    assert_eq!(b.count_state012(), 3);
    assert_eq!(b.find_all_state0(), vec![0]);
    assert_eq!(b.find_all_state012().len(), b.count_state012());
    assert_eq!(b.find_first_state0_from(1), None);
    assert_eq!(b.find_first_state012_from_fast(3), None);
    assert_eq!(b.find_first_state012_from_fast(1), Some((1, QuadState::State1)));
    assert_eq!(b.find_first_state012_from(2), b.find_first_state012_from_fast(2));
    let mut it = b.iter();
    assert_eq!(it.next(), Some(QuadState::State0));
    assert_eq!(it.next(), Some(QuadState::State1));
    assert!(QuadBitmap::new(0).is_empty());
}

#[test]
fn extent_meta_round_trip() {
    let m = ExtentMeta::new(7, 8, 3, 4, 9);
    assert_eq!(m.file_id, 0);
    assert_eq!(m.data_pages(), 8);
    let bytes = m.to_vec();
    assert_eq!(bytes.len(), 64);
    assert_eq!(&bytes[0..8], &[0, 0, 0, 0, 0, 0, 0, 3]);
    let back = ExtentMeta::from(5, 6, &bytes).unwrap();
    assert_eq!(back, ExtentMeta { file_id: 5, table_space_id: 6, extent_id: 3, start_page: 4, page_count: 9 });
    assert_eq!(ExtentMeta::from(5, 6, &bytes[0..63]), Err(EC::FatalError));
}

#[test]
fn extent_payload_allocate_and_free() {
    let mut p = ExtentPayload::new(3);
    assert!(p.has_free_pages());
    assert_eq!(p.allocate_page(), Some(0));
    assert_eq!(p.allocate_page(), Some(1));
    assert_eq!(p.free_page_count(), 1);
    let meta = ExtentMeta { file_id: 0, table_space_id: 0, extent_id: 0, start_page: 10, page_count: 4 };
    assert!(p.free_page(10, &meta));
    assert_eq!(p.free_page_count(), 2);
    assert!(!p.free_page(13, &meta));
    assert!(!p.free_page(9, &meta));
    assert_eq!(p.allocate_page(), Some(0));
    assert_eq!(p.allocate_page(), Some(2));
    assert_eq!(p.allocate_page(), None);
    assert!(!p.has_free_pages());
    assert_eq!(ExtentPayload::size(&meta), 64);
    assert_eq!(ExtentPayload::bytes_of_bitmap(9), 2);
}

#[test]
fn extent_from_bytes() {
    let meta = ExtentMeta { file_id: 0, table_space_id: 0, extent_id: 16, start_page: 17, page_count: 9 };
    let mut bytes = meta.to_vec();
    bytes.extend_from_slice(&[0b1111_1111, 0b0000_0111]);
    let mut e = Extent::from(1, 2, &bytes).unwrap();
    assert_eq!(e.extent_id(), 16);
    assert_eq!(e.file_id(), 1);
    assert_eq!(e.extent_allocate_page(), Some(6));
    assert!(Extent::from(1, 2, &bytes[0..10]).is_err());
    let mut fresh = Extent::new(1, 2, 0, 1, 2);
    assert_eq!(fresh.file_id(), 0);
    assert_eq!(fresh.extent_allocate_page(), Some(0));
    assert_eq!(fresh.extent_allocate_page(), Some(1));
    assert_eq!(fresh.extent_allocate_page(), None);
}

#[test]
fn extent_payload_from_bytes() {
    let meta = ExtentMeta { file_id: 0, table_space_id: 0, extent_id: 0, start_page: 1, page_count: 9 };
    let mut bytes = vec![0u8; 64];
    // pages 0..4 full (State3), page 4 State1, the rest free
    bytes.extend_from_slice(&[0xFF, 0b0000_0001]);
    let mut p = ExtentPayload::from(&bytes, &meta).unwrap();
    assert_eq!(p.free_page_count(), 3);
    assert_eq!(p.allocate_page(), Some(5));
}

#[test]
fn page_block_header_and_checksum() {
    let mut page = PageBlock::new_empty(32);
    assert_eq!(page.len(), 32);
    page.set_page_id(0x11);
    page.set_lsn(0x22);
    assert_eq!(page.get_page_id(), 0x11);
    assert_eq!(page.get_lsn(), 0x22);
    assert_eq!(page.range_checksum(), 24..32);
    page.reset_checksum();
    assert_eq!(page.get_checksum(), 0x33);
    assert_eq!(page.get_checksum(), page.calculate_checksum());
    let update = page.update_set_lsn(0x0102);
    assert_eq!(update.page_id(), 0x11);
    assert_eq!(update.offset(), 8);
    assert_eq!(update.update_data(), &[0, 0, 0, 0, 0, 0, 1, 2]);
    assert_eq!(page.get_lsn(), 0x0102);
    write_header(&mut page, 5, 6);
    assert_eq!(page.get_page_id(), 5);
    assert_eq!(page.get_lsn(), 6);
}

#[test]
fn page_block_wrapping_checksum() {
    let mut page = PageBlock::new(vec![0xFF; 16]);
    // 8 bytes of 0xFF before the checksum field
    assert_eq!(page.calculate_checksum(), 8 * 0xFF);
    page.set_checksum(u64::MAX);
    assert_eq!(page.get_checksum(), u64::MAX);
}

#[test]
fn page_block_swap_copy_use() {
    let mut a = PageBlock::new(vec![1, 2, 3]);
    let mut b = PageBlock::new(vec![9]);
    a.swap(&mut b);
    assert_eq!(a.block(), &[9]);
    assert_eq!(b.block(), &[1, 2, 3]);
    a.set_block(&mut b);
    assert_eq!(a.block(), &[1, 2, 3]);
    let mut c = PageBlock::new_empty(0);
    a.copy_block(&mut c);
    assert_eq!(c.block(), &[1, 2, 3]);
    a.block_mut()[0] = 7;
    assert_eq!(a.block(), &[7, 2, 3]);
    assert_eq!(a.use_block(), vec![7, 2, 3]);
    assert_eq!(a.len(), 0);
    let pu = PageUpdate::new(1, 2, vec![3]);
    assert_eq!((pu.page_id(), pu.offset(), pu.update_data()), (1, 2, &[3u8][..]));
}

#[test]
fn page_index_values() {
    let i = PageIndex::invalid_index();
    assert_eq!((i.file_id, i.page_id), (INVALID_FILE_ID, INVALID_PAGE_ID));
    assert_eq!(PageIndex::new(1, 2), PageIndex { file_id: 1, page_id: 2 });
    assert_ne!(PageIndex::new(1, 2), PageIndex::new(2, 1));
}

#[test]
fn lsn_counter_and_log_entries() {
    let mut c = LsnCounter::new();
    assert_eq!(next_lsn(&mut c), 0);
    assert_eq!(next_lsn(&mut c), 1);
    lsn_init(&mut c, u64::MAX);
    let mut e = LogEntry::new(&mut c, 3, 4);
    assert_eq!((e.lsn(), e.file_id(), e.page_id()), (u64::MAX, 3, 4));
    assert_eq!(next_lsn(&mut c), 0);
    e.add_update_delta(PageUpdate::new(4, 0, vec![1]));
    assert_eq!(e.update().len(), 1);
}

#[test]
fn file_ids_start_at_one() {
    let mut c = FileIdCounter::new();
    assert_eq!(_current_file_id(&c), 1);
    assert_eq!(_next_file_id(&mut c), 1);
    assert_eq!(_next_file_id(&mut c), 2);
    assert_eq!(_current_file_id(&c), 3);
    assert_eq!(extent_page_id(8, 3), 24);
}

#[test]
fn free_extents_hand_out_the_smallest() {
    let mut f = FreeExtents::new();
    assert_eq!(f.get_free_extent(), None);
    f.push_free_extent(9);
    f.push_free_extent(4);
    f.push_free_extent((1u64 << 32) + 7);
    assert_eq!(f.get_free_extent(), Some(4));
    assert_eq!(f.get_free_extent(), Some(7));
    assert_eq!(f.get_free_extent(), Some(9));
    assert_eq!(f.get_free_extent(), None);
}

#[test]
fn data_file_creates_then_reuses_extents() {
    let mut d = DataFileExtents::new(2, 4, 32);
    let mut lsn = LsnCounter::new();
    lsn_init(&mut lsn, 100);
    match d.create_extent(1, &mut lsn) {
        ExtentSource::Fresh(mut extent, entry) => {
            assert_eq!(extent.extent_id(), 0);
            assert_eq!(extent.extent_allocate_page(), Some(0));
            assert_eq!(entry.lsn(), 100);
            assert_eq!(entry.file_id(), 2);
            assert_eq!(entry.page_id(), 0);
            let data = entry.update()[0].update_data();
            assert_eq!(data.len(), 32);
            assert_eq!(&data[8..16], &[0, 0, 0, 0, 0, 0, 0, 100]);
            assert_eq!(&data[24..32], &[0, 0, 0, 0, 0, 0, 0, 100]);
        }
        ExtentSource::Reuse(_) => panic!("expected a new extent"),
    }
    match d.create_extent(1, &mut lsn) {
        ExtentSource::Fresh(extent, entry) => {
            assert_eq!(extent.extent_id(), 4);
            assert_eq!(entry.page_id(), 4 * 32);
        }
        ExtentSource::Reuse(_) => panic!("expected a new extent"),
    }
    d.push_free_extent(1);
    match d.create_extent(1, &mut lsn) {
        ExtentSource::Reuse(id) => assert_eq!(id, 4),
        ExtentSource::Fresh(_, _) => panic!("expected reuse"),
    }
}

#[test]
fn free_list_add_remove_and_random_take() {
    let mut f = initial_free_list(4);
    f.add_a_free_frame_index(2);
    f.remove_free_frame_index(2);
    f.add_a_free_frame_index(2);
    f.remove_free_frame_index(9);
    let mut taken = vec![];
    while let Some(i) = f.get_a_free_frame_index() {
        taken.push(i);
    }
    taken.sort();
    assert_eq!(taken, vec![0, 1, 2, 3]);
    let mut g = FreeList::new(vec![1, 5]);
    g.add_a_free_frame_index(3);
    g.add_a_free_frame_index(5);
    assert_eq!(g.take_free_frame_index_at(0), 1);
    assert_eq!(g.take_free_frame_index_at(0), 5);
    assert_eq!(g.get_a_free_frame_index(), Some(3));
}

#[test]
fn frame_ctrl_protocol() {
    let mut f = FrameCtrl::new_empty(3);
    let mut page = PageBlock::new_empty(128);
    assert_eq!(f.write_data(60, &[1, 2, 3, 4, 5], &mut page), Err(EC::StorageErr));
    assert_eq!(f.write_data(10, &[1, 2, 3], &mut page), Ok(()));
    assert_eq!(f.read_data(10, 3, &page), Ok(vec![1, 2, 3]));
    assert_eq!(f.read_data(63, 2, &page), Err(EC::StorageErr));
    assert_eq!(FrameCtrl::calculate_checksum(&page), 6);
    assert_eq!(page.get_checksum(), 6);
    assert!(f.use_frame());
    assert!(f.use_frame());
    f.set_fixed(true);
    assert_eq!(f.begin_swap_out(), Err(EC::StorageErr));
    f.set_fixed(false);
    assert_eq!(f.begin_swap_out(), Ok(()));
    assert!(!f.use_frame());
    assert_eq!(f.try_finish_swap_out(), None);
    assert!(!f.unuse_frame());
    assert!(f.unuse_frame());
    assert_eq!(f.try_finish_swap_out(), Some(true));
    f.reset();
    assert!(f.use_frame());
}

#[test]
fn page_file_offset_is_page_id_times_page_size() {
    let index = PageIndex::new(3, 5);
    assert_eq!(index.file_offset(4096), 5 * 4096);
    assert_eq!(PageIndex::new(1, 0).file_offset(8192), 0);
}

#[test]
fn from_slice_reads_back_every_state() {
    let states = [
        QuadState::State3,
        QuadState::State0,
        QuadState::State2,
        QuadState::State1,
        QuadState::State2,
    ];
    let b = QuadBitmap::from_slice(&states);
    assert_eq!(b.len(), 5);
    for (i, s) in states.iter().enumerate() {
        assert_eq!(b.get(i), Some(*s));
    }
    assert_eq!(b.get(5), None);
    let empty = QuadBitmap::from_slice(&[]);
    assert_eq!(empty.len(), 0);
    assert!(empty.is_empty());
}

fn run_alloc(events: &[AllocEvent]) -> Vec<AllocAction> {
    let mut stage = AllocStage::Start;
    let mut actions = vec![];
    for e in events {
        let (next, action) = alloc_step(stage, *e);
        stage = next;
        actions.push(action);
    }
    actions
}

#[test]
fn table_space_allocates_from_its_last_extent() {
    let a = run_alloc(&[AllocEvent::Looked(true), AllocEvent::Allocated(Some(12))]);
    assert_eq!(a, vec![AllocAction::AllocateFromExtent, AllocAction::Finish(Ok(12))]);
}

#[test]
fn table_space_without_extent_creates_and_records_one() {
    let a = run_alloc(&[AllocEvent::Looked(false), AllocEvent::Created(Ok(())), AllocEvent::Allocated(Some(1))]);
    assert_eq!(
        a,
        vec![AllocAction::CreateAndRecordExtent, AllocAction::AllocateFromExtent, AllocAction::Finish(Ok(1))]
    );
    let failed = run_alloc(&[AllocEvent::Looked(false), AllocEvent::Created(Err(EC::IOErr))]);
    assert_eq!(failed[1], AllocAction::Finish(Err(EC::IOErr)));
}

#[test]
fn table_space_with_a_full_extent_tries_one_more() {
    let a = run_alloc(&[
        AllocEvent::Looked(true),
        AllocEvent::Allocated(None),
        AllocEvent::Created(Ok(())),
        AllocEvent::Allocated(Some(65)),
    ]);
    assert_eq!(
        a,
        vec![
            AllocAction::AllocateFromExtent,
            AllocAction::CreateExtent,
            AllocAction::AllocateFromExtent,
            AllocAction::Finish(Ok(65)),
        ]
    );
    let full = run_alloc(&[
        AllocEvent::Looked(true),
        AllocEvent::Allocated(None),
        AllocEvent::Created(Ok(())),
        AllocEvent::Allocated(None),
    ]);
    assert_eq!(full[3], AllocAction::Finish(Err(EC::StorageErr)));
}

fn run_fetch(events: &[FetchEvent]) -> Vec<FetchAction> {
    let mut stage = FetchStage::Start;
    let mut actions = vec![];
    for e in events {
        let (next, action) = fetch_step(stage, *e);
        stage = next;
        actions.push(action);
    }
    actions
}

#[test]
fn fetch_hands_back_a_cached_page() {
    assert_eq!(run_fetch(&[FetchEvent::Cached(true)]), vec![FetchAction::Finish(Ok(FetchedFrom::Cache))]);
}

#[test]
fn fetch_writes_a_dirty_page_back_before_reading() {
    let a = run_fetch(&[
        FetchEvent::Cached(false),
        FetchEvent::FrameTaken,
        FetchEvent::Copied(Ok(())),
        FetchEvent::SwappedOut(Ok(true)),
        FetchEvent::WrittenBack(Ok(())),
        FetchEvent::Read(Ok(())),
    ]);
    assert_eq!(
        a,
        vec![
            FetchAction::TakeFreeFrame,
            FetchAction::EvictAndCopy,
            FetchAction::SwapOut,
            FetchAction::WriteBack,
            FetchAction::ResetAndRead,
            FetchAction::Finish(Ok(FetchedFrom::Disk)),
        ]
    );
}

#[test]
fn fetch_of_a_clean_frame_reads_at_once_and_fails_on_errors() {
    let a = run_fetch(&[
        FetchEvent::Cached(false),
        FetchEvent::FrameTaken,
        FetchEvent::Copied(Ok(())),
        FetchEvent::SwappedOut(Ok(false)),
        FetchEvent::Read(Err(EC::IOErr)),
    ]);
    assert_eq!(a[3], FetchAction::Read);
    assert_eq!(a[4], FetchAction::Finish(Err(EC::IOErr)));
    let swap_fail = run_fetch(&[
        FetchEvent::Cached(false),
        FetchEvent::FrameTaken,
        FetchEvent::Copied(Ok(())),
        FetchEvent::SwappedOut(Err(EC::StorageErr)),
    ]);
    assert_eq!(swap_fail[3], FetchAction::Finish(Err(EC::StorageErr)));
}
