use mudu_kernel::server::mudu_server::{assign_log_channels, next_session_channel};
use mudu_kernel::server::parser::Parser;
use mudu_kernel::storage::frame::CtrlBlock;
use mudu_kernel::storage::page_block::PageBlock;
use mudu_kernel::x_log::iou::{
    complete_buffer, fill_buffer, find_free_buffer, has_poll_events, loop_wait, LoopWait, pack_writes, record_lens, write_to_iovec, write_to_iovec_one, FileOffset, IoPlanError, IoVecBuf, IoWrite,
};

#[test]
fn log_channels_round_robin() {
    let groups = assign_log_channels(5, 2);
    assert_eq!(groups, vec![vec![0, 2, 4], vec![1, 3]]);
    assert_eq!(assign_log_channels(3, 3), vec![vec![0], vec![1], vec![2]]);
    assert_eq!(assign_log_channels(0, 0), Vec::<Vec<usize>>::new());
}

#[test]
fn sessions_round_robin() {
    let mut id = 0u64;
    assert_eq!(next_session_channel(&mut id, 3), 1);
    assert_eq!(next_session_channel(&mut id, 3), 2);
    assert_eq!(next_session_channel(&mut id, 3), 0);
    assert_eq!(id, 3);
    let _ = Parser::new();
}

#[test]
fn packing_writes_into_a_buffer() {
    assert_eq!(pack_writes(&vec![100, 200, 300], 0, 512), Ok((2, 300)));
    assert_eq!(pack_writes(&vec![100, 200, 300], 1, 512), Ok((3, 500)));
    assert_eq!(pack_writes(&vec![100, 600], 0, 512), Err(IoPlanError::BufferOverflow));
    assert_eq!(pack_writes(&vec![100], 5, 512), Ok((1, 0)));

    let mut buf = IoVecBuf { available_buf: 2, next_buf_index: 0, align_byte: 512, capacity: vec![1024, 1024], busy: vec![false, false] };
    let mut off = FileOffset { file_fd: 3, file_index: 0, offset: 4096 };
    let mut writes = vec![];
    let lens = vec![400, 400, 400];
    assert_eq!(write_to_iovec_one(&lens, &mut off, &mut buf, &mut writes, 1, 0), Ok(2));
    assert_eq!(writes, vec![IoWrite { file_index: 0, buf_index: 1, data_size: 800, file_offset: 4096 }]);
    assert_eq!(off.offset, 4896);
    assert_eq!(buf.busy, vec![false, true]);
    assert_eq!((buf.available_buf, buf.next_buf_index), (1, 0));
    assert_eq!(find_free_buffer(&buf), Some(0));
    buf.next_buf_index = 1;
    assert_eq!(find_free_buffer(&buf), Some(0));
    buf.busy[0] = true;
    assert_eq!(find_free_buffer(&buf), None);

    let mut small = IoVecBuf { available_buf: 1, next_buf_index: 0, align_byte: 512, capacity: vec![1000], busy: vec![false] };
    assert_eq!(write_to_iovec_one(&vec![900], &mut off, &mut small, &mut writes, 0, 0), Err(IoPlanError::BufferOverflow));
    assert_eq!(small.busy, vec![false]);
}

#[test]
fn ctrl_block_swaps_and_copies_pages() {
    let mut cb = CtrlBlock::new_empty(1, 4);
    let mut page = PageBlock::new(vec![1, 2]);
    assert!(cb.swap_page(&mut page).is_ok());
    assert_eq!(page.block(), &[0, 0, 0, 0]);
    let mut copy = PageBlock::new_empty(0);
    cb.read_block(&mut copy);
    assert_eq!(copy.block(), &[1, 2]);
}

fn two_buffers() -> IoVecBuf {
    IoVecBuf { available_buf: 2, next_buf_index: 0, align_byte: 512, capacity: vec![1024, 1024], busy: vec![false, false] }
}

#[test]
fn write_to_iovec_packs_all_writes_into_one_buffer() {
    let mut buf = two_buffers();
    let mut off = FileOffset { file_fd: 3, file_index: 1, offset: 0 };
    let mut writes = vec![];
    assert_eq!(write_to_iovec(&vec![300, 300, 300], &mut off, &mut buf, &mut writes), 3);
    assert_eq!(writes, vec![IoWrite { file_index: 1, buf_index: 0, data_size: 900, file_offset: 0 }]);
    assert_eq!(off.offset, 900);
    assert_eq!(buf.busy, vec![true, false]);
    assert_eq!((buf.available_buf, buf.next_buf_index), (1, 1));
}

#[test]
fn write_to_iovec_passes_over_the_write_that_did_not_fit() {
    let mut buf = two_buffers();
    let mut off = FileOffset { file_fd: 3, file_index: 0, offset: 0 };
    let mut writes = vec![];
    assert_eq!(write_to_iovec(&vec![600, 600, 600, 600], &mut off, &mut buf, &mut writes), 4);
    assert_eq!(
        writes,
        vec![
            IoWrite { file_index: 0, buf_index: 0, data_size: 600, file_offset: 0 },
            IoWrite { file_index: 0, buf_index: 1, data_size: 600, file_offset: 600 },
        ]
    );
    assert_eq!(off.offset, 1200);
    assert_eq!(buf.busy, vec![true, true]);
    assert_eq!((buf.available_buf, buf.next_buf_index), (0, 0));
}

#[test]
fn write_to_iovec_keeps_the_last_write_without_a_free_buffer() {
    let mut buf = IoVecBuf { available_buf: 1, next_buf_index: 0, align_byte: 512, capacity: vec![1024], busy: vec![false] };
    let mut off = FileOffset { file_fd: 3, file_index: 0, offset: 0 };
    let mut writes = vec![];
    assert_eq!(write_to_iovec(&vec![600, 600, 600, 600, 600], &mut off, &mut buf, &mut writes), 4);
    assert_eq!(writes, vec![IoWrite { file_index: 0, buf_index: 0, data_size: 600, file_offset: 0 }]);
    assert_eq!(buf.available_buf, 0);
}

#[test]
fn write_to_iovec_changes_nothing_without_writes_or_free_buffers() {
    let mut buf = two_buffers();
    let mut off = FileOffset { file_fd: 3, file_index: 0, offset: 7 };
    let mut writes = vec![];
    assert_eq!(write_to_iovec(&vec![], &mut off, &mut buf, &mut writes), 0);
    buf.available_buf = 0;
    assert_eq!(write_to_iovec(&vec![100], &mut off, &mut buf, &mut writes), 0);
    assert!(writes.is_empty());
    assert_eq!(off.offset, 7);
    assert_eq!(buf.busy, vec![false, false]);
}

#[test]
fn fill_buffer_packs_records_then_pads_with_zeros() {
    let records = vec![vec![1u8, 2, 3], vec![4u8], vec![5u8, 6], vec![7u8]];
    assert_eq!(record_lens(&records), vec![3, 1, 2, 1]);
    assert_eq!(fill_buffer(&records, 1, 3, 8), vec![4, 5, 6, 0, 0, 0, 0, 0]);
    assert_eq!(fill_buffer(&records, 0, 4, 7), vec![1, 2, 3, 4, 5, 6, 7]);
    assert_eq!(fill_buffer(&records, 2, 2, 4), vec![0, 0, 0, 0]);
}

#[test]
fn complete_buffer_frees_a_filled_buffer() {
    let mut buf = two_buffers();
    let mut off = FileOffset { file_fd: 3, file_index: 0, offset: 0 };
    let mut writes = vec![];
    assert_eq!(write_to_iovec_one(&vec![100], &mut off, &mut buf, &mut writes, 1, 0), Ok(1));
    assert_eq!((buf.busy.clone(), buf.available_buf), (vec![false, true], 1));
    complete_buffer(&mut buf, 1);
    assert_eq!((buf.busy.clone(), buf.available_buf), (vec![false, false], 2));
}

#[test]
fn event_loop_receives_only_when_idle_with_a_free_buffer() {
    assert_eq!(loop_wait(false, 3), LoopWait::Receive(3));
    assert_eq!(loop_wait(true, 3), LoopWait::Sleep);
    assert_eq!(loop_wait(false, 0), LoopWait::Sleep);
    assert!(!has_poll_events(0, 0, 0));
    assert!(has_poll_events(1, 0, 0));
    assert!(has_poll_events(0, 2, 0));
    assert!(has_poll_events(0, 0, 1));
}
