use capture_core::driver_shm;
use capture_core::ring::FrameRing;
use capture_core::shared_memory;

#[test]
fn ring_seven_writes_cycle_three_slots() {
    // A ring with three slots: after writes k = 1..7 the write sequence is 7
    // and write k lands in slot (k-1) mod 3, holding a prefix of the data.
    let mut ring = FrameRing::new(0x4458_4749, 1, 2, 2, 8, 87, 3);
    assert_eq!(ring.write_sequence(), 0);
    for k in 1u8..=7 {
        let data = vec![k; 16]; // frame_size = stride * height = 16
        ring.write_frame(&data, k as u64 * 1000, 0);
        assert_eq!(ring.write_sequence(), k as u64);
        let slot = ((k as u32) - 1) % 3;
        let contents = ring.read_slot(slot);
        assert_eq!(contents, vec![k; 16]);
    }
    // After 7 writes the three slots hold writes 7, 5, 6.
    assert_eq!(ring.read_slot(0), vec![7u8; 16]);
    assert_eq!(ring.read_slot(1), vec![5u8; 16]);
    assert_eq!(ring.read_slot(2), vec![6u8; 16]);
}

#[test]
fn ring_header_layout_is_little_endian() {
    let ring = FrameRing::new(0x4458_4749, 1, 640, 480, 2560, 87, 2);
    let r = &ring.region;
    assert_eq!(&r[0..4], &[0x49, 0x47, 0x58, 0x44]); // magic "DXGI"
    assert_eq!(&r[4..8], &[1, 0, 0, 0]); // version
    assert_eq!(&r[8..12], &[0x80, 0x02, 0, 0]); // width 640
    assert_eq!(&r[12..16], &[0xE0, 0x01, 0, 0]); // height 480
    assert_eq!(&r[16..20], &[0x00, 0x0A, 0, 0]); // stride 2560
    assert_eq!(&r[20..24], &[87, 0, 0, 0]); // format BGRA8
    assert_eq!(&r[24..28], &[2, 0, 0, 0]); // frame_count
    assert_eq!(&r[28..32], &[0x00, 0xC0, 0x12, 0x00]); // frame_size 1228800
    assert_eq!(&r[32..40], &[0u8; 8]); // write_sequence
    assert_eq!(&r[52..64], &[0u8; 12]); // reserved
    assert_eq!(r.len(), 64 + 2 * 2560 * 480);
}

#[test]
fn ring_truncates_long_frames_and_keeps_short_tails() {
    let mut ring = FrameRing::new(7, 1, 2, 2, 4, 87, 2);
    // frame_size = 8; an over-long buffer is truncated
    let long = vec![9u8; 20];
    ring.write_frame(&long, 1, 0);
    assert_eq!(ring.read_slot(0), vec![9u8; 8]);
    // a short buffer fills a prefix; the slot's tail keeps old bytes
    let short = vec![5u8; 3];
    ring.write_frame(&short, 2, 0); // slot 1 (was zeroed)
    assert_eq!(ring.read_slot(1), vec![5, 5, 5, 0, 0, 0, 0, 0]);
    ring.write_frame(&short, 3, 0); // slot 0 again, over the nines
    assert_eq!(ring.read_slot(0), vec![5, 5, 5, 9, 9, 9, 9, 9]);
}

#[test]
fn driver_writer_truncates_and_never_fails() {
    let mut w = driver_shm::SharedMemoryWriter::new(3, 2, 2, 8, 87);
    assert_eq!(w.shm_name(), "Global\\VDD_Frame_3");
    assert_eq!(w.header().magic, 0x00444456);
    assert_eq!(w.header().frame_count, 2);
    assert_eq!(w.header().frame_size, 16);
    // A short buffer still publishes: prefix copied, sequence advanced.
    w.write_frame(&vec![1u8; 15], 10);
    assert_eq!(w.header().write_sequence, 1);
    assert_eq!(w.header().timestamp_qpc, 10);
    let mut expected = vec![1u8; 15];
    expected.push(0);
    assert_eq!(w.ring.read_slot(0), expected);
    // An over-long buffer is truncated to the frame size.
    w.write_frame(&vec![2u8; 40], 11);
    assert_eq!(w.header().write_sequence, 2);
    assert_eq!(w.ring.read_slot(1), vec![2u8; 16]);
    // An exact-size buffer lands whole.
    w.write_frame(&vec![3u8; 16], 12);
    assert_eq!(w.header().write_sequence, 3);
    assert_eq!(w.ring.read_slot(0), vec![3u8; 16]);
}

#[test]
fn capture_writer_publishes_with_timestamps() {
    let mut w = shared_memory::SharedMemoryWriter::create("Local\\DxgiCapture_0_0", 2, 2, 8, 3);
    assert_eq!(w.name(), "Local\\DxgiCapture_0_0");
    w.write_frame(&vec![1u8; 16], 111, 4);
    assert_eq!(w.ring.header.write_sequence, 1);
    assert_eq!(w.ring.header.timestamp_qpc, 111);
    assert_eq!(w.ring.header.dirty_rect_count, 4);
    assert_eq!(w.ring.read_slot(0), vec![1u8; 16]);
}
