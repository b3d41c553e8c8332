use ralk::audio::{wav_file, wav_header, SlotPool, SoundHandle, SAMPLE_RATE};
use ralk::resources::{BufferHandle, ImageHandle, ResourceTable};

fn le32(x: u32) -> Vec<u8> {
    x.to_le_bytes().to_vec()
}

#[test]
fn wav_header_layout() {
    let h = wav_header(4);
    assert_eq!(h.len(), 44);
    let mut expected = b"RIFF".to_vec();
    expected.extend(le32(44));
    expected.extend_from_slice(b"WAVEfmt ");
    expected.extend(le32(16));
    expected.extend_from_slice(&[1, 0, 1, 0]);
    expected.extend(le32(SAMPLE_RATE));
    expected.extend(le32(SAMPLE_RATE * 2));
    expected.extend_from_slice(&[2, 0, 16, 0]);
    expected.extend_from_slice(b"data");
    expected.extend(le32(8));
    assert_eq!(h, expected);
}

#[test]
fn wav_file_appends_little_endian_samples() {
    let f = wav_file(&vec![1, -1, 0x1234, i16::MIN]);
    assert_eq!(f.len(), 44 + 8);
    assert_eq!(&f[..44], &wav_header(4)[..]);
    assert_eq!(&f[44..], &[1, 0, 0xFF, 0xFF, 0x34, 0x12, 0x00, 0x80]);
    let empty = wav_file(&Vec::new());
    assert_eq!(empty, wav_header(0));
    assert_eq!(&empty[4..8], &[36, 0, 0, 0]);
}

#[test]
fn slots_are_reused_when_free_or_finished() {
    let mut pool: SlotPool<&str> = SlotPool::new();
    assert_eq!(pool.alloc_slot(&vec![]), 0);
    pool.put(0, "engine");
    assert_eq!(pool.alloc_slot(&vec![false]), 1);
    pool.put(1, "wind");
    assert_eq!(pool.len(), 2);
    // Slot 0's sound has finished: it is cleared and handed out again.
    assert_eq!(pool.alloc_slot(&vec![true, false]), 0);
    assert_eq!(pool.get(0), None);
    assert_eq!(pool.get(1), Some(&"wind"));
    assert_eq!(pool.alloc_slot(&vec![false, false]), 0);
    assert_eq!(pool.len(), 2);
    pool.put(0, "skid");
    assert_eq!(pool.alloc_slot(&vec![false, false]), 2);
    assert_eq!(pool.take(1), Some("wind"));
    assert_eq!(pool.take(1), None);
    assert_eq!(pool.take(9), None);
    assert_eq!(pool.get(9), None);
    let h = SoundHandle(2);
    assert_eq!(h.0, 2);
}

#[test]
fn resource_ids_are_never_reused() {
    let mut table: ResourceTable<&str> = ResourceTable::new();
    let a = table.insert("vertex buffer");
    let b = table.insert("index buffer");
    assert_eq!((a, b), (1, 2));
    assert_eq!(table.remove(a), Some("vertex buffer"));
    assert_eq!(table.remove(a), None);
    let c = table.insert("staging");
    assert_eq!(c, 3);
    assert_eq!(table.get(a), None);
    assert_eq!(table.get(c), Some(&"staging"));
    assert_eq!(table.len(), 2);
    let mut ids = table.ids();
    ids.sort();
    assert_eq!(ids, vec![2, 3]);
    let buf = BufferHandle(b);
    let img = ImageHandle(c);
    assert_eq!((buf.0, img.0), (2, 3));
}

#[test]
fn fresh_table_can_hand_out_ids() {
    let table: ResourceTable<u8> = ResourceTable::new();
    assert!(table.can_insert());
    assert_eq!(table.len(), 0);
    assert!(table.ids().is_empty());
}
