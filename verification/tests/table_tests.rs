use can_tracer::filter::FilterSpec;
use can_tracer::frame::CanFrame;
use can_tracer::table::FrameTable;

#[test]
fn new_table_is_empty() {
    let table = FrameTable::new();
    assert_eq!(table.len(), 0);
    assert!(!table.contains(0x201));
    assert_eq!(table.get(0x201), None);
    assert!(table.rows(&FilterSpec::accept_all()).is_empty());
}

#[test]
fn insert_replaces_entry_for_same_address() {
    let mut table = FrameTable::new();
    table.insert(CanFrame::new(0x201, &[1, 2], false));
    assert_eq!(table.len(), 1);
    table.insert(CanFrame::new(0x201, &[3, 4], false));
    assert_eq!(table.len(), 1);
    assert_eq!(table.get(0x201), Some(CanFrame::new(0x201, &[3, 4], false)));
}

#[test]
fn insert_adds_entry_for_new_address() {
    let mut table = FrameTable::new();
    table.insert(CanFrame::new(0x201, &[1], false));
    table.insert(CanFrame::new(0x202, &[2], false));
    assert_eq!(table.len(), 2);
    assert!(table.contains(0x201));
    assert!(table.contains(0x202));
    assert!(!table.contains(0x203));
    assert_eq!(table.get(0x201), Some(CanFrame::new(0x201, &[1], false)));
    assert_eq!(table.get(0x202), Some(CanFrame::new(0x202, &[2], false)));
}

#[test]
fn clear_removes_everything() {
    let mut table = FrameTable::new();
    table.insert(CanFrame::new(1, &[1], false));
    table.insert(CanFrame::new(2, &[2], false));
    table.clear();
    assert_eq!(table.len(), 0);
    assert_eq!(table.get(1), None);
}

#[test]
fn rows_lists_accepted_entries_once() {
    let mut table = FrameTable::new();
    let mut address: u32 = 0x100;
    while address < 0x140 {
        table.insert(CanFrame::new(address, &[address as u8], false));
        table.insert(CanFrame::new(address, &[address as u8, 1], false));
        address += 1;
    }
    let rule = FilterSpec { mask: 0xFF0, filter: 0x120 };
    let mut rows = table.rows(&rule);
    rows.sort_by_key(|frame| frame.get_address());
    assert_eq!(rows.len(), 16);
    let mut i: usize = 0;
    while i < 16 {
        let address: u32 = 0x120 + i as u32;
        assert_eq!(rows[i], CanFrame::new(address, &[address as u8, 1], false));
        i += 1;
    }
    assert_eq!(table.rows(&FilterSpec::accept_all()).len(), 64);
    assert!(table.rows(&FilterSpec::only(0x999)).is_empty());
}
