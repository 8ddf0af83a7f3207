use bioengineer::memory_table::MemoryTable;

#[test]
fn new_table_is_empty() {
    let table: MemoryTable<u8> = MemoryTable::new();
    assert_eq!(table.len(), 0);
    assert_eq!(table.get(1), None);
    assert_eq!(table.position(1), None);
}

#[test]
fn put_then_get() {
    let mut table = MemoryTable::new();
    table.put(3, 30u8);
    table.put(-1, 10u8);
    assert_eq!(table.get(3), Some(&30));
    assert_eq!(table.get(-1), Some(&10));
    assert_eq!(table.get(0), None);
    assert_eq!(table.len(), 2);
}

#[test]
fn put_under_a_kept_key_overwrites() {
    let mut table = MemoryTable::new();
    table.put(3, 30u8);
    table.put(4, 40u8);
    table.put(3, 31u8);
    assert_eq!(table.get(3), Some(&31));
    assert_eq!(table.get(4), Some(&40));
    assert_eq!(table.len(), 2);
}

#[test]
fn remove_takes_one_key_out() {
    let mut table = MemoryTable::new();
    table.put(1, 10u8);
    table.put(2, 20u8);
    table.put(3, 30u8);
    table.remove(2);
    assert_eq!(table.get(2), None);
    assert_eq!(table.get(1), Some(&10));
    assert_eq!(table.get(3), Some(&30));
    assert_eq!(table.len(), 2);
    table.remove(2);
    assert_eq!(table.len(), 2);
}

#[test]
fn entries_are_kept_in_order_of_arrival() {
    let mut table = MemoryTable::new();
    table.put(5, 50u8);
    table.put(1, 10u8);
    assert_eq!(table.position(5), Some(0));
    assert_eq!(table.position(1), Some(1));
    assert_eq!(*table.entry_at(0), (5, 50));
    assert_eq!(*table.entry_at(1), (1, 10));
}
