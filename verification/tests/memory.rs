use jasm::memory::{Memory, ADDRESS_ADDRESS, COMPARISON_ADDRESS, MEMORY_SIZE};

#[test]
fn a_new_memory_is_all_zero() {
    let memory = Memory::new();
    assert_eq!(memory.cells.len(), 65536);
    assert_eq!(MEMORY_SIZE, 65536);
    assert!(memory.cells.iter().all(|cell| *cell == 0));
}

#[test]
fn the_reserved_cells_are_where_they_belong() {
    assert_eq!(ADDRESS_ADDRESS, 65534);
    assert_eq!(COMPARISON_ADDRESS, 65533);
    let mut memory = Memory::new();
    memory.set_address_register(40);
    memory.set_comparison_flag(true);
    assert_eq!(memory.cells[65534], 40);
    assert_eq!(memory.cells[65533], 1);
    assert_eq!(memory.address_register(), 40);
    assert_eq!(memory.comparison_flag(), 1);
    memory.set_comparison_flag(false);
    assert_eq!(memory.comparison_flag(), 0);
}

#[test]
fn set_changes_one_cell() {
    let mut memory = Memory::new();
    memory.set(3, 99);
    assert_eq!(memory.get(3), 99);
    assert_eq!(memory.get(2), 0);
    assert_eq!(memory.get(4), 0);
    memory.set(65535, 1);
    assert_eq!(memory.get(65535), 1);
}

#[test]
fn the_target_cell_follows_the_address_register() {
    let mut memory = Memory::new();
    memory.set(7, 70);
    memory.set(8, 80);
    memory.set_address_register(7);
    assert_eq!(memory.target(), 70);
    memory.set_address_register(8);
    assert_eq!(memory.target(), 80);
    memory.set_target(81);
    assert_eq!(memory.get(8), 81);
    assert_eq!(memory.get(7), 70);
}

#[test]
fn the_address_register_can_be_its_own_target() {
    let mut memory = Memory::new();
    memory.set_address_register(65534);
    assert_eq!(memory.target(), 65534);
    memory.set_target(5);
    assert_eq!(memory.address_register(), 5);
}
