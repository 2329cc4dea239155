use tape_machine::tape::{MachineState, TAPE_LEN};

#[test]
fn new_tape_is_all_zero_with_pointer_at_start() {
    let m = MachineState::new();
    assert_eq!(m.pointer(), 0);
    assert_eq!(m.read_current(), 0);
    for i in 0..TAPE_LEN {
        assert_eq!(m.cell(i), Some(0));
    }
    assert_eq!(m.cell(TAPE_LEN), None);
}

#[test]
fn tape_has_thirty_thousand_cells() {
    assert_eq!(TAPE_LEN, 30_000);
    let m = MachineState::new();
    assert_eq!(m.window(usize::MAX).len(), 30_000);
}

#[test]
fn retreat_from_first_cell_wraps_to_last() {
    let mut m = MachineState::new();
    m.retreat();
    assert_eq!(m.pointer(), TAPE_LEN - 1);
    assert_eq!(m.pointer(), 29_999);
}

#[test]
fn advance_from_last_cell_wraps_to_first() {
    let mut m = MachineState::new();
    m.retreat();
    m.advance();
    assert_eq!(m.pointer(), 0);
    m.advance();
    assert_eq!(m.pointer(), 1);
}

#[test]
fn decrement_of_zero_gives_255() {
    let mut m = MachineState::new();
    m.decrement_current();
    assert_eq!(m.read_current(), 255);
}

#[test]
fn increment_of_255_gives_zero() {
    let mut m = MachineState::new();
    m.write_current(255);
    m.increment_current();
    assert_eq!(m.read_current(), 0);
}

#[test]
fn increment_reaches_255() {
    let mut m = MachineState::new();
    for _ in 0..255 {
        m.increment_current();
    }
    assert_eq!(m.read_current(), 255);
    m.increment_current();
    assert_eq!(m.read_current(), 0);
}

#[test]
fn write_changes_only_the_active_cell() {
    let mut m = MachineState::new();
    m.advance();
    m.advance();
    m.write_current(77);
    assert_eq!(m.pointer(), 2);
    assert_eq!(m.read_current(), 77);
    assert_eq!(m.cell(2), Some(77));
    assert_eq!(m.window(4), vec![0, 0, 77, 0]);
}

#[test]
fn moves_leave_cells_alone() {
    let mut m = MachineState::new();
    m.write_current(9);
    m.advance();
    m.retreat();
    m.retreat();
    assert_eq!(m.cell(0), Some(9));
    assert_eq!(m.read_current(), 0);
    assert_eq!(m.pointer(), 29_999);
}

#[test]
fn cell_value_is_plus_count_minus_minus_count_mod_256() {
    // 300 increments and 41 decrements, interleaved two ways.
    let mut a = MachineState::new();
    for i in 0..300 {
        a.increment_current();
        if i < 41 {
            a.decrement_current();
        }
    }
    let mut b = MachineState::new();
    for _ in 0..41 {
        b.decrement_current();
    }
    for _ in 0..300 {
        b.increment_current();
    }
    assert_eq!(a.read_current(), 3);
    assert_eq!(b.read_current(), 3);
    assert_eq!((300 - 41) % 256, 3);
}

#[test]
fn more_minus_than_plus_wraps_below_zero() {
    let mut m = MachineState::new();
    m.increment_current();
    m.decrement_current();
    m.decrement_current();
    m.decrement_current();
    assert_eq!(m.read_current(), 254);
}

#[test]
fn advance_then_retreat_returns_from_every_edge() {
    for start in [0usize, 1, 14_999, 29_998, 29_999] {
        let mut m = MachineState::new();
        for _ in 0..start {
            m.advance();
        }
        assert_eq!(m.pointer(), start);
        m.advance();
        m.retreat();
        assert_eq!(m.pointer(), start);
        m.retreat();
        m.advance();
        assert_eq!(m.pointer(), start);
    }
}

#[test]
fn window_is_cut_at_the_tape_end() {
    let mut m = MachineState::new();
    m.write_current(5);
    assert_eq!(m.window(0), Vec::<u8>::new());
    assert_eq!(m.window(3), vec![5, 0, 0]);
    assert_eq!(m.window(30_000).len(), 30_000);
    assert_eq!(m.window(30_001).len(), 30_000);
}
