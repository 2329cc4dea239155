use tape_machine::display::render_tape;
use tape_machine::engine::Interpreter;
use tape_machine::tape::MachineState;

fn expected_line(cells: &[u8], pointer: usize) -> String {
    let mut line = String::new();
    for (i, c) in cells.iter().enumerate() {
        if i == pointer {
            line.push_str(&format!("\x1b[96m\x1b[1m{}\x1b[0m ", c));
        } else {
            line.push_str(&format!("{} ", c));
        }
    }
    line
}

#[test]
fn render_fresh_tape_highlights_first_cell() {
    let m = MachineState::new();
    let line = String::from_utf8(render_tape(&m, 3)).unwrap();
    assert_eq!(line, "\x1b[96m\x1b[1m0\x1b[0m 0 0 ");
}

#[test]
fn render_nothing_for_an_empty_window() {
    let m = MachineState::new();
    assert_eq!(render_tape(&m, 0), Vec::<u8>::new());
}

#[test]
fn render_numbers_of_one_two_and_three_digits() {
    let mut m = MachineState::new();
    m.write_current(7);
    m.advance();
    m.write_current(42);
    m.advance();
    m.write_current(100);
    m.advance();
    m.write_current(255);
    m.advance();
    m.write_current(10);
    m.advance();
    m.write_current(209);
    m.advance();
    let line = String::from_utf8(render_tape(&m, 8)).unwrap();
    assert_eq!(line, "7 42 100 255 10 209 \x1b[96m\x1b[1m0\x1b[0m 0 ");
}

#[test]
fn render_without_highlight_when_pointer_is_outside_the_window() {
    let mut m = MachineState::new();
    m.retreat();
    m.write_current(9);
    let line = String::from_utf8(render_tape(&m, 4)).unwrap();
    assert_eq!(line, "0 0 0 0 ");
}

#[test]
fn render_agrees_with_formatting_for_every_value() {
    for v in 0..=255u8 {
        let mut m = MachineState::new();
        m.write_current(v);
        m.advance();
        m.write_current(v);
        let line = String::from_utf8(render_tape(&m, 2)).unwrap();
        assert_eq!(line, expected_line(&[v, v], 1));
    }
}

#[test]
fn render_whole_tape_when_window_is_too_wide() {
    let m = MachineState::new();
    let line = render_tape(&m, 40_000);
    // 30000 cells of "0 " and the highlight around the first
    assert_eq!(line.len(), 2 * 30_000 + 9 + 4);
}

#[test]
fn render_after_a_run() {
    let mut it = Interpreter::new("+++>++>+<".chars().collect());
    let _ = it.run(&Vec::new(), 100);
    let line = String::from_utf8(render_tape(it.machine(), 30)).unwrap();
    let mut cells = vec![0u8; 30];
    cells[0] = 3;
    cells[1] = 2;
    cells[2] = 1;
    assert_eq!(line, expected_line(&cells, 1));
}
