use note_tui::buffer::TextBuffer;

fn check_cursor(b: &TextBuffer) {
    assert!(b.cursor <= b.chars.len());
}

#[test]
fn insert_and_take() {
    let mut b = TextBuffer::new();
    b.insert_at_cursor('h');
    b.insert_at_cursor('i');
    check_cursor(&b);
    assert_eq!(b.cursor, 2);
    let s = b.take();
    assert_eq!(s, "hi");
    assert_eq!(b.cursor, 0);
    assert!(b.is_empty());
}

#[test]
fn load_puts_cursor_at_end() {
    let mut b = TextBuffer::new();
    b.load("work");
    assert_eq!(b.cursor, 4);
    assert_eq!(b.to_text(), "work");
    check_cursor(&b);
}

#[test]
fn insert_in_middle() {
    let mut b = TextBuffer::new();
    b.load("ac");
    b.move_left();
    b.insert_at_cursor('b');
    assert_eq!(b.to_text(), "abc");
    assert_eq!(b.cursor, 2);
}

#[test]
fn delete_before_cursor_removes_one() {
    let mut b = TextBuffer::new();
    b.load("abc");
    b.delete_before_cursor();
    assert_eq!(b.to_text(), "ab");
    assert_eq!(b.cursor, 2);
}

#[test]
fn delete_at_start_is_noop() {
    let mut b = TextBuffer::new();
    b.load("abc");
    b.move_left();
    b.move_left();
    b.move_left();
    assert_eq!(b.cursor, 0);
    b.delete_before_cursor();
    assert_eq!(b.to_text(), "abc");
    assert_eq!(b.cursor, 0);
}

#[test]
fn moves_clamp_at_both_ends() {
    let mut b = TextBuffer::new();
    b.load("xy");
    b.move_right();
    b.move_right();
    assert_eq!(b.cursor, 2);
    b.move_left();
    b.move_left();
    b.move_left();
    assert_eq!(b.cursor, 0);
    check_cursor(&b);
}

#[test]
fn cursor_invariant_over_operation_sequence() {
    // A mixed sequence of every operation; the invariant
    // 0 <= cursor <= len holds after each step.
    let mut b = TextBuffer::new();
    check_cursor(&b);
    let ops: Vec<u8> = vec![0, 1, 2, 3, 0, 0, 2, 1, 3, 3, 3, 0, 2, 2, 2, 1, 0];
    let mut k = 0u8;
    for op in ops {
        match op {
            0 => {
                b.insert_at_cursor((b'a' + (k % 26)) as char);
                k = k.wrapping_add(1);
            }
            1 => b.delete_before_cursor(),
            2 => b.move_left(),
            _ => b.move_right(),
        }
        check_cursor(&b);
    }
    // And a buffer emptied by take keeps the invariant too.
    b.take();
    check_cursor(&b);
}

#[test]
fn unicode_characters_count_as_single_chars() {
    let mut b = TextBuffer::new();
    b.load("héllo");
    assert_eq!(b.cursor, 5);
    b.delete_before_cursor();
    assert_eq!(b.to_text(), "héll");
}
