use cursor_buffer::{Screen, CURSOR_MARKER};

fn state(s: &Screen) -> (String, usize) {
    (s.text().iter().collect(), s.pos())
}

fn screen_of(text: &str, pos: usize) -> Screen {
    let mut s = Screen::new();
    for c in text.chars() {
        s.insert(c);
    }
    while s.pos() > pos {
        s.left();
    }
    s
}

#[test]
fn insert_into_empty() {
    let mut s = Screen::new();
    s.insert('a');
    assert_eq!(state(&s), ("a".to_string(), 1));
}

#[test]
fn insert_at_end() {
    let mut s = screen_of("a", 1);
    assert_eq!(state(&s), ("a".to_string(), 1));
    s.insert('b');
    assert_eq!(state(&s), ("ab".to_string(), 2));
}

#[test]
fn move_left_stops_at_start() {
    let mut s = screen_of("ab", 2);
    s.left();
    assert_eq!(state(&s), ("ab".to_string(), 1));
    s.left();
    assert_eq!(state(&s), ("ab".to_string(), 0));
    s.left();
    assert_eq!(state(&s), ("ab".to_string(), 0));
}

#[test]
fn delete_backward_in_middle() {
    let mut s = screen_of("ab", 1);
    s.remove();
    assert_eq!(state(&s), ("b".to_string(), 0));
}

#[test]
fn delete_backward_at_start_is_noop() {
    let mut s = screen_of("ab", 0);
    assert_eq!(state(&s), ("ab".to_string(), 0));
    s.remove();
    assert_eq!(state(&s), ("ab".to_string(), 0));
}

#[test]
fn render_empty_is_marker_only() {
    let s = Screen::new();
    assert_eq!(s.pretty(), "|");
    assert_eq!(s.pretty(), CURSOR_MARKER.to_string());
}

#[test]
fn render_marks_gap() {
    assert_eq!(screen_of("ab", 0).pretty(), "|ab");
    assert_eq!(screen_of("ab", 1).pretty(), "a|b");
    assert_eq!(screen_of("ab", 2).pretty(), "ab|");
}

#[test]
fn render_keeps_non_ascii() {
    assert_eq!(screen_of("дом", 2).pretty(), "до|м");
}

#[test]
fn insert_in_middle() {
    let mut s = screen_of("ac", 1);
    s.insert('b');
    assert_eq!(state(&s), ("abc".to_string(), 2));
    s.insert('x');
    assert_eq!(state(&s), ("abxc".to_string(), 3));
}

#[test]
fn insert_at_start() {
    let mut s = screen_of("bc", 0);
    s.insert('a');
    assert_eq!(state(&s), ("abc".to_string(), 1));
}

#[test]
fn delete_backward_at_end() {
    let mut s = screen_of("abc", 3);
    s.remove();
    assert_eq!(state(&s), ("ab".to_string(), 2));
    s.remove();
    s.remove();
    assert_eq!(state(&s), (String::new(), 0));
    s.remove();
    assert_eq!(state(&s), (String::new(), 0));
}

#[test]
fn cursor_stays_in_bounds_over_a_session() {
    let mut s = Screen::new();
    let keys = "ab<<<x>>>>>y<<<-- -z>>-----";
    for k in keys.chars() {
        match k {
            '<' => s.left(),
            '>' => s.right(),
            '-' => s.remove(),
            c => s.insert(c),
        }
        assert!(s.pos() <= s.text().len());
    }
}

#[test]
fn insert_then_delete_restores_state() {
    for pos in 0..=3 {
        let mut s = screen_of("xyz", pos);
        let before = state(&s);
        s.insert('q');
        s.remove();
        assert_eq!(state(&s), before);
    }
}

#[test]
fn repeated_moves_saturate() {
    let mut s = screen_of("abc", 2);
    for _ in 0..5 {
        s.left();
    }
    assert_eq!(state(&s), ("abc".to_string(), 0));
    for _ in 0..5 {
        s.right();
    }
    assert_eq!(state(&s), ("abc".to_string(), 3));
    s.right();
    assert_eq!(state(&s), ("abc".to_string(), 3));
}

#[test]
fn empty_buffer_operations_are_noops() {
    let mut s = Screen::new();
    s.left();
    assert_eq!(state(&s), (String::new(), 0));
    s.right();
    assert_eq!(state(&s), (String::new(), 0));
    s.remove();
    assert_eq!(state(&s), (String::new(), 0));
}
