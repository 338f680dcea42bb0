use iuc_bot::client::obs::{Course, Exam};
use iuc_bot::pages::dashboard::ders_notlari::{exam_grade_color, get_grade_color, is_letter_grade, DersNotlari, GradeColor};
use iuc_bot::pages::{Event, KeyCode, KeyEvent, MouseEvent, MouseEventKind, PageAction};

fn exam(name: &str, grade: &str) -> Exam {
    Exam { name: name.to_string(), grade: grade.to_string(), weight: "%40".to_string(), date: "01.01.2025".to_string() }
}

fn course(name: &str, n: usize) -> Course {
    Course { name: name.to_string(), exams: (0..n).map(|i| exam(&format!("Sınav {}", i), "50")).collect(), grade_scale: None }
}

fn loaded() -> DersNotlari {
    let mut d = DersNotlari::new();
    let mut fetch = Some(vec![course("A", 2), course("B", 3), course("C", 1)]);
    assert_eq!(d.update(&mut fetch), PageAction::NoAction);
    assert!(fetch.is_none());
    d
}

#[test]
fn new_tab_starts_at_fall_2025() {
    let d = DersNotlari::new();
    assert_eq!((d.year, d.term), (2025, 1));
    assert!(!d.needs_fetch);
    assert_eq!(d.fetch_params(), ("2025".to_string(), "1".to_string()));
    assert_eq!(d.table_title(), " Ders Notları (2025 - 1. Dönem) ");
}

#[test]
fn terms_advance_and_go_back() {
    let mut d = DersNotlari::new();
    assert_eq!(d.next_term(), PageAction::NoAction);
    assert_eq!((d.year, d.term), (2025, 2));
    assert!(d.needs_fetch);
    d.next_term();
    assert_eq!((d.year, d.term), (2026, 1));
    d.prev_term();
    assert_eq!((d.year, d.term), (2025, 2));
    d.prev_term();
    d.prev_term();
    assert_eq!((d.year, d.term), (2024, 2));
    assert_eq!(d.fetch_params(), ("2024".to_string(), "2".to_string()));
}

#[test]
fn update_selects_first_course_row() {
    let d = loaded();
    assert_eq!(d.selected_course_idx, 0);
    assert_eq!(d.table_selected, Some(0));
    let mut e = DersNotlari::new();
    e.update(&mut Some(Vec::new()));
    assert_eq!(e.table_selected, None);
    assert!(e.courses.is_empty());
}

#[test]
fn course_cursor_rows() {
    let mut d = loaded();
    d.next();
    assert_eq!(d.selected_course_idx, 1);
    assert_eq!(d.table_selected, Some(4 + 3));
    d.next();
    assert_eq!(d.table_selected, Some(4 + 5 + 1));
    d.next();
    assert_eq!(d.selected_course_idx, 0);
    assert_eq!(d.table_selected, Some(0));
    d.previous();
    assert_eq!(d.selected_course_idx, 2);
    assert_eq!(d.table_selected, Some(9 + 1));
    d.previous();
    assert_eq!(d.table_selected, Some(4));
}

#[test]
fn previous_after_next_restores_course() {
    let mut d = loaded();
    for i in 0..3 {
        d.selected_course_idx = i;
        d.next();
        d.previous();
        assert_eq!(d.selected_course_idx, i);
    }
}

#[test]
fn empty_list_ignores_moves() {
    let mut d = DersNotlari::new();
    d.next();
    d.previous();
    d.update_state(true);
    assert_eq!(d.selected_course_idx, 0);
    assert_eq!(d.table_selected, None);
}

#[test]
fn letter_grade_colours() {
    assert_eq!(get_grade_color("AA"), GradeColor::Green);
    assert_eq!(get_grade_color(" BB "), GradeColor::Green);
    assert_eq!(get_grade_color("FF"), GradeColor::Red);
    assert_eq!(get_grade_color("DC"), GradeColor::Red);
    assert_eq!(get_grade_color("CB"), GradeColor::White);
    assert_eq!(get_grade_color("BADD"), GradeColor::Green);
    assert!(is_letter_grade(&exam("HARF NOTU", "AA")));
    assert_eq!(exam_grade_color(&exam("HARF NOTU", "FF")), GradeColor::Red);
    assert_eq!(exam_grade_color(&exam("Vize", "FF")), GradeColor::White);
}

#[test]
fn grades_keys_and_scroll() {
    let mut d = loaded();
    let k = |c| Event::Key(KeyEvent { code: c, ctrl: false });
    d.handle_event(k(KeyCode::Char('j')));
    assert_eq!(d.selected_course_idx, 1);
    assert_eq!(d.table_selected, Some(7));
    d.handle_event(Event::Mouse(MouseEvent { kind: MouseEventKind::ScrollUp, column: 0, row: 0 }));
    assert_eq!(d.selected_course_idx, 0);
    assert_eq!(d.table_selected, Some(0));
    d.handle_event(k(KeyCode::Up));
    assert_eq!(d.selected_course_idx, 2);
    assert_eq!(d.table_selected, Some(10));
    d.handle_event(k(KeyCode::Down));
    assert_eq!(d.selected_course_idx, 0);
    assert_eq!(d.table_selected, Some(0));
    d.handle_event(k(KeyCode::Right));
    assert_eq!((d.year, d.term), (2025, 2));
    d.handle_event(k(KeyCode::Char('h')));
    assert_eq!((d.year, d.term), (2025, 1));
    assert_eq!(d.handle_event(k(KeyCode::Esc)), PageAction::NoAction);
}

#[test]
fn grade_scale_text() {
    let mut d = loaded();
    assert_eq!(d.scale_text().as_deref(), Some("Harf notu yok"));
    d.courses[0].grade_scale = Some("AA: 90-100".to_string());
    assert_eq!(d.scale_text().as_deref(), Some("AA: 90-100"));
    assert_eq!(DersNotlari::new().scale_text(), None);
}

#[test]
fn term_changes_at_the_ends_of_the_year_range() {
    let k = |c| Event::Key(KeyEvent { code: c, ctrl: false });
    let mut d = DersNotlari::new();
    d.year = i32::MAX;
    d.term = 2;
    assert!(!d.accepts(k(KeyCode::Right)));
    assert!(!d.accepts(k(KeyCode::Char('l'))));
    assert!(d.accepts(k(KeyCode::Left)));
    assert!(d.accepts(k(KeyCode::Down)));
    d.handle_event(k(KeyCode::Down));
    assert_eq!((d.year, d.term), (i32::MAX, 2));
    d.year = i32::MIN;
    d.term = 1;
    assert!(!d.accepts(k(KeyCode::Char('h'))));
    assert!(d.accepts(k(KeyCode::Right)));
    d.handle_event(k(KeyCode::Right));
    assert_eq!((d.year, d.term), (i32::MIN, 2));
    assert!(d.needs_fetch);
}
