use iuc_bot::client::obs::AlinabilecekDers;
use iuc_bot::pages::dashboard::ders_alma::{build_sections, course_line, DersAlma, State};
use iuc_bot::pages::{Event, KeyCode, KeyEvent, PageAction};

fn ders(code: &str, grup: Option<&str>, tipi: &str) -> AlinabilecekDers {
    AlinabilecekDers {
        DersGrupID: 1,
        DersPlanAnaId: 2,
        DersPlanId: 3,
        SecmeliGrubu: 0,
        Grup: grup.map(|s| s.to_string()),
        IntibakAID: None,
        IntibakBID: None,
        EnumKontenjanTuru: 0,
        YerineAlinanDersID: None,
        SaydirilanDersID: 0,
        Kodu: code.to_string(),
        DersAdi: format!("{} adı", code),
        Tipi: tipi.to_string(),
        Selected: String::new(),
        is_selected: false,
    }
}

fn sample() -> Vec<AlinabilecekDers> {
    vec![
        ders("Z1", Some("Zorunlu"), "Zorunlu"),
        ders("B1", Some("B"), "Seçmeli"),
        ders("O1", None, "Seçmeli"),
        ders("A1", Some("A"), "Seçmeli"),
        ders("B2", Some("B"), "Seçmeli"),
    ]
}

fn key(code: KeyCode) -> Event {
    Event::Key(KeyEvent { code, ctrl: false })
}

fn codes(d: &DersAlma) -> Vec<(String, Vec<String>)> {
    d.sections.iter().map(|(t, cs)| (t.clone(), cs.iter().map(|c| c.Kodu.clone()).collect())).collect()
}

fn loaded() -> DersAlma {
    let mut d = DersAlma::new();
    d.needs_fetch = false;
    let mut fetch = Some(Ok(sample()));
    let mut save = None;
    assert_eq!(d.update(&mut fetch, &mut save), PageAction::NoAction);
    assert!(fetch.is_none());
    d
}

#[test]
fn sections_are_grouped_and_sorted() {
    let secs = build_sections(sample());
    let titles: Vec<&str> = secs.iter().map(|s| s.0.as_str()).collect();
    assert_eq!(titles, vec!["A Grubu Seçmeli", "B Grubu Seçmeli", "Diğer Seçmeliler", "Zorunlu Dersler"]);
    let b: Vec<&str> = secs[1].1.iter().map(|c| c.Kodu.as_str()).collect();
    assert_eq!(b, vec!["B1", "B2"]);
    assert!(secs[3].1[0].is_selected);
    assert!(!secs[1].1[0].is_selected);
    let total: usize = secs.iter().map(|s| s.1.len()).sum();
    assert_eq!(total, 5);
}

#[test]
fn no_compulsory_section_without_compulsory_courses() {
    let secs = build_sections(vec![ders("X", Some("Q"), "Seçmeli")]);
    assert_eq!(secs.len(), 1);
    assert_eq!(secs[0].0, "Q Grubu Seçmeli");
    assert!(build_sections(Vec::new()).is_empty());
}

#[test]
fn update_selects_first_course() {
    let d = loaded();
    assert_eq!(d.selected, Some(1));
    assert!(matches!(d.state, State::Loaded));
    assert_eq!(d.get_flat_len(), 9);
    assert_eq!(codes(&d)[0], ("A Grubu Seçmeli".to_string(), vec!["A1".to_string()]));
}

#[test]
fn rows_and_locations() {
    let d = loaded();
    let headers: Vec<usize> = (0..10).filter(|&i| d.is_header(i)).collect();
    assert_eq!(headers, vec![0, 2, 5, 7]);
    assert_eq!(d.get_course_location(0), None);
    assert_eq!(d.get_course_location(4), Some((1, 1)));
    assert_eq!(d.get_course_location(8), Some((3, 0)));
    assert_eq!(d.get_course_location(9), None);
}

#[test]
fn cursor_moves_skip_headers_and_wrap() {
    let mut d = loaded();
    let mut seen = Vec::new();
    for _ in 0..5 {
        d.next_course();
        seen.push(d.selected.unwrap());
    }
    assert_eq!(seen, vec![3, 4, 6, 8, 1]);
    d.previous_course();
    assert_eq!(d.selected, Some(8));
    d.previous_course();
    assert_eq!(d.selected, Some(6));
}

#[test]
fn up_after_down_returns() {
    let mut d = loaded();
    for start in [1usize, 3, 4, 6, 8] {
        d.selected = Some(start);
        d.next_course();
        d.previous_course();
        assert_eq!(d.selected, Some(start));
        d.previous_course();
        d.next_course();
        assert_eq!(d.selected, Some(start));
    }
}

#[test]
fn toggling_twice_restores() {
    let mut d = loaded();
    d.selected = Some(4);
    d.toggle_course();
    assert!(d.sections[1].1[1].is_selected);
    d.toggle_course();
    assert!(!d.sections[1].1[1].is_selected);
    d.selected = Some(2);
    d.toggle_course();
    assert!(d.sections.iter().all(|(_, cs)| cs.iter().all(|c| c.Kodu == "Z1" || !c.is_selected)));
}

#[test]
fn keys_drive_the_list() {
    let mut d = loaded();
    assert_eq!(d.handle_event(key(KeyCode::Char('j'))), PageAction::NoAction);
    assert_eq!(d.selected, Some(3));
    assert_eq!(d.handle_event(key(KeyCode::Up)), PageAction::NoAction);
    assert_eq!(d.selected, Some(1));
    d.handle_event(key(KeyCode::Char(' ')));
    assert!(d.sections[0].1[0].is_selected);
    assert_eq!(d.handle_event(key(KeyCode::Enter)), PageAction::Tick);
    assert!(d.needs_save);
    assert!(matches!(d.state, State::Loading));
    let saved: Vec<&str> = d.save_request.iter().map(|c| c.Kodu.as_str()).collect();
    assert_eq!(saved, vec!["A1", "Z1"]);
}

#[test]
fn busy_page_ignores_keys_but_refetches_on_r() {
    let mut d = loaded();
    let mut fetch = None;
    let mut save = Some(Ok("ok".to_string()));
    d.update(&mut fetch, &mut save);
    assert!(matches!(d.state, State::Saved));
    assert_eq!(d.handle_event(key(KeyCode::Down)), PageAction::NoAction);
    assert_eq!(d.selected, Some(1));
    assert_eq!(d.handle_event(key(KeyCode::Char('r'))), PageAction::Tick);
    assert!(d.needs_fetch);
    assert!(matches!(d.state, State::Loading));
    assert_eq!(d.handle_event(key(KeyCode::Char('r'))), PageAction::NoAction);
}

#[test]
fn failures_are_classified() {
    let mut d = loaded();
    let mut fetch: Option<Result<Vec<AlinabilecekDers>, String>> = Some(Err("Ders Alma Takvimi Dışındasınız".to_string()));
    let mut save = None;
    d.update(&mut fetch, &mut save);
    assert!(matches!(d.state, State::OutOfSchedule));
    assert_eq!(d.error, None);
    let mut save = Some(Err("boom".to_string()));
    d.update(&mut fetch, &mut save);
    assert!(matches!(d.state, State::Error(ref e) if e == "boom"));
    assert_eq!(d.error.as_deref(), Some("boom"));
    let mut fetch = Some(Ok(sample()));
    d.update(&mut fetch, &mut None);
    assert!(matches!(d.state, State::Loaded));
    assert_eq!(d.error, None);
}

#[test]
fn detached_tab_never_requests() {
    let mut d = DersAlma::default();
    d.fetch_courses();
    assert!(!d.needs_fetch);
    d.save_courses();
    assert!(!d.needs_save);
    assert!(matches!(d.state, State::Loading));
    assert!(DersAlma::new().needs_fetch);
}

#[test]
fn course_row_text() {
    let mut c = ders("FIZ101", None, "Seçmeli");
    assert_eq!(course_line(&c), "  [ ] FIZ101 - FIZ101 adı (Seçmeli)");
    c.is_selected = true;
    assert_eq!(course_line(&c), "  [x] FIZ101 - FIZ101 adı (Seçmeli)");
}

#[test]
fn list_titles() {
    let mut d = DersAlma::new();
    assert_eq!(d.list_title(), "Yükleniyor...");
    d.state = State::OutOfSchedule;
    assert_eq!(d.list_title(), "Ders seçimi (r ile yenile)");
    d.state = State::Loaded;
    assert_eq!(d.list_title(), "Ders seçimi (boşluk ile seç, enter ile onayla)");
}

#[test]
fn status_messages_by_phase() {
    let mut d = DersAlma::new();
    assert_eq!(d.status_message(), Some("Lütfen bekleyin..."));
    d.state = State::Saved;
    assert_eq!(d.status_message(), Some("Ders seçim işleminiz başarıyla tamamlandı."));
    d.state = State::OutOfSchedule;
    assert_eq!(d.status_message(), Some("  Ders Alma Takvimi Dışındasınız.  "));
    d.state = State::Loaded;
    assert_eq!(d.status_message(), None);
    d.state = State::Error("x".to_string());
    assert_eq!(d.status_message(), None);
}
