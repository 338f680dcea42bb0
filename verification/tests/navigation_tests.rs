use iuc_bot::pages::dashboard::ozluk_bilgileri::{address_location, contact_flags, OzlukBilgileri, State};
use iuc_bot::pages::dashboard::{Dashboard, Tab};
use iuc_bot::pages::{Event, KeyCode, KeyEvent, PageAction, Rect};
use iuc_bot::client::obs::{AdresBilgisi, IletisimBilgisi, OzlukBilgileriData};
use iuc_bot::router::{Route, Router};

fn key(code: KeyCode) -> Event {
    Event::Key(KeyEvent { code, ctrl: false })
}

#[test]
fn router_push_and_back() {
    let mut r = Router::new(Route::Login);
    assert_eq!(*r.current(), Route::Login);
    assert!(!r.push(Route::Login));
    assert!(r.history.is_empty());
    assert!(r.push(Route::Dashboard));
    assert_eq!(*r.current(), Route::Dashboard);
    assert_eq!(r.history, vec![Route::Login]);
    assert!(r.back());
    assert_eq!(*r.current(), Route::Login);
    assert!(r.history.is_empty());
    assert!(!r.back());
    assert_eq!(*r.current(), Route::Login);
}

#[test]
fn router_follows_page_actions() {
    let mut r = Router::new(Route::Login);
    assert!(r.handle_action(PageAction::Navigate(Route::Dashboard)));
    assert!(!r.handle_action(PageAction::Tick));
    assert!(!r.handle_action(PageAction::Quit));
    assert!(r.handle_action(PageAction::Back));
    assert_eq!(*r.current(), Route::Login);
    assert!(!r.handle_action(PageAction::Back));
}

#[test]
fn tabs_cycle() {
    let t = Tab::OzlukBilgileri;
    assert_eq!(t.next(), Tab::DersAlma);
    assert_eq!(t.next().next(), Tab::DersNotlari);
    assert_eq!(t.next().next().next(), t);
    assert_eq!(Tab::OzlukBilgileri.title(), "Özlük Bilgileri");
    assert_eq!(Tab::DersAlma.title(), "Ders Alma");
    assert_eq!(Tab::DersNotlari.title(), "Ders Notları");
}

#[test]
fn dashboard_keys() {
    let mut d = Dashboard::new();
    assert_eq!(d.tab, Tab::OzlukBilgileri);
    assert_eq!(d.handle_event(key(KeyCode::Tab)), PageAction::NoAction);
    assert_eq!(d.tab, Tab::DersAlma);
    assert_eq!(d.handle_event(key(KeyCode::Char('q'))), PageAction::Quit);
    assert_eq!(d.handle_event(key(KeyCode::Esc)), PageAction::Quit);
    assert_eq!(d.handle_event(Event::Key(KeyEvent { code: KeyCode::Char('c'), ctrl: true })), PageAction::Quit);
    assert_eq!(d.tab, Tab::DersAlma);
    d.handle_event(key(KeyCode::Tab));
    d.handle_event(key(KeyCode::Right));
    assert_eq!((d.ders_notlari.year, d.ders_notlari.term), (2025, 2));
}

#[test]
fn dashboard_update_only_on_registration_tab() {
    let mut d = Dashboard::new();
    let mut fetch = Some(Ok(Vec::new()));
    let mut save: Option<Result<String, String>> = None;
    d.update(&mut fetch, &mut save, &mut None, &mut None);
    assert!(fetch.is_some());
    d.handle_event(key(KeyCode::Tab));
    d.update(&mut fetch, &mut save, &mut None, &mut None);
    assert!(fetch.is_none());
    assert!(matches!(d.ders_alma.state, iuc_bot::pages::dashboard::ders_alma::State::Loaded));
}

fn record() -> OzlukBilgileriData {
    OzlukBilgileriData {
        ad: "Ali".to_string(),
        soyad: "Veli".to_string(),
        tc_kimlik: "1".to_string(),
        resim_base64: String::new(),
        iletisim: Vec::new(),
        adresler: Vec::new(),
    }
}

#[test]
fn record_tab_phases() {
    let mut o = OzlukBilgileri::new();
    assert_eq!(o.info_lines(), vec!["Bilgiler Yükleniyor...".to_string()]);
    o.handle_event(key(KeyCode::Char('r')));
    assert!(!o.needs_fetch);
    o.update(&mut Some(Ok(record())));
    assert_eq!(o.info_lines(), vec!["Adı: Ali".to_string(), "Soyadı: Veli".to_string(), "Kimlik Numarası: 1".to_string()]);
    o.handle_event(key(KeyCode::Char('r')));
    assert!(o.needs_fetch);
    assert!(matches!(o.state, State::Loading));
    o.update(&mut Some(Err("kisiId bulunamadı".to_string())));
    assert_eq!(o.info_lines(), vec!["Hata: kisiId bulunamadı".to_string()]);
    let mut detached = OzlukBilgileri::default();
    detached.fetch_data();
    assert!(!detached.needs_fetch);
}

#[test]
fn contact_and_address_texts() {
    let c = IletisimBilgisi {
        IletisimTipi: "E-Posta".to_string(),
        Telefon_Mail: "a@b.c".to_string(),
        DogrulandimiStr: Some("Evet".to_string()),
        TercihEdilenMi: Some(true),
    };
    assert_eq!(contact_flags(&c), (true, true));
    let c2 = IletisimBilgisi { DogrulandimiStr: Some("Hayır".to_string()), TercihEdilenMi: None, ..c };
    assert_eq!(contact_flags(&c2), (false, false));
    let a = AdresBilgisi { AdresTipi: "Ev".to_string(), Adres: "Sokak".to_string(), ilce: Some("Avcılar".to_string()), il: Some("İstanbul".to_string()) };
    assert_eq!(address_location(&a), " (Avcılar/İstanbul)");
    let a2 = AdresBilgisi { il: None, ..a };
    assert_eq!(address_location(&a2), "");
}

#[test]
fn rect_contains_cells() {
    let r = Rect { x: 2, y: 3, width: 4, height: 2 };
    assert!(r.contains(2, 3));
    assert!(r.contains(5, 4));
    assert!(!r.contains(6, 4));
    assert!(!r.contains(2, 5));
    assert!(!Rect::zero().contains(0, 0));
}

#[test]
fn dashboard_asks_for_the_record_and_takes_replies() {
    let mut d = Dashboard::new();
    assert!(d.ozluk_bilgileri.needs_fetch);
    assert!(matches!(d.ozluk_bilgileri.state, State::Loading));
    let mut record_slot = Some(Ok(record()));
    let mut grades = Some(vec![iuc_bot::client::obs::Course {
        name: "Fizik".to_string(),
        exams: Vec::new(),
        grade_scale: None,
    }]);
    d.update(&mut None, &mut None, &mut grades, &mut record_slot);
    assert!(record_slot.is_none());
    assert!(grades.is_none());
    assert!(matches!(d.ozluk_bilgileri.state, State::Loaded(_)));
    assert_eq!(d.ders_notlari.courses.len(), 1);
    assert_eq!(d.ders_notlari.table_selected, Some(0));
}

#[test]
fn dashboard_passes_input_to_the_shown_tab() {
    let mut d = Dashboard::new();
    d.handle_event(key(KeyCode::Tab));
    d.handle_event(key(KeyCode::Tab));
    assert_eq!(d.tab, Tab::DersNotlari);
    d.ders_notlari.year = i32::MAX;
    d.ders_notlari.term = 2;
    assert!(!d.accepts(key(KeyCode::Right)));
    assert!(d.accepts(key(KeyCode::Tab)));
    assert_eq!(d.handle_event(key(KeyCode::Left)), PageAction::NoAction);
    assert_eq!((d.ders_notlari.year, d.ders_notlari.term), (i32::MAX, 1));
    assert!(d.ders_notlari.needs_fetch);
    d.handle_event(key(KeyCode::Tab));
    assert_eq!(d.tab, Tab::OzlukBilgileri);
    assert!(d.accepts(key(KeyCode::Right)));
}
