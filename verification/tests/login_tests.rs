use iuc_bot::client::aksis::Cache;
use iuc_bot::pages::login::{Focus, Layout, Login, LoginTask, Stage};
use iuc_bot::pages::{Event, KeyCode, KeyEvent, MouseEvent, MouseEventKind, PageAction, Rect};
use iuc_bot::router::Route;

fn key(code: KeyCode) -> Event {
    Event::Key(KeyEvent { code, ctrl: false })
}

fn fresh() -> Login {
    Login::new(&Cache::default())
}

#[test]
fn focus_cycles_within_each_form() {
    let mut f = Focus::Username;
    f.next(&Stage::Creds);
    assert_eq!(f, Focus::Password);
    f.next(&Stage::Creds);
    assert_eq!(f, Focus::Login);
    f.next(&Stage::Creds);
    assert_eq!(f, Focus::Username);
    f.back(&Stage::Creds);
    assert_eq!(f, Focus::Login);
    let mut s = Focus::SmsCode;
    s.next(&Stage::Sms);
    assert_eq!(s, Focus::Verify);
    s.back(&Stage::Sms);
    assert_eq!(s, Focus::SmsCode);
    s.back(&Stage::Sms);
    assert_eq!(s, Focus::Verify);
}

#[test]
fn layout_centres_the_box() {
    let size = Rect { x: 0, y: 0, width: 80, height: 24 };
    let l = Layout::new(size, &Stage::Creds);
    assert_eq!(l.box_area, Rect { x: 15, y: 6, width: 50, height: 11 });
    assert_eq!(l.username_area, Rect { x: 17, y: 7, width: 46, height: 3 });
    assert_eq!(l.password_area, Rect { x: 17, y: 10, width: 46, height: 3 });
    assert_eq!(l.button_area, Rect { x: 17, y: 13, width: 46, height: 3 });
    let s = Layout::new(size, &Stage::Sms);
    assert_eq!(s.sms_area, Rect { x: 17, y: 8, width: 46, height: 3 });
    assert_eq!(s.verify_area, Rect { x: 17, y: 12, width: 46, height: 3 });
    let tiny = Layout::new(Rect { x: 0, y: 0, width: 10, height: 5 }, &Stage::Creds);
    assert_eq!(tiny.box_area, Rect { x: 0, y: 0, width: 50, height: 11 });
}

#[test]
fn saved_credentials_fill_the_form() {
    let mut cache = Cache::default();
    cache.username = Some("ali".to_string());
    let l = Login::new(&cache);
    assert_eq!(l.username, "ali");
    assert_eq!(l.password, "");
    assert_eq!(l.stage, Stage::Creds);
    assert_eq!(l.focus, Focus::Username);
}

#[test]
fn typing_and_erasing() {
    let mut l = fresh();
    l.handle_event(key(KeyCode::Char('a')));
    l.handle_event(key(KeyCode::Char('ş')));
    assert_eq!(l.username, "aş");
    l.handle_event(key(KeyCode::Backspace));
    assert_eq!(l.username, "a");
    l.handle_event(key(KeyCode::Tab));
    l.handle_event(key(KeyCode::Char('p')));
    assert_eq!(l.password, "p");
    assert_eq!(l.password_mask(), "*");
    l.handle_event(key(KeyCode::Char('ğ')));
    assert_eq!(l.password_mask(), "***");
    l.handle_event(key(KeyCode::Down));
    l.handle_event(key(KeyCode::Char('x')));
    assert_eq!((l.username.as_str(), l.password.as_str()), ("a", "pğ"));
    l.handle_event(key(KeyCode::Backspace));
    assert_eq!((l.username.as_str(), l.password.as_str()), ("a", "pğ"));
}

#[test]
fn quitting_keys() {
    let mut l = fresh();
    assert_eq!(l.handle_event(key(KeyCode::Esc)), PageAction::Quit);
    assert_eq!(l.handle_event(Event::Key(KeyEvent { code: KeyCode::Char('c'), ctrl: true })), PageAction::Quit);
    assert_eq!(l.handle_event(Event::Key(KeyEvent { code: KeyCode::Char('d'), ctrl: true })), PageAction::Quit);
    assert_eq!(l.handle_event(Event::Key(KeyEvent { code: KeyCode::Char('x'), ctrl: true })), PageAction::NoAction);
    assert_eq!(l.username, "");
}

#[test]
fn login_flow_with_cookie() {
    let mut l = fresh();
    l.handle_event(key(KeyCode::Char('u')));
    l.handle_event(key(KeyCode::Tab));
    l.handle_event(key(KeyCode::Enter));
    assert!(!l.is_loading);
    l.handle_event(key(KeyCode::Char('p')));
    l.handle_event(key(KeyCode::Tab));
    assert_eq!(l.focus, Focus::Login);
    l.handle_event(key(KeyCode::Enter));
    assert!(l.is_loading && l.needs_login && !l.action_ready);
    assert_eq!(l.handle_event(key(KeyCode::Char('z'))), PageAction::NoAction);
    assert_eq!(l.tick(), LoginTask::Idle);
    l.prepare_render(Rect { x: 0, y: 0, width: 80, height: 24 });
    assert!(l.action_ready);
    assert_eq!(l.layout, Layout::new(Rect { x: 0, y: 0, width: 80, height: 24 }, &Stage::Creds));
    assert_eq!(l.button_text(), "   Giriş Yapılıyor...   ");
    assert_eq!(l.tick(), LoginTask::SubmitCredentials);
    assert!(!l.needs_login && !l.action_ready);
    let (action, cookie) = l.finish_login(Ok((Some("C".to_string()), "t".to_string())));
    assert_eq!(action, PageAction::Navigate(Route::Dashboard));
    assert_eq!(cookie.as_deref(), Some("C"));
    assert!(!l.is_loading);
}

#[test]
fn login_flow_with_sms() {
    let mut l = fresh();
    l.is_loading = true;
    let (action, cookie) = l.finish_login(Ok((None, "tok".to_string())));
    assert_eq!((action, cookie), (PageAction::NoAction, None));
    assert_eq!(l.stage, Stage::Sms);
    assert_eq!(l.focus, Focus::SmsCode);
    assert_eq!(l.csrf_token, "tok");
    l.handle_event(key(KeyCode::Char('1')));
    l.handle_event(key(KeyCode::Right));
    assert_eq!(l.focus, Focus::Verify);
    l.handle_event(key(KeyCode::Enter));
    assert!(l.needs_verify);
    l.prepare_render(Rect { x: 0, y: 0, width: 0, height: 0 });
    assert_eq!(l.tick(), LoginTask::SubmitSmsCode);
    let (action, cookie) = l.finish_verify(Err("x".to_string()));
    assert_eq!((action, cookie), (PageAction::NoAction, None));
    assert_eq!(l.error.as_deref(), Some("SMS code error"));
    let (action, cookie) = l.finish_verify(Ok("S".to_string()));
    assert_eq!(action, PageAction::Navigate(Route::Dashboard));
    assert_eq!(cookie.as_deref(), Some("S"));
    assert_eq!(l.button_text(), "   Doğrula   ");
}

#[test]
fn login_failure_is_shown() {
    let mut l = fresh();
    l.is_loading = true;
    l.finish_login(Err("Login failed. Try again".to_string()));
    assert_eq!(l.error.as_deref(), Some("Login failed. Try again"));
    assert!(!l.is_loading);
    assert_eq!(l.stage, Stage::Creds);
}

#[test]
fn clicks_set_the_focus_with_row_as_x() {
    let mut l = fresh();
    l.prepare_render(Rect { x: 0, y: 0, width: 80, height: 24 });
    let click = |row, column| Event::Mouse(MouseEvent { kind: MouseEventKind::LeftDown, column, row });
    l.handle_event(click(20, 11));
    assert_eq!(l.focus, Focus::Password);
    l.handle_event(click(20, 14));
    assert_eq!(l.focus, Focus::Login);
    l.handle_event(click(0, 0));
    assert_eq!(l.focus, Focus::Login);
    l.handle_event(click(17, 7));
    assert_eq!(l.focus, Focus::Username);
}

#[test]
fn shift_tab_moves_focus_back() {
    let mut l = fresh();
    l.handle_event(key(KeyCode::Tab));
    assert_eq!(l.focus, Focus::Password);
    assert_eq!(l.handle_event(key(KeyCode::BackTab)), PageAction::NoAction);
    assert_eq!(l.focus, Focus::Username);
    l.handle_event(key(KeyCode::BackTab));
    assert_eq!(l.focus, Focus::Login);
    assert_eq!(l.username, "");
    assert_eq!(l.password, "");
    assert_eq!(l.stage, Stage::Creds);
}
