//! The login page: a credentials form, then an SMS code form when the
//! service asks for one.
use vstd::prelude::*;
use crate::client::aksis::Cache;
use crate::pages::{Event, KeyCode, MouseEventKind, PageAction, Rect};
use crate::router::Route;
use crate::text::{opt_view, pop_char, push_char, string_of};

verus! {

/// The form shown.
#[derive(Debug, Clone, Copy, PartialEq, Eq, Structural)]
pub enum Stage {
    Creds,
    Sms,
}

/// The field or button that has the focus.
#[derive(Debug, Clone, Copy, PartialEq, Eq, Structural)]
pub enum Focus {
    Username,
    Password,
    Login,
    SmsCode,
    Verify,
}

/// The focus belongs to the form of `stage`.
pub open spec fn focus_valid(stage: Stage, focus: Focus) -> bool {
    match stage {
        Stage::Creds => focus == Focus::Username || focus == Focus::Password || focus == Focus::Login,
        Stage::Sms => focus == Focus::SmsCode || focus == Focus::Verify,
    }
}

/// The next element of the form, wrapping from the last to the first.
pub open spec fn focus_after_next(stage: Stage, focus: Focus) -> Focus {
    match (stage, focus) {
        (Stage::Creds, Focus::Username) => Focus::Password,
        (Stage::Creds, Focus::Password) => Focus::Login,
        (Stage::Creds, Focus::Login) => Focus::Username,
        (Stage::Sms, Focus::SmsCode) => Focus::Verify,
        _ => Focus::SmsCode,
    }
}

/// The previous element of the form, wrapping from the first to the last.
pub open spec fn focus_after_back(stage: Stage, focus: Focus) -> Focus {
    match (stage, focus) {
        (Stage::Creds, Focus::Password) => Focus::Username,
        (Stage::Creds, Focus::Login) => Focus::Password,
        (Stage::Creds, Focus::Username) => Focus::Login,
        (Stage::Sms, Focus::Verify) => Focus::SmsCode,
        _ => Focus::Verify,
    }
}

/// Moving the focus forward and back, or back and forward, returns it to
/// the same element, which stays within the form.
pub proof fn law_focus_back_undoes_next(stage: Stage, focus: Focus)
    requires
        focus_valid(stage, focus),
    ensures
        focus_after_back(stage, focus_after_next(stage, focus)) == focus,
        focus_after_next(stage, focus_after_back(stage, focus)) == focus,
        focus_valid(stage, focus_after_next(stage, focus)),
        focus_valid(stage, focus_after_back(stage, focus)),
{
}

impl Focus {
    /// Moves the focus to the next element of the form.
    pub fn next(&mut self, stage: &Stage)
        requires
            focus_valid(*stage, *old(self)),
        ensures
            *final(self) == focus_after_next(*stage, *old(self)),
    {
        *self = match (stage, *self) {
            (Stage::Creds, Focus::Username) => Focus::Password,
            (Stage::Creds, Focus::Password) => Focus::Login,
            (Stage::Creds, Focus::Login) => Focus::Username,
            (Stage::Sms, Focus::SmsCode) => Focus::Verify,
            _ => Focus::SmsCode,
        }
    }

    /// Moves the focus to the previous element of the form.
    pub fn back(&mut self, stage: &Stage)
        requires
            focus_valid(*stage, *old(self)),
        ensures
            *final(self) == focus_after_back(*stage, *old(self)),
    {
        *self = match (stage, *self) {
            (Stage::Creds, Focus::Password) => Focus::Username,
            (Stage::Creds, Focus::Login) => Focus::Password,
            (Stage::Creds, Focus::Username) => Focus::Login,
            (Stage::Sms, Focus::Verify) => Focus::SmsCode,
            _ => Focus::Verify,
        }
    }
}

/// Where the form's parts are drawn.
#[derive(Debug, Clone, Copy, PartialEq, Eq, Structural)]
pub struct Layout {
    pub size: Rect,
    pub box_area: Rect,
    pub username_area: Rect,
    pub password_area: Rect,
    pub button_area: Rect,
    pub sms_area: Rect,
    pub verify_area: Rect,
}

/// `a - b`, or 0 when `b` is larger.
pub open spec fn sat_sub(a: int, b: int) -> int {
    if a >= b {
        a - b
    } else {
        0
    }
}

/// A rectangle from integer coordinates.
pub open spec fn rect(x: int, y: int, width: int, height: int) -> Rect {
    Rect { x: x as u16, y: y as u16, width: width as u16, height: height as u16 }
}

/// The layout of the form of `stage` in a terminal of `size`: a 50 by 11
/// box in the middle, with the inputs stacked three rows apart and
/// centred vertically in the box.
pub open spec fn layout_for(size: Rect, stage: Stage) -> Layout {
    let x = sat_sub(size.width as int, 50) / 2;
    let y = sat_sub(size.height as int, 11) / 2;
    let elements: int = match stage {
        Stage::Creds => 3,
        Stage::Sms => 2,
    };
    let padding = sat_sub(9, 3 * elements) / 2;
    Layout {
        size,
        box_area: rect(x, y, 50, 11),
        username_area: rect(x + 2, y + 1 + padding, 46, 3),
        password_area: rect(x + 2, y + 4 + padding, 46, 3),
        button_area: rect(x + 2, y + 7 + padding, 46, 3),
        sms_area: rect(x + 2, y + 1 + padding, 46, 3),
        verify_area: rect(x + 2, y + 5 + padding, 46, 3),
    }
}

/// `inner` lies within `outer`.
pub open spec fn rect_within(inner: Rect, outer: Rect) -> bool {
    &&& outer.x <= inner.x
    &&& inner.x + inner.width <= outer.x + outer.width
    &&& outer.y <= inner.y
    &&& inner.y + inner.height <= outer.y + outer.height
}

/// No rectangle of the layout reaches past the largest coordinate.
pub open spec fn layout_ok(l: Layout) -> bool {
    &&& l.username_area.x + l.username_area.width <= u16::MAX
    &&& l.username_area.y + l.username_area.height <= u16::MAX
    &&& l.password_area.x + l.password_area.width <= u16::MAX
    &&& l.password_area.y + l.password_area.height <= u16::MAX
    &&& l.button_area.x + l.button_area.width <= u16::MAX
    &&& l.button_area.y + l.button_area.height <= u16::MAX
    &&& l.sms_area.x + l.sms_area.width <= u16::MAX
    &&& l.sms_area.y + l.sms_area.height <= u16::MAX
    &&& l.verify_area.x + l.verify_area.width <= u16::MAX
    &&& l.verify_area.y + l.verify_area.height <= u16::MAX
}

impl Layout {
    /// Lays the form of `stage` out in a terminal of `size`.
    pub fn new(size: Rect, stage: &Stage) -> (l: Layout)
        ensures
            l == layout_for(size, *stage),
            layout_ok(l),
            *stage == Stage::Creds ==> rect_within(l.username_area, l.box_area) && rect_within(
                l.password_area,
                l.box_area,
            ) && rect_within(l.button_area, l.box_area),
            *stage == Stage::Sms ==> rect_within(l.sms_area, l.box_area) && rect_within(
                l.verify_area,
                l.box_area,
            ),
    {
        let box_width: u16 = 50;
        let box_height: u16 = 11;
        let area = Rect {
            x: (size.width.saturating_sub(box_width)) / 2,
            y: (size.height.saturating_sub(box_height)) / 2,
            width: box_width,
            height: box_height,
        };
        let inner_height = area.height.saturating_sub(2);
        let input_height: u16 = 3;
        let elements: u16 = match stage {
            Stage::Creds => 3,
            Stage::Sms => 2,
        };
        let padding = (inner_height.saturating_sub(input_height * elements)) / 2;
        let box_area = area;
        let username_area = Rect {
            x: area.x + 2,
            y: area.y + 1 + padding,
            width: area.width - 4,
            height: input_height,
        };
        let password_area = Rect {
            x: username_area.x,
            y: username_area.y + input_height,
            width: username_area.width,
            height: input_height,
        };
        let button_area = Rect {
            x: username_area.x,
            y: password_area.y + input_height,
            width: username_area.width,
            height: input_height,
        };
        let sms_area = Rect {
            x: area.x + 2,
            y: area.y + 1 + padding,
            width: area.width - 4,
            height: input_height,
        };
        let verify_area = Rect {
            x: area.x + 2,
            y: sms_area.y + input_height + 1,
            width: area.width - 4,
            height: input_height,
        };
        Layout { size, box_area, username_area, password_area, button_area, sms_area, verify_area }
    }
}

/// `r` holds the cell `(x, y)`.
pub open spec fn rect_has(r: Rect, x: int, y: int) -> bool {
    r.x <= x < r.x + r.width && r.y <= y < r.y + r.height
}

/// What the login page asks the caller to do next.
#[derive(Debug, Clone, Copy, PartialEq, Eq, Structural)]
pub enum LoginTask {
    Idle,
    SubmitCredentials,
    SubmitSmsCode,
}

/// The login page. The exchanges with the service are performed by the
/// caller when `tick` asks for them; their results are handed to
/// `finish_login` and `finish_verify`.
pub struct Login {
    pub stage: Stage,
    pub focus: Focus,
    pub username: String,
    pub password: String,
    pub sms_code: String,
    pub csrf_token: String,
    pub layout: Layout,
    pub error: Option<String>,
    pub is_loading: bool,
    pub needs_login: bool,
    pub needs_verify: bool,
    pub action_ready: bool,
}

/// The login page as values.
pub ghost struct LoginView {
    pub stage: Stage,
    pub focus: Focus,
    pub username: Seq<char>,
    pub password: Seq<char>,
    pub sms_code: Seq<char>,
    pub csrf_token: Seq<char>,
    pub layout: Layout,
    pub error: Option<Seq<char>>,
    pub is_loading: bool,
    pub needs_login: bool,
    pub needs_verify: bool,
    pub action_ready: bool,
}

impl View for Login {
    type V = LoginView;

    open spec fn view(&self) -> LoginView {
        LoginView {
            stage: self.stage,
            focus: self.focus,
            username: self.username@,
            password: self.password@,
            sms_code: self.sms_code@,
            csrf_token: self.csrf_token@,
            layout: self.layout,
            error: opt_view(self.error),
            is_loading: self.is_loading,
            needs_login: self.needs_login,
            needs_verify: self.needs_verify,
            action_ready: self.action_ready,
        }
    }
}

/// `s` without its last character, if it has one.
pub open spec fn drop_last_char(s: Seq<char>) -> Seq<char> {
    if s.len() > 0 {
        s.drop_last()
    } else {
        s
    }
}

/// The page as it stands after one input event, and what it asks for.
pub open spec fn login_step(v: LoginView, e: Event) -> (LoginView, PageAction) {
    if v.is_loading {
        (v, PageAction::NoAction)
    } else {
        match e {
            Event::Key(k) => match k.code {
                KeyCode::Down | KeyCode::Tab | KeyCode::Right => (
                    LoginView { focus: focus_after_next(v.stage, v.focus), ..v },
                    PageAction::NoAction,
                ),
                KeyCode::Up | KeyCode::Left | KeyCode::BackTab => (
                    LoginView { focus: focus_after_back(v.stage, v.focus), ..v },
                    PageAction::NoAction,
                ),
                KeyCode::Char(c) => if k.ctrl {
                    if c == 'c' || c == 'd' {
                        (v, PageAction::Quit)
                    } else {
                        (v, PageAction::NoAction)
                    }
                } else {
                    (
                        match v.focus {
                            Focus::Username => LoginView { username: v.username.push(c), ..v },
                            Focus::Password => LoginView { password: v.password.push(c), ..v },
                            Focus::SmsCode => LoginView { sms_code: v.sms_code.push(c), ..v },
                            _ => v,
                        },
                        PageAction::NoAction,
                    )
                },
                KeyCode::Backspace => (
                    match v.focus {
                        Focus::Username => LoginView { username: drop_last_char(v.username), ..v },
                        Focus::Password => LoginView { password: drop_last_char(v.password), ..v },
                        Focus::SmsCode => LoginView { sms_code: drop_last_char(v.sms_code), ..v },
                        _ => v,
                    },
                    PageAction::NoAction,
                ),
                KeyCode::Enter => (
                    if v.focus == Focus::Login && v.username.len() > 0 && v.password.len() > 0 {
                        LoginView {
                            is_loading: true,
                            needs_login: true,
                            action_ready: false,
                            error: None,
                            ..v
                        }
                    } else if v.focus == Focus::Verify && v.sms_code.len() > 0 {
                        LoginView {
                            is_loading: true,
                            needs_verify: true,
                            action_ready: false,
                            error: None,
                            ..v
                        }
                    } else {
                        v
                    },
                    PageAction::NoAction,
                ),
                KeyCode::Esc => (v, PageAction::Quit),
                _ => (v, PageAction::NoAction),
            },
            Event::Mouse(m) => (
                if m.kind == MouseEventKind::LeftDown {
                    match v.stage {
                        Stage::Creds => if rect_has(v.layout.username_area, m.row as int, m.column as int) {
                            LoginView { focus: Focus::Username, ..v }
                        } else if rect_has(v.layout.password_area, m.row as int, m.column as int) {
                            LoginView { focus: Focus::Password, ..v }
                        } else if rect_has(v.layout.button_area, m.row as int, m.column as int) {
                            LoginView { focus: Focus::Login, ..v }
                        } else {
                            v
                        },
                        Stage::Sms => if rect_has(v.layout.sms_area, m.row as int, m.column as int) {
                            LoginView { focus: Focus::SmsCode, ..v }
                        } else if rect_has(v.layout.verify_area, m.row as int, m.column as int) {
                            LoginView { focus: Focus::Verify, ..v }
                        } else {
                            v
                        },
                    }
                } else {
                    v
                },
                PageAction::NoAction,
            ),
            _ => (v, PageAction::NoAction),
        }
    }
}

/// The page after a tick, and the exchange it asks for: a pending login
/// or verification is handed out once the page has been drawn.
pub open spec fn login_tick(v: LoginView) -> (LoginView, LoginTask) {
    if v.action_ready && v.needs_login {
        (LoginView { needs_login: false, action_ready: false, ..v }, LoginTask::SubmitCredentials)
    } else if v.action_ready && v.needs_verify {
        (LoginView { needs_verify: false, action_ready: false, ..v }, LoginTask::SubmitSmsCode)
    } else {
        (v, LoginTask::Idle)
    }
}

/// The page after the login exchange, what it asks for, and the session
/// cookie to keep: a cookie leads to the dashboard; no cookie means an SMS
/// code is needed, with the token for it; a failure is shown.
pub open spec fn login_finished(
    v: LoginView,
    result: Result<(Option<Seq<char>>, Seq<char>), Seq<char>>,
) -> (LoginView, PageAction, Option<Seq<char>>) {
    match result {
        Ok((Some(cookie), _)) => (
            LoginView { is_loading: false, ..v },
            PageAction::Navigate(Route::Dashboard),
            Some(cookie),
        ),
        Ok((None, token)) => (
            LoginView {
                csrf_token: token,
                stage: Stage::Sms,
                focus: Focus::SmsCode,
                is_loading: false,
                ..v
            },
            PageAction::NoAction,
            None,
        ),
        Err(e) => (LoginView { error: Some(e), is_loading: false, ..v }, PageAction::NoAction, None),
    }
}

/// The page after the SMS exchange: a cookie leads to the dashboard; a
/// failure shows a fixed message.
pub open spec fn verify_finished(v: LoginView, result: Result<Seq<char>, Seq<char>>) -> (
    LoginView,
    PageAction,
    Option<Seq<char>>,
) {
    match result {
        Ok(cookie) => (
            LoginView { is_loading: false, ..v },
            PageAction::Navigate(Route::Dashboard),
            Some(cookie),
        ),
        Err(_) => (
            LoginView { error: Some("SMS code error"@), is_loading: false, ..v },
            PageAction::NoAction,
            None,
        ),
    }
}

/// After any exchange finishes, whatever its outcome, the page is no longer
/// loading, so the next input is handled again. A failed SMS exchange keeps
/// the user on the SMS form with the typed code, shows "SMS code error",
/// hands out no cookie, and lets the user type into the code field; a failed
/// login shows the error it reports and hands out no cookie.
pub proof fn law_finished_exchanges_take_input_again(
    v: LoginView,
    sms: Result<Seq<char>, Seq<char>>,
    login: Result<(Option<Seq<char>>, Seq<char>), Seq<char>>,
    e: Seq<char>,
    c: char,
)
    ensures
        !verify_finished(v, sms).0.is_loading,
        !login_finished(v, login).0.is_loading,
        ({
            let (w, action, cookie) = verify_finished(v, Err(e));
            &&& w.error == Some("SMS code error"@)
            &&& action == PageAction::NoAction
            &&& cookie is None
            &&& w.stage == v.stage && w.focus == v.focus && w.sms_code == v.sms_code
            &&& v.focus == Focus::SmsCode ==> login_step(
                w,
                Event::Key(crate::pages::KeyEvent { code: KeyCode::Char(c), ctrl: false }),
            ).0.sms_code == v.sms_code.push(c)
        }),
        ({
            let (w, action, cookie) = login_finished(v, Err(e));
            &&& w.error == Some(e)
            &&& action == PageAction::NoAction
            &&& cookie is None
            &&& w.stage == v.stage && w.username == v.username && w.password == v.password
        }),
{
}

/// The focus fits the form and the layout's rectangles fit the screen.
pub open spec fn login_wf(v: LoginView) -> bool {
    focus_valid(v.stage, v.focus) && layout_ok(v.layout)
}

/// Typing a character into a field and erasing it leaves the page as it
/// was.
pub proof fn law_backspace_undoes_typing(v: LoginView, c: char)
    requires
        !v.is_loading,
        v.focus == Focus::Username || v.focus == Focus::Password || v.focus == Focus::SmsCode,
    ensures
        ({
            let typed = login_step(v, Event::Key(crate::pages::KeyEvent { code: KeyCode::Char(c), ctrl: false })).0;
            login_step(typed, Event::Key(crate::pages::KeyEvent { code: KeyCode::Backspace, ctrl: false })).0
        }) == v,
{
    assert(v.username.push(c).drop_last() =~= v.username);
    assert(v.password.push(c).drop_last() =~= v.password);
    assert(v.sms_code.push(c).drop_last() =~= v.sms_code);
}

/// While an exchange is under way the page ignores all input.
pub proof fn law_loading_ignores_input(v: LoginView, e: Event)
    requires
        v.is_loading,
    ensures
        login_step(v, e) == (v, PageAction::NoAction),
{
}

/// Every input keeps the focus within the form shown and the layout
/// within the screen.
pub proof fn law_step_keeps_wf(v: LoginView, e: Event)
    requires
        login_wf(v),
    ensures
        login_wf(login_step(v, e).0),
{
}

impl Login {
    /// The credentials form, filled in from the saved login data.
    pub fn new(cache: &Cache) -> (l: Login)
        ensures
            l@.stage == Stage::Creds,
            l@.focus == Focus::Username,
            l@.username == match cache.username {
                Some(u) => u@,
                None => Seq::<char>::empty(),
            },
            l@.password == match cache.password {
                Some(p) => p@,
                None => Seq::<char>::empty(),
            },
            l@.sms_code.len() == 0,
            l@.csrf_token.len() == 0,
            l@.layout == layout_for(Rect { x: 0, y: 0, width: 0, height: 0 }, Stage::Creds),
            l@.error is None,
            !l@.is_loading,
            !l@.needs_login,
            !l@.needs_verify,
            !l@.action_ready,
            login_wf(l@),
    {
        let username = match &cache.username {
            Some(u) => u.clone(),
            None => String::new(),
        };
        let password = match &cache.password {
            Some(p) => p.clone(),
            None => String::new(),
        };
        Login {
            username,
            password,
            stage: Stage::Creds,
            focus: Focus::Username,
            sms_code: String::new(),
            csrf_token: String::new(),
            layout: Layout::new(Rect::zero(), &Stage::Creds),
            error: None,
            is_loading: false,
            needs_login: false,
            needs_verify: false,
            action_ready: false,
        }
    }

    /// Reacts to an input event (see `login_step`).
    pub fn handle_event(&mut self, event: Event) -> (action: PageAction)
        requires
            login_wf(old(self)@),
        ensures
            (final(self)@, action) == login_step(old(self)@, event),
            login_wf(final(self)@),
    {
        if self.is_loading {
            return PageAction::NoAction;
        }
        match event {
            Event::Key(key) => match key.code {
                KeyCode::Down | KeyCode::Tab | KeyCode::Right => {
                    self.focus.next(&self.stage);
                },
                KeyCode::Up | KeyCode::Left | KeyCode::BackTab => {
                    self.focus.back(&self.stage);
                },
                KeyCode::Char(c) => {
                    if key.ctrl {
                        if c == 'c' || c == 'd' {
                            return PageAction::Quit;
                        }
                    } else {
                        match self.focus {
                            Focus::Username => push_char(&mut self.username, c),
                            Focus::Password => push_char(&mut self.password, c),
                            Focus::Login => {},
                            Focus::SmsCode => push_char(&mut self.sms_code, c),
                            Focus::Verify => {},
                        }
                    }
                },
                KeyCode::Backspace => match self.focus {
                    Focus::Username => {
                        pop_char(&mut self.username);
                    },
                    Focus::Password => {
                        pop_char(&mut self.password);
                    },
                    Focus::Login => {},
                    Focus::SmsCode => {
                        pop_char(&mut self.sms_code);
                    },
                    Focus::Verify => {},
                },
                KeyCode::Enter => {
                    if self.focus == Focus::Login && self.username.as_str().unicode_len() > 0
                        && self.password.as_str().unicode_len() > 0 {
                        self.is_loading = true;
                        self.needs_login = true;
                        self.action_ready = false;
                        self.error = None;
                        return PageAction::NoAction;
                    }
                    if self.focus == Focus::Verify && self.sms_code.as_str().unicode_len() > 0 {
                        self.is_loading = true;
                        self.needs_verify = true;
                        self.action_ready = false;
                        self.error = None;
                        return PageAction::NoAction;
                    }
                },
                KeyCode::Esc => {
                    return PageAction::Quit;
                },
                _ => {},
            },
            Event::Mouse(e) => {
                if e.kind == MouseEventKind::LeftDown {
                    match self.stage {
                        Stage::Creds => {
                            if self.layout.username_area.contains(e.row, e.column) {
                                self.focus = Focus::Username;
                            } else if self.layout.password_area.contains(e.row, e.column) {
                                self.focus = Focus::Password;
                            } else if self.layout.button_area.contains(e.row, e.column) {
                                self.focus = Focus::Login;
                            }
                        },
                        Stage::Sms => {
                            if self.layout.sms_area.contains(e.row, e.column) {
                                self.focus = Focus::SmsCode;
                            } else if self.layout.verify_area.contains(e.row, e.column) {
                                self.focus = Focus::Verify;
                            }
                        },
                    }
                }
            },
            _ => {},
        }
        PageAction::NoAction
    }

    /// Before drawing: a pending exchange becomes ready to run, and the
    /// layout follows the terminal size.
    pub fn prepare_render(&mut self, size: Rect)
        requires
            login_wf(old(self)@),
        ensures
            login_wf(final(self)@),
            final(self)@ == (LoginView {
                action_ready: old(self).action_ready || old(self).needs_login || old(self).needs_verify,
                layout: if old(self).layout.size != size {
                    layout_for(size, old(self).stage)
                } else {
                    old(self).layout
                },
                ..old(self)@
            }),
    {
        if self.needs_login || self.needs_verify {
            self.action_ready = true;
        }
        if self.layout.size != size {
            self.layout = Layout::new(size, &self.stage);
        }
    }

    /// Hands out the exchange that is ready to run (see `login_tick`).
    pub fn tick(&mut self) -> (task: LoginTask)
        ensures
            (final(self)@, task) == login_tick(old(self)@),
            login_wf(old(self)@) ==> login_wf(final(self)@),
    {
        if self.action_ready {
            if self.needs_login {
                self.needs_login = false;
                self.action_ready = false;
                return LoginTask::SubmitCredentials;
            } else if self.needs_verify {
                self.needs_verify = false;
                self.action_ready = false;
                return LoginTask::SubmitSmsCode;
            }
        }
        LoginTask::Idle
    }

    /// Takes the result of the login exchange (see `login_finished`).
    pub fn finish_login(&mut self, result: Result<(Option<String>, String), String>) -> (r: (
        PageAction,
        Option<String>,
    ))
        requires
            login_wf(old(self)@),
        ensures
            (final(self)@, r.0, opt_view(r.1)) == login_finished(
                old(self)@,
                match result {
                    Ok((c, t)) => Ok((opt_view(c), t@)),
                    Err(e) => Err(e@),
                },
            ),
            login_wf(final(self)@),
    {
        match result {
            Ok((Some(cookie), _)) => {
                self.is_loading = false;
                (PageAction::Navigate(Route::Dashboard), Some(cookie))
            },
            Ok((None, csrf_token)) => {
                self.csrf_token = csrf_token;
                self.stage = Stage::Sms;
                self.focus = Focus::SmsCode;
                self.is_loading = false;
                (PageAction::NoAction, None)
            },
            Err(e) => {
                self.error = Some(e);
                self.is_loading = false;
                (PageAction::NoAction, None)
            },
        }
    }

    /// Takes the result of the SMS exchange (see `verify_finished`).
    pub fn finish_verify(&mut self, result: Result<String, String>) -> (r: (PageAction, Option<String>))
        requires
            login_wf(old(self)@),
        ensures
            (final(self)@, r.0, opt_view(r.1)) == verify_finished(
                old(self)@,
                match result {
                    Ok(c) => Ok(c@),
                    Err(e) => Err(e@),
                },
            ),
            login_wf(final(self)@),
    {
        match result {
            Ok(cookie) => {
                self.is_loading = false;
                (PageAction::Navigate(Route::Dashboard), Some(cookie))
            },
            Err(_) => {
                self.error = Some(String::from_str("SMS code error"));
                self.is_loading = false;
                (PageAction::NoAction, None)
            },
        }
    }

    /// The password as one `*` per byte of its UTF-8 text.
    pub fn password_mask(&self) -> (r: String)
        ensures
            r@ == Seq::new((vstd::utf8::encode_utf8(self.password@).len() as usize) as nat, |i: int| '*'),
    {
        let n = self.password.as_str().len();
        let mut v: Vec<char> = Vec::new();
        for i in 0..n
            invariant
                v@ == Seq::new(i as nat, |j: int| '*'),
        {
            v.push('*');
            assert(v@ =~= Seq::new((i + 1) as nat, |j: int| '*'));
        }
        string_of(&v)
    }

    /// The label of the form's button.
    pub fn button_text(&self) -> (r: &'static str)
        ensures
            r@ == match (self.stage, self.is_loading) {
                (Stage::Creds, true) => "   Giriş Yapılıyor...   "@,
                (Stage::Creds, false) => "   Giriş Yap   "@,
                (Stage::Sms, true) => "   Doğrulanıyor...   "@,
                (Stage::Sms, false) => "   Doğrula   "@,
            },
    {
        match self.stage {
            Stage::Creds => if self.is_loading {
                "   Giriş Yapılıyor...   "
            } else {
                "   Giriş Yap   "
            },
            Stage::Sms => if self.is_loading {
                "   Doğrulanıyor...   "
            } else {
                "   Doğrula   "
            },
        }
    }
}

} // verus!
