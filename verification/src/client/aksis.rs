//! The single sign-on service: the saved login data, and the logic of the
//! login and SMS verification exchanges.
use vstd::prelude::*;
use crate::client::html::{css_first_attr, css_selector_error, first_attr, selector_error};
use crate::text::{
    chars_of, concat, first_piece_value, first_with_prefix, opt_view, pairs_view, seq_contains,
    split, str_contains, string_of, trim_start_matches,
};

verus! {

/// The login data kept between runs.
#[derive(Debug, Clone)]
pub struct Cache {
    pub username: Option<String>,
    pub password: Option<String>,
    pub aksis_cookie: Option<String>,
}

impl Cache {
    /// Nothing saved.
    pub fn empty() -> (c: Cache)
        ensures
            c.username is None,
            c.password is None,
            c.aksis_cookie is None,
    {
        Cache { username: None, password: None, aksis_cookie: None }
    }
}

impl Default for Cache {
    fn default() -> (c: Cache)
        ensures
            c.username is None,
            c.password is None,
            c.aksis_cookie is None,
    {
        Cache::empty()
    }
}

impl Cache {
    /// Remembers the credentials of a successful login.
    pub fn remember(&mut self, username: &str, password: &str)
        ensures
            opt_view(final(self).username) == Some(username@),
            opt_view(final(self).password) == Some(password@),
            final(self).aksis_cookie == old(self).aksis_cookie,
    {
        self.username = Some(String::from_str(username));
        self.password = Some(String::from_str(password));
    }
}

/// Why an exchange with the sign-on service failed.
#[derive(Debug, Clone)]
pub enum AksisError {
    /// The token selector did not parse; the parser's message.
    SelectorInvalid(String),
    /// The page has no anti-forgery token.
    CsrfNotFound,
    /// The service rejected the user name or password.
    LoginFailed,
    /// The SMS code was not accepted.
    SmsVerificationFailed,
}

/// The text shown for an error.
pub open spec fn aksis_error_message(e: AksisError) -> Seq<char> {
    match e {
        AksisError::SelectorInvalid(m) => "RequestVerificationToken bulunamadı: "@ + m@,
        AksisError::CsrfNotFound => "CSRF token bulunamadı"@,
        AksisError::LoginFailed => "Login failed. Try again"@,
        AksisError::SmsVerificationFailed => "SMS verification failed."@,
    }
}

impl AksisError {
    /// The text shown for the error.
    pub fn message(&self) -> (r: String)
        ensures
            r@ == aksis_error_message(*self),
    {
        match self {
            AksisError::SelectorInvalid(m) => concat("RequestVerificationToken bulunamadı: ", m.as_str()),
            AksisError::CsrfNotFound => String::from_str("CSRF token bulunamadı"),
            AksisError::LoginFailed => String::from_str("Login failed. Try again"),
            AksisError::SmsVerificationFailed => String::from_str("SMS verification failed."),
        }
    }
}

/// The selector of the anti-forgery token input.
pub open spec fn csrf_selector() -> Seq<char> {
    "input[name=\"__RequestVerificationToken\"]"@
}

/// `r` is the anti-forgery token of the page `html`: the `value` of its
/// first `__RequestVerificationToken` input; an error when the selector
/// does not parse or the page has no such input.
pub open spec fn is_csrf_of(html: Seq<char>, r: Result<String, AksisError>) -> bool {
    match (css_selector_error(csrf_selector()), css_first_attr(html, csrf_selector(), "value"@)) {
        (Some(m), _) => r matches Err(AksisError::SelectorInvalid(e)) && e@ == m,
        (None, None) => r matches Err(AksisError::CsrfNotFound),
        (None, Some(t)) => r matches Ok(v) && v@ == t,
    }
}

/// Reads the anti-forgery token of a page.
pub fn get_csrf(html: &str) -> (r: Result<String, AksisError>)
    ensures
        is_csrf_of(html@, r),
{
    let selector = "input[name=\"__RequestVerificationToken\"]";
    match selector_error(selector) {
        Some(m) => Err(AksisError::SelectorInvalid(m)),
        None => match first_attr(html, selector, "value") {
            Some(t) => Ok(t),
            None => Err(AksisError::CsrfNotFound),
        },
    }
}

/// The value of the cookie `name` in a `Cookie` header: the first
/// `"; "`-separated piece that starts with `name`, with the name (every
/// leading repetition of it) removed.
pub open spec fn cookie_value_of(header: Seq<char>, name: Seq<char>) -> Option<Seq<char>> {
    match first_with_prefix(split(header, "; "@), name) {
        Some(piece) => Some(trim_start_matches(piece, name)),
        None => None,
    }
}

/// Reads the cookie `name` from a `Cookie` header.
pub fn cookie_value(header: &str, name: &str) -> (r: Option<String>)
    ensures
        opt_view(r) == cookie_value_of(header@, name@),
{
    let h = chars_of(header);
    let sep = chars_of("; ");
    let n = chars_of(name);
    proof {
        reveal_strlit("; ");
    }
    match first_piece_value(&h, &sep, &n) {
        Some(v) => Some(string_of(&v)),
        None => None,
    }
}

/// The cookie sent with the login form: the remembered SMS session, or
/// the cookie-support probe.
pub fn login_cookie(cache: &Cache) -> (r: String)
    ensures
        r@ == match cache.aksis_cookie {
            Some(c) => "AKSISAutKH="@ + c@,
            None => "AspxAutoDetectCookieSupport=1"@,
        },
{
    match &cache.aksis_cookie {
        Some(c) => concat("AKSISAutKH=", c.as_str()),
        None => String::from_str("AspxAutoDetectCookieSupport=1"),
    }
}

/// The login form.
pub fn login_form(username: &str, password: &str, csrf_token: &str) -> (r: Vec<(String, String)>)
    ensures
        pairs_view(r@) == seq![
            ("UserName"@, username@),
            ("Password"@, password@),
            ("__RequestVerificationToken"@, csrf_token@),
        ],
{
    let mut r: Vec<(String, String)> = Vec::new();
    r.push((String::from_str("UserName"), String::from_str(username)));
    r.push((String::from_str("Password"), String::from_str(password)));
    r.push((String::from_str("__RequestVerificationToken"), String::from_str(csrf_token)));
    assert(pairs_view(r@) =~= seq![
        ("UserName"@, username@),
        ("Password"@, password@),
        ("__RequestVerificationToken"@, csrf_token@),
    ]);
    r
}

/// The service's reply to wrong credentials.
pub open spec fn wrong_credentials_text() -> Seq<char> {
    "Kullanıcı Adı veya Şifre Hatalı"@
}

/// Reads the reply to the login form, given the cookies set for the
/// service afterwards: the reply page's token is read first; a page that
/// reports wrong credentials is a failure; otherwise the session cookie
/// (if the service set it already: else an SMS code is needed) and the
/// token.
pub fn login_outcome(text: &str, cookie_header: Option<&str>) -> (r: Result<(Option<String>, String), AksisError>)
    ensures
        match (css_selector_error(csrf_selector()), css_first_attr(text@, csrf_selector(), "value"@)) {
            (Some(m), _) => r matches Err(AksisError::SelectorInvalid(e)) && e@ == m,
            (None, None) => r matches Err(AksisError::CsrfNotFound),
            (None, Some(token)) => if seq_contains(text@, wrong_credentials_text()) {
                r matches Err(AksisError::LoginFailed)
            } else {
                r matches Ok((c, t)) && t@ == token && opt_view(c) == match cookie_header {
                    Some(h) => cookie_value_of(h@, ".OGRISFormAuth="@),
                    None => None,
                }
            },
        },
{
    let token = match get_csrf(text) {
        Ok(t) => t,
        Err(e) => {
            return Err(e);
        },
    };
    if str_contains(text, "Kullanıcı Adı veya Şifre Hatalı") {
        return Err(AksisError::LoginFailed);
    }
    let cookie = match cookie_header {
        Some(h) => cookie_value(h, ".OGRISFormAuth="),
        None => None,
    };
    Ok((cookie, token))
}

/// The SMS verification form.
pub fn sms_form(sms_code: &str, csrf_token: &str) -> (r: Vec<(String, String)>)
    ensures
        pairs_view(r@) == seq![
            ("smsCode"@, sms_code@),
            ("remember2fa"@, "true"@),
            ("__RequestVerificationToken"@, csrf_token@),
        ],
{
    let mut r: Vec<(String, String)> = Vec::new();
    r.push((String::from_str("smsCode"), String::from_str(sms_code)));
    r.push((String::from_str("remember2fa"), String::from_str("true")));
    r.push((String::from_str("__RequestVerificationToken"), String::from_str(csrf_token)));
    assert(pairs_view(r@) =~= seq![
        ("smsCode"@, sms_code@),
        ("remember2fa"@, "true"@),
        ("__RequestVerificationToken"@, csrf_token@),
    ]);
    r
}

/// Reads the cookies set after the SMS form: the SMS session to remember,
/// if set, and the session cookie, whose absence means the code was not
/// accepted.
pub fn sms_outcome(cookie_header: Option<&str>) -> (r: (Option<String>, Result<String, AksisError>))
    ensures
        opt_view(r.0) == match cookie_header {
            Some(h) => cookie_value_of(h@, "AKSISAutKH="@),
            None => None,
        },
        match cookie_header {
            Some(h) => match cookie_value_of(h@, ".OGRISFormAuth="@) {
                Some(v) => r.1 matches Ok(c) && c@ == v,
                None => r.1 matches Err(AksisError::SmsVerificationFailed),
            },
            None => r.1 matches Err(AksisError::SmsVerificationFailed),
        },
{
    match cookie_header {
        Some(h) => {
            let remembered = cookie_value(h, "AKSISAutKH=");
            let session = match cookie_value(h, ".OGRISFormAuth=") {
                Some(v) => Ok(v),
                None => Err(AksisError::SmsVerificationFailed),
            };
            (remembered, session)
        },
        None => (None, Err(AksisError::SmsVerificationFailed)),
    }
}

} // verus!
