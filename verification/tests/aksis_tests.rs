use iuc_bot::client::aksis::{
    cookie_value, get_csrf, login_cookie, login_form, login_outcome, sms_form, sms_outcome, AksisError, Cache,
};

const LOGIN_PAGE: &str = r#"<html><body><form action="/Account/LogOn">
<input name="__RequestVerificationToken" type="hidden" value="tok123" />
<input name="UserName" /></form></body></html>"#;

#[test]
fn csrf_token_is_read_from_the_page() {
    assert_eq!(get_csrf(LOGIN_PAGE).unwrap(), "tok123");
}

#[test]
fn csrf_takes_the_first_token() {
    let page = r#"<input name="__RequestVerificationToken" value="one"><input name="__RequestVerificationToken" value="two">"#;
    assert_eq!(get_csrf(page).unwrap(), "one");
}

#[test]
fn csrf_missing_is_an_error() {
    let err = get_csrf("<html><body><p>no form</p></body></html>").unwrap_err();
    assert!(matches!(err, AksisError::CsrfNotFound));
    assert_eq!(err.message(), "CSRF token bulunamadı");
}

#[test]
fn csrf_without_value_is_an_error() {
    let err = get_csrf(r#"<input name="__RequestVerificationToken">"#).unwrap_err();
    assert!(matches!(err, AksisError::CsrfNotFound));
}

#[test]
fn cookie_value_takes_first_matching_piece() {
    let header = "AspxAutoDetectCookieSupport=1; .OGRISFormAuth=ABC123; AKSISAutKH=zz";
    assert_eq!(cookie_value(header, ".OGRISFormAuth=").as_deref(), Some("ABC123"));
    assert_eq!(cookie_value(header, "AKSISAutKH=").as_deref(), Some("zz"));
    assert_eq!(cookie_value(header, "missing="), None);
    assert_eq!(cookie_value("", "AKSISAutKH="), None);
}

#[test]
fn cookie_value_strips_repeated_names() {
    assert_eq!(cookie_value("a=1; k=k=v", "k=").as_deref(), Some("v"));
    assert_eq!(cookie_value("k=; k=2", "k=").as_deref(), Some(""));
}

#[test]
fn login_cookie_depends_on_saved_session() {
    let mut cache = Cache::default();
    assert_eq!(login_cookie(&cache), "AspxAutoDetectCookieSupport=1");
    cache.aksis_cookie = Some("S1".to_string());
    assert_eq!(login_cookie(&cache), "AKSISAutKH=S1");
}

#[test]
fn login_and_sms_forms() {
    let f = login_form("u", "p", "t");
    assert_eq!(
        f,
        vec![
            ("UserName".to_string(), "u".to_string()),
            ("Password".to_string(), "p".to_string()),
            ("__RequestVerificationToken".to_string(), "t".to_string())
        ]
    );
    let s = sms_form("123456", "t");
    assert_eq!(
        s,
        vec![
            ("smsCode".to_string(), "123456".to_string()),
            ("remember2fa".to_string(), "true".to_string()),
            ("__RequestVerificationToken".to_string(), "t".to_string())
        ]
    );
}

#[test]
fn login_with_wrong_credentials_fails() {
    let page = format!("{}<div>Kullanıcı Adı veya Şifre Hatalı</div>", LOGIN_PAGE);
    let err = login_outcome(&page, Some(".OGRISFormAuth=x")).unwrap_err();
    assert!(matches!(err, AksisError::LoginFailed));
    assert_eq!(err.message(), "Login failed. Try again");
}

#[test]
fn login_reads_token_before_failure_text() {
    let err = login_outcome("Kullanıcı Adı veya Şifre Hatalı", None).unwrap_err();
    assert!(matches!(err, AksisError::CsrfNotFound));
}

#[test]
fn login_with_session_cookie() {
    let (cookie, token) = login_outcome(LOGIN_PAGE, Some("x=1; .OGRISFormAuth=SESSION")).unwrap();
    assert_eq!(cookie.as_deref(), Some("SESSION"));
    assert_eq!(token, "tok123");
}

#[test]
fn login_needing_sms_code() {
    let (cookie, token) = login_outcome(LOGIN_PAGE, Some("x=1")).unwrap();
    assert_eq!(cookie, None);
    assert_eq!(token, "tok123");
    let (cookie, _) = login_outcome(LOGIN_PAGE, None).unwrap();
    assert_eq!(cookie, None);
}

#[test]
fn sms_outcomes() {
    let (remember, session) = sms_outcome(Some("AKSISAutKH=R; .OGRISFormAuth=S"));
    assert_eq!(remember.as_deref(), Some("R"));
    assert_eq!(session.unwrap(), "S");
    let (remember, session) = sms_outcome(Some("AKSISAutKH=R"));
    assert_eq!(remember.as_deref(), Some("R"));
    let err = session.unwrap_err();
    assert!(matches!(err, AksisError::SmsVerificationFailed));
    assert_eq!(err.message(), "SMS verification failed.");
    let (remember, session) = sms_outcome(None);
    assert_eq!(remember, None);
    assert!(session.is_err());
}

#[test]
fn cache_remembers_credentials() {
    let mut cache = Cache::default();
    assert!(cache.username.is_none() && cache.password.is_none() && cache.aksis_cookie.is_none());
    cache.aksis_cookie = Some("k".to_string());
    cache.remember("ali", "pw");
    assert_eq!(cache.username.as_deref(), Some("ali"));
    assert_eq!(cache.password.as_deref(), Some("pw"));
    assert_eq!(cache.aksis_cookie.as_deref(), Some("k"));
}

#[test]
fn selector_error_message_text() {
    let e = AksisError::SelectorInvalid("bad".to_string());
    assert_eq!(e.message(), "RequestVerificationToken bulunamadı: bad");
}
