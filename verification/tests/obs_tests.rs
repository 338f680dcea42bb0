use iuc_bot::client::obs::{
    check_ders_alma_reply, exam_results_form, kaydet_form, kaydet_outcome, kisi_id_exec, mark_selected,
    obs_auth_cookie, ozluk_form, parse_ozluk_page, AlinabilecekDers, KaydetResponse, ObsError,
};

fn ders(grup: Option<&str>, tipi: &str, selected: &str) -> AlinabilecekDers {
    AlinabilecekDers {
        DersGrupID: 11,
        DersPlanAnaId: 22,
        DersPlanId: 33,
        SecmeliGrubu: 4,
        Grup: grup.map(|s| s.to_string()),
        IntibakAID: None,
        IntibakBID: Some(7),
        EnumKontenjanTuru: 1,
        YerineAlinanDersID: None,
        SaydirilanDersID: 0,
        Kodu: "MAT101".to_string(),
        DersAdi: "Analiz".to_string(),
        Tipi: tipi.to_string(),
        Selected: selected.to_string(),
        is_selected: false,
    }
}

fn pair(k: &str, v: &str) -> (String, String) {
    (k.to_string(), v.to_string())
}

#[test]
fn registration_form_fields() {
    let ds = vec![ders(Some("Zorunlu"), "Zorunlu", ""), ders(Some("A"), "Seçmeli", "")];
    let f = kaydet_form(&ds);
    assert_eq!(f.len(), 20);
    assert_eq!(
        &f[0..10],
        &[
            pair("parametre[0][DersGrupId]", "11"),
            pair("parametre[0][DersPlanAnaID]", "22"),
            pair("parametre[0][DersPlanID]", "33"),
            pair("parametre[0][DersEtiket]", "4"),
            pair("parametre[0][DersEtiketAdi]", "NaN"),
            pair("parametre[0][IntibaklananAID]", "NaN"),
            pair("parametre[0][IntibaklananBID]", "7"),
            pair("parametre[0][EnumKontenjanTuru]", "1"),
            pair("parametre[0][YerineAlinanDersID]", "NaN"),
            pair("parametre[0][SaydirilanDers]", "0"),
        ]
    );
    assert_eq!(f[14], pair("parametre[1][DersEtiketAdi]", "A"));
    assert_eq!(f[10], pair("parametre[1][DersGrupId]", "11"));
}

#[test]
fn registration_form_ungrouped_label_is_nan() {
    let f = kaydet_form(&[ders(None, "Seçmeli", "")]);
    assert_eq!(f[4], pair("parametre[0][DersEtiketAdi]", "NaN"));
    assert!(kaydet_form(&[]).is_empty());
}

#[test]
fn registration_reply_outcome() {
    let ok = KaydetResponse { MessageType: "success".to_string(), MessageText: "Kaydedildi".to_string() };
    assert_eq!(kaydet_outcome(&ok), Ok("Kaydedildi".to_string()));
    let bad = KaydetResponse { MessageType: "error".to_string(), MessageText: "Kontenjan dolu".to_string() };
    assert_eq!(kaydet_outcome(&bad), Err("Kontenjan dolu".to_string()));
}

#[test]
fn closed_registration_is_detected() {
    let err = check_ders_alma_reply("{\"Hata\":\"HataTakvim\"}").unwrap_err();
    assert!(matches!(err, ObsError::OutOfSchedule));
    assert_eq!(err.message(), "Ders Alma Takvimi Dışındasınız");
    assert!(check_ders_alma_reply("{\"Data\":[]}").is_ok());
}

#[test]
fn selection_is_read_from_checkbox() {
    let mut v = vec![ders(None, "Seçmeli", "<input checked='checked'>"), ders(None, "Seçmeli", "<input>")];
    v[1].is_selected = true;
    mark_selected(&mut v);
    assert!(v[0].is_selected);
    assert!(!v[1].is_selected);
}

#[test]
fn request_forms() {
    assert_eq!(
        exam_results_form("2025", "1"),
        vec![pair("group", "DersAdi-asc"), pair("yil", "2025"), pair("donem", "1")]
    );
    assert_eq!(
        ozluk_form("42"),
        vec![pair("sort", ""), pair("group", ""), pair("filter", ""), pair("kisiId", "42")]
    );
    assert_eq!(obs_auth_cookie("abc"), ".OGRISFormAuth=abc");
}

const PROFILE: &str = r#"<html><body>
<div class="form-group"><label> Adı: </label><span class="info-input"> Ali </span></div>
<div class="form-group"><label>Soyadı:</label><span class="info-input">Veli</span></div>
<div class="form-group"><label>Kimlik Numarası:</label><span class="info-input">12345678901</span></div>
<div class="form-group"><label>Bölüm:</label><span class="info-input">Fizik</span></div>
<img src="logo.png"><img src="data:image/png;base64,AAAA">
<script>var x = { kisiId: '42', y: 1 };</script>
</body></html>"#;

#[test]
fn profile_page_is_read() {
    let p = parse_ozluk_page(PROFILE).unwrap();
    assert_eq!(p.ad, "Ali");
    assert_eq!(p.soyad, "Veli");
    assert_eq!(p.tc_kimlik, "12345678901");
    assert_eq!(p.resim_base64, "data:image/png;base64,AAAA");
    assert_eq!(p.kisi_id, "42");
}

#[test]
fn profile_without_id_is_an_error() {
    let err = parse_ozluk_page("<div class='form-group'></div>").unwrap_err();
    assert!(matches!(err, ObsError::KisiIdNotFound));
    assert_eq!(err.message(), "kisiId bulunamadı");
}

#[test]
fn profile_fields_missing_are_empty() {
    let p = parse_ozluk_page("<script>kisiId: ''</script>").unwrap();
    assert_eq!(p.ad, "");
    assert_eq!(p.resim_base64, "");
    assert_eq!(p.kisi_id, "");
}

#[test]
fn kisi_id_follows_split_semantics() {
    assert_eq!(kisi_id_exec("kisiId: 'abckisiId: 'x'").as_deref(), Some("abc"));
    assert_eq!(kisi_id_exec("x kisiId: '77'").as_deref(), Some("77"));
    assert_eq!(kisi_id_exec("kisiId: 'open").as_deref(), Some("open"));
    assert_eq!(kisi_id_exec("kisiId: \"9\""), None);
}

#[test]
fn contact_request_only_for_a_named_person() {
    let page = iuc_bot::client::obs::OzlukPage {
        ad: "Ali".to_string(),
        soyad: "Veli".to_string(),
        tc_kimlik: "1".to_string(),
        resim_base64: String::new(),
        kisi_id: String::new(),
    };
    assert!(iuc_bot::client::obs::contact_request(&page).is_none());
    let named = iuc_bot::client::obs::OzlukPage { kisi_id: "42".to_string(), ..page };
    let form = iuc_bot::client::obs::contact_request(&named).unwrap();
    assert_eq!(form.last(), Some(&("kisiId".to_string(), "42".to_string())));
    assert_eq!(form.len(), 4);
}
