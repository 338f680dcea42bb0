//! The student information system's data, and the logic around its
//! requests and replies: form payloads, reply checks and page scraping.
use vstd::prelude::*;
use crate::client::html::{
    css_first_attr, css_group_texts, css_selector_error, first_attr, group_texts, selector_error,
};
use crate::text::{
    chars_of, concat, dec_chars, find_from, find_from_exec, occurs_at, opt_view, pairs_view,
    seq_contains, split, split_from, str_contains, str_eq, str_trim, string_of, subrange_of, trim_ws,
    u64_to_string, lemma_find_from,
};

verus! {

/// One graded item (midterm, final, letter grade...) of a course.
#[derive(Debug, Clone)]
pub struct Exam {
    pub name: String,
    pub grade: String,
    pub weight: String,
    pub date: String,
}

/// A course with its graded items.
#[derive(Debug, Clone)]
pub struct Course {
    pub name: String,
    pub exams: Vec<Exam>,
    pub grade_scale: Option<String>,
}

/// The reply listing a term's exam results.
#[derive(Debug, Clone)]
pub struct ExamResults {
    pub data: Vec<Course>,
}

/// A course that can be registered for.
#[derive(Debug, Clone)]
#[allow(non_snake_case)]
pub struct AlinabilecekDers {
    pub DersGrupID: u64,
    pub DersPlanAnaId: u64,
    pub DersPlanId: u64,
    pub SecmeliGrubu: u64,
    pub Grup: Option<String>,
    pub IntibakAID: Option<u64>,
    pub IntibakBID: Option<u64>,
    pub EnumKontenjanTuru: u64,
    pub YerineAlinanDersID: Option<u64>,
    pub SaydirilanDersID: u64,
    pub Kodu: String,
    pub DersAdi: String,
    pub Tipi: String,
    pub Selected: String,
    pub is_selected: bool,
}

/// The reply listing the courses that can be registered for.
#[derive(Debug, Clone)]
pub struct AlinabilecekDerslerResponse {
    pub data: Vec<AlinabilecekDers>,
}

/// The reply to a registration request.
#[derive(Debug, Clone)]
#[allow(non_snake_case)]
pub struct KaydetResponse {
    pub MessageType: String,
    pub MessageText: String,
}

/// One contact entry (phone number or e-mail address).
#[derive(Debug, Clone)]
#[allow(non_snake_case)]
pub struct IletisimBilgisi {
    pub IletisimTipi: String,
    pub Telefon_Mail: String,
    pub DogrulandimiStr: Option<String>,
    pub TercihEdilenMi: Option<bool>,
}

/// One postal address.
#[derive(Debug, Clone)]
#[allow(non_snake_case)]
pub struct AdresBilgisi {
    pub AdresTipi: String,
    pub Adres: String,
    pub ilce: Option<String>,
    pub il: Option<String>,
}

/// A student's personal record.
#[derive(Debug, Clone)]
pub struct OzlukBilgileriData {
    pub ad: String,
    pub soyad: String,
    pub tc_kimlik: String,
    pub resim_base64: String,
    pub iletisim: Vec<IletisimBilgisi>,
    pub adresler: Vec<AdresBilgisi>,
}

/// A copy of an optional string.
pub fn copy_opt_string(s: &Option<String>) -> (r: Option<String>)
    ensures
        r == *s,
{
    match s {
        Some(v) => Some(v.clone()),
        None => None,
    }
}

impl AlinabilecekDers {
    /// A field-by-field copy.
    pub fn duplicate(&self) -> (r: Self)
        ensures
            r == *self,
    {
        AlinabilecekDers {
            DersGrupID: self.DersGrupID,
            DersPlanAnaId: self.DersPlanAnaId,
            DersPlanId: self.DersPlanId,
            SecmeliGrubu: self.SecmeliGrubu,
            Grup: copy_opt_string(&self.Grup),
            IntibakAID: self.IntibakAID,
            IntibakBID: self.IntibakBID,
            EnumKontenjanTuru: self.EnumKontenjanTuru,
            YerineAlinanDersID: self.YerineAlinanDersID,
            SaydirilanDersID: self.SaydirilanDersID,
            Kodu: self.Kodu.clone(),
            DersAdi: self.DersAdi.clone(),
            Tipi: self.Tipi.clone(),
            Selected: self.Selected.clone(),
            is_selected: self.is_selected,
        }
    }
}

/// Why a request to the information system failed.
#[derive(Debug, Clone)]
pub enum ObsError {
    /// Registration is closed at this time.
    OutOfSchedule,
    /// The profile page does not name the person's id.
    KisiIdNotFound,
    /// A page selector did not parse; the parser's message.
    SelectorInvalid(String),
}

/// The text shown for an error.
pub open spec fn obs_error_message(e: ObsError) -> Seq<char> {
    match e {
        ObsError::OutOfSchedule => "Ders Alma Takvimi Dışındasınız"@,
        ObsError::KisiIdNotFound => "kisiId bulunamadı"@,
        ObsError::SelectorInvalid(m) => m@,
    }
}

impl ObsError {
    /// The text shown for the error.
    pub fn message(&self) -> (r: String)
        ensures
            r@ == obs_error_message(*self),
    {
        match self {
            ObsError::OutOfSchedule => String::from_str("Ders Alma Takvimi Dışındasınız"),
            ObsError::KisiIdNotFound => String::from_str("kisiId bulunamadı"),
            ObsError::SelectorInvalid(m) => m.clone(),
        }
    }
}

/// The session cookie for the information system.
pub fn obs_auth_cookie(auth_cookie: &str) -> (r: String)
    ensures
        r@ == ".OGRISFormAuth="@ + auth_cookie@,
{
    concat(".OGRISFormAuth=", auth_cookie)
}

/// The form asking for a term's exam results, grouped by course name.
pub fn exam_results_form(year: &str, term: &str) -> (r: Vec<(String, String)>)
    ensures
        pairs_view(r@) == seq![("group"@, "DersAdi-asc"@), ("yil"@, year@), ("donem"@, term@)],
{
    let mut r: Vec<(String, String)> = Vec::new();
    r.push((String::from_str("group"), String::from_str("DersAdi-asc")));
    r.push((String::from_str("yil"), String::from_str(year)));
    r.push((String::from_str("donem"), String::from_str(term)));
    assert(pairs_view(r@) =~= seq![("group"@, "DersAdi-asc"@), ("yil"@, year@), ("donem"@, term@)]);
    r
}

/// Checks the reply listing the courses that can be registered for: a
/// reply mentioning `HataTakvim` means registration is closed.
pub fn check_ders_alma_reply(text: &str) -> (r: Result<(), ObsError>)
    ensures
        seq_contains(text@, "HataTakvim"@) ==> r matches Err(ObsError::OutOfSchedule),
        !seq_contains(text@, "HataTakvim"@) ==> r is Ok,
{
    if str_contains(text, "HataTakvim") {
        Err(ObsError::OutOfSchedule)
    } else {
        Ok(())
    }
}

/// The course as listed, with its selection read from its checkbox markup.
pub open spec fn with_checkbox_read(c: AlinabilecekDers) -> AlinabilecekDers {
    AlinabilecekDers { is_selected: seq_contains(c.Selected@, "checked"@), ..c }
}

/// Reads each course's selection from its checkbox markup.
pub fn mark_selected(courses: &mut Vec<AlinabilecekDers>)
    ensures
        final(courses)@ == old(courses)@.map_values(|c: AlinabilecekDers| with_checkbox_read(c)),
{
    let ghost orig = courses@;
    let n = courses.len();
    let mut i: usize = 0;
    while i < n
        invariant
            n == orig.len(),
            courses@.len() == n,
            i <= n,
            forall|j: int| 0 <= j < i ==> courses@[j] == with_checkbox_read(orig[j]),
            forall|j: int| i <= j < n ==> courses@[j] == orig[j],
        decreases n - i,
    {
        let mut c = courses.remove(i);
        c.is_selected = str_contains(c.Selected.as_str(), "checked");
        courses.insert(i, c);
        i += 1;
    }
    assert(courses@ =~= orig.map_values(|c: AlinabilecekDers| with_checkbox_read(c)));
}

/// The text of an optional id: its decimal notation, or `NaN`.
pub open spec fn opt_id_text(v: Option<u64>) -> Seq<char> {
    match v {
        Some(x) => dec_chars(x as nat),
        None => "NaN"@,
    }
}

/// The label of a course's elective group: `NaN` for compulsory or
/// ungrouped courses.
pub open spec fn group_label_text(g: Option<String>) -> Seq<char> {
    match g {
        Some(s) => if s@ == "Zorunlu"@ {
            "NaN"@
        } else {
            s@
        },
        None => "NaN"@,
    }
}

/// The form key `parametre[i][field]`.
pub open spec fn param_key(i: nat, field: Seq<char>) -> Seq<char> {
    "parametre["@ + dec_chars(i) + "]["@ + field + "]"@
}

/// The ten form fields of the course at position `i`.
pub open spec fn course_fields(i: nat, d: AlinabilecekDers) -> Seq<(Seq<char>, Seq<char>)> {
    seq![
        (param_key(i, "DersGrupId"@), dec_chars(d.DersGrupID as nat)),
        (param_key(i, "DersPlanAnaID"@), dec_chars(d.DersPlanAnaId as nat)),
        (param_key(i, "DersPlanID"@), dec_chars(d.DersPlanId as nat)),
        (param_key(i, "DersEtiket"@), dec_chars(d.SecmeliGrubu as nat)),
        (param_key(i, "DersEtiketAdi"@), group_label_text(d.Grup)),
        (param_key(i, "IntibaklananAID"@), opt_id_text(d.IntibakAID)),
        (param_key(i, "IntibaklananBID"@), opt_id_text(d.IntibakBID)),
        (param_key(i, "EnumKontenjanTuru"@), dec_chars(d.EnumKontenjanTuru as nat)),
        (param_key(i, "YerineAlinanDersID"@), opt_id_text(d.YerineAlinanDersID)),
        (param_key(i, "SaydirilanDers"@), dec_chars(d.SaydirilanDersID as nat)),
    ]
}

/// The registration form for `ds`: the fields of each course in order.
pub open spec fn kaydet_fields(ds: Seq<AlinabilecekDers>) -> Seq<(Seq<char>, Seq<char>)>
    decreases ds.len(),
{
    if ds.len() == 0 {
        seq![]
    } else {
        kaydet_fields(ds.drop_last()) + course_fields((ds.len() - 1) as nat, ds.last())
    }
}

fn param_key_exec(i: usize, field: &str) -> (r: String)
    ensures
        r@ == param_key(i as nat, field@),
{
    let n = u64_to_string(i as u64);
    let s = concat("parametre[", n.as_str());
    let s = concat(s.as_str(), "][");
    let s = concat(s.as_str(), field);
    concat(s.as_str(), "]")
}

fn opt_id_exec(v: Option<u64>) -> (r: String)
    ensures
        r@ == opt_id_text(v),
{
    match v {
        Some(x) => u64_to_string(x),
        None => String::from_str("NaN"),
    }
}

/// The registration form for the chosen courses.
pub fn kaydet_form(dersler: &[AlinabilecekDers]) -> (r: Vec<(String, String)>)
    ensures
        pairs_view(r@) == kaydet_fields(dersler@),
{
    let mut r: Vec<(String, String)> = Vec::new();
    let n = dersler.len();
    let mut i: usize = 0;
    while i < n
        invariant
            n == dersler@.len(),
            i <= n,
            pairs_view(r@) == kaydet_fields(dersler@.take(i as int)),
        decreases n - i,
    {
        let ders = &dersler[i];
        let ghost before = pairs_view(r@);
        r.push((param_key_exec(i, "DersGrupId"), u64_to_string(ders.DersGrupID)));
        r.push((param_key_exec(i, "DersPlanAnaID"), u64_to_string(ders.DersPlanAnaId)));
        r.push((param_key_exec(i, "DersPlanID"), u64_to_string(ders.DersPlanId)));
        r.push((param_key_exec(i, "DersEtiket"), u64_to_string(ders.SecmeliGrubu)));
        let etiket_adi = match &ders.Grup {
            Some(s) => if str_eq(s.as_str(), "Zorunlu") {
                String::from_str("NaN")
            } else {
                s.clone()
            },
            None => String::from_str("NaN"),
        };
        r.push((param_key_exec(i, "DersEtiketAdi"), etiket_adi));
        r.push((param_key_exec(i, "IntibaklananAID"), opt_id_exec(ders.IntibakAID)));
        r.push((param_key_exec(i, "IntibaklananBID"), opt_id_exec(ders.IntibakBID)));
        r.push((param_key_exec(i, "EnumKontenjanTuru"), u64_to_string(ders.EnumKontenjanTuru)));
        r.push((param_key_exec(i, "YerineAlinanDersID"), opt_id_exec(ders.YerineAlinanDersID)));
        r.push((param_key_exec(i, "SaydirilanDers"), u64_to_string(ders.SaydirilanDersID)));
        proof {
            assert(dersler@.take(i + 1).drop_last() =~= dersler@.take(i as int));
            assert(dersler@.take(i + 1).last() == dersler@[i as int]);
            assert(pairs_view(r@) =~= before + course_fields(i as nat, dersler@[i as int]));
        }
        i += 1;
    }
    assert(dersler@.take(n as int) =~= dersler@);
    r
}

/// The outcome of a registration reply: its message, as a success when
/// the message type is `success`, else as a failure.
pub fn kaydet_outcome(reply: &KaydetResponse) -> (r: Result<String, String>)
    ensures
        reply.MessageType@ == "success"@ ==> (r matches Ok(m) && m@ == reply.MessageText@),
        reply.MessageType@ != "success"@ ==> (r matches Err(m) && m@ == reply.MessageText@),
{
    if str_eq(reply.MessageType.as_str(), "success") {
        Ok(reply.MessageText.clone())
    } else {
        Err(reply.MessageText.clone())
    }
}

/// What the profile page shows directly.
#[derive(Debug, Clone)]
pub struct OzlukPage {
    pub ad: String,
    pub soyad: String,
    pub tc_kimlik: String,
    pub resim_base64: String,
    pub kisi_id: String,
}

/// The value shown beside the label `label` on the profile page: the
/// trimmed text of the last form group whose trimmed label is `label` and
/// that has a value; empty when there is none.
pub open spec fn labelled_value(groups: Seq<(Option<Seq<char>>, Option<Seq<char>>)>, label: Seq<char>) -> Seq<char>
    decreases groups.len(),
{
    if groups.len() == 0 {
        seq![]
    } else {
        match groups.last() {
            (Some(l), Some(v)) => if trim_ws(l) == label {
                trim_ws(v)
            } else {
                labelled_value(groups.drop_last(), label)
            },
            _ => labelled_value(groups.drop_last(), label),
        }
    }
}

/// The person's id on the profile page: the second piece of the page split
/// at `kisiId: '`, up to its first quote.
pub open spec fn kisi_id_of(html: Seq<char>) -> Option<Seq<char>> {
    let pieces = split(html, "kisiId: '"@);
    if pieces.len() >= 2 {
        Some(split(pieces[1], "'"@)[0])
    } else {
        None
    }
}

/// The selectors of the profile page.
pub open spec fn profile_selectors_parse() -> bool {
    &&& css_selector_error(".form-group"@) is None
    &&& css_selector_error("label"@) is None
    &&& css_selector_error("span.info-input"@) is None
    &&& css_selector_error("img[src^='data:image']"@) is None
}

/// The first selector of the profile page that does not parse, in the
/// order they are used.
pub open spec fn first_selector_error() -> Option<Seq<char>> {
    if css_selector_error(".form-group"@) is Some {
        css_selector_error(".form-group"@)
    } else if css_selector_error("label"@) is Some {
        css_selector_error("label"@)
    } else if css_selector_error("span.info-input"@) is Some {
        css_selector_error("span.info-input"@)
    } else {
        css_selector_error("img[src^='data:image']"@)
    }
}

/// Reads the profile page: name, surname and id number from its form
/// groups, the photo from its first inline image, and the person's id
/// from its script.
pub fn parse_ozluk_page(html: &str) -> (r: Result<OzlukPage, ObsError>)
    ensures
        !profile_selectors_parse() ==> (r matches Err(ObsError::SelectorInvalid(m)) && Some(m@)
            == first_selector_error()),
        profile_selectors_parse() ==> match kisi_id_of(html@) {
            None => r matches Err(ObsError::KisiIdNotFound),
            Some(id) => r matches Ok(p) && {
                let groups = css_group_texts(html@, ".form-group"@, "label"@, "span.info-input"@);
                &&& p.ad@ == labelled_value(groups, "Adı:"@)
                &&& p.soyad@ == labelled_value(groups, "Soyadı:"@)
                &&& p.tc_kimlik@ == labelled_value(groups, "Kimlik Numarası:"@)
                &&& p.resim_base64@ == match css_first_attr(html@, "img[src^='data:image']"@, "src"@) {
                    Some(src) => src,
                    None => Seq::<char>::empty(),
                }
                &&& p.kisi_id@ == id
            },
        },
{
    if let Some(m) = selector_error(".form-group") {
        return Err(ObsError::SelectorInvalid(m));
    }
    if let Some(m) = selector_error("label") {
        return Err(ObsError::SelectorInvalid(m));
    }
    if let Some(m) = selector_error("span.info-input") {
        return Err(ObsError::SelectorInvalid(m));
    }
    if let Some(m) = selector_error("img[src^='data:image']") {
        return Err(ObsError::SelectorInvalid(m));
    }
    let groups = group_texts(html, ".form-group", "label", "span.info-input");
    let ghost gv = groups@.map_values(|p: (Option<String>, Option<String>)| (opt_view(p.0), opt_view(p.1)));
    let mut ad = String::new();
    let mut soyad = String::new();
    let mut tc_kimlik = String::new();
    let n = groups.len();
    let mut k: usize = 0;
    while k < n
        invariant
            n == groups@.len(),
            gv == groups@.map_values(|p: (Option<String>, Option<String>)| (opt_view(p.0), opt_view(p.1))),
            k <= n,
            ad@ == labelled_value(gv.take(k as int), "Adı:"@),
            soyad@ == labelled_value(gv.take(k as int), "Soyadı:"@),
            tc_kimlik@ == labelled_value(gv.take(k as int), "Kimlik Numarası:"@),
        decreases n - k,
    {
        proof {
            assert(gv.take(k + 1).drop_last() =~= gv.take(k as int));
            assert(gv.take(k + 1).last() == gv[k as int]);
            reveal_strlit("Adı:");
            reveal_strlit("Soyadı:");
            reveal_strlit("Kimlik Numarası:");
            assert("Adı:"@.len() == 4);
            assert("Soyadı:"@.len() == 7);
            assert("Kimlik Numarası:"@.len() == 16);
            assert("Adı:"@ != "Soyadı:"@);
            assert("Adı:"@ != "Kimlik Numarası:"@);
            assert("Soyadı:"@ != "Kimlik Numarası:"@);
        }
        if let Some(label) = &groups[k].0 {
            let label_text = str_trim(label.as_str());
            if let Some(span) = &groups[k].1 {
                let span_text = str_trim(span.as_str());
                if str_eq(label_text.as_str(), "Adı:") {
                    ad = span_text;
                } else if str_eq(label_text.as_str(), "Soyadı:") {
                    soyad = span_text;
                } else if str_eq(label_text.as_str(), "Kimlik Numarası:") {
                    tc_kimlik = span_text;
                }
            }
        }
        k += 1;
    }
    assert(gv.take(n as int) =~= gv);
    let resim_base64 = match first_attr(html, "img[src^='data:image']", "src") {
        Some(src) => src,
        None => String::new(),
    };
    let kisi_id = match kisi_id_exec(html) {
        Some(id) => id,
        None => {
            return Err(ObsError::KisiIdNotFound);
        },
    };
    Ok(OzlukPage { ad, soyad, tc_kimlik, resim_base64, kisi_id })
}

/// Reads the person's id from the profile page's script.
pub fn kisi_id_exec(html: &str) -> (r: Option<String>)
    ensures
        opt_view(r) == kisi_id_of(html@),
{
    let h = chars_of(html);
    let pat = chars_of("kisiId: '");
    let quote = chars_of("'");
    proof {
        reveal_strlit("kisiId: '");
        reveal_strlit("'");
    }
    let ghost hv = h@;
    let ghost pv = pat@;
    proof {
        lemma_find_from(hv, pv, 0);
    }
    let first = match find_from_exec(&h, &pat, 0) {
        Some(i) => i,
        None => {
            proof {
                assert(split(hv, pv) =~= seq![hv.subrange(0, hv.len() as int)]);
            }
            return None;
        },
    };
    assert(occurs_at(hv, pv, first as int));
    let hlen = h.len();
    let start = first + pat.len();
    proof {
        lemma_find_from(hv, pv, start as int);
    }
    let end = match find_from_exec(&h, &pat, start) {
        Some(e) => e,
        None => h.len(),
    };
    let piece = subrange_of(&h, start, end);
    proof {
        let rest = split_from(hv, pv, start as int);
        assert(split(hv, pv) =~= seq![hv.subrange(0, first as int)] + rest);
        assert(rest[0] == piece@);
    }
    let ghost qv = quote@;
    proof {
        lemma_find_from(piece@, qv, 0);
    }
    let cut = match find_from_exec(&piece, &quote, 0) {
        Some(q) => q,
        None => piece.len(),
    };
    let id = subrange_of(&piece, 0, cut);
    proof {
        assert(split(piece@, qv)[0] == id@);
    }
    Some(string_of(&id))
}

/// The form asking for the person's contact details or addresses.
pub fn ozluk_form(kisi_id: &str) -> (r: Vec<(String, String)>)
    ensures
        pairs_view(r@) == seq![("sort"@, ""@), ("group"@, ""@), ("filter"@, ""@), ("kisiId"@, kisi_id@)],
{
    let mut r: Vec<(String, String)> = Vec::new();
    r.push((String::from_str("sort"), String::from_str("")));
    r.push((String::from_str("group"), String::from_str("")));
    r.push((String::from_str("filter"), String::from_str("")));
    r.push((String::from_str("kisiId"), String::from_str(kisi_id)));
    assert(pairs_view(r@) =~= seq![("sort"@, ""@), ("group"@, ""@), ("filter"@, ""@), ("kisiId"@, kisi_id@)]);
    r
}

/// The form for the contact details and addresses of the person on
/// `page`, or nothing when the page names no person: those requests are
/// then not made.
pub fn contact_request(page: &OzlukPage) -> (r: Option<Vec<(String, String)>>)
    ensures
        page.kisi_id@.len() == 0 ==> r is None,
        page.kisi_id@.len() > 0 ==> (r matches Some(f) && pairs_view(f@) == seq![
            ("sort"@, ""@),
            ("group"@, ""@),
            ("filter"@, ""@),
            ("kisiId"@, page.kisi_id@),
        ]),
{
    if chars_of(page.kisi_id.as_str()).len() == 0 {
        None
    } else {
        Some(ozluk_form(page.kisi_id.as_str()))
    }
}

} // verus!
