//! The personal record tab.
use vstd::prelude::*;
use crate::client::obs::{AdresBilgisi, IletisimBilgisi, OzlukBilgileriData};
use crate::pages::{Event, KeyCode, PageAction};
use crate::text::{concat, str_eq};

verus! {

/// The phase the personal record tab is in.
pub enum State {
    Loading,
    Loaded(OzlukBilgileriData),
    Error(String),
}

/// The personal record tab. Fetching is performed by the caller:
/// `needs_fetch` asks for the record, and the reply is handed back to
/// `update`.
pub struct OzlukBilgileri {
    pub has_client: bool,
    pub state: State,
    pub needs_fetch: bool,
}

impl Default for OzlukBilgileri {
    /// A tab with no server connection.
    fn default() -> (r: OzlukBilgileri)
        ensures
            !r.has_client,
            r.state is Loading,
            !r.needs_fetch,
    {
        OzlukBilgileri { has_client: false, state: State::Loading, needs_fetch: false }
    }

}

/// The tab after taking the reply `fetch`, if it has arrived: the record
/// is shown, or the error message.
pub open spec fn record_reply(o: OzlukBilgileri, fetch: Option<Result<OzlukBilgileriData, String>>) -> OzlukBilgileri {
    match fetch {
        Some(Ok(data)) => OzlukBilgileri { state: State::Loaded(data), ..o },
        Some(Err(e)) => OzlukBilgileri { state: State::Error(e), ..o },
        None => o,
    }
}

/// The tab after input `e`: `r` reloads the record once it is shown or has
/// failed (when connected); anything else changes nothing.
pub open spec fn record_step(o: OzlukBilgileri, e: Event) -> OzlukBilgileri {
    if (e matches Event::Key(k) && k.code == KeyCode::Char('r')) && (o.state is Loaded
        || o.state is Error) && o.has_client {
        OzlukBilgileri { state: State::Loading, needs_fetch: true, ..o }
    } else {
        o
    }
}

/// `r` reloads the record (when connected) both once it is shown and after
/// a failed fetch: the tab shows the loading message and a fetch is due.
pub proof fn law_reload_after_success_or_failure(o: OzlukBilgileri, ctrl: bool)
    requires
        o.has_client,
        o.state is Loaded || o.state is Error,
    ensures
        ({
            let p = record_step(o, Event::Key(crate::pages::KeyEvent { code: KeyCode::Char('r'), ctrl }));
            p.state is Loading && p.needs_fetch && p.has_client
        }),
{
}

impl OzlukBilgileri {
    /// A tab connected to the server, showing the loading message.
    pub fn new() -> (r: OzlukBilgileri)
        ensures
            r.has_client,
            r.state is Loading,
            !r.needs_fetch,
    {
        OzlukBilgileri { has_client: true, state: State::Loading, needs_fetch: false }
    }

    /// Asks for the record (when connected) and shows the loading message.
    pub fn fetch_data(&mut self)
        ensures
            old(self).has_client ==> *final(self) == (OzlukBilgileri {
                state: State::Loading,
                needs_fetch: true,
                ..*old(self)
            }),
            !old(self).has_client ==> *final(self) == *old(self),
    {
        if self.has_client {
            self.state = State::Loading;
            self.needs_fetch = true;
        }
    }

    /// Takes the reply, if it has arrived: the record is shown, or the
    /// error message.
    pub fn update(&mut self, fetch: &mut Option<Result<OzlukBilgileriData, String>>) -> (action: PageAction)
        ensures
            action == PageAction::NoAction,
            *final(fetch) is None,
            *final(self) == record_reply(*old(self), *old(fetch)),
    {
        if let Some(res) = fetch.take() {
            match res {
                Ok(data) => self.state = State::Loaded(data),
                Err(e) => {
                    self.state = State::Error(e);
                },
            }
        }
        PageAction::NoAction
    }

    /// `r` reloads the record once it is shown or has failed.
    pub fn handle_event(&mut self, event: Event) -> (action: PageAction)
        ensures
            action == PageAction::NoAction,
            *final(self) == record_step(*old(self), event),
    {
        if let Event::Key(key) = event {
            if key.code == KeyCode::Char('r') {
                let shown = match self.state {
                    State::Loaded(_) | State::Error(_) => true,
                    State::Loading => false,
                };
                if shown {
                    self.fetch_data();
                }
            }
        }
        PageAction::NoAction
    }

    /// The lines of the summary box for the current phase.
    pub fn info_lines(&self) -> (r: Vec<String>)
        ensures
            match self.state {
                State::Loading => r@.len() == 1 && r@[0]@ == "Bilgiler Yükleniyor..."@,
                State::Error(e) => r@.len() == 1 && r@[0]@ == "Hata: "@ + e@,
                State::Loaded(d) => r@.len() == 3 && r@[0]@ == "Adı: "@ + d.ad@ && r@[1]@ == "Soyadı: "@
                    + d.soyad@ && r@[2]@ == "Kimlik Numarası: "@ + d.tc_kimlik@,
            },
    {
        let mut r: Vec<String> = Vec::new();
        match &self.state {
            State::Loading => {
                r.push(String::from_str("Bilgiler Yükleniyor..."));
            },
            State::Error(e) => {
                r.push(concat("Hata: ", e.as_str()));
            },
            State::Loaded(d) => {
                r.push(concat("Adı: ", d.ad.as_str()));
                r.push(concat("Soyadı: ", d.soyad.as_str()));
                r.push(concat("Kimlik Numarası: ", d.tc_kimlik.as_str()));
            },
        }
        r
    }
}

/// Whether a contact entry is the preferred one, and whether it is
/// verified (`"Evet"`).
pub fn contact_flags(item: &IletisimBilgisi) -> (r: (bool, bool))
    ensures
        r.0 == (item.TercihEdilenMi == Some(true)),
        r.1 == (item.DogrulandimiStr matches Some(s) && s@ == "Evet"@),
{
    let preferred = match item.TercihEdilenMi {
        Some(b) => b,
        None => false,
    };
    let verified = match &item.DogrulandimiStr {
        Some(s) => str_eq(s.as_str(), "Evet"),
        None => false,
    };
    (preferred, verified)
}

/// The district and province of an address as ` (district/province)`,
/// or nothing when either is missing.
pub fn address_location(item: &AdresBilgisi) -> (r: String)
    ensures
        r@ == match (item.ilce, item.il) {
            (Some(ilce), Some(il)) => " ("@ + ilce@ + "/"@ + il@ + ")"@,
            _ => Seq::<char>::empty(),
        },
{
    match (&item.ilce, &item.il) {
        (Some(ilce), Some(il)) => {
            let s = concat(" (", ilce.as_str());
            let s = concat(s.as_str(), "/");
            let s = concat(s.as_str(), il.as_str());
            concat(s.as_str(), ")")
        },
        _ => String::new(),
    }
}

} // verus!
