//! The dashboard: a sidebar of tabs, each tab a page of its own.
use vstd::prelude::*;
use crate::client::obs::{AlinabilecekDers, Course, OzlukBilgileriData};
use crate::pages::{Event, KeyCode, PageAction};

pub mod ders_alma;
pub mod ders_notlari;
pub mod ozluk_bilgileri;

use ders_alma::{input_taken, replies_taken, DersAlma};
use ders_notlari::{grades_input_ok, grades_step, grades_taken, rows_before, DersNotlari};
use ozluk_bilgileri::{record_reply, record_step, OzlukBilgileri};

verus! {

/// The dashboard's tabs, in sidebar order.
#[derive(Debug, Clone, Copy, PartialEq, Eq, Structural)]
pub enum Tab {
    OzlukBilgileri,
    DersAlma,
    DersNotlari,
}

/// The tab after `t`, wrapping from the last to the first.
pub open spec fn tab_after(t: Tab) -> Tab {
    match t {
        Tab::OzlukBilgileri => Tab::DersAlma,
        Tab::DersAlma => Tab::DersNotlari,
        Tab::DersNotlari => Tab::OzlukBilgileri,
    }
}

/// Pressing `Tab` three times comes back to the same tab, and no fewer
/// presses do.
pub proof fn law_tab_cycle(t: Tab)
    ensures
        tab_after(tab_after(tab_after(t))) == t,
        tab_after(t) != t,
        tab_after(tab_after(t)) != t,
{
}

impl Tab {
    /// The first tab.
    pub fn first() -> (t: Tab)
        ensures
            t == Tab::OzlukBilgileri,
    {
        Tab::OzlukBilgileri
    }

    /// The tab after this one.
    pub fn next(&self) -> (t: Tab)
        ensures
            t == tab_after(*self),
    {
        match self {
            Tab::OzlukBilgileri => Tab::DersAlma,
            Tab::DersAlma => Tab::DersNotlari,
            Tab::DersNotlari => Tab::OzlukBilgileri,
        }
    }

    /// The tab's name in the sidebar.
    pub fn title(&self) -> (r: &'static str)
        ensures
            r@ == match *self {
                Tab::OzlukBilgileri => "Özlük Bilgileri"@,
                Tab::DersAlma => "Ders Alma"@,
                Tab::DersNotlari => "Ders Notları"@,
            },
    {
        match self {
            Tab::OzlukBilgileri => "Özlük Bilgileri",
            Tab::DersAlma => "Ders Alma",
            Tab::DersNotlari => "Ders Notları",
        }
    }
}

/// The dashboard page.
pub struct Dashboard {
    pub tab: Tab,
    pub ozluk_bilgileri: OzlukBilgileri,
    pub ders_alma: DersAlma,
    pub ders_notlari: DersNotlari,
}

/// `Tab`, which switches tabs.
pub open spec fn is_tab_input(e: Event) -> bool {
    e matches Event::Key(k) && k.code == KeyCode::Tab
}

/// `q`, `Esc` or Ctrl+C, which quit.
pub open spec fn is_quit_input(e: Event) -> bool {
    e matches Event::Key(k) && (k.code == KeyCode::Char('q') || k.code == KeyCode::Esc
        || (k.code == KeyCode::Char('c') && k.ctrl))
}

impl Dashboard {
    /// What the tabs rely on: the registration and grades tabs are well
    /// formed and the term is a fall or spring term.
    pub open spec fn wf(&self) -> bool {
        &&& self.ders_alma.wf()
        &&& self.ders_notlari.wf()
        &&& (self.ders_notlari.term == 1 || self.ders_notlari.term == 2)
    }

    /// The dashboard on its first tab, with all tabs connected; the personal
    /// record and the course list are asked for at once.
    pub fn new() -> (r: Dashboard)
        ensures
            r.wf(),
            r.tab == Tab::OzlukBilgileri,
            r.ozluk_bilgileri.has_client && r.ozluk_bilgileri.state is Loading && r.ozluk_bilgileri.needs_fetch,
            r.ders_alma.has_client && r.ders_alma.needs_fetch && r.ders_alma.sections@.len() == 0,
            r.ders_alma.selected is None && r.ders_alma.state is Loading && r.ders_alma.error is None,
            !r.ders_alma.needs_save && r.ders_alma.save_request@.len() == 0,
            r.ders_notlari.year == 2025 && r.ders_notlari.term == 1 && r.ders_notlari.courses@.len() == 0,
            r.ders_notlari.table_selected is None && r.ders_notlari.selected_course_idx == 0,
            !r.ders_notlari.needs_fetch,
    {
        let mut ozluk_bilgileri = OzlukBilgileri::new();
        ozluk_bilgileri.fetch_data();
        Dashboard {
            tab: Tab::first(),
            ozluk_bilgileri,
            ders_alma: DersAlma::new(),
            ders_notlari: DersNotlari::new(),
        }
    }

    /// `Tab` switches tabs, `q`, `Esc` and Ctrl+C quit; any other input
    /// goes to the current tab.
    pub fn handle_event(&mut self, event: Event) -> (action: PageAction)
        requires
            old(self).wf(),
            old(self).tab == Tab::DersNotlari ==> grades_input_ok(old(self).ders_notlari, event),
        ensures
            final(self).wf(),
            is_tab_input(event) ==> action == PageAction::NoAction
                && *final(self) == (Dashboard { tab: tab_after(old(self).tab), ..*old(self) }),
            is_quit_input(event) ==> action == PageAction::Quit && *final(self) == *old(self),
            !is_tab_input(event) && !is_quit_input(event) ==> {
                &&& final(self).tab == old(self).tab
                &&& old(self).tab != Tab::OzlukBilgileri ==> final(self).ozluk_bilgileri == old(self).ozluk_bilgileri
                &&& old(self).tab != Tab::DersAlma ==> final(self).ders_alma == old(self).ders_alma
                &&& old(self).tab != Tab::DersNotlari ==> final(self).ders_notlari == old(self).ders_notlari
                &&& old(self).tab == Tab::OzlukBilgileri ==> action == PageAction::NoAction
                    && final(self).ozluk_bilgileri == record_step(old(self).ozluk_bilgileri, event)
                &&& old(self).tab == Tab::DersAlma ==> input_taken(old(self).ders_alma, final(self).ders_alma, event, action)
                &&& old(self).tab == Tab::DersNotlari ==> action == PageAction::NoAction
                    && final(self).ders_notlari == grades_step(old(self).ders_notlari, event)
            },
    {
        if let Event::Key(key) = event {
            match key.code {
                KeyCode::Tab => {
                    self.tab = self.tab.next();
                    return PageAction::NoAction;
                },
                KeyCode::Char('q') | KeyCode::Esc => {
                    return PageAction::Quit;
                },
                KeyCode::Char('c') => {
                    if key.ctrl {
                        return PageAction::Quit;
                    }
                },
                _ => {},
            }
        }
        match self.tab {
            Tab::OzlukBilgileri => self.ozluk_bilgileri.handle_event(event),
            Tab::DersAlma => self.ders_alma.handle_event(event),
            Tab::DersNotlari => self.ders_notlari.handle_event(event),
        }
    }

    /// Whether `handle_event` can take input `e`: on the grades tab a term
    /// change must stay within the range of `i32`.
    pub fn accepts(&self, e: Event) -> (ok: bool)
        ensures
            ok == (self.tab == Tab::DersNotlari ==> grades_input_ok(self.ders_notlari, e)),
    {
        match self.tab {
            Tab::DersNotlari => self.ders_notlari.accepts(e),
            _ => true,
        }
    }

    /// The periodic update. The registration tab takes its replies only
    /// while it is shown, and the other slots of that tab are left as they
    /// are; the grades and the personal record are taken whenever they have
    /// arrived.
    pub fn update(
        &mut self,
        fetch: &mut Option<Result<Vec<AlinabilecekDers>, String>>,
        save: &mut Option<Result<String, String>>,
        grades: &mut Option<Vec<Course>>,
        record: &mut Option<Result<OzlukBilgileriData, String>>,
    ) -> (action: PageAction)
        requires
            old(self).wf(),
            *old(fetch) matches Some(Ok(v)) ==> v@.len() <= usize::MAX / 2,
            *old(grades) matches Some(v) ==> rows_before(v@, v@.len() as int) <= usize::MAX,
        ensures
            action == PageAction::NoAction,
            final(self).wf(),
            final(self).tab == old(self).tab,
            *final(grades) is None,
            *final(record) is None,
            final(self).ozluk_bilgileri == record_reply(old(self).ozluk_bilgileri, *old(record)),
            grades_taken(old(self).ders_notlari, final(self).ders_notlari, *old(grades)),
            old(self).tab != Tab::DersAlma ==> final(self).ders_alma == old(self).ders_alma
                && *final(fetch) == *old(fetch) && *final(save) == *old(save),
            old(self).tab == Tab::DersAlma ==> *final(fetch) is None && *final(save) is None
                && replies_taken(old(self).ders_alma, final(self).ders_alma, *old(fetch), *old(save)),
    {
        if self.tab == Tab::DersAlma {
            self.ders_alma.update(fetch, save);
        }
        self.ders_notlari.update(grades);
        self.ozluk_bilgileri.update(record);
        PageAction::NoAction
    }
}

} // verus!
