//! The grades tab: the courses of one term with their graded items, a
//! course cursor, and term navigation.
use vstd::prelude::*;
use crate::client::obs::{Course, Exam};
use crate::pages::{Event, KeyCode, MouseEventKind, PageAction};
use crate::text::{concat, i32_to_string, int_dec_chars, seq_contains, str_contains};

verus! {

/// The colour a letter grade is shown in.
#[derive(Debug, Clone, Copy, PartialEq, Eq, Structural)]
pub enum GradeColor {
    Green,
    Red,
    White,
}

/// The grades tab. Fetching is performed by the caller: `needs_fetch`
/// asks for the term given by `fetch_params`, and the reply is handed
/// back to `update`.
pub struct DersNotlari {
    pub courses: Vec<Course>,
    pub table_selected: Option<usize>,
    pub selected_course_idx: usize,
    pub year: i32,
    pub term: i32,
    pub needs_fetch: bool,
}

/// The table rows above course `i`: each course takes a title row, one
/// row per graded item, and a blank row.
pub open spec fn rows_before(courses: Seq<Course>, i: int) -> nat
    decreases i,
{
    if i <= 0 {
        0
    } else {
        rows_before(courses, i - 1) + courses[i - 1].exams@.len() + 2
    }
}

/// The term after `(year, term)`: the spring term follows the fall term,
/// and the fall term of the next year follows the spring term.
pub open spec fn next_term_of(year: int, term: int) -> (int, int) {
    if term == 2 {
        (year + 1, 1)
    } else {
        (year, term + 1)
    }
}

/// The term before `(year, term)`.
pub open spec fn prev_term_of(year: int, term: int) -> (int, int) {
    if term == 1 {
        (year - 1, 2)
    } else {
        (year, term - 1)
    }
}

/// The course after `i` among `n`, wrapping to the first.
pub open spec fn next_index(i: int, n: int) -> int {
    (i + 1) % n
}

/// The course before `i` among `n`, wrapping to the last.
pub open spec fn prev_index(i: int, n: int) -> int {
    if i == 0 {
        n - 1
    } else {
        i - 1
    }
}

/// The colour of a letter grade: good grades green, failing ones red.
pub open spec fn grade_color_of(grade: Seq<char>) -> GradeColor {
    if seq_contains(grade, "AA"@) || seq_contains(grade, "BA"@) || seq_contains(grade, "BB"@) {
        GradeColor::Green
    } else if seq_contains(grade, "FF"@) || seq_contains(grade, "DC"@) || seq_contains(
        grade,
        "DD"@,
    ) {
        GradeColor::Red
    } else {
        GradeColor::White
    }
}

/// Good letter grades (AA, BA, BB) are green; failing ones (FF, DC, DD) are
/// red unless a good grade also appears; everything else is white.
pub proof fn law_grade_colors(grade: Seq<char>)
    ensures
        (seq_contains(grade, "AA"@) || seq_contains(grade, "BA"@) || seq_contains(grade, "BB"@))
            ==> grade_color_of(grade) == GradeColor::Green,
        !(seq_contains(grade, "AA"@) || seq_contains(grade, "BA"@) || seq_contains(grade, "BB"@))
            && (seq_contains(grade, "FF"@) || seq_contains(grade, "DC"@) || seq_contains(grade, "DD"@))
            ==> grade_color_of(grade) == GradeColor::Red,
        !(seq_contains(grade, "AA"@) || seq_contains(grade, "BA"@) || seq_contains(grade, "BB"@)
            || seq_contains(grade, "FF"@) || seq_contains(grade, "DC"@) || seq_contains(grade, "DD"@))
            ==> grade_color_of(grade) == GradeColor::White,
{
}

/// Moving to the next term and back returns to the same term.
pub proof fn law_prev_term_undoes_next(year: int, term: int)
    requires
        term == 1 || term == 2,
    ensures
        ({
            let n = next_term_of(year, term);
            prev_term_of(n.0, n.1)
        }) == (year, term),
{
}

/// Moving to the previous term and back returns to the same term.
pub proof fn law_next_term_undoes_prev(year: int, term: int)
    requires
        term == 1 || term == 2,
    ensures
        ({
            let p = prev_term_of(year, term);
            next_term_of(p.0, p.1)
        }) == (year, term),
{
}

/// Moving the course cursor down and back up returns it to its course.
pub proof fn law_prev_index_undoes_next(i: int, n: int)
    requires
        0 <= i < n,
    ensures
        prev_index(next_index(i, n), n) == i,
{
    lemma_next_index_value(i, n);
}

/// Moving the course cursor up and back down returns it to its course.
pub proof fn law_next_index_undoes_prev(i: int, n: int)
    requires
        0 <= i < n,
    ensures
        next_index(prev_index(i, n), n) == i,
{
    lemma_next_index_value(prev_index(i, n), n);
}

/// The course after `i`: the next one, or the first after the last.
pub proof fn lemma_next_index_value(i: int, n: int)
    requires
        0 <= i < n,
    ensures
        next_index(i, n) == if i + 1 < n {
            i + 1
        } else {
            0
        },
{
    if i + 1 < n {
        vstd::arithmetic::div_mod::lemma_small_mod((i + 1) as nat, n as nat);
    } else {
        vstd::arithmetic::div_mod::lemma_mod_self_0(n);
    }
}

/// `grade.contains(..)` for the letter grades, as colours.
pub fn get_grade_color(grade: &str) -> (c: GradeColor)
    ensures
        c == grade_color_of(grade@),
{
    if str_contains(grade, "AA") || str_contains(grade, "BA") || str_contains(grade, "BB") {
        return GradeColor::Green;
    }
    if str_contains(grade, "FF") || str_contains(grade, "DC") || str_contains(grade, "DD") {
        return GradeColor::Red;
    }
    GradeColor::White
}

/// The graded item is the course's letter grade.
pub fn is_letter_grade(exam: &Exam) -> (b: bool)
    ensures
        b == seq_contains(exam.name@, "HARF NOTU"@),
{
    str_contains(exam.name.as_str(), "HARF NOTU")
}

/// The colour of a graded item's grade: letter grades by their value,
/// everything else white.
pub fn exam_grade_color(exam: &Exam) -> (c: GradeColor)
    ensures
        c == if seq_contains(exam.name@, "HARF NOTU"@) {
            grade_color_of(exam.grade@)
        } else {
            GradeColor::White
        },
{
    if is_letter_grade(exam) {
        get_grade_color(exam.grade.as_str())
    } else {
        GradeColor::White
    }
}

/// The tab after selecting the next course (wrapping to the first): the
/// table cursor goes to that course's last graded item, or to the title row
/// of the first course.
pub open spec fn after_next(d: DersNotlari) -> DersNotlari {
    if d.courses@.len() == 0 {
        d
    } else {
        let i = next_index(d.selected_course_idx as int, d.courses@.len() as int);
        DersNotlari {
            selected_course_idx: i as usize,
            table_selected: Some(
                (rows_before(d.courses@, i) + if i != 0 {
                    d.courses@[i].exams@.len()
                } else {
                    0
                }) as usize,
            ),
            ..d
        }
    }
}

/// The tab after selecting the previous course (wrapping to the last): the
/// table cursor goes to that course's title row, or to the last graded item
/// of the last course.
pub open spec fn after_previous(d: DersNotlari) -> DersNotlari {
    if d.courses@.len() == 0 {
        d
    } else {
        let i = prev_index(d.selected_course_idx as int, d.courses@.len() as int);
        DersNotlari {
            selected_course_idx: i as usize,
            table_selected: Some(
                (rows_before(d.courses@, i) + if d.selected_course_idx == 0 {
                    d.courses@[i].exams@.len()
                } else {
                    0
                }) as usize,
            ),
            ..d
        }
    }
}

/// The tab moved to the term `(year, term)`, with that term's results asked for.
pub open spec fn at_term(d: DersNotlari, yt: (int, int)) -> DersNotlari {
    DersNotlari { year: yt.0 as i32, term: yt.1 as i32, needs_fetch: true, ..d }
}

/// Whether `e` moves between courses downwards, upwards, or between terms
/// forwards or backwards.
pub open spec fn is_down_input(e: Event) -> bool {
    ||| e matches Event::Key(k) && (k.code == KeyCode::Down || k.code == KeyCode::Char('j'))
    ||| e matches Event::Mouse(m) && m.kind == MouseEventKind::ScrollDown
}

/// See `is_down_input`.
pub open spec fn is_up_input(e: Event) -> bool {
    ||| e matches Event::Key(k) && (k.code == KeyCode::Up || k.code == KeyCode::Char('k'))
    ||| e matches Event::Mouse(m) && m.kind == MouseEventKind::ScrollUp
}

/// See `is_down_input`.
pub open spec fn is_next_term_input(e: Event) -> bool {
    e matches Event::Key(k) && (k.code == KeyCode::Right || k.code == KeyCode::Char('l'))
}

/// See `is_down_input`.
pub open spec fn is_prev_term_input(e: Event) -> bool {
    e matches Event::Key(k) && (k.code == KeyCode::Left || k.code == KeyCode::Char('h'))
}

/// The tab after input `e`: `Down`/`j`/scroll down selects the next course,
/// `Up`/`k`/scroll up the previous one, `Right`/`l` and `Left`/`h` move to
/// the next and previous term; anything else changes nothing.
pub open spec fn grades_step(d: DersNotlari, e: Event) -> DersNotlari {
    if is_down_input(e) {
        after_next(d)
    } else if is_up_input(e) {
        after_previous(d)
    } else if is_next_term_input(e) {
        at_term(d, next_term_of(d.year as int, d.term as int))
    } else if is_prev_term_input(e) {
        at_term(d, prev_term_of(d.year as int, d.term as int))
    } else {
        d
    }
}

/// Input `e` leaves the term within the range of `i32`: only moving past
/// the last or first representable term is refused.
pub open spec fn grades_input_ok(d: DersNotlari, e: Event) -> bool {
    &&& is_next_term_input(e) ==> d.term < i32::MAX && (d.term == 2 ==> d.year < i32::MAX)
    &&& is_prev_term_input(e) ==> d.term > i32::MIN && (d.term == 1 ==> d.year > i32::MIN)
}

/// How the grades tab takes the reply `grades`, going from `d0` to `d1`:
/// the courses are replaced and the cursor goes to the first course.
pub open spec fn grades_taken(d0: DersNotlari, d1: DersNotlari, grades: Option<Vec<Course>>) -> bool {
    match grades {
        Some(v) => {
            &&& d1.courses == v
            &&& d1.selected_course_idx == 0
            &&& d1.year == d0.year
            &&& d1.term == d0.term
            &&& d1.needs_fetch == d0.needs_fetch
            &&& d1.table_selected == if v@.len() > 0 {
                Some(0usize)
            } else {
                d0.table_selected
            }
        },
        None => d1 == d0,
    }
}

impl DersNotlari {
    /// The table rows can be counted, and the course cursor is on a course
    /// whenever there are courses.
    pub open spec fn wf(&self) -> bool {
        &&& rows_before(self.courses@, self.courses@.len() as int) <= usize::MAX
        &&& (self.courses@.len() > 0 ==> self.selected_course_idx < self.courses@.len())
    }

    /// The tab for the fall term of 2025, with nothing fetched yet.
    pub fn new() -> (r: DersNotlari)
        ensures
            r.courses@.len() == 0,
            r.table_selected is None,
            r.selected_course_idx == 0,
            r.year == 2025,
            r.term == 1,
            !r.needs_fetch,
            r.wf(),
    {
        DersNotlari {
            courses: Vec::new(),
            table_selected: None,
            selected_course_idx: 0,
            year: 2025,
            term: 1,
            needs_fetch: false,
        }
    }

    /// Asks for the current term's results.
    pub fn fetch_courses(&mut self)
        ensures
            *final(self) == (DersNotlari { needs_fetch: true, ..*old(self) }),
    {
        self.needs_fetch = true;
    }

    /// The year and term of the request, as the form sends them.
    pub fn fetch_params(&self) -> (r: (String, String))
        ensures
            r.0@ == int_dec_chars(self.year as int),
            r.1@ == int_dec_chars(self.term as int),
    {
        (i32_to_string(self.year), i32_to_string(self.term))
    }

    /// Puts the table cursor on the selected course's title row, or on its
    /// last graded item when `align_bottom` holds.
    pub fn update_state(&mut self, align_bottom: bool)
        requires
            old(self).wf(),
        ensures
            final(self).wf(),
            old(self).courses@.len() == 0 ==> *final(self) == *old(self),
            old(self).courses@.len() > 0 ==> *final(self) == (DersNotlari {
                table_selected: Some(
                    (rows_before(old(self).courses@, old(self).selected_course_idx as int) + if align_bottom {
                        old(self).courses@[old(self).selected_course_idx as int].exams@.len()
                    } else {
                        0
                    }) as usize,
                ),
                ..*old(self)
            }),
    {
        if self.courses.len() == 0 {
            return;
        }
        let ghost cs = self.courses@;
        let mut target: usize = 0;
        let mut i: usize = 0;
        proof {
            lemma_rows_before_mono(cs, self.selected_course_idx as int + 1, cs.len() as int);
        }
        while i < self.selected_course_idx
            invariant
                cs == self.courses@,
                self.selected_course_idx < cs.len(),
                rows_before(cs, self.selected_course_idx as int + 1) <= usize::MAX,
                i <= self.selected_course_idx,
                target == rows_before(cs, i as int),
            decreases self.selected_course_idx - i,
        {
            proof {
                lemma_rows_before_mono(cs, i + 1, self.selected_course_idx as int + 1);
            }
            target += 1;
            target += self.courses[i].exams.len();
            target += 1;
            i += 1;
        }
        let offset = if align_bottom {
            self.courses[self.selected_course_idx].exams.len()
        } else {
            0
        };
        self.table_selected = Some(target + offset);
    }

    /// Takes the fetched results, if they have arrived: they replace the
    /// courses and the cursor goes to the first course.
    pub fn update(&mut self, fetch: &mut Option<Vec<Course>>) -> (action: PageAction)
        requires
            old(self).wf(),
            *old(fetch) matches Some(v) ==> rows_before(v@, v@.len() as int) <= usize::MAX,
        ensures
            action == PageAction::NoAction,
            *final(fetch) is None,
            final(self).wf(),
            grades_taken(*old(self), *final(self), *old(fetch)),
    {
        let res = fetch.take();
        if let Some(res) = res {
            self.courses = res;
            self.selected_course_idx = 0;
            self.update_state(false);
        }
        PageAction::NoAction
    }

    /// Moves to the next term and asks for its results.
    pub fn next_term(&mut self) -> (action: PageAction)
        requires
            old(self).term == 2 ==> old(self).year < i32::MAX,
            old(self).term < i32::MAX,
        ensures
            action == PageAction::NoAction,
            (final(self).year as int, final(self).term as int) == next_term_of(
                old(self).year as int,
                old(self).term as int,
            ),
            *final(self) == (DersNotlari {
                year: final(self).year,
                term: final(self).term,
                needs_fetch: true,
                ..*old(self)
            }),
    {
        let (y, t) = if self.term == 2 {
            (self.year + 1, 1)
        } else {
            (self.year, self.term + 1)
        };
        self.year = y;
        self.term = t;
        self.fetch_courses();
        PageAction::NoAction
    }

    /// Moves to the previous term and asks for its results.
    pub fn prev_term(&mut self) -> (action: PageAction)
        requires
            old(self).term == 1 ==> old(self).year > i32::MIN,
            old(self).term > i32::MIN,
        ensures
            action == PageAction::NoAction,
            (final(self).year as int, final(self).term as int) == prev_term_of(
                old(self).year as int,
                old(self).term as int,
            ),
            *final(self) == (DersNotlari {
                year: final(self).year,
                term: final(self).term,
                needs_fetch: true,
                ..*old(self)
            }),
    {
        let (y, t) = if self.term == 1 {
            (self.year - 1, 2)
        } else {
            (self.year, self.term - 1)
        };
        self.year = y;
        self.term = t;
        self.fetch_courses();
        PageAction::NoAction
    }

    /// Selects the next course (wrapping to the first); the table cursor
    /// goes to its last graded item, or to the title row of the first.
    pub fn next(&mut self)
        requires
            old(self).wf(),
        ensures
            final(self).wf(),
            *final(self) == after_next(*old(self)),
            old(self).courses@.len() == 0 ==> *final(self) == *old(self),
            old(self).courses@.len() > 0 ==> {
                let i = next_index(old(self).selected_course_idx as int, old(self).courses@.len() as int);
                &&& final(self).selected_course_idx == i
                &&& final(self).table_selected == Some(
                    (rows_before(old(self).courses@, i) + if i != 0 {
                        old(self).courses@[i].exams@.len()
                    } else {
                        0
                    }) as usize,
                )
                &&& final(self).courses == old(self).courses
                &&& final(self).year == old(self).year
                &&& final(self).term == old(self).term
                &&& final(self).needs_fetch == old(self).needs_fetch
            },
    {
        if self.courses.len() > 0 {
            self.selected_course_idx = (self.selected_course_idx + 1) % self.courses.len();
            let align_bottom = self.selected_course_idx != 0;
            self.update_state(align_bottom);
        }
    }

    /// Selects the previous course (wrapping to the last); the table cursor
    /// goes to the title row, or to the last graded item of the last.
    pub fn previous(&mut self)
        requires
            old(self).wf(),
        ensures
            final(self).wf(),
            *final(self) == after_previous(*old(self)),
            old(self).courses@.len() == 0 ==> *final(self) == *old(self),
            old(self).courses@.len() > 0 ==> {
                let i = prev_index(old(self).selected_course_idx as int, old(self).courses@.len() as int);
                &&& final(self).selected_course_idx == i
                &&& final(self).table_selected == Some(
                    (rows_before(old(self).courses@, i) + if old(self).selected_course_idx == 0 {
                        old(self).courses@[i].exams@.len()
                    } else {
                        0
                    }) as usize,
                )
                &&& final(self).courses == old(self).courses
                &&& final(self).year == old(self).year
                &&& final(self).term == old(self).term
                &&& final(self).needs_fetch == old(self).needs_fetch
            },
    {
        if self.courses.len() > 0 {
            let align_bottom = if self.selected_course_idx == 0 {
                self.selected_course_idx = self.courses.len() - 1;
                true
            } else {
                self.selected_course_idx -= 1;
                false
            };
            self.update_state(align_bottom);
        }
    }

    /// Reacts to input: `Down`/`j`/scroll down and `Up`/`k`/scroll up move
    /// between courses, `Right`/`l` and `Left`/`h` between terms.
    pub fn handle_event(&mut self, event: Event) -> (action: PageAction)
        requires
            old(self).wf(),
            grades_input_ok(*old(self), event),
        ensures
            action == PageAction::NoAction,
            final(self).wf(),
            *final(self) == grades_step(*old(self), event),
    {
        match event {
            Event::Key(key) => match key.code {
                KeyCode::Down | KeyCode::Char('j') => self.next(),
                KeyCode::Up | KeyCode::Char('k') => self.previous(),
                KeyCode::Right | KeyCode::Char('l') => return self.next_term(),
                KeyCode::Left | KeyCode::Char('h') => return self.prev_term(),
                _ => {},
            },
            Event::Mouse(mouse) => match mouse.kind {
                MouseEventKind::ScrollDown => self.next(),
                MouseEventKind::ScrollUp => self.previous(),
                _ => {},
            },
            _ => {},
        }
        PageAction::NoAction
    }

    /// Whether input `e` can be handled: a term change must stay within
    /// the range of `i32`.
    pub fn accepts(&self, e: Event) -> (ok: bool)
        ensures
            ok == grades_input_ok(*self, e),
    {
        let next_term = match e {
            Event::Key(k) => match k.code {
                KeyCode::Right | KeyCode::Char('l') => true,
                _ => false,
            },
            _ => false,
        };
        let prev_term = match e {
            Event::Key(k) => match k.code {
                KeyCode::Left | KeyCode::Char('h') => true,
                _ => false,
            },
            _ => false,
        };
        if next_term && !(self.term < i32::MAX && (self.term != 2 || self.year < i32::MAX)) {
            return false;
        }
        if prev_term && !(self.term > i32::MIN && (self.term != 1 || self.year > i32::MIN)) {
            return false;
        }
        true
    }

    /// The table title, naming the year and term.
    pub fn table_title(&self) -> (r: String)
        ensures
            r@ == " Ders Notları ("@ + int_dec_chars(self.year as int) + " - "@ + int_dec_chars(
                self.term as int,
            ) + ". Dönem) "@,
    {
        let y = i32_to_string(self.year);
        let t = i32_to_string(self.term);
        let s = concat(" Ders Notları (", y.as_str());
        let s = concat(s.as_str(), " - ");
        let s = concat(s.as_str(), t.as_str());
        concat(s.as_str(), ". Dönem) ")
    }

    /// The grade scale of the selected course, or a note that it has none;
    /// nothing when no course is selected.
    pub fn scale_text(&self) -> (r: Option<String>)
        ensures
            self.selected_course_idx < self.courses@.len() ==> r is Some && r->0@ == match self.courses@[self.selected_course_idx as int].grade_scale {
                Some(s) => s@,
                None => "Harf notu yok"@,
            },
            self.selected_course_idx >= self.courses@.len() ==> r is None,
    {
        if self.selected_course_idx < self.courses.len() {
            match &self.courses[self.selected_course_idx].grade_scale {
                Some(s) => Some(s.clone()),
                None => Some(String::from_str("Harf notu yok")),
            }
        } else {
            None
        }
    }
}

/// Rows grow with the course index.
pub proof fn lemma_rows_before_mono(cs: Seq<Course>, a: int, b: int)
    requires
        0 <= a <= b <= cs.len(),
    ensures
        rows_before(cs, a) <= rows_before(cs, b),
    decreases b - a,
{
    if a < b {
        lemma_rows_before_mono(cs, a, b - 1);
    }
}

} // verus!
