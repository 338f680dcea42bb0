//! The course registration tab: a list of sections, each a header row
//! followed by its course rows, with a cursor that skips headers.
use vstd::prelude::*;
use crate::client::obs::AlinabilecekDers;
use crate::pages::{Event, KeyCode, PageAction};
use crate::text::{chars_eq, chars_lt, chars_of, concat, seq_contains, seq_lt, str_contains, string_of};

verus! {

// ---------------------------------------------------------------------
// Rows of the flattened list
// ---------------------------------------------------------------------

/// A section as a title and its courses.
pub open spec fn section_view(sec: (String, Vec<AlinabilecekDers>)) -> (Seq<char>, Seq<AlinabilecekDers>) {
    (sec.0@, sec.1@)
}

/// The sections as titles and course sequences.
pub open spec fn sections_view(secs: Seq<(String, Vec<AlinabilecekDers>)>) -> Seq<(Seq<char>, Seq<AlinabilecekDers>)> {
    secs.map_values(|sec: (String, Vec<AlinabilecekDers>)| section_view(sec))
}

/// The number of courses in each section.
pub open spec fn lens_of(secs: Seq<(String, Vec<AlinabilecekDers>)>) -> Seq<nat> {
    Seq::new(secs.len(), |i: int| secs[i].1@.len())
}

/// The row of the header of section `s`: each earlier section takes one
/// header row and one row per course.
pub open spec fn prefix_rows(lens: Seq<nat>, s: int) -> nat
    decreases s,
{
    if s <= 0 {
        0
    } else {
        prefix_rows(lens, s - 1) + 1 + lens[s - 1]
    }
}

/// The number of rows in the flattened list.
pub open spec fn flat_len(lens: Seq<nat>) -> nat {
    prefix_rows(lens, lens.len() as int)
}

/// Row `i` is the header of some section.
pub open spec fn is_header_row(lens: Seq<nat>, i: int) -> bool {
    exists|s: int| 0 <= s < lens.len() && prefix_rows(lens, s) == i
}

/// Row `i` shows a course of section `s`.
pub open spec fn row_in_section(lens: Seq<nat>, i: int, s: int) -> bool {
    0 <= s < lens.len() && prefix_rows(lens, s) < i <= prefix_rows(lens, s) + lens[s]
}

/// The (section, course) shown at row `i`, if it shows a course.
pub open spec fn course_at(lens: Seq<nat>, i: int) -> Option<(int, int)> {
    if exists|s: int| row_in_section(lens, i, s) {
        let s = choose|s: int| row_in_section(lens, i, s);
        Some((s, i - prefix_rows(lens, s) - 1))
    } else {
        None
    }
}

/// Some section has a course.
pub open spec fn has_course(lens: Seq<nat>) -> bool {
    exists|s: int| 0 <= s < lens.len() && lens[s] > 0
}

/// One cursor move down: to the next row, wrapping to the top.
pub open spec fn step_down(i: int, len: int) -> int {
    if i + 1 >= len {
        0
    } else {
        i + 1
    }
}

/// One cursor move up: to the previous row, wrapping to the bottom.
pub open spec fn step_up(i: int, len: int) -> int {
    if i == 0 {
        len - 1
    } else {
        i - 1
    }
}

/// `k` moves down from row `i`.
pub open spec fn iter_down(i: int, len: int, k: nat) -> int
    decreases k,
{
    if k == 0 {
        i
    } else {
        step_down(iter_down(i, len, (k - 1) as nat), len)
    }
}

/// `k` moves up from row `i`.
pub open spec fn iter_up(i: int, len: int, k: nat) -> int
    decreases k,
{
    if k == 0 {
        i
    } else {
        step_up(iter_up(i, len, (k - 1) as nat), len)
    }
}

/// `k` moves down from `i` reach the first row that is not a header.
pub open spec fn is_down_stop(lens: Seq<nat>, i: int, k: nat) -> bool {
    let len = flat_len(lens) as int;
    &&& k >= 1
    &&& !is_header_row(lens, iter_down(i, len, k))
    &&& forall|j: nat| 1 <= j < k ==> is_header_row(lens, #[trigger] iter_down(i, len, j))
}

/// `k` moves up from `i` reach the first row that is not a header.
pub open spec fn is_up_stop(lens: Seq<nat>, i: int, k: nat) -> bool {
    let len = flat_len(lens) as int;
    &&& k >= 1
    &&& !is_header_row(lens, iter_up(i, len, k))
    &&& forall|j: nat| 1 <= j < k ==> is_header_row(lens, #[trigger] iter_up(i, len, j))
}

/// Where the cursor lands when moved down from row `i`, skipping headers.
pub open spec fn next_row(lens: Seq<nat>, i: int) -> int {
    iter_down(i, flat_len(lens) as int, choose|k: nat| is_down_stop(lens, i, k))
}

/// Where the cursor lands when moved up from row `i`, skipping headers.
pub open spec fn prev_row(lens: Seq<nat>, i: int) -> int {
    iter_up(i, flat_len(lens) as int, choose|k: nat| is_up_stop(lens, i, k))
}

// ---------------------------------------------------------------------
// Lemmas on rows
// ---------------------------------------------------------------------

/// Header rows grow strictly with the section index.
pub proof fn lemma_prefix_mono(lens: Seq<nat>, a: int, b: int)
    requires
        0 <= a <= b <= lens.len(),
    ensures
        prefix_rows(lens, a) <= prefix_rows(lens, b),
        a < b ==> prefix_rows(lens, a) + 1 + lens[a] <= prefix_rows(lens, b),
    decreases b - a,
{
    if a < b {
        lemma_prefix_mono(lens, a + 1, b);
    }
}

/// A header row lies inside the list.
pub proof fn lemma_header_in_range(lens: Seq<nat>, i: int)
    requires
        is_header_row(lens, i),
    ensures
        0 <= i < flat_len(lens),
{
    let s = choose|s: int| 0 <= s < lens.len() && prefix_rows(lens, s) == i;
    lemma_prefix_mono(lens, s, lens.len() as int);
}

/// The first course row of a nonempty section is not a header.
pub proof fn lemma_first_course_row(lens: Seq<nat>, s: int)
    requires
        0 <= s < lens.len(),
        lens[s] > 0,
    ensures
        !is_header_row(lens, prefix_rows(lens, s) + 1int),
        prefix_rows(lens, s) + 1 < flat_len(lens),
{
    lemma_prefix_mono(lens, s, lens.len() as int);
    assert forall|t: int| 0 <= t < lens.len() implies prefix_rows(lens, t) != prefix_rows(
        lens,
        s,
    ) + 1 by {
        if t <= s {
            lemma_prefix_mono(lens, t, s);
        } else {
            lemma_prefix_mono(lens, s, t);
        }
    }
}

/// Moves from a row inside the list stay inside the list.
pub proof fn lemma_iter_down_range(i: int, len: int, k: nat)
    requires
        len >= 1,
        0 <= i,
        k >= 1 || i < len,
    ensures
        0 <= iter_down(i, len, k) < len,
    decreases k,
{
    if k > 1 {
        lemma_iter_down_range(i, len, (k - 1) as nat);
    }
    if k > 0 {
        assert(iter_down(i, len, k) == step_down(iter_down(i, len, (k - 1) as nat), len));
    }
}

/// Moves from a row inside the list stay inside the list.
pub proof fn lemma_iter_up_range(i: int, len: int, k: nat)
    requires
        len >= 1,
        0 <= i < len,
    ensures
        0 <= iter_up(i, len, k) < len,
    decreases k,
{
    if k > 0 {
        lemma_iter_up_range(i, len, (k - 1) as nat);
    }
}

/// Moving up `m` times undoes `m` of `k` moves down.
pub proof fn lemma_up_undoes_down(i: int, len: int, k: nat, m: nat)
    requires
        len >= 1,
        0 <= i < len,
        m <= k,
    ensures
        iter_up(iter_down(i, len, k), len, m) == iter_down(i, len, (k - m) as nat),
    decreases m,
{
    if m > 0 {
        lemma_up_undoes_down(i, len, k, (m - 1) as nat);
        lemma_iter_down_range(i, len, (k - m) as nat);
        assert(iter_down(i, len, (k - m + 1) as nat) == step_down(
            iter_down(i, len, (k - m) as nat),
            len,
        ));
    }
}

/// Moving down `m` times undoes `m` of `k` moves up.
pub proof fn lemma_down_undoes_up(i: int, len: int, k: nat, m: nat)
    requires
        len >= 1,
        0 <= i < len,
        m <= k,
    ensures
        iter_down(iter_up(i, len, k), len, m) == iter_up(i, len, (k - m) as nat),
    decreases m,
{
    if m > 0 {
        lemma_down_undoes_up(i, len, k, (m - 1) as nat);
        lemma_iter_up_range(i, len, (k - m) as nat);
        assert(iter_up(i, len, (k - m + 1) as nat) == step_up(
            iter_up(i, len, (k - m) as nat),
            len,
        ));
    }
}

/// There is exactly one stopping count for a move down.
pub proof fn lemma_down_stop_unique(lens: Seq<nat>, i: int, k1: nat, k2: nat)
    requires
        is_down_stop(lens, i, k1),
        is_down_stop(lens, i, k2),
    ensures
        k1 == k2,
{
    let len = flat_len(lens) as int;
    if k1 < k2 {
        assert(is_header_row(lens, iter_down(i, len, k1)));
    } else if k2 < k1 {
        assert(is_header_row(lens, iter_down(i, len, k2)));
    }
}

/// There is exactly one stopping count for a move up.
pub proof fn lemma_up_stop_unique(lens: Seq<nat>, i: int, k1: nat, k2: nat)
    requires
        is_up_stop(lens, i, k1),
        is_up_stop(lens, i, k2),
    ensures
        k1 == k2,
{
    let len = flat_len(lens) as int;
    if k1 < k2 {
        assert(is_header_row(lens, iter_up(i, len, k1)));
    } else if k2 < k1 {
        assert(is_header_row(lens, iter_up(i, len, k2)));
    }
}

spec fn down_dist(p: int, t: int, len: int) -> int {
    if p <= t {
        t - p
    } else {
        t + len - p
    }
}

spec fn up_dist(p: int, t: int, len: int) -> int {
    if p >= t {
        p - t
    } else {
        p + len - t
    }
}

/// Searching down from the `k`-th move finds a stop.
proof fn lemma_down_search(lens: Seq<nat>, i: int, t: int, k: nat) -> (r: nat)
    requires
        0 <= t < flat_len(lens),
        0 <= i,
        !is_header_row(lens, t),
        k >= 1,
        forall|j: nat| 1 <= j < k ==> is_header_row(lens, #[trigger] iter_down(i, flat_len(lens) as int, j)),
    ensures
        is_down_stop(lens, i, r),
    decreases down_dist(iter_down(i, flat_len(lens) as int, k), t, flat_len(lens) as int),
{
    let len = flat_len(lens) as int;
    lemma_iter_down_range(i, len, k);
    let p = iter_down(i, len, k);
    if !is_header_row(lens, p) {
        k
    } else {
        assert(p != t);
        assert(iter_down(i, len, k + 1) == step_down(p, len));
        assert forall|j: nat| 1 <= j < k + 1 implies is_header_row(lens, #[trigger] iter_down(i, len, j)) by {
            if j == k {
            }
        }
        lemma_down_search(lens, i, t, k + 1)
    }
}

/// Searching up from the `k`-th move finds a stop.
proof fn lemma_up_search(lens: Seq<nat>, i: int, t: int, k: nat) -> (r: nat)
    requires
        0 <= t < flat_len(lens),
        0 <= i < flat_len(lens),
        !is_header_row(lens, t),
        k >= 1,
        forall|j: nat| 1 <= j < k ==> is_header_row(lens, #[trigger] iter_up(i, flat_len(lens) as int, j)),
    ensures
        is_up_stop(lens, i, r),
    decreases up_dist(iter_up(i, flat_len(lens) as int, k), t, flat_len(lens) as int),
{
    let len = flat_len(lens) as int;
    lemma_iter_up_range(i, len, k);
    let p = iter_up(i, len, k);
    if !is_header_row(lens, p) {
        k
    } else {
        assert(p != t);
        assert(iter_up(i, len, k + 1) == step_up(p, len));
        assert forall|j: nat| 1 <= j < k + 1 implies is_header_row(lens, #[trigger] iter_up(i, len, j)) by {
            if j == k {
            }
        }
        lemma_up_search(lens, i, t, k + 1)
    }
}

/// A list with a course has a course row.
proof fn lemma_some_course_row(lens: Seq<nat>) -> (t: int)
    requires
        has_course(lens),
    ensures
        0 <= t < flat_len(lens),
        !is_header_row(lens, t),
{
    let s = choose|s: int| 0 <= s < lens.len() && lens[s] > 0;
    lemma_first_course_row(lens, s);
    prefix_rows(lens, s) + 1int
}

/// A move down always has a stop when some section has a course.
pub proof fn lemma_down_stop_exists(lens: Seq<nat>, i: int) -> (k: nat)
    requires
        has_course(lens),
        0 <= i,
    ensures
        is_down_stop(lens, i, k),
{
    let t = lemma_some_course_row(lens);
    lemma_down_search(lens, i, t, 1)
}

/// A move up from a row of the list always has a stop when some section
/// has a course.
pub proof fn lemma_up_stop_exists(lens: Seq<nat>, i: int) -> (k: nat)
    requires
        has_course(lens),
        0 <= i < flat_len(lens),
    ensures
        is_up_stop(lens, i, k),
{
    let t = lemma_some_course_row(lens);
    lemma_up_search(lens, i, t, 1)
}

/// Moving the cursor up after moving it down from a course row returns it
/// to that row.
pub proof fn law_prev_after_next(lens: Seq<nat>, i: int)
    requires
        has_course(lens),
        0 <= i < flat_len(lens),
        !is_header_row(lens, i),
    ensures
        prev_row(lens, next_row(lens, i)) == i,
{
    let len = flat_len(lens) as int;
    let k0 = lemma_down_stop_exists(lens, i);
    let k = choose|k: nat| is_down_stop(lens, i, k);
    lemma_down_stop_unique(lens, i, k0, k);
    let j = iter_down(i, len, k);
    lemma_iter_down_range(i, len, k);
    // k moves up from j is a stop
    lemma_up_undoes_down(i, len, k, k);
    assert forall|m: nat| 1 <= m < k implies is_header_row(lens, #[trigger] iter_up(j, len, m)) by {
        lemma_up_undoes_down(i, len, k, m);
        assert(is_header_row(lens, iter_down(i, len, (k - m) as nat)));
    }
    assert(is_up_stop(lens, j, k));
    let m = choose|m: nat| is_up_stop(lens, j, m);
    lemma_up_stop_unique(lens, j, k, m);
}

/// Moving the cursor down after moving it up from a course row returns it
/// to that row.
pub proof fn law_next_after_prev(lens: Seq<nat>, i: int)
    requires
        has_course(lens),
        0 <= i < flat_len(lens),
        !is_header_row(lens, i),
    ensures
        next_row(lens, prev_row(lens, i)) == i,
{
    let len = flat_len(lens) as int;
    let k0 = lemma_up_stop_exists(lens, i);
    let k = choose|k: nat| is_up_stop(lens, i, k);
    lemma_up_stop_unique(lens, i, k0, k);
    let j = iter_up(i, len, k);
    lemma_iter_up_range(i, len, k);
    lemma_down_undoes_up(i, len, k, k);
    assert forall|m: nat| 1 <= m < k implies is_header_row(lens, #[trigger] iter_down(j, len, m)) by {
        lemma_down_undoes_up(i, len, k, m);
        assert(is_header_row(lens, iter_up(i, len, (k - m) as nat)));
    }
    assert(is_down_stop(lens, j, k));
    let m = choose|m: nat| is_down_stop(lens, j, m);
    lemma_down_stop_unique(lens, j, k, m);
}


// ---------------------------------------------------------------------
// Grouping fetched courses into sections
// ---------------------------------------------------------------------

/// The course type of compulsory courses.
pub open spec fn required_tag() -> Seq<char> {
    "Zorunlu"@
}

/// The group of an elective course that names none.
pub open spec fn other_group() -> Seq<char> {
    "Diğer Seçmeliler"@
}

/// What follows a group name in its section title.
pub open spec fn group_suffix() -> Seq<char> {
    " Grubu Seçmeli"@
}

/// The title of the section of compulsory courses.
pub open spec fn required_title() -> Seq<char> {
    "Zorunlu Dersler"@
}

/// The server's message for requests outside the registration period.
pub open spec fn out_of_schedule_message() -> Seq<char> {
    "Ders Alma Takvimi Dışındasınız"@
}

/// The course is compulsory.
pub open spec fn is_required(c: AlinabilecekDers) -> bool {
    c.Tipi@ == required_tag()
}

/// The elective group a course is listed under.
pub open spec fn group_key(c: AlinabilecekDers) -> Seq<char> {
    match c.Grup {
        Some(g) => g@,
        None => other_group(),
    }
}

/// Compulsory courses start out selected.
pub open spec fn mark_required(c: AlinabilecekDers) -> AlinabilecekDers {
    if is_required(c) {
        AlinabilecekDers { is_selected: true, ..c }
    } else {
        c
    }
}

/// The fetched courses with the compulsory ones selected.
pub open spec fn marked(courses: Seq<AlinabilecekDers>) -> Seq<AlinabilecekDers> {
    courses.map_values(|c: AlinabilecekDers| mark_required(c))
}

/// Elective courses of the group `key`.
pub open spec fn in_group(key: Seq<char>) -> spec_fn(AlinabilecekDers) -> bool {
    |c: AlinabilecekDers| !is_required(c) && group_key(c) == key
}

/// Compulsory courses.
pub open spec fn required_only() -> spec_fn(AlinabilecekDers) -> bool {
    |c: AlinabilecekDers| is_required(c)
}

/// The title of the section of group `key`.
pub open spec fn section_title(key: Seq<char>) -> Seq<char> {
    if key == other_group() {
        key
    } else {
        key + group_suffix()
    }
}

/// `keys` lists, in strictly increasing order, the groups of the elective
/// courses among `courses`.
pub open spec fn elective_keys(courses: Seq<AlinabilecekDers>, keys: Seq<Seq<char>>) -> bool {
    &&& forall|a: int, b: int| 0 <= a < b < keys.len() ==> seq_lt(keys[a], keys[b])
    &&& forall|x: Seq<char>|
        keys.contains(x) <==> exists|i: int|
            0 <= i < courses.len() && !is_required(courses[i]) && group_key(courses[i]) == x
}

/// `secs` is the section list built from `courses`: one section per
/// elective group in increasing order of group name, holding that group's
/// courses in fetched order, then, if there are any, the compulsory
/// courses, selected.
pub open spec fn built_from(
    courses: Seq<AlinabilecekDers>,
    secs: Seq<(Seq<char>, Seq<AlinabilecekDers>)>,
) -> bool {
    let req = marked(courses).filter(required_only());
    exists|keys: Seq<Seq<char>>|
        #![trigger elective_keys(courses, keys)]
        {
            &&& elective_keys(courses, keys)
            &&& secs.len() == keys.len() + if req.len() > 0 {
                1int
            } else {
                0int
            }
            &&& forall|j: int|
                0 <= j < keys.len() ==> #[trigger] secs[j] == (
                    section_title(keys[j]),
                    marked(courses).filter(in_group(keys[j])),
                )
            &&& req.len() > 0 ==> secs[keys.len() as int] == (required_title(), req)
        }
}

/// The sum of a sequence of counts.
pub open spec fn seq_sum(l: Seq<nat>) -> nat
    decreases l.len(),
{
    if l.len() == 0 {
        0
    } else {
        seq_sum(l.drop_last()) + l.last()
    }
}

/// Inserting a count adds it to the sum.
pub proof fn lemma_seq_sum_insert(l: Seq<nat>, j: int, v: nat)
    requires
        0 <= j <= l.len(),
    ensures
        seq_sum(l.insert(j, v)) == seq_sum(l) + v,
    decreases l.len(),
{
    if j < l.len() {
        lemma_seq_sum_insert(l.drop_last(), j, v);
        assert(l.insert(j, v).drop_last() =~= l.drop_last().insert(j, v));
    } else {
        assert(l.insert(j, v).drop_last() =~= l);
    }
}

/// Replacing a count changes the sum by the difference.
pub proof fn lemma_seq_sum_update(l: Seq<nat>, j: int, v: nat)
    requires
        0 <= j < l.len(),
    ensures
        seq_sum(l.update(j, v)) + l[j] == seq_sum(l) + v,
    decreases l.len(),
{
    if j < l.len() - 1 {
        lemma_seq_sum_update(l.drop_last(), j, v);
        assert(l.update(j, v).drop_last() =~= l.drop_last().update(j, v));
    } else {
        assert(l.update(j, v).drop_last() =~= l.drop_last());
    }
}

/// When every count is positive, there are no more counts than their sum.
pub proof fn lemma_seq_sum_positive(l: Seq<nat>)
    requires
        forall|i: int| 0 <= i < l.len() ==> l[i] > 0,
    ensures
        l.len() <= seq_sum(l),
    decreases l.len(),
{
    if l.len() > 0 {
        lemma_seq_sum_positive(l.drop_last());
    }
}

/// Appending a count adds it to the sum.
pub proof fn lemma_seq_sum_push(l: Seq<nat>, v: nat)
    ensures
        seq_sum(l.push(v)) == seq_sum(l) + v,
{
    assert(l.push(v).drop_last() =~= l);
}

/// The header rows and course rows together.
pub proof fn lemma_flat_len_sum(lens: Seq<nat>, s: int)
    requires
        0 <= s <= lens.len(),
    ensures
        prefix_rows(lens, s) == s + seq_sum(lens.take(s)),
    decreases s,
{
    if s > 0 {
        lemma_flat_len_sum(lens, s - 1);
        assert(lens.take(s).drop_last() =~= lens.take(s - 1));
    }
}

/// Some key of `keys` reads `x`.
pub open spec fn has_key(keys: Seq<Vec<char>>, x: Seq<char>) -> bool {
    exists|j: int| 0 <= j < keys.len() && keys[j]@ == x
}

/// Some elective course among the first `k` is in group `x`.
pub open spec fn elective_with_key(courses: Seq<AlinabilecekDers>, k: int, x: Seq<char>) -> bool {
    exists|i: int| 0 <= i < k && !is_required(courses[i]) && group_key(courses[i]) == x
}

spec fn group_lens(groups: Seq<Vec<AlinabilecekDers>>) -> Seq<nat> {
    Seq::new(groups.len(), |j: int| groups[j]@.len())
}

/// Groups the fetched courses into sections (the list the registration
/// tab shows), selecting the compulsory courses.
pub fn build_sections(courses: Vec<AlinabilecekDers>) -> (secs: Vec<(String, Vec<AlinabilecekDers>)>)
    ensures
        built_from(courses@, sections_view(secs@)),
        forall|s: int| 0 <= s < secs@.len() ==> #[trigger] secs@[s].1@.len() > 0,
        seq_sum(lens_of(secs@)) == courses@.len(),
{
    let ghost orig = courses@;
    let mut rest = courses;
    let mut required: Vec<AlinabilecekDers> = Vec::new();
    let mut keys: Vec<Vec<char>> = Vec::new();
    let mut groups: Vec<Vec<AlinabilecekDers>> = Vec::new();
    let ghost mut k: int = 0;
    let req_tag = chars_of("Zorunlu");
    let other = chars_of("Diğer Seçmeliler");
    broadcast use vstd::seq_lib::group_filter_ensures;
    while rest.len() > 0
        invariant
            0 <= k <= orig.len(),
            rest@ == orig.skip(k),
            req_tag@ == required_tag(),
            other@ == other_group(),
            required@ == marked(orig.take(k)).filter(required_only()),
            keys@.len() == groups@.len(),
            forall|a: int, b: int| 0 <= a < b < keys@.len() ==> seq_lt(keys@[a]@, keys@[b]@),
            forall|x: Seq<char>| has_key(keys@, x) <==> #[trigger] elective_with_key(orig, k, x),
            forall|j: int|
                0 <= j < groups@.len() ==> #[trigger] groups@[j]@ == marked(orig.take(k)).filter(
                    in_group(keys@[j]@),
                ),
            forall|j: int| 0 <= j < groups@.len() ==> #[trigger] groups@[j]@.len() > 0,
            seq_sum(group_lens(groups@)) + required@.len() == k,
        decreases rest.len(),
    {
        let mut c = rest.remove(0);
        let ghost c0 = c;
        assert(c0 == orig[k]);
        assert(orig.skip(k).drop_first() =~= orig.skip(k + 1));
        let ghost m_old = marked(orig.take(k));
        assert(marked(orig.take(k + 1)) =~= m_old.push(mark_required(c0))) by {
            assert(orig.take(k + 1) =~= orig.take(k).push(c0));
        }
        let tipi = chars_of(c.Tipi.as_str());
        if chars_eq(&tipi, &req_tag) {
            c.is_selected = true;
            assert(c == mark_required(c0));
            proof {
                m_old.lemma_filter_push(c, required_only());
                assert forall|j: int| 0 <= j < groups@.len() implies #[trigger] groups@[j]@
                    == marked(orig.take(k + 1)).filter(in_group(keys@[j]@)) by {
                    m_old.lemma_filter_push(c, in_group(keys@[j]@));
                }
                assert forall|x: Seq<char>| has_key(keys@, x) <==> #[trigger] elective_with_key(orig, k + 1, x) by {
                    if elective_with_key(orig, k + 1, x) {
                        let i = choose|i: int| 0 <= i < k + 1 && !is_required(orig[i]) && group_key(orig[i]) == x;
                        assert(i != k);
                        assert(elective_with_key(orig, k, x));
                    }
                    if elective_with_key(orig, k, x) {
                        let i = choose|i: int| 0 <= i < k && !is_required(orig[i]) && group_key(orig[i]) == x;
                        assert(elective_with_key(orig, k + 1, x));
                    }
                }
            }
            required.push(c);
        } else {
            assert(c == mark_required(c0));
            let key: Vec<char> = match &c.Grup {
                Some(g) => chars_of(g.as_str()),
                None => chars_of("Diğer Seçmeliler"),
            };
            assert(key@ == group_key(c0));
            let mut j: usize = 0;
            while j < keys.len() && chars_lt(&keys[j], &key)
                invariant
                    j <= keys@.len(),
                    forall|t: int| 0 <= t < j ==> seq_lt(keys@[t]@, key@),
                decreases keys.len() - j,
            {
                j += 1;
            }
            let ghost old_keys = keys@;
            let ghost old_groups = groups@;
            let ghost old_lens = group_lens(groups@);
            if j < keys.len() && chars_eq(&keys[j], &key) {
                let mut g = groups.remove(j);
                g.push(c);
                groups.insert(j, g);
                proof {
                    assert(groups@ =~= old_groups.update(j as int, g));
                    assert(group_lens(groups@) =~= old_lens.update(j as int, old_lens[j as int] + 1));
                    lemma_seq_sum_update(old_lens, j as int, old_lens[j as int] + 1);
                    m_old.lemma_filter_push(c, required_only());
                    assert forall|t: int| 0 <= t < groups@.len() implies #[trigger] groups@[t]@
                        == marked(orig.take(k + 1)).filter(in_group(keys@[t]@)) by {
                        m_old.lemma_filter_push(c, in_group(keys@[t]@));
                        if t != j {
                            if keys@[t]@ == key@ {
                                if t < j {
                                    lemma_seq_lt_transitive_chain(keys@, t, j as int);
                                } else {
                                    lemma_seq_lt_transitive_chain(keys@, j as int, t);
                                }
                                crate::text::lemma_seq_lt_irreflexive(key@);
                            }
                        }
                    }
                    assert forall|x: Seq<char>| has_key(keys@, x) <==> #[trigger] elective_with_key(orig, k + 1, x) by {
                        assert(elective_with_key(orig, k, x) ==> elective_with_key(orig, k + 1, x));
                        if elective_with_key(orig, k + 1, x) && x != key@ {
                            let i = choose|i: int| 0 <= i < k + 1 && !is_required(orig[i]) && group_key(orig[i]) == x;
                            assert(elective_with_key(orig, k, x));
                        }
                        if x == key@ {
                            assert(0 <= j < keys@.len() && keys@[j as int]@ == x);
                            assert(!is_required(orig[k]) && group_key(orig[k]) == x);
                        }
                    }
                }
            } else {
                proof {
                    if j < keys@.len() {
                        crate::text::lemma_seq_lt_total(keys@[j as int]@, key@);
                    }
                    // the key is new: no earlier elective has it
                    assert forall|t: int| 0 <= t < keys@.len() implies keys@[t]@ != key@ by {
                        if t < j {
                            crate::text::lemma_seq_lt_irreflexive(key@);
                        } else {
                            if t > j {
                                lemma_seq_lt_transitive_chain(keys@, j as int, t);
                                crate::text::lemma_seq_lt_transitive(key@, keys@[j as int]@, keys@[t]@);
                            }
                            crate::text::lemma_seq_lt_irreflexive(key@);
                        }
                    }
                    assert forall|i: int| 0 <= i < m_old.len() implies !in_group(key@)(m_old[i]) by {
                        assert(m_old[i] == mark_required(orig.take(k)[i]));
                        if in_group(key@)(m_old[i]) {
                            assert(orig.take(k)[i] == orig[i]);
                            assert(elective_with_key(orig, k, key@));
                            assert(has_key(keys@, key@));
                        }
                    }
                    m_old.lemma_all_neg_filter_empty(in_group(key@));
                }
                keys.insert(j, key);
                let mut g: Vec<AlinabilecekDers> = Vec::new();
                g.push(c);
                groups.insert(j, g);
                proof {
                    assert(group_lens(groups@) =~= old_lens.insert(j as int, 1));
                    lemma_seq_sum_insert(old_lens, j as int, 1);
                    m_old.lemma_filter_push(c, required_only());
                    m_old.lemma_filter_push(c, in_group(key@));
                    assert(g@ =~= m_old.filter(in_group(key@)).push(c));
                    assert forall|t: int| 0 <= t < groups@.len() implies #[trigger] groups@[t]@
                        == marked(orig.take(k + 1)).filter(in_group(keys@[t]@)) by {
                        if t < j {
                            assert(groups@[t] == old_groups[t]);
                            assert(keys@[t] == old_keys[t]);
                            m_old.lemma_filter_push(c, in_group(keys@[t]@));
                        } else if t > j {
                            assert(groups@[t] == old_groups[t - 1]);
                            assert(keys@[t] == old_keys[t - 1]);
                            m_old.lemma_filter_push(c, in_group(keys@[t]@));
                        }
                    }
                    assert forall|t: int| 0 <= t < groups@.len() implies #[trigger] groups@[t]@.len() > 0 by {
                        if t < j {
                            assert(groups@[t] == old_groups[t]);
                        } else if t > j {
                            assert(groups@[t] == old_groups[t - 1]);
                        }
                    }
                    assert forall|a: int, b: int| 0 <= a < b < keys@.len() implies seq_lt(keys@[a]@, keys@[b]@) by {
                        if b == j {
                            assert(keys@[a] == old_keys[a]);
                        } else if a == j {
                            assert(keys@[b] == old_keys[b - 1]);
                            if b - 1 > j {
                                lemma_seq_lt_transitive_chain(old_keys, j as int, b - 1);
                                crate::text::lemma_seq_lt_transitive(key@, old_keys[j as int]@, old_keys[b - 1]@);
                            }
                        } else {
                            let aa = if a < j { a } else { a - 1 };
                            let bb = if b < j { b } else { b - 1 };
                            assert(keys@[a] == old_keys[aa]);
                            assert(keys@[b] == old_keys[bb]);
                        }
                    }
                    assert forall|x: Seq<char>| has_key(keys@, x) <==> #[trigger] elective_with_key(orig, k + 1, x) by {
                        if has_key(keys@, x) {
                            let jj = choose|jj: int| 0 <= jj < keys@.len() && keys@[jj]@ == x;
                            if jj < j {
                                assert(keys@[jj] == old_keys[jj]);
                                assert(has_key(old_keys, x));
                                assert(elective_with_key(orig, k, x));
                                let i = choose|i: int| 0 <= i < k && !is_required(orig[i]) && group_key(orig[i]) == x;
                                assert(elective_with_key(orig, k + 1, x));
                            } else if jj > j {
                                assert(keys@[jj] == old_keys[jj - 1]);
                                assert(has_key(old_keys, x));
                                assert(elective_with_key(orig, k, x));
                                let i = choose|i: int| 0 <= i < k && !is_required(orig[i]) && group_key(orig[i]) == x;
                                assert(elective_with_key(orig, k + 1, x));
                            } else {
                                assert(!is_required(orig[k]) && group_key(orig[k]) == x);
                                assert(elective_with_key(orig, k + 1, x));
                            }
                        }
                        if elective_with_key(orig, k + 1, x) {
                            let i = choose|i: int| 0 <= i < k + 1 && !is_required(orig[i]) && group_key(orig[i]) == x;
                            if i < k {
                                assert(elective_with_key(orig, k, x));
                                assert(has_key(old_keys, x));
                                let jj = choose|jj: int| 0 <= jj < old_keys.len() && old_keys[jj]@ == x;
                                if jj < j {
                                    assert(keys@[jj] == old_keys[jj]);
                                } else {
                                    assert(keys@[jj + 1] == old_keys[jj]);
                                }
                            } else {
                                assert(keys@[j as int]@ == x);
                            }
                        }
                    }
                }
            }
        }
        proof {
            k = k + 1;
        }
    }
    assert(orig.take(k) =~= orig);
    // assemble the sections in key order, then the compulsory courses
    let ghost keys_final = keys@;
    let ghost groups_final = groups@;
    let ghost keyv = keys@.map_values(|v: Vec<char>| v@);
    let n = keys.len();
    let mut secs: Vec<(String, Vec<AlinabilecekDers>)> = Vec::new();
    let mut idx: usize = 0;
    while idx < n
        invariant
            n == keys@.len(),
            keys@ == keys_final,
            idx <= n,
            groups@ == groups_final.skip(idx as int),
            groups_final.len() == n,
            other@ == other_group(),
            secs@.len() == idx,
            forall|j: int| 0 <= j < idx ==> #[trigger] section_view(secs@[j]) == (
                section_title(keys_final[j]@),
                groups_final[j]@,
            ),
        decreases n - idx,
    {
        let g = groups.remove(0);
        assert(groups_final.skip(idx as int).drop_first() =~= groups_final.skip(idx + 1));
        let title = if chars_eq(&keys[idx], &other) {
            string_of(&keys[idx])
        } else {
            let key_str = string_of(&keys[idx]);
            concat(key_str.as_str(), " Grubu Seçmeli")
        };
        secs.push((title, g));
        idx += 1;
    }
    let ghost nk = n as int;
    if required.len() > 0 {
        let title = String::from_str("Zorunlu Dersler");
        secs.push((title, required));
    }
    proof {
        let req = marked(orig).filter(required_only());
        assert(elective_keys(orig, keyv)) by {
            assert forall|x: Seq<char>| keyv.contains(x) <==> exists|i: int|
                0 <= i < orig.len() && !is_required(orig[i]) && group_key(orig[i]) == x by {
                if keyv.contains(x) {
                    let jj = choose|jj: int| 0 <= jj < keyv.len() && keyv[jj] == x;
                    assert(keys_final[jj]@ == x);
                    assert(has_key(keys_final, x));
                    assert(elective_with_key(orig, k, x));
                }
                if exists|i: int| 0 <= i < orig.len() && !is_required(orig[i]) && group_key(orig[i]) == x {
                    assert(elective_with_key(orig, k, x));
                    let jj = choose|jj: int| 0 <= jj < keys_final.len() && keys_final[jj]@ == x;
                    assert(keyv[jj] == x);
                }
            }
        }
        let sv = sections_view(secs@);
        assert forall|j: int| 0 <= j < keyv.len() implies #[trigger] sv[j] == (
            section_title(keyv[j]),
            marked(orig).filter(in_group(keyv[j])),
        ) by {
            assert(section_view(secs@[j]) == (section_title(keys_final[j]@), groups_final[j]@));
        }
        assert(built_from(orig, sv));
        let gl = group_lens(groups_final);
        assert forall|j: int| 0 <= j < nk implies #[trigger] secs@[j].1@ == groups_final[j]@ by {
            assert(section_view(secs@[j]) == (section_title(keys_final[j]@), groups_final[j]@));
        }
        if required@.len() > 0 {
            assert(lens_of(secs@) =~= gl.push(required@.len()));
            lemma_seq_sum_push(gl, required@.len());
        } else {
            assert(lens_of(secs@) =~= gl);
        }
        assert forall|s: int| 0 <= s < secs@.len() implies #[trigger] secs@[s].1@.len() > 0 by {
            if s < nk {
                assert(section_view(secs@[s]).1 == groups_final[s]@);
            }
        }
    }
    secs
}

/// In a strictly increasing sequence, earlier elements are smaller.
pub proof fn lemma_seq_lt_transitive_chain(keys: Seq<Vec<char>>, a: int, b: int)
    requires
        0 <= a < b < keys.len(),
        forall|x: int, y: int| 0 <= x < y < keys.len() ==> seq_lt(keys[x]@, keys[y]@),
    ensures
        seq_lt(keys[a]@, keys[b]@),
{
}

// ---------------------------------------------------------------------
// The page
// ---------------------------------------------------------------------

/// The phase the registration tab is in.
pub enum State {
    Loading,
    Loaded,
    Saved,
    OutOfSchedule,
    Error(String),
}

/// The course registration tab.
///
/// Fetching and saving are performed by the caller: `needs_fetch` asks
/// for the list of courses, `needs_save` for registering `save_request`;
/// the replies are handed back to `update`.
pub struct DersAlma {
    pub selected: Option<usize>,
    pub sections: Vec<(String, Vec<AlinabilecekDers>)>,
    pub state: State,
    pub has_client: bool,
    pub error: Option<String>,
    pub needs_fetch: bool,
    pub needs_save: bool,
    pub save_request: Vec<AlinabilecekDers>,
}

/// `c` with its selection flipped.
pub open spec fn toggled(c: AlinabilecekDers) -> AlinabilecekDers {
    AlinabilecekDers { is_selected: !c.is_selected, ..c }
}

/// The sections with the selection of course `c` of section `s` flipped.
pub open spec fn toggle_at(
    secs: Seq<(Seq<char>, Seq<AlinabilecekDers>)>,
    s: int,
    c: int,
) -> Seq<(Seq<char>, Seq<AlinabilecekDers>)> {
    secs.update(s, (secs[s].0, secs[s].1.update(c, toggled(secs[s].1[c]))))
}

/// Flipping the same course twice leaves the sections as they were.
pub proof fn law_toggle_twice(secs: Seq<(Seq<char>, Seq<AlinabilecekDers>)>, s: int, c: int)
    requires
        0 <= s < secs.len(),
        0 <= c < secs[s].1.len(),
    ensures
        toggle_at(toggle_at(secs, s, c), s, c) == secs,
{
    let once = toggle_at(secs, s, c);
    assert(toggled(toggled(secs[s].1[c])) == secs[s].1[c]);
    assert(once[s].1.update(c, toggled(once[s].1[c])) =~= secs[s].1);
    assert(toggle_at(once, s, c) =~= secs);
}

impl DersAlma {
    /// The number of courses per section.
    pub open spec fn lens(&self) -> Seq<nat> {
        lens_of(self.sections@)
    }

    /// The conditions the cursor and list functions rely on: the rows can
    /// be counted in a `usize`, a nonempty list has a course row to land
    /// on, and the cursor can move one row further.
    pub open spec fn wf(&self) -> bool {
        &&& flat_len(self.lens()) <= usize::MAX
        &&& (self.sections@.len() > 0 ==> has_course(self.lens()))
        &&& (self.selected matches Some(i) ==> i < usize::MAX)
    }

    /// The cursor row the moves start from.
    pub open spec fn cursor(&self) -> int {
        match self.selected {
            Some(i) => i as int,
            None => 0,
        }
    }

    /// All fields but the cursor are those of `other`.
    pub open spec fn same_but_cursor(&self, other: &DersAlma) -> bool {
        &&& self.sections == other.sections
        &&& self.state == other.state
        &&& self.has_client == other.has_client
        &&& self.error == other.error
        &&& self.needs_fetch == other.needs_fetch
        &&& self.needs_save == other.needs_save
        &&& self.save_request == other.save_request
    }

    /// The number of rows: one per section header and one per course.
    pub fn get_flat_len(&self) -> (r: usize)
        requires
            flat_len(self.lens()) <= usize::MAX,
        ensures
            r == flat_len(self.lens()),
    {
        let ghost lens = self.lens();
        let n = self.sections.len();
        let mut total: usize = 0;
        let mut k: usize = 0;
        while k < n
            invariant
                n == self.sections.len(),
                lens == self.lens(),
                flat_len(lens) <= usize::MAX,
                k <= n,
                total == prefix_rows(lens, k as int),
            decreases n - k,
        {
            proof {
                lemma_prefix_mono(lens, k + 1, n as int);
            }
            total = total + 1 + self.sections[k].1.len();
            k += 1;
        }
        total
    }

    /// Whether row `index` is a section header.
    pub fn is_header(&self, index: usize) -> (r: bool)
        requires
            flat_len(self.lens()) <= usize::MAX,
        ensures
            r == is_header_row(self.lens(), index as int),
    {
        let ghost lens = self.lens();
        let n = self.sections.len();
        let mut current: usize = 0;
        let mut k: usize = 0;
        while k < n
            invariant
                n == self.sections.len(),
                lens == self.lens(),
                flat_len(lens) <= usize::MAX,
                k <= n,
                current == prefix_rows(lens, k as int),
                forall|t: int| 0 <= t < k ==> prefix_rows(lens, t) != index,
            decreases n - k,
        {
            if index == current {
                return true;
            }
            proof {
                lemma_prefix_mono(lens, k + 1, n as int);
            }
            current = current + 1 + self.sections[k].1.len();
            k += 1;
        }
        false
    }

    /// The section and position of the course shown at row `index`, or
    /// `None` for a header row or a row past the end.
    pub fn get_course_location(&self, index: usize) -> (r: Option<(usize, usize)>)
        requires
            flat_len(self.lens()) <= usize::MAX,
        ensures
            match r {
                Some((s, c)) => course_at(self.lens(), index as int) == Some((s as int, c as int)),
                None => course_at(self.lens(), index as int) is None,
            },
    {
        let ghost lens = self.lens();
        let n = self.sections.len();
        let mut current: usize = 0;
        let mut k: usize = 0;
        while k < n
            invariant
                n == self.sections.len(),
                lens == self.lens(),
                flat_len(lens) <= usize::MAX,
                k <= n,
                current == prefix_rows(lens, k as int),
                current <= index,
            decreases n - k,
        {
            proof {
                lemma_prefix_mono(lens, k + 1, n as int);
            }
            if index == current {
                proof {
                    assert forall|t: int| !row_in_section(lens, index as int, t) by {
                        if 0 <= t < n {
                            if t < k {
                                lemma_prefix_mono(lens, t, k as int);
                            } else {
                                lemma_prefix_mono(lens, k as int, t);
                            }
                        }
                    }
                }
                return None;
            }
            current += 1;
            let len = self.sections[k].1.len();
            if index < current + len {
                proof {
                    assert(row_in_section(lens, index as int, k as int));
                    let s = choose|s: int| row_in_section(lens, index as int, s);
                    if s < k {
                        lemma_prefix_mono(lens, s, k as int);
                    } else if s > k {
                        lemma_prefix_mono(lens, k as int, s);
                    }
                }
                return Some((k, index - current));
            }
            current += len;
            k += 1;
        }
        proof {
            assert forall|t: int| !row_in_section(lens, index as int, t) by {
                if 0 <= t < n {
                    lemma_prefix_mono(lens, t, n as int);
                }
            }
        }
        None
    }

    /// Moves the cursor down to the next course row, wrapping to the top.
    pub fn next_course(&mut self)
        requires
            old(self).wf(),
        ensures
            final(self).wf(),
            final(self).same_but_cursor(old(self)),
            old(self).sections@.len() == 0 ==> final(self).selected == old(self).selected,
            old(self).sections@.len() > 0 ==> final(self).selected == Some(
                next_row(old(self).lens(), old(self).cursor()) as usize,
            ),
    {
        if self.sections.len() == 0 {
            return;
        }
        let ghost lens = self.lens();
        let len = self.get_flat_len();
        let start = match self.selected {
            Some(i) => i,
            None => 0,
        };
        let ghost t = lemma_some_course_row(lens);
        let mut i = start + 1;
        if i >= len {
            i = 0;
        }
        let ghost mut k: nat = 1;
        assert(iter_down(start as int, len as int, 0) == start);
        assert(iter_down(start as int, len as int, 1) == step_down(start as int, len as int));
        while self.is_header(i)
            invariant
                lens == self.lens(),
                flat_len(lens) <= usize::MAX,
                len == flat_len(lens),
                0 <= t < len,
                !is_header_row(lens, t),
                0 <= i < len,
                k >= 1,
                i == iter_down(start as int, len as int, k),
                forall|j: nat| 1 <= j < k ==> is_header_row(lens, #[trigger] iter_down(start as int, len as int, j)),
            decreases down_dist(i as int, t, len as int),
        {
            proof {
                assert(i != t);
                assert forall|j: nat| 1 <= j < k + 1 implies is_header_row(lens, #[trigger] iter_down(start as int, len as int, j)) by {
                    if j == k {
                    }
                }
                assert(iter_down(start as int, len as int, k + 1) == step_down(i as int, len as int));
            }
            i = i + 1;
            if i >= len {
                i = 0;
            }
            proof {
                k = k + 1;
            }
        }
        proof {
            let kk = choose|kk: nat| is_down_stop(lens, start as int, kk);
            assert(is_down_stop(lens, start as int, k));
            lemma_down_stop_unique(lens, start as int, k, kk);
        }
        self.selected = Some(i);
    }

    /// Moves the cursor up to the previous course row, wrapping to the
    /// bottom.
    pub fn previous_course(&mut self)
        requires
            old(self).wf(),
        ensures
            final(self).wf(),
            final(self).same_but_cursor(old(self)),
            old(self).sections@.len() == 0 ==> final(self).selected == old(self).selected,
            old(self).sections@.len() > 0 ==> final(self).selected == Some(
                prev_row(old(self).lens(), old(self).cursor()) as usize,
            ),
    {
        if self.sections.len() == 0 {
            return;
        }
        let ghost lens = self.lens();
        let len = self.get_flat_len();
        let start = match self.selected {
            Some(i) => i,
            None => 0,
        };
        let ghost t = lemma_some_course_row(lens);
        let mut i = if start == 0 {
            len - 1
        } else {
            start - 1
        };
        let ghost mut k: nat = 1;
        assert(iter_up(start as int, len as int, 0) == start);
        assert(iter_up(start as int, len as int, 1) == step_up(start as int, len as int));
        while self.is_header(i)
            invariant
                lens == self.lens(),
                flat_len(lens) <= usize::MAX,
                len == flat_len(lens),
                0 <= t < len,
                !is_header_row(lens, t),
                i < usize::MAX,
                k >= 1,
                i == iter_up(start as int, len as int, k),
                forall|j: nat| 1 <= j < k ==> is_header_row(lens, #[trigger] iter_up(start as int, len as int, j)),
            decreases up_dist(i as int, t, len as int),
        {
            proof {
                lemma_header_in_range(lens, i as int);
                assert(i != t);
                assert forall|j: nat| 1 <= j < k + 1 implies is_header_row(lens, #[trigger] iter_up(start as int, len as int, j)) by {
                    if j == k {
                    }
                }
                assert(iter_up(start as int, len as int, k + 1) == step_up(i as int, len as int));
            }
            i = if i == 0 {
                len - 1
            } else {
                i - 1
            };
            proof {
                k = k + 1;
            }
        }
        proof {
            let kk = choose|kk: nat| is_up_stop(lens, start as int, kk);
            assert(is_up_stop(lens, start as int, k));
            lemma_up_stop_unique(lens, start as int, k, kk);
        }
        self.selected = Some(i);
    }

    /// Flips the selection of the course under the cursor, if any.
    pub fn toggle_course(&mut self)
        requires
            old(self).wf(),
        ensures
            final(self).wf(),
            final(self).selected == old(self).selected,
            final(self).state == old(self).state,
            final(self).error == old(self).error,
            final(self).has_client == old(self).has_client,
            final(self).needs_fetch == old(self).needs_fetch,
            final(self).needs_save == old(self).needs_save,
            final(self).save_request == old(self).save_request,
            sections_view(final(self).sections@) == match old(self).selected {
                Some(i) => match course_at(old(self).lens(), i as int) {
                    Some((s, c)) => toggle_at(sections_view(old(self).sections@), s, c),
                    None => sections_view(old(self).sections@),
                },
                None => sections_view(old(self).sections@),
            },
    {
        let ghost old_secs = self.sections@;
        if let Some(i) = self.selected {
            if let Some((s, c)) = self.get_course_location(i) {
                proof {
                    let ss = choose|ss: int| row_in_section(self.lens(), i as int, ss);
                    assert(row_in_section(self.lens(), i as int, ss));
                }
                let mut sec = self.sections.remove(s);
                let mut course = sec.1.remove(c);
                course.is_selected = !course.is_selected;
                sec.1.insert(c, course);
                self.sections.insert(s, sec);
                proof {
                    assert(self.sections@ =~= old_secs.update(s as int, sec));
                    assert(sec.1@ =~= old_secs[s as int].1@.update(c as int, toggled(old_secs[s as int].1@[c as int])));
                    assert(sections_view(self.sections@) =~= sections_view(old_secs).update(
                        s as int,
                        (old_secs[s as int].0@, old_secs[s as int].1@.update(c as int, toggled(old_secs[s as int].1@[c as int]))),
                    ));
                    assert(self.lens() =~= lens_of(old_secs));
                }
            }
        }
    }
}

/// The page is waiting for a reply or shows a final message.
pub open spec fn is_busy(st: State) -> bool {
    st is Loading || st is Saved || st is OutOfSchedule
}

/// The courses marked for registration, section by section.
pub open spec fn selected_in(secs: Seq<(Seq<char>, Seq<AlinabilecekDers>)>) -> Seq<AlinabilecekDers>
    decreases secs.len(),
{
    if secs.len() == 0 {
        seq![]
    } else {
        selected_in(secs.drop_last()) + secs.last().1.filter(is_marked())
    }
}

/// The course is marked for registration.
pub open spec fn is_marked() -> spec_fn(AlinabilecekDers) -> bool {
    |c: AlinabilecekDers| c.is_selected
}

/// The state and error message after a reply: success moves to `ok_state`
/// and clears the error; a failure outside the registration period keeps
/// the error message; any other failure is shown as an error.
pub open spec fn after_reply<T>(
    st: State,
    err: Option<String>,
    reply: Option<Result<T, String>>,
    ok_state: State,
) -> (State, Option<String>) {
    match reply {
        None => (st, err),
        Some(Ok(_)) => (ok_state, None),
        Some(Err(e)) => if seq_contains(e@, out_of_schedule_message()) {
            (State::OutOfSchedule, err)
        } else {
            (State::Error(e), Some(e))
        },
    }
}

/// `new` is `old` after a fetch was asked for.
pub open spec fn fetch_requested(old: DersAlma, new: DersAlma) -> bool {
    if old.has_client {
        new == DersAlma { state: State::Loading, needs_fetch: true, ..old }
    } else {
        new == old
    }
}

/// `new` is `old` after registering the marked courses was asked for.
pub open spec fn save_requested(old: DersAlma, new: DersAlma) -> bool {
    if old.has_client {
        &&& new.save_request@ == selected_in(sections_view(old.sections@))
        &&& new == DersAlma { state: State::Loading, needs_save: true, save_request: new.save_request, ..old }
    } else {
        new == old
    }
}

/// `new` is `old` with the cursor moved down.
pub open spec fn moved_down(old: DersAlma, new: DersAlma) -> bool {
    &&& new.same_but_cursor(&old)
    &&& old.sections@.len() == 0 ==> new.selected == old.selected
    &&& old.sections@.len() > 0 ==> new.selected == Some(next_row(old.lens(), old.cursor()) as usize)
}

/// `new` is `old` with the cursor moved up.
pub open spec fn moved_up(old: DersAlma, new: DersAlma) -> bool {
    &&& new.same_but_cursor(&old)
    &&& old.sections@.len() == 0 ==> new.selected == old.selected
    &&& old.sections@.len() > 0 ==> new.selected == Some(prev_row(old.lens(), old.cursor()) as usize)
}

/// `new` is `old` with the course under the cursor flipped.
pub open spec fn toggled_under_cursor(old: DersAlma, new: DersAlma) -> bool {
    &&& new.selected == old.selected
    &&& new.state == old.state
    &&& new.error == old.error
    &&& new.has_client == old.has_client
    &&& new.needs_fetch == old.needs_fetch
    &&& new.needs_save == old.needs_save
    &&& new.save_request == old.save_request
    &&& sections_view(new.sections@) == match old.selected {
        Some(i) => match course_at(old.lens(), i as int) {
            Some((s, c)) => toggle_at(sections_view(old.sections@), s, c),
            None => sections_view(old.sections@),
        },
        None => sections_view(old.sections@),
    }
}

/// The text shown for a course row.
pub open spec fn course_line_spec(c: AlinabilecekDers) -> Seq<char> {
    "  "@ + (if c.is_selected {
        "[x]"@
    } else {
        "[ ]"@
    }) + " "@ + c.Kodu@ + " - "@ + c.DersAdi@ + " ("@ + c.Tipi@ + ")"@
}

impl Default for DersAlma {
    /// A tab with no server connection: it never asks for a fetch or a save.
    fn default() -> (r: DersAlma)
        ensures
            r.selected is None,
            r.sections@.len() == 0,
            r.state is Loading,
            !r.has_client,
            r.error is None,
            !r.needs_fetch,
            !r.needs_save,
            r.save_request@.len() == 0,
            r.wf(),
    {
        DersAlma {
            selected: None,
            sections: Vec::new(),
            state: State::Loading,
            has_client: false,
            error: None,
            needs_fetch: false,
            needs_save: false,
            save_request: Vec::new(),
        }
    }

}

/// How the tab takes the replies `fetch` (a course list) and `save` (a
/// registration reply), going from `d0` to `d1`: a course list is grouped
/// into sections with the cursor on the first course, and the state and
/// error message follow both replies in turn; nothing else changes.
pub open spec fn replies_taken(
    d0: DersAlma,
    d1: DersAlma,
    fetch: Option<Result<Vec<AlinabilecekDers>, String>>,
    save: Option<Result<String, String>>,
) -> bool {
    &&& d1.has_client == d0.has_client
    &&& d1.needs_fetch == d0.needs_fetch
    &&& d1.needs_save == d0.needs_save
    &&& d1.save_request == d0.save_request
    &&& match fetch {
        Some(Ok(v)) => {
            &&& built_from(v@, sections_view(d1.sections@))
            &&& seq_sum(d1.lens()) == v@.len()
            &&& d1.sections@.len() > 0 ==> d1.selected == Some(1usize)
            &&& d1.sections@.len() == 0 ==> d1.selected == d0.selected
        },
        _ => {
            &&& d1.sections == d0.sections
            &&& d1.selected == d0.selected
        },
    }
    &&& ({
        let mid = after_reply(d0.state, d0.error, fetch, State::Loaded);
        after_reply(mid.0, mid.1, save, State::Saved)
    }) == (d1.state, d1.error)
}

/// How the tab takes input `e`, going from `d0` to `d1` and answering
/// `action`: while loading or showing a final message only `r` (refetch,
/// after a save or outside the registration period) is taken; otherwise
/// `Down`/`j` and `Up`/`k` move the cursor, space flips the course under
/// it and `Enter` registers the marked courses.
pub open spec fn input_taken(d0: DersAlma, d1: DersAlma, e: Event, action: PageAction) -> bool {
    &&& is_busy(d0.state) ==> {
        if (e matches Event::Key(k) && k.code == KeyCode::Char('r')) && (d0.state is Saved
            || d0.state is OutOfSchedule) {
            action == PageAction::Tick && fetch_requested(d0, d1)
        } else {
            action == PageAction::NoAction && d1 == d0
        }
    }
    &&& !is_busy(d0.state) ==> match e {
        Event::Key(k) => match k.code {
            KeyCode::Down | KeyCode::Char('j') => action == PageAction::NoAction && moved_down(d0, d1),
            KeyCode::Up | KeyCode::Char('k') => action == PageAction::NoAction && moved_up(d0, d1),
            KeyCode::Char(' ') => action == PageAction::NoAction && toggled_under_cursor(d0, d1),
            KeyCode::Enter => action == PageAction::Tick && save_requested(d0, d1),
            _ => action == PageAction::NoAction && d1 == d0,
        },
        _ => action == PageAction::NoAction && d1 == d0,
    }
}

/// Once the courses are registered, or outside the registration period,
/// `r` asks for the course list again (when connected): the answer is
/// `Tick`, the tab shows the loading message, and a fetch is due.
pub proof fn law_refresh_after_save_or_out_of_schedule(
    d0: DersAlma,
    d1: DersAlma,
    action: PageAction,
    ctrl: bool,
)
    requires
        d0.has_client,
        d0.state is Saved || d0.state is OutOfSchedule,
        input_taken(d0, d1, Event::Key(crate::pages::KeyEvent { code: KeyCode::Char('r'), ctrl }), action),
    ensures
        action == PageAction::Tick,
        d1.state is Loading,
        d1.needs_fetch,
        d1.sections == d0.sections,
        d1.selected == d0.selected,
{
}

/// On a shown list, `Down` and `j` move the cursor to the next course row
/// (skipping headers, wrapping at the end), and `Up` and `k` to the previous
/// one; nothing else changes and no action is asked for.
pub proof fn law_arrows_and_letters_move_the_cursor(
    d0: DersAlma,
    d1: DersAlma,
    action: PageAction,
    code: KeyCode,
    ctrl: bool,
)
    requires
        !is_busy(d0.state),
        d0.sections@.len() > 0,
        code == KeyCode::Down || code == KeyCode::Char('j') || code == KeyCode::Up || code
            == KeyCode::Char('k'),
        input_taken(d0, d1, Event::Key(crate::pages::KeyEvent { code, ctrl }), action),
    ensures
        action == PageAction::NoAction,
        d1.same_but_cursor(&d0),
        (code == KeyCode::Down || code == KeyCode::Char('j')) ==> d1.selected == Some(
            next_row(d0.lens(), d0.cursor()) as usize,
        ),
        (code == KeyCode::Up || code == KeyCode::Char('k')) ==> d1.selected == Some(
            prev_row(d0.lens(), d0.cursor()) as usize,
        ),
{
}

impl DersAlma {
    /// A tab connected to the server; it asks for the course list at once.
    pub fn new() -> (r: DersAlma)
        ensures
            r.selected is None,
            r.sections@.len() == 0,
            r.state is Loading,
            r.has_client,
            r.error is None,
            r.needs_fetch,
            !r.needs_save,
            r.save_request@.len() == 0,
            r.wf(),
    {
        DersAlma {
            selected: None,
            sections: Vec::new(),
            state: State::Loading,
            has_client: true,
            error: None,
            needs_fetch: true,
            needs_save: false,
            save_request: Vec::new(),
        }
    }

    /// Asks for the course list (when connected) and shows the loading
    /// message.
    pub fn fetch_courses(&mut self)
        ensures
            fetch_requested(*old(self), *final(self)),
    {
        if self.has_client {
            self.state = State::Loading;
            self.needs_fetch = true;
        }
    }

    /// The marked courses, section by section, in list order.
    pub fn selected_courses(&self) -> (r: Vec<AlinabilecekDers>)
        ensures
            r@ == selected_in(sections_view(self.sections@)),
    {
        let ghost view = sections_view(self.sections@);
        let mut r: Vec<AlinabilecekDers> = Vec::new();
        let n = self.sections.len();
        let mut s: usize = 0;
        while s < n
            invariant
                n == self.sections@.len(),
                view == sections_view(self.sections@),
                s <= n,
                r@ == selected_in(view.take(s as int)),
            decreases n - s,
        {
            let courses = &self.sections[s].1;
            let m = courses.len();
            let ghost base = r@;
            let mut c: usize = 0;
            while c < m
                invariant
                    n == self.sections@.len(),
                    view == sections_view(self.sections@),
                    s < n,
                    courses == &self.sections@[s as int].1,
                    m == courses@.len(),
                    c <= m,
                    base == selected_in(view.take(s as int)),
                    r@ == base + courses@.take(c as int).filter(is_marked()),
                decreases m - c,
            {
                proof {
                    assert(courses@.take(c + 1) =~= courses@.take(c as int).push(courses@[c as int]));
                    courses@.take(c as int).lemma_filter_push(courses@[c as int], is_marked());
                }
                if courses[c].is_selected {
                    r.push(courses[c].duplicate());
                }
                c += 1;
            }
            proof {
                assert(courses@.take(m as int) =~= courses@);
                assert(view.take(s + 1).drop_last() =~= view.take(s as int));
                assert(view[s as int].1 == courses@);
            }
            s += 1;
        }
        assert(view.take(n as int) =~= view);
        r
    }

    /// Asks for registering the marked courses (when connected) and shows
    /// the loading message.
    pub fn save_courses(&mut self)
        ensures
            save_requested(*old(self), *final(self)),
    {
        if self.has_client {
            self.state = State::Loading;
            let request = self.selected_courses();
            self.save_request = request;
            self.needs_save = true;
        }
    }

    /// Takes the replies that have arrived: a course list is grouped into
    /// sections with the cursor on the first course; a registration reply
    /// updates the message.
    pub fn update(
        &mut self,
        fetch: &mut Option<Result<Vec<AlinabilecekDers>, String>>,
        save: &mut Option<Result<String, String>>,
    ) -> (action: PageAction)
        requires
            old(self).wf(),
            *old(fetch) matches Some(Ok(v)) ==> v@.len() <= usize::MAX / 2,
        ensures
            action == PageAction::NoAction,
            *final(fetch) is None,
            *final(save) is None,
            final(self).wf(),
            replies_taken(*old(self), *final(self), *old(fetch), *old(save)),
    {
        let fetched = fetch.take();
        match fetched {
            Some(Ok(courses)) => {
                let ghost v = courses@;
                let sections = build_sections(courses);
                self.sections = sections;
                let ghost lens = self.lens();
                proof {
                    let n = lens.len();
                    assert(lens.take(n as int) =~= lens);
                    lemma_flat_len_sum(lens, n as int);
                    assert forall|i: int| 0 <= i < lens.len() implies lens[i] > 0 by {
                        assert(self.sections@[i].1@.len() > 0);
                    }
                    lemma_seq_sum_positive(lens);
                }
                if self.sections.len() > 0 {
                    proof {
                        assert(lens[0] > 0);
                        lemma_first_course_row(lens, 0);
                        assert(prefix_rows(lens, 0) == 0);
                        assert(is_header_row(lens, 0));
                    }
                    let mut i: usize = 0;
                    while i < self.get_flat_len() && self.is_header(i)
                        invariant
                            lens == self.lens(),
                            flat_len(lens) <= usize::MAX,
                            i <= 1,
                            1 < flat_len(lens),
                            is_header_row(lens, 0),
                            !is_header_row(lens, 1),
                        decreases 1 - i,
                    {
                        i += 1;
                    }
                    self.selected = Some(i);
                }
                self.state = State::Loaded;
                self.error = None;
            },
            Some(Err(e)) => {
                if str_contains(e.as_str(), "Ders Alma Takvimi Dışındasınız") {
                    self.state = State::OutOfSchedule;
                } else {
                    self.error = Some(e.clone());
                    self.state = State::Error(e);
                }
            },
            None => {},
        }
        let saved = save.take();
        match saved {
            Some(Ok(_)) => {
                self.state = State::Saved;
                self.error = None;
            },
            Some(Err(e)) => {
                if str_contains(e.as_str(), "Ders Alma Takvimi Dışındasınız") {
                    self.state = State::OutOfSchedule;
                } else {
                    self.error = Some(e.clone());
                    self.state = State::Error(e);
                }
            },
            None => {},
        }
        PageAction::NoAction
    }

    /// Reacts to a key: while loading or showing a final message only `r`
    /// (refetch, after a save or outside the registration period) is
    /// taken; otherwise `Down`/`j` and `Up`/`k` move the cursor, space
    /// flips the course under it and `Enter` registers the marked courses.
    pub fn handle_event(&mut self, event: Event) -> (action: PageAction)
        requires
            old(self).wf(),
        ensures
            final(self).wf(),
            input_taken(*old(self), *final(self), event, action),
    {
        let busy = match self.state {
            State::Loading | State::Saved | State::OutOfSchedule => true,
            _ => false,
        };
        if busy {
            if let Event::Key(key) = event {
                let done = match self.state {
                    State::Saved | State::OutOfSchedule => true,
                    _ => false,
                };
                if key.code == KeyCode::Char('r') && done {
                    self.fetch_courses();
                    return PageAction::Tick;
                }
            }
            return PageAction::NoAction;
        }
        if let Event::Key(key) = event {
            match key.code {
                KeyCode::Down | KeyCode::Char('j') => {
                    self.next_course();
                },
                KeyCode::Up | KeyCode::Char('k') => {
                    self.previous_course();
                },
                KeyCode::Char(' ') => {
                    self.toggle_course();
                },
                KeyCode::Enter => {
                    self.save_courses();
                    return PageAction::Tick;
                },
                _ => {},
            }
        }
        PageAction::NoAction
    }

    /// The message shown in place of the course list: while loading,
    /// after a save, and outside the registration period; nothing when the
    /// list (or the error beneath it) is shown.
    pub fn status_message(&self) -> (r: Option<&'static str>)
        ensures
            match self.state {
                State::Loading => r matches Some(m) && m@ == "Lütfen bekleyin..."@,
                State::Saved => r matches Some(m) && m@ == "Ders seçim işleminiz başarıyla tamamlandı."@,
                State::OutOfSchedule => r matches Some(m) && m@ == "  Ders Alma Takvimi Dışındasınız.  "@,
                _ => r is None,
            },
    {
        match self.state {
            State::Loading => Some("Lütfen bekleyin..."),
            State::Saved => Some("Ders seçim işleminiz başarıyla tamamlandı."),
            State::OutOfSchedule => Some("  Ders Alma Takvimi Dışındasınız.  "),
            _ => None,
        }
    }

    /// The title of the list for the current phase.
    pub fn list_title(&self) -> (r: &'static str)
        ensures
            r@ == match self.state {
                State::Loading => "Yükleniyor..."@,
                State::Saved => "Dersler seçildi"@,
                State::OutOfSchedule => "Ders seçimi (r ile yenile)"@,
                _ => "Ders seçimi (boşluk ile seç, enter ile onayla)"@,
            },
    {
        match self.state {
            State::Loading => "Yükleniyor...",
            State::Saved => "Dersler seçildi",
            State::OutOfSchedule => "Ders seçimi (r ile yenile)",
            _ => "Ders seçimi (boşluk ile seç, enter ile onayla)",
        }
    }
}

/// The text of a course row: its mark, code, name and type.
pub fn course_line(c: &AlinabilecekDers) -> (r: String)
    ensures
        r@ == course_line_spec(*c),
{
    let mark = if c.is_selected {
        "[x]"
    } else {
        "[ ]"
    };
    let s = concat("  ", mark);
    let s = concat(s.as_str(), " ");
    let s = concat(s.as_str(), c.Kodu.as_str());
    let s = concat(s.as_str(), " - ");
    let s = concat(s.as_str(), c.DersAdi.as_str());
    let s = concat(s.as_str(), " (");
    let s = concat(s.as_str(), c.Tipi.as_str());
    concat(s.as_str(), ")")
}

} // verus!
