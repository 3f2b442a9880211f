//! Cinnamon desktop detection and the monitors of the screen.

use crate::text::{
    ascii_lower, ascii_only, contains_seq, contains_text, decimal, decimal_text, lossy_text, lossy_utf8, lowercase,
    lowercase_text, occurs_at, opt_str, opt_text, signed_decimal, signed_decimal_text,
};
use vstd::prelude::*;
use vstd::string::*;
use vstd::utf8::*;

verus! {

/// Monitor information.
#[derive(Debug, Clone, Copy, PartialEq, Eq, Structural)]
pub struct MonitorInfo {
    pub x: i32,
    pub y: i32,
    pub width: u32,
    pub height: u32,
    pub primary: bool,
}

/// A rectangle of the screen as the display server reports it.
#[derive(Debug, Clone, Copy, PartialEq, Eq, Structural)]
pub struct ScreenArea {
    pub x: i16,
    pub y: i16,
    pub width: u16,
    pub height: u16,
}

/// A monitor as the display server reports it.
#[derive(Debug, Clone, Copy, PartialEq, Eq, Structural)]
pub struct ReportedMonitor {
    pub area: ScreenArea,
    pub primary: bool,
}

/// An output of the graphics hardware, for servers that report no monitors.
#[derive(Debug, Clone, Copy, PartialEq, Eq, Structural)]
pub struct ReportedOutput {
    /// Something is plugged in.
    pub connected: bool,
    /// The controller that drives the output; 0 for none.
    pub crtc: u32,
    /// What the controller shows; of no meaning unless the output is active.
    pub area: ScreenArea,
}

/// The area as a monitor.
pub open spec fn monitor_of(area: ScreenArea, primary: bool) -> MonitorInfo {
    MonitorInfo {
        x: area.x as i32,
        y: area.y as i32,
        width: area.width as u32,
        height: area.height as u32,
        primary,
    }
}

/// An output that shows something.
pub open spec fn active(connected: bool, crtc: u32) -> bool {
    connected && crtc != 0
}

/// The monitors behind the active outputs, in order; the first one counts as the
/// primary one.
pub open spec fn output_monitors(outputs: Seq<ReportedOutput>) -> Seq<MonitorInfo>
    decreases outputs.len(),
{
    if outputs.len() == 0 {
        Seq::<MonitorInfo>::empty()
    } else {
        let rest = output_monitors(outputs.drop_last());
        let last = outputs.last();
        if active(last.connected, last.crtc) {
            rest.push(monitor_of(last.area, rest.len() == 0))
        } else {
            rest
        }
    }
}

/// The monitors that were found: the reported ones, or those behind the outputs
/// when none was reported.
pub open spec fn found_monitors(
    reported: Seq<ReportedMonitor>,
    outputs: Seq<ReportedOutput>,
) -> Seq<MonitorInfo> {
    if reported.len() > 0 {
        reported.map_values(|m: ReportedMonitor| monitor_of(m.area, m.primary))
    } else {
        output_monitors(outputs)
    }
}

/// `a` stands left of `b`, or above it in the same column, or at the same place.
pub open spec fn not_after(a: MonitorInfo, b: MonitorInfo) -> bool {
    a.x < b.x || (a.x == b.x && a.y <= b.y)
}

/// Left to right, and top to bottom within a column.
pub open spec fn in_screen_order(s: Seq<MonitorInfo>) -> bool {
    forall|i: int, j: int| 0 <= i <= j < s.len() ==> not_after(#[trigger] s[i], #[trigger] s[j])
}

/// The monitors at one place.
pub open spec fn at(x: i32, y: i32) -> spec_fn(MonitorInfo) -> bool {
    |m: MonitorInfo| m.x == x && m.y == y
}

/// `a` and `b` hold the same monitors, and those at one place in the same order.
pub open spec fn same_monitors(a: Seq<MonitorInfo>, b: Seq<MonitorInfo>) -> bool {
    forall|x: i32, y: i32| a.filter(#[trigger] at(x, y)) == b.filter(at(x, y))
}

/// `sorted` is `s` in screen order; monitors at one place keep their order.
pub open spec fn is_screen_order_of(sorted: Seq<MonitorInfo>, s: Seq<MonitorInfo>) -> bool {
    in_screen_order(sorted) && same_monitors(sorted, s)
}

/// A monitor has the place and the size of the area that was reported.
pub proof fn law_monitor_has_its_area(area: ScreenArea, primary: bool)
    ensures
        monitor_of(area, primary).x == area.x,
        monitor_of(area, primary).y == area.y,
        monitor_of(area, primary).width == area.width,
        monitor_of(area, primary).height == area.height,
        monitor_of(area, primary).primary == primary,
{
}

/// Every output that is plugged in and driven is one monitor, in order, with the area of its
/// controller; no other output is one.
pub proof fn law_active_outputs_are_monitors(outputs: Seq<ReportedOutput>, output: ReportedOutput)
    ensures
        output_monitors(Seq::<ReportedOutput>::empty()).len() == 0,
        output.connected && output.crtc != 0 ==> {
            let before = output_monitors(outputs);
            let after = output_monitors(outputs.push(output));
            &&& after.len() == before.len() + 1
            &&& after.drop_last() == before
            &&& after.last().x == output.area.x
            &&& after.last().y == output.area.y
            &&& after.last().width == output.area.width
            &&& after.last().height == output.area.height
        },
        !output.connected || output.crtc == 0 ==> output_monitors(outputs.push(output))
            == output_monitors(outputs),
{
    assert(outputs.push(output).drop_last() =~= outputs);
    let before = output_monitors(outputs);
    let after = output_monitors(outputs.push(output));
    if output.connected && output.crtc != 0 {
        assert(after.drop_last() =~= before);
    }
}

/// Monitors that were reported are all that counts: each is found as it was reported. Only when
/// none was are the outputs asked.
pub proof fn law_reported_monitors_come_first(
    reported: Seq<ReportedMonitor>,
    outputs: Seq<ReportedOutput>,
    i: int,
)
    ensures
        reported.len() == 0 ==> found_monitors(reported, outputs) == output_monitors(outputs),
        reported.len() > 0 ==> found_monitors(reported, outputs).len() == reported.len(),
        0 <= i < reported.len() ==> {
            let m = found_monitors(reported, outputs)[i];
            &&& m.x == reported[i].area.x
            &&& m.y == reported[i].area.y
            &&& m.width == reported[i].area.width
            &&& m.height == reported[i].area.height
            &&& m.primary == reported[i].primary
        },
{
}

proof fn lemma_count_at_place(s: Seq<MonitorInfo>, m: MonitorInfo)
    ensures
        s.to_multiset().count(m) == s.filter(at(m.x, m.y)).to_multiset().count(m),
    decreases s.len(),
{
    broadcast use vstd::seq_lib::group_to_multiset_ensures;

    reveal(Seq::filter);
    if s.len() > 0 {
        let front = s.drop_last();
        lemma_count_at_place(front, m);
        assert(front.push(s.last()) =~= s);
        assert(s.to_multiset() == front.to_multiset().insert(s.last()));
        let kept = front.filter(at(m.x, m.y));
        if at(m.x, m.y)(s.last()) {
            assert(s.filter(at(m.x, m.y)) == kept.push(s.last()));
            assert(kept.push(s.last()).to_multiset() == kept.to_multiset().insert(s.last()));
        }
    } else {
        assert(s.filter(at(m.x, m.y)) =~= s);
    }
}

/// Putting monitors in screen order loses none and makes none up: each is there as often as it
/// was found. They then go from left to right, and from top to bottom within a column.
pub proof fn law_screen_order_goes_left_to_right(
    sorted: Seq<MonitorInfo>,
    s: Seq<MonitorInfo>,
    i: int,
    j: int,
)
    requires
        is_screen_order_of(sorted, s),
        0 <= i < j < sorted.len(),
    ensures
        sorted[i].x < sorted[j].x || (sorted[i].x == sorted[j].x && sorted[i].y <= sorted[j].y),
        sorted.len() == s.len(),
        sorted.to_multiset() == s.to_multiset(),
{
    law_screen_order_keeps_the_monitors(sorted, s);
    assert(not_after(sorted[i], sorted[j]));
}

/// Putting monitors in screen order loses none and makes none up.
pub proof fn law_screen_order_keeps_the_monitors(sorted: Seq<MonitorInfo>, s: Seq<MonitorInfo>)
    requires
        is_screen_order_of(sorted, s),
    ensures
        sorted.len() == s.len(),
        sorted.to_multiset() == s.to_multiset(),
{
    broadcast use vstd::seq_lib::group_to_multiset_ensures;

    assert forall|m: MonitorInfo| #[trigger] sorted.to_multiset().count(m) == s.to_multiset().count(
        m,
    ) by {
        lemma_count_at_place(sorted, m);
        lemma_count_at_place(s, m);
        assert(sorted.filter(at(m.x, m.y)) == s.filter(at(m.x, m.y)));
    }
    assert(sorted.to_multiset() =~= s.to_multiset());
    sorted.to_multiset_ensures();
    s.to_multiset_ensures();
    assert(sorted.to_multiset().len() == s.to_multiset().len());
}

/// Monitors at one place keep the order in which they were found.
pub proof fn law_monitors_at_one_place_keep_their_order(
    sorted: Seq<MonitorInfo>,
    s: Seq<MonitorInfo>,
    x: i32,
    y: i32,
)
    requires
        is_screen_order_of(sorted, s),
    ensures
        sorted.filter(|m: MonitorInfo| m.x == x && m.y == y) == s.filter(
            |m: MonitorInfo| m.x == x && m.y == y,
        ),
{
    let here = |m: MonitorInfo| m.x == x && m.y == y;
    assert(here =~= at(x, y));
    assert(sorted.filter(at(x, y)) == s.filter(at(x, y)));
}

proof fn lemma_filter_single(m: MonitorInfo, x: i32, y: i32)
    ensures
        seq![m].filter(at(x, y)) == if m.x == x && m.y == y {
            seq![m]
        } else {
            Seq::<MonitorInfo>::empty()
        },
{
    reveal_with_fuel(Seq::filter, 2);
    let s = seq![m];
    assert(s.drop_last() =~= Seq::<MonitorInfo>::empty());
    assert(s.filter(at(x, y)) =~= if m.x == x && m.y == y {
        seq![m]
    } else {
        Seq::<MonitorInfo>::empty()
    });
}

proof fn lemma_insert_in_order(s: Seq<MonitorInfo>, m: MonitorInfo, k: int)
    requires
        in_screen_order(s),
        0 <= k <= s.len(),
        forall|i: int| 0 <= i < k ==> not_after(#[trigger] s[i], m),
        forall|i: int| k <= i < s.len() ==> !not_after(#[trigger] s[i], m),
    ensures
        in_screen_order(s.insert(k, m)),
        same_monitors(s.insert(k, m), s.push(m)),
{
    let t = s.insert(k, m);
    let front = s.take(k);
    let back = s.skip(k);
    let one = seq![m];
    assert(t =~= front + one + back);
    assert(s =~= front + back);
    assert(s.push(m) =~= front + back + one);
    assert forall|x: i32, y: i32| t.filter(#[trigger] at(x, y)) == s.push(m).filter(at(x, y)) by {
        let p = at(x, y);
        Seq::filter_distributes_over_add(front + one, back, p);
        Seq::filter_distributes_over_add(front, one, p);
        Seq::filter_distributes_over_add(front + back, one, p);
        Seq::filter_distributes_over_add(front, back, p);
        lemma_filter_single(m, x, y);
        if m.x == x && m.y == y {
            assert forall|i: int| 0 <= i < back.len() implies !p(#[trigger] back[i]) by {
                assert(back[i] == s[k + i]);
            }
            back.lemma_all_neg_filter_empty(p);
            assert(t.filter(p) =~= s.push(m).filter(p));
        } else {
            assert(t.filter(p) =~= s.push(m).filter(p));
        }
    }
    assert forall|i: int, j: int| 0 <= i <= j < t.len() implies not_after(
        #[trigger] t[i],
        #[trigger] t[j],
    ) by {
        let a = if i < k { i } else { i - 1 };
        let b = if j < k { j } else { j - 1 };
        if i != k && j != k {
            assert(t[i] == s[a] && t[j] == s[b]);
        } else if i == k && j != k {
            assert(t[j] == s[b]);
        } else if j == k && i != k {
            assert(t[i] == s[a]);
        }
    }
}

proof fn lemma_same_monitors_push(a: Seq<MonitorInfo>, b: Seq<MonitorInfo>, m: MonitorInfo)
    requires
        same_monitors(a, b),
    ensures
        same_monitors(a.push(m), b.push(m)),
{
    let one = seq![m];
    assert(a.push(m) =~= a + one);
    assert(b.push(m) =~= b + one);
    assert forall|x: i32, y: i32|
        a.push(m).filter(#[trigger] at(x, y)) == b.push(m).filter(at(x, y)) by {
        Seq::filter_distributes_over_add(a, one, at(x, y));
        Seq::filter_distributes_over_add(b, one, at(x, y));
    }
}

/// Puts the monitors in screen order.
fn sort_monitors(monitors: &Vec<MonitorInfo>) -> (sorted: Vec<MonitorInfo>)
    ensures
        is_screen_order_of(sorted@, monitors@),
{
    let mut sorted: Vec<MonitorInfo> = Vec::new();
    assert(sorted@ =~= monitors@.take(0));
    for i in 0..monitors.len()
        invariant
            is_screen_order_of(sorted@, monitors@.take(i as int)),
    {
        let m = monitors[i];
        let mut k: usize = sorted.len();
        while k > 0 && !(sorted[k - 1].x < m.x || (sorted[k - 1].x == m.x && sorted[k - 1].y <= m.y))
            invariant
                k <= sorted@.len(),
                forall|j: int| k <= j < sorted@.len() ==> !not_after(#[trigger] sorted@[j], m),
            decreases k,
        {
            k -= 1;
        }
        let ghost before = sorted@;
        proof {
            assert forall|j: int| 0 <= j < k implies not_after(#[trigger] before[j], m) by {
                assert(not_after(before[j], before[k - 1]));
            }
            lemma_insert_in_order(before, m, k as int);
            lemma_same_monitors_push(before, monitors@.take(i as int), m);
            assert(monitors@.take(i + 1) =~= monitors@.take(i as int).push(m));
        }
        sorted.insert(k, m);
        assert forall|x: i32, y: i32|
            sorted@.filter(#[trigger] at(x, y)) == monitors@.take(i + 1).filter(at(x, y)) by {
            assert(before.push(m).filter(at(x, y)) == monitors@.take(i + 1).filter(at(x, y)));
        }
    }
    assert(monitors@.take(monitors@.len() as int) =~= monitors@);
    sorted
}

proof fn lemma_filter_first(s: Seq<MonitorInfo>, x: i32, y: i32)
    requires
        s.len() > 0,
    ensures
        s.filter(at(x, y)) == (if s[0].x == x && s[0].y == y {
            seq![s[0]]
        } else {
            Seq::<MonitorInfo>::empty()
        }) + s.drop_first().filter(at(x, y)),
{
    assert(s =~= seq![s[0]] + s.drop_first());
    Seq::filter_distributes_over_add(seq![s[0]], s.drop_first(), at(x, y));
    lemma_filter_single(s[0], x, y);
}

/// The screen order of a list of monitors is unique: whatever is in screen order
/// and holds the same monitors is the same list.
pub proof fn law_screen_order_is_unique(a: Seq<MonitorInfo>, b: Seq<MonitorInfo>)
    requires
        in_screen_order(a),
        in_screen_order(b),
        same_monitors(a, b),
    ensures
        a == b,
    decreases a.len(),
{
    if a.len() == 0 {
        if b.len() > 0 {
            lemma_filter_first(b, b[0].x, b[0].y);
            reveal(Seq::filter);
            assert(a.filter(at(b[0].x, b[0].y)).len() == 0);
        }
        assert(a =~= b);
    } else {
        let (x, y) = (a[0].x, a[0].y);
        lemma_filter_first(a, x, y);
        assert(a.filter(at(x, y))[0] == a[0]);
        if b.len() == 0 {
            reveal(Seq::filter);
            assert(b.filter(at(x, y)).len() == 0);
        }
        // The first place of `b` occurs in `a`, and the other way round.
        let (u, v) = (b[0].x, b[0].y);
        lemma_filter_first(b, u, v);
        assert(b.filter(at(u, v))[0] == b[0]);
        assert(a.filter(at(u, v)).contains(b[0]));
        a.lemma_filter_contains_rev(at(u, v), b[0]);
        let i = choose|i: int| 0 <= i < a.len() && a[i] == b[0];
        assert(not_after(a[0], a[i]));
        assert(b.filter(at(x, y)).contains(a[0]));
        b.lemma_filter_contains_rev(at(x, y), a[0]);
        let j = choose|j: int| 0 <= j < b.len() && b[j] == a[0];
        assert(not_after(b[0], b[j]));
        assert(x == u && y == v);
        assert(a[0] == b[0]);
        let ra = a.drop_first();
        let rb = b.drop_first();
        assert forall|p: int, q: int| 0 <= p <= q < ra.len() implies not_after(
            #[trigger] ra[p],
            #[trigger] ra[q],
        ) by {
            assert(not_after(a[p + 1], a[q + 1]));
        }
        assert forall|p: int, q: int| 0 <= p <= q < rb.len() implies not_after(
            #[trigger] rb[p],
            #[trigger] rb[q],
        ) by {
            assert(not_after(b[p + 1], b[q + 1]));
        }
        assert forall|s: i32, t: i32| ra.filter(#[trigger] at(s, t)) == rb.filter(at(s, t)) by {
            lemma_filter_first(a, s, t);
            lemma_filter_first(b, s, t);
            let head = if a[0].x == s && a[0].y == t {
                seq![a[0]]
            } else {
                Seq::<MonitorInfo>::empty()
            };
            let n = head.len() as int;
            assert((head + ra.filter(at(s, t))).skip(n) =~= ra.filter(at(s, t)));
            assert((head + rb.filter(at(s, t))).skip(n) =~= rb.filter(at(s, t)));
        }
        law_screen_order_is_unique(ra, rb);
        assert(a =~= seq![a[0]] + ra);
        assert(b =~= seq![b[0]] + rb);
    }
}

/// Whether an output shows something and its controller is worth asking.
pub fn is_active_output(connected: bool, crtc: u32) -> (r: bool)
    ensures
        r == active(connected, crtc),
{
    connected && crtc != 0
}

fn to_monitor(area: ScreenArea, primary: bool) -> (m: MonitorInfo)
    ensures
        m == monitor_of(area, primary),
{
    MonitorInfo {
        x: area.x as i32,
        y: area.y as i32,
        width: area.width as u32,
        height: area.height as u32,
        primary,
    }
}

/// A lower case desktop or window manager name tells of Cinnamon.
pub fn names_cinnamon(lowered: &str) -> (r: bool)
    ensures
        r == contains_seq(lowered@, "cinnamon"@),
{
    contains_text(lowered, "cinnamon")
}

/// A lower case window manager name is one that Cinnamon runs with.
pub fn is_cinnamon_wm(lowered: &str) -> (r: bool)
    ensures
        r == (contains_seq(lowered@, "mutter"@) || contains_seq(lowered@, "cinnamon"@)),
{
    contains_text(lowered, "mutter") || contains_text(lowered, "cinnamon")
}

/// The session names a Cinnamon desktop.
pub open spec fn session_is_cinnamon(name: Option<Seq<char>>) -> bool {
    name matches Some(n) && contains_seq(lowercase(n), "cinnamon"@)
}

/// The window manager is one that Cinnamon runs with.
pub open spec fn wm_is_cinnamon(name: Option<Seq<char>>) -> bool {
    name matches Some(n) && (contains_seq(lowercase(n), "mutter"@) || contains_seq(
        lowercase(n),
        "cinnamon"@,
    ))
}

/// There is no name, or it is written in ASCII.
pub open spec fn no_other_than_ascii(name: Option<Seq<char>>) -> bool {
    name matches Some(n) ==> ascii_only(n)
}

/// A name in ASCII that holds the lower case `word`, however the name's letters are
/// written.
pub open spec fn ascii_names(name: Option<Seq<char>>, word: Seq<char>) -> bool {
    name matches Some(n) && ascii_only(n) && contains_seq(
        n.map_values(|c: char| ascii_lower(c)),
        word,
    )
}

/// A session is Cinnamon's exactly when its name, in lower case, has the desktop's name
/// somewhere in it; a window manager's name may instead name the one that Cinnamon runs with.
/// What has no name is neither.
pub proof fn law_cinnamon_is_known_by_name(name: Seq<char>)
    ensures
        session_is_cinnamon(Some(name)) <==> contains_seq(lowercase(name), "cinnamon"@),
        wm_is_cinnamon(Some(name)) <==> contains_seq(lowercase(name), "cinnamon"@) || contains_seq(
            lowercase(name),
            "mutter"@,
        ),
        !session_is_cinnamon(None),
        !wm_is_cinnamon(None),
{
}

/// A word is in a name of ASCII characters, however its letters are written, exactly when the
/// name has a stretch that differs from the word in nothing but capital letters.
pub proof fn law_case_does_not_matter(name: Seq<char>, word: Seq<char>, i: int)
    requires
        ascii_only(name),
    ensures
        0 <= i && i + word.len() <= name.len() && (forall|k: int|
            0 <= k < word.len() ==> word[k] == ascii_lower(#[trigger] name[i + k])) ==> ascii_names(
            Some(name),
            word,
        ),
        ascii_names(Some(name), word) ==> exists|at: int|
            #![trigger name.subrange(at, at + word.len())]
            0 <= at && at + word.len() <= name.len() && name.subrange(
                at,
                at + word.len(),
            ).map_values(|c: char| ascii_lower(c)) == word,
        !ascii_names(None, word),
        no_other_than_ascii(Some(name)),
        no_other_than_ascii(None),
{
    let lowered = name.map_values(|c: char| ascii_lower(c));
    if 0 <= i && i + word.len() <= name.len() && (forall|k: int|
        0 <= k < word.len() ==> word[k] == ascii_lower(#[trigger] name[i + k])) {
        assert forall|k: int| 0 <= k < word.len() implies lowered.subrange(i, i + word.len())[k]
            == word[k] by {
            assert(lowered[i + k] == ascii_lower(name[i + k]));
        }
        assert(lowered.subrange(i, i + word.len()) =~= word);
        assert(occurs_at(lowered, word, i));
    }
    if ascii_names(Some(name), word) {
        let at = choose|at: int| occurs_at(lowered, word, at);
        assert(name.subrange(at, at + word.len()).map_values(|c: char| ascii_lower(c))
            =~= lowered.subrange(at, at + word.len()));
    }
}

/// The desktop session that the program runs in.
#[derive(Debug)]
pub struct CinnamonDesktop {
    /// The value of `DESKTOP_SESSION`.
    pub desktop_session: Option<String>,
    /// The value of `XDG_CURRENT_DESKTOP`.
    pub xdg_current_desktop: Option<String>,
}

impl CinnamonDesktop {
    /// The session with the given values of `DESKTOP_SESSION` and
    /// `XDG_CURRENT_DESKTOP`.
    pub fn new(desktop_session: Option<String>, xdg_current_desktop: Option<String>) -> (d: Self)
        ensures
            d.desktop_session == desktop_session,
            d.xdg_current_desktop == xdg_current_desktop,
    {
        CinnamonDesktop { desktop_session, xdg_current_desktop }
    }

    /// Whether the Cinnamon desktop environment is available: the session says
    /// so, or the window manager's name does, or one of its processes runs.
    pub fn is_cinnamon_available(&self, wm_name: Option<&str>, process_running: bool) -> (r: bool)
        ensures
            r == (session_is_cinnamon(opt_text(self.desktop_session)) || session_is_cinnamon(
                opt_text(self.xdg_current_desktop),
            ) || wm_is_cinnamon(opt_str(wm_name)) || process_running),
            ascii_names(opt_text(self.desktop_session), "cinnamon"@) || ascii_names(
                opt_text(self.xdg_current_desktop),
                "cinnamon"@,
            ) || ascii_names(opt_str(wm_name), "cinnamon"@) || ascii_names(
                opt_str(wm_name),
                "mutter"@,
            ) ==> r,
            no_other_than_ascii(opt_text(self.desktop_session)) && no_other_than_ascii(
                opt_text(self.xdg_current_desktop),
            ) && no_other_than_ascii(opt_str(wm_name)) ==> r == (ascii_names(
                opt_text(self.desktop_session),
                "cinnamon"@,
            ) || ascii_names(opt_text(self.xdg_current_desktop), "cinnamon"@) || ascii_names(
                opt_str(wm_name),
                "cinnamon"@,
            ) || ascii_names(opt_str(wm_name), "mutter"@) || process_running),
    {
        if let Some(name) = &self.desktop_session {
            if names_cinnamon(lowercase_text(name.as_str()).as_str()) {
                return true;
            }
        }
        if let Some(name) = &self.xdg_current_desktop {
            if names_cinnamon(lowercase_text(name.as_str()).as_str()) {
                return true;
            }
        }
        if let Some(name) = wm_name {
            if is_cinnamon_wm(lowercase_text(name).as_str()) {
                return true;
            }
        }
        process_running
    }

    /// The processes that tell of a running Cinnamon.
    pub fn cinnamon_processes() -> (names: Vec<String>)
        ensures
            names@.len() == 3,
            names@[0]@ == "cinnamon"@,
            names@[1]@ == "cinnamon-session"@,
            names@[2]@ == "muffin"@,
    {
        vec!["cinnamon".to_owned(), "cinnamon-session".to_owned(), "muffin".to_owned()]
    }

    /// Whether one of the process searches found something: `searches` holds what
    /// each of them printed, `None` for one that could not be made.
    pub fn is_cinnamon_process_running(searches: &Vec<Option<Vec<u8>>>) -> (r: bool)
        ensures
            r == exists|i: int|
                0 <= i < searches@.len() && (#[trigger] searches@[i] matches Some(out)
                    && out@.len() > 0),
    {
        for i in 0..searches.len()
            invariant
                forall|j: int|
                    0 <= j < i ==> !(#[trigger] searches@[j] matches Some(out) && out@.len() > 0),
        {
            if let Some(out) = &searches[i] {
                if out.len() > 0 {
                    return true;
                }
            }
        }
        false
    }

    /// The window that the window manager names as its own: the first four bytes
    /// of the property, least significant first.
    pub fn window_manager_window(value: &Vec<u8>) -> (window: Option<u32>)
        ensures
            window == if value@.len() >= 4 {
                Some(
                    (value@[0] + 256 * value@[1] + 65536 * value@[2] + 16777216 * value@[3]) as u32,
                )
            } else {
                None
            },
    {
        if value.len() < 4 {
            return None;
        }
        Some(
            value[0] as u32 + 256 * (value[1] as u32) + 65536 * (value[2] as u32) + 16777216 * (
            value[3] as u32),
        )
    }

    /// The name of the window manager, from the name property of its window;
    /// `None` when there is no such window.
    pub fn get_window_manager_name(name_value: Option<&Vec<u8>>) -> (name: String)
        ensures
            name@ == match name_value {
                Some(v) if v@.len() > 0 => lossy_utf8(v@),
                _ => "Unknown"@,
            },
            name_value matches Some(v) ==> (v@.len() > 0 && valid_utf8(v@) ==> name@
                == decode_utf8(v@)),
    {
        match name_value {
            Some(v) => {
                if v.len() > 0 {
                    lossy_text(v.as_slice())
                } else {
                    "Unknown".to_owned()
                }
            },
            None => "Unknown".to_owned(),
        }
    }

    /// The monitors of the screen in screen order. `outputs` matters only when no
    /// monitor was reported.
    pub fn get_monitors(
        reported: &Vec<ReportedMonitor>,
        outputs: &Vec<ReportedOutput>,
    ) -> (monitors: Vec<MonitorInfo>)
        ensures
            is_screen_order_of(monitors@, found_monitors(reported@, outputs@)),
    {
        let mut found: Vec<MonitorInfo> = Vec::new();
        for i in 0..reported.len()
            invariant
                found@ == reported@.take(i as int).map_values(
                    |m: ReportedMonitor| monitor_of(m.area, m.primary),
                ),
        {
            found.push(to_monitor(reported[i].area, reported[i].primary));
            assert(found@ =~= reported@.take(i + 1).map_values(
                |m: ReportedMonitor| monitor_of(m.area, m.primary),
            ));
        }
        assert(reported@.take(reported@.len() as int) =~= reported@);
        if found.len() == 0 {
            found = CinnamonDesktop::get_monitors_legacy(outputs);
        }
        sort_monitors(&found)
    }

    /// The monitors behind the active outputs; the first one counts as the primary
    /// one.
    pub fn get_monitors_legacy(outputs: &Vec<ReportedOutput>) -> (monitors: Vec<MonitorInfo>)
        ensures
            monitors@ == output_monitors(outputs@),
    {
        let mut monitors: Vec<MonitorInfo> = Vec::new();
        for i in 0..outputs.len()
            invariant
                monitors@ == output_monitors(outputs@.take(i as int)),
        {
            assert(outputs@.take(i + 1).drop_last() =~= outputs@.take(i as int));
            let output = outputs[i];
            if is_active_output(output.connected, output.crtc) {
                let first = monitors.len() == 0;
                monitors.push(to_monitor(output.area, first));
            }
        }
        assert(outputs@.take(outputs@.len() as int) =~= outputs@);
        monitors
    }
}

/// Of the monitors behind outputs exactly one is the primary one, the first, however
/// many outputs before it show nothing.
pub proof fn law_first_active_output_is_primary(outputs: Seq<ReportedOutput>, i: int)
    requires
        0 <= i < output_monitors(outputs).len(),
    ensures
        output_monitors(outputs)[i].primary <==> i == 0,
    decreases outputs.len(),
{
    let rest = output_monitors(outputs.drop_last());
    if i < rest.len() {
        law_first_active_output_is_primary(outputs.drop_last(), i);
    }
}

/// `index` is the position of the first monitor marked as primary, or the first
/// position when none is marked.
pub open spec fn is_primary_index(monitors: Seq<MonitorInfo>, index: int) -> bool {
    ||| {
        &&& 0 <= index < monitors.len()
        &&& monitors[index].primary
        &&& forall|j: int| 0 <= j < index ==> !(#[trigger] monitors[j]).primary
    }
    ||| {
        &&& index == 0
        &&& forall|j: int| 0 <= j < monitors.len() ==> !(#[trigger] monitors[j]).primary
    }
}

/// The primary monitor is the first one that is marked, whatever comes after it; without any
/// mark it is the first monitor. No other index is that of the primary monitor.
pub proof fn law_first_marked_monitor_is_primary(
    monitors: Seq<MonitorInfo>,
    index: int,
    first: int,
)
    requires
        is_primary_index(monitors, index),
        0 <= first <= monitors.len(),
        forall|j: int| 0 <= j < first ==> !(#[trigger] monitors[j]).primary,
        first < monitors.len() ==> monitors[first].primary,
    ensures
        first < monitors.len() ==> index == first,
        first == monitors.len() ==> index == 0,
{
}

/// The index of the primary monitor.
pub fn primary_index(monitors: &Vec<MonitorInfo>) -> (index: usize)
    ensures
        is_primary_index(monitors@, index as int),
{
    for i in 0..monitors.len()
        invariant
            forall|j: int| 0 <= j < i ==> !(#[trigger] monitors@[j]).primary,
    {
        if monitors[i].primary {
            return i;
        }
    }
    0
}

/// The line that a monitor list shows for monitor `index`.
pub open spec fn monitor_line_text(index: nat, m: MonitorInfo) -> Seq<char> {
    "  "@ + decimal(index) + ": "@ + decimal(m.width as nat) + "x"@ + decimal(m.height as nat) + "+"@
        + signed_decimal(m.x as int) + "+"@ + signed_decimal(m.y as int) + " "@ + (if m.primary {
        "(primary)"@
    } else {
        ""@
    })
}

/// A line of the monitor list gives the number of the monitor, its size and its place, and says
/// which monitor is the primary one.
pub proof fn law_monitor_line_gives_size_and_place(index: nat, m: MonitorInfo)
    ensures
        monitor_line_text(index, MonitorInfo { primary: false, ..m }) == "  "@ + decimal(index)
            + ": "@ + decimal(m.width as nat) + "x"@ + decimal(m.height as nat) + "+"@
            + signed_decimal(m.x as int) + "+"@ + signed_decimal(m.y as int) + " "@,
        monitor_line_text(index, MonitorInfo { primary: true, ..m }) == monitor_line_text(
            index,
            MonitorInfo { primary: false, ..m },
        ) + "(primary)"@,
{
    reveal_strlit("");
    let line = "  "@ + decimal(index) + ": "@ + decimal(m.width as nat) + "x"@ + decimal(
        m.height as nat,
    ) + "+"@ + signed_decimal(m.x as int) + "+"@ + signed_decimal(m.y as int) + " "@;
    assert(line + ""@ =~= line);
}

/// The line that a monitor list shows for monitor `index`.
pub fn monitor_line(index: usize, m: &MonitorInfo) -> (line: String)
    ensures
        line@ == monitor_line_text(index as nat, *m),
{
    let mut line = "  ".to_owned();
    line.append(decimal_text(index as u64).as_str());
    line.append(": ");
    line.append(decimal_text(m.width as u64).as_str());
    line.append("x");
    line.append(decimal_text(m.height as u64).as_str());
    line.append("+");
    line.append(signed_decimal_text(m.x).as_str());
    line.append("+");
    line.append(signed_decimal_text(m.y).as_str());
    line.append(" ");
    line.append(if m.primary { "(primary)" } else { "" });
    line
}

} // verus!
