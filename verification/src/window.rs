//! The wallpaper window: its properties, the pixels put into it, and the care
//! for the desktop icons above it.

use crate::config::WindowConfig;
use crate::desktop::{monitor_of, MonitorInfo, ScreenArea};
use crate::text::{
    contains_seq, contains_text, lossy_text, lossy_utf8, same_text, strict_text, strict_utf8,
    texts, trim_text, trimmed,
};
use crate::video::{copy_bytes, PixelFormat, VideoFrame};
use vstd::prelude::*;
use vstd::string::*;
use vstd::utf8::*;

verus! {

/// The color depth of the window's image.
pub const IMAGE_DEPTH: u8 = 24;

/// Every how many frames the desktop icons are looked after.
pub const ICON_CHECK_FRAMES: i32 = 120;

/// How far back the last refresh of a new window is dated, in nanoseconds.
pub const FIRST_REFRESH_LEAD_NANOS: u128 = 10_000_000_000;

/// The class of the window, both names closed by a zero.
pub const WM_CLASS: &'static str = "cinnamon-wallpaper-desktop\0CinnamonWallpaperDesktop\0";

/// A window property: its name and its values.
#[derive(Debug)]
pub struct PropertyChange {
    pub property: u32,
    pub values: Vec<u32>,
}

/// The atom known under `name`.
pub open spec fn atom_of(atoms: Seq<(String, u32)>, name: Seq<char>) -> Option<u32>
    decreases atoms.len(),
{
    if atoms.len() == 0 {
        None
    } else if atoms[0].0@ == name {
        Some(atoms[0].1)
    } else {
        atom_of(atoms.drop_first(), name)
    }
}

/// The atom known under `name`.
pub fn find_atom(atoms: &Vec<(String, u32)>, name: &str) -> (found: Option<u32>)
    ensures
        found == atom_of(atoms@, name@),
{
    assert(atoms@.skip(0) =~= atoms@);
    for i in 0..atoms.len()
        invariant
            atom_of(atoms@, name@) == atom_of(atoms@.skip(i as int), name@),
    {
        assert(atoms@.skip(i as int).drop_first() =~= atoms@.skip(i + 1));
        if same_text(atoms[i].0.as_str(), name) {
            return Some(atoms[i].1);
        }
    }
    None
}

/// The atom that is found is that of the first entry with the name; none is found only when
/// no entry has it.
pub proof fn law_first_entry_counts(atoms: Seq<(String, u32)>, name: Seq<char>, i: int)
    requires
        0 <= i < atoms.len(),
        atoms[i].0@ == name,
        forall|j: int| 0 <= j < i ==> (#[trigger] atoms[j]).0@ != name,
    ensures
        atom_of(atoms, name) == Some(atoms[i].1),
    decreases atoms.len(),
{
    if i > 0 {
        let rest = atoms.drop_first();
        assert(atoms[0].0@ != name);
        assert(rest[i - 1] == atoms[i]);
        assert forall|j: int| 0 <= j < i - 1 implies (#[trigger] rest[j]).0@ != name by {
            assert(rest[j] == atoms[j + 1]);
        }
        law_first_entry_counts(rest, name, i - 1);
    }
}

/// No atom is found under a name that no entry has.
pub proof fn law_unknown_name_has_no_atom(atoms: Seq<(String, u32)>, name: Seq<char>)
    requires
        forall|j: int| 0 <= j < atoms.len() ==> (#[trigger] atoms[j]).0@ != name,
    ensures
        atom_of(atoms, name) is None,
    decreases atoms.len(),
{
    if atoms.len() > 0 {
        let rest = atoms.drop_first();
        assert(atoms[0].0@ != name);
        assert forall|j: int| 0 <= j < rest.len() implies (#[trigger] rest[j]).0@ != name by {
            assert(rest[j] == atoms[j + 1]);
        }
        law_unknown_name_has_no_atom(rest, name);
    }
}

/// The atoms that the window's properties need.
pub fn required_atoms() -> (names: Vec<String>)
    ensures
        texts(names@) == seq![
            "_NET_WM_WINDOW_TYPE"@,
            "_NET_WM_WINDOW_TYPE_DESKTOP"@,
            "_NET_WM_WINDOW_TYPE_NORMAL"@,
            "_NET_WM_STATE"@,
            "_NET_WM_STATE_BELOW"@,
            "_NET_WM_STATE_SKIP_TASKBAR"@,
            "_NET_WM_STATE_SKIP_PAGER"@,
            "_NET_WM_STATE_STICKY"@,
            "_MOTIF_WM_HINTS"@,
            "_NET_WM_FULLSCREEN_MONITORS"@,
        ],
{
    let names = vec![
        "_NET_WM_WINDOW_TYPE".to_owned(),
        "_NET_WM_WINDOW_TYPE_DESKTOP".to_owned(),
        "_NET_WM_WINDOW_TYPE_NORMAL".to_owned(),
        "_NET_WM_STATE".to_owned(),
        "_NET_WM_STATE_BELOW".to_owned(),
        "_NET_WM_STATE_SKIP_TASKBAR".to_owned(),
        "_NET_WM_STATE_SKIP_PAGER".to_owned(),
        "_NET_WM_STATE_STICKY".to_owned(),
        "_MOTIF_WM_HINTS".to_owned(),
        "_NET_WM_FULLSCREEN_MONITORS".to_owned(),
    ];
    assert(texts(names@) =~= seq![
        "_NET_WM_WINDOW_TYPE"@,
        "_NET_WM_WINDOW_TYPE_DESKTOP"@,
        "_NET_WM_WINDOW_TYPE_NORMAL"@,
        "_NET_WM_STATE"@,
        "_NET_WM_STATE_BELOW"@,
        "_NET_WM_STATE_SKIP_TASKBAR"@,
        "_NET_WM_STATE_SKIP_PAGER"@,
        "_NET_WM_STATE_STICKY"@,
        "_MOTIF_WM_HINTS"@,
        "_NET_WM_FULLSCREEN_MONITORS"@,
    ]);
    names
}

/// `atom` as a sequence of at most one value.
pub open spec fn listed(atom: Option<u32>) -> Seq<u32> {
    match atom {
        Some(a) => seq![a],
        None => Seq::<u32>::empty(),
    }
}

/// A change of the property known under `name` to `values`, when the property is
/// known and there are values.
pub open spec fn change_of(
    atoms: Seq<(String, u32)>,
    name: Seq<char>,
    values: Seq<u32>,
) -> Option<(u32, Seq<u32>)> {
    match atom_of(atoms, name) {
        Some(property) if values.len() > 0 => Some((property, values)),
        _ => None,
    }
}

/// The change as a property and its values.
pub open spec fn change_view(change: Option<PropertyChange>) -> Option<(u32, Seq<u32>)> {
    match change {
        Some(c) => Some((c.property, c.values@)),
        None => None,
    }
}

/// A change of a property is seen as it is: with the property and all its values.
pub proof fn law_change_is_seen_as_it_is(change: PropertyChange)
    ensures
        change_view(Some(change)) == Some((change.property, change.values@)),
        change_view(None) is None,
{
}

/// The values of the window state: below other windows, in neither the taskbar
/// nor the pager, and on every desktop.
pub open spec fn state_values(atoms: Seq<(String, u32)>) -> Seq<u32> {
    listed(atom_of(atoms, "_NET_WM_STATE_BELOW"@)) + listed(
        atom_of(atoms, "_NET_WM_STATE_SKIP_TASKBAR"@),
    ) + listed(atom_of(atoms, "_NET_WM_STATE_SKIP_PAGER"@)) + listed(
        atom_of(atoms, "_NET_WM_STATE_STICKY"@),
    )
}

fn change(atoms: &Vec<(String, u32)>, name: &str, values: Vec<u32>) -> (c: Option<PropertyChange>)
    ensures
        change_view(c) == change_of(atoms@, name@, values@),
{
    match find_atom(atoms, name) {
        Some(property) => {
            if values.len() > 0 {
                Some(PropertyChange { property, values })
            } else {
                None
            }
        },
        None => None,
    }
}

fn push_atom(values: &mut Vec<u32>, atoms: &Vec<(String, u32)>, name: &str)
    ensures
        final(values)@ == old(values)@ + listed(atom_of(atoms@, name@)),
{
    match find_atom(atoms, name) {
        Some(a) => {
            values.push(a);
        },
        None => {},
    }
    assert(values@ =~= old(values)@ + listed(atom_of(atoms@, name@)));
}

/// A property is changed exactly when its name is known and there is something to change it
/// to, and then to just that.
pub proof fn law_known_property_is_changed(
    atoms: Seq<(String, u32)>,
    name: Seq<char>,
    values: Seq<u32>,
)
    ensures
        change_of(atoms, name, values) is Some <==> atom_of(atoms, name) is Some && values.len() > 0,
        change_of(atoms, name, values) matches Some(c) ==> atom_of(atoms, name) == Some(c.0) && c.1
            == values,
{
}

/// The window state has each of the four known marks, in a fixed order, and nothing else.
pub proof fn law_window_state_has_four_marks(
    atoms: Seq<(String, u32)>,
    below: u32,
    taskbar: u32,
    pager: u32,
    sticky: u32,
)
    ensures
        atom_of(atoms, "_NET_WM_STATE_BELOW"@) == Some(below) && atom_of(
            atoms,
            "_NET_WM_STATE_SKIP_TASKBAR"@,
        ) == Some(taskbar) && atom_of(atoms, "_NET_WM_STATE_SKIP_PAGER"@) == Some(pager) && atom_of(
            atoms,
            "_NET_WM_STATE_STICKY"@,
        ) == Some(sticky) ==> state_values(atoms) == seq![below, taskbar, pager, sticky],
        atom_of(atoms, "_NET_WM_STATE_BELOW"@) == Some(below) ==> state_values(atoms).contains(
            below,
        ),
        atom_of(atoms, "_NET_WM_STATE_SKIP_TASKBAR"@) == Some(taskbar) ==> state_values(
            atoms,
        ).contains(taskbar),
        atom_of(atoms, "_NET_WM_STATE_SKIP_PAGER"@) == Some(pager) ==> state_values(atoms).contains(
            pager,
        ),
        atom_of(atoms, "_NET_WM_STATE_STICKY"@) == Some(sticky) ==> state_values(atoms).contains(
            sticky,
        ),
        forall|value: u32|
            state_values(atoms).contains(value) ==> {
                ||| atom_of(atoms, "_NET_WM_STATE_BELOW"@) == Some(value)
                ||| atom_of(atoms, "_NET_WM_STATE_SKIP_TASKBAR"@) == Some(value)
                ||| atom_of(atoms, "_NET_WM_STATE_SKIP_PAGER"@) == Some(value)
                ||| atom_of(atoms, "_NET_WM_STATE_STICKY"@) == Some(value)
            },
{
    let b = listed(atom_of(atoms, "_NET_WM_STATE_BELOW"@));
    let t = listed(atom_of(atoms, "_NET_WM_STATE_SKIP_TASKBAR"@));
    let p = listed(atom_of(atoms, "_NET_WM_STATE_SKIP_PAGER"@));
    let s = listed(atom_of(atoms, "_NET_WM_STATE_STICKY"@));
    let all = state_values(atoms);
    assert(all == b + t + p + s);
    if b.len() == 1 {
        assert(all[0] == b[0]);
    }
    if t.len() == 1 {
        assert(all[b.len() as int] == t[0]);
    }
    if p.len() == 1 {
        assert(all[(b.len() + t.len()) as int] == p[0]);
    }
    if s.len() == 1 {
        assert(all[(b.len() + t.len() + p.len()) as int] == s[0]);
    }
}

/// Makes the window a desktop window.
pub fn window_type_change(atoms: &Vec<(String, u32)>) -> (c: Option<PropertyChange>)
    ensures
        change_view(c) == change_of(
            atoms@,
            "_NET_WM_WINDOW_TYPE"@,
            listed(atom_of(atoms@, "_NET_WM_WINDOW_TYPE_DESKTOP"@)),
        ),
{
    let mut values: Vec<u32> = Vec::new();
    push_atom(&mut values, atoms, "_NET_WM_WINDOW_TYPE_DESKTOP");
    assert(values@ =~= listed(atom_of(atoms@, "_NET_WM_WINDOW_TYPE_DESKTOP"@)));
    change(atoms, "_NET_WM_WINDOW_TYPE", values)
}

/// Keeps the window below all others, out of taskbar and pager, and on every
/// desktop.
pub fn window_state_change(atoms: &Vec<(String, u32)>) -> (c: Option<PropertyChange>)
    ensures
        change_view(c) == change_of(atoms@, "_NET_WM_STATE"@, state_values(atoms@)),
{
    let mut values: Vec<u32> = Vec::new();
    push_atom(&mut values, atoms, "_NET_WM_STATE_BELOW");
    push_atom(&mut values, atoms, "_NET_WM_STATE_SKIP_TASKBAR");
    push_atom(&mut values, atoms, "_NET_WM_STATE_SKIP_PAGER");
    push_atom(&mut values, atoms, "_NET_WM_STATE_STICKY");
    assert(values@ =~= state_values(atoms@));
    change(atoms, "_NET_WM_STATE", values)
}

/// Removes the window's decorations: of the five Motif hints the flags say that
/// the decorations count, and there are none.
pub fn motif_change(atoms: &Vec<(String, u32)>) -> (c: Option<PropertyChange>)
    ensures
        change_view(c) == change_of(atoms@, "_MOTIF_WM_HINTS"@, seq![2u32, 0, 0, 0, 0]),
{
    let values: Vec<u32> = vec![2, 0, 0, 0, 0];
    assert(values@ =~= seq![2u32, 0, 0, 0, 0]);
    change(atoms, "_MOTIF_WM_HINTS", values)
}

/// Confines the window to one monitor, given as the top, bottom, left and right
/// one.
pub fn fullscreen_monitors_change(atoms: &Vec<(String, u32)>, monitor_index: usize) -> (c: Option<
    PropertyChange,
>)
    ensures
        change_view(c) == change_of(
            atoms@,
            "_NET_WM_FULLSCREEN_MONITORS"@,
            Seq::new(4, |i: int| monitor_index as u32),
        ),
{
    let index: u32 = #[verifier::truncate]
    (monitor_index as u32);
    let values: Vec<u32> = vec![index, index, index, index];
    assert(values@ =~= Seq::new(4, |i: int| monitor_index as u32));
    change(atoms, "_NET_WM_FULLSCREEN_MONITORS", values)
}

/// The size hints of a window that is to keep its geometry: the position and the
/// size count, and the least and the greatest size are the size.
pub open spec fn size_hint_values(geometry: ScreenArea) -> Seq<u32> {
    let w = geometry.width as u32;
    let h = geometry.height as u32;
    seq![51u32, geometry.x as u32, geometry.y as u32, w, h, w, h, w, h] + Seq::new(
        9,
        |i: int| 0u32,
    )
}

/// The size hints of a window that is to keep its geometry.
pub fn size_hints(geometry: &ScreenArea) -> (hints: Vec<u32>)
    ensures
        hints@ == size_hint_values(*geometry),
{
    let x: u32 = #[verifier::truncate]
    (geometry.x as u32);
    let y: u32 = #[verifier::truncate]
    (geometry.y as u32);
    let w: u32 = geometry.width as u32;
    let h: u32 = geometry.height as u32;
    let flags: u32 = 51;
    let hints: Vec<u32> = vec![flags, x, y, w, h, w, h, w, h, 0, 0, 0, 0, 0, 0, 0, 0, 0];
    assert(hints@ =~= size_hint_values(*geometry));
    hints
}

/// The size hints hold the place, and the size three times over: as itself, as the least and
/// as the greatest one. The flags announce just these, and all else is zero.
pub proof fn law_size_hints_fix_the_geometry(geometry: ScreenArea, i: int)
    requires
        9 <= i < 18,
    ensures
        ({
            let hints = size_hint_values(geometry);
            &&& hints.len() == 18
            &&& hints[0] == 1 + 2 + 16 + 32
            &&& geometry.x >= 0 ==> hints[1] == geometry.x
            &&& geometry.x < 0 ==> hints[1] == 0x1_0000_0000 + geometry.x
            &&& geometry.y >= 0 ==> hints[2] == geometry.y
            &&& geometry.y < 0 ==> hints[2] == 0x1_0000_0000 + geometry.y
            &&& hints[3] == geometry.width && hints[5] == geometry.width && hints[7]
                == geometry.width
            &&& hints[4] == geometry.height && hints[6] == geometry.height && hints[8]
                == geometry.height
            &&& hints[i] == 0
        }),
{
    let x = geometry.x;
    let y = geometry.y;
    assert(x < 0 ==> (x as u32) == 0x1_0000_0000 + x) by (bit_vector);
    assert(y < 0 ==> (y as u32) == 0x1_0000_0000 + y) by (bit_vector);
}

/// The same place and size.
pub open spec fn same_geometry(a: MonitorInfo, b: MonitorInfo) -> bool {
    a.x == b.x && a.y == b.y && a.width == b.width && a.height == b.height
}

/// `index` is the position of the first monitor with the geometry of `monitor`,
/// or the first position when there is none.
pub open spec fn is_index_of(
    monitors: Seq<MonitorInfo>,
    monitor: MonitorInfo,
    index: int,
) -> bool {
    ||| {
        &&& 0 <= index < monitors.len()
        &&& same_geometry(monitors[index], monitor)
        &&& forall|j: int| 0 <= j < index ==> !same_geometry(#[trigger] monitors[j], monitor)
    }
    ||| {
        &&& index == 0
        &&& forall|j: int|
            0 <= j < monitors.len() ==> !same_geometry(#[trigger] monitors[j], monitor)
    }
}

/// A monitor is found by its place and size: the index is that of the first monitor that has
/// both, or 0 when none has, and no other index will do.
pub proof fn law_monitor_is_found_by_geometry(
    monitors: Seq<MonitorInfo>,
    monitor: MonitorInfo,
    index: int,
    first: int,
)
    requires
        is_index_of(monitors, monitor, index),
        0 <= first <= monitors.len(),
        forall|j: int|
            0 <= j < first ==> (#[trigger] monitors[j]).x != monitor.x || monitors[j].y != monitor.y
                || monitors[j].width != monitor.width || monitors[j].height != monitor.height,
        first < monitors.len() ==> monitors[first].x == monitor.x && monitors[first].y == monitor.y
            && monitors[first].width == monitor.width && monitors[first].height == monitor.height,
    ensures
        first < monitors.len() ==> index == first,
        first == monitors.len() ==> index == 0,
{
    if first < monitors.len() {
        assert(same_geometry(monitors[first], monitor));
        if index < first {
            assert(!same_geometry(monitors[index], monitor));
        }
    }
}

/// The index of the monitor with the geometry of `monitor`.
pub fn monitor_index(monitors: &Vec<MonitorInfo>, monitor: &MonitorInfo) -> (index: usize)
    ensures
        is_index_of(monitors@, *monitor, index as int),
{
    for i in 0..monitors.len()
        invariant
            forall|j: int| 0 <= j < i ==> !same_geometry(#[trigger] monitors@[j], *monitor),
    {
        let m = &monitors[i];
        if m.x == monitor.x && m.y == monitor.y && m.width == monitor.width && m.height
            == monitor.height {
            return i;
        }
    }
    0
}

/// The place of a monitor in the numbers of the display protocol.
pub open spec fn area_of(m: MonitorInfo) -> ScreenArea {
    ScreenArea { x: m.x as i16, y: m.y as i16, width: m.width as u16, height: m.height as u16 }
}

/// The place that the window on a monitor takes.
pub fn window_area(m: &MonitorInfo) -> (area: ScreenArea)
    ensures
        area == area_of(*m),
{
    ScreenArea {
        x: #[verifier::truncate]
        (m.x as i16),
        y: #[verifier::truncate]
        (m.y as i16),
        width: #[verifier::truncate]
        (m.width as u16),
        height: #[verifier::truncate]
        (m.height as u16),
    }
}

/// The window takes the place and the size of its monitor, as far as the numbers of the
/// display protocol reach.
pub proof fn law_window_area(m: MonitorInfo)
    ensures
        -0x8000 <= m.x < 0x8000 ==> area_of(m).x == m.x,
        -0x8000 <= m.y < 0x8000 ==> area_of(m).y == m.y,
        m.width < 0x1_0000 ==> area_of(m).width == m.width,
        m.height < 0x1_0000 ==> area_of(m).height == m.height,
{
}

/// The window on a reported monitor takes exactly the area that was reported.
pub proof fn law_window_fills_its_monitor(area: ScreenArea, primary: bool)
    ensures
        area_of(monitor_of(area, primary)) == area,
{
}

// Pixels.

/// Where byte `i` of a BGRA image comes from in an RGBA image.
pub open spec fn swapped_position(i: int) -> int {
    if i % 4 == 0 {
        i + 2
    } else if i % 4 == 2 {
        i - 2
    } else {
        i
    }
}

/// The whole pixels of an RGBA image with red and blue exchanged.
pub open spec fn red_blue_swapped(data: Seq<u8>) -> Seq<u8> {
    Seq::new(4 * (data.len() / 4), |i: int| data[swapped_position(i)])
}

/// The bytes to put into the window for a frame; none for a format that cannot be
/// shown.
pub open spec fn image_of(format: PixelFormat, data: Seq<u8>) -> Option<Seq<u8>> {
    match format {
        PixelFormat::Bgra32 => Some(data),
        PixelFormat::Rgba32 => Some(red_blue_swapped(data)),
        _ => None,
    }
}

fn swap_red_blue(data: &Vec<u8>) -> (image: Vec<u8>)
    ensures
        image@ == red_blue_swapped(data@),
{
    let n: usize = data.len();
    let mut image: Vec<u8> = Vec::with_capacity(n);
    let mut i: usize = 0;
    while n - i >= 4
        invariant
            n == data@.len(),
            i <= n,
            i % 4 == 0,
            image@ == red_blue_swapped(data@.take(i as int)),
        decreases n - i,
    {
        let ghost before = image@;
        image.push(data[i + 2]);
        image.push(data[i + 1]);
        image.push(data[i]);
        image.push(data[i + 3]);
        proof {
            let longer = red_blue_swapped(data@.take(i + 4));
            assert forall|k: int| 0 <= k < i + 4 implies image@[k] == #[trigger] longer[k] by {
                if k < i {
                    assert(image@[k] == before[k]);
                    assert(swapped_position(k) < i);
                }
            }
            assert(image@ =~= longer);
        }
        i += 4;
    }
    proof {
        let whole = red_blue_swapped(data@);
        assert forall|k: int| 0 <= k < i implies image@[k] == #[trigger] whole[k] by {
            assert(swapped_position(k) < i);
        }
        assert(image@ =~= whole);
    }
    image
}

/// Exchanging red and blue twice gives the image back, as far as it consists of
/// whole pixels.
pub proof fn law_swap_is_its_own_inverse(data: Seq<u8>)
    ensures
        red_blue_swapped(red_blue_swapped(data)) == data.take(4 * (data.len() / 4) as int),
{
    let once = red_blue_swapped(data);
    let twice = red_blue_swapped(once);
    assert forall|i: int| 0 <= i < twice.len() implies #[trigger] twice[i] == data[i] by {
        let j = swapped_position(i);
        assert(0 <= j < once.len());
        assert(swapped_position(j) == i);
    }
    assert(twice =~= data.take(4 * (data.len() / 4) as int));
}

/// A BGRA frame is put into the window byte for byte, whatever its length.
pub proof fn law_bgra_is_shown_as_it_is(data: Seq<u8>)
    ensures
        image_of(PixelFormat::Bgra32, data) == Some(data),
{
}

/// Of an RGBA frame every whole pixel is shown, in its place: red and blue change places,
/// green and alpha stay. What is left over is not shown.
pub proof fn law_rgba_changes_red_and_blue(data: Seq<u8>, pixel: int)
    requires
        0 <= pixel,
        4 * pixel + 4 <= data.len(),
    ensures
        image_of(PixelFormat::Rgba32, data) is Some,
        ({
            let shown = image_of(PixelFormat::Rgba32, data)->Some_0;
            &&& data.len() - 4 < shown.len() <= data.len()
            &&& shown.len() % 4 == 0
            &&& shown[4 * pixel] == data[4 * pixel + 2]
            &&& shown[4 * pixel + 1] == data[4 * pixel + 1]
            &&& shown[4 * pixel + 2] == data[4 * pixel]
            &&& shown[4 * pixel + 3] == data[4 * pixel + 3]
        }),
{
    assert((4 * pixel) % 4 == 0);
    assert((4 * pixel + 1) % 4 == 1);
    assert((4 * pixel + 2) % 4 == 2);
    assert((4 * pixel + 3) % 4 == 3);
}

/// Only frames of four bytes for each pixel can be shown.
pub proof fn law_shown_formats(format: PixelFormat, data: Seq<u8>)
    ensures
        image_of(format, data) is Some <==> format == PixelFormat::Bgra32 || format
            == PixelFormat::Rgba32,
{
}

// Desktop icons.

/// What the settings tool printed says that the desktop icons are shown.
pub fn icons_shown(output: &str) -> (r: bool)
    ensures
        r == (trimmed(output@) == "true"@),
{
    let text = trim_text(output);
    same_text(text.as_str(), "true")
}

/// The window class is that of Nemo's desktop.
pub open spec fn is_nemo_class(class: Seq<u8>) -> bool {
    strict_utf8(class) matches Some(text) && contains_seq(text, "nemo-desktop"@)
}

/// The windows of Nemo's desktop: of each window the class property, `None` when
/// it could not be had.
pub fn nemo_windows(children: &Vec<(u32, Option<Vec<u8>>)>) -> (windows: Vec<u32>)
    ensures
        windows@ == children@.filter(nemo_filter()).map_values(|c: (u32, Option<Vec<u8>>)| c.0),
{
    let mut windows: Vec<u32> = Vec::new();
    proof {
        reveal(Seq::filter);
        assert(windows@ =~= children@.take(0).filter(nemo_filter()).map_values(
            |c: (u32, Option<Vec<u8>>)| c.0,
        ));
    }
    for i in 0..children.len()
        invariant
            windows@ == children@.take(i as int).filter(nemo_filter()).map_values(
                |c: (u32, Option<Vec<u8>>)| c.0,
            ),
    {
        let mut nemo = false;
        if let Some(class) = &children[i].1 {
            if let Some(text) = strict_text(class.as_slice()) {
                nemo = contains_text(text.as_str(), "nemo-desktop");
            }
        }
        assert(nemo == nemo_filter()(children@[i as int]));
        if nemo {
            windows.push(children[i].0);
        }
        proof {
            reveal(Seq::filter);
            assert(children@.take(i + 1).drop_last() =~= children@.take(i as int));
            assert(windows@ =~= children@.take(i + 1).filter(nemo_filter()).map_values(
                |c: (u32, Option<Vec<u8>>)| c.0,
            ));
        }
    }
    assert(children@.take(children@.len() as int) =~= children@);
    windows
}

/// Tells Nemo's desktop windows from the others.
pub open spec fn nemo_filter() -> spec_fn((u32, Option<Vec<u8>>)) -> bool {
    |c: (u32, Option<Vec<u8>>)| c.1 matches Some(class) && is_nemo_class(class@)
}

/// A window belongs to Nemo's desktop exactly when its class could be had, is text, and
/// has the desktop's name in it.
pub proof fn law_nemo_is_known_by_its_class(window: u32, class: Vec<u8>)
    ensures
        nemo_filter()((window, Some(class))) <==> (strict_utf8(class@) is Some && contains_seq(
            strict_utf8(class@)->Some_0,
            "nemo-desktop"@,
        )),
        !nemo_filter()((window, None::<Vec<u8>>)),
{
}

/// What is to be done about the desktop icons.
#[derive(Debug, Clone, Copy, PartialEq, Eq, Structural)]
pub struct IconCare {
    /// The icons are to be shown again.
    pub show_icons: bool,
    /// Nemo's desktop windows are to be made to paint themselves again.
    pub refresh: bool,
}

/// The time from `earlier` to `now`, none when `now` is not later.
pub open spec fn time_since(now: u128, earlier: u128) -> int {
    if now >= earlier {
        now - earlier
    } else {
        0
    }
}

/// The wallpaper window on one monitor.
#[derive(Debug)]
pub struct WallpaperWindow {
    config: WindowConfig,
    gc: Option<u32>,
    screen_width: u16,
    screen_height: u16,
    last_nemo_refresh: u128,
}

/// What a wallpaper window knows.
pub struct WindowView {
    pub config: WindowConfig,
    /// The graphics context made for the first frame.
    pub gc: Option<u32>,
    pub screen_width: u16,
    pub screen_height: u16,
    /// When Nemo was last made to refresh, in nanoseconds.
    pub last_nemo_refresh: u128,
}

impl View for WallpaperWindow {
    type V = WindowView;

    closed spec fn view(&self) -> WindowView {
        WindowView {
            config: self.config,
            gc: self.gc,
            screen_width: self.screen_width,
            screen_height: self.screen_height,
            last_nemo_refresh: self.last_nemo_refresh,
        }
    }
}

/// The least time since the last refresh has passed.
pub open spec fn refresh_due_at(w: WindowView, now: u128) -> bool {
    time_since(now, w.last_nemo_refresh) >= w.config.nemo_refresh_interval_ms * 1_000_000
}

/// The window after a refresh was asked for at the time `now`: a refresh that is not
/// due is not made and leaves everything as it was.
pub open spec fn after_refresh(w: WindowView, now: u128) -> WindowView {
    if refresh_due_at(w, now) {
        WindowView { last_nemo_refresh: now, ..w }
    } else {
        w
    }
}

/// A refresh is due exactly when the clock stands at least the configured interval after the
/// last one; a clock that was set back counts as no time. Asking records the time of a refresh
/// that is due, and changes nothing else.
pub proof fn law_refresh_after_the_interval(w: WindowView, now: u128)
    ensures
        now >= w.last_nemo_refresh ==> (refresh_due_at(w, now) <==> now - w.last_nemo_refresh
            >= w.config.nemo_refresh_interval_ms * 1_000_000),
        now < w.last_nemo_refresh ==> (refresh_due_at(w, now) <==> w.config.nemo_refresh_interval_ms
            == 0),
        after_refresh(w, now).last_nemo_refresh == if refresh_due_at(w, now) {
            now
        } else {
            w.last_nemo_refresh
        },
        after_refresh(w, now).config == w.config,
        after_refresh(w, now).gc == w.gc,
        after_refresh(w, now).screen_width == w.screen_width,
        after_refresh(w, now).screen_height == w.screen_height,
{
}

impl WallpaperWindow {
    /// The window on `monitor`, made at the time `now` in nanoseconds. Its last
    /// refresh is dated ten seconds back.
    pub fn new(config: &WindowConfig, monitor: &MonitorInfo, now: u128) -> (w: Self)
        requires
            now >= FIRST_REFRESH_LEAD_NANOS,
        ensures
            w@ == (WindowView {
                config: *config,
                gc: None,
                screen_width: area_of(*monitor).width,
                screen_height: area_of(*monitor).height,
                last_nemo_refresh: (now - FIRST_REFRESH_LEAD_NANOS) as u128,
            }),
    {
        let area = window_area(monitor);
        WallpaperWindow {
            config: *config,
            gc: None,
            screen_width: area.width,
            screen_height: area.height,
            last_nemo_refresh: now - FIRST_REFRESH_LEAD_NANOS,
        }
    }

    /// The size of the area that Nemo is told to paint again.
    pub fn screen_size(&self) -> (size: (u16, u16))
        ensures
            size == (self@.screen_width, self@.screen_height),
    {
        (self.screen_width, self.screen_height)
    }

    /// The graphics context to draw with, when there is one already.
    pub fn graphics_context(&self) -> (gc: Option<u32>)
        ensures
            gc == self@.gc,
    {
        self.gc
    }

    /// Keeps a graphics context for all further frames.
    pub fn keep_graphics_context(&mut self, gc: u32)
        ensures
            final(self)@ == (WindowView { gc: Some(gc), ..old(self)@ }),
    {
        self.gc = Some(gc);
    }

    /// The bytes to put into the window for a frame; none for a format that
    /// cannot be shown.
    pub fn render_frame(&self, frame: &VideoFrame) -> (image: Option<Vec<u8>>)
        ensures
            match image_of(frame.format, frame.data@) {
                Some(bytes) => image is Some && image->Some_0@ == bytes,
                None => image is None,
            },
    {
        match frame.format {
            PixelFormat::Bgra32 => Some(copy_bytes(&frame.data)),
            PixelFormat::Rgba32 => Some(swap_red_blue(&frame.data)),
            _ => None,
        }
    }

    /// The size of a frame in the numbers of the display protocol.
    pub fn frame_size(frame: &VideoFrame) -> (size: (u16, u16))
        ensures
            size == (frame.width as u16, frame.height as u16),
    {
        (
            #[verifier::truncate]
            (frame.width as u16),
            #[verifier::truncate]
            (frame.height as u16),
        )
    }

    /// Whether enough time has passed for another refresh of Nemo's desktop.
    pub fn refresh_due(&self, now: u128) -> (r: bool)
        ensures
            r == refresh_due_at(self@, now),
    {
        let interval: u128 = self.config.nemo_refresh_interval_ms as u128 * 1_000_000;
        let elapsed: u128 = if now >= self.last_nemo_refresh {
            now - self.last_nemo_refresh
        } else {
            0
        };
        elapsed >= interval
    }

    /// Asks for a refresh of Nemo's desktop. Returns whether it is to be made: only
    /// when enough time has passed since the last one, and then it counts as the
    /// last one.
    pub fn force_nemo_desktop_refresh(&mut self, now: u128) -> (refresh: bool)
        ensures
            refresh == refresh_due_at(old(self)@, now),
            final(self)@ == after_refresh(old(self)@, now),
    {
        if !self.refresh_due(now) {
            return false;
        }
        self.last_nemo_refresh = now;
        true
    }

    /// When Nemo was last made to refresh, in nanoseconds.
    pub fn last_nemo_refresh(&self) -> (at: u128)
        ensures
            at == self@.last_nemo_refresh,
    {
        self.last_nemo_refresh
    }

    /// Records that a refresh could not be made: the one before it, at `before`,
    /// stays the last one.
    pub fn refresh_failed(&mut self, before: u128)
        ensures
            final(self)@ == (WindowView { last_nemo_refresh: before, ..old(self)@ }),
    {
        self.last_nemo_refresh = before;
    }

    /// What to do about the desktop icons, given what the settings tool printed.
    /// Icons that are shown are left alone; others are shown again, and a refresh of
    /// Nemo's desktop is asked for where that is allowed.
    pub fn monitor_and_fix_icons(&mut self, output: &Vec<u8>, now: u128) -> (care: IconCare)
        ensures
            care.show_icons == (trimmed(lossy_utf8(output@)) != "true"@),
            valid_utf8(output@) ==> care.show_icons == (trimmed(decode_utf8(output@)) != "true"@),
            care.refresh == (care.show_icons && old(self)@.config.enable_nemo_refresh
                && refresh_due_at(old(self)@, now)),
            final(self)@ == if care.show_icons && old(self)@.config.enable_nemo_refresh {
                after_refresh(old(self)@, now)
            } else {
                old(self)@
            },
    {
        let text = lossy_text(output.as_slice());
        let show_icons = !icons_shown(text.as_str());
        let refresh = show_icons && self.config.enable_nemo_refresh
            && self.force_nemo_desktop_refresh(now);
        IconCare { show_icons, refresh }
    }
}

/// The window after refreshes were asked for at the given times.
pub open spec fn after_refreshes(w: WindowView, times: Seq<u128>) -> WindowView
    decreases times.len(),
{
    if times.len() == 0 {
        w
    } else {
        after_refresh(after_refreshes(w, times.drop_last()), times.last())
    }
}

/// The refresh that was asked for at `times[i]` is made.
pub open spec fn refreshes_at(w: WindowView, times: Seq<u128>, i: int) -> bool {
    refresh_due_at(after_refreshes(w, times.take(i)), times[i])
}

proof fn lemma_last_refresh(w: WindowView, times: Seq<u128>, i: int, n: int)
    requires
        0 <= i < n <= times.len(),
        forall|a: int, b: int| 0 <= a <= b < times.len() ==> times[a] <= times[b],
        refreshes_at(w, times, i),
    ensures
        after_refreshes(w, times.take(n)).config == w.config,
        times[i] <= after_refreshes(w, times.take(n)).last_nemo_refresh,
    decreases n,
{
    let so_far = times.take(n);
    assert(so_far.drop_last() =~= times.take(n - 1));
    assert(so_far.last() == times[n - 1]);
    if n - 1 > i {
        lemma_last_refresh(w, times, i, n - 1);
    } else {
        lemma_config_stays(w, times.take(n - 1));
    }
}

proof fn lemma_config_stays(w: WindowView, times: Seq<u128>)
    ensures
        after_refreshes(w, times).config == w.config,
    decreases times.len(),
{
    if times.len() > 0 {
        lemma_config_stays(w, times.drop_last());
    }
}

/// However often refreshes are asked for, any two that are made are at least the
/// configured interval apart.
pub proof fn law_refreshes_keep_their_distance(w: WindowView, times: Seq<u128>, i: int, j: int)
    requires
        0 <= i < j < times.len(),
        forall|a: int, b: int| 0 <= a <= b < times.len() ==> times[a] <= times[b],
        refreshes_at(w, times, i),
        refreshes_at(w, times, j),
    ensures
        times[j] - times[i] >= w.config.nemo_refresh_interval_ms * 1_000_000,
{
    lemma_last_refresh(w, times, i, j);
}

/// A refresh that is asked for too early changes nothing, so it does not push the next
/// one back: that one is due as soon as the interval since the last one made has passed.
pub proof fn law_early_refresh_changes_nothing(w: WindowView, early: u128, later: u128)
    requires
        !refresh_due_at(w, early),
        w.last_nemo_refresh <= later,
    ensures
        after_refresh(w, early) == w,
        refresh_due_at(after_refresh(w, early), later) <==> later - w.last_nemo_refresh
            >= w.config.nemo_refresh_interval_ms * 1_000_000,
{
}

} // verus!
