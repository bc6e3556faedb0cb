use crate::classify::{
    class_names, class_split, classify, placement, str_in, string_in, Disposition, Placement,
};
use crate::error::Error;
use crate::geometries::{bsp, geometries_bsp};
use crate::keycode::keycode_to_key;
use crate::model::{
    effects_view, same_keybind, strings_view, workspaces_view, Actions, Color, Command, Conf,
    DisplayId, Effect, Event, Events, Geometry, Keybind, Layout, ModMask, MouseMoveStart, Window,
    WindowInfo, Workspace, WorkspaceName, WorkspaceView, MOD_MASK_SHIFT,
};
use crate::resize::{
    clamp_index, get_display_border, place_command, place_commands, resize_bsp, resize_monocle,
    usable_area, usable_area_of,
};
use crate::workspaces::{
    after_detach, attach, change_workspace, copy_workspace, drop_window, emit, find_workspace,
    has_name, holds, is_managed, lemma_drop_window, lemma_name_index, lemma_push_window,
    lemma_switched_wf, lemma_update_wf, map_commands, moved_window, name_index, position,
    replace_workspace, switched, unmap_commands, without, workspaces_wf,
};
use std::collections::HashMap;
use vstd::prelude::*;

verus! {

/// The state of the window manager, apart from its connection to the display server.
pub struct UmberWm {
    pub conf: Conf,
    pub current_workspace: WorkspaceName,
    pub float_windows: Vec<Window>,
    pub overlay_windows: Vec<Window>,
    pub workspaces: Vec<(WorkspaceName, Workspace)>,
    pub mouse_move_start: Option<MouseMoveStart>,
    pub button_press_geometry: Option<Geometry>,
    /// For each key code, the names of its symbols, the unshifted one first.
    pub xmodmap_pke: HashMap<u8, Vec<String>>,
    pub displays_geometries: Vec<Geometry>,
    pub previous_display: DisplayId,
}

/// The windows that are tiled: those that do not float.
pub open spec fn non_float(windows: Seq<Window>, floats: Seq<Window>) -> Seq<Window> {
    windows.filter(|w: Window| !floats.contains(w))
}

/// The index of `w` in `s`.
pub open spec fn index_in(s: Seq<Window>, w: Window) -> int {
    choose|i: int| 0 <= i < s.len() && s[i] == w
}

/// The workspaces once workspace `i` has its focus on `w`, where it holds `w`.
pub open spec fn refocused(s: Seq<(Seq<char>, WorkspaceView)>, i: int, w: Window) -> Seq<
    (Seq<char>, WorkspaceView),
> {
    let ws = s[i].1;
    if ws.windows.contains(w) {
        s.update(
            i,
            (s[i].0, WorkspaceView { layout: ws.layout, windows: ws.windows, focus: index_in(ws.windows, w) }),
        )
    } else {
        s
    }
}

/// Commands that mark the first `n` windows of `ws` as focused or not: the focused one gets the
/// input focus and border color `focused_color`, the others border color `normal_color`.
pub open spec fn focus_pass(ws: WorkspaceView, focused_color: Color, normal_color: Color, n: int) -> Seq<Command>
    decreases n,
{
    if n <= 0 {
        seq![]
    } else {
        let prev = focus_pass(ws, focused_color, normal_color, n - 1);
        let w = ws.windows[n - 1];
        if n - 1 == ws.focus {
            prev + seq![Command::Focus(w), Command::SetBorderColor(w, focused_color)]
        } else {
            prev.push(Command::SetBorderColor(w, normal_color))
        }
    }
}

pub open spec fn raise_commands(windows: Seq<Window>) -> Seq<Command> {
    windows.map_values(|w: Window| Command::Raise(w))
}

/// Workspace `ws` once window `w` is destroyed: where it held `w`, `w` leaves it and a focus
/// above zero goes down by one.
pub open spec fn removed_from(ws: WorkspaceView, w: Window) -> WorkspaceView {
    if ws.windows.contains(w) {
        WorkspaceView {
            layout: ws.layout,
            windows: drop_window(ws.windows, w),
            focus: if ws.focus > 0 {
                ws.focus - 1
            } else {
                ws.focus
            },
        }
    } else {
        ws
    }
}

pub open spec fn spaces_without(s: Seq<(Seq<char>, WorkspaceView)>, w: Window) -> Seq<
    (Seq<char>, WorkspaceView),
> {
    s.map_values(|p: (Seq<char>, WorkspaceView)| (p.0, removed_from(p.1, w)))
}

/// The display that shows workspace `name`: the last of the first `n` displays whose list
/// holds it, or the first display.
pub open spec fn showing_display(names: Seq<Vec<WorkspaceName>>, name: Seq<char>, n: int) -> int
    decreases n,
{
    if n <= 0 {
        0
    } else if str_in(names[n - 1]@, name) {
        n - 1
    } else {
        showing_display(names, name, n - 1)
    }
}

pub proof fn lemma_refocus_on_focused(s: Seq<(Seq<char>, WorkspaceView)>, i: int)
    requires
        workspaces_wf(s),
        0 <= i < s.len(),
        0 <= s[i].1.focus < s[i].1.windows.len(),
    ensures
        refocused(s, i, s[i].1.windows[s[i].1.focus]) == s,
{
    let ws = s[i].1;
    let f = ws.focus;
    assert(ws.windows.no_duplicates());
    assert(ws.windows.contains(ws.windows[f]));
    let j = index_in(ws.windows, ws.windows[f]);
    assert(j == f);
    assert(refocused(s, i, ws.windows[f]) =~= s);
}

/// The commands of the resizes of `ws` on each of the first `n` displays whose list holds
/// workspace `name`.
pub open spec fn resize_on_displays(
    wm: UmberWm,
    ws: WorkspaceView,
    names: Seq<Vec<WorkspaceName>>,
    name: Seq<char>,
    n: int,
) -> Seq<Command>
    decreases n,
{
    if n <= 0 {
        seq![]
    } else {
        resize_on_displays(wm, ws, names, name, n - 1) + if str_in(names[n - 1]@, name) {
            wm.resize_commands(ws, n - 1)
        } else {
            Seq::<Command>::empty()
        }
    }
}

pub proof fn lemma_resize_on_displays_same(
    a: UmberWm,
    b: UmberWm,
    ws: WorkspaceView,
    names: Seq<Vec<WorkspaceName>>,
    name: Seq<char>,
    n: int,
)
    requires
        same_but_workspaces(a, b),
        a.spaces() == b.spaces(),
    ensures
        resize_on_displays(a, ws, names, name, n) == resize_on_displays(b, ws, names, name, n),
    decreases n,
{
    if n > 0 {
        lemma_resize_on_displays_same(a, b, ws, names, name, n - 1);
    }
}

/// The workspaces once window `w` is added to workspace `t`, where there is one.
pub open spec fn adopted_spaces(s: Seq<(Seq<char>, WorkspaceView)>, w: Window, t: Seq<char>) -> Seq<
    (Seq<char>, WorkspaceView),
> {
    if has_name(s, t) {
        let ti = name_index(s, t);
        s.update(ti, (s[ti].0, attach(s[ti].1, w)))
    } else {
        s
    }
}

/// `new` and the commands `e1` after `e0` are what becomes of `old` when it takes in a new
/// window `w` with disposition `p`: an ignored window changes nothing; an overlay window joins
/// the overlay set; any other is appended to its target workspace, if that exists, and focused
/// there, joins the float set if it floats, and the target is laid out on each display that
/// shows it if it is the current workspace; the window is then watched if its workspace is
/// the current one, and hidden otherwise.
pub open spec fn adopted(
    old: UmberWm,
    new: UmberWm,
    w: Window,
    p: Placement,
    e0: Seq<Command>,
    e1: Seq<Command>,
) -> bool {
    match p {
        Placement::Ignore => {
            &&& new.spaces() == old.spaces()
            &&& new.overlay_windows@ == old.overlay_windows@
            &&& new.float_windows@ == old.float_windows@
            &&& e1 == e0
        },
        Placement::Overlay => {
            &&& new.spaces() == old.spaces()
            &&& new.overlay_windows@ == old.overlay_windows@.push(w)
            &&& new.float_windows@ == old.float_windows@
            &&& e1 == e0
        },
        _ => {
            let (t, floating) = match p {
                Placement::Float(t) => (t, true),
                Placement::Tile(t) => (t, false),
                _ => (Seq::<char>::empty(), false),
            };
            let s = old.spaces();
            let names = old.conf.serializable.workspaces_names@;
            &&& new.spaces() == adopted_spaces(s, w, t)
            &&& new.overlay_windows@ == old.overlay_windows@
            &&& new.float_windows@ == if has_name(s, t) && floating && !old.float_windows@.contains(
                w,
            ) {
                old.float_windows@.push(w)
            } else {
                old.float_windows@
            }
            &&& e1 == e0 + (if has_name(s, t) && old.current_workspace@ == t {
                resize_on_displays(
                    new,
                    new.spaces()[name_index(s, t)].1,
                    names,
                    old.current_workspace@,
                    names.len() as int,
                )
            } else {
                Seq::<Command>::empty()
            }) + seq![
                if old.current_workspace@ == t {
                    Command::WatchEnterLeave(w)
                } else {
                    Command::UnmapWindow(w)
                },
            ]
        },
    }
}

/// The action bound to key `key` with modifiers `m` by the first entry that names it.
pub open spec fn action_lookup(list: Seq<(Keybind, Actions)>, m: ModMask, key: Seq<char>) -> Option<Actions>
    decreases list.len(),
{
    if list.len() == 0 {
        None
    } else if list[0].0.mod_mask == m && list[0].0.key@ == key {
        Some(list[0].1)
    } else {
        action_lookup(list.drop_first(), m, key)
    }
}

/// The action bound to `k` by the first entry that names it.
pub open spec fn action_for(list: Seq<(Keybind, Actions)>, k: Keybind) -> Option<Actions> {
    action_lookup(list, k.mod_mask, k.key@)
}

pub open spec fn next_layout(l: Layout) -> Layout {
    match l {
        Layout::Bspv => Layout::Monocle,
        Layout::Monocle => Layout::Bsph,
        Layout::Bsph => Layout::Bspv,
    }
}

/// The current workspace after action `a`: switching moves the focus to the next window,
/// round to the first; changing the layout goes from vertical to monocle to horizontal and
/// back to vertical.
pub open spec fn acted_on(ws: WorkspaceView, a: Actions) -> WorkspaceView {
    match a {
        Actions::SwitchWindow => if ws.windows.len() > 0 {
            WorkspaceView {
                layout: ws.layout,
                windows: ws.windows,
                focus: (ws.focus + 1) % (ws.windows.len() as int),
            }
        } else {
            ws
        },
        Actions::ChangeLayout => WorkspaceView {
            layout: next_layout(ws.layout),
            windows: ws.windows,
            focus: ws.focus,
        },
        _ => ws,
    }
}

/// The first of the displays from `i` on whose list holds workspace `key`.
pub open spec fn holder_from(names: Seq<Vec<WorkspaceName>>, key: Seq<char>, i: int) -> Option<int>
    decreases names.len() - i,
{
    if i < 0 || i >= names.len() {
        None
    } else if str_in(names[i]@, key) {
        Some(i)
    } else {
        holder_from(names, key, i + 1)
    }
}

pub proof fn lemma_holder_from(names: Seq<Vec<WorkspaceName>>, key: Seq<char>, i: int)
    ensures
        holder_from(names, key, i) matches Some(d) ==> i <= d < names.len() && str_in(names[d]@, key),
    decreases names.len() - i,
{
    if 0 <= i < names.len() && !str_in(names[i]@, key) {
        lemma_holder_from(names, key, i + 1);
    }
}

/// The command line configured for event `e` by the first entry that names it.
pub open spec fn callback_for(list: Seq<(Events, Vec<String>)>, e: Events) -> Option<Seq<Seq<char>>>
    decreases list.len(),
{
    if list.len() == 0 {
        None
    } else if list[0].0 == e {
        Some(strings_view(list[0].1@))
    } else {
        callback_for(list.drop_first(), e)
    }
}

/// The command line configured for key `key` with modifiers `m` by the first entry that
/// names it.
pub open spec fn command_lookup(list: Seq<(Keybind, Vec<String>)>, m: ModMask, key: Seq<char>) -> Option<
    Seq<Seq<char>>,
>
    decreases list.len(),
{
    if list.len() == 0 {
        None
    } else if list[0].0.mod_mask == m && list[0].0.key@ == key {
        Some(strings_view(list[0].1@))
    } else {
        command_lookup(list.drop_first(), m, key)
    }
}

/// The command line configured for key `k` by the first entry that names it.
pub open spec fn command_for(list: Seq<(Keybind, Vec<String>)>, k: Keybind) -> Option<Seq<Seq<char>>> {
    command_lookup(list, k.mod_mask, k.key@)
}

/// The embedding program handles key `key` with modifiers `m` itself.
pub open spec fn custom_bound(list: Seq<Keybind>, m: ModMask, key: Seq<char>) -> bool {
    exists|i: int| 0 <= i < list.len() && (#[trigger] list[i]).mod_mask == m && list[i].key@ == key
}

/// The request to run a configured command line, where it names a program.
pub open spec fn run_commands(args: Option<Seq<Seq<char>>>) -> Seq<Command> {
    match args {
        Some(a) => if a.len() > 0 {
            seq![Command::RunCommand(a)]
        } else {
            Seq::<Command>::empty()
        },
        None => Seq::<Command>::empty(),
    }
}

/// Only the workspaces may differ between `a` and `b`.
pub open spec fn same_but_workspaces(a: UmberWm, b: UmberWm) -> bool {
    &&& a.conf == b.conf
    &&& a.current_workspace == b.current_workspace
    &&& a.float_windows == b.float_windows
    &&& a.overlay_windows == b.overlay_windows
    &&& a.mouse_move_start == b.mouse_move_start
    &&& a.button_press_geometry == b.button_press_geometry
    &&& a.xmodmap_pke == b.xmodmap_pke
    &&& a.displays_geometries == b.displays_geometries
    &&& a.previous_display == b.previous_display
}

/// `v` in 32-bit two's complement.
pub open spec fn wrap32(v: int) -> u32 {
    (v % 0x1_0000_0000) as u32
}

/// A size changed by `d`, and at least one.
pub open spec fn grown(size: u32, d: int) -> u32 {
    if size + d < 1 {
        1
    } else {
        wrap32(size + d)
    }
}

/// The move or resize of a gesture that started at `start` on a window with geometry `g`, once
/// the pointer is at (`x`, `y`): the first button moves, the third resizes.
pub open spec fn gesture_command(start: MouseMoveStart, g: Geometry, x: i16, y: i16) -> Command {
    let dx = x - start.root_x;
    let dy = y - start.root_y;
    let moving = start.detail == 1;
    let growing = start.detail == 3;
    Command::MoveResize {
        window: start.child,
        x: wrap32(g.0 + if moving { dx } else { 0 }),
        y: wrap32(g.1 + if moving { dy } else { 0 }),
        width: grown(g.2, if growing { dx } else { 0 }),
        height: grown(g.3, if growing { dy } else { 0 }),
    }
}

fn wrap_add(p: u32, d: i64) -> (r: u32)
    requires
        -0x1_0000 <= d <= 0x1_0000,
    ensures
        r == wrap32(p + d),
{
    let shifted: u64 = (d + 0x1_0000_0000) as u64;
    ((p as u64 + shifted) % 0x1_0000_0000) as u32
}

fn grow(size: u32, d: i64) -> (r: u32)
    requires
        -0x1_0000 <= d <= 0x1_0000,
    ensures
        r == grown(size, d as int),
{
    if (size as i64) + d < 1 {
        1
    } else {
        wrap_add(size, d)
    }
}

pub fn copy_strings(v: &Vec<String>) -> (r: Vec<String>)
    ensures
        strings_view(r@) == strings_view(v@),
{
    let mut r: Vec<String> = Vec::new();
    let mut i: usize = 0;
    while i < v.len()
        invariant
            i <= v.len(),
            r.len() == i,
            forall|j: int| 0 <= j < i ==> (#[trigger] r@[j])@ == v@[j]@,
        decreases v.len() - i,
    {
        let c = v[i].clone();
        assert(c == v@[i as int]);
        r.push(c);
        i = i + 1;
    }
    assert(strings_view(r@) =~= strings_view(v@));
    r
}

/// The outputs that are in use: those of positive width.
pub open spec fn in_use(outputs: Seq<Geometry>) -> Seq<Geometry> {
    outputs.filter(|g: Geometry| g.2 > 0)
}

/// The rectangles of the displays in use, among those of all outputs.
pub fn visible_displays(outputs: &Vec<Geometry>) -> (r: Vec<Geometry>)
    ensures
        r@ == in_use(outputs@),
{
    let mut r: Vec<Geometry> = Vec::new();
    let mut i: usize = 0;
    while i < outputs.len()
        invariant
            i <= outputs.len(),
            r@ == in_use(outputs@.take(i as int)),
        decreases outputs.len() - i,
    {
        assert(outputs@.take(i as int + 1).drop_last() =~= outputs@.take(i as int));
        proof {
            reveal(Seq::filter);
        }
        if outputs[i].2 > 0 {
            r.push(outputs[i]);
        }
        i = i + 1;
    }
    assert(outputs@.take(outputs.len() as int) =~= outputs@);
    r
}

impl UmberWm {
    pub open spec fn spaces(self) -> Seq<(Seq<char>, WorkspaceView)> {
        workspaces_view(self.workspaces@)
    }

    pub open spec fn current_index(self) -> int {
        name_index(self.spaces(), self.current_workspace@)
    }

    pub open spec fn current(self) -> WorkspaceView {
        self.spaces()[self.current_index()].1
    }

    /// The invariant: the workspaces are well formed, no overlay window is in a workspace, the
    /// overlay and float sets hold each window once, the current workspace exists, and there is
    /// at least one display border.
    pub open spec fn wf(self) -> bool {
        &&& workspaces_wf(self.spaces())
        &&& forall|w: Window| #[trigger]
            self.overlay_windows@.contains(w) ==> !is_managed(self.spaces(), w)
        &&& self.overlay_windows@.no_duplicates()
        &&& self.float_windows@.no_duplicates()
        &&& has_name(self.spaces(), self.current_workspace@)
        &&& self.conf.serializable.display_borders.len() > 0
    }

    /// Whether the focused window's border gets the focus color: not when the current
    /// workspace holds one window in the monocle layout on a single display.
    pub open spec fn border_focused(self) -> bool {
        !(self.current().windows.len() == 1 && self.current().layout == Layout::Monocle
            && self.displays_geometries.len() == 1)
    }

    pub open spec fn focus_color(self) -> Color {
        if self.border_focused() {
            self.conf.serializable.border.focus_color
        } else {
            self.conf.serializable.border.normal_color
        }
    }

    pub open spec fn focus_commands(self, w: Window, do_focus: bool) -> Seq<Command> {
        if do_focus {
            seq![Command::Focus(w), Command::SetBorderColor(w, self.focus_color())]
        } else {
            seq![Command::SetBorderColor(w, self.conf.serializable.border.normal_color)]
        }
    }

    /// The display that a resize of `ws` on display `display` uses, its usable area and gap.
    pub open spec fn area_for(self, display: int) -> Geometry {
        let d = clamp_index(display, self.displays_geometries.len() as int);
        let b = self.conf.serializable.display_borders@[clamp_index(
            d,
            self.conf.serializable.display_borders.len() as int,
        )];
        usable_area(self.displays_geometries@[d], b)
    }

    pub open spec fn gap_for(self, display: int) -> u32 {
        let d = clamp_index(display, self.displays_geometries.len() as int);
        let b = self.conf.serializable.display_borders@[clamp_index(
            d,
            self.conf.serializable.display_borders.len() as int,
        )];
        if self.conf.serializable.with_gap {
            b.gap
        } else {
            0
        }
    }

    /// The commands of a resize of workspace `ws` on display `display`: nothing when no window
    /// is tiled or no display is known; else the placements of the layout, the focus pass over
    /// all windows of `ws`, and the overlay windows put back on top.
    pub open spec fn resize_commands(self, ws: WorkspaceView, display: int) -> Seq<Command> {
        let nf = non_float(ws.windows, self.float_windows@);
        if nf.len() == 0 || self.displays_geometries.len() == 0 {
            seq![]
        } else {
            let area = self.area_for(display);
            let gap = self.gap_for(display);
            let bw = self.conf.serializable.border.width;
            let placed = match ws.layout {
                Layout::Bspv => place_commands(
                    nf,
                    bsp(0, nf.len(), area.0, area.1, area.2, area.3, 0),
                    bw,
                    gap,
                    nf.len() as int,
                ),
                Layout::Bsph => place_commands(
                    nf,
                    bsp(0, nf.len(), area.0, area.1, area.2, area.3, 1),
                    bw,
                    gap,
                    nf.len() as int,
                ),
                Layout::Monocle => if 0 <= ws.focus < ws.windows.len() {
                    seq![place_command(ws.windows[ws.focus], area, bw, gap, true)]
                } else {
                    Seq::<Command>::empty()
                },
            };
            placed + focus_pass(
                ws,
                self.focus_color(),
                self.conf.serializable.border.normal_color,
                ws.windows.len() as int,
            ) + raise_commands(self.overlay_windows@)
        }
    }

    /// The workspaces after a resize of `ws`: the current workspace focuses the focused window
    /// of `ws`, where it holds it.
    pub open spec fn resize_spaces(self, ws: WorkspaceView) -> Seq<(Seq<char>, WorkspaceView)> {
        let nf = non_float(ws.windows, self.float_windows@);
        if nf.len() == 0 || self.displays_geometries.len() == 0 || !(0 <= ws.focus
            < ws.windows.len()) {
            self.spaces()
        } else {
            refocused(self.spaces(), self.current_index(), ws.windows[ws.focus])
        }
    }

    /// The index of the current workspace.
    fn current_position(&self) -> (r: usize)
        requires
            self.wf(),
        ensures
            r == self.current_index(),
            r < self.workspaces.len(),
    {
        match find_workspace(&self.workspaces, &self.current_workspace) {
            Some(i) => {
                proof {
                    lemma_name_index(self.spaces(), i as int);
                }
                i
            },
            None => {
                proof {
                    let j = choose|j: int|
                        0 <= j < self.spaces().len() && #[trigger] self.spaces()[j].0
                            == self.current_workspace@;
                    assert(self.workspaces@[j].0@ == self.current_workspace@);
                }
                0
            },
        }
    }

    /// The windows of `windows` that do not float, in order.
    fn non_float_of(&self, windows: &Vec<Window>) -> (r: Vec<Window>)
        ensures
            r@ == non_float(windows@, self.float_windows@),
    {
        let mut r: Vec<Window> = Vec::new();
        let mut i: usize = 0;
        while i < windows.len()
            invariant
                i <= windows.len(),
                r@ == non_float(windows@.take(i as int), self.float_windows@),
            decreases windows.len() - i,
        {
            assert(windows@.take(i as int + 1).drop_last() =~= windows@.take(i as int));
            proof {
                reveal(Seq::filter);
            }
            if !crate::workspaces::contains_window(&self.float_windows, windows[i]) {
                r.push(windows[i]);
            }
            i = i + 1;
        }
        assert(windows@.take(windows.len() as int) =~= windows@);
        r
    }

    /// Lays out `workspace` on display `display`, or on the last display where there is no
    /// such display: its windows that do not float are placed by its layout in the display's
    /// usable area, each of its windows is marked focused or not, and the overlay windows are
    /// put back on top. Does nothing when no window is tiled or no display is known.
    pub fn resize_workspace_windows(
        &mut self,
        workspace: &Workspace,
        display: usize,
        effects: &mut Vec<Effect>,
    )
        requires
            old(self).wf(),
        ensures
            final(self).wf(),
            same_but_workspaces(*final(self), *old(self)),
            final(self).spaces() == old(self).resize_spaces(workspace@),
            final(self).current_index() == old(self).current_index(),
            final(self).border_focused() == old(self).border_focused(),
            effects_view(final(effects)@) == effects_view(old(effects)@) + old(self).resize_commands(
                workspace@,
                display as int,
            ),
    {
        let ghost e0 = effects_view(effects@);
        let non_float_windows = self.non_float_of(&workspace.windows);
        let count = non_float_windows.len();
        if count == 0 || self.displays_geometries.len() == 0 {
            assert(effects_view(effects@) =~= e0 + old(self).resize_commands(workspace@, display as int));
            return;
        }
        let d = if display >= self.displays_geometries.len() {
            self.displays_geometries.len() - 1
        } else {
            display
        };
        let display_border = get_display_border(&self.conf.serializable.display_borders, d);
        let area = usable_area_of(self.displays_geometries[d], display_border);
        let gap = if self.conf.serializable.with_gap {
            display_border.gap
        } else {
            0
        };
        let border_width = self.conf.serializable.border.width;
        proof {
            crate::geometries::lemma_bsp_partition(0, count as nat, area.0, area.1, area.2, area.3, 0);
            crate::geometries::lemma_bsp_partition(0, count as nat, area.0, area.1, area.2, area.3, 1);
        }
        match workspace.layout {
            Layout::Bspv => {
                let geos = geometries_bsp(0, count, area.0, area.1, area.2, area.3, 0);
                resize_bsp(border_width, &non_float_windows, &geos, gap, effects);
            },
            Layout::Bsph => {
                let geos = geometries_bsp(0, count, area.0, area.1, area.2, area.3, 1);
                resize_bsp(border_width, &non_float_windows, &geos, gap, effects);
            },
            Layout::Monocle => {
                let geos = geometries_bsp(0, 1, area.0, area.1, area.2, area.3, 0);
                resize_monocle(border_width, workspace, &geos, gap, effects);
            },
        }
        let ghost e1 = effects_view(effects@);
        let ghost s0 = old(self).spaces();
        let ghost ci = old(self).current_index();
        let ghost fcolor = old(self).focus_color();
        let ghost ncolor = old(self).conf.serializable.border.normal_color;
        let mut i: usize = 0;
        while i < workspace.windows.len()
            invariant
                i <= workspace.windows.len(),
                fcolor == old(self).focus_color(),
                ncolor == old(self).conf.serializable.border.normal_color,
                s0 == old(self).spaces(),
                ci == old(self).current_index(),
                self.wf(),
                same_but_workspaces(*self, *old(self)),
                self.current_index() == ci,
                self.border_focused() == old(self).border_focused(),
                self.spaces() == if workspace.focus < i {
                    refocused(s0, ci, workspace.windows@[workspace.focus as int])
                } else {
                    s0
                },
                effects_view(effects@) == e1 + focus_pass(workspace@, fcolor, ncolor, i as int),
            decreases workspace.windows.len() - i,
        {
            let ghost before = effects_view(effects@);
            let ghost me = *self;
            assert(me.focus_color() == fcolor);
            self.focus_unfocus(workspace.windows[i], i == workspace.focus, effects);
            let ghost w = workspace.windows@[i as int];
            assert(focus_pass(workspace@, fcolor, ncolor, i as int + 1) == if i == workspace.focus {
                focus_pass(workspace@, fcolor, ncolor, i as int) + seq![Command::Focus(w), Command::SetBorderColor(w, fcolor)]
            } else {
                focus_pass(workspace@, fcolor, ncolor, i as int).push(Command::SetBorderColor(w, ncolor))
            });
            assert(effects_view(effects@) =~= e1 + focus_pass(workspace@, fcolor, ncolor, i as int + 1));
            i = i + 1;
        }
        let ghost e2 = effects_view(effects@);
        let mut k: usize = 0;
        while k < self.overlay_windows.len()
            invariant
                k <= self.overlay_windows.len(),
                effects_view(effects@) == e2 + raise_commands(self.overlay_windows@.take(k as int)),
            decreases self.overlay_windows.len() - k,
        {
            emit(effects, Effect::Raise(self.overlay_windows[k]));
            assert(raise_commands(self.overlay_windows@.take(k as int + 1)) =~= raise_commands(
                self.overlay_windows@.take(k as int),
            ).push(Command::Raise(self.overlay_windows@[k as int])));
            k = k + 1;
        }
        assert(self.overlay_windows@.take(self.overlay_windows.len() as int) =~= self.overlay_windows@);
        assert(effects_view(effects@) =~= e0 + old(self).resize_commands(workspace@, display as int));
    }

    /// The display that shows the current workspace.
    fn current_display(&self) -> (r: usize)
        ensures
            r == showing_display(
                self.conf.serializable.workspaces_names@,
                self.current_workspace@,
                self.conf.serializable.workspaces_names.len() as int,
            ),
    {
        let names = &self.conf.serializable.workspaces_names;
        let mut dis: usize = 0;
        let mut i: usize = 0;
        while i < names.len()
            invariant
                i <= names.len(),
                dis == showing_display(names@, self.current_workspace@, i as int),
            decreases names.len() - i,
        {
            if string_in(&names[i], &self.current_workspace) {
                dis = i;
            }
            i = i + 1;
        }
        dis
    }

    /// Forgets a destroyed window: it leaves the overlay and float sets and its workspace,
    /// whose focus goes down by one when above zero. When that workspace is the current one,
    /// its focused window is focused again and it is laid out on the display that shows it.
    pub fn destroy_window(&mut self, window: Window, effects: &mut Vec<Effect>)
        requires
            old(self).wf(),
        ensures
            final(self).wf(),
            final(self).overlay_windows@ == drop_window(old(self).overlay_windows@, window),
            final(self).float_windows@ == drop_window(old(self).float_windows@, window),
            final(self).spaces() == spaces_without(old(self).spaces(), window),
            final(self).conf == old(self).conf,
            final(self).current_workspace == old(self).current_workspace,
            final(self).displays_geometries == old(self).displays_geometries,
            final(self).mouse_move_start == old(self).mouse_move_start,
            final(self).button_press_geometry == old(self).button_press_geometry,
            final(self).previous_display == old(self).previous_display,
            final(self).xmodmap_pke == old(self).xmodmap_pke,
            effects_view(final(effects)@) == effects_view(old(effects)@) + if old(
                self,
            ).current().windows.contains(window) {
                let ws = final(self).current();
                (if 0 <= ws.focus < ws.windows.len() {
                    final(self).focus_commands(ws.windows[ws.focus], true)
                } else {
                    Seq::<Command>::empty()
                }) + final(self).resize_commands(
                    ws,
                    showing_display(
                        old(self).conf.serializable.workspaces_names@,
                        old(self).current_workspace@,
                        old(self).conf.serializable.workspaces_names.len() as int,
                    ),
                )
            } else {
                Seq::<Command>::empty()
            },
    {
        let ghost e0 = effects_view(effects@);
        let ghost s0 = self.spaces();
        let ci = self.current_position();
        let was_current = crate::workspaces::contains_window(&self.workspaces[ci].1.windows, window);
        proof {
            lemma_drop_window(self.overlay_windows@, window);
            lemma_drop_window(self.float_windows@, window);
        }
        self.overlay_windows = without(&self.overlay_windows, window);
        self.float_windows = without(&self.float_windows, window);
        let mut i: usize = 0;
        while i < self.workspaces.len()
            invariant
                i <= self.workspaces.len(),
                s0 == old(self).spaces(),
                self.overlay_windows@ == drop_window(old(self).overlay_windows@, window),
                self.float_windows@ == drop_window(old(self).float_windows@, window),
                self.overlay_windows@.no_duplicates(),
                self.float_windows@.no_duplicates(),
                self.conf == old(self).conf,
                self.current_workspace == old(self).current_workspace,
                self.displays_geometries == old(self).displays_geometries,
                self.mouse_move_start == old(self).mouse_move_start,
                self.button_press_geometry == old(self).button_press_geometry,
                self.previous_display == old(self).previous_display,
                self.xmodmap_pke == old(self).xmodmap_pke,
                self.spaces().len() == s0.len(),
                forall|j: int| 0 <= j < i ==> #[trigger] self.spaces()[j] == (s0[j].0, removed_from(s0[j].1, window)),
                forall|j: int| i <= j < s0.len() ==> #[trigger] self.spaces()[j] == s0[j],
                workspaces_wf(self.spaces()),
                forall|x: Window| #[trigger] is_managed(self.spaces(), x) ==> is_managed(s0, x),
            decreases self.workspaces.len() - i,
        {
            if crate::workspaces::contains_window(&self.workspaces[i].1.windows, window) {
                let ghost s = self.spaces();
                let ws = &self.workspaces[i].1;
                let new_focus = if ws.focus > 0 {
                    ws.focus - 1
                } else {
                    ws.focus
                };
                let new_ws = Workspace { layout: ws.layout, windows: without(&ws.windows, window), focus: new_focus };
                proof {
                    assert(s[i as int].1 == s0[i as int].1);
                    lemma_drop_window(s[i as int].1.windows, window);
                    assert(new_ws@ == removed_from(s0[i as int].1, window));
                    assert forall|x: Window| #[trigger] new_ws@.windows.contains(x) implies holds(s, i as int, x) || !is_managed(s, x) by {
                        assert(s[i as int].1.windows.contains(x));
                    }
                    lemma_update_wf(s, i as int, new_ws@);
                }
                replace_workspace(&mut self.workspaces, i, new_ws);
                proof {
                    assert(self.spaces() =~= s.update(i as int, (s[i as int].0, new_ws@)));
                    assert forall|x: Window| #[trigger] is_managed(self.spaces(), x) implies is_managed(s0, x) by {
                        if new_ws@.windows.contains(x) {
                            assert(holds(s, i as int, x));
                            assert(is_managed(s, x));
                        }
                    }
                }
            } else {
                proof {
                    assert(self.spaces()[i as int] == s0[i as int]);
                    assert(!s0[i as int].1.windows.contains(window));
                }
            }
            i = i + 1;
        }
        proof {
            assert(self.spaces() =~= spaces_without(s0, window));
            assert(self.spaces()[ci as int].0 == s0[ci as int].0);
            lemma_name_index(self.spaces(), ci as int);
            assert forall|w: Window| #[trigger]
                self.overlay_windows@.contains(w) implies !is_managed(self.spaces(), w) by {
                assert(drop_window(old(self).overlay_windows@, window).contains(w));
                assert(old(self).overlay_windows@.contains(w));
            }
        }
        let dis = self.current_display();
        if was_current {
            let ws = copy_workspace(&self.workspaces[ci].1);
            let ghost mid = *self;
            if ws.focus < ws.windows.len() {
                proof {
                    lemma_refocus_on_focused(self.spaces(), ci as int);
                }
                self.focus_unfocus(ws.windows[ws.focus], true, effects);
            }
            let ghost e1 = effects_view(effects@);
            proof {
                let nf = non_float(ws@.windows, self.float_windows@);
                if !(nf.len() == 0 || self.displays_geometries.len() == 0) && 0 <= ws.focus < ws.windows.len() {
                    lemma_refocus_on_focused(self.spaces(), ci as int);
                }
            }
            self.resize_workspace_windows(&ws, dis, effects);
            assert(self.focus_color() == mid.focus_color());
            assert(effects_view(effects@) =~= e0 + (if 0 <= ws.focus < ws.windows.len() {
                self.focus_commands(ws.windows@[ws.focus as int], true)
            } else {
                Seq::<Command>::empty()
            }) + self.resize_commands(ws@, dis as int));
        } else {
            assert(effects_view(effects@) =~= e0 + Seq::<Command>::empty());
        }
    }

    /// Whether some workspace holds `window`.
    fn is_in_workspace(&self, window: Window) -> (r: bool)
        ensures
            r == is_managed(self.spaces(), window),
    {
        let mut k: usize = 0;
        while k < self.workspaces.len()
            invariant
                k <= self.workspaces.len(),
                forall|j: int| 0 <= j < k ==> !holds(self.spaces(), j, window),
            decreases self.workspaces.len() - k,
        {
            if crate::workspaces::contains_window(&self.workspaces[k].1.windows, window) {
                assert(holds(self.spaces(), k as int, window));
                return true;
            }
            k = k + 1;
        }
        false
    }

    /// Takes in a newly mapped window, described by `info`, unless a workspace or the overlay
    /// set has it already. Its disposition comes from its class names, the pieces of its class
    /// property between NUL characters, and from the rules of the configuration, as `placement`
    /// says; `adopted` says what each disposition does.
    pub fn setup_new_window(&mut self, window: Window, info: &WindowInfo, effects: &mut Vec<Effect>)
        requires
            old(self).wf(),
        ensures
            final(self).wf(),
            final(self).conf == old(self).conf,
            final(self).current_workspace == old(self).current_workspace,
            final(self).displays_geometries == old(self).displays_geometries,
            final(self).mouse_move_start == old(self).mouse_move_start,
            final(self).button_press_geometry == old(self).button_press_geometry,
            final(self).previous_display == old(self).previous_display,
            final(self).xmodmap_pke == old(self).xmodmap_pke,
            if is_managed(old(self).spaces(), window) || old(self).overlay_windows@.contains(window) {
                &&& final(self).spaces() == old(self).spaces()
                &&& final(self).overlay_windows@ == old(self).overlay_windows@
                &&& final(self).float_windows@ == old(self).float_windows@
                &&& final(effects)@ == old(effects)@
            } else {
                adopted(
                    *old(self),
                    *final(self),
                    window,
                    placement(
                        class_split(info.wm_class@),
                        info.window_type,
                        info.window_type_name@,
                        info.chrome_types@,
                        info.normal_hints,
                        old(self).conf.serializable,
                        old(self).current_workspace@,
                    ),
                    effects_view(old(effects)@),
                    effects_view(final(effects)@),
                )
            },
    {
        if self.is_in_workspace(window) || crate::workspaces::contains_window(&self.overlay_windows, window) {
            return;
        }
        let ghost e0 = effects_view(effects@);
        let ghost s0 = self.spaces();
        let wm_class = class_names(&info.wm_class);
        let disposition = classify(&wm_class, info, &self.conf.serializable, &self.current_workspace);
        let ghost p = disposition@;
        let (target, floating) = match disposition {
            Disposition::Ignore => {
                assert(adopted(*old(self), *self, window, p, e0, effects_view(effects@)));
                return;
            },
            Disposition::Overlay => {
                self.overlay_windows.push(window);
                proof {
                    assert forall|w: Window| #[trigger]
                        self.overlay_windows@.contains(w) implies !is_managed(self.spaces(), w) by {
                        if w != window {
                            assert(old(self).overlay_windows@.contains(w)) by {
                                let j = choose|j: int| 0 <= j < self.overlay_windows@.len() && self.overlay_windows@[j] == w;
                                assert(old(self).overlay_windows@[j] == w);
                            }
                        }
                    }
                    lemma_push_window(old(self).overlay_windows@, window);
                }
                assert(adopted(*old(self), *self, window, p, e0, effects_view(effects@)));
                return;
            },
            Disposition::Float(t) => (t, true),
            Disposition::Tile(t) => (t, false),
        };
        let is_current = self.current_workspace == target;
        if let Some(ti) = find_workspace(&self.workspaces, &target) {
            proof {
                lemma_name_index(s0, ti as int);
            }
            if floating && !crate::workspaces::contains_window(&self.float_windows, window) {
                proof {
                    lemma_push_window(self.float_windows@, window);
                }
                self.float_windows.push(window);
            }
            let mut ws = copy_workspace(&self.workspaces[ti].1);
            proof {
                assert(s0[ti as int].1 == ws@);
                assert(!ws@.windows.contains(window)) by {
                    if ws@.windows.contains(window) {
                        assert(holds(s0, ti as int, window));
                    }
                }
                lemma_push_window(ws@.windows, window);
            }
            ws.windows.push(window);
            ws.focus = ws.windows.len() - 1;
            let ws2 = copy_workspace(&ws);
            proof {
                assert(ws@ == attach(s0[ti as int].1, window));
                assert forall|x: Window| #[trigger] ws@.windows.contains(x) implies holds(s0, ti as int, x) || !is_managed(s0, x) by {
                    if x != window {
                        assert(s0[ti as int].1.windows.contains(x));
                    }
                }
                lemma_update_wf(s0, ti as int, ws@);
            }
            replace_workspace(&mut self.workspaces, ti, ws);
            proof {
                assert(self.spaces() =~= adopted_spaces(s0, window, target@));
                assert(self.spaces()[ti as int].0 == s0[ti as int].0);
                let j = choose|j: int| 0 <= j < s0.len() && #[trigger] s0[j].0 == self.current_workspace@;
                assert(self.spaces()[j].0 == s0[j].0);
                lemma_name_index(self.spaces(), ti as int);
                assert forall|w: Window| #[trigger]
                    self.overlay_windows@.contains(w) implies !is_managed(self.spaces(), w) by {
                    assert(w != window);
                    if ws2@.windows.contains(w) {
                        assert(s0[ti as int].1.windows.contains(w));
                        assert(holds(s0, ti as int, w));
                    }
                }
                if self.current_workspace@ == target@ {
                    lemma_name_index(self.spaces(), ti as int);
                }
            }
            if is_current {
                let ghost mid = *self;
                let ghost e1 = effects_view(effects@);
                let n = self.conf.serializable.workspaces_names.len();
                let mut d: usize = 0;
                while d < n
                    invariant
                        d <= n,
                        n == mid.conf.serializable.workspaces_names.len(),
                        self.wf(),
                        same_but_workspaces(*self, mid),
                        self.spaces() == mid.spaces(),
                        mid.current_index() == ti,
                        ti < mid.spaces().len(),
                        mid.spaces()[ti as int].1 == ws2@,
                        ws2@.windows.len() >= 1,
                        ws2@.focus == ws2@.windows.len() - 1,
                        effects_view(effects@) == e1 + resize_on_displays(
                            mid,
                            ws2@,
                            mid.conf.serializable.workspaces_names@,
                            mid.current_workspace@,
                            d as int,
                        ),
                    decreases n - d,
                {
                    if string_in(&self.conf.serializable.workspaces_names[d], &self.current_workspace) {
                        proof {
                            lemma_refocus_on_focused(self.spaces(), ti as int);
                        }
                        self.resize_workspace_windows(&ws2, d, effects);
                    }
                    d = d + 1;
                }
                proof {
                    lemma_resize_on_displays_same(
                        *self,
                        mid,
                        ws2@,
                        mid.conf.serializable.workspaces_names@,
                        mid.current_workspace@,
                        n as int,
                    );
                }
            }
        }
        if is_current {
            emit(effects, Effect::WatchEnterLeave(window));
        } else {
            emit(effects, Effect::UnmapWindow(window));
        }
        proof {
            assert(effects_view(effects@) =~= e0 + (if has_name(s0, target@) && old(self).current_workspace@ == target@ {
                resize_on_displays(
                    *self,
                    self.spaces()[name_index(s0, target@)].1,
                    old(self).conf.serializable.workspaces_names@,
                    old(self).current_workspace@,
                    old(self).conf.serializable.workspaces_names.len() as int,
                )
            } else {
                Seq::<Command>::empty()
            }) + seq![
                if old(self).current_workspace@ == target@ {
                    Command::WatchEnterLeave(window)
                } else {
                    Command::UnmapWindow(window)
                },
            ]);
            assert(adopted(*old(self), *self, window, p, e0, effects_view(effects@)));
        }
    }

    /// The action bound to `keybind`.
    fn action_of(&self, keybind: &Keybind) -> (r: Option<Actions>)
        ensures
            r == action_for(self.conf.serializable.wm_actions@, *keybind),
    {
        let list = &self.conf.serializable.wm_actions;
        let mut i: usize = 0;
        assert(list@.subrange(0, list.len() as int) =~= list@);
        while i < list.len()
            invariant
                i <= list.len(),
                list@ == self.conf.serializable.wm_actions@,
                action_for(list@, *keybind) == action_for(list@.subrange(i as int, list.len() as int), *keybind),
            decreases list.len() - i,
        {
            assert(list@.subrange(i as int, list.len() as int).drop_first() =~= list@.subrange(i as int + 1, list.len() as int));
            assert(list@.subrange(i as int, list.len() as int)[0] == list@[i as int]);
            if list[i].0.matches(keybind) {
                return Some(list[i].1);
            }
            i = i + 1;
        }
        None
    }

    /// Runs the built-in action bound to `keybind` on the current workspace: closing asks its
    /// focused window to close, saving asks for the state to be saved before a restart,
    /// switching and changing the layout change the workspace as `acted_on` says, toggling
    /// the gap flips the gap setting, and quitting asks to exit and does nothing more. The
    /// current workspace is then laid out on each display that shows it. Fails, changing
    /// nothing, when no action is bound to the key, or when closing finds no focused window.
    pub fn run_wm_action(&mut self, keybind: &Keybind, effects: &mut Vec<Effect>) -> (r: Result<(), Error>)
        requires
            old(self).wf(),
        ensures
            final(self).wf(),
            final(self).current_workspace == old(self).current_workspace,
            final(self).float_windows == old(self).float_windows,
            final(self).overlay_windows == old(self).overlay_windows,
            final(self).displays_geometries == old(self).displays_geometries,
            ({
                let ws = old(self).current();
                let names = old(self).conf.serializable.workspaces_names@;
                match action_for(old(self).conf.serializable.wm_actions@, *keybind) {
                    None => {
                        &&& r == Err::<(), Error>(Error::ActionNotFound)
                        &&& final(self).spaces() == old(self).spaces()
                        &&& final(self).conf == old(self).conf
                        &&& final(effects)@ == old(effects)@
                    },
                    Some(a) => if a == Actions::CloseWindow && !(0 <= ws.focus < ws.windows.len()) {
                        &&& r == Err::<(), Error>(Error::WindowNotFound)
                        &&& final(self).spaces() == old(self).spaces()
                        &&& final(self).conf == old(self).conf
                        &&& final(effects)@ == old(effects)@
                    } else if a == Actions::Quit {
                        &&& r is Ok
                        &&& final(self).spaces() == old(self).spaces()
                        &&& final(self).conf == old(self).conf
                        &&& effects_view(final(effects)@) == effects_view(old(effects)@).push(Command::Quit)
                    } else {
                        &&& r is Ok
                        &&& final(self).spaces() == old(self).spaces().update(
                            old(self).current_index(),
                            (old(self).current_workspace@, acted_on(ws, a)),
                        )
                        &&& final(self).conf.serializable.with_gap == (if a == Actions::ToggleGap {
                            !old(self).conf.serializable.with_gap
                        } else {
                            old(self).conf.serializable.with_gap
                        })
                        &&& final(self).conf.serializable.border == old(self).conf.serializable.border
                        &&& final(self).conf.serializable.display_borders == old(self).conf.serializable.display_borders
                        &&& final(self).conf.serializable.workspaces_names == old(self).conf.serializable.workspaces_names
                        &&& effects_view(final(effects)@) == effects_view(old(effects)@) + (match a {
                            Actions::CloseWindow => seq![Command::Close(ws.windows[ws.focus])],
                            Actions::SerializeAndQuit => seq![Command::SerializeAndQuit],
                            _ => Seq::<Command>::empty(),
                        }) + resize_on_displays(
                            *final(self),
                            acted_on(ws, a),
                            names,
                            old(self).current_workspace@,
                            names.len() as int,
                        )
                    },
                }
            }),
    {
        let ghost e0 = effects_view(effects@);
        let ghost s0 = self.spaces();
        let action = match self.action_of(keybind) {
            Some(a) => a,
            None => return Err(Error::ActionNotFound),
        };
        let ci = self.current_position();
        let mut ws = copy_workspace(&self.workspaces[ci].1);
        proof {
            assert(s0[ci as int].1 == ws@);
            assert(s0[ci as int].0 == self.current_workspace@);
        }
        match action {
            Actions::CloseWindow => {
                if ws.focus >= ws.windows.len() {
                    return Err(Error::WindowNotFound);
                }
                emit(effects, Effect::Close(ws.windows[ws.focus]));
            },
            Actions::SerializeAndQuit => {
                emit(effects, Effect::SerializeAndQuit);
            },
            Actions::SwitchWindow => {
                if ws.windows.len() > 0 {
                    ws.focus = (ws.focus + 1) % ws.windows.len();
                }
            },
            Actions::ChangeLayout => {
                ws.layout = match ws.layout {
                    Layout::Bspv => Layout::Monocle,
                    Layout::Monocle => Layout::Bsph,
                    Layout::Bsph => Layout::Bspv,
                };
            },
            Actions::ToggleGap => {
                self.conf.serializable.with_gap = !self.conf.serializable.with_gap;
            },
            Actions::Quit => {
                emit(effects, Effect::Quit);
                return Ok(());
            },
        }
        let ws2 = copy_workspace(&ws);
        proof {
            assert(ws@ == acted_on(s0[ci as int].1, action));
            assert forall|x: Window| #[trigger] ws@.windows.contains(x) implies holds(s0, ci as int, x) || !is_managed(s0, x) by {
            }
            lemma_update_wf(s0, ci as int, ws@);
        }
        replace_workspace(&mut self.workspaces, ci, ws);
        proof {
            assert(self.spaces() =~= s0.update(ci as int, (self.current_workspace@, ws2@)));
            assert(self.spaces()[ci as int].0 == s0[ci as int].0);
            lemma_name_index(self.spaces(), ci as int);
            assert forall|w: Window| #[trigger]
                self.overlay_windows@.contains(w) implies !is_managed(self.spaces(), w) by {
                if ws2@.windows.contains(w) {
                    assert(holds(s0, ci as int, w));
                }
            }
        }
        let ghost mid = *self;
        let ghost e1 = effects_view(effects@);
        let n = self.conf.serializable.workspaces_names.len();
        let mut d: usize = 0;
        while d < n
            invariant
                d <= n,
                n == mid.conf.serializable.workspaces_names.len(),
                self.wf(),
                same_but_workspaces(*self, mid),
                self.spaces() == mid.spaces(),
                mid.current_index() == ci,
                ci < mid.spaces().len(),
                mid.spaces()[ci as int].1 == ws2@,
                effects_view(effects@) == e1 + resize_on_displays(
                    mid,
                    ws2@,
                    mid.conf.serializable.workspaces_names@,
                    mid.current_workspace@,
                    d as int,
                ),
            decreases n - d,
        {
            if string_in(&self.conf.serializable.workspaces_names[d], &self.current_workspace) {
                proof {
                    if 0 <= ws2@.focus < ws2@.windows.len() {
                        lemma_refocus_on_focused(self.spaces(), ci as int);
                    }
                }
                self.resize_workspace_windows(&ws2, d, effects);
            }
            d = d + 1;
        }
        proof {
            lemma_resize_on_displays_same(*self, mid, ws2@, mid.conf.serializable.workspaces_names@, mid.current_workspace@, n as int);
        }
        Ok(())
    }

    /// The first display whose list holds workspace `key`.
    fn holder(&self, key: &WorkspaceName) -> (r: Option<usize>)
        ensures
            match r {
                Some(d) => holder_from(self.conf.serializable.workspaces_names@, key@, 0) == Some(d as int)
                    && d < self.conf.serializable.workspaces_names.len(),
                None => holder_from(self.conf.serializable.workspaces_names@, key@, 0) is None,
            },
    {
        let mut i: usize = 0;
        while i < self.conf.serializable.workspaces_names.len()
            invariant
                i <= self.conf.serializable.workspaces_names.len(),
                holder_from(self.conf.serializable.workspaces_names@, key@, 0) == holder_from(
                    self.conf.serializable.workspaces_names@,
                    key@,
                    i as int,
                ),
            decreases self.conf.serializable.workspaces_names.len() - i,
        {
            if string_in(&self.conf.serializable.workspaces_names[i], key) {
                return Some(i);
            }
            i = i + 1;
        }
        None
    }

    /// The command line configured for changes of workspace.
    fn workspace_callback(&self) -> (r: Option<Vec<String>>)
        ensures
            match r {
                Some(a) => callback_for(self.conf.serializable.command_callbacks@, Events::OnChangeWorkspace) == Some(strings_view(a@)),
                None => callback_for(self.conf.serializable.command_callbacks@, Events::OnChangeWorkspace) is None,
            },
    {
        let list = &self.conf.serializable.command_callbacks;
        let mut i: usize = 0;
        assert(list@.subrange(0, list.len() as int) =~= list@);
        while i < list.len()
            invariant
                i <= list.len(),
                list@ == self.conf.serializable.command_callbacks@,
                callback_for(list@, Events::OnChangeWorkspace) == callback_for(list@.subrange(i as int, list.len() as int), Events::OnChangeWorkspace),
            decreases list.len() - i,
        {
            assert(list@.subrange(i as int, list.len() as int).drop_first() =~= list@.subrange(i as int + 1, list.len() as int));
            if list[i].0 == Events::OnChangeWorkspace {
                return Some(copy_strings(&list[i].1));
            }
            i = i + 1;
        }
        None
    }

    /// The command line configured for `keybind`.
    fn custom_command(&self, keybind: &Keybind) -> (r: Option<Vec<String>>)
        ensures
            match r {
                Some(a) => command_for(self.conf.serializable.custom_commands@, *keybind) == Some(strings_view(a@)),
                None => command_for(self.conf.serializable.custom_commands@, *keybind) is None,
            },
    {
        let list = &self.conf.serializable.custom_commands;
        let mut i: usize = 0;
        assert(list@.subrange(0, list.len() as int) =~= list@);
        while i < list.len()
            invariant
                i <= list.len(),
                list@ == self.conf.serializable.custom_commands@,
                command_for(list@, *keybind) == command_for(list@.subrange(i as int, list.len() as int), *keybind),
            decreases list.len() - i,
        {
            assert(list@.subrange(i as int, list.len() as int).drop_first() =~= list@.subrange(i as int + 1, list.len() as int));
            if list[i].0.matches(keybind) {
                return Some(copy_strings(&list[i].1));
            }
            i = i + 1;
        }
        None
    }

    /// Whether the embedding program handles `keybind` itself.
    fn is_custom_action(&self, keybind: &Keybind) -> (r: bool)
        ensures
            r == exists|i: int| 0 <= i < self.conf.custom_actions.len() && same_keybind(#[trigger] self.conf.custom_actions@[i], *keybind),
    {
        let mut i: usize = 0;
        while i < self.conf.custom_actions.len()
            invariant
                i <= self.conf.custom_actions.len(),
                forall|j: int| 0 <= j < i ==> !same_keybind(#[trigger] self.conf.custom_actions@[j], *keybind),
            decreases self.conf.custom_actions.len() - i,
        {
            if self.conf.custom_actions[i].matches(keybind) {
                return true;
            }
            i = i + 1;
        }
        false
    }

    /// Switches to the workspace named by the key of `keybind`, on the first display whose list
    /// holds it; with shift held, the focused window goes along. The workspaces change as
    /// `change_workspace` says, the target is laid out on that display, and the embedding
    /// program and the configured command hear of the change. Nothing happens when no display
    /// holds the key or the switch fails.
    pub fn handle_workspace_change(&mut self, keybind: &Keybind, effects: &mut Vec<Effect>)
        requires
            old(self).wf(),
        ensures
            final(self).wf(),
            final(self).conf == old(self).conf,
            final(self).float_windows == old(self).float_windows,
            final(self).overlay_windows == old(self).overlay_windows,
            final(self).displays_geometries == old(self).displays_geometries,
            ({
                let s = old(self).spaces();
                let names = old(self).conf.serializable.workspaces_names@;
                match holder_from(names, keybind.key@, 0) {
                    Some(d) if has_name(s, keybind.key@) => {
                        let from = old(self).current_index();
                        let to = name_index(s, keybind.key@);
                        let move_window = keybind.mod_mask & MOD_MASK_SHIFT != 0;
                        let same_display = str_in(names[d]@, old(self).current_workspace@) || d
                            >= old(self).displays_geometries.len() || old(self).previous_display
                            >= old(self).displays_geometries.len();
                        let moved = moved_window(s[from].1, move_window);
                        &&& final(self).current_workspace@ == keybind.key@
                        &&& final(self).previous_display == d
                        &&& final(self).spaces() == switched(s, from, to, moved)
                        &&& effects_view(final(effects)@) == effects_view(old(effects)@)
                            + unmap_commands(s[from].1, s[from].1.windows.len() as int, move_window, same_display)
                            + map_commands(after_detach(s, from, moved)[to].1.windows)
                            + final(self).resize_commands(final(self).current(), d)
                            + seq![Command::WorkspaceChanged(keybind.key@, clamp_index(d, old(self).displays_geometries.len() as int) as usize)]
                            + run_commands(callback_for(old(self).conf.serializable.command_callbacks@, Events::OnChangeWorkspace))
                    },
                    _ => {
                        &&& final(self).current_workspace == old(self).current_workspace
                        &&& final(self).previous_display == old(self).previous_display
                        &&& final(self).spaces() == old(self).spaces()
                        &&& final(effects)@ == old(effects)@
                    },
                }
            }),
    {
        let ghost e0 = effects_view(effects@);
        let ghost s0 = self.spaces();
        let d = match self.holder(&keybind.key) {
            Some(d) => d,
            None => return,
        };
        proof {
            let j = choose|j: int| 0 <= j < s0.len() && #[trigger] s0[j].0 == self.current_workspace@;
            lemma_name_index(s0, j);
        }
        proof {
            lemma_holder_from(self.conf.serializable.workspaces_names@, keybind.key@, 0);
        }
        let same_display = string_in(&self.conf.serializable.workspaces_names[d], &self.current_workspace)
            || d >= self.displays_geometries.len() || self.previous_display >= self.displays_geometries.len();
        let move_window = keybind.mod_mask & MOD_MASK_SHIFT != 0;
        let previous = self.current_workspace.clone();
        let name = match change_workspace(&mut self.workspaces, &previous, &keybind.key, move_window, same_display, effects) {
            Ok(n) => n,
            Err(_) => return,
        };
        proof {
            let from = name_index(s0, previous@);
            let to = name_index(s0, keybind.key@);
            lemma_switched_wf(s0, from, to, move_window);
            assert(self.spaces()[to].0 == s0[to].0);
            lemma_name_index(self.spaces(), to);
        }
        self.previous_display = d;
        self.current_workspace = name;
        proof {
            assert forall|w: Window| #[trigger]
                self.overlay_windows@.contains(w) implies !is_managed(self.spaces(), w) by {
                assert(old(self).overlay_windows@.contains(w));
            }
        }
        let ci = self.current_position();
        let ws = copy_workspace(&self.workspaces[ci].1);
        let ghost mid = *self;
        let ghost e1 = effects_view(effects@);
        proof {
            if 0 <= ws@.focus < ws@.windows.len() {
                lemma_refocus_on_focused(self.spaces(), ci as int);
            }
        }
        self.resize_workspace_windows(&ws, d, effects);
        let actual_display = if d >= self.displays_geometries.len() && self.displays_geometries.len() > 0 {
            self.displays_geometries.len() - 1
        } else {
            d
        };
        emit(effects, Effect::WorkspaceChanged(keybind.key.clone(), actual_display));
        let ghost e2 = effects_view(effects@);
        match self.workspace_callback() {
            Some(args) => {
                if args.len() > 0 {
                    emit(effects, Effect::RunCommand(args));
                } else {
                    assert(effects_view(effects@) =~= e2 + Seq::<Command>::empty());
                }
            },
            None => {
                assert(effects_view(effects@) =~= e2 + Seq::<Command>::empty());
            },
        }
        assert(effects_view(effects@) =~= e1 + mid.resize_commands(ws@, d as int)
            + seq![Command::WorkspaceChanged(keybind.key@, clamp_index(d as int, old(self).displays_geometries.len() as int) as usize)]
            + run_commands(callback_for(old(self).conf.serializable.command_callbacks@, Events::OnChangeWorkspace)));
    }

    /// Takes a key press: the key's primary symbol, with the modifiers held, first switches
    /// workspace where a display's list names it; then it runs the built-in action bound to
    /// it, or else asks the embedding program to run its own action, or else runs the
    /// configured command line. A key code without a symbol changes nothing.
    pub fn handle_key_press(&mut self, keycode: u8, state: u16, effects: &mut Vec<Effect>)
        requires
            old(self).wf(),
        ensures
            final(self).wf(),
            final(self).float_windows == old(self).float_windows,
            final(self).overlay_windows == old(self).overlay_windows,
            final(self).displays_geometries == old(self).displays_geometries,
            !old(self).xmodmap_pke@.contains_key(keycode) || old(self).xmodmap_pke@[keycode].len() == 0
                ==> final(self).spaces() == old(self).spaces() && final(self).current_workspace
                == old(self).current_workspace && final(effects)@ == old(effects)@,
            ({
                let t = old(self).xmodmap_pke@;
                let key = t[keycode]@[0]@;
                let m = state as u32;
                t.contains_key(keycode) && t[keycode].len() > 0 && holder_from(
                    old(self).conf.serializable.workspaces_names@,
                    key,
                    0,
                ) is None && action_lookup(old(self).conf.serializable.wm_actions@, m, key) is None ==> {
                    &&& final(self).spaces() == old(self).spaces()
                    &&& final(self).current_workspace == old(self).current_workspace
                    &&& effects_view(final(effects)@) == effects_view(old(effects)@) + if custom_bound(
                        old(self).conf.custom_actions@,
                        m,
                        key,
                    ) {
                        seq![Command::CustomAction(m, key)]
                    } else {
                        run_commands(command_lookup(old(self).conf.serializable.custom_commands@, m, key))
                    }
                }
            }),
    {
        let ghost e0 = effects_view(effects@);
        if let Some(key) = keycode_to_key(&self.xmodmap_pke, keycode) {
            let keybind = Keybind::new(state as u32, key.as_str());
            self.handle_workspace_change(&keybind, effects);
            if self.action_of(&keybind).is_some() {
                let _ = self.run_wm_action(&keybind, effects);
            } else if self.is_custom_action(&keybind) {
                proof {
                    let i = choose|i: int| 0 <= i < self.conf.custom_actions.len() && same_keybind(#[trigger] self.conf.custom_actions@[i], keybind);
                    assert(custom_bound(self.conf.custom_actions@, keybind.mod_mask, keybind.key@));
                }
                emit(effects, Effect::CustomAction(keybind));
            } else {
                proof {
                    assert(!custom_bound(self.conf.custom_actions@, keybind.mod_mask, keybind.key@)) by {
                        if custom_bound(self.conf.custom_actions@, keybind.mod_mask, keybind.key@) {
                            let i = choose|i: int| 0 <= i < self.conf.custom_actions.len() && (#[trigger] self.conf.custom_actions@[i]).mod_mask == keybind.mod_mask && self.conf.custom_actions@[i].key@ == keybind.key@;
                            assert(same_keybind(self.conf.custom_actions@[i], keybind));
                        }
                    }
                }
                match self.custom_command(&keybind) {
                    Some(args) => {
                        if args.len() > 0 {
                            emit(effects, Effect::RunCommand(args));
                        } else {
                            assert(effects_view(effects@) =~= effects_view(effects@) + Seq::<Command>::empty());
                        }
                    },
                    None => {
                        assert(effects_view(effects@) =~= effects_view(effects@) + Seq::<Command>::empty());
                    },
                }
            }
        }
    }

    /// Starts a mouse gesture on `child`: remembers where it started and, where it could be
    /// read, the window's geometry.
    pub fn handle_button_press(
        &mut self,
        root_x: i16,
        root_y: i16,
        child: Window,
        detail: u8,
        geometry: Option<Geometry>,
    )
        requires
            old(self).wf(),
        ensures
            final(self).wf(),
            final(self).mouse_move_start == Some(MouseMoveStart { root_x, root_y, child, detail }),
            final(self).button_press_geometry == if geometry is Some {
                geometry
            } else {
                old(self).button_press_geometry
            },
            final(self).spaces() == old(self).spaces(),
            final(self).current_workspace == old(self).current_workspace,
    {
        if geometry.is_some() {
            self.button_press_geometry = geometry;
        }
        self.mouse_move_start = Some(MouseMoveStart { root_x, root_y, child, detail });
    }

    /// Follows the pointer during a mouse gesture: with the first button the window moves by
    /// the pointer's travel since the press, with the third it grows by it, to at least one
    /// pixel. Fails when no gesture was started or no geometry was read at its start.
    pub fn resize_window(&self, root_x: i16, root_y: i16) -> (r: Result<Effect, Error>)
        ensures
            match (self.mouse_move_start, self.button_press_geometry) {
                (None, _) => r == Err::<Effect, Error>(Error::NoMouseMoveStart),
                (Some(_), None) => r == Err::<Effect, Error>(Error::NoButtonPressGeometry),
                (Some(start), Some(g)) => r is Ok && r->Ok_0@ == gesture_command(start, g, root_x, root_y),
            },
    {
        let start = match self.mouse_move_start {
            Some(s) => s,
            None => return Err(Error::NoMouseMoveStart),
        };
        let attr = match self.button_press_geometry {
            Some(g) => g,
            None => return Err(Error::NoButtonPressGeometry),
        };
        let xdiff: i64 = root_x as i64 - start.root_x as i64;
        let ydiff: i64 = root_y as i64 - start.root_y as i64;
        let moving = start.detail == 1;
        let growing = start.detail == 3;
        Ok(Effect::MoveResize {
            window: start.child,
            x: wrap_add(attr.0, if moving { xdiff } else { 0 }),
            y: wrap_add(attr.1, if moving { ydiff } else { 0 }),
            width: grow(attr.2, if growing { xdiff } else { 0 }),
            height: grow(attr.3, if growing { ydiff } else { 0 }),
        })
    }

    /// Takes one event of the display server: a mapped window is taken in, a destroyed one
    /// forgotten, new displays are recorded, mouse gestures are started, followed and ended,
    /// the pointer entering or leaving a window focuses or unfocuses it, and key presses are
    /// handled.
    pub fn handle_event(&mut self, event: Event, effects: &mut Vec<Effect>)
        requires
            old(self).wf(),
        ensures
            final(self).wf(),
            match event {
                Event::DisplaysChanged(outputs) => final(self).displays_geometries@ == in_use(outputs@)
                    && final(self).spaces() == old(self).spaces() && final(effects)@ == old(effects)@,
                Event::ButtonRelease => final(self).mouse_move_start is None && final(self).spaces()
                    == old(self).spaces() && final(effects)@ == old(effects)@,
                Event::ButtonPress { root_x, root_y, child, detail, .. } => final(self).mouse_move_start
                    == Some(MouseMoveStart { root_x, root_y, child, detail }) && final(self).spaces()
                    == old(self).spaces() && final(effects)@ == old(effects)@,
                Event::MotionNotify { root_x, root_y } => final(self).spaces() == old(self).spaces()
                    && effects_view(final(effects)@) == effects_view(old(effects)@) + match (
                    old(self).mouse_move_start,
                    old(self).button_press_geometry,
                ) {
                    (Some(start), Some(g)) => seq![gesture_command(start, g, root_x, root_y)],
                    _ => Seq::<Command>::empty(),
                },
                Event::DestroyNotify(w) => final(self).spaces() == spaces_without(old(self).spaces(), w)
                    && final(self).overlay_windows@ == drop_window(old(self).overlay_windows@, w)
                    && final(self).float_windows@ == drop_window(old(self).float_windows@, w),
                Event::MapNotify(w, info) => if is_managed(old(self).spaces(), w)
                    || old(self).overlay_windows@.contains(w) {
                    final(self).spaces() == old(self).spaces() && final(effects)@ == old(effects)@
                } else {
                    adopted(
                        *old(self),
                        *final(self),
                        w,
                        placement(
                            class_split(info.wm_class@),
                            info.window_type,
                            info.window_type_name@,
                            info.chrome_types@,
                            info.normal_hints,
                            old(self).conf.serializable,
                            old(self).current_workspace@,
                        ),
                        effects_view(old(effects)@),
                        effects_view(final(effects)@),
                    )
                },
                Event::EnterNotify(w) => final(self).spaces() == refocused(
                    old(self).spaces(),
                    old(self).current_index(),
                    w,
                ) && effects_view(final(effects)@) == effects_view(old(effects)@) + old(self).focus_commands(w, true),
                Event::LeaveNotify(w) => final(self).spaces() == old(self).spaces() && effects_view(
                    final(effects)@,
                ) == effects_view(old(effects)@) + old(self).focus_commands(w, false),
                _ => true,
            },
    {
        match event {
            Event::MapNotify(window, info) => {
                self.setup_new_window(window, &info, effects);
            },
            Event::DisplaysChanged(outputs) => {
                self.displays_geometries = visible_displays(&outputs);
            },
            Event::DestroyNotify(window) => {
                self.destroy_window(window, effects);
            },
            Event::ButtonPress { root_x, root_y, child, detail, geometry } => {
                self.handle_button_press(root_x, root_y, child, detail, geometry);
            },
            Event::MotionNotify { root_x, root_y } => {
                match self.resize_window(root_x, root_y) {
                    Ok(e) => emit(effects, e),
                    Err(_) => {
                        assert(effects_view(effects@) =~= effects_view(old(effects)@) + Seq::<Command>::empty());
                    },
                }
            },
            Event::LeaveNotify(window) => {
                self.focus_unfocus(window, false, effects);
            },
            Event::EnterNotify(window) => {
                self.focus_unfocus(window, true, effects);
            },
            Event::ButtonRelease => {
                self.mouse_move_start = None;
            },
            Event::KeyPress { keycode, state } => {
                self.handle_key_press(keycode, state, effects);
            },
        }
    }

    /// Marks `window` as focused or not. Focusing gives it the input focus, makes it the
    /// focused window of the current workspace where that workspace holds it, and draws its
    /// border in the focus color unless the current workspace is a lone monocle window on a
    /// single display; otherwise its border gets the normal color.
    pub fn focus_unfocus(&mut self, window: Window, do_focus: bool, effects: &mut Vec<Effect>)
        requires
            old(self).wf(),
        ensures
            final(self).wf(),
            same_but_workspaces(*final(self), *old(self)),
            final(self).spaces() == if do_focus {
                refocused(old(self).spaces(), old(self).current_index(), window)
            } else {
                old(self).spaces()
            },
            final(self).current_index() == old(self).current_index(),
            final(self).border_focused() == old(self).border_focused(),
            effects_view(final(effects)@) == effects_view(old(effects)@) + old(self).focus_commands(
                window,
                do_focus,
            ),
    {
        let ghost e0 = effects_view(effects@);
        let mut border_focus = false;
        if do_focus {
            emit(effects, Effect::Focus(window));
            let ci = self.current_position();
            let mut ws = copy_workspace(&self.workspaces[ci].1);
            let ghost s = self.spaces();
            if let Some(i) = position(&ws.windows, window) {
                proof {
                    assert(s[ci as int].1 == ws@);
                    assert(ws.windows@.contains(window));
                    let j = index_in(ws.windows@, window);
                    assert(ws.windows@.no_duplicates());
                    assert(ws.windows@[j] == window);
                    assert(i == j);
                }
                ws.focus = i;
                proof {
                    lemma_update_wf(s, ci as int, ws@);
                }
                replace_workspace(&mut self.workspaces, ci, ws);
                proof {
                    assert(self.spaces() =~= refocused(s, ci as int, window));
                    lemma_name_index(self.spaces(), ci as int);
                    assert(self.spaces()[ci as int].0 == self.current_workspace@);
                    assert forall|w: Window| #[trigger]
                        self.overlay_windows@.contains(w) implies !is_managed(self.spaces(), w) by {
                        if ws.windows@.contains(w) {
                            assert(holds(s, ci as int, w));
                        }
                    }
                }
                border_focus = !(self.workspaces[ci].1.windows.len() == 1
                    && self.workspaces[ci].1.layout == Layout::Monocle
                    && self.displays_geometries.len() == 1);
            } else {
                border_focus = !(ws.windows.len() == 1 && ws.layout == Layout::Monocle
                    && self.displays_geometries.len() == 1);
            }
        }
        let color = if border_focus {
            self.conf.serializable.border.focus_color
        } else {
            self.conf.serializable.border.normal_color
        };
        emit(effects, Effect::SetBorderColor(window, color));
        assert(effects_view(effects@) =~= e0 + old(self).focus_commands(window, do_focus));
    }
}

} // verus!
