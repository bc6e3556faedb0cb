use crate::error::Error;
use crate::model::{
    effects_view, workspaces_view, Command, Effect, Layout, Window, Workspace, WorkspaceName, WorkspaceView,
};
use vstd::prelude::*;

verus! {

/// Whenever a workspace has windows, its focus is the index of one of them.
pub open spec fn focus_valid(ws: WorkspaceView) -> bool {
    ws.windows.len() > 0 ==> 0 <= ws.focus < ws.windows.len()
}

/// Workspace `i` holds window `w`.
pub open spec fn holds(s: Seq<(Seq<char>, WorkspaceView)>, i: int, w: Window) -> bool {
    s[i].1.windows.contains(w)
}

/// Some workspace holds window `w`.
pub open spec fn is_managed(s: Seq<(Seq<char>, WorkspaceView)>, w: Window) -> bool {
    exists|i: int| 0 <= i < s.len() && #[trigger] holds(s, i, w)
}

/// Some workspace is called `name`.
pub open spec fn has_name(s: Seq<(Seq<char>, WorkspaceView)>, name: Seq<char>) -> bool {
    exists|i: int| 0 <= i < s.len() && #[trigger] s[i].0 == name
}

/// The invariant of the workspaces: names are unique, each focus is valid, and each window
/// is held at most once, by at most one workspace.
pub open spec fn workspaces_wf(s: Seq<(Seq<char>, WorkspaceView)>) -> bool {
    &&& forall|i: int, j: int|
        0 <= i < s.len() && 0 <= j < s.len() && i != j ==> #[trigger] s[i].0 != #[trigger] s[j].0
    &&& forall|i: int| 0 <= i < s.len() ==> focus_valid(#[trigger] s[i].1)
    &&& forall|i: int| 0 <= i < s.len() ==> (#[trigger] s[i].1).windows.no_duplicates()
    &&& forall|i: int, j: int, w: Window|
        0 <= i < s.len() && 0 <= j < s.len() && #[trigger] holds(s, i, w) && #[trigger] holds(
            s,
            j,
            w,
        ) ==> i == j
}

/// The window that a workspace switch takes along when asked to: the focused one.
pub open spec fn moved_window(ws: WorkspaceView, move_window: bool) -> Option<Window> {
    if move_window && 0 <= ws.focus < ws.windows.len() {
        Some(ws.windows[ws.focus])
    } else {
        None
    }
}

/// The workspace without its focused window; the focus goes to its last window.
pub open spec fn detach_focused(ws: WorkspaceView) -> WorkspaceView {
    let windows = ws.windows.remove(ws.focus);
    WorkspaceView {
        layout: ws.layout,
        windows,
        focus: if windows.len() > 0 {
            windows.len() - 1
        } else {
            0
        },
    }
}

/// The workspace with `w` appended and focused.
pub open spec fn attach(ws: WorkspaceView, w: Window) -> WorkspaceView {
    WorkspaceView { layout: ws.layout, windows: ws.windows.push(w), focus: ws.windows.len() as int }
}

/// The workspaces after a switch from workspace `from` to workspace `to` that takes `moved`
/// along.
pub open spec fn switched(
    s: Seq<(Seq<char>, WorkspaceView)>,
    from: int,
    to: int,
    moved: Option<Window>,
) -> Seq<(Seq<char>, WorkspaceView)> {
    match moved {
        None => s,
        Some(w) => {
            let s1 = s.update(from, (s[from].0, detach_focused(s[from].1)));
            s1.update(to, (s1[to].0, attach(s1[to].1, w)))
        },
    }
}

/// The commands that hide the first `n` windows of the workspace being left: none for the
/// window taken along, and none at all when the target is on another display.
pub open spec fn unmap_commands(
    ws: WorkspaceView,
    n: int,
    move_window: bool,
    same_display: bool,
) -> Seq<Command>
    decreases n,
{
    if n <= 0 {
        seq![]
    } else {
        let prev = unmap_commands(ws, n - 1, move_window, same_display);
        if move_window && n - 1 == ws.focus {
            prev
        } else if same_display {
            prev.push(Command::UnmapWindow(ws.windows[n - 1]))
        } else {
            prev
        }
    }
}

pub open spec fn map_commands(windows: Seq<Window>) -> Seq<Command> {
    windows.map_values(|w: Window| Command::MapWindow(w))
}

/// The index of the workspace called `name`.
pub open spec fn name_index(s: Seq<(Seq<char>, WorkspaceView)>, name: Seq<char>) -> int {
    choose|i: int| 0 <= i < s.len() && s[i].0 == name
}

/// The workspaces after the first step of a switch: the moved window leaves workspace `from`.
pub open spec fn after_detach(
    s: Seq<(Seq<char>, WorkspaceView)>,
    from: int,
    moved: Option<Window>,
) -> Seq<(Seq<char>, WorkspaceView)> {
    match moved {
        None => s,
        Some(w) => s.update(from, (s[from].0, detach_focused(s[from].1))),
    }
}

pub proof fn lemma_name_index(s: Seq<(Seq<char>, WorkspaceView)>, i: int)
    requires
        workspaces_wf(s),
        0 <= i < s.len(),
    ensures
        name_index(s, s[i].0) == i,
{
    let j = name_index(s, s[i].0);
    assert(0 <= j < s.len() && s[j].0 == s[i].0);
}

pub proof fn lemma_remove_window(s: Seq<Window>, k: int)
    requires
        0 <= k < s.len(),
        s.no_duplicates(),
    ensures
        s.remove(k).no_duplicates(),
        !s.remove(k).contains(s[k]),
        forall|x: Window| #[trigger] s.remove(k).contains(x) ==> s.contains(x),
{
    let r = s.remove(k);
    assert forall|x: Window| #[trigger] r.contains(x) implies s.contains(x) && x != s[k] by {
        let j = choose|j: int| 0 <= j < r.len() && r[j] == x;
        if j < k {
            assert(s[j] == x);
        } else {
            assert(s[j + 1] == x);
        }
    }
    assert forall|a: int, b: int| 0 <= a < r.len() && 0 <= b < r.len() && a != b implies r[a] != r[b] by {
        let a1 = if a < k { a } else { a + 1 };
        let b1 = if b < k { b } else { b + 1 };
        assert(r[a] == s[a1] && r[b] == s[b1]);
    }
}

pub proof fn lemma_push_window(s: Seq<Window>, w: Window)
    requires
        s.no_duplicates(),
        !s.contains(w),
    ensures
        s.push(w).no_duplicates(),
        forall|x: Window| #[trigger] s.push(w).contains(x) ==> s.contains(x) || x == w,
{
    let r = s.push(w);
    assert forall|x: Window| #[trigger] r.contains(x) implies s.contains(x) || x == w by {
        let j = choose|j: int| 0 <= j < r.len() && r[j] == x;
        if j < s.len() {
            assert(s[j] == x);
        }
    }
    assert forall|a: int, b: int| 0 <= a < r.len() && 0 <= b < r.len() && a != b implies r[a] != r[b] by {
        if a < s.len() && b < s.len() {
        } else if a < s.len() {
            assert(s.contains(r[a]));
        } else if b < s.len() {
            assert(s.contains(r[b]));
        }
    }
}

/// `s` without any occurrence of `w`.
pub open spec fn drop_window(s: Seq<Window>, w: Window) -> Seq<Window> {
    s.filter(|x: Window| x != w)
}

pub proof fn lemma_drop_window(s: Seq<Window>, w: Window)
    requires
        s.no_duplicates(),
    ensures
        drop_window(s, w).no_duplicates(),
        !drop_window(s, w).contains(w),
        forall|x: Window| #[trigger] drop_window(s, w).contains(x) <==> s.contains(x) && x != w,
        s.contains(w) ==> drop_window(s, w).len() == s.len() - 1,
        !s.contains(w) ==> drop_window(s, w) == s,
    decreases s.len(),
{
    reveal(Seq::filter);
    if s.len() > 0 {
        let d = s.drop_last();
        assert(d.no_duplicates()) by {
            assert forall|a: int, b: int| 0 <= a < d.len() && 0 <= b < d.len() && a != b implies d[a] != d[b] by {
                assert(d[a] == s[a] && d[b] == s[b]);
            }
        }
        lemma_drop_window(d, w);
        assert(s =~= d.push(s.last()));
        assert forall|x: Window| #[trigger] s.contains(x) <==> d.contains(x) || x == s.last() by {
            if s.contains(x) {
                let j = choose|j: int| 0 <= j < s.len() && s[j] == x;
                if j < d.len() {
                    assert(d[j] == x);
                }
            }
            if d.contains(x) {
                let j = choose|j: int| 0 <= j < d.len() && d[j] == x;
                assert(s[j] == x);
            }
        }
        assert(!d.contains(s.last())) by {
            if d.contains(s.last()) {
                let j = choose|j: int| 0 <= j < d.len() && d[j] == s.last();
                assert(s[j] == s[s.len() - 1]);
            }
        }
        assert(drop_window(s, w) == (if s.last() != w { drop_window(d, w).push(s.last()) } else { drop_window(d, w) }));
        if s.last() != w {
            lemma_push_window(drop_window(d, w), s.last());
        }
    } else {
        assert(!s.contains(w));
    }
}

/// Putting in workspace `i` a well-formed workspace whose windows it held already, or that no
/// workspace held, keeps the invariant.
pub proof fn lemma_update_wf(s: Seq<(Seq<char>, WorkspaceView)>, i: int, v: WorkspaceView)
    requires
        workspaces_wf(s),
        0 <= i < s.len(),
        focus_valid(v),
        v.windows.no_duplicates(),
        forall|x: Window| #[trigger] v.windows.contains(x) ==> holds(s, i, x) || !is_managed(s, x),
    ensures
        workspaces_wf(s.update(i, (s[i].0, v))),
        forall|x: Window| #[trigger] is_managed(s.update(i, (s[i].0, v)), x) ==> is_managed(s, x) || v.windows.contains(x),
{
    let s2 = s.update(i, (s[i].0, v));
    assert forall|a: int, b: int|
        0 <= a < s2.len() && 0 <= b < s2.len() && a != b implies #[trigger] s2[a].0 != #[trigger] s2[b].0 by {
        assert(s2[a].0 == s[a].0 && s2[b].0 == s[b].0);
    }
    assert forall|a: int| 0 <= a < s2.len() implies focus_valid(#[trigger] s2[a].1) by {
        if a != i {
            assert(s2[a] == s[a]);
        }
    }
    assert forall|a: int| 0 <= a < s2.len() implies (#[trigger] s2[a].1).windows.no_duplicates() by {
        if a != i {
            assert(s2[a] == s[a]);
        }
    }
    assert forall|a: int, b: int, x: Window|
        0 <= a < s2.len() && 0 <= b < s2.len() && #[trigger] holds(s2, a, x) && #[trigger] holds(
            s2,
            b,
            x,
        ) implies a == b by {
        if a != i && b != i {
            assert(holds(s, a, x) && holds(s, b, x));
        } else if a == i && b != i {
            assert(holds(s, b, x));
            if !holds(s, i, x) {
                assert(is_managed(s, x));
            }
        } else if b == i && a != i {
            assert(holds(s, a, x));
            if !holds(s, i, x) {
                assert(is_managed(s, x));
            }
        }
    }
    assert forall|x: Window| #[trigger] is_managed(s2, x) implies is_managed(s, x) || v.windows.contains(x) by {
        let a = choose|a: int| 0 <= a < s2.len() && #[trigger] holds(s2, a, x);
        if a != i {
            assert(holds(s, a, x));
        }
    }
}

/// Switching workspaces keeps the invariant.
pub proof fn lemma_switched_wf(
    s: Seq<(Seq<char>, WorkspaceView)>,
    from: int,
    to: int,
    move_window: bool,
)
    requires
        workspaces_wf(s),
        0 <= from < s.len(),
        0 <= to < s.len(),
    ensures
        workspaces_wf(switched(s, from, to, moved_window(s[from].1, move_window))),
        forall|x: Window| #[trigger]
            is_managed(switched(s, from, to, moved_window(s[from].1, move_window)), x)
                ==> is_managed(s, x),
{
    let moved = moved_window(s[from].1, move_window);
    if let Some(w) = moved {
        let ws = s[from].1;
        let d = detach_focused(ws);
        lemma_remove_window(ws.windows, ws.focus);
        lemma_update_wf(s, from, d);
        let s1 = s.update(from, (s[from].0, d));
        assert(holds(s, from, w));
        assert(!is_managed(s1, w)) by {
            if is_managed(s1, w) {
                let a = choose|a: int| 0 <= a < s1.len() && #[trigger] holds(s1, a, w);
                if a != from {
                    assert(holds(s, a, w));
                }
            }
        }
        let t = s1[to].1;
        assert(!t.windows.contains(w)) by {
            if t.windows.contains(w) {
                assert(holds(s1, to, w));
            }
        }
        lemma_push_window(t.windows, w);
        lemma_update_wf(s1, to, attach(t, w));
        let s2 = s1.update(to, (s1[to].0, attach(t, w)));
        assert forall|x: Window| #[trigger] is_managed(s2, x) implies is_managed(s, x) by {
            if is_managed(s1, x) {
                if d.windows.contains(x) {
                    assert(ws.windows.contains(x));
                    assert(holds(s, from, x));
                }
            } else if x != w {
                assert(t.windows.contains(x));
                assert(holds(s1, to, x));
            }
        }
    }
}

/// Appends a command to the list.
pub fn emit(effects: &mut Vec<Effect>, e: Effect)
    ensures
        effects_view(final(effects)@) == effects_view(old(effects)@).push(e@),
{
    effects.push(e);
    assert(effects_view(effects@) =~= effects_view(old(effects)@).push(e@));
}

/// The index of the workspace called `name`.
pub fn find_workspace(wss: &Vec<(WorkspaceName, Workspace)>, name: &WorkspaceName) -> (r: Option<
    usize,
>)
    ensures
        match r {
            Some(i) => i < wss.len() && wss@[i as int].0@ == name@ && forall|j: int|
                0 <= j < i ==> wss@[j].0@ != name@,
            None => forall|j: int| 0 <= j < wss.len() ==> wss@[j].0@ != name@,
        },
{
    let mut i: usize = 0;
    while i < wss.len()
        invariant
            i <= wss.len(),
            forall|j: int| 0 <= j < i ==> wss@[j].0@ != name@,
        decreases wss.len() - i,
    {
        if wss[i].0 == *name {
            return Some(i);
        }
        i = i + 1;
    }
    None
}

pub fn copy_windows(v: &Vec<Window>) -> (r: Vec<Window>)
    ensures
        r@ == v@,
{
    let mut r: Vec<Window> = Vec::new();
    let mut i: usize = 0;
    while i < v.len()
        invariant
            i <= v.len(),
            r@ == v@.take(i as int),
        decreases v.len() - i,
    {
        r.push(v[i]);
        i = i + 1;
        assert(r@ =~= v@.take(i as int));
    }
    assert(v@.take(v.len() as int) =~= v@);
    r
}

pub fn copy_workspace(ws: &Workspace) -> (r: Workspace)
    ensures
        r@ == ws@,
{
    Workspace { layout: ws.layout, windows: copy_windows(&ws.windows), focus: ws.focus }
}

/// Replaces workspace `i`, keeping its name.
pub fn replace_workspace(wss: &mut Vec<(WorkspaceName, Workspace)>, i: usize, ws: Workspace)
    requires
        i < old(wss).len(),
    ensures
        final(wss)@ == old(wss)@.update(i as int, (old(wss)@[i as int].0, ws)),
{
    let (name, _) = wss.remove(i);
    wss.insert(i, (name, ws));
    assert(wss@ =~= old(wss)@.update(i as int, (old(wss)@[i as int].0, ws)));
}

pub fn contains_window(v: &Vec<Window>, w: Window) -> (r: bool)
    ensures
        r == v@.contains(w),
{
    let mut i: usize = 0;
    while i < v.len()
        invariant
            i <= v.len(),
            forall|j: int| 0 <= j < i ==> v@[j] != w,
        decreases v.len() - i,
    {
        if v[i] == w {
            return true;
        }
        i = i + 1;
    }
    false
}

/// The index of the first occurrence of `w`.
pub fn position(v: &Vec<Window>, w: Window) -> (r: Option<usize>)
    ensures
        match r {
            Some(i) => i < v.len() && v@[i as int] == w && forall|j: int| 0 <= j < i ==> v@[j] != w,
            None => !v@.contains(w),
        },
{
    let mut i: usize = 0;
    while i < v.len()
        invariant
            i <= v.len(),
            forall|j: int| 0 <= j < i ==> v@[j] != w,
        decreases v.len() - i,
    {
        if v[i] == w {
            return Some(i);
        }
        i = i + 1;
    }
    None
}

/// `v` without any occurrence of `w`.
pub fn without(v: &Vec<Window>, w: Window) -> (r: Vec<Window>)
    ensures
        r@ == drop_window(v@, w),
{
    let mut r: Vec<Window> = Vec::new();
    let mut i: usize = 0;
    while i < v.len()
        invariant
            i <= v.len(),
            r@ == drop_window(v@.take(i as int), w),
        decreases v.len() - i,
    {
        assert(v@.take(i as int + 1).drop_last() =~= v@.take(i as int));
        proof {
            reveal(Seq::filter);
        }
        if v[i] != w {
            r.push(v[i]);
        }
        i = i + 1;
    }
    assert(v@.take(v.len() as int) =~= v@);
    r
}

/// Goes through the windows of the workspace being left: hides them when the target is on the
/// same display, and returns the focused one instead when it is to be moved.
fn unmap_workspace_windows(
    ws: &Workspace,
    move_window: bool,
    same_display: bool,
    effects: &mut Vec<Effect>,
) -> (r: Option<Window>)
    ensures
        r == moved_window(ws@, move_window),
        effects_view(final(effects)@) == effects_view(old(effects)@) + unmap_commands(
            ws@,
            ws.windows.len() as int,
            move_window,
            same_display,
        ),
{
    let mut window_to_move: Option<Window> = None;
    let mut i: usize = 0;
    while i < ws.windows.len()
        invariant
            i <= ws.windows.len(),
            effects_view(effects@) == effects_view(old(effects)@) + unmap_commands(
                ws@,
                i as int,
                move_window,
                same_display,
            ),
            window_to_move == (if move_window && ws.focus < i {
                Some(ws.windows@[ws.focus as int])
            } else {
                None::<Window>
            }),
        decreases ws.windows.len() - i,
    {
        if move_window && i == ws.focus {
            window_to_move = Some(ws.windows[i]);
        } else if same_display {
            emit(effects, Effect::UnmapWindow(ws.windows[i]));
        }
        i = i + 1;
    }
    window_to_move
}

/// Appends a map request for each window.
pub fn map_windows(windows: &Vec<Window>, effects: &mut Vec<Effect>)
    ensures
        effects_view(final(effects)@) == effects_view(old(effects)@) + map_commands(windows@),
{
    let mut i: usize = 0;
    while i < windows.len()
        invariant
            i <= windows.len(),
            effects_view(effects@) == effects_view(old(effects)@) + map_commands(windows@.take(i as int)),
        decreases windows.len() - i,
    {
        emit(effects, Effect::MapWindow(windows[i]));
        assert(map_commands(windows@.take(i as int + 1)) =~= map_commands(windows@.take(i as int)).push(Command::MapWindow(windows@[i as int])));
        i = i + 1;
    }
    assert(windows@.take(windows.len() as int) =~= windows@);
}

/// Switches from workspace `previous_workspace` to `next_workspace`. With `move_window`, the
/// focused window of the workspace being left goes along: it leaves that workspace, whose focus
/// goes to its last window, and is appended to the target, where it takes the focus. The other
/// windows of the workspace being left are hidden when the target is on the same display, and
/// the windows that the target held are shown. Fails, changing nothing, when either workspace is
/// missing.
pub fn change_workspace(
    workspaces: &mut Vec<(WorkspaceName, Workspace)>,
    previous_workspace: &WorkspaceName,
    next_workspace: &WorkspaceName,
    move_window: bool,
    same_display: bool,
    effects: &mut Vec<Effect>,
) -> (r: Result<WorkspaceName, Error>)
    requires
        workspaces_wf(workspaces_view(old(workspaces)@)),
    ensures
        ({
            let s = workspaces_view(old(workspaces)@);
            let from = name_index(s, previous_workspace@);
            let to = name_index(s, next_workspace@);
            let moved = moved_window(s[from].1, move_window);
            if has_name(s, previous_workspace@) && has_name(s, next_workspace@) {
                &&& r is Ok && r->Ok_0@ == next_workspace@
                &&& workspaces_view(final(workspaces)@) == switched(s, from, to, moved)
                &&& effects_view(final(effects)@) == effects_view(old(effects)@) + unmap_commands(
                    s[from].1,
                    s[from].1.windows.len() as int,
                    move_window,
                    same_display,
                ) + map_commands(after_detach(s, from, moved)[to].1.windows)
            } else {
                &&& r == Err::<WorkspaceName, Error>(Error::WorkspaceNotFound)
                &&& final(workspaces)@ == old(workspaces)@
                &&& final(effects)@ == old(effects)@
            }
        }),
        workspaces_wf(workspaces_view(final(workspaces)@)),
{
    let ghost s = workspaces_view(workspaces@);
    let pi = match find_workspace(workspaces, previous_workspace) {
        Some(i) => i,
        None => {
            assert(!has_name(s, previous_workspace@));
            return Err(Error::WorkspaceNotFound);
        },
    };
    let ni = match find_workspace(workspaces, next_workspace) {
        Some(i) => i,
        None => {
            assert(!has_name(s, next_workspace@));
            return Err(Error::WorkspaceNotFound);
        },
    };
    proof {
        assert(s[pi as int].0 == previous_workspace@);
        assert(s[ni as int].0 == next_workspace@);
        lemma_name_index(s, pi as int);
        lemma_name_index(s, ni as int);
        lemma_switched_wf(s, pi as int, ni as int, move_window);
    }
    let ghost moved = moved_window(s[pi as int].1, move_window);
    let mut from = copy_workspace(&workspaces[pi].1);
    let window_to_move = unmap_workspace_windows(&from, move_window, same_display, effects);
    if window_to_move.is_some() {
        from.windows.remove(from.focus);
        from.focus = if from.windows.len() > 0 {
            from.windows.len() - 1
        } else {
            0
        };
        replace_workspace(workspaces, pi, from);
    }
    assert(workspaces_view(workspaces@) =~= after_detach(s, pi as int, moved));
    let mut to = copy_workspace(&workspaces[ni].1);
    map_windows(&to.windows, effects);
    if let Some(w) = window_to_move {
        to.windows.push(w);
        to.focus = to.windows.len() - 1;
        replace_workspace(workspaces, ni, to);
    }
    assert(workspaces_view(workspaces@) =~= switched(s, pi as int, ni as int, moved));
    Ok(next_workspace.clone())
}

} // verus!
