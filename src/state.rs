use crate::model::{
    workspaces_view, Conf, Layout, SerializableConf, SerializableState, Window, Workspace,
    WorkspaceName, WorkspaceView,
};
use crate::wm::UmberWm;
use crate::workspaces::{
    contains_window, copy_windows, copy_workspace, focus_valid, has_name, holds, is_managed,
    workspaces_wf,
};
use std::collections::HashMap;
use vstd::prelude::*;

verus! {

/// The persisted state as mathematical values.
pub struct StateView {
    pub float_windows: Seq<Window>,
    pub overlay_windows: Seq<Window>,
    pub workspaces: Seq<(Seq<char>, WorkspaceView)>,
    pub current_workspace: Seq<char>,
}

impl View for SerializableState {
    type V = StateView;

    open spec fn view(&self) -> StateView {
        StateView {
            float_windows: self.float_windows@,
            overlay_windows: self.overlay_windows@,
            workspaces: workspaces_view(self.workspaces@),
            current_workspace: self.current_workspace@,
        }
    }
}

/// A state that a window manager can hold: the invariant of `UmberWm::wf` but for the
/// configuration.
pub open spec fn state_ok(st: StateView) -> bool {
    &&& workspaces_wf(st.workspaces)
    &&& forall|w: Window| #[trigger] st.overlay_windows.contains(w) ==> !is_managed(st.workspaces, w)
    &&& st.overlay_windows.no_duplicates()
    &&& st.float_windows.no_duplicates()
    &&& has_name(st.workspaces, st.current_workspace)
}

/// What `wm` keeps across a restart.
pub open spec fn snapshot_of(wm: UmberWm) -> StateView {
    StateView {
        float_windows: wm.float_windows@,
        overlay_windows: wm.overlay_windows@,
        workspaces: wm.spaces(),
        current_workspace: wm.current_workspace@,
    }
}

/// Restoring a snapshot of a well-formed window manager succeeds, and gives back the same
/// float set, overlay set, workspaces and current workspace.
pub proof fn lemma_state_round_trip(wm: UmberWm, restored: UmberWm)
    requires
        wm.wf(),
        snapshot_of(restored) == snapshot_of(wm),
    ensures
        state_ok(snapshot_of(wm)),
        restored.float_windows@ == wm.float_windows@,
        restored.overlay_windows@ == wm.overlay_windows@,
        restored.spaces() == wm.spaces(),
        restored.current_workspace@ == wm.current_workspace@,
{
}

fn windows_distinct(v: &Vec<Window>) -> (r: bool)
    ensures
        r == v@.no_duplicates(),
{
    let mut i: usize = 0;
    while i < v.len()
        invariant
            i <= v.len(),
            forall|a: int, b: int| 0 <= a < i && 0 <= b < i && a != b ==> v@[a] != v@[b],
        decreases v.len() - i,
    {
        let mut j: usize = 0;
        while j < i
            invariant
                j <= i < v.len(),
                forall|b: int| 0 <= b < j ==> v@[b] != v@[i as int],
            decreases i - j,
        {
            if v[j] == v[i] {
                return false;
            }
            j = j + 1;
        }
        i = i + 1;
    }
    true
}

/// Whether no window is in both lists.
fn share_no_window(a: &Vec<Window>, b: &Vec<Window>) -> (r: bool)
    ensures
        r == forall|x: Window| !(#[trigger] a@.contains(x) && b@.contains(x)),
{
    let mut i: usize = 0;
    while i < a.len()
        invariant
            i <= a.len(),
            forall|k: int| 0 <= k < i ==> !b@.contains(#[trigger] a@[k]),
        decreases a.len() - i,
    {
        if contains_window(b, a[i]) {
            assert(a@.contains(a@[i as int]));
            return false;
        }
        i = i + 1;
    }
    assert forall|x: Window| !(#[trigger] a@.contains(x) && b@.contains(x)) by {
        if a@.contains(x) {
            let k = choose|k: int| 0 <= k < a@.len() && a@[k] == x;
        }
    }
    true
}

/// Whether the workspaces satisfy `workspaces_wf`.
fn workspaces_ok(wss: &Vec<(WorkspaceName, Workspace)>) -> (r: bool)
    ensures
        r == workspaces_wf(workspaces_view(wss@)),
{
    let ghost s = workspaces_view(wss@);
    let mut i: usize = 0;
    while i < wss.len()
        invariant
            i <= wss.len(),
            s == workspaces_view(wss@),
            forall|a: int, b: int| 0 <= a < i && 0 <= b < i && a != b ==> #[trigger] s[a].0 != #[trigger] s[b].0,
            forall|a: int| 0 <= a < i ==> focus_valid(#[trigger] s[a].1),
            forall|a: int| 0 <= a < i ==> (#[trigger] s[a].1).windows.no_duplicates(),
            forall|a: int, b: int, w: Window|
                0 <= a < i && 0 <= b < i && #[trigger] holds(s, a, w) && #[trigger] holds(s, b, w) ==> a == b,
        decreases wss.len() - i,
    {
        let ws = &wss[i].1;
        assert(s[i as int].1 == ws@);
        if !(ws.windows.len() == 0 || ws.focus < ws.windows.len()) {
            return false;
        }
        if !windows_distinct(&ws.windows) {
            return false;
        }
        let mut j: usize = 0;
        while j < i
            invariant
                j <= i < wss.len(),
                s == workspaces_view(wss@),
                forall|b: int| 0 <= b < j ==> s[b].0 != s[i as int].0,
                forall|b: int, w: Window| 0 <= b < j && #[trigger] holds(s, b, w) ==> !holds(s, i as int, w),
            decreases i - j,
        {
            assert(s[j as int].0 == wss@[j as int].0@ && s[i as int].0 == wss@[i as int].0@);
            if wss[j].0 == wss[i].0 {
                return false;
            }
            let disjoint = share_no_window(&wss[j].1.windows, &wss[i].1.windows);
            if !disjoint {
                proof {
                    let x = choose|x: Window| wss@[j as int].1.windows@.contains(x) && wss@[i as int].1.windows@.contains(x);
                    assert(holds(s, j as int, x) && holds(s, i as int, x));
                }
                return false;
            }
            proof {
                assert forall|w: Window| #[trigger] holds(s, j as int, w) implies !holds(s, i as int, w) by {
                    assert(!(wss@[j as int].1.windows@.contains(w) && wss@[i as int].1.windows@.contains(w)));
                }
            }
            j = j + 1;
        }
        proof {
            assert forall|a: int, b: int, w: Window|
                0 <= a < i + 1 && 0 <= b < i + 1 && #[trigger] holds(s, a, w) && #[trigger] holds(s, b, w) implies a == b by {
                if a < i && b == i {
                    assert(!holds(s, i as int, w));
                } else if b < i && a == i {
                    assert(!holds(s, i as int, w));
                }
            }
        }
        i = i + 1;
    }
    true
}

/// Whether no overlay window is in a workspace.
fn overlay_apart(overlay: &Vec<Window>, wss: &Vec<(WorkspaceName, Workspace)>) -> (r: bool)
    ensures
        r == forall|w: Window| #[trigger] overlay@.contains(w) ==> !is_managed(workspaces_view(wss@), w),
{
    let ghost s = workspaces_view(wss@);
    let mut i: usize = 0;
    while i < wss.len()
        invariant
            i <= wss.len(),
            s == workspaces_view(wss@),
            forall|b: int, w: Window| 0 <= b < i && #[trigger] holds(s, b, w) ==> !overlay@.contains(w),
        decreases wss.len() - i,
    {
        if !share_no_window(overlay, &wss[i].1.windows) {
            proof {
                let x = choose|x: Window| overlay@.contains(x) && wss@[i as int].1.windows@.contains(x);
                assert(holds(s, i as int, x));
            }
            return false;
        }
        proof {
            assert forall|w: Window| #[trigger] holds(s, i as int, w) implies !overlay@.contains(w) by {
                assert(!(overlay@.contains(w) && wss@[i as int].1.windows@.contains(w)));
            }
        }
        i = i + 1;
    }
    true
}

fn names_workspace(wss: &Vec<(WorkspaceName, Workspace)>, name: &WorkspaceName) -> (r: bool)
    ensures
        r == has_name(workspaces_view(wss@), name@),
{
    match crate::workspaces::find_workspace(wss, name) {
        Some(i) => {
            assert(workspaces_view(wss@)[i as int].0 == name@);
            true
        },
        None => {
            assert(!has_name(workspaces_view(wss@), name@)) by {
                if has_name(workspaces_view(wss@), name@) {
                    let j = choose|j: int| 0 <= j < wss@.len() && #[trigger] workspaces_view(wss@)[j].0 == name@;
                    assert(wss@[j].0@ == name@);
                }
            }
            false
        },
    }
}

impl UmberWm {
    /// A window manager with configuration `conf`, the state `state` and the keyboard table
    /// `xmodmap_pke`, no display known yet and no gesture under way. There is none when the
    /// state breaks the invariant or the configuration has no display border.
    pub fn new(conf: Conf, state: SerializableState, xmodmap_pke: HashMap<u8, Vec<String>>) -> (r:
        Option<UmberWm>)
        ensures
            r is Some <==> state_ok(state@) && conf.serializable.display_borders.len() > 0,
            r matches Some(wm) ==> {
                &&& wm.wf()
                &&& snapshot_of(wm) == state@
                &&& wm.conf == conf
                &&& wm.xmodmap_pke == xmodmap_pke
                &&& wm.displays_geometries@.len() == 0
                &&& wm.mouse_move_start is None
                &&& wm.button_press_geometry is None
                &&& wm.previous_display == 0
            },
    {
        if conf.serializable.display_borders.len() == 0 {
            return None;
        }
        let ok = workspaces_ok(&state.workspaces) && overlay_apart(&state.overlay_windows, &state.workspaces)
            && windows_distinct(&state.overlay_windows) && windows_distinct(&state.float_windows)
            && names_workspace(&state.workspaces, &state.current_workspace);
        if !ok {
            return None;
        }
        Some(UmberWm {
            conf,
            current_workspace: state.current_workspace,
            float_windows: state.float_windows,
            overlay_windows: state.overlay_windows,
            workspaces: state.workspaces,
            mouse_move_start: None,
            button_press_geometry: None,
            xmodmap_pke,
            displays_geometries: Vec::new(),
            previous_display: 0,
        })
    }

    /// The state to keep across a restart.
    pub fn snapshot(&self) -> (r: SerializableState)
        ensures
            r@ == snapshot_of(*self),
    {
        let mut workspaces: Vec<(WorkspaceName, Workspace)> = Vec::new();
        let mut i: usize = 0;
        while i < self.workspaces.len()
            invariant
                i <= self.workspaces.len(),
                workspaces.len() == i,
                forall|j: int| 0 <= j < i ==> (#[trigger] workspaces@[j]).0@ == self.workspaces@[j].0@
                    && workspaces@[j].1@ == self.workspaces@[j].1@,
            decreases self.workspaces.len() - i,
        {
            let name = self.workspaces[i].0.clone();
            let ws = copy_workspace(&self.workspaces[i].1);
            workspaces.push((name, ws));
            i = i + 1;
        }
        assert(workspaces_view(workspaces@) =~= self.spaces());
        SerializableState {
            float_windows: copy_windows(&self.float_windows),
            overlay_windows: copy_windows(&self.overlay_windows),
            workspaces,
            current_workspace: self.current_workspace.clone(),
        }
    }
}

/// Some display's list holds name `n`.
pub open spec fn configured(names: Seq<Vec<WorkspaceName>>, n: Seq<char>) -> bool {
    exists|d: int, k: int| 0 <= d < names.len() && 0 <= k < names[d].len() && #[trigger] names[d]@[k]@ == n
}

/// The state of a first start: one empty workspace in the vertical layout for each configured
/// name, no float or overlay window, and the first name of the first display as the current
/// workspace.
pub fn load_serializable_state(conf: &SerializableConf) -> (r: SerializableState)
    requires
        conf.workspaces_names.len() > 0,
        conf.workspaces_names@[0].len() > 0,
    ensures
        state_ok(r@),
        r@.float_windows.len() == 0,
        r@.overlay_windows.len() == 0,
        r@.current_workspace == conf.workspaces_names@[0]@[0]@,
        forall|n: Seq<char>| has_name(r@.workspaces, n) <==> configured(conf.workspaces_names@, n),
        forall|i: int| 0 <= i < r@.workspaces.len() ==> (#[trigger] r@.workspaces[i]).1 == (WorkspaceView {
            layout: Layout::Bspv,
            windows: Seq::<Window>::empty(),
            focus: 0,
        }),
{
    let names = &conf.workspaces_names;
    let mut workspaces: Vec<(WorkspaceName, Workspace)> = Vec::new();
    let mut d: usize = 0;
    while d < names.len()
        invariant
            d <= names.len(),
            names == &conf.workspaces_names,
            workspaces_wf(workspaces_view(workspaces@)),
            forall|i: int| 0 <= i < workspaces@.len() ==> (#[trigger] workspaces_view(workspaces@)[i]).1 == (WorkspaceView {
                layout: Layout::Bspv,
                windows: Seq::<Window>::empty(),
                focus: 0,
            }),
            forall|n: Seq<char>| has_name(workspaces_view(workspaces@), n) <==> exists|e: int, k: int|
                0 <= e < d && 0 <= k < names@[e].len() && #[trigger] names@[e]@[k]@ == n,
        decreases names.len() - d,
    {
        let mut k: usize = 0;
        while k < names[d].len()
            invariant
                d < names.len(),
                k <= names@[d as int].len(),
                names == &conf.workspaces_names,
                workspaces_wf(workspaces_view(workspaces@)),
                forall|i: int| 0 <= i < workspaces@.len() ==> (#[trigger] workspaces_view(workspaces@)[i]).1 == (WorkspaceView {
                    layout: Layout::Bspv,
                    windows: Seq::<Window>::empty(),
                    focus: 0,
                }),
                forall|n: Seq<char>| has_name(workspaces_view(workspaces@), n) <==> (exists|e: int, l: int|
                    0 <= e < d && 0 <= l < names@[e].len() && #[trigger] names@[e]@[l]@ == n) || (exists|l: int|
                    0 <= l < k && #[trigger] names@[d as int]@[l]@ == n),
            decreases names@[d as int].len() - k,
        {
            let ghost s = workspaces_view(workspaces@);
            let ghost nm = names@[d as int]@[k as int]@;
            if !names_workspace(&workspaces, &names[d][k]) {
                workspaces.push((names[d][k].clone(), Workspace { layout: Layout::Bspv, windows: Vec::new(), focus: 0 }));
                proof {
                    let s2 = workspaces_view(workspaces@);
                    assert(s2 =~= s.push((nm, WorkspaceView { layout: Layout::Bspv, windows: Seq::<Window>::empty(), focus: 0 })));
                    assert forall|a: int, b: int| 0 <= a < s2.len() && 0 <= b < s2.len() && a != b implies #[trigger] s2[a].0 != #[trigger] s2[b].0 by {
                        if a == s.len() as int {
                            assert(s[b].0 != nm);
                        } else if b == s.len() as int {
                            assert(s[a].0 != nm);
                        }
                    }
                    assert forall|a: int, b: int, w: Window| 0 <= a < s2.len() && 0 <= b < s2.len() && #[trigger] holds(s2, a, w) && #[trigger] holds(s2, b, w) implies a == b by {
                        assert(s2[a].1.windows.len() == 0);
                    }
                    assert forall|n: Seq<char>| has_name(s2, n) <==> (exists|e: int, l: int|
                        0 <= e < d && 0 <= l < names@[e].len() && #[trigger] names@[e]@[l]@ == n) || (exists|l: int|
                        0 <= l < k + 1 && #[trigger] names@[d as int]@[l]@ == n) by {
                        if has_name(s2, n) {
                            let j = choose|j: int| 0 <= j < s2.len() && #[trigger] s2[j].0 == n;
                            if j < s.len() {
                                assert(has_name(s, n));
                            }
                        }
                        if exists|l: int| 0 <= l < k + 1 && #[trigger] names@[d as int]@[l]@ == n {
                            let l = choose|l: int| 0 <= l < k + 1 && #[trigger] names@[d as int]@[l]@ == n;
                            if l == k {
                                assert(s2[s.len() as int].0 == n);
                            }
                        }
                        if has_name(s, n) {
                            let j = choose|j: int| 0 <= j < s.len() && #[trigger] s[j].0 == n;
                            assert(s2[j].0 == n);
                        }
                    }
                }
            } else {
                proof {
                    assert forall|n: Seq<char>| has_name(s, n) <==> (exists|e: int, l: int|
                        0 <= e < d && 0 <= l < names@[e].len() && #[trigger] names@[e]@[l]@ == n) || (exists|l: int|
                        0 <= l < k + 1 && #[trigger] names@[d as int]@[l]@ == n) by {
                        if exists|l: int| 0 <= l < k + 1 && #[trigger] names@[d as int]@[l]@ == n {
                            let l = choose|l: int| 0 <= l < k + 1 && #[trigger] names@[d as int]@[l]@ == n;
                            if l == k {
                                assert(has_name(s, nm));
                            }
                        }
                    }
                }
            }
            k = k + 1;
        }
        d = d + 1;
    }
    let current = conf.workspaces_names[0][0].clone();
    proof {
        assert(names@[0]@[0]@ == current@);
        assert(has_name(workspaces_view(workspaces@), current@));
    }
    SerializableState { float_windows: Vec::new(), overlay_windows: Vec::new(), workspaces, current_workspace: current }
}

} // verus!
