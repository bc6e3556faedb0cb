use crate::classify::{placement, str_in, sticky_target};
use crate::model::{NormalHints, SerializableConf, Window, WorkspaceName};
use crate::wm::UmberWm;
use crate::workspaces::holds;
use vstd::prelude::*;

verus! {

/// In a well-formed window manager, which every operation keeps well formed, a window is in
/// at most one workspace, at most once, and never both in a workspace and in the overlay set;
/// and every workspace that holds windows focuses one of them.
pub proof fn lemma_membership_and_focus(wm: UmberWm)
    requires
        wm.wf(),
    ensures
        forall|i: int, j: int, w: Window|
            0 <= i < wm.spaces().len() && 0 <= j < wm.spaces().len() && #[trigger] holds(wm.spaces(), i, w)
                && #[trigger] holds(wm.spaces(), j, w) ==> i == j,
        forall|i: int| 0 <= i < wm.spaces().len() ==> (#[trigger] wm.spaces()[i]).1.windows.no_duplicates(),
        forall|i: int, w: Window|
            0 <= i < wm.spaces().len() && #[trigger] wm.overlay_windows@.contains(w) ==> !#[trigger] holds(
                wm.spaces(),
                i,
                w,
            ),
        forall|i: int|
            0 <= i < wm.spaces().len() && (#[trigger] wm.spaces()[i]).1.windows.len() > 0 ==> 0
                <= wm.spaces()[i].1.focus < wm.spaces()[i].1.windows.len(),
{
    assert forall|i: int, w: Window|
        0 <= i < wm.spaces().len() && #[trigger] wm.overlay_windows@.contains(w) implies !#[trigger] holds(
            wm.spaces(),
            i,
            w,
        ) by {
        assert(!crate::workspaces::is_managed(wm.spaces(), w));
    }
}

/// The keys of the class-to-workspace list are unique.
pub open spec fn unique_classes(l: Seq<(String, WorkspaceName)>) -> bool {
    forall|i: int, j: int| 0 <= i < l.len() && 0 <= j < l.len() && i != j ==> #[trigger] l[i].0@ != #[trigger] l[j].0@
}

/// The list maps class `k` to workspace `v`.
pub open spec fn maps_class(l: Seq<(String, WorkspaceName)>, k: Seq<char>, v: Seq<char>) -> bool {
    exists|i: int| 0 <= i < l.len() && #[trigger] l[i].0@ == k && l[i].1@ == v
}

pub proof fn lemma_sticky_target(l: Seq<(String, WorkspaceName)>, k: Seq<char>)
    requires
        unique_classes(l),
    ensures
        sticky_target(l, k) matches Some(v) ==> maps_class(l, k, v),
        sticky_target(l, k) is None ==> forall|i: int| 0 <= i < l.len() ==> #[trigger] l[i].0@ != k,
        forall|v: Seq<char>| #[trigger] maps_class(l, k, v) ==> sticky_target(l, k) == Some(v),
    decreases l.len(),
{
    if l.len() > 0 {
        let r = l.drop_first();
        assert(unique_classes(r)) by {
            assert forall|i: int, j: int| 0 <= i < r.len() && 0 <= j < r.len() && i != j implies #[trigger] r[i].0@ != #[trigger] r[j].0@ by {
                assert(r[i] == l[i + 1] && r[j] == l[j + 1]);
            }
        }
        lemma_sticky_target(r, k);
        if l[0].0@ != k {
            if let Some(v) = sticky_target(r, k) {
                let i = choose|i: int| 0 <= i < r.len() && #[trigger] r[i].0@ == k && r[i].1@ == v;
                assert(l[i + 1] == r[i]);
            } else {
                assert forall|i: int| 0 <= i < l.len() implies #[trigger] l[i].0@ != k by {
                    if i > 0 {
                        assert(l[i] == r[i - 1]);
                    }
                }
            }
            assert forall|v: Seq<char>| #[trigger] maps_class(l, k, v) implies sticky_target(l, k) == Some(v) by {
                let i = choose|i: int| 0 <= i < l.len() && #[trigger] l[i].0@ == k && l[i].1@ == v;
                assert(r[i - 1] == l[i]);
                assert(maps_class(r, k, v));
            }
        } else {
            assert(maps_class(l, k, l[0].1@));
            assert forall|v: Seq<char>| #[trigger] maps_class(l, k, v) implies sticky_target(l, k) == Some(v) by {
                let i = choose|i: int| 0 <= i < l.len() && #[trigger] l[i].0@ == k && l[i].1@ == v;
                if i != 0 {
                    assert(l[i].0@ != l[0].0@);
                }
            }
        }
    }
}

/// Classification does not depend on the order of the rule lists: under two configurations
/// whose class lists have the same members, and whose class-to-workspace lists map the same
/// classes to the same workspaces without repeating a class, every window gets the same
/// disposition.
pub proof fn lemma_classification_order_independent(
    class: Seq<Seq<char>>,
    window_type: u32,
    kind_name: Seq<char>,
    chrome_types: Seq<u32>,
    hints: Option<NormalHints>,
    a: SerializableConf,
    b: SerializableConf,
    current: Seq<char>,
)
    requires
        forall|s: Seq<char>| #[trigger] str_in(a.overlay_classes@, s) == str_in(b.overlay_classes@, s),
        forall|s: Seq<char>| #[trigger] str_in(a.ignore_classes@, s) == str_in(b.ignore_classes@, s),
        forall|s: Seq<char>| #[trigger] str_in(a.float_classes@, s) == str_in(b.float_classes@, s),
        unique_classes(a.sticky_classes@),
        unique_classes(b.sticky_classes@),
        forall|k: Seq<char>, v: Seq<char>| #[trigger] maps_class(a.sticky_classes@, k, v) == maps_class(b.sticky_classes@, k, v),
    ensures
        placement(class, window_type, kind_name, chrome_types, hints, a, current) == placement(
            class,
            window_type,
            kind_name,
            chrome_types,
            hints,
            b,
            current,
        ),
{
    if class.len() > 0 {
        let k = class[0];
        lemma_sticky_target(a.sticky_classes@, k);
        lemma_sticky_target(b.sticky_classes@, k);
        if let Some(v) = sticky_target(a.sticky_classes@, k) {
            assert(maps_class(b.sticky_classes@, k, v));
        }
        if let Some(v) = sticky_target(b.sticky_classes@, k) {
            assert(maps_class(a.sticky_classes@, k, v));
        }
        assert(sticky_target(a.sticky_classes@, k) == sticky_target(b.sticky_classes@, k));
        assert(str_in(a.overlay_classes@, k) == str_in(b.overlay_classes@, k));
        assert(str_in(a.ignore_classes@, k) == str_in(b.ignore_classes@, k));
        assert(str_in(a.float_classes@, k) == str_in(b.float_classes@, k));
    }
}

} // verus!
