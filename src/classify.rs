use crate::model::{strings_view, NormalHints, SerializableConf, WindowInfo, WorkspaceName};
use vstd::prelude::*;

verus! {

/// What becomes of a newly mapped window.
#[derive(Clone, Debug, PartialEq, Eq)]
pub enum Disposition {
    /// Not managed at all.
    Ignore,
    /// Kept on top of everything, in no workspace.
    Overlay,
    /// Added to this workspace, but left out of the tiling.
    Float(WorkspaceName),
    /// Added to this workspace and tiled.
    Tile(WorkspaceName),
}

/// `Disposition` as a mathematical value.
pub enum Placement {
    Ignore,
    Overlay,
    Float(Seq<char>),
    Tile(Seq<char>),
}

impl View for Disposition {
    type V = Placement;

    open spec fn view(&self) -> Placement {
        match self {
            Disposition::Ignore => Placement::Ignore,
            Disposition::Overlay => Placement::Overlay,
            Disposition::Float(n) => Placement::Float(n@),
            Disposition::Tile(n) => Placement::Tile(n@),
        }
    }
}

/// Some string of the list reads `s`.
pub open spec fn str_in(list: Seq<String>, s: Seq<char>) -> bool {
    exists|i: int| 0 <= i < list.len() && #[trigger] list[i]@ == s
}

/// The workspace that the first entry for class `s` names.
pub open spec fn sticky_target(list: Seq<(String, WorkspaceName)>, s: Seq<char>) -> Option<Seq<char>>
    decreases list.len(),
{
    if list.len() == 0 {
        None
    } else if list[0].0@ == s {
        Some(list[0].1@)
    } else {
        sticky_target(list.drop_first(), s)
    }
}

/// The invisible helper window that one browser maps when a drag starts: both class names are
/// `firefox` and both maximal sizes are zero.
pub open spec fn is_drag_helper(class: Seq<Seq<char>>, hints: Option<NormalHints>) -> bool {
    &&& class.len() >= 2
    &&& class[0] == "firefox"@
    &&& class[1] == "firefox"@
    &&& hints is Some
    &&& hints->0.max_height == 0
    &&& hints->0.max_width == 0
}

/// The disposition of a window with these class names and type, under the rules of `conf`,
/// while `current` is the current workspace. The first rule that applies decides; only the
/// first class name is matched against the class lists.
pub open spec fn placement(
    class: Seq<Seq<char>>,
    window_type: u32,
    kind_name: Seq<char>,
    chrome_types: Seq<u32>,
    hints: Option<NormalHints>,
    conf: SerializableConf,
    current: Seq<char>,
) -> Placement {
    if class.len() > 0 && str_in(conf.overlay_classes@, class[0]) {
        Placement::Overlay
    } else if chrome_types.contains(window_type) || kind_name == "_KDE_NET_WM_WINDOW_TYPE_OVERRIDE"@ {
        Placement::Ignore
    } else if is_drag_helper(class, hints) {
        Placement::Ignore
    } else if class.len() > 0 && (class[0] == "xscreensaver"@ || str_in(conf.ignore_classes@, class[0])) {
        Placement::Ignore
    } else if class.len() > 0 && sticky_target(conf.sticky_classes@, class[0]) is Some {
        let target = sticky_target(conf.sticky_classes@, class[0])->0;
        if str_in(conf.float_classes@, class[0]) {
            Placement::Float(target)
        } else {
            Placement::Tile(target)
        }
    } else if class.len() > 0 && str_in(conf.float_classes@, class[0]) {
        Placement::Float(current)
    } else {
        Placement::Tile(current)
    }
}

/// The pieces of `s` between separators `sep`, joined back with `sep`.
pub open spec fn join(parts: Seq<Seq<char>>, sep: char) -> Seq<char>
    decreases parts.len(),
{
    if parts.len() <= 1 {
        if parts.len() == 1 {
            parts[0]
        } else {
            seq![]
        }
    } else {
        join(parts.drop_last(), sep) + seq![sep] + parts.last()
    }
}

/// `parts` are the pieces of `s` between the separators `sep`.
pub open spec fn is_split(parts: Seq<Seq<char>>, s: Seq<char>, sep: char) -> bool {
    &&& parts.len() >= 1
    &&& forall|i: int| 0 <= i < parts.len() ==> !(#[trigger] parts[i]).contains(sep)
    &&& join(parts, sep) == s
}

/// The pieces of `s` between the NUL characters.
pub open spec fn class_split(s: Seq<char>) -> Seq<Seq<char>> {
    choose|parts: Seq<Seq<char>>| is_split(parts, s, '\0')
}

proof fn lemma_join_holds_sep(parts: Seq<Seq<char>>, sep: char)
    requires
        parts.len() >= 2,
    ensures
        join(parts, sep)[join(parts.drop_last(), sep).len() as int] == sep,
        join(parts, sep).len() == join(parts.drop_last(), sep).len() + 1 + parts.last().len(),
{
}

/// Cutting a string at a separator has one result.
pub proof fn lemma_split_unique(a: Seq<Seq<char>>, b: Seq<Seq<char>>, s: Seq<char>, sep: char)
    requires
        is_split(a, s, sep),
        is_split(b, s, sep),
    ensures
        a == b,
    decreases a.len() + b.len(),
{
    if a.len() == 1 && b.len() == 1 {
        assert(a =~= b);
    } else if a.len() == 1 {
        lemma_join_holds_sep(b, sep);
        assert(a[0].contains(sep)) by {
            assert(a[0][join(b.drop_last(), sep).len() as int] == sep);
        }
    } else if b.len() == 1 {
        lemma_join_holds_sep(a, sep);
        assert(b[0].contains(sep)) by {
            assert(b[0][join(a.drop_last(), sep).len() as int] == sep);
        }
    } else {
        lemma_join_holds_sep(a, sep);
        lemma_join_holds_sep(b, sep);
        let la = a.last().len();
        let lb = b.last().len();
        let xa = join(a.drop_last(), sep);
        let xb = join(b.drop_last(), sep);
        assert(s == xa + seq![sep] + a.last());
        assert(s == xb + seq![sep] + b.last());
        if la < lb {
            let k = s.len() - la - 1;
            assert(s[k] == sep);
            assert(b.last()[k - xb.len() - 1] == s[k]);
            assert(b.last().contains(sep));
            assert(b[b.len() - 1].contains(sep));
        } else if lb < la {
            let k = s.len() - lb - 1;
            assert(s[k] == sep);
            assert(a.last()[k - xa.len() - 1] == s[k]);
            assert(a.last().contains(sep));
            assert(a[a.len() - 1].contains(sep));
        } else {
            assert(a.last() =~= s.subrange(s.len() - la, s.len() as int));
            assert(b.last() =~= s.subrange(s.len() - lb, s.len() as int));
            assert(xa =~= s.subrange(0, s.len() - la - 1));
            assert(xb =~= s.subrange(0, s.len() - lb - 1));
            assert forall|i: int| 0 <= i < a.drop_last().len() implies !(#[trigger] a.drop_last()[i]).contains(sep) by {
                assert(a.drop_last()[i] == a[i]);
            }
            assert forall|i: int| 0 <= i < b.drop_last().len() implies !(#[trigger] b.drop_last()[i]).contains(sep) by {
                assert(b.drop_last()[i] == b[i]);
            }
            lemma_split_unique(a.drop_last(), b.drop_last(), xa, sep);
            assert(a =~= a.drop_last().push(a.last()));
            assert(b =~= b.drop_last().push(b.last()));
        }
    }
}

/// Relies on `str::split` with a `char` pattern: the pieces between the separators, in order,
/// at least one, none holding the separator, which joined back with it give `s`.
#[verifier::external_body]
fn split_on(s: &str, sep: char) -> (r: Vec<String>)
    ensures
        r.len() >= 1,
        forall|i: int| 0 <= i < r.len() ==> !(#[trigger] r@[i]@).contains(sep),
        join(strings_view(r@), sep) == s@,
{
    s.split(sep).map(String::from).collect()
}

/// The class names of a window: its class property cut at each NUL character.
pub fn class_names(wm_class: &String) -> (r: Vec<String>)
    ensures
        is_split(strings_view(r@), wm_class@, '\0'),
        strings_view(r@) == class_split(wm_class@),
{
    let r = split_on(wm_class.as_str(), '\0');
    assert forall|i: int| 0 <= i < strings_view(r@).len() implies !(#[trigger] strings_view(r@)[i]).contains('\0') by {
        assert(strings_view(r@)[i] == r@[i]@);
    }
    proof {
        let c = class_split(wm_class@);
        assert(is_split(strings_view(r@), wm_class@, '\0'));
        assert(exists|p: Seq<Seq<char>>| is_split(p, wm_class@, '\0'));
        assert(is_split(c, wm_class@, '\0'));
        lemma_split_unique(c, strings_view(r@), wm_class@, '\0');
    }
    r
}

pub fn string_in(list: &Vec<String>, s: &String) -> (r: bool)
    ensures
        r == str_in(list@, s@),
{
    let mut i: usize = 0;
    while i < list.len()
        invariant
            i <= list.len(),
            forall|j: int| 0 <= j < i ==> list@[j]@ != s@,
        decreases list.len() - i,
    {
        if list[i] == *s {
            return true;
        }
        i = i + 1;
    }
    false
}

pub fn atom_in(list: &Vec<u32>, a: u32) -> (r: bool)
    ensures
        r == list@.contains(a),
{
    let mut i: usize = 0;
    while i < list.len()
        invariant
            i <= list.len(),
            forall|j: int| 0 <= j < i ==> list@[j] != a,
        decreases list.len() - i,
    {
        if list[i] == a {
            return true;
        }
        i = i + 1;
    }
    false
}

/// The workspace that the first entry for class `s` names.
pub fn sticky_workspace(list: &Vec<(String, WorkspaceName)>, s: &String) -> (r: Option<WorkspaceName>)
    ensures
        match r {
            Some(n) => sticky_target(list@, s@) == Some(n@),
            None => sticky_target(list@, s@) is None,
        },
{
    let mut i: usize = 0;
    assert(list@.subrange(0, list.len() as int) =~= list@);
    while i < list.len()
        invariant
            i <= list.len(),
            sticky_target(list@, s@) == sticky_target(list@.subrange(i as int, list.len() as int), s@),
        decreases list.len() - i,
    {
        let ghost rest = list@.subrange(i as int, list.len() as int);
        assert(rest.drop_first() =~= list@.subrange(i as int + 1, list.len() as int));
        if list[i].0 == *s {
            return Some(list[i].1.clone());
        }
        i = i + 1;
    }
    None
}

/// Whether the window is the invisible helper that one browser maps when a drag starts.
pub fn is_firefox_drag_n_drop_initialization_window(
    wm_class: &Vec<String>,
    hints: Option<NormalHints>,
) -> (r: bool)
    ensures
        r == is_drag_helper(strings_view(wm_class@), hints),
{
    let firefox = "firefox".to_owned();
    if wm_class.len() >= 2 && wm_class[0] == firefox && wm_class[1] == firefox {
        if let Some(h) = hints {
            return h.max_height == 0 && h.max_width == 0;
        }
    }
    false
}

/// Decides what becomes of a newly mapped window with class names `wm_class`, by the rules of
/// `conf`, while `current` is the current workspace.
pub fn classify(
    wm_class: &Vec<String>,
    info: &WindowInfo,
    conf: &SerializableConf,
    current: &WorkspaceName,
) -> (r: Disposition)
    ensures
        r@ == placement(
            strings_view(wm_class@),
            info.window_type,
            info.window_type_name@,
            info.chrome_types@,
            info.normal_hints,
            *conf,
            current@,
        ),
{
    let ghost class = strings_view(wm_class@);
    let has_class = wm_class.len() > 0;
    if has_class && string_in(&conf.overlay_classes, &wm_class[0]) {
        return Disposition::Overlay;
    }
    if atom_in(&info.chrome_types, info.window_type) || info.window_type_name
        == "_KDE_NET_WM_WINDOW_TYPE_OVERRIDE".to_owned() {
        return Disposition::Ignore;
    }
    if is_firefox_drag_n_drop_initialization_window(wm_class, info.normal_hints) {
        return Disposition::Ignore;
    }
    if has_class && (wm_class[0] == "xscreensaver".to_owned() || string_in(
        &conf.ignore_classes,
        &wm_class[0],
    )) {
        return Disposition::Ignore;
    }
    if has_class {
        if let Some(target) = sticky_workspace(&conf.sticky_classes, &wm_class[0]) {
            if string_in(&conf.float_classes, &wm_class[0]) {
                return Disposition::Float(target);
            } else {
                return Disposition::Tile(target);
            }
        }
        if string_in(&conf.float_classes, &wm_class[0]) {
            return Disposition::Float(current.clone());
        }
    }
    Disposition::Tile(current.clone())
}

} // verus!
