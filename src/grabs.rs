use crate::classify::str_in;
use crate::keycode::key_to_keycode;
use crate::model::{strings_view, Keybind, ModMask, WorkspaceName, MOD_MASK_SHIFT};
use crate::wm::UmberWm;
use std::collections::HashMap;
use vstd::prelude::*;

verus! {

/// A key grab: modifiers and key code.
pub type KeyGrab = (ModMask, u8);

/// A keybind as modifiers and key name.
pub open spec fn kb_views(kbs: Seq<Keybind>) -> Seq<(ModMask, Seq<char>)> {
    kbs.map_values(|k: Keybind| (k.mod_mask, k.key@))
}

/// Grab `g` catches key `key` with modifiers `m`.
pub open spec fn grab_catches(table: Map<u8, Vec<String>>, g: KeyGrab, m: ModMask, key: Seq<char>) -> bool {
    g.0 == m && table.contains_key(g.1) && str_in(table[g.1]@, key)
}

/// Some key code has symbol `key`.
pub open spec fn known_key(table: Map<u8, Vec<String>>, key: Seq<char>) -> bool {
    exists|c: u8| #[trigger] table.contains_key(c) && str_in(table[c]@, key)
}

/// `grabs` catch exactly the wanted keys that the table knows: each grab catches one of them,
/// and each of them is caught.
pub open spec fn grabs_cover(
    table: Map<u8, Vec<String>>,
    wanted: Seq<(ModMask, Seq<char>)>,
    grabs: Seq<KeyGrab>,
) -> bool {
    &&& forall|j: int| 0 <= j < grabs.len() ==> catches_some(table, wanted, #[trigger] grabs[j])
    &&& forall|i: int| 0 <= i < wanted.len() && known_key(table, (#[trigger] wanted[i]).1) ==> caught(
        table,
        grabs,
        wanted[i].0,
        wanted[i].1,
    )
}

/// Grab `g` catches one of the wanted keys.
pub open spec fn catches_some(table: Map<u8, Vec<String>>, wanted: Seq<(ModMask, Seq<char>)>, g: KeyGrab) -> bool {
    exists|i: int| 0 <= i < wanted.len() && grab_catches(table, g, wanted[i].0, #[trigger] wanted[i].1)
}

/// Some grab catches key `key` with modifiers `m`.
pub open spec fn caught(table: Map<u8, Vec<String>>, grabs: Seq<KeyGrab>, m: ModMask, key: Seq<char>) -> bool {
    exists|j: int| 0 <= j < grabs.len() && grab_catches(table, #[trigger] grabs[j], m, key)
}

/// All configured workspace names, display after display.
pub open spec fn all_names(names: Seq<Vec<WorkspaceName>>) -> Seq<Seq<char>>
    decreases names.len(),
{
    if names.len() == 0 {
        seq![]
    } else {
        all_names(names.drop_last()) + strings_view(names.last()@)
    }
}

pub open spec fn with_mod(keys: Seq<Seq<char>>, m: ModMask) -> Seq<(ModMask, Seq<char>)> {
    keys.map_values(|k: Seq<char>| (m, k))
}

pub proof fn lemma_kb_push(s: Seq<Keybind>, k: Keybind)
    ensures
        kb_views(s.push(k)) == kb_views(s).push((k.mod_mask, k.key@)),
{
    assert(kb_views(s.push(k)) =~= kb_views(s).push((k.mod_mask, k.key@)));
}

/// Covering one more wanted key: with a grab for it where the table knows it.
pub proof fn lemma_cover_step(
    table: Map<u8, Vec<String>>,
    w: Seq<(ModMask, Seq<char>)>,
    i: int,
    before: Seq<KeyGrab>,
    after: Seq<KeyGrab>,
)
    requires
        0 <= i < w.len(),
        grabs_cover(table, w.take(i), before),
        after == before || (after.len() == before.len() + 1 && after.drop_last() == before
            && grab_catches(table, after.last(), w[i].0, w[i].1)),
        after == before ==> !known_key(table, w[i].1),
    ensures
        grabs_cover(table, w.take(i + 1), after),
{
    let t0 = w.take(i);
    let t = w.take(i + 1);
    assert forall|j: int| 0 <= j < after.len() implies catches_some(table, t, #[trigger] after[j]) by {
        if j < before.len() {
            assert(after[j] == before[j]) by {
                if after != before {
                    assert(after.drop_last()[j] == after[j]);
                }
            }
            assert(catches_some(table, t0, before[j]));
            let a = choose|a: int| 0 <= a < t0.len() && grab_catches(table, before[j], t0[a].0, #[trigger] t0[a].1);
            assert(t[a] == t0[a]);
        } else {
            assert(t[i] == w[i]);
            assert(after != before);
            assert(after[j] == after.last());
            assert(grab_catches(table, after[j], t[i].0, t[i].1));
        }
    }
    assert forall|a: int| 0 <= a < t.len() && known_key(table, (#[trigger] t[a]).1) implies caught(table, after, t[a].0, t[a].1) by {
        if a < i {
            assert(t[a] == t0[a]);
            assert(caught(table, before, t0[a].0, t0[a].1));
            let j = choose|j: int| 0 <= j < before.len() && grab_catches(table, #[trigger] before[j], t0[a].0, t0[a].1);
            assert(after[j] == before[j]) by {
                if after != before {
                    assert(after.drop_last()[j] == after[j]);
                }
            }
        } else {
            assert(t[a] == w[i]);
            assert(after != before);
            let j = after.len() - 1;
            assert(grab_catches(table, after[j], t[a].0, t[a].1));
        }
    }
    assert(t.len() == i + 1);
}

/// The grabs for the wanted keybinds whose key the table knows.
pub fn grabs_for(xmodmap_pke: &HashMap<u8, Vec<String>>, kbs: &Vec<Keybind>) -> (r: Vec<KeyGrab>)
    ensures
        grabs_cover(xmodmap_pke@, kb_views(kbs@), r@),
{
    let ghost w = kb_views(kbs@);
    let mut r: Vec<KeyGrab> = Vec::new();
    let mut i: usize = 0;
    while i < kbs.len()
        invariant
            i <= kbs.len(),
            w == kb_views(kbs@),
            grabs_cover(xmodmap_pke@, w.take(i as int), r@),
        decreases kbs.len() - i,
    {
        let ghost before = r@;
        assert(w[i as int] == (kbs@[i as int].mod_mask, kbs@[i as int].key@));
        if let Some(c) = key_to_keycode(xmodmap_pke, kbs[i].key.as_str()) {
            r.push((kbs[i].mod_mask, c));
            assert(r@.drop_last() =~= before);
        }
        proof {
            lemma_cover_step(xmodmap_pke@, w, i as int, before, r@);
        }
        i = i + 1;
    }
    assert(w.take(kbs.len() as int) =~= w);
    r
}

/// Appends a keybind for each name with modifiers `m`.
fn push_keybinds(names: &Vec<WorkspaceName>, m: ModMask, out: &mut Vec<Keybind>)
    ensures
        kb_views(final(out)@) == kb_views(old(out)@) + with_mod(strings_view(names@), m),
{
    let ghost start = kb_views(out@);
    let mut k: usize = 0;
    while k < names.len()
        invariant
            k <= names.len(),
            kb_views(out@) == start + with_mod(strings_view(names@.take(k as int)), m),
        decreases names.len() - k,
    {
        let ghost o = out@;
        let kb = Keybind::new(m, names[k].as_str());
        proof {
            lemma_kb_push(o, kb);
            assert(with_mod(strings_view(names@.take(k as int + 1)), m) =~= with_mod(strings_view(names@.take(k as int)), m).push((m, names@[k as int]@)));
        }
        out.push(kb);
        k = k + 1;
    }
    assert(names@.take(names.len() as int) =~= names@);
}

/// Appends a keybind for each configured workspace name with modifiers `m`.
fn push_workspace_keybinds(names: &Vec<Vec<WorkspaceName>>, m: ModMask, out: &mut Vec<Keybind>)
    ensures
        kb_views(final(out)@) == kb_views(old(out)@) + with_mod(all_names(names@), m),
{
    let ghost start = kb_views(out@);
    let mut d: usize = 0;
    while d < names.len()
        invariant
            d <= names.len(),
            kb_views(out@) == start + with_mod(all_names(names@.take(d as int)), m),
        decreases names.len() - d,
    {
        push_keybinds(&names[d], m, out);
        proof {
            let t = names@.take(d as int + 1);
            assert(t.drop_last() =~= names@.take(d as int));
            assert(all_names(t) == all_names(names@.take(d as int)) + strings_view(names@[d as int]@));
            assert(with_mod(all_names(t), m) =~= with_mod(all_names(names@.take(d as int)), m) + with_mod(strings_view(names@[d as int]@), m));
        }
        d = d + 1;
    }
    assert(names@.take(names.len() as int) =~= names@);
}

/// Appends a copy of each keybind.
fn push_copies(kbs: &Vec<Keybind>, out: &mut Vec<Keybind>)
    ensures
        kb_views(final(out)@) == kb_views(old(out)@) + kb_views(kbs@),
{
    let ghost start = kb_views(out@);
    let mut i: usize = 0;
    while i < kbs.len()
        invariant
            i <= kbs.len(),
            kb_views(out@) == start + kb_views(kbs@.take(i as int)),
        decreases kbs.len() - i,
    {
        let ghost o = out@;
        let kb = Keybind::new(kbs[i].mod_mask, kbs[i].key.as_str());
        proof {
            lemma_kb_push(o, kb);
            assert(kb_views(kbs@.take(i as int + 1)) =~= kb_views(kbs@.take(i as int)).push((kb.mod_mask, kb.key@)));
        }
        out.push(kb);
        i = i + 1;
    }
    assert(kbs@.take(kbs.len() as int) =~= kbs@);
}

impl UmberWm {
    /// The grabs for the keys that the configuration binds to built-in actions.
    pub fn grab_wm_action_keys(&self) -> (r: Vec<KeyGrab>)
        ensures
            grabs_cover(
                self.xmodmap_pke@,
                self.conf.serializable.wm_actions@.map_values(
                    |p: (Keybind, crate::model::Actions)| (p.0.mod_mask, p.0.key@),
                ),
                r@,
            ),
    {
        let ghost w = self.conf.serializable.wm_actions@.map_values(
            |p: (Keybind, crate::model::Actions)| (p.0.mod_mask, p.0.key@),
        );
        let mut kbs: Vec<Keybind> = Vec::new();
        let mut i: usize = 0;
        while i < self.conf.serializable.wm_actions.len()
            invariant
                i <= self.conf.serializable.wm_actions.len(),
                w == self.conf.serializable.wm_actions@.map_values(
                    |p: (Keybind, crate::model::Actions)| (p.0.mod_mask, p.0.key@),
                ),
                kb_views(kbs@) == w.take(i as int),
            decreases self.conf.serializable.wm_actions.len() - i,
        {
            let ghost o = kbs@;
            let src = &self.conf.serializable.wm_actions[i].0;
            let kb = Keybind::new(src.mod_mask, src.key.as_str());
            proof {
                lemma_kb_push(o, kb);
                assert(w.take(i as int + 1) =~= w.take(i as int).push((kb.mod_mask, kb.key@)));
            }
            kbs.push(kb);
            i = i + 1;
        }
        assert(w.take(self.conf.serializable.wm_actions.len() as int) =~= w);
        grabs_for(&self.xmodmap_pke, &kbs)
    }

    /// The grabs for the keys of the embedding program's actions, then for those of the
    /// configured command lines.
    pub fn grab_custom_action_keys(&self) -> (r: Vec<KeyGrab>)
        ensures
            grabs_cover(
                self.xmodmap_pke@,
                kb_views(self.conf.custom_actions@) + self.conf.serializable.custom_commands@.map_values(
                    |p: (Keybind, Vec<String>)| (p.0.mod_mask, p.0.key@),
                ),
                r@,
            ),
    {
        let ghost w = self.conf.serializable.custom_commands@.map_values(
            |p: (Keybind, Vec<String>)| (p.0.mod_mask, p.0.key@),
        );
        let mut kbs: Vec<Keybind> = Vec::new();
        push_copies(&self.conf.custom_actions, &mut kbs);
        let ghost start = kb_views(kbs@);
        let mut i: usize = 0;
        while i < self.conf.serializable.custom_commands.len()
            invariant
                i <= self.conf.serializable.custom_commands.len(),
                w == self.conf.serializable.custom_commands@.map_values(
                    |p: (Keybind, Vec<String>)| (p.0.mod_mask, p.0.key@),
                ),
                kb_views(kbs@) == start + w.take(i as int),
            decreases self.conf.serializable.custom_commands.len() - i,
        {
            let ghost o = kbs@;
            let src = &self.conf.serializable.custom_commands[i].0;
            let kb = Keybind::new(src.mod_mask, src.key.as_str());
            proof {
                lemma_kb_push(o, kb);
                assert(w.take(i as int + 1) =~= w.take(i as int).push((kb.mod_mask, kb.key@)));
                assert(start + w.take(i as int + 1) =~= (start + w.take(i as int)).push((kb.mod_mask, kb.key@)));
            }
            kbs.push(kb);
            i = i + 1;
        }
        assert(w.take(self.conf.serializable.custom_commands.len() as int) =~= w);
        assert(start =~= kb_views(self.conf.custom_actions@));
        grabs_for(&self.xmodmap_pke, &kbs)
    }

    /// The grabs for the keys that switch workspaces: each configured name with the
    /// workspace modifier, then each with the workspace modifier and shift.
    pub fn grab_workspace_keys(&self) -> (r: Vec<KeyGrab>)
        ensures
            grabs_cover(
                self.xmodmap_pke@,
                with_mod(all_names(self.conf.serializable.workspaces_names@), self.conf.serializable.meta)
                    + with_mod(
                    all_names(self.conf.serializable.workspaces_names@),
                    self.conf.serializable.meta | MOD_MASK_SHIFT,
                ),
                r@,
            ),
    {
        let mut kbs: Vec<Keybind> = Vec::new();
        push_workspace_keybinds(&self.conf.serializable.workspaces_names, self.conf.serializable.meta, &mut kbs);
        push_workspace_keybinds(
            &self.conf.serializable.workspaces_names,
            self.conf.serializable.meta | MOD_MASK_SHIFT,
            &mut kbs,
        );
        assert(kb_views(Seq::<Keybind>::empty()) =~= Seq::<(ModMask, Seq<char>)>::empty());
        grabs_for(&self.xmodmap_pke, &kbs)
    }
}

} // verus!
