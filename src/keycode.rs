use crate::classify::{str_in, string_in};
use crate::model::Key;
use std::collections::HashMap;
use vstd::std_specs::iter::IteratorSpec;
use vstd::prelude::*;

verus! {

broadcast use vstd::std_specs::hash::group_hash_axioms;

/// The primary symbol of key code `keycode`, where the table gives it any symbol.
pub fn keycode_to_key(xmodmap_pke: &HashMap<u8, Vec<String>>, keycode: u8) -> (r: Option<Key>)
    ensures
        match r {
            Some(k) => xmodmap_pke@.contains_key(keycode) && xmodmap_pke@[keycode].len() > 0
                && k@ == xmodmap_pke@[keycode]@[0]@,
            None => !xmodmap_pke@.contains_key(keycode) || xmodmap_pke@[keycode].len() == 0,
        },
{
    if let Some(x) = xmodmap_pke.get(&keycode) {
        if x.len() > 0 {
            return Some(x[0].clone());
        }
    }
    None
}

/// A key code that has symbol `key` among its symbols, where there is one. Which of several
/// such codes comes back follows the table's iteration order, which is unspecified.
pub fn key_to_keycode(xmodmap_pke: &HashMap<u8, Vec<String>>, key: &str) -> (r: Option<u8>)
    ensures
        match r {
            Some(c) => xmodmap_pke@.contains_key(c) && str_in(xmodmap_pke@[c]@, key@),
            None => forall|c: u8| #[trigger]
                xmodmap_pke@.contains_key(c) ==> !str_in(xmodmap_pke@[c]@, key@),
        },
{
    let name = key.to_owned();
    let ghost entries = vstd::std_specs::hash::spec_hash_map_iter(xmodmap_pke).remaining();
    for (keycode, symbols) in it: xmodmap_pke.iter()
        invariant
            name@ == key@,
            it.seq() == entries,
            forall|i: int|
                0 <= i < it.index() ==> !str_in((*(#[trigger] it.seq()[i]).1)@, key@),
    {
        if string_in(symbols, &name) {
            return Some(*keycode);
        }
    }
    assert forall|c: u8| #[trigger] xmodmap_pke@.contains_key(c) implies !str_in(xmodmap_pke@[c]@, key@) by {
        assert(entries.contains((&c, &xmodmap_pke@[c])));
        let i = choose|i: int| 0 <= i < entries.len() && entries[i] == (&c, &xmodmap_pke@[c]);
    }
    None
}

} // verus!
