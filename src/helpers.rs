use crate::model::{strings_view, NormalHints};
use vstd::prelude::*;

verus! {

/// The atom read when a window has no window type.
pub const NO_WINDOW_TYPE: u32 = 42;

/// The size hints held in the 32-bit words of a window's normal-hints property, where it has
/// the fifteen words of a full hints record.
pub fn normal_hints_from(value: &Vec<u32>) -> (r: Option<NormalHints>)
    ensures
        value.len() >= 15 <==> r is Some,
        r matches Some(h) ==> h == (NormalHints {
            min_width: value@[5],
            min_height: value@[6],
            max_width: value@[7],
            max_height: value@[8],
            width_inc: value@[9],
            height_inc: value@[10],
            min_aspect: (value@[11], value@[12]),
            max_aspect: (value@[13], value@[14]),
        }),
{
    if value.len() >= 15 {
        Some(
            NormalHints {
                min_width: value[5],
                min_height: value[6],
                max_width: value[7],
                max_height: value[8],
                width_inc: value[9],
                height_inc: value[10],
                min_aspect: (value[11], value[12]),
                max_aspect: (value[13], value[14]),
            },
        )
    } else {
        None
    }
}

/// The window type held in a window's type property: its first atom, or `NO_WINDOW_TYPE`
/// when the property is empty.
pub fn window_type_from(value: &Vec<u32>) -> (r: u32)
    ensures
        r == if value.len() == 0 {
            NO_WINDOW_TYPE
        } else {
            value@[0]
        },
{
    if value.len() == 0 {
        NO_WINDOW_TYPE
    } else {
        value[0]
    }
}

/// The names of the atoms of the window types that are never managed: menus, tooltips,
/// utility and notification windows, toolbars, splash screens, dialogs, docks and
/// drag-and-drop windows.
pub fn window_types_from_list() -> (r: Vec<String>)
    ensures
        strings_view(r@) == seq![
            "_NET_WM_WINDOW_TYPE_MENU"@,
            "_NET_WM_WINDOW_TYPE_POPUP_MENU"@,
            "_NET_WM_WINDOW_TYPE_DROPDOWN_MENU"@,
            "_NET_WM_WINDOW_TYPE_TOOLTIP"@,
            "_NET_WM_WINDOW_TYPE_UTILITY"@,
            "_NET_WM_WINDOW_TYPE_NOTIFICATION"@,
            "_NET_WM_WINDOW_TYPE_TOOLBAR"@,
            "_NET_WM_WINDOW_TYPE_SPLASH"@,
            "_NET_WM_WINDOW_TYPE_DIALOG"@,
            "_NET_WM_WINDOW_TYPE_DOCK"@,
            "_NET_WM_WINDOW_TYPE_DND"@,
        ],
{
    let mut r: Vec<String> = Vec::new();
    r.push("_NET_WM_WINDOW_TYPE_MENU".to_owned());
    r.push("_NET_WM_WINDOW_TYPE_POPUP_MENU".to_owned());
    r.push("_NET_WM_WINDOW_TYPE_DROPDOWN_MENU".to_owned());
    r.push("_NET_WM_WINDOW_TYPE_TOOLTIP".to_owned());
    r.push("_NET_WM_WINDOW_TYPE_UTILITY".to_owned());
    r.push("_NET_WM_WINDOW_TYPE_NOTIFICATION".to_owned());
    r.push("_NET_WM_WINDOW_TYPE_TOOLBAR".to_owned());
    r.push("_NET_WM_WINDOW_TYPE_SPLASH".to_owned());
    r.push("_NET_WM_WINDOW_TYPE_DIALOG".to_owned());
    r.push("_NET_WM_WINDOW_TYPE_DOCK".to_owned());
    r.push("_NET_WM_WINDOW_TYPE_DND".to_owned());
    assert(strings_view(r@) =~= seq![
        "_NET_WM_WINDOW_TYPE_MENU"@,
        "_NET_WM_WINDOW_TYPE_POPUP_MENU"@,
        "_NET_WM_WINDOW_TYPE_DROPDOWN_MENU"@,
        "_NET_WM_WINDOW_TYPE_TOOLTIP"@,
        "_NET_WM_WINDOW_TYPE_UTILITY"@,
        "_NET_WM_WINDOW_TYPE_NOTIFICATION"@,
        "_NET_WM_WINDOW_TYPE_TOOLBAR"@,
        "_NET_WM_WINDOW_TYPE_SPLASH"@,
        "_NET_WM_WINDOW_TYPE_DIALOG"@,
        "_NET_WM_WINDOW_TYPE_DOCK"@,
        "_NET_WM_WINDOW_TYPE_DND"@,
    ]);
    r
}

} // verus!
