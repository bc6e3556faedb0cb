use std::collections::HashMap;
use umberwm::classify::{class_names, is_firefox_drag_n_drop_initialization_window};
use umberwm::error::Error;
use umberwm::geometries::geometries_bsp;
use umberwm::helpers::{normal_hints_from, window_type_from, window_types_from_list, NO_WINDOW_TYPE};
use umberwm::keycode::{key_to_keycode, keycode_to_key};
use umberwm::model::{
    Actions, Conf, DisplayBorder, Effect, Event, Events, Geometry, Keybind, Layout, NormalHints,
    SerializableConf, WindowBorder, WindowInfo, Workspace, MOD_MASK_1, MOD_MASK_4,
    MOD_MASK_CONTROL, MOD_MASK_SHIFT,
};
use umberwm::state::load_serializable_state;
use umberwm::wm::{visible_displays, UmberWm};
use umberwm::workspaces::change_workspace;

fn strings(v: &[&str]) -> Vec<String> {
    v.iter().map(|s| s.to_string()).collect()
}

fn g(r: &Geometry) -> (u32, u32, u32, u32) {
    (r.0, r.1, r.2, r.3)
}

fn conf() -> SerializableConf {
    SerializableConf {
        meta: MOD_MASK_4,
        border: WindowBorder { width: 1, focus_color: 7, normal_color: 3 },
        display_borders: vec![DisplayBorder { left: 0, right: 0, bottom: 0, top: 0, gap: 10 }],
        workspaces_names: vec![strings(&["1", "2"])],
        wm_actions: vec![
            (Keybind::new(MOD_MASK_4, "space"), Actions::SwitchWindow),
            (Keybind::new(MOD_MASK_4, "w"), Actions::CloseWindow),
            (Keybind::new(MOD_MASK_4, "f"), Actions::ChangeLayout),
            (Keybind::new(MOD_MASK_4, "g"), Actions::ToggleGap),
            (Keybind::new(MOD_MASK_4 | MOD_MASK_CONTROL, "q"), Actions::Quit),
            (Keybind::new(MOD_MASK_4 | MOD_MASK_CONTROL, "r"), Actions::SerializeAndQuit),
        ],
        ignore_classes: vec![],
        float_classes: vec![],
        overlay_classes: vec![],
        sticky_classes: vec![],
        with_gap: false,
        custom_commands: vec![(Keybind::new(MOD_MASK_4, "r"), strings(&["rofi", "-show", "run"]))],
        command_callbacks: vec![(Events::OnChangeWorkspace, strings(&["echo", "change"]))],
    }
}

fn table() -> HashMap<u8, Vec<String>> {
    let mut t = HashMap::new();
    t.insert(10, strings(&["1", "exclam"]));
    t.insert(11, strings(&["2", "at"]));
    t.insert(65, strings(&["space"]));
    t.insert(25, strings(&["w", "W"]));
    t.insert(41, strings(&["f", "F"]));
    t.insert(42, strings(&["g", "G"]));
    t.insert(24, strings(&["q", "Q"]));
    t.insert(27, strings(&["r", "R"]));
    t.insert(99, vec![]);
    t
}

fn wm() -> UmberWm {
    let serializable = conf();
    let state = load_serializable_state(&serializable);
    let c = Conf { serializable, custom_actions: vec![Keybind::new(MOD_MASK_4, "g")] };
    let mut wm = UmberWm::new(c, state, table()).unwrap();
    let mut effects = vec![];
    wm.handle_event(Event::DisplaysChanged(vec![Geometry(0, 0, 1000, 800)]), &mut effects);
    wm
}

fn info() -> WindowInfo {
    WindowInfo {
        wm_class: "xterm\0XTerm\0".to_string(),
        window_type: 1,
        window_type_name: "_NET_WM_WINDOW_TYPE_NORMAL".to_string(),
        chrome_types: vec![2],
        normal_hints: None,
    }
}

fn ws<'a>(wm: &'a UmberWm, name: &str) -> &'a Workspace {
    &wm.workspaces.iter().find(|(n, _)| n == name).unwrap().1
}

#[test]
fn tiling_no_window_and_one_window() {
    assert!(geometries_bsp(0, 0, 0, 0, 100, 50, 0).is_empty());
    let one = geometries_bsp(0, 1, 3, 4, 100, 50, 1);
    assert_eq!(one.iter().map(g).collect::<Vec<_>>(), vec![(3, 4, 100, 50)]);
}

#[test]
fn tiling_horizontal_first_and_odd_sizes() {
    let r = geometries_bsp(0, 3, 0, 0, 1001, 801, 1);
    assert_eq!(
        r.iter().map(g).collect::<Vec<_>>(),
        vec![(0, 0, 500, 801), (500, 0, 501, 400), (500, 400, 501, 401)]
    );
}

#[test]
fn tiling_partitions_the_area() {
    for count in 0..=64usize {
        for vertical in 0..2usize {
            let r = geometries_bsp(0, count, 7, 9, 1920, 1080, vertical);
            assert_eq!(r.len(), count);
            let area: u64 = r.iter().map(|x| x.2 as u64 * x.3 as u64).sum();
            if count > 0 {
                assert_eq!(area, 1920 * 1080);
            }
            for a in 0..r.len() {
                for b in a + 1..r.len() {
                    let (x, y) = (&r[a], &r[b]);
                    assert!(
                        x.0 + x.2 <= y.0 || y.0 + y.2 <= x.0 || x.1 + x.3 <= y.1 || y.1 + y.3 <= x.1
                    );
                }
            }
        }
    }
}

#[test]
fn keycodes_and_keys() {
    let t = table();
    assert_eq!(keycode_to_key(&t, 10), Some("1".to_string()));
    assert_eq!(keycode_to_key(&t, 99), None);
    assert_eq!(keycode_to_key(&t, 200), None);
    assert_eq!(key_to_keycode(&t, "exclam"), Some(10));
    assert_eq!(key_to_keycode(&t, "space"), Some(65));
    assert_eq!(key_to_keycode(&t, "nothing"), None);
}

#[test]
fn class_property_is_cut_at_nul() {
    assert_eq!(class_names(&"firefox\0Firefox\0".to_string()), strings(&["firefox", "Firefox", ""]));
    assert_eq!(class_names(&"".to_string()), strings(&[""]));
    assert_eq!(class_names(&"a".to_string()), strings(&["a"]));
}

#[test]
fn drag_helper_window_is_recognised() {
    let hints = |w: u32, h: u32| NormalHints {
        min_width: 0,
        min_height: 0,
        max_width: w,
        max_height: h,
        width_inc: 0,
        height_inc: 0,
        min_aspect: (0, 0),
        max_aspect: (0, 0),
    };
    let ff = strings(&["firefox", "firefox"]);
    assert!(is_firefox_drag_n_drop_initialization_window(&ff, Some(hints(0, 0))));
    assert!(!is_firefox_drag_n_drop_initialization_window(&ff, Some(hints(0, 5))));
    assert!(!is_firefox_drag_n_drop_initialization_window(&ff, None));
    assert!(!is_firefox_drag_n_drop_initialization_window(&strings(&["firefox"]), Some(hints(0, 0))));
}

#[test]
fn hints_and_window_type_are_decoded() {
    let v: Vec<u32> = (0..15).collect();
    let h = normal_hints_from(&v).unwrap();
    assert_eq!((h.min_width, h.max_width, h.max_height, h.max_aspect), (5, 7, 8, (13, 14)));
    assert!(normal_hints_from(&(0..14).collect()).is_none());
    assert_eq!(window_type_from(&vec![]), NO_WINDOW_TYPE);
    assert_eq!(window_type_from(&vec![77, 3]), 77);
    let names = window_types_from_list();
    assert_eq!(names.len(), 11);
    assert_eq!(names[0], "_NET_WM_WINDOW_TYPE_MENU");
    assert_eq!(names[10], "_NET_WM_WINDOW_TYPE_DND");
}

#[test]
fn change_workspace_errors_leave_everything() {
    let mut wm = wm();
    let mut effects = vec![];
    wm.setup_new_window(1, &info(), &mut effects);
    let mut effects = vec![];
    let r = change_workspace(&mut wm.workspaces, &"1".to_string(), &"9".to_string(), true, true, &mut effects);
    assert_eq!(r, Err(Error::WorkspaceNotFound));
    assert!(effects.is_empty());
    assert_eq!(ws(&wm, "1").windows, vec![1]);
    let r = change_workspace(&mut wm.workspaces, &"9".to_string(), &"1".to_string(), true, true, &mut effects);
    assert_eq!(r, Err(Error::WorkspaceNotFound));
}

#[test]
fn change_workspace_maps_the_target() {
    let mut wm = wm();
    let mut effects = vec![];
    wm.setup_new_window(1, &info(), &mut effects);
    let mut effects = vec![];
    let r = change_workspace(&mut wm.workspaces, &"1".to_string(), &"2".to_string(), true, false, &mut effects);
    assert_eq!(r, Ok("2".to_string()));
    assert!(effects.is_empty());
    let mut effects = vec![];
    let r = change_workspace(&mut wm.workspaces, &"2".to_string(), &"1".to_string(), false, true, &mut effects);
    assert_eq!(r, Ok("1".to_string()));
    assert_eq!(effects, vec![Effect::UnmapWindow(1)]);
    assert_eq!(ws(&wm, "2").windows, vec![1]);
}

#[test]
fn wm_actions_change_the_current_workspace() {
    let mut wm = wm();
    let mut effects = vec![];
    wm.setup_new_window(1, &info(), &mut effects);
    wm.setup_new_window(2, &info(), &mut effects);
    let mut effects = vec![];
    assert_eq!(wm.run_wm_action(&Keybind::new(MOD_MASK_4, "space"), &mut effects), Ok(()));
    assert_eq!(ws(&wm, "1").focus, 0);
    assert_eq!(wm.run_wm_action(&Keybind::new(MOD_MASK_4, "f"), &mut effects), Ok(()));
    assert_eq!(ws(&wm, "1").layout, Layout::Monocle);
    assert_eq!(wm.run_wm_action(&Keybind::new(MOD_MASK_4, "f"), &mut effects), Ok(()));
    assert_eq!(ws(&wm, "1").layout, Layout::Bsph);
    assert_eq!(wm.run_wm_action(&Keybind::new(MOD_MASK_4, "f"), &mut effects), Ok(()));
    assert_eq!(ws(&wm, "1").layout, Layout::Bspv);
    assert_eq!(wm.run_wm_action(&Keybind::new(MOD_MASK_4, "g"), &mut effects), Ok(()));
    assert!(wm.conf.serializable.with_gap);
    let mut effects = vec![];
    assert_eq!(wm.run_wm_action(&Keybind::new(MOD_MASK_4, "w"), &mut effects), Ok(()));
    assert_eq!(effects[0], Effect::Close(1));
    let mut effects = vec![];
    let q = Keybind::new(MOD_MASK_4 | MOD_MASK_CONTROL, "q");
    assert_eq!(wm.run_wm_action(&q, &mut effects), Ok(()));
    assert_eq!(effects, vec![Effect::Quit]);
    let mut effects = vec![];
    let r = Keybind::new(MOD_MASK_4 | MOD_MASK_CONTROL, "r");
    assert_eq!(wm.run_wm_action(&r, &mut effects), Ok(()));
    assert_eq!(effects[0], Effect::SerializeAndQuit);
}

#[test]
fn gap_and_border_shrink_the_tiles() {
    let mut wm = wm();
    let mut effects = vec![];
    wm.setup_new_window(1, &info(), &mut effects);
    let mut effects = vec![];
    wm.run_wm_action(&Keybind::new(MOD_MASK_4, "g"), &mut effects).unwrap();
    assert_eq!(
        effects[0],
        Effect::Place { window: 1, x: 10, y: 10, width: 978, height: 778, border_width: 1, raise: false }
    );
}

#[test]
fn monocle_places_only_the_focused_window_on_top() {
    let mut wm = wm();
    let mut effects = vec![];
    wm.setup_new_window(1, &info(), &mut effects);
    wm.setup_new_window(2, &info(), &mut effects);
    let mut effects = vec![];
    wm.run_wm_action(&Keybind::new(MOD_MASK_4, "f"), &mut effects).unwrap();
    assert_eq!(
        effects[0],
        Effect::Place { window: 2, x: 0, y: 0, width: 998, height: 798, border_width: 1, raise: true }
    );
    assert!(!effects.iter().any(|e| matches!(e, Effect::Place { window: 1, .. })));
}

#[test]
fn lone_monocle_window_on_one_display_keeps_the_normal_border() {
    let mut wm = wm();
    let mut effects = vec![];
    wm.setup_new_window(1, &info(), &mut effects);
    let mut effects = vec![];
    wm.run_wm_action(&Keybind::new(MOD_MASK_4, "f"), &mut effects).unwrap();
    assert!(effects.contains(&Effect::Focus(1)));
    assert!(effects.contains(&Effect::SetBorderColor(1, 3)));
}

#[test]
fn wm_action_errors() {
    let mut wm = wm();
    let mut effects = vec![];
    assert_eq!(wm.run_wm_action(&Keybind::new(MOD_MASK_1, "space"), &mut effects), Err(Error::ActionNotFound));
    assert_eq!(wm.run_wm_action(&Keybind::new(MOD_MASK_4, "w"), &mut effects), Err(Error::WindowNotFound));
    assert!(effects.is_empty());
}

#[test]
fn key_presses_dispatch() {
    let mut wm = wm();
    let mut effects = vec![];
    wm.handle_key_press(27, MOD_MASK_4 as u16, &mut effects);
    assert_eq!(effects, vec![Effect::RunCommand(strings(&["rofi", "-show", "run"]))]);
    let mut effects = vec![];
    wm.handle_key_press(11, MOD_MASK_4 as u16, &mut effects);
    assert_eq!(wm.current_workspace, "2");
    assert!(effects.contains(&Effect::RunCommand(strings(&["echo", "change"]))));
    let mut effects = vec![];
    wm.handle_key_press(99, MOD_MASK_4 as u16, &mut effects);
    assert!(effects.is_empty());
    let mut custom = wm.clone_for_test();
    let mut effects = vec![];
    custom.conf.serializable.wm_actions.clear();
    custom.handle_key_press(42, MOD_MASK_4 as u16, &mut effects);
    assert_eq!(effects, vec![Effect::CustomAction(Keybind::new(MOD_MASK_4, "g"))]);
}

trait CloneForTest {
    fn clone_for_test(&self) -> UmberWm;
}

impl CloneForTest for UmberWm {
    fn clone_for_test(&self) -> UmberWm {
        let mut w = UmberWm::new(
            Conf { serializable: self.conf.serializable.clone(), custom_actions: self.conf.custom_actions.clone() },
            self.snapshot(),
            self.xmodmap_pke.clone(),
        )
        .unwrap();
        w.displays_geometries = self.displays_geometries.clone();
        w
    }
}

#[test]
fn mouse_gestures_move_and_resize() {
    let mut wm = wm();
    assert_eq!(wm.resize_window(5, 5), Err(Error::NoMouseMoveStart));
    let mut effects = vec![];
    wm.handle_event(
        Event::ButtonPress { root_x: 100, root_y: 100, child: 4, detail: 1, geometry: None },
        &mut effects,
    );
    assert_eq!(wm.resize_window(5, 5), Err(Error::NoButtonPressGeometry));
    wm.handle_event(
        Event::ButtonPress { root_x: 100, root_y: 100, child: 4, detail: 1, geometry: Some(Geometry(50, 60, 300, 200)) },
        &mut effects,
    );
    assert_eq!(
        wm.resize_window(110, 90),
        Ok(Effect::MoveResize { window: 4, x: 60, y: 50, width: 300, height: 200 })
    );
    wm.handle_event(
        Event::ButtonPress { root_x: 100, root_y: 100, child: 4, detail: 3, geometry: None },
        &mut effects,
    );
    assert_eq!(
        wm.resize_window(0, 150),
        Ok(Effect::MoveResize { window: 4, x: 50, y: 60, width: 200, height: 250 })
    );
    assert_eq!(
        wm.resize_window(-400, 100),
        Ok(Effect::MoveResize { window: 4, x: 50, y: 60, width: 1, height: 200 })
    );
    wm.handle_event(Event::ButtonRelease, &mut effects);
    assert!(wm.mouse_move_start.is_none());
    assert!(effects.is_empty());
}

#[test]
fn outputs_of_zero_width_are_dropped() {
    let r = visible_displays(&vec![Geometry(0, 0, 0, 800), Geometry(5, 0, 1280, 1024)]);
    assert_eq!(r, vec![Geometry(5, 0, 1280, 1024)]);
}

#[test]
fn key_grabs_cover_the_bound_keys() {
    let wm = wm();
    let mut wmg = wm.grab_wm_action_keys();
    wmg.sort();
    let mut expected = vec![(64, 65), (64, 25), (64, 41), (64, 42), (68, 24), (68, 27)];
    expected.sort();
    assert_eq!(wmg, expected);
    assert_eq!(wm.grab_custom_action_keys(), vec![(64, 42), (64, 27)]);
    assert_eq!(wm.grab_workspace_keys(), vec![(64, 10), (64, 11), (65, 10), (65, 11)]);
    let _ = MOD_MASK_SHIFT;
}

#[test]
fn fresh_state_has_one_empty_workspace_per_name() {
    let mut c = conf();
    c.workspaces_names = vec![strings(&["1", "2"]), strings(&["3", "1"])];
    let s = load_serializable_state(&c);
    assert_eq!(s.current_workspace, "1");
    let mut names: Vec<String> = s.workspaces.iter().map(|(n, _)| n.clone()).collect();
    names.sort();
    assert_eq!(names, strings(&["1", "2", "3"]));
    assert!(s.workspaces.iter().all(|(_, w)| w.windows.is_empty() && w.focus == 0 && w.layout == Layout::Bspv));
    assert!(s.float_windows.is_empty() && s.overlay_windows.is_empty());
}

#[test]
fn snapshot_round_trips() {
    let mut wm = wm();
    let mut effects = vec![];
    wm.setup_new_window(1, &info(), &mut effects);
    wm.setup_new_window(2, &info(), &mut effects);
    let snap = wm.snapshot();
    let back = UmberWm::new(
        Conf { serializable: conf(), custom_actions: vec![] },
        snap.clone(),
        HashMap::new(),
    )
    .unwrap();
    let again = back.snapshot();
    assert_eq!(again.float_windows, snap.float_windows);
    assert_eq!(again.overlay_windows, snap.overlay_windows);
    assert_eq!(again.current_workspace, snap.current_workspace);
    assert_eq!(again.workspaces.len(), snap.workspaces.len());
    for ((n1, w1), (n2, w2)) in again.workspaces.iter().zip(snap.workspaces.iter()) {
        assert_eq!((n1, &w1.windows, w1.focus, &w1.layout), (n2, &w2.windows, w2.focus, &w2.layout));
    }
}

#[test]
fn broken_states_are_refused() {
    let c = || Conf { serializable: conf(), custom_actions: vec![] };
    let mut s = load_serializable_state(&conf());
    s.overlay_windows = vec![1];
    s.workspaces[0].1.windows = vec![1];
    assert!(UmberWm::new(c(), s, HashMap::new()).is_none());
    let mut s = load_serializable_state(&conf());
    s.workspaces[0].1.windows = vec![1];
    s.workspaces[1].1.windows = vec![1];
    assert!(UmberWm::new(c(), s, HashMap::new()).is_none());
    let mut s = load_serializable_state(&conf());
    s.workspaces[0].1.windows = vec![1, 2];
    s.workspaces[0].1.focus = 2;
    assert!(UmberWm::new(c(), s, HashMap::new()).is_none());
    let mut s = load_serializable_state(&conf());
    s.current_workspace = "7".to_string();
    assert!(UmberWm::new(c(), s, HashMap::new()).is_none());
    let mut no_borders = conf();
    no_borders.display_borders.clear();
    let s = load_serializable_state(&conf());
    assert!(UmberWm::new(Conf { serializable: no_borders, custom_actions: vec![] }, s, HashMap::new()).is_none());
}

#[test]
fn destroying_unknown_or_overlay_windows() {
    let mut wm = wm();
    let mut effects = vec![];
    wm.destroy_window(42, &mut effects);
    assert!(effects.is_empty());
    wm.overlay_windows.push(9);
    wm.float_windows.push(9);
    wm.destroy_window(9, &mut effects);
    assert!(wm.overlay_windows.is_empty() && wm.float_windows.is_empty());
}

#[test]
fn enter_and_leave_focus_and_unfocus() {
    let mut wm = wm();
    let mut effects = vec![];
    wm.setup_new_window(1, &info(), &mut effects);
    wm.setup_new_window(2, &info(), &mut effects);
    let mut effects = vec![];
    wm.handle_event(Event::EnterNotify(1), &mut effects);
    assert_eq!(ws(&wm, "1").focus, 0);
    assert_eq!(effects, vec![Effect::Focus(1), Effect::SetBorderColor(1, 7)]);
    let mut effects = vec![];
    wm.handle_event(Event::LeaveNotify(1), &mut effects);
    assert_eq!(effects, vec![Effect::SetBorderColor(1, 3)]);
}
