use std::collections::HashMap;
use umberwm::classify::Disposition;
use umberwm::model::{
    Conf, DisplayBorder, Effect, Event, Geometry, Keybind, Layout, SerializableConf, WindowBorder,
    WindowInfo, MOD_MASK_1, MOD_MASK_SHIFT,
};
use umberwm::state::load_serializable_state;
use umberwm::wm::UmberWm;

fn strings(v: &[&str]) -> Vec<String> {
    v.iter().map(|s| s.to_string()).collect()
}

fn conf() -> SerializableConf {
    SerializableConf {
        meta: MOD_MASK_1,
        border: WindowBorder { width: 0, focus_color: 0x906cff, normal_color: 0 },
        display_borders: vec![DisplayBorder { left: 0, right: 0, bottom: 0, top: 0, gap: 0 }],
        workspaces_names: vec![strings(&["1", "2"]), strings(&["3"])],
        wm_actions: vec![],
        ignore_classes: strings(&["Discover-overlay"]),
        float_classes: strings(&["rofi"]),
        overlay_classes: strings(&["discover-overlay"]),
        sticky_classes: vec![("firefox".to_string(), "2".to_string())],
        with_gap: false,
        custom_commands: vec![],
        command_callbacks: vec![],
    }
}

fn wm_with(serializable: SerializableConf) -> UmberWm {
    let state = load_serializable_state(&serializable);
    let conf = Conf { serializable, custom_actions: vec![] };
    let mut wm = UmberWm::new(conf, state, HashMap::new()).unwrap();
    let mut effects = vec![];
    wm.handle_event(Event::DisplaysChanged(vec![Geometry(0, 0, 1000, 800)]), &mut effects);
    wm
}

fn info(class: &str) -> WindowInfo {
    WindowInfo {
        wm_class: class.to_string(),
        window_type: 500,
        window_type_name: "_NET_WM_WINDOW_TYPE_NORMAL".to_string(),
        chrome_types: vec![600, 601],
        normal_hints: None,
    }
}

fn workspace<'a>(wm: &'a UmberWm, name: &str) -> &'a umberwm::model::Workspace {
    &wm.workspaces.iter().find(|(n, _)| n == name).unwrap().1
}

fn placements(effects: &[Effect]) -> Vec<(u32, u32, u32, u32, u32)> {
    effects
        .iter()
        .filter_map(|e| match e {
            Effect::Place { window, x, y, width, height, .. } => Some((*window, *x, *y, *width, *height)),
            _ => None,
        })
        .collect()
}

fn three_tiled_windows() -> (UmberWm, Vec<Effect>) {
    let mut wm = wm_with(conf());
    let mut effects = vec![];
    for w in [1, 2] {
        wm.setup_new_window(w, &info("xterm\0XTerm\0"), &mut effects);
    }
    let mut last = vec![];
    wm.setup_new_window(3, &info("xterm\0XTerm\0"), &mut last);
    (wm, last)
}

#[test]
fn three_windows_spiral_on_one_display() {
    let (wm, effects) = three_tiled_windows();
    assert_eq!(
        placements(&effects),
        vec![(1, 0, 0, 1000, 400), (2, 0, 400, 500, 400), (3, 500, 400, 500, 400)]
    );
    let ws = workspace(&wm, "1");
    assert_eq!(ws.windows, vec![1, 2, 3]);
    assert_eq!(ws.focus, 2);
    assert_eq!(ws.layout, Layout::Bspv);
    assert!(effects.contains(&Effect::Focus(3)));
    assert!(effects.contains(&Effect::SetBorderColor(3, 0x906cff)));
    assert!(effects.contains(&Effect::SetBorderColor(1, 0)));
    assert_eq!(effects.last(), Some(&Effect::WatchEnterLeave(3)));
}

#[test]
fn destroying_the_middle_window_retiles_two() {
    let (mut wm, _) = three_tiled_windows();
    let mut effects = vec![];
    wm.destroy_window(2, &mut effects);
    let ws = workspace(&wm, "1");
    assert_eq!(ws.windows, vec![1, 3]);
    assert_eq!(ws.focus, 1);
    assert_eq!(placements(&effects), vec![(1, 0, 0, 1000, 400), (3, 0, 400, 1000, 400)]);
    assert_eq!(effects[0], Effect::Focus(3));
}

#[test]
fn float_window_is_kept_out_of_the_tiling() {
    let mut wm = wm_with(conf());
    let mut effects = vec![];
    wm.setup_new_window(1, &info("xterm\0XTerm\0"), &mut effects);
    let mut effects = vec![];
    wm.setup_new_window(9, &info("rofi\0Rofi\0"), &mut effects);
    let ws = workspace(&wm, "1");
    assert_eq!(ws.windows, vec![1, 9]);
    assert_eq!(ws.focus, 1);
    assert_eq!(wm.float_windows, vec![9]);
    assert_eq!(placements(&effects), vec![(1, 0, 0, 1000, 800)]);
    assert!(effects.contains(&Effect::Focus(9)));
}

#[test]
fn switching_with_shift_moves_the_focused_window() {
    let mut wm = wm_with(conf());
    let mut effects = vec![];
    for w in [1, 2, 3] {
        wm.setup_new_window(w, &info("xterm\0"), &mut effects);
    }
    let mut effects = vec![];
    wm.handle_workspace_change(&Keybind::new(MOD_MASK_1 | MOD_MASK_SHIFT, "2"), &mut effects);
    assert_eq!(wm.current_workspace, "2");
    assert_eq!(workspace(&wm, "1").windows, vec![1, 2]);
    assert_eq!(workspace(&wm, "1").focus, 1);
    assert_eq!(workspace(&wm, "2").windows, vec![3]);
    assert_eq!(workspace(&wm, "2").focus, 0);
    assert_eq!(effects[0], Effect::UnmapWindow(1));
    assert_eq!(effects[1], Effect::UnmapWindow(2));
    assert!(!effects.contains(&Effect::UnmapWindow(3)));
    assert!(effects.contains(&Effect::WorkspaceChanged("2".to_string(), 0)));
    assert_eq!(placements(&effects), vec![(3, 0, 0, 1000, 800)]);
}

#[test]
fn switching_without_shift_leaves_the_windows() {
    let mut wm = wm_with(conf());
    let mut effects = vec![];
    for w in [1, 2] {
        wm.setup_new_window(w, &info("xterm\0"), &mut effects);
    }
    let mut effects = vec![];
    wm.handle_workspace_change(&Keybind::new(MOD_MASK_1, "2"), &mut effects);
    assert_eq!(wm.current_workspace, "2");
    assert_eq!(workspace(&wm, "1").windows, vec![1, 2]);
    assert!(workspace(&wm, "2").windows.is_empty());
    assert_eq!(effects[0], Effect::UnmapWindow(1));
    assert_eq!(effects[1], Effect::UnmapWindow(2));
}

#[test]
fn switching_to_another_display_hides_nothing() {
    let mut wm = wm_with(conf());
    let mut effects = vec![];
    wm.handle_event(
        Event::DisplaysChanged(vec![Geometry(0, 0, 1000, 800), Geometry(1000, 0, 800, 600)]),
        &mut effects,
    );
    for w in [1, 2] {
        wm.setup_new_window(w, &info("xterm\0"), &mut effects);
    }
    let mut effects = vec![];
    wm.handle_workspace_change(&Keybind::new(MOD_MASK_1, "3"), &mut effects);
    assert_eq!(wm.current_workspace, "3");
    assert_eq!(wm.previous_display, 1);
    assert!(!effects.iter().any(|e| matches!(e, Effect::UnmapWindow(_))));
    assert!(effects.contains(&Effect::WorkspaceChanged("3".to_string(), 1)));
}

#[test]
fn display_index_beyond_borders_uses_the_last_border() {
    let borders = vec![
        DisplayBorder { left: 1, right: 2, bottom: 3, top: 4, gap: 5 },
        DisplayBorder { left: 10, right: 20, bottom: 30, top: 40, gap: 50 },
    ];
    assert_eq!(umberwm::resize::get_display_border(&borders, 7), borders[1]);
    assert_eq!(umberwm::resize::get_display_border(&borders, 2), borders[1]);
    assert_eq!(umberwm::resize::get_display_border(&borders, 0), borders[0]);
}

#[test]
fn resize_on_a_display_beyond_the_borders_uses_the_last_border() {
    let mut c = conf();
    c.display_borders = vec![
        DisplayBorder { left: 0, right: 0, bottom: 0, top: 0, gap: 0 },
        DisplayBorder { left: 10, right: 20, bottom: 30, top: 40, gap: 0 },
    ];
    let mut wm = wm_with(c);
    let mut effects = vec![];
    wm.handle_event(
        Event::DisplaysChanged(vec![
            Geometry(0, 0, 1000, 800),
            Geometry(1000, 0, 1000, 800),
            Geometry(2000, 0, 1000, 800),
        ]),
        &mut effects,
    );
    wm.setup_new_window(1, &info("xterm\0"), &mut effects);
    let ws = workspace(&wm, "1").clone();
    let mut effects = vec![];
    wm.resize_workspace_windows(&ws, 2, &mut effects);
    assert_eq!(placements(&effects), vec![(1, 2010, 40, 970, 730)]);
}

#[test]
fn overlay_and_ignored_windows_stay_out_of_workspaces() {
    let mut wm = wm_with(conf());
    let mut effects = vec![];
    wm.setup_new_window(5, &info("discover-overlay\0"), &mut effects);
    assert_eq!(wm.overlay_windows, vec![5]);
    wm.setup_new_window(6, &info("Discover-overlay\0"), &mut effects);
    wm.setup_new_window(7, &info("xscreensaver\0"), &mut effects);
    let mut chrome = info("xterm\0");
    chrome.window_type = 601;
    wm.setup_new_window(8, &chrome, &mut effects);
    assert!(effects.is_empty());
    assert!(workspace(&wm, "1").windows.is_empty());
    wm.setup_new_window(5, &info("xterm\0"), &mut effects);
    assert!(workspace(&wm, "1").windows.is_empty());
    let mut effects = vec![];
    wm.setup_new_window(1, &info("xterm\0"), &mut effects);
    assert!(effects.contains(&Effect::Raise(5)));
}

#[test]
fn sticky_class_goes_to_its_workspace_hidden() {
    let mut wm = wm_with(conf());
    let mut effects = vec![];
    wm.setup_new_window(4, &info("firefox\0Navigator\0"), &mut effects);
    assert_eq!(workspace(&wm, "2").windows, vec![4]);
    assert_eq!(effects, vec![Effect::UnmapWindow(4)]);
}

#[test]
fn adding_a_window_twice_changes_nothing() {
    let mut wm = wm_with(conf());
    let mut effects = vec![];
    wm.setup_new_window(1, &info("xterm\0"), &mut effects);
    let mut effects = vec![];
    wm.setup_new_window(1, &info("xterm\0"), &mut effects);
    assert!(effects.is_empty());
    assert_eq!(workspace(&wm, "1").windows, vec![1]);
}

#[test]
fn classification_follows_the_rule_order() {
    let c = conf();
    let current = "1".to_string();
    let split = |s: &str| umberwm::classify::class_names(&s.to_string());
    let d = |class: &str, i: &WindowInfo| umberwm::classify::classify(&split(class), i, &c, &current);
    assert_eq!(d("discover-overlay\0", &info("")), Disposition::Overlay);
    assert_eq!(d("xscreensaver\0", &info("")), Disposition::Ignore);
    assert_eq!(d("Discover-overlay\0", &info("")), Disposition::Ignore);
    assert_eq!(d("firefox\0x\0", &info("")), Disposition::Tile("2".to_string()));
    assert_eq!(d("rofi\0", &info("")), Disposition::Float("1".to_string()));
    assert_eq!(d("xterm\0", &info("")), Disposition::Tile("1".to_string()));
    let mut kde = info("");
    kde.window_type_name = "_KDE_NET_WM_WINDOW_TYPE_OVERRIDE".to_string();
    assert_eq!(d("xterm\0", &kde), Disposition::Ignore);
    let mut c2 = c.clone();
    c2.float_classes.push("firefox".to_string());
    assert_eq!(
        umberwm::classify::classify(&split("firefox\0"), &info(""), &c2, &current),
        Disposition::Float("2".to_string())
    );
    // the same call gives the same disposition, and reordering the lists changes nothing
    let mut c3 = c.clone();
    c3.float_classes = strings(&["other", "rofi"]);
    assert_eq!(d("rofi\0", &info("")), d("rofi\0", &info("")));
    assert_eq!(
        umberwm::classify::classify(&split("rofi\0"), &info(""), &c3, &current),
        Disposition::Float("1".to_string())
    );
}

#[test]
fn membership_and_focus_hold_after_every_operation() {
    let mut wm = wm_with(conf());
    let classes = ["xterm\0", "rofi\0", "discover-overlay\0", "firefox\0", "xscreensaver\0"];
    let mut seed: u64 = 12345;
    for _ in 0..400 {
        seed = seed.wrapping_mul(6364136223846793005).wrapping_add(1442695040888963407);
        let window = ((seed >> 33) % 12) as u32;
        let mut effects = vec![];
        match (seed >> 20) % 4 {
            0 | 1 => wm.setup_new_window(window, &info(classes[((seed >> 40) % 5) as usize]), &mut effects),
            2 => wm.destroy_window(window, &mut effects),
            _ => {
                let key = if (seed >> 45) % 2 == 0 { "1" } else { "2" };
                wm.handle_workspace_change(&Keybind::new(MOD_MASK_1 | MOD_MASK_SHIFT, key), &mut effects)
            }
        }
        for w in 0..12u32 {
            let places = wm
                .workspaces
                .iter()
                .map(|(_, ws)| ws.windows.iter().filter(|&&x| x == w).count())
                .sum::<usize>();
            let overlay = wm.overlay_windows.iter().filter(|&&x| x == w).count();
            assert!(places + overlay <= 1);
        }
        for (_, ws) in &wm.workspaces {
            assert!(ws.windows.is_empty() || ws.focus < ws.windows.len());
        }
    }
}
