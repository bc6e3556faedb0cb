use vstd::prelude::*;

verus! {

/// Handle of a window owned by the display server.
pub type Window = u32;

/// A key name, as the keyboard layout table spells it.
pub type Key = String;

/// Workspaces are named after the key that switches to them.
pub type WorkspaceName = Key;

pub type Color = u32;

/// Index of a physical display.
pub type DisplayId = usize;

/// A set of modifier keys, as a bit mask of the display protocol.
pub type ModMask = u32;

pub const MOD_MASK_SHIFT: ModMask = 1;

pub const MOD_MASK_LOCK: ModMask = 2;

pub const MOD_MASK_CONTROL: ModMask = 4;

pub const MOD_MASK_1: ModMask = 8;

pub const MOD_MASK_2: ModMask = 16;

pub const MOD_MASK_3: ModMask = 32;

pub const MOD_MASK_4: ModMask = 64;

pub const MOD_MASK_5: ModMask = 128;

/// A key together with the modifiers held with it.
#[derive(Clone, Debug)]
pub struct Keybind {
    pub mod_mask: ModMask,
    pub key: String,
}

pub open spec fn same_keybind(a: Keybind, b: Keybind) -> bool {
    a.mod_mask == b.mod_mask && a.key@ == b.key@
}

impl Keybind {
    pub fn new(mod_mask: ModMask, key: &str) -> (r: Keybind)
        ensures
            r.mod_mask == mod_mask,
            r.key@ == key@,
    {
        Keybind { mod_mask, key: key.to_owned() }
    }
}

impl Keybind {
    /// Whether both name the same key with the same modifiers.
    pub fn matches(&self, other: &Keybind) -> (r: bool)
        ensures
            r == same_keybind(*self, *other),
    {
        self.mod_mask == other.mod_mask && self.key == other.key
    }
}

impl PartialEq for Keybind {
    fn eq(&self, other: &Keybind) -> (r: bool)
        ensures
            r == same_keybind(*self, *other),
    {
        self.matches(other)
    }
}

impl vstd::std_specs::cmp::PartialEqSpecImpl for Keybind {
    open spec fn obeys_eq_spec() -> bool {
        true
    }

    open spec fn eq_spec(&self, other: &Keybind) -> bool {
        same_keybind(*self, *other)
    }
}

/// The size hints that a window sets for itself.
#[derive(Clone, Copy, Debug)]
pub struct NormalHints {
    pub min_width: u32,
    pub min_height: u32,
    pub max_width: u32,
    pub max_height: u32,
    pub width_inc: u32,
    pub height_inc: u32,
    pub min_aspect: (u32, u32),
    pub max_aspect: (u32, u32),
}

/// Events on which a configured command is run.
#[derive(Clone, Copy, Debug, PartialEq, Eq, Structural, Hash)]
pub enum Events {
    OnChangeWorkspace,
}

/// The built-in actions that a key can be bound to.
#[derive(Clone, Copy, Debug, PartialEq, Eq, Structural)]
pub enum Actions {
    SwitchWindow,
    SerializeAndQuit,
    CloseWindow,
    ChangeLayout,
    ToggleGap,
    Quit,
}

/// The modifier used to switch workspaces.
#[derive(Clone, Copy, Debug, PartialEq, Eq, Structural)]
pub enum Meta {
    Mod1,
    Mod4,
}

#[derive(Clone, Copy, Debug, PartialEq, Eq, Structural)]
pub enum Layout {
    Bspv,
    Monocle,
    Bsph,
}

/// A rectangle: left, top, width, height.
#[derive(Clone, Copy, Debug, PartialEq, Eq, Structural)]
pub struct Geometry(pub u32, pub u32, pub u32, pub u32);

/// The border drawn around each tiled window.
#[derive(Clone, Copy, Debug, PartialEq, Eq, Structural)]
pub struct WindowBorder {
    pub width: u32,
    pub focus_color: Color,
    pub normal_color: Color,
}

/// A named group of windows, in insertion order, with the index of the focused one.
#[derive(Clone, Debug)]
pub struct Workspace {
    pub layout: Layout,
    pub windows: Vec<Window>,
    pub focus: usize,
}

/// Space left free at the sides of a display, and the gap between its windows.
#[derive(Clone, Copy, Debug, PartialEq, Eq, Structural)]
pub struct DisplayBorder {
    pub left: u32,
    pub right: u32,
    pub bottom: u32,
    pub top: u32,
    pub gap: u32,
}

/// The configuration. Each table of the configuration file is held as a list of pairs whose
/// keys are unique.
#[derive(Clone, Debug)]
pub struct SerializableConf {
    /// modifier key which will be used for changing workspaces
    pub meta: ModMask,
    /// describes the borders of a window
    pub border: WindowBorder,
    /// describes displays borders / gaps
    pub display_borders: Vec<DisplayBorder>,
    /// name the workspaces with the key to press with meta, split by display
    pub workspaces_names: Vec<Vec<WorkspaceName>>,
    /// assign keys to pre-defined actions
    pub wm_actions: Vec<(Keybind, Actions)>,
    /// will ignore windows with this wm_class
    pub ignore_classes: Vec<String>,
    /// will not resize windows with this wm_class
    pub float_classes: Vec<String>,
    /// will not resize and display on top windows with this wm_class
    pub overlay_classes: Vec<String>,
    /// will stick these window classes to these workspaces on window open
    pub sticky_classes: Vec<(String, WorkspaceName)>,
    /// should we enable gaps (as defined in border) on startup
    pub with_gap: bool,
    /// run commands on given keys
    pub custom_commands: Vec<(Keybind, Vec<String>)>,
    /// callback commands to be called on events
    pub command_callbacks: Vec<(Events, Vec<String>)>,
}

/// The configuration, with the keys of the actions that the embedding program handles itself.
#[derive(Clone, Debug)]
pub struct Conf {
    pub serializable: SerializableConf,
    pub custom_actions: Vec<Keybind>,
}

/// What is kept of the window manager's state across a restart.
#[derive(Clone, Debug)]
pub struct SerializableState {
    pub float_windows: Vec<Window>,
    pub overlay_windows: Vec<Window>,
    pub workspaces: Vec<(WorkspaceName, Workspace)>,
    pub current_workspace: WorkspaceName,
}

/// Where a mouse move or resize gesture started.
#[derive(Clone, Copy, Debug)]
pub struct MouseMoveStart {
    pub root_x: i16,
    pub root_y: i16,
    pub child: Window,
    pub detail: u8,
}

/// What a workspace holds, as mathematical values.
pub struct WorkspaceView {
    pub layout: Layout,
    pub windows: Seq<Window>,
    pub focus: int,
}

impl View for Workspace {
    type V = WorkspaceView;

    open spec fn view(&self) -> WorkspaceView {
        WorkspaceView { layout: self.layout, windows: self.windows@, focus: self.focus as int }
    }
}

/// The workspaces, in order, each with its name.
pub open spec fn workspaces_view(v: Seq<(WorkspaceName, Workspace)>) -> Seq<(Seq<char>, WorkspaceView)> {
    v.map_values(|p: (WorkspaceName, Workspace)| (p.0@, p.1@))
}

pub open spec fn strings_view(v: Seq<String>) -> Seq<Seq<char>> {
    v.map_values(|s: String| s@)
}

/// A request to the display server, or to the program that embeds the window manager.
#[derive(Clone, Debug, PartialEq)]
pub enum Effect {
    /// Move and resize a window and set its border width; with `raise`, also put it on top of
    /// the stack.
    Place {
        window: Window,
        x: u32,
        y: u32,
        width: u32,
        height: u32,
        border_width: u32,
        raise: bool,
    },
    /// Put a window on top of the stack.
    Raise(Window),
    /// Give a window the input focus and mark it as the active window.
    Focus(Window),
    SetBorderColor(Window, Color),
    MapWindow(Window),
    UnmapWindow(Window),
    /// Listen for the pointer entering and leaving a window.
    WatchEnterLeave(Window),
    /// Ask a window to close itself.
    Close(Window),
    /// Move and resize a window during a mouse gesture.
    MoveResize { window: Window, x: u32, y: u32, width: u32, height: u32 },
    /// Run an external command line, without waiting for it.
    RunCommand(Vec<String>),
    /// Run the action that the embedding program bound to this key.
    CustomAction(Keybind),
    /// Tell the embedding program that this workspace is now shown on this display.
    WorkspaceChanged(WorkspaceName, DisplayId),
    /// Save the state, then exit with the code that asks for a restart.
    SerializeAndQuit,
    /// Exit.
    Quit,
}

/// `Effect` as a mathematical value.
pub enum Command {
    Place {
        window: Window,
        x: u32,
        y: u32,
        width: u32,
        height: u32,
        border_width: u32,
        raise: bool,
    },
    Raise(Window),
    Focus(Window),
    SetBorderColor(Window, Color),
    MapWindow(Window),
    UnmapWindow(Window),
    WatchEnterLeave(Window),
    Close(Window),
    MoveResize { window: Window, x: u32, y: u32, width: u32, height: u32 },
    RunCommand(Seq<Seq<char>>),
    CustomAction(ModMask, Seq<char>),
    WorkspaceChanged(Seq<char>, DisplayId),
    SerializeAndQuit,
    Quit,
}

impl View for Effect {
    type V = Command;

    open spec fn view(&self) -> Command {
        match self {
            Effect::Place { window, x, y, width, height, border_width, raise } => Command::Place {
                window: *window,
                x: *x,
                y: *y,
                width: *width,
                height: *height,
                border_width: *border_width,
                raise: *raise,
            },
            Effect::Raise(w) => Command::Raise(*w),
            Effect::Focus(w) => Command::Focus(*w),
            Effect::SetBorderColor(w, c) => Command::SetBorderColor(*w, *c),
            Effect::MapWindow(w) => Command::MapWindow(*w),
            Effect::UnmapWindow(w) => Command::UnmapWindow(*w),
            Effect::WatchEnterLeave(w) => Command::WatchEnterLeave(*w),
            Effect::Close(w) => Command::Close(*w),
            Effect::MoveResize { window, x, y, width, height } => Command::MoveResize {
                window: *window,
                x: *x,
                y: *y,
                width: *width,
                height: *height,
            },
            Effect::RunCommand(args) => Command::RunCommand(strings_view(args@)),
            Effect::CustomAction(k) => Command::CustomAction(k.mod_mask, k.key@),
            Effect::WorkspaceChanged(n, d) => Command::WorkspaceChanged(n@, *d),
            Effect::SerializeAndQuit => Command::SerializeAndQuit,
            Effect::Quit => Command::Quit,
        }
    }
}

pub open spec fn effects_view(v: Seq<Effect>) -> Seq<Command> {
    v.map_values(|e: Effect| e@)
}

/// What the display server tells about a window when it is mapped.
#[derive(Clone, Debug)]
pub struct WindowInfo {
    /// The class property: names separated by NUL characters.
    pub wm_class: String,
    /// The window type atom.
    pub window_type: u32,
    /// The name of the window type atom.
    pub window_type_name: String,
    /// The atoms of the window types that are never managed.
    pub chrome_types: Vec<u32>,
    /// The size hints, where the window has them.
    pub normal_hints: Option<NormalHints>,
}

/// An event of the display server, with what was read about it.
#[derive(Clone, Debug)]
pub enum Event {
    MapNotify(Window, WindowInfo),
    DestroyNotify(Window),
    /// The physical displays changed; these are the rectangles of the outputs.
    DisplaysChanged(Vec<Geometry>),
    /// A mouse button was pressed on `child`, whose geometry was read where possible.
    ButtonPress { root_x: i16, root_y: i16, child: Window, detail: u8, geometry: Option<Geometry> },
    ButtonRelease,
    MotionNotify { root_x: i16, root_y: i16 },
    EnterNotify(Window),
    LeaveNotify(Window),
    KeyPress { keycode: u8, state: u16 },
}

} // verus!
