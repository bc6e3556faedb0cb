use crate::geometries::fits;
use crate::model::{effects_view, Command, DisplayBorder, Effect, Geometry, Window, Workspace};
use crate::workspaces::emit;
use vstd::prelude::*;

verus! {

/// A position moved by the gap, as the display protocol's 32-bit coordinates wrap.
pub open spec fn offset(p: u32, gap: u32) -> u32 {
    ((p + gap) % 0x1_0000_0000) as u32
}

/// A size less twice the border width and twice the gap, and zero where that is negative.
pub open spec fn shrink(size: u32, border_width: u32, gap: u32) -> u32 {
    if size >= 2 * border_width + 2 * gap {
        (size - 2 * border_width - 2 * gap) as u32
    } else {
        0
    }
}

/// The placement of a window in tile `g`.
pub open spec fn place_command(w: Window, g: Geometry, border_width: u32, gap: u32, raise: bool) -> Command {
    Command::Place {
        window: w,
        x: offset(g.0, gap),
        y: offset(g.1, gap),
        width: shrink(g.2, border_width, gap),
        height: shrink(g.3, border_width, gap),
        border_width,
        raise,
    }
}

/// The placements of the first `n` windows in the tiles of the same index.
pub open spec fn place_commands(
    windows: Seq<Window>,
    geos: Seq<Geometry>,
    border_width: u32,
    gap: u32,
    n: int,
) -> Seq<Command>
    decreases n,
{
    if n <= 0 {
        seq![]
    } else {
        place_commands(windows, geos, border_width, gap, n - 1).push(
            place_command(windows[n - 1], geos[n - 1], border_width, gap, false),
        )
    }
}

/// Index `display`, or the last index of a list of `len` entries where it is out of range.
pub open spec fn clamp_index(display: int, len: int) -> int {
    if display >= len && len > 0 {
        len - 1
    } else {
        display
    }
}

/// The part of display `d` that is left for windows once the borders `b` are taken off each
/// side; sizes that the borders exceed become zero, and the area is cut to the coordinate space.
pub open spec fn usable_area(d: Geometry, b: DisplayBorder) -> Geometry {
    let left = if d.0 + b.left <= u32::MAX { d.0 + b.left } else { u32::MAX as int };
    let top = if d.1 + b.top <= u32::MAX { d.1 + b.top } else { u32::MAX as int };
    let w = if d.2 >= b.left + b.right { d.2 - b.left - b.right } else { 0 };
    let h = if d.3 >= b.top + b.bottom { d.3 - b.top - b.bottom } else { 0 };
    Geometry(
        left as u32,
        top as u32,
        (if w <= u32::MAX - left { w } else { u32::MAX - left }) as u32,
        (if h <= u32::MAX - top { h } else { u32::MAX - top }) as u32,
    )
}

fn offset_by(p: u32, gap: u32) -> (r: u32)
    ensures
        r == offset(p, gap),
{
    ((p as u64 + gap as u64) % 0x1_0000_0000) as u32
}

fn shrink_by(size: u32, border_width: u32, gap: u32) -> (r: u32)
    ensures
        r == shrink(size, border_width, gap),
{
    let less: u64 = 2 * border_width as u64 + 2 * gap as u64;
    if size as u64 >= less {
        (size as u64 - less) as u32
    } else {
        0
    }
}

fn place(w: Window, g: Geometry, border_width: u32, gap: u32, raise: bool) -> (r: Effect)
    ensures
        r@ == place_command(w, g, border_width, gap, raise),
{
    Effect::Place {
        window: w,
        x: offset_by(g.0, gap),
        y: offset_by(g.1, gap),
        width: shrink_by(g.2, border_width, gap),
        height: shrink_by(g.3, border_width, gap),
        border_width,
        raise,
    }
}

/// The usable area of a display.
pub fn usable_area_of(d: Geometry, b: DisplayBorder) -> (r: Geometry)
    ensures
        r == usable_area(d, b),
        fits(r),
{
    let left: u32 = d.0.saturating_add(b.left);
    let top: u32 = d.1.saturating_add(b.top);
    let sides: u64 = b.left as u64 + b.right as u64;
    let ends: u64 = b.top as u64 + b.bottom as u64;
    let w: u64 = if d.2 as u64 >= sides {
        d.2 as u64 - sides
    } else {
        0
    };
    let h: u64 = if d.3 as u64 >= ends {
        d.3 as u64 - ends
    } else {
        0
    };
    let room_w: u64 = u32::MAX as u64 - left as u64;
    let room_h: u64 = u32::MAX as u64 - top as u64;
    Geometry(
        left,
        top,
        (if w <= room_w { w } else { room_w }) as u32,
        (if h <= room_h { h } else { room_h }) as u32,
    )
}

/// Returns the display border for the display requested, or for the last display if the index
/// is out of range.
pub fn get_display_border(display_borders: &[DisplayBorder], display: usize) -> (r: DisplayBorder)
    requires
        display_borders.len() > 0,
    ensures
        r == display_borders@[clamp_index(display as int, display_borders.len() as int)],
{
    let i = if display < display_borders.len() - 1 {
        display
    } else {
        display_borders.len() - 1
    };
    display_borders[i]
}

/// Places each window in the tile of the same index, for as many as there are of both.
pub fn resize_bsp(
    border_width: u32,
    non_float_windows: &Vec<Window>,
    geos: &Vec<Geometry>,
    gap: u32,
    effects: &mut Vec<Effect>,
)
    requires
        non_float_windows.len() == geos.len(),
    ensures
        effects_view(final(effects)@) == effects_view(old(effects)@) + place_commands(
            non_float_windows@,
            geos@,
            border_width,
            gap,
            geos.len() as int,
        ),
{
    let mut i: usize = 0;
    while i < geos.len()
        invariant
            i <= geos.len(),
            non_float_windows.len() == geos.len(),
            effects_view(effects@) == effects_view(old(effects)@) + place_commands(
                non_float_windows@,
                geos@,
                border_width,
                gap,
                i as int,
            ),
        decreases geos.len() - i,
    {
        let e = place(non_float_windows[i], geos[i], border_width, gap, false);
        emit(effects, e);
        i = i + 1;
    }
}

/// Places the focused window, where there is one, in the first tile, on top of the stack.
pub fn resize_monocle(
    border_width: u32,
    workspace: &Workspace,
    geos: &Vec<Geometry>,
    gap: u32,
    effects: &mut Vec<Effect>,
)
    requires
        geos.len() >= 1,
    ensures
        effects_view(final(effects)@) == effects_view(old(effects)@) + (if workspace.focus
            < workspace.windows.len() {
            seq![place_command(workspace.windows@[workspace.focus as int], geos@[0], border_width, gap, true)]
        } else {
            Seq::<Command>::empty()
        }),
{
    if workspace.focus < workspace.windows.len() {
        let e = place(workspace.windows[workspace.focus], geos[0], border_width, gap, true);
        emit(effects, e);
    } else {
        assert(effects_view(effects@) =~= effects_view(old(effects)@) + Seq::<Command>::empty());
    }
}

} // verus!
