use vstd::prelude::*;

verus! {

/// A color with straight (unmultiplied) alpha.
#[derive(PartialEq, Eq, Structural, Clone, Copy, Debug)]
pub struct Rgba {
    pub r: u8,
    pub g: u8,
    pub b: u8,
    pub a: u8,
}

pub open spec fn opaque_rgb(r: u8, g: u8, b: u8) -> Rgba {
    Rgba { r, g, b, a: 255 }
}

pub open spec fn black() -> Rgba {
    opaque_rgb(0, 0, 0)
}

pub open spec fn white() -> Rgba {
    opaque_rgb(255, 255, 255)
}

pub open spec fn transparent() -> Rgba {
    Rgba { r: 0, g: 0, b: 0, a: 0 }
}

/// The close control's fill when the pointer is over it.
pub open spec fn alert_red() -> Rgba {
    opaque_rgb(232, 17, 35)
}

pub open spec fn title_top() -> Rgba {
    opaque_rgb(225, 234, 254)
}

pub open spec fn title_bottom() -> Rgba {
    opaque_rgb(196, 213, 242)
}

/// The number of bands the title bar's gradient is drawn with.
pub const GRADIENT_BANDS: u32 = 8;

/// One channel of band `i` of `GRADIENT_BANDS`, blended from `top` to `bottom`.
pub open spec fn blend(top: u8, bottom: u8, i: u32) -> int {
    (top * (8 - i) + bottom * i) / 8
}

/// The fill and glyph colors of the close control, by hover state.
pub open spec fn close_colors(hovered: bool) -> (Rgba, Rgba) {
    if hovered {
        (alert_red(), white())
    } else {
        (transparent(), black())
    }
}

/// A request from the chrome to the host window.
#[derive(PartialEq, Eq, Structural, Clone, Copy, Debug)]
pub enum HostCommand {
    /// Begin an OS-level window drag; the host tracks the motion from there.
    StartDrag,
    /// Close the window.
    Close,
}

/// How the title bar's icon is drawn.
#[derive(PartialEq, Eq, Structural, Clone, Copy, Debug)]
pub enum IconDraw {
    /// The loaded texture, inside a thin border.
    Texture,
    /// A plain colored square of the same size.
    Square,
}

/// What the host reported this frame about the pointer and the title bar.
#[derive(PartialEq, Eq, Structural, Clone, Copy, Debug)]
pub struct ChromeInput {
    pub drag_started: bool,
    pub close_hovered: bool,
    pub close_clicked: bool,
    pub icon_loaded: bool,
}

/// The chrome's decisions for one frame.
pub struct ChromeFrame {
    pub icon: IconDraw,
    pub close_fill: Rgba,
    pub close_glyph: Rgba,
    pub commands: Vec<HostCommand>,
}

/// The commands that one frame's input asks of the host, in order.
pub open spec fn frame_commands(input: ChromeInput) -> Seq<HostCommand> {
    (if input.drag_started {
        seq![HostCommand::StartDrag]
    } else {
        Seq::empty()
    }) + (if input.close_clicked {
        seq![HostCommand::Close]
    } else {
        Seq::empty()
    })
}

/// How often `c` occurs in `s`.
pub open spec fn occurrences(s: Seq<HostCommand>, c: HostCommand) -> nat
    decreases s.len(),
{
    if s.len() == 0 {
        0
    } else {
        occurrences(s.drop_last(), c) + if s.last() == c {
            1nat
        } else {
            0nat
        }
    }
}

pub fn rgb(r: u8, g: u8, b: u8) -> (c: Rgba)
    ensures
        c == opaque_rgb(r, g, b),
{
    Rgba { r, g, b, a: 255 }
}

fn blend_channel(top: u8, bottom: u8, i: u32) -> (r: u8)
    requires
        i < GRADIENT_BANDS,
    ensures
        r == blend(top, bottom, i),
{
    let t = top as u32;
    let u = bottom as u32;
    let k = GRADIENT_BANDS - i;
    assert(t * k <= 255 * 8 && u * i <= 255 * 8 && t * k + u * i <= 255 * 8) by (nonlinear_arith)
        requires
            t <= 255,
            u <= 255,
            k + i == 8,
    ;
    let v: u32 = t * k + u * i;
    (v / GRADIENT_BANDS) as u8
}

/// The color of band `i` of the title bar's gradient, top to bottom.
pub fn gradient_band(i: u32) -> (c: Rgba)
    requires
        i < GRADIENT_BANDS,
    ensures
        c.r == blend(title_top().r, title_bottom().r, i),
        c.g == blend(title_top().g, title_bottom().g, i),
        c.b == blend(title_top().b, title_bottom().b, i),
        c.a == 255,
{
    let top = rgb(225, 234, 254);
    let bottom = rgb(196, 213, 242);
    Rgba {
        r: blend_channel(top.r, bottom.r, i),
        g: blend_channel(top.g, bottom.g, i),
        b: blend_channel(top.b, bottom.b, i),
        a: 255,
    }
}

/// The chrome's state machine for one frame. Nothing carries over between
/// frames: each frame's decisions follow from that frame's input alone.
pub fn chrome_frame(input: ChromeInput) -> (f: ChromeFrame)
    ensures
        f.icon == (if input.icon_loaded {
            IconDraw::Texture
        } else {
            IconDraw::Square
        }),
        (f.close_fill, f.close_glyph) == close_colors(input.close_hovered),
        f.commands@ == frame_commands(input),
{
    let icon = if input.icon_loaded {
        IconDraw::Texture
    } else {
        IconDraw::Square
    };
    let (close_fill, close_glyph) = if input.close_hovered {
        (rgb(232, 17, 35), rgb(255, 255, 255))
    } else {
        (Rgba { r: 0, g: 0, b: 0, a: 0 }, rgb(0, 0, 0))
    };
    let mut commands: Vec<HostCommand> = Vec::new();
    if input.drag_started {
        commands.push(HostCommand::StartDrag);
    }
    if input.close_clicked {
        commands.push(HostCommand::Close);
    }
    assert(commands@ =~= frame_commands(input));
    ChromeFrame { icon, close_fill, close_glyph, commands }
}

/// The close control shows one of exactly two color pairs, chosen by the
/// hover state of that frame alone: two frames whose hover states differ
/// show different pairs, and two frames whose hover states agree show the
/// same one. A frame in which the control is clicked asks the host to close
/// exactly once; any other frame never asks it to close.
pub proof fn lemma_close_control(a: ChromeInput, b: ChromeInput)
    ensures
        close_colors(a.close_hovered) == (alert_red(), white()) || close_colors(a.close_hovered)
            == (transparent(), black()),
        (a.close_hovered != b.close_hovered) ==> close_colors(a.close_hovered) != close_colors(
            b.close_hovered,
        ),
        (a.close_hovered == b.close_hovered) ==> close_colors(a.close_hovered) == close_colors(
            b.close_hovered,
        ),
        occurrences(frame_commands(a), HostCommand::Close) == (if a.close_clicked {
            1nat
        } else {
            0nat
        }),
{
    let cmds = frame_commands(a);
    reveal_with_fuel(occurrences, 3);
    if a.drag_started {
        if a.close_clicked {
            assert(cmds =~= seq![HostCommand::StartDrag, HostCommand::Close]);
            assert(cmds.drop_last() =~= seq![HostCommand::StartDrag]);
            assert(cmds.drop_last().drop_last() =~= Seq::<HostCommand>::empty());
        } else {
            assert(cmds =~= seq![HostCommand::StartDrag]);
            assert(cmds.drop_last() =~= Seq::<HostCommand>::empty());
        }
    } else {
        if a.close_clicked {
            assert(cmds =~= seq![HostCommand::Close]);
            assert(cmds.drop_last() =~= Seq::<HostCommand>::empty());
        } else {
            assert(cmds =~= Seq::<HostCommand>::empty());
        }
    }
}

} // verus!
