//! How input reaches the renderer's own terminal.
use crate::input::windows::ClientMouseKind;
use crate::renderer::model::{
    self, EventKind, LocalMouse, RoutedEvent, SurfaceSize, clamp_pixel_to_cell, is_wheel,
};
use vstd::prelude::*;

verus! {

/// How a mouse event is encoded for a terminal.
#[derive(Debug, Clone, Copy, PartialEq, Eq, Structural)]
pub enum MouseEncoding {
    Motion,
    Button,
    /// Not at all; wheels have their own way.
    Nothing,
}

/// How a mouse event is encoded for a terminal.
pub fn encode_local_mouse(kind: ClientMouseKind) -> (encoding: MouseEncoding)
    ensures
        encoding == (match kind {
            ClientMouseKind::Moved => MouseEncoding::Motion,
            ClientMouseKind::Down(_)
            | ClientMouseKind::Up(_)
            | ClientMouseKind::Drag(_) => MouseEncoding::Button,
            _ => MouseEncoding::Nothing,
        }),
{
    match kind {
        ClientMouseKind::Moved => MouseEncoding::Motion,
        ClientMouseKind::Down(_)
        | ClientMouseKind::Up(_)
        | ClientMouseKind::Drag(_) => MouseEncoding::Button,
        _ => MouseEncoding::Nothing,
    }
}

/// What to do with an event for the renderer's terminal.
#[derive(Debug, Clone, Copy, PartialEq, Eq, Structural)]
pub enum ForwardPlan {
    /// Encode the key and send it.
    Key,
    /// Send the text.
    Text,
    /// Send it as a paste.
    Paste,
    /// Report the focus.
    Focus { gained: bool },
    Wheel,
    /// Encode the mouse event and send it.
    Mouse(MouseEncoding),
    /// There is nothing to send; that counts as sent.
    Nothing,
}

/// What to do with an event.
pub open spec fn plan_for(event: RoutedEvent) -> ForwardPlan {
    match event.kind {
        EventKind::Key { .. } => ForwardPlan::Key,
        EventKind::Text => ForwardPlan::Text,
        EventKind::Paste => ForwardPlan::Paste,
        EventKind::FocusGained => ForwardPlan::Focus { gained: true },
        EventKind::FocusLost => ForwardPlan::Focus { gained: false },
        EventKind::Mouse { kind, .. } => mouse_plan(kind),
        EventKind::Other => ForwardPlan::Nothing,
    }
}

/// What to do with a mouse event.
pub open spec fn mouse_plan(kind: ClientMouseKind) -> ForwardPlan {
    if model::wheel(kind) {
        ForwardPlan::Wheel
    } else {
        ForwardPlan::Mouse(
            match kind {
                ClientMouseKind::Moved => MouseEncoding::Motion,
                ClientMouseKind::Down(_)
                | ClientMouseKind::Up(_)
                | ClientMouseKind::Drag(_) => MouseEncoding::Button,
                _ => MouseEncoding::Nothing,
            },
        )
    }
}

/// What to do with a mouse report in pixels.
pub fn forward_local_pixel_mouse(kind: ClientMouseKind) -> (plan: ForwardPlan)
    ensures
        plan == mouse_plan(kind),
{
    if is_wheel(kind) {
        ForwardPlan::Wheel
    } else {
        ForwardPlan::Mouse(encode_local_mouse(kind))
    }
}

/// What to do with an event, and whether the view returns to its end first: typing does
/// that, and text.
pub fn forward_local_event(event: RoutedEvent) -> (plan: (ForwardPlan, bool))
    ensures
        plan.0 == plan_for(event),
        plan.1 == ((event.key() && !event.released()) || event.kind is Text),
        plan.0 is Nothing <==> event.kind is Other,
        plan.0 is Key <==> event.kind is Key,
        plan.0 is Text <==> event.kind is Text,
        plan.0 is Paste <==> event.kind is Paste,
        plan.0 is Wheel || plan.0 is Mouse <==> event.kind is Mouse,
        plan.0 == (ForwardPlan::Focus { gained: true }) <==> event.kind is FocusGained,
        plan.0 == (ForwardPlan::Focus { gained: false }) <==> event.kind is FocusLost,
{
    match event.kind {
        EventKind::Key { .. } => (ForwardPlan::Key, !event.is_released()),
        EventKind::Text => (ForwardPlan::Text, true),
        EventKind::Paste => (ForwardPlan::Paste, false),
        EventKind::FocusGained => (ForwardPlan::Focus { gained: true }, false),
        EventKind::FocusLost => (ForwardPlan::Focus { gained: false }, false),
        EventKind::Mouse { kind, .. } => (forward_local_pixel_mouse(kind), false),
        EventKind::Other => (ForwardPlan::Nothing, false),
    }
}

/// Whether encoded input counts as sent: where there is nothing to send, it does.
pub fn counts_as_sent(encoded: Option<usize>, sent: bool) -> (counts: bool)
    ensures
        counts == (match encoded {
            Some(len) => len == 0 || sent,
            None => true,
        }),
{
    match encoded {
        Some(len) => len == 0 || sent,
        None => true,
    }
}

/// Whether a focus report counts as sent: where the terminal wants none, it does.
pub fn forward_local_focus_event(wanted: bool, encoded: bool, sent: bool) -> (counts: bool)
    ensures
        counts == (!wanted || (encoded && sent)),
{
    !wanted || (encoded && sent)
}

/// Where the wheel goes in a terminal.
#[derive(Debug, Clone, Copy, PartialEq, Eq, Structural)]
pub enum WheelRouting {
    /// To the program, as a mouse report.
    MouseReport,
    /// To the program, as keys.
    AlternateScroll,
    /// To the view.
    HostScroll,
}

/// What is to be done for the wheel.
#[derive(Debug, Clone, Copy, PartialEq, Eq, Structural)]
pub enum WheelAsk {
    /// Encode a mouse report; whether there is one.
    EncodeReport,
    /// Return the view to its end, and encode keys; whether there are any.
    ResetAndEncodeKeys,
    /// Send the mouse report; whether it went out.
    SendReport,
    /// Send the keys; whether they went out.
    SendKeys,
    /// Return the view to its end.
    Reset,
    ScrollUp { lines: usize },
    ScrollDown { lines: usize },
    /// It is done.
    Done { sent: bool },
}

/// The view moves by lines, at least one.
pub open spec fn scrolled(kind: ClientMouseKind, lines: usize) -> WheelAsk {
    let lines = if lines == 0 {
        1
    } else {
        lines
    };
    match kind {
        ClientMouseKind::ScrollUp => WheelAsk::ScrollUp { lines },
        ClientMouseKind::ScrollDown => WheelAsk::ScrollDown { lines },
        _ => WheelAsk::Done { sent: false },
    }
}

/// The view moves by lines, at least one.
pub fn scroll_local_wheel(kind: ClientMouseKind, lines: usize) -> (ask: WheelAsk)
    ensures
        ask == scrolled(kind, lines),
{
    let lines: usize = if lines == 0 {
        1
    } else {
        lines
    };
    match kind {
        ClientMouseKind::ScrollUp => WheelAsk::ScrollUp { lines },
        ClientMouseKind::ScrollDown => WheelAsk::ScrollDown { lines },
        _ => WheelAsk::Done { sent: false },
    }
}

/// What is to be done first for the wheel.
pub fn forward_local_wheel(
    routing: Option<WheelRouting>,
    kind: ClientMouseKind,
    lines: usize,
) -> (ask: WheelAsk)
    ensures
        ask == (match routing {
            Some(WheelRouting::MouseReport) => WheelAsk::EncodeReport,
            Some(WheelRouting::AlternateScroll) => WheelAsk::ResetAndEncodeKeys,
            _ => scrolled(kind, lines),
        }),
{
    match routing {
        Some(WheelRouting::MouseReport) => WheelAsk::EncodeReport,
        Some(WheelRouting::AlternateScroll) => WheelAsk::ResetAndEncodeKeys,
        _ => scroll_local_wheel(kind, lines),
    }
}

/// What follows: a report that cannot be made or sent moves the view instead; keys that
/// are not wanted count as sent.
pub open spec fn wheel_after(
    asked: WheelAsk,
    yes: bool,
    kind: ClientMouseKind,
    lines: usize,
) -> WheelAsk {
    match asked {
        WheelAsk::EncodeReport => if yes {
            WheelAsk::SendReport
        } else {
            scrolled(kind, lines)
        },
        WheelAsk::SendReport => if yes {
            WheelAsk::Reset
        } else {
            scrolled(kind, lines)
        },
        WheelAsk::ResetAndEncodeKeys => if yes {
            WheelAsk::SendKeys
        } else {
            WheelAsk::Done { sent: true }
        },
        WheelAsk::SendKeys => WheelAsk::Done { sent: yes },
        WheelAsk::Reset
        | WheelAsk::ScrollUp { .. }
        | WheelAsk::ScrollDown { .. } => WheelAsk::Done { sent: true },
        WheelAsk::Done { sent } => WheelAsk::Done { sent },
    }
}

/// What is to be done next for the wheel, given what came of the last thing.
pub fn wheel_next(asked: WheelAsk, yes: bool, kind: ClientMouseKind, lines: usize) -> (ask: WheelAsk)
    ensures
        ask == wheel_after(asked, yes, kind, lines),
{
    match asked {
        WheelAsk::EncodeReport => {
            if yes {
                WheelAsk::SendReport
            } else {
                scroll_local_wheel(kind, lines)
            }
        },
        WheelAsk::SendReport => {
            if yes {
                WheelAsk::Reset
            } else {
                scroll_local_wheel(kind, lines)
            }
        },
        WheelAsk::ResetAndEncodeKeys => {
            if yes {
                WheelAsk::SendKeys
            } else {
                WheelAsk::Done { sent: true }
            }
        },
        WheelAsk::SendKeys => WheelAsk::Done { sent: yes },
        WheelAsk::Reset
        | WheelAsk::ScrollUp { .. }
        | WheelAsk::ScrollDown { .. } => WheelAsk::Done { sent: true },
        WheelAsk::Done { sent } => WheelAsk::Done { sent },
    }
}

/// The size of a surface in pixels; nothing where it is too large.
pub fn surface_pixels(size: SurfaceSize) -> (pixels: Option<(u32, u32)>)
    ensures
        pixels == (if size.columns * size.cell_width <= u32::MAX && size.rows * size.cell_height
            <= u32::MAX {
            Some(
                (
                    (size.columns * size.cell_width) as u32,
                    (size.rows * size.cell_height) as u32,
                ),
            )
        } else {
            None::<(u32, u32)>
        }),
{
    assert(0 <= size.columns * size.cell_width <= 0xffff * 0xffff_ffff) by (nonlinear_arith)
        requires
            0 <= size.columns <= 0xffff,
            0 <= size.cell_width <= 0xffff_ffff,
    ;
    assert(0 <= size.rows * size.cell_height <= 0xffff * 0xffff_ffff) by (nonlinear_arith)
        requires
            0 <= size.rows <= 0xffff,
            0 <= size.cell_height <= 0xffff_ffff,
    ;
    let width: u64 = size.columns as u64 * size.cell_width as u64;
    let height: u64 = size.rows as u64 * size.cell_height as u64;
    if width > 0xffff_ffff || height > 0xffff_ffff {
        None
    } else {
        Some((width as u32, height as u32))
    }
}

/// A coordinate moved into its cell.
pub open spec fn into_cell(pixel: u32, cell: u16, extent: u32) -> Option<u32> {
    let start = cell * extent + 1;
    let end = (cell + 1) * extent;
    if start > u32::MAX || end > u32::MAX {
        None
    } else if pixel < start {
        Some(start as u32)
    } else if pixel > end {
        Some(end as u32)
    } else {
        Some(pixel)
    }
}

/// The position of a pointer in the renderer's own surface: where it falls by its share of
/// the surface, moved into the cell that it points at. `position` and `cell` are those two;
/// cells must have an extent.
pub fn local_pixel_position(
    position: Option<(u32, u32)>,
    cell: Option<(u16, u16)>,
    size: SurfaceSize,
) -> (moved: Option<(u32, u32)>)
    requires
        size.cell_width > 0,
        size.cell_height > 0,
    ensures
        moved == (match (position, cell) {
            (Some((x, y)), Some((column, row))) => match (
                into_cell(x, column, size.cell_width),
                into_cell(y, row, size.cell_height),
            ) {
                (Some(x), Some(y)) => Some((x, y)),
                _ => None,
            },
            _ => None,
        }),
{
    match (position, cell) {
        (Some((x, y)), Some((column, row))) => {
            let x = clamp_pixel_to_cell(x, column, size.cell_width);
            let y = clamp_pixel_to_cell(y, row, size.cell_height);
            match (x, y) {
                (Some(x), Some(y)) => Some((x, y)),
                _ => None,
            }
        },
        _ => None,
    }
}

/// A pixel report as the renderer's terminal sees it: only where all of it is known.
pub fn decode_local_pixel_mouse(
    reported: bool,
    kind: Option<ClientMouseKind>,
    position: Option<(u32, u32)>,
    cell: Option<(u16, u16)>,
) -> (mouse: Option<LocalMouse>)
    ensures
        mouse == (match (kind, cell) {
            (Some(kind), Some((column, row))) => if reported && position is Some {
                Some(LocalMouse { kind, column, row })
            } else {
                None
            },
            _ => None,
        }),
{
    if !reported || position.is_none() {
        return None;
    }
    match (kind, cell) {
        (Some(kind), Some((column, row))) => Some(LocalMouse { kind, column, row }),
        _ => None,
    }
}

/// A moved pointer is inside the cell that it points at.
pub proof fn law_pointer_stays_in_its_cell(pixel: u32, cell: u16, extent: u32)
    requires
        extent > 0,
        into_cell(pixel, cell, extent) is Some,
    ensures
        cell * extent < into_cell(pixel, cell, extent)->0 <= (cell + 1) * extent,
{
    assert((cell + 1) * extent == cell * extent + extent) by (nonlinear_arith);
}

/// A wheel is never lost without a trace: whatever the program does not take moves the view.
pub proof fn law_unsent_wheel_moves_the_view(kind: ClientMouseKind, lines: usize)
    requires
        model::wheel(kind),
    ensures
        wheel_after(WheelAsk::EncodeReport, false, kind, lines) == scrolled(kind, lines),
        wheel_after(WheelAsk::SendReport, false, kind, lines) == scrolled(kind, lines),
        scrolled(kind, lines) is ScrollUp || scrolled(kind, lines) is ScrollDown,
{
}

/// Every event of the user reaches the renderer's terminal in its own form: a key as a key,
/// text as text, a paste as a paste, the focus and the mouse as what they are. Only what is
/// no input at all is left out.
pub proof fn law_every_event_is_forwarded_as_itself(event: RoutedEvent)
    ensures
        plan_for(event) is Nothing <==> event.kind is Other,
        plan_for(event) is Key <==> event.kind is Key,
        plan_for(event) is Text <==> event.kind is Text,
        plan_for(event) is Paste <==> event.kind is Paste,
        plan_for(event) is Focus <==> event.kind is FocusGained || event.kind is FocusLost,
        plan_for(event) matches ForwardPlan::Focus { gained } ==> (gained <==> event.kind
            is FocusGained),
        plan_for(event) is Wheel || plan_for(event) is Mouse <==> event.kind is Mouse,
{
}

/// A wheel that turns up or down goes the wheel's way; a press, a release and a drag are
/// reported as buttons, a move as motion. A wheel that turns sideways is reported not at all.
pub proof fn law_mouse_events_keep_their_kind(kind: ClientMouseKind)
    ensures
        mouse_plan(kind) is Wheel <==> kind is ScrollUp || kind is ScrollDown,
        mouse_plan(kind) == ForwardPlan::Mouse(MouseEncoding::Button) <==> kind is Down || kind
            is Up || kind is Drag,
        mouse_plan(kind) == ForwardPlan::Mouse(MouseEncoding::Motion) <==> kind is Moved,
        mouse_plan(kind) == ForwardPlan::Mouse(MouseEncoding::Nothing) <==> kind is ScrollLeft
            || kind is ScrollRight,
{
}

/// The view moves the way that the wheel turns, by the lines that are asked for and by one
/// where none are.
pub proof fn law_view_moves_with_the_wheel(kind: ClientMouseKind, lines: usize)
    ensures
        scrolled(kind, lines) is ScrollUp <==> kind is ScrollUp,
        scrolled(kind, lines) is ScrollDown <==> kind is ScrollDown,
        scrolled(kind, lines) matches WheelAsk::ScrollUp { lines: moved } ==> moved >= 1 && (lines
            >= 1 ==> moved == lines) && moved <= lines + 1,
        scrolled(kind, lines) matches WheelAsk::ScrollDown { lines: moved } ==> moved >= 1 && (
        lines >= 1 ==> moved == lines) && moved <= lines + 1,
        scrolled(kind, lines) matches WheelAsk::Done { sent } ==> !sent,
{
}

/// A wheel ends as sent exactly if what was done last was done: a report that went out
/// returns the view to its end first, and keys that did not go out do not count.
pub proof fn law_wheel_ends_with_what_was_sent(
    kind: ClientMouseKind,
    lines: usize,
    yes: bool,
    moved: usize,
)
    ensures
        wheel_after(WheelAsk::EncodeReport, true, kind, lines) is SendReport,
        wheel_after(WheelAsk::SendReport, true, kind, lines) is Reset,
        wheel_after(WheelAsk::ResetAndEncodeKeys, true, kind, lines) is SendKeys,
        wheel_after(WheelAsk::ResetAndEncodeKeys, false, kind, lines) == (WheelAsk::Done {
            sent: true,
        }),
        wheel_after(WheelAsk::SendKeys, yes, kind, lines) == (WheelAsk::Done { sent: yes }),
        wheel_after(WheelAsk::Reset, yes, kind, lines) == (WheelAsk::Done { sent: true }),
        wheel_after(WheelAsk::ScrollUp { lines: moved }, yes, kind, lines) == (WheelAsk::Done {
            sent: true,
        }),
        wheel_after(WheelAsk::ScrollDown { lines: moved }, yes, kind, lines) == (WheelAsk::Done {
            sent: true,
        }),
{
}

/// A pointer that is in its cell already stays where it is, and one that is not moves to the
/// nearest pixel of the cell.
pub proof fn law_pointer_moves_no_more_than_needed(pixel: u32, cell: u16, extent: u32)
    requires
        extent > 0,
        (cell + 1) * extent <= u32::MAX,
    ensures
        into_cell(pixel, cell, extent) is Some,
        cell * extent < pixel <= (cell + 1) * extent ==> into_cell(pixel, cell, extent) == Some(
            pixel,
        ),
        pixel <= cell * extent ==> into_cell(pixel, cell, extent)->0 == cell * extent + 1,
        pixel > (cell + 1) * extent ==> into_cell(pixel, cell, extent)->0 == (cell + 1) * extent,
{
    assert((cell + 1) * extent == cell * extent + extent) by (nonlinear_arith);
    assert(cell * extent >= 0) by (nonlinear_arith);
}

} // verus!
