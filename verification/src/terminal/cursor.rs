//! The mouse cursor over a terminal surface.
use vstd::prelude::*;

verus! {

/// A cursor shape that a terminal asks for.
#[derive(Clone, Copy, Debug, PartialEq, Eq, Structural)]
pub enum MouseShape {
    Default,
    ContextMenu,
    Help,
    Pointer,
    Progress,
    Wait,
    Cell,
    Crosshair,
    Text,
    VerticalText,
    Alias,
    Copy,
    Move,
    NoDrop,
    NotAllowed,
    Grab,
    Grabbing,
    AllScroll,
    ColResize,
    RowResize,
    NResize,
    EResize,
    SResize,
    WResize,
    NeResize,
    NwResize,
    SeResize,
    SwResize,
    EwResize,
    NsResize,
    NeswResize,
    NwseResize,
    ZoomIn,
    ZoomOut,
    /// A shape that this host does not know, by its number.
    Unknown(i32),
}

/// Whether a terminal asks for the cursor to be seen.
#[derive(Clone, Copy, Debug, PartialEq, Eq, Structural)]
pub enum MouseVisibility {
    Visible,
    Hidden,
    /// A request that this host does not know, by its number.
    Unknown(i32),
}

/// The toolkit's name of a cursor shape. An unknown shape is the default one.
pub open spec fn shape_name(shape: MouseShape) -> Seq<char> {
    match shape {
        MouseShape::Default => "default"@,
        MouseShape::ContextMenu => "context-menu"@,
        MouseShape::Help => "help"@,
        MouseShape::Pointer => "pointer"@,
        MouseShape::Progress => "progress"@,
        MouseShape::Wait => "wait"@,
        MouseShape::Cell => "cell"@,
        MouseShape::Crosshair => "crosshair"@,
        MouseShape::Text => "text"@,
        MouseShape::VerticalText => "vertical-text"@,
        MouseShape::Alias => "alias"@,
        MouseShape::Copy => "copy"@,
        MouseShape::Move => "move"@,
        MouseShape::NoDrop => "no-drop"@,
        MouseShape::NotAllowed => "not-allowed"@,
        MouseShape::Grab => "grab"@,
        MouseShape::Grabbing => "grabbing"@,
        MouseShape::AllScroll => "all-scroll"@,
        MouseShape::ColResize => "col-resize"@,
        MouseShape::RowResize => "row-resize"@,
        MouseShape::NResize => "n-resize"@,
        MouseShape::EResize => "e-resize"@,
        MouseShape::SResize => "s-resize"@,
        MouseShape::WResize => "w-resize"@,
        MouseShape::NeResize => "ne-resize"@,
        MouseShape::NwResize => "nw-resize"@,
        MouseShape::SeResize => "se-resize"@,
        MouseShape::SwResize => "sw-resize"@,
        MouseShape::EwResize => "ew-resize"@,
        MouseShape::NsResize => "ns-resize"@,
        MouseShape::NeswResize => "nesw-resize"@,
        MouseShape::NwseResize => "nwse-resize"@,
        MouseShape::ZoomIn => "zoom-in"@,
        MouseShape::ZoomOut => "zoom-out"@,
        MouseShape::Unknown(_) => "default"@,
    }
}

pub fn gtk_cursor_name_for_ghostty_shape(shape: MouseShape) -> (r: &'static str)
    ensures
        r@ == shape_name(shape),
{
    match shape {
        MouseShape::Default => "default",
        MouseShape::ContextMenu => "context-menu",
        MouseShape::Help => "help",
        MouseShape::Pointer => "pointer",
        MouseShape::Progress => "progress",
        MouseShape::Wait => "wait",
        MouseShape::Cell => "cell",
        MouseShape::Crosshair => "crosshair",
        MouseShape::Text => "text",
        MouseShape::VerticalText => "vertical-text",
        MouseShape::Alias => "alias",
        MouseShape::Copy => "copy",
        MouseShape::Move => "move",
        MouseShape::NoDrop => "no-drop",
        MouseShape::NotAllowed => "not-allowed",
        MouseShape::Grab => "grab",
        MouseShape::Grabbing => "grabbing",
        MouseShape::AllScroll => "all-scroll",
        MouseShape::ColResize => "col-resize",
        MouseShape::RowResize => "row-resize",
        MouseShape::NResize => "n-resize",
        MouseShape::EResize => "e-resize",
        MouseShape::SResize => "s-resize",
        MouseShape::WResize => "w-resize",
        MouseShape::NeResize => "ne-resize",
        MouseShape::NwResize => "nw-resize",
        MouseShape::SeResize => "se-resize",
        MouseShape::SwResize => "sw-resize",
        MouseShape::EwResize => "ew-resize",
        MouseShape::NsResize => "ns-resize",
        MouseShape::NeswResize => "nesw-resize",
        MouseShape::NwseResize => "nwse-resize",
        MouseShape::ZoomIn => "zoom-in",
        MouseShape::ZoomOut => "zoom-out",
        MouseShape::Unknown(_) => "default",
    }
}

/// The cursor of a surface: the shape last asked for, and whether it is shown.
#[derive(Clone, Copy, Debug, PartialEq, Eq, Structural)]
pub struct MouseCursorState {
    pub shape: MouseShape,
    pub visible: bool,
}

impl Default for MouseCursorState {
    fn default() -> (r: Self)
        ensures
            r == (MouseCursorState { shape: MouseShape::Text, visible: true }),
    {
        MouseCursorState { shape: MouseShape::Text, visible: true }
    }
}

/// A change of the cursor that a terminal asks for.
#[derive(Clone, Copy, Debug, PartialEq, Eq, Structural)]
pub enum MouseCursorUpdate {
    Shape(MouseShape),
    Visibility(MouseVisibility),
}

impl MouseCursorState {
    /// The cursor after an update. Only an explicit request hides it.
    pub open spec fn updated(self, update: MouseCursorUpdate) -> MouseCursorState {
        match update {
            MouseCursorUpdate::Shape(shape) => MouseCursorState { shape, ..self },
            MouseCursorUpdate::Visibility(visibility) => MouseCursorState {
                visible: visibility != MouseVisibility::Hidden,
                ..self
            },
        }
    }

    /// The toolkit's name of the cursor.
    pub open spec fn cursor_name(self) -> Seq<char> {
        if self.visible {
            shape_name(self.shape)
        } else {
            "none"@
        }
    }

    pub fn update_shape(self, shape: MouseShape) -> (r: Self)
        ensures
            r == self.updated(MouseCursorUpdate::Shape(shape)),
    {
        MouseCursorState { shape, visible: self.visible }
    }

    pub fn update_visibility(self, visibility: MouseVisibility) -> (r: Self)
        ensures
            r == self.updated(MouseCursorUpdate::Visibility(visibility)),
    {
        let visible = match visibility {
            MouseVisibility::Hidden => false,
            _ => true,
        };
        MouseCursorState { shape: self.shape, visible }
    }

    /// The cursor after an update.
    pub fn update(self, update: MouseCursorUpdate) -> (r: Self)
        ensures
            r == self.updated(update),
    {
        match update {
            MouseCursorUpdate::Shape(shape) => self.update_shape(shape),
            MouseCursorUpdate::Visibility(visibility) => self.update_visibility(visibility),
        }
    }

    pub fn gtk_cursor_name(self) -> (r: &'static str)
        ensures
            r@ == self.cursor_name(),
    {
        if self.visible {
            gtk_cursor_name_for_ghostty_shape(self.shape)
        } else {
            "none"
        }
    }
}

/// A hidden cursor comes back in the shape that was asked for last, even if that
/// was while it was hidden.
pub proof fn lemma_cursor_comes_back_in_latest_shape(
    state: MouseCursorState,
    shape: MouseShape,
    visibility: MouseVisibility,
)
    requires
        visibility != MouseVisibility::Hidden,
    ensures
        state.updated(MouseCursorUpdate::Visibility(MouseVisibility::Hidden)).updated(
            MouseCursorUpdate::Shape(shape),
        ).updated(MouseCursorUpdate::Visibility(visibility)).cursor_name() == shape_name(shape),
{
}

/// The shapes for dragging a corner are named after the two sides that meet there,
/// and those for dragging both ways after the two ends, so that no side has another
/// side's name.
pub proof fn lemma_resize_shapes_are_named_after_sides()
    ensures
        ({
            let n = shape_name(MouseShape::NResize);
            let e = shape_name(MouseShape::EResize);
            let s = shape_name(MouseShape::SResize);
            let w = shape_name(MouseShape::WResize);
            &&& n[0] == 'n' && e[0] == 'e' && s[0] == 's' && w[0] == 'w'
            &&& n.skip(1) == s.skip(1) && e.skip(1) == w.skip(1) && n.skip(1) == e.skip(1)
            &&& shape_name(MouseShape::NeResize) == n.take(1) + e
            &&& shape_name(MouseShape::NwResize) == n.take(1) + w
            &&& shape_name(MouseShape::SeResize) == s.take(1) + e
            &&& shape_name(MouseShape::SwResize) == s.take(1) + w
            &&& shape_name(MouseShape::EwResize) == e.take(1) + w
            &&& shape_name(MouseShape::NsResize) == n.take(1) + s
            &&& shape_name(MouseShape::NeswResize) == n.take(1) + e.take(1) + s.take(1) + w
            &&& shape_name(MouseShape::NwseResize) == n.take(1) + w.take(1) + s.take(1) + e
        }),
{
    reveal_strlit("n-resize");
    reveal_strlit("e-resize");
    reveal_strlit("s-resize");
    reveal_strlit("w-resize");
    reveal_strlit("ne-resize");
    reveal_strlit("nw-resize");
    reveal_strlit("se-resize");
    reveal_strlit("sw-resize");
    reveal_strlit("ew-resize");
    reveal_strlit("ns-resize");
    reveal_strlit("nesw-resize");
    reveal_strlit("nwse-resize");
    let n = shape_name(MouseShape::NResize);
    let e = shape_name(MouseShape::EResize);
    let s = shape_name(MouseShape::SResize);
    let w = shape_name(MouseShape::WResize);
    assert(n.skip(1) =~= s.skip(1));
    assert(e.skip(1) =~= w.skip(1));
    assert(n.skip(1) =~= e.skip(1));
    assert(shape_name(MouseShape::NeResize) =~= n.take(1) + e);
    assert(shape_name(MouseShape::NwResize) =~= n.take(1) + w);
    assert(shape_name(MouseShape::SeResize) =~= s.take(1) + e);
    assert(shape_name(MouseShape::SwResize) =~= s.take(1) + w);
    assert(shape_name(MouseShape::EwResize) =~= e.take(1) + w);
    assert(shape_name(MouseShape::NsResize) =~= n.take(1) + s);
    assert(shape_name(MouseShape::NeswResize) =~= n.take(1) + e.take(1) + s.take(1) + w);
    assert(shape_name(MouseShape::NwseResize) =~= n.take(1) + w.take(1) + s.take(1) + e);
}

/// A shape changes nothing but the shape, hiding and showing nothing but whether the
/// cursor shows. One that is hidden has no shape to show, one that shows has its own.
pub proof fn lemma_cursor_parts_are_separate(
    state: MouseCursorState,
    shape: MouseShape,
    visibility: MouseVisibility,
)
    ensures
        ({
            let shaped = state.updated(MouseCursorUpdate::Shape(shape));
            let shown = state.updated(MouseCursorUpdate::Visibility(visibility));
            &&& shaped.shape == shape
            &&& shaped.visible == state.visible
            &&& shown.shape == state.shape
            &&& shown.visible <==> visibility != MouseVisibility::Hidden
            &&& state.visible ==> state.cursor_name() == shape_name(state.shape)
            &&& !state.visible ==> state.cursor_name() == "none"@
            &&& !state.visible ==> shaped.cursor_name() == state.cursor_name()
        }),
{
}

} // verus!
