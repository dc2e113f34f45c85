//! Where the overlay window goes: its outer size, the screen corner it is
//! pinned to and its distance from that corner.
use vstd::prelude::*;
use crate::config::{FeaturesConfig, StorageConfig, WindowConfig};
use vstd::string::*;
use crate::text::text_equals;

verus! {

/// The room left around the widget on every side for its glow.
pub const GLOW_MARGIN: i32 = 20;

/// The screen corner the overlay is pinned to.
#[derive(Debug, Clone, Copy, PartialEq, Eq, Structural)]
pub enum Anchor {
    TopLeft,
    TopRight,
    BottomLeft,
    BottomRight,
}

/// The corner named by an anchor setting; anything unrecognised is the
/// top-left corner.
pub open spec fn anchor_named(name: Seq<char>) -> Anchor {
    if name == "top-right"@ {
        Anchor::TopRight
    } else if name == "bottom-left"@ {
        Anchor::BottomLeft
    } else if name == "bottom-right"@ {
        Anchor::BottomRight
    } else {
        Anchor::TopLeft
    }
}

impl Anchor {
    /// The corner named by an anchor setting (`"top-right"`, `"bottom-left"`,
    /// `"bottom-right"`; anything else is top-left).
    pub fn from_name(name: &str) -> (a: Anchor)
        ensures
            a == anchor_named(name@),
    {
        if text_equals(name, "top-right") {
            Anchor::TopRight
        } else if text_equals(name, "bottom-left") {
            Anchor::BottomLeft
        } else if text_equals(name, "bottom-right") {
            Anchor::BottomRight
        } else {
            Anchor::TopLeft
        }
    }

    /// Whether the top edge is pinned (otherwise the bottom one is).
    pub open spec fn spec_at_top(self) -> bool {
        self is TopLeft || self is TopRight
    }

    /// Whether the left edge is pinned (otherwise the right one is).
    pub open spec fn spec_at_left(self) -> bool {
        self is TopLeft || self is BottomLeft
    }

    /// Whether the top edge is pinned (otherwise the bottom one is).
    pub fn at_top(&self) -> (top: bool)
        ensures
            top == self.spec_at_top(),
    {
        match self {
            Anchor::TopLeft | Anchor::TopRight => true,
            _ => false,
        }
    }

    /// Whether the left edge is pinned (otherwise the right one is).
    pub fn at_left(&self) -> (left: bool)
        ensures
            left == self.spec_at_left(),
    {
        match self {
            Anchor::TopLeft | Anchor::BottomLeft => true,
            _ => false,
        }
    }
}

/// The pinned edges and the margins kept from them.
#[derive(Debug, Clone, Copy)]
pub struct Placement {
    pub anchor: Anchor,
    pub top: bool,
    pub bottom: bool,
    pub left: bool,
    pub right: bool,
    /// The margin from the pinned horizontal edge (top or bottom).
    pub vertical_margin: i32,
    /// The margin from the pinned vertical edge (left or right).
    pub horizontal_margin: i32,
}

/// The margin kept from an edge for a configured offset: the offset less the
/// glow room, never negative.
pub open spec fn edge_margin(offset: int) -> int {
    if offset - 20 > 0 {
        offset - 20
    } else {
        0
    }
}

/// Whether the configured offsets leave room for the glow without leaving
/// the range of `i32`.
pub open spec fn offsets_in_range(window: WindowConfig) -> bool {
    window.x >= i32::MIN + 20 && window.y >= i32::MIN + 20
}

/// Where the window goes for a window configuration.
pub open spec fn placement_for(window: WindowConfig, p: Placement) -> bool {
    let a = anchor_named(window.anchor@);
    &&& p.anchor == a
    &&& p.top == a.spec_at_top()
    &&& p.bottom == !a.spec_at_top()
    &&& p.left == a.spec_at_left()
    &&& p.right == !a.spec_at_left()
    &&& p.vertical_margin == edge_margin(window.y as int)
    &&& p.horizontal_margin == edge_margin(window.x as int)
}

/// Pins the window to the configured corner, `y` (less the glow room, at
/// least 0) from the pinned top or bottom edge and `x` (likewise) from the
/// pinned left or right edge.
pub fn placement(window: &WindowConfig) -> (p: Placement)
    requires
        offsets_in_range(*window),
    ensures
        placement_for(*window, p),
{
    let anchor = Anchor::from_name(window.anchor.as_str());
    let top = anchor.at_top();
    let left = anchor.at_left();
    let dy = window.y - GLOW_MARGIN;
    let dx = window.x - GLOW_MARGIN;
    Placement {
        anchor,
        top,
        bottom: !top,
        left,
        right: !left,
        vertical_margin: if dy > 0 { dy } else { 0 },
        horizontal_margin: if dx > 0 { dx } else { 0 },
    }
}

/// Whether the widget's size plus the glow room on both sides fits in `i32`.
pub open spec fn size_in_range(window: WindowConfig) -> bool {
    window.width <= i32::MAX - 40 && window.height <= i32::MAX - 40
}

/// The outer window size: the widget's size plus the glow room on both sides.
pub fn window_size(window: &WindowConfig) -> (size: (i32, i32))
    requires
        size_in_range(*window),
    ensures
        size.0 == window.width + 2 * GLOW_MARGIN,
        size.1 == window.height + 2 * GLOW_MARGIN,
{
    (window.width + 2 * GLOW_MARGIN, window.height + 2 * GLOW_MARGIN)
}

/// The title of the storage row for a mount point.
pub open spec fn storage_title(path: Seq<char>) -> Seq<char> {
    "STORAGE ("@ + path + ")"@
}

/// The title of the storage row for a mount point: `STORAGE (<path>)`.
pub fn storage_row_title(path: &str) -> (title: String)
    ensures
        title@ == storage_title(path@),
{
    let mut title = "STORAGE (".to_owned();
    title.append(path);
    title.append(")");
    title
}

/// The titles of the dashboard's storage rows, one per configured mount
/// point in configuration order, or none when storage monitoring is off.
pub fn storage_row_titles(features: &FeaturesConfig, storage: &StorageConfig) -> (titles: Vec<
    String,
>)
    ensures
        features.enable_storage ==> titles@.len() == storage.paths@.len() && forall|i: int|
            0 <= i < titles@.len() ==> #[trigger] titles@[i]@ == storage_title(
                storage.paths@[i]@,
            ),
        !features.enable_storage ==> titles@.len() == 0,
{
    let mut titles: Vec<String> = Vec::new();
    if features.enable_storage {
        let n = storage.paths.len();
        for i in 0..n
            invariant
                n == storage.paths.len(),
                titles@.len() == i,
                forall|k: int|
                    0 <= k < i ==> #[trigger] titles@[k]@ == storage_title(storage.paths@[k]@),
        {
            titles.push(storage_row_title(storage.paths[i].as_str()));
        }
    }
    titles
}

/// Exactly one of the top and bottom edges, and exactly one of the left and
/// right edges, is pinned, whatever the anchor setting says.
pub proof fn placement_pins_one_corner(window: WindowConfig, p: Placement)
    requires
        placement_for(window, p),
    ensures
        p.top != p.bottom,
        p.left != p.right,
        p.vertical_margin >= 0,
        p.horizontal_margin >= 0,
{
}

/// The anchor setting decides the pinned corner: `top-left` (and any name
/// that is not one of the other three corners) pins the top and left edges,
/// `top-right` the top and right, `bottom-left` the bottom and left, and
/// `bottom-right` the bottom and right.
pub proof fn placement_follows_anchor_name(window: WindowConfig, p: Placement)
    requires
        placement_for(window, p),
    ensures
        window.anchor@ == "top-left"@ ==> p.top && !p.bottom && p.left && !p.right,
        window.anchor@ == "top-right"@ ==> p.top && !p.bottom && p.right && !p.left,
        window.anchor@ == "bottom-left"@ ==> p.bottom && !p.top && p.left && !p.right,
        window.anchor@ == "bottom-right"@ ==> p.bottom && !p.top && p.right && !p.left,
        (window.anchor@ != "top-right"@ && window.anchor@ != "bottom-left"@ && window.anchor@
            != "bottom-right"@) ==> p.top && !p.bottom && p.left && !p.right,
{
    reveal_strlit("top-left");
    reveal_strlit("top-right");
    reveal_strlit("bottom-left");
    reveal_strlit("bottom-right");
    assert("top-left"@.len() != "top-right"@.len());
    assert("top-left"@.len() != "bottom-left"@.len());
    assert("top-left"@.len() != "bottom-right"@.len());
    assert("top-right"@.len() != "bottom-left"@.len());
    assert("top-right"@.len() != "bottom-right"@.len());
    assert("bottom-left"@.len() != "bottom-right"@.len());
}

/// An anchor setting that names no corner places the window exactly as
/// `"top-left"` does.
pub proof fn unknown_anchor_is_top_left(name: Seq<char>)
    requires
        name != "top-right"@,
        name != "bottom-left"@,
        name != "bottom-right"@,
    ensures
        anchor_named(name) == anchor_named("top-left"@),
{
    reveal_strlit("top-left");
    reveal_strlit("top-right");
    reveal_strlit("bottom-left");
    reveal_strlit("bottom-right");
    assert("top-left"@.len() != "top-right"@.len());
    assert("top-left"@.len() != "bottom-left"@.len());
    assert("top-left"@.len() != "bottom-right"@.len());
}

/// Offsets within the glow room put the window flush against its corner, and
/// larger offsets move it by exactly the excess.
pub proof fn margin_absorbs_glow(offset: int)
    ensures
        offset <= 20 ==> edge_margin(offset) == 0,
        offset > 20 ==> edge_margin(offset) == offset - 20,
{
}

} // verus!
