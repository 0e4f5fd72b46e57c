//! Where every part of the instrument is, in whole points.
//!
//! Archet is three things, a bow on a string, a body the string drives, and a
//! player holding both, and the three tiers are those three. The window does
//! not resize, so every part has a place. `cell` is the width of one knob and
//! its label, the column every row is counted in.

use vstd::prelude::*;

verus! {

/// The size the layout is drawn for.
pub const W: i32 = 1160;

pub const H: i32 = 770;

/// The panel's height inside the case, the chrome above and the keyboard
/// below taken off.
pub const PANEL_H: i32 = 602;

pub const KEYBOARD_H: i32 = 104;

pub const KNOB: i32 = 30;

pub const KNOB_BIG: i32 = 42;

pub const KNOB_SMALL: i32 = 24;

/// The tiers, and the air between them.
pub const BOW_H: i32 = 188;

pub const BODY_H: i32 = 186;

pub const PLAYER_H: i32 = 172;

pub const TIER_GAP: i32 = 10;

pub const MARGIN: i32 = 14;

/// Where the knob column starts, from a tier's left edge: the same on the bow
/// and the body, so the two tiers read as one panel.
pub const KNOB_COLUMN: i32 = 552;

/// The four bodies, stacked down the left of the tier.
pub const RAIL_W: i32 = 128;

pub const RAIL_CELL_H: i32 = 34;

/// The room a knob takes under its top, label included.
pub const KNOB_DROP: i32 = 22;

/// A rectangle.
#[derive(Clone, Copy, Debug, PartialEq, Eq, Structural)]
pub struct Rect {
    pub left: i32,
    pub top: i32,
    pub width: i32,
    pub height: i32,
}

/// A point.
#[derive(Clone, Copy, Debug, PartialEq, Eq, Structural)]
pub struct Spot {
    pub x: i32,
    pub y: i32,
}

/// Whether a coordinate can be held.
pub open spec fn fits(x: int) -> bool {
    i32::MIN <= x <= i32::MAX
}

impl Rect {
    pub open spec fn right_edge(self) -> int {
        self.left + self.width
    }

    pub open spec fn bottom_edge(self) -> int {
        self.top + self.height
    }

    /// Whether `other` lies inside.
    pub open spec fn holds(self, other: Rect) -> bool {
        &&& self.left <= other.left
        &&& self.top <= other.top
        &&& other.right_edge() <= self.right_edge()
        &&& other.bottom_edge() <= self.bottom_edge()
    }

    pub fn right(&self) -> (r: i32)
        requires
            fits(self.right_edge()),
        ensures
            r == self.right_edge(),
    {
        self.left + self.width
    }

    pub fn bottom(&self) -> (r: i32)
        requires
            fits(self.bottom_edge()),
        ensures
            r == self.bottom_edge(),
    {
        self.top + self.height
    }

    /// Whether `other` lies inside.
    pub fn contains_rect(&self, other: Rect) -> (r: bool)
        ensures
            r == self.holds(other),
    {
        let right: i64 = self.left as i64 + self.width as i64;
        let bottom: i64 = self.top as i64 + self.height as i64;
        self.left <= other.left && self.top <= other.top && other.left as i64 + other.width as i64 <= right
            && other.top as i64 + other.height as i64 <= bottom
    }
}

/// How far down the panel a tier starts.
pub open spec fn tier_drop(index: int) -> int {
    if index <= 0 {
        0
    } else if index == 1 {
        BOW_H + TIER_GAP
    } else if index == 2 {
        BOW_H + TIER_GAP + BODY_H + TIER_GAP
    } else {
        BOW_H + TIER_GAP + BODY_H + TIER_GAP + PLAYER_H + TIER_GAP
    }
}

/// How tall a tier is.
pub open spec fn tier_height(index: int) -> int {
    if index <= 0 {
        BOW_H as int
    } else if index == 1 {
        BODY_H as int
    } else {
        PLAYER_H as int
    }
}

/// The band a tier occupies, inside the panel's margin.
pub fn tier(panel: Rect, index: usize) -> (r: Rect)
    requires
        fits(panel.left + MARGIN),
        fits(panel.top + MARGIN + tier_drop(index as int)),
        fits(panel.width - 2 * MARGIN),
    ensures
        r.left == panel.left + MARGIN,
        r.top == panel.top + MARGIN + tier_drop(index as int),
        r.width == panel.width - 2 * MARGIN,
        r.height == tier_height(index as int),
{
    let mut y: i32 = panel.top + MARGIN;
    if index > 0 {
        y = y + BOW_H + TIER_GAP;
    }
    if index > 1 {
        y = y + BODY_H + TIER_GAP;
    }
    if index > 2 {
        y = y + PLAYER_H + TIER_GAP;
    }
    let height: i32 = if index == 0 {
        BOW_H
    } else if index == 1 {
        BODY_H
    } else {
        PLAYER_H
    };
    Rect { left: panel.left + MARGIN, top: y, width: panel.width - MARGIN * 2, height }
}

/// The window the string is drawn in, from the nut at the left to the bridge
/// at the right.
pub fn string_window(band: Rect) -> (r: Rect)
    requires
        fits(band.top + 16),
    ensures
        r == string_window_of(band),
{
    Rect { left: band.left, top: band.top + 16, width: 520, height: BOW_H - 34 }
}

pub open spec fn string_window_of(band: Rect) -> Rect {
    Rect { left: band.left, top: (band.top + 16) as i32, width: 520, height: (BOW_H - 34) as i32 }
}

/// A rectangle drawn in by `by` on every side.
pub open spec fn shrunk(r: Rect, by: int) -> Rect {
    Rect {
        left: (r.left + by) as i32,
        top: (r.top + by) as i32,
        width: (r.width - 2 * by) as i32,
        height: (r.height - 2 * by) as i32,
    }
}

/// A rectangle drawn in by `by` on every side.
fn shrink(r: Rect, by: i32) -> (s: Rect)
    requires
        0 <= by <= 100,
        fits(r.left + by),
        fits(r.top + by),
        fits(r.width - 2 * by),
        fits(r.height - 2 * by),
    ensures
        s == shrunk(r, by as int),
{
    Rect { left: r.left + by, top: r.top + by, width: r.width - 2 * by, height: r.height - 2 * by }
}

/// The field of the string's window.
pub fn string_field(band: Rect) -> (r: Rect)
    requires
        fits(band.left + 12),
        fits(band.top + 16 + 12),
    ensures
        r == shrunk(string_window_of(band), 12),
{
    shrink(string_window(band), 12)
}

/// The bow's knobs, to the right of the string: two rows.
pub open spec fn bow_knob_at(band: Rect, row: int, i: int, cell: int) -> (int, int) {
    (band.left + KNOB_COLUMN + i * cell, band.top + 22 + row * 76)
}

/// The bow's knobs, to the right of the string: two rows.
pub fn bow_knob(band: Rect, row: u8, i: u8, cell: i32) -> (r: Spot)
    requires
        fits(bow_knob_at(band, row as int, i as int, cell as int).0),
        fits(bow_knob_at(band, row as int, i as int, cell as int).1),
    ensures
        (r.x as int, r.y as int) == bow_knob_at(band, row as int, i as int, cell as int),
{
    proof {
        lemma_column(i as int, cell as int);
    }
    let x: i64 = band.left as i64 + KNOB_COLUMN as i64 + i as i64 * cell as i64;
    Spot { x: x as i32, y: band.top + 22 + row as i32 * 76 }
}

proof fn lemma_column(i: int, cell: int)
    requires
        0 <= i <= 255,
        fits(cell),
    ensures
        255 * i32::MIN <= i * cell <= 255 * i32::MAX,
{
    assert(255 * i32::MIN <= i * cell <= 255 * i32::MAX) by (nonlinear_arith)
        requires 0 <= i <= 255, i32::MIN <= cell <= i32::MAX;
}

/// One of the four bodies, down the left of the tier.
pub open spec fn body_cell_at(band: Rect, i: int) -> Rect {
    Rect {
        left: band.left,
        top: (band.top + 18 + i * RAIL_CELL_H) as i32,
        width: RAIL_W,
        height: (RAIL_CELL_H - 6) as i32,
    }
}

/// One of the four bodies, down the left of the tier.
pub fn body_cell(band: Rect, i: u8) -> (r: Rect)
    requires
        fits(band.top + 18 + i * RAIL_CELL_H),
    ensures
        r == body_cell_at(band, i as int),
{
    Rect { left: band.left, top: band.top + 18 + i as i32 * RAIL_CELL_H, width: RAIL_W, height: RAIL_CELL_H - 6 }
}

/// The window the body's response is drawn in, beside the rail, ending where
/// the bow's window ends a tier above.
pub open spec fn body_window_of(band: Rect) -> Rect {
    Rect {
        left: (band.left + RAIL_W + 18) as i32,
        top: (band.top + 18) as i32,
        width: (KNOB_COLUMN - RAIL_W - 18 - 32) as i32,
        height: (BODY_H - 36) as i32,
    }
}

/// The window the body's response is drawn in.
pub fn body_window(band: Rect) -> (r: Rect)
    requires
        fits(band.left + RAIL_W + 18),
        fits(band.top + 18),
    ensures
        r == body_window_of(band),
{
    Rect {
        left: band.left + RAIL_W + 18,
        top: band.top + 18,
        width: KNOB_COLUMN - RAIL_W - 18 - 32,
        height: BODY_H - 36,
    }
}

/// The field of the body's window.
pub fn body_field(band: Rect) -> (r: Rect)
    requires
        fits(band.left + RAIL_W + 18 + 8),
        fits(band.top + 18 + 8),
    ensures
        r == shrunk(body_window_of(band), 8),
{
    shrink(body_window(band), 8)
}

/// The body's controls, in the bow's column: the switch on the first row, the
/// knob on the second.
pub open spec fn body_knob_at(band: Rect, row: int, i: int, cell: int) -> (int, int) {
    (band.left + KNOB_COLUMN + i * cell, band.top + 20 + row * 76)
}

/// The body's controls.
pub fn body_knob(band: Rect, row: u8, i: u8, cell: i32) -> (r: Spot)
    requires
        fits(body_knob_at(band, row as int, i as int, cell as int).0),
        fits(body_knob_at(band, row as int, i as int, cell as int).1),
    ensures
        (r.x as int, r.y as int) == body_knob_at(band, row as int, i as int, cell as int),
{
    proof {
        lemma_column(i as int, cell as int);
    }
    let x: i64 = band.left as i64 + KNOB_COLUMN as i64 + i as i64 * cell as i64;
    Spot { x: x as i32, y: band.top + 20 + row as i32 * 76 }
}

/// The player's knobs.
pub open spec fn player_knob_at(band: Rect, row: int, i: int, cell: int) -> (int, int) {
    (band.left + i * cell, band.top + 20 + row * 62)
}

/// The player's knobs.
pub fn player_knob(band: Rect, row: u8, i: u8, cell: i32) -> (r: Spot)
    requires
        fits(player_knob_at(band, row as int, i as int, cell as int).0),
        fits(player_knob_at(band, row as int, i as int, cell as int).1),
    ensures
        (r.x as int, r.y as int) == player_knob_at(band, row as int, i as int, cell as int),
{
    proof {
        lemma_column(i as int, cell as int);
    }
    let x: i64 = band.left as i64 + i as i64 * cell as i64;
    Spot { x: x as i32, y: band.top + 20 + row as i32 * 62 }
}

/// The section's own controls, at the right end, away from the player's.
pub open spec fn section_knob_at(band: Rect, i: int, cell: int) -> (int, int) {
    (band.right_edge() - 3 * cell + i * cell, band.top + 20)
}

/// The section's own controls.
pub fn section_knob(band: Rect, i: u8, cell: i32) -> (r: Spot)
    requires
        fits(section_knob_at(band, i as int, cell as int).0),
        fits(section_knob_at(band, i as int, cell as int).1),
    ensures
        (r.x as int, r.y as int) == section_knob_at(band, i as int, cell as int),
{
    proof {
        lemma_column(i as int, cell as int);
    }
    let x: i64 = band.left as i64 + band.width as i64 - 3 * cell as i64 + i as i64 * cell as i64;
    Spot { x: x as i32, y: band.top + 20 }
}

/// What is leaving, a thin rail under the tier.
pub open spec fn meter_of(band: Rect) -> Rect {
    Rect { left: band.left, top: (band.bottom_edge() - 12) as i32, width: band.width, height: 6 }
}

/// What is leaving, a thin rail under the tier.
pub fn meter(band: Rect) -> (r: Rect)
    requires
        fits(band.bottom_edge() - 12),
    ensures
        r == meter_of(band),
{
    let top: i64 = band.top as i64 + band.height as i64 - 12;
    Rect { left: band.left, top: top as i32, width: band.width, height: 6 }
}

/// The band of a tier of a panel.
pub open spec fn tier_of(panel: Rect, index: int) -> Rect {
    Rect {
        left: (panel.left + MARGIN) as i32,
        top: (panel.top + MARGIN + tier_drop(index)) as i32,
        width: (panel.width - 2 * MARGIN) as i32,
        height: tier_height(index) as i32,
    }
}

/// A panel of the size the window gives it.
pub open spec fn full_panel(panel: Rect) -> bool {
    &&& panel.width == W
    &&& panel.height == PANEL_H
    &&& fits(panel.right_edge())
    &&& fits(panel.bottom_edge())
}

/// The chrome, the panel and the keyboard fit the window, and the tiers with
/// their margins and gaps fit the panel.
pub proof fn law_the_tiers_fit_the_panel(panel: Rect, index: int)
    requires
        full_panel(panel),
        0 <= index < 3,
    ensures
        PANEL_H + KEYBOARD_H + 40 <= H,
        2 * MARGIN + BOW_H + BODY_H + PLAYER_H + 2 * TIER_GAP <= PANEL_H,
        panel.holds(tier_of(panel, index)),
{
}

/// No tier runs into the next.
pub proof fn law_the_tiers_do_not_overlap(panel: Rect, index: int)
    requires
        full_panel(panel),
        0 <= index < 2,
    ensures
        tier_of(panel, index).bottom_edge() + TIER_GAP == tier_of(panel, index + 1).top,
{
}

/// Nothing in the bow's tier is drawn outside it: the string's window and
/// field, and the knobs with a cell as wide as the row of five allows.
pub proof fn law_the_bow_stays_in_its_tier(panel: Rect, row: int, i: int, cell: int)
    requires
        full_panel(panel),
        0 <= row < 2,
        0 <= i < 5,
        0 <= cell <= 116,
    ensures
        ({
            let bow = tier_of(panel, 0);
            let at = bow_knob_at(bow, row, i, cell);
            &&& bow.holds(string_window_of(bow))
            &&& string_window_of(bow).holds(shrunk(string_window_of(bow), 12))
            &&& string_window_of(bow).right_edge() < bow_knob_at(bow, 0, 0, cell).0
            &&& at.0 + cell <= bow.right_edge()
            &&& at.1 + KNOB + KNOB_DROP <= bow.bottom_edge()
        }),
{
    assert(i * cell + cell <= 5 * 116) by (nonlinear_arith)
        requires 0 <= i < 5, 0 <= cell <= 116;
}

/// Nothing in the body's tier is drawn outside it, the rail does not run into
/// the window nor the window into the knobs.
pub proof fn law_the_body_stays_in_its_tier(panel: Rect, row: int, i: int, cell: int)
    requires
        full_panel(panel),
        0 <= row < 2,
        0 <= i < 4,
        0 <= cell <= 145,
    ensures
        ({
            let body = tier_of(panel, 1);
            let at = body_knob_at(body, row, i, cell);
            &&& body.holds(body_cell_at(body, i))
            &&& body_cell_at(body, i).right_edge() < body_window_of(body).left
            &&& body.holds(body_window_of(body))
            &&& body_window_of(body).holds(shrunk(body_window_of(body), 8))
            &&& body_window_of(body).right_edge() < body_knob_at(body, 0, 0, cell).0
            &&& at.0 + cell <= body.right_edge()
            &&& at.1 + KNOB + KNOB_DROP <= body.bottom_edge()
        }),
{
    assert(i * cell + cell <= 4 * 145) by (nonlinear_arith)
        requires 0 <= i < 4, 0 <= cell <= 145;
}

/// Nothing in the player's tier is drawn outside it, and the player's knobs
/// do not run into the section's.
pub proof fn law_the_player_stays_in_its_tier(panel: Rect, row: int, i: int, cell: int)
    requires
        full_panel(panel),
        0 <= row < 2,
        0 <= i < 5,
        0 <= cell <= 141,
    ensures
        ({
            let player = tier_of(panel, 2);
            &&& player.holds(meter_of(player))
            &&& player_knob_at(player, row, i, cell).1 + KNOB + KNOB_DROP <= player.bottom_edge()
            &&& player_knob_at(player, row, i, cell).0 + cell <= section_knob_at(player, 0, cell).0
            &&& section_knob_at(player, 2, cell).0 + cell == player.right_edge()
        }),
{
    assert(i * cell + cell <= 5 * cell) by (nonlinear_arith)
        requires 0 <= i < 5, 0 <= cell;
}

/// The window is eleven hundred and sixty points by seven hundred and
/// seventy, and its panel's three tiers start where the margin, the tiers
/// above and the gaps between end.
pub proof fn law_each_tier_has_its_place(panel: Rect)
    requires
        full_panel(panel),
    ensures
        panel.width == 1160,
        panel.height == 602,
        H == 770,
        KEYBOARD_H == 104,
        tier_of(panel, 0) == (Rect {
            left: (panel.left + 14) as i32,
            top: (panel.top + 14) as i32,
            width: 1132,
            height: 188,
        }),
        tier_of(panel, 1) == (Rect {
            left: (panel.left + 14) as i32,
            top: (panel.top + 212) as i32,
            width: 1132,
            height: 186,
        }),
        tier_of(panel, 2) == (Rect {
            left: (panel.left + 14) as i32,
            top: (panel.top + 408) as i32,
            width: 1132,
            height: 172,
        }),
        tier_drop(3) == 576,
{
}

/// Where the windows, the rail and the meter of a band are.
pub proof fn law_each_window_has_its_place(band: Rect, i: int)
    requires
        0 <= i < 4,
        0 <= band.left <= 10_000,
        0 <= band.top <= 10_000,
        0 <= band.width <= 10_000,
        0 <= band.height <= 10_000,
    ensures
        string_window_of(band) == (Rect {
            left: band.left,
            top: (band.top + 16) as i32,
            width: 520,
            height: 154,
        }),
        shrunk(string_window_of(band), 12) == (Rect {
            left: (band.left + 12) as i32,
            top: (band.top + 28) as i32,
            width: 496,
            height: 130,
        }),
        body_window_of(band) == (Rect {
            left: (band.left + 146) as i32,
            top: (band.top + 18) as i32,
            width: 374,
            height: 150,
        }),
        shrunk(body_window_of(band), 8) == (Rect {
            left: (band.left + 154) as i32,
            top: (band.top + 26) as i32,
            width: 358,
            height: 134,
        }),
        body_cell_at(band, i) == (Rect {
            left: band.left,
            top: (band.top + 18 + 34 * i) as i32,
            width: 128,
            height: 28,
        }),
        meter_of(band) == (Rect {
            left: band.left,
            top: (band.top + band.height - 12) as i32,
            width: band.width,
            height: 6,
        }),
{
}

/// Where each knob is: the bow's and the body's in one column, the player's
/// from the left edge and the section's three cells from the right; a cell
/// apart in a row.
pub proof fn law_each_knob_has_its_place(band: Rect, row: int, i: int, cell: int)
    ensures
        bow_knob_at(band, row, i, cell) == (band.left + 552 + cell * i, band.top + 22 + 76 * row),
        body_knob_at(band, row, i, cell) == (band.left + 552 + cell * i, band.top + 20 + 76 * row),
        player_knob_at(band, row, i, cell) == (band.left + cell * i, band.top + 20 + 62 * row),
        section_knob_at(band, i, cell) == (band.left + band.width + cell * (i - 3), band.top + 20),
{
    assert(i * cell == cell * i) by (nonlinear_arith);
    assert(cell * (i - 3) == cell * i - 3 * cell) by (nonlinear_arith);
}

/// A rectangle drawn in lies inside, as far from every side; and what one
/// rectangle holds is held by whatever holds it.
pub proof fn law_a_shrunk_rectangle_lies_inside(r: Rect, by: int, a: Rect, b: Rect)
    requires
        0 <= by <= 100,
        -1_000_000 <= r.left <= 1_000_000,
        -1_000_000 <= r.top <= 1_000_000,
        2 * by <= r.width <= 1_000_000,
        2 * by <= r.height <= 1_000_000,
    ensures
        r.holds(shrunk(r, by)),
        shrunk(r, by).left - r.left == by,
        shrunk(r, by).top - r.top == by,
        r.right_edge() - shrunk(r, by).right_edge() == by,
        r.bottom_edge() - shrunk(r, by).bottom_edge() == by,
        r.holds(a) && a.holds(b) ==> r.holds(b),
        r.holds(a) && a.holds(r) ==> r.left == a.left && r.top == a.top && r.width == a.width && r.height == a.height,
{
}

/// Three sizes of knob, and the room one takes under its top; a rail of four
/// cells beside the body's window.
pub proof fn law_each_part_has_its_size()
    ensures
        KNOB_SMALL == 24,
        KNOB == 30,
        KNOB_BIG == 42,
        KNOB_DROP == 22,
        MARGIN == 14,
        TIER_GAP == 10,
        RAIL_W == 128,
        RAIL_CELL_H == 34,
        KNOB_COLUMN == 552,
        PANEL_H == 602,
        W == 1160,
{
}

} // verus!
