//! The instrument's palette: spruce and maple, rosin and horsehair, each
//! colour as its red, green and blue.
//!
//! The panel is a bow, a string and a body, and it is coloured as those
//! three: the pale horsehair of a bow, the amber of rosin on a string, the
//! warm varnish of a corpus. Downstream of the body there is one signal, and
//! it is a cream trunk.

use vstd::prelude::*;

verus! {

/// The panel, a graphite anodising lit from above.
pub const PANEL_TOP: [u8; 3] = [56, 53, 50];

pub const PANEL_BOTTOM: [u8; 3] = [32, 30, 29];

/// The folded edge of the extrusion the panel is set into.
pub const PANEL_EDGE: [u8; 3] = [14, 13, 12];

/// The machined end cheek.
pub const CHEEK_TOP: [u8; 3] = [102, 98, 90];

pub const CHEEK_BOTTOM: [u8; 3] = [56, 53, 50];

/// A brush line along the cheek, with its alpha, premultiplied.
pub const CHEEK_GRAIN: [u8; 4] = [10, 9, 8, 44];

/// Silkscreen on the anodising, and its quieter secondary.
pub const SILK: [u8; 3] = [240, 236, 226];

pub const SILK_DIM: [u8; 3] = [154, 149, 138];

pub const PLATE_TOP: [u8; 3] = [31, 29, 27];

pub const PLATE_BOTTOM: [u8; 3] = [20, 19, 17];

pub const PLATE_SILK: [u8; 3] = [234, 230, 220];

pub const PLATE_SILK_DIM: [u8; 3] = [138, 133, 124];

/// A recess cut into a plate: a window, a rail, a switch slot.
pub const WELL: [u8; 3] = [11, 11, 10];

pub const WELL_EDGE: [u8; 3] = [72, 69, 64];

/// The bow: pale horsehair.
pub const BOW: [u8; 3] = [232, 224, 196];

/// The rosin that lets it grip, and the string it grips.
pub const ROSIN: [u8; 3] = [226, 148, 62];

/// The corpus: varnished maple.
pub const BODY: [u8; 3] = [146, 74, 42];

/// The fingerboard, ebony, and the bridge standing on the belly.
pub const EBONY: [u8; 3] = [38, 34, 32];

pub const BRIDGE: [u8; 3] = [198, 170, 118];

/// Downstream of the body there is one path, whatever made it.
pub const TRUNK: [u8; 3] = [238, 226, 200];

pub const TRUNK_DIM: [u8; 3] = [96, 92, 82];

/// The meter, and the ceiling it must not reach.
pub const METER: [u8; 3] = [126, 214, 138];

pub const METER_HOT: [u8; 3] = [232, 106, 84];

/// What is clipping, and a lamp with nothing behind it.
pub const CLIP: [u8; 3] = [232, 106, 84];

pub const LED_OFF: [u8; 3] = [44, 42, 39];

/// One channel, two thirds of the way down to the plate's.
pub open spec fn lowered(a: int, b: int) -> int {
    (34 * a + 66 * b) / 100
}

/// One channel, two thirds of the way down to the plate's.
fn lower(a: u8, b: u8) -> (r: u8)
    ensures
        r == lowered(a as int, b as int),
{
    ((34 * a as u32 + 66 * b as u32) / 100) as u8
}

/// A tint at rest: the same colour, two thirds of the way down to the plate
/// it sits on. A lerp rather than a per-channel scale, because an unlit part
/// has to read as the same part.
pub fn dim(c: [u8; 3]) -> (r: [u8; 3])
    ensures
        forall|i: int| 0 <= i < 3 ==> #[trigger] r@[i] == lowered(c@[i] as int, PLATE_BOTTOM@[i] as int),
{
    let plate: [u8; 3] = PLATE_BOTTOM;
    [lower(c[0], plate[0]), lower(c[1], plate[1]), lower(c[2], plate[2])]
}

/// A tint at rest is the same colour, quieter: no channel brighter than the
/// plate stays as bright, and the channels keep the order of a warm tint, red
/// over green over blue.
pub proof fn law_a_dim_tint_is_quieter(c: [u8; 3], i: int)
    requires
        0 <= i < 3,
    ensures
        c@[i] > PLATE_BOTTOM@[i] ==> PLATE_BOTTOM@[i] <= lowered(c@[i] as int, PLATE_BOTTOM@[i] as int) < c@[i],
        c@[0] >= c@[1] >= c@[2] ==> lowered(c@[0] as int, PLATE_BOTTOM@[0] as int) >= lowered(
            c@[1] as int,
            PLATE_BOTTOM@[1] as int,
        ) >= lowered(c@[2] as int, PLATE_BOTTOM@[2] as int),
{
}

/// A channel at rest is thirty-four parts of a hundred its own and the rest
/// the plate's, to the whole number below.
pub proof fn law_a_dim_channel_is_a_third_its_own(a: int, b: int)
    requires
        0 <= a < 256,
        0 <= b < 256,
    ensures
        100 * lowered(a, b) <= 34 * a + 66 * b < 100 * lowered(a, b) + 100,
        lowered(a, a) == a,
        PLATE_BOTTOM@[0] == 20 && PLATE_BOTTOM@[1] == 19 && PLATE_BOTTOM@[2] == 17,
{
}

/// The palette. What clips is coloured as the hot end of the meter is.
pub proof fn law_the_palette()
    ensures
        PANEL_TOP@ == seq![56u8, 53, 50],
        PANEL_BOTTOM@ == seq![32u8, 30, 29],
        PANEL_EDGE@ == seq![14u8, 13, 12],
        CHEEK_TOP@ == seq![102u8, 98, 90],
        CHEEK_BOTTOM@ == seq![56u8, 53, 50],
        CHEEK_GRAIN@ == seq![10u8, 9, 8, 44],
        SILK@ == seq![240u8, 236, 226],
        SILK_DIM@ == seq![154u8, 149, 138],
        PLATE_TOP@ == seq![31u8, 29, 27],
        PLATE_BOTTOM@ == seq![20u8, 19, 17],
        PLATE_SILK@ == seq![234u8, 230, 220],
        PLATE_SILK_DIM@ == seq![138u8, 133, 124],
        WELL@ == seq![11u8, 11, 10],
        WELL_EDGE@ == seq![72u8, 69, 64],
        BOW@ == seq![232u8, 224, 196],
        ROSIN@ == seq![226u8, 148, 62],
        BODY@ == seq![146u8, 74, 42],
        EBONY@ == seq![38u8, 34, 32],
        BRIDGE@ == seq![198u8, 170, 118],
        TRUNK@ == seq![238u8, 226, 200],
        TRUNK_DIM@ == seq![96u8, 92, 82],
        METER@ == seq![126u8, 214, 138],
        METER_HOT@ == seq![232u8, 106, 84],
        CLIP@ == seq![232u8, 106, 84],
        LED_OFF@ == seq![44u8, 42, 39],
        CLIP@ == METER_HOT@,
{
    assert(PANEL_TOP@ =~= seq![56u8, 53, 50]);
    assert(PANEL_BOTTOM@ =~= seq![32u8, 30, 29]);
    assert(PANEL_EDGE@ =~= seq![14u8, 13, 12]);
    assert(CHEEK_TOP@ =~= seq![102u8, 98, 90]);
    assert(CHEEK_BOTTOM@ =~= seq![56u8, 53, 50]);
    assert(CHEEK_GRAIN@ =~= seq![10u8, 9, 8, 44]);
    assert(SILK@ =~= seq![240u8, 236, 226]);
    assert(SILK_DIM@ =~= seq![154u8, 149, 138]);
    assert(PLATE_TOP@ =~= seq![31u8, 29, 27]);
    assert(PLATE_BOTTOM@ =~= seq![20u8, 19, 17]);
    assert(PLATE_SILK@ =~= seq![234u8, 230, 220]);
    assert(PLATE_SILK_DIM@ =~= seq![138u8, 133, 124]);
    assert(WELL@ =~= seq![11u8, 11, 10]);
    assert(WELL_EDGE@ =~= seq![72u8, 69, 64]);
    assert(BOW@ =~= seq![232u8, 224, 196]);
    assert(ROSIN@ =~= seq![226u8, 148, 62]);
    assert(BODY@ =~= seq![146u8, 74, 42]);
    assert(EBONY@ =~= seq![38u8, 34, 32]);
    assert(BRIDGE@ =~= seq![198u8, 170, 118]);
    assert(TRUNK@ =~= seq![238u8, 226, 200]);
    assert(TRUNK_DIM@ =~= seq![96u8, 92, 82]);
    assert(METER@ =~= seq![126u8, 214, 138]);
    assert(METER_HOT@ =~= seq![232u8, 106, 84]);
    assert(CLIP@ =~= seq![232u8, 106, 84]);
    assert(LED_OFF@ =~= seq![44u8, 42, 39]);
}

} // verus!
