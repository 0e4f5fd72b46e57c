use archet::colors::{dim, BODY, BOW, ROSIN, TRUNK};
use archet::panel_geom::{
    body_cell, body_field, body_knob, body_window, bow_knob, meter, player_knob, section_knob, string_field,
    string_window, tier, Rect, BODY_H, BOW_H, H, KEYBOARD_H, KNOB, MARGIN, PANEL_H, PLAYER_H, TIER_GAP, W,
};

fn panel() -> Rect {
    Rect { left: 0, top: 0, width: W, height: PANEL_H }
}

/// The width of a knob's cell.
const CELL: i32 = 64;

/// The window is exactly the chrome, the panel and the keyboard.
#[test]
fn the_window_holds_what_it_draws() {
    assert_eq!((W as f32, H as f32), (1160.0, 770.0));
    assert!(PANEL_H + KEYBOARD_H < H);
    assert!(H - PANEL_H - KEYBOARD_H >= 40);
}

/// The tiers fit the panel the plugin asks a host for.
#[test]
fn the_tiers_fit_the_panel() {
    let need = MARGIN * 2 + BOW_H + BODY_H + PLAYER_H + TIER_GAP * 2;
    assert!(need <= PANEL_H, "{need} > {}", PANEL_H);
    let last = tier(panel(), 2);
    assert!(last.bottom() <= PANEL_H, "the last tier ends at {}", last.bottom());
    assert!(last.right() <= W, "the last tier ends at {}", last.right());
}

/// Every tier is inside the panel and none overlaps the next.
#[test]
fn the_tiers_do_not_overlap() {
    let p = panel();
    for i in 0..2 {
        let a = tier(p, i);
        let b = tier(p, i + 1);
        assert!(a.bottom() <= b.top, "tier {i} runs into tier {}", i + 1);
        assert!(a.left >= p.left && a.right() <= p.right(), "tier {i} is wider than the panel");
    }
}

/// Nothing in a tier is drawn outside it, and nothing runs into its
/// neighbour.
#[test]
fn every_part_stays_in_its_tier() {
    let p = panel();
    let bow = tier(p, 0);
    for r in [string_window(bow), string_field(bow)] {
        assert!(bow.contains_rect(r), "{r:?} leaves the bow tier");
    }
    for row in 0..2 {
        for i in 0..4 {
            let at = bow_knob(bow, row, i, CELL);
            assert!(at.x + CELL <= bow.right(), "a bow knob runs off the panel");
            assert!(at.y + KNOB + 22 <= bow.bottom(), "a bow knob falls out of the tier");
        }
    }
    let body = tier(p, 1);
    for i in 0..4 {
        assert!(body.contains_rect(body_cell(body, i)), "body {i} leaves the tier");
    }
    assert!(body_cell(body, 3).right() < body_window(body).left, "the rail runs into the window");
    for r in [body_window(body), body_field(body)] {
        assert!(body.contains_rect(r), "{r:?} leaves the body tier");
    }
    assert!(body_window(body).right() < body_knob(body, 0, 0, CELL).x, "the window runs into the knobs");
    for row in 0..2 {
        for i in 0..3 {
            let at = body_knob(body, row, i, CELL);
            assert!(at.x + CELL <= body.right(), "a body knob runs off the panel");
            assert!(at.y + KNOB + 22 <= body.bottom(), "a body knob falls out of the tier");
        }
    }
    let player = tier(p, 2);
    assert!(player.contains_rect(meter(player)));
    for row in 0..2 {
        for i in 0..5 {
            let at = player_knob(player, row, i, CELL);
            assert!(at.y + KNOB + 22 <= player.bottom(), "a player knob falls out of the tier");
        }
    }
    assert!(
        player_knob(player, 0, 4, CELL).x + CELL <= section_knob(player, 0, CELL).x,
        "the player's knobs run into the section's"
    );
}

#[test]
fn the_tiers_are_where_they_are_drawn() {
    let p = panel();
    assert_eq!(tier(p, 0), Rect { left: 14, top: 14, width: 1132, height: 188 });
    assert_eq!(tier(p, 1), Rect { left: 14, top: 212, width: 1132, height: 186 });
    assert_eq!(tier(p, 2), Rect { left: 14, top: 408, width: 1132, height: 172 });
    assert_eq!(string_window(tier(p, 0)), Rect { left: 14, top: 30, width: 520, height: 154 });
    assert_eq!(meter(tier(p, 2)), Rect { left: 14, top: 568, width: 1132, height: 6 });
}

/// Bow, rosin and body are three readings, far enough apart that the eye can
/// tell which part of the instrument it is looking at.
#[test]
fn the_three_parts_are_three_colours() {
    let all = [BOW, ROSIN, BODY];
    for (i, a) in all.iter().enumerate() {
        for b in all.iter().skip(i + 1) {
            let d: i32 = (0..3).map(|k| (a[k] as i32 - b[k] as i32).abs()).sum();
            assert!(d > 90, "two parts share a colour: {a:?} and {b:?}");
        }
    }
}

/// A tint at rest is darker than the tint alight, and still carries its hue.
#[test]
fn a_dim_tint_is_the_same_colour_quieter() {
    for c in [BOW, ROSIN, BODY, TRUNK] {
        let d = dim(c);
        let lum = |x: [u8; 3]| x[0] as u32 + x[1] as u32 + x[2] as u32;
        assert!(lum(d) < lum(c), "{c:?} did not go down");
        let brightest = |x: [u8; 3]| {
            if x[0] >= x[1] && x[0] >= x[2] {
                0
            } else if x[1] >= x[2] {
                1
            } else {
                2
            }
        };
        assert_eq!(brightest(d), brightest(c), "{c:?} changed hue on the way down");
    }
}
