use kayiver::binary32::F32;
use kayiver::layout::{
    arranged, can_arrange, entry_on_rect, point_on_edge, ratio_on_edge, relocate_off, touches_edge, Edge,
    Layout, Link,
};
use kayiver::proto::Rect;

fn f(x: F32) -> f32 {
    f32::from_bits(x.bits)
}

fn ratio(x: f32) -> F32 {
    F32 { bits: x.to_bits() }
}

fn layout() -> Layout {
    Layout { links: vec![Link { from: "mac".into(), edge: Edge::Right, to: "win".into() }] }
}

#[test]
fn forward_and_reverse_links() {
    let l = layout();
    assert_eq!(l.target("mac", Edge::Right), Some(("win", Edge::Left)));
    assert_eq!(l.target("win", Edge::Left), Some(("mac", Edge::Right)));
    assert_eq!(l.target("mac", Edge::Left), None);
    assert_eq!(l.target("win", Edge::Right), None);
}

#[test]
fn portals_listed() {
    let l = layout();
    assert_eq!(l.portals("mac"), vec![Edge::Right]);
    assert_eq!(l.portals("win"), vec![Edge::Left]);
}

#[test]
fn edge_ratio_math() {
    let b = Rect { x: 0, y: 0, w: 1000, h: 500 };
    assert_eq!(f(ratio_on_edge(b, Edge::Right, 999, 250)), 0.5);
    let (x, y) = point_on_edge(b, Edge::Left, ratio(0.5), 2);
    assert_eq!((x, y), (2, 250));
    assert!(touches_edge(b, Edge::Right, 999, 100));
    assert!(!touches_edge(b, Edge::Right, 998, 100));
}

#[test]
fn negative_origin_bounds() {
    let b = Rect { x: -1920, y: 0, w: 3840, h: 1080 };
    assert!(touches_edge(b, Edge::Left, -1920, 500));
    let (x, _) = point_on_edge(b, Edge::Right, ratio(0.0), 1);
    assert_eq!(x, 1918);
}

#[test]
fn matches_by_size_and_pins_primary() {
    let cur = [Rect { x: 0, y: 0, w: 1920, h: 1080 }, Rect { x: 1920, y: 0, w: 1920, h: 1080 }];
    let want = [Rect { x: 0, y: 0, w: 1920, h: 1080 }, Rect { x: 200, y: -1080, w: 1920, h: 1080 }];
    assert_eq!(arranged(&cur, &want).unwrap()[1], want[1]);
    let want2 =
        [Rect { x: 100, y: 100, w: 1920, h: 1080 }, Rect { x: 300, y: -980, w: 1920, h: 1080 }];
    assert_eq!(arranged(&cur, &want2).unwrap()[1], want[1]);
    assert!(arranged(&cur, &cur).is_none());
    assert!(arranged(&cur, &want[..1]).is_none());
    let other = [Rect { x: 0, y: 0, w: 2560, h: 1440 }, Rect { x: 0, y: -1080, w: 1920, h: 1080 }];
    assert!(arranged(&cur, &other).is_none(), "a size that is not on this desk matches nothing");
}

const BLOCKED: Rect = Rect { x: -320, y: 1080, w: 2560, h: 1440 };
const TARGET: Rect = Rect { x: 0, y: 0, w: 1920, h: 1080 };

#[test]
fn moves_a_window_centred_on_the_hidden_monitor() {
    let win = Rect { x: 700, y: 1700, w: 800, h: 600 };
    let r = relocate_off(win, BLOCKED, TARGET).expect("centre is on the hidden monitor");
    assert_eq!((r.w, r.h), (800, 600), "size is preserved");
    assert!(r.x >= TARGET.x && r.x + r.w <= TARGET.right(), "lands fully on the target: {r:?}");
    assert!(r.y >= TARGET.y && r.y + r.h <= TARGET.bottom(), "lands fully on the target: {r:?}");
}

#[test]
fn leaves_windows_that_are_not_on_the_hidden_monitor() {
    let on_target = Rect { x: 100, y: 100, w: 400, h: 300 };
    assert!(relocate_off(on_target, BLOCKED, TARGET).is_none());
}

#[test]
fn a_window_bigger_than_the_target_still_lands_at_its_origin() {
    let huge = Rect { x: 0, y: 1200, w: 2400, h: 1300 };
    let r = relocate_off(huge, BLOCKED, TARGET).unwrap();
    assert_eq!((r.x, r.y), (TARGET.x, TARGET.y), "clamped to the target origin, not pushed off");
}

#[test]
fn keeps_the_relative_spot_so_a_corner_window_stays_a_corner_window() {
    let bottom_right = Rect { x: 1900, y: 2300, w: 300, h: 200 };
    let r = relocate_off(bottom_right, BLOCKED, TARGET).unwrap();
    assert!(r.x > TARGET.x + TARGET.w / 2, "stays on the right half: {r:?}");
    assert!(r.y > TARGET.y + TARGET.h / 2, "stays on the lower half: {r:?}");
}

fn entry(b: Rect, from: (i32, i32), to: (i32, i32)) -> (f32, f32) {
    let (fx, fy) = entry_on_rect(b, from, to);
    (f(fx), f(fy))
}

const PANEL: Rect = Rect { x: -320, y: 1080, w: 2560, h: 1440 };

#[test]
fn a_fast_move_deep_into_the_panel_still_reports_the_edge_it_crossed() {
    let (fx, fy) = entry(PANEL, (900, 1000), (900, 2400));
    assert_eq!(fy, 0.0, "entered through the TOP edge");
    assert!((fx - (1220.0 / 2560.0)).abs() < 0.01, "kept its place along that edge, got {fx}");
}

#[test]
fn a_slow_step_across_the_seam_agrees_with_the_fast_one() {
    let slow = entry(PANEL, (900, 1070), (900, 1090));
    let fast = entry(PANEL, (900, 1000), (900, 2400));
    assert_eq!(slow, fast, "the same crossing must not depend on mouse speed");
}

#[test]
fn a_side_entry_pins_that_side() {
    let (fx, fy) = entry(PANEL, (-900, 1800), (500, 1800));
    assert_eq!(fx, 0.0, "entered through the LEFT edge");
    assert!((fy - 0.5).abs() < 0.01, "at half height, got {fy}");
}

#[test]
fn no_motion_falls_back_to_the_nearest_side() {
    let (_, fy) = entry(PANEL, (900, 1120), (900, 1120));
    assert_eq!(fy, 0.0, "nearest side is the top");
}

// The shared panel on this desk: B at (2560,0) 2560x1440, entered from A.
fn b() -> Rect {
    Rect { x: 2560, y: 0, w: 2560, h: 1440 }
}

#[test]
fn diagonal_left_entry_stays_at_entry_height() {
    let (fx, fy) = entry(b(), (2550, 700), (2565, 760));
    assert_eq!(fx, 0.0);
    assert!((fy - 740.0 / 1440.0).abs() < 0.01, "fy={fy}");
}

#[test]
fn straight_left_entry() {
    let (fx, fy) = entry(b(), (2500, 700), (2600, 700));
    assert_eq!(fx, 0.0);
    assert!((fy - 700.0 / 1440.0).abs() < 0.01);
}

#[test]
fn corner_entry_picks_first_side_hit() {
    let (fx, fy) = entry(Rect { x: 2560, y: 100, w: 2560, h: 1340 }, (2600, 60), (2700, 220));
    assert_eq!(fy, 0.0);
    assert!((fx - (2625.0 - 2560.0) / 2560.0).abs() < 0.01, "fx={fx}");
}

#[test]
fn no_motion_falls_back_to_nearest_side() {
    let (fx, fy) = entry(b(), (2570, 700), (2570, 700));
    assert_eq!(fx, 0.0);
    assert!((fy - 700.0 / 1440.0).abs() < 0.01);
}

#[test]
fn an_arrival_is_off_its_edge() {
    let b = Rect { x: -10, y: 0, w: 1000, h: 500 };
    for edge in [Edge::Left, Edge::Right, Edge::Top, Edge::Bottom] {
        for at in [0.0, 0.3, 1.0] {
            let (x, y) = point_on_edge(b, edge, ratio(at), 2);
            assert!(!touches_edge(b, edge, x, y), "{edge:?} {at}");
        }
    }
}

#[test]
fn offsets_past_a_coordinate_are_not_arranged() {
    let cur = [Rect { x: 0, y: 0, w: 1920, h: 1080 }, Rect { x: 1920, y: 0, w: 1920, h: 1080 }];
    let at = |x| [Rect { x: i32::MIN, ..cur[0] }, Rect { x, ..cur[1] }];
    assert!(can_arrange(&cur, &at(-1)));
    assert_eq!(arranged(&cur, &at(-1)).unwrap()[1].x, i32::MAX);
    assert!(!can_arrange(&cur, &at(0)));
    assert!(can_arrange(&cur, &at(0)[..1]), "what does not match is not moved");
}
