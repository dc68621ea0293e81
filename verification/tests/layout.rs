//! Layouts and crossings.

use self_kvm::layout::{Edge, ScreenLayout, ScreenSize};

fn two_screens() -> ScreenLayout {
    let mut l = ScreenLayout::new();
    l.add_screen("srv", ScreenSize::new(1920, 1080));
    l.add_screen("lap", ScreenSize::new(1280, 800));
    l.link("srv", Edge::Right, "lap"); // srv.right == lap, lap.left == srv
    l
}

#[test]
fn linking_is_symmetric() {
    let l = two_screens();
    assert_eq!(l.nodes.get("srv").unwrap().neighbors.right.as_deref(), Some("lap"));
    assert_eq!(l.nodes.get("lap").unwrap().neighbors.left.as_deref(), Some("srv"));
}

#[test]
fn no_crossing_when_inside() {
    let l = two_screens();
    assert_eq!(l.detect_crossing("srv", 960, 540), None);
}

#[test]
fn right_edge_crosses_into_left_of_neighbour() {
    let l = two_screens();
    let c = l.detect_crossing("srv", 1920, 540).unwrap();
    assert_eq!(c.to, "lap");
    assert_eq!(c.from_edge, Edge::Right);
    assert_eq!(c.entry_x, 0); // lands on lap's left edge
    assert_eq!(c.entry_y, 540 * 800 / 1080); // proportional => 400
}

#[test]
fn crossing_back_returns_to_origin_edge() {
    let l = two_screens();
    // On lap, moving off the left edge returns to srv's right edge.
    let c = l.detect_crossing("lap", -1, 400).unwrap();
    assert_eq!(c.to, "srv");
    assert_eq!(c.entry_x, 1919); // srv's right edge
    assert_eq!(c.entry_y, 400 * 1080 / 800); // 540
}

#[test]
fn edge_without_neighbour_yields_none() {
    let l = two_screens();
    // srv has no left neighbour.
    assert_eq!(l.detect_crossing("srv", -5, 500), None);
}

#[test]
fn vertical_layout_maps_horizontal_position() {
    let mut l = ScreenLayout::new();
    l.add_screen("top", ScreenSize::new(1000, 1000));
    l.add_screen("bot", ScreenSize::new(500, 500));
    l.link("top", Edge::Bottom, "bot");
    let c = l.detect_crossing("top", 800, 1000).unwrap();
    assert_eq!(c.to, "bot");
    assert_eq!(c.entry_y, 0); // top of bot
    assert_eq!(c.entry_x, 800 * 500 / 1000); // 400
}

#[test]
fn crossings_lead_back() {
    let l = two_screens();
    let c = l.detect_crossing("srv", 2500, 1079).unwrap();
    let back = l
        .detect_crossing(&c.to, c.entry_x - 1, c.entry_y)
        .unwrap();
    assert_eq!(back.to, "srv");
    assert_eq!(back.from_edge, c.from_edge.opposite());
    assert_eq!(back.entry_x, 1919);
    assert_eq!((back.entry_y, c.entry_y), (1078, 799));
}

#[test]
fn horizontal_crossings_go_first_at_corners() {
    let mut l = two_screens();
    l.add_screen("sky", ScreenSize::new(640, 480));
    l.link("srv", Edge::Top, "sky");
    let c = l.detect_crossing("srv", 1920, -1).unwrap();
    assert_eq!(c.to, "lap");
    assert_eq!((c.entry_x, c.entry_y), (0, 0));
    let c = l.detect_crossing("srv", 1919, -1).unwrap();
    assert_eq!(c.to, "sky");
    assert_eq!((c.entry_x, c.entry_y), (639, 479));
}

#[test]
fn links_to_absent_screens_lead_nowhere() {
    let mut l = two_screens();
    l.link("lap", Edge::Right, "ghost");
    assert_eq!(l.detect_crossing("lap", 1280, 10), None);
    assert_eq!(l.detect_crossing("ghost", -1, 10), None);
    assert_eq!(l.size_of("ghost"), None);
    assert!(!l.contains("ghost"));
}

#[test]
fn positions_are_clamped_to_the_screen() {
    let l = two_screens();
    assert_eq!(l.clamp_to("lap", -5, 900), (0, 799));
    assert_eq!(l.clamp_to("lap", 1280, 3), (1279, 3));
    assert_eq!(l.clamp_to("ghost", -5, 900), (-5, 900));
    let mut flat = ScreenLayout::default();
    flat.add_screen("flat", ScreenSize::new(0, 1));
    assert_eq!(flat.clamp_to("flat", 7, 7), (0, 0));
}

#[test]
fn degenerate_screens_map_to_the_origin() {
    let mut l = ScreenLayout::new();
    l.add_screen("a", ScreenSize::new(1, 1));
    l.add_screen("b", ScreenSize::new(100, 100));
    l.link("a", Edge::Right, "b");
    let c = l.detect_crossing("a", 1, 50).unwrap();
    assert_eq!((c.entry_x, c.entry_y), (0, 0));
}

#[test]
fn smallest_sizes_only_matter_where_they_are_used() {
    let mut l = two_screens();
    l.add_screen("odd", ScreenSize::new(3, i32::MIN));
    l.link("odd", Edge::Right, "srv");
    assert!(!l.can_clamp_to("odd"));
    assert!(l.can_clamp_to("srv"));
    assert!(!l.can_detect_crossing("odd", 3, 0));
    assert!(l.can_detect_crossing("srv", -1, 0));
    assert_eq!(l.detect_crossing("srv", -1, 0).unwrap().to, "odd");
    let width = ScreenSize::new(i32::MIN, 3);
    l.add_screen("flat", width);
    l.link("srv", Edge::Left, "flat");
    assert!(!l.can_detect_crossing("srv", -1, 0));
}

#[test]
fn linking_anew_takes_back_the_old_links() {
    let side = |l: &ScreenLayout, screen: &str, edge: Edge| {
        let sides = &l.nodes.get(screen).unwrap().neighbors;
        match edge {
            Edge::Left => sides.left.clone(),
            Edge::Right => sides.right.clone(),
            Edge::Top => sides.top.clone(),
            Edge::Bottom => sides.bottom.clone(),
        }
    };
    let mut l = two_screens();
    l.add_screen("tab", ScreenSize::new(800, 600));
    l.add_screen("tv", ScreenSize::new(3840, 2160));
    l.link("tab", Edge::Right, "tv");

    // srv.right was lap, and tv.left was tab.
    l.link("srv", Edge::Right, "tv");
    assert_eq!(side(&l, "srv", Edge::Right).as_deref(), Some("tv"));
    assert_eq!(side(&l, "tv", Edge::Left).as_deref(), Some("srv"));
    assert_eq!(side(&l, "lap", Edge::Left), None);
    assert_eq!(side(&l, "tab", Edge::Right), None);
    assert_eq!(l.detect_crossing("lap", -1, 10), None);
    assert_eq!(l.detect_crossing("tab", 800, 10), None);

    // The same link again changes nothing.
    l.link("srv", Edge::Right, "tv");
    assert_eq!(side(&l, "srv", Edge::Right).as_deref(), Some("tv"));
    assert_eq!(side(&l, "tv", Edge::Left).as_deref(), Some("srv"));

    // Other sides stay.
    l.link("lap", Edge::Bottom, "tv");
    assert_eq!(side(&l, "srv", Edge::Right).as_deref(), Some("tv"));
    assert_eq!(side(&l, "tv", Edge::Top).as_deref(), Some("lap"));
}
