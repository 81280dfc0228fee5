use monhop_transport::display_arrangement::{
    inherit_display_edges, Edge, EdgeLink, Overlap, Passage, Placed,
};
use monhop_transport::protocol::{DeviceId, DisplayId};

fn coordinate(value: f64) -> i64 {
    let magnitude = value.abs().to_bits() as i64;
    if value < 0.0 {
        -magnitude
    } else {
        magnitude
    }
}

fn number(coordinate: i64) -> f64 {
    let magnitude = f64::from_bits(coordinate.unsigned_abs());
    if coordinate < 0 {
        -magnitude
    } else {
        magnitude
    }
}

fn display(id: u64, computer: u8, x: f64, y: f64, width: f64, height: f64) -> Placed {
    Placed {
        id: DisplayId(id),
        machine: DeviceId([computer; 16]),
        left: coordinate(x),
        top: coordinate(y),
        right: coordinate(x + width),
        bottom: coordinate(y + height),
    }
}

fn share(passage: Passage, low: f64, length: f64) -> (f64, f64) {
    let Passage::Shared(overlap) = passage else {
        panic!("an inherited link passes through a shared range");
    };
    (
        (number(overlap.start) - low) / length,
        (number(overlap.end) - low) / length,
    )
}

#[test]
fn inherits_stacked_and_offset_monitors_without_changing_geometry() {
    let monitors = vec![
        display(1, 1, -100.0, -100.0, 200.0, 100.0),
        display(2, 1, 0.0, 0.0, 100.0, 100.0),
        display(3, 2, 0.0, 0.0, 100.0, 100.0),
    ];
    let original = format!("{:?}", monitors);
    let links = inherit_display_edges(&monitors, vec![], &[], true).unwrap();
    assert_eq!(format!("{:?}", monitors), original);
    assert_eq!(links.len(), 2);
    assert_eq!(links[0].from_display, DisplayId(1));
    assert_eq!(links[0].from_edge, Edge::Bottom);
    assert_eq!(share(links[0].passage, -100.0, 200.0), (0.5, 1.0));
    assert_eq!(share(links[0].passage, 0.0, 100.0), (0.0, 1.0));
    assert_eq!(links[1].to_display, DisplayId(1));
}

#[test]
fn gaps_corners_and_cross_computer_overlap_do_not_invent_routes() {
    let monitors = vec![
        display(1, 1, 0.0, 0.0, 100.0, 100.0),
        display(2, 1, 100.0, 100.0, 100.0, 100.0),
        display(3, 2, 0.0, 0.0, 100.0, 100.0),
    ];
    assert!(inherit_display_edges(&monitors, vec![], &[], true).unwrap().is_empty());
}

#[test]
fn a_hidden_display_keeps_no_adjacency() {
    let monitors = vec![
        display(1, 1, 0.0, 0.0, 100.0, 100.0),
        display(2, 1, 100.0, 0.0, 100.0, 100.0),
        display(3, 1, 200.0, 0.0, 100.0, 100.0),
    ];
    let links = inherit_display_edges(&monitors, vec![], &[DisplayId(2)], true).unwrap();
    assert!(links.is_empty());
    let links = inherit_display_edges(&monitors, vec![], &[DisplayId(3)], true).unwrap();
    assert_eq!(links.len(), 2);
    assert!(links.iter().all(|link| link.to_display != DisplayId(3)));
}

#[test]
fn refuses_user_overrides_of_inherited_routes_and_overlapping_local_monitors() {
    let monitors = vec![
        display(1, 1, 0.0, 0.0, 100.0, 100.0),
        display(2, 1, 100.0, 0.0, 100.0, 100.0),
    ];
    let mut links = inherit_display_edges(&monitors, vec![], &[], true).unwrap();
    assert!(inherit_display_edges(&monitors, vec![links.remove(0)], &[], true).is_err());
    let overlap = vec![monitors[0], display(2, 1, 50.0, 0.0, 100.0, 100.0)];
    assert!(inherit_display_edges(&overlap, vec![], &[], true).is_err());
}

#[test]
fn side_by_side_monitors_are_linked_both_ways_through_the_shared_edge() {
    let monitors = vec![
        display(1, 1, 0.0, 0.0, 100.0, 100.0),
        display(2, 1, 100.0, 50.0, 100.0, 100.0),
    ];
    let links = inherit_display_edges(&monitors, vec![], &[], true).unwrap();
    let shared = Overlap {
        start: coordinate(50.0),
        end: coordinate(100.0),
    };
    assert_eq!(
        links,
        vec![
            EdgeLink {
                from_display: DisplayId(1),
                from_edge: Edge::Right,
                to_display: DisplayId(2),
                to_edge: Edge::Left,
                passage: Passage::Shared(shared),
            },
            EdgeLink {
                from_display: DisplayId(2),
                from_edge: Edge::Left,
                to_display: DisplayId(1),
                to_edge: Edge::Right,
                passage: Passage::Shared(shared),
            },
        ]
    );
}

#[test]
fn inherited_links_follow_those_that_were_laid() {
    let monitors = vec![
        display(1, 1, 0.0, 0.0, 100.0, 100.0),
        display(2, 1, 100.0, 0.0, 100.0, 100.0),
        display(3, 2, 0.0, 0.0, 100.0, 100.0),
    ];
    let whole = Overlap {
        start: coordinate(0.0),
        end: coordinate(1.0),
    };
    let laid = EdgeLink {
        from_display: DisplayId(2),
        from_edge: Edge::Right,
        to_display: DisplayId(3),
        to_edge: Edge::Left,
        passage: Passage::Laid {
            from: whole,
            to: whole,
            speed: coordinate(2.0),
        },
    };
    let links = inherit_display_edges(&monitors, vec![laid], &[], true).unwrap();
    assert_eq!(links.len(), 3);
    assert_eq!(links[0], laid);
    assert_eq!(links[1].from_display, DisplayId(1));
    assert_eq!(links[2].from_display, DisplayId(2));
    assert!(inherit_display_edges(&monitors, vec![laid], &[], false).is_err());
    let stray = EdgeLink {
        to_display: DisplayId(9),
        ..laid
    };
    assert!(inherit_display_edges(&monitors, vec![stray], &[], true).is_err());
}
