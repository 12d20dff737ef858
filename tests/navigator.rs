use citysim::navigator::Navigator;
use citysim::position::Position;

#[test]
fn test_navigate_ok() {
    let mut navigator = Navigator::new();
    navigator.add_node(Position { x: 0, y: 0 });
    navigator.add_node(Position { x: 1, y: 0 });
    navigator.add_node(Position { x: 2, y: 0 });
    navigator.add_node(Position { x: 3, y: 0 });
    navigator.add_node(Position { x: 3, y: 1 });
    navigator.add_node(Position { x: 3, y: 2 });
    navigator.add_node(Position { x: 3, y: 3 });
    navigator.add_node(Position { x: 2, y: 3 });
    navigator.add_node(Position { x: 1, y: 3 });
    navigator.add_node(Position { x: 0, y: 3 });

    navigator.rebuild();

    let desc = navigator.get_navigation_descriptor(&Position { x: 0, y: 0 }, Position { x: 0, y: 3 });

    assert_eq!(desc.is_some(), true);
}

#[test]
fn test_navigate_ko_end_point() {
    let mut navigator = Navigator::new();
    navigator.add_node(Position { x: 0, y: 0 });
    navigator.add_node(Position { x: 1, y: 0 });
    navigator.add_node(Position { x: 2, y: 0 });
    navigator.add_node(Position { x: 3, y: 0 });

    navigator.rebuild();

    let desc = navigator.get_navigation_descriptor(&Position { x: 0, y: 0 }, Position { x: 42, y: 0 });

    assert_eq!(desc, None);
}

#[test]
fn test_navigate_ko_stating_point() {
    let mut navigator = Navigator::new();
    navigator.add_node(Position { x: 0, y: 0 });
    navigator.add_node(Position { x: 1, y: 0 });
    navigator.add_node(Position { x: 2, y: 0 });
    navigator.add_node(Position { x: 3, y: 0 });

    navigator.rebuild();

    let desc = navigator.get_navigation_descriptor(&Position { x: 42, y: 0 }, Position { x: 0, y: 0 });

    assert_eq!(desc, None);
}

#[test]
fn test_build() {
    let mut navigator = Navigator::new();
    navigator.add_node(Position { x: 1, y: 0 });
    navigator.add_node(Position { x: 2, y: 0 });
    navigator.add_node(Position { x: 3, y: 0 });
    navigator.add_node(Position { x: 4, y: 4 });

    let resolved = navigator.rebuild();

    assert_eq!(resolved, 3);
}

#[test]
fn rebuild_on_empty_pending_is_a_no_op() {
    let mut navigator = Navigator::new();
    assert_eq!(navigator.rebuild(), 0);
    navigator.add_node(Position { x: 7, y: 7 });
    assert_eq!(navigator.rebuild(), 0);
}

#[test]
fn rebuild_links_a_lonely_position_once_a_neighbour_arrives() {
    let mut navigator = Navigator::new();
    navigator.add_node(Position { x: 0, y: 0 });
    assert_eq!(navigator.rebuild(), 0);
    navigator.add_node(Position { x: 0, y: 1 });
    assert_eq!(navigator.rebuild(), 2);
    let desc = navigator.get_navigation_descriptor(&Position { x: 0, y: 0 }, Position { x: 0, y: 2 });
    assert_eq!(desc.unwrap().path().len(), 3);
}

#[test]
fn rebuild_twice_settles() {
    let mut navigator = Navigator::new();
    navigator.add_node(Position { x: 0, y: 0 });
    navigator.add_node(Position { x: 1, y: 0 });
    navigator.add_node(Position { x: 9, y: 9 });
    assert_eq!(navigator.rebuild(), 2);
    assert_eq!(navigator.rebuild(), 0);
    assert_eq!(navigator.rebuild(), 0);
}

#[test]
fn path_is_stored_backwards_with_the_target_first() {
    let mut navigator = Navigator::new();
    navigator.add_node(Position { x: 0, y: 0 });
    navigator.add_node(Position { x: 1, y: 0 });
    navigator.add_node(Position { x: 2, y: 0 });
    navigator.rebuild();

    let desc = navigator
        .get_navigation_descriptor(&Position { x: 0, y: 0 }, Position { x: 3, y: 0 })
        .unwrap();
    assert_eq!(
        desc.path(),
        &vec![
            Position { x: 3, y: 0 },
            Position { x: 2, y: 0 },
            Position { x: 1, y: 0 },
            Position { x: 0, y: 0 },
        ]
    );
}

#[test]
fn scenario_street_line_path() {
    let mut navigator = Navigator::new();
    navigator.add_node(Position { x: 0, y: 0 });
    navigator.add_node(Position { x: 1, y: 0 });
    navigator.add_node(Position { x: 2, y: 0 });
    navigator.add_node(Position { x: 3, y: 0 });
    assert_eq!(navigator.rebuild(), 4);

    // The search stops on (2, 0), the first cell next to the target.
    let desc = navigator
        .get_navigation_descriptor(&Position { x: 0, y: 0 }, Position { x: 3, y: 0 })
        .unwrap();
    assert_eq!(desc.path().len(), 4);
    assert_eq!(desc.path()[0], Position { x: 3, y: 0 });
    assert_eq!(desc.path()[3], Position { x: 0, y: 0 });
}

#[test]
fn path_advances_until_completed() {
    let mut navigator = Navigator::new();
    navigator.add_node(Position { x: 0, y: 0 });
    navigator.add_node(Position { x: 1, y: 0 });
    navigator.rebuild();
    let mut desc = navigator
        .get_navigation_descriptor(&Position { x: 0, y: 0 }, Position { x: 2, y: 0 })
        .unwrap();
    assert!(!desc.is_completed());
    assert_eq!(desc.advance(), Some(Position { x: 0, y: 0 }));
    assert_eq!(desc.advance(), Some(Position { x: 1, y: 0 }));
    assert_eq!(desc.advance(), Some(Position { x: 2, y: 0 }));
    assert!(desc.is_completed());
    assert_eq!(desc.advance(), None);
    assert!(desc.is_completed());
}

#[test]
fn start_next_to_target_needs_no_street() {
    let navigator = Navigator::new();
    let desc = navigator
        .get_navigation_descriptor(&Position { x: 0, y: 0 }, Position { x: 0, y: 1 })
        .unwrap();
    assert_eq!(desc.path(), &vec![Position { x: 0, y: 1 }, Position { x: 0, y: 0 }]);
}

#[test]
fn neighbors_and_distance() {
    let p = Position { x: 2, y: -3 };
    let mut n = p.neighbors();
    n.sort_by_key(|q| (q.x, q.y));
    assert_eq!(
        n,
        vec![
            Position { x: 1, y: -3 },
            Position { x: 2, y: -4 },
            Position { x: 2, y: -2 },
            Position { x: 3, y: -3 },
        ]
    );
    assert_eq!(p.distance(&Position { x: -1, y: 1 }), 7);
    assert_eq!(Position { x: -1, y: 1 }.distance(&p), 7);
    let corner = Position { x: i64::MAX, y: i64::MIN };
    assert_eq!(corner.neighbors().len(), 2);
}
