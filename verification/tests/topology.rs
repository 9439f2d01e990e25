use cells_worker::topology::get_neighbors;
use cells_worker::topology::NodeIdentity;

#[test]
fn center_of_three_by_three_has_all_eight_neighbors() {
    assert_eq!(get_neighbors(4, 3), vec![0, 1, 2, 3, 5, 6, 7, 8]);
}

#[test]
fn corner_of_three_by_three_has_three_neighbors() {
    assert_eq!(get_neighbors(0, 3), vec![1, 3, 4]);
    assert_eq!(get_neighbors(2, 3), vec![1, 4, 5]);
    assert_eq!(get_neighbors(6, 3), vec![3, 4, 7]);
    assert_eq!(get_neighbors(8, 3), vec![4, 5, 7]);
}

#[test]
fn edge_of_three_by_three_has_five_neighbors() {
    assert_eq!(get_neighbors(1, 3), vec![0, 2, 3, 4, 5]);
    assert_eq!(get_neighbors(3, 3), vec![0, 1, 4, 6, 7]);
    assert_eq!(get_neighbors(5, 3), vec![1, 2, 4, 7, 8]);
    assert_eq!(get_neighbors(7, 3), vec![3, 4, 5, 6, 8]);
}

#[test]
fn single_cell_grid_has_no_neighbors() {
    assert_eq!(get_neighbors(0, 1), Vec::<i32>::new());
}

#[test]
fn two_by_two_grid_is_all_corners() {
    assert_eq!(get_neighbors(0, 2), vec![1, 2, 3]);
    assert_eq!(get_neighbors(1, 2), vec![0, 2, 3]);
    assert_eq!(get_neighbors(2, 2), vec![0, 1, 3]);
    assert_eq!(get_neighbors(3, 2), vec![0, 1, 2]);
}

#[test]
fn ten_by_ten_grid_neighbors() {
    assert_eq!(get_neighbors(55, 10), vec![44, 45, 46, 54, 56, 64, 65, 66]);
    assert_eq!(get_neighbors(0, 10), vec![1, 10, 11]);
    assert_eq!(get_neighbors(9, 10), vec![8, 18, 19]);
    assert_eq!(get_neighbors(99, 10), vec![88, 89, 98]);
    assert_eq!(get_neighbors(50, 10), vec![40, 41, 51, 60, 61]);
    assert_eq!(get_neighbors(59, 10), vec![48, 49, 58, 68, 69]);
}

#[test]
fn no_wraparound_between_rows() {
    let right_edge = get_neighbors(19, 10);
    assert!(!right_edge.contains(&20));
    assert!(!right_edge.contains(&10));
    let left_edge = get_neighbors(20, 10);
    assert!(!left_edge.contains(&19));
    assert!(!left_edge.contains(&29));
}

#[test]
fn neighbor_set_is_in_range_distinct_and_without_self() {
    for width in 1..=7 {
        for id in 0..width * width {
            let neighbors = get_neighbors(id, width);
            for (i, n) in neighbors.iter().enumerate() {
                assert!(0 <= *n && *n < width * width);
                assert_ne!(*n, id);
                for m in neighbors.iter().skip(i + 1) {
                    assert!(*n < *m);
                }
            }
        }
    }
}

#[test]
fn neighbor_set_holds_exactly_the_adjacent_cells() {
    for width in 1..=6 {
        for id in 0..width * width {
            let neighbors = get_neighbors(id, width);
            for n in 0..width * width {
                let near = n != id
                    && (n % width - id % width).abs() <= 1
                    && (n / width - id / width).abs() <= 1;
                assert_eq!(neighbors.contains(&n), near);
            }
        }
    }
}

#[test]
fn neighbor_set_size_follows_position() {
    for width in 3..=8 {
        for id in 0..width * width {
            let x = id % width;
            let y = id / width;
            let x_border = x == 0 || x == width - 1;
            let y_border = y == 0 || y == width - 1;
            let expected = if x_border && y_border {
                3
            } else if x_border || y_border {
                5
            } else {
                8
            };
            assert_eq!(get_neighbors(id, width).len(), expected);
        }
    }
}

#[test]
fn largest_grid_last_cell() {
    let width = 46340;
    let last = width * width - 1;
    assert_eq!(
        get_neighbors(last, width),
        vec![last - width - 1, last - width, last - 1]
    );
}

#[test]
fn identity_has_coordinates_of_its_id() {
    let identity = NodeIdentity::new(4, 3).unwrap();
    assert_eq!(identity.id(), 4);
    assert_eq!(identity.x(), 1);
    assert_eq!(identity.y(), 1);
    assert_eq!(identity.grid_width(), 3);

    let identity = NodeIdentity::new(27, 10).unwrap();
    assert_eq!(identity.x(), 7);
    assert_eq!(identity.y(), 2);
    assert_eq!(identity.id(), identity.y() * identity.grid_width() + identity.x());
}

#[test]
fn identity_rejects_what_is_not_a_cell() {
    assert!(NodeIdentity::new(0, 0).is_none());
    assert!(NodeIdentity::new(0, -3).is_none());
    assert!(NodeIdentity::new(-1, 3).is_none());
    assert!(NodeIdentity::new(9, 3).is_none());
    assert!(NodeIdentity::new(100, 10).is_none());
    assert!(NodeIdentity::new(8, 3).is_some());
    assert!(NodeIdentity::new(0, 1).is_some());
}

#[test]
fn identity_rejects_grids_too_large_for_ids() {
    assert!(NodeIdentity::new(0, 46341).is_none());
    assert!(NodeIdentity::new(0, i32::MAX).is_none());
    assert!(NodeIdentity::new(0, 46340).is_some());
    assert!(NodeIdentity::new(46340 * 46340 - 1, 46340).is_some());
    assert!(NodeIdentity::new(46340 * 46340, 46340).is_none());
}

#[test]
fn identity_neighbors_match_get_neighbors() {
    for width in 1..=5 {
        for id in 0..width * width {
            let identity = NodeIdentity::new(id, width).unwrap();
            assert_eq!(identity.neighbors(), get_neighbors(id, width));
        }
    }
}
