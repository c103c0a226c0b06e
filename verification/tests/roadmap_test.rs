use mpl::planner::graph_utils::{is_edge_already_in_graph, GRAPH_CAPACITY};
use mpl::planner::roadmap::Roadmap;
use mpl::space::Point;
use mpl::types::{COORDINATE_MAX, COST_MAX};
use petgraph::graph::NodeIndex;

fn line_of_five() -> Roadmap {
    let mut roadmap = Roadmap::new();
    for x in [0, 10, 20, 30, 40] {
        assert!(roadmap.insert_node(Point::new(x, 0)).is_some());
    }
    roadmap
}

#[test]
fn a_new_roadmap_is_empty() {
    let roadmap = Roadmap::new();
    assert_eq!(roadmap.node_count(), 0);
    assert_eq!(roadmap.edge_count(), 0);
    assert_eq!(roadmap.tree_size(), 0);
    assert_eq!(roadmap.lookup_len(), 0);
    assert_eq!(roadmap.node(0), None);
    assert_eq!(roadmap.node_id(&Point::new(0, 0)), None);
    assert_eq!(roadmap.nearest(&Point::new(0, 0)), None);
    assert!(roadmap.k_nearest(&Point::new(0, 0), 3).is_empty());
    assert_eq!(GRAPH_CAPACITY, u32::MAX as usize);
}

#[test]
fn nodes_get_consecutive_ids() {
    let mut roadmap = Roadmap::new();
    assert_eq!(roadmap.insert_node(Point::new(5, 6)), Some(0));
    assert_eq!(roadmap.insert_node(Point::new(-5, 6)), Some(1));
    assert_eq!(roadmap.insert_node(Point::new(5, -6)), Some(2));
    assert_eq!(roadmap.node_count(), 3);
    assert_eq!(roadmap.tree_size(), 3);
    assert_eq!(roadmap.lookup_len(), 3);
    assert_eq!(roadmap.node(0), Some(Point::new(5, 6)));
    assert_eq!(roadmap.node(1), Some(Point::new(-5, 6)));
    assert_eq!(roadmap.node(2), Some(Point::new(5, -6)));
    assert_eq!(roadmap.node(3), None);
    assert_eq!(roadmap.node_id(&Point::new(-5, 6)), Some(1));
    assert_eq!(roadmap.node_id(&Point::new(6, 5)), None);
}

#[test]
fn inserting_a_configuration_twice_changes_nothing() {
    let mut roadmap = Roadmap::new();
    assert_eq!(roadmap.insert_node(Point::new(1, 1)), Some(0));
    let first = roadmap.insert_node(Point::new(180_000_000, 200_000_000));
    assert_eq!(first, Some(1));
    let (nodes, indexed, keyed) =
        (roadmap.node_count(), roadmap.tree_size(), roadmap.lookup_len());
    assert_eq!((nodes, indexed, keyed), (2, 2, 2));
    let second = roadmap.insert_node(Point::new(180_000_000, 200_000_000));
    assert_eq!(second, first);
    assert_eq!(roadmap.node_count(), nodes);
    assert_eq!(roadmap.tree_size(), indexed);
    assert_eq!(roadmap.lookup_len(), keyed);
    assert_eq!(roadmap.insert_node(Point::new(1, 1)), Some(0));
    assert_eq!(roadmap.node_count(), 2);
    assert_eq!(roadmap.edge_count(), 0);
}

#[test]
fn points_out_of_range_are_refused() {
    let mut roadmap = Roadmap::new();
    assert_eq!(roadmap.insert_node(Point::new(COORDINATE_MAX + 1, 0)), None);
    assert_eq!(roadmap.insert_node(Point::new(0, -COORDINATE_MAX - 1)), None);
    assert_eq!(roadmap.insert_node(Point::new(i64::MIN, i64::MAX)), None);
    assert_eq!(roadmap.node_count(), 0);
    assert_eq!(roadmap.tree_size(), 0);
    assert_eq!(roadmap.lookup_len(), 0);
    assert_eq!(roadmap.insert_node(Point::new(COORDINATE_MAX, -COORDINATE_MAX)), Some(0));
    assert_eq!(roadmap.insert_node(Point::new(-COORDINATE_MAX, COORDINATE_MAX)), Some(1));
    assert_eq!(roadmap.node_count(), 2);
    assert_eq!(roadmap.nearest(&Point::new(COORDINATE_MAX, COORDINATE_MAX)), Some(0));
    assert_eq!(roadmap.k_nearest(&Point::new(-COORDINATE_MAX, -COORDINATE_MAX), 5).len(), 2);
}

#[test]
fn an_edge_joins_two_different_nodes() {
    let mut roadmap = line_of_five();
    assert!(roadmap.insert_edge(0, 1, 10));
    assert_eq!(roadmap.edge_count(), 1);
    assert!(roadmap.has_edge(0, 1));
    assert!(roadmap.has_edge(1, 0));
    assert!(!roadmap.has_edge(0, 2));
    assert!(!roadmap.has_edge(0, 0));
    assert!(!roadmap.has_edge(0, 99));
    assert!(roadmap.insert_edge(1, 0, 12));
    assert_eq!(roadmap.edge_count(), 2);
}

#[test]
fn connecting_a_node_to_itself_adds_no_edge() {
    let mut roadmap = line_of_five();
    assert!(roadmap.insert_edge(0, 1, 10));
    for id in 0..5 {
        assert!(!roadmap.insert_edge(id, id, 1));
        assert_eq!(roadmap.edge_count(), 1);
        assert!(!roadmap.has_edge(id, id));
    }
}

#[test]
fn an_edge_to_a_missing_node_is_not_added() {
    let mut roadmap = line_of_five();
    assert!(!roadmap.insert_edge(0, 5, 1));
    assert!(!roadmap.insert_edge(5, 0, 1));
    assert!(!roadmap.insert_edge(usize::MAX, 0, 1));
    assert_eq!(roadmap.edge_count(), 0);
    assert_eq!(roadmap.node_count(), 5);
}

#[test]
fn nearest_nodes_come_nearest_first() {
    let roadmap = line_of_five();
    assert_eq!(roadmap.k_nearest(&Point::new(12, 0), 3), vec![1, 2, 0]);
    assert_eq!(roadmap.k_nearest(&Point::new(41, 5), 2), vec![4, 3]);
    assert_eq!(roadmap.k_nearest(&Point::new(-100, 0), 5), vec![0, 1, 2, 3, 4]);
    assert_eq!(roadmap.k_nearest(&Point::new(-100, 0), 50), vec![0, 1, 2, 3, 4]);
    assert_eq!(roadmap.k_nearest(&Point::new(20, 0), 1), vec![2]);
    assert!(roadmap.k_nearest(&Point::new(20, 0), 0).is_empty());
    assert_eq!(roadmap.nearest(&Point::new(12, 0)), Some(1));
    assert_eq!(roadmap.nearest(&Point::new(36, -3)), Some(4));
    assert_eq!(roadmap.nearest(&Point::new(30, 1000)), Some(3));
}

#[test]
fn nearest_nodes_among_many() {
    let mut roadmap = Roadmap::new();
    let mut points = Vec::new();
    let mut seed: i64 = 12345;
    for _ in 0..300 {
        seed = (seed * 1103515245 + 12345) % 2147483648;
        let x = seed % 2001 - 1000;
        seed = (seed * 1103515245 + 12345) % 2147483648;
        let y = seed % 2001 - 1000;
        if roadmap.node_id(&Point::new(x, y)).is_none() {
            roadmap.insert_node(Point::new(x, y));
            points.push((x, y));
        }
    }
    assert_eq!(roadmap.node_count(), points.len());
    let query = (37i64, -411i64);
    let gap = |p: &(i64, i64)| (p.0 - query.0).pow(2) + (p.1 - query.1).pow(2);
    let mut expected: Vec<i64> = points.iter().map(gap).collect();
    expected.sort();
    let found = roadmap.k_nearest(&Point::new(query.0, query.1), 25);
    assert_eq!(found.len(), 25);
    let gaps: Vec<i64> = found.iter().map(|id| gap(&points[*id])).collect();
    assert_eq!(gaps, expected[..25].to_vec());
    let nearest = roadmap.nearest(&Point::new(query.0, query.1)).unwrap();
    assert_eq!(gap(&points[nearest]), expected[0]);
}

#[test]
fn the_cheapest_path_is_found() {
    let mut roadmap = Roadmap::new();
    roadmap.insert_node(Point::new(0, 0));
    roadmap.insert_node(Point::new(10, 0));
    roadmap.insert_node(Point::new(5, 1));
    roadmap.insert_node(Point::new(50, 50));
    assert!(roadmap.insert_edge(0, 1, 100));
    assert!(roadmap.insert_edge(0, 2, 3));
    assert!(roadmap.insert_edge(2, 1, 4));
    assert_eq!(roadmap.shortest_path(0, 1), Some((7, vec![0, 2, 1])));
    assert_eq!(roadmap.shortest_path(1, 0), Some((7, vec![1, 2, 0])));
    assert_eq!(roadmap.shortest_path(0, 2), Some((3, vec![0, 2])));
    assert_eq!(roadmap.shortest_path(2, 2), Some((0, vec![2])));
    assert_eq!(roadmap.shortest_path(0, 3), None);
    assert_eq!(roadmap.shortest_path(3, 1), None);
    assert!(roadmap.insert_edge(1, 0, 5));
    assert_eq!(roadmap.shortest_path(0, 1), Some((5, vec![0, 1])));
}

#[test]
fn the_cost_of_a_path_is_capped() {
    let mut roadmap = Roadmap::new();
    roadmap.insert_node(Point::new(0, 0));
    roadmap.insert_node(Point::new(1, 0));
    roadmap.insert_node(Point::new(2, 0));
    assert!(roadmap.insert_edge(0, 1, u64::MAX - 5));
    assert!(roadmap.insert_edge(1, 2, 100));
    assert_eq!(roadmap.shortest_path(0, 1), Some((u64::MAX - 5, vec![0, 1])));
    assert_eq!(roadmap.shortest_path(0, 2), Some((COST_MAX, vec![0, 1, 2])));
}

#[test]
fn edges_of_weight_zero_are_walked() {
    let mut roadmap = line_of_five();
    assert!(roadmap.insert_edge(0, 1, 0));
    assert!(roadmap.insert_edge(1, 2, 0));
    assert!(roadmap.insert_edge(0, 2, 1));
    assert_eq!(roadmap.shortest_path(0, 2), Some((0, vec![0, 1, 2])));
}

#[test]
fn the_graph_can_be_read() {
    let mut roadmap = line_of_five();
    assert!(roadmap.insert_edge(3, 4, 10));
    let graph = roadmap.get_graph();
    assert_eq!(graph.node_count(), 5);
    assert_eq!(graph.edge_count(), 1);
    assert_eq!(graph.node_weight(NodeIndex::new(2)), Some(&(20, 0)));
    assert!(graph.contains_edge(NodeIndex::new(4), NodeIndex::new(3)));
    assert!(is_edge_already_in_graph(graph, 3, 4));
    assert!(is_edge_already_in_graph(graph, 4, 3));
    assert!(!is_edge_already_in_graph(graph, 0, 1));
}

#[test]
fn nearest_nodes_across_the_whole_range() {
    let mut roadmap = Roadmap::new();
    let mut points: Vec<(i64, i64)> = Vec::new();
    let mut seed: u64 = 0x9e37_79b9_7f4a_7c15;
    let mut next = || {
        seed ^= seed << 13;
        seed ^= seed >> 7;
        seed ^= seed << 17;
        (seed % (2 * COORDINATE_MAX as u64 + 1)) as i64 - COORDINATE_MAX
    };
    for corner in [
        (COORDINATE_MAX, COORDINATE_MAX),
        (-COORDINATE_MAX, COORDINATE_MAX),
        (COORDINATE_MAX, -COORDINATE_MAX),
        (-COORDINATE_MAX, -COORDINATE_MAX),
    ] {
        roadmap.insert_node(Point::new(corner.0, corner.1));
        points.push(corner);
    }
    for _ in 0..600 {
        let p = (next(), next());
        if roadmap.node_id(&Point::new(p.0, p.1)).is_none() {
            assert_eq!(roadmap.insert_node(Point::new(p.0, p.1)), Some(points.len()));
            points.push(p);
        }
    }
    assert_eq!(roadmap.tree_size(), points.len());
    for query in [(COORDINATE_MAX, -COORDINATE_MAX), (0, 0), (-COORDINATE_MAX, 12345), (next(), next())] {
        let gap = |p: &(i64, i64)| {
            let dx = p.0 as i128 - query.0 as i128;
            let dy = p.1 as i128 - query.1 as i128;
            dx * dx + dy * dy
        };
        let mut expected: Vec<i128> = points.iter().map(gap).collect();
        expected.sort();
        let found = roadmap.k_nearest(&Point::new(query.0, query.1), 40);
        let gaps: Vec<i128> = found.iter().map(|id| gap(&points[*id])).collect();
        assert_eq!(gaps, expected[..40].to_vec());
        let nearest = roadmap.nearest(&Point::new(query.0, query.1)).unwrap();
        assert_eq!(gap(&points[nearest]), expected[0]);
    }
    let far = roadmap.node(0).unwrap().euclidean_distance(&roadmap.node(3).unwrap());
    assert_eq!(far, 3_260_954_456_333_195_553);
}

#[test]
fn a_path_visits_no_node_twice() {
    let mut roadmap = Roadmap::new();
    for x in 0..6 {
        roadmap.insert_node(Point::new(x, 0));
    }
    for (a, b) in [(0, 1), (1, 2), (2, 0), (2, 3), (3, 4), (4, 2), (4, 5), (1, 3)] {
        assert!(roadmap.insert_edge(a, b, 0));
    }
    for from in 0..6 {
        for to in 0..6 {
            let (cost, path) = roadmap.shortest_path(from, to).unwrap();
            assert_eq!(cost, 0);
            assert_eq!(path[0], from);
            assert_eq!(path[path.len() - 1], to);
            let mut seen = path.clone();
            seen.sort();
            seen.dedup();
            assert_eq!(seen.len(), path.len());
            for pair in path.windows(2) {
                assert!(roadmap.has_edge(pair[0], pair[1]));
            }
        }
    }
}

#[test]
fn the_nearest_nodes_come_in_the_same_order_every_time() {
    let mut roadmap = Roadmap::new();
    for (x, y) in [(10, 0), (-10, 0), (0, 10), (0, -10), (7, 7), (-7, 7), (5, 0), (0, 5)] {
        roadmap.insert_node(Point::new(x, y));
    }
    let first = roadmap.k_nearest(&Point::new(0, 0), 6);
    assert_eq!(first.len(), 6);
    assert!(roadmap.insert_edge(0, 1, 3));
    assert!(roadmap.insert_edge(2, 3, 3));
    for _ in 0..20 {
        assert_eq!(roadmap.k_nearest(&Point::new(0, 0), 6), first);
        assert_eq!(roadmap.k_nearest(&Point::new(0, 0), 3), first[..3].to_vec());
    }
}
