use f1_fantasy::ranking::{
    drivers_position_graphs, lap_position_graph, order_by_position, qualifying_order, qualifying_ranking,
    stable_sort_order, LapRecord, PositionRecord,
};
use f1_fantasy::telemetry::{closest_index, first_latest, sort_by_text};

#[test]
fn stable_sort_keeps_ties_in_order() {
    assert_eq!(stable_sort_order(&vec![3, 1, 2, 1]), vec![1, 3, 2, 0]);
    assert_eq!(stable_sort_order(&vec![]), Vec::<usize>::new());
    assert_eq!(stable_sort_order(&vec![5, 5, 5]), vec![0, 1, 2]);
    assert_eq!(stable_sort_order(&vec![i128::MAX, i128::MIN, 0]), vec![1, 2, 0]);
}

#[test]
fn qualifying_times_rank_fastest_first_and_missing_last() {
    let order = qualifying_order(&vec![Some(90), None, Some(80), Some(90), None]);
    assert_eq!(order, vec![2, 0, 3, 1, 4]);
    assert_eq!(qualifying_order(&vec![None, Some(u64::MAX)]), vec![1, 0]);
}

#[test]
fn positions_sort_stably() {
    assert_eq!(order_by_position(&vec![2, 1, 3, 1]), vec![1, 3, 0, 2]);
}

fn lap(n: u32, t: Option<i128>, d: u32) -> LapRecord {
    LapRecord { lap_number: n, date_start: t, driver_number: d }
}

fn pos(p: u32, t: i128, d: u32) -> PositionRecord {
    PositionRecord { position: p, driver_number: d, date: t }
}

#[test]
fn lap_graph_follows_latest_position() {
    let laps = vec![lap(3, Some(300), 1), lap(1, None, 1), lap(2, Some(200), 1), lap(4, Some(400), 1)];
    let positions = vec![pos(4, 250, 1), pos(5, 0, 1), pos(2, 400, 1)];
    let g = lap_position_graph(&laps, &positions).unwrap();
    let pairs: Vec<(u32, u32)> = g.iter().map(|p| (p.lap, p.position)).collect();
    assert_eq!(pairs, vec![(1, 5), (2, 5), (3, 4), (4, 2)]);
    assert!(lap_position_graph(&laps, &vec![]).is_none());
    let early = lap_position_graph(&vec![lap(2, Some(-5), 1)], &vec![pos(7, 10, 1)]).unwrap();
    assert_eq!(early.iter().map(|p| (p.lap, p.position)).collect::<Vec<_>>(), vec![(1, 7), (2, 7)]);
}

#[test]
fn session_graphs_are_ordered_by_final_position() {
    let laps = vec![lap(2, Some(100), 44), lap(2, Some(100), 1), lap(3, Some(200), 44), lap(3, Some(200), 1)];
    let positions = vec![pos(1, 0, 44), pos(2, 0, 1), pos(1, 150, 1), pos(2, 150, 44)];
    let graphs = drivers_position_graphs(&laps, &positions);
    assert_eq!(graphs.len(), 2);
    assert_eq!(graphs[0].driver_number, 1);
    assert_eq!(graphs[0].data.iter().map(|p| (p.lap, p.position)).collect::<Vec<_>>(), vec![(1, 2), (2, 2), (3, 1)]);
    assert_eq!(graphs[1].driver_number, 44);
    assert_eq!(graphs[1].data.iter().map(|p| (p.lap, p.position)).collect::<Vec<_>>(), vec![(1, 1), (2, 1), (3, 2)]);
    assert!(drivers_position_graphs(&vec![], &positions).is_empty());
}

#[test]
fn texts_sort_and_latest() {
    let dates = vec![
        "2024-05-01T10:00:02".to_string(),
        "2024-05-01T10:00:01".to_string(),
        "2024-05-01T10:00:02".to_string(),
        "2024-04-30T23:59:59".to_string(),
    ];
    assert_eq!(sort_by_text(&dates), vec![3, 1, 0, 2]);
    assert_eq!(first_latest(&dates), Some(0));
    assert_eq!(first_latest(&vec!["a".to_string(), "b".to_string(), "ab".to_string()]), Some(1));
    assert_eq!(first_latest(&vec![]), None);
}

#[test]
fn closest_instants() {
    assert_eq!(closest_index(&vec![10, 20, 30], 24), 1);
    assert_eq!(closest_index(&vec![10, 20, 30], 25), 1);
    assert_eq!(closest_index(&vec![10, 20, 30], 100), 2);
    assert_eq!(closest_index(&vec![5], -5), 0);
    assert_eq!(closest_index(&vec![30, 10, 10], 10), 1);
}

#[test]
fn qualifying_positions_count_from_one() {
    let times = vec![Some(80_500), None, Some(79_900), Some(80_500)];
    assert_eq!(qualifying_ranking(&times), vec![(2, 1), (0, 2), (3, 3), (1, 4)]);
    assert_eq!(qualifying_ranking(&vec![]), vec![]);
}
