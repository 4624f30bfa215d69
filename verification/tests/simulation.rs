use snake::body::{Bend, BodyPart, Direction};
use snake::game::Snake;

fn column_body(cells: &[(u32, u32)]) -> Vec<BodyPart> {
    cells.iter().map(|&(x, y)| BodyPart::new(x, y, Direction::Up)).collect()
}

fn positions(s: &Snake) -> Vec<(u32, u32)> {
    (0..s.body_len()).map(|i| s.part_at(i).position()).collect()
}

#[test]
fn fresh_game_matches_initial_layout() {
    let s = Snake::new();
    assert_eq!(s.body_len(), 3);
    assert_eq!(positions(&s), vec![(7, 5), (7, 6), (7, 7)]);
    for i in 0..3 {
        assert_eq!(s.part_at(i).direction, Direction::Up);
        assert_eq!(s.part_at(i).bend, Bend::Straight);
    }
    assert_eq!(s.score(), 0);
    assert!(!s.is_over());
    assert!(!s.is_growing());
    assert_eq!(s.current_direction(), Direction::Up);
    assert_eq!(s.queued_len(), 0);
    let (fx, fy) = s.apple();
    assert!(fx < 15 && fy < 15);
    assert!(!s.has_segment_at(fx, fy));
}

#[test]
fn default_is_a_fresh_game() {
    let s = Snake::default();
    assert_eq!(positions(&s), vec![(7, 5), (7, 6), (7, 7)]);
    assert_eq!(s.score(), 0);
    assert!(!s.is_over());
}

#[test]
fn restart_discards_everything() {
    let mut s = Snake::new();
    s.queue_direction(Direction::Left);
    s.step();
    s.step();
    s = Snake::new();
    assert_eq!(positions(&s), vec![(7, 5), (7, 6), (7, 7)]);
    assert_eq!(s.score(), 0);
    assert_eq!(s.queued_len(), 0);
    assert!(!s.is_over());
    assert!(!s.is_growing());
    let (fx, fy) = s.apple();
    assert!(!s.has_segment_at(fx, fy));
}

#[test]
fn eating_scores_and_defers_growth() {
    let parts = column_body(&[(7, 7), (7, 8), (7, 9)]);
    let mut s = Snake::from_parts(&parts, (7, 6), Direction::Up).unwrap();
    s.step();
    assert!(!s.is_over());
    assert_eq!(s.score(), 1);
    assert!(s.is_growing());
    assert_eq!(s.body_len(), 3);
    assert_eq!(positions(&s), vec![(7, 6), (7, 7), (7, 8)]);
    // The regenerated food is on the grid and off the body.
    let (fx, fy) = s.apple();
    assert!(fx < 15 && fy < 15);
    assert!(!s.has_segment_at(fx, fy));
}

#[test]
fn growth_settles_one_tick_after_eating() {
    let parts = column_body(&[(7, 7), (7, 8), (7, 9)]);
    let mut s = Snake::from_parts(&parts, (7, 6), Direction::Up).unwrap();
    s.step();
    assert_eq!(s.body_len(), 3);
    let next_food_ahead = s.apple() == (7, 5);
    s.step();
    assert!(!s.is_over());
    if next_food_ahead {
        // The fresh food happened to land straight ahead: a second eat,
        // so the settled growth is consumed by the new pending one.
        assert_eq!(s.score(), 2);
        assert_eq!(s.body_len(), 3);
        assert!(s.is_growing());
    } else {
        assert_eq!(s.score(), 1);
        assert_eq!(s.body_len(), 4);
        assert!(!s.is_growing());
    }
}

#[test]
fn running_into_the_top_wall_ends_the_game() {
    let parts = column_body(&[(7, 7), (7, 8), (7, 9)]);
    let mut s = Snake::from_parts(&parts, (0, 0), Direction::Up).unwrap();
    for expected_y in (0..7).rev() {
        s.step();
        assert!(!s.is_over());
        assert_eq!(s.part_at(0).position(), (7, expected_y));
    }
    assert_eq!(s.part_at(0).position(), (7, 0));
    let len_before = s.body_len();
    s.step();
    assert!(s.is_over());
    assert_eq!(s.score(), 0);
    assert_eq!(s.body_len(), len_before);
}

#[test]
fn every_edge_is_a_wall() {
    let cases = [
        ((0, 7), Direction::Left),
        ((14, 7), Direction::Right),
        ((7, 0), Direction::Up),
        ((7, 14), Direction::Down),
    ];
    for ((x, y), dir) in cases {
        let parts = vec![BodyPart::new(x, y, dir)];
        let mut s = Snake::from_parts(&parts, (3, 3), dir).unwrap();
        s.step();
        assert!(s.is_over());
        assert_eq!(s.score(), 0);
        assert_eq!(s.part_at(0).position(), (x, y));
    }
}

#[test]
fn hitting_the_body_ends_the_game() {
    // Head at (5,5); moving down lands on (5,6), held by a segment that
    // is not the tail.
    let parts = column_body(&[(5, 5), (5, 6), (6, 6), (6, 5)]);
    let mut s = Snake::from_parts(&parts, (0, 0), Direction::Down).unwrap();
    s.step();
    assert!(s.is_over());
    assert_eq!(s.score(), 0);
}

#[test]
fn moving_onto_the_vacating_tail_is_legal() {
    // The body closes a square: the head may enter the tail's cell
    // because the tail leaves it on the same tick.
    let parts = column_body(&[(5, 5), (6, 5), (6, 6), (5, 6)]);
    let mut s = Snake::from_parts(&parts, (0, 0), Direction::Down).unwrap();
    s.step();
    assert!(!s.is_over());
    assert_eq!(positions(&s), vec![(5, 6), (5, 5), (6, 5), (6, 6)]);
}

#[test]
fn turning_marks_the_bend_on_the_old_head() {
    let parts = column_body(&[(7, 7), (7, 8), (7, 9)]);
    let mut s = Snake::from_parts(&parts, (0, 0), Direction::Up).unwrap();
    s.queue_direction(Direction::Left);
    s.step();
    assert_eq!(s.part_at(0).position(), (6, 7));
    assert_eq!(s.part_at(0).direction, Direction::Left);
    assert_eq!(s.part_at(0).bend, Bend::Straight);
    let old_head = s.part_at(1);
    assert_eq!(old_head.position(), (7, 7));
    assert_eq!(old_head.direction, Direction::Left);
    assert!(old_head.is_bend());
    assert_eq!(old_head.bend, Bend::TopRight);
}

#[test]
fn tail_is_not_exempt_while_growth_is_pending() {
    // Eating keeps the tail in place for one tick; entering its cell on
    // that tick is a real collision.
    let parts = column_body(&[(5, 5), (5, 6), (4, 6), (4, 5), (4, 4), (3, 4)]);
    let mut s = Snake::from_parts(&parts, (5, 4), Direction::Up).unwrap();
    s.step();
    assert!(!s.is_over());
    assert!(s.is_growing());
    assert_eq!(s.part_at(0).position(), (5, 4));
    assert_eq!(s.part_at(s.body_len() - 1).position(), (4, 4));
    s.queue_direction(Direction::Left);
    s.step();
    assert!(s.is_over());
}

#[test]
fn get_new_head_advances_and_marks_the_turn() {
    let parts = column_body(&[(7, 7), (7, 8), (7, 9)]);
    let mut s = Snake::from_parts(&parts, (0, 0), Direction::Left).unwrap();
    let h = s.get_new_head().unwrap();
    assert_eq!(h.position(), (6, 7));
    assert_eq!(h.direction, Direction::Left);
    assert_eq!(h.bend, Bend::Straight);
    // The old head records the turn: heading Up turning Left bends at
    // its top-right corner.
    assert_eq!(s.part_at(0).position(), (7, 7));
    assert_eq!(s.part_at(0).direction, Direction::Left);
    assert_eq!(s.part_at(0).bend, Bend::TopRight);
    assert!(!s.is_over());
}

#[test]
fn get_new_head_at_the_wall_reports_loss() {
    let parts = vec![BodyPart::new(0, 3, Direction::Left)];
    let mut s = Snake::from_parts(&parts, (5, 5), Direction::Left).unwrap();
    assert!(s.get_new_head().is_none());
    assert!(s.is_over());
}

#[test]
fn queue_rejects_reversal_and_duplicates() {
    let mut s = Snake::new();
    assert_eq!(s.current_direction(), Direction::Up);
    s.queue_direction(Direction::Down);
    assert_eq!(s.queued_len(), 0);
    s.queue_direction(Direction::Up);
    assert_eq!(s.queued_len(), 0);
    s.queue_direction(Direction::Left);
    assert_eq!(s.queued_len(), 1);
    s.queue_direction(Direction::Right);
    assert_eq!(s.queued_len(), 1);
    s.queue_direction(Direction::Left);
    assert_eq!(s.queued_len(), 1);
}

#[test]
fn queue_holds_at_most_two() {
    let mut s = Snake::new();
    s.queue_direction(Direction::Left);
    s.queue_direction(Direction::Up);
    assert_eq!(s.queued_len(), 2);
    s.queue_direction(Direction::Right);
    assert_eq!(s.queued_len(), 2);
}

#[test]
fn queued_directions_commit_one_per_tick() {
    let parts = column_body(&[(7, 7), (7, 8), (7, 9)]);
    let mut s = Snake::from_parts(&parts, (0, 0), Direction::Up).unwrap();
    s.queue_direction(Direction::Left);
    s.queue_direction(Direction::Down);
    assert_eq!(s.queued_len(), 2);
    s.step();
    assert_eq!(s.current_direction(), Direction::Left);
    assert_eq!(s.queued_len(), 1);
    assert_eq!(s.part_at(0).position(), (6, 7));
    s.step();
    assert_eq!(s.current_direction(), Direction::Down);
    assert_eq!(s.queued_len(), 0);
    assert_eq!(s.part_at(0).position(), (6, 8));
}

#[test]
fn body_cells_stay_distinct_while_playing() {
    let parts = column_body(&[(7, 7), (7, 8), (7, 9)]);
    let mut s = Snake::from_parts(&parts, (7, 6), Direction::Up).unwrap();
    let moves = [
        Direction::Left,
        Direction::Down,
        Direction::Right,
        Direction::Up,
        Direction::Right,
        Direction::Down,
        Direction::Left,
        Direction::Up,
    ];
    for dir in moves {
        if s.is_over() {
            break;
        }
        s.queue_direction(dir);
        s.step();
        let ps = positions(&s);
        for a in 0..ps.len() {
            for b in (a + 1)..ps.len() {
                assert_ne!(ps[a], ps[b]);
            }
        }
        let (fx, fy) = s.apple();
        assert!(!s.has_segment_at(fx, fy));
    }
}
