use evosim::eye::{Eye, EYE_CELLS, EYE_FOV_ANGLE, EYE_FOV_RANGE};
use evosim::fixed::FP_ONE;
use evosim::geom::{Food, Point};

fn default_eye() -> Eye {
    Eye::new(EYE_FOV_RANGE, EYE_FOV_ANGLE, EYE_CELLS)
}

fn food_at(x: i64, y: i64) -> Food {
    Food { position: Point { x, y } }
}

#[test]
fn vision_length_matches_cell_count() {
    let eye = default_eye();
    let center = Point { x: 500_000, y: 500_000 };
    let empty = eye.process_vision(center, 0, &vec![]);
    assert_eq!(empty.len(), EYE_CELLS);
    assert_eq!(empty, vec![0; EYE_CELLS]);

    let crowded: Vec<Food> = (0..30).map(|i| food_at(400_000 + i * 10_000, 600_000)).collect();
    assert_eq!(eye.process_vision(center, 0, &crowded).len(), EYE_CELLS);
}

#[test]
fn food_straight_ahead_lands_in_center_cell() {
    let eye = default_eye();
    let center = Point { x: 500_000, y: 500_000 };
    // heading 0 points toward +y; the food sits 0.1 ahead, within the
    // 0.25 range: contribution (0.25 - 0.1) / 0.25 = 0.6 in the middle of
    // the nine wedges
    let v = eye.process_vision(center, 0, &vec![food_at(500_000, 600_000)]);
    assert_eq!(v, vec![0, 0, 0, 0, 600_000, 0, 0, 0, 0]);
}

#[test]
fn food_out_of_range_is_invisible() {
    let eye = default_eye();
    let center = Point { x: 500_000, y: 500_000 };
    let v = eye.process_vision(center, 0, &vec![food_at(500_000, 800_000)]);
    assert_eq!(v, vec![0; EYE_CELLS]);
}

#[test]
fn cell_values_clamp_at_one() {
    let eye = default_eye();
    let center = Point { x: 500_000, y: 500_000 };
    let close = vec![
        food_at(500_000, 600_000),
        food_at(500_000, 600_000),
        food_at(500_000, 600_000),
    ];
    let v = eye.process_vision(center, 0, &close);
    assert_eq!(v[4], FP_ONE);
}
