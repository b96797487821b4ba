use coverage_sim::model::cuttertype::CutterType;
use coverage_sim::model::SimModel;
use coverage_sim::sim::draw_arc;
use coverage_sim::sim::handle_wheel_slippage;
use coverage_sim::sim::settle_slippage_check;
use coverage_sim::sim::SlippageModel;
use coverage_sim::vector::drift;
use coverage_sim::vector::Vector;
use coverage_sim::vector::DIR_SCALE;
use rand::rngs::StdRng;
use rand::SeedableRng;

fn slipping_model() -> SimModel {
    let mut model = SimModel::new(
        5000,
        5000,
        DIR_SCALE,
        0,
        500,
        1500,
        10_000,
        10_000,
        1000,
        1000,
        0,
        0,
        0,
        100,
        0,
        false,
        0,
        CutterType::Circular,
        false,
        0,
        0,
        0,
    );
    model.wheel_slippage = true;
    model.slippage_check_activation_distance = 1000;
    model.slippage_adjustment_step = 100;
    model.slippage_radius_min = 5000;
    model.slippage_radius_max = 6000;
    model.slippage_min_distance = 300;
    model.slippage_max_distance = 400;
    model.distance_covered = 4000;
    model
}

#[test]
fn a_lost_lot_only_notes_the_check() {
    let model = slipping_model();
    let mut slip = SlippageModel::new();
    let mut dir = Vector::new(0, DIR_SCALE);
    settle_slippage_check(&model, &mut slip, &mut dir, None);
    let mut expected = SlippageModel::new();
    expected.last_activation_check = 4000;
    assert_eq!(slip, expected);
    assert_eq!(dir, Vector::new(0, DIR_SCALE));
}

#[test]
fn a_won_lot_begins_the_slippage_on_the_drawn_arc() {
    let model = slipping_model();
    let mut slip = SlippageModel::new();
    let mut dir = Vector::new(0, DIR_SCALE);
    settle_slippage_check(&model, &mut slip, &mut dir, Some((-5500, 350)));
    assert!(slip.within_slippage);
    assert_eq!(slip.adjustment_radius, -5500);
    assert_eq!(slip.end_distance, 350);
    assert_eq!(slip.current_distance, 0);
    assert_eq!(slip.last_adjustment_distance, 4000);
    assert_eq!(slip.last_activation_check, 4000);
    assert_eq!(dir, drift(Vector::new(0, DIR_SCALE), 100, -5500));
    assert!(dir.x > 0);
}

#[test]
fn arcs_are_drawn_from_the_configured_ranges() {
    let model = slipping_model();
    let mut rng = StdRng::seed_from_u64(12);
    let mut left = 0;
    let mut right = 0;
    for _ in 0..200 {
        let (radius, end_distance) = draw_arc(&model, &mut rng);
        assert!((5000..=6000).contains(&radius.abs()));
        assert!((300..=400).contains(&end_distance));
        if radius < 0 {
            left += 1;
        } else {
            right += 1;
        }
    }
    assert!(left > 50 && right > 50);
}

#[test]
fn slippage_begins_about_as_often_as_its_chance_tells() {
    let mut model = slipping_model();
    model.slippage_probability = 250_000;
    let mut rng = StdRng::seed_from_u64(5);
    let mut begun = 0;
    for _ in 0..2000 {
        let mut slip = SlippageModel::new();
        let mut dir = Vector::new(DIR_SCALE, 0);
        handle_wheel_slippage(&model, &mut slip, &mut dir, &mut rng);
        assert_eq!(slip.last_activation_check, 4000);
        if slip.within_slippage {
            begun += 1;
            assert_ne!(dir, Vector::new(DIR_SCALE, 0));
        } else {
            assert_eq!(dir, Vector::new(DIR_SCALE, 0));
        }
    }
    assert!((400..=600).contains(&begun), "{begun}");
}
