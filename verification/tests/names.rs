use coverage_sim::model::cuttertype::CutterType;
use coverage_sim::model::grid::Grid;
use coverage_sim::model::papersize::paper_size_to_mm;
use coverage_sim::model::papersize::paper_size_to_pixels;
use coverage_sim::model::papersize::to_pixels;
use coverage_sim::model::papersize::PaperSize;
use coverage_sim::model::SimModel;
use coverage_sim::text::eq_ignoring_case;

#[test]
fn paper_sizes_have_names() {
    assert_eq!(PaperSize::A5.as_str(), "A5");
    assert_eq!(PaperSize::A0.as_str(), "A0");
    assert_eq!(PaperSize::Letter.as_str(), "Letter");
    assert_eq!(PaperSize::Legal.as_str(), "Legal");
    assert_eq!(PaperSize::Tabloid.as_str(), "Tabloid");
    assert_eq!(PaperSize::Executive.as_str(), "Executive");
    assert_eq!(PaperSize::Custom.as_str(), "Custom");
}

#[test]
fn paper_sizes_by_name() {
    assert_eq!(PaperSize::from_name("a4"), Some(PaperSize::A4));
    assert_eq!(PaperSize::from_name("A4"), Some(PaperSize::A4));
    assert_eq!(PaperSize::from_name("LeTTer"), Some(PaperSize::Letter));
    assert_eq!(PaperSize::from_name("custom"), Some(PaperSize::Custom));
    assert_eq!(PaperSize::from_name("a"), None);
    assert_eq!(PaperSize::from_name("a44"), None);
    assert_eq!(PaperSize::from_name(""), None);
    assert_eq!(PaperSize::from_name("a\u{0664}"), None);
    assert_eq!("tabloid".parse::<PaperSize>(), Ok(PaperSize::Tabloid));
    assert_eq!("B5".parse::<PaperSize>(), Err(String::from("Invalid paper size: B5")));
}

#[test]
fn paper_sizes_in_millimetres_and_pixels() {
    // tenths of a millimetre
    assert_eq!(paper_size_to_mm("A4"), Some((2100, 2970)));
    assert_eq!(paper_size_to_mm("letter"), Some((2159, 2794)));
    assert_eq!(paper_size_to_mm("executive"), Some((1910, 2540)));
    assert_eq!(paper_size_to_mm("custom"), Some((0, 0)));
    assert_eq!(paper_size_to_mm("folio"), None);
    assert_eq!(PaperSize::A0.get_size_mm(), Some((8410, 11890)));
    // 8.5 by 11 inches at 300 dots per inch
    assert_eq!(paper_size_to_pixels("Letter", 300), Some((2550, 3300)));
    // 210 mm at 300 dots per inch: 2480.3 pixels
    assert_eq!(paper_size_to_pixels("a4", 300), Some((2480, 3507)));
    assert_eq!(PaperSize::A4.get_size_pixels(72), Some((595, 841)));
    assert_eq!(PaperSize::Custom.get_size_pixels(300), Some((0, 0)));
    assert_eq!(paper_size_to_pixels("nothing", 300), None);
    assert_eq!(to_pixels(254, 1), 1);
    assert_eq!(to_pixels(253, 1), 0);
    assert_eq!(to_pixels(11890, u32::MAX), u32::MAX);
}

#[test]
fn cutter_types_by_name() {
    assert_eq!(CutterType::from_name("circular"), Some(CutterType::Circular));
    assert_eq!(CutterType::from_name("BLADE"), Some(CutterType::Blade));
    assert_eq!(CutterType::from_name("blades"), None);
    assert_eq!("Blade".parse::<CutterType>(), Ok(CutterType::Blade));
    assert_eq!("disc".parse::<CutterType>(), Err(String::from("Invalid cutter type: disc")));
}

#[test]
fn texts_are_compared_without_case() {
    assert!(eq_ignoring_case("", ""));
    assert!(eq_ignoring_case("Abc", "aBC"));
    assert!(!eq_ignoring_case("abc", "abd"));
    assert!(!eq_ignoring_case("abc", "ab"));
    // only the letters A to Z are folded
    assert!(!eq_ignoring_case("@", "`"));
    assert!(!eq_ignoring_case("[", "{"));
    assert!(!eq_ignoring_case("\u{c4}", "\u{e4}"));
    assert!(eq_ignoring_case("\u{e4}Z", "\u{e4}z"));
}

#[test]
fn the_shortest_cutting_time() {
    let mut model = SimModel::new(
        0,
        0,
        0,
        0,
        60,
        300,
        6000,
        4000,
        100,
        200,
        90_000,
        0,
        0,
        0,
        0,
        false,
        0,
        CutterType::Circular,
        false,
        0,
        0,
        0,
    );
    model.grid_cells_x = 600;
    model.grid_cells_y = 400;
    model.grid_cells_obstacles_count = 24_000;
    model.coverage_percent = 90_000;
    // two hours
    model.sim_time_elapsed = 7_200_000_000;
    // 216,000 usable cells, 6 cells across the cutter, 2 cells per second:
    // 18,000 s, at 90 percent 16,200 s
    let (hours, minutes, seconds, efficiency) = model.get_theorethical_minimum_cutting_time();
    assert_eq!((hours, minutes, seconds), (4, 30, 0));
    // 16,200 s of 7,200 s: 225 percent
    assert_eq!(efficiency, 225_000);
    model.coverage_percent = 89_999;
    let (hours, minutes, seconds, efficiency) = model.get_theorethical_minimum_cutting_time();
    assert_eq!((hours, minutes, seconds), (4, 29, 59));
    // the coverage was not reached
    assert_eq!(efficiency, 0);
    model.stop_coverage = 0;
    assert_eq!(model.get_theorethical_minimum_cutting_time(), (0, 0, 0, 0));
}

#[test]
fn a_model_gets_its_grid_and_its_results() {
    let mut model = SimModel::new(
        0,
        0,
        0,
        0,
        60,
        300,
        6000,
        4000,
        100,
        200,
        90_000,
        0,
        0,
        0,
        0,
        false,
        0,
        CutterType::Circular,
        false,
        0,
        0,
        0,
    );
    model.grid_cells_x = 6;
    model.grid_cells_y = 4;
    model.use_quad_tree = true;
    model.create_grid();
    let grid: &Grid = model.grid.as_ref().unwrap();
    assert_eq!(grid.get_numcells(), (6, 4));
    assert_eq!(grid.get_cell_size(), 100);
    assert!(grid.use_quad_tree);
    assert_eq!(grid.get_coverage_count(), 0);
    model.collect_results();
    assert_eq!(model.coverage_count, 0);
    assert_eq!(model.coverage_percent, 0);
    assert_eq!(model.max_visited_number, 0);
}
