use boxplot_outliers::{
    AxisValue, BoxplotData, BoxplotOutliers, DrawRun, Orientation, Primitive, ShapeStyle,
};
use plotters_backend::{BackendCoord, DrawingErrorKind};

type Failure = DrawingErrorKind<std::fmt::Error>;

/// Runs a plan against a recording backend that fails at call `fail_at`.
fn run(plan: Vec<Primitive>, fail_at: Option<usize>) -> (Vec<Primitive>, Result<(), Failure>) {
    let mut issued = Vec::new();
    let mut r: DrawRun<Failure> = DrawRun::new(plan);
    while let Some(p) = r.next_primitive() {
        let outcome = if Some(issued.len()) == fail_at {
            Err(DrawingErrorKind::DrawingError(std::fmt::Error))
        } else {
            Ok(())
        };
        issued.push(p);
        r.record(outcome);
    }
    (issued, r.finish())
}

fn value_of<K>(a: &AxisValue<K>) -> i128 {
    match a {
        AxisValue::Value(v) => *v,
        AxisValue::Key(_) => panic!("expected a value"),
    }
}

fn key_of(a: &AxisValue<i32>) -> i32 {
    match a {
        AxisValue::Key(k) => *k,
        AxisValue::Value(_) => panic!("expected a key"),
    }
}

/// A plain projection: a key unit is 100 pixels, a sample unit 1 pixel.
fn project(element: &BoxplotOutliers<i32>, o: Orientation) -> Vec<BackendCoord> {
    element
        .point_iter()
        .iter()
        .map(|(x, y)| match o {
            Orientation::Vertical => (key_of(x) * 100, 700 - (value_of(y) / 100) as i32),
            Orientation::Horizontal => ((value_of(x) / 100) as i32, key_of(y) * 100),
        })
        .collect()
}

#[test]
fn test_draw_v() {
    let values = BoxplotData::new(&[6]);
    let element = BoxplotOutliers::new_vertical(1, &values);
    let points = project(&element, Orientation::Vertical);
    let plan = element.draw_plan(&points).unwrap();
    let (issued, result) = run(plan, None);
    assert_eq!(issued.len(), 6);
    assert!(result.is_ok());
}

#[test]
fn test_draw_h() {
    let values = BoxplotData::new(&[6]);
    let element = BoxplotOutliers::new_horizontal(1, &values);
    let points = project(&element, Orientation::Horizontal);
    let plan = element.draw_plan(&points).unwrap();
    let (issued, result) = run(plan, None);
    assert_eq!(issued.len(), 6);
    assert!(result.is_ok());
}

#[test]
fn point_sequence_vertical_and_horizontal() {
    let data = BoxplotData::new(&[7, 15, 36, 39, 40, 41, 1000]);
    let v = BoxplotOutliers::new_vertical(4, &data).point_iter();
    assert_eq!(v.len(), 6);
    let expected = [700, 2550, 3900, 4050, 4100, 100000];
    for (i, (x, y)) in v.iter().enumerate() {
        assert_eq!(key_of(x), 4);
        assert_eq!(value_of(y), expected[i]);
    }
    let h = BoxplotOutliers::new_horizontal(4, &data).point_iter();
    for (i, (x, y)) in h.iter().enumerate() {
        assert_eq!(value_of(x), expected[i]);
        assert_eq!(key_of(y), 4);
    }
}

fn styled() -> ShapeStyle {
    ShapeStyle { color: (1, 2, 3), stroke_width: 3 }
}

fn single_sample() -> BoxplotData {
    BoxplotData::new(&[1])
}

#[test]
fn vertical_figure_geometry() {
    let element = BoxplotOutliers::new_vertical(0, &single_sample())
        .style(styled())
        .width(10)
        .whisker_width(1, 2)
        .offset(3);
    let points = vec![(100, 50), (100, 40), (100, 30), (100, 20), (100, 10), (100, 5)];
    let plan = element.draw_plan(&points).unwrap();
    let s = styled();
    let thin = ShapeStyle { color: (1, 2, 3), stroke_width: 1 };
    assert_eq!(
        plan,
        vec![
            Primitive::Line { from: (101, 50), to: (105, 50), style: s },
            Primitive::Line { from: (103, 50), to: (103, 40), style: thin },
            Primitive::Rect { upper_left: (98, 20), bottom_right: (108, 40), style: s, fill: false },
            Primitive::Line { from: (98, 30), to: (108, 30), style: s },
            Primitive::Line { from: (103, 20), to: (103, 10), style: s },
            Primitive::Line { from: (101, 10), to: (105, 10), style: s },
            Primitive::Circle { center: (103, 5), radius: 5, style: s, fill: false },
        ]
    );
}

#[test]
fn horizontal_figure_geometry() {
    let element = BoxplotOutliers::new_horizontal(0, &single_sample()).width(7).offset(-2);
    let points = vec![(10, 200), (20, 200), (30, 200), (40, 200), (50, 200)];
    let plan = element.draw_plan(&points).unwrap();
    let s = ShapeStyle::black();
    assert_eq!(
        plan,
        vec![
            Primitive::Line { from: (10, 195), to: (10, 201), style: s },
            Primitive::Line { from: (10, 198), to: (20, 198), style: s },
            Primitive::Rect { upper_left: (20, 195), bottom_right: (40, 201), style: s, fill: false },
            Primitive::Line { from: (30, 195), to: (30, 201), style: s },
            Primitive::Line { from: (40, 198), to: (50, 198), style: s },
            Primitive::Line { from: (50, 195), to: (50, 201), style: s },
        ]
    );
}

#[test]
fn degenerate_draw_makes_no_call() {
    let element = BoxplotOutliers::new_vertical(0, &single_sample());
    let points = vec![(1, 1), (2, 2), (3, 3), (4, 4)];
    let plan = element.draw_plan(&points).unwrap();
    assert!(plan.is_empty());
    let (issued, result) = run(plan, None);
    assert!(issued.is_empty());
    assert!(result.is_ok());
}

#[test]
fn fail_fast_on_first_line() {
    let element = BoxplotOutliers::new_vertical(0, &single_sample());
    let points = vec![(100, 50), (100, 40), (100, 30), (100, 20), (100, 10), (100, 5)];
    let plan = element.draw_plan(&points).unwrap();
    assert_eq!(plan.len(), 7);
    let (issued, result) = run(plan, Some(0));
    assert_eq!(issued.len(), 1);
    assert!(matches!(issued[0], Primitive::Line { .. }));
    assert!(matches!(result, Err(DrawingErrorKind::DrawingError(std::fmt::Error))));
}

#[test]
fn failure_midway_stops_the_run() {
    let element = BoxplotOutliers::new_vertical(0, &single_sample());
    let points = vec![(100, 50), (100, 40), (100, 30), (100, 20), (100, 10), (100, 5)];
    let plan = element.draw_plan(&points).unwrap();
    let (issued, result) = run(plan, Some(2));
    assert_eq!(issued.len(), 3);
    assert!(matches!(issued[2], Primitive::Rect { .. }));
    assert!(result.is_err());
}

#[test]
fn figure_outside_coordinate_range() {
    let element = BoxplotOutliers::new_vertical(0, &single_sample()).offset(3);
    let points = vec![(i32::MAX - 1, 0), (0, 0), (0, 0), (0, 0), (0, 0)];
    assert!(element.draw_plan(&points).is_none());
    let fits = vec![(i32::MAX - 8, 0), (0, 0), (0, 0), (0, 0), (0, 0)];
    assert!(element.draw_plan(&fits).is_some());
}

#[test]
fn orientation_moves_along_key_axis() {
    assert_eq!(Orientation::Vertical.with_offset((10, 20), 5), (15, 20));
    assert_eq!(Orientation::Horizontal.with_offset((10, 20), 5), (10, 25));
    let moved = Orientation::Horizontal.with_offset((10, 20), -7);
    assert_eq!(Orientation::Horizontal.with_offset(moved, 7), (10, 20));
    let (x, y) = Orientation::Horizontal.make_coord("g", 250);
    assert!(matches!(x, AxisValue::Value(250)));
    assert!(matches!(y, AxisValue::Key("g")));
}
