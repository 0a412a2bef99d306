//! The box-and-whisker element: its configuration, the points it places in
//! data space, and the primitives that draw it from projected points.
use crate::draw::{Primitive, RunModel, ShapeStyle};
use crate::orient::{in_i32, AxisValue, Orientation};
use crate::stats::BoxplotData;
use plotters_backend::BackendCoord;
use vstd::prelude::*;

verus! {

/// The box width, in pixels, of a new element.
pub const DEFAULT_WIDTH: u32 = 10;

/// The mathematical content of an element. Values are in hundredths of a
/// sample unit; the whisker width is `whisker_num / whisker_den` of the box
/// width.
pub struct ElementModel<K> {
    pub style: ShapeStyle,
    pub width: u32,
    pub whisker_num: u32,
    pub whisker_den: u32,
    pub offset: i32,
    pub key: K,
    pub values: Seq<i128>,
    pub outliers: Seq<i128>,
    pub orientation: Orientation,
}

/// A box-and-whisker element with its outliers.
pub struct BoxplotOutliers<K> {
    style: ShapeStyle,
    width: u32,
    whisker_num: u32,
    whisker_den: u32,
    offset: i32,
    key: K,
    values: [i128; 5],
    outliers: Vec<i128>,
    orientation: Orientation,
}

impl<K> View for BoxplotOutliers<K> {
    type V = ElementModel<K>;

    closed spec fn view(&self) -> ElementModel<K> {
        ElementModel {
            style: self.style,
            width: self.width,
            whisker_num: self.whisker_num,
            whisker_den: self.whisker_den,
            offset: self.offset,
            key: self.key,
            values: self.values@,
            outliers: self.outliers@,
            orientation: self.orientation,
        }
    }
}

/// Half the box width, in whole pixels.
pub open spec fn half_bar<K>(e: ElementModel<K>) -> int {
    e.width as int / 2
}

/// Half the whisker width, in whole pixels, rounded toward zero.
pub open spec fn half_whisker<K>(e: ElementModel<K>) -> int {
    (e.width * e.whisker_num) as int / (2 * e.whisker_den as int)
}

/// A projected point moved by the element's offset along the key axis.
pub open spec fn moved<K>(e: ElementModel<K>, c: BackendCoord) -> BackendCoord {
    e.orientation.shift(c, e.offset as int)
}

/// A projected point moved by the offset, then by `d` along the key axis.
pub open spec fn spanned<K>(e: ElementModel<K>, c: BackendCoord, d: int) -> BackendCoord {
    e.orientation.shift(moved(e, c), d)
}

/// Every key-axis coordinate computed from the `i`th projected point fits in
/// an `i32`.
pub open spec fn fits_at<K>(e: ElementModel<K>, c: BackendCoord, i: int) -> bool {
    let k = e.orientation.key_axis(c) + e.offset;
    let hb = half_bar(e);
    let hw = half_whisker(e);
    &&& in_i32(k)
    &&& (i == 0 || i == 4) ==> in_i32(k - hw) && in_i32(k + hw)
    &&& i == 1 ==> in_i32(k + hb)
    &&& i == 2 ==> in_i32(k - hb) && in_i32(k + hb)
    &&& i == 3 ==> in_i32(k - hb)
}

/// The whole figure drawn from `p` lies in the backend's coordinate range.
pub open spec fn fits<K>(e: ElementModel<K>, p: Seq<BackendCoord>) -> bool {
    forall|i: int| 0 <= i < p.len() ==> #[trigger] fits_at(e, p[i], i)
}

/// The smaller of two coordinates.
pub open spec fn min_i32(a: i32, b: i32) -> i32 {
    if a <= b {
        a
    } else {
        b
    }
}

/// The larger of two coordinates.
pub open spec fn max_i32(a: i32, b: i32) -> i32 {
    if a <= b {
        b
    } else {
        a
    }
}

/// The primitives that draw the element from the projected points
/// `[min, Q1, median, Q3, max, outliers...]`, in drawing order: lower whisker
/// cap, lower whisker, box, median line, upper whisker, upper whisker cap, and
/// one circle per outlier.
pub open spec fn figure<K>(e: ElementModel<K>, p: Seq<BackendCoord>) -> Seq<Primitive> {
    let hb = half_bar(e);
    let hw = half_whisker(e);
    let c1 = spanned(e, p[3], -hb);
    let c2 = spanned(e, p[1], hb);
    seq![
        Primitive::Line { from: spanned(e, p[0], -hw), to: spanned(e, p[0], hw), style: e.style },
        Primitive::Line {
            from: moved(e, p[0]),
            to: moved(e, p[1]),
            style: e.style.color_only_spec(),
        },
        Primitive::Rect {
            upper_left: (min_i32(c1.0, c2.0), min_i32(c1.1, c2.1)),
            bottom_right: (max_i32(c1.0, c2.0), max_i32(c1.1, c2.1)),
            style: e.style,
            fill: false,
        },
        Primitive::Line { from: spanned(e, p[2], -hb), to: spanned(e, p[2], hb), style: e.style },
        Primitive::Line { from: moved(e, p[3]), to: moved(e, p[4]), style: e.style },
        Primitive::Line { from: spanned(e, p[4], -hw), to: spanned(e, p[4], hw), style: e.style },
    ] + Seq::new(
        (p.len() - 5) as nat,
        |i: int|
            Primitive::Circle {
                center: moved(e, p[i + 5]),
                radius: e.width / 2,
                style: e.style,
                fill: false,
            },
    )
}

/// What drawing from `p` asks of the backend: nothing for fewer than five
/// points, the figure where it fits in the coordinate range, and `None` where
/// it does not.
pub open spec fn planned<K>(e: ElementModel<K>, p: Seq<BackendCoord>) -> Option<Seq<Primitive>> {
    if p.len() < 5 {
        Some(Seq::empty())
    } else if fits(e, p) {
        Some(figure(e, p))
    } else {
        None
    }
}

/// The `i`th value of the point sequence: the five numbers, then the outliers.
pub open spec fn value_at<K>(e: ElementModel<K>, i: int) -> i128 {
    if i < 5 {
        e.values[i]
    } else {
        e.outliers[i - 5]
    }
}

/// `pt` carries a clone of `key` on the key axis and `v` on the value axis.
pub open spec fn places<K: Clone>(
    o: Orientation,
    pt: (AxisValue<K>, AxisValue<K>),
    key: K,
    v: i128,
) -> bool {
    let (on_key, on_value) = match o {
        Orientation::Vertical => (pt.0, pt.1),
        Orientation::Horizontal => (pt.1, pt.0),
    };
    &&& on_value == AxisValue::<K>::Value(v)
    &&& match on_key {
        AxisValue::Key(k) => cloned(key, k),
        AxisValue::Value(_) => false,
    }
}

/// Key-axis position of a projected point, as `i128`.
fn key_of(o: Orientation, c: BackendCoord) -> (r: i128)
    ensures
        r == o.key_axis(c),
{
    match o {
        Orientation::Vertical => c.0 as i128,
        Orientation::Horizontal => c.1 as i128,
    }
}

fn fits_i32(x: i128) -> (r: bool)
    ensures
        r == in_i32(x as int),
{
    i32::MIN as i128 <= x && x <= i32::MAX as i128
}

impl<K> BoxplotOutliers<K> {
    /// The configuration is usable: the whisker fraction has a positive
    /// denominator.
    pub open spec fn wf(&self) -> bool {
        self@.whisker_den > 0
    }

    fn from_data(key: K, data: &BoxplotData, orientation: Orientation) -> (r: Self)
        ensures
            r.wf(),
            r@.style == ShapeStyle::black_spec(),
            r@.width == DEFAULT_WIDTH,
            r@.whisker_num == 1 && r@.whisker_den == 1,
            r@.offset == 0,
            r@.key == key,
            r@.orientation == orientation,
            r@.values.len() == 5,
            r@.values[0] == 100 * data@.minimum,
            r@.values[1] == data@.lower_quartile,
            r@.values[2] == data@.median,
            r@.values[3] == data@.upper_quartile,
            r@.values[4] == 100 * data@.maximum,
            r@.outliers.len() == data@.outliers.len(),
            forall|i: int| 0 <= i < r@.outliers.len() ==> r@.outliers[i] == 100 * data@.outliers[i],
    {
        let source = data.outliers();
        let mut outliers: Vec<i128> = Vec::new();
        let mut i: usize = 0;
        while i < source.len()
            invariant
                0 <= i <= source@.len(),
                outliers@.len() == i,
                forall|j: int| 0 <= j < i ==> outliers@[j] == 100 * source@[j],
            decreases source@.len() - i,
        {
            outliers.push(100 * (source[i] as i128));
            i += 1;
        }
        BoxplotOutliers {
            style: ShapeStyle::black(),
            width: DEFAULT_WIDTH,
            whisker_num: 1,
            whisker_den: 1,
            offset: 0,
            key,
            values: data.values(),
            outliers,
            orientation,
        }
    }

    /// A vertical element: the key on the X axis, the values on the Y axis.
    /// Black, 10 pixels wide, whiskers as wide as the box, no offset.
    pub fn new_vertical(key: K, data: &BoxplotData) -> (r: Self)
        ensures
            r.wf(),
            r@.style == ShapeStyle::black_spec(),
            r@.width == DEFAULT_WIDTH,
            r@.whisker_num == 1 && r@.whisker_den == 1,
            r@.offset == 0,
            r@.key == key,
            r@.orientation == Orientation::Vertical,
            r@.values.len() == 5,
            r@.values[0] == 100 * data@.minimum,
            r@.values[1] == data@.lower_quartile,
            r@.values[2] == data@.median,
            r@.values[3] == data@.upper_quartile,
            r@.values[4] == 100 * data@.maximum,
            r@.outliers.len() == data@.outliers.len(),
            forall|i: int| 0 <= i < r@.outliers.len() ==> r@.outliers[i] == 100 * data@.outliers[i],
    {
        Self::from_data(key, data, Orientation::Vertical)
    }

    /// A horizontal element: the key on the Y axis, the values on the X axis.
    /// Black, 10 pixels wide, whiskers as wide as the box, no offset.
    pub fn new_horizontal(key: K, data: &BoxplotData) -> (r: Self)
        ensures
            r.wf(),
            r@.style == ShapeStyle::black_spec(),
            r@.width == DEFAULT_WIDTH,
            r@.whisker_num == 1 && r@.whisker_den == 1,
            r@.offset == 0,
            r@.key == key,
            r@.orientation == Orientation::Horizontal,
            r@.values.len() == 5,
            r@.values[0] == 100 * data@.minimum,
            r@.values[1] == data@.lower_quartile,
            r@.values[2] == data@.median,
            r@.values[3] == data@.upper_quartile,
            r@.values[4] == 100 * data@.maximum,
            r@.outliers.len() == data@.outliers.len(),
            forall|i: int| 0 <= i < r@.outliers.len() ==> r@.outliers[i] == 100 * data@.outliers[i],
    {
        Self::from_data(key, data, Orientation::Horizontal)
    }

    /// Sets the style.
    pub fn style(self, style: ShapeStyle) -> (r: Self)
        ensures
            r@ == (ElementModel { style, ..self@ }),
    {
        BoxplotOutliers { style, ..self }
    }

    /// Sets the box width, in pixels.
    pub fn width(self, width: u32) -> (r: Self)
        ensures
            r@ == (ElementModel { width, ..self@ }),
    {
        BoxplotOutliers { width, ..self }
    }

    /// Sets the whisker width to `numerator / denominator` of the box width.
    pub fn whisker_width(self, numerator: u32, denominator: u32) -> (r: Self)
        requires
            denominator > 0,
        ensures
            r@ == (ElementModel { whisker_num: numerator, whisker_den: denominator, ..self@ }),
            r.wf(),
    {
        BoxplotOutliers { whisker_num: numerator, whisker_den: denominator, ..self }
    }

    /// Sets the offset along the key axis, in pixels.
    pub fn offset(self, offset: i32) -> (r: Self)
        ensures
            r@ == (ElementModel { offset, ..self@ }),
    {
        BoxplotOutliers { offset, ..self }
    }

    fn half_whisker_px(&self) -> (r: i128)
        requires
            self.wf(),
        ensures
            r == half_whisker(self@),
            0 <= r < 0x1_0000_0000_0000_0000,
    {
        let w = self.width as u64;
        let n = self.whisker_num as u64;
        let d = self.whisker_den as u64;
        proof {
            assert(w * n <= 0xffff_ffff * 0xffff_ffff) by (nonlinear_arith)
                requires
                    w <= 0xffff_ffff,
                    n <= 0xffff_ffff,
            ;
        }
        ((w * n) / (2 * d)) as i128
    }

    /// Decides `fits_at` for the `i`th projected point.
    fn fits_at_exec(&self, c: BackendCoord, i: usize, hb: i128, hw: i128) -> (r: bool)
        requires
            hb == half_bar(self@),
            hw == half_whisker(self@),
            0 <= hw < 0x1_0000_0000_0000_0000,
        ensures
            r == fits_at(self@, c, i as int),
    {
        let k = key_of(self.orientation, c) + self.offset as i128;
        let whiskers = !(i == 0 || i == 4) || (fits_i32(k - hw) && fits_i32(k + hw));
        let low = !(i == 2 || i == 3) || fits_i32(k - hb);
        let high = !(i == 1 || i == 2) || fits_i32(k + hb);
        fits_i32(k) && whiskers && low && high
    }

    /// Decides whether the figure drawn from `points` fits in the backend's
    /// coordinate range.
    fn fits_exec(&self, points: &Vec<BackendCoord>) -> (r: bool)
        requires
            self.wf(),
        ensures
            r == fits(self@, points@),
    {
        let hb = (self.width / 2) as i128;
        let hw = self.half_whisker_px();
        let mut i: usize = 0;
        while i < points.len()
            invariant
                0 <= i <= points@.len(),
                hb == half_bar(self@),
                hw == half_whisker(self@),
                0 <= hw < 0x1_0000_0000_0000_0000,
                forall|j: int| 0 <= j < i ==> #[trigger] fits_at(self@, points@[j], j),
            decreases points@.len() - i,
        {
            if !self.fits_at_exec(points[i], i, hb, hw) {
                return false;
            }
            i += 1;
        }
        true
    }

    /// The calls that draw the element from its projected points
    /// `[min, Q1, median, Q3, max, outliers...]`: none for fewer than five
    /// points; `None` where a coordinate of the figure would leave the `i32`
    /// range.
    pub fn draw_plan(&self, points: &Vec<BackendCoord>) -> (r: Option<Vec<Primitive>>)
        requires
            self.wf(),
        ensures
            match r {
                Some(v) => planned(self@, points@) == Some(v@),
                None => planned(self@, points@) is None,
            },
    {
        if points.len() < 5 {
            let empty: Vec<Primitive> = Vec::new();
            assert(empty@ =~= Seq::<Primitive>::empty());
            return Some(empty);
        }
        if !self.fits_exec(points) {
            return None;
        }
        let ghost e = self@;
        let ghost fig = figure(e, points@);
        let o = self.orientation;
        let off = self.offset as i128;
        let hb = (self.width / 2) as i128;
        let hw = self.half_whisker_px();
        let p0 = points[0];
        let p1 = points[1];
        let p2 = points[2];
        let p3 = points[3];
        let p4 = points[4];
        proof {
            assert(fits_at(e, p0, 0));
            assert(fits_at(e, p1, 1));
            assert(fits_at(e, p2, 2));
            assert(fits_at(e, p3, 3));
            assert(fits_at(e, p4, 4));
        }
        let m0 = o.with_offset(p0, off);
        let m1 = o.with_offset(p1, off);
        let m2 = o.with_offset(p2, off);
        let m3 = o.with_offset(p3, off);
        let m4 = o.with_offset(p4, off);
        let c1 = o.with_offset(m3, -hb);
        let c2 = o.with_offset(m1, hb);
        let upper_left = (
            if c1.0 <= c2.0 {
                c1.0
            } else {
                c2.0
            },
            if c1.1 <= c2.1 {
                c1.1
            } else {
                c2.1
            },
        );
        let bottom_right = (
            if c1.0 <= c2.0 {
                c2.0
            } else {
                c1.0
            },
            if c1.1 <= c2.1 {
                c2.1
            } else {
                c1.1
            },
        );
        let mut plan: Vec<Primitive> = Vec::new();
        plan.push(
            Primitive::Line {
                from: o.with_offset(m0, -hw),
                to: o.with_offset(m0, hw),
                style: self.style,
            },
        );
        plan.push(Primitive::Line { from: m0, to: m1, style: self.style.color_only() });
        plan.push(Primitive::Rect { upper_left, bottom_right, style: self.style, fill: false });
        plan.push(
            Primitive::Line {
                from: o.with_offset(m2, -hb),
                to: o.with_offset(m2, hb),
                style: self.style,
            },
        );
        plan.push(Primitive::Line { from: m3, to: m4, style: self.style });
        plan.push(
            Primitive::Line {
                from: o.with_offset(m4, -hw),
                to: o.with_offset(m4, hw),
                style: self.style,
            },
        );
        assert(plan@ =~= fig.take(6));
        let radius = self.width / 2;
        let mut i: usize = 5;
        while i < points.len()
            invariant
                5 <= i <= points@.len(),
                e == self@,
                fig == figure(e, points@),
                fits(e, points@),
                off == e.offset,
                o == e.orientation,
                radius == e.width / 2,
                plan@ =~= fig.take(i + 1),
            decreases points@.len() - i,
        {
            proof {
                assert(fits_at(e, points@[i as int], i as int));
            }
            let center = o.with_offset(points[i], off);
            plan.push(Primitive::Circle { center, radius, style: self.style, fill: false });
            i += 1;
            assert(plan@ =~= fig.take(i + 1));
        }
        assert(plan@ =~= fig);
        Some(plan)
    }
}

/// Drawing from fewer than five projected points makes no backend call and
/// reports success.
pub proof fn lemma_degenerate_draw<K, E>(e: ElementModel<K>, p: Seq<BackendCoord>)
    requires
        p.len() < 5,
    ensures
        planned(e, p) == Some(Seq::<Primitive>::empty()),
        RunModel::<E>::start(Seq::empty()).next() is None,
        RunModel::<E>::start(Seq::empty()).outcome() == Ok::<(), E>(()),
{
}

/// Drawing the figure begins with the lower whisker cap, a line; where the
/// backend fails that call, no other primitive is issued and the run reports
/// that same failure.
pub proof fn lemma_first_line_failure<K, E>(e: ElementModel<K>, p: Seq<BackendCoord>, err: E)
    requires
        p.len() >= 5,
        fits(e, p),
    ensures
        planned(e, p) == Some(figure(e, p)),
        RunModel::<E>::start(figure(e, p)).next() == Some(figure(e, p)[0]),
        figure(e, p)[0] is Line,
        RunModel::<E>::start(figure(e, p)).recorded(Err(err)).next() is None,
        RunModel::<E>::start(figure(e, p)).recorded(Err(err)).outcome() == Err::<(), E>(err),
{
}

impl<K: Clone> BoxplotOutliers<K> {
    /// The points of the element in data space, in order: minimum, Q1,
    /// median, Q3, maximum, then the outliers; each carries the key on the key
    /// axis.
    pub fn point_iter(&self) -> (r: Vec<(AxisValue<K>, AxisValue<K>)>)
        ensures
            r@.len() == 5 + self@.outliers.len(),
            forall|i: int|
                0 <= i < r@.len() ==> places(
                    self@.orientation,
                    #[trigger] r@[i],
                    self@.key,
                    value_at(self@, i),
                ),
    {
        let mut points: Vec<(AxisValue<K>, AxisValue<K>)> = Vec::new();
        let mut i: usize = 0;
        while i < 5
            invariant
                0 <= i <= 5,
                points@.len() == i,
                forall|j: int|
                    0 <= j < i ==> places(
                        self@.orientation,
                        #[trigger] points@[j],
                        self@.key,
                        value_at(self@, j),
                    ),
            decreases 5 - i,
        {
            let key = self.key.clone();
            points.push(self.orientation.make_coord(key, self.values[i]));
            i += 1;
        }
        let mut i: usize = 0;
        while i < self.outliers.len()
            invariant
                0 <= i <= self@.outliers.len(),
                points@.len() == 5 + i,
                forall|j: int|
                    0 <= j < 5 + i ==> places(
                        self@.orientation,
                        #[trigger] points@[j],
                        self@.key,
                        value_at(self@, j),
                    ),
            decreases self@.outliers.len() - i,
        {
            let key = self.key.clone();
            points.push(self.orientation.make_coord(key, self.outliers[i]));
            i += 1;
        }
        points
    }
}

} // verus!
