//! Which geometric axis carries the key, and which the value.
use plotters_backend::BackendCoord;
use vstd::prelude::*;

verus! {

/// Whether the key runs along X (`Vertical`) or along Y (`Horizontal`).
#[derive(Clone, Copy, Debug, PartialEq, Eq, Structural)]
pub enum Orientation {
    Vertical,
    Horizontal,
}

/// One coordinate of a point in data space: the element's key, or a value in
/// hundredths of a sample unit.
#[derive(Debug)]
pub enum AxisValue<K> {
    Key(K),
    Value(i128),
}

/// Holds of integers that fit in an `i32`.
pub open spec fn in_i32(x: int) -> bool {
    i32::MIN <= x <= i32::MAX
}

impl Orientation {
    /// The key-axis component of a backend point.
    pub open spec fn key_axis(self, c: BackendCoord) -> int {
        match self {
            Orientation::Vertical => c.0 as int,
            Orientation::Horizontal => c.1 as int,
        }
    }

    /// The value-axis component of a backend point.
    pub open spec fn value_axis(self, c: BackendCoord) -> int {
        match self {
            Orientation::Vertical => c.1 as int,
            Orientation::Horizontal => c.0 as int,
        }
    }

    /// `c` moved by `delta` along the key axis.
    pub open spec fn shift(self, c: BackendCoord, delta: int) -> BackendCoord {
        match self {
            Orientation::Vertical => ((c.0 + delta) as i32, c.1),
            Orientation::Horizontal => (c.0, (c.1 + delta) as i32),
        }
    }

    /// Puts `key` on the key axis and `value` on the other: `(x, y)`.
    pub open spec fn coord_spec<K>(self, key: K, value: i128) -> (AxisValue<K>, AxisValue<K>) {
        match self {
            Orientation::Vertical => (AxisValue::Key(key), AxisValue::Value(value)),
            Orientation::Horizontal => (AxisValue::Value(value), AxisValue::Key(key)),
        }
    }

    /// Puts `key` on the key axis and `value` on the other: `(x, y)`.
    pub fn make_coord<K>(self, key: K, value: i128) -> (r: (AxisValue<K>, AxisValue<K>))
        ensures
            r == self.coord_spec(key, value),
    {
        match self {
            Orientation::Vertical => (AxisValue::Key(key), AxisValue::Value(value)),
            Orientation::Horizontal => (AxisValue::Value(value), AxisValue::Key(key)),
        }
    }

    /// Moves `c` by `delta` along the key axis; the value axis is left alone.
    pub fn with_offset(self, c: BackendCoord, delta: i128) -> (r: BackendCoord)
        requires
            in_i32(self.key_axis(c) + delta),
        ensures
            r == self.shift(c, delta as int),
            self.key_axis(r) == self.key_axis(c) + delta,
            self.value_axis(r) == self.value_axis(c),
    {
        match self {
            Orientation::Vertical => (((c.0 as i128) + delta) as i32, c.1),
            Orientation::Horizontal => (c.0, ((c.1 as i128) + delta) as i32),
        }
    }
}

/// Moving a point along the key axis and back by the same distance gives the
/// point again.
pub proof fn lemma_offset_round_trip(o: Orientation, c: BackendCoord, delta: int)
    requires
        in_i32(o.key_axis(c) + delta),
    ensures
        o.shift(o.shift(c, delta), -delta) == c,
        o.value_axis(o.shift(c, delta)) == o.value_axis(c),
{
}

} // verus!
