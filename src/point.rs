//! An n-dimensional point.
use vstd::prelude::*;
use crate::error::MathError;
use crate::number::{Number, fits};
use crate::vector::{Vector, add_model, copy_values, dot_values, norm_model, seq_view};

verus! {

/// Coordinate-wise difference of two sequences of equal length.
pub open spec fn diff_spec(a: Seq<int>, b: Seq<int>) -> Seq<int> {
    Seq::new(a.len(), |i: int| a[i] - b[i])
}

/// What `distance_to` returns: the Euclidean distance rounded down.
pub open spec fn distance_model<T: Number>(a: Seq<int>, b: Seq<int>) -> Result<int, MathError> {
    if a.len() != b.len() {
        Err(MathError::DimensionMismatch)
    } else if !(forall|i: int| 0 <= i < a.len() ==> fits::<T>(#[trigger] diff_spec(a, b)[i])) {
        Err(MathError::Overflow)
    } else {
        norm_model::<T>(diff_spec(a, b))
    }
}

/// Anything that has a position in an n-dimensional coordinate system.
pub trait PointLike<T: Number>: Sized {
    /// The coordinates.
    spec fn coords(&self) -> Seq<int>;

    /// Creates a value with the specified coordinates, or None if there are none.
    fn new(values: Vec<T>) -> (r: Option<Self>)
        ensures
            match r {
                Some(p) => values@.len() > 0 && p.coords() == seq_view(values@),
                None => values@.len() == 0,
            },
    ;

    /// Creates a value at the origin of the specified dimension, or None if it is 0.
    fn origin(dimensions: u32) -> (r: Option<Self>)
        ensures
            match r {
                Some(p) => dimensions > 0 && p.coords() == Seq::new(dimensions as nat, |i: int| 0int),
                None => dimensions == 0,
            },
    ;

    /// Creates a value of the specified dimension with random coordinates, or None if it is 0.
    fn random(dimensions: u32) -> (r: Option<Self>)
        ensures
            match r {
                Some(p) => dimensions > 0 && p.coords().len() == dimensions,
                None => dimensions == 0,
            },
    ;

    /// Returns a reference to the coordinates.
    fn values(&self) -> (r: &Vec<T>)
        ensures
            seq_view(r@) == self.coords(),
            r@.len() > 0,
    ;

    /// Returns the dimension.
    fn get_dimensions(&self) -> (r: usize)
        ensures
            r == self.coords().len(),
            r > 0,
    ;
}

impl<T: Number> PointLike<T> for Point<T> {
    open spec fn coords(&self) -> Seq<int> {
        self@
    }

    fn new(values: Vec<T>) -> (r: Option<Self>) {
        Point::new(values)
    }

    fn origin(dimensions: u32) -> (r: Option<Self>) {
        Point::origin(dimensions)
    }

    fn random(dimensions: u32) -> (r: Option<Self>) {
        Point::random(dimensions)
    }

    fn values(&self) -> (r: &Vec<T>) {
        Point::values(self)
    }

    fn get_dimensions(&self) -> (r: usize) {
        Point::get_dimensions(self)
    }
}

impl<T: Number> PointLike<T> for Vector<T> {
    open spec fn coords(&self) -> Seq<int> {
        self@
    }

    fn new(values: Vec<T>) -> (r: Option<Self>) {
        Vector::new(values)
    }

    fn origin(dimensions: u32) -> (r: Option<Self>) {
        Vector::origin(dimensions)
    }

    fn random(dimensions: u32) -> (r: Option<Self>) {
        Vector::random(dimensions)
    }

    fn values(&self) -> (r: &Vec<T>) {
        Vector::values(self)
    }

    fn get_dimensions(&self) -> (r: usize) {
        Vector::get_dimensions(self)
    }
}

/// An n-dimensional point: a non-empty sequence of coordinates.
#[derive(Debug)]
pub struct Point<T: Number> {
    values: Vec<T>,
}

impl<T: Number> View for Point<T> {
    type V = Seq<int>;

    closed spec fn view(&self) -> Seq<int> {
        seq_view(self.values@)
    }
}

impl<T: Number> Clone for Point<T> {
    fn clone(&self) -> (r: Self)
        ensures
            r@ == self@,
    {
        proof {
            use_type_invariant(self);
        }
        Point { values: copy_values(&self.values) }
    }
}

impl<T: Number> Point<T> {
    #[verifier::type_invariant]
    spec fn inv(self) -> bool {
        self.values.len() > 0
    }

    /// Creates a new Point with the specified coordinates.
    ///
    /// Returns a None if the coordinates vector is empty and a Some with the Point otherwise.
    pub fn new(values: Vec<T>) -> (r: Option<Self>)
        ensures
            match r {
                Some(p) => values@.len() > 0 && p@ == seq_view(values@),
                None => values@.len() == 0,
            },
    {
        if values.len() == 0 {
            return None;
        }
        Some(Point { values })
    }

    /// Creates a new Point on the origin with the specified dimensions.
    ///
    /// Returns a None if the dimension is 0 and a Some with the Point otherwise.
    pub fn origin(dimensions: u32) -> (r: Option<Self>)
        ensures
            match r {
                Some(p) => dimensions > 0 && p@ == Seq::new(dimensions as nat, |i: int| 0int),
                None => dimensions == 0,
            },
    {
        match Vector::<T>::origin(dimensions) {
            Some(v) => {
                let values = copy_values(v.values());
                Some(Point { values })
            },
            None => None,
        }
    }

    /// Creates a point with the specified dimensions and random coordinates.
    ///
    /// Returns a None if the dimension is 0 and a Some with the point otherwise.
    pub fn random(dimensions: u32) -> (r: Option<Self>)
        ensures
            match r {
                Some(p) => dimensions > 0 && p@.len() == dimensions,
                None => dimensions == 0,
            },
    {
        match Vector::<T>::random(dimensions) {
            Some(v) => {
                let values = copy_values(v.values());
                Some(Point { values })
            },
            None => None,
        }
    }

    /// Returns a reference to the point's coordinates.
    pub fn values(&self) -> (r: &Vec<T>)
        ensures
            seq_view(r@) == self@,
            r@.len() > 0,
    {
        proof {
            use_type_invariant(self);
        }
        &self.values
    }

    /// Returns the point's dimensions.
    pub fn get_dimensions(&self) -> (r: usize)
        ensures
            r == self@.len(),
            r > 0,
    {
        proof {
            use_type_invariant(self);
        }
        self.values.len()
    }

    /// Calculates the distance between two points, rounded down.
    ///
    /// Returns an Err if the dimensions of the points are different, or a value is not
    /// representable.
    pub fn distance_to(&self, other: &Point<T>) -> (r: Result<T, MathError>)
        ensures
            match r {
                Ok(x) => distance_model::<T>(self@, other@) == Ok::<int, MathError>(x.val()),
                Err(e) => distance_model::<T>(self@, other@) == Err::<int, MathError>(e),
            },
    {
        if self.values.len() != other.values.len() {
            return Err(MathError::DimensionMismatch);
        }
        let len = self.values.len();
        let ghost d = diff_spec(self@, other@);
        let mut diffs: Vec<T> = Vec::new();
        let mut i: usize = 0;
        while i < len
            invariant
                len == self.values.len() == other.values.len(),
                d == diff_spec(self@, other@),
                i <= len,
                diffs.len() == i,
                forall|j: int| 0 <= j < i ==> (#[trigger] diffs@[j]).val() == d[j],
            decreases len - i,
        {
            let x = match self.values[i].checked_sub(other.values[i]) {
                Some(x) => x,
                None => {
                    assert(!fits::<T>(d[i as int]));
                    return Err(MathError::Overflow);
                },
            };
            diffs.push(x);
            i = i + 1;
        }
        assert(seq_view(diffs@) =~= d);
        assert forall|j: int| 0 <= j < len implies fits::<T>(#[trigger] d[j]) by {
            T::lemma_range(diffs@[j]);
        }
        match dot_values(&diffs, &diffs) {
            Ok(s) => Ok(s.sqrt()),
            Err(e) => Err(e),
        }
    }

    /// Adds a vector to a point.
    ///
    /// Returns an Err if the dimensions of the point and the vector are different, or a
    /// coordinate is not representable.
    pub fn add(self, vec: Vector<T>) -> (r: Result<Point<T>, MathError>)
        ensures
            match r {
                Ok(p) => add_model::<T>(self@, vec@) == Ok::<Seq<int>, MathError>(p@),
                Err(e) => add_model::<T>(self@, vec@) == Err::<Seq<int>, MathError>(e),
            },
    {
        proof {
            use_type_invariant(&self);
        }
        let as_vector = match Vector::new(self.values) {
            Some(v) => v,
            None => return Err(MathError::DimensionMismatch),
        };
        match as_vector.add(vec) {
            Ok(v) => Ok(Point { values: copy_values(v.values()) }),
            Err(e) => Err(e),
        }
    }
}

} // verus!
