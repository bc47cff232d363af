//! A 2D vector bound to a screen context, and the frame scheduling of its animations.
use vstd::prelude::*;
use crate::error::MathError;
use crate::matrix::{Matrix, mat_vec_model, polar_model};
use crate::number::{Number, fits, trunc_div};
use crate::screen::{
    AnimError, Quality, Ratio, Screen2D, ScreenView, in_range_spec, interpolate, save_directory_of,
};
use crate::vector::{Vector, dot_fits, dot_spec};

verus! {

/// An RGB color.
#[derive(PartialEq, Eq, Structural, Clone, Copy, Debug)]
pub struct Color {
    pub r: u8,
    pub g: u8,
    pub b: u8,
}

/// A 2D vector that can be attached to a screen context and animated on it.
#[derive(Debug)]
pub struct Vector2D<T: Number> {
    vector: Vector<T>,
    x: T,
    y: T,
    context: Option<Screen2D>,
    color: Color,
}

impl<T: Number> View for Vector2D<T> {
    type V = (int, int);

    closed spec fn view(&self) -> (int, int) {
        (self.x.val(), self.y.val())
    }
}

/// The state of the context an object is attached to, if any.
pub closed spec fn context_of<T: Number>(v: &Vector2D<T>) -> Option<ScreenView> {
    match v.context {
        Some(s) => Some(s@),
        None => None,
    }
}

/// The color an object is drawn with.
pub closed spec fn color_of<T: Number>(v: &Vector2D<T>) -> Color {
    v.color
}

/// An object that can be shown on a 2D screen.
pub trait Show2D<T: Number> {
    /// The object's position.
    spec fn position(&self) -> (int, int);

    /// Returns the x coordinate of the object.
    fn x(&self) -> (r: T)
        ensures
            r.val() == self.position().0,
    ;

    /// Returns the y coordinate of the object.
    fn y(&self) -> (r: T)
        ensures
            r.val() == self.position().1,
    ;
}

impl<T: Number> Show2D<T> for Vector2D<T> {
    open spec fn position(&self) -> (int, int) {
        self@
    }

    fn x(&self) -> (r: T) {
        Vector2D::x(self)
    }

    fn y(&self) -> (r: T) {
        Vector2D::y(self)
    }
}

/// A screen that can hold objects shown in 2D.
pub trait ScreenLike<V: Number> {
    /// The axis ranges `((x_min, x_max), (y_min, y_max))`.
    spec fn axes(&self) -> ((int, int), (int, int));

    /// Returns true if the object's coordinates lie within both axis ranges.
    fn can_contain<S: Show2D<V>>(&self, object: &S) -> (r: bool)
        ensures
            r == (in_range_spec(object.position().0, self.axes().0.0, self.axes().0.1)
                && in_range_spec(object.position().1, self.axes().1.0, self.axes().1.1)),
    ;

    /// Returns the minimum and maximum of the x axis.
    fn x_axis(&self) -> (r: (i32, i32))
        ensures
            (r.0 as int, r.1 as int) == self.axes().0,
    ;

    /// Returns the minimum and maximum of the y axis.
    fn y_axis(&self) -> (r: (i32, i32))
        ensures
            (r.0 as int, r.1 as int) == self.axes().1,
    ;
}

impl<V: Number> ScreenLike<V> for Screen2D {
    open spec fn axes(&self) -> ((int, int), (int, int)) {
        ((self@.x_min, self@.x_max), (self@.y_min, self@.y_max))
    }

    fn can_contain<S: Show2D<V>>(&self, object: &S) -> (r: bool) {
        Screen2D::can_contain(self, object.x(), object.y())
    }

    fn x_axis(&self) -> (r: (i32, i32)) {
        Screen2D::x_axis(self)
    }

    fn y_axis(&self) -> (r: (i32, i32)) {
        Screen2D::y_axis(self)
    }
}

/// Whether two objects may be combined: unless both have a context, or both contexts hold
/// the same state and save directory.
pub closed spec fn compatible_contexts<T: Number>(a: &Vector2D<T>, b: &Vector2D<T>) -> bool {
    match (&a.context, &b.context) {
        (Some(x), Some(y)) => x@ == y@ && save_directory_of(x) == save_directory_of(y),
        _ => true,
    }
}

/// Whether a screen in the state `s` contains the point `p`.
pub open spec fn contains_spec(s: ScreenView, p: (int, int)) -> bool {
    in_range_spec(p.0, s.x_min, s.x_max) && in_range_spec(p.1, s.y_min, s.y_max)
}

/// The number of frames of an animation: the duration in seconds times the frame rate,
/// rounded to the nearest integer.
pub open spec fn frame_count_spec(duration_ms: int, fps: int) -> int {
    (duration_ms * fps + 500) / 1000
}

/// The denominator of the sampling fraction of a batch of `count` frames.
pub open spec fn sample_den(count: int) -> int {
    if count > 1 {
        count - 1
    } else {
        1
    }
}

/// Linear interpolation from `a` to `b` at the fraction `i / d`, rounded toward zero.
pub open spec fn lerp_spec(a: int, b: int, i: int, d: int) -> int {
    trunc_div((d - i) * a + i * b, d)
}

/// What multiplying the point `p` by the matrix `m` gives, where `m` is 2x2.
pub open spec fn apply_model<T: Number>(m: Seq<Seq<int>>, p: (int, int)) -> Result<
    (int, int),
    MathError,
> {
    if !crate::matrix::is_2x2(m) {
        Err(MathError::InvalidShape)
    } else {
        match mat_vec_model::<T>(m, seq![p.0, p.1]) {
            Ok(r) => Ok((r[0], r[1])),
            Err(e) => Err(e),
        }
    }
}

/// The two stages of moving the point `p` by the polar decomposition `(Q, S)` of `m`:
/// `Q p`, then `S Q p`.
pub open spec fn rotate_then_scale_model<T: Number>(m: Seq<Seq<int>>, p: (int, int)) -> Result<
    ((int, int), (int, int)),
    MathError,
> {
    match polar_model::<T>(m) {
        Err(e) => Err(e),
        Ok((q, s)) => match apply_model::<T>(q, p) {
            Err(e) => Err(e),
            Ok(mid) => match apply_model::<T>(s, mid) {
                Err(e) => Err(e),
                Ok(end) => Ok((mid, end)),
            },
        },
    }
}

/// A batch of frames to render: frame files `start .. start + count - 1`.
#[derive(PartialEq, Eq, Structural, Clone, Copy, Debug)]
pub struct FrameBatch {
    pub start: u32,
    pub count: u32,
}

impl FrameBatch {
    /// The sequence number of the file of the `i`-th frame of the batch.
    pub fn frame_index(&self, i: u32) -> (r: u32)
        requires
            i < self.count,
            self.start + self.count <= u32::MAX,
        ensures
            r == self.start + i,
    {
        self.start + i
    }

    /// The fraction `(numerator, denominator)` of the parameter range at which the `i`-th
    /// frame is sampled: `i / (count - 1)`, or `0 / 1` for a single frame.
    pub fn sample_fraction(&self, i: u32) -> (r: (u32, u32))
        requires
            i < self.count,
        ensures
            r.0 == i,
            r.1 == sample_den(self.count as int),
            r.1 > 0,
    {
        if self.count > 1 {
            (i, self.count - 1)
        } else {
            (i, 1)
        }
    }
}

/// What committing a batch does to a context at frame `current`: the result and the new
/// frame counter.
pub open spec fn commit_model(current: nat, batch: FrameBatch, completed: u32, failed: bool) -> (
    Result<(), AnimError>,
    nat,
) {
    if failed || completed != batch.count {
        (Err(AnimError::FrameGenerationFailure { completed, total: batch.count }), current)
    } else if current != batch.start || batch.start + batch.count > u32::MAX {
        (Err(AnimError::InvalidConfiguration), current)
    } else {
        (Ok(()), (batch.start + batch.count) as nat)
    }
}

/// A batch of `F` frames planned at frame `K` numbers its files `K` to `K + F - 1`, each
/// number once; committing it moves the counter to exactly `K + F` when all `F` frames were
/// generated, and otherwise leaves the counter at `K` and reports the completed and total
/// counts.
pub proof fn lemma_batch_commit(batch: FrameBatch, completed: u32, failed: bool)
    requires
        batch.start + batch.count <= u32::MAX,
    ensures
        forall|i: int|
            0 <= i < batch.count ==> batch.start <= #[trigger] (batch.start + i) <= batch.start
                + batch.count - 1,
        forall|i: int, j: int|
            0 <= i < batch.count && 0 <= j < batch.count && i != j ==> #[trigger] (batch.start + i)
                != #[trigger] (batch.start + j),
        commit_model(batch.start as nat, batch, batch.count, false) == (
            Ok::<(), AnimError>(()),
            (batch.start + batch.count) as nat,
        ),
        failed || completed != batch.count ==> commit_model(
            batch.start as nat,
            batch,
            completed,
            failed,
        ) == (
            Err::<(), AnimError>(AnimError::FrameGenerationFailure { completed, total: batch.count }),
            batch.start as nat,
        ),
{
}

/// Advances the context's frame counter past a batch, only if every frame of it was
/// generated.
///
/// Returns an Err with the completed and total counts, leaving the counter unchanged, if a
/// frame failed; an Err if the counter no longer stands at the batch's start.
pub fn commit_frames(context: &mut Screen2D, batch: &FrameBatch, completed: u32, failed: bool) -> (r:
    Result<(), AnimError>)
    ensures
        (r, final(context)@.current_frame) == commit_model(
            old(context)@.current_frame,
            *batch,
            completed,
            failed,
        ),
        final(context)@ == (ScreenView { current_frame: final(context)@.current_frame, ..old(context)@ }),
        save_directory_of(final(context)) == save_directory_of(old(context)),
{
    if failed || completed != batch.count {
        return Err(AnimError::FrameGenerationFailure { completed, total: batch.count });
    }
    if context.current_frame() != batch.start || batch.count > u32::MAX - batch.start {
        return Err(AnimError::InvalidConfiguration);
    }
    if batch.count == 0 {
        return Ok(());
    }
    match context.change_current_frame(batch.start + batch.count) {
        Ok(()) => Ok(()),
        Err(e) => Err(e),
    }
}

impl<T: Number> Vector2D<T> {
    #[verifier::type_invariant]
    spec fn inv(self) -> bool {
        self.vector@ == seq![self.x.val(), self.y.val()]
    }

    /// Creates a new Vector2D with the specified x, y and color, attached to no context.
    pub fn new(x: T, y: T, color: Color) -> (r: Self)
        ensures
            r@ == (x.val(), y.val()),
            context_of(&r).is_none(),
            color_of(&r) == color,
    {
        Vector2D { vector: Vector::from_pair(x, y), x, y, context: None, color }
    }

    /// Creates a new Vector2D on the origin with the specified color.
    pub fn origin(color: Color) -> (r: Self)
        ensures
            r@ == (0int, 0int),
            context_of(&r).is_none(),
            color_of(&r) == color,
    {
        Self::new(T::zero(), T::zero(), color)
    }

    /// Returns the x coordinate.
    pub fn x(&self) -> (r: T)
        ensures
            r.val() == self@.0,
    {
        self.x
    }

    /// Returns the y coordinate.
    pub fn y(&self) -> (r: T)
        ensures
            r.val() == self@.1,
    {
        self.y
    }

    /// Returns the color.
    pub fn color(&self) -> (r: Color)
        ensures
            r == color_of(self),
    {
        self.color
    }

    /// Returns whether the object is attached to a context.
    pub fn has_context(&self) -> (r: bool)
        ensures
            r == context_of(self).is_some(),
    {
        self.context.is_some()
    }

    /// The dot product of two 2D vectors.
    pub fn dot(&self, other: &Vector2D<T>) -> (r: T)
        requires
            dot_fits::<T>(seq![self@.0, self@.1], seq![other@.0, other@.1], 2),
        ensures
            r.val() == dot_spec(seq![self@.0, self@.1], seq![other@.0, other@.1]),
    {
        proof {
            use_type_invariant(self);
            use_type_invariant(other);
        }
        match self.vector.dot(other.vector.clone()) {
            Ok(x) => x,
            // The precondition rules this branch out.
            Err(_) => T::zero(),
        }
    }

    /// Attaches the object to a context, if the context's axis ranges contain it.
    ///
    /// Returns an Err, leaving the object unattached as it was, if they do not.
    pub fn add_context(&mut self, context: &Screen2D) -> (r: Result<(), AnimError>)
        ensures
            final(self)@ == old(self)@,
            color_of(final(self)) == color_of(old(self)),
            match r {
                Ok(()) => contains_spec(context@, old(self)@) && context_of(final(self)) == Some(
                    context@,
                ),
                Err(e) => !contains_spec(context@, old(self)@) && e == AnimError::OutOfBounds
                    && context_of(final(self)) == context_of(old(self)),
            },
    {
        proof {
            use_type_invariant(&*self);
        }
        if !context.can_contain(self.x, self.y) {
            return Err(AnimError::OutOfBounds);
        }
        self.context = Some(context.copy());
        Ok(())
    }

    /// The pixel positions of the shaft of the arrow that draws the object: from the
    /// context's origin to the object's position.
    ///
    /// Returns an Err if the object has no context, or the context's resolution is not one of
    /// the four qualities.
    pub fn shaft(&self) -> (r: Result<((Ratio, Ratio), (Ratio, Ratio)), AnimError>)
        ensures
            match r {
                Ok((from, to)) => context_of(self).is_some() && from == crate::screen::center_spec(
                    context_of(self).unwrap(),
                ) && exists|q: Quality|
                    crate::screen::resolution_spec(q) == (
                        context_of(self).unwrap().width as int,
                        context_of(self).unwrap().height as int,
                    ) && to == crate::screen::interpolate_spec(
                        q,
                        context_of(self).unwrap(),
                        self@.0,
                        self@.1,
                    ),
                Err(e) => (context_of(self).is_none() && e == AnimError::MissingContext) || (
                context_of(self).is_some() && e == AnimError::InvalidConfiguration && forall|
                    q: Quality,
                | crate::screen::resolution_spec(q) != (
                    context_of(self).unwrap().width as int,
                    context_of(self).unwrap().height as int,
                )),
            },
    {
        match &self.context {
            None => Err(AnimError::MissingContext),
            Some(context) => {
                let (w, h) = context.resolution();
                match Quality::new(w, h) {
                    None => Err(AnimError::InvalidConfiguration),
                    Some(q) => {
                        let from = context.get_center_pixels();
                        let to = interpolate(q, context, (self.x, self.y));
                        Ok((from, to))
                    },
                }
            },
        }
    }

    /// Multiplies the object by a 2x2 matrix, keeping its context and color.
    ///
    /// Returns an Err if the matrix is not 2x2, or a coordinate is not representable.
    pub fn apply(&self, matrix: Matrix<T>) -> (r: Result<Vector2D<T>, AnimError>)
        ensures
            match r {
                Ok(v) => apply_model::<T>(matrix@, self@) == Ok::<(int, int), MathError>(v@)
                    && context_of(&v) == context_of(self) && color_of(&v) == color_of(self),
                Err(e) => match apply_model::<T>(matrix@, self@) {
                    Err(x) => e == AnimError::Math(x),
                    Ok(_) => false,
                },
            },
    {
        proof {
            use_type_invariant(self);
        }
        let (rows, cols) = matrix.get_dimensions();
        if rows != 2 || cols != 2 {
            return Err(AnimError::Math(MathError::InvalidShape));
        }
        let v = match matrix.mul_vector(self.vector.clone()) {
            Ok(v) => v,
            Err(e) => return Err(AnimError::Math(e)),
        };
        let vals = v.values();
        assert(v@.len() == 2);
        assert(mat_vec_model::<T>(matrix@, seq![self@.0, self@.1]) is Ok);
        let x = vals[0];
        let y = vals[1];
        let vector = Vector::from_pair(x, y);
        assert(v@ =~= seq![x.val(), y.val()]);
        let context = match &self.context {
            Some(c) => Some(c.copy()),
            None => None,
        };
        Ok(Vector2D { vector, x, y, context, color: self.color })
    }

    /// Plans the frames of an animation of `duration_ms` milliseconds on `context`: they
    /// start at the context's frame counter and number `round(duration * fps)`.
    ///
    /// Returns an Err if the object has no context, or the frame numbers would overflow.
    pub fn plan_frames(&self, context: &Screen2D, duration_ms: u32) -> (r: Result<
        FrameBatch,
        AnimError,
    >)
        ensures
            match r {
                Ok(b) => context_of(self).is_some() && b.start == context@.current_frame
                    && b.count == frame_count_spec(duration_ms as int, context@.fps as int)
                    && b.start + b.count <= u32::MAX,
                Err(e) => (context_of(self).is_none() && e == AnimError::MissingContext) || (
                context_of(self).is_some() && e == AnimError::InvalidConfiguration
                    && context@.current_frame + frame_count_spec(
                    duration_ms as int,
                    context@.fps as int,
                ) > u32::MAX),
            },
    {
        if self.context.is_none() {
            return Err(AnimError::MissingContext);
        }
        context.lemma_valid();
        let fps = context.fps();
        assert(duration_ms as u64 * fps as u64 <= 0xffff_ffff * 0xffff_ffff) by (nonlinear_arith)
            requires duration_ms <= 0xffff_ffffu32, fps <= 0xffff_ffffu32;
        let count: u64 = (duration_ms as u64 * fps as u64 + 500) / 1000;
        let start = context.current_frame();
        if count > (u32::MAX - start) as u64 {
            return Err(AnimError::InvalidConfiguration);
        }
        Ok(FrameBatch { start, count: count as u32 })
    }

    /// The object of one frame: at `(x, y)`, with this object's color, attached to this
    /// object's context.
    ///
    /// Returns an Err if this object has no context, or the point lies outside it.
    pub fn frame_object(&self, x: T, y: T) -> (r: Result<Vector2D<T>, AnimError>)
        ensures
            match r {
                Ok(v) => v@ == (x.val(), y.val()) && context_of(self).is_some() && context_of(&v)
                    == context_of(self) && color_of(&v) == color_of(self) && contains_spec(
                    context_of(self).unwrap(),
                    (x.val(), y.val()),
                ),
                Err(e) => (context_of(self).is_none() && e == AnimError::MissingContext) || (
                context_of(self).is_some() && e == AnimError::OutOfBounds && !contains_spec(
                    context_of(self).unwrap(),
                    (x.val(), y.val()),
                )),
            },
    {
        match &self.context {
            None => Err(AnimError::MissingContext),
            Some(context) => {
                let mut v = Vector2D::new(x, y, self.color);
                match v.add_context(context) {
                    Ok(()) => Ok(v),
                    Err(e) => Err(e),
                }
            },
        }
    }

    /// The position of the `i`-th frame of a linear move to `target`: the object's position
    /// and the target interpolated at `i / (count - 1)`, rounded toward zero.
    ///
    /// Returns an Err if a coordinate is not representable.
    pub fn lerp_position(&self, batch: &FrameBatch, i: u32, target: (T, T)) -> (r: Result<
        (T, T),
        AnimError,
    >)
        requires
            i < batch.count,
        ensures
            ({
                let d = sample_den(batch.count as int);
                let lx = lerp_spec(self@.0, target.0.val(), i as int, d);
                let ly = lerp_spec(self@.1, target.1.val(), i as int, d);
                match r {
                    Ok((x, y)) => x.val() == lx && y.val() == ly,
                    Err(e) => e == AnimError::Math(MathError::Overflow) && !(fits::<T>(lx)
                        && fits::<T>(ly)),
                }
            }),
    {
        let (num, den) = batch.sample_fraction(i);
        let x = Self::lerp_coord(self.x, target.0, num, den);
        let y = Self::lerp_coord(self.y, target.1, num, den);
        match (x, y) {
            (Some(x), Some(y)) => Ok((x, y)),
            _ => Err(AnimError::Math(MathError::Overflow)),
        }
    }

    /// `a` and `b` interpolated at `i / d`, rounded toward zero, where representable.
    fn lerp_coord(a: T, b: T, i: u32, d: u32) -> (r: Option<T>)
        requires
            0 < d,
            i <= d,
        ensures
            match r {
                Some(x) => x.val() == lerp_spec(a.val(), b.val(), i as int, d as int),
                None => !fits::<T>(lerp_spec(a.val(), b.val(), i as int, d as int)),
            },
    {
        let av = a.to_i64() as i128;
        let bv = b.to_i64() as i128;
        let di = d as i128;
        let ii = i as i128;
        assert((di - ii) * av <= 0x1_0000_0000 * 0x8000_0000_0000_0000 && (di - ii) * av >= -0x1_0000_0000 * 0x8000_0000_0000_0000) by (nonlinear_arith)
            requires 0 <= di - ii <= 0x1_0000_0000, -0x8000_0000_0000_0000 <= av <= 0x8000_0000_0000_0000;
        assert(ii * bv <= 0x1_0000_0000 * 0x8000_0000_0000_0000 && ii * bv >= -0x1_0000_0000 * 0x8000_0000_0000_0000) by (nonlinear_arith)
            requires 0 <= ii <= 0x1_0000_0000, -0x8000_0000_0000_0000 <= bv <= 0x8000_0000_0000_0000;
        let s = (di - ii) * av + ii * bv;
        let q = match s.checked_div(di) {
            Some(q) => q,
            None => {
                proof {
                    crate::number::lemma_trunc_div_shrinks(s as int, di as int);
                }
                return None;
            },
        };
        assert(q == trunc_div(s as int, di as int));
        if q < i64::MIN as i128 || q > i64::MAX as i128 {
            proof {
                T::lemma_bounds();
            }
            return None;
        }
        T::checked_from_i64(q as i64)
    }

    /// The two stages of a rotate-then-scale animation by `matrix`: the object moved by the
    /// rotation part `Q` of the polar decomposition, then that position moved by the
    /// scaling part `S`.
    ///
    /// Returns an Err if the decomposition or a product fails.
    pub fn rotate_then_scale_targets(&self, matrix: Matrix<T>) -> (r: Result<
        (Vector2D<T>, Vector2D<T>),
        AnimError,
    >)
        ensures
            match r {
                Ok((mid, end)) => rotate_then_scale_model::<T>(matrix@, self@) == Ok::<
                    ((int, int), (int, int)),
                    MathError,
                >((mid@, end@)),
                Err(e) => match rotate_then_scale_model::<T>(matrix@, self@) {
                    Err(x) => e == AnimError::Math(x),
                    Ok(_) => false,
                },
            },
    {
        let (q, s) = match matrix.polar_decomposition_2d() {
            Ok(p) => p,
            Err(e) => return Err(AnimError::Math(e)),
        };
        let mid = match self.apply(q) {
            Ok(v) => v,
            Err(e) => return Err(e),
        };
        let end = match mid.apply(s) {
            Ok(v) => v,
            Err(e) => return Err(e),
        };
        Ok((mid, end))
    }

    /// Adds two objects coordinate by coordinate; the sum keeps the left object's context
    /// and color.
    ///
    /// Returns an Err if both objects have contexts that differ, or a coordinate is not
    /// representable.
    pub fn add(self, rhs: Vector2D<T>) -> (r: Result<Vector2D<T>, AnimError>)
        ensures
            match r {
                Ok(v) => compatible_contexts(&self, &rhs) && fits::<T>(self@.0 + rhs@.0)
                    && fits::<T>(self@.1 + rhs@.1) && v@ == (self@.0 + rhs@.0, self@.1 + rhs@.1)
                    && context_of(&v) == context_of(&self) && color_of(&v) == color_of(&self),
                Err(e) => (!compatible_contexts(&self, &rhs) && e == AnimError::InvalidConfiguration)
                    || (compatible_contexts(&self, &rhs) && e == AnimError::Math(MathError::Overflow)
                    && !(fits::<T>(self@.0 + rhs@.0) && fits::<T>(self@.1 + rhs@.1))),
            },
    {
        let same = match (&self.context, &rhs.context) {
            (Some(a), Some(b)) => a.same_as(b),
            _ => true,
        };
        if !same {
            return Err(AnimError::InvalidConfiguration);
        }
        let x = self.x.checked_add(rhs.x);
        let y = self.y.checked_add(rhs.y);
        match (x, y) {
            (Some(x), Some(y)) => {
                proof {
                    T::lemma_range(x);
                    T::lemma_range(y);
                }
                Ok(Vector2D { vector: Vector::from_pair(x, y), x, y, context: self.context, color: self.color })
            },
            _ => Err(AnimError::Math(MathError::Overflow)),
        }
    }

    /// Multiplies an object by a scalar; the result has the scalar's type and keeps the
    /// object's context and color.
    ///
    /// Returns an Err if a coordinate or a product is not representable by that type.
    pub fn scale<U: Number>(self, scalar: U) -> (r: Result<Vector2D<U>, MathError>)
        ensures
            match r {
                Ok(v) => fits::<U>(self@.0) && fits::<U>(self@.1) && v@ == (
                    scalar.val() * self@.0,
                    scalar.val() * self@.1,
                ) && context_of(&v) == context_of(&self) && color_of(&v) == color_of(&self),
                Err(e) => e == MathError::Overflow && !(fits::<U>(self@.0) && fits::<U>(self@.1)
                    && fits::<U>(scalar.val() * self@.0) && fits::<U>(scalar.val() * self@.1)),
            },
    {
        proof {
            use_type_invariant(&self);
        }
        let scaled = match self.vector.scale(scalar) {
            Ok(v) => v,
            Err(e) => {
                assert(!(forall|i: int| 0 <= i < self.vector@.len() ==> fits::<U>(#[trigger] self.vector@[i]) && fits::<U>(scalar.val() * self.vector@[i])) ==> !(fits::<U>(self@.0) && fits::<U>(self@.1)
                    && fits::<U>(scalar.val() * self@.0) && fits::<U>(scalar.val() * self@.1))) by {
                    if fits::<U>(self@.0) && fits::<U>(self@.1) && fits::<U>(scalar.val() * self@.0) && fits::<U>(scalar.val() * self@.1) {
                        assert forall|i: int| 0 <= i < self.vector@.len() implies fits::<U>(#[trigger] self.vector@[i]) && fits::<U>(scalar.val() * self.vector@[i]) by {
                            assert(i == 0 || i == 1);
                        }
                    }
                }
                return Err(e);
            },
        };
        let vals = scaled.values();
        assert(scaled@.len() == 2);
        let x = vals[0];
        let y = vals[1];
        assert(scaled@[0] == x.val() && scaled@[1] == y.val());
        Ok(Vector2D { vector: Vector::from_pair(x, y), x, y, context: self.context, color: self.color })
    }
}

} // verus!
