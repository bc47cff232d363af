//! The 2D screen context: axis ranges, output resolution and the frame counter, and the
//! mapping from world coordinates to pixels.
use vstd::prelude::*;
use crate::number::{Number, abs_int};

verus! {

/// Why a screen or animation operation failed.
#[derive(PartialEq, Eq, Structural, Clone, Copy, Debug)]
pub enum AnimError {
    /// The object's coordinates lie outside the context's axis ranges.
    OutOfBounds,
    /// The object has no context.
    MissingContext,
    /// Not every frame of a batch was generated.
    FrameGenerationFailure { completed: u32, total: u32 },
    /// Malformed axis ranges, an unsupported resolution, or a frame counter that would not
    /// move forward.
    InvalidConfiguration,
    /// A geometric operation failed.
    Math(crate::error::MathError),
}

/// An exact pixel coordinate `num / den`, with `den > 0`.
#[derive(PartialEq, Eq, Structural, Clone, Copy, Debug)]
pub struct Ratio {
    pub num: i128,
    pub den: i128,
}

/// Whether two ratios with positive denominators stand for the same number.
pub open spec fn same_value(a: Ratio, b: Ratio) -> bool {
    a.num * b.den == b.num * a.den
}

/// The output resolutions that frames can have.
#[derive(PartialEq, Eq, Structural, Clone, Copy, Debug)]
#[allow(non_camel_case_types, clippy::upper_case_acronyms)]
pub enum Quality {
    LOW,
    MEDIUM,
    HIGH,
    ULTRA,
}

/// The resolution of each quality, in pixels.
pub open spec fn resolution_spec(q: Quality) -> (int, int) {
    match q {
        Quality::LOW => (854, 480),
        Quality::MEDIUM => (1280, 720),
        Quality::HIGH => (1920, 1080),
        Quality::ULTRA => (3840, 2160),
    }
}

impl Quality {
    /// The quality whose resolution is `x` by `y`, or None if there is none.
    pub fn new(x: u32, y: u32) -> (r: Option<Quality>)
        ensures
            match r {
                Some(q) => resolution_spec(q) == (x as int, y as int),
                None => forall|q: Quality| resolution_spec(q) != (x as int, y as int),
            },
    {
        if x == 854 && y == 480 {
            Some(Quality::LOW)
        } else if x == 1280 && y == 720 {
            Some(Quality::MEDIUM)
        } else if x == 1920 && y == 1080 {
            Some(Quality::HIGH)
        } else if x == 3840 && y == 2160 {
            Some(Quality::ULTRA)
        } else {
            None
        }
    }

    /// The quality's resolution as (width, height).
    pub fn resolution(&self) -> (r: (u32, u32))
        ensures
            (r.0 as int, r.1 as int) == resolution_spec(*self),
    {
        match self {
            Quality::LOW => (854, 480),
            Quality::MEDIUM => (1280, 720),
            Quality::HIGH => (1920, 1080),
            Quality::ULTRA => (3840, 2160),
        }
    }

    /// The quality's usable resolution: 95% of the width and of the height.
    pub fn usable(&self) -> (r: (Ratio, Ratio))
        ensures
            r.0.den == 20 && r.0.num == 19 * resolution_spec(*self).0,
            r.1.den == 20 && r.1.num == 19 * resolution_spec(*self).1,
    {
        let (w, h) = self.resolution();
        (Ratio { num: 19 * w as i128, den: 20 }, Ratio { num: 19 * h as i128, den: 20 })
    }
}

/// The command line settings of a rendering run.
#[derive(Debug)]
pub struct Args {
    /// The source the animation is read from.
    pub source: String,
    /// Frames per second.
    pub fps: u32,
    /// Where the video is written.
    pub output: String,
    /// Whether the video is an animated image rather than an encoded video.
    pub gif: bool,
    /// The output resolution.
    pub quality: Quality,
}

/// The mathematical state of a screen.
pub struct ScreenView {
    pub x_min: int,
    pub x_max: int,
    pub y_min: int,
    pub y_max: int,
    pub current_frame: nat,
    pub fps: nat,
    pub width: nat,
    pub height: nat,
}

/// Whether `v` lies in the closed range from `start` to `end`.
pub open spec fn in_range_spec(v: int, start: int, end: int) -> bool {
    start <= v <= end
}

/// The absolute value of an axis bound, widened.
fn abs_i32(v: i32) -> (r: i128)
    ensures
        r == abs_int(v as int),
        0 <= r <= 0x8000_0000,
{
    if v < 0 {
        -(v as i128)
    } else {
        v as i128
    }
}

/// Returns whether or not a value is inside an axis' range.
pub fn in_axis_range<T: Number>(val: T, range: (i32, i32)) -> (r: bool)
    ensures
        r == in_range_spec(val.val(), range.0 as int, range.1 as int),
{
    let v = val.to_i64();
    range.0 as i64 <= v && v <= range.1 as i64
}

/// A 2D screen: axis ranges, save directory, frame rate, resolution and the number of
/// frames generated so far.
#[derive(Debug)]
pub struct Screen2D {
    x_axis: (i32, i32),
    y_axis: (i32, i32),
    save_directory: String,
    current_frame: u32,
    fps: u32,
    width: u32,
    height: u32,
}

impl View for Screen2D {
    type V = ScreenView;

    closed spec fn view(&self) -> ScreenView {
        ScreenView {
            x_min: self.x_axis.0 as int,
            x_max: self.x_axis.1 as int,
            y_min: self.y_axis.0 as int,
            y_max: self.y_axis.1 as int,
            current_frame: self.current_frame as nat,
            fps: self.fps as nat,
            width: self.width as nat,
            height: self.height as nat,
        }
    }
}

/// The save directory of a screen.
pub closed spec fn save_directory_of(s: &Screen2D) -> Seq<char> {
    s.save_directory@
}

/// The pixel position of the world origin: `width * |x_min| / (|x_min| + |x_max|)` and
/// `height * |y_max| / (|y_max| + |y_min|)`.
pub open spec fn center_spec(v: ScreenView) -> (Ratio, Ratio) {
    (
        Ratio {
            num: (v.width * abs_int(v.x_min)) as i128,
            den: (abs_int(v.x_min) + abs_int(v.x_max)) as i128,
        },
        Ratio {
            num: (v.height * abs_int(v.y_max)) as i128,
            den: (abs_int(v.y_max) + abs_int(v.y_min)) as i128,
        },
    )
}

/// The pixel position of a world point: each coordinate scaled by 95% of the quality's
/// resolution over the sum of the axis' absolute bounds, y inverted, then offset by the
/// origin's pixel position.
pub open spec fn interpolate_spec(q: Quality, v: ScreenView, x: int, y: int) -> (Ratio, Ratio) {
    let (w, h) = resolution_spec(q);
    let sx = abs_int(v.x_min) + abs_int(v.x_max);
    let sy = abs_int(v.y_min) + abs_int(v.y_max);
    (
        Ratio {
            num: (19 * w * x + 20 * v.width * abs_int(v.x_min)) as i128,
            den: (20 * sx) as i128,
        },
        Ratio {
            num: (20 * v.height * abs_int(v.y_max) - 19 * h * y) as i128,
            den: (20 * sy) as i128,
        },
    )
}

/// Whether a screen state holds values that a `Screen2D` can hold.
pub open spec fn machine_view(v: ScreenView) -> bool {
    &&& i32::MIN <= v.x_min < v.x_max <= i32::MAX
    &&& i32::MIN <= v.y_min < v.y_max <= i32::MAX
    &&& v.width <= u32::MAX && v.height <= u32::MAX
}

/// The world origin is mapped exactly onto the origin's pixel position, for every quality.
pub proof fn lemma_interpolate_origin(q: Quality, v: ScreenView)
    requires
        machine_view(v),
    ensures
        same_value(interpolate_spec(q, v, 0, 0).0, center_spec(v).0),
        same_value(interpolate_spec(q, v, 0, 0).1, center_spec(v).1),
{
    let ax = abs_int(v.x_min);
    let ay = abs_int(v.y_max);
    let sx = abs_int(v.x_min) + abs_int(v.x_max);
    let sy = abs_int(v.y_min) + abs_int(v.y_max);
    let (w, h) = resolution_spec(q);
    assert(0 <= v.width * ax <= 0x1_0000_0000 * 0x8000_0000) by (nonlinear_arith)
        requires 0 <= v.width <= 0x1_0000_0000, 0 <= ax <= 0x8000_0000;
    assert(0 <= v.height * ay <= 0x1_0000_0000 * 0x8000_0000) by (nonlinear_arith)
        requires 0 <= v.height <= 0x1_0000_0000, 0 <= ay <= 0x8000_0000;
    assert(19 * w * 0 == 0);
    assert(19 * h * 0 == 0);
    assert(20 * v.width * ax == 20 * (v.width * ax)) by (nonlinear_arith);
    assert(20 * v.height * ay == 20 * (v.height * ay)) by (nonlinear_arith);
    assert(20 * v.height * ay - 19 * h * 0 == 20 * (v.height * ay));
    let i = interpolate_spec(q, v, 0, 0);
    let c = center_spec(v);
    assert(i.0.num == 20 * (v.width * ax) && i.0.den == 20 * sx);
    assert(c.0.num == v.width * ax && c.0.den == sx);
    assert(i.1.num == 20 * (v.height * ay) && i.1.den == 20 * sy);
    assert(c.1.num == v.height * ay && c.1.den == sy);
    assert((20 * (v.width * ax)) * sx == (v.width * ax) * (20 * sx)) by (nonlinear_arith);
    assert((20 * (v.height * ay)) * sy == (v.height * ay) * (20 * sy)) by (nonlinear_arith);
}

/// Whether a tick is drawn at the integer point `(x, y)`: a point of an axis, other than
/// the origin, strictly inside both ranges.
pub open spec fn is_marker(v: ScreenView, x: int, y: int) -> bool {
    &&& v.x_min < x < v.x_max
    &&& v.y_min < y < v.y_max
    &&& (x == 0 || y == 0)
    &&& x != y
}

/// Whether the axis ranges are well formed.
pub open spec fn valid_ranges(x: (i32, i32), y: (i32, i32)) -> bool {
    x.0 < x.1 && y.0 < y.1
}

impl Screen2D {
    #[verifier::type_invariant]
    spec fn inv(self) -> bool {
        valid_ranges(self.x_axis, self.y_axis)
    }

    /// Every screen has well-formed axis ranges.
    pub fn lemma_valid(&self)
        ensures
            self@.x_min < self@.x_max,
            self@.y_min < self@.y_max,
            i32::MIN <= self@.x_min && self@.x_max <= i32::MAX,
            i32::MIN <= self@.y_min && self@.y_max <= i32::MAX,
            self@.current_frame <= u32::MAX,
            self@.width <= u32::MAX && self@.height <= u32::MAX,
            self@.fps <= u32::MAX,
    {
        proof {
            use_type_invariant(self);
        }
    }

    /// Creates a new screen with the specified axes, save directory, fps, width and height,
    /// and its frame counter at 0.
    ///
    /// Returns a None if an axis range is not valid (its start is not below its end).
    pub fn new(
        x_axis: (i32, i32),
        y_axis: (i32, i32),
        save_directory: String,
        fps: u32,
        width: u32,
        height: u32,
    ) -> (r: Option<Self>)
        ensures
            match r {
                Some(s) => valid_ranges(x_axis, y_axis) && s@ == (ScreenView {
                    x_min: x_axis.0 as int,
                    x_max: x_axis.1 as int,
                    y_min: y_axis.0 as int,
                    y_max: y_axis.1 as int,
                    current_frame: 0,
                    fps: fps as nat,
                    width: width as nat,
                    height: height as nat,
                }) && save_directory_of(&s) == save_directory@,
                None => !valid_ranges(x_axis, y_axis),
            },
    {
        if x_axis.0 < x_axis.1 && y_axis.0 < y_axis.1 {
            return Some(
                Screen2D { x_axis, y_axis, save_directory, current_frame: 0, fps, width, height },
            );
        }
        None
    }

    /// Changes the axes' limits to the specified ones.
    ///
    /// Returns an Err, leaving the screen unchanged, if a range is invalid.
    pub fn change_dimensions(&mut self, x_axis: (i32, i32), y_axis: (i32, i32)) -> (r: Result<
        (),
        AnimError,
    >)
        ensures
            match r {
                Ok(()) => valid_ranges(x_axis, y_axis) && final(self)@ == (ScreenView {
                    x_min: x_axis.0 as int,
                    x_max: x_axis.1 as int,
                    y_min: y_axis.0 as int,
                    y_max: y_axis.1 as int,
                    ..old(self)@
                }),
                Err(e) => !valid_ranges(x_axis, y_axis) && e == AnimError::InvalidConfiguration
                    && final(self)@ == old(self)@,
            },
            save_directory_of(final(self)) == save_directory_of(old(self)),
    {
        proof {
            use_type_invariant(&*self);
        }
        if x_axis.0 < x_axis.1 && y_axis.0 < y_axis.1 {
            self.x_axis = x_axis;
            self.y_axis = y_axis;
            return Ok(());
        }
        Err(AnimError::InvalidConfiguration)
    }

    /// Returns the position of the origin in pixels, counted from the top left corner.
    pub fn get_center_pixels(&self) -> (r: (Ratio, Ratio))
        ensures
            r == center_spec(self@),
            r.0.den > 0 && r.1.den > 0,
    {
        proof {
            use_type_invariant(self);
        }
        let ax0 = abs_i32(self.x_axis.0);
        let ax1 = abs_i32(self.x_axis.1);
        let ay0 = abs_i32(self.y_axis.0);
        let ay1 = abs_i32(self.y_axis.1);
        let w = self.width as i128;
        let h = self.height as i128;
        assert(w * ax0 <= 0x1_0000_0000 * 0x8000_0000) by (nonlinear_arith)
            requires 0 <= w <= 0x1_0000_0000, 0 <= ax0 <= 0x8000_0000;
        assert(h * ay1 <= 0x1_0000_0000 * 0x8000_0000) by (nonlinear_arith)
            requires 0 <= h <= 0x1_0000_0000, 0 <= ay1 <= 0x8000_0000;
        (Ratio { num: w * ax0, den: ax0 + ax1 }, Ratio { num: h * ay1, den: ay1 + ay0 })
    }

    /// Moves the frame counter forward to `val`.
    ///
    /// Returns an Err, leaving the screen unchanged, unless `val` is beyond the current frame.
    pub fn change_current_frame(&mut self, val: u32) -> (r: Result<(), AnimError>)
        ensures
            match r {
                Ok(()) => val > old(self)@.current_frame && final(self)@ == (ScreenView {
                    current_frame: val as nat,
                    ..old(self)@
                }),
                Err(e) => val <= old(self)@.current_frame && e == AnimError::InvalidConfiguration
                    && final(self)@ == old(self)@,
            },
            save_directory_of(final(self)) == save_directory_of(old(self)),
    {
        proof {
            use_type_invariant(&*self);
        }
        if val > self.current_frame {
            self.current_frame = val;
            return Ok(());
        }
        Err(AnimError::InvalidConfiguration)
    }

    /// Returns true if both screens hold the same state and save directory.
    pub fn same_as(&self, other: &Screen2D) -> (r: bool)
        ensures
            r == (self@ == other@ && save_directory_of(self) == save_directory_of(other)),
    {
        self.x_axis.0 == other.x_axis.0 && self.x_axis.1 == other.x_axis.1 && self.y_axis.0
            == other.y_axis.0 && self.y_axis.1 == other.y_axis.1 && self.current_frame
            == other.current_frame && self.fps == other.fps && self.width == other.width
            && self.height == other.height && self.save_directory == other.save_directory
    }

    /// A copy of the screen.
    pub fn copy(&self) -> (r: Screen2D)
        ensures
            r@ == self@ && save_directory_of(&r) == save_directory_of(self),
    {
        proof {
            use_type_invariant(self);
        }
        Screen2D {
            x_axis: self.x_axis,
            y_axis: self.y_axis,
            save_directory: self.save_directory.clone(),
            current_frame: self.current_frame,
            fps: self.fps,
            width: self.width,
            height: self.height,
        }
    }

    /// The integer points where ticks are drawn: each point of an axis, other than the
    /// origin, strictly inside both ranges; those of the x axis first, left to right, then
    /// those of the y axis, bottom to top.
    pub fn axis_markers(&self) -> (r: Vec<(i32, i32)>)
        ensures
            forall|p: (i32, i32)| r@.contains(p) <==> is_marker(self@, p.0 as int, p.1 as int),
    {
        proof {
            use_type_invariant(self);
        }
        let mut out: Vec<(i32, i32)> = Vec::new();
        let (x_min, x_max) = self.x_axis;
        let (y_min, y_max) = self.y_axis;
        let on_x = y_min < 0 && 0 < y_max;
        let on_y = x_min < 0 && 0 < x_max;
        let mut x: i32 = x_min;
        while x < x_max - 1
            invariant
                x_min <= x < x_max,
                x_min == self@.x_min && x_max == self@.x_max,
                y_min == self@.y_min && y_max == self@.y_max,
                on_x == (y_min < 0 && 0 < y_max),
                forall|p: (i32, i32)|
                    out@.contains(p) <==> (is_marker(self@, p.0 as int, p.1 as int) && p.1 == 0
                        && p.0 <= x),
            decreases x_max - x,
        {
            x = x + 1;
            let ghost prev = out@;
            if on_x && x != 0 {
                out.push((x, 0));
            }
            assert forall|p: (i32, i32)|
                out@.contains(p) <==> (is_marker(self@, p.0 as int, p.1 as int) && p.1 == 0
                    && p.0 <= x) by {
                vstd::seq_lib::lemma_seq_contains_after_push(prev, (x, 0i32), p);
            }
        }
        let mut y: i32 = y_min;
        while y < y_max - 1
            invariant
                y_min <= y < y_max,
                x_min == self@.x_min && x_max == self@.x_max,
                y_min == self@.y_min && y_max == self@.y_max,
                on_y == (x_min < 0 && 0 < x_max),
                forall|p: (i32, i32)|
                    out@.contains(p) <==> (is_marker(self@, p.0 as int, p.1 as int) && (p.1 == 0
                        || (p.0 == 0 && p.1 <= y))),
            decreases y_max - y,
        {
            y = y + 1;
            let ghost prev = out@;
            if on_y && y != 0 {
                out.push((0, y));
            }
            assert forall|p: (i32, i32)|
                out@.contains(p) <==> (is_marker(self@, p.0 as int, p.1 as int) && (p.1 == 0 || (
                p.0 == 0 && p.1 <= y))) by {
                vstd::seq_lib::lemma_seq_contains_after_push(prev, (0i32, y), p);
            }
        }
        out
    }

    /// Returns the x axis limits of the screen.
    pub fn x_axis(&self) -> (r: (i32, i32))
        ensures
            r.0 as int == self@.x_min && r.1 as int == self@.x_max,
    {
        self.x_axis
    }

    /// Returns the y axis limits of the screen.
    pub fn y_axis(&self) -> (r: (i32, i32))
        ensures
            r.0 as int == self@.y_min && r.1 as int == self@.y_max,
    {
        self.y_axis
    }

    /// Returns the number of frames generated so far.
    pub fn current_frame(&self) -> (r: u32)
        ensures
            r as nat == self@.current_frame,
    {
        self.current_frame
    }

    /// Returns the frame rate.
    pub fn fps(&self) -> (r: u32)
        ensures
            r as nat == self@.fps,
    {
        self.fps
    }

    /// Returns the output resolution as (width, height).
    pub fn resolution(&self) -> (r: (u32, u32))
        ensures
            r.0 as nat == self@.width && r.1 as nat == self@.height,
    {
        (self.width, self.height)
    }

    /// Returns the directory where frames are saved.
    pub fn save_directory(&self) -> (r: &String)
        ensures
            r@ == save_directory_of(self),
    {
        &self.save_directory
    }

    /// Returns true if the point `(x, y)` lies within both axis ranges, bounds included.
    pub fn can_contain<T: Number>(&self, x: T, y: T) -> (r: bool)
        ensures
            r == (in_range_spec(x.val(), self@.x_min, self@.x_max) && in_range_spec(
                y.val(),
                self@.y_min,
                self@.y_max,
            )),
    {
        in_axis_range(x, self.x_axis) && in_axis_range(y, self.y_axis)
    }
}

/// Converts an `(x, y)` world coordinate into an exact pixel position for frames of the
/// given quality.
pub fn interpolate<T: Number>(quality: Quality, screen: &Screen2D, point: (T, T)) -> (r: (
    Ratio,
    Ratio,
))
    ensures
        r == interpolate_spec(quality, screen@, point.0.val(), point.1.val()),
        r.0.den > 0 && r.1.den > 0,
{
    screen.lemma_valid();
    let (w, h) = quality.resolution();
    let (x_min, x_max) = screen.x_axis();
    let (y_min, y_max) = screen.y_axis();
    let (width, height) = screen.resolution();
    let x = point.0.to_i64() as i128;
    let y = point.1.to_i64() as i128;
    let sx = abs_i32(x_min) + abs_i32(x_max);
    let sy = abs_i32(y_min) + abs_i32(y_max);
    let ax = abs_i32(x_min);
    let ay = abs_i32(y_max);
    let wi = w as i128;
    let hi = h as i128;
    let widthi = width as i128;
    let heighti = height as i128;
    assert(19 * wi * x <= 19 * 0x1_0000_0000 * 0x8000_0000_0000_0000 && 19 * wi * x >= -19 * 0x1_0000_0000 * 0x8000_0000_0000_0000) by (nonlinear_arith)
        requires 0 <= wi <= 0x1_0000_0000, -0x8000_0000_0000_0000 <= x <= 0x8000_0000_0000_0000;
    assert(19 * hi * y <= 19 * 0x1_0000_0000 * 0x8000_0000_0000_0000 && 19 * hi * y >= -19 * 0x1_0000_0000 * 0x8000_0000_0000_0000) by (nonlinear_arith)
        requires 0 <= hi <= 0x1_0000_0000, -0x8000_0000_0000_0000 <= y <= 0x8000_0000_0000_0000;
    assert(20 * widthi * ax <= 20 * 0x1_0000_0000 * 0x8000_0000) by (nonlinear_arith)
        requires 0 <= widthi <= 0x1_0000_0000, 0 <= ax <= 0x8000_0000;
    assert(20 * heighti * ay <= 20 * 0x1_0000_0000 * 0x8000_0000) by (nonlinear_arith)
        requires 0 <= heighti <= 0x1_0000_0000, 0 <= ay <= 0x8000_0000;
    (
        Ratio { num: 19 * wi * x + 20 * widthi * ax, den: 20 * sx },
        Ratio { num: 20 * heighti * ay - 19 * hi * y, den: 20 * sy },
    )
}

} // verus!
