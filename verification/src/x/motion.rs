//! Accumulated relative motion.

use vstd::prelude::*;

verus! {

/// Motion along one axis that has not been reported yet.
#[derive(Debug, Clone, Copy, PartialEq, Eq, Structural)]
pub struct MotionVector {
    magnitude: i64,
}

/// Pending motion along both axes.
#[derive(Debug, Clone, Copy, PartialEq, Eq, Structural)]
pub struct Motion {
    pub x: MotionVector,
    pub y: MotionVector,
}

impl Motion {
    /// No pending motion.
    pub open spec fn is_still(self) -> bool {
        self.x@ == 0 && self.y@ == 0
    }
}

impl Default for Motion {
    fn default() -> (motion: Self)
        ensures
            motion.is_still(),
    {
        Motion { x: MotionVector { magnitude: 0 }, y: MotionVector { magnitude: 0 } }
    }
}

impl Default for MotionVector {
    fn default() -> (vector: Self)
        ensures
            vector@ == 0,
    {
        MotionVector { magnitude: 0 }
    }
}

impl View for MotionVector {
    type V = int;

    closed spec fn view(&self) -> int {
        self.magnitude as int
    }
}

/// The motion along an axis fits the machine's numbers.
pub proof fn motion_fits(vector: MotionVector)
    ensures
        i64::MIN <= vector@ <= i64::MAX,
{
}

pub open spec fn abs(n: int) -> nat {
    if n < 0 {
        (-n) as nat
    } else {
        n as nat
    }
}

/// The two's complement reading of a 64-bit number.
pub open spec fn signed(n: nat) -> int {
    if n <= i64::MAX {
        n as int
    } else {
        n - 0x1_0000_0000_0000_0000
    }
}

/// A value that takes a negative sign from a negative `sign`.
pub open spec fn with_sign(value: nat, sign: int) -> int {
    if sign < 0 {
        -signed(value)
    } else {
        signed(value)
    }
}

pub open spec fn sign_of(n: int) -> int {
    if n < 0 {
        -1
    } else if n > 0 {
        1
    } else {
        0
    }
}

/// What stays pending of a motion once whole steps are taken off.
pub open spec fn truncated(magnitude: int, resolution: nat) -> int {
    if abs(magnitude) < resolution {
        magnitude
    } else {
        with_sign(abs(magnitude) % resolution, magnitude)
    }
}

/// The whole steps of a motion. They take the sign of what stays pending.
pub open spec fn whole_steps(magnitude: int, resolution: nat) -> Option<int> {
    if abs(magnitude) < resolution {
        None
    } else {
        Some(with_sign(abs(magnitude) / resolution, truncated(magnitude, resolution)))
    }
}

/// The number of steps that cover a motion.
pub open spec fn covering_steps(magnitude: int, resolution: nat) -> nat {
    ((abs(magnitude) + resolution - 1) / resolution as int) as nat
}

/// What the steps that cover a motion exceed it by.
pub open spec fn excess(magnitude: int, resolution: nat) -> nat {
    (covering_steps(magnitude, resolution) * resolution - abs(magnitude)) as nat
}

/// What stays pending of a motion that was rounded up: the excess, against
/// the direction of the motion.
pub open spec fn rounded(magnitude: int, resolution: nat) -> int {
    if magnitude == 0 {
        0
    } else {
        with_sign(excess(magnitude, resolution), -magnitude)
    }
}

/// The steps that a motion is rounded up to. They take the sign of what stays
/// pending.
pub open spec fn rounded_steps(magnitude: int, resolution: nat) -> Option<int> {
    if magnitude == 0 {
        None
    } else {
        Some(with_sign(covering_steps(magnitude, resolution), rounded(magnitude, resolution)))
    }
}

/// Whether rounding a motion up stays within the machine's numbers.
pub open spec fn can_round(magnitude: int, resolution: nat) -> bool {
    &&& magnitude != i64::MIN
    &&& abs(magnitude) + resolution - 1 <= u64::MAX
    &&& magnitude > 0 ==> excess(magnitude, resolution) != 0x8000_0000_0000_0000
}

/// What stays pending of a motion once another one is added.
pub open spec fn appended(magnitude: int, value: int, resolution: nat) -> int {
    if sign_of(magnitude) == sign_of(value) {
        magnitude + value
    } else {
        truncated(magnitude, resolution) + value
    }
}

/// What a motion that turns around reports before the new one is added.
pub open spec fn appended_steps(magnitude: int, value: int, resolution: nat) -> Option<int> {
    if sign_of(magnitude) == sign_of(value) {
        None
    } else {
        whole_steps(magnitude, resolution)
    }
}

fn unsigned_abs(n: i64) -> (r: u64)
    ensures
        r == abs(n as int),
{
    if n == i64::MIN {
        0x8000_0000_0000_0000u64
    } else if n < 0 {
        (-n) as u64
    } else {
        n as u64
    }
}

fn signum(n: i64) -> (r: i64)
    ensures
        r == sign_of(n as int),
{
    if n < 0 {
        -1
    } else if n > 0 {
        1
    } else {
        0
    }
}

fn copysign(value: u64, sign: i64) -> (r: i64)
    requires
        sign < 0 ==> value != 0x8000_0000_0000_0000,
    ensures
        r == with_sign(value as nat, sign as int),
{
    proof {
        assert(value <= 0x7fff_ffff_ffff_ffffu64 ==> value as i64 == value) by (bit_vector);
        assert(value > 0x7fff_ffff_ffff_ffffu64 ==> value as i64 == value
            - 0x1_0000_0000_0000_0000) by (bit_vector);
    }
    let value = value as i64;
    if sign < 0 {
        -value
    } else {
        value
    }
}

proof fn lemma_quotient(n: int, d: int)
    requires
        0 <= n,
        0 < d,
    ensures
        0 <= (n / d) * d <= n,
        n - (n / d) * d == n % d,
        0 <= n % d < d,
        0 <= n / d <= n,
        d <= n ==> n % d <= n - d,
        d <= n ==> 1 <= n / d,
{
    assert(n == d * (n / d) + n % d && 0 <= n % d < d && 0 <= n / d) by (nonlinear_arith)
        requires
            0 <= n,
            0 < d,
    ;
    assert(n / d <= n) by (nonlinear_arith)
        requires
            n == d * (n / d) + n % d,
            0 <= n % d,
            0 <= n / d,
            0 < d,
    ;
    assert(d <= n ==> 1 <= n / d && d <= d * (n / d)) by (nonlinear_arith)
        requires
            n == d * (n / d) + n % d,
            0 <= n % d < d,
            0 <= n / d,
            0 < d,
    ;
    assert(d * (n / d) == (n / d) * d) by (nonlinear_arith);
    assert(0 <= (n / d) * d) by (nonlinear_arith)
        requires
            0 <= n / d,
            0 < d,
    ;
}

impl MotionVector {
    /// Forgets the pending motion.
    pub fn clear(&mut self)
        ensures
            final(self)@ == 0,
    {
        self.magnitude = 0;
    }

    /// Takes the whole steps off the pending motion and returns them; nothing
    /// where there is no whole step.
    pub fn truncate(&mut self, resolution: u64) -> (steps: Option<i64>)
        requires
            resolution > 0,
        ensures
            final(self)@ == truncated(old(self)@, resolution as nat),
            steps matches Some(n) ==> whole_steps(old(self)@, resolution as nat) == Some(n as int),
            steps is None <==> whole_steps(old(self)@, resolution as nat) is None,
    {
        let abs = unsigned_abs(self.magnitude);
        if abs < resolution {
            return None;
        }
        let div = abs / resolution;
        proof {
            lemma_quotient(abs as int, resolution as int);
        }
        let rounded = div * resolution;
        let rest = abs - rounded;
        self.magnitude = copysign(rest, self.magnitude);
        Some(copysign(div, self.magnitude))
    }

    /// Rounds the pending motion up to whole steps and returns them, keeping
    /// the excess as motion in the other direction; nothing where no motion is
    /// pending.
    pub fn round_up(&mut self, resolution: u64) -> (steps: Option<i64>)
        requires
            resolution > 0,
            can_round(old(self)@, resolution as nat),
        ensures
            final(self)@ == rounded(old(self)@, resolution as nat),
            steps matches Some(n) ==> rounded_steps(old(self)@, resolution as nat) == Some(n as int),
            steps is None <==> rounded_steps(old(self)@, resolution as nat) is None,
    {
        if self.magnitude == 0 {
            return None;
        }
        let abs = unsigned_abs(self.magnitude);
        let div = (abs + (resolution - 1)) / resolution;
        proof {
            lemma_quotient(abs + resolution - 1, resolution as int);
            assert(div <= abs) by (nonlinear_arith)
                requires
                    div * resolution <= abs + resolution - 1,
                    1 <= abs,
                    1 <= resolution,
                    0 <= div,
            ;
        }
        let rounded = div * resolution;
        let excess = rounded - abs;
        self.magnitude = copysign(excess, -self.magnitude);
        Some(copysign(div, self.magnitude))
    }

    /// Adds a motion to the pending one.
    pub fn offset(&mut self, value: i64)
        requires
            i64::MIN <= old(self)@ + value <= i64::MAX,
        ensures
            final(self)@ == old(self)@ + value,
    {
        self.magnitude = self.magnitude + value;
    }

    /// Adds a motion to the pending one. Where it turns the direction around,
    /// the whole steps of the pending motion are taken off first and returned.
    pub fn append(&mut self, value: i64, resolution: u64) -> (steps: Option<i64>)
        requires
            resolution > 0,
            i64::MIN <= old(self)@ + value <= i64::MAX,
        ensures
            final(self)@ == appended(old(self)@, value as int, resolution as nat),
            steps matches Some(n) ==> appended_steps(old(self)@, value as int, resolution as nat)
                == Some(n as int),
            steps is None <==> appended_steps(old(self)@, value as int, resolution as nat) is None,
    {
        let signmatch = signum(self.magnitude) == signum(value);
        let steps = if signmatch {
            None
        } else {
            proof {
                lemma_quotient(abs(self@) as int, resolution as int);
            }
            self.truncate(resolution)
        };
        self.offset(value);
        steps
    }

    /// Whether the pending motion can be rounded up to single units.
    pub fn can_round_unit(&self) -> (r: bool)
        ensures
            r == can_round(self@, 1),
    {
        self.magnitude != i64::MIN
    }

    /// Whether a motion can be added without leaving the machine's numbers.
    pub fn can_append(&self, value: i64) -> (r: bool)
        ensures
            r == (i64::MIN <= self@ + value <= i64::MAX),
    {
        self.magnitude.checked_add(value).is_some()
    }
}

/// Taking whole steps off loses no motion: the steps, at their resolution, and
/// what stays pending add up to the motion, and what stays pending is less than
/// a step and points the same way.
pub proof fn truncate_conserves(magnitude: int, resolution: nat)
    requires
        i64::MIN <= magnitude <= i64::MAX,
        0 < resolution <= u64::MAX,
        whole_steps(magnitude, resolution) is Some,
        abs(magnitude) / resolution <= i64::MAX,
    ensures
        abs(whole_steps(magnitude, resolution)->0) * resolution + abs(truncated(magnitude, resolution))
            == abs(magnitude),
        abs(truncated(magnitude, resolution)) < resolution,
        truncated(magnitude, resolution) != 0 ==> sign_of(truncated(magnitude, resolution))
            == sign_of(magnitude),
{
    lemma_quotient(abs(magnitude) as int, resolution as int);
}

/// Rounding up covers the motion: the steps, at their resolution, exceed it by
/// what stays pending, which is less than a step and points the other way.
pub proof fn round_up_covers(magnitude: int, resolution: nat)
    requires
        magnitude != 0,
        0 < resolution <= u64::MAX,
        i64::MIN <= magnitude <= i64::MAX,
        can_round(magnitude, resolution),
        excess(magnitude, resolution) <= i64::MAX,
    ensures
        abs(rounded_steps(magnitude, resolution)->0) * resolution == abs(magnitude) + abs(
            rounded(magnitude, resolution),
        ),
        abs(rounded(magnitude, resolution)) < resolution,
        rounded(magnitude, resolution) != 0 ==> sign_of(rounded(magnitude, resolution))
            == -sign_of(magnitude),
{
    lemma_quotient(abs(magnitude) + resolution - 1, resolution as int);
    let n = abs(magnitude);
    let steps = covering_steps(magnitude, resolution);
    assert(steps <= n) by (nonlinear_arith)
        requires
            steps * resolution <= n + resolution - 1,
            1 <= n,
            1 <= resolution,
            0 <= steps,
    ;
}

/// At a resolution of one step per unit nothing stays pending.
pub proof fn unit_resolution_leaves_nothing(magnitude: int)
    requires
        i64::MIN < magnitude <= i64::MAX,
    ensures
        can_round(magnitude, 1),
        rounded(magnitude, 1) == 0,
        truncated(magnitude, 1) == 0,
        magnitude != 0 ==> rounded_steps(magnitude, 1) == Some(abs(magnitude) as int),
        magnitude != 0 ==> whole_steps(magnitude, 1) == Some(abs(magnitude) as int),
{
}

/// Taking whole steps off, and rounding up to them, lose nothing of a motion: the
/// steps, at their resolution, and what stays pending make up the motion, and what
/// stays pending is less than a step. There are no steps of a motion that is less
/// than one, and rounding up gives none exactly where nothing is pending.
pub proof fn motion_is_conserved(
    before: MotionVector,
    resolution: u64,
    whole: Option<i64>,
    truncated_to: MotionVector,
    covering: Option<i64>,
    rounded_to: MotionVector,
)
    requires
        0 < resolution <= i64::MAX,
        before@ > i64::MIN,
        can_round(before@, resolution as nat),
        exists|this: &mut MotionVector| #[trigger]
            call_ensures(MotionVector::truncate, (this, resolution), whole) && *this == before
                && *final(this) == truncated_to,
        exists|this: &mut MotionVector| #[trigger]
            call_ensures(MotionVector::round_up, (this, resolution), covering) && *this == before
                && *final(this) == rounded_to,
    ensures
        ({
            let size = abs(before@);
            &&& whole is Some <==> size >= resolution
            &&& whole is None ==> truncated_to@ == before@
            &&& whole matches Some(steps) ==> abs(steps as int) * resolution + abs(truncated_to@)
                == size
            &&& abs(truncated_to@) < resolution
            &&& truncated_to@ > 0 ==> before@ > 0
            &&& truncated_to@ < 0 ==> before@ < 0
            &&& covering is Some <==> before@ != 0
            &&& covering is None ==> rounded_to@ == 0
            &&& covering matches Some(steps) ==> abs(steps as int) * resolution == size + abs(
                rounded_to@,
            )
            &&& abs(rounded_to@) < resolution
            &&& rounded_to@ > 0 ==> before@ < 0
            &&& rounded_to@ < 0 ==> before@ > 0
        }),
{
    motion_fits(before);
    let n = resolution as nat;
    lemma_quotient(abs(before@) as int, n as int);
    lemma_quotient(abs(before@) + n - 1, n as int);
    if abs(before@) >= n {
        truncate_conserves(before@, n);
    }
    if before@ != 0 {
        round_up_covers(before@, n);
    }
}

/// A motion that goes on in the same direction, or from rest, is added and takes
/// nothing off; any other one is added to what is left once the whole steps are
/// taken off.
pub proof fn turning_takes_the_steps_off(
    before: MotionVector,
    value: i64,
    resolution: u64,
    steps: Option<i64>,
    after: MotionVector,
    whole: Option<i64>,
    left: MotionVector,
)
    requires
        resolution > 0,
        i64::MIN <= before@ + value <= i64::MAX,
        exists|this: &mut MotionVector| #[trigger]
            call_ensures(MotionVector::append, (this, value, resolution), steps) && *this == before
                && *final(this) == after,
        exists|this: &mut MotionVector| #[trigger]
            call_ensures(MotionVector::truncate, (this, resolution), whole) && *this == before
                && *final(this) == left,
    ensures
        ({
            let goes_on = before@ > 0 && value > 0 || before@ < 0 && value < 0 || before@ == 0;
            &&& goes_on ==> steps is None && after@ == before@ + value
            &&& !goes_on ==> steps == whole && after@ == left@ + value
        }),
{
    motion_fits(before);
    lemma_quotient(abs(before@) as int, resolution as int);
}

/// Motion adds up, and is forgotten when it is cleared.
pub proof fn motion_adds_up(
    before: MotionVector,
    value: i64,
    after: MotionVector,
    cleared: MotionVector,
    can: bool,
)
    requires
        i64::MIN <= before@ + value <= i64::MAX,
        exists|this: &mut MotionVector, r: ()| #[trigger]
            call_ensures(MotionVector::offset, (this, value), r) && *this == before && *final(this)
                == after,
        exists|this: &mut MotionVector, r: ()| #[trigger]
            call_ensures(MotionVector::clear, (this,), r) && *this == before && *final(this)
                == cleared,
        call_ensures(MotionVector::can_append, (&before, value), can),
    ensures
        after@ - before@ == value,
        cleared@ == 0,
        can,
{
}

} // verus!
