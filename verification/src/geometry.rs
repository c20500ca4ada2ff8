use vstd::prelude::*;

verus! {

/// `root` is the square root of `n`, rounded down.
pub open spec fn is_floor_sqrt(n: int, root: int) -> bool {
    0 <= root && root * root <= n < (root + 1) * (root + 1)
}

/// The square root of `n`, rounded down.
pub open spec fn floor_sqrt(n: nat) -> nat {
    choose|root: nat| is_floor_sqrt(n as int, root as int)
}

/// Squaring keeps the order of natural numbers.
pub proof fn lemma_square_monotonic(a: int, b: int)
    requires
        0 <= a <= b,
    ensures
        a * a <= b * b,
{
    assert(a * a <= a * b) by (nonlinear_arith)
        requires
            0 <= a <= b,
    ;
    assert(a * b <= b * b) by (nonlinear_arith)
        requires
            0 <= a <= b,
    ;
}

/// Every natural number has a rounded-down square root, and `floor_sqrt`
/// is one.
pub proof fn lemma_floor_sqrt_exists(n: nat)
    ensures
        is_floor_sqrt(n as int, floor_sqrt(n) as int),
    decreases n,
{
    if n == 0 {
        assert(is_floor_sqrt(0, 0nat as int));
    } else {
        let below = (n - 1) as nat;
        lemma_floor_sqrt_exists(below);
        let r = floor_sqrt(below);
        if (r + 1) * (r + 1) <= n {
            assert((r + 2) * (r + 2) > (r + 1) * (r + 1)) by (nonlinear_arith)
                requires
                    r >= 0,
            ;
            assert(is_floor_sqrt(n as int, (r + 1) as nat as int));
        } else {
            assert(is_floor_sqrt(n as int, r as int));
        }
    }
}

/// The rounded-down square root is unique.
pub proof fn lemma_floor_sqrt_unique(n: nat, root: int)
    requires
        is_floor_sqrt(n as int, root),
    ensures
        root == floor_sqrt(n),
{
    lemma_floor_sqrt_exists(n);
    let other = floor_sqrt(n) as int;
    if root < other {
        lemma_square_monotonic(root + 1, other);
    } else if other < root {
        lemma_square_monotonic(other + 1, root);
    }
}

/// A number below the square of `limit` has a square root below `limit`.
pub proof fn lemma_floor_sqrt_below(n: nat, limit: nat)
    requires
        n < limit * limit,
    ensures
        floor_sqrt(n) < limit,
{
    lemma_floor_sqrt_exists(n);
    if floor_sqrt(n) >= limit {
        lemma_square_monotonic(limit as int, floor_sqrt(n) as int);
    }
}

/// Computes the square root of `n`, rounded down, by bisection.
pub fn integer_sqrt(n: u128) -> (root: u64)
    ensures
        root == floor_sqrt(n as nat),
{
    let mut low: u128 = 0;
    let mut high: u128 = 0x1_0000_0000_0000_0000;
    assert(high * high > n) by (nonlinear_arith)
        requires
            high == 0x1_0000_0000_0000_0000,
            n <= u128::MAX,
    ;
    while high - low > 1
        invariant
            low < high <= 0x1_0000_0000_0000_0000,
            low * low <= n < high * high,
        decreases high - low,
    {
        let middle: u128 = low + (high - low) / 2;
        assert(middle * middle <= 0xffff_ffff_ffff_ffff * 0xffff_ffff_ffff_ffff) by {
            lemma_square_monotonic(middle as int, 0xffff_ffff_ffff_ffff);
        }
        if middle * middle <= n {
            low = middle;
        } else {
            high = middle;
        }
    }
    proof {
        lemma_floor_sqrt_unique(n as nat, low as int);
    }
    low as u64
}

/// A point of the plane, measured from the junction reference point.
#[derive(Debug, PartialEq, Eq, Clone, Copy, Structural)]
pub struct Position {
    pub x: i32,
    pub y: i32,
}

impl Position {
    /// The square of the Euclidean distance between two points.
    pub open spec fn squared_distance(self, other: Position) -> nat {
        ((self.x - other.x) * (self.x - other.x) + (self.y - other.y) * (self.y - other.y)) as nat
    }

    /// The Euclidean distance between two points, rounded down.
    pub open spec fn distance(self, other: Position) -> nat {
        floor_sqrt(self.squared_distance(other))
    }

    /// The distance between two points fits in 33 bits.
    pub proof fn lemma_distance_bound(self, other: Position)
        ensures
            self.distance(other) < 0x2_0000_0000,
    {
        let dx = self.x - other.x;
        let dy = self.y - other.y;
        assert(0 <= dx * dx <= 0xffff_ffff * 0xffff_ffff) by (nonlinear_arith)
            requires
                -0xffff_ffff <= dx <= 0xffff_ffff,
        ;
        assert(0 <= dy * dy <= 0xffff_ffff * 0xffff_ffff) by (nonlinear_arith)
            requires
                -0xffff_ffff <= dy <= 0xffff_ffff,
        ;
        assert(self.squared_distance(other) == dx * dx + dy * dy);
        assert(0x2_0000_0000nat * 0x2_0000_0000nat == 0x4_0000_0000_0000_0000nat);
        lemma_floor_sqrt_below(self.squared_distance(other), 0x2_0000_0000);
    }

    /// The distance of a point from the origin fits in 32 bits.
    pub proof fn lemma_distance_from_origin_bound(self)
        ensures
            self.distance(Position { x: 0, y: 0 }) <= u32::MAX,
    {
        let dx = self.x - 0;
        let dy = self.y - 0;
        assert(0 <= dx * dx <= 0x8000_0000 * 0x8000_0000) by (nonlinear_arith)
            requires
                -0x8000_0000 <= dx <= 0x8000_0000,
        ;
        assert(0 <= dy * dy <= 0x8000_0000 * 0x8000_0000) by (nonlinear_arith)
            requires
                -0x8000_0000 <= dy <= 0x8000_0000,
        ;
        assert(self.squared_distance(Position { x: 0, y: 0 }) == dx * dx + dy * dy);
        assert(0x1_0000_0000nat * 0x1_0000_0000nat == 0x1_0000_0000_0000_0000nat);
        lemma_floor_sqrt_below(self.squared_distance(Position { x: 0, y: 0 }), 0x1_0000_0000);
    }

    /// The point with the given coordinates.
    pub fn new(x: i32, y: i32) -> (p: Self)
        ensures
            p.x == x,
            p.y == y,
    {
        Position { x, y }
    }

    /// The junction reference point.
    pub fn origin() -> (p: Self)
        ensures
            p.x == 0,
            p.y == 0,
    {
        Position { x: 0, y: 0 }
    }

    /// Computes the square of the Euclidean distance to `other`.
    pub fn squared_distance_to(self, other: Position) -> (d: u128)
        ensures
            d == self.squared_distance(other),
            d <= 0x1_ffff_fffc_0000_0002,
    {
        let dx: i128 = self.x as i128 - other.x as i128;
        let dy: i128 = self.y as i128 - other.y as i128;
        assert(0 <= dx * dx <= 0xffff_ffff * 0xffff_ffff) by (nonlinear_arith)
            requires
                -0xffff_ffff <= dx <= 0xffff_ffff,
        ;
        assert(0 <= dy * dy <= 0xffff_ffff * 0xffff_ffff) by (nonlinear_arith)
            requires
                -0xffff_ffff <= dy <= 0xffff_ffff,
        ;
        (dx * dx + dy * dy) as u128
    }
}

/// `a - b` is the Euclidean distance between the two points, rounded down.
impl core::ops::Sub for Position {
    type Output = u64;

    fn sub(self, other: Position) -> (d: u64)
        ensures
            d == self.distance(other),
    {
        proof {
            self.lemma_distance_bound(other);
        }
        integer_sqrt(self.squared_distance_to(other))
    }
}

impl vstd::std_specs::ops::SubSpecImpl for Position {
    open spec fn obeys_sub_spec() -> bool {
        true
    }

    open spec fn sub_req(self, other: Position) -> bool {
        true
    }

    open spec fn sub_spec(self, other: Position) -> u64 {
        self.distance(other) as u64
    }
}

/// `p + k` moves the point by `k` along both axes.
impl core::ops::Add<i32> for Position {
    type Output = Position;

    fn add(self, offset: i32) -> (p: Position) {
        Position { x: self.x + offset, y: self.y + offset }
    }
}

impl vstd::std_specs::ops::AddSpecImpl<i32> for Position {
    open spec fn obeys_add_spec() -> bool {
        true
    }

    open spec fn add_req(self, offset: i32) -> bool {
        &&& i32::MIN <= self.x + offset <= i32::MAX
        &&& i32::MIN <= self.y + offset <= i32::MAX
    }

    open spec fn add_spec(self, offset: i32) -> Position {
        Position { x: (self.x + offset) as i32, y: (self.y + offset) as i32 }
    }
}

} // verus!
