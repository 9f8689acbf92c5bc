//! Positions of the lights on the unit sphere, in fixed point, and the
//! squared distances between them. Two lights are neighbours when their
//! Euclidean distance is below 0.4; since both sides are non-negative, that
//! is compared as squared distance below 0.16, with no square root.
use vstd::prelude::*;

verus! {

/// Number of lights that have a position on the sphere.
pub const LIGHT_COUNT: usize = 61;

/// Coordinates are stored in units of one hundred-millionth.
pub const UNIT: i64 = 100_000_000;

/// Square of the neighbour radius 0.4, in squared units.
pub const NEIGHBOR_RADIUS_SQ: u128 = 1_600_000_000_000_000;

/// Position of each light as `[x, y, z]` of a unit vector, in units of `UNIT`.
pub const GEOMETRY: [[i32; 3]; 61] = [
    // lights 0 to 7
    [-89438856, 0, 44729087],
    [-83745090, -17523615, 14909694],
    [-78051320, -35047220, -14909700],
    [-29812953, 0, 81576365],
    [-39025664, -28353800, 63152725],
    [-48238373, -56707600, 44729087],
    [-42544606, -74231213, 14909694],
    [-24119182, -74231213, -14909700],
    // lights 8 to 15
    [-59625906, 0, 63152725],
    [-68838614, -28353807, 44729087],
    [-63144845, -45877410, 14909694],
    [-57451080, -63401014, -14909700],
    [-18425423, -56707600, 63152725],
    [5693759, -74231213, 44729087],
    [24119182, -74231213, 14909694],
    [42544606, -74231213, -14909700],
    // lights 16 to 23
    [-27638134, -85061400, 44729087],
    [-9212711, -85061400, 14909694],
    [9212714, -85061400, -14909700],
    [-9212712, -28353800, 81576365],
    [14906470, -45877418, 63152725],
    [39025652, -63401030, 44729087],
    [57451075, -63401026, 14909694],
    [63144845, -45877412, -14909700],
    // lights 24 to 31
    [72357550, -52570844, 44729087],
    [78051310, -35047230, 14909694],
    [83745080, -17523615, -14909700],
    [24119182, -17523615, 81576365],
    [48238364, 0, 63152725],
    [72357553, 17523610, 44729087],
    [78051320, 35047224, 14909694],
    [63144845, 45877412, -14909700],
    // lights 32 to 39
    [48238370, 35047224, 63152725],
    [39025660, 63401026, 44729087],
    [24119182, 74231213, 14909694],
    [9212708, 85061410, -14909700],
    [-18425415, 56707600, 63152725],
    [-48238364, 56707600, 44729087],
    [-63144845, 45877410, 14909694],
    [-78051320, 35047218, -14909700],
    // lights 40 to 47
    [72357553, 52570840, 44729087],
    [57451075, 63401026, 14909694],
    [42544600, 74231213, -14909700],
    [24119185, 17523612, 81576365],
    [14906476, 45877418, 63152725],
    [5693770, 74231220, 44729087],
    [-9212708, 85061410, 14909694],
    [-24119185, 74231213, -14909700],
    // lights 48 to 55
    [-27638122, 85061410, 44729087],
    [-42544600, 74231213, 14909694],
    [-57451075, 63401026, -14909700],
    [-9212708, 28353800, 81576365],
    [-39025660, 28353800, 63152725],
    [-68838614, 28353795, 44729087],
    [-83745090, 17523605, 14909694],
    [-78051320, 0, -14909700],
    // lights 56 to 60
    [48238364, -35047230, 63152725],
    [72357553, -17523617, 44729087],
    [78051320, 0, 14909694],
    [83745080, 17523612, -14909700],
    [0, 0, 100000000],
];

/// Squared Euclidean distance between two points.
pub open spec fn sq_distance(a: [i32; 3], b: [i32; 3]) -> int {
    (a[0] - b[0]) * (a[0] - b[0]) + (a[1] - b[1]) * (a[1] - b[1]) + (a[2] - b[2]) * (a[2] - b[2])
}

/// Whether light `i` lies strictly within the neighbour radius of light `c`.
pub open spec fn neighbors(c: int, i: int) -> bool {
    sq_distance(GEOMETRY[c], GEOMETRY[i]) < NEIGHBOR_RADIUS_SQ
}

/// Position of light `i`.
pub fn point(i: usize) -> (r: [i32; 3])
    requires
        i < LIGHT_COUNT,
    ensures
        r == GEOMETRY[i as int],
{
    GEOMETRY[i]
}

fn sq_diff(a: i32, b: i32) -> (r: i128)
    ensures
        r == (a - b) * (a - b),
        r < 0x4_0000_0000_0000_0000,
{
    let d: i128 = a as i128 - b as i128;
    assert(0 <= d * d < 0x4_0000_0000_0000_0000) by (nonlinear_arith)
        requires
            -0x1_0000_0000 < d < 0x1_0000_0000,
    ;
    d * d
}

/// Squared Euclidean distance between two points, exact for every input.
pub fn squared_distance(a: [i32; 3], b: [i32; 3]) -> (r: u128)
    ensures
        r == sq_distance(a, b),
{
    let x = sq_diff(a[0], b[0]);
    let y = sq_diff(a[1], b[1]);
    let z = sq_diff(a[2], b[2]);
    assert(0 <= x && 0 <= y && 0 <= z) by (nonlinear_arith)
        requires
            x == (a[0] - b[0]) * (a[0] - b[0]),
            y == (a[1] - b[1]) * (a[1] - b[1]),
            z == (a[2] - b[2]) * (a[2] - b[2]),
    ;
    (x + y + z) as u128
}

/// Whether light `i` lies strictly within the neighbour radius of light `c`.
pub fn are_neighbors(c: usize, i: usize) -> (r: bool)
    requires
        c < LIGHT_COUNT,
        i < LIGHT_COUNT,
    ensures
        r == neighbors(c as int, i as int),
{
    squared_distance(point(c), point(i)) < NEIGHBOR_RADIUS_SQ
}

/// Every point is at distance zero from itself, so every light is its own
/// neighbour.
pub proof fn lemma_self_neighbor(c: int)
    requires
        0 <= c < LIGHT_COUNT,
    ensures
        sq_distance(GEOMETRY[c], GEOMETRY[c]) == 0,
        neighbors(c, c),
{
}

} // verus!
