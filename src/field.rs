use crate::geometry::{dot2, dot2_spec, sub2, sub2_spec, within_angle, within_angle_spec, Vec2, Vec3};
use crate::scenario::Goal;
use crate::routing::{vec2_int, CarState};
use crate::scenario::CarInfo;
use vstd::prelude::*;

verus! {

/// Half the width of the field.
pub const FIELD_MAX_X: i16 = 4096;

/// Distance from the centre to each back wall.
pub const FIELD_MAX_Y: i16 = 5120;

/// Distance from the centre line to each goal post.
pub const GOALPOST_X: i16 = 893;

/// Clearance kept from the goal frame when driving out of a goal.
pub const GOAL_WALL_MARGIN: i16 = 125;

pub open spec fn abs_spec(v: int) -> int {
    if v < 0 {
        -v
    } else {
        v
    }
}

/// Shot-taking behavior: decides where a shot is possible at all.
pub struct Shoot {
    pub min_distance: Option<u32>,
    pub finished: bool,
}

impl Shoot {
    pub fn new() -> (r: Shoot)
        ensures
            r.min_distance is None,
            !r.finished,
    {
        Shoot { min_distance: None, finished: false }
    }

    pub open spec fn good_angle_spec(ball_loc: Vec3) -> bool {
        if abs_spec(ball_loc.x as int) >= FIELD_MAX_X || abs_spec(ball_loc.y as int) >= FIELD_MAX_Y {
            false
        } else {
            !(abs_spec(ball_loc.y as int) >= FIELD_MAX_Y - 500 && abs_spec(ball_loc.x as int)
                >= GOALPOST_X)
        }
    }

    /// A ball there can be shot: it is inside the field (otherwise the forecast went wrong),
    /// and not in a corner beside the goal.
    pub fn good_angle(ball_loc: Vec3) -> (r: bool)
        ensures
            r == Shoot::good_angle_spec(ball_loc),
    {
        let x = if ball_loc.x < 0 {
            -(ball_loc.x as i32)
        } else {
            ball_loc.x as i32
        };
        let y = if ball_loc.y < 0 {
            -(ball_loc.y as i32)
        } else {
            ball_loc.y as i32
        };
        if x >= FIELD_MAX_X as i32 || y >= FIELD_MAX_Y as i32 {
            false
        } else if y >= FIELD_MAX_Y as i32 - 500 && x >= GOALPOST_X as i32 {
            false
        } else {
            true
        }
    }
}

/// Recovers to flat ground.
pub struct GetToFlatGround;

impl GetToFlatGround {
    pub fn new() -> (r: GetToFlatGround) {
        GetToFlatGround
    }

    /// Wheels down, pitch and roll both under 15 degrees.
    pub fn on_flat_ground(car: &CarInfo) -> (r: bool)
        ensures
            r == car.state_spec().on_flat_ground_spec(),
    {
        car.state().on_flat_ground()
    }
}

pub open spec fn sign_spec(v: int) -> int {
    if v > 0 {
        1
    } else if v < 0 {
        -1
    } else {
        0
    }
}

/// Where a car standing in a goal, driving straight along its nose, meets the back-wall
/// plane, scaled by the nose's `y` component: `cross_x * forward.y`.
pub open spec fn crossing_scaled(start: CarState) -> int {
    let goal_y = FIELD_MAX_Y * sign_spec(start.loc.y as int);
    start.loc.x * start.forward.y + (goal_y - start.loc.y) * start.forward.x
}

/// The waypoint to drive to first when driving straight from inside a goal would hit the goal
/// wall beside the posts: just inside the post, on the side where the straight line crosses.
/// `None` outside the goals and when the line passes between the posts. A car driving parallel
/// to the goal line never crosses it: it detours on the side its nose points to, unless it is
/// exactly on the line.
pub open spec fn goal_wall_waypoint_spec(start: CarState) -> Option<Vec2> {
    if abs_spec(start.loc.y as int) < FIELD_MAX_Y {
        None
    } else if start.forward.y == 0 {
        if abs_spec(start.loc.y as int) == FIELD_MAX_Y || start.forward.x == 0 {
            None
        } else {
            Some(
                Vec2 {
                    x: ((GOALPOST_X - GOAL_WALL_MARGIN) * sign_spec(start.forward.x as int)) as i16,
                    y: ((FIELD_MAX_Y - GOAL_WALL_MARGIN) * sign_spec(start.loc.y as int)) as i16,
                },
            )
        }
    } else {
        let c = crossing_scaled(start);
        if abs_spec(c) >= GOALPOST_X * abs_spec(start.forward.y as int) {
            Some(
                Vec2 {
                    x: ((GOALPOST_X - GOAL_WALL_MARGIN) * sign_spec(c * start.forward.y)) as i16,
                    y: ((FIELD_MAX_Y - GOAL_WALL_MARGIN) * sign_spec(start.loc.y as int)) as i16,
                },
            )
        } else {
            None
        }
    }
}

fn sign(v: i64) -> (r: i64)
    ensures
        r == sign_spec(v as int),
        -1 <= r <= 1,
{
    if v > 0 {
        1
    } else if v < 0 {
        -1
    } else {
        0
    }
}

/// `v` with the sign `s` (one of -1, 0, 1).
fn signed_i16(v: i16, s: i64) -> (r: i16)
    requires
        0 <= v,
        -1 <= s <= 1,
    ensures
        r == (v * s) as i16,
{
    if s > 0 {
        assert(v * s == v) by (nonlinear_arith)
            requires
                s == 1,
        ;
        v
    } else if s < 0 {
        assert(v * s == -v) by (nonlinear_arith)
            requires
                s == -1,
        ;
        -v
    } else {
        assert(v * s == 0) by (nonlinear_arith)
            requires
                s == 0,
        ;
        0
    }
}

/// Whether driving straight would hit the goal wall, and if so the waypoint to go round it.
pub fn avoid_smacking_goal_wall_waypoint(start: &CarState) -> (r: Option<Vec2>)
    ensures
        r == goal_wall_waypoint_spec(*start),
{
    let y = start.loc.y as i64;
    let ay = if y < 0 {
        -y
    } else {
        y
    };
    if ay < FIELD_MAX_Y as i64 {
        return None;
    }
    if start.forward.y == 0 {
        if ay == FIELD_MAX_Y as i64 || start.forward.x == 0 {
            return None;
        }
        return Some(
            Vec2 {
                x: signed_i16(GOALPOST_X - GOAL_WALL_MARGIN, sign(start.forward.x as i64)),
                y: signed_i16(FIELD_MAX_Y - GOAL_WALL_MARGIN, sign(y)),
            },
        );
    }
    let goal_y = FIELD_MAX_Y as i64 * sign(y);
    let fx = start.forward.x as i64;
    let fy = start.forward.y as i64;
    assert(-0x1_0000_0000 <= (start.loc.x as i64) * fy <= 0x1_0000_0000 && -0x1_0000_0000 <= (goal_y
        - y) * fx <= 0x1_0000_0000) by (nonlinear_arith)
        requires
            -32768 <= start.loc.x <= 32767,
            -32768 <= fx <= 32767,
            -32768 <= fy <= 32767,
            -65536 <= goal_y - y <= 65536,
    ;
    let c = (start.loc.x as i64) * fy + (goal_y - y) * fx;
    let ac = if c < 0 {
        -c
    } else {
        c
    };
    let afy = if fy < 0 {
        -fy
    } else {
        fy
    };
    if ac >= GOALPOST_X as i64 * afy {
        assert(-0x1_0000_0000_0000 <= c * fy <= 0x1_0000_0000_0000) by (nonlinear_arith)
            requires
                -0x2_0000_0000 <= c <= 0x2_0000_0000,
                -32768 <= fy <= 32767,
        ;
        let sx = sign(c * fy);
        Some(
            Vec2 {
                x: signed_i16(GOALPOST_X - GOAL_WALL_MARGIN, sx),
                y: signed_i16(FIELD_MAX_Y - GOAL_WALL_MARGIN, sign(y)),
            },
        )
    } else {
        None
    }
}

/// Speeds (unreal units per second) at which the turning curvature was measured.
pub const CURVATURE_SPEEDS: [i64; 6] = [0, 500, 1000, 1500, 1750, 2300];

/// Curvature at those speeds, in units of 1/100000 per unreal unit.
pub const CURVATURES: [i64; 6] = [690, 398, 235, 138, 110, 88];

pub open spec fn curvature_table_speed(i: int) -> int {
    if i == 0 {
        0
    } else if i == 1 {
        500
    } else if i == 2 {
        1000
    } else if i == 3 {
        1500
    } else if i == 4 {
        1750
    } else {
        2300
    }
}

pub open spec fn curvature_table_value(i: int) -> int {
    if i == 0 {
        690
    } else if i == 1 {
        398
    } else if i == 2 {
        235
    } else if i == 3 {
        138
    } else if i == 4 {
        110
    } else {
        88
    }
}

/// Tightest turn at `speed`, interpolated linearly in the measured table (rounded towards
/// the lower entry) and held constant beyond its ends.
pub open spec fn max_curvature_spec(speed: int) -> int {
    if speed <= 0 {
        690
    } else if speed >= 2300 {
        88
    } else {
        let i = if speed < 500 {
            0int
        } else if speed < 1000 {
            1
        } else if speed < 1500 {
            2
        } else if speed < 1750 {
            3
        } else {
            4
        };
        let (s0, s1) = (curvature_table_speed(i), curvature_table_speed(i + 1));
        let (c0, c1) = (curvature_table_value(i), curvature_table_value(i + 1));
        c0 - (c0 - c1) * (speed - s0) / (s1 - s0)
    }
}

pub fn max_curvature(speed: i64) -> (r: i64)
    requires
        -100_000 <= speed <= 100_000,
    ensures
        r == max_curvature_spec(speed as int),
        88 <= r <= 690,
{
    if speed <= 0 {
        return 690;
    }
    if speed >= 2300 {
        return 88;
    }
    let i: usize = if speed < 500 {
        0
    } else if speed < 1000 {
        1
    } else if speed < 1500 {
        2
    } else if speed < 1750 {
        3
    } else {
        4
    };
    let s0 = CURVATURE_SPEEDS[i];
    let s1 = CURVATURE_SPEEDS[i + 1];
    let c0 = CURVATURES[i];
    let c1 = CURVATURES[i + 1];
    assert(s0 == curvature_table_speed(i as int) && s1 == curvature_table_speed(i + 1));
    assert(c0 == curvature_table_value(i as int) && c1 == curvature_table_value(i + 1));
    assert(0 <= (c0 - c1) * (speed - s0) <= (c0 - c1) * (s1 - s0)) by (nonlinear_arith)
        requires
            c0 >= c1,
            s0 <= speed <= s1,
    ;
    assert(0 <= c0 - c1 <= 602 && 0 <= speed - s0 <= 2300);
    assert((c0 - c1) * (speed - s0) <= 602 * 2300) by (nonlinear_arith)
        requires
            0 <= c0 - c1 <= 602,
            0 <= speed - s0 <= 2300,
    ;
    let num = (c0 - c1) * (speed - s0);
    let q = num / (s1 - s0);
    proof {
        vstd::arithmetic::div_mod::lemma_div_is_ordered(
            (c0 - c1) * (speed - s0) as int,
            ((c0 - c1) * (s1 - s0)) as int,
            (s1 - s0) as int,
        );
        vstd::arithmetic::div_mod::lemma_div_multiples_vanish((c0 - c1) as int, (s1 - s0) as int);
        assert((c0 - c1) * (s1 - s0) == (s1 - s0) * (c0 - c1)) by (nonlinear_arith);
        vstd::arithmetic::div_mod::lemma_div_pos_is_pos(num as int, (s1 - s0) as int);
    }
    c0 - q
}

/// The kinds of strike a hit can be.
#[derive(Clone, Copy, Debug, PartialEq, Eq, Structural)]
pub enum HitType {
    Ground,
    Wall,
}

pub open spec fn choose_hit_spec(ground: Option<u32>, wall: Option<u32>) -> HitType {
    match (ground, wall) {
        (Some(g), Some(w)) => if w < g {
            HitType::Wall
        } else {
            HitType::Ground
        },
        (None, Some(_)) => HitType::Wall,
        _ => HitType::Ground,
    }
}

/// Picks the strike that can be executed soonest, given each one's estimated ticks (`None`
/// when infeasible). Ties and the case where neither is feasible go to a ground hit.
pub fn choose_hit(ground: Option<u32>, wall: Option<u32>) -> (r: HitType)
    ensures
        r == choose_hit_spec(ground, wall),
        r == HitType::Wall ==> wall is Some,
        r == HitType::Wall && ground is Some ==> wall->Some_0 < ground->Some_0,
{
    match (ground, wall) {
        (Some(g), Some(w)) => if w < g {
            HitType::Wall
        } else {
            HitType::Ground
        },
        (None, Some(_)) => HitType::Wall,
        _ => HitType::Ground,
    }
}

/// `a` is closer in direction to `b` than to `c`: the angle from `a` to `b` is strictly
/// smaller than the angle from `a` to `c`, that is `cos(a, b) > cos(a, c)`, compared exactly.
pub open spec fn closer_in_angle(a: (int, int), b: (int, int), c: (int, int)) -> bool {
    let db = dot2_spec(a, b);
    let dc = dot2_spec(a, c);
    let nb = dot2_spec(b, b);
    let nc = dot2_spec(c, c);
    if nb == 0 || nc == 0 {
        false
    } else if db >= 0 && dc < 0 {
        true
    } else if db < 0 && dc >= 0 {
        false
    } else if db >= 0 {
        db * db * nc > dc * dc * nb
    } else {
        db * db * nc < dc * dc * nb
    }
}

/// Aim at the enemy goal when that direction needs less deviation from the line from me to
/// the ball than aiming away from our own goal does.
pub fn aim_toward_enemy_goal(me_loc: Vec2, ball_loc: Vec2, offense_aim: Vec2, defense_avoid: Vec2) -> (r:
    bool)
    ensures
        r == closer_in_angle(
            sub2_spec(ball_loc, me_loc),
            sub2_spec(offense_aim, me_loc),
            sub2_spec(defense_avoid, me_loc),
        ),
{
    let a = sub2(ball_loc, me_loc);
    let b = sub2(offense_aim, me_loc);
    let c = sub2(defense_avoid, me_loc);
    let db = dot2(a, b);
    let dc = dot2(a, c);
    let nb = dot2(b, b);
    let nc = dot2(c, c);
    assert(-0x2_0000_0000 <= db <= 0x2_0000_0000 && -0x2_0000_0000 <= dc <= 0x2_0000_0000 && 0 <= nb
        <= 0x2_0000_0000 && 0 <= nc <= 0x2_0000_0000) by (nonlinear_arith)
        requires
            db == a.0 * b.0 + a.1 * b.1,
            dc == a.0 * c.0 + a.1 * c.1,
            nb == b.0 * b.0 + b.1 * b.1,
            nc == c.0 * c.0 + c.1 * c.1,
            -65536 <= a.0 <= 65536,
            -65536 <= a.1 <= 65536,
            -65536 <= b.0 <= 65536,
            -65536 <= b.1 <= 65536,
            -65536 <= c.0 <= 65536,
            -65536 <= c.1 <= 65536,
    ;
    if nb == 0 || nc == 0 {
        return false;
    }
    if db >= 0 && dc < 0 {
        return true;
    }
    if db < 0 && dc >= 0 {
        return false;
    }
    let (db2, dc2, nb2, nc2) = (db as i128, dc as i128, nb as i128, nc as i128);
    assert(0 <= db2 * db2 <= 0x4_0000_0000_0000_0000 && 0 <= dc2 * dc2 <= 0x4_0000_0000_0000_0000)
        by (nonlinear_arith)
        requires
            -0x2_0000_0000 <= db2 <= 0x2_0000_0000,
            -0x2_0000_0000 <= dc2 <= 0x2_0000_0000,
    ;
    let sb = db2 * db2;
    let sc = dc2 * dc2;
    assert(0 <= sb * nc2 <= 0x4_0000_0000_0000_0000 * 0x2_0000_0000 && 0 <= sc * nb2
        <= 0x4_0000_0000_0000_0000 * 0x2_0000_0000) by (nonlinear_arith)
        requires
            0 <= sb <= 0x4_0000_0000_0000_0000,
            0 <= sc <= 0x4_0000_0000_0000_0000,
            0 <= nb2 <= 0x2_0000_0000,
            0 <= nc2 <= 0x2_0000_0000,
    ;
    if db >= 0 {
        sb * nc2 > sc * nb2
    } else {
        sb * nc2 < sc * nb2
    }
}

pub open spec fn wall_hit_spec(me_loc: Vec2, intercept_loc: Vec3, intercept_t: u32, enemy_goal: Goal, own_goal: Goal) -> Option<u32> {
    let push = sub2_spec(intercept_loc.to_2d_spec(), me_loc);
    let field_axis = sub2_spec(enemy_goal.center, own_goal.center);
    if !within_angle_spec(push, field_axis, 500) {
        None
    } else if -(FIELD_MAX_X - 500) < intercept_loc.x < FIELD_MAX_X - 500 {
        None
    } else {
        Some(intercept_t)
    }
}

/// A wall hit is worth considering only if it pushes the ball within 60 degrees of straight
/// up the field and the intercept is on a side wall (not the front or back wall); then its
/// time is the intercept's.
pub fn wall_hit(me_loc: Vec2, intercept_loc: Vec3, intercept_t: u32, enemy_goal: &Goal, own_goal: &Goal) -> (r:
    Option<u32>)
    ensures
        r == wall_hit_spec(me_loc, intercept_loc, intercept_t, *enemy_goal, *own_goal),
{
    let push = sub2(intercept_loc.to_2d(), me_loc);
    let field_axis = sub2(enemy_goal.center, own_goal.center);
    if !within_angle(push, field_axis, 500) {
        return None;
    }
    let limit = FIELD_MAX_X as i32 - 500;
    if -limit < intercept_loc.x as i32 && (intercept_loc.x as i32) < limit {
        return None;
    }
    Some(intercept_t)
}

pub open spec fn chippable_spec(car_loc: Vec2, car_forward: Vec2, ball: Vec3, aim_loc: Vec2, enemy_goal: Goal) -> bool {
    &&& abs_spec(ball.x as int) >= 3000
    &&& abs_spec(enemy_goal.center.y - ball.y) < 2000
    &&& ball.z < 130
    &&& within_angle_spec(vec2_int(car_forward), sub2_spec(aim_loc, car_loc), 707)
    &&& dot2_spec(sub2_spec(ball.to_2d_spec(), car_loc), sub2_spec(enemy_goal.center, ball.to_2d_spec()))
        > 0
}

/// A low ball in the enemy corner, which the car faces the aim point for (within 45 degrees)
/// and reaches while moving goalward: roll it around the side wall without jumping, to
/// recover quickly and follow it in.
pub fn is_chippable(car_loc: Vec2, car_forward: Vec2, ball: Vec3, aim_loc: Vec2, enemy_goal: &Goal) -> (r: bool)
    ensures
        r == chippable_spec(car_loc, car_forward, ball, aim_loc, *enemy_goal),
{
    let bx = if ball.x < 0 {
        -(ball.x as i32)
    } else {
        ball.x as i32
    };
    let dy = enemy_goal.center.y as i32 - ball.y as i32;
    let ady = if dy < 0 {
        -dy
    } else {
        dy
    };
    if bx < 3000 || ady >= 2000 || ball.z >= 130 {
        return false;
    }
    let f = (car_forward.x as i64, car_forward.y as i64);
    if !within_angle(f, sub2(aim_loc, car_loc), 707) {
        return false;
    }
    let b2 = ball.to_2d();
    dot2(sub2(b2, car_loc), sub2(enemy_goal.center, b2)) > 0
}

/// The boundary a shot meets first.
#[derive(Clone, Copy, Debug, PartialEq, Eq, Structural)]
pub enum Wall {
    OwnGoal,
    OwnBackWall,
    EnemyGoal,
    EnemyBackWall,
    SideWall,
}

/// Which boundary the straight line from `from` through `to` meets first: a back wall (inside
/// its goal when between the posts; ours when on the side `own_goal.center.y` points to) if it
/// reaches the back-wall line within the field's width, else a side wall.
pub open spec fn wall_for_ray_spec(from: Vec2, to: Vec2, own_goal: Goal) -> Wall {
    let d = sub2_spec(to, from);
    if d.1 == 0 {
        Wall::SideWall
    } else {
        let back_y = FIELD_MAX_Y * sign_spec(d.1);
        let c = from.x * d.1 + (back_y - from.y) * d.0;
        let ady = abs_spec(d.1);
        let own_side = (d.1 > 0) == (own_goal.center.y > 0);
        if abs_spec(c) > FIELD_MAX_X * ady {
            Wall::SideWall
        } else if abs_spec(c) < GOALPOST_X * ady {
            if own_side {
                Wall::OwnGoal
            } else {
                Wall::EnemyGoal
            }
        } else if own_side {
            Wall::OwnBackWall
        } else {
            Wall::EnemyBackWall
        }
    }
}

pub fn wall_for_ray(from: Vec2, to: Vec2, own_goal: &Goal) -> (r: Wall)
    ensures
        r == wall_for_ray_spec(from, to, *own_goal),
{
    let d = sub2(to, from);
    if d.1 == 0 {
        return Wall::SideWall;
    }
    let back_y: i64 = if d.1 > 0 {
        FIELD_MAX_Y as i64
    } else {
        -(FIELD_MAX_Y as i64)
    };
    assert(back_y == FIELD_MAX_Y * sign_spec(d.1 as int));
    assert(-0x1_0000_0000 <= (from.x as i64) * d.1 <= 0x1_0000_0000 && -0x2_0000_0000 <= (back_y
        - from.y as i64) * d.0 <= 0x2_0000_0000) by (nonlinear_arith)
        requires
            -32768 <= from.x <= 32767,
            -65536 <= d.1 <= 65536,
            -65536 <= d.0 <= 65536,
            -40000 <= back_y - from.y <= 40000,
    ;
    let c = (from.x as i64) * d.1 + (back_y - from.y as i64) * d.0;
    let ac = if c < 0 {
        -c
    } else {
        c
    };
    let ady = if d.1 < 0 {
        -d.1
    } else {
        d.1
    };
    let own_side = (d.1 > 0) == (own_goal.center.y > 0);
    if ac > FIELD_MAX_X as i64 * ady {
        Wall::SideWall
    } else if ac < GOALPOST_X as i64 * ady {
        if own_side {
            Wall::OwnGoal
        } else {
            Wall::EnemyGoal
        }
    } else if own_side {
        Wall::OwnBackWall
    } else {
        Wall::EnemyBackWall
    }
}

/// `n / m` rounded towards zero.
pub open spec fn trunc_div(n: int, m: int) -> int {
    if (n >= 0) == (m > 0) {
        abs_spec(n) / abs_spec(m)
    } else {
        -(abs_spec(n) / abs_spec(m))
    }
}

fn trunc_div_exec(n: i64, m: i64) -> (r: i64)
    requires
        m != 0,
        -0x10_0000_0000 <= n <= 0x10_0000_0000,
        -0x10_0000_0000 <= m <= 0x10_0000_0000,
    ensures
        r == trunc_div(n as int, m as int),
        -abs_spec(n as int) <= r <= abs_spec(n as int),
{
    let an = if n < 0 {
        -n
    } else {
        n
    };
    let am = if m < 0 {
        -m
    } else {
        m
    };
    proof {
        vstd::arithmetic::div_mod::lemma_div_is_ordered_by_denominator(an as int, 1, am as int);
        vstd::arithmetic::div_mod::lemma_div_pos_is_pos(an as int, am as int);
    }
    let q = an / am;
    if (n >= 0) == (m > 0) {
        q
    } else {
        -q
    }
}

/// Where the straight line from `from` through `to` meets the field's boundary (rounded
/// towards zero): on the back wall it heads for if it gets there within the field's width,
/// else on the side wall it heads for (kept within the field's length). `from` itself when
/// `to` is `from`.
pub open spec fn boundary_point_spec(from: Vec2, to: Vec2) -> Vec2 {
    let d = sub2_spec(to, from);
    let back_y = FIELD_MAX_Y * sign_spec(d.1);
    let c = from.x * d.1 + (back_y - from.y) * d.0;
    if d.0 == 0 && d.1 == 0 {
        from
    } else if d.1 != 0 && abs_spec(c) <= FIELD_MAX_X * abs_spec(d.1) {
        Vec2 { x: trunc_div(c, d.1) as i16, y: back_y as i16 }
    } else {
        let right = if d.1 == 0 {
            d.0 > 0
        } else {
            (c > 0) == (d.1 > 0)
        };
        let side_x: int = if right {
            FIELD_MAX_X as int
        } else {
            -FIELD_MAX_X
        };
        let y = if d.0 == 0 {
            from.y as int
        } else {
            from.y + trunc_div((side_x - from.x) * d.1, d.0)
        };
        let yc = if y < -FIELD_MAX_Y {
            -FIELD_MAX_Y
        } else if y > FIELD_MAX_Y {
            FIELD_MAX_Y as int
        } else {
            y
        };
        Vec2 { x: side_x as i16, y: yc as i16 }
    }
}

pub fn boundary_point(from: Vec2, to: Vec2) -> (r: Vec2)
    ensures
        r == boundary_point_spec(from, to),
{
    let d = sub2(to, from);
    if d.0 == 0 && d.1 == 0 {
        return from;
    }
    let back_y: i64 = if d.1 > 0 {
        FIELD_MAX_Y as i64
    } else if d.1 < 0 {
        -(FIELD_MAX_Y as i64)
    } else {
        0
    };
    assert(back_y == FIELD_MAX_Y * sign_spec(d.1 as int));
    assert(-0x1_0000_0000 <= (from.x as i64) * d.1 <= 0x1_0000_0000 && -0x2_0000_0000 <= (back_y
        - from.y as i64) * d.0 <= 0x2_0000_0000) by (nonlinear_arith)
        requires
            -32768 <= from.x <= 32767,
            -65536 <= d.1 <= 65536,
            -65536 <= d.0 <= 65536,
            -40000 <= back_y - from.y <= 40000,
    ;
    let c = (from.x as i64) * d.1 + (back_y - from.y as i64) * d.0;
    let ac = if c < 0 {
        -c
    } else {
        c
    };
    let ady = if d.1 < 0 {
        -d.1
    } else {
        d.1
    };
    assert(0 <= ady <= 65536);
    assert(0 <= 4096 * ady <= 4096 * 65536) by (nonlinear_arith)
        requires
            0 <= ady <= 65536,
    ;
    let lim: i64 = 4096 * ady;
    assert(lim == FIELD_MAX_X * ady);
    if d.1 != 0 && ac <= lim {
        let x = trunc_div_exec(c, d.1);
        proof {
            let (aci, adi) = (ac as int, ady as int);
            vstd::arithmetic::div_mod::lemma_div_is_ordered(aci, 4096 * adi, adi);
            vstd::arithmetic::div_mod::lemma_div_multiples_vanish(4096, adi);
            assert(4096 * adi == adi * 4096) by (nonlinear_arith);
            assert(aci / adi <= 4096);
        }
        return Vec2 { x: x as i16, y: back_y as i16 };
    }
    let right = if d.1 == 0 {
        d.0 > 0
    } else {
        (c > 0) == (d.1 > 0)
    };
    let side_x: i64 = if right {
        FIELD_MAX_X as i64
    } else {
        -(FIELD_MAX_X as i64)
    };
    let y: i64 = if d.0 == 0 {
        from.y as i64
    } else {
        assert(-0x1_0000_0000 <= (side_x - from.x as i64) * d.1 <= 0x1_0000_0000) by (nonlinear_arith)
            requires
                -40000 <= side_x - from.x <= 40000,
                -65536 <= d.1 <= 65536,
        ;
        from.y as i64 + trunc_div_exec((side_x - from.x as i64) * d.1, d.0)
    };
    let yc: i64 = if y < -(FIELD_MAX_Y as i64) {
        -(FIELD_MAX_Y as i64)
    } else if y > FIELD_MAX_Y as i64 {
        FIELD_MAX_Y as i64
    } else {
        y
    };
    Vec2 { x: side_x as i16, y: yc as i16 }
}

pub open spec fn clamp_i16_spec(v: int) -> int {
    if v < -32768 {
        -32768
    } else if v > 32767 {
        32767
    } else {
        v
    }
}

/// The aim of an unhurried hit: towards the enemy goal when that needs less deviation from
/// the line from me to the ball than aiming away from our own goal (the point mirroring
/// `defense_avoid` through the ball, kept within the coordinate range); refused when the shot
/// line from the ball through the aim meets our own goal first; otherwise the aim is the point
/// where that line meets the field's boundary.
pub open spec fn time_wasting_aim_spec(
    me_loc: Vec2,
    ball_loc: Vec2,
    offense_aim: Vec2,
    defense_avoid: Vec2,
    own_goal: Goal,
) -> Result<Vec2, ()> {
    let aim = if closer_in_angle(
        sub2_spec(ball_loc, me_loc),
        sub2_spec(offense_aim, me_loc),
        sub2_spec(defense_avoid, me_loc),
    ) {
        offense_aim
    } else {
        Vec2 {
            x: clamp_i16_spec(2 * ball_loc.x - defense_avoid.x) as i16,
            y: clamp_i16_spec(2 * ball_loc.y - defense_avoid.y) as i16,
        }
    };
    if wall_for_ray_spec(ball_loc, aim, own_goal) == Wall::OwnGoal {
        Err(())
    } else {
        Ok(boundary_point_spec(ball_loc, aim))
    }
}

fn clamp_i16(v: i64) -> (r: i16)
    ensures
        r == clamp_i16_spec(v as int),
{
    if v < -32768 {
        -32768
    } else if v > 32767 {
        32767
    } else {
        v as i16
    }
}

pub fn time_wasting_aim(
    me_loc: Vec2,
    ball_loc: Vec2,
    offense_aim: Vec2,
    defense_avoid: Vec2,
    own_goal: &Goal,
) -> (r: Result<Vec2, ()>)
    ensures
        r == time_wasting_aim_spec(me_loc, ball_loc, offense_aim, defense_avoid, *own_goal),
{
    let aim = if aim_toward_enemy_goal(me_loc, ball_loc, offense_aim, defense_avoid) {
        offense_aim
    } else {
        Vec2 {
            x: clamp_i16(2 * ball_loc.x as i64 - defense_avoid.x as i64),
            y: clamp_i16(2 * ball_loc.y as i64 - defense_avoid.y as i64),
        }
    };
    if wall_for_ray(ball_loc, aim, own_goal) == Wall::OwnGoal {
        Err(())
    } else {
        Ok(boundary_point(ball_loc, aim))
    }
}

} // verus!
