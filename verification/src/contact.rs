//! Contact force/torque aggregator: combines discrete contact points,
//! normals, normal forces and grip coefficients into one total force,
//! torque about a reference origin, centroid, area and grip summary.

use vstd::prelude::*;
use crate::fx::{
    divt, fxm, fx_mul, div_trunc, max_i, lemma_mul_le, lemma_fxm_le,
    lemma_divt_le, SCALE,
};
use crate::vec3::{Vec3, V3, v3_zero};

verus! {

/// Largest coordinate or force magnitude accepted (one million units).
pub const POS_MAX: i128 = 1_000_000_000_000;

/// Largest normal component accepted (four units: normals are at most
/// a few times unit length).
pub const NORMAL_MAX: i128 = 4_000_000;

/// Largest grip coefficient accepted (ten units).
pub const GRIP_MAX: i128 = 10_000_000;

/// Largest contact count accepted in one call.
pub const MAX_CONTACTS: usize = 10_000;

/// The per-tick geometric summary of a contact point set.
#[derive(Clone, Copy, Debug, PartialEq, Eq, Structural)]
pub struct ContactAggregate {
    pub total_force: Vec3,
    pub total_torque: Vec3,
    pub average_position: Vec3,
    pub contact_area: i128,
    pub max_pressure: i128,
    pub weighted_grip: i128,
}

/// The all-zero aggregate, returned when a buffer is absent or the
/// count is zero.
pub open spec fn zero_contact_aggregate() -> ContactAggregate {
    ContactAggregate {
        total_force: Vec3 { x: 0, y: 0, z: 0 },
        total_torque: Vec3 { x: 0, y: 0, z: 0 },
        average_position: Vec3 { x: 0, y: 0, z: 0 },
        contact_area: 0,
        max_pressure: 0,
        weighted_grip: 0,
    }
}

/// A position-like vector within bounds.
pub open spec fn wf_pos(v: Vec3) -> bool {
    &&& -POS_MAX <= v.x <= POS_MAX
    &&& -POS_MAX <= v.y <= POS_MAX
    &&& -POS_MAX <= v.z <= POS_MAX
}

/// A normal-like vector within bounds.
pub open spec fn wf_normal(v: Vec3) -> bool {
    &&& -NORMAL_MAX <= v.x <= NORMAL_MAX
    &&& -NORMAL_MAX <= v.y <= NORMAL_MAX
    &&& -NORMAL_MAX <= v.z <= NORMAL_MAX
}

/// The stiffness divisor floored at one unit.
pub open spec fn stiff_floor(stiffness: int) -> int {
    if stiffness >= SCALE {
        stiffness
    } else {
        SCALE as int
    }
}

/// The grip-attenuated force vector of one contact: the normal scaled
/// by the force magnitude, with the two shear axes (x and z) further
/// scaled by the grip coefficient while the load axis (y) is not.
pub open spec fn gforce(n: V3, f: int, g: int) -> V3 {
    let fd = n.scale(f);
    V3 { x: fxm(fd.x, g), y: fd.y, z: fxm(fd.z, g) }
}

/// Sum of the grip-attenuated force vectors of the first `k` contacts.
pub open spec fn sum_force(ns: Seq<Vec3>, fs: Seq<i128>, gs: Seq<i128>, k: int) -> V3
    decreases k,
{
    if k <= 0 {
        v3_zero()
    } else {
        sum_force(ns, fs, gs, k - 1).plus(
            gforce(ns[k - 1]@, fs[k - 1] as int, gs[k - 1] as int))
    }
}

/// Sum of the first `k` contact positions.
pub open spec fn sum_pos(ps: Seq<Vec3>, k: int) -> V3
    decreases k,
{
    if k <= 0 {
        v3_zero()
    } else {
        sum_pos(ps, k - 1).plus(ps[k - 1]@)
    }
}

/// The centroid: the position sum divided component-wise by the count.
pub open spec fn avg_pos(ps: Seq<Vec3>, k: int) -> V3 {
    let s = sum_pos(ps, k);
    V3 { x: divt(s.x, k), y: divt(s.y, k), z: divt(s.z, k) }
}

/// Sum of `force / stiffness` over the first `k` contacts.
pub open spec fn area_sum(fs: Seq<i128>, s: int, k: int) -> int
    decreases k,
{
    if k <= 0 {
        0
    } else {
        area_sum(fs, s, k - 1) + divt(fs[k - 1] * SCALE, s)
    }
}

/// Largest force among the first `k` contacts, at least zero.
pub open spec fn maxforce(fs: Seq<i128>, k: int) -> int
    decreases k,
{
    if k <= 0 {
        0
    } else {
        let m = maxforce(fs, k - 1);
        if fs[k - 1] > m {
            fs[k - 1] as int
        } else {
            m
        }
    }
}

/// Torque of one contact about `origin`: the lever arm crossed with
/// the normal scaled by `force * grip`.
pub open spec fn torque_of(p: V3, n: V3, f: int, g: int, origin: V3) -> V3 {
    p.minus(origin).crossf(n.scale(fxm(f, g)))
}

/// Sum of the torque contributions of the first `k` contacts.
pub open spec fn sum_torque(
    ps: Seq<Vec3>,
    ns: Seq<Vec3>,
    fs: Seq<i128>,
    gs: Seq<i128>,
    origin: V3,
    k: int,
) -> V3
    decreases k,
{
    if k <= 0 {
        v3_zero()
    } else {
        sum_torque(ps, ns, fs, gs, origin, k - 1).plus(
            torque_of(ps[k - 1]@, ns[k - 1]@, fs[k - 1] as int, gs[k - 1] as int, origin))
    }
}

/// Sum of each contact's grip weighted by its share of the total force
/// magnitude `mag`.
pub open spec fn grip_sum(fs: Seq<i128>, gs: Seq<i128>, mag: int, k: int) -> int
    decreases k,
{
    if k <= 0 {
        0
    } else {
        grip_sum(fs, gs, mag, k - 1) + fxm(gs[k - 1] as int, divt(fs[k - 1] * SCALE, mag))
    }
}

/// The force-weighted grip figure: one unit when no force acts,
/// otherwise the force-share-weighted grip sum.
pub open spec fn weighted_grip_spec(ns: Seq<Vec3>, fs: Seq<i128>, gs: Seq<i128>, k: int) -> int {
    let mag = sum_force(ns, fs, gs, k).lenf();
    if mag > 0 {
        grip_sum(fs, gs, mag, k)
    } else {
        SCALE as int
    }
}

fn zero_aggregate() -> (r: ContactAggregate)
    ensures
        r == zero_contact_aggregate(),
{
    ContactAggregate {
        total_force: Vec3 { x: 0, y: 0, z: 0 },
        total_torque: Vec3 { x: 0, y: 0, z: 0 },
        average_position: Vec3 { x: 0, y: 0, z: 0 },
        contact_area: 0,
        max_pressure: 0,
        weighted_grip: 0,
    }
}

/// Aggregates a discrete contact patch. An absent buffer or a zero
/// count degrades to the all-zero aggregate; otherwise the first
/// `count` entries of each buffer are combined exactly as the spec
/// functions above state.
pub fn tire_aggregate_contacts(
    points: Option<&Vec<Vec3>>,
    normals: Option<&Vec<Vec3>>,
    forces: Option<&Vec<i128>>,
    grips: Option<&Vec<i128>>,
    count: usize,
    global_origin: Vec3,
    stiffness: i128,
) -> (r: ContactAggregate)
    requires
        count <= MAX_CONTACTS,
        -POS_MAX <= global_origin.x <= POS_MAX,
        -POS_MAX <= global_origin.y <= POS_MAX,
        -POS_MAX <= global_origin.z <= POS_MAX,
        -POS_MAX <= stiffness <= POS_MAX,
        points is Some ==> points->Some_0@.len() >= count
            && (forall|i: int| 0 <= i < count ==> wf_pos(#[trigger] points->Some_0@[i])),
        normals is Some ==> normals->Some_0@.len() >= count
            && (forall|i: int| 0 <= i < count ==> wf_normal(#[trigger] normals->Some_0@[i])),
        forces is Some ==> forces->Some_0@.len() >= count
            && (forall|i: int| 0 <= i < count
                ==> -POS_MAX <= #[trigger] forces->Some_0@[i] <= POS_MAX),
        grips is Some ==> grips->Some_0@.len() >= count
            && (forall|i: int| 0 <= i < count
                ==> -GRIP_MAX <= #[trigger] grips->Some_0@[i] <= GRIP_MAX),
    ensures
        (points is None || normals is None || forces is None || grips is None || count == 0)
            ==> r == zero_contact_aggregate(),
        (points is Some && normals is Some && forces is Some && grips is Some && count > 0)
            ==> {
            let ps = points->Some_0@;
            let ns = normals->Some_0@;
            let fs = forces->Some_0@;
            let gs = grips->Some_0@;
            let k = count as int;
            &&& r.total_force@ == sum_force(ns, fs, gs, k)
            &&& r.total_torque@ == sum_torque(ps, ns, fs, gs, global_origin@, k)
            &&& r.average_position@ == avg_pos(ps, k)
            &&& r.contact_area == area_sum(fs, stiff_floor(stiffness as int), k)
            &&& r.max_pressure == maxforce(fs, k)
            &&& r.weighted_grip == weighted_grip_spec(ns, fs, gs, k)
        },
        r.max_pressure >= 0,
{
    let ps = match points {
        Some(p) => p,
        None => {
            return zero_aggregate();
        },
    };
    let ns = match normals {
        Some(n) => n,
        None => {
            return zero_aggregate();
        },
    };
    let fs = match forces {
        Some(f) => f,
        None => {
            return zero_aggregate();
        },
    };
    let gs = match grips {
        Some(g) => g,
        None => {
            return zero_aggregate();
        },
    };
    if count == 0 {
        return zero_aggregate();
    }

    let s_floor: i128 = max_i(stiffness, SCALE);
    let mut total_force = Vec3 { x: 0, y: 0, z: 0 };
    let mut position_sum = Vec3 { x: 0, y: 0, z: 0 };
    let mut contact_area: i128 = 0;
    let mut max_pressure: i128 = 0;
    let mut i: usize = 0;
    while i < count
        invariant
            0 < count <= MAX_CONTACTS,
            i <= count,
            ps@.len() >= count,
            ns@.len() >= count,
            fs@.len() >= count,
            gs@.len() >= count,
            forall|j: int| 0 <= j < count ==> wf_pos(#[trigger] ps@[j]),
            forall|j: int| 0 <= j < count ==> wf_normal(#[trigger] ns@[j]),
            forall|j: int| 0 <= j < count ==> -POS_MAX <= #[trigger] fs@[j] <= POS_MAX,
            forall|j: int| 0 <= j < count ==> -GRIP_MAX <= #[trigger] gs@[j] <= GRIP_MAX,
            s_floor == stiff_floor(stiffness as int),
            s_floor >= SCALE,
            total_force@ == sum_force(ns@, fs@, gs@, i as int),
            -(i * 40_000_000_000_000) <= total_force@.x <= i * 40_000_000_000_000,
            -(i * 40_000_000_000_000) <= total_force@.y <= i * 40_000_000_000_000,
            -(i * 40_000_000_000_000) <= total_force@.z <= i * 40_000_000_000_000,
            position_sum@ == sum_pos(ps@, i as int),
            -(i * POS_MAX) <= position_sum@.x <= i * POS_MAX,
            -(i * POS_MAX) <= position_sum@.y <= i * POS_MAX,
            -(i * POS_MAX) <= position_sum@.z <= i * POS_MAX,
            contact_area == area_sum(fs@, s_floor as int, i as int),
            -(i * POS_MAX) <= contact_area <= i * POS_MAX,
            max_pressure == maxforce(fs@, i as int),
            0 <= max_pressure <= POS_MAX,
        decreases count - i,
    {
        let n_i = ns[i];
        let f_i = fs[i];
        let g_i = gs[i];
        proof {
            lemma_mul_le(n_i@.x, NORMAL_MAX as int, f_i as int, POS_MAX as int);
            lemma_mul_le(n_i@.y, NORMAL_MAX as int, f_i as int, POS_MAX as int);
            lemma_mul_le(n_i@.z, NORMAL_MAX as int, f_i as int, POS_MAX as int);
            lemma_fxm_le(n_i@.x, f_i as int, 4_000_000_000_000);
            lemma_fxm_le(n_i@.y, f_i as int, 4_000_000_000_000);
            lemma_fxm_le(n_i@.z, f_i as int, 4_000_000_000_000);
        }
        let fd = n_i.mul(f_i);
        proof {
            lemma_mul_le(fd.x as int, 4_000_000_000_000, g_i as int, GRIP_MAX as int);
            lemma_mul_le(fd.z as int, 4_000_000_000_000, g_i as int, GRIP_MAX as int);
            lemma_fxm_le(fd.x as int, g_i as int, 40_000_000_000_000);
            lemma_fxm_le(fd.z as int, g_i as int, 40_000_000_000_000);
        }
        let gf = Vec3 { x: fx_mul(fd.x, g_i), y: fd.y, z: fx_mul(fd.z, g_i) };
        proof {
            assert(gf@ == gforce(n_i@, f_i as int, g_i as int));
        }
        total_force = total_force.add(gf);
        position_sum = position_sum.add(ps[i]);
        proof {
            lemma_divt_le(f_i as int * SCALE as int, s_floor as int, POS_MAX as int);
        }
        contact_area = contact_area + div_trunc(f_i * SCALE, s_floor);
        max_pressure = max_i(max_pressure, f_i);
        i = i + 1;
    }

    let cnt = count as i128;
    let average_position = Vec3 {
        x: div_trunc(position_sum.x, cnt),
        y: div_trunc(position_sum.y, cnt),
        z: div_trunc(position_sum.z, cnt),
    };
    proof {
        assert(average_position@ == avg_pos(ps@, count as int));
    }

    let mut total_torque = Vec3 { x: 0, y: 0, z: 0 };
    let mut i2: usize = 0;
    while i2 < count
        invariant
            0 < count <= MAX_CONTACTS,
            i2 <= count,
            ps@.len() >= count,
            ns@.len() >= count,
            fs@.len() >= count,
            gs@.len() >= count,
            forall|j: int| 0 <= j < count ==> wf_pos(#[trigger] ps@[j]),
            forall|j: int| 0 <= j < count ==> wf_normal(#[trigger] ns@[j]),
            forall|j: int| 0 <= j < count ==> -POS_MAX <= #[trigger] fs@[j] <= POS_MAX,
            forall|j: int| 0 <= j < count ==> -GRIP_MAX <= #[trigger] gs@[j] <= GRIP_MAX,
            -POS_MAX <= global_origin.x <= POS_MAX,
            -POS_MAX <= global_origin.y <= POS_MAX,
            -POS_MAX <= global_origin.z <= POS_MAX,
            total_torque@ == sum_torque(ps@, ns@, fs@, gs@, global_origin@, i2 as int),
            -(i2 * 160_000_000_000_000_000_000) <= total_torque@.x
                <= i2 * 160_000_000_000_000_000_000,
            -(i2 * 160_000_000_000_000_000_000) <= total_torque@.y
                <= i2 * 160_000_000_000_000_000_000,
            -(i2 * 160_000_000_000_000_000_000) <= total_torque@.z
                <= i2 * 160_000_000_000_000_000_000,
        decreases count - i2,
    {
        let p_i = ps[i2];
        let n_i = ns[i2];
        let f_i = fs[i2];
        let g_i = gs[i2];
        let lever = p_i.sub(global_origin);
        proof {
            lemma_mul_le(f_i as int, POS_MAX as int, g_i as int, GRIP_MAX as int);
            lemma_fxm_le(f_i as int, g_i as int, 10_000_000_000_000);
        }
        let fg = fx_mul(f_i, g_i);
        proof {
            lemma_mul_le(n_i@.x, NORMAL_MAX as int, fg as int, 10_000_000_000_000);
            lemma_mul_le(n_i@.y, NORMAL_MAX as int, fg as int, 10_000_000_000_000);
            lemma_mul_le(n_i@.z, NORMAL_MAX as int, fg as int, 10_000_000_000_000);
            lemma_fxm_le(n_i@.x, fg as int, 40_000_000_000_000);
            lemma_fxm_le(n_i@.y, fg as int, 40_000_000_000_000);
            lemma_fxm_le(n_i@.z, fg as int, 40_000_000_000_000);
        }
        let fd2 = n_i.mul(fg);
        proof {
            lemma_mul_le(lever.y as int, 2 * POS_MAX as int, fd2.z as int, 40_000_000_000_000);
            lemma_mul_le(lever.z as int, 2 * POS_MAX as int, fd2.y as int, 40_000_000_000_000);
            lemma_mul_le(lever.z as int, 2 * POS_MAX as int, fd2.x as int, 40_000_000_000_000);
            lemma_mul_le(lever.x as int, 2 * POS_MAX as int, fd2.z as int, 40_000_000_000_000);
            lemma_mul_le(lever.x as int, 2 * POS_MAX as int, fd2.y as int, 40_000_000_000_000);
            lemma_mul_le(lever.y as int, 2 * POS_MAX as int, fd2.x as int, 40_000_000_000_000);
            lemma_fxm_le(lever.y as int, fd2.z as int, 80_000_000_000_000_000_000);
            lemma_fxm_le(lever.z as int, fd2.y as int, 80_000_000_000_000_000_000);
            lemma_fxm_le(lever.z as int, fd2.x as int, 80_000_000_000_000_000_000);
            lemma_fxm_le(lever.x as int, fd2.z as int, 80_000_000_000_000_000_000);
            lemma_fxm_le(lever.x as int, fd2.y as int, 80_000_000_000_000_000_000);
            lemma_fxm_le(lever.y as int, fd2.x as int, 80_000_000_000_000_000_000);
        }
        let torque_term = lever.cross(fd2);
        proof {
            assert(torque_term@ == torque_of(p_i@, n_i@, f_i as int, g_i as int, global_origin@));
        }
        total_torque = total_torque.add(torque_term);
        i2 = i2 + 1;
    }

    let mag = total_force.length();
    let mut weighted_grip: i128 = SCALE;
    if mag > 0 {
        weighted_grip = 0;
        let mut i3: usize = 0;
        while i3 < count
            invariant
                0 < count <= MAX_CONTACTS,
                i3 <= count,
                fs@.len() >= count,
                gs@.len() >= count,
                forall|j: int| 0 <= j < count ==> -POS_MAX <= #[trigger] fs@[j] <= POS_MAX,
                forall|j: int| 0 <= j < count ==> -GRIP_MAX <= #[trigger] gs@[j] <= GRIP_MAX,
                mag > 0,
                weighted_grip == grip_sum(fs@, gs@, mag as int, i3 as int),
                -(i3 * 10_000_000_000_000_000_000) <= weighted_grip
                    <= i3 * 10_000_000_000_000_000_000,
            decreases count - i3,
        {
            let f_i = fs[i3];
            let g_i = gs[i3];
            proof {
                lemma_divt_le(f_i as int * SCALE as int, mag as int,
                    1_000_000_000_000_000_000);
            }
            let ratio = div_trunc(f_i * SCALE, mag);
            proof {
                lemma_mul_le(g_i as int, GRIP_MAX as int, ratio as int,
                    1_000_000_000_000_000_000);
                lemma_fxm_le(g_i as int, ratio as int, 10_000_000_000_000_000_000);
            }
            weighted_grip = weighted_grip + fx_mul(g_i, ratio);
            i3 = i3 + 1;
        }
    }

    ContactAggregate {
        total_force,
        total_torque,
        average_position,
        contact_area,
        max_pressure,
        weighted_grip,
    }
}

} // verus!
