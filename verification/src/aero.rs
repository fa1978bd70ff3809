//! The axis layout of the T1 ride-height / yaw aero map: each map axis name resolves to the
//! physical quantity it carries, and an unrecognised name rejects the map.
use vstd::prelude::*;
use crate::error::{T0Error, T1Error};
use crate::strings::views;

verus! {

/// Which physical quantity a map axis carries (resolved from the axis name).
#[derive(Clone, Copy, Debug, PartialEq, Eq, Structural)]
pub enum AxisRole {
    /// Front-axle ride height, mm (`ride_height_f_mm`).
    RideFront,
    /// Rear-axle ride height, mm (`ride_height_r_mm`).
    RideRear,
    /// Aerodynamic yaw (vehicle sideslip) angle, degrees (`yaw_deg`).
    Yaw,
    /// DRS flag, 0 closed / 1 open (`drs_flag`).
    Drs,
}

/// The role an axis name selects, if it is one of the four recognised names.
pub open spec fn spec_axis_role(name: Seq<char>) -> Option<AxisRole> {
    if name == "ride_height_f_mm"@ {
        Some(AxisRole::RideFront)
    } else if name == "ride_height_r_mm"@ {
        Some(AxisRole::RideRear)
    } else if name == "yaw_deg"@ {
        Some(AxisRole::Yaw)
    } else if name == "drs_flag"@ {
        Some(AxisRole::Drs)
    } else {
        None
    }
}

impl AxisRole {
    /// Resolve an axis name: `ride_height_f_mm`, `ride_height_r_mm`, `yaw_deg` or `drs_flag`;
    /// anything else is [`T1Error::UnknownAeroAxis`] carrying the name.
    pub fn from_name(name: &str) -> (r: Result<AxisRole, T1Error>)
        ensures
            match spec_axis_role(name@) {
                Some(role) => r == Ok::<AxisRole, T1Error>(role),
                None => r matches Err(T1Error::UnknownAeroAxis { name: n }) && n@ == name@,
            },
    {
        let owned = name.to_owned();
        if owned == String::from_str("ride_height_f_mm") {
            Ok(AxisRole::RideFront)
        } else if owned == String::from_str("ride_height_r_mm") {
            Ok(AxisRole::RideRear)
        } else if owned == String::from_str("yaw_deg") {
            Ok(AxisRole::Yaw)
        } else if owned == String::from_str("drs_flag") {
            Ok(AxisRole::Drs)
        } else {
            Err(T1Error::UnknownAeroAxis { name: owned })
        }
    }
}

/// The index of the first axis name that is not recognised, if any.
pub open spec fn first_unknown_axis(names: Seq<Seq<char>>) -> Option<int> {
    if exists|i: int| 0 <= i < names.len() && spec_axis_role(names[i]) is None {
        Some(choose|i: int| 0 <= i < names.len() && spec_axis_role(names[i]) is None
            && forall|k: int| 0 <= k < i ==> spec_axis_role(names[k]) is Some)
    } else {
        None
    }
}

/// The axis roles of an aero map, in the map's axis order (the vehicle's `aero.axes`); the first
/// unrecognised name rejects the map with [`T1Error::UnknownAeroAxis`].
pub fn axis_roles(axis_names: &Vec<String>) -> (r: Result<Vec<AxisRole>, T1Error>)
    ensures
        match first_unknown_axis(views(axis_names@)) {
            None => r matches Ok(roles) && roles@.len() == axis_names@.len()
                && forall|i: int| 0 <= i < axis_names@.len() ==> spec_axis_role(axis_names@[i]@) == Some(#[trigger] roles@[i]),
            Some(i) => r matches Err(T1Error::UnknownAeroAxis { name: n }) && n@ == axis_names@[i]@,
        },
{
    let ghost vn = views(axis_names@);
    let mut roles: Vec<AxisRole> = Vec::new();
    let mut i: usize = 0;
    while i < axis_names.len()
        invariant
            0 <= i <= axis_names.len(),
            vn == views(axis_names@),
            roles@.len() == i,
            forall|k: int| 0 <= k < i ==> spec_axis_role(axis_names@[k]@) == Some(#[trigger] roles@[k]),
        decreases axis_names.len() - i,
    {
        match AxisRole::from_name(axis_names[i].as_str()) {
            Ok(role) => {
                roles.push(role);
            },
            Err(e) => {
                proof {
                    assert(vn.len() == axis_names@.len());
                    assert(vn[i as int] == axis_names@[i as int]@);
                    assert forall|k: int| 0 <= k < i implies spec_axis_role(vn[k]) is Some by {
                        assert(vn[k] == axis_names@[k]@);
                        assert(spec_axis_role(axis_names@[k]@) == Some(roles@[k]));
                    }
                    assert(0 <= i < vn.len() && spec_axis_role(vn[i as int]) is None
                        && forall|k: int| 0 <= k < i ==> spec_axis_role(vn[k]) is Some);
                    let j = choose|j: int| 0 <= j < vn.len() && spec_axis_role(vn[j]) is None
                        && forall|k: int| 0 <= k < j ==> spec_axis_role(vn[k]) is Some;
                    if j < i {
                        assert(spec_axis_role(vn[j]) is Some);
                    } else if i < j {
                        assert(spec_axis_role(vn[i as int]) is Some);
                    }
                    assert(first_unknown_axis(vn) == Some(i as int));
                }
                return Err(e);
            },
        }
        i = i + 1;
    }
    proof {
        assert forall|k: int| 0 <= k < vn.len() implies spec_axis_role(vn[k]) is Some by {
            assert(vn[k] == axis_names@[k]@);
            assert(spec_axis_role(axis_names@[k]@) == Some(roles@[k]));
        }
    }
    Ok(roles)
}

/// The coordinate an axis of the given role reads from an operating point.
pub open spec fn spec_coordinate<T>(role: AxisRole, ride_front: T, ride_rear: T, yaw: T, drs: T) -> T {
    match role {
        AxisRole::RideFront => ride_front,
        AxisRole::RideRear => ride_rear,
        AxisRole::Yaw => yaw,
        AxisRole::Drs => drs,
    }
}

/// The query coordinates of an aero map at an operating point, in the map's axis order: each axis
/// reads the quantity its role names (axes absent from the map are simply not queried).
pub fn map_coordinates<T: Copy>(roles: &Vec<AxisRole>, ride_front: T, ride_rear: T, yaw: T, drs: T) -> (r: Vec<T>)
    ensures
        r@.len() == roles@.len(),
        forall|i: int| 0 <= i < roles@.len() ==> #[trigger] r@[i] == spec_coordinate(roles@[i], ride_front, ride_rear, yaw, drs),
{
    let mut out: Vec<T> = Vec::new();
    let mut i: usize = 0;
    while i < roles.len()
        invariant
            0 <= i <= roles.len(),
            out@.len() == i,
            forall|k: int| 0 <= k < i ==> #[trigger] out@[k] == spec_coordinate(roles@[k], ride_front, ride_rear, yaw, drs),
        decreases roles.len() - i,
    {
        let x = match roles[i] {
            AxisRole::RideFront => ride_front,
            AxisRole::RideRear => ride_rear,
            AxisRole::Yaw => yaw,
            AxisRole::Drs => drs,
        };
        out.push(x);
        i = i + 1;
    }
    out
}

/// The value columns an aero map table must carry: front downforce, rear downforce, drag.
pub fn aero_map_columns() -> (r: [&'static str; 3])
    ensures
        r[0]@ == "cz_front_a_m2"@,
        r[1]@ == "cz_rear_a_m2"@,
        r[2]@ == "cx_a_m2"@,
{
    ["cz_front_a_m2", "cz_rear_a_m2", "cx_a_m2"]
}

/// The note recorded when a ride-height/yaw aero map is installed.
pub open spec fn aero_map_installed_msg() -> Seq<char> {
    "aero: ride-height/yaw map consumed — downforce & drag from the aero-platform equilibrium (ride heights from ride rates + downforce, iterated against the map)"@
}

/// The note recorded when a ride-height/yaw aero map is installed.
pub fn aero_map_installed_note() -> (m: String)
    ensures
        m@ == aero_map_installed_msg(),
{
    String::from_str(
        "aero: ride-height/yaw map consumed — downforce & drag from the aero-platform equilibrium (ride heights from ride rates + downforce, iterated against the map)",
    )
}

/// Where the constant aero terms come from.
#[derive(Clone, Copy, Debug, PartialEq, Eq, Structural)]
pub enum AeroSource {
    /// The vehicle's `aero.constant` coefficients.
    Constant,
    /// Zero aero: no constant block, and degraded runs are allowed (recorded in the notes).
    ZeroDegraded,
}

/// The point-mass tier's aero source: the constant block when present; without one, zero aero if
/// degraded runs are allowed, else an error.
pub fn t0_aero_source(has_constant: bool, allow_degraded: bool) -> (r: Result<AeroSource, T0Error>)
    ensures
        has_constant ==> r == Ok::<AeroSource, T0Error>(AeroSource::Constant),
        !has_constant && allow_degraded ==> r == Ok::<AeroSource, T0Error>(AeroSource::ZeroDegraded),
        !has_constant && !allow_degraded ==> r == Err::<AeroSource, T0Error>(T0Error::NoConstantAero),
{
    if has_constant {
        Ok(AeroSource::Constant)
    } else if allow_degraded {
        Ok(AeroSource::ZeroDegraded)
    } else {
        Err(T0Error::NoConstantAero)
    }
}

/// The T1 tier's constant aero source (a ride-height map installed later supersedes it): the
/// constant block when present; without one, zero aero if degraded runs are allowed, else an error.
pub fn t1_aero_source(has_constant: bool, allow_degraded: bool) -> (r: Result<AeroSource, T1Error>)
    ensures
        has_constant ==> r == Ok::<AeroSource, T1Error>(AeroSource::Constant),
        !has_constant && allow_degraded ==> r == Ok::<AeroSource, T1Error>(AeroSource::ZeroDegraded),
        !has_constant && !allow_degraded ==> r == Err::<AeroSource, T1Error>(T1Error::NoConstantAero),
{
    if has_constant {
        Ok(AeroSource::Constant)
    } else if allow_degraded {
        Ok(AeroSource::ZeroDegraded)
    } else {
        Err(T1Error::NoConstantAero)
    }
}

/// The note recorded when the point-mass tier runs with zero aero.
pub open spec fn t0_zero_aero_msg() -> Seq<char> {
    "aero.constant absent — T0 ran with zero aero (ride-height map arrives with T1)"@
}

/// The note recorded when the point-mass tier runs with zero aero.
pub fn t0_zero_aero_note() -> (m: String)
    ensures
        m@ == t0_zero_aero_msg(),
{
    String::from_str("aero.constant absent — T0 ran with zero aero (ride-height map arrives with T1)")
}

/// The note recorded when the T1 tier has no constant aero block.
pub open spec fn t1_zero_aero_msg() -> Seq<char> {
    "aero.constant absent — install a ride-height map or T1 runs with zero aero"@
}

/// The note recorded when the T1 tier has no constant aero block.
pub fn t1_zero_aero_note() -> (m: String)
    ensures
        m@ == t1_zero_aero_msg(),
{
    String::from_str("aero.constant absent — install a ride-height map or T1 runs with zero aero")
}

} // verus!
