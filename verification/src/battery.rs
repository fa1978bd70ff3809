//! The shape rules of a `battery/1.0` pack document: the supported RC-pair count, the paired
//! power-vs-SoC and derate-vs-temperature curves, the ECM sidecar's axis and column names, and the
//! messages a rejected pack reports.
use vstd::prelude::*;
use crate::error::T1Error;
use crate::strings::{decimal, push_decimal};

verus! {

/// The ECM sidecar axis names, in tensor order, for decoding a pack's `(soc, temp)` table.
pub fn ecm_axis_names() -> (r: [&'static str; 2])
    ensures
        r[0]@ == "soc"@,
        r[1]@ == "temp_c"@,
{
    ["soc", "temp_c"]
}

/// The ECM sidecar value columns a pack reads, in the order the pack builds them: open-circuit
/// voltage, ohmic resistance, RC resistance, RC time constant, entropic coefficient.
pub fn ecm_columns() -> (r: [&'static str; 5])
    ensures
        r[0]@ == "ocv_v"@,
        r[1]@ == "r0_ohm"@,
        r[2]@ == "r1_ohm"@,
        r[3]@ == "tau1_s"@,
        r[4]@ == "dudt_v_per_k"@,
{
    ["ocv_v", "r0_ohm", "r1_ohm", "tau1_s", "dudt_v_per_k"]
}

/// The message for an unsupported RC-pair count.
pub open spec fn rc_pairs_msg(n: nat) -> Seq<char> {
    "only 1 RC pair is supported (the ECM tables carry r1/tau1); got rc_pairs = "@ + decimal(n)
}

/// Only single-RC-pair equivalent-circuit models are supported (the ECM tables carry `r1`/`tau1`).
pub fn check_rc_pairs(rc_pairs: usize) -> (r: Result<(), T1Error>)
    ensures
        rc_pairs == 1 ==> r is Ok,
        rc_pairs != 1 ==> (r matches Err(T1Error::Battery(m)) && m@ == rc_pairs_msg(rc_pairs as nat)),
{
    if rc_pairs != 1 {
        let mut m = String::new();
        m.append("only 1 RC pair is supported (the ECM tables carry r1/tau1); got rc_pairs = ");
        push_decimal(&mut m, rc_pairs);
        return Err(T1Error::Battery(m));
    }
    Ok(())
}

/// The message for a power-vs-SoC curve that is not at least two paired points.
pub open spec fn power_curve_msg(n_soc: nat, n_power: nat) -> Seq<char> {
    "power-vs-soc curve needs ≥ 2 paired points; got soc="@ + decimal(n_soc) + ", power_w="@ + decimal(n_power)
}

/// A power-vs-SoC curve needs at least two points, as many powers as SoC breakpoints.
pub fn check_power_curve(n_soc: usize, n_power: usize) -> (r: Result<(), String>)
    ensures
        (n_soc == n_power && n_soc >= 2) ==> r is Ok,
        !(n_soc == n_power && n_soc >= 2) ==> (r matches Err(m) && m@ == power_curve_msg(n_soc as nat, n_power as nat)),
{
    if n_soc != n_power || n_soc < 2 {
        let mut m = String::new();
        m.append("power-vs-soc curve needs ≥ 2 paired points; got soc=");
        push_decimal(&mut m, n_soc);
        m.append(", power_w=");
        push_decimal(&mut m, n_power);
        return Err(m);
    }
    Ok(())
}

/// The message for a regen-derate curve that is not at least two paired points.
pub open spec fn derate_curve_msg(n_temp: nat, n_factor: nat) -> Seq<char> {
    "regen-derate curve needs ≥ 2 paired points; got temp_c="@ + decimal(n_temp) + ", factor="@ + decimal(n_factor)
}

/// A regen-derate-vs-temperature curve needs at least two points, as many factors as temperatures.
pub fn check_derate_curve(n_temp: usize, n_factor: usize) -> (r: Result<(), String>)
    ensures
        (n_temp == n_factor && n_temp >= 2) ==> r is Ok,
        !(n_temp == n_factor && n_temp >= 2) ==> (r matches Err(m) && m@ == derate_curve_msg(n_temp as nat, n_factor as nat)),
{
    if n_temp != n_factor || n_temp < 2 {
        let mut m = String::new();
        m.append("regen-derate curve needs ≥ 2 paired points; got temp_c=");
        push_decimal(&mut m, n_temp);
        m.append(", factor=");
        push_decimal(&mut m, n_factor);
        return Err(m);
    }
    Ok(())
}

/// The message for a power-vs-SoC curve the monotone fit rejected (`reason` is the fitter's).
pub fn power_fit_error(reason: &String) -> (m: String)
    ensures
        m@ == "power-vs-soc curve is not monotone-fittable: "@ + reason@,
{
    let mut m = String::new();
    m.append("power-vs-soc curve is not monotone-fittable: ");
    m.append(reason.as_str());
    m
}

/// The message for a regen-derate curve the monotone fit rejected (`reason` is the fitter's).
pub fn derate_fit_error(reason: &String) -> (m: String)
    ensures
        m@ == "regen-derate curve is not monotone-fittable: "@ + reason@,
{
    let mut m = String::new();
    m.append("regen-derate curve is not monotone-fittable: ");
    m.append(reason.as_str());
    m
}

/// The error for an ECM column the sidecar table could not supply (`reason` is the table's).
pub fn ecm_column_error(col: &str, reason: &String) -> (r: T1Error)
    ensures
        r matches T1Error::Battery(m) && m@ == "ECM column `"@ + col@ + "`: "@ + reason@,
{
    let mut m = String::new();
    m.append("ECM column `");
    m.append(col);
    m.append("`: ");
    m.append(reason.as_str());
    T1Error::Battery(m)
}

/// The note recorded for a pack that declares no regen derate (charge acceptance is then assumed
/// temperature-independent).
pub open spec fn no_regen_derate_msg() -> Seq<char> {
    "battery declares no `limits.regen_derate_vs_temp`; charge acceptance is assumed temperature-independent (estimated) — a cold pack will accept its full SoC-curve ceiling, which a real BMS would refuse"@
}

/// The note recorded for a pack that declares no regen derate.
pub fn no_regen_derate_note() -> (m: String)
    ensures
        m@ == no_regen_derate_msg(),
{
    String::from_str(
        "battery declares no `limits.regen_derate_vs_temp`; charge acceptance is assumed temperature-independent (estimated) — a cold pack will accept its full SoC-curve ceiling, which a real BMS would refuse",
    )
}

} // verus!
