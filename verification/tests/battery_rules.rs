use outlap_qss::battery::{
    check_derate_curve, check_power_curve, check_rc_pairs, derate_fit_error, ecm_axis_names,
    ecm_column_error, ecm_columns, no_regen_derate_note, power_fit_error,
};
use outlap_qss::error::T1Error;

#[test]
fn ecm_axes_and_columns() {
    assert_eq!(ecm_axis_names(), ["soc", "temp_c"]);
    assert_eq!(ecm_columns(), ["ocv_v", "r0_ohm", "r1_ohm", "tau1_s", "dudt_v_per_k"]);
}

#[test]
fn only_one_rc_pair_is_supported() {
    assert_eq!(check_rc_pairs(1), Ok(()));
    assert_eq!(
        check_rc_pairs(2),
        Err(T1Error::Battery(
            "only 1 RC pair is supported (the ECM tables carry r1/tau1); got rc_pairs = 2".to_owned()
        ))
    );
    assert_eq!(
        check_rc_pairs(0),
        Err(T1Error::Battery(
            "only 1 RC pair is supported (the ECM tables carry r1/tau1); got rc_pairs = 0".to_owned()
        ))
    );
}

#[test]
fn power_curve_needs_two_paired_points() {
    assert_eq!(check_power_curve(2, 2), Ok(()));
    assert_eq!(check_power_curve(11, 11), Ok(()));
    assert_eq!(
        check_power_curve(3, 2),
        Err("power-vs-soc curve needs ≥ 2 paired points; got soc=3, power_w=2".to_owned())
    );
    assert_eq!(
        check_power_curve(1, 1),
        Err("power-vs-soc curve needs ≥ 2 paired points; got soc=1, power_w=1".to_owned())
    );
}

#[test]
fn derate_curve_needs_two_paired_points() {
    assert_eq!(check_derate_curve(4, 4), Ok(()));
    assert_eq!(
        check_derate_curve(0, 0),
        Err("regen-derate curve needs ≥ 2 paired points; got temp_c=0, factor=0".to_owned())
    );
    assert_eq!(
        check_derate_curve(5, 14),
        Err("regen-derate curve needs ≥ 2 paired points; got temp_c=5, factor=14".to_owned())
    );
}

#[test]
fn fit_and_column_messages() {
    assert_eq!(
        power_fit_error(&"x not increasing".to_owned()),
        "power-vs-soc curve is not monotone-fittable: x not increasing"
    );
    assert_eq!(
        derate_fit_error(&"nan".to_owned()),
        "regen-derate curve is not monotone-fittable: nan"
    );
    assert_eq!(
        ecm_column_error("r0_ohm", &"missing".to_owned()),
        T1Error::Battery("ECM column `r0_ohm`: missing".to_owned())
    );
}

#[test]
fn no_derate_note_text() {
    assert!(no_regen_derate_note().starts_with("battery declares no `limits.regen_derate_vs_temp`"));
    assert!(no_regen_derate_note().ends_with("which a real BMS would refuse"));
}
