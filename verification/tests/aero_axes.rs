use outlap_qss::aero::{
    axis_roles, t0_aero_source, t0_zero_aero_note, t1_aero_source, t1_zero_aero_note, AeroSource,
    AxisRole,
};
use outlap_qss::error::{T0Error, T1Error};

#[test]
fn unknown_axis_is_rejected() {
    let axes = vec!["bogus".to_owned(), "drs_flag".to_owned()];
    assert!(matches!(axis_roles(&axes), Err(T1Error::UnknownAeroAxis { .. })));
}

#[test]
fn unknown_axis_error_names_the_first_bad_axis() {
    let axes = vec!["yaw_deg".to_owned(), "pitch".to_owned(), "roll".to_owned()];
    assert_eq!(
        axis_roles(&axes),
        Err(T1Error::UnknownAeroAxis { name: "pitch".to_owned() })
    );
}

#[test]
fn known_axes_resolve_in_order() {
    let axes = vec![
        "ride_height_f_mm".to_owned(),
        "ride_height_r_mm".to_owned(),
        "yaw_deg".to_owned(),
        "drs_flag".to_owned(),
    ];
    assert_eq!(
        axis_roles(&axes),
        Ok(vec![AxisRole::RideFront, AxisRole::RideRear, AxisRole::Yaw, AxisRole::Drs])
    );
    assert_eq!(axis_roles(&vec![]), Ok(vec![]));
}

#[test]
fn axis_names_are_matched_exactly() {
    assert_eq!(AxisRole::from_name("drs_flag"), Ok(AxisRole::Drs));
    assert_eq!(
        AxisRole::from_name("DRS_FLAG"),
        Err(T1Error::UnknownAeroAxis { name: "DRS_FLAG".to_owned() })
    );
    assert_eq!(
        AxisRole::from_name(""),
        Err(T1Error::UnknownAeroAxis { name: String::new() })
    );
}

#[test]
fn constant_aero_wins_over_degraded() {
    assert_eq!(t0_aero_source(true, false), Ok(AeroSource::Constant));
    assert_eq!(t0_aero_source(true, true), Ok(AeroSource::Constant));
    assert_eq!(t1_aero_source(true, true), Ok(AeroSource::Constant));
}

#[test]
fn missing_constant_aero_degrades_only_when_allowed() {
    assert_eq!(t0_aero_source(false, true), Ok(AeroSource::ZeroDegraded));
    assert_eq!(t0_aero_source(false, false), Err(T0Error::NoConstantAero));
    assert_eq!(t1_aero_source(false, true), Ok(AeroSource::ZeroDegraded));
    assert_eq!(t1_aero_source(false, false), Err(T1Error::NoConstantAero));
}

#[test]
fn zero_aero_notes() {
    assert_eq!(
        t0_zero_aero_note(),
        "aero.constant absent — T0 ran with zero aero (ride-height map arrives with T1)"
    );
    assert_eq!(
        t1_zero_aero_note(),
        "aero.constant absent — install a ride-height map or T1 runs with zero aero"
    );
}

#[test]
fn map_coordinates_follow_the_axis_roles() {
    let roles = vec![AxisRole::Yaw, AxisRole::RideFront, AxisRole::Drs];
    assert_eq!(
        outlap_qss::aero::map_coordinates(&roles, 30.0, 70.0, 2.5, 1.0),
        vec![2.5, 30.0, 1.0]
    );
    let all = vec![AxisRole::RideFront, AxisRole::RideRear, AxisRole::Yaw, AxisRole::Drs];
    assert_eq!(
        outlap_qss::aero::map_coordinates(&all, 1, 2, 3, 4),
        vec![1, 2, 3, 4]
    );
    assert!(outlap_qss::aero::map_coordinates(&vec![], 1, 2, 3, 4).is_empty());
}

#[test]
fn aero_map_columns_and_note() {
    assert_eq!(
        outlap_qss::aero::aero_map_columns(),
        ["cz_front_a_m2", "cz_rear_a_m2", "cx_a_m2"]
    );
    assert!(outlap_qss::aero::aero_map_installed_note().starts_with("aero: ride-height/yaw map consumed"));
}
