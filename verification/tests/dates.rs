use covid_cert_uvci::get_vaccination_date_tan;

#[test]
fn swedish_uvci_opaque_date() {
    assert!(
        get_vaccination_date_tan("0".to_string()) == (12, 2020),
        "Dec, Wrong date"
    );
    assert!(
        get_vaccination_date_tan("2014920".to_string()) == (3, 2021),
        "March, Wrong date"
    );
    assert!(
        get_vaccination_date_tan("6991632".to_string()) == (5, 2021),
        "May, Wrong date"
    );
    assert!(
        get_vaccination_date_tan("12916227".to_string()) == (8, 2021),
        "Aug, Wrong date"
    );
    assert!(
        get_vaccination_date_tan("13592955".to_string()) == (9, 2021),
        "Sep, Wrong date"
    );
    assert!(
        get_vaccination_date_tan("13983264".to_string()) == (10, 2021),
        "Oct, Wrong date"
    );
    assert!(
        get_vaccination_date_tan("99999999".to_string()) == (4, 2026),
        "Max, wrong date"
    );
    // Sweden Population = 10427296, Reference period: August 2021
    assert!(
        get_vaccination_date_tan("10427296".to_string()) == (6, 2021),
        "Single dose, wrong date"
    );
    assert!(
        get_vaccination_date_tan("20854592".to_string()) == (1, 2022),
        "Double dose, wrong date"
    );
    assert!(
        get_vaccination_date_tan("31281888".to_string()) == (8, 2022),
        "Double dose + booster, wrong date"
    );
}

#[test]
fn opaque_id_without_digits_has_no_date() {
    assert_eq!(get_vaccination_date_tan("V".to_string()), (0, 0));
    assert_eq!(get_vaccination_date_tan("".to_string()), (0, 0));
    assert_eq!(get_vaccination_date_tan("VABCDEFGH".to_string()), (0, 0));
}

#[test]
fn scheme_letter_is_stripped_before_estimation() {
    assert_eq!(get_vaccination_date_tan("V12916227".to_string()), (8, 2021));
    assert_eq!(get_vaccination_date_tan("V0".to_string()), (12, 2020));
}
