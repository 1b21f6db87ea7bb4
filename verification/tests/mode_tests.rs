use reticulum_mobile::mode::InterfaceMode;

#[test]
fn test_interface_mode_parsing() {
    assert_eq!(InterfaceMode::from_str("full"), InterfaceMode::Full);
    assert_eq!(InterfaceMode::from_str("gw"), InterfaceMode::Gateway);
    assert_eq!(InterfaceMode::from_str("ap"), InterfaceMode::AccessPoint);
    assert_eq!(InterfaceMode::from_str("roaming"), InterfaceMode::Roaming);
    assert_eq!(InterfaceMode::from_str("boundary"), InterfaceMode::Boundary);
    assert_eq!(InterfaceMode::from_str("unknown"), InterfaceMode::Full);
}

#[test]
fn mode_names_ignore_case() {
    assert_eq!(InterfaceMode::from_str("GW"), InterfaceMode::Gateway);
    assert_eq!(InterfaceMode::from_str("Gateway"), InterfaceMode::Gateway);
    assert_eq!(InterfaceMode::from_str("ACCESS_POINT"), InterfaceMode::AccessPoint);
    assert_eq!(InterfaceMode::from_str("Roaming"), InterfaceMode::Roaming);
    assert_eq!(InterfaceMode::from_str("BOUNDARY"), InterfaceMode::Boundary);
}

#[test]
fn mode_long_names_and_near_misses() {
    assert_eq!(InterfaceMode::from_str("gateway"), InterfaceMode::Gateway);
    assert_eq!(InterfaceMode::from_str("access_point"), InterfaceMode::AccessPoint);
    assert_eq!(InterfaceMode::from_str(""), InterfaceMode::Full);
    assert_eq!(InterfaceMode::from_str("gw "), InterfaceMode::Full);
    assert_eq!(InterfaceMode::from_str("access-point"), InterfaceMode::Full);
    assert_eq!(InterfaceMode::from_str("roam"), InterfaceMode::Full);
}

#[test]
fn mode_from_lowercase_is_case_sensitive() {
    assert_eq!(InterfaceMode::from_lowercase("gw"), InterfaceMode::Gateway);
    assert_eq!(InterfaceMode::from_lowercase("GW"), InterfaceMode::Full);
    assert_eq!(InterfaceMode::from_lowercase("boundary"), InterfaceMode::Boundary);
}
