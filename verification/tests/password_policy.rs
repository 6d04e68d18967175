use chacrab::password_policy::validate_master_password;

#[test]
fn rejects_short_password() {
    assert!(validate_master_password("Aa1!short").is_err());
}

#[test]
fn rejects_low_complexity_password() {
    assert!(validate_master_password("alllowercase12").is_err());
    assert!(validate_master_password("UPPERCASEONLY12").is_err());
}

#[test]
fn accepts_valid_password() {
    assert!(validate_master_password("StrongPass12!").is_ok());
}
