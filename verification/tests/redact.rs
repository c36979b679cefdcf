use relay::redact::{render, Sensitive, SAFE_MODE};

#[test]
fn safe_mode_is_on() {
    assert!(SAFE_MODE);
}

#[test]
fn safe_mode_renders_the_marker() {
    assert_eq!(render("10.0.0.7:6969", true), "[REDACTED]\n");
    assert_eq!(render("", true), "[REDACTED]\n");
}

#[test]
fn without_safe_mode_the_text_is_shown() {
    assert_eq!(render("10.0.0.7:6969", false), "10.0.0.7:6969\n");
    assert_eq!(render("", false), "\n");
    assert_eq!(render("[REDACTED]", false), "[REDACTED]\n");
}

#[test]
fn rendering_keeps_text_that_is_not_ascii() {
    assert_eq!(render("adresse déjà utilisée", false), "adresse déjà utilisée\n");
}

#[test]
fn sensitive_value_is_redacted_in_output() {
    let value = Sensitive::new(String::from("Address already in use (os error 98)"));
    assert_eq!(value.to_string(), "[REDACTED]\n");
    assert_eq!(value.to_string(), render(value.expose(), SAFE_MODE));
}

#[test]
fn redaction_does_not_change_the_stored_value() {
    let value = Sensitive::new(String::from("secret"));
    let _ = value.to_string();
    assert_eq!(value.expose(), "secret");
}
