use password_generator::AppState;

#[test]
fn initial_state_defaults() {
    let st = AppState::new();
    assert_eq!(st.password_length, 12);
    assert!(st.include_uppercase);
    assert!(st.include_lowercase);
    assert!(!st.include_numbers);
    assert!(!st.include_symbols);
    assert_eq!(st.num_passwords, 1);
    assert!(st.generated_passwords.is_empty());
    assert!(st.copied_password.is_none());
    assert!(!st.all_passwords_copied);
    assert!(st.password_generator.include_uppercase);
    assert!(st.password_generator.include_lowercase);
    assert!(!st.password_generator.include_numbers);
    assert!(!st.password_generator.include_symbols);
}

#[test]
fn generation_enabled_follows_settings() {
    let mut st = AppState::new();
    assert!(st.is_generation_enabled());
    st.include_uppercase = false;
    st.include_lowercase = false;
    assert!(!st.is_generation_enabled());
    st.include_symbols = true;
    assert!(st.is_generation_enabled());
}

#[test]
fn update_generator_propagates_settings() {
    let mut st = AppState::new();
    st.include_uppercase = false;
    st.include_numbers = true;
    st.update_generator();
    assert!(!st.password_generator.include_uppercase);
    assert!(st.password_generator.include_lowercase);
    assert!(st.password_generator.include_numbers);
    assert!(!st.password_generator.include_symbols);
}

#[test]
fn generate_passwords_fills_the_list() {
    let mut st = AppState::new();
    st.num_passwords = 5;
    st.password_length = 16;
    st.all_passwords_copied = true;
    st.generate_passwords();
    assert!(!st.all_passwords_copied);
    assert_eq!(st.generated_passwords.len(), 5);
    for p in &st.generated_passwords {
        assert_eq!(p.chars().count(), 16);
        assert!(p.chars().all(|c| c.is_ascii_alphabetic()));
    }
}

#[test]
fn all_passwords_text_joins_with_newlines() {
    let mut st = AppState::new();
    assert_eq!(st.all_passwords_text(), "");
    st.generated_passwords = vec![String::from("alpha")];
    assert_eq!(st.all_passwords_text(), "alpha");
    st.generated_passwords = vec![
        String::from("alpha"),
        String::from("beta"),
        String::from("gamma"),
    ];
    assert_eq!(st.all_passwords_text(), "alpha\nbeta\ngamma");
}
