use remember_bday::Config;

fn strings(items: &[&str]) -> Vec<String> {
    items.iter().map(|s| String::from(*s)).collect()
}

#[test]
fn build_config_success_noenv() {
    let test_args = strings(&["ignored", "/a/path/to/a.vcf", "also ignored"]);
    let test_env: Vec<(String, String)> = vec![];
    let config = Config::build(test_args, test_env).unwrap();
    assert_eq!("/a/path/to/a.vcf", config.file_path);
    assert_eq!("remember-bday", config.windows_app_id);
}

#[test]
fn build_config_success_with_appid() {
    let test_args = strings(&["ignored", "/a/path/to/a.vcf", "also ignored"]);
    let test_env = vec![("REMEMBER_BDAY_APP_ID".to_string(), "Test.Id".to_string())];
    let config = Config::build(test_args, test_env).unwrap();
    assert_eq!("/a/path/to/a.vcf", config.file_path);
    assert_eq!("Test.Id", config.windows_app_id);
}

#[test]
fn build_config_failure_noarg() {
    let test_args = strings(&["ignored"]);
    let test_env: Vec<(String, String)> = vec![];
    let config = Config::build(test_args, test_env);
    assert!(config.is_err());
}

#[test]
fn build_config_failure_wrong_type() {
    let test_args = strings(&["ignored", "/a/path/to/a.txt", "also ignored"]);
    let test_env: Vec<(String, String)> = vec![];
    let config = Config::build(test_args, test_env);
    assert!(config.is_err());
}

#[test]
fn build_config_error_message() {
    let test_args = strings(&["ignored"]);
    let test_env: Vec<(String, String)> = vec![];
    let err = Config::build(test_args, test_env).unwrap_err();
    assert_eq!("Didn't get path to a vcf file", err);
}

#[test]
fn build_config_later_env_vars_ignored() {
    let test_args = strings(&["ignored", "a.vcf"]);
    let test_env = vec![
        ("OTHER_VAR".to_string(), "x".to_string()),
        ("REMEMBER_BDAY_APP_ID".to_string(), "First.Id".to_string()),
        ("REMEMBER_BDAY_APP_ID".to_string(), "Second.Id".to_string()),
    ];
    let config = Config::build(test_args, test_env).unwrap();
    assert_eq!("First.Id", config.windows_app_id);
}
