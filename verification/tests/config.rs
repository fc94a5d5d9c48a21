use footical::config::{config_from, is_calendar_file, r2_config_from, ConfigError};

fn s(text: &str) -> Option<String> {
    Some(text.to_string())
}

#[test]
fn no_r2_settings_means_no_upload() {
    assert!(matches!(r2_config_from(None, None, None, None), Ok(None)));
}

#[test]
fn all_r2_settings_make_an_upload_target() {
    let r2 = r2_config_from(s("acct"), s("bucket"), s("key"), s("secret")).unwrap().unwrap();
    assert_eq!(r2.endpoint_url, "https://acct.r2.cloudflarestorage.com");
    assert_eq!(r2.bucket, "bucket");
    assert_eq!(r2.access_key_id, "key");
    assert_eq!(r2.secret_access_key, "secret");
}

#[test]
fn some_r2_settings_are_an_error() {
    assert!(matches!(
        r2_config_from(s("acct"), None, s("key"), None),
        Err(ConfigError::R2PartlyConfigured)
    ));
    assert!(ConfigError::R2PartlyConfigured.message().starts_with("R2 is partially configured"));
}

#[test]
fn the_database_address_and_output_directory() {
    let c = config_from(s("pg://a"), s("pg://b"), None, None, None, None, None).unwrap();
    assert_eq!(c.database_url, "pg://a");
    assert_eq!(c.output_directory, "output");
    assert!(c.r2.is_none());
    let c = config_from(None, s("pg://b"), s("out"), None, None, None, None).unwrap();
    assert_eq!(c.database_url, "pg://b");
    assert_eq!(c.output_directory, "out");
}

#[test]
fn a_missing_database_address_is_reported_first() {
    assert!(matches!(
        config_from(None, None, None, s("acct"), None, None, None),
        Err(ConfigError::NoDatabaseUrl)
    ));
    assert_eq!(
        ConfigError::NoDatabaseUrl.message(),
        "neither FOOTICAL_DATABASE_URL nor DATABASE_URL is set"
    );
    assert!(matches!(
        config_from(s("pg://a"), None, None, s("acct"), None, None, None),
        Err(ConfigError::R2PartlyConfigured)
    ));
}

#[test]
fn calendar_files_are_told_by_extension() {
    assert!(is_calendar_file("42.ics"));
    assert!(is_calendar_file("a.b.ics"));
    assert!(!is_calendar_file("leagues.json"));
    assert!(!is_calendar_file(".ics"));
    assert!(!is_calendar_file("ics"));
    assert!(!is_calendar_file("42.ics.tmp"));
    assert!(!is_calendar_file("42.ICS"));
}

#[test]
fn the_parent_directory_is_no_calendar() {
    assert!(!is_calendar_file(".."));
    assert!(!is_calendar_file("."));
    assert!(is_calendar_file("..ics"));
}
