use footical::secrets::{access_token_from, secrets_to_fetch, SecretRequest};

fn request(env_var: &str, secret_id: &str) -> SecretRequest {
    SecretRequest { env_var: env_var.to_string(), secret_id: secret_id.to_string() }
}

#[test]
fn the_access_token_is_trimmed() {
    assert_eq!(access_token_from("  0.abc \n"), Some("0.abc".to_string()));
    assert_eq!(access_token_from("\n\t "), None);
}

#[test]
fn only_unset_variables_are_fetched_once() {
    let requests = vec![
        request("DATABASE_URL", "a"),
        request("ADMIN_PASSWORD", "b"),
        request("DATABASE_URL", "c"),
        request("COOKIE_SECRET", "d"),
    ];
    assert_eq!(secrets_to_fetch(&requests, &vec![false, true, false, false]), vec![0, 3]);
    assert_eq!(secrets_to_fetch(&requests, &vec![true, true, true, true]), Vec::<usize>::new());
}
