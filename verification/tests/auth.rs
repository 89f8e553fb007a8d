use json_updates::auth::{authorize, AuthError, GatewayConfig};

fn config(token: &str, prefix: &str) -> GatewayConfig {
    GatewayConfig { access_token: token.to_string(), collection_prefix: prefix.to_string() }
}

#[test]
fn right_token_and_prefix_pass() {
    assert_eq!(authorize(&config("xyz", "tenantA_"), "xyz", "tenantA_logs"), Ok(()));
}

#[test]
fn wrong_token_is_unauthorized() {
    assert_eq!(
        authorize(&config("xyz", "tenantA_"), "abc", "tenantA_logs"),
        Err(AuthError::Unauthorized)
    );
}

#[test]
fn wrong_token_comes_before_wrong_collection() {
    assert_eq!(
        authorize(&config("xyz", "tenantA_"), "abc", "tenantB_logs"),
        Err(AuthError::Unauthorized)
    );
}

#[test]
fn token_must_match_exactly() {
    let gate = config("xyz", "");
    assert_eq!(authorize(&gate, "xy", "logs"), Err(AuthError::Unauthorized));
    assert_eq!(authorize(&gate, "xyzz", "logs"), Err(AuthError::Unauthorized));
    assert_eq!(authorize(&gate, "XYZ", "logs"), Err(AuthError::Unauthorized));
    assert_eq!(authorize(&gate, "", "logs"), Err(AuthError::Unauthorized));
    assert_eq!(authorize(&gate, "xyz", "logs"), Ok(()));
}

#[test]
fn foreign_collection_is_forbidden() {
    assert_eq!(
        authorize(&config("xyz", "tenantA_"), "xyz", "tenantB_logs"),
        Err(AuthError::Forbidden)
    );
}

#[test]
fn prefix_must_stand_at_the_start() {
    let gate = config("xyz", "tenantA_");
    assert_eq!(authorize(&gate, "xyz", "logs_tenantA_"), Err(AuthError::Forbidden));
    assert_eq!(authorize(&gate, "xyz", "tenantA"), Err(AuthError::Forbidden));
    assert_eq!(authorize(&gate, "xyz", ""), Err(AuthError::Forbidden));
    assert_eq!(authorize(&gate, "xyz", "tenantA_"), Ok(()));
}

#[test]
fn empty_prefix_allows_every_collection() {
    assert_eq!(authorize(&config("xyz", ""), "xyz", "anything"), Ok(()));
    assert_eq!(authorize(&config("xyz", ""), "xyz", ""), Ok(()));
}

#[test]
fn prefix_of_several_bytes_per_character() {
    let gate = config("xyz", "données_");
    assert_eq!(authorize(&gate, "xyz", "données_2024"), Ok(()));
    assert_eq!(authorize(&gate, "xyz", "donnees_2024"), Err(AuthError::Forbidden));
}
