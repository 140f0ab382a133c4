use openshell_providers::database::DatabaseStore;
use openshell_providers::secret_store::{SecretError, SecretStore};

#[test]
fn test_database_store_get() {
    let creds = vec![("VERTEX_ADC".to_string(), "mock-adc-json".to_string())];
    let store = DatabaseStore::new(creds);

    let result = store.get("VERTEX_ADC").unwrap();
    assert_eq!(result, "mock-adc-json");
}

#[test]
fn test_database_store_not_found() {
    let store = DatabaseStore::new(Vec::new());

    let result = store.get("NONEXISTENT");
    assert!(result.is_err());
}

#[test]
fn test_database_store_health_check() {
    let store = DatabaseStore::new(Vec::new());
    let result = store.health_check();
    assert!(result.is_ok());
}

#[test]
fn not_found_names_the_missing_credential() {
    let store = DatabaseStore::new(vec![("A".to_string(), "1".to_string())]);
    match store.get("B") {
        Err(SecretError::NotFound(msg)) => {
            assert_eq!(msg, "Credential 'B' not found in provider");
        }
        other => panic!("unexpected result: {:?}", other),
    }
}

#[test]
fn later_pair_for_same_name_wins() {
    let store = DatabaseStore::new(vec![
        ("KEY".to_string(), "old".to_string()),
        ("OTHER".to_string(), "x".to_string()),
        ("KEY".to_string(), "new".to_string()),
    ]);
    assert_eq!(store.get("KEY").unwrap(), "new");
    assert_eq!(store.get("OTHER").unwrap(), "x");
}

#[test]
fn store_name_is_database() {
    let store = DatabaseStore::new(Vec::new());
    assert_eq!(store.name(), "database");
}

#[test]
fn secret_error_messages() {
    assert_eq!(
        SecretError::NotFound("k".to_string()).message(),
        "secret not found: k"
    );
    assert_eq!(
        SecretError::Unavailable("down".to_string()).message(),
        "storage unavailable: down"
    );
    assert_eq!(
        SecretError::AccessDenied("no".to_string()).message(),
        "access denied: no"
    );
    assert_eq!(
        SecretError::InvalidFormat("bad".to_string()).message(),
        "invalid format: bad"
    );
    assert_eq!(
        SecretError::Network("lost".to_string()).message(),
        "network error: lost"
    );
}
