use kvs::selection::{check_engine, current_engine, Engine};
use kvs::KvStoreError;

#[test]
fn engines_are_recorded_by_their_lower_case_names() {
    assert_eq!(Engine::Kvs.name(), "kvs");
    assert_eq!(Engine::Sled.name(), "sled");
}

#[test]
fn engine_names_are_read_in_any_case() {
    assert_eq!(Engine::parse("kvs"), Some(Engine::Kvs));
    assert_eq!(Engine::parse("KVS"), Some(Engine::Kvs));
    assert_eq!(Engine::parse("Sled"), Some(Engine::Sled));
    assert_eq!(Engine::parse("sled"), Some(Engine::Sled));
    assert_eq!(Engine::parse(""), None);
    assert_eq!(Engine::parse("kvs "), None);
    assert_eq!(Engine::parse("rocks"), None);
    assert_eq!(Engine::parse("\u{212a}vs"), None);
}

#[test]
fn a_directory_without_marker_has_no_engine() {
    assert_eq!(current_engine(None), Ok(None));
}

#[test]
fn the_marker_names_the_engine_of_the_directory() {
    assert_eq!(current_engine(Some("kvs".to_string())), Ok(Some(Engine::Kvs)));
    assert_eq!(current_engine(Some("sled".to_string())), Ok(Some(Engine::Sled)));
    assert_eq!(current_engine(Some("Engine::kvs".to_string())), Err(KvStoreError::WrongEngine));
    assert_eq!(current_engine(Some(String::new())), Err(KvStoreError::WrongEngine));
    for engine in [Engine::Kvs, Engine::Sled] {
        assert_eq!(current_engine(Some(engine.name())), Ok(Some(engine)));
    }
}

#[test]
fn a_server_starts_only_with_the_engine_of_the_directory() {
    assert_eq!(check_engine(None, Engine::Kvs), Ok(true));
    assert_eq!(check_engine(None, Engine::Sled), Ok(true));
    assert_eq!(check_engine(Some(Engine::Kvs), Engine::Kvs), Ok(false));
    assert_eq!(check_engine(Some(Engine::Sled), Engine::Sled), Ok(false));
    assert_eq!(check_engine(Some(Engine::Kvs), Engine::Sled), Err(KvStoreError::WrongEngine));
    assert_eq!(check_engine(Some(Engine::Sled), Engine::Kvs), Err(KvStoreError::WrongEngine));
}
