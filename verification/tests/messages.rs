use kvs::message::{GetResponse, RemoveResponse, SetResponse};
use kvs::KvStoreError;

#[test]
fn a_get_response_carries_the_result() {
    assert_eq!(
        GetResponse::from_result(Ok(Some("v".to_string()))),
        GetResponse::Value(Some("v".to_string()))
    );
    assert_eq!(GetResponse::from_result(Ok(None)), GetResponse::Value(None));
    assert_eq!(
        GetResponse::from_result(Err(KvStoreError::IoError)),
        GetResponse::Failed(KvStoreError::IoError)
    );
    assert_eq!(GetResponse::Value(Some("v".to_string())).into_result(), Ok(Some("v".to_string())));
    assert_eq!(GetResponse::Value(None).into_result(), Ok(None));
    assert_eq!(
        GetResponse::Failed(KvStoreError::SerdeError).into_result(),
        Err(KvStoreError::SerdeError)
    );
}

#[test]
fn a_set_response_carries_the_result() {
    assert_eq!(SetResponse::from_result(Ok(())), SetResponse::Done);
    assert_eq!(
        SetResponse::from_result(Err(KvStoreError::SledError)),
        SetResponse::Failed(KvStoreError::SledError)
    );
    assert_eq!(SetResponse::Done.into_result(), Ok(()));
    assert_eq!(
        SetResponse::Failed(KvStoreError::IoError).into_result(),
        Err(KvStoreError::IoError)
    );
}

#[test]
fn a_remove_response_tells_a_missing_key_from_other_failures() {
    assert_eq!(RemoveResponse::from_result(Ok(())), RemoveResponse::Done);
    assert_eq!(
        RemoveResponse::from_result(Err(KvStoreError::RemoveNonexistingKey)),
        RemoveResponse::Failed(KvStoreError::RemoveNonexistingKey)
    );
    assert_eq!(RemoveResponse::Done.into_result(), Ok(()));
    assert_eq!(
        RemoveResponse::Failed(KvStoreError::RemoveNonexistingKey).into_result(),
        Err(KvStoreError::RemoveNonexistingKey)
    );
    assert_ne!(
        RemoveResponse::Failed(KvStoreError::RemoveNonexistingKey),
        RemoveResponse::Failed(KvStoreError::IoError)
    );
}

#[test]
fn every_error_kind_comes_back_from_the_wire() {
    let kinds = [
        KvStoreError::IoError,
        KvStoreError::SerdeError,
        KvStoreError::RemoveNonexistingKey,
        KvStoreError::SledError,
        KvStoreError::WrongEngine,
        KvStoreError::ThreadPoolError,
    ];
    for kind in kinds {
        assert_eq!(GetResponse::from_result(Err(kind)).into_result(), Err(kind));
        assert_eq!(SetResponse::from_result(Err(kind)).into_result(), Err(kind));
        assert_eq!(RemoveResponse::from_result(Err(kind)).into_result(), Err(kind));
    }
}

#[test]
fn outside_errors_map_to_their_kind() {
    let io = std::io::Error::new(std::io::ErrorKind::Other, "boom");
    assert_eq!(KvStoreError::from(io), KvStoreError::IoError);
    let json = serde_json::from_str::<String>("not json").unwrap_err();
    assert_eq!(KvStoreError::from(json), KvStoreError::SerdeError);
    let sled = sled::Error::Unsupported("no".to_string());
    assert_eq!(KvStoreError::from(sled), KvStoreError::SledError);
}
