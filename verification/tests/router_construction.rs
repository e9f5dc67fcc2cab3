use ferrum::inference::client::InferenceEngineClient;
use ferrum::inference::types::InferenceError;

#[test]
fn router_without_backends_is_refused() {
    let engines: Vec<u8> = Vec::new();
    match InferenceEngineClient::new(engines) {
        Err(InferenceError::InvalidInput(detail)) => {
            assert_eq!(detail, "Must provide at least one engine");
        }
        _ => panic!("a router without backends must not exist"),
    }
}

#[test]
fn router_with_one_backend_is_built() {
    let client = InferenceEngineClient::new(vec![7u8]).expect("one backend is enough");
    assert_eq!(client.num_engines(), 1);
    assert_eq!(client.engines(), &vec![7u8]);
}
