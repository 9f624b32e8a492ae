use appfront::resource::ResourceState;

#[test]
fn finished_loads_are_ready_or_error() {
    let ok: ResourceState<i32> = ResourceState::from_result(Ok(42));
    assert!(ok.is_ready());
    assert!(!ok.is_loading());
    assert!(!ok.is_error());
    assert_eq!(ok.ready_value(), Some(42));

    let err: ResourceState<i32> = ResourceState::from_result(Err("boom".to_string()));
    assert!(err.is_error());
    assert_eq!(err, ResourceState::Error("boom".to_string()));
    assert_eq!(err.ready_value(), None);
}

#[test]
fn loading_has_no_value() {
    let s: ResourceState<i32> = ResourceState::Loading;
    assert!(s.is_loading());
    assert!(!s.is_ready());
    assert!(!s.is_error());
    assert_eq!(s.ready_value(), None);
}
