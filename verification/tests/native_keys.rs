use metel::evaluator::runtime::native_host_impl;
use metel::evaluator::value::RuntimeCallable;
use metel::native_keys::NativeKey;

#[test]
fn round_trips_known_paths() {
    for key in &NativeKey::all() {
        let id = key.surface_id().trim_start_matches('@');
        let path: Vec<String> = id.split('.').map(str::to_string).collect();
        assert_eq!(NativeKey::from_path(&path), Some(*key), "for {id}");
    }
}

#[test]
fn native_keys_unknown_path_is_none() {
    assert_eq!(
        NativeKey::from_path(&["std".into(), "core".into(), "nope".into()]),
        None
    );
    assert_eq!(NativeKey::from_path(&["foo".into()]), None);
}

#[test]
fn every_native_key_has_a_host_impl() {
    for key in &NativeKey::all() {
        let callable = native_host_impl(*key);
        match callable {
            RuntimeCallable::Intrinsic { label, .. } => {
                assert!(!label.is_empty(), "native impl for {key:?} has empty label");
            }
            _ => panic!("native impl for {key:?} is not an intrinsic"),
        }
    }
}
