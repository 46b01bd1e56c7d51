use wasm_firmware::registry::{same_kinds, Registry, RegistryError, Signature, ValueKind};

fn sig(params: &[ValueKind], results: &[ValueKind]) -> Signature {
    Signature { params: params.to_vec(), results: results.to_vec() }
}

fn s(x: &str) -> String {
    x.to_string()
}

#[test]
fn distinct_keys_register_and_duplicate_is_refused() {
    let mut r = Registry::new();
    let i = sig(&[ValueKind::I32], &[ValueKind::I32]);
    assert_eq!(r.register(s("env"), s("increment"), i.clone(), 1), Ok(()));
    assert_eq!(r.register(s("env"), s("log"), sig(&[ValueKind::I32], &[]), 2), Ok(()));
    assert_eq!(r.register(s("host"), s("increment"), i.clone(), 3), Ok(()));
    assert_eq!(r.len(), 3);
    assert_eq!(r.register(s("env"), s("increment"), sig(&[], &[]), 9), Err(RegistryError::DuplicateImport));
    assert_eq!(r.len(), 3);
    assert_eq!(r.resolve(&s("env"), &s("increment"), &i), Ok(1));
    assert_eq!(r.resolve(&s("host"), &s("increment"), &i), Ok(3));
}

#[test]
fn missing_key_is_unresolved() {
    let mut r = Registry::new();
    r.register(s("env"), s("a"), sig(&[], &[]), 0).unwrap();
    assert_eq!(r.resolve(&s("env"), &s("b"), &sig(&[], &[])), Err(RegistryError::Unresolved));
    assert_eq!(r.resolve(&s("other"), &s("a"), &sig(&[], &[])), Err(RegistryError::Unresolved));
}

#[test]
fn differing_signature_is_a_mismatch() {
    let mut r = Registry::new();
    r.register(s("env"), s("f"), sig(&[ValueKind::I32, ValueKind::I64], &[ValueKind::F32]), 4).unwrap();
    let ask = |p: &[ValueKind], q: &[ValueKind]| r.resolve(&s("env"), &s("f"), &sig(p, q));
    assert_eq!(ask(&[ValueKind::I32, ValueKind::I64], &[ValueKind::F32]), Ok(4));
    assert_eq!(ask(&[ValueKind::I32], &[ValueKind::F32]), Err(RegistryError::SignatureMismatch));
    assert_eq!(ask(&[ValueKind::I64, ValueKind::I32], &[ValueKind::F32]), Err(RegistryError::SignatureMismatch));
    assert_eq!(ask(&[ValueKind::I32, ValueKind::I64], &[ValueKind::F64]), Err(RegistryError::SignatureMismatch));
    assert_eq!(ask(&[ValueKind::I32, ValueKind::I64], &[]), Err(RegistryError::SignatureMismatch));
}

#[test]
fn kind_lists_compare_elementwise() {
    assert!(same_kinds(&vec![], &vec![]));
    assert!(same_kinds(&vec![ValueKind::F64], &vec![ValueKind::F64]));
    assert!(!same_kinds(&vec![ValueKind::F64], &vec![ValueKind::F32]));
    assert!(!same_kinds(&vec![ValueKind::I32], &vec![ValueKind::I32, ValueKind::I32]));
    assert!(sig(&[ValueKind::I32], &[]).matches(&sig(&[ValueKind::I32], &[])));
    assert!(!sig(&[ValueKind::I32], &[]).matches(&sig(&[], &[ValueKind::I32])));
}
