use wasm_firmware::boot::boot;
use wasm_firmware::bridge::{
    check_header, find_export, kinds_match, Bridge, BridgeError, FaultKind, FaultRecord, Import, ModuleImage,
    Outcome, Phase, Value,
};
use wasm_firmware::registry::{HostEntry, Signature, ValueKind};

const HEADER: [u8; 8] = [0x00, 0x61, 0x73, 0x6d, 0x01, 0x00, 0x00, 0x00];

fn s(x: &str) -> String {
    x.to_string()
}

fn i32_to_i32() -> Signature {
    Signature { params: vec![ValueKind::I32], results: vec![ValueKind::I32] }
}

fn module(imports: Vec<Import>, memory_min: usize, exports: &[&str]) -> ModuleImage {
    let mut bytes = HEADER.to_vec();
    bytes.extend_from_slice(&[0x01, 0x04, 0x01, 0x60, 0x00, 0x00]);
    ModuleImage { bytes, imports, memory_min, exports: exports.iter().map(|e| s(e)).collect() }
}

fn import_increment() -> Import {
    Import { namespace: s("env"), name: s("increment"), signature: i32_to_i32() }
}

fn host_increment() -> HostEntry {
    HostEntry { namespace: s("env"), name: s("increment"), signature: i32_to_i32(), function: 0 }
}

/// The firmware's native host functions, by number.
fn dispatch(function: u32, args: &[Value]) -> Vec<Value> {
    match (function, args) {
        (0, [Value::I32(x)]) => vec![Value::I32(x.wrapping_add(1))],
        _ => unreachable!(),
    }
}

fn ready_to_load(capacity: usize, hosts: Vec<HostEntry>) -> Bridge {
    let mut b = Bridge::new();
    b.init_arena(capacity).unwrap();
    for h in hosts {
        b.register(h.namespace, h.name, h.signature, h.function).unwrap();
    }
    b.freeze_registry().unwrap();
    b
}

fn running(memory_min: usize) -> Bridge {
    let mut b = ready_to_load(4096, vec![]);
    b.load_module(module(vec![], memory_min, &["run"])).unwrap();
    b.instantiate().unwrap();
    b.start(&s("run")).unwrap();
    b
}

#[test]
fn increment_end_to_end_halts_with_42() {
    let mut b = boot(64 * 1024, vec![host_increment()], module(vec![import_increment()], 0, &["run"]), &s("run"));
    assert_eq!(b.current_phase(), Phase::Running);
    let f = b.host_call(0, &vec![Value::I32(41)]).unwrap();
    let back = dispatch(f, &[Value::I32(41)]);
    assert_eq!(b.finish(Outcome::Returned(back)), Ok(()));
    assert_eq!(b.current_phase(), Phase::Halted);
    assert_eq!(b.returned(), Some(&vec![Value::I32(42)]));
    assert_eq!(b.fault_record(), None);
}

#[test]
fn memory_larger_than_arena_fails_instantiation() {
    let mut b = ready_to_load(1024, vec![]);
    b.load_module(module(vec![], 2048, &["run"])).unwrap();
    assert_eq!(b.instantiate(), Err(BridgeError::InstantiationFailed));
    assert_eq!(b.current_phase(), Phase::Trapped);
    assert_eq!(b.fault_record(), Some(FaultRecord { kind: FaultKind::InstantiationFailed, detail: Some(2048) }));
    let r = boot(1024, vec![], module(vec![], 2048, &["run"]), &s("run"));
    assert_eq!(r.current_phase(), Phase::Trapped);
    assert_eq!(r.fault_record().unwrap().kind, FaultKind::InstantiationFailed);
}

#[test]
fn unresolved_import_leaves_module_loaded() {
    let mut b = ready_to_load(4096, vec![]);
    b.load_module(module(vec![import_increment()], 16, &["run"])).unwrap();
    assert_eq!(b.instantiate(), Err(BridgeError::Unresolved));
    assert_eq!(b.current_phase(), Phase::ModuleLoaded);
    assert_eq!(b.fault_record(), None);
    assert_eq!(b.start(&s("run")), Err(BridgeError::WrongPhase));
    let r = boot(4096, vec![], module(vec![import_increment()], 16, &["run"]), &s("run"));
    assert_eq!(r.fault_record(), Some(FaultRecord { kind: FaultKind::Unresolved, detail: None }));
}

#[test]
fn import_signature_mismatch_is_reported() {
    let h = HostEntry {
        namespace: s("env"),
        name: s("increment"),
        signature: Signature { params: vec![ValueKind::I64], results: vec![ValueKind::I64] },
        function: 0,
    };
    let mut b = ready_to_load(4096, vec![h]);
    b.load_module(module(vec![import_increment()], 0, &["run"])).unwrap();
    assert_eq!(b.instantiate(), Err(BridgeError::SignatureMismatch));
    assert_eq!(b.current_phase(), Phase::ModuleLoaded);
}

#[test]
fn normal_return_halts() {
    let mut b = running(64);
    assert_eq!(b.finish(Outcome::Returned(vec![])), Ok(()));
    assert_eq!(b.current_phase(), Phase::Halted);
    assert_eq!(b.returned(), Some(&vec![]));
    assert_eq!(b.finish(Outcome::Returned(vec![])), Err(BridgeError::WrongPhase));
}

#[test]
fn out_of_bounds_store_traps_with_address() {
    let mut b = running(64);
    assert_eq!(b.store(60, &vec![1, 2, 3, 4]), Ok(()));
    assert_eq!(b.store(62, &vec![1, 2, 3]), Err(BridgeError::Trap));
    assert_eq!(b.current_phase(), Phase::Trapped);
    assert_eq!(b.fault_record(), Some(FaultRecord { kind: FaultKind::Trap, detail: Some(62) }));
}

#[test]
fn store_beyond_u64_range_traps() {
    let mut b = running(64);
    assert_eq!(b.store(u64::MAX, &vec![1]), Err(BridgeError::Trap));
    assert_eq!(b.fault_record(), Some(FaultRecord { kind: FaultKind::Trap, detail: Some(u64::MAX) }));
}

#[test]
fn stored_bytes_load_back() {
    let mut b = running(32);
    b.store(4, &vec![9, 8, 7]).unwrap();
    assert_eq!(b.load(0, 8), Ok(vec![0, 0, 0, 0, 9, 8, 7, 0]));
    assert_eq!(b.load(30, 2), Ok(vec![0, 0]));
    assert_eq!(b.load(31, 2), Err(BridgeError::Trap));
    assert_eq!(b.fault_record(), Some(FaultRecord { kind: FaultKind::Trap, detail: Some(31) }));
}

#[test]
fn guest_trap_records_address() {
    let mut b = running(16);
    assert_eq!(b.finish(Outcome::Trapped(Some(0x1000))), Ok(()));
    assert_eq!(b.current_phase(), Phase::Trapped);
    assert_eq!(b.fault_record(), Some(FaultRecord { kind: FaultKind::Trap, detail: Some(0x1000) }));
    assert_eq!(b.returned(), None);
}

#[test]
fn host_call_with_wrong_arguments_traps() {
    let mut b = boot(4096, vec![host_increment()], module(vec![import_increment()], 0, &["run"]), &s("run"));
    assert_eq!(b.host_call(0, &vec![Value::I32(1)]), Ok(0));
    assert_eq!(b.host_call(0, &vec![Value::I64(1)]), Err(BridgeError::SignatureMismatch));
    assert_eq!(b.fault_record(), Some(FaultRecord { kind: FaultKind::SignatureMismatch, detail: Some(0) }));
    let mut c = boot(4096, vec![host_increment()], module(vec![import_increment()], 0, &["run"]), &s("run"));
    assert_eq!(c.host_call(1, &vec![Value::I32(1)]), Err(BridgeError::SignatureMismatch));
    assert_eq!(c.current_phase(), Phase::Trapped);
}

#[test]
fn malformed_module_traps_at_load() {
    let mut b = ready_to_load(4096, vec![]);
    let mut m = module(vec![], 0, &["run"]);
    m.bytes[1] = 0x62;
    assert_eq!(b.load_module(m), Err(BridgeError::MalformedModule));
    assert_eq!(b.current_phase(), Phase::Trapped);
    assert_eq!(b.fault_record(), Some(FaultRecord { kind: FaultKind::MalformedModule, detail: None }));
    let r = boot(4096, vec![], ModuleImage { bytes: vec![0, 0x61, 0x73], imports: vec![], memory_min: 0, exports: vec![] }, &s("run"));
    assert_eq!(r.fault_record(), Some(FaultRecord { kind: FaultKind::MalformedModule, detail: None }));
}

#[test]
fn header_check() {
    assert!(check_header(&HEADER.to_vec()));
    assert!(!check_header(&HEADER[..7].to_vec()));
    assert!(!check_header(&vec![0x00, 0x61, 0x73, 0x6d, 0x02, 0x00, 0x00, 0x00]));
}

#[test]
fn phases_are_passed_in_order() {
    let mut b = Bridge::new();
    assert_eq!(b.current_phase(), Phase::Uninitialized);
    assert_eq!(b.register(s("env"), s("f"), i32_to_i32(), 0), Err(BridgeError::WrongPhase));
    assert_eq!(b.freeze_registry(), Err(BridgeError::WrongPhase));
    assert_eq!(b.instantiate(), Err(BridgeError::WrongPhase));
    assert_eq!(b.init_arena(128), Ok(()));
    assert_eq!(b.init_arena(128), Err(BridgeError::WrongPhase));
    assert_eq!(b.current_phase(), Phase::ArenaReady);
    assert_eq!(b.register(s("env"), s("f"), i32_to_i32(), 0), Ok(()));
    assert_eq!(b.register(s("env"), s("f"), i32_to_i32(), 1), Err(BridgeError::DuplicateImport));
    assert_eq!(b.freeze_registry(), Ok(()));
    assert_eq!(b.register(s("env"), s("g"), i32_to_i32(), 2), Err(BridgeError::WrongPhase));
    assert_eq!(b.current_phase(), Phase::RegistryReady);
    assert_eq!(b.store(0, &vec![1]), Err(BridgeError::WrongPhase));
}

#[test]
fn missing_entry_export_is_refused() {
    let mut b = ready_to_load(4096, vec![]);
    b.load_module(module(vec![], 0, &["main"])).unwrap();
    b.instantiate().unwrap();
    assert_eq!(b.start(&s("run")), Err(BridgeError::NoEntryExport));
    assert_eq!(b.current_phase(), Phase::Instantiated);
    let r = boot(4096, vec![], module(vec![], 0, &["main"]), &s("run"));
    assert_eq!(r.fault_record(), Some(FaultRecord { kind: FaultKind::InstantiationFailed, detail: None }));
}

#[test]
fn duplicate_host_key_stops_boot() {
    let r = boot(4096, vec![host_increment(), host_increment()], module(vec![], 0, &["run"]), &s("run"));
    assert_eq!(r.current_phase(), Phase::Trapped);
    assert_eq!(r.fault_record(), Some(FaultRecord { kind: FaultKind::DuplicateImport, detail: None }));
}

#[test]
fn fault_sink_keeps_first_fault() {
    let mut b = running(16);
    wasm_firmware::bridge::panic(&mut b, FaultRecord { kind: FaultKind::HardwareException, detail: Some(7) });
    assert_eq!(b.current_phase(), Phase::Trapped);
    wasm_firmware::bridge::panic(&mut b, FaultRecord { kind: FaultKind::Trap, detail: None });
    assert_eq!(b.fault_record(), Some(FaultRecord { kind: FaultKind::HardwareException, detail: Some(7) }));
}

#[test]
fn helpers_match_kinds_and_exports() {
    assert!(kinds_match(&vec![Value::I32(1), Value::F64(0)], &vec![ValueKind::I32, ValueKind::F64]));
    assert!(!kinds_match(&vec![Value::F32(1)], &vec![ValueKind::I32]));
    assert!(!kinds_match(&vec![], &vec![ValueKind::I32]));
    assert_eq!(find_export(&vec![s("a"), s("run"), s("run")], &s("run")), Some(1));
    assert_eq!(find_export(&vec![s("a")], &s("run")), None);
}
