use vstd::prelude::*;

use crate::arena::fits;
use crate::bridge::{
    exports_name, header_valid, resolve_all_spec, Bridge, BridgeError, FaultKind, FaultRecord, ModuleImage, ModuleModel,
    Phase, LINEAR_MEMORY_ALIGN,
};
use crate::registry::{
    contains_key, has_key_at, keys_unique, lemma_push_keeps_keys_unique, HostEntry, HostEntryModel, RegistryError,
};

verus! {

pub open spec fn host_models(hosts: Seq<HostEntry>) -> Seq<HostEntryModel> {
    hosts.map_values(|e: HostEntry| e@)
}

pub open spec fn fault_kind_of(e: RegistryError) -> FaultKind {
    match e {
        RegistryError::DuplicateImport => FaultKind::DuplicateImport,
        RegistryError::Unresolved => FaultKind::Unresolved,
        RegistryError::SignatureMismatch => FaultKind::SignatureMismatch,
    }
}

/// The fault that stops the start-up sequence, if any: the first of a
/// repeated host key, a malformed binary, an import that does not resolve,
/// linear memory larger than the arena, and a missing entry export.
pub open spec fn boot_fault(
    capacity: nat,
    hosts: Seq<HostEntryModel>,
    image: ModuleModel,
    entry: Seq<char>,
) -> Option<FaultRecord> {
    if !keys_unique(hosts) {
        Some(FaultRecord { kind: FaultKind::DuplicateImport, detail: None })
    } else if !header_valid(image.bytes) {
        Some(FaultRecord { kind: FaultKind::MalformedModule, detail: None })
    } else {
        match resolve_all_spec(hosts, image.imports) {
            Err(e) => Some(FaultRecord { kind: fault_kind_of(e), detail: None }),
            Ok(_) => if !fits(0, capacity as int, image.memory_min as int, LINEAR_MEMORY_ALIGN as int) {
                Some(FaultRecord { kind: FaultKind::InstantiationFailed, detail: Some(image.memory_min as u64) })
            } else if !exports_name(image.exports, entry) {
                Some(FaultRecord { kind: FaultKind::InstantiationFailed, detail: None })
            } else {
                None
            },
        }
    }
}

/// Runs the start-up sequence from reset: an arena of `capacity` bytes, the
/// host functions `hosts` registered in order, the module `image` loaded and
/// instantiated, and its export `entry` selected. The bridge comes back
/// `Running`, ready for the interpreter, or `Trapped` with the fault that
/// stopped it.
pub fn boot(capacity: usize, hosts: Vec<HostEntry>, image: ModuleImage, entry: &String) -> (r: Bridge)
    ensures
        r.wf(),
        r.fault() == boot_fault(capacity as nat, host_models(hosts@), image@, entry@),
        r.phase() == if boot_fault(capacity as nat, host_models(hosts@), image@, entry@) is None {
            Phase::Running
        } else {
            Phase::Trapped
        },
        r.phase() == Phase::Running ==> {
            &&& r.registry() == host_models(hosts@)
            &&& r.module() == Some(image@)
            &&& r.resolved() == resolve_all_spec(host_models(hosts@), image@.imports)->Ok_0
            &&& image@.exports[r.entry() as int] == entry@
            &&& r.memory().offset == 0
            &&& r.memory().size == image.memory_min
            &&& r.result() is None
        },
{
    let ghost models = host_models(hosts@);
    let ghost im = image@;
    let mut b = Bridge::new();
    let _ = b.init_arena(capacity);
    let n = hosts.len();
    let mut rest = hosts;
    let mut i: usize = 0;
    assert(models.take(0) =~= Seq::<HostEntryModel>::empty());
    while i < n
        invariant
            n == models.len(),
            models == host_models(hosts@),
            im == image@,
            i <= n,
            b.wf(),
            b.phase() == Phase::ArenaReady,
            b.fault() is None,
            b.result() is None,
            b.arena().capacity() == capacity,
            b.arena().used() == 0,
            b.registry() == models.take(i as int),
            keys_unique(models.take(i as int)),
            rest@.len() == n - i,
            forall|k: int| 0 <= k < n - i ==> #[trigger] rest@[k]@ == models[i + k],
        decreases n - i,
    {
        let e = rest.remove(0);
        assert(e@ == models[i as int]);
        let ghost before = models.take(i as int);
        match b.register(e.namespace, e.name, e.signature, e.function) {
            Err(_) => {
                proof {
                    assert(contains_key(before, models[i as int].namespace, models[i as int].name));
                    let j = choose|j: int| has_key_at(before, j, models[i as int].namespace, models[i as int].name);
                    assert(before[j] == models[j]);
                    assert(!keys_unique(models));
                }
                crate::bridge::panic(&mut b, FaultRecord { kind: FaultKind::DuplicateImport, detail: None });
                return b;
            },
            Ok(()) => {
                proof {
                    lemma_push_keeps_keys_unique(before, models[i as int]);
                    assert(models.take(i + 1) =~= before.push(models[i as int]));
                }
            },
        }
        i = i + 1;
    }
    assert(models.take(n as int) =~= models);
    let _ = b.freeze_registry();
    if b.load_module(image).is_err() {
        return b;
    }
    match b.instantiate() {
        Ok(()) => {},
        Err(e) => {
            if b.current_phase() != Phase::Trapped {
                let kind = match e {
                    BridgeError::SignatureMismatch => FaultKind::SignatureMismatch,
                    BridgeError::DuplicateImport => FaultKind::DuplicateImport,
                    _ => FaultKind::Unresolved,
                };
                crate::bridge::panic(&mut b, FaultRecord { kind, detail: None });
            }
            return b;
        },
    }
    if b.start(entry).is_err() {
        crate::bridge::panic(&mut b, FaultRecord { kind: FaultKind::InstantiationFailed, detail: None });
    }
    b
}

} // verus!
