use vstd::prelude::*;

use crate::arena::{align_up, fits, Arena, Region};
use crate::registry::{
    contains_key, resolve_spec, HostEntryModel, Registry, RegistryError, Signature, SignatureModel, ValueKind,
};

verus! {

/// Alignment, in bytes, of a guest module's linear memory within the arena.
pub const LINEAR_MEMORY_ALIGN: usize = 8;

/// The phases of the bridge, in the only order in which they are passed.
/// `Halted` and `Trapped` are terminal.
#[derive(Clone, Copy, Debug, PartialEq, Eq, Structural)]
pub enum Phase {
    Uninitialized,
    ArenaReady,
    RegistryReady,
    ModuleLoaded,
    Instantiated,
    Running,
    Halted,
    Trapped,
}

/// What went wrong, as handed to the fault sink.
#[derive(Clone, Copy, Debug, PartialEq, Eq, Structural)]
pub enum FaultKind {
    OutOfArena,
    DuplicateImport,
    Unresolved,
    SignatureMismatch,
    MalformedModule,
    InstantiationFailed,
    Trap,
    HardwareException,
}

/// A fault kind with an optional diagnostic word (a trap's faulting address,
/// the size of a memory request that did not fit, an import's index).
#[derive(Clone, Copy, Debug, PartialEq, Eq, Structural)]
pub struct FaultRecord {
    pub kind: FaultKind,
    pub detail: Option<u64>,
}

/// Why a bridge operation was refused.
#[derive(Clone, Copy, Debug, PartialEq, Eq, Structural)]
pub enum BridgeError {
    /// The operation does not belong to the current phase.
    WrongPhase,
    DuplicateImport,
    Unresolved,
    SignatureMismatch,
    MalformedModule,
    InstantiationFailed,
    /// The module exports nothing under the requested entry name.
    NoEntryExport,
    Trap,
}

pub open spec fn error_of(e: RegistryError) -> BridgeError {
    match e {
        RegistryError::DuplicateImport => BridgeError::DuplicateImport,
        RegistryError::Unresolved => BridgeError::Unresolved,
        RegistryError::SignatureMismatch => BridgeError::SignatureMismatch,
    }
}

pub fn registry_error(e: RegistryError) -> (r: BridgeError)
    ensures
        r == error_of(e),
{
    match e {
        RegistryError::DuplicateImport => BridgeError::DuplicateImport,
        RegistryError::Unresolved => BridgeError::Unresolved,
        RegistryError::SignatureMismatch => BridgeError::SignatureMismatch,
    }
}

/// A WebAssembly value crossing the host boundary. Floating-point values are
/// carried as their IEEE 754 bit patterns.
#[derive(Clone, Copy, Debug, PartialEq, Eq, Structural)]
pub enum Value {
    I32(i32),
    I64(i64),
    F32(u32),
    F64(u64),
}

pub open spec fn kind_of(v: Value) -> ValueKind {
    match v {
        Value::I32(_) => ValueKind::I32,
        Value::I64(_) => ValueKind::I64,
        Value::F32(_) => ValueKind::F32,
        Value::F64(_) => ValueKind::F64,
    }
}

impl Value {
    pub fn kind(&self) -> (r: ValueKind)
        ensures
            r == kind_of(*self),
    {
        match self {
            Value::I32(_) => ValueKind::I32,
            Value::I64(_) => ValueKind::I64,
            Value::F32(_) => ValueKind::F32,
            Value::F64(_) => ValueKind::F64,
        }
    }
}

/// A function that a module imports from the host.
pub struct Import {
    pub namespace: String,
    pub name: String,
    pub signature: Signature,
}

pub struct ImportModel {
    pub namespace: Seq<char>,
    pub name: Seq<char>,
    pub signature: SignatureModel,
}

impl View for Import {
    type V = ImportModel;

    open spec fn view(&self) -> ImportModel {
        ImportModel { namespace: self.namespace@, name: self.name@, signature: self.signature@ }
    }
}

/// A module image: its binary encoding together with the declarations the
/// interpreter's parser reports for it.
pub struct ModuleImage {
    pub bytes: Vec<u8>,
    pub imports: Vec<Import>,
    /// Minimum size of the module's linear memory, in bytes.
    pub memory_min: usize,
    pub exports: Vec<String>,
}

pub struct ModuleModel {
    pub bytes: Seq<u8>,
    pub imports: Seq<ImportModel>,
    pub memory_min: nat,
    pub exports: Seq<Seq<char>>,
}

impl View for ModuleImage {
    type V = ModuleModel;

    open spec fn view(&self) -> ModuleModel {
        ModuleModel {
            bytes: self.bytes@,
            imports: self.imports@.map_values(|i: Import| i@),
            memory_min: self.memory_min as nat,
            exports: self.exports@.map_values(|s: String| s@),
        }
    }
}

/// The binary begins with the WebAssembly magic `\0asm` and version 1.
pub open spec fn header_valid(b: Seq<u8>) -> bool {
    &&& b.len() >= 8
    &&& b[0] == 0x00u8 && b[1] == 0x61u8 && b[2] == 0x73u8 && b[3] == 0x6du8
    &&& b[4] == 0x01u8 && b[5] == 0x00u8 && b[6] == 0x00u8 && b[7] == 0x00u8
}

pub fn check_header(b: &Vec<u8>) -> (r: bool)
    ensures
        r == header_valid(b@),
{
    b.len() >= 8 && b[0] == 0x00u8 && b[1] == 0x61u8 && b[2] == 0x73u8 && b[3] == 0x6du8 && b[4] == 0x01u8
        && b[5] == 0x00u8 && b[6] == 0x00u8 && b[7] == 0x00u8
}

/// Resolves every import in order against the entries `reg`; the first
/// failure decides the error.
pub open spec fn resolve_all_spec(reg: Seq<HostEntryModel>, imports: Seq<ImportModel>) -> Result<
    Seq<u32>,
    RegistryError,
>
    decreases imports.len(),
{
    if imports.len() == 0 {
        Ok(Seq::empty())
    } else {
        match resolve_all_spec(reg, imports.drop_last()) {
            Err(e) => Err(e),
            Ok(hs) => {
                let last = imports.last();
                match resolve_spec(reg, last.namespace, last.name, last.signature) {
                    Ok(h) => Ok(hs.push(h)),
                    Err(e) => Err(e),
                }
            },
        }
    }
}

/// Whether `name` is among the exports.
pub open spec fn exports_name(exports: Seq<Seq<char>>, name: Seq<char>) -> bool {
    exists|i: int| 0 <= i < exports.len() && exports[i] == name
}

/// A resolution that fails on a prefix of the imports fails, with the same
/// error, on the whole list.
proof fn lemma_resolve_all_prefix_err(reg: Seq<HostEntryModel>, s: Seq<ImportModel>, k: int)
    requires
        0 <= k <= s.len(),
        resolve_all_spec(reg, s.take(k)) is Err,
    ensures
        resolve_all_spec(reg, s) == resolve_all_spec(reg, s.take(k)),
    decreases s.len() - k,
{
    if k == s.len() {
        assert(s.take(k) =~= s);
    } else {
        let t = s.drop_last();
        assert(t.take(k) =~= s.take(k));
        lemma_resolve_all_prefix_err(reg, t, k);
    }
}

proof fn lemma_resolve_all_len(reg: Seq<HostEntryModel>, s: Seq<ImportModel>)
    requires
        resolve_all_spec(reg, s) is Ok,
    ensures
        resolve_all_spec(reg, s)->Ok_0.len() == s.len(),
    decreases s.len(),
{
    if s.len() > 0 {
        lemma_resolve_all_len(reg, s.drop_last());
    }
}

/// The index of the first export called `name`, if any.
pub fn find_export(exports: &Vec<String>, name: &String) -> (r: Option<usize>)
    ensures
        r matches Some(i) ==> i < exports@.len() && exports@[i as int]@ == name@,
        r is None ==> forall|k: int| 0 <= k < exports@.len() ==> exports@[k]@ != name@,
{
    let mut i: usize = 0;
    while i < exports.len()
        invariant
            i <= exports@.len(),
            forall|k: int| 0 <= k < i ==> exports@[k]@ != name@,
        decreases exports@.len() - i,
    {
        if exports[i] == *name {
            return Some(i);
        }
        i = i + 1;
    }
    None
}

proof fn lemma_resolve_all_ok_prefix(reg: Seq<HostEntryModel>, s: Seq<ImportModel>, k: int)
    requires
        0 <= k <= s.len(),
        forall|j: int| 0 <= j < k ==> resolve_spec(reg, #[trigger] s[j].namespace, s[j].name, s[j].signature) is Ok,
    ensures
        resolve_all_spec(reg, s.take(k)) is Ok,
    decreases k,
{
    if k > 0 {
        lemma_resolve_all_ok_prefix(reg, s, k - 1);
        assert(s.take(k).drop_last() =~= s.take(k - 1));
    }
}

/// An import with no entry under its key, after imports that all resolve,
/// makes resolution fail with `Unresolved`; `Bridge::instantiate` then
/// reports that error and leaves the bridge exactly as it was, in
/// `ModuleLoaded`.
pub proof fn lemma_missing_import_unresolved(reg: Seq<HostEntryModel>, imports: Seq<ImportModel>, k: int)
    requires
        0 <= k < imports.len(),
        !contains_key(reg, imports[k].namespace, imports[k].name),
        forall|j: int|
            0 <= j < k ==> resolve_spec(reg, #[trigger] imports[j].namespace, imports[j].name, imports[j].signature) is Ok,
    ensures
        resolve_all_spec(reg, imports) == Err::<Seq<u32>, RegistryError>(RegistryError::Unresolved),
        error_of(RegistryError::Unresolved) == BridgeError::Unresolved,
{
    lemma_resolve_all_ok_prefix(reg, imports, k);
    let t = imports.take(k + 1);
    assert(t.drop_last() =~= imports.take(k));
    assert(t.last() == imports[k]);
    lemma_resolve_all_prefix_err(reg, imports, k + 1);
}

/// Resolves each import of `imports` against `registry`, in order.
pub fn resolve_imports(registry: &Registry, imports: &Vec<Import>) -> (r: Result<Vec<u32>, RegistryError>)
    requires
        registry.wf(),
    ensures
        r matches Ok(hs) ==> resolve_all_spec(registry@, imports@.map_values(|i: Import| i@)) == Ok::<
            Seq<u32>,
            RegistryError,
        >(hs@),
        r matches Err(e) ==> resolve_all_spec(registry@, imports@.map_values(|i: Import| i@)) == Err::<
            Seq<u32>,
            RegistryError,
        >(e),
{
    let ghost models = imports@.map_values(|i: Import| i@);
    let mut out: Vec<u32> = Vec::new();
    let mut i: usize = 0;
    assert(models.take(0) =~= Seq::<ImportModel>::empty());
    while i < imports.len()
        invariant
            i <= imports@.len(),
            models == imports@.map_values(|i: Import| i@),
            registry.wf(),
            resolve_all_spec(registry@, models.take(i as int)) == Ok::<Seq<u32>, RegistryError>(out@),
        decreases imports@.len() - i,
    {
        let imp = &imports[i];
        let res = registry.resolve(&imp.namespace, &imp.name, &imp.signature);
        assert(models.take(i + 1).drop_last() =~= models.take(i as int));
        assert(models.take(i + 1).last() == imp@);
        match res {
            Ok(h) => {
                out.push(h);
            },
            Err(e) => {
                proof {
                    lemma_resolve_all_prefix_err(registry@, models, i + 1);
                }
                return Err(e);
            },
        }
        i = i + 1;
    }
    assert(models.take(i as int) =~= models);
    Ok(out)
}

/// Whether the kinds of `args` are exactly `params`.
pub fn kinds_match(args: &Vec<Value>, params: &Vec<ValueKind>) -> (r: bool)
    ensures
        r == (args@.map_values(|v: Value| kind_of(v)) == params@),
{
    if args.len() != params.len() {
        assert(args@.map_values(|v: Value| kind_of(v)).len() != params@.len());
        return false;
    }
    let mut i: usize = 0;
    while i < args.len()
        invariant
            args@.len() == params@.len(),
            i <= args@.len(),
            forall|k: int| 0 <= k < i ==> kind_of(args@[k]) == params@[k],
        decreases args@.len() - i,
    {
        if args[i].kind() != params[i] {
            assert(args@.map_values(|v: Value| kind_of(v))[i as int] != params@[i as int]);
            return false;
        }
        i = i + 1;
    }
    assert(args@.map_values(|v: Value| kind_of(v)) =~= params@);
    true
}

/// How a run of the entry export ended, as the interpreter reports it.
pub enum Outcome {
    /// It returned these values.
    Returned(Vec<Value>),
    /// It trapped, at this guest address where one is known.
    Trapped(Option<u64>),
}

/// The single execution context of the firmware: arena, host function table
/// and the one module instance, moved through the phases in order.
pub struct Bridge {
    phase: Phase,
    arena: Arena,
    registry: Registry,
    module: Option<ModuleImage>,
    resolved: Vec<u32>,
    memory: Region,
    entry: usize,
    fault: Option<FaultRecord>,
    result: Option<Vec<Value>>,
}

impl Bridge {
    pub closed spec fn phase(&self) -> Phase {
        self.phase
    }

    pub closed spec fn arena(&self) -> Arena {
        self.arena
    }

    pub closed spec fn registry(&self) -> Seq<HostEntryModel> {
        self.registry@
    }

    pub closed spec fn module(&self) -> Option<ModuleModel> {
        match self.module {
            Some(m) => Some(m@),
            None => None,
        }
    }

    /// The host function numbers the module's imports were resolved to.
    pub closed spec fn resolved(&self) -> Seq<u32> {
        self.resolved@
    }

    /// Where the module's linear memory lies in the arena.
    pub closed spec fn memory(&self) -> Region {
        self.memory
    }

    /// Index, among the module's exports, of the entry being run.
    pub closed spec fn entry(&self) -> nat {
        self.entry as nat
    }

    pub closed spec fn fault(&self) -> Option<FaultRecord> {
        self.fault
    }

    /// The values the entry export returned, once it has.
    pub closed spec fn result(&self) -> Option<Seq<Value>> {
        match self.result {
            Some(v) => Some(v@),
            None => None,
        }
    }

    /// What the module's linear memory holds.
    pub open spec fn linear_memory(&self) -> Seq<u8> {
        self.arena().contents().subrange(self.memory().offset as int, self.memory().end())
    }

    pub closed spec fn wf(&self) -> bool {
        &&& self.arena.wf()
        &&& self.registry.wf()
        &&& (self.phase == Phase::ModuleLoaded || self.phase == Phase::Instantiated || self.phase
            == Phase::Running) ==> self.module is Some
        &&& (self.phase == Phase::Instantiated || self.phase == Phase::Running) ==> {
            &&& self.resolved@.len() == self.module->Some_0.imports@.len()
            &&& self.memory.end() <= self.arena.capacity()
        }
        &&& self.phase == Phase::Running ==> self.entry < self.module->Some_0.exports@.len()
    }

    /// A bridge before anything is set up.
    pub fn new() -> (r: Bridge)
        ensures
            r.wf(),
            r.phase() == Phase::Uninitialized,
            r.registry() == Seq::<HostEntryModel>::empty(),
            r.fault() is None,
            r.result() is None,
    {
        Bridge {
            phase: Phase::Uninitialized,
            arena: Arena::initialize(0),
            registry: Registry::new(),
            module: None,
            resolved: Vec::new(),
            memory: Region { offset: 0, size: 0 },
            entry: 0,
            fault: None,
            result: None,
        }
    }

    pub fn current_phase(&self) -> (r: Phase)
        ensures
            r == self.phase(),
    {
        self.phase
    }

    pub fn fault_record(&self) -> (r: Option<FaultRecord>)
        ensures
            r == self.fault(),
    {
        self.fault
    }

    /// Sets up the arena with `capacity` bytes: `Uninitialized` to `ArenaReady`.
    pub fn init_arena(&mut self, capacity: usize) -> (r: Result<(), BridgeError>)
        requires
            old(self).wf(),
        ensures
            final(self).wf(),
            r is Ok <==> old(self).phase() == Phase::Uninitialized,
            r is Err ==> r == Err::<(), BridgeError>(BridgeError::WrongPhase) && *final(self) == *old(self),
            r is Ok ==> {
                &&& final(self).phase() == Phase::ArenaReady
                &&& final(self).arena().capacity() == capacity
                &&& final(self).arena().used() == 0
                &&& final(self).arena().handed() == Seq::<Region>::empty()
                &&& final(self).registry() == old(self).registry()
                &&& final(self).fault() == old(self).fault()
                &&& final(self).result() == old(self).result()
            },
    {
        if self.phase != Phase::Uninitialized {
            return Err(BridgeError::WrongPhase);
        }
        self.arena = Arena::initialize(capacity);
        self.phase = Phase::ArenaReady;
        Ok(())
    }

    /// Adds a host function to the table; only while in `ArenaReady`.
    pub fn register(&mut self, namespace: String, name: String, signature: Signature, function: u32) -> (r:
        Result<(), BridgeError>)
        requires
            old(self).wf(),
        ensures
            final(self).wf(),
            r is Ok <==> old(self).phase() == Phase::ArenaReady && !contains_key(
                old(self).registry(),
                namespace@,
                name@,
            ),
            old(self).phase() != Phase::ArenaReady ==> r == Err::<(), BridgeError>(BridgeError::WrongPhase),
            old(self).phase() == Phase::ArenaReady && contains_key(old(self).registry(), namespace@, name@)
                ==> r == Err::<(), BridgeError>(BridgeError::DuplicateImport),
            r is Err ==> *final(self) == *old(self),
            r is Ok ==> {
                &&& final(self).registry() == old(self).registry().push(
                    HostEntryModel {
                        namespace: namespace@,
                        name: name@,
                        signature: signature@,
                        function,
                    },
                )
                &&& final(self).phase() == old(self).phase()
                &&& final(self).arena() == old(self).arena()
                &&& final(self).fault() == old(self).fault()
                &&& final(self).result() == old(self).result()
            },
    {
        if self.phase != Phase::ArenaReady {
            return Err(BridgeError::WrongPhase);
        }
        match self.registry.register(namespace, name, signature, function) {
            Ok(()) => Ok(()),
            Err(_) => Err(BridgeError::DuplicateImport),
        }
    }

    /// Closes the host function table: `ArenaReady` to `RegistryReady`.
    pub fn freeze_registry(&mut self) -> (r: Result<(), BridgeError>)
        requires
            old(self).wf(),
        ensures
            final(self).wf(),
            r is Ok <==> old(self).phase() == Phase::ArenaReady,
            r is Err ==> r == Err::<(), BridgeError>(BridgeError::WrongPhase) && *final(self) == *old(self),
            r is Ok ==> {
                &&& final(self).phase() == Phase::RegistryReady
                &&& final(self).arena() == old(self).arena()
                &&& final(self).registry() == old(self).registry()
                &&& final(self).fault() == old(self).fault()
                &&& final(self).result() == old(self).result()
            },
    {
        if self.phase != Phase::ArenaReady {
            return Err(BridgeError::WrongPhase);
        }
        self.phase = Phase::RegistryReady;
        Ok(())
    }

    /// Takes the module image: `RegistryReady` to `ModuleLoaded`, or to
    /// `Trapped` with a `MalformedModule` fault when the bytes are not a
    /// WebAssembly binary.
    pub fn load_module(&mut self, image: ModuleImage) -> (r: Result<(), BridgeError>)
        requires
            old(self).wf(),
        ensures
            final(self).wf(),
            r is Ok <==> old(self).phase() == Phase::RegistryReady && header_valid(image.bytes@),
            old(self).phase() != Phase::RegistryReady ==> r == Err::<(), BridgeError>(BridgeError::WrongPhase)
                && *final(self) == *old(self),
            old(self).phase() == Phase::RegistryReady && !header_valid(image.bytes@) ==> {
                &&& r == Err::<(), BridgeError>(BridgeError::MalformedModule)
                &&& final(self).phase() == Phase::Trapped
                &&& final(self).fault() == Some(
                    FaultRecord { kind: FaultKind::MalformedModule, detail: None },
                )
                &&& final(self).arena() == old(self).arena()
                &&& final(self).registry() == old(self).registry()
            },
            r is Ok ==> {
                &&& final(self).phase() == Phase::ModuleLoaded
                &&& final(self).module() == Some(image@)
                &&& final(self).arena() == old(self).arena()
                &&& final(self).registry() == old(self).registry()
                &&& final(self).fault() == old(self).fault()
                &&& final(self).result() == old(self).result()
            },
    {
        if self.phase != Phase::RegistryReady {
            return Err(BridgeError::WrongPhase);
        }
        if !check_header(&image.bytes) {
            self.phase = Phase::Trapped;
            self.fault = Some(FaultRecord { kind: FaultKind::MalformedModule, detail: None });
            return Err(BridgeError::MalformedModule);
        }
        self.module = Some(image);
        self.phase = Phase::ModuleLoaded;
        Ok(())
    }

    /// Resolves the module's imports and claims its linear memory from the
    /// arena, all or nothing: `ModuleLoaded` to `Instantiated`. An import that
    /// does not resolve leaves the bridge exactly as it was; linear memory that
    /// does not fit ends in `Trapped` with an `InstantiationFailed` fault.
    pub fn instantiate(&mut self) -> (r: Result<(), BridgeError>)
        requires
            old(self).wf(),
        ensures
            final(self).wf(),
            old(self).phase() != Phase::ModuleLoaded ==> r == Err::<(), BridgeError>(BridgeError::WrongPhase)
                && *final(self) == *old(self),
            old(self).phase() == Phase::ModuleLoaded ==> match resolve_all_spec(
                old(self).registry(),
                old(self).module()->Some_0.imports,
            ) {
                Err(e) => r == Err::<(), BridgeError>(error_of(e)) && *final(self) == *old(self),
                Ok(hs) => if fits(
                    old(self).arena().used() as int,
                    old(self).arena().capacity() as int,
                    old(self).module()->Some_0.memory_min as int,
                    LINEAR_MEMORY_ALIGN as int,
                ) {
                    &&& r is Ok
                    &&& final(self).phase() == Phase::Instantiated
                    &&& final(self).resolved() == hs
                    &&& final(self).memory().offset == align_up(
                        old(self).arena().used() as int,
                        LINEAR_MEMORY_ALIGN as int,
                    )
                    &&& final(self).memory().size == old(self).module()->Some_0.memory_min
                    &&& final(self).arena().handed() == old(self).arena().handed().push(final(self).memory())
                    &&& final(self).arena().used() == final(self).memory().end()
                    &&& final(self).arena().capacity() == old(self).arena().capacity()
                    &&& final(self).arena().contents() == old(self).arena().contents()
                    &&& final(self).module() == old(self).module()
                    &&& final(self).registry() == old(self).registry()
                    &&& final(self).fault() == old(self).fault()
                    &&& final(self).result() == old(self).result()
                } else {
                    &&& r == Err::<(), BridgeError>(BridgeError::InstantiationFailed)
                    &&& final(self).phase() == Phase::Trapped
                    &&& final(self).fault() == Some(
                        FaultRecord {
                            kind: FaultKind::InstantiationFailed,
                            detail: Some(old(self).module()->Some_0.memory_min as u64),
                        },
                    )
                    &&& final(self).arena() == old(self).arena()
                    &&& final(self).module() == old(self).module()
                    &&& final(self).registry() == old(self).registry()
                },
            },
    {
        if self.phase != Phase::ModuleLoaded {
            return Err(BridgeError::WrongPhase);
        }
        let (handles, min) = match &self.module {
            Some(m) => {
                match resolve_imports(&self.registry, &m.imports) {
                    Ok(h) => (h, m.memory_min),
                    Err(e) => {
                        return Err(registry_error(e));
                    },
                }
            },
            None => {
                return Err(BridgeError::WrongPhase);
            },
        };
        match self.arena.allocate(min, LINEAR_MEMORY_ALIGN) {
            Err(_) => {
                self.phase = Phase::Trapped;
                self.fault = Some(FaultRecord { kind: FaultKind::InstantiationFailed, detail: Some(min as u64) });
                Err(BridgeError::InstantiationFailed)
            },
            Ok(g) => {
                proof {
                    lemma_resolve_all_len(self.registry@, self.module->Some_0@.imports);
                }
                self.memory = g;
                self.resolved = handles;
                self.phase = Phase::Instantiated;
                Ok(())
            },
        }
    }

    /// Selects the entry export by name: `Instantiated` to `Running`. A
    /// module without that export leaves the bridge as it was.
    pub fn start(&mut self, entry: &String) -> (r: Result<(), BridgeError>)
        requires
            old(self).wf(),
        ensures
            final(self).wf(),
            old(self).phase() != Phase::Instantiated ==> r == Err::<(), BridgeError>(BridgeError::WrongPhase)
                && *final(self) == *old(self),
            old(self).phase() == Phase::Instantiated ==> if exports_name(
                old(self).module()->Some_0.exports,
                entry@,
            ) {
                &&& r is Ok
                &&& final(self).phase() == Phase::Running
                &&& final(self).entry() < final(self).module()->Some_0.exports.len()
                &&& final(self).module()->Some_0.exports[final(self).entry() as int] == entry@
                &&& final(self).module() == old(self).module()
                &&& final(self).resolved() == old(self).resolved()
                &&& final(self).memory() == old(self).memory()
                &&& final(self).arena() == old(self).arena()
                &&& final(self).registry() == old(self).registry()
                &&& final(self).fault() == old(self).fault()
                &&& final(self).result() == old(self).result()
            } else {
                r == Err::<(), BridgeError>(BridgeError::NoEntryExport) && *final(self) == *old(self)
            },
    {
        if self.phase != Phase::Instantiated {
            return Err(BridgeError::WrongPhase);
        }
        let found = match &self.module {
            Some(m) => {
                let f = find_export(&m.exports, entry);
                proof {
                    let names = m@.exports;
                    assert(forall|k: int| 0 <= k < names.len() ==> names[k] == m.exports@[k]@);
                    if let Some(i) = f {
                        assert(names[i as int] == entry@);
                    }
                }
                f
            },
            None => None,
        };
        match found {
            None => {
                Err(BridgeError::NoEntryExport)
            },
            Some(i) => {
                self.entry = i;
                self.phase = Phase::Running;
                Ok(())
            },
        }
    }

    /// Checks a call from the guest into its import number `import` with
    /// arguments `args`, and gives the host function number to run. A call
    /// that does not match the import's declared parameters traps.
    pub fn host_call(&mut self, import: usize, args: &Vec<Value>) -> (r: Result<u32, BridgeError>)
        requires
            old(self).wf(),
        ensures
            final(self).wf(),
            old(self).phase() != Phase::Running ==> r == Err::<u32, BridgeError>(BridgeError::WrongPhase)
                && *final(self) == *old(self),
            old(self).phase() == Phase::Running ==> if import < old(self).module()->Some_0.imports.len()
                && args@.map_values(|v: Value| kind_of(v)) == old(self).module()->Some_0.imports[
                import as int].signature.params {
                r == Ok::<u32, BridgeError>(old(self).resolved()[import as int]) && *final(self) == *old(self)
            } else {
                &&& r == Err::<u32, BridgeError>(BridgeError::SignatureMismatch)
                &&& final(self).phase() == Phase::Trapped
                &&& final(self).fault() == Some(
                    FaultRecord { kind: FaultKind::SignatureMismatch, detail: Some(import as u64) },
                )
                &&& final(self).arena() == old(self).arena()
                &&& final(self).registry() == old(self).registry()
                &&& final(self).module() == old(self).module()
            },
    {
        if self.phase != Phase::Running {
            return Err(BridgeError::WrongPhase);
        }
        let ok = match &self.module {
            Some(m) => import < m.imports.len() && kinds_match(args, &m.imports[import].signature.params),
            None => false,
        };
        if ok {
            Ok(self.resolved[import])
        } else {
            self.phase = Phase::Trapped;
            self.fault = Some(FaultRecord { kind: FaultKind::SignatureMismatch, detail: Some(import as u64) });
            Err(BridgeError::SignatureMismatch)
        }
    }

    /// Whether `len` bytes from guest address `addr` lie inside linear memory.
    pub open spec fn in_bounds(&self, addr: u64, len: nat) -> bool {
        addr + len <= self.memory().size
    }

    /// A guest write of `data` at linear memory address `addr`. A write that
    /// does not fit in linear memory traps with its address.
    pub fn store(&mut self, addr: u64, data: &Vec<u8>) -> (r: Result<(), BridgeError>)
        requires
            old(self).wf(),
        ensures
            final(self).wf(),
            old(self).phase() != Phase::Running ==> r == Err::<(), BridgeError>(BridgeError::WrongPhase)
                && *final(self) == *old(self),
            old(self).phase() == Phase::Running ==> if old(self).in_bounds(addr, data@.len()) {
                &&& r is Ok
                &&& final(self).linear_memory() == old(self).linear_memory().subrange(0, addr as int) + data@
                    + old(self).linear_memory().subrange(addr + data@.len(), old(self).memory().size as int)
                &&& final(self).phase() == Phase::Running
                &&& final(self).memory() == old(self).memory()
                &&& final(self).arena().capacity() == old(self).arena().capacity()
                &&& final(self).arena().used() == old(self).arena().used()
                &&& final(self).arena().handed() == old(self).arena().handed()
                &&& final(self).module() == old(self).module()
                &&& final(self).resolved() == old(self).resolved()
                &&& final(self).registry() == old(self).registry()
                &&& final(self).fault() == old(self).fault()
            } else {
                &&& r == Err::<(), BridgeError>(BridgeError::Trap)
                &&& final(self).phase() == Phase::Trapped
                &&& final(self).fault() == Some(FaultRecord { kind: FaultKind::Trap, detail: Some(addr) })
                &&& final(self).arena() == old(self).arena()
                &&& final(self).module() == old(self).module()
            },
    {
        if self.phase != Phase::Running {
            return Err(BridgeError::WrongPhase);
        }
        let size = self.memory.size as u64;
        if addr > size || data.len() as u64 > size - addr {
            self.phase = Phase::Trapped;
            self.fault = Some(FaultRecord { kind: FaultKind::Trap, detail: Some(addr) });
            return Err(BridgeError::Trap);
        }
        let at = self.memory.offset + addr as usize;
        let ghost before = self.arena.contents();
        self.arena.write_bytes(at, data);
        proof {
            let off = self.memory.offset as int;
            let end = self.memory.end();
            let after = self.arena.contents();
            let lm = before.subrange(off, end);
            assert(after.subrange(off, end) =~= lm.subrange(0, addr as int) + data@ + lm.subrange(
                addr + data@.len(),
                self.memory.size as int,
            ));
        }
        Ok(())
    }

    /// A guest read of `len` bytes at linear memory address `addr`. A read
    /// that does not fit in linear memory traps with its address.
    pub fn load(&mut self, addr: u64, len: u64) -> (r: Result<Vec<u8>, BridgeError>)
        requires
            old(self).wf(),
        ensures
            final(self).wf(),
            old(self).phase() != Phase::Running ==> r == Err::<Vec<u8>, BridgeError>(BridgeError::WrongPhase)
                && *final(self) == *old(self),
            old(self).phase() == Phase::Running ==> if old(self).in_bounds(addr, len as nat) {
                &&& r matches Ok(v) && v@ == old(self).linear_memory().subrange(addr as int, addr + len)
                &&& *final(self) == *old(self)
            } else {
                &&& r == Err::<Vec<u8>, BridgeError>(BridgeError::Trap)
                &&& final(self).phase() == Phase::Trapped
                &&& final(self).fault() == Some(FaultRecord { kind: FaultKind::Trap, detail: Some(addr) })
                &&& final(self).arena() == old(self).arena()
                &&& final(self).module() == old(self).module()
            },
    {
        if self.phase != Phase::Running {
            return Err(BridgeError::WrongPhase);
        }
        let size = self.memory.size as u64;
        if addr > size || len > size - addr {
            self.phase = Phase::Trapped;
            self.fault = Some(FaultRecord { kind: FaultKind::Trap, detail: Some(addr) });
            return Err(BridgeError::Trap);
        }
        let v = self.arena.read_bytes(self.memory.offset + addr as usize, len as usize);
        proof {
            let off = self.memory.offset as int;
            assert(v@ =~= self.linear_memory().subrange(addr as int, addr + len));
        }
        Ok(v)
    }

    /// Records how the entry export ended: a return leads to `Halted` with
    /// its values kept, a trap to `Trapped` with a `Trap` fault carrying the
    /// faulting address.
    pub fn finish(&mut self, outcome: Outcome) -> (r: Result<(), BridgeError>)
        requires
            old(self).wf(),
        ensures
            final(self).wf(),
            r is Ok <==> old(self).phase() == Phase::Running,
            r is Err ==> r == Err::<(), BridgeError>(BridgeError::WrongPhase) && *final(self) == *old(self),
            r is Ok ==> final(self).arena() == old(self).arena() && final(self).module() == old(self).module(),
            r is Ok ==> match outcome {
                Outcome::Returned(vals) => {
                    &&& final(self).phase() == Phase::Halted
                    &&& final(self).result() == Some(vals@)
                    &&& final(self).fault() == old(self).fault()
                },
                Outcome::Trapped(addr) => {
                    &&& final(self).phase() == Phase::Trapped
                    &&& final(self).fault() == Some(FaultRecord { kind: FaultKind::Trap, detail: addr })
                    &&& final(self).result() == old(self).result()
                },
            },
    {
        if self.phase != Phase::Running {
            return Err(BridgeError::WrongPhase);
        }
        match outcome {
            Outcome::Returned(vals) => {
                self.result = Some(vals);
                self.phase = Phase::Halted;
            },
            Outcome::Trapped(addr) => {
                self.fault = Some(FaultRecord { kind: FaultKind::Trap, detail: addr });
                self.phase = Phase::Trapped;
            },
        }
        Ok(())
    }

    /// The values the entry export returned, once it has.
    pub fn returned(&self) -> (r: Option<&Vec<Value>>)
        ensures
            r matches Some(v) ==> self.result() == Some(v@),
            r is None ==> self.result() is None,
    {
        self.result.as_ref()
    }
}

/// The fault sink: every unrecoverable condition ends here. The bridge enters
/// `Trapped` and keeps the first fault it was given; nothing else changes.
pub fn panic(bridge: &mut Bridge, record: FaultRecord)
    requires
        old(bridge).wf(),
    ensures
        final(bridge).wf(),
        final(bridge).phase() == Phase::Trapped,
        final(bridge).fault() == if old(bridge).phase() == Phase::Trapped && old(bridge).fault() is Some {
            old(bridge).fault()
        } else {
            Some(record)
        },
        final(bridge).arena() == old(bridge).arena(),
        final(bridge).registry() == old(bridge).registry(),
        final(bridge).module() == old(bridge).module(),
        final(bridge).result() == old(bridge).result(),
{
    if !(bridge.phase == Phase::Trapped && bridge.fault.is_some()) {
        bridge.fault = Some(record);
    }
    bridge.phase = Phase::Trapped;
}

} // verus!
