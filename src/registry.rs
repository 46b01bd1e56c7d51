use vstd::prelude::*;

verus! {

/// A value kind of the WebAssembly core type system.
#[derive(Clone, Copy, Debug, PartialEq, Eq, Structural)]
pub enum ValueKind {
    I32,
    I64,
    F32,
    F64,
}

/// Parameter and result kinds of a function.
#[derive(Clone, Debug)]
pub struct Signature {
    pub params: Vec<ValueKind>,
    pub results: Vec<ValueKind>,
}

/// The mathematical form of a signature.
pub struct SignatureModel {
    pub params: Seq<ValueKind>,
    pub results: Seq<ValueKind>,
}

impl View for Signature {
    type V = SignatureModel;

    open spec fn view(&self) -> SignatureModel {
        SignatureModel { params: self.params@, results: self.results@ }
    }
}

/// Whether two lists of value kinds are the same, kind for kind.
pub fn same_kinds(a: &Vec<ValueKind>, b: &Vec<ValueKind>) -> (r: bool)
    ensures
        r == (a@ == b@),
{
    if a.len() != b.len() {
        return false;
    }
    let mut i: usize = 0;
    while i < a.len()
        invariant
            a@.len() == b@.len(),
            i <= a@.len(),
            forall|k: int| 0 <= k < i ==> a@[k] == b@[k],
        decreases a@.len() - i,
    {
        if a[i] != b[i] {
            return false;
        }
        i = i + 1;
    }
    assert(a@ =~= b@);
    true
}

impl Signature {
    /// Same arity and the same value kinds, parameters and results alike.
    pub fn matches(&self, other: &Signature) -> (r: bool)
        ensures
            r == (self@ == other@),
    {
        let p = same_kinds(&self.params, &other.params);
        let q = same_kinds(&self.results, &other.results);
        p && q
    }
}

/// A host function made available to guest modules under `namespace.name`.
/// `function` is the native function's number in the firmware's dispatch table.
#[derive(Clone, Debug)]
pub struct HostEntry {
    pub namespace: String,
    pub name: String,
    pub signature: Signature,
    pub function: u32,
}

pub struct HostEntryModel {
    pub namespace: Seq<char>,
    pub name: Seq<char>,
    pub signature: SignatureModel,
    pub function: u32,
}

impl View for HostEntry {
    type V = HostEntryModel;

    open spec fn view(&self) -> HostEntryModel {
        HostEntryModel {
            namespace: self.namespace@,
            name: self.name@,
            signature: self.signature@,
            function: self.function,
        }
    }
}

#[derive(Clone, Copy, Debug, PartialEq, Eq, Structural)]
pub enum RegistryError {
    DuplicateImport,
    Unresolved,
    SignatureMismatch,
}

/// Whether entry `i` of `s` is registered under `namespace.name`.
pub open spec fn has_key_at(s: Seq<HostEntryModel>, i: int, namespace: Seq<char>, name: Seq<char>) -> bool {
    0 <= i < s.len() && s[i].namespace == namespace && s[i].name == name
}

pub open spec fn contains_key(s: Seq<HostEntryModel>, namespace: Seq<char>, name: Seq<char>) -> bool {
    exists|i: int| has_key_at(s, i, namespace, name)
}

/// No two entries share a key.
pub open spec fn keys_unique(s: Seq<HostEntryModel>) -> bool {
    forall|i: int, j: int|
        0 <= i < j < s.len() ==> !(#[trigger] s[i].namespace == #[trigger] s[j].namespace && s[i].name
            == s[j].name)
}

/// What resolving `namespace.name` at signature `sig` gives against the entries `s`.
pub open spec fn resolve_spec(
    s: Seq<HostEntryModel>,
    namespace: Seq<char>,
    name: Seq<char>,
    sig: SignatureModel,
) -> Result<u32, RegistryError> {
    if contains_key(s, namespace, name) {
        let i = choose|i: int| has_key_at(s, i, namespace, name);
        if s[i].signature == sig {
            Ok(s[i].function)
        } else {
            Err(RegistryError::SignatureMismatch)
        }
    } else {
        Err(RegistryError::Unresolved)
    }
}

/// Under unique keys, resolving a registered key answers from that entry.
pub proof fn lemma_resolve_at(s: Seq<HostEntryModel>, i: int, sig: SignatureModel)
    requires
        keys_unique(s),
        0 <= i < s.len(),
    ensures
        resolve_spec(s, s[i].namespace, s[i].name, sig) == if s[i].signature == sig {
            Ok::<u32, RegistryError>(s[i].function)
        } else {
            Err(RegistryError::SignatureMismatch)
        },
{
    assert(has_key_at(s, i, s[i].namespace, s[i].name));
    let j = choose|j: int| has_key_at(s, j, s[i].namespace, s[i].name);
    if j < i {
        assert(s[j].namespace == s[i].namespace);
    } else if i < j {
        assert(s[i].namespace == s[j].namespace);
    }
}

/// Appending an entry under a key not yet taken keeps the keys unique.
pub proof fn lemma_push_keeps_keys_unique(s: Seq<HostEntryModel>, e: HostEntryModel)
    requires
        keys_unique(s),
        !contains_key(s, e.namespace, e.name),
    ensures
        keys_unique(s.push(e)),
{
    let t = s.push(e);
    assert forall|i: int, j: int| 0 <= i < j < t.len() implies !(#[trigger] t[i].namespace
        == #[trigger] t[j].namespace && t[i].name == t[j].name) by {
        if j == s.len() {
            assert(!has_key_at(s, i, e.namespace, e.name));
        } else {
            assert(s[i] == t[i] && s[j] == t[j]);
        }
    }
}

/// Host functions under two distinct keys, neither taken yet, are both
/// accepted in turn. Afterwards a second registration of the first key is
/// refused (`Registry::register` then leaves the table as it was), and both
/// keys resolve to their own functions.
pub proof fn lemma_distinct_keys_register(s: Seq<HostEntryModel>, a: HostEntryModel, b: HostEntryModel)
    requires
        keys_unique(s),
        !contains_key(s, a.namespace, a.name),
        !contains_key(s, b.namespace, b.name),
        !(a.namespace == b.namespace && a.name == b.name),
    ensures
        !contains_key(s.push(a), b.namespace, b.name),
        keys_unique(s.push(a)),
        keys_unique(s.push(a).push(b)),
        contains_key(s.push(a).push(b), a.namespace, a.name),
        resolve_spec(s.push(a).push(b), a.namespace, a.name, a.signature) == Ok::<u32, RegistryError>(
            a.function,
        ),
        resolve_spec(s.push(a).push(b), b.namespace, b.name, b.signature) == Ok::<u32, RegistryError>(
            b.function,
        ),
{
    let sa = s.push(a);
    let sb = sa.push(b);
    assert forall|i: int| #![auto] 0 <= i < s.len() implies !has_key_at(s, i, a.namespace, a.name)
        && !has_key_at(s, i, b.namespace, b.name) by {}
    assert(forall|i: int| 0 <= i < s.len() ==> sa[i] == s[i] && sb[i] == s[i]);
    assert(!contains_key(sa, b.namespace, b.name)) by {
        assert forall|i: int| #![auto] !has_key_at(sa, i, b.namespace, b.name) by {
            if 0 <= i < s.len() {
                assert(!has_key_at(s, i, b.namespace, b.name));
            }
        }
    }
    assert(keys_unique(sa)) by {
        assert forall|i: int, j: int| 0 <= i < j < sa.len() implies !(#[trigger] sa[i].namespace
            == #[trigger] sa[j].namespace && sa[i].name == sa[j].name) by {
            if j == s.len() {
                assert(!has_key_at(s, i, a.namespace, a.name));
            }
        }
    }
    assert(keys_unique(sb)) by {
        assert forall|i: int, j: int| 0 <= i < j < sb.len() implies !(#[trigger] sb[i].namespace
            == #[trigger] sb[j].namespace && sb[i].name == sb[j].name) by {
            if j == sa.len() {
                assert(!has_key_at(sa, i, b.namespace, b.name));
                assert(sb[i] == sa[i]);
            } else {
                assert(sb[i] == sa[i] && sb[j] == sa[j]);
            }
        }
    }
    assert(sb[s.len() as int] == a);
    assert(sb[sa.len() as int] == b);
    assert(has_key_at(sb, s.len() as int, a.namespace, a.name));
    lemma_resolve_at(sb, s.len() as int, a.signature);
    lemma_resolve_at(sb, sa.len() as int, b.signature);
}

/// An append-only table of host functions with unique keys.
pub struct Registry {
    entries: Vec<HostEntry>,
}

impl View for Registry {
    type V = Seq<HostEntryModel>;

    closed spec fn view(&self) -> Seq<HostEntryModel> {
        self.entries@.map_values(|e: HostEntry| e@)
    }
}

impl Registry {
    pub open spec fn wf(&self) -> bool {
        keys_unique(self@)
    }

    pub fn new() -> (r: Registry)
        ensures
            r.wf(),
            r@ == Seq::<HostEntryModel>::empty(),
    {
        let r = Registry { entries: Vec::new() };
        assert(r@ =~= Seq::<HostEntryModel>::empty());
        r
    }

    pub fn len(&self) -> (r: usize)
        ensures
            r == self@.len(),
    {
        self.entries.len()
    }

    fn position(&self, namespace: &String, name: &String) -> (r: Option<usize>)
        ensures
            r matches Some(i) ==> has_key_at(self@, i as int, namespace@, name@),
            r is None ==> !contains_key(self@, namespace@, name@),
    {
        let mut i: usize = 0;
        while i < self.entries.len()
            invariant
                i <= self.entries@.len(),
                forall|k: int| 0 <= k < i ==> !has_key_at(self@, k, namespace@, name@),
            decreases self.entries@.len() - i,
        {
            if self.entries[i].namespace == *namespace && self.entries[i].name == *name {
                return Some(i);
            }
            i = i + 1;
        }
        None
    }

    /// Adds `namespace.name`; fails, leaving the table as it was, when that key
    /// is already taken.
    pub fn register(&mut self, namespace: String, name: String, signature: Signature, function: u32) -> (r:
        Result<(), RegistryError>)
        requires
            old(self).wf(),
        ensures
            final(self).wf(),
            r is Err <==> contains_key(old(self)@, namespace@, name@),
            r is Err ==> r == Err::<(), RegistryError>(RegistryError::DuplicateImport) && *final(self) == *old(self),
            r is Ok ==> final(self)@ == old(self)@.push(
                HostEntryModel {
                    namespace: namespace@,
                    name: name@,
                    signature: signature@,
                    function,
                },
            ),
    {
        if self.position(&namespace, &name).is_some() {
            return Err(RegistryError::DuplicateImport);
        }
        let e = HostEntry { namespace, name, signature, function };
        self.entries.push(e);
        assert(self@ =~= old(self)@.push(e@));
        assert forall|i: int, j: int| 0 <= i < j < self@.len() implies !(#[trigger] self@[i].namespace
            == #[trigger] self@[j].namespace && self@[i].name == self@[j].name) by {
            if j == old(self)@.len() {
                assert(!has_key_at(old(self)@, i, e@.namespace, e@.name));
            } else {
                assert(old(self)@[i] == self@[i] && old(self)@[j] == self@[j]);
            }
        }
        Ok(())
    }

    /// Looks up `namespace.name` for an import declared with signature `sig`.
    pub fn resolve(&self, namespace: &String, name: &String, sig: &Signature) -> (r: Result<u32, RegistryError>)
        requires
            self.wf(),
        ensures
            r == resolve_spec(self@, namespace@, name@, sig@),
    {
        match self.position(namespace, name) {
            None => Err(RegistryError::Unresolved),
            Some(i) => {
                proof {
                    let j = choose|j: int| has_key_at(self@, j, namespace@, name@);
                    assert(j == i as int);
                }
                if self.entries[i].signature.matches(sig) {
                    Ok(self.entries[i].function)
                } else {
                    Err(RegistryError::SignatureMismatch)
                }
            },
        }
    }
}

} // verus!
