use vstd::prelude::*;

verus! {

/// A block of `size` bytes handed out by the arena, starting at byte `offset`.
#[derive(Clone, Copy, Debug, PartialEq, Eq, Structural)]
pub struct Region {
    pub offset: usize,
    pub size: usize,
}

impl Region {
    /// One past the last byte of the region.
    pub open spec fn end(self) -> int {
        self.offset + self.size
    }
}

/// Two regions share no byte.
pub open spec fn disjoint(a: Region, b: Region) -> bool {
    a.end() <= b.offset || b.end() <= a.offset
}

/// The least multiple of `align` that is at least `n`.
pub open spec fn align_up(n: int, align: int) -> int
    recommends
        align > 0,
{
    if n % align == 0 {
        n
    } else {
        n + (align - n % align)
    }
}

/// Whether a request of `size` bytes at alignment `align` fits in an arena of
/// `capacity` bytes of which the first `used` are taken.
pub open spec fn fits(used: int, capacity: int, size: int, align: int) -> bool {
    align_up(used, align) + size <= capacity
}

/// Total size of the first `k` requests.
pub open spec fn prefix_sum(sizes: Seq<usize>, k: int) -> int
    decreases k,
{
    if k <= 0 || k > sizes.len() {
        0
    } else {
        prefix_sum(sizes, k - 1) + sizes[k - 1]
    }
}

proof fn lemma_prefix_sum_grows(sizes: Seq<usize>, i: int, j: int)
    requires
        0 <= i <= j <= sizes.len(),
    ensures
        prefix_sum(sizes, i) <= prefix_sum(sizes, j),
    decreases j - i,
{
    if i < j {
        lemma_prefix_sum_grows(sizes, i, j - 1);
    }
}

/// Requests at alignment one whose sizes add up to at most the capacity all
/// succeed on a fresh arena: each fits where the previous one ended, and the
/// regions they receive never overlap.
pub proof fn lemma_requests_within_capacity_fit(capacity: nat, sizes: Seq<usize>)
    requires
        prefix_sum(sizes, sizes.len() as int) <= capacity,
    ensures
        forall|k: int|
            0 <= k < sizes.len() ==> {
                &&& align_up(prefix_sum(sizes, k), 1) == prefix_sum(sizes, k)
                &&& #[trigger] fits(prefix_sum(sizes, k), capacity as int, sizes[k] as int, 1)
            },
        forall|i: int, j: int|
            0 <= i < j < sizes.len() ==> #[trigger] prefix_sum(sizes, i) + sizes[i] <= #[trigger] prefix_sum(
                sizes,
                j,
            ),
{
    assert forall|k: int| 0 <= k < sizes.len() implies {
        &&& align_up(prefix_sum(sizes, k), 1) == prefix_sum(sizes, k)
        &&& #[trigger] fits(prefix_sum(sizes, k), capacity as int, sizes[k] as int, 1)
    } by {
        lemma_prefix_sum_grows(sizes, k + 1, sizes.len() as int);
    }
    assert forall|i: int, j: int| 0 <= i < j < sizes.len() implies #[trigger] prefix_sum(sizes, i)
        + sizes[i] <= #[trigger] prefix_sum(sizes, j) by {
        lemma_prefix_sum_grows(sizes, i + 1, j);
    }
}

/// A single request larger than the whole capacity never fits, whatever is
/// already claimed and whatever the alignment; `Arena::allocate` then leaves
/// the arena unchanged.
pub proof fn lemma_oversized_request_fails(used: nat, capacity: nat, size: nat, align: nat)
    requires
        align > 0,
        size > capacity,
    ensures
        !fits(used as int, capacity as int, size as int, align as int),
{
}

#[derive(Clone, Copy, Debug, PartialEq, Eq, Structural)]
pub enum ArenaError {
    OutOfArena,
}

/// A fixed-capacity, monotonic byte arena: regions are handed out in increasing
/// order of address and never given back.
pub struct Arena {
    bytes: Vec<u8>,
    used: usize,
    handed: Ghost<Seq<Region>>,
}

impl Arena {
    pub closed spec fn capacity(&self) -> nat {
        self.bytes@.len()
    }

    /// Bytes claimed so far, padding included.
    pub closed spec fn used(&self) -> nat {
        self.used as nat
    }

    /// Every region handed out, in the order of the requests.
    pub closed spec fn handed(&self) -> Seq<Region> {
        self.handed@
    }

    /// What the arena's bytes hold.
    pub closed spec fn contents(&self) -> Seq<u8> {
        self.bytes@
    }

    /// The regions lie below the claimed mark, in increasing order, and so never overlap.
    pub open spec fn wf(&self) -> bool {
        &&& self.used() <= self.capacity() <= usize::MAX
        &&& self.contents().len() == self.capacity()
        &&& forall|i: int| 0 <= i < self.handed().len() ==> #[trigger] self.handed()[i].end() <= self.used()
        &&& forall|i: int, j: int|
            0 <= i < j < self.handed().len() ==> #[trigger] self.handed()[i].end() <= #[trigger] self.handed()[j].offset
    }

    /// An arena of `capacity` zeroed bytes with nothing handed out.
    pub fn initialize(capacity: usize) -> (r: Arena)
        ensures
            r.wf(),
            r.capacity() == capacity,
            r.used() == 0,
            r.handed() == Seq::<Region>::empty(),
            r.contents() == Seq::new(capacity as nat, |i: int| 0u8),
    {
        let mut bytes: Vec<u8> = Vec::new();
        let mut i: usize = 0;
        while i < capacity
            invariant
                i <= capacity,
                bytes@ == Seq::new(i as nat, |k: int| 0u8),
            decreases capacity - i,
        {
            bytes.push(0u8);
            i = i + 1;
        }
        Arena { bytes, used: 0, handed: Ghost(Seq::empty()) }
    }

    pub fn capacity_bytes(&self) -> (r: usize)
        ensures
            r == self.capacity(),
    {
        self.bytes.len()
    }

    pub fn used_bytes(&self) -> (r: usize)
        ensures
            r == self.used(),
    {
        self.used
    }

    /// Claims `size` bytes at the next multiple of `align`. Fails, leaving the
    /// arena as it was, when the request would pass the capacity.
    pub fn allocate(&mut self, size: usize, align: usize) -> (r: Result<Region, ArenaError>)
        requires
            old(self).wf(),
            align > 0,
        ensures
            final(self).wf(),
            final(self).capacity() == old(self).capacity(),
            final(self).contents() == old(self).contents(),
            r is Ok <==> fits(old(self).used() as int, old(self).capacity() as int, size as int, align as int),
            r is Err ==> r == Err::<Region, ArenaError>(ArenaError::OutOfArena) && *final(self) == *old(self),
            r matches Ok(g) ==> {
                &&& g.offset == align_up(old(self).used() as int, align as int)
                &&& g.size == size
                &&& (g.offset as int) % (align as int) == 0
                &&& final(self).used() == g.end()
                &&& final(self).handed() == old(self).handed().push(g)
            },
    {
        let rem = self.used % align;
        let pad: usize = if rem == 0 { 0 } else { align - rem };
        let cap = self.bytes.len();
        if pad > cap - self.used {
            return Err(ArenaError::OutOfArena);
        }
        let offset = self.used + pad;
        if size > cap - offset {
            return Err(ArenaError::OutOfArena);
        }
        proof {
            let q = self.used as int / align as int;
            vstd::arithmetic::div_mod::lemma_fundamental_div_mod(self.used as int, align as int);
            if rem != 0 {
                assert(offset as int == (q + 1) * align as int) by (nonlinear_arith)
                    requires
                        self.used as int == align as int * q + rem as int,
                        offset as int == self.used as int + (align as int - rem as int),
                ;
                vstd::arithmetic::div_mod::lemma_mod_multiples_basic(q + 1, align as int);
            }
        }
        let g = Region { offset, size };
        self.used = offset + size;
        let ghost prev = self.handed@;
        self.handed = Ghost(self.handed@.push(g));
        assert(forall|i: int| 0 <= i < prev.len() ==> #[trigger] old(self).handed()[i].end() <= g.offset);
        assert(forall|i: int| 0 <= i < prev.len() ==> self.handed@[i] == prev[i]);
        Ok(g)
    }

    /// Copies `data` into the arena from byte `at` on.
    pub fn write_bytes(&mut self, at: usize, data: &Vec<u8>)
        requires
            at + data@.len() <= old(self).capacity(),
        ensures
            final(self).capacity() == old(self).capacity(),
            final(self).used() == old(self).used(),
            final(self).handed() == old(self).handed(),
            final(self).contents() == old(self).contents().subrange(0, at as int) + data@
                + old(self).contents().subrange(at + data@.len(), old(self).capacity() as int),
    {
        let n = self.bytes.len();
        let mut i: usize = 0;
        while i < data.len()
            invariant
                n == self.bytes@.len(),
                at + data@.len() <= self.bytes@.len(),
                i <= data@.len(),
                self.bytes@.len() == old(self).bytes@.len(),
                self.used == old(self).used,
                self.handed == old(self).handed,
                forall|k: int| 0 <= k < self.bytes@.len() ==> #[trigger] self.bytes@[k] == if at <= k < at + i {
                    data@[k - at]
                } else {
                    old(self).bytes@[k]
                },
            decreases data@.len() - i,
        {
            self.bytes.set(at + i, data[i]);
            i = i + 1;
        }
        assert(self.bytes@ =~= old(self).bytes@.subrange(0, at as int) + data@
            + old(self).bytes@.subrange(at + data@.len(), old(self).bytes@.len() as int));
    }

    /// The `len` bytes from byte `at` on.
    pub fn read_bytes(&self, at: usize, len: usize) -> (r: Vec<u8>)
        requires
            at + len <= self.capacity(),
        ensures
            r@ == self.contents().subrange(at as int, at + len),
    {
        let mut out: Vec<u8> = Vec::new();
        let n = self.bytes.len();
        let mut i: usize = 0;
        while i < len
            invariant
                n == self.bytes@.len(),
                at + len <= self.bytes@.len(),
                i <= len,
                out@ == self.bytes@.subrange(at as int, at + i),
            decreases len - i,
        {
            out.push(self.bytes[at + i]);
            i = i + 1;
            assert(out@ =~= self.bytes@.subrange(at as int, at + i));
        }
        out
    }
}

} // verus!
