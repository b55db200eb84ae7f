//! Per-CPU data areas: a region of memory split into one private area per
//! CPU, at a 64-byte-aligned stride from a global base. CPU 0's area is the
//! template; one-time initialization replicates its bytes into every other
//! CPU's area.
//!
//! The region's contents are held here as plain bytes, indexed by offset from
//! the global base, so that the address arithmetic and the replication are
//! stated and proved over them. A platform layer that places the region at a
//! fixed address (bare metal) or behind a heap allocation (hosted) works on
//! the same layout, with the same bounds.

use vstd::prelude::*;
use crate::layout::{align_up_64, spec_align_up_64, lemma_align_up_64_properties};
use vstd::arithmetic::div_mod::{
    lemma_basic_div, lemma_fundamental_div_mod, lemma_fundamental_div_mod_converse,
    lemma_mod_bound, lemma_small_mod,
};
use vstd::arithmetic::mul::{
    lemma_mul_by_zero_is_zero, lemma_mul_inequality, lemma_mul_is_commutative,
    lemma_mul_is_distributive_add_other_way, lemma_mul_nonnegative,
};

verus! {

/// Mathematical model of a per-CPU region: the global base address, the byte
/// length of one CPU's data image, the number of CPUs provisioned, the
/// one-time initialization flag, and the bytes of the whole region (offset
/// `k` models the byte at address `base + k`).
#[verifier::ext_equal]
pub struct AreaModel {
    pub base: int,
    pub area_size: int,
    pub max_cpu_num: int,
    pub initialized: bool,
    pub data: Seq<u8>,
}

impl AreaModel {
    /// Distance between the bases of consecutive CPU areas: the area size
    /// padded up to the 64-byte alignment.
    pub open spec fn stride(self) -> int {
        spec_align_up_64(self.area_size)
    }

    /// The region is well formed: at least one CPU, a size whose padded
    /// stride is still computable, one full stride of bytes per CPU, and
    /// every address of the region representable in a machine word.
    pub open spec fn wf(self) -> bool {
        &&& 0 <= self.base
        &&& 0 <= self.area_size
        &&& self.area_size + 63 <= usize::MAX
        &&& 1 <= self.max_cpu_num
        &&& self.data.len() == self.max_cpu_num * self.stride()
        &&& self.base + self.max_cpu_num * self.stride() <= usize::MAX
    }

    /// Base address of the area of CPU `cpu_id`.
    pub open spec fn area_base(self, cpu_id: int) -> int {
        self.base + cpu_id * self.stride()
    }

    /// The `area_size` bytes of the area of CPU `cpu_id`.
    pub open spec fn area_bytes(self, cpu_id: int) -> Seq<u8> {
        self.data.subrange(cpu_id * self.stride(), cpu_id * self.stride() + self.area_size)
    }
}

/// The region's bytes once the template area has been copied into the areas
/// of CPUs `1..upto`: a byte in the first `area_size` bytes of such an area
/// takes the template byte at the same offset within the area; every other
/// byte (the template itself, alignment padding, areas at `upto` and beyond)
/// is unchanged.
pub open spec fn replicate_upto(data: Seq<u8>, area_size: int, stride: int, upto: int) -> Seq<u8> {
    if stride <= 0 {
        data
    } else {
        Seq::new(
            data.len(),
            |k: int|
                if 1 <= k / stride < upto && k % stride < area_size {
                    data[k % stride]
                } else {
                    data[k]
                },
        )
    }
}

/// State transition of one-time initialization: a region already initialized
/// is left exactly as it is; otherwise the flag is set and the template area
/// of CPU 0 is replicated into the areas of all other CPUs.
pub open spec fn spec_init(m: AreaModel) -> AreaModel {
    if m.initialized {
        m
    } else {
        AreaModel {
            initialized: true,
            data: replicate_upto(m.data, m.area_size, m.stride(), m.max_cpu_num),
            ..m
        }
    }
}

/// Every CPU's area lies between the global base and the end of the region,
/// so each area's addresses fit in a machine word.
pub proof fn lemma_area_base_in_range(m: AreaModel, cpu_id: int)
    requires
        m.wf(),
        0 <= cpu_id < m.max_cpu_num,
    ensures
        m.base <= m.area_base(cpu_id),
        m.area_base(cpu_id) + m.area_size <= m.area_base(cpu_id) + m.stride(),
        m.area_base(cpu_id) + m.stride() <= m.base + m.data.len(),
        m.area_base(cpu_id) + m.area_size <= usize::MAX,
{
    lemma_align_up_64_properties(m.area_size);
    lemma_mul_nonnegative(cpu_id, m.stride());
    lemma_mul_inequality(cpu_id + 1, m.max_cpu_num, m.stride());
    lemma_mul_is_distributive_add_other_way(m.stride(), cpu_id, 1);
}

/// Distinct CPUs get distinct area bases, and their areas of `area_size`
/// bytes do not overlap. (A region whose image is empty has every base equal;
/// the claim asks for a non-empty image.)
pub proof fn lemma_areas_disjoint(m: AreaModel, cpu_id1: int, cpu_id2: int)
    requires
        m.wf(),
        m.area_size > 0,
        0 <= cpu_id1 < m.max_cpu_num,
        0 <= cpu_id2 < m.max_cpu_num,
        cpu_id1 != cpu_id2,
    ensures
        m.area_base(cpu_id1) != m.area_base(cpu_id2),
        m.area_base(cpu_id1) + m.area_size <= m.area_base(cpu_id2)
            || m.area_base(cpu_id2) + m.area_size <= m.area_base(cpu_id1),
{
    lemma_align_up_64_properties(m.area_size);
    if cpu_id1 < cpu_id2 {
        lemma_mul_inequality(cpu_id1 + 1, cpu_id2, m.stride());
        lemma_mul_is_distributive_add_other_way(m.stride(), cpu_id1, 1);
    } else {
        lemma_mul_inequality(cpu_id2 + 1, cpu_id1, m.stride());
        lemma_mul_is_distributive_add_other_way(m.stride(), cpu_id2, 1);
    }
}

/// Replication fidelity: after initializing a region that was not yet
/// initialized, every secondary CPU's area holds exactly the bytes the
/// template area held before, and the template area itself is unchanged.
pub proof fn lemma_replication_fidelity(m: AreaModel, cpu_id: int)
    requires
        m.wf(),
        !m.initialized,
        1 <= cpu_id < m.max_cpu_num,
    ensures
        spec_init(m).area_bytes(cpu_id) == m.area_bytes(0),
        spec_init(m).area_bytes(0) == m.area_bytes(0),
{
    let stride = m.stride();
    let size = m.area_size;
    lemma_align_up_64_properties(size);
    lemma_area_base_in_range(m, cpu_id);
    if stride > 0 {
        assert forall|t: int| 0 <= t < size implies spec_init(m).data[cpu_id * stride + t]
            == m.data[t] by {
            lemma_mul_nonnegative(cpu_id, stride);
            lemma_fundamental_div_mod_converse(cpu_id * stride + t, stride, cpu_id, t);
        }
        assert forall|t: int| 0 <= t < size implies spec_init(m).data[t] == m.data[t] by {
            lemma_basic_div(t, stride);
        }
    }
    assert(spec_init(m).area_bytes(cpu_id) =~= m.area_bytes(0));
    assert(spec_init(m).area_bytes(0) =~= m.area_bytes(0));
}

/// Initializing a region that is already initialized changes nothing: not
/// the flag, not one byte of any area.
pub proof fn lemma_reinit_noop(m: AreaModel)
    requires
        m.initialized,
    ensures
        spec_init(m) == m,
{
}

/// Initialization is idempotent: a second initialization, from any state,
/// leaves the region exactly as the first left it.
pub proof fn lemma_init_idempotent(m: AreaModel)
    ensures
        spec_init(spec_init(m)) == spec_init(m),
{
    lemma_reinit_noop(spec_init(m));
}

/// Initialization preserves well-formedness and the layout fields; only the
/// flag and the secondary areas' bytes change.
pub proof fn lemma_init_preserves_wf(m: AreaModel)
    requires
        m.wf(),
    ensures
        spec_init(m).wf(),
        spec_init(m).base == m.base,
        spec_init(m).area_size == m.area_size,
        spec_init(m).max_cpu_num == m.max_cpu_num,
        spec_init(m).initialized,
        spec_init(m).data.len() == m.data.len(),
{
}

/// A per-CPU region: layout parameters, the one-time initialization flag,
/// and the bytes of the whole region, held in the order they sit in memory.
pub struct PerCpuArea {
    base: usize,
    area_size: usize,
    max_cpu_num: usize,
    initialized: bool,
    data: Vec<u8>,
}

impl View for PerCpuArea {
    type V = AreaModel;

    closed spec fn view(&self) -> AreaModel {
        AreaModel {
            base: self.base as int,
            area_size: self.area_size as int,
            max_cpu_num: self.max_cpu_num as int,
            initialized: self.initialized,
            data: self.data@,
        }
    }
}

/// The layout parameters a region can be built from: at least one CPU, a
/// size whose padded stride is computable, bytes for one full stride per
/// CPU, and a region end that fits in a machine word.
pub open spec fn valid_layout(base: int, area_size: int, max_cpu_num: int, data_len: int) -> bool {
    &&& area_size + 63 <= usize::MAX
    &&& 1 <= max_cpu_num
    &&& data_len == max_cpu_num * spec_align_up_64(area_size)
    &&& base + data_len <= usize::MAX
}

impl PerCpuArea {
    /// Builds a region over an existing image, as a platform loader places
    /// one at a fixed base address: `data` holds the region's bytes, with
    /// the template for CPU 0 in its first `area_size` bytes. Returns the
    /// region exactly when the layout is consistent; a region that is too
    /// small for `max_cpu_num` CPUs, or that would run past the end of the
    /// address space, is refused.
    pub fn new(base: usize, area_size: usize, max_cpu_num: usize, data: Vec<u8>) -> (r: Option<
        PerCpuArea,
    >)
        ensures
            match r {
                Some(a) => {
                    &&& valid_layout(base as int, area_size as int, max_cpu_num as int, data@.len() as int)
                    &&& a@ == (AreaModel {
                        base: base as int,
                        area_size: area_size as int,
                        max_cpu_num: max_cpu_num as int,
                        initialized: false,
                        data: data@,
                    })
                    &&& a@.wf()
                },
                None => !valid_layout(base as int, area_size as int, max_cpu_num as int, data@.len() as int),
            },
    {
        if max_cpu_num == 0 {
            return None;
        }
        if area_size > usize::MAX - 63 {
            return None;
        }
        let stride = align_up_64(area_size);
        let total = match max_cpu_num.checked_mul(stride) {
            Some(t) => t,
            None => {
                return None;
            },
        };
        if data.len() != total {
            return None;
        }
        if base > usize::MAX - total {
            return None;
        }
        Some(PerCpuArea { base, area_size, max_cpu_num, initialized: false, data })
    }

    /// Builds a fresh region of zeroed bytes, as the hosted variant's
    /// one-time arena allocation provides one: `base` is the address the
    /// platform layer obtained for it. Returns the region exactly when the
    /// layout is consistent.
    pub fn new_zeroed(base: usize, area_size: usize, max_cpu_num: usize) -> (r: Option<PerCpuArea>)
        ensures
            match r {
                Some(a) => {
                    &&& a@ == (AreaModel {
                        base: base as int,
                        area_size: area_size as int,
                        max_cpu_num: max_cpu_num as int,
                        initialized: false,
                        data: Seq::new((max_cpu_num * spec_align_up_64(area_size as int)) as nat, |k: int| 0u8),
                    })
                    &&& a@.wf()
                },
                None => !(exists|len: int|
                    valid_layout(base as int, area_size as int, max_cpu_num as int, len)),
            },
    {
        if max_cpu_num == 0 || area_size > usize::MAX - 63 {
            proof {
                lemma_no_valid_layout_without_cpu(base as int, area_size as int, max_cpu_num as int);
            }
            return None;
        }
        let stride = align_up_64(area_size);
        let total = match max_cpu_num.checked_mul(stride) {
            Some(t) => t,
            None => {
                return None;
            },
        };
        if base > usize::MAX - total {
            return None;
        }
        let data = vec![0u8; total];
        proof {
            assert(data@ =~= Seq::new(
                (max_cpu_num * spec_align_up_64(area_size as int)) as nat,
                |k: int| 0u8,
            ));
        }
        Some(PerCpuArea { base, area_size, max_cpu_num, initialized: false, data })
    }

    /// Byte length of one CPU's data image.
    pub fn percpu_area_size(&self) -> (r: usize)
        ensures
            r == self@.area_size,
    {
        self.area_size
    }

    /// Number of CPUs the region is provisioned for.
    pub fn max_cpu_num(&self) -> (r: usize)
        ensures
            r == self@.max_cpu_num,
    {
        self.max_cpu_num
    }

    /// Whether one-time initialization has already run.
    pub fn is_initialized(&self) -> (r: bool)
        ensures
            r == self@.initialized,
    {
        self.initialized
    }

    /// Base address of the per-CPU data area of CPU `cpu_id`: the global
    /// base plus `cpu_id` strides. For `cpu_id` 0 this is the base of the
    /// whole region.
    pub fn percpu_area_base(&self, cpu_id: usize) -> (r: usize)
        requires
            self@.wf(),
            cpu_id < self@.max_cpu_num,
        ensures
            r == self@.area_base(cpu_id as int),
            cpu_id == 0 ==> r == self@.base,
    {
        proof {
            lemma_area_base_in_range(self@, cpu_id as int);
            lemma_align_up_64_properties(self@.area_size);
            lemma_mul_nonnegative(cpu_id as int, self@.stride());
            lemma_mul_by_zero_is_zero(self@.stride());
        }
        let stride = align_up_64(self.area_size);
        self.base + cpu_id * stride
    }

    /// The byte at offset `offset` within the area of CPU `cpu_id`.
    pub fn byte_at(&self, cpu_id: usize, offset: usize) -> (r: u8)
        requires
            self@.wf(),
            cpu_id < self@.max_cpu_num,
            offset < self@.area_size,
        ensures
            r == self@.area_bytes(cpu_id as int)[offset as int],
    {
        proof {
            lemma_area_base_in_range(self@, cpu_id as int);
            lemma_align_up_64_properties(self@.area_size);
            lemma_mul_nonnegative(cpu_id as int, self@.stride());
        }
        let stride = align_up_64(self.area_size);
        self.data[cpu_id * stride + offset]
    }

    /// The byte at offset `k` from the global base, anywhere in the region:
    /// area bytes and alignment padding alike.
    pub fn region_byte(&self, k: usize) -> (r: u8)
        requires
            k < self@.data.len(),
        ensures
            r == self@.data[k as int],
    {
        self.data[k]
    }

    /// One-time initialization: on the first call, replicates the template
    /// bytes of CPU 0's area into the area of every CPU in `1..max_cpu_num`
    /// and sets the flag; any later call returns with the region unchanged.
    #[verifier::loop_isolation(false)]
    pub fn init(&mut self)
        requires
            old(self)@.wf(),
        ensures
            final(self)@ == spec_init(old(self)@),
            final(self)@.wf(),
    {
        proof {
            lemma_init_preserves_wf(old(self)@);
        }
        if self.initialized {
            return;
        }
        self.initialized = true;
        if self.area_size == 0 {
            proof {
                lemma_align_up_64_properties(0);
                assert(self@ =~= spec_init(old(self)@));
            }
            return;
        }
        let size = self.area_size;
        let stride = align_up_64(size);
        let max = self.max_cpu_num;
        let ghost d0 = old(self)@.data;
        let ghost gsize = size as int;
        let ghost gstride = stride as int;
        proof {
            assert(self.data@ =~= replicate_upto(d0, gsize, gstride, 1)) by {
                assert forall|k: int| 0 <= k < d0.len() implies replicate_upto(
                    d0,
                    gsize,
                    gstride,
                    1,
                )[k] == d0[k] by {
                    lemma_mod_bound(k, gstride);
                }
            }
        }
        let mut i: usize = 1;
        while i < max
            invariant
                1 <= i <= max,
                self.base == old(self).base,
                self.area_size == old(self).area_size,
                self.max_cpu_num == old(self).max_cpu_num,
                self.initialized,
                self.data@.len() == d0.len(),
                self.data@ == replicate_upto(d0, gsize, gstride, i as int),
            decreases max - i,
        {
            proof {
                lemma_mul_nonnegative(i as int, gstride);
                lemma_mul_inequality(i as int + 1, max as int, gstride);
                lemma_mul_is_distributive_add_other_way(gstride, i as int, 1);
                lemma_mul_inequality(1, i as int, gstride);
            }
            let off = i * stride;
            let ghost before = self.data@;
            let mut j: usize = 0;
            while j < size
                invariant
                    0 <= j <= size,
                    self.base == old(self).base,
                    self.area_size == old(self).area_size,
                    self.max_cpu_num == old(self).max_cpu_num,
                    self.initialized,
                    off == i as int * gstride,
                    gstride <= off,
                    off + gstride <= d0.len(),
                    self.data@.len() == d0.len(),
                    forall|k: int|
                        0 <= k < d0.len() && !(off <= k < off + j) ==> self.data@[k] == before[k],
                    forall|t: int| 0 <= t < j ==> self.data@[off + t] == d0[t],
                decreases size - j,
            {
                proof {
                    lemma_basic_div(j as int, gstride);
                    lemma_small_mod(j as nat, gstride as nat);
                    assert(before[j as int] == replicate_upto(d0, gsize, gstride, i as int)[j as int]);
                }
                let b = self.data[j];
                self.data.set(off + j, b);
                j += 1;
            }
            proof {
                let gi = i as int;
                assert forall|k: int| 0 <= k < d0.len() implies self.data@[k] == replicate_upto(
                    d0,
                    gsize,
                    gstride,
                    gi + 1,
                )[k] by {
                    lemma_fundamental_div_mod(k, gstride);
                    lemma_mod_bound(k, gstride);
                    lemma_mul_is_commutative(gstride, gi);
                    if off <= k < off + gsize {
                        lemma_fundamental_div_mod_converse(k, gstride, gi, k - off);
                        assert(self.data@[off + (k - off)] == d0[k - off]);
                    } else {
                        assert(self.data@[k] == before[k]);
                        assert(before[k] == replicate_upto(d0, gsize, gstride, gi)[k]);
                        if k / gstride == gi && k % gstride < gsize {
                            assert(k == gstride * gi + k % gstride);
                            assert(false);
                        }
                    }
                }
                assert(self.data@ =~= replicate_upto(d0, gsize, gstride, gi + 1));
            }
            i += 1;
        }
        proof {
            assert(self@ =~= spec_init(old(self)@));
        }
    }
}

/// A layout with no CPU, or with an image too large to pad, is not valid at
/// any region length.
proof fn lemma_no_valid_layout_without_cpu(base: int, area_size: int, max_cpu_num: int)
    requires
        max_cpu_num < 1 || area_size + 63 > usize::MAX,
    ensures
        forall|len: int| !valid_layout(base, area_size, max_cpu_num, len),
{
}

} // verus!
