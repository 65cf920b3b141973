use vstd::prelude::*;
use vstd::arithmetic::power2::{pow2, lemma_pow2_adds, lemma_pow2_strictly_increases, lemma2_to64};
use vstd::arithmetic::mul::lemma_mul_inequality;
use crate::bitbuf::{BitBuffer, bits_value, lemma_bits_value_all_false};
use crate::voxel::{BlockData, BlockModel, default_block_model};

verus! {

/// Largest volume, in cells, the packed index layout supports: with more
/// cells the palette could outgrow a 16-bit index.
pub const MAX_STORAGE_SIZE: usize = 65536;

/// How many entries of `s` equal `v`.
pub open spec fn count_cells(s: Seq<int>, v: int) -> int
    decreases s.len(),
{
    if s.len() == 0 {
        0
    } else {
        count_cells(s.drop_last(), v) + if s.last() == v {
            1int
        } else {
            0int
        }
    }
}

/// Total of `count_cells(s, q)` over `0 <= q < m`.
pub open spec fn count_below(s: Seq<int>, m: int) -> int
    decreases m,
{
    if m <= 0 {
        0
    } else {
        count_below(s, m - 1) + count_cells(s, m - 1)
    }
}

pub proof fn lemma_count_le_len(s: Seq<int>, v: int)
    ensures
        0 <= count_cells(s, v) <= s.len(),
    decreases s.len(),
{
    if s.len() > 0 {
        lemma_count_le_len(s.drop_last(), v);
    }
}

pub proof fn lemma_count_at(s: Seq<int>, v: int, i: int)
    requires
        0 <= i < s.len(),
        s[i] == v,
    ensures
        count_cells(s, v) >= 1,
    decreases s.len(),
{
    if i == s.len() - 1 {
        lemma_count_le_len(s.drop_last(), v);
    } else {
        lemma_count_at(s.drop_last(), v, i);
    }
}

pub proof fn lemma_count_all(s: Seq<int>, v: int)
    requires
        forall|i: int| 0 <= i < s.len() ==> s[i] == v,
    ensures
        count_cells(s, v) == s.len(),
    decreases s.len(),
{
    if s.len() > 0 {
        lemma_count_all(s.drop_last(), v);
    }
}

pub proof fn lemma_count_none(s: Seq<int>, v: int)
    requires
        forall|i: int| 0 <= i < s.len() ==> s[i] != v,
    ensures
        count_cells(s, v) == 0,
    decreases s.len(),
{
    if s.len() > 0 {
        lemma_count_none(s.drop_last(), v);
    }
}

/// A value that occurs nowhere has count zero; contrapositive: count zero
/// means no occurrence.
pub proof fn lemma_count_zero_no_occurrence(s: Seq<int>, v: int, i: int)
    requires
        count_cells(s, v) == 0,
        0 <= i < s.len(),
    ensures
        s[i] != v,
{
    if s[i] == v {
        lemma_count_at(s, v, i);
    }
}

pub proof fn lemma_count_two(s: Seq<int>, v: int, a: int, b: int)
    requires
        0 <= a < s.len(),
        0 <= b < s.len(),
        a != b,
        s[a] == v,
        s[b] == v,
    ensures
        count_cells(s, v) >= 2,
    decreases s.len(),
{
    let last = s.len() - 1;
    if a == last {
        lemma_count_at(s.drop_last(), v, b);
    } else if b == last {
        lemma_count_at(s.drop_last(), v, a);
    } else {
        lemma_count_two(s.drop_last(), v, a, b);
    }
}

pub proof fn lemma_count_update(s: Seq<int>, i: int, v: int, q: int)
    requires
        0 <= i < s.len(),
    ensures
        count_cells(s.update(i, v), q) == count_cells(s, q) - (if s[i] == q {
            1int
        } else {
            0int
        }) + (if v == q {
            1int
        } else {
            0int
        }),
    decreases s.len(),
{
    let t = s.update(i, v);
    if i == s.len() - 1 {
        assert(t.drop_last() =~= s.drop_last());
    } else {
        assert(t.drop_last() =~= s.drop_last().update(i, v));
        lemma_count_update(s.drop_last(), i, v, q);
        assert(t.last() == s.last());
    }
}

proof fn lemma_count_below_step(s: Seq<int>, m: int)
    requires
        s.len() > 0,
    ensures
        count_below(s, m) == count_below(s.drop_last(), m) + (if 0 <= s.last() < m {
            1int
        } else {
            0int
        }),
    decreases m,
{
    if m > 0 {
        lemma_count_below_step(s, m - 1);
    }
}

/// When every entry of `s` lies in `[0, m)`, the per-value counts add up to
/// the length of `s`.
pub proof fn lemma_total_count(s: Seq<int>, m: int)
    requires
        forall|i: int| 0 <= i < s.len() ==> 0 <= #[trigger] s[i] < m,
    ensures
        count_below(s, m) == s.len(),
    decreases s.len(),
{
    if s.len() == 0 {
        lemma_count_below_zero(s, m);
    } else {
        let t = s.drop_last();
        lemma_total_count(t, m);
        lemma_count_below_step(s, m);
    }
}

proof fn lemma_count_below_zero(s: Seq<int>, m: int)
    requires
        s.len() == 0,
    ensures
        count_below(s, m) == 0,
    decreases m,
{
    if m > 0 {
        lemma_count_below_zero(s, m - 1);
    }
}

proof fn lemma_count_below_ge_one(s: Seq<int>, m: int)
    requires
        forall|q: int| 0 <= q < m ==> count_cells(s, q) >= 1,
    ensures
        count_below(s, m) >= m,
    decreases m,
{
    if m > 0 {
        lemma_count_below_ge_one(s, m - 1);
    }
}

proof fn lemma_count_below_ge(s: Seq<int>, m: int, j: int)
    requires
        0 <= j < m,
        forall|q: int| 0 <= q < m ==> count_cells(s, q) >= 1,
        count_cells(s, j) >= 2,
    ensures
        count_below(s, m) >= m + 1,
    decreases m,
{
    if j == m - 1 {
        lemma_count_below_ge_one(s, m - 1);
    } else {
        lemma_count_below_ge(s, m - 1, j);
    }
}

/// One palette slot: a voxel value and the number of cells resolving to it.
struct PaletteEntry {
    voxel_type: BlockData,
    ref_count: usize,
}

spec fn sum_refs(p: Seq<PaletteEntry>) -> int
    decreases p.len(),
{
    if p.len() == 0 {
        0
    } else {
        sum_refs(p.drop_last()) + p.last().ref_count
    }
}

proof fn lemma_sum_matches_counts(p: Seq<PaletteEntry>, s: Seq<int>)
    requires
        forall|j: int| 0 <= j < p.len() ==> #[trigger] p[j].ref_count == count_cells(s, j),
    ensures
        sum_refs(p) == count_below(s, p.len() as int),
    decreases p.len(),
{
    if p.len() > 0 {
        let t = p.drop_last();
        assert(forall|j: int| 0 <= j < t.len() ==> t[j] == p[j]);
        lemma_sum_matches_counts(t, s);
    }
}

/// Compressed storage for a volume holding a single voxel value.
pub struct SingleStorage {
    size: usize,
    voxel: BlockData,
}

/// Palette-compressed storage: per-cell palette indices packed at
/// `indices_length` bits, and a palette with reference counts.
pub struct MultiStorage {
    size: usize,
    data: BitBuffer,
    palette: Vec<PaletteEntry>,
    palette_capacity: usize,
    indices_length: usize,
}

/// An index bit-width the storage can be in: it starts at 2 and doubles.
pub open spec fn il_ok(il: int) -> bool {
    il == 2 || il == 4 || il == 8 || il == 16
}

impl MultiStorage {
    pub closed spec fn spec_size(&self) -> int {
        self.size as int
    }

    pub closed spec fn spec_indices_length(&self) -> int {
        self.indices_length as int
    }

    pub closed spec fn spec_capacity(&self) -> int {
        self.palette_capacity as int
    }

    pub closed spec fn spec_palette_len(&self) -> int {
        self.palette@.len() as int
    }

    /// The palette index stored for cell `k`.
    pub closed spec fn cell_index(&self, k: int) -> int {
        bits_value(
            self.data@.subrange(k * self.spec_indices_length(), (k + 1) * self.spec_indices_length()),
        ) as int
    }

    /// All per-cell palette indices.
    pub closed spec fn cells(&self) -> Seq<int> {
        Seq::new(self.size as nat, |k: int| self.cell_index(k))
    }

    /// The sum of all palette reference counts.
    pub closed spec fn ref_sum(&self) -> int {
        sum_refs(self.palette@)
    }

    /// Structural well-formedness: sizes, widths and index ranges.
    closed spec fn wf_base(&self) -> bool {
        &&& self.data.wf()
        &&& 1 <= self.size <= MAX_STORAGE_SIZE
        &&& il_ok(self.indices_length as int)
        &&& self.palette_capacity == pow2(self.indices_length as nat)
        &&& self.data@.len() == self.size * self.indices_length
        &&& 1 <= self.palette@.len() <= self.palette_capacity
        &&& forall|k: int|
            0 <= k < self.size ==> 0 <= #[trigger] self.cell_index(k) < self.palette@.len()
    }

    /// Every reference count equals the number of cells resolving to its
    /// slot.
    closed spec fn wf_counts(&self) -> bool {
        forall|j: int|
            0 <= j < self.palette@.len() ==> #[trigger] self.palette@[j].ref_count == count_cells(
                self.cells(),
                j,
            )
    }

    /// The index width only ever grew under palette pressure, so it never
    /// overshoots what the palette needs.
    closed spec fn wf_stable(&self) -> bool {
        self.indices_length == 2 || pow2((self.indices_length / 2) as nat) < self.palette@.len()
    }

    pub closed spec fn wf(&self) -> bool {
        self.wf_base() && self.wf_counts() && self.wf_stable()
    }

    /// What each cell holds.
    pub closed spec fn view_seq(&self) -> Seq<BlockModel> {
        Seq::new(self.size as nat, |k: int| self.palette@[self.cell_index(k)].voxel_type@)
    }

    /// Reference counts conserve the volume: they always sum to the number
    /// of cells.
    pub proof fn lemma_refcount_conservation(&self)
        requires
            self.wf(),
        ensures
            self.ref_sum() == self.spec_size(),
    {
        lemma_sum_matches_counts(self.palette@, self.cells());
        lemma_total_count(self.cells(), self.palette@.len() as int);
        assert(count_below(self.cells(), self.spec_palette_len()) == self.cells().len());
    }

    /// The index width is stable: it only ever grew because the palette had
    /// outgrown the previous width, so no narrower power-of-two width would
    /// hold the palette.
    pub proof fn lemma_growth_stable(&self)
        requires
            self.wf(),
        ensures
            self.spec_capacity() == pow2(self.spec_indices_length() as nat),
            self.spec_palette_len() <= self.spec_capacity(),
            il_ok(self.spec_indices_length()),
            self.spec_indices_length() == 2 || pow2((self.spec_indices_length() / 2) as nat)
                < self.spec_palette_len(),
            forall|l: int|
                il_ok(l) && l < self.spec_indices_length() ==> pow2(l as nat)
                    < self.spec_palette_len(),
    {
        assert forall|l: int|
            il_ok(l) && l < self.spec_indices_length() implies pow2(l as nat)
            < self.spec_palette_len() by {
            assert(self.spec_indices_length() != 2);
            assert(l <= self.spec_indices_length() / 2);
            if l < self.spec_indices_length() / 2 {
                lemma_pow2_strictly_increases(l as nat, (self.spec_indices_length() / 2) as nat);
            }
        }
    }
}

/// Replace the reference count of entry `j`, keeping its voxel.
fn palette_set_ref(palette: &mut Vec<PaletteEntry>, j: usize, rc: usize)
    requires
        j < old(palette)@.len(),
    ensures
        final(palette)@.len() == old(palette)@.len(),
        forall|q: int|
            0 <= q < old(palette)@.len() && q != j ==> final(palette)@[q] == old(palette)@[q],
        final(palette)@[j as int].voxel_type@ == old(palette)@[j as int].voxel_type@,
        final(palette)@[j as int].ref_count == rc,
{
    let voxel_type = palette[j].voxel_type.clone();
    palette.set(j, PaletteEntry { voxel_type, ref_count: rc });
}

/// Replace entry `j` wholesale.
fn palette_overwrite(palette: &mut Vec<PaletteEntry>, j: usize, voxel: BlockData, rc: usize)
    requires
        j < old(palette)@.len(),
    ensures
        final(palette)@.len() == old(palette)@.len(),
        forall|q: int|
            0 <= q < old(palette)@.len() && q != j ==> final(palette)@[q] == old(palette)@[q],
        final(palette)@[j as int].voxel_type@ == voxel@,
        final(palette)@[j as int].ref_count == rc,
{
    palette.set(j, PaletteEntry { voxel_type: voxel, ref_count: rc });
}

/// First palette entry holding `voxel`, if any.
fn palette_find_voxel(palette: &Vec<PaletteEntry>, voxel: &BlockData) -> (r: Option<usize>)
    ensures
        match r {
            Some(j) => j < palette@.len() && palette@[j as int].voxel_type@ == voxel@,
            None => forall|q: int|
                0 <= q < palette@.len() ==> #[trigger] palette@[q].voxel_type@ != voxel@,
        },
{
    let n = palette.len();
    let mut i: usize = 0;
    while i < n
        invariant
            n == palette@.len(),
            i <= n,
            forall|q: int| 0 <= q < i ==> #[trigger] palette@[q].voxel_type@ != voxel@,
        decreases n - i,
    {
        let e = &palette[i];
        if e.voxel_type == *voxel {
            return Some(i);
        }
        i = i + 1;
    }
    None
}

/// First palette entry with no referring cells, if any.
fn palette_find_free(palette: &Vec<PaletteEntry>) -> (r: Option<usize>)
    ensures
        match r {
            Some(j) => j < palette@.len() && palette@[j as int].ref_count == 0,
            None => forall|q: int| 0 <= q < palette@.len() ==> #[trigger] palette@[q].ref_count != 0,
        },
{
    let n = palette.len();
    let mut i: usize = 0;
    while i < n
        invariant
            n == palette@.len(),
            i <= n,
            forall|q: int| 0 <= q < i ==> #[trigger] palette@[q].ref_count != 0,
        decreases n - i,
    {
        let e = &palette[i];
        if e.ref_count == 0 {
            return Some(i);
        }
        i = i + 1;
    }
    None
}

impl MultiStorage {
    /// Palette storage whose every cell holds `initial_voxel`, as a
    /// one-entry palette at the narrowest index width.
    fn new(size: usize, initial_voxel: BlockData) -> (r: MultiStorage)
        requires
            1 <= size <= MAX_STORAGE_SIZE,
        ensures
            r.wf(),
            r.spec_size() == size,
            r.spec_palette_len() == 1,
            r.spec_indices_length() == 2,
            forall|k: int| 0 <= k < size ==> r.view_seq()[k] == initial_voxel@,
    {
        let indices_length: usize = 2;
        let initial_capacity: usize = 4;
        let mut palette: Vec<PaletteEntry> = Vec::new();
        palette.push(PaletteEntry { voxel_type: initial_voxel, ref_count: size });
        let data = BitBuffer::new(size * indices_length);
        let r = MultiStorage {
            size,
            data,
            palette,
            palette_capacity: initial_capacity,
            indices_length,
        };
        proof {
            lemma2_to64();
            assert forall|k: int| 0 <= k < size implies r.cell_index(k) == 0 by {
                let sub = r.data@.subrange(k * 2, (k + 1) * 2);
                assert(forall|t: int| 0 <= t < sub.len() ==> sub[t] == r.data@[k * 2 + t]);
                lemma_bits_value_all_false(sub);
            }
            assert(forall|k: int| 0 <= k < r.cells().len() ==> #[trigger] r.cells()[k] == 0);
            lemma_count_all(r.cells(), 0);
            assert(r.palette@[0].ref_count == count_cells(r.cells(), 0));
        }
        r
    }
}

/// Adaptive voxel storage: a single shared value, or a palette-compressed
/// volume.
pub enum Storage {
    Single(SingleStorage),
    Multi(MultiStorage),
}

impl View for Storage {
    type V = Seq<BlockModel>;

    closed spec fn view(&self) -> Seq<BlockModel> {
        match self {
            Storage::Single(s) => Seq::new(s.size as nat, |k: int| s.voxel@),
            Storage::Multi(m) => m.view_seq(),
        }
    }
}

impl Storage {
    pub closed spec fn spec_len(&self) -> int {
        match self {
            Storage::Single(s) => s.size as int,
            Storage::Multi(m) => m.spec_size(),
        }
    }

    pub closed spec fn wf(&self) -> bool {
        &&& self@.len() == self.spec_len()
        &&& match self {
            Storage::Single(s) => 1 <= s.size <= MAX_STORAGE_SIZE,
            Storage::Multi(m) => m.wf(),
        }
    }

    pub open spec fn is_uniform(&self) -> bool {
        self is Single
    }

    /// Total of the palette's reference counts; single storage counts its
    /// one value once per cell.
    pub closed spec fn palette_ref_sum(&self) -> int {
        match self {
            Storage::Single(s) => s.size as int,
            Storage::Multi(m) => m.ref_sum(),
        }
    }

    /// Reference counts conserve the volume: they always sum to the number
    /// of cells.
    pub proof fn lemma_refcount_conservation(&self)
        requires
            self.wf(),
        ensures
            self.palette_ref_sum() == self.spec_len(),
    {
        match self {
            Storage::Single(_) => {},
            Storage::Multi(m) => {
                m.lemma_refcount_conservation();
            },
        }
    }

    /// Number of palette slots; single storage counts as one slot.
    pub closed spec fn spec_palette_len(&self) -> int {
        match self {
            Storage::Single(_) => 1,
            Storage::Multi(m) => m.spec_palette_len(),
        }
    }

    /// Bit width of the packed indices; single storage stores none.
    pub closed spec fn spec_indices_length(&self) -> int {
        match self {
            Storage::Single(_) => 0,
            Storage::Multi(m) => m.spec_indices_length(),
        }
    }

    /// Palette capacity at the current index width.
    pub closed spec fn spec_capacity(&self) -> int {
        match self {
            Storage::Single(_) => 0,
            Storage::Multi(m) => m.spec_capacity(),
        }
    }

    pub fn palette_len(&self) -> (r: usize)
        ensures
            r == self.spec_palette_len(),
    {
        match self {
            Storage::Single(_) => 1,
            Storage::Multi(m) => m.palette.len(),
        }
    }

    pub fn indices_length(&self) -> (r: usize)
        ensures
            r == self.spec_indices_length(),
    {
        match self {
            Storage::Single(_) => 0,
            Storage::Multi(m) => m.indices_length,
        }
    }

    pub fn palette_capacity(&self) -> (r: usize)
        ensures
            r == self.spec_capacity(),
    {
        match self {
            Storage::Single(_) => 0,
            Storage::Multi(m) => m.palette_capacity,
        }
    }

    /// The observable volume always matches the declared length.
    pub proof fn lemma_view_len(&self)
        requires
            self.wf(),
        ensures
            self@.len() == self.spec_len(),
    {
    }

    /// The growth law, at the storage level: the palette capacity is
    /// exactly two to the index width, the palette fits in it, the width is
    /// one of the doubling chain, and no narrower width of that chain would
    /// hold the palette.
    pub proof fn lemma_growth_stable(&self)
        requires
            self.wf(),
            !self.is_uniform(),
        ensures
            self.spec_capacity() == pow2(self.spec_indices_length() as nat),
            self.spec_palette_len() <= self.spec_capacity(),
            il_ok(self.spec_indices_length()),
            forall|l: int|
                il_ok(l) && l < self.spec_indices_length() ==> pow2(l as nat)
                    < self.spec_palette_len(),
    {
        match self {
            Storage::Single(_) => {},
            Storage::Multi(m) => {
                m.lemma_growth_stable();
            },
        }
    }

    /// The sum of all palette reference counts, computed.
    pub fn ref_count_total(&self) -> (r: usize)
        requires
            self.wf(),
        ensures
            r == self.palette_ref_sum(),
            r == self.spec_len(),
    {
        proof {
            self.lemma_refcount_conservation();
        }
        match self {
            Storage::Single(s) => s.size,
            Storage::Multi(m) => {
                let n = m.palette.len();
                let mut acc: u64 = 0;
                let mut i: usize = 0;
                proof {
                    assert(m.palette@.take(0) =~= Seq::<PaletteEntry>::empty());
                    lemma2_to64();
                    assert(n <= 65536);
                }
                while i < n
                    invariant
                        m.wf(),
                        n == m.palette@.len(),
                        n <= 65536,
                        i <= n,
                        acc as int == sum_refs(m.palette@.take(i as int)),
                        acc <= i * 65536,
                    decreases n - i,
                {
                    let e = &m.palette[i];
                    proof {
                        lemma_count_le_len(m.cells(), i as int);
                        assert(m.palette@[i as int].ref_count == count_cells(m.cells(), i as int));
                        assert(e.ref_count <= 65536);
                        assert(m.palette@.take(i as int + 1).drop_last() =~= m.palette@.take(
                            i as int,
                        ));
                        assert(m.palette@.take(i as int + 1).last() == m.palette@[i as int]);
                        assert((i + 1) * 65536 == i * 65536 + 65536) by (nonlinear_arith);
                        assert(i * 65536 <= 65536 * 65536) by (nonlinear_arith)
                            requires
                                0 <= i <= 65536,
                        ;
                    }
                    acc = acc + e.ref_count as u64;
                    i = i + 1;
                }
                proof {
                    assert(m.palette@.take(n as int) =~= m.palette@);
                    m.lemma_refcount_conservation();
                }
                acc as usize
            },
        }
    }

    /// Fresh storage: every cell holds the default voxel.
    pub fn new(size: usize) -> (r: Storage)
        requires
            1 <= size <= MAX_STORAGE_SIZE,
        ensures
            r.wf(),
            r.spec_len() == size,
            r@.len() == size,
            r.is_uniform(),
            forall|k: int| 0 <= k < size ==> r@[k] == default_block_model(),
    {
        Storage::Single(SingleStorage { size, voxel: BlockData::default() })
    }

    /// Whether the storage is in its compact shape: single, or a palette
    /// with more than one slot.
    pub open spec fn trimmed(&self) -> bool {
        self.is_uniform() || self.spec_palette_len() > 1
    }

    /// Switch between the single and palette representations; demotion is
    /// only possible with a one-entry palette.
    fn toggle_storage_type(&mut self)
        requires
            old(self).wf(),
            (*old(self)) matches Storage::Multi(m) ==> m.spec_palette_len() == 1,
        ensures
            final(self).wf(),
            final(self).spec_len() == old(self).spec_len(),
            final(self)@ == old(self)@,
            final(self).is_uniform() == !old(self).is_uniform(),
            (*final(self)) matches Storage::Multi(m2) ==> m2.spec_palette_len() == 1
                && m2.spec_indices_length() == 2,
    {
        let replacement = match self {
            Storage::Single(storage) => Storage::Multi(
                MultiStorage::new(storage.size, storage.voxel.clone()),
            ),
            Storage::Multi(storage) => {
                let entry = &storage.palette[0];
                Storage::Single(
                    SingleStorage { size: storage.size, voxel: entry.voxel_type.clone() },
                )
            },
        };
        proof {
            assert(replacement@ =~= old(self)@);
        }
        *self = replacement;
    }

    /// Collapse a one-entry palette back to single storage; any other
    /// storage is already trimmed and left untouched.
    pub fn trim(&mut self)
        requires
            old(self).wf(),
        ensures
            final(self).wf(),
            final(self).spec_len() == old(self).spec_len(),
            final(self)@ == old(self)@,
            final(self).trimmed(),
            old(self).trimmed() ==> *final(self) == *old(self),
            !old(self).trimmed() ==> final(self).is_uniform(),
    {
        let do_toggle = match self {
            Storage::Single(_) => false,
            Storage::Multi(m) => m.palette.len() == 1,
        };
        if do_toggle {
            self.toggle_storage_type();
        }
    }

    /// The voxel in cell `idx`.
    pub fn get(&self, idx: usize) -> (r: BlockData)
        requires
            self.wf(),
            idx < self.spec_len(),
        ensures
            r@ == self@[idx as int],
    {
        match self {
            Storage::Single(storage) => storage.voxel.clone(),
            Storage::Multi(storage) => {
                let il = storage.indices_length;
                let palette_idx = storage.data.get(idx * il, il);
                proof {
                    assert((idx + 1) * il == idx * il + il) by (nonlinear_arith);
                    assert(storage.cell_index(idx as int) == palette_idx);
                }
                let entry = &storage.palette[palette_idx];
                entry.voxel_type.clone()
            },
        }
    }
}


/// After one packed write at cell `ti`, every other cell's packed index is
/// unchanged.
proof fn lemma_cells_after_write(
    old_data: Seq<bool>,
    new_data: Seq<bool>,
    size: int,
    il: int,
    ti: int,
)
    requires
        0 < il,
        0 <= ti < size,
        old_data.len() == size * il,
        new_data.len() == old_data.len(),
        forall|j: int|
            0 <= j < old_data.len() && !(ti * il <= j < ti * il + il) ==> new_data[j] == old_data[j],
    ensures
        forall|k: int|
            0 <= k < size && k != ti ==> #[trigger] new_data.subrange(k * il, (k + 1) * il)
                == old_data.subrange(k * il, (k + 1) * il),
{
    assert forall|k: int| 0 <= k < size && k != ti implies #[trigger] new_data.subrange(
        k * il,
        (k + 1) * il,
    ) == old_data.subrange(k * il, (k + 1) * il) by {
        assert((k + 1) * il == k * il + il) by (nonlinear_arith);
        assert((ti + 1) * il == ti * il + il) by (nonlinear_arith);
        lemma_mul_inequality(k + 1, size, il);
        if k < ti {
            lemma_mul_inequality(k + 1, ti, il);
        } else {
            lemma_mul_inequality(ti + 1, k, il);
        }
        assert forall|t: int| 0 <= t < il implies #[trigger] new_data[k * il + t] == old_data[k
            * il + t] by {
            if k < ti {
                assert(k * il + t < (k + 1) * il <= ti * il);
            } else {
                assert(k * il + t >= k * il >= (ti + 1) * il);
            }
        }
        assert(new_data.subrange(k * il, (k + 1) * il) =~= old_data.subrange(k * il, (k + 1) * il));
    }
}

/// Two storages with the same packed data have the same per-cell indices.
proof fn lemma_same_cells(a: MultiStorage, b: MultiStorage)
    requires
        a.data@ == b.data@,
        a.spec_size() == b.spec_size(),
        a.spec_indices_length() == b.spec_indices_length(),
    ensures
        a.cells() == b.cells(),
{
    assert forall|k: int| 0 <= k < a.spec_size() implies a.cell_index(k) == b.cell_index(k) by {}
    assert(a.cells() =~= b.cells());
}

/// One packed write at cell `ti` updates exactly that cell's index.
proof fn lemma_cells_after_set(a: MultiStorage, b: MultiStorage, ti: int, v: int)
    requires
        a.spec_size() == b.spec_size(),
        a.spec_indices_length() == b.spec_indices_length(),
        a.spec_indices_length() > 0,
        0 <= ti < a.spec_size(),
        a.data@.len() == a.spec_size() * a.spec_indices_length(),
        b.data@.len() == a.data@.len(),
        forall|j: int|
            0 <= j < a.data@.len() && !(ti * a.spec_indices_length() <= j < ti
                * a.spec_indices_length() + a.spec_indices_length()) ==> b.data@[j] == a.data@[j],
        bits_value(
            b.data@.subrange(ti * a.spec_indices_length(), (ti + 1) * a.spec_indices_length()),
        ) == v,
        v >= 0,
    ensures
        b.cells() == a.cells().update(ti, v),
{
    let il = a.spec_indices_length();
    lemma_cells_after_write(a.data@, b.data@, a.spec_size(), il, ti);
    assert forall|k: int| 0 <= k < a.spec_size() implies b.cell_index(k) == a.cells().update(
        ti,
        v,
    )[k] by {
        if k != ti {
            assert(b.data@.subrange(k * il, (k + 1) * il) == a.data@.subrange(k * il, (k + 1) * il));
        }
    }
    assert(b.cells() =~= a.cells().update(ti, v));
}

impl MultiStorage {
    /// Double the index bit-width, rewriting every stored index at the new
    /// width; the palette and the per-cell indices are untouched.
    fn grow_palette(&mut self)
        requires
            old(self).wf_base(),
            old(self).spec_indices_length() <= 8,
        ensures
            final(self).wf_base(),
            final(self).spec_size() == old(self).spec_size(),
            final(self).spec_indices_length() == 2 * old(self).spec_indices_length(),
            final(self).spec_capacity() == pow2(final(self).spec_indices_length() as nat),
            final(self).palette@ == old(self).palette@,
            final(self).cells() == old(self).cells(),
    {
        let il = self.indices_length;
        let size = self.size;
        let ghost cells0 = self.cells();
        let mut indices: Vec<usize> = Vec::new();
        let mut i: usize = 0;
        while i < size
            invariant
                *self == *old(self),
                self.wf_base(),
                il == self.indices_length,
                size == self.size,
                cells0 == self.cells(),
                indices@.len() == i,
                i <= size,
                forall|k: int| 0 <= k < i ==> indices@[k] == cells0[k],
            decreases size - i,
        {
            proof {
                assert((i + 1) * il == i * il + il) by (nonlinear_arith);
                lemma_mul_inequality(i as int + 1, size as int, il as int);
            }
            let v = self.data.get(i * il, il);
            proof {
                assert(self.cell_index(i as int) == v);
            }
            indices.push(v);
            i = i + 1;
        }
        let new_il = il * 2;
        let ghost pal0 = self.palette@;
        proof {
            lemma_pow2_adds(il as nat, il as nat);
            lemma_pow2_strictly_increases(il as nat, new_il as nat);
            lemma2_to64();
            assert(self.palette_capacity <= 256);
            assert(self.palette_capacity * self.palette_capacity <= 65536) by (nonlinear_arith)
                requires
                    self.palette_capacity <= 256,
            ;
            assert(size * new_il <= 1048576) by (nonlinear_arith)
                requires
                    size <= 65536,
                    new_il <= 16,
            ;
        }
        self.indices_length = new_il;
        self.palette_capacity = self.palette_capacity * self.palette_capacity;
        self.data = BitBuffer::new(size * new_il);
        let mut i: usize = 0;
        while i < size
            invariant
                self.data.wf(),
                self.data@.len() == size * new_il,
                self.size == size,
                self.indices_length == new_il,
                new_il == 2 * il,
                il_ok(il as int),
                2 <= il <= 8,
                self.palette@ == pal0,
                1 <= pal0.len() <= pow2(il as nat),
                self.palette_capacity == pow2(new_il as nat),
                indices@.len() == size,
                forall|k: int| 0 <= k < size ==> indices@[k] == cells0[k],
                forall|k: int| 0 <= k < size ==> 0 <= #[trigger] cells0[k] < pal0.len(),
                1 <= size <= MAX_STORAGE_SIZE,
                i <= size,
                forall|k: int|
                    0 <= k < i ==> #[trigger] bits_value(
                        self.data@.subrange(k * new_il, (k + 1) * new_il),
                    ) == cells0[k],
            decreases size - i,
        {
            proof {
                assert((i + 1) * new_il == i * new_il + new_il) by (nonlinear_arith);
                lemma_mul_inequality(i as int + 1, size as int, new_il as int);
                lemma_pow2_strictly_increases(il as nat, new_il as nat);
                assert(size * new_il <= 1048576) by (nonlinear_arith)
                    requires
                        size <= 65536,
                        new_il <= 16,
                ;
                assert(indices@[i as int] == cells0[i as int]);
                assert(cells0[i as int] < pal0.len());
                assert(pal0.len() <= pow2(il as nat));
                assert((indices@[i as int] as nat) < pow2(new_il as nat));
            }
            let ghost pre = self.data@;
            self.data.set(i * new_il, new_il, indices[i]);
            proof {
                lemma_cells_after_write(pre, self.data@, size as int, new_il as int, i as int);
                assert forall|k: int| 0 <= k < i + 1 implies #[trigger] bits_value(
                    self.data@.subrange(k * new_il, (k + 1) * new_il),
                ) == cells0[k] by {
                    if k < i {
                        assert(self.data@.subrange(k * new_il, (k + 1) * new_il) == pre.subrange(
                            k * new_il,
                            (k + 1) * new_il,
                        ));
                        assert(bits_value(pre.subrange(k * new_il, (k + 1) * new_il)) == cells0[k]);
                    } else {
                        assert((i + 1) * new_il == i * new_il + new_il) by (nonlinear_arith);
                    }
                }
            }
            i = i + 1;
        }
        proof {
            assert forall|k: int| 0 <= k < size implies #[trigger] self.cell_index(k)
                == cells0[k] by {
                assert(bits_value(self.data@.subrange(k * new_il, (k + 1) * new_il)) == cells0[k]);
            }
            assert(self.cells() =~= cells0);
        }
    }

    /// Point cell `target_idx` at `voxel`: reuse a palette slot already
    /// holding it, recycle an unreferenced slot, or append a new one,
    /// growing the index width if the palette is full.
    #[verifier::rlimit(100)]
    fn set(&mut self, target_idx: usize, voxel: BlockData)
        requires
            old(self).wf(),
            target_idx < old(self).spec_size(),
        ensures
            final(self).wf(),
            final(self).spec_size() == old(self).spec_size(),
            final(self).view_seq() == old(self).view_seq().update(target_idx as int, voxel@),
            old(self).spec_palette_len() <= final(self).spec_palette_len() <= old(
                self,
            ).spec_palette_len() + 1,
            final(self).spec_indices_length() == if final(self).spec_palette_len() == old(
                self,
            ).spec_palette_len() + 1 && old(self).spec_palette_len() == old(self).spec_capacity() {
                2 * old(self).spec_indices_length()
            } else {
                old(self).spec_indices_length()
            },
            final(self).spec_capacity() == pow2(final(self).spec_indices_length() as nat),
            old(self).spec_palette_len() == 1 && old(self).spec_size() >= 2 && old(
                self,
            ).view_seq()[target_idx as int] != voxel@ ==> final(self).spec_palette_len() == 2,
    {
        let il = self.indices_length;
        let ti = target_idx;
        let size = self.size;
        let ghost cells0 = self.cells();
        let ghost pal0 = self.palette@;
        let ghost view0 = self.view_seq();
        proof {
            assert((ti + 1) * il == ti * il + il) by (nonlinear_arith);
            lemma_mul_inequality(ti as int + 1, size as int, il as int);
        }
        let old_pi = self.data.get(ti * il, il);
        proof {
            assert(self.cell_index(ti as int) == old_pi);
            assert(cells0[ti as int] == old_pi);
            assert(old_pi < pal0.len());
            lemma_count_at(cells0, old_pi as int, ti as int);
        }
        let rc0 = self.palette[old_pi].ref_count;
        palette_set_ref(&mut self.palette, old_pi, rc0 - 1);
        let ghost s1 = *self;
        proof {
            lemma_same_cells(*old(self), s1);
        }
        match palette_find_voxel(&self.palette, &voxel) {
            Some(idx) => {
                let ghost pre = self.data@;
                self.data.set(ti * il, il, idx);
                proof {
                    assert((ti + 1) * il == ti * il + il) by (nonlinear_arith);
                    lemma_cells_after_set(s1, *self, ti as int, idx as int);
                }
                let ghost s2 = *self;
                let rci = self.palette[idx].ref_count;
                proof {
                    lemma_count_le_len(cells0, idx as int);
                }
                palette_set_ref(&mut self.palette, idx, rci + 1);
                proof {
                    lemma_same_cells(s2, *self);
                    let cells1 = self.cells();
                    assert(cells1 == cells0.update(ti as int, idx as int));
                    assert forall|j: int| 0 <= j < self.palette@.len()
                        implies #[trigger] self.palette@[j].ref_count == count_cells(cells1, j) by {
                        lemma_count_update(cells0, ti as int, idx as int, j);
                    }
                    assert forall|k: int| 0 <= k < size implies #[trigger] self.view_seq()[k]
                        == view0.update(ti as int, voxel@)[k] by {
                        if k != ti {
                            assert(cells1[k] == cells0[k]);
                            assert(self.palette@[cells1[k]].voxel_type@
                                == pal0[cells0[k]].voxel_type@);
                        }
                    }
                    assert(self.view_seq() =~= view0.update(ti as int, voxel@));
                    assert forall|k: int| 0 <= k < size implies 0 <= #[trigger] self.cell_index(
                        k,
                    ) < self.palette@.len() by {
                        assert(self.cells()[k] == self.cell_index(k));
                    }
                    if pal0.len() == 1 && view0[ti as int] != voxel@ {
                        assert(old_pi == 0 && idx == 0);
                        assert(view0[ti as int] == pal0[0].voxel_type@);
                        assert(self.palette@[0].voxel_type@ == voxel@);
                        assert(false);
                    }
                }
            },
            None => {
                let rc_now = self.palette[old_pi].ref_count;
                if rc_now == 0 {
                    palette_overwrite(&mut self.palette, old_pi, voxel, 1);
                    proof {
                        lemma_same_cells(s1, *self);
                        let cells1 = self.cells();
                        assert(cells1 == cells0);
                        assert(cells0.update(ti as int, old_pi as int) =~= cells0);
                        assert forall|j: int| 0 <= j < self.palette@.len()
                            implies #[trigger] self.palette@[j].ref_count == count_cells(
                            cells1,
                            j,
                        ) by {}
                        assert forall|k: int| 0 <= k < size implies #[trigger] self.view_seq()[k]
                            == view0.update(ti as int, voxel@)[k] by {
                            if k != ti {
                                if cells0[k] == old_pi as int {
                                    lemma_count_two(cells0, old_pi as int, ti as int, k);
                                }
                                assert(cells0[k] != old_pi as int);
                            }
                        }
                        assert(self.view_seq() =~= view0.update(ti as int, voxel@));
                        assert forall|k: int| 0 <= k < size implies 0 <= #[trigger] self.cell_index(
                        k,
                    ) < self.palette@.len() by {
                        assert(self.cells()[k] == self.cell_index(k));
                    }
                        if pal0.len() == 1 && size >= 2 {
                            assert(forall|k: int|
                                0 <= k < cells0.len() ==> #[trigger] cells0[k] == 0);
                            lemma_count_all(cells0, 0);
                            assert(rc0 == count_cells(cells0, 0));
                            assert(false);
                        }
                    }
                } else {
                    match palette_find_free(&self.palette) {
                        Some(z) => {
                            proof {
                                assert(z != old_pi);
                                assert(pal0[z as int].ref_count == 0);
                            }
                            palette_overwrite(&mut self.palette, z, voxel, 1);
                            let ghost s2 = *self;
                            proof {
                                lemma_same_cells(s1, s2);
                            }
                            self.data.set(ti * il, il, z);
                            proof {
                                assert((ti + 1) * il == ti * il + il) by (nonlinear_arith);
                                lemma_cells_after_set(s2, *self, ti as int, z as int);
                                let cells1 = self.cells();
                                assert(cells1 == cells0.update(ti as int, z as int));
                                assert forall|j: int| 0 <= j < self.palette@.len()
                                    implies #[trigger] self.palette@[j].ref_count == count_cells(
                                    cells1,
                                    j,
                                ) by {
                                    lemma_count_update(cells0, ti as int, z as int, j);
                                }
                                assert forall|k: int| 0 <= k < size
                                    implies #[trigger] self.view_seq()[k] == view0.update(
                                    ti as int,
                                    voxel@,
                                )[k] by {
                                    if k != ti {
                                        assert(cells1[k] == cells0[k]);
                                        lemma_count_zero_no_occurrence(cells0, z as int, k);
                                        assert(cells0[k] != z as int);
                                    }
                                }
                                assert(self.view_seq() =~= view0.update(ti as int, voxel@));
                                assert forall|k: int| 0 <= k < size
                                    implies 0 <= #[trigger] self.cell_index(k)
                                    < self.palette@.len() by {
                                    assert(self.cells()[k] == self.cell_index(k));
                                }
                            }
                        },
                        None => {
                            proof {
                                assert forall|q: int| 0 <= q < pal0.len() implies count_cells(
                                    cells0,
                                    q,
                                ) >= 1 by {
                                    if q == old_pi {
                                    } else {
                                        assert(self.palette@[q].ref_count != 0);
                                    }
                                }
                                assert(count_cells(cells0, old_pi as int) == rc0);
                                lemma_count_below_ge(cells0, pal0.len() as int, old_pi as int);
                                lemma_total_count(cells0, pal0.len() as int);
                                assert(pal0.len() + 1 <= size);
                            }
                            if self.palette.len() == self.palette_capacity {
                                proof {
                                    lemma2_to64();
                                    if self.indices_length == 16 {
                                        assert(pow2(16) == 65536);
                                        assert(false);
                                    }
                                    assert forall|k: int| 0 <= k < size
                                        implies 0 <= #[trigger] self.cell_index(k)
                                        < self.palette@.len() by {
                                        assert(self.cells()[k] == cells0[k]);
                                    }
                                    assert(self.wf_base());
                                }
                                self.grow_palette();
                                proof {
                                    assert(pal0.len() >= 4);
                                    assert(pal0.len() * pal0.len() >= pal0.len() + 2)
                                        by (nonlinear_arith)
                                        requires
                                            pal0.len() >= 4,
                                    ;
                                    lemma_pow2_adds(
                                        s1.spec_indices_length() as nat,
                                        s1.spec_indices_length() as nat,
                                    );
                                    assert(self.spec_capacity() >= pal0.len() + 2);
                                }
                            }
                            let ghost s2 = *self;
                            proof {
                                if s2.spec_palette_len() == s2.spec_capacity() {
                                    assert(false);
                                }
                                assert(s2.cells() == cells0);
                            }
                            self.palette.push(PaletteEntry { voxel_type: voxel, ref_count: 1 });
                            let new_idx = self.palette.len() - 1;
                            let ghost s3 = *self;
                            proof {
                                lemma_same_cells(s2, s3);
                            }
                            let il2 = self.indices_length;
                            proof {
                                assert((ti + 1) * il2 == ti * il2 + il2) by (nonlinear_arith);
                                lemma_mul_inequality(ti as int + 1, size as int, il2 as int);
                                assert(self.data@.len() == size * il2);
                                assert(il2 <= 16);
                                assert((ti + 1) * il2 <= 1048576) by (nonlinear_arith)
                                    requires
                                        ti + 1 <= 65536,
                                        il2 <= 16,
                                ;
                            }
                            self.data.set(ti * il2, il2, new_idx);
                            proof {
                                lemma_cells_after_set(s3, *self, ti as int, new_idx as int);
                                let cells1 = self.cells();
                                assert(cells1 == cells0.update(ti as int, new_idx as int));
                                lemma_count_none(cells0, new_idx as int);
                                assert forall|j: int| 0 <= j < self.palette@.len()
                                    implies #[trigger] self.palette@[j].ref_count == count_cells(
                                    cells1,
                                    j,
                                ) by {
                                    lemma_count_update(cells0, ti as int, new_idx as int, j);
                                }
                                assert forall|k: int| 0 <= k < size
                                    implies #[trigger] self.view_seq()[k] == view0.update(
                                    ti as int,
                                    voxel@,
                                )[k] by {
                                    if k != ti {
                                        assert(cells1[k] == cells0[k]);
                                        assert(cells0[k] < pal0.len());
                                    }
                                }
                                assert(self.view_seq() =~= view0.update(ti as int, voxel@));
                                assert forall|k: int| 0 <= k < size
                                    implies 0 <= #[trigger] self.cell_index(k)
                                    < self.palette@.len() by {
                                    assert(self.cells()[k] == self.cell_index(k));
                                }
                            }
                        },
                    }
                }
            },
        }
    }
}


impl Storage {
    /// Write `voxel` into cell `target_idx`, promoting single storage to a
    /// palette when a second distinct voxel appears.
    pub fn set(&mut self, target_idx: usize, voxel: BlockData)
        requires
            old(self).wf(),
            target_idx < old(self).spec_len(),
        ensures
            final(self).wf(),
            final(self).spec_len() == old(self).spec_len(),
            final(self)@ == old(self)@.update(target_idx as int, voxel@),
            old(self).is_uniform() && voxel@ == old(self)@[target_idx as int] ==> *final(self)
                == *old(self),
            old(self).is_uniform() && voxel@ != old(self)@[target_idx as int]
                ==> !final(self).is_uniform(),
            !old(self).is_uniform() ==> !final(self).is_uniform(),
            !old(self).is_uniform() ==> old(self).spec_palette_len()
                <= final(self).spec_palette_len() <= old(self).spec_palette_len() + 1,
            !old(self).is_uniform() ==> final(self).spec_indices_length()
                == (if final(self).spec_palette_len() == old(self).spec_palette_len() + 1 && old(
                self,
            ).spec_palette_len() == old(self).spec_capacity() {
                2 * old(self).spec_indices_length()
            } else {
                old(self).spec_indices_length()
            }),
            !final(self).is_uniform() ==> final(self).spec_capacity() == pow2(
                final(self).spec_indices_length() as nat,
            ),
            old(self).is_uniform() && voxel@ != old(self)@[target_idx as int]
                ==> final(self).spec_indices_length() == 2 && 1 <= final(self).spec_palette_len()
                <= 2,
            old(self).is_uniform() && voxel@ != old(self)@[target_idx as int] && old(
                self,
            ).spec_len() >= 2 ==> final(self).spec_palette_len() == 2,
    {
        let same_single = match self {
            Storage::Single(storage) => storage.voxel == voxel,
            Storage::Multi(_) => false,
        };
        if same_single {
            proof {
                assert(old(self)@.update(target_idx as int, voxel@) =~= old(self)@);
            }
            return;
        }
        let needs_promote = match self {
            Storage::Single(_) => true,
            Storage::Multi(_) => false,
        };
        if needs_promote {
            self.toggle_storage_type();
        }
        proof {
            lemma2_to64();
        }
        match self {
            Storage::Multi(m) => {
                m.set(target_idx, voxel);
            },
            Storage::Single(_) => {
                proof {
                    assert(false);
                }
            },
        }
    }
}

/// Promotion and demotion are symmetric in what they show. A write of a
/// distinct voxel into uniform storage (which `set` promotes to a palette)
/// followed by any trim (which preserves the observable volume) leaves
/// exactly the written cell changed; every other cell still holds the
/// voxel the uniform storage carried.
pub proof fn lemma_promotion_symmetry(
    before: Seq<BlockModel>,
    after: Seq<BlockModel>,
    trimmed_view: Seq<BlockModel>,
    ti: int,
    v: BlockModel,
)
    requires
        0 <= ti < before.len(),
        after == before.update(ti, v),
        trimmed_view == after,
    ensures
        trimmed_view[ti] == v,
        forall|j: int| 0 <= j < before.len() && j != ti ==> trimmed_view[j] == before[j],
{
}

impl Clone for Storage {
    /// A deep copy holding the same voxels.
    fn clone(&self) -> (res: Self)
        ensures
            res.spec_len() == self.spec_len(),
            res.is_uniform() == self.is_uniform(),
            res.trimmed() == self.trimmed(),
            self.wf() ==> res.wf() && res@ == self@,
    {
        match self {
            Storage::Single(s) => {
                let res = Storage::Single(
                    SingleStorage { size: s.size, voxel: s.voxel.clone() },
                );
                proof {
                    if self.wf() {
                        assert(res@ =~= self@);
                    }
                }
                res
            },
            Storage::Multi(m) => {
                let n = m.palette.len();
                let mut palette: Vec<PaletteEntry> = Vec::new();
                let mut i: usize = 0;
                while i < n
                    invariant
                        n == m.palette@.len(),
                        i <= n,
                        palette@.len() == i,
                        forall|j: int|
                            #![trigger palette@[j]]
                            0 <= j < i ==> palette@[j].voxel_type@ == m.palette@[j].voxel_type@
                                && palette@[j].ref_count == m.palette@[j].ref_count,
                    decreases n - i,
                {
                    let e = &m.palette[i];
                    palette.push(
                        PaletteEntry { voxel_type: e.voxel_type.clone(), ref_count: e.ref_count },
                    );
                    i = i + 1;
                }
                let m2 = MultiStorage {
                    size: m.size,
                    data: m.data.duplicate(),
                    palette,
                    palette_capacity: m.palette_capacity,
                    indices_length: m.indices_length,
                };
                proof {
                    lemma_same_cells(*m, m2);
                    if self.wf() {
                        assert forall|k: int| 0 <= k < m2.spec_size()
                            implies 0 <= #[trigger] m2.cell_index(k) < m2.palette@.len() by {
                            assert(m2.cells()[k] == m2.cell_index(k));
                            assert(m.cells()[k] == m.cell_index(k));
                        }
                        assert(m2.wf_base());
                        assert forall|j: int| 0 <= j < m2.palette@.len()
                            implies #[trigger] m2.palette@[j].ref_count == count_cells(
                            m2.cells(),
                            j,
                        ) by {
                            assert(m2.palette@[j] == palette@[j]);
                            assert(m.palette@[j].ref_count == count_cells(m.cells(), j));
                        }
                        assert forall|k: int| 0 <= k < m2.spec_size() implies m2.view_seq()[k]
                            == m.view_seq()[k] by {
                            assert(m2.cells()[k] == m2.cell_index(k));
                            assert(m.cells()[k] == m.cell_index(k));
                            assert(m2.palette@[m2.cell_index(k)] == palette@[m2.cell_index(k)]);
                        }
                        assert(m2.view_seq() =~= m.view_seq());
                    }
                }
                let res = Storage::Multi(m2);
                proof {
                    if self.wf() {
                        assert(res@ =~= self@);
                    }
                }
                res
            },
        }
    }
}

} // verus!
