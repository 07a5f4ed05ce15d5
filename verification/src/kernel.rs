//! The kernel cache: each pipeline is built once.
use vstd::prelude::*;
use crate::device::{storage_layout, Command, GpuContext, KernelId};
use crate::dtype::DataType;
use crate::pool::Outcome;

verus! {

/// Why no kernel could be had.
#[derive(Clone, Copy, Debug, PartialEq, Eq, Structural)]
#[allow(inconsistent_fields)]
pub enum KernelError {
    /// The kernel would bind more buffers than a binding index can
    /// number.
    TooManyBindings,
    /// The cache has named as many kernels as it has names for.
    CacheFull,
    /// The device could not compile the shader or build the pipeline.
    /// The kernel is not cached: the next request under its key builds
    /// anew.
    BuildFailed { kernel: KernelId },
}

/// What tells one specialised kernel from another: the shader, its entry
/// point, the element types of inputs and outputs in order, and the
/// number of parameter slots.
pub struct KernelKey {
    src: String,
    ent: String,
    t_in: Vec<DataType>,
    t_out: Vec<DataType>,
    p_len: usize,
}

/// A `KernelKey` as mathematical values.
pub struct KernelKeyView {
    pub source: Seq<char>,
    pub entry: Seq<char>,
    pub input_dtypes: Seq<DataType>,
    pub output_dtypes: Seq<DataType>,
    pub param_slots: nat,
}

impl View for KernelKey {
    type V = KernelKeyView;

    closed spec fn view(&self) -> KernelKeyView {
        KernelKeyView {
            source: self.src@,
            entry: self.ent@,
            input_dtypes: self.t_in@,
            output_dtypes: self.t_out@,
            param_slots: self.p_len as nat,
        }
    }
}

impl KernelKeyView {
    /// The number of buffers the kernel only reads: its inputs, then its
    /// parameter slots.
    pub open spec fn read_only_slots(self) -> nat {
        self.input_dtypes.len() + self.param_slots
    }

    /// The number of buffers the kernel may write: its outputs.
    pub open spec fn read_write_slots(self) -> nat {
        self.output_dtypes.len()
    }

    /// Every binding of the kernel can be numbered.
    pub open spec fn bindable(self) -> bool {
        self.read_only_slots() + self.read_write_slots() <= u32::MAX
    }

    /// The command that builds the kernel under the name `kernel`.
    pub open spec fn build_command(self, kernel: KernelId) -> Command {
        Command::CreatePipeline {
            kernel,
            source: self.source,
            entry: self.entry,
            layout: storage_layout(self.read_only_slots(), self.read_write_slots()),
        }
    }
}

/// One place in the cache: the key of a kernel, and whether the kernel
/// can be used. A kernel whose build the device refused keeps its place,
/// so that its name is not given out again, but is not found any more.
pub struct KernelSlot {
    pub key: KernelKeyView,
    pub usable: bool,
}

/// The first position at or after `from` at which `slots` holds a usable
/// kernel under `key`.
pub open spec fn position_from(slots: Seq<KernelSlot>, key: KernelKeyView, from: int) -> Option<
    int,
>
    decreases slots.len() - from,
{
    if from < 0 || from >= slots.len() {
        None
    } else if slots[from].usable && slots[from].key == key {
        Some(from)
    } else {
        position_from(slots, key, from + 1)
    }
}

/// The position of the usable kernel under `key`, where the cache holds
/// one.
pub open spec fn position(slots: Seq<KernelSlot>, key: KernelKeyView) -> Option<int> {
    position_from(slots, key, 0)
}

/// No key has two usable kernels, and every kernel has a name.
pub open spec fn cache_wf(slots: Seq<KernelSlot>) -> bool {
    &&& slots.len() < u64::MAX
    &&& forall|i: int, j: int|
        0 <= i < j < slots.len() && (#[trigger] slots[i]).usable && (#[trigger] slots[j]).usable
            ==> slots[i].key != slots[j].key
}

/// The cache after the device has refused to build `kernel`: its slot is
/// dead, so its key is found no more.
pub open spec fn build_failed(slots: Seq<KernelSlot>, kernel: KernelId) -> Seq<KernelSlot> {
    if kernel.0 < slots.len() {
        slots.update(
            kernel.0 as int,
            KernelSlot { key: slots[kernel.0 as int].key, usable: false },
        )
    } else {
        slots
    }
}

/// A request for the kernel of `key`. A key with more bindings than can
/// be numbered is turned down. Otherwise a hit names the cached kernel
/// and records nothing; a miss records the build, names the new kernel
/// by its place in the cache, and adds the key, unless the cache has no
/// name left.
pub open spec fn cache_get(keys: Seq<KernelSlot>, key: KernelKeyView) -> Outcome<
    Seq<KernelSlot>,
    Result<KernelId, KernelError>,
> {
    if !key.bindable() {
        Outcome { state: keys, commands: Seq::empty(), result: Err(KernelError::TooManyBindings) }
    } else {
        match position(keys, key) {
            Some(i) => Outcome {
                state: keys,
                commands: Seq::empty(),
                result: Ok(KernelId(i as u64)),
            },
            None => if keys.len() + 1 < u64::MAX {
                Outcome {
                    state: keys.push(KernelSlot { key, usable: true }),
                    commands: seq![key.build_command(KernelId(keys.len() as u64))],
                    result: Ok(KernelId(keys.len() as u64)),
                }
            } else {
                Outcome { state: keys, commands: Seq::empty(), result: Err(KernelError::CacheFull) }
            },
        }
    }
}

/// `position_from` finds the least position of a usable kernel under
/// the key at or after `from`, and none exactly where there is none.
pub proof fn lemma_position_from(slots: Seq<KernelSlot>, key: KernelKeyView, from: int)
    requires
        0 <= from,
    ensures
        match position_from(slots, key, from) {
            Some(i) => from <= i < slots.len() && slots[i].usable && slots[i].key == key
                && forall|j: int| from <= j < i ==> !(slots[j].usable && slots[j].key == key),
            None => forall|j: int|
                from <= j < slots.len() ==> !(slots[j].usable && slots[j].key == key),
        },
    decreases slots.len() - from,
{
    if from < slots.len() && !(slots[from].usable && slots[from].key == key) {
        lemma_position_from(slots, key, from + 1);
    }
}

fn dtypes_equal(a: &Vec<DataType>, b: &Vec<DataType>) -> (same: bool)
    ensures
        same == (a@ == b@),
{
    if a.len() != b.len() {
        return false;
    }
    let mut i: usize = 0;
    while i < a.len()
        invariant
            i <= a@.len(),
            a@.len() == b@.len(),
            forall|j: int| 0 <= j < i ==> a@[j] == b@[j],
        decreases a@.len() - i,
    {
        if a[i] != b[i] {
            return false;
        }
        i += 1;
    }
    assert(a@ =~= b@);
    true
}

fn keys_equal(a: &KernelKey, b: &KernelKey) -> (same: bool)
    ensures
        same == (a@ == b@),
{
    a.p_len == b.p_len && a.src == b.src && a.ent == b.ent && dtypes_equal(&a.t_in, &b.t_in)
        && dtypes_equal(&a.t_out, &b.t_out)
}

/// A key in its place in the cache.
pub struct CachedKernel {
    key: KernelKey,
    usable: bool,
}

impl View for CachedKernel {
    type V = KernelSlot;

    closed spec fn view(&self) -> KernelSlot {
        KernelSlot { key: self.key@, usable: self.usable }
    }
}

/// The slots of a list as mathematical values.
pub open spec fn slot_views(slots: Seq<CachedKernel>) -> Seq<KernelSlot> {
    Seq::new(slots.len(), |i: int| slots[i]@)
}

/// Remembers which kernels were built, so that each is built once.
///
/// As a mathematical value the cache is the sequence of its slots; a
/// kernel's identifier is the position of its slot.
pub struct KernelManager {
    keys: Vec<CachedKernel>,
}

impl View for KernelManager {
    type V = Seq<KernelSlot>;

    closed spec fn view(&self) -> Seq<KernelSlot> {
        slot_views(self.keys@)
    }
}

impl KernelManager {
    /// The cache without any kernel.
    pub fn new() -> (cache: Self)
        ensures
            cache@ == Seq::<KernelSlot>::empty(),
    {
        let cache = KernelManager { keys: Vec::new() };
        assert(cache@ =~= Seq::<KernelSlot>::empty());
        cache
    }

    fn find(&self, key: &KernelKey) -> (at: Option<usize>)
        ensures
            match at {
                Some(i) => position(self@, key@) == Some(i as int) && i < self@.len(),
                None => position(self@, key@) is None,
            },
    {
        let mut i: usize = 0;
        while i < self.keys.len()
            invariant
                i <= self.keys@.len(),
                position(self@, key@) == position_from(self@, key@, i as int),
            decreases self.keys@.len() - i,
        {
            if self.keys[i].usable && keys_equal(&self.keys[i].key, key) {
                return Some(i);
            }
            i += 1;
        }
        None
    }

    /// The kernel for a shader, an entry point, the element types of the
    /// inputs and outputs, and a number of parameter slots.
    ///
    /// Where the cache holds a kernel under that key, it is named and
    /// nothing is built. Otherwise the build is recorded, of a layout
    /// with the inputs and the parameter slots as read-only bindings
    /// followed by the outputs as read-write bindings, and the kernel is
    /// cached. A key with more bindings than can be numbered is turned
    /// down before anything else, and changes nothing; so is a new key
    /// once the cache has no name left for its kernel. Whether the
    /// device can build the kernel shows when the backend performs the
    /// command; where it cannot, `build_failed` takes note of it.
    pub fn get(
        &mut self,
        ctx: &mut GpuContext,
        src: &str,
        entry: &str,
        t_in: Vec<DataType>,
        t_out: Vec<DataType>,
        p_len: usize,
    ) -> (r: Result<KernelId, KernelError>)
        ensures
            ({
                let key = KernelKeyView {
                    source: src@,
                    entry: entry@,
                    input_dtypes: t_in@,
                    output_dtypes: t_out@,
                    param_slots: p_len as nat,
                };
                &&& final(self)@ == cache_get(old(self)@, key).state
                &&& final(ctx)@ == old(ctx)@ + cache_get(old(self)@, key).commands
                &&& r == cache_get(old(self)@, key).result
            }),
    {
        let key = KernelKey { src: src.to_string(), ent: entry.to_string(), t_in, t_out, p_len };
        assert(key@ == KernelKeyView {
            source: src@,
            entry: entry@,
            input_dtypes: t_in@,
            output_dtypes: t_out@,
            param_slots: p_len as nat,
        });
        let n_in: usize = match key.t_in.len().checked_add(key.p_len) {
            Some(n) => n,
            None => {
                assert(ctx@ + Seq::<Command>::empty() == ctx@);
                return Err(KernelError::TooManyBindings);
            },
        };
        let n_out: usize = key.t_out.len();
        if n_in > u32::MAX as usize || n_out > u32::MAX as usize - n_in {
            assert(ctx@ + Seq::<Command>::empty() == ctx@);
            return Err(KernelError::TooManyBindings);
        }
        match self.find(&key) {
            Some(i) => {
                assert(ctx@ + Seq::<Command>::empty() == ctx@);
                return Ok(KernelId(i as u64));
            },
            None => {},
        }
        if self.keys.len() as u64 >= u64::MAX - 1 {
            assert(ctx@ + Seq::<Command>::empty() == ctx@);
            return Err(KernelError::CacheFull);
        }
        let layout = ctx.create_storage_layout(n_in, n_out);
        let id = KernelId(self.keys.len() as u64);
        ctx.create_compute_pipeline(id, src, entry, layout);
        assert(ctx@ == old(ctx)@ + seq![key@.build_command(id)]);
        let ghost slot = KernelSlot { key: key@, usable: true };
        self.keys.push(CachedKernel { key, usable: true });
        assert(self@ =~= old(self)@.push(slot));
        Ok(id)
    }

    /// Takes note that the device could not build `kernel`. The kernel is
    /// found no more, so that the next request under its key builds
    /// anew; its name is not given out again. The result is the error to
    /// hand to whoever asked for the kernel.
    pub fn build_failed(&mut self, kernel: KernelId) -> (error: KernelError)
        ensures
            final(self)@ == build_failed(old(self)@, kernel),
            error == (KernelError::BuildFailed { kernel }),
    {
        if kernel.0 < self.keys.len() as u64 {
            let at: usize = kernel.0 as usize;
            let mut dead = CachedKernel {
                key: KernelKey {
                    src: String::new(),
                    ent: String::new(),
                    t_in: Vec::new(),
                    t_out: Vec::new(),
                    p_len: 0,
                },
                usable: false,
            };
            std::mem::swap(&mut dead, &mut self.keys[at]);
            dead.usable = false;
            let ghost slot = dead@;
            self.keys.set(at, dead);
            assert(self@ =~= old(self)@.update(at as int, slot));
        }
        KernelError::BuildFailed { kernel }
    }
}

/// Cache identity. A second request under the same key names the same
/// kernel, records nothing and leaves the cache as it is: nothing is
/// built twice. A request under any other key names another kernel.
pub proof fn lemma_cache_identity(keys: Seq<KernelSlot>, key: KernelKeyView, other: KernelKeyView)
    requires
        keys.len() < u64::MAX,
    ensures
        ({
            let first = cache_get(keys, key);
            first.result matches Ok(kernel) ==> {
                let again = cache_get(first.state, key);
                &&& again.result == Ok::<KernelId, KernelError>(kernel)
                &&& again.commands == Seq::<Command>::empty()
                &&& again.state == first.state
                &&& other != key ==> cache_get(first.state, other).result != Ok::<
                    KernelId,
                    KernelError,
                >(kernel)
            }
        }),
{
    let first = cache_get(keys, key);
    if let Ok(kernel) = first.result {
        lemma_position_from(keys, key, 0);
        lemma_position_from(first.state, key, 0);
        lemma_position_from(first.state, other, 0);
        if position(keys, key) is None {
            assert(first.state[keys.len() as int].key == key);
        }
        let at = position(first.state, key);
        assert(at is Some);
        assert(at->0 as u64 == kernel.0);
        if other != key && other.bindable() {
            match position(first.state, other) {
                Some(j) => {
                    assert(first.state[j].key == other);
                    assert(j != at->0);
                },
                None => {},
            }
        }
    }
}

/// Another signature is another kernel. Where the cache holds no usable
/// kernel under a key that can be bound, and has a name left, a request
/// under it records one build, adds one slot behind the old ones and
/// names a kernel that no slot had before. Every key that was found
/// before is found afterwards in its old place, so a request under it
/// names its old kernel and records nothing.
pub proof fn lemma_new_key_is_new_kernel(
    slots: Seq<KernelSlot>,
    cached: KernelKeyView,
    other: KernelKeyView,
)
    requires
        slots.len() + 1 < u64::MAX,
        other.bindable(),
        position(slots, other) is None,
    ensures
        ({
            let o = cache_get(slots, other);
            let name = KernelId(slots.len() as u64);
            &&& o.result == Ok::<KernelId, KernelError>(name)
            &&& o.commands == seq![other.build_command(name)]
            &&& o.state == slots.push(KernelSlot { key: other, usable: true })
            &&& position(slots, cached) matches Some(i) ==> {
                &&& i as u64 != name.0
                &&& position(o.state, cached) == Some(i)
                &&& cache_get(o.state, cached).commands == Seq::<Command>::empty()
                &&& cached.bindable() ==> cache_get(o.state, cached).result == Ok::<
                    KernelId,
                    KernelError,
                >(KernelId(i as u64))
            }
        }),
{
    let o = cache_get(slots, other);
    lemma_position_from(slots, cached, 0);
    lemma_position_from(o.state, cached, 0);
    if let Some(i) = position(slots, cached) {
        assert(o.state[i] == slots[i]);
        match position(o.state, cached) {
            Some(j) => {
                if j < i {
                    assert(o.state[j] == slots[j]);
                }
            },
            None => {},
        }
    }
}

/// The cache stays well formed: a request adds a slot only under a key
/// that has no usable kernel, and a refused build only kills a slot.
pub proof fn lemma_cache_stays_wf(slots: Seq<KernelSlot>, key: KernelKeyView, kernel: KernelId)
    requires
        cache_wf(slots),
    ensures
        cache_wf(cache_get(slots, key).state),
        cache_wf(build_failed(slots, kernel)),
{
    lemma_position_from(slots, key, 0);
    let got = cache_get(slots, key).state;
    assert forall|i: int, j: int|
        0 <= i < j < got.len() && (#[trigger] got[i]).usable && (#[trigger] got[j]).usable
            implies got[i].key != got[j].key by {
        if j < slots.len() {
            assert(slots[i].usable && slots[j].usable);
        } else {
            assert(got[i] == slots[i]);
        }
    }
    let failed = build_failed(slots, kernel);
    assert forall|i: int, j: int|
        0 <= i < j < failed.len() && (#[trigger] failed[i]).usable && (#[trigger] failed[j]).usable
            implies failed[i].key != failed[j].key by {
        assert(slots[i].usable && slots[j].usable);
    }
}

/// A failed build leaves no entry. Where a request was answered with a
/// kernel and the device then refuses to build that kernel, the key is
/// found no more: the next request under it misses, records the build
/// again and names another kernel.
pub proof fn lemma_failed_build_leaves_no_entry(slots: Seq<KernelSlot>, key: KernelKeyView)
    requires
        cache_wf(slots),
    ensures
        ({
            let first = cache_get(slots, key);
            first.result matches Ok(kernel) ==> {
                let after = build_failed(first.state, kernel);
                let again = cache_get(after, key);
                &&& position(after, key) is None
                &&& again.result != Ok::<KernelId, KernelError>(kernel)
                &&& again.result matches Ok(next) ==> again.commands == seq![
                    key.build_command(next),
                ]
            }
        }),
{
    let first = cache_get(slots, key);
    lemma_cache_stays_wf(slots, key, KernelId(0));
    if let Ok(kernel) = first.result {
        lemma_position_from(slots, key, 0);
        lemma_position_from(first.state, key, 0);
        if position(slots, key) is None {
            assert(first.state[slots.len() as int].key == key);
        }
        let at = kernel.0 as int;
        assert(position(first.state, key) == Some(at));
        let after = build_failed(first.state, kernel);
        lemma_position_from(after, key, 0);
        match position(after, key) {
            Some(j) => {
                assert(first.state[j].usable && first.state[j].key == key);
                assert(first.state[at].usable && first.state[at].key == key);
                assert(j != at);
                if j < at {
                    assert(first.state[j].key != first.state[at].key);
                } else {
                    assert(first.state[at].key != first.state[j].key);
                }
            },
            None => {},
        }
    }
}

} // verus!
