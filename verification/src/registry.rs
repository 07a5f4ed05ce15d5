//! The operations known by name, and the checks in front of them.
use vstd::prelude::*;
use crate::add::{add_signature, AddOp, ADD_ENTRY, ADD_WGSL};
use crate::dtype::DataType;
use crate::ops::{
    accepts, check_signature, dtypes_of, validate, Op, OpError, OpErrorView, OpSignature,
    OpSignatureView, PreparedOp, PreparedOpView,
};
use crate::tensor::TensorAnyRef;

verus! {

/// An operation held by the registry: one of the built-in operations, or
/// one that its user wrote.
pub enum RegisteredOp {
    Add(AddOp),
    Custom(Box<dyn Op>),
}

impl RegisteredOp {
    /// The signature that the operation publishes.
    pub open spec fn sig(&self) -> OpSignatureView {
        match self {
            RegisteredOp::Add(op) => op.sig(),
            RegisteredOp::Custom(op) => op.sig(),
        }
    }

    /// `work` is what the operation may prepare for the given tensors.
    pub open spec fn prepares(
        &self,
        inputs: Seq<TensorAnyRef<'_>>,
        outputs: Seq<TensorAnyRef<'_>>,
        work: PreparedOpView,
    ) -> bool {
        match self {
            RegisteredOp::Add(op) => op.prepares(inputs, outputs, work),
            RegisteredOp::Custom(op) => op.prepares(inputs, outputs, work),
        }
    }

    /// The full signature.
    pub fn signature(&self) -> (s: &OpSignature)
        ensures
            s@ == self.sig(),
    {
        match self {
            RegisteredOp::Add(op) => op.signature(),
            RegisteredOp::Custom(op) => op.signature(),
        }
    }

    /// Describes the work for tensors that the signature accepts.
    pub fn prepare(&self, inputs: &[TensorAnyRef<'_>], outputs: &[TensorAnyRef<'_>]) -> (p:
        PreparedOp)
        requires
            accepts(self.sig(), dtypes_of(inputs@), dtypes_of(outputs@)),
        ensures
            self.prepares(inputs@, outputs@, p@),
    {
        match self {
            RegisteredOp::Add(op) => op.prepare(inputs, outputs),
            RegisteredOp::Custom(op) => op.prepare(inputs, outputs),
        }
    }

    /// The shader source and its entry point.
    pub fn shader_template(&self) -> (r: (&'static str, &'static str))
        ensures
            self is Add ==> r.0@ == ADD_WGSL@ && r.1@ == ADD_ENTRY@,
    {
        match self {
            RegisteredOp::Add(op) => op.shader_template(),
            RegisteredOp::Custom(op) => op.shader_template(),
        }
    }
}

/// One registration: an operation under a name.
struct Registered {
    name: String,
    op: RegisteredOp,
}

/// The map that a list of registrations stands for: each name leads to
/// the operation registered under it last.
spec fn map_of(entries: Seq<Registered>) -> Map<Seq<char>, RegisteredOp>
    decreases entries.len(),
{
    if entries.len() == 0 {
        Map::empty()
    } else {
        map_of(entries.drop_last()).insert(entries.last().name@, entries.last().op)
    }
}

/// A name that no registration after `at` bears leads to the operation
/// registered at `at`.
proof fn lemma_last_registration_wins(entries: Seq<Registered>, name: Seq<char>, at: int)
    requires
        0 <= at < entries.len(),
        entries[at].name@ == name,
        forall|j: int| at < j < entries.len() ==> (#[trigger] entries[j]).name@ != name,
    ensures
        map_of(entries).contains_key(name),
        map_of(entries)[name] == entries[at].op,
    decreases entries.len(),
{
    if at < entries.len() - 1 {
        let rest = entries.drop_last();
        assert(entries.last() == entries[entries.len() - 1]);
        assert(forall|j: int| 0 <= j < rest.len() ==> rest[j] == entries[j]);
        lemma_last_registration_wins(rest, name, at);
    }
}

/// A name that no registration bears leads nowhere.
proof fn lemma_unregistered(entries: Seq<Registered>, name: Seq<char>)
    requires
        forall|j: int| 0 <= j < entries.len() ==> (#[trigger] entries[j]).name@ != name,
    ensures
        !map_of(entries).contains_key(name),
    decreases entries.len(),
{
    if entries.len() > 0 {
        let rest = entries.drop_last();
        assert(entries.last() == entries[entries.len() - 1]);
        assert(forall|j: int| 0 <= j < rest.len() ==> rest[j] == entries[j]);
        lemma_unregistered(rest, name);
    }
}

/// The element types of a list of tensors.
fn collect_dtypes(tensors: &Vec<TensorAnyRef<'_>>) -> (dtypes: Vec<DataType>)
    ensures
        dtypes@ == dtypes_of(tensors@),
{
    let mut dtypes: Vec<DataType> = Vec::new();
    let mut i: usize = 0;
    while i < tensors.len()
        invariant
            i <= tensors@.len(),
            dtypes@ == dtypes_of(tensors@.take(i as int)),
        decreases tensors@.len() - i,
    {
        dtypes.push(tensors[i].dtype());
        i += 1;
    }
    assert(tensors@.take(tensors@.len() as int) == tensors@);
    dtypes
}

/// Holds the registered operations; checks arity and element types
/// before it lets an operation prepare anything.
///
/// As a mathematical value the registry is a map from names to
/// operations.
pub struct OpRegistry {
    entries: Vec<Registered>,
}

impl View for OpRegistry {
    type V = Map<Seq<char>, RegisteredOp>;

    closed spec fn view(&self) -> Map<Seq<char>, RegisteredOp> {
        map_of(self.entries@)
    }
}

impl OpRegistry {
    /// The registry without any operation.
    pub fn new() -> (registry: Self)
        ensures
            registry@ == Map::<Seq<char>, RegisteredOp>::empty(),
    {
        OpRegistry { entries: Vec::new() }
    }

    fn insert(&mut self, name: String, op: RegisteredOp)
        ensures
            final(self)@ == old(self)@.insert(name@, op),
            final(self)@.contains_key(name@),
            final(self)@[name@] == op,
    {
        self.entries.push(Registered { name, op });
        assert(self.entries@.drop_last() == old(self).entries@);
    }

    /// Registers every built-in operation under its name, for a machine
    /// of the given byte order: the addition under `"add"`.
    pub fn collect_inventory(&mut self, little_endian: bool)
        ensures
            final(self)@.contains_key("add"@),
            final(self)@["add"@] matches RegisteredOp::Add(op) && op.byte_order() == little_endian,
            final(self)@["add"@].sig() == add_signature(),
            final(self)@ == old(self)@.insert("add"@, final(self)@["add"@]),
    {
        let op = AddOp::new(little_endian);
        self.insert(AddOp::name().to_string(), RegisteredOp::Add(op));
    }

    /// Registers an operation under the name in its signature. An
    /// operation that was registered under that name before is replaced.
    /// The operation found under the name from now on is the one handed
    /// in.
    pub fn register(&mut self, op: Box<dyn Op>)
        ensures
            final(self)@ == old(self)@.insert(op.sig().name, RegisteredOp::Custom(op)),
    {
        let name: String = op.signature().name.to_string();
        self.insert(name, RegisteredOp::Custom(op));
    }

    /// Registers a boxed operation under an explicit name. An operation
    /// that was registered under that name before is replaced.
    pub fn register_boxed(&mut self, name: &'static str, op: Box<dyn Op>)
        ensures
            final(self)@ == old(self)@.insert(name@, RegisteredOp::Custom(op)),
    {
        self.insert(name.to_string(), RegisteredOp::Custom(op));
    }

    /// The index of the registration that `name` leads to.
    fn find(&self, name: &String) -> (at: Option<usize>)
        ensures
            match at {
                Some(i) => {
                    &&& i < self.entries@.len()
                    &&& self@.contains_key(name@)
                    &&& self@[name@] == self.entries@[i as int].op
                },
                None => !self@.contains_key(name@),
            },
    {
        let mut i: usize = self.entries.len();
        while i > 0
            invariant
                i <= self.entries@.len(),
                forall|j: int|
                    i <= j < self.entries@.len() ==> (#[trigger] self.entries@[j]).name@ != name@,
            decreases i,
        {
            i -= 1;
            if self.entries[i].name == *name {
                proof {
                    lemma_last_registration_wins(self.entries@, name@, i as int);
                }
                return Some(i);
            }
        }
        proof {
            lemma_unregistered(self.entries@, name@);
        }
        None
    }

    /// Looks the operation up, checks the call against its signature,
    /// and lets it prepare the work.
    ///
    /// An unknown name is reported first. Then the number of inputs and
    /// the number of outputs are checked, and only then the element
    /// types, inputs before outputs, each list from its first slot on.
    /// The operation prepares only what passed every check.
    pub fn check_and_prepare(
        &self,
        name: &str,
        inputs: Vec<TensorAnyRef<'_>>,
        outputs: Vec<TensorAnyRef<'_>>,
    ) -> (r: Result<PreparedOp, OpError>)
        ensures
            !self@.contains_key(name@) ==> (r matches Err(e) && e@ == OpErrorView::UnknownOp(name@)),
            self@.contains_key(name@) ==> match check_signature(
                self@[name@].sig(),
                name@,
                dtypes_of(inputs@),
                dtypes_of(outputs@),
            ) {
                Some(err) => r matches Err(e) && e@ == err,
                None => r matches Ok(p) && self@[name@].prepares(inputs@, outputs@, p@),
            },
    {
        let key: String = name.to_string();
        let at = match self.find(&key) {
            Some(i) => i,
            None => {
                return Err(OpError::UnknownOp(key));
            },
        };
        let op = &self.entries[at].op;
        let in_types = collect_dtypes(&inputs);
        let out_types = collect_dtypes(&outputs);
        match validate(op.signature(), name, in_types.as_slice(), out_types.as_slice()) {
            Err(e) => Err(e),
            Ok(()) => Ok(op.prepare(inputs.as_slice(), outputs.as_slice())),
        }
    }

    /// The operation registered under `name`, without any check.
    pub fn get(&self, name: &str) -> (op: Option<&RegisteredOp>)
        ensures
            op is Some <==> self@.contains_key(name@),
            op matches Some(o) ==> *o == self@[name@],
    {
        let key: String = name.to_string();
        match self.find(&key) {
            Some(i) => Some(&self.entries[i].op),
            None => None,
        }
    }
}

} // verus!
