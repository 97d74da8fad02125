//! Runtime requirements: the capabilities that generated code asks of the
//! bundler's runtime.

use vstd::prelude::*;

verus! {

/// One capability of the runtime. Each has a fixed name in generated code.
#[derive(Clone, Copy, Debug, PartialEq, Eq, Structural)]
pub enum RuntimeGlobal {
    /// The internal module loader.
    Require,
    /// The module object of the module being run.
    Module,
    /// The exports object of the module being run.
    Exports,
    /// The helper that marks an exports object as a namespace object.
    MakeNamespaceObject,
    /// The helper that runs a module body behind an async boundary.
    AsyncModule,
    /// The hook through which a separately loaded chunk installs itself.
    ExternalInstallChunk,
}

impl RuntimeGlobal {
    /// The bit that stands for this capability in a `RuntimeGlobals` set.
    pub open spec fn mask(self) -> u64 {
        match self {
            RuntimeGlobal::Require => 1,
            RuntimeGlobal::Module => 2,
            RuntimeGlobal::Exports => 4,
            RuntimeGlobal::MakeNamespaceObject => 8,
            RuntimeGlobal::AsyncModule => 16,
            RuntimeGlobal::ExternalInstallChunk => 32,
        }
    }

    /// The text by which generated code refers to this capability.
    pub open spec fn name_spec(self) -> Seq<char> {
        match self {
            RuntimeGlobal::Require => "__webpack_require__"@,
            RuntimeGlobal::Module => "module"@,
            RuntimeGlobal::Exports => "__webpack_exports__"@,
            RuntimeGlobal::MakeNamespaceObject => "__webpack_require__.r"@,
            RuntimeGlobal::AsyncModule => "__webpack_require__.a"@,
            RuntimeGlobal::ExternalInstallChunk => "__webpack_require__.C"@,
        }
    }

    fn bit(self) -> (m: u64)
        ensures
            m == self.mask(),
    {
        match self {
            RuntimeGlobal::Require => 1,
            RuntimeGlobal::Module => 2,
            RuntimeGlobal::Exports => 4,
            RuntimeGlobal::MakeNamespaceObject => 8,
            RuntimeGlobal::AsyncModule => 16,
            RuntimeGlobal::ExternalInstallChunk => 32,
        }
    }

    /// The text by which generated code refers to this capability.
    pub fn name(self) -> (text: &'static str)
        ensures
            text@ == self.name_spec(),
    {
        match self {
            RuntimeGlobal::Require => "__webpack_require__",
            RuntimeGlobal::Module => "module",
            RuntimeGlobal::Exports => "__webpack_exports__",
            RuntimeGlobal::MakeNamespaceObject => "__webpack_require__.r",
            RuntimeGlobal::AsyncModule => "__webpack_require__.a",
            RuntimeGlobal::ExternalInstallChunk => "__webpack_require__.C",
        }
    }
}

/// Two capabilities share a bit only if they are the same capability.
proof fn lemma_masks_disjoint(a: RuntimeGlobal, b: RuntimeGlobal)
    ensures
        (a.mask() & b.mask() != 0) == (a == b),
{
    assert(1u64 & 1u64 != 0 && 2u64 & 2u64 != 0 && 4u64 & 4u64 != 0 && 8u64 & 8u64 != 0 && 16u64
        & 16u64 != 0 && 32u64 & 32u64 != 0) by (bit_vector);
    assert(1u64 & 2u64 == 0 && 1u64 & 4u64 == 0 && 1u64 & 8u64 == 0 && 1u64 & 16u64 == 0 && 1u64
        & 32u64 == 0) by (bit_vector);
    assert(2u64 & 1u64 == 0 && 2u64 & 4u64 == 0 && 2u64 & 8u64 == 0 && 2u64 & 16u64 == 0 && 2u64
        & 32u64 == 0) by (bit_vector);
    assert(4u64 & 1u64 == 0 && 4u64 & 2u64 == 0 && 4u64 & 8u64 == 0 && 4u64 & 16u64 == 0 && 4u64
        & 32u64 == 0) by (bit_vector);
    assert(8u64 & 1u64 == 0 && 8u64 & 2u64 == 0 && 8u64 & 4u64 == 0 && 8u64 & 16u64 == 0 && 8u64
        & 32u64 == 0) by (bit_vector);
    assert(16u64 & 1u64 == 0 && 16u64 & 2u64 == 0 && 16u64 & 4u64 == 0 && 16u64 & 8u64 == 0
        && 16u64 & 32u64 == 0) by (bit_vector);
    assert(32u64 & 1u64 == 0 && 32u64 & 2u64 == 0 && 32u64 & 4u64 == 0 && 32u64 & 8u64 == 0
        && 32u64 & 16u64 == 0) by (bit_vector);
}

/// A set of runtime capabilities. Membership is all that it records: a
/// capability is either required or not, however often it was asked for.
#[derive(Clone, Copy, Debug, PartialEq, Eq)]
pub struct RuntimeGlobals {
    bits: u64,
}

impl View for RuntimeGlobals {
    type V = Set<RuntimeGlobal>;

    closed spec fn view(&self) -> Set<RuntimeGlobal> {
        Set::new(|g: RuntimeGlobal| self.bits & g.mask() != 0)
    }
}

impl RuntimeGlobals {
    /// The set that requires nothing.
    pub fn new() -> (set: RuntimeGlobals)
        ensures
            set@ == Set::<RuntimeGlobal>::empty(),
    {
        let set = RuntimeGlobals { bits: 0 };
        proof {
            assert forall|g: RuntimeGlobal| !set@.contains(g) by {
                let m = g.mask();
                assert(0u64 & m == 0) by (bit_vector);
            }
        }
        set
    }

    /// Requires `global`. Requiring it again changes nothing.
    pub fn insert(&mut self, global: RuntimeGlobal)
        ensures
            final(self)@ == old(self)@.insert(global),
    {
        let ghost before = self.bits;
        let added = global.bit();
        self.bits = self.bits | added;
        proof {
            assert forall|g: RuntimeGlobal|
                self@.contains(g) == old(self)@.insert(global).contains(g) by {
                let m = g.mask();
                lemma_masks_disjoint(global, g);
                assert(((before | added) & m != 0) == ((before & m != 0) || (added & m != 0)))
                    by (bit_vector);
            }
        }
    }

    /// Whether `global` is required.
    pub fn contains(&self, global: RuntimeGlobal) -> (present: bool)
        ensures
            present == self@.contains(global),
    {
        self.bits & global.bit() != 0
    }
}

} // verus!
