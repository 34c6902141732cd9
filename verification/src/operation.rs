//! Pending filesystem mutations and ordered, conflict-checked plans of them.

use vstd::prelude::*;

verus! {

/// The abstract value of one pending operation.
#[verifier::ext_equal]
pub enum OpView {
    Rename { source: Seq<char>, destination: Seq<char> },
    Delete { source: Seq<char> },
    Move { source: Seq<char>, destination: Seq<char> },
    Copy { source: Seq<char>, destination: Seq<char> },
}

impl OpView {
    /// The path the operation reads from.
    pub open spec fn source(self) -> Seq<char> {
        match self {
            OpView::Rename { source, .. } => source,
            OpView::Delete { source } => source,
            OpView::Move { source, .. } => source,
            OpView::Copy { source, .. } => source,
        }
    }

    /// The path the operation writes to; absent only for a deletion.
    pub open spec fn destination(self) -> Option<Seq<char>> {
        match self {
            OpView::Rename { destination, .. } => Some(destination),
            OpView::Delete { .. } => None,
            OpView::Move { destination, .. } => Some(destination),
            OpView::Copy { destination, .. } => Some(destination),
        }
    }
}

/// One pending filesystem mutation: a source path and, except for
/// deletions, a destination path.
#[derive(Debug, Clone, PartialEq, Eq)]
pub enum FileOperation {
    Rename { source: String, destination: String },
    Delete { source: String },
    Move { source: String, destination: String },
    Copy { source: String, destination: String },
}

impl View for FileOperation {
    type V = OpView;

    open spec fn view(&self) -> OpView {
        match self {
            FileOperation::Rename { source, destination } => OpView::Rename {
                source: source@,
                destination: destination@,
            },
            FileOperation::Delete { source } => OpView::Delete { source: source@ },
            FileOperation::Move { source, destination } => OpView::Move {
                source: source@,
                destination: destination@,
            },
            FileOperation::Copy { source, destination } => OpView::Copy {
                source: source@,
                destination: destination@,
            },
        }
    }
}

/// Relies on `std::path::Path::exists` for the read-only existence check
/// behind conflict detection. The result depends on the filesystem at call
/// time, so nothing is promised of it.
#[verifier::external_body]
pub(crate) fn path_exists(path: &str) -> bool {
    std::path::Path::new(path).exists()
}

/// Whether some path in `paths` has exactly the characters `p`.
pub open spec fn contains_path(paths: Seq<String>, p: Seq<char>) -> bool {
    exists|i: int| 0 <= i < paths.len() && paths[i]@ == p
}

/// Whether an operation's destination is among the given existing paths.
pub open spec fn op_conflicts(op: OpView, existing: Seq<String>) -> bool {
    match op.destination() {
        Some(d) => contains_path(existing, d),
        None => false,
    }
}

/// Copies an operation.
pub(crate) fn copy_operation(op: &FileOperation) -> (r: FileOperation)
    ensures
        r == *op,
{
    match op {
        FileOperation::Rename { source, destination } => FileOperation::Rename {
            source: source.clone(),
            destination: destination.clone(),
        },
        FileOperation::Delete { source } => FileOperation::Delete { source: source.clone() },
        FileOperation::Move { source, destination } => FileOperation::Move {
            source: source.clone(),
            destination: destination.clone(),
        },
        FileOperation::Copy { source, destination } => FileOperation::Copy {
            source: source.clone(),
            destination: destination.clone(),
        },
    }
}

impl FileOperation {
    /// The path the operation reads from.
    pub fn source(&self) -> (r: &String)
        ensures
            r@ == self@.source(),
    {
        match self {
            FileOperation::Rename { source, .. } => source,
            FileOperation::Delete { source } => source,
            FileOperation::Move { source, .. } => source,
            FileOperation::Copy { source, .. } => source,
        }
    }

    /// The path the operation writes to; `None` only for a deletion.
    pub fn destination(&self) -> (r: Option<&String>)
        ensures
            match r {
                Some(d) => self@.destination() == Some(d@),
                None => self@.destination() is None,
            },
    {
        match self {
            FileOperation::Rename { destination, .. } => Some(destination),
            FileOperation::Delete { .. } => None,
            FileOperation::Move { destination, .. } => Some(destination),
            FileOperation::Copy { destination, .. } => Some(destination),
        }
    }

    /// Whether applying this operation now would clobber a file that exists
    /// on disk at this moment. A deletion never overwrites anything.
    pub fn would_overwrite(&self) -> (r: bool)
        ensures
            self@.destination() is None ==> !r,
    {
        match self.destination() {
            Some(d) => path_exists(d.as_str()),
            None => false,
        }
    }

    /// The pure counterpart of [`Self::would_overwrite`]: evaluated against
    /// a given collection of existing paths instead of the disk.
    pub fn would_overwrite_given(&self, existing: &Vec<String>) -> (r: bool)
        ensures
            r == op_conflicts(self@, existing@),
    {
        match self.destination() {
            Some(d) => {
                let mut i: usize = 0;
                while i < existing.len()
                    invariant
                        0 <= i <= existing@.len(),
                        self@.destination() == Some(d@),
                        forall|j: int| 0 <= j < i ==> existing@[j]@ != d@,
                    decreases existing@.len() - i,
                {
                    if existing[i].eq(d) {
                        return true;
                    }
                    i = i + 1;
                }
                false
            },
            None => false,
        }
    }
}

/// Whether `op` is one of the plan's operations, and one that carries a
/// destination.
pub open spec fn op_in_plan(op: OpView, plan: Seq<OpView>) -> bool {
    exists|j: int| 0 <= j < plan.len() && op == plan[j] && !(plan[j].destination() is None)
}

/// The operations of `ops` whose destination is among `existing`, in plan
/// order.
pub open spec fn conflicts_spec(ops: Seq<OpView>, existing: Seq<String>) -> Seq<OpView>
    decreases ops.len(),
{
    if ops.len() == 0 {
        Seq::<OpView>::empty()
    } else if op_conflicts(ops.last(), existing) {
        conflicts_spec(ops.drop_last(), existing) + seq![ops.last()]
    } else {
        conflicts_spec(ops.drop_last(), existing)
    }
}

/// A plan holds a conflicting operation exactly when its conflict list is
/// non-empty: the two pure conflict queries agree.
pub proof fn lemma_conflicts_iff(ops: Seq<OpView>, existing: Seq<String>)
    ensures
        (conflicts_spec(ops, existing).len() > 0) <==> (exists|j: int|
            0 <= j < ops.len() && op_conflicts(#[trigger] ops[j], existing)),
    decreases ops.len(),
{
    if ops.len() > 0 {
        let front = ops.drop_last();
        lemma_conflicts_iff(front, existing);
        if op_conflicts(ops.last(), existing) {
            assert(op_conflicts(ops[ops.len() - 1], existing));
        } else {
            if conflicts_spec(ops, existing).len() > 0 {
                let j = choose|j: int| 0 <= j < front.len() && op_conflicts(#[trigger] front[j], existing);
                assert(ops[j] == front[j]);
            }
            if exists|j: int| 0 <= j < ops.len() && op_conflicts(#[trigger] ops[j], existing) {
                let j = choose|j: int| 0 <= j < ops.len() && op_conflicts(#[trigger] ops[j], existing);
                assert(j < ops.len() - 1);
                assert(front[j] == ops[j]);
                assert(conflicts_spec(front, existing).len() > 0);
            }
        }
    }
}

/// An ordered, append-only list of pending operations. Executors must apply
/// the operations in exactly this order.
#[derive(Debug, Clone)]
pub struct OperationPlan {
    pub operations: Vec<FileOperation>,
}

impl View for OperationPlan {
    type V = Seq<OpView>;

    open spec fn view(&self) -> Seq<OpView> {
        self.operations@.map_values(|op: FileOperation| op@)
    }
}

impl OperationPlan {
    /// A plan with no operations.
    pub fn new() -> (r: Self)
        ensures
            r@ == Seq::<OpView>::empty(),
    {
        let r = OperationPlan { operations: Vec::new() };
        proof {
            assert(r@ =~= Seq::<OpView>::empty());
        }
        r
    }

    /// Same as [`Self::new`]: a plan with no operations.
    pub fn empty() -> (r: Self)
        ensures
            r@ == Seq::<OpView>::empty(),
    {
        Self::new()
    }

    /// Appends one operation to the end of the plan.
    pub fn push(&mut self, op: FileOperation)
        ensures
            final(self)@ == old(self)@.push(op@),
    {
        let ghost before = self@;
        self.operations.push(op);
        proof {
            assert(self@ =~= before.push(op@));
        }
    }

    /// Appends every operation of `ops` to the end of the plan, in order.
    pub fn extend(&mut self, ops: OperationPlan)
        ensures
            final(self)@ == old(self)@ + ops@,
    {
        let ghost before = self@;
        let ghost added = ops@;
        let mut rest = ops;
        self.operations.append(&mut rest.operations);
        proof {
            assert(self@ =~= before + added);
        }
    }

    /// The operations whose destination exists on disk right now, in plan
    /// order. The answer is read from the current filesystem state, so only
    /// its provenance is promised: every returned operation is one of the
    /// plan's operations and carries a destination.
    pub fn conflicts(&self) -> (r: Vec<FileOperation>)
        ensures
            forall|i: int| 0 <= i < r@.len() ==> #[trigger] op_in_plan(r@[i]@, self@),
            self@.len() == 0 ==> r@.len() == 0,
    {
        let mut out: Vec<FileOperation> = Vec::new();
        let mut i: usize = 0;
        while i < self.operations.len()
            invariant
                0 <= i <= self.operations@.len(),
                out@.len() <= i,
                forall|k: int| 0 <= k < out@.len() ==> #[trigger] op_in_plan(out@[k]@, self@),
            decreases self.operations@.len() - i,
        {
            let op = &self.operations[i];
            if op.would_overwrite() {
                if op.destination().is_some() {
                    out.push(copy_operation(op));
                    proof {
                        assert(self@[i as int] == self.operations@[i as int]@);
                        assert(0 <= (i as int) && (i as int) < self@.len());
                        assert(out@[out@.len() - 1]@ == self@[i as int]);
                        assert(!(self@[i as int].destination() is None));
                        assert(op_in_plan(out@[out@.len() - 1]@, self@));
                    }
                }
            }
            i = i + 1;
        }
        out
    }

    /// Whether any operation's destination exists on disk right now. The
    /// disk decides the answer, so the contract fixes only what holds
    /// whatever it says: a plan without destinations — empty, or deletions
    /// only — never conflicts, and a reported conflict names an operation
    /// that carries a destination.
    pub fn has_conflicts(&self) -> (r: bool)
        ensures
            (forall|j: int| 0 <= j < self@.len() ==> (#[trigger] self@[j]).destination() is None)
                ==> !r,
            r ==> exists|j: int|
                0 <= j < self@.len() && !((#[trigger] self@[j]).destination() is None),
    {
        let mut i: usize = 0;
        while i < self.operations.len()
            invariant
                0 <= i <= self.operations@.len(),
            decreases self.operations@.len() - i,
        {
            if self.operations[i].would_overwrite() {
                proof {
                    assert(self@[i as int] == self.operations@[i as int]@);
                    assert(!(self@[i as int].destination() is None));
                }
                return true;
            }
            i = i + 1;
        }
        false
    }

    /// The pure counterpart of [`Self::conflicts`]: the operations whose
    /// destination is among the given existing paths, in plan order.
    pub fn conflicts_given(&self, existing: &Vec<String>) -> (r: Vec<FileOperation>)
        ensures
            r@.map_values(|op: FileOperation| op@) == conflicts_spec(self@, existing@),
    {
        let mut out: Vec<FileOperation> = Vec::new();
        let mut i: usize = 0;
        while i < self.operations.len()
            invariant
                0 <= i <= self.operations@.len(),
                existing@ == existing@,
                out@.map_values(|op: FileOperation| op@) == conflicts_spec(
                    self@.take(i as int),
                    existing@,
                ),
            decreases self.operations@.len() - i,
        {
            let ghost prefix = self@.take(i as int);
            let op = &self.operations[i];
            proof {
                assert(self@.take(i + 1).drop_last() =~= prefix);
                assert(self@.take(i + 1).last() == self@[i as int]);
            }
            if op.would_overwrite_given(existing) {
                out.push(copy_operation(op));
                proof {
                    assert(out@.map_values(|op: FileOperation| op@) =~= conflicts_spec(
                        self@.take(i + 1),
                        existing@,
                    ));
                }
            } else {
                proof {
                    assert(out@.map_values(|op: FileOperation| op@) =~= conflicts_spec(
                        self@.take(i + 1),
                        existing@,
                    ));
                }
            }
            i = i + 1;
        }
        proof {
            assert(self@.take(self.operations@.len() as int) =~= self@);
        }
        out
    }

    /// The pure counterpart of [`Self::has_conflicts`]: whether any
    /// operation's destination is among the given existing paths.
    pub fn has_conflicts_given(&self, existing: &Vec<String>) -> (r: bool)
        ensures
            r == exists|j: int| 0 <= j < self@.len() && op_conflicts(#[trigger] self@[j], existing@),
    {
        let mut i: usize = 0;
        while i < self.operations.len()
            invariant
                0 <= i <= self.operations@.len(),
                forall|j: int| 0 <= j < i ==> !op_conflicts(#[trigger] self@[j], existing@),
            decreases self.operations@.len() - i,
        {
            if self.operations[i].would_overwrite_given(existing) {
                proof {
                    assert(self@[i as int] == self.operations@[i as int]@);
                    assert(op_conflicts(self@[i as int], existing@));
                }
                return true;
            }
            proof {
                assert(self@[i as int] == self.operations@[i as int]@);
            }
            i = i + 1;
        }
        false
    }
}

/// A proposed post-operation value paired with the plan that would realize
/// it. Constructing one performs no operation: it is purely descriptive.
pub struct Planned<T> {
    pub proposed: T,
    pub plan: OperationPlan,
}

} // verus!
