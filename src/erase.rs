use vstd::prelude::*;

verus! {

/// Size of the blocks a pass writes.
pub const BLOCK_SIZE: u64 = 4096;

/// The byte values the passes write, in turn: all zeros, all ones, then two alternating
/// patterns.
pub open spec fn patterns() -> Seq<u8> {
    seq![0x00u8, 0xFFu8, 0xAAu8, 0x55u8]
}

/// The byte value that pass number `pass` (counting from 0) writes.
pub open spec fn pattern_of(pass: nat) -> u8 {
    patterns()[(pass % 4) as int]
}

/// The lengths of the blocks one pass writes over a file of `size` bytes, in order: full
/// blocks, then what is left.
pub open spec fn blocks(size: nat) -> Seq<nat>
    decreases size,
{
    if size == 0 {
        Seq::empty()
    } else if size <= BLOCK_SIZE {
        seq![size]
    } else {
        seq![BLOCK_SIZE as nat] + blocks((size - BLOCK_SIZE) as nat)
    }
}

/// The sum of a sequence of lengths.
pub open spec fn total(lengths: Seq<nat>) -> nat
    decreases lengths.len(),
{
    if lengths.len() == 0 {
        0
    } else {
        lengths[0] + total(lengths.drop_first())
    }
}

/// The byte value that pass number `pass` writes over the whole file.
pub fn pass_pattern(pass: usize) -> (r: u8)
    ensures
        r == pattern_of(pass as nat),
{
    let values: [u8; 4] = [0x00u8, 0xFFu8, 0xAAu8, 0x55u8];
    assert(values@ =~= patterns());
    values[pass % 4]
}

/// The length of the next block of a pass, `remaining` bytes being left to write.
pub fn block_len(remaining: u64) -> (r: usize)
    ensures
        r == if remaining < BLOCK_SIZE { remaining } else { BLOCK_SIZE },
        remaining > 0 ==> blocks(remaining as nat) == seq![r as nat] + blocks(
            (remaining - r) as nat,
        ),
{
    if remaining > 0 {
        let ghost n = remaining as nat;
        if remaining <= BLOCK_SIZE {
            assert(blocks(0) =~= Seq::<nat>::empty());
            assert(blocks(n) =~= seq![n] + blocks(0));
        }
    }
    if remaining < BLOCK_SIZE {
        remaining as usize
    } else {
        BLOCK_SIZE as usize
    }
}

/// A block of `len` bytes, each of them `pattern`.
pub fn pattern_block(pattern: u8, len: usize) -> (r: Vec<u8>)
    ensures
        r@.len() == len,
        forall|i: int| 0 <= i < len ==> r@[i] == pattern,
{
    let mut block: Vec<u8> = Vec::with_capacity(len);
    let mut i: usize = 0;
    while i < len
        invariant
            i <= len,
            block@.len() == i,
            forall|j: int| 0 <= j < i ==> block@[j] == pattern,
        decreases len - i,
    {
        block.push(pattern);
        i = i + 1;
    }
    block
}

/// The passes cycle through the four patterns: pass `pass + 4` writes what pass `pass` wrote,
/// and four consecutive passes write four distinct values.
pub proof fn lemma_patterns_cycle(pass: nat)
    ensures
        pattern_of(pass + 4) == pattern_of(pass),
        pattern_of(0) == 0x00u8,
        pattern_of(1) == 0xFFu8,
        pattern_of(2) == 0xAAu8,
        pattern_of(3) == 0x55u8,
{
    assert((pass + 4) % 4 == pass % 4);
}

/// One pass covers the whole file: its blocks add up to the file's size, none is empty and
/// none is longer than a block.
pub proof fn lemma_pass_covers_file(size: nat)
    ensures
        total(blocks(size)) == size,
        forall|i: int|
            0 <= i < blocks(size).len() ==> 0 < #[trigger] blocks(size)[i] <= BLOCK_SIZE,
    decreases size,
{
    if size == 0 {
    } else if size <= BLOCK_SIZE {
        assert(seq![size].drop_first() =~= Seq::<nat>::empty());
        assert(total(Seq::<nat>::empty()) == 0);
        assert(total(seq![size]) == size + total(Seq::<nat>::empty()));
    } else {
        let rest = (size - BLOCK_SIZE) as nat;
        lemma_pass_covers_file(rest);
        assert((seq![BLOCK_SIZE as nat] + blocks(rest)).drop_first() =~= blocks(rest));
        assert forall|i: int| 0 <= i < blocks(size).len() implies 0 < #[trigger] blocks(
            size,
        )[i] <= BLOCK_SIZE by {
            if i > 0 {
                assert(blocks(size)[i] == blocks(rest)[i - 1]);
            }
        }
    }
}

/// A filesystem entry to erase, as the walk found it.
pub enum EraseTree {
    File { path: String },
    Dir { path: String, children: Vec<EraseTree> },
}

/// One step of an erase, carried out in order; the first that fails ends the erase.
pub enum EraseStep {
    /// Overwrite the file with the passes, then remove it.
    EraseFile { path: String },
    /// Remove the directory, empty by then.
    RemoveDir { path: String },
}

/// Mathematical model of [`EraseStep`].
pub ghost enum StepView {
    EraseFile(Seq<char>),
    RemoveDir(Seq<char>),
}

impl View for EraseStep {
    type V = StepView;

    open spec fn view(&self) -> StepView {
        match self {
            EraseStep::EraseFile { path } => StepView::EraseFile(path@),
            EraseStep::RemoveDir { path } => StepView::RemoveDir(path@),
        }
    }
}

/// The models of a list of steps.
pub open spec fn steps_view(steps: Seq<EraseStep>) -> Seq<StepView> {
    steps.map_values(|s: EraseStep| s@)
}

/// The steps that erase `t`: a file is erased on its own; a directory's entries are erased
/// first, in order, each completely, and the directory is removed after them.
pub open spec fn plan_of(t: EraseTree) -> Seq<StepView>
    decreases t, 0nat,
{
    match t {
        EraseTree::File { path } => seq![StepView::EraseFile(path@)],
        EraseTree::Dir { path, children } => plan_of_entries(children@, children@.len()).push(
            StepView::RemoveDir(path@),
        ),
    }
}

/// The steps that erase the first `n` of `entries`, one entry after another.
pub open spec fn plan_of_entries(entries: Seq<EraseTree>, n: nat) -> Seq<StepView>
    decreases entries, n,
{
    if n == 0 || n > entries.len() {
        Seq::empty()
    } else {
        plan_of_entries(entries, (n - 1) as nat) + plan_of(entries[n - 1])
    }
}

/// Appends to `out` the steps that erase `t`.
pub fn append_plan(t: &EraseTree, out: &mut Vec<EraseStep>)
    ensures
        steps_view(final(out)@) == steps_view(old(out)@) + plan_of(*t),
    decreases t,
{
    match t {
        EraseTree::File { path } => {
            let ghost before = out@;
            out.push(EraseStep::EraseFile { path: path.clone() });
            assert(steps_view(out@) =~= steps_view(before) + plan_of(*t));
        },
        EraseTree::Dir { path, children } => {
            let ghost start = steps_view(out@);
            let mut i: usize = 0;
            while i < children.len()
                invariant
                    *t == (EraseTree::Dir { path: *path, children: *children }),
                    i <= children@.len(),
                    steps_view(out@) == start + plan_of_entries(children@, i as nat),
                decreases children@.len() - i,
            {
                let ghost mid = steps_view(out@);
                proof {
                    broadcast use vstd::std_specs::vec::axiom_vec_decreases_to_view;

                    assert(decreases_to!(*t => (*t)->children));
                    assert(decreases_to!((*t)->children => children@));
                    assert(decreases_to!(children@ => children@[i as int]));
                }
                append_plan(&children[i], out);
                assert(steps_view(out@) =~= start + plan_of_entries(children@, (i + 1) as nat));
                i = i + 1;
            }
            let ghost before = out@;
            out.push(EraseStep::RemoveDir { path: path.clone() });
            assert(steps_view(out@) =~= steps_view(before).push(StepView::RemoveDir(path@)));
            assert(steps_view(out@) =~= start + plan_of(*t));
        },
    }
}

/// The steps that erase `t`, in the order they are to be carried out.
pub fn erase_plan(t: &EraseTree) -> (r: Vec<EraseStep>)
    ensures
        steps_view(r@) == plan_of(*t),
{
    let mut out: Vec<EraseStep> = Vec::new();
    append_plan(t, &mut out);
    assert(steps_view(Seq::<EraseStep>::empty()) =~= Seq::<StepView>::empty());
    assert(plan_of(*t) =~= Seq::<StepView>::empty() + plan_of(*t));
    out
}

/// A directory is removed last: after every step of every entry in it.
pub proof fn lemma_directory_removed_last(path: String, children: Vec<EraseTree>)
    ensures
        plan_of(EraseTree::Dir { path, children }) == plan_of_entries(
            children@,
            children@.len(),
        ).push(StepView::RemoveDir(path@)),
        plan_of(EraseTree::Dir { path, children }).last() == StepView::RemoveDir(path@),
{
}

/// The block lengths of one pass over a file of `size` bytes, in order.
pub fn pass_blocks(size: u64) -> (r: Vec<u64>)
    ensures
        r@.map_values(|n: u64| n as nat) == blocks(size as nat),
{
    let mut out: Vec<u64> = Vec::new();
    let mut remaining = size;
    while remaining > 0
        invariant
            remaining <= size,
            out@.map_values(|n: u64| n as nat) + blocks(remaining as nat) == blocks(size as nat),
        decreases remaining,
    {
        let n = block_len(remaining) as u64;
        let ghost before = out@.map_values(|n: u64| n as nat);
        out.push(n);
        assert(out@.map_values(|n: u64| n as nat) =~= before.push(n as nat));
        assert(before.push(n as nat) + blocks((remaining - n) as nat) =~= before + (seq![n as nat]
            + blocks((remaining - n) as nat)));
        remaining = remaining - n;
    }
    assert(blocks(0) =~= Seq::<nat>::empty());
    assert(out@.map_values(|n: u64| n as nat) + Seq::<nat>::empty() =~= out@.map_values(
        |n: u64| n as nat,
    ));
    out
}

/// An erase in progress: the plan, how many of its steps succeeded, and whether the step after
/// them failed. Steps are carried out in order, and none after a failed one.
pub struct EraseRun {
    pub plan: Vec<EraseStep>,
    pub done: usize,
    pub failed: bool,
}

impl EraseRun {
    /// The run that erases `t`, with no step carried out yet.
    pub fn new(t: &EraseTree) -> (r: EraseRun)
        ensures
            steps_view(r.plan@) == plan_of(*t),
            r.done == 0,
            !r.failed,
    {
        EraseRun { plan: erase_plan(t), done: 0, failed: false }
    }

    /// The index of the step to carry out next; `None` once every step succeeded or after a
    /// failure.
    pub fn next_step(&self) -> (r: Option<usize>)
        ensures
            r == (if self.failed || self.done >= self.plan@.len() {
                None
            } else {
                Some(self.done)
            }),
    {
        if self.failed || self.done >= self.plan.len() {
            None
        } else {
            Some(self.done)
        }
    }

    /// Records the outcome of the step [`EraseRun::next_step`] gave.
    pub fn record(&mut self, succeeded: bool)
        requires
            !old(self).failed,
            old(self).done < old(self).plan@.len(),
        ensures
            final(self).plan == old(self).plan,
            final(self).done == (if succeeded { old(self).done + 1 } else { old(self).done as int }),
            final(self).failed == !succeeded,
    {
        let n = self.plan.len();
        if succeeded {
            assert(self.done < n);
            self.done = self.done + 1;
        } else {
            self.failed = true;
        }
    }
}

/// The steps of an erase that stopped when step `failed_at` failed: those before it, and it.
pub open spec fn attempted(plan: Seq<StepView>, failed_at: int) -> Seq<StepView> {
    plan.take(failed_at + 1)
}

/// When a step for one of a directory's entries fails, the directory is not removed: its
/// removal is the plan's last step, and it comes after every step of its entries.
pub proof fn lemma_failed_entry_keeps_directory(
    path: String,
    children: Vec<EraseTree>,
    failed_at: int,
)
    requires
        0 <= failed_at < plan_of_entries(children@, children@.len()).len(),
    ensures
        plan_of(EraseTree::Dir { path, children }).len() == plan_of_entries(
            children@,
            children@.len(),
        ).len() + 1,
        !attempted(plan_of(EraseTree::Dir { path, children }), failed_at).contains(
            StepView::RemoveDir(path@),
        ) || plan_of_entries(children@, children@.len()).contains(StepView::RemoveDir(path@)),
{
    let plan = plan_of(EraseTree::Dir { path, children });
    let entries = plan_of_entries(children@, children@.len());
    assert(plan == entries.push(StepView::RemoveDir(path@)));
    let done = attempted(plan, failed_at);
    if done.contains(StepView::RemoveDir(path@)) {
        let j = choose|j: int| 0 <= j < done.len() && done[j] == StepView::RemoveDir(path@);
        assert(entries[j] == StepView::RemoveDir(path@));
    }
}

} // verus!
