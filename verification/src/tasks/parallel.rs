//! Parallel branches: several sequences run side by side on copies of the
//! context, and the flow goes on when they are done.

use vstd::prelude::*;

use crate::aspect::AspectContext;
use crate::error::{PipelineError, PipelineResult};
use crate::tasks::{IChildrenFlow, IContext, SequenceTask, StrategicTask};

verus! {

/// Whether `i` is the first index of `bs` that holds the name `name`.
pub open spec fn first_named<L>(bs: Seq<(Seq<char>, L)>, name: Seq<char>, i: int) -> bool {
    &&& 0 <= i < bs.len()
    &&& bs[i].0 == name
    &&& forall|j: int| 0 <= j < i ==> bs[j].0 != name
}

/// Whether no earlier branch of `bs` has the name of branch `i`.
pub open spec fn is_first<L>(bs: Seq<(Seq<char>, L)>, i: int) -> bool {
    first_named(bs, bs[i].0, i)
}

/// Whether no name occurs twice in `bs`.
pub open spec fn names_unique<L>(bs: Seq<(Seq<char>, L)>) -> bool {
    forall|i: int, j: int| 0 <= i < j < bs.len() ==> bs[i].0 != bs[j].0
}

/// The branch named `name`, if there is one.
pub open spec fn lookup<L>(bs: Seq<(Seq<char>, L)>, name: Seq<char>) -> Option<L> {
    if exists|i: int| first_named(bs, name, i) {
        Some(bs[choose|i: int| first_named(bs, name, i)].1)
    } else {
        None
    }
}

/// The branches after the branch `name` was set to `line`: it takes the place
/// of a branch of that name, or comes last.
pub open spec fn with_branch<L>(bs: Seq<(Seq<char>, L)>, name: Seq<char>, line: L) -> Seq<
    (Seq<char>, L),
> {
    if exists|i: int| first_named(bs, name, i) {
        bs.update(choose|i: int| first_named(bs, name, i), (name, line))
    } else {
        bs.push((name, line))
    }
}

/// `c` after each of `others` was merged into it, in order.
pub open spec fn merge_all<C: IContext>(c: C, others: Seq<C>) -> C
    decreases others.len(),
{
    if others.len() == 0 {
        c
    } else {
        merge_all(c, others.drop_last()).merged(others.last())
    }
}

/// The errors among `results`, in order.
pub open spec fn errors_of(results: Seq<PipelineResult<()>>) -> Seq<PipelineError>
    decreases results.len(),
{
    if results.len() == 0 {
        Seq::empty()
    } else {
        let rest = errors_of(results.drop_last());
        match results.last() {
            Err(e) => rest.push(e),
            Ok(()) => rest,
        }
    }
}

/// The children of the branches, branch after branch.
pub open spec fn flatten<K, D>(lines: Seq<SequenceTask<K, D>>) -> Seq<StrategicTask<K, D>>
    decreases lines.len(),
{
    if lines.len() == 0 {
        Seq::empty()
    } else {
        flatten(lines.drop_last()) + lines.last().children()
    }
}

/// A set of named branches to which a branch can be added.
pub trait ParallelTaskEx<K, D>: Sized {
    /// The branches, with their names, in the order in which they were added.
    spec fn branches(&self) -> Seq<(Seq<char>, SequenceTask<K, D>)>;

    /// Sets the branch named `branch` to `next`: a branch of that name is
    /// replaced, otherwise `next` is added.
    fn branch(&mut self, branch: String, next: SequenceTask<K, D>) -> (r: &mut Self)
        ensures
            r.branches() == with_branch(old(self).branches(), branch@, next),
            *final(self) == *final(r),
    ;
}

/// Named branches, each a sequence of tasks, that run side by side.
///
/// `condition` picks, from the context, the names of the branches to run;
/// each picked branch runs on its own copy of the context, and each copy is
/// merged back. With `await_next_all` the task waits for every picked branch
/// and fails when one of them failed, with all their errors; otherwise the
/// first branch to finish decides.
#[derive(Clone)]
pub struct ParallelTask<K, D, F> {
    nexts: Vec<(String, SequenceTask<K, D>)>,
    condition: F,
    await_next_all: bool,
}

impl<K, D, F> ParallelTask<K, D, F> {
    /// The branches, with their names.
    pub closed spec fn spec_branches(&self) -> Seq<(Seq<char>, SequenceTask<K, D>)> {
        self.nexts@.map_values(|p: (String, SequenceTask<K, D>)| (p.0@, p.1))
    }

    /// The sequences of the branches.
    pub closed spec fn spec_lines(&self) -> Seq<SequenceTask<K, D>> {
        self.nexts@.map_values(|p: (String, SequenceTask<K, D>)| p.1)
    }

    /// The function that picks the branches to run.
    pub closed spec fn spec_condition(&self) -> F {
        self.condition
    }

    /// Whether every picked branch is awaited.
    pub closed spec fn awaits_all(&self) -> bool {
        self.await_next_all
    }

    /// The sequences of the branches are those of `spec_branches`, in order.
    pub proof fn lemma_lines(&self)
        ensures
            self.spec_lines() == self.spec_branches().map_values(
                |p: (Seq<char>, SequenceTask<K, D>)| p.1,
            ),
    {
        assert(self.spec_lines() =~= self.spec_branches().map_values(
            |p: (Seq<char>, SequenceTask<K, D>)| p.1,
        ));
    }

    /// No branches yet.
    pub fn new(condition: F, await_next_all: bool) -> (r: Self)
        ensures
            r.spec_branches() == Seq::<(Seq<char>, SequenceTask<K, D>)>::empty(),
            r.spec_lines() == Seq::<SequenceTask<K, D>>::empty(),
            r.children() == Seq::<StrategicTask<K, D>>::empty(),
            r.spec_condition() == condition,
            r.awaits_all() == await_next_all,
    {
        let r = ParallelTask { nexts: Vec::new(), condition, await_next_all };
        assert(r.spec_branches() =~= Seq::<(Seq<char>, SequenceTask<K, D>)>::empty());
        assert(r.spec_lines() =~= Seq::<SequenceTask<K, D>>::empty());
        r
    }

    /// The function that picks the branches to run.
    pub fn condition(&self) -> (r: &F)
        ensures
            *r == self.spec_condition(),
    {
        &self.condition
    }

    /// Whether every picked branch is awaited.
    pub fn await_next_all(&self) -> (r: bool)
        ensures
            r == self.awaits_all(),
    {
        self.await_next_all
    }

    /// The number of branches.
    pub fn len(&self) -> (r: usize)
        ensures
            r == self.spec_branches().len(),
    {
        self.nexts.len()
    }

    /// The sequence of branch `index`.
    pub fn line_at(&self, index: usize) -> (r: &SequenceTask<K, D>)
        requires
            index < self.spec_branches().len(),
        ensures
            *r == self.spec_branches()[index as int].1,
    {
        &self.nexts[index].1
    }

    /// Whether `name` is among `names`.
    fn named_in(names: &Vec<String>, name: &String) -> (r: bool)
        ensures
            r == names@.map_values(|s: String| s@).contains(name@),
    {
        let ghost views = names@.map_values(|s: String| s@);
        let mut j: usize = 0;
        while j < names.len()
            invariant
                j <= names@.len(),
                views == names@.map_values(|s: String| s@),
                forall|k: int| 0 <= k < j ==> views[k] != name@,
            decreases names@.len() - j,
        {
            if names[j] == *name {
                assert(views[j as int] == name@);
                return true;
            }
            j = j + 1;
        }
        false
    }

    /// Whether no branch before `index` has the name of branch `index`.
    fn first_of_name(&self, index: usize) -> (r: bool)
        requires
            index < self.spec_branches().len(),
        ensures
            r == is_first(self.spec_branches(), index as int),
    {
        let ghost bs = self.spec_branches();
        let mut j: usize = 0;
        while j < index
            invariant
                j <= index,
                index < self.nexts@.len(),
                bs == self.spec_branches(),
                forall|k: int| 0 <= k < j ==> bs[k].0 != bs[index as int].0,
            decreases index - j,
        {
            if self.nexts[j].0 == self.nexts[index].0 {
                assert(bs[j as int].0 == self.nexts@[j as int].0@);
                assert(bs[index as int].0 == self.nexts@[index as int].0@);
                return false;
            }
            j = j + 1;
        }
        true
    }

    /// The branches to run when the condition gave `names`: in the order of
    /// the branches, each branch whose name is among `names`, one branch per
    /// name.
    pub fn select(&self, names: &Vec<String>) -> (r: Vec<usize>)
        ensures
            forall|k: int|
                0 <= k < r@.len() ==> {
                    &&& #[trigger] r@[k] < self.spec_branches().len()
                    &&& names@.map_values(|s: String| s@).contains(
                        self.spec_branches()[r@[k] as int].0,
                    )
                    &&& is_first(self.spec_branches(), r@[k] as int)
                },
            forall|k1: int, k2: int| 0 <= k1 < k2 < r@.len() ==> r@[k1] < r@[k2],
            forall|i: int|
                0 <= i < self.spec_branches().len() && names@.map_values(|s: String| s@).contains(
                    self.spec_branches()[i].0,
                ) && is_first(self.spec_branches(), i) ==> r@.contains(i as usize),
    {
        let ghost bs = self.spec_branches();
        let ghost views = names@.map_values(|s: String| s@);
        let mut r: Vec<usize> = Vec::new();
        let mut i: usize = 0;
        while i < self.nexts.len()
            invariant
                i <= self.nexts@.len(),
                bs == self.spec_branches(),
                views == names@.map_values(|s: String| s@),
                forall|k: int|
                    0 <= k < r@.len() ==> {
                        &&& #[trigger] r@[k] < i
                        &&& views.contains(bs[r@[k] as int].0)
                        &&& is_first(bs, r@[k] as int)
                    },
                forall|k1: int, k2: int| 0 <= k1 < k2 < r@.len() ==> r@[k1] < r@[k2],
                forall|m: int|
                    0 <= m < i && views.contains(bs[m].0) && is_first(bs, m) ==> r@.contains(
                        m as usize,
                    ),
            decreases self.nexts@.len() - i,
        {
            let picked = Self::named_in(names, &self.nexts[i].0) && self.first_of_name(i);
            if picked {
                let ghost before = r@;
                r.push(i);
                assert forall|m: int|
                    0 <= m < i + 1 && views.contains(bs[m].0) && is_first(bs, m) implies r@.contains(
                    m as usize,
                ) by {
                    if m < i {
                        let k = choose|k: int| 0 <= k < before.len() && before[k] == m as usize;
                        assert(r@[k] == m as usize);
                    } else {
                        assert(r@[before.len() as int] == i);
                    }
                }
            }
            i = i + 1;
        }
        r
    }

    /// Brings the branches' results back: `outcomes` holds, for each branch
    /// that is taken into account, its result and its copy of the context,
    /// in order.
    ///
    /// When every branch is awaited, each copy is merged into `context` in
    /// order, and the result fails, with all the branches' errors in order,
    /// when one of them failed. Otherwise `outcomes` starts with the branch
    /// that finished first: its copy is merged and its result is the result.
    pub fn conclude<C: IContext>(
        &self,
        context: &mut AspectContext<C>,
        outcomes: Vec<(PipelineResult<()>, AspectContext<C>)>,
    ) -> (r: PipelineResult<()>)
        requires
            !self.awaits_all() ==> outcomes@.len() >= 1,
        ensures
            final(context).is_canceled() == old(context).is_canceled(),
            self.awaits_all() ==> {
                &&& final(context).data() == merge_all(
                    old(context).data(),
                    outcomes@.map_values(|o: (PipelineResult<()>, AspectContext<C>)| o.1.data()),
                )
                &&& (r is Ok <==> errors_of(
                    outcomes@.map_values(|o: (PipelineResult<()>, AspectContext<C>)| o.0),
                ).len() == 0)
                &&& (r matches Err(e) ==> (e matches PipelineError::Aggregated(v) && v@
                    == errors_of(
                    outcomes@.map_values(|o: (PipelineResult<()>, AspectContext<C>)| o.0),
                )))
            },
            !self.awaits_all() ==> {
                &&& final(context).data() == old(context).data().merged(outcomes@[0].1.data())
                &&& r == outcomes@[0].0
            },
    {
        let mut outcomes = outcomes;
        if self.await_next_all {
            let ghost all = outcomes@;
            let ghost datas = all.map_values(|o: (PipelineResult<()>, AspectContext<C>)| o.1.data());
            let ghost results = all.map_values(|o: (PipelineResult<()>, AspectContext<C>)| o.0);
            let ghost start = context.data();
            let mut errors: Vec<PipelineError> = Vec::new();
            let mut i: usize = 0;
            let n = outcomes.len();
            while outcomes.len() > 0
                invariant
                    n == all.len(),
                    i + outcomes@.len() == n,
                    outcomes@ == all.skip(i as int),
                    datas == all.map_values(|o: (PipelineResult<()>, AspectContext<C>)| o.1.data()),
                    results == all.map_values(|o: (PipelineResult<()>, AspectContext<C>)| o.0),
                    context.data() == merge_all(start, datas.take(i as int)),
                    context.is_canceled() == old(context).is_canceled(),
                    start == old(context).data(),
                    errors@ == errors_of(results.take(i as int)),
                decreases outcomes@.len(),
            {
                let (result, copy) = outcomes.remove(0);
                assert(all[i as int] == (result, copy));
                context.current_mut().merge(copy.current());
                assert(datas.take(i + 1).drop_last() == datas.take(i as int));
                assert(results.take(i + 1).drop_last() == results.take(i as int));
                match result {
                    Err(e) => {
                        errors.push(e);
                    },
                    Ok(()) => {},
                }
                i = i + 1;
                assert(outcomes@ == all.skip(i as int));
            }
            assert(datas.take(n as int) == datas);
            assert(results.take(n as int) == results);
            if errors.len() > 0 {
                Err(PipelineError::Aggregated(errors))
            } else {
                Ok(())
            }
        } else {
            let (result, copy) = outcomes.remove(0);
            context.current_mut().merge(copy.current());
            result
        }
    }
}

impl<K, D, F> IChildrenFlow<StrategicTask<K, D>> for ParallelTask<K, D, F> {
    /// The children of all branches, branch after branch.
    open spec fn children(&self) -> Seq<StrategicTask<K, D>> {
        flatten(self.spec_lines())
    }

    fn child_at_mut(&mut self, index: usize) -> (r: Option<&mut StrategicTask<K, D>>)
        ensures
            final(self).spec_condition() == old(self).spec_condition(),
            final(self).awaits_all() == old(self).awaits_all(),
            final(self).spec_branches().len() == old(self).spec_branches().len(),
            forall|i: int|
                #![trigger final(self).spec_branches()[i]]
                0 <= i < old(self).spec_branches().len() ==> {
                    let now = final(self).spec_branches()[i];
                    let was = old(self).spec_branches()[i];
                    now.0 == was.0 && now.1.spec_flow().end_step() == was.1.spec_flow().end_step()
                },
    {
        let ghost lines = self.spec_lines();
        let mut b: usize = 0;
        let mut offset: usize = 0;
        while b < self.nexts.len()
            invariant
                b <= self.nexts@.len(),
                *self == *old(self),
                lines == self.spec_lines(),
                lines.len() == self.nexts@.len(),
                offset == flatten(lines.take(b as int)).len(),
                offset <= index,
            decreases self.nexts@.len() - b,
        {
            let count = self.nexts[b].1.flow().len();
            proof {
                assert(lines[b as int] == self.nexts@[b as int].1);
                assert(lines.take(b + 1).drop_last() =~= lines.take(b as int));
                assert(flatten(lines.take(b + 1)) == flatten(lines.take(b as int))
                    + lines[b as int].children());
            }
            if index - offset < count {
                let k = index - offset;
                proof {
                    lemma_flatten_split(lines, b as int);
                    lemma_child_update(self.nexts@, b as int, k as int);
                    lemma_branch_update_keeps(self.nexts@, b as int);
                }
                let entry = &mut self.nexts[b];
                let line = &mut entry.1;
                let r = line.child_at_mut(k);
                return r;
            }
            offset = offset + count;
            b = b + 1;
        }
        proof {
            assert(lines.take(b as int) =~= lines);
        }
        None
    }
}

impl<K, D, F> ParallelTaskEx<K, D> for ParallelTask<K, D, F> {
    open spec fn branches(&self) -> Seq<(Seq<char>, SequenceTask<K, D>)> {
        self.spec_branches()
    }

    fn branch(&mut self, branch: String, next: SequenceTask<K, D>) -> (r: &mut Self)
        ensures
            r.spec_condition() == old(self).spec_condition(),
            r.awaits_all() == old(self).awaits_all(),
    {
        let ghost bs = self.spec_branches();
        let ghost name = branch@;
        let mut i: usize = 0;
        while i < self.nexts.len()
            invariant
                i <= self.nexts@.len(),
                bs == self.spec_branches(),
                name == branch@,
                *self == *old(self),
                forall|k: int| 0 <= k < i ==> bs[k].0 != name,
            decreases self.nexts@.len() - i,
        {
            if self.nexts[i].0 == branch {
                assert(bs[i as int].0 == self.nexts@[i as int].0@);
                assert(first_named(bs, name, i as int));
                proof {
                    lemma_first_named_unique(bs, name, i as int);
                }
                self.nexts.set(i, (branch, next));
                assert(self.spec_branches() =~= with_branch(bs, name, next));
                return self;
            }
            i = i + 1;
        }
        assert(!exists|k: int| first_named(bs, name, k));
        self.nexts.push((branch, next));
        assert(self.spec_branches() =~= with_branch(bs, name, next));
        self
    }
}

/// The first index that holds a name is unique.
/// Merging a list of copies is merging them one after the other, in order:
/// nothing is merged from an empty list, and the copy that ends a list is
/// merged into what the copies before it made.
pub proof fn law_merge_all_folds<C: IContext>(c: C, others: Seq<C>, x: C)
    ensures
        merge_all(c, Seq::<C>::empty()) == c,
        merge_all(c, others.push(x)) == merge_all(c, others).merged(x),
        merge_all(c, seq![x]) == c.merged(x),
{
    assert(others.push(x).drop_last() =~= others);
    assert(seq![x].drop_last() =~= Seq::<C>::empty());
}

/// The errors of a list of results are gathered one after the other, in
/// order: a failure adds its error, a success adds nothing.
pub proof fn law_errors_of_folds(results: Seq<PipelineResult<()>>, e: PipelineError)
    ensures
        errors_of(Seq::<PipelineResult<()>>::empty()) == Seq::<PipelineError>::empty(),
        errors_of(results.push(Err(e))) == errors_of(results).push(e),
        errors_of(results.push(Ok(()))) == errors_of(results),
{
    assert(results.push(Err(e)).drop_last() =~= results);
    assert(results.push(Ok(())).drop_last() =~= results);
}

proof fn lemma_first_named_unique<L>(bs: Seq<(Seq<char>, L)>, name: Seq<char>, i: int)
    requires
        first_named(bs, name, i),
    ensures
        (choose|k: int| first_named(bs, name, k)) == i,
{
    let k = choose|k: int| first_named(bs, name, k);
    assert(first_named(bs, name, k));
    if k < i {
        assert(bs[k].0 == name);
    } else if k > i {
        assert(bs[i].0 == name);
    }
}

/// Setting the branch `name` makes `name` lead to `line` and leaves every
/// other name as it was.
pub proof fn law_branch_sets_name<L>(bs: Seq<(Seq<char>, L)>, name: Seq<char>, line: L, n: Seq<char>)
    ensures
        lookup(with_branch(bs, name, line), n) == if n == name {
            Some(line)
        } else {
            lookup(bs, n)
        },
{
    let r = with_branch(bs, name, line);
    if exists|i: int| first_named(bs, name, i) {
        let i = choose|i: int| first_named(bs, name, i);
        assert(r == bs.update(i, (name, line)));
        if n == name {
            assert(first_named(r, name, i));
            lemma_first_named_unique(r, name, i);
        } else {
            if exists|k: int| first_named(bs, n, k) {
                let k = choose|k: int| first_named(bs, n, k);
                assert(first_named(r, n, k));
                lemma_first_named_unique(r, n, k);
            } else {
                assert forall|k: int| !first_named(r, n, k) by {
                    if first_named(r, n, k) {
                        assert(k != i);
                        assert forall|j: int| 0 <= j < k implies bs[j].0 != n by {
                            if j != i {
                                assert(r[j] == bs[j]);
                            }
                        }
                        assert(first_named(bs, n, k));
                    }
                }
            }
        }
    } else {
        assert(r == bs.push((name, line)));
        if n == name {
            let i = bs.len() as int;
            assert forall|j: int| 0 <= j < i implies r[j].0 != name by {
                assert(r[j] == bs[j]);
                if bs[j].0 == name {
                    lemma_some_first(bs, name, j);
                }
            }
            assert(first_named(r, name, i));
            lemma_first_named_unique(r, name, i);
        } else {
            if exists|k: int| first_named(bs, n, k) {
                let k = choose|k: int| first_named(bs, n, k);
                assert(first_named(r, n, k));
                lemma_first_named_unique(r, n, k);
            } else {
                assert forall|k: int| !first_named(r, n, k) by {
                    if first_named(r, n, k) {
                        assert(k < bs.len());
                        assert forall|j: int| 0 <= j < k implies bs[j].0 != n by {
                            assert(r[j] == bs[j]);
                        }
                        assert(first_named(bs, n, k));
                    }
                }
            }
        }
    }
}

/// Setting a branch never makes a name occur twice.
pub proof fn law_branch_keeps_names_unique<L>(bs: Seq<(Seq<char>, L)>, name: Seq<char>, line: L)
    requires
        names_unique(bs),
    ensures
        names_unique(with_branch(bs, name, line)),
{
    let r = with_branch(bs, name, line);
    if exists|i: int| first_named(bs, name, i) {
        let i = choose|i: int| first_named(bs, name, i);
        assert forall|a: int, b: int| 0 <= a < b < r.len() implies r[a].0 != r[b].0 by {
            if a == i {
                assert(bs[i].0 == name);
            } else if b == i {
                assert(bs[i].0 == name);
            }
        }
    } else {
        assert forall|a: int, b: int| 0 <= a < b < r.len() implies r[a].0 != r[b].0 by {
            if b == bs.len() {
                assert(!first_named(bs, name, a));
                assert(bs[a].0 != name) by {
                    if bs[a].0 == name {
                        let m = choose|m: int| 0 <= m < a && bs[m].0 == name;
                        assert(m < a);
                    }
                }
            }
        }
    }
}

/// Where no name occurs twice, every branch is the first of its name, so
/// `select` picks exactly the branches whose names the condition gave.
pub proof fn law_unique_names_are_first<L>(bs: Seq<(Seq<char>, L)>, i: int)
    requires
        names_unique(bs),
        0 <= i < bs.len(),
    ensures
        is_first(bs, i),
{
}

/// A name that occurs has a first index.
proof fn lemma_some_first<L>(bs: Seq<(Seq<char>, L)>, name: Seq<char>, j: int)
    requires
        0 <= j < bs.len(),
        bs[j].0 == name,
    ensures
        exists|i: int| first_named(bs, name, i),
    decreases j,
{
    if exists|m: int| 0 <= m < j && bs[m].0 == name {
        let m = choose|m: int| 0 <= m < j && bs[m].0 == name;
        lemma_some_first(bs, name, m);
    } else {
        assert(first_named(bs, name, j));
    }
}

/// Flattening the concatenation of two lists of branches concatenates their
/// flattenings.
proof fn lemma_flatten_append<K, D>(a: Seq<SequenceTask<K, D>>, b: Seq<SequenceTask<K, D>>)
    ensures
        flatten(a + b) == flatten(a) + flatten(b),
    decreases b.len(),
{
    if b.len() == 0 {
        assert(a + b =~= a);
        assert(flatten(b) =~= Seq::<StrategicTask<K, D>>::empty());
        assert(flatten(a) + flatten(b) =~= flatten(a));
    } else {
        lemma_flatten_append(a, b.drop_last());
        assert((a + b).drop_last() =~= a + b.drop_last());
        assert((a + b).last() == b.last());
        assert(flatten(a + b) =~= flatten(a) + flatten(b));
    }
}

/// The children of the branches around branch `b`.
proof fn lemma_flatten_split<K, D>(lines: Seq<SequenceTask<K, D>>, b: int)
    requires
        0 <= b < lines.len(),
    ensures
        flatten(lines) == flatten(lines.take(b)) + lines[b].children() + flatten(lines.skip(b + 1)),
        forall|l: SequenceTask<K, D>|
            #![trigger lines.update(b, l)]
            flatten(lines.update(b, l)) == flatten(lines.take(b)) + l.children() + flatten(
                lines.skip(b + 1),
            ),
{
    assert(lines =~= lines.take(b) + seq![lines[b]] + lines.skip(b + 1));
    lemma_flatten_append(lines.take(b) + seq![lines[b]], lines.skip(b + 1));
    lemma_flatten_append(lines.take(b), seq![lines[b]]);
    assert(seq![lines[b]].drop_last() =~= Seq::<SequenceTask<K, D>>::empty());
    lemma_flatten_single(lines[b]);
    assert forall|l: SequenceTask<K, D>|
        #![trigger lines.update(b, l)]
        flatten(lines.update(b, l)) == flatten(lines.take(b)) + l.children() + flatten(
            lines.skip(b + 1),
        ) by {
        let u = lines.update(b, l);
        assert(u =~= lines.take(b) + seq![l] + lines.skip(b + 1));
        lemma_flatten_append(lines.take(b) + seq![l], lines.skip(b + 1));
        lemma_flatten_append(lines.take(b), seq![l]);
        assert(seq![l].drop_last() =~= Seq::<SequenceTask<K, D>>::empty());
        lemma_flatten_single(l);
    }
}

proof fn lemma_flatten_single<K, D>(l: SequenceTask<K, D>)
    ensures
        flatten(seq![l]) == l.children(),
{
    let one = seq![l];
    assert(one.drop_last() =~= Seq::<SequenceTask<K, D>>::empty());
    assert(flatten(Seq::<SequenceTask<K, D>>::empty()) == Seq::<StrategicTask<K, D>>::empty());
    assert(flatten(one) == flatten(one.drop_last()) + one.last().children());
    assert(flatten(one) =~= l.children());
}

/// Changing child `k` of branch `b` changes the flattened children at the
/// branch's offset plus `k`.
proof fn lemma_child_update<K, D>(nexts: Seq<(String, SequenceTask<K, D>)>, b: int, k: int)
    requires
        0 <= b < nexts.len(),
        0 <= k < nexts[b].1.children().len(),
    ensures
        forall|p: (String, SequenceTask<K, D>)|
            #![trigger nexts.update(b, p)]
            p.1.children().len() == nexts[b].1.children().len() && (forall|j: int|
                0 <= j < p.1.children().len() && j != k ==> p.1.children()[j]
                    == nexts[b].1.children()[j]) ==> flatten(
                nexts.update(b, p).map_values(|q: (String, SequenceTask<K, D>)| q.1),
            ) == flatten(nexts.map_values(|q: (String, SequenceTask<K, D>)| q.1)).update(
                flatten(nexts.map_values(|q: (String, SequenceTask<K, D>)| q.1).take(b)).len() + k,
                p.1.children()[k],
            ),
{
    let lines = nexts.map_values(|q: (String, SequenceTask<K, D>)| q.1);
    lemma_flatten_split(lines, b);
    assert forall|p: (String, SequenceTask<K, D>)|
        #![trigger nexts.update(b, p)]
        p.1.children().len() == nexts[b].1.children().len() && (forall|j: int|
            0 <= j < p.1.children().len() && j != k ==> p.1.children()[j]
                == nexts[b].1.children()[j]) implies flatten(
            nexts.update(b, p).map_values(|q: (String, SequenceTask<K, D>)| q.1),
        ) == flatten(lines).update(flatten(lines.take(b)).len() + k, p.1.children()[k]) by {
        let after = nexts.update(b, p).map_values(|q: (String, SequenceTask<K, D>)| q.1);
        assert(after =~= lines.update(b, p.1));
        assert(p.1.children() =~= lines[b].children().update(k, p.1.children()[k]));
        assert(flatten(lines.update(b, p.1)) == flatten(lines.take(b)) + p.1.children() + flatten(
            lines.skip(b + 1),
        ));
        assert(flatten(after) =~= flatten(lines).update(
            flatten(lines.take(b)).len() + k,
            p.1.children()[k],
        ));
    }
}

/// Changing the sequence of branch `b` in place, with its name and its core
/// step kept, keeps every branch's name and core step.
proof fn lemma_branch_update_keeps<K, D>(nexts: Seq<(String, SequenceTask<K, D>)>, b: int)
    requires
        0 <= b < nexts.len(),
    ensures
        forall|p: (String, SequenceTask<K, D>)|
            #![trigger nexts.update(b, p)]
            p.0 == nexts[b].0 && p.1.spec_flow().end_step() == nexts[b].1.spec_flow().end_step()
                ==> {
                let before = nexts.map_values(|q: (String, SequenceTask<K, D>)| (q.0@, q.1));
                let after = nexts.update(b, p).map_values(
                    |q: (String, SequenceTask<K, D>)| (q.0@, q.1),
                );
                &&& after.len() == before.len()
                &&& forall|i: int|
                    0 <= i < before.len() ==> (#[trigger] after[i]).0 == before[i].0
                        && after[i].1.spec_flow().end_step() == before[i].1.spec_flow().end_step()
            },
{
    assert forall|p: (String, SequenceTask<K, D>)|
        #![trigger nexts.update(b, p)]
        p.0 == nexts[b].0 && p.1.spec_flow().end_step() == nexts[b].1.spec_flow().end_step()
            implies {
            let before = nexts.map_values(|q: (String, SequenceTask<K, D>)| (q.0@, q.1));
            let after = nexts.update(b, p).map_values(|q: (String, SequenceTask<K, D>)| (q.0@, q.1));
            &&& after.len() == before.len()
            &&& forall|i: int|
                0 <= i < before.len() ==> (#[trigger] after[i]).0 == before[i].0
                    && after[i].1.spec_flow().end_step() == before[i].1.spec_flow().end_step()
        } by {
        let before = nexts.map_values(|q: (String, SequenceTask<K, D>)| (q.0@, q.1));
        let after = nexts.update(b, p).map_values(|q: (String, SequenceTask<K, D>)| (q.0@, q.1));
        assert forall|i: int| 0 <= i < before.len() implies (#[trigger] after[i]).0 == before[i].0
            && after[i].1.spec_flow().end_step() == before[i].1.spec_flow().end_step() by {
            if i != b {
                assert(nexts.update(b, p)[i] == nexts[i]);
            }
        }
    }
}

} // verus!
