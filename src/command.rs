use vstd::prelude::*;
use crate::error::Error;

verus! {

/// One shell invocation of the pool, with its index.
#[derive(Debug, Clone)]
pub struct ExecutableCommand {
    pub idx: usize,
    pub command: String,
    pub args: Vec<String>,
}

/// What is needed to start a command as a child process: the program and
/// its arguments, in order.
#[derive(Debug, Clone)]
pub struct ProcessSpec {
    pub program: String,
    pub args: Vec<String>,
}

/// A command as a value: its index, program and arguments.
pub struct CommandView {
    pub idx: usize,
    pub command: Seq<char>,
    pub args: Seq<Seq<char>>,
}

/// The text of each string of `s`, in order.
pub open spec fn texts(s: Seq<String>) -> Seq<Seq<char>> {
    s.map_values(|a: String| a@)
}

impl View for ExecutableCommand {
    type V = CommandView;

    open spec fn view(&self) -> CommandView {
        CommandView { idx: self.idx, command: self.command@, args: texts(self.args@) }
    }
}

/// The value of each command of `s`, in order.
pub open spec fn views(s: Seq<ExecutableCommand>) -> Seq<CommandView> {
    s.map_values(|c: ExecutableCommand| c@)
}

impl ExecutableCommand {
    /// A copy of this command, field for field.
    pub fn duplicate(&self) -> (r: Self)
        ensures
            r@ == self@,
    {
        let args = self.args.clone();
        assert(args@ =~= self.args@);
        assert(texts(args@) =~= texts(self.args@));
        ExecutableCommand { idx: self.idx, command: self.command.clone(), args }
    }

    /// The process invocation of this command: `command` with `args`
    /// appended in order.
    pub fn as_command(&self) -> (r: ProcessSpec)
        ensures
            r.program == self.command,
            r.args@ == self.args@,
    {
        let args = self.args.clone();
        assert(args@ =~= self.args@);
        ProcessSpec { program: self.command.clone(), args }
    }
}

/// Commands ordered by `idx`, never decreasing.
pub open spec fn sorted_by_idx(s: Seq<CommandView>) -> bool {
    forall|i: int, j: int| 0 <= i < j < s.len() ==> s[i].idx <= s[j].idx
}

/// Every position of `index` addresses a command of `pool`, counting from 1.
pub open spec fn positions_in_bounds(pool: Seq<CommandView>, index: Seq<usize>) -> bool {
    forall|k: int| 0 <= k < index.len() ==> 1 <= #[trigger] index[k] <= pool.len()
}

/// The commands of `pool` at the 1-based positions of `index`, in the order
/// of `index`.
pub open spec fn selected(pool: Seq<CommandView>, index: Seq<usize>) -> Seq<CommandView> {
    Seq::new(index.len(), |k: int| pool[index[k] - 1])
}

/// The command pool: commands addressed by their position.
#[derive(Debug, Clone)]
pub struct CommandSet {
    commands: Vec<ExecutableCommand>,
}

impl View for CommandSet {
    type V = Seq<CommandView>;

    closed spec fn view(&self) -> Seq<CommandView> {
        views(self.commands@)
    }
}

/// The commands of `s` whose index is `k`, in their order in `s`.
pub open spec fn with_idx(s: Seq<CommandView>, k: usize) -> Seq<CommandView> {
    s.filter(|c: CommandView| c.idx == k)
}

/// `pool` is `loaded` ordered by `idx`: sorted, with the same commands, and
/// commands of equal index kept in their order in `loaded`.
pub open spec fn sorted_load_of(loaded: Seq<CommandView>, pool: Seq<CommandView>) -> bool {
    &&& sorted_by_idx(pool)
    &&& pool.to_multiset() == loaded.to_multiset()
    &&& forall|k: usize| #[trigger] with_idx(pool, k) == with_idx(loaded, k)
}

/// Inserting `x` after every command of index at most its own, and before
/// every command of a greater index, keeps each index's commands in the order
/// that appending `x` gives.
proof fn lemma_insert_keeps_idx_order(before: Seq<CommandView>, pos: int, x: CommandView, k: usize)
    requires
        0 <= pos <= before.len(),
        forall|j: int| 0 <= j < pos ==> before[j].idx <= x.idx,
        forall|j: int| pos <= j < before.len() ==> before[j].idx > x.idx,
    ensures
        with_idx(before.insert(pos, x), k) == with_idx(before.push(x), k),
{
    let pred = |c: CommandView| c.idx == k;
    let a = before.take(pos);
    let b = before.skip(pos);
    let xs = seq![x];
    assert(before.insert(pos, x) =~= (a + xs) + b);
    assert(before.push(x) =~= (a + b) + xs);
    Seq::filter_distributes_over_add(a + xs, b, pred);
    Seq::filter_distributes_over_add(a, xs, pred);
    Seq::filter_distributes_over_add(a + b, xs, pred);
    Seq::filter_distributes_over_add(a, b, pred);
    assert(Seq::<CommandView>::empty().push(x) =~= xs);
    Seq::<CommandView>::empty().lemma_filter_push(x, pred);
    reveal(Seq::filter);
    assert(Seq::<CommandView>::empty().filter(pred) =~= Seq::<CommandView>::empty());
    if k == x.idx {
        assert(b.all(|c: CommandView| !pred(c)));
        b.lemma_all_neg_filter_empty(pred);
        assert(b.filter(pred) =~= Seq::<CommandView>::empty());
        assert(a.filter(pred) + xs.filter(pred) + b.filter(pred) =~= a.filter(pred) + b.filter(pred)
            + xs.filter(pred));
    } else {
        assert(xs.filter(pred) =~= Seq::<CommandView>::empty());
        assert(a.filter(pred) + xs.filter(pred) + b.filter(pred) =~= a.filter(pred) + b.filter(pred)
            + xs.filter(pred));
    }
}

proof fn lemma_with_idx_push(s: Seq<CommandView>, x: CommandView, k: usize)
    ensures
        with_idx(s.push(x), k) == if x.idx == k {
            with_idx(s, k).push(x)
        } else {
            with_idx(s, k)
        },
{
    s.lemma_filter_push(x, |c: CommandView| c.idx == k);
}

/// The commands of `v` ordered by `idx`, commands of equal index kept in
/// their order in `v`.
fn sort_by_idx(v: &Vec<ExecutableCommand>) -> (r: Vec<ExecutableCommand>)
    ensures
        sorted_load_of(views(v@), views(r@)),
{
    broadcast use vstd::seq_lib::group_to_multiset_ensures;

    let mut out: Vec<ExecutableCommand> = Vec::new();
    let mut i: usize = 0;
    assert(views(out@) =~= views(v@).take(0));
    while i < v.len()
        invariant
            i <= v.len(),
            sorted_by_idx(views(out@)),
            views(out@).to_multiset() == views(v@).take(i as int).to_multiset(),
            forall|k: usize| #[trigger] with_idx(views(out@), k) == with_idx(views(v@).take(i as int), k),
        decreases v.len() - i,
    {
        let x = v[i].duplicate();
        let mut pos: usize = 0;
        while pos < out.len() && out[pos].idx <= x.idx
            invariant
                pos <= out.len(),
                forall|k: int| 0 <= k < pos ==> out@[k].idx <= x.idx,
            decreases out.len() - pos,
        {
            pos = pos + 1;
        }
        assert forall|j: int| pos <= j < out@.len() implies out@[j].idx > x.idx by {
            assert(out@[pos as int].idx > x.idx);
            assert(views(out@)[pos as int].idx <= views(out@)[j].idx);
        }
        let ghost before = views(out@);
        out.insert(pos, x);
        proof {
            let after = views(out@);
            assert(after =~= before.insert(pos as int, x@));
            assert(views(v@).take(i + 1) =~= views(v@).take(i as int).push(x@));
            vstd::seq_lib::to_multiset_insert(before, pos as int, x@);
            views(v@).take(i as int).to_multiset_ensures();
            assert(views(v@).take(i as int).push(x@).to_multiset() == views(v@).take(
                i as int,
            ).to_multiset().insert(x@));
            assert(after.to_multiset() == views(v@).take(i + 1).to_multiset());
            assert forall|k: usize| #[trigger] with_idx(after, k) == with_idx(views(v@).take(i + 1), k) by {
                lemma_insert_keeps_idx_order(before, pos as int, x@, k);
                lemma_with_idx_push(before, x@, k);
                lemma_with_idx_push(views(v@).take(i as int), x@, k);
                assert(with_idx(before, k) == with_idx(views(v@).take(i as int), k));
            }
            assert forall|a: int, b: int| 0 <= a < b < after.len() implies after[a].idx
                <= after[b].idx by {
                if b > pos && a <= pos {
                    assert(before[pos as int].idx <= before[b - 1].idx);
                }
            }
        }
        i = i + 1;
    }
    assert(views(v@).take(v.len() as int) =~= views(v@));
    out
}

impl CommandSet {
    /// A pool holding `v` as it is.
    pub fn new(v: Vec<ExecutableCommand>) -> (r: Self)
        ensures
            r@ == views(v@),
    {
        CommandSet { commands: v }
    }

    /// The pool of a pool file, from the outcome of reading and decoding that
    /// file: its commands ordered by `idx`, or the error of the load.
    pub fn from_file(loaded: Result<Vec<ExecutableCommand>, Error>) -> (r: Result<Self, Error>)
        ensures
            loaded is Err <==> r is Err,
            loaded is Err ==> r == Err::<Self, Error>(loaded->Err_0),
            loaded is Ok ==> sorted_load_of(views(loaded->Ok_0@), r->Ok_0@),
    {
        match loaded {
            Ok(v) => Ok(CommandSet { commands: sort_by_idx(&v) }),
            Err(e) => Err(e),
        }
    }

    /// The commands at the 1-based positions of `index`, in that order, with
    /// repeats; `None` for an empty `index`.
    pub fn select_command_by_index(&self, index: &[usize]) -> (r: Option<Self>)
        requires
            positions_in_bounds(self@, index@),
        ensures
            index@.len() == 0 <==> r is None,
            r is Some ==> r->Some_0@ == selected(self@, index@),
    {
        let mut v: Vec<ExecutableCommand> = Vec::with_capacity(index.len());
        let mut k: usize = 0;
        while k < index.len()
            invariant
                k <= index@.len(),
                positions_in_bounds(self@, index@),
                views(v@) == selected(self@, index@).take(k as int),
            decreases index@.len() - k,
        {
            let p = index[k];
            assert(1 <= index@[k as int] <= self@.len());
            let c = self.commands[p - 1].duplicate();
            let ghost before = views(v@);
            v.push(c);
            assert(views(v@) =~= before.push(c@));
            assert(selected(self@, index@).take(k + 1) =~= selected(self@, index@).take(k as int).push(c@));
            k = k + 1;
        }
        assert(views(v@) =~= selected(self@, index@));
        if v.len() == 0 {
            None
        } else {
            Some(CommandSet { commands: v })
        }
    }

    /// The first position of `index` that addresses no command of the pool,
    /// or `None` where each does.
    pub fn first_out_of_bounds(&self, index: &[usize]) -> (r: Option<usize>)
        ensures
            r is None <==> positions_in_bounds(self@, index@),
            r is Some ==> exists|k: int|
                0 <= k < index@.len() && index@[k] == r->Some_0 && !(1 <= r->Some_0 <= self@.len())
                && positions_in_bounds(self@, index@.take(k)),
    {
        let mut k: usize = 0;
        while k < index.len()
            invariant
                k <= index@.len(),
                positions_in_bounds(self@, index@.take(k as int)),
            decreases index@.len() - k,
        {
            let p = index[k];
            if p < 1 || p > self.commands.len() {
                return Some(p);
            }
            assert(index@.take(k + 1) == index@.take(k as int).push(p));
            k = k + 1;
        }
        assert(index@.take(k as int) == index@);
        None
    }

    /// The commands of the pool, in order.
    pub fn as_commands(&self) -> (r: Vec<ExecutableCommand>)
        ensures
            views(r@) == self@,
    {
        let mut v: Vec<ExecutableCommand> = Vec::with_capacity(self.commands.len());
        let mut k: usize = 0;
        while k < self.commands.len()
            invariant
                k <= self.commands@.len(),
                views(v@) == views(self.commands@).take(k as int),
            decreases self.commands@.len() - k,
        {
            let c = self.commands[k].duplicate();
            let ghost before = views(v@);
            v.push(c);
            assert(views(v@) =~= before.push(c@));
            assert(views(self.commands@).take(k + 1) =~= views(self.commands@).take(k as int).push(c@));
            k = k + 1;
        }
        assert(views(self.commands@).take(k as int) =~= views(self.commands@));
        v
    }

    /// The number of commands in the pool.
    pub fn len(&self) -> (r: usize)
        ensures
            r == self@.len(),
    {
        self.commands.len()
    }
}

} // verus!
