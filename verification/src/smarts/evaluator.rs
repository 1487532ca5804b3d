//! The evaluator: from the expressions of a pattern to its atoms and bonds.

use super::parser::{lemma_grouping_view, views, Expr, ExprView};
use super::{Atom, Bond, BondOrder};
use std::collections::HashMap;
use vstd::prelude::*;

verus! {

/// The ring-closure labels that are open, each with the atoms that wait under
/// it for their closure, the one that opened last on top.
pub struct ConnectionTable {
    table: HashMap<usize, Vec<usize>>,
}

/// The table in which no label is open.
pub open spec fn no_pending() -> Map<usize, Seq<usize>> {
    Map::total(|label: usize| Seq::<usize>::empty())
}

/// The table `pending` after `atom` has opened `label`.
pub open spec fn opened(pending: Map<usize, Seq<usize>>, label: usize, atom: usize) -> Map<
    usize,
    Seq<usize>,
> {
    pending.insert(label, pending[label].push(atom))
}

/// The table `pending` after the atom that opened `label` last has left.
pub open spec fn closed(pending: Map<usize, Seq<usize>>, label: usize) -> Map<usize, Seq<usize>> {
    pending.insert(label, pending[label].drop_last())
}

impl View for ConnectionTable {
    type V = Map<usize, Seq<usize>>;

    /// For every label the atoms that wait under it, in the order in which
    /// they opened it; none for a label that is not open.
    closed spec fn view(&self) -> Map<usize, Seq<usize>> {
        Map::total(
            |label: usize|
                if self.table@.contains_key(label) {
                    self.table@[label]@
                } else {
                    Seq::<usize>::empty()
                },
        )
    }
}

impl ConnectionTable {
    pub fn new() -> (r: Self)
        ensures
            r@ == no_pending(),
    {
        ConnectionTable { table: HashMap::new() }
    }

    /// Opens `label` at `atom`.
    pub fn push(&mut self, label: usize, atom: usize)
        ensures
            final(self)@ == opened(old(self)@, label, atom),
    {
        let mut stack: Vec<usize> = match self.table.remove(&label) {
            Some(stack) => stack,
            None => Vec::new(),
        };
        stack.push(atom);
        self.table.insert(label, stack);
    }

    /// Closes `label`: the atom that opened it last leaves the table and is
    /// returned. `None`, and the table as it was, if `label` is not open.
    pub fn pop(&mut self, label: usize) -> (r: Option<usize>)
        ensures
            match r {
                Some(atom) => {
                    &&& old(self)@[label].len() > 0
                    &&& atom == old(self)@[label].last()
                    &&& final(self)@ == closed(old(self)@, label)
                },
                None => old(self)@[label].len() == 0 && final(self)@ == old(self)@,
            },
    {
        match self.table.remove(&label) {
            Some(stack) => {
                let mut stack = stack;
                let r = stack.pop();
                self.table.insert(label, stack);
                r
            },
            None => None,
        }
    }
}

/// Why a sequence of expressions could not be evaluated.
#[derive(Clone, Copy, Debug, PartialEq, Eq, Structural)]
pub enum EvalErrorKind {
    /// A bond closes a ring under a label that no atom has open.
    UnresolvedLabel(usize),
    /// A ring-closure label that follows neither an atom nor a bond.
    UnreachableConnector(usize),
    /// A bond with no atom before it.
    NoAtomBeforeBond,
    /// A bond that neither an atom nor a ring-closure label follows.
    NoAtomAfterBond,
}

/// An evaluation failure, with the index of the failing expression in the
/// sequence (the pattern's, or a grouping's) in which it stands.
#[derive(Clone, Copy, Debug, PartialEq, Eq, Structural)]
pub struct EvalError {
    pub kind: EvalErrorKind,
    pub position: usize,
}

/// An evaluation failure as a mathematical value.
pub struct EvalFault {
    pub kind: EvalErrorKind,
    pub position: int,
}

impl EvalError {
    pub open spec fn fault(&self) -> EvalFault {
        EvalFault { kind: self.kind, position: self.position as int }
    }
}

/// What an evaluation has built so far: the atoms and the bonds, each in the
/// order in which they were added, and the open ring-closure labels.
pub struct Graph {
    pub atoms: Seq<Atom>,
    pub bonds: Seq<Bond>,
    pub pending: Map<usize, Seq<usize>>,
}

/// The graph before anything was evaluated.
pub open spec fn empty_graph() -> Graph {
    Graph { atoms: Seq::empty(), bonds: Seq::empty(), pending: no_pending() }
}

/// How many expressions stand at index `i` or after it.
pub open spec fn exprs_left(exprs: Seq<ExprView>, i: int) -> nat {
    if 0 <= i < exprs.len() {
        (exprs.len() - i) as nat
    } else {
        0
    }
}

/// The nearest atom among the expressions before index `i`.
pub open spec fn atom_before(exprs: Seq<ExprView>, i: int) -> Option<Atom>
    decreases i,
{
    if i <= 0 || i > exprs.len() {
        None
    } else {
        match exprs[i - 1] {
            ExprView::Atom(atom) => Some(atom),
            _ => atom_before(exprs, i - 1),
        }
    }
}

/// The label that the expression at index `i` holds, if it is a connector.
pub open spec fn label_at(exprs: Seq<ExprView>, i: int) -> Option<usize> {
    if 0 <= i < exprs.len() {
        match exprs[i] {
            ExprView::Connect(label) => Some(label),
            _ => None,
        }
    } else {
        None
    }
}

/// Evaluates an atom that stands at index `i`: it joins the atoms, and it
/// opens the label that follows it, if one does. Gives the graph and how
/// many expressions after the atom were taken.
pub open spec fn atom_step(exprs: Seq<ExprView>, i: int, atom: Atom, graph: Graph) -> (Graph, nat) {
    match label_at(exprs, i + 1) {
        Some(label) => (
            Graph {
                atoms: graph.atoms.push(atom),
                pending: opened(graph.pending, label, atom.mol_index),
                ..graph
            },
            1,
        ),
        None => (Graph { atoms: graph.atoms.push(atom), ..graph }, 0),
    }
}

/// The index of the atom at which the bond at index `i` starts: that of the
/// nearest atom before it in its own sequence; in a grouping that has none
/// before the bond, that of the atom that joined the graph last.
pub open spec fn bond_start(exprs: Seq<ExprView>, i: int, nested: bool, graph: Graph) -> Option<
    usize,
> {
    match atom_before(exprs, i) {
        Some(atom) => Some(atom.mol_index),
        None => if nested && graph.atoms.len() > 0 {
            Some(graph.atoms.last().mol_index)
        } else {
            None
        },
    }
}

/// The bond of order `order` between `atom1` and `atom2`; in a grouping the
/// smaller index comes first.
pub open spec fn bond_between(atom1: usize, atom2: usize, order: BondOrder, nested: bool) -> Bond {
    if nested && atom2 < atom1 {
        Bond { atom1: atom2, atom2: atom1, order }
    } else {
        Bond { atom1, atom2, order }
    }
}

/// Evaluates a bond of order `order` that stands at index `i`. Its second
/// atom is the atom that follows it, or the one that opened last the label
/// that follows it, which is closed thereby. Gives the graph and how many
/// expressions after the bond were taken.
pub open spec fn bond_step(
    exprs: Seq<ExprView>,
    i: int,
    order: BondOrder,
    nested: bool,
    graph: Graph,
) -> Result<(Graph, nat), EvalFault> {
    match bond_start(exprs, i, nested, graph) {
        None => Err(EvalFault { kind: EvalErrorKind::NoAtomBeforeBond, position: i }),
        Some(atom1) => if 0 <= i + 1 < exprs.len() {
            match exprs[i + 1] {
                ExprView::Atom(atom) => Ok(
                    (
                        Graph {
                            bonds: graph.bonds.push(
                                bond_between(atom1, atom.mol_index, order, nested),
                            ),
                            ..graph
                        },
                        0,
                    ),
                ),
                ExprView::Connect(label) => if graph.pending[label].len() > 0 {
                    Ok(
                        (
                            Graph {
                                bonds: graph.bonds.push(
                                    bond_between(
                                        atom1,
                                        graph.pending[label].last(),
                                        order,
                                        nested,
                                    ),
                                ),
                                pending: closed(graph.pending, label),
                                ..graph
                            },
                            1,
                        ),
                    )
                } else {
                    Err(
                        EvalFault {
                            kind: EvalErrorKind::UnresolvedLabel(label),
                            position: i + 1,
                        },
                    )
                },
                _ => Err(EvalFault { kind: EvalErrorKind::NoAtomAfterBond, position: i }),
            }
        } else {
            Err(EvalFault { kind: EvalErrorKind::NoAtomAfterBond, position: i })
        },
    }
}

/// Evaluates the expression at index `i` of `exprs`, which is the sequence
/// of a grouping if `nested` holds and that of the whole pattern if not.
/// Gives the graph and how many expressions after that one were taken.
pub open spec fn step(exprs: Seq<ExprView>, i: int, nested: bool, graph: Graph) -> Result<
    (Graph, nat),
    EvalFault,
>
    recommends
        0 <= i < exprs.len(),
    decreases exprs, exprs_left(exprs, i), 0int,
{
    if 0 <= i < exprs.len() {
        match exprs[i] {
            ExprView::Atom(atom) => Ok(atom_step(exprs, i, atom, graph)),
            ExprView::Bond(order) => bond_step(exprs, i, order, nested, graph),
            ExprView::Grouping(inner) => match eval_from(inner, 0, true, graph) {
                Ok(after) => Ok((after, 0)),
                Err(fault) => Err(fault),
            },
            ExprView::Connect(label) => Err(
                EvalFault { kind: EvalErrorKind::UnreachableConnector(label), position: i },
            ),
        }
    } else {
        Ok((graph, 0))
    }
}

/// Evaluates the expressions of `exprs` from index `i` on, in order.
pub open spec fn eval_from(exprs: Seq<ExprView>, i: int, nested: bool, graph: Graph) -> Result<
    Graph,
    EvalFault,
>
    decreases exprs, exprs_left(exprs, i), 1int,
{
    if 0 <= i < exprs.len() {
        match step(exprs, i, nested, graph) {
            Ok((after, taken)) => eval_from(exprs, i + 1 + taken, nested, after),
            Err(fault) => Err(fault),
        }
    } else {
        Ok(graph)
    }
}

/// The atoms and bonds that the expressions of a pattern evaluate to.
pub open spec fn evaluate(exprs: Seq<ExprView>) -> Result<(Seq<Atom>, Seq<Bond>), EvalFault> {
    match eval_from(exprs, 0, false, empty_graph()) {
        Ok(graph) => Ok((graph.atoms, graph.bonds)),
        Err(fault) => Err(fault),
    }
}

/// Searches `exprs` for the nearest atom before the expression at index
/// `cur - 1`, the one that an evaluation whose cursor stands at `cur` has
/// taken last.
pub fn prev_atom(exprs: &Vec<Expr>, cur: usize) -> (r: Option<Atom>)
    ensures
        r == atom_before(views(exprs@), cur - 1),
{
    if cur == 0 || cur - 1 > exprs.len() {
        return None;
    }
    let mut p: usize = cur - 1;
    while p > 0
        invariant
            p <= cur - 1 <= exprs.len(),
            atom_before(views(exprs@), cur - 1) == atom_before(views(exprs@), p as int),
        decreases p,
    {
        p = p - 1;
        match &exprs[p] {
            Expr::Atom(atom) => {
                return Some(*atom);
            },
            _ => {},
        }
    }
    None
}

/// The index of the first expression at index `i` or after it that is
/// neither a ring-closure label nor a grouping.
pub open spec fn plain_from(exprs: Seq<ExprView>, i: int) -> Option<int>
    decreases exprs_left(exprs, i),
{
    if 0 <= i < exprs.len() {
        match exprs[i] {
            ExprView::Connect(_) | ExprView::Grouping(_) => plain_from(exprs, i + 1),
            _ => Some(i),
        }
    } else {
        None
    }
}

/// Searches `exprs` from index `cur` on for the first expression that is
/// neither a ring-closure label nor a grouping.
pub fn next_atom(exprs: &Vec<Expr>, cur: usize) -> (r: Option<&Expr>)
    ensures
        match plain_from(views(exprs@), cur as int) {
            Some(at) => r == Some(&exprs@[at]),
            None => r is None,
        },
{
    let mut p: usize = cur;
    while p < exprs.len()
        invariant
            cur <= p,
            plain_from(views(exprs@), cur as int) == plain_from(views(exprs@), p as int),
        decreases exprs.len() - p,
    {
        let r = &exprs[p];
        match r {
            Expr::Connect(_) | Expr::Grouping(_) => {},
            _ => {
                return Some(r);
            },
        }
        p = p + 1;
    }
    None
}

/// The atoms, the bonds and the connection table of an evaluation under way.
struct Builder {
    atoms: Vec<Atom>,
    bonds: Vec<Bond>,
    ctab: ConnectionTable,
}

impl View for Builder {
    type V = Graph;

    closed spec fn view(&self) -> Graph {
        Graph { atoms: self.atoms@, bonds: self.bonds@, pending: self.ctab@ }
    }
}

impl Builder {
    fn new() -> (r: Self)
        ensures
            r@ == empty_graph(),
    {
        Builder { atoms: Vec::new(), bonds: Vec::new(), ctab: ConnectionTable::new() }
    }

    /// Closes `label`: gives the atom that opened it last, if it is open.
    fn get_connection(&mut self, label: usize) -> (r: Option<usize>)
        ensures
            match r {
                Some(atom) => {
                    &&& old(self)@.pending[label].len() > 0
                    &&& atom == old(self)@.pending[label].last()
                    &&& final(self)@ == (Graph {
                        pending: closed(old(self)@.pending, label),
                        ..old(self)@
                    })
                },
                None => old(self)@.pending[label].len() == 0 && final(self)@ == old(self)@,
            },
    {
        self.ctab.pop(label)
    }

    /// Evaluates `atom`, which stands at index `i` of `exprs`. Returns how
    /// many expressions after it were taken.
    fn atom(&mut self, exprs: &Vec<Expr>, i: usize, atom: Atom) -> (taken: usize)
        requires
            i < exprs.len(),
        ensures
            (final(self)@, taken as nat) == atom_step(views(exprs@), i as int, atom, old(self)@),
    {
        let mut taken: usize = 0;
        if i + 1 < exprs.len() {
            match &exprs[i + 1] {
                Expr::Connect(n) => {
                    // treat ctab as a stack so we can reuse labels
                    self.ctab.push(*n, atom.mol_index);
                    taken = 1;
                },
                _ => {},
            }
        }
        self.atoms.push(atom);
        taken
    }

    /// Evaluates a bond of order `order`, which stands at index `i` of
    /// `exprs`. Returns how many expressions after it were taken.
    fn bond(&mut self, exprs: &Vec<Expr>, i: usize, order: BondOrder, nested: bool) -> (r: Result<
        usize,
        EvalError,
    >)
        requires
            i < exprs.len(),
        ensures
            match bond_step(views(exprs@), i as int, order, nested, old(self)@) {
                Ok((graph, taken)) => r == Ok::<usize, EvalError>(taken as usize) && taken <= 1
                    && final(self)@ == graph,
                Err(fault) => r matches Err(e) && e.fault() == fault,
            },
    {
        let atom1: usize = match prev_atom(exprs, i + 1) {
            Some(atom) => atom.mol_index,
            None => {
                if nested && self.atoms.len() > 0 {
                    // bond is to the atom before the group
                    self.atoms[self.atoms.len() - 1].mol_index
                } else {
                    return Err(EvalError { kind: EvalErrorKind::NoAtomBeforeBond, position: i });
                }
            },
        };
        if i + 1 < exprs.len() {
            match &exprs[i + 1] {
                Expr::Atom(atom) => {
                    self.bonds.push(ordered(atom1, atom.mol_index, order, nested));
                    Ok(0)
                },
                Expr::Connect(n) => {
                    match self.get_connection(*n) {
                        Some(atom2) => {
                            self.bonds.push(ordered(atom1, atom2, order, nested));
                            Ok(1)
                        },
                        None => Err(
                            EvalError {
                                kind: EvalErrorKind::UnresolvedLabel(*n),
                                position: i + 1,
                            },
                        ),
                    }
                },
                _ => Err(EvalError { kind: EvalErrorKind::NoAtomAfterBond, position: i }),
            }
        } else {
            Err(EvalError { kind: EvalErrorKind::NoAtomAfterBond, position: i })
        }
    }
}

fn ordered(atom1: usize, atom2: usize, order: BondOrder, nested: bool) -> (r: Bond)
    ensures
        r == bond_between(atom1, atom2, order, nested),
{
    if nested && atom2 < atom1 {
        Bond { atom1: atom2, atom2: atom1, order }
    } else {
        Bond { atom1, atom2, order }
    }
}

/// An evaluation of the expressions of one pattern.
pub struct Evaluator {
    exprs: Vec<Expr>,
    cur: usize,
    built: Builder,
}

impl Evaluator {
    /// The expressions that this evaluator walks.
    pub closed spec fn exprs(&self) -> Seq<ExprView> {
        views(self.exprs@)
    }

    /// The index of the expression that this evaluator takes next.
    pub closed spec fn cursor(&self) -> int {
        self.cur as int
    }

    /// What this evaluator has built so far.
    pub closed spec fn graph(&self) -> Graph {
        self.built@
    }

    /// The cursor stands within the expressions or right after them.
    pub open spec fn wf(&self) -> bool {
        0 <= self.cursor() <= self.exprs().len()
    }

    pub fn new(exprs: Vec<Expr>) -> (r: Self)
        ensures
            r.exprs() == views(exprs@),
            r.cursor() == 0,
            r.graph() == empty_graph(),
            r.wf(),
    {
        Self { exprs, cur: 0, built: Builder::new() }
    }

    fn at_end(&self) -> (r: bool)
        ensures
            r == (self.cursor() == self.exprs().len()),
    {
        self.cur == self.exprs.len()
    }

    /// Takes the current expression: returns its index and moves the cursor on.
    fn next(&mut self) -> (r: usize)
        requires
            0 <= old(self).cursor() < old(self).exprs().len(),
        ensures
            r == old(self).cursor(),
            final(self).cursor() == old(self).cursor() + 1,
            final(self).exprs() == old(self).exprs(),
            final(self).graph() == old(self).graph(),
    {
        let ret = self.cur;
        if self.cur < self.exprs.len() {
            self.cur += 1;
        }
        ret
    }

    /// Evaluates the expressions from the cursor on: returns the atoms, in
    /// the order in which they appear, and the bonds, in the order in which
    /// their atoms were found.
    pub fn eval(self) -> (r: Result<(Vec<Atom>, Vec<Bond>), EvalError>)
        requires
            self.wf(),
        ensures
            match eval_from(self.exprs(), self.cursor(), false, self.graph()) {
                Ok(graph) => r matches Ok((atoms, bonds)) && atoms@ == graph.atoms && bonds@
                    == graph.bonds,
                Err(fault) => r matches Err(e) && e.fault() == fault,
            },
    {
        let mut this = self;
        while !this.at_end()
            invariant
                this.wf(),
                this.exprs() == self.exprs(),
                eval_from(self.exprs(), self.cursor(), false, self.graph()) == eval_from(
                    this.exprs(),
                    this.cursor(),
                    false,
                    this.graph(),
                ),
            decreases this.exprs().len() - this.cursor(),
        {
            let at = this.next();
            match this.inner(at) {
                Ok(()) => {},
                Err(e) => {
                    return Err(e);
                },
            }
        }
        let Evaluator { built, .. } = this;
        let Builder { atoms, bonds, .. } = built;
        Ok((atoms, bonds))
    }

    /// Evaluates the expression at index `at`, which was taken last.
    fn inner(&mut self, at: usize) -> (r: Result<(), EvalError>)
        requires
            0 <= at < old(self).exprs().len(),
            old(self).cursor() == at + 1,
        ensures
            final(self).exprs() == old(self).exprs(),
            match step(old(self).exprs(), at as int, false, old(self).graph()) {
                Ok((graph, taken)) => {
                    &&& r is Ok
                    &&& final(self).graph() == graph
                    &&& final(self).cursor() == at + 1 + taken
                },
                Err(fault) => r matches Err(e) && e.fault() == fault,
            },
            final(self).wf(),
    {
        match &self.exprs[at] {
            Expr::Atom(a) => {
                let a = *a;
                self.atom(a);
                Ok(())
            },
            Expr::Bond(order) => {
                let order = *order;
                self.bond(order)
            },
            Expr::Grouping(g) => {
                proof {
                    lemma_grouping_view(*g);
                }
                Self::grouping(&mut self.built, g)
            },
            Expr::Connect(n) => Err(
                EvalError { kind: EvalErrorKind::UnreachableConnector(*n), position: at },
            ),
        }
    }

    /// Evaluates a bond of order `order`, which was taken last.
    fn bond(&mut self, order: BondOrder) -> (r: Result<(), EvalError>)
        requires
            0 < old(self).cursor() <= old(self).exprs().len(),
        ensures
            final(self).exprs() == old(self).exprs(),
            match bond_step(
                old(self).exprs(),
                old(self).cursor() - 1,
                order,
                false,
                old(self).graph(),
            ) {
                Ok((graph, taken)) => {
                    &&& r is Ok
                    &&& final(self).graph() == graph
                    &&& final(self).cursor() == old(self).cursor() + taken
                },
                Err(fault) => r matches Err(e) && e.fault() == fault,
            },
            final(self).wf(),
    {
        match self.built.bond(&self.exprs, self.cur - 1, order, false) {
            Ok(taken) => {
                if taken == 1 {
                    self.next();  // advance over connection
                }
                Ok(())
            },
            Err(e) => Err(e),
        }
    }

    /// Evaluates the atom `a`, which was taken last.
    fn atom(&mut self, a: Atom)
        requires
            0 < old(self).cursor() <= old(self).exprs().len(),
        ensures
            final(self).exprs() == old(self).exprs(),
            (final(self).graph(), (final(self).cursor() - old(self).cursor()) as nat) == atom_step(
                old(self).exprs(),
                old(self).cursor() - 1,
                a,
                old(self).graph(),
            ),
            old(self).cursor() <= final(self).cursor() <= final(self).exprs().len(),
    {
        let taken = self.built.atom(&self.exprs, self.cur - 1, a);
        if taken == 1 {
            self.next();
        }
    }

    /// Evaluates the expressions of the grouping `g` into `built`.
    fn grouping(built: &mut Builder, g: &Vec<Expr>) -> (r: Result<(), EvalError>)
        ensures
            match eval_from(views(g@), 0, true, old(built)@) {
                Ok(graph) => r is Ok && final(built)@ == graph,
                Err(fault) => r matches Err(e) && e.fault() == fault,
            },
        decreases g,
    {
        let mut i: usize = 0;
        while i < g.len()
            invariant
                i <= g.len(),
                eval_from(views(g@), 0, true, old(built)@) == eval_from(
                    views(g@),
                    i as int,
                    true,
                    built@,
                ),
            decreases g.len() - i,
        {
            let ghost before = built@;
            match &g[i] {
                Expr::Atom(a) => {
                    let taken = built.atom(g, i, *a);
                    i = i + 1 + taken;
                },
                Expr::Bond(order) => {
                    match built.bond(g, i, *order, true) {
                        Ok(taken) => {
                            i = i + 1 + taken;
                        },
                        Err(e) => {
                            assert(step(views(g@), i as int, true, before) is Err);
                            return Err(e);
                        },
                    }
                },
                Expr::Grouping(h) => {
                    proof {
                        lemma_grouping_view(*h);
                    }
                    match Self::grouping(built, h) {
                        Ok(()) => {
                            i = i + 1;
                        },
                        Err(e) => {
                            return Err(e);
                        },
                    }
                },
                Expr::Connect(n) => {
                    return Err(
                        EvalError { kind: EvalErrorKind::UnreachableConnector(*n), position: i },
                    );
                },
            }
        }
        Ok(())
    }
}

} // verus!
