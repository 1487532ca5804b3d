//! What holds of every pattern: laws of the scanner, of the parser and of
//! the evaluator.

use super::evaluator::{
    atom_before, bond_between, bond_start, closed, empty_graph, eval_from, evaluate, exprs_left,
    label_at, opened, step, EvalFault, Graph,
};
use super::parser::{
    atom_fields, blank_atom, parse_tokens, token_or_end, tokens_left, ExprView, ParseFault,
};
use super::scanner::{left, token_at, token_len, tokens_from, tokens_of, Token};
use super::{graph_of, Atom, Bond, BondOrder, Chiral};
use vstd::prelude::*;

verus! {

/// The tokens of `s` from index `i` on hold the end token once, as their
/// last token.
pub proof fn lemma_tokens_end_once(s: Seq<char>, i: int)
    ensures
        tokens_from(s, i) matches Ok(tokens) ==> {
            &&& tokens.len() >= 1
            &&& tokens.last() == Token::End
            &&& forall|k: int| 0 <= k < tokens.len() - 1 ==> tokens[k] != Token::End
        },
    decreases left(s, i),
{
    if 0 <= i < s.len() && token_at(s, i) is Ok {
        lemma_tokens_end_once(s, i + token_len(s, i));
    }
}

/// The tokens of a pattern that can be scanned end with the end token, and
/// hold it nowhere else.
pub proof fn tokens_end_once(s: Seq<char>)
    ensures
        tokens_of(s) matches Ok(tokens) ==> {
            &&& tokens.len() >= 1
            &&& tokens.last() == Token::End
            &&& forall|k: int| 0 <= k < tokens.len() - 1 ==> tokens[k] != Token::End
        },
{
    lemma_tokens_end_once(s, 0);
}

/// The atoms that the expressions of `exprs` from index `i` on write, those
/// of groupings included, in the order in which they appear.
pub open spec fn atoms_from(exprs: Seq<ExprView>, i: int) -> Seq<Atom>
    decreases exprs, exprs_left(exprs, i),
{
    if 0 <= i < exprs.len() {
        match exprs[i] {
            ExprView::Atom(atom) => seq![atom] + atoms_from(exprs, i + 1),
            ExprView::Grouping(inner) => atoms_from(inner, 0) + atoms_from(exprs, i + 1),
            _ => atoms_from(exprs, i + 1),
        }
    } else {
        Seq::empty()
    }
}

/// The atoms that the expressions of a pattern write, in the order in which
/// they appear.
pub open spec fn atoms_of(exprs: Seq<ExprView>) -> Seq<Atom> {
    atoms_from(exprs, 0)
}

/// Evaluating on from index `i` adds to the atoms exactly those that the
/// expressions from `i` on write, in their order.
pub proof fn lemma_eval_adds_atoms(exprs: Seq<ExprView>, i: int, nested: bool, graph: Graph)
    requires
        0 <= i,
    ensures
        eval_from(exprs, i, nested, graph) matches Ok(after) ==> after.atoms == graph.atoms
            + atoms_from(exprs, i),
    decreases exprs, exprs_left(exprs, i),
{
    if i < exprs.len() {
        match step(exprs, i, nested, graph) {
            Ok((mid, taken)) => {
                match exprs[i] {
                    ExprView::Grouping(inner) => {
                        lemma_eval_adds_atoms(inner, 0, true, graph);
                    },
                    _ => {},
                }
                lemma_eval_adds_atoms(exprs, i + 1 + taken, nested, mid);
                if taken == 1 {
                    // the expression after this one is a label, which writes no atom
                    assert(atoms_from(exprs, i + 1) == atoms_from(exprs, i + 2));
                }
            },
            Err(_) => {},
        }
    }
}

/// The atoms of a pattern that evaluates are the atoms that its expressions
/// write, one for each atom descriptor, in the order in which they appear.
pub proof fn atoms_in_order_of_appearance(exprs: Seq<ExprView>)
    ensures
        evaluate(exprs) matches Ok(graph) ==> graph.0 == atoms_of(exprs),
{
    lemma_eval_adds_atoms(exprs, 0, false, empty_graph());
}

/// The atoms of a pattern that can be read are the atoms that its
/// expressions write, in the order in which they appear.
pub proof fn pattern_atoms_in_order_of_appearance(s: Seq<char>)
    ensures
        graph_of(s) matches Ok(graph) ==> {
            &&& tokens_of(s) matches Ok(tokens)
            &&& parse_tokens(tokens) matches Ok(exprs)
            &&& graph.0 == atoms_of(exprs)
        },
{
    match tokens_of(s) {
        Ok(tokens) => match parse_tokens(tokens) {
            Ok(exprs) => {
                atoms_in_order_of_appearance(exprs);
            },
            Err(_) => {},
        },
        Err(_) => {},
    }
}

/// Whether `exprs` is a chain: atoms and bonds in turn, from an atom to an
/// atom, with no grouping and no ring-closure label.
pub open spec fn is_chain(exprs: Seq<ExprView>) -> bool {
    &&& exprs.len() % 2 == 1
    &&& forall|i: int|
        0 <= i < exprs.len() ==> if i % 2 == 0 {
            #[trigger] exprs[i] is Atom
        } else {
            exprs[i] is Bond
        }
}

/// The atom that stands at index `i` of `exprs`.
pub open spec fn atom_at(exprs: Seq<ExprView>, i: int) -> Atom {
    match exprs[i] {
        ExprView::Atom(atom) => atom,
        _ => arbitrary(),
    }
}

/// The bond that the bond symbol at index `i` of a chain writes: from the
/// atom before it to the atom after it.
pub open spec fn chain_bond(exprs: Seq<ExprView>, i: int) -> Bond {
    match exprs[i] {
        ExprView::Bond(order) => Bond {
            atom1: atom_at(exprs, i - 1).mol_index,
            atom2: atom_at(exprs, i + 1).mol_index,
            order,
        },
        _ => arbitrary(),
    }
}

/// Evaluating a chain on from the atom at index `i` adds that atom and then,
/// for each bond symbol after it, one bond and one atom.
pub proof fn lemma_chain_from(exprs: Seq<ExprView>, i: int, graph: Graph)
    requires
        is_chain(exprs),
        0 <= i < exprs.len(),
        i % 2 == 0,
    ensures
        eval_from(exprs, i, false, graph) matches Ok(after) && {
            &&& after.atoms.len() == graph.atoms.len() + (exprs.len() - i + 1) / 2
            &&& after.bonds.len() == graph.bonds.len() + (exprs.len() - i - 1) / 2
            &&& forall|k: int|
                0 <= k < (exprs.len() - i - 1) / 2 ==> #[trigger] after.bonds[graph.bonds.len()
                    + k] == chain_bond(exprs, i + 2 * k + 1)
            &&& forall|k: int|
                0 <= k < graph.bonds.len() ==> #[trigger] after.bonds[k] == graph.bonds[k]
        },
    decreases exprs.len() - i,
{
    let with_atom = Graph { atoms: graph.atoms.push(atom_at(exprs, i)), ..graph };
    assert(step(exprs, i, false, graph) == Ok::<(Graph, nat), EvalFault>((with_atom, 0)));
    if i + 1 < exprs.len() {
        let with_bond = Graph {
            bonds: with_atom.bonds.push(chain_bond(exprs, i + 1)),
            ..with_atom
        };
        assert(step(exprs, i + 1, false, with_atom) == Ok::<(Graph, nat), EvalFault>(
            (with_bond, 0),
        ));
        lemma_chain_from(exprs, i + 2, with_bond);
        let after = eval_from(exprs, i, false, graph)->Ok_0;
        assert(eval_from(exprs, i + 1, false, with_atom) == eval_from(
            exprs,
            i + 2,
            false,
            with_bond,
        ));
        let before = graph.bonds.len();
        assert forall|k: int| 0 <= k < (exprs.len() - i - 1) / 2 implies #[trigger] after.bonds[before
            + k] == chain_bond(exprs, i + 2 * k + 1) by {
            if k > 0 {
                assert(after.bonds[with_bond.bonds.len() + (k - 1)] == chain_bond(
                    exprs,
                    i + 2 + 2 * (k - 1) + 1,
                ));
            }
        }
    } else {
        assert(eval_from(exprs, i, false, graph) == eval_from(exprs, i + 1, false, with_atom));
    }
}

/// A pattern that is a chain evaluates, to one atom for each atom descriptor
/// and to one bond fewer: bond `k` joins atom `k` to atom `k + 1`.
pub proof fn chain_has_one_bond_fewer_than_atoms(exprs: Seq<ExprView>)
    requires
        is_chain(exprs),
    ensures
        evaluate(exprs) matches Ok(graph) && {
            &&& graph.0.len() == (exprs.len() + 1) / 2
            &&& graph.1.len() == graph.0.len() - 1
            &&& forall|k: int|
                0 <= k < graph.1.len() ==> #[trigger] graph.1[k] == chain_bond(exprs, 2 * k + 1)
        },
{
    let start = empty_graph();
    lemma_chain_from(exprs, 0, start);
    let after = eval_from(exprs, 0, false, start)->Ok_0;
    assert forall|k: int| 0 <= k < after.bonds.len() implies #[trigger] after.bonds[k]
        == chain_bond(exprs, 2 * k + 1) by {
        assert(after.bonds[start.bonds.len() + k] == chain_bond(exprs, 0 + 2 * k + 1));
    }
}

/// The smaller of two atom indices.
pub open spec fn lesser(a: usize, b: usize) -> usize {
    if a <= b {
        a
    } else {
        b
    }
}

/// The larger of two atom indices.
pub open spec fn greater(a: usize, b: usize) -> usize {
    if a <= b {
        b
    } else {
        a
    }
}

/// A bond that closes a ring joins the atom at which it starts to the atom
/// that opened the label last, whichever of the two has the smaller index:
/// the bond's two atoms are the smaller and the larger of the two indices. In
/// a grouping they stand in that order, and so the bond is the same whichever
/// of the two atoms opened the label. Closing takes the label's last atom out
/// of the table and adds nothing but that bond.
pub proof fn ring_closure_joins_both_atoms(
    exprs: Seq<ExprView>,
    i: int,
    order: BondOrder,
    label: usize,
    nested: bool,
    graph: Graph,
)
    requires
        0 <= i,
        i + 1 < exprs.len(),
        exprs[i] == ExprView::Bond(order),
        exprs[i + 1] == ExprView::Connect(label),
        graph.pending[label].len() > 0,
        bond_start(exprs, i, nested, graph) is Some,
    ensures
        step(exprs, i, nested, graph) matches Ok((after, taken)) && {
            let opener = graph.pending[label].last();
            let closer = bond_start(exprs, i, nested, graph)->Some_0;
            let bond = after.bonds.last();
            &&& taken == 1
            &&& after.atoms == graph.atoms
            &&& after.bonds == graph.bonds.push(bond)
            &&& after.pending == closed(graph.pending, label)
            &&& bond.order == order
            &&& lesser(bond.atom1, bond.atom2) == lesser(opener, closer)
            &&& greater(bond.atom1, bond.atom2) == greater(opener, closer)
            &&& nested ==> bond.atom1 == lesser(opener, closer) && bond.atom2 == greater(
                opener,
                closer,
            )
            &&& bond_between(opener, closer, order, true) == bond_between(
                closer,
                opener,
                order,
                true,
            )
        },
{
}

/// A label that is opened twice before it is closed holds both atoms, and
/// closes the later one first; closed as often as it was opened, it holds
/// what it held before. A label that was opened and closed can be opened
/// again. No other label is touched.
pub proof fn labels_close_last_opened_first(
    pending: Map<usize, Seq<usize>>,
    label: usize,
    first: usize,
    second: usize,
)
    ensures
        ({
            let once = opened(pending, label, first);
            let twice = opened(once, label, second);
            &&& twice[label].len() == pending[label].len() + 2
            &&& twice[label].last() == second
            &&& closed(twice, label) == once
            &&& closed(twice, label)[label].last() == first
            &&& closed(once, label)[label] == pending[label]
            &&& opened(closed(once, label), label, second)[label] == pending[label].push(second)
            &&& forall|other: usize|
                other != label && pending.dom().contains(other) ==> #[trigger] twice[other]
                    == pending[other] && closed(twice, label)[other] == pending[other]
        }),
{
    let once = opened(pending, label, first);
    assert(once[label].push(second).drop_last() =~= once[label]);
}

/// Reading the fields of an atom changes only what a field writes: with no
/// hydrogen count among the fields read the hydrogen count stays, with no
/// charge among them the charge stays, and with no stereo marker among them
/// the chirality stays.
pub proof fn lemma_fields_keep_what_they_do_not_write(tokens: Seq<Token>, i: int, atom: Atom)
    requires
        0 <= i,
    ensures
        atom_fields(tokens, i, atom) matches Ok((done, n)) ==> {
            &&& (forall|j: int| i <= j < i + n ==> !(#[trigger] token_or_end(tokens, j) is HCount))
                ==> done.n_hydrogens == atom.n_hydrogens
            &&& (forall|j: int|
                i <= j < i + n ==> !(#[trigger] token_or_end(tokens, j) is Plus) && token_or_end(
                    tokens,
                    j,
                ) != Token::Dash) ==> done.charge == atom.charge
            &&& (forall|j: int| i <= j < i + n ==> #[trigger] token_or_end(tokens, j) != Token::At)
                ==> done.chirality == atom.chirality
        },
    decreases tokens_left(tokens, i),
{
    let next = token_or_end(tokens, i + 1);
    let this = token_or_end(tokens, i);
    match this {
        Token::Atom(n) => {
            lemma_fields_keep_what_they_do_not_write(
                tokens,
                i + 1,
                Atom { atomic_number: n, ..atom },
            );
        },
        Token::HCount(n) => {
            lemma_fields_keep_what_they_do_not_write(
                tokens,
                i + 1,
                Atom { n_hydrogens: n, ..atom },
            );
        },
        Token::Colon => {
            match next {
                Token::Digit(index) => {
                    lemma_fields_keep_what_they_do_not_write(
                        tokens,
                        i + 2,
                        Atom { mol_index: index, ..atom },
                    );
                },
                _ => {},
            }
        },
        Token::Plus(n) => {
            if n <= isize::MAX {
                lemma_fields_keep_what_they_do_not_write(
                    tokens,
                    i + 1,
                    Atom { charge: n as isize, ..atom },
                );
            }
        },
        Token::Dash => {
            match next {
                Token::Digit(n) => {
                    if n <= isize::MAX {
                        lemma_fields_keep_what_they_do_not_write(
                            tokens,
                            i + 2,
                            Atom { charge: (-n) as isize, ..atom },
                        );
                    }
                },
                _ => {
                    lemma_fields_keep_what_they_do_not_write(
                        tokens,
                        i + 1,
                        Atom { charge: -1isize, ..atom },
                    );
                },
            }
        },
        Token::At => {
            if next == Token::At {
                lemma_fields_keep_what_they_do_not_write(
                    tokens,
                    i + 2,
                    Atom { chirality: Chiral::Cw, ..atom },
                );
            } else {
                lemma_fields_keep_what_they_do_not_write(
                    tokens,
                    i + 1,
                    Atom { chirality: Chiral::Acw, ..atom },
                );
            }
        },
        _ => {},
    }
}

/// What an atom descriptor does not give has its default value: the hydrogen
/// count is 0 with no hydrogen count among the fields, the charge is 0 with
/// no charge among them, and the chirality is unspecified with no stereo
/// marker among them. `i` is the index after the opening bracket.
pub proof fn unset_fields_have_default_values(tokens: Seq<Token>, i: int)
    requires
        0 <= i,
    ensures
        atom_fields(tokens, i, blank_atom()) matches Ok((atom, n)) ==> {
            &&& (forall|j: int| i <= j < i + n ==> !(#[trigger] token_or_end(tokens, j) is HCount))
                ==> atom.n_hydrogens == 0
            &&& (forall|j: int|
                i <= j < i + n ==> !(#[trigger] token_or_end(tokens, j) is Plus) && token_or_end(
                    tokens,
                    j,
                ) != Token::Dash) ==> atom.charge == 0
            &&& (forall|j: int| i <= j < i + n ==> #[trigger] token_or_end(tokens, j) != Token::At)
                ==> atom.chirality == Chiral::Unspecified
        },
{
    lemma_fields_keep_what_they_do_not_write(tokens, i, blank_atom());
}

/// An atom descriptor that gives only the atomic number and the index, in
/// this order, has the hydrogen count 0, the charge 0 and no chirality. `i`
/// is the index after the opening bracket.
pub proof fn number_and_index_alone(tokens: Seq<Token>, i: int, number: usize, index: usize)
    requires
        0 <= i,
        i + 3 < tokens.len(),
        tokens[i] == Token::Atom(number),
        tokens[i + 1] == Token::Colon,
        tokens[i + 2] == Token::Digit(index),
        tokens[i + 3] == Token::RBrack,
    ensures
        atom_fields(tokens, i, blank_atom()) == Ok::<(Atom, nat), ParseFault>(
            (
                Atom {
                    atomic_number: number,
                    n_hydrogens: 0,
                    charge: 0,
                    chirality: Chiral::Unspecified,
                    mol_index: index,
                },
                4,
            ),
        ),
{
    reveal_with_fuel(atom_fields, 4);
}

/// Whether one of `atoms` has the index `index`.
pub open spec fn has_atom(atoms: Seq<Atom>, index: usize) -> bool {
    exists|k: int| 0 <= k < atoms.len() && (#[trigger] atoms[k]).mol_index == index
}

/// Whether `index` is the index of one of `atoms`, or of the atom that
/// stands at index `i` of `exprs`.
pub open spec fn atom_known(exprs: Seq<ExprView>, i: int, atoms: Seq<Atom>, index: usize) -> bool {
    ||| has_atom(atoms, index)
    ||| 0 <= i < exprs.len() && exprs[i] == ExprView::Atom(atom_at(exprs, i)) && atom_at(
        exprs,
        i,
    ).mol_index == index
}

/// Whether each of `bonds` joins two of `atoms`.
pub open spec fn bonds_join_atoms(atoms: Seq<Atom>, bonds: Seq<Bond>) -> bool {
    forall|k: int|
        0 <= k < bonds.len() ==> has_atom(atoms, (#[trigger] bonds[k]).atom1) && has_atom(
            atoms,
            bonds[k].atom2,
        )
}

/// Whether every atom that waits in the connection table of `graph` is one
/// of its atoms.
pub open spec fn pending_are_atoms(graph: Graph) -> bool {
    forall|label: usize, k: int|
        0 <= k < graph.pending[label].len() ==> has_atom(
            graph.atoms,
            #[trigger] graph.pending[label][k],
        )
}

/// Whether every atom among the expressions before index `i` is one of
/// `atoms`.
pub open spec fn atoms_seen(exprs: Seq<ExprView>, i: int, atoms: Seq<Atom>) -> bool {
    forall|j: int|
        0 <= j < i && j < exprs.len() && (#[trigger] exprs[j]) is Atom ==> has_atom(
            atoms,
            atom_at(exprs, j).mol_index,
        )
}

/// An index that atoms have is an index that more atoms have.
pub proof fn lemma_has_atom_grows(atoms: Seq<Atom>, more: Seq<Atom>, index: usize)
    requires
        has_atom(atoms, index),
    ensures
        has_atom(atoms + more, index),
{
    let k = choose|k: int| 0 <= k < atoms.len() && (#[trigger] atoms[k]).mol_index == index;
    assert((atoms + more)[k].mol_index == index);
}

/// The nearest atom before index `i` is among the atoms that were seen.
pub proof fn lemma_atom_before_is_seen(exprs: Seq<ExprView>, i: int, atoms: Seq<Atom>)
    requires
        atoms_seen(exprs, i, atoms),
    ensures
        atom_before(exprs, i) matches Some(atom) ==> has_atom(atoms, atom.mol_index),
    decreases i,
{
    if 0 < i <= exprs.len() && !(exprs[i - 1] is Atom) {
        lemma_atom_before_is_seen(exprs, i - 1, atoms);
    }
}

/// Evaluating on from index `i` keeps this: each bond joins two of the
/// atoms, and only atoms wait in the connection table. Before the atom at
/// index `i` has joined, a bond may end at it.
pub proof fn lemma_eval_joins_atoms(exprs: Seq<ExprView>, i: int, nested: bool, graph: Graph)
    requires
        0 <= i,
        forall|k: int|
            0 <= k < graph.bonds.len() ==> atom_known(
                exprs,
                i,
                graph.atoms,
                (#[trigger] graph.bonds[k]).atom1,
            ) && atom_known(exprs, i, graph.atoms, graph.bonds[k].atom2),
        pending_are_atoms(graph),
        atoms_seen(exprs, i, graph.atoms),
    ensures
        eval_from(exprs, i, nested, graph) matches Ok(after) ==> {
            &&& bonds_join_atoms(after.atoms, after.bonds)
            &&& pending_are_atoms(after)
            &&& after.atoms == graph.atoms + atoms_from(exprs, i)
        },
    decreases exprs, exprs_left(exprs, i),
{
    lemma_eval_adds_atoms(exprs, i, nested, graph);
    if i < exprs.len() {
        match step(exprs, i, nested, graph) {
            Ok((mid, taken)) => {
                let next = i + 1 + taken;
                match exprs[i] {
                    ExprView::Atom(atom) => {
                        assert(mid.atoms =~= graph.atoms + seq![atom]);
                        assert(mid.atoms[graph.atoms.len() as int] == atom);
                        assert forall|index: usize|
                            atom_known(exprs, i, graph.atoms, index) implies has_atom(
                            mid.atoms,
                            index,
                        ) by {
                            if has_atom(graph.atoms, index) {
                                lemma_has_atom_grows(graph.atoms, seq![atom], index);
                            }
                        }
                        assert forall|j: int|
                            0 <= j < next && j < exprs.len() && (#[trigger] exprs[j])
                                is Atom implies has_atom(
                            mid.atoms,
                            atom_at(exprs, j).mol_index,
                        ) by {
                            if j < i {
                                assert(atom_known(
                                    exprs,
                                    i,
                                    graph.atoms,
                                    atom_at(exprs, j).mol_index,
                                ));
                            }
                        }
                    },
                    ExprView::Bond(_) => {
                        lemma_atom_before_is_seen(exprs, i, graph.atoms);
                    },
                    ExprView::Grouping(inner) => {
                        lemma_eval_joins_atoms(inner, 0, true, graph);
                        assert forall|j: int|
                            0 <= j < next && j < exprs.len() && (#[trigger] exprs[j])
                                is Atom implies has_atom(
                            mid.atoms,
                            atom_at(exprs, j).mol_index,
                        ) by {
                            lemma_has_atom_grows(
                                graph.atoms,
                                atoms_from(inner, 0),
                                atom_at(exprs, j).mol_index,
                            );
                        }
                    },
                    ExprView::Connect(_) => {},
                }
                lemma_eval_joins_atoms(exprs, next, nested, mid);
            },
            Err(_) => {},
        }
    }
}

/// Each bond of a pattern that evaluates joins two of its atoms: both ends
/// of the bond are indices of atoms of the graph.
pub proof fn bonds_join_atoms_of_the_graph(exprs: Seq<ExprView>)
    ensures
        evaluate(exprs) matches Ok(graph) ==> bonds_join_atoms(graph.0, graph.1),
{
    lemma_eval_joins_atoms(exprs, 0, false, empty_graph());
}

} // verus!
