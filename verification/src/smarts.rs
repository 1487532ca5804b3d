//! SMARTS patterns: the atoms and bonds of a molecular graph.

use self::evaluator::{evaluate, EvalError, EvalFault, Evaluator};
use self::parser::{parse_tokens, ParseError, ParseFault, Parser};
use self::scanner::{scan, tokens_of, ScanError, ScanErrorKind};
use vstd::prelude::*;

pub mod evaluator;
pub mod laws;
pub mod parser;
pub mod scanner;

verus! {

/// The chirality of an atom centre.
#[derive(Clone, Copy, Debug, PartialEq, Eq, Structural)]
pub enum Chiral {
    /// Clockwise, written `@@`.
    Cw,
    /// Anticlockwise, written `@`.
    Acw,
    /// No chirality given.
    Unspecified,
}

impl Default for Chiral {
    fn default() -> (r: Self)
        ensures
            r == Chiral::Unspecified,
    {
        Chiral::Unspecified
    }
}

/// One atom of a pattern.
#[derive(Clone, Copy, Debug, PartialEq, Eq, Structural)]
pub struct Atom {
    pub atomic_number: usize,
    pub n_hydrogens: usize,
    pub charge: isize,
    pub chirality: Chiral,
    /// The index by which bonds refer to this atom.
    pub mol_index: usize,
}

impl Atom {
    pub fn new(
        atomic_number: usize,
        n_hydrogens: usize,
        charge: isize,
        chirality: Chiral,
        mol_index: usize,
    ) -> (r: Self)
        ensures
            r == (Atom { atomic_number, n_hydrogens, charge, chirality, mol_index }),
    {
        Self { atomic_number, n_hydrogens, charge, chirality, mol_index }
    }
}

/// The order of a bond.
#[derive(Clone, Copy, Debug, PartialEq, Eq, Structural)]
pub enum BondOrder {
    Single,
    Double,
    Triple,
    Aromatic,
    Ring,
    /// Stereo bond written `/`.
    Up,
    /// Stereo bond written `\`.
    Down,
}

impl Default for BondOrder {
    /// A bond is single where nothing says otherwise.
    fn default() -> (r: Self)
        ensures
            r == BondOrder::Single,
    {
        BondOrder::Single
    }
}

impl BondOrder {
    /// The character that writes this bond order in a pattern.
    pub open spec fn spec_symbol(self) -> char {
        match self {
            BondOrder::Single => '-',
            BondOrder::Double => '=',
            BondOrder::Triple => '#',
            BondOrder::Aromatic => ':',
            BondOrder::Ring => '@',
            BondOrder::Up => '/',
            BondOrder::Down => '\\',
        }
    }

    /// The character that writes this bond order in a pattern.
    pub fn symbol(&self) -> (c: char)
        ensures
            c == self.spec_symbol(),
    {
        match self {
            BondOrder::Single => '-',
            BondOrder::Double => '=',
            BondOrder::Triple => '#',
            BondOrder::Aromatic => ':',
            BondOrder::Ring => '@',
            BondOrder::Up => '/',
            BondOrder::Down => '\\',
        }
    }
}

/// A bond between the atoms with the indices `atom1` and `atom2`.
#[derive(Clone, Copy, Debug, PartialEq, Eq, Structural)]
pub struct Bond {
    pub atom1: usize,
    pub atom2: usize,
    pub order: BondOrder,
}

impl Bond {
    pub fn new(atom1: usize, atom2: usize, order: BondOrder) -> (r: Self)
        ensures
            r == (Bond { atom1, atom2, order }),
    {
        Self { atom1, atom2, order }
    }
}

/// Why a pattern could not be read.
#[derive(Clone, Debug, PartialEq, Eq)]
pub enum Error {
    /// The pattern holds a character that starts no token.
    Scan(ScanError),
    /// The tokens of the pattern do not follow its grammar.
    Parse(ParseError),
    /// The atoms of a bond of the pattern cannot be found.
    Eval(EvalError),
}

/// A failure to read a pattern, as a mathematical value.
pub enum Failure {
    /// What went wrong, and the index at which the failing token starts.
    Scan(ScanErrorKind, int),
    Parse(ParseFault),
    Eval(EvalFault),
}

impl Error {
    /// Whether this error reports `failure` as met in the pattern `s`.
    pub open spec fn reports(&self, failure: Failure, s: Seq<char>) -> bool {
        match (*self, failure) {
            (Error::Scan(e), Failure::Scan(kind, at)) => e.kind == kind && e.position == at
                && e.input@ == s,
            (Error::Parse(e), Failure::Parse(fault)) => tokens_of(s) matches Ok(tokens)
                && e.reports(fault, tokens),
            (Error::Eval(e), Failure::Eval(fault)) => e.fault() == fault,
            _ => false,
        }
    }
}

/// The atoms and bonds that the pattern `s` writes: its tokens, parsed and
/// evaluated; or the failure of the first of these three steps to fail.
pub open spec fn graph_of(s: Seq<char>) -> Result<(Seq<Atom>, Seq<Bond>), Failure> {
    match tokens_of(s) {
        Err((kind, at)) => Err(Failure::Scan(kind, at)),
        Ok(tokens) => match parse_tokens(tokens) {
            Err(fault) => Err(Failure::Parse(fault)),
            Ok(exprs) => match evaluate(exprs) {
                Err(fault) => Err(Failure::Eval(fault)),
                Ok(graph) => Ok(graph),
            },
        },
    }
}

/// A molecular graph: atoms, and the bonds between them.
pub struct Smarts {
    /// The atoms, in the order in which the pattern writes them.
    pub atoms: Vec<Atom>,
    /// The bonds, in the order in which their atoms were found.
    pub bonds: Vec<Bond>,
}

impl Smarts {
    /// Reads the pattern `s`.
    pub fn parse(s: String) -> (r: Result<Self, Error>)
        ensures
            match graph_of(s@) {
                Ok((atoms, bonds)) => r matches Ok(smarts) && smarts.atoms@ == atoms
                    && smarts.bonds@ == bonds,
                Err(failure) => r matches Err(e) && e.reports(failure, s@),
            },
    {
        let tokens = match scan(s) {
            Ok(tokens) => tokens,
            Err(e) => {
                return Err(Error::Scan(e));
            },
        };
        let mut parser = Parser::new(tokens);
        let exprs = match parser.parse() {
            Ok(exprs) => exprs,
            Err(e) => {
                return Err(Error::Parse(e));
            },
        };
        let eval = Evaluator::new(exprs);
        match eval.eval() {
            Ok((atoms, bonds)) => Ok(Self { atoms, bonds }),
            Err(e) => Err(Error::Eval(e)),
        }
    }
}

} // verus!
