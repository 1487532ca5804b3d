//! The parser: from tokens to the expressions of a pattern.
//!
//! ```text
//! pattern    := item*
//! item       := atom | grouping | connector | bond
//! atom       := '[' atom_field* ']'
//! grouping   := '(' pattern ')'
//! connector  := INTEGER
//! bond       := BOND_SYMBOL
//! ```

use super::scanner::Token;
use super::{Atom, BondOrder, Chiral};
use vstd::prelude::*;

verus! {

/// One expression of a pattern.
#[derive(Debug, PartialEq, Eq)]
pub enum Expr {
    /// An atom descriptor.
    Atom(Atom),
    /// A bond symbol; its two atoms are found later.
    Bond(BondOrder),
    /// A parenthesised branch.
    Grouping(Vec<Expr>),
    /// A ring-closure label.
    Connect(usize),
}

/// An expression as a mathematical value.
pub enum ExprView {
    Atom(Atom),
    Bond(BondOrder),
    Grouping(Seq<ExprView>),
    Connect(usize),
}

/// The mathematical value of an expression.
pub open spec fn expr_view(e: Expr) -> ExprView
    decreases e,
{
    match e {
        Expr::Atom(a) => ExprView::Atom(a),
        Expr::Bond(order) => ExprView::Bond(order),
        Expr::Grouping(g) => ExprView::Grouping(
            Seq::new(
                g@.len(),
                |i: int|
                    if 0 <= i < g@.len() {
                        expr_view(g@[i])
                    } else {
                        arbitrary()
                    },
            ),
        ),
        Expr::Connect(n) => ExprView::Connect(n),
    }
}

impl View for Expr {
    type V = ExprView;

    open spec fn view(&self) -> ExprView {
        expr_view(*self)
    }
}

/// The views of the expressions of `s`, in order.
pub open spec fn views(s: Seq<Expr>) -> Seq<ExprView> {
    Seq::new(s.len(), |i: int| s[i]@)
}

/// Why a sequence of tokens could not be parsed.
#[derive(Clone, Copy, Debug, PartialEq, Eq, Structural)]
pub enum ParseErrorKind {
    /// A token that cannot stand inside an atom's brackets.
    UnknownAtomComponent,
    /// A token that writes no bond where a bond is expected.
    UnknownBondComponent,
    /// The input ended inside an atom's brackets.
    UnterminatedAtom,
    /// A charge whose magnitude does not fit in an `isize`.
    ChargeOutOfRange,
}

/// A parsing failure as a mathematical value: what went wrong, at which
/// token, and where the cursor stood after that token was taken.
pub struct ParseFault {
    pub kind: ParseErrorKind,
    pub token: Token,
    pub position: int,
}

/// The token at index `i`; past the last token the input counts as ended.
pub open spec fn token_or_end(tokens: Seq<Token>, i: int) -> Token {
    if 0 <= i < tokens.len() {
        tokens[i]
    } else {
        Token::End
    }
}

/// How many tokens stand at index `i` or after it.
pub open spec fn tokens_left(tokens: Seq<Token>, i: int) -> nat {
    if 0 <= i < tokens.len() {
        (tokens.len() - i) as nat
    } else {
        0
    }
}

/// The tokens within `n` places of index `i`: from `i - n`, up to but not
/// including `i + n`, as far as `tokens` reaches.
pub open spec fn window(tokens: Seq<Token>, i: int, n: int) -> Seq<Token>
    recommends
        0 <= i <= tokens.len(),
        0 <= n,
{
    let from = if i >= n {
        i - n
    } else {
        0
    };
    let to = if i + n <= tokens.len() {
        i + n
    } else {
        tokens.len() as int
    };
    tokens.subrange(from, to)
}

/// An atom of which nothing has been read yet.
pub open spec fn blank_atom() -> Atom {
    Atom { atomic_number: 0, n_hydrogens: 0, charge: 0, chirality: Chiral::Unspecified, mol_index: 0 }
}

/// The result `r` of reading on, with `taken` more tokens counted in.
pub open spec fn counting(taken: nat, r: Result<(Atom, nat), ParseFault>) -> Result<
    (Atom, nat),
    ParseFault,
> {
    match r {
        Ok((atom, n)) => Ok((atom, taken + n)),
        Err(fault) => Err(fault),
    }
}

/// Reads the fields of an atom from index `i` on, where `atom` holds what the
/// fields before `i` have set. Gives the finished atom and how many tokens
/// were read, the closing bracket included.
pub open spec fn atom_fields(tokens: Seq<Token>, i: int, atom: Atom) -> Result<
    (Atom, nat),
    ParseFault,
>
    decreases tokens_left(tokens, i),
{
    let next = token_or_end(tokens, i + 1);
    match token_or_end(tokens, i) {
        Token::Atom(n) => counting(1, atom_fields(tokens, i + 1, Atom { atomic_number: n, ..atom })),
        Token::HCount(n) => counting(1, atom_fields(tokens, i + 1, Atom { n_hydrogens: n, ..atom })),
        Token::Colon => match next {
            Token::Digit(index) => counting(
                2,
                atom_fields(tokens, i + 2, Atom { mol_index: index, ..atom }),
            ),
            Token::End => Err(
                ParseFault { kind: ParseErrorKind::UnterminatedAtom, token: next, position: i + 1 },
            ),
            _ => Err(
                ParseFault {
                    kind: ParseErrorKind::UnknownAtomComponent,
                    token: next,
                    position: i + 2,
                },
            ),
        },
        Token::Plus(n) => if n <= isize::MAX {
            counting(1, atom_fields(tokens, i + 1, Atom { charge: n as isize, ..atom }))
        } else {
            Err(
                ParseFault {
                    kind: ParseErrorKind::ChargeOutOfRange,
                    token: Token::Plus(n),
                    position: i + 1,
                },
            )
        },
        Token::Dash => match next {
            Token::Digit(n) => if n <= isize::MAX {
                counting(2, atom_fields(tokens, i + 2, Atom { charge: (-n) as isize, ..atom }))
            } else {
                Err(
                    ParseFault {
                        kind: ParseErrorKind::ChargeOutOfRange,
                        token: next,
                        position: i + 2,
                    },
                )
            },
            _ => counting(1, atom_fields(tokens, i + 1, Atom { charge: -1isize, ..atom })),
        },
        Token::At => if next == Token::At {
            counting(2, atom_fields(tokens, i + 2, Atom { chirality: Chiral::Cw, ..atom }))
        } else {
            counting(1, atom_fields(tokens, i + 1, Atom { chirality: Chiral::Acw, ..atom }))
        },
        Token::RBrack => Ok((atom, 1)),
        Token::End => Err(
            ParseFault { kind: ParseErrorKind::UnterminatedAtom, token: Token::End, position: i },
        ),
        other => Err(
            ParseFault {
                kind: ParseErrorKind::UnknownAtomComponent,
                token: other,
                position: i + 1,
            },
        ),
    }
}

/// The bond order that a token writes outside an atom's brackets, if any.
pub open spec fn bond_order_of(token: Token) -> Option<BondOrder> {
    match token {
        Token::Dash => Some(BondOrder::Single),
        Token::DoubleBond => Some(BondOrder::Double),
        Token::Colon => Some(BondOrder::Aromatic),
        Token::TripleBond => Some(BondOrder::Triple),
        Token::At => Some(BondOrder::Ring),
        Token::DownBond => Some(BondOrder::Down),
        Token::UpBond => Some(BondOrder::Up),
        _ => None,
    }
}

/// Whether the items of a pattern stop before `token`: at the end of the
/// input, and at a closing parenthesis.
pub open spec fn ends_items(token: Token) -> bool {
    token == Token::End || token == Token::RParen
}

/// Reads one item, which starts at index `i`: an atom at an opening bracket,
/// a grouping at an opening parenthesis, a ring-closure label at a number,
/// and a bond at any other token. Gives the expression and how many tokens
/// the item has after its first one.
pub open spec fn item_at(tokens: Seq<Token>, i: int) -> Result<(ExprView, nat), ParseFault>
    recommends
        !ends_items(token_or_end(tokens, i)),
    decreases tokens_left(tokens, i), 0int,
{
    match token_or_end(tokens, i) {
        Token::LBrack => match atom_fields(tokens, i + 1, blank_atom()) {
            Ok((atom, n)) => Ok((ExprView::Atom(atom), n)),
            Err(fault) => Err(fault),
        },
        Token::LParen => match items_from(tokens, i + 1) {
            Ok((inner, n)) => Ok(
                (
                    ExprView::Grouping(inner),
                    if token_or_end(tokens, i + 1 + n) == Token::RParen {
                        n + 1
                    } else {
                        n
                    },
                ),
            ),
            Err(fault) => Err(fault),
        },
        Token::Digit(label) => Ok((ExprView::Connect(label), 0)),
        other => match bond_order_of(other) {
            Some(order) => Ok((ExprView::Bond(order), 0)),
            None => Err(
                ParseFault {
                    kind: ParseErrorKind::UnknownBondComponent,
                    token: other,
                    position: i + 1,
                },
            ),
        },
    }
}

/// Reads items from index `i` on, up to the end of the input or to a closing
/// parenthesis, which is left unread. Gives the expressions and how many
/// tokens were read.
pub open spec fn items_from(tokens: Seq<Token>, i: int) -> Result<(Seq<ExprView>, nat), ParseFault>
    decreases tokens_left(tokens, i), 1int,
{
    if ends_items(token_or_end(tokens, i)) {
        Ok((Seq::empty(), 0))
    } else {
        match item_at(tokens, i) {
            Ok((first, n)) => match items_from(tokens, i + 1 + n) {
                Ok((rest, m)) => Ok((seq![first] + rest, 1 + n + m)),
                Err(fault) => Err(fault),
            },
            Err(fault) => Err(fault),
        }
    }
}

/// The expressions that the tokens of a pattern parse to. Parsing stops at
/// the first end token, and at a closing parenthesis that closes no grouping;
/// a grouping that the input ends in is closed by the end.
pub open spec fn parse_tokens(tokens: Seq<Token>) -> Result<Seq<ExprView>, ParseFault> {
    match items_from(tokens, 0) {
        Ok((exprs, _)) => Ok(exprs),
        Err(fault) => Err(fault),
    }
}

/// A parsing failure: what went wrong, at which token, where the cursor
/// stood after that token was taken, and the tokens around that place.
#[derive(Clone, Debug, PartialEq, Eq)]
pub struct ParseError {
    pub kind: ParseErrorKind,
    /// The token that could not be used.
    pub token: Token,
    /// The cursor after `token` was taken.
    pub position: usize,
    /// The tokens within five places of `position`.
    pub context: Vec<Token>,
}

impl ParseError {
    /// The failure without its context.
    pub open spec fn fault(&self) -> ParseFault {
        ParseFault { kind: self.kind, token: self.token, position: self.position as int }
    }

    /// Whether this error reports `fault` as met in `tokens`.
    pub open spec fn reports(&self, fault: ParseFault, tokens: Seq<Token>) -> bool {
        &&& self.fault() == fault
        &&& self.context@ == window(tokens, fault.position, 5)
    }
}

/// A view of an expression in a grouping is the grouping's view at that place.
pub proof fn lemma_grouping_view(g: Vec<Expr>)
    ensures
        Expr::Grouping(g)@ == ExprView::Grouping(views(g@)),
{
    assert(Expr::Grouping(g)@->Grouping_0 =~= views(g@));
}

/// A parser over the tokens of one pattern.
pub struct Parser {
    tokens: Vec<Token>,
    cur: usize,
}

/// What parsing the items before the cursor gave, and what parsing on gives.
pub open spec fn items_then(
    found: Seq<ExprView>,
    taken: nat,
    rest: Result<(Seq<ExprView>, nat), ParseFault>,
) -> Result<(Seq<ExprView>, nat), ParseFault> {
    match rest {
        Ok((exprs, n)) => Ok((found + exprs, taken + n)),
        Err(fault) => Err(fault),
    }
}

impl Parser {
    /// The tokens that this parser reads.
    pub closed spec fn tokens(&self) -> Seq<Token> {
        self.tokens@
    }

    /// The index of the token that this parser reads next.
    pub closed spec fn cursor(&self) -> int {
        self.cur as int
    }

    /// The cursor stands within the tokens or right after them.
    pub open spec fn wf(&self) -> bool {
        0 <= self.cursor() <= self.tokens().len()
    }

    pub fn new(tokens: Vec<Token>) -> (r: Self)
        ensures
            r.tokens() == tokens@,
            r.cursor() == 0,
            r.wf(),
    {
        Self { tokens, cur: 0 }
    }

    /// The tokens within `n` places of the cursor.
    fn context(&self, n: usize) -> (r: Vec<Token>)
        requires
            self.wf(),
        ensures
            r@ == window(self.tokens(), self.cursor(), n as int),
    {
        let beg: usize = if self.cur >= n {
            self.cur - n
        } else {
            0
        };
        let end: usize = if self.tokens.len() - self.cur >= n {
            self.cur + n
        } else {
            self.tokens.len()
        };
        let mut r: Vec<Token> = Vec::new();
        let mut i: usize = beg;
        while i < end
            invariant
                beg <= i <= end <= self.tokens.len(),
                r@ == self.tokens@.subrange(beg as int, i as int),
            decreases end - i,
        {
            r.push(self.tokens[i]);
            i = i + 1;
        }
        r
    }

    #[inline]
    fn at_end(&self) -> (r: bool)
        ensures
            r == (token_or_end(self.tokens(), self.cursor()) == Token::End),
    {
        self.peek().is_end()
    }

    fn peek(&self) -> (r: Token)
        ensures
            r == token_or_end(self.tokens(), self.cursor()),
    {
        if self.cur < self.tokens.len() {
            self.tokens[self.cur]
        } else {
            Token::End
        }
    }

    /// The token after the current one.
    fn peek_next(&self) -> (r: Token)
        requires
            self.wf(),
        ensures
            r == token_or_end(self.tokens(), self.cursor() + 1),
    {
        if self.cur < self.tokens.len() && self.cur + 1 < self.tokens.len() {
            self.tokens[self.cur + 1]
        } else {
            Token::End
        }
    }

    /// Takes the current token; the cursor moves on unless the input has ended.
    fn advance(&mut self) -> (r: Token)
        requires
            old(self).wf(),
        ensures
            r == token_or_end(old(self).tokens(), old(self).cursor()),
            final(self).tokens() == old(self).tokens(),
            final(self).cursor() == if r == Token::End {
                old(self).cursor()
            } else {
                old(self).cursor() + 1
            },
            final(self).wf(),
    {
        let ret = self.peek();
        if !self.at_end() {
            assert(self.cur < self.tokens.len());
            self.cur += 1;
        }
        ret
    }

    /// The error for `token`, which was taken last, with the tokens around
    /// the cursor.
    fn error(&self, kind: ParseErrorKind, token: Token) -> (e: ParseError)
        requires
            self.wf(),
        ensures
            e.reports(
                ParseFault { kind, token, position: self.cursor() },
                self.tokens(),
            ),
    {
        ParseError { kind, token, position: self.cur, context: self.context(5) }
    }

    /// Parses one bond symbol.
    fn bond(&mut self) -> (r: Result<BondOrder, ParseError>)
        requires
            old(self).wf(),
            token_or_end(old(self).tokens(), old(self).cursor()) != Token::End,
        ensures
            final(self).tokens() == old(self).tokens(),
            final(self).cursor() == old(self).cursor() + 1,
            final(self).wf(),
            match bond_order_of(token_or_end(old(self).tokens(), old(self).cursor())) {
                Some(order) => r == Ok::<BondOrder, ParseError>(order),
                None => r matches Err(e) && e.reports(
                    ParseFault {
                        kind: ParseErrorKind::UnknownBondComponent,
                        token: token_or_end(old(self).tokens(), old(self).cursor()),
                        position: old(self).cursor() + 1,
                    },
                    old(self).tokens(),
                ),
            },
    {
        match self.advance() {
            Token::Dash => Ok(BondOrder::Single),
            Token::DoubleBond => Ok(BondOrder::Double),
            Token::Colon => Ok(BondOrder::Aromatic),
            Token::TripleBond => Ok(BondOrder::Triple),
            Token::At => Ok(BondOrder::Ring),
            Token::DownBond => Ok(BondOrder::Down),
            Token::UpBond => Ok(BondOrder::Up),
            x => Err(self.error(ParseErrorKind::UnknownBondComponent, x)),
        }
    }

    /// Parses an atom; the cursor stands at its opening bracket.
    fn atom(&mut self) -> (r: Result<Atom, ParseError>)
        requires
            old(self).wf(),
            token_or_end(old(self).tokens(), old(self).cursor()) == Token::LBrack,
        ensures
            final(self).tokens() == old(self).tokens(),
            final(self).wf(),
            match atom_fields(old(self).tokens(), old(self).cursor() + 1, blank_atom()) {
                Ok((atom, n)) => {
                    &&& r == Ok::<Atom, ParseError>(atom)
                    &&& final(self).cursor() == old(self).cursor() + 1 + n
                },
                Err(fault) => r matches Err(e) && e.reports(fault, old(self).tokens()),
            },
    {
        self.advance();  // discard LBrack signaling we're in here
        let ghost first = self.cursor();
        let mut atom = Atom {
            atomic_number: 0,
            n_hydrogens: 0,
            charge: 0,
            chirality: Chiral::Unspecified,
            mol_index: 0,
        };
        loop
            invariant
                self.wf(),
                self.tokens() == old(self).tokens(),
                first == old(self).cursor() + 1,
                first <= self.cursor(),
                atom_fields(self.tokens(), first, blank_atom()) == counting(
                    (self.cursor() - first) as nat,
                    atom_fields(self.tokens(), self.cursor(), atom),
                ),
            decreases tokens_left(self.tokens(), self.cursor()),
        {
            let t = self.advance();
            match t {
                Token::Atom(n) => {
                    atom.atomic_number = n;
                },
                Token::HCount(n) => {
                    atom.n_hydrogens = n;
                },
                Token::Colon => {
                    let index = self.advance();
                    match index {
                        Token::Digit(i) => {
                            atom.mol_index = i;
                        },
                        Token::End => {
                            return Err(self.error(ParseErrorKind::UnterminatedAtom, index));
                        },
                        x => {
                            return Err(self.error(ParseErrorKind::UnknownAtomComponent, x));
                        },
                    }
                },
                Token::Plus(n) => {
                    if n <= isize::MAX as usize {
                        atom.charge = n as isize;
                    } else {
                        return Err(self.error(ParseErrorKind::ChargeOutOfRange, t));
                    }
                },
                Token::Dash => {
                    let next = self.peek();
                    match next {
                        Token::Digit(n) => {
                            self.advance();
                            if n <= isize::MAX as usize {
                                atom.charge = -(n as isize);
                            } else {
                                return Err(self.error(ParseErrorKind::ChargeOutOfRange, next));
                            }
                        },
                        _ => {
                            atom.charge = -1;
                        },
                    }
                },
                Token::At => {
                    if self.peek() == Token::At {
                        self.advance();
                        atom.chirality = Chiral::Cw;
                    } else {
                        atom.chirality = Chiral::Acw;
                    }
                },
                Token::RBrack => {
                    return Ok(atom);
                },
                Token::End => {
                    return Err(self.error(ParseErrorKind::UnterminatedAtom, t));
                },
                x => {
                    return Err(self.error(ParseErrorKind::UnknownAtomComponent, x));
                },
            }
        }
    }

    /// Parses a grouping; the cursor stands at its opening parenthesis.
    fn grouping(&mut self) -> (r: Result<Vec<Expr>, ParseError>)
        requires
            old(self).wf(),
            token_or_end(old(self).tokens(), old(self).cursor()) == Token::LParen,
        ensures
            final(self).tokens() == old(self).tokens(),
            final(self).wf(),
            match item_at(old(self).tokens(), old(self).cursor()) {
                Ok((e, n)) => {
                    &&& r matches Ok(g) && e == ExprView::Grouping(views(g@))
                    &&& final(self).cursor() == old(self).cursor() + 1 + n
                },
                Err(fault) => r matches Err(e) && e.reports(fault, old(self).tokens()),
            },
        decreases tokens_left(old(self).tokens(), old(self).cursor()), 0int,
    {
        self.advance();  // discard LParen
        match self.parse() {
            Ok(g) => {
                self.advance();  // discard closing RParen
                Ok(g)
            },
            Err(e) => Err(e),
        }
    }

    /// Parses the items from the cursor on, up to the end of the input or to
    /// a closing parenthesis, at which the cursor is left.
    pub fn parse(&mut self) -> (r: Result<Vec<Expr>, ParseError>)
        requires
            old(self).wf(),
        ensures
            final(self).tokens() == old(self).tokens(),
            final(self).wf(),
            match items_from(old(self).tokens(), old(self).cursor()) {
                Ok((exprs, n)) => {
                    &&& r matches Ok(v) && views(v@) == exprs
                    &&& final(self).cursor() == old(self).cursor() + n
                    &&& ends_items(token_or_end(final(self).tokens(), final(self).cursor()))
                },
                Err(fault) => r matches Err(e) && e.reports(fault, old(self).tokens()),
            },
        decreases tokens_left(old(self).tokens(), old(self).cursor()), 1int,
    {
        let mut exprs: Vec<Expr> = Vec::new();
        let ghost start = self.cursor();
        loop
            invariant
                self.wf(),
                self.tokens() == old(self).tokens(),
                start == old(self).cursor(),
                start <= self.cursor(),
                items_from(self.tokens(), start) == items_then(
                    views(exprs@),
                    (self.cursor() - start) as nat,
                    items_from(self.tokens(), self.cursor()),
                ),
            decreases tokens_left(self.tokens(), self.cursor()),
        {
            let ghost found = exprs@;
            let ghost at = self.cursor();
            match self.peek() {
                Token::End | Token::RParen => {
                    return Ok(exprs);
                },
                Token::LBrack => {
                    match self.atom() {
                        Ok(atom) => {
                            exprs.push(Expr::Atom(atom));
                        },
                        Err(e) => {
                            assert(item_at(self.tokens(), at) is Err);
                            return Err(e);
                        },
                    }
                },
                Token::LParen => {
                    match self.grouping() {
                        Ok(g) => {
                            proof {
                                lemma_grouping_view(g);
                            }
                            exprs.push(Expr::Grouping(g));
                        },
                        Err(e) => {
                            return Err(e);
                        },
                    }
                },
                Token::Digit(n) => {
                    self.advance();
                    exprs.push(Expr::Connect(n));
                },
                _ => {
                    match self.bond() {
                        Ok(order) => {
                            exprs.push(Expr::Bond(order));
                        },
                        Err(e) => {
                            return Err(e);
                        },
                    }
                },
            }
            proof {
                let taken = (self.cursor() - at - 1) as nat;
                lemma_item_read(self.tokens(), start, at, found, exprs@.last(), taken);
            }
        }
    }
}

/// Reading one more item: what has been found grows by that item, and what
/// is left to parse starts after it.
proof fn lemma_item_read(
    tokens: Seq<Token>,
    start: int,
    at: int,
    found: Seq<Expr>,
    e: Expr,
    n: nat,
)
    requires
        start <= at,
        !ends_items(token_or_end(tokens, at)),
        item_at(tokens, at) == Ok::<(ExprView, nat), ParseFault>((e@, n)),
    ensures
        items_then(views(found), (at - start) as nat, items_from(tokens, at)) == items_then(
            views(found.push(e)),
            (at + 1 + n - start) as nat,
            items_from(tokens, at + 1 + n),
        ),
{
    assert(views(found.push(e)) =~= views(found).push(e@));
    match items_from(tokens, at + 1 + n) {
        Ok((rest, m)) => {
            assert(views(found) + (seq![e@] + rest) =~= views(found).push(e@) + rest);
        },
        Err(_) => {},
    }
}

} // verus!
