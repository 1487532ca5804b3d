//! The scanner: from the characters of a pattern to its tokens.

use vstd::prelude::*;

verus! {

/// One lexical unit of a pattern.
#[derive(Clone, Copy, Debug, PartialEq, Eq, Structural)]
pub enum Token {
    // punctuation
    LBrack,
    RBrack,
    LParen,
    RParen,
    Colon,
    /// A single bond, or a negative charge inside an atom.
    Dash,
    /// A ring bond, or a stereo marker inside an atom.
    At,
    // counts
    Atom(usize),
    HCount(usize),
    Digit(usize),
    Plus(usize),
    // bonds
    DoubleBond,
    TripleBond,
    UpBond,
    DownBond,
    // end
    End,
}

impl Token {
    /// Returns `true` if the token is [`Token::End`].
    #[must_use]
    pub fn is_end(&self) -> (r: bool)
        ensures
            r == (*self == Token::End),
    {
        matches!(self, Self::End)
    }
}

/// Why a pattern could not be scanned.
#[derive(Clone, Copy, Debug, PartialEq, Eq, Structural)]
pub enum ScanErrorKind {
    /// A character that starts no token.
    Unrecognized(char),
    /// A run of digits whose value does not fit in a `usize`.
    NumberTooLarge,
}

/// A scanning failure, with the place where it happened and the whole input.
#[derive(Clone, Debug, PartialEq, Eq)]
pub struct ScanError {
    pub kind: ScanErrorKind,
    /// Index, in characters, at which the offending token starts.
    pub position: usize,
    /// The pattern that was being scanned.
    pub input: String,
}

/// Whether `c` is one of `0` to `9`.
pub open spec fn is_digit(c: char) -> bool {
    '0' <= c && c <= '9'
}

/// The value of the digit `c`.
pub open spec fn digit_value(c: char) -> nat
    recommends
        is_digit(c),
{
    (c as int - '0' as int) as nat
}

/// How many digits follow one another in `s` from index `i` on.
pub open spec fn digit_run(s: Seq<char>, i: int) -> nat
    decreases s.len() - i,
{
    if 0 <= i < s.len() && is_digit(s[i]) {
        1 + digit_run(s, i + 1)
    } else {
        0
    }
}

/// The number that the digits `s` write in base ten (0 for no digits).
pub open spec fn decimal(s: Seq<char>) -> nat
    decreases s.len(),
{
    if s.len() == 0 {
        0
    } else {
        10 * decimal(s.drop_last()) + digit_value(s.last())
    }
}

/// The number written by the digits of `s` from `from` up to the end of the
/// run of digits that starts at `run_start`.
pub open spec fn number_at(s: Seq<char>, from: int, run_start: int) -> nat {
    decimal(s.subrange(from, run_start + digit_run(s, run_start)))
}

/// A count as a token holds it, unless it is too large for one.
pub open spec fn counted(n: nat, make: spec_fn(usize) -> Token) -> Result<Token, ScanErrorKind> {
    if n <= usize::MAX {
        Ok(make(n as usize))
    } else {
        Err(ScanErrorKind::NumberTooLarge)
    }
}

/// Whether a token that starts with `c` takes the digits that follow it.
pub open spec fn takes_digits(c: char) -> bool {
    c == '#' || c == 'H' || c == '+' || is_digit(c)
}

/// How many characters the token that starts at index `i` of `s` spans.
pub open spec fn token_len(s: Seq<char>, i: int) -> nat
    recommends
        0 <= i < s.len(),
{
    if takes_digits(s[i]) {
        1 + digit_run(s, i + 1)
    } else {
        1
    }
}

/// The token that starts at index `i` of `s`.
pub open spec fn token_at(s: Seq<char>, i: int) -> Result<Token, ScanErrorKind>
    recommends
        0 <= i < s.len(),
{
    let c = s[i];
    let no_digits = digit_run(s, i + 1) == 0;
    if c == '[' {
        Ok(Token::LBrack)
    } else if c == ']' {
        Ok(Token::RBrack)
    } else if c == '(' {
        Ok(Token::LParen)
    } else if c == ')' {
        Ok(Token::RParen)
    } else if c == ':' {
        Ok(Token::Colon)
    } else if c == '-' {
        Ok(Token::Dash)
    } else if c == '@' {
        Ok(Token::At)
    } else if c == '=' {
        Ok(Token::DoubleBond)
    } else if c == '\\' {
        Ok(Token::DownBond)
    } else if c == '/' {
        Ok(Token::UpBond)
    } else if c == '#' {
        if no_digits {
            Ok(Token::TripleBond)
        } else {
            counted(number_at(s, i + 1, i + 1), |n: usize| Token::Atom(n))
        }
    } else if c == 'H' {
        if no_digits {
            Ok(Token::HCount(1))
        } else {
            counted(number_at(s, i + 1, i + 1), |n: usize| Token::HCount(n))
        }
    } else if c == '+' {
        if no_digits {
            Ok(Token::Plus(1))
        } else {
            counted(number_at(s, i + 1, i + 1), |n: usize| Token::Plus(n))
        }
    } else if is_digit(c) {
        counted(number_at(s, i, i + 1), |n: usize| Token::Digit(n))
    } else {
        Err(ScanErrorKind::Unrecognized(c))
    }
}

/// How many characters of `s` stand at index `i` or after it.
pub open spec fn left(s: Seq<char>, i: int) -> nat {
    if 0 <= i < s.len() {
        (s.len() - i) as nat
    } else {
        0
    }
}

/// The tokens of `s` from index `i` on, closed by [`Token::End`]; or the
/// first failure, with the index at which the failing token starts.
pub open spec fn tokens_from(s: Seq<char>, i: int) -> Result<Seq<Token>, (ScanErrorKind, int)>
    decreases left(s, i),
{
    if i < 0 || i >= s.len() {
        Ok(seq![Token::End])
    } else {
        match token_at(s, i) {
            Ok(t) => match tokens_from(s, i + token_len(s, i)) {
                Ok(rest) => Ok(seq![t] + rest),
                Err(e) => Err(e),
            },
            Err(kind) => Err((kind, i)),
        }
    }
}

/// The tokens of the pattern `s`.
pub open spec fn tokens_of(s: Seq<char>) -> Result<Seq<Token>, (ScanErrorKind, int)> {
    tokens_from(s, 0)
}

/// A run of digits ends within the sequence.
pub proof fn lemma_digit_run_bound(s: Seq<char>, i: int)
    requires
        0 <= i <= s.len(),
    ensures
        i + digit_run(s, i) <= s.len(),
    decreases s.len() - i,
{
    if i < s.len() && is_digit(s[i]) {
        lemma_digit_run_bound(s, i + 1);
    }
}

/// One more digit multiplies the number by ten and adds the digit.
pub proof fn lemma_decimal_step(s: Seq<char>, from: int, to: int)
    requires
        0 <= from <= to < s.len(),
    ensures
        decimal(s.subrange(from, to + 1)) == 10 * decimal(s.subrange(from, to)) + digit_value(
            s[to],
        ),
{
    let longer = s.subrange(from, to + 1);
    assert(longer.drop_last() =~= s.subrange(from, to));
}

/// A number as a `usize`, unless it is too large for one.
pub open spec fn fitting(n: nat) -> Option<usize> {
    if n <= usize::MAX {
        Some(n as usize)
    } else {
        None
    }
}

fn is_digit_char(c: char) -> (r: bool)
    ensures
        r == is_digit(c),
{
    '0' <= c && c <= '9'
}

/// Reads the run of digits of `chars` that starts at index `start`: returns
/// the index after the run, and the number that the run writes if it fits.
pub fn get_digits(chars: &Vec<char>, start: usize) -> (r: (usize, Option<usize>))
    requires
        start <= chars.len(),
    ensures
        r.0 == start + digit_run(chars@, start as int),
        r.0 <= chars.len(),
        r.1 == fitting(decimal(chars@.subrange(start as int, r.0 as int))),
{
    let mut end: usize = start;
    let mut value: Option<usize> = Some(0);
    while end < chars.len() && is_digit_char(chars[end])
        invariant
            start <= end <= chars.len(),
            digit_run(chars@, start as int) == (end - start) + digit_run(chars@, end as int),
            value == fitting(decimal(chars@.subrange(start as int, end as int))),
        decreases chars.len() - end,
    {
        let c: char = chars[end];
        let d: usize = (c as u32 - '0' as u32) as usize;
        proof {
            lemma_decimal_step(chars@, start as int, end as int);
        }
        value =
        match value {
            Some(v) => match v.checked_mul(10) {
                Some(tens) => tens.checked_add(d),
                None => None,
            },
            None => None,
        };
        end = end + 1;
    }
    (end, value)
}

/// The characters of `s`, in order.
pub fn chars_of(s: &str) -> (v: Vec<char>)
    ensures
        v@ == s@,
{
    let mut v: Vec<char> = Vec::new();
    for c in it: s.chars()
        invariant
            v@ == it.seq().take(it.index() as int),
    {
        v.push(c);
    }
    v
}

/// The tokens `found` so far, followed by what scanning the rest gives.
pub open spec fn followed_by(
    found: Seq<Token>,
    rest: Result<Seq<Token>, (ScanErrorKind, int)>,
) -> Result<Seq<Token>, (ScanErrorKind, int)> {
    match rest {
        Ok(tokens) => Ok(found + tokens),
        Err(e) => Err(e),
    }
}

fn count_token(value: Option<usize>, lead: char) -> (r: Result<Token, ScanErrorKind>)
    requires
        takes_digits(lead),
    ensures
        r == match value {
            Some(n) => Ok::<Token, ScanErrorKind>(
                if lead == '#' {
                    Token::Atom(n)
                } else if lead == 'H' {
                    Token::HCount(n)
                } else if lead == '+' {
                    Token::Plus(n)
                } else {
                    Token::Digit(n)
                },
            ),
            None => Err(ScanErrorKind::NumberTooLarge),
        },
{
    match value {
        Some(n) => Ok(
            if lead == '#' {
                Token::Atom(n)
            } else if lead == 'H' {
                Token::HCount(n)
            } else if lead == '+' {
                Token::Plus(n)
            } else {
                Token::Digit(n)
            },
        ),
        None => Err(ScanErrorKind::NumberTooLarge),
    }
}

/// Scans the token that starts at index `i` of `chars`: returns the token
/// and the index after it.
fn scan_token(chars: &Vec<char>, i: usize) -> (r: (Result<Token, ScanErrorKind>, usize))
    requires
        i < chars.len(),
    ensures
        r.0 == token_at(chars@, i as int),
        r.1 == i + token_len(chars@, i as int),
        i < r.1 <= chars.len(),
{
    let c: char = chars[i];
    proof {
        lemma_digit_run_bound(chars@, i + 1);
    }
    if c == '[' {
        (Ok(Token::LBrack), i + 1)
    } else if c == ']' {
        (Ok(Token::RBrack), i + 1)
    } else if c == '(' {
        (Ok(Token::LParen), i + 1)
    } else if c == ')' {
        (Ok(Token::RParen), i + 1)
    } else if c == ':' {
        (Ok(Token::Colon), i + 1)
    } else if c == '-' {
        (Ok(Token::Dash), i + 1)
    } else if c == '@' {
        (Ok(Token::At), i + 1)
    } else if c == '=' {
        (Ok(Token::DoubleBond), i + 1)
    } else if c == '\\' {
        (Ok(Token::DownBond), i + 1)
    } else if c == '/' {
        (Ok(Token::UpBond), i + 1)
    } else if c == '#' || c == 'H' || c == '+' {
        let (end, value) = get_digits(chars, i + 1);
        if end == i + 1 {
            if c == '#' {
                (Ok(Token::TripleBond), end)
            } else if c == 'H' {
                (Ok(Token::HCount(1)), end)
            } else {
                (Ok(Token::Plus(1)), end)
            }
        } else {
            (count_token(value, c), end)
        }
    } else if is_digit_char(c) {
        let (end, value) = get_digits(chars, i);
        (count_token(value, c), end)
    } else {
        (Err(ScanErrorKind::Unrecognized(c)), i + 1)
    }
}

/// Scans a pattern into its tokens, closed by one [`Token::End`].
///
/// Fails at the first character that starts no token, and at the first
/// number that does not fit in a `usize`; the error holds the index at which
/// the failing token starts, and the pattern.
pub fn scan(s: String) -> (r: Result<Vec<Token>, ScanError>)
    ensures
        match tokens_of(s@) {
            Ok(tokens) => r matches Ok(v) && v@ == tokens,
            Err((kind, at)) => r matches Err(e) && e.kind == kind && e.position == at && e.input@
                == s@,
        },
{
    let chars = chars_of(s.as_str());
    let mut ret: Vec<Token> = Vec::new();
    let mut i: usize = 0;
    while i < chars.len()
        invariant
            chars@ == s@,
            i <= chars.len(),
            tokens_of(s@) == followed_by(ret@, tokens_from(s@, i as int)),
        decreases chars.len() - i,
    {
        let (found, end) = scan_token(&chars, i);
        match found {
            Ok(t) => {
                proof {
                    let rest = tokens_from(s@, end as int);
                    if rest is Ok {
                        assert(ret@ + (seq![t] + rest->Ok_0) =~= ret@.push(t) + rest->Ok_0);
                    }
                }
                ret.push(t);
                i = end;
            },
            Err(kind) => {
                return Err(ScanError { kind, position: i, input: s });
            },
        }
    }
    ret.push(Token::End);
    Ok(ret)
}

} // verus!
