use vstd::prelude::*;
use crate::op::Op;
use crate::register::{Register, same_text};

verus! {

/// Why a line of assembly text is not an instruction.
#[derive(Clone, Debug, PartialEq, Eq)]
pub enum ParseError {
    /// The line holds no token.
    Empty,
    /// The first token is no mnemonic.
    UnknownMnemonic(String),
    /// The mnemonic takes `expected` arguments, and the line gives `found`.
    WrongArgumentCount { mnemonic: String, expected: usize, found: usize },
    /// The argument is no numeric literal of a byte.
    InvalidNumber(String),
    /// The argument names no register.
    InvalidRegister(String),
}

/// A `ParseError` with its texts as character sequences.
pub enum ParseFault {
    Empty,
    UnknownMnemonic(Seq<char>),
    WrongArgumentCount { mnemonic: Seq<char>, expected: nat, found: nat },
    InvalidNumber(Seq<char>),
    InvalidRegister(Seq<char>),
}

impl View for ParseError {
    type V = ParseFault;

    open spec fn view(&self) -> ParseFault {
        match self {
            ParseError::Empty => ParseFault::Empty,
            ParseError::UnknownMnemonic(m) => ParseFault::UnknownMnemonic(m@),
            ParseError::WrongArgumentCount { mnemonic, expected, found } => {
                ParseFault::WrongArgumentCount {
                    mnemonic: mnemonic@,
                    expected: *expected as nat,
                    found: *found as nat,
                }
            },
            ParseError::InvalidNumber(t) => ParseFault::InvalidNumber(t@),
            ParseError::InvalidRegister(t) => ParseFault::InvalidRegister(t@),
        }
    }
}

/// A parse result with its error as a `ParseFault`.
pub open spec fn parse_view(r: Result<Op, ParseError>) -> Result<Op, ParseFault> {
    match r {
        Ok(op) => Ok(op),
        Err(e) => Err(e@),
    }
}

/// The argument-count check of a mnemonic that takes `expected` arguments.
pub open spec fn arity_fault(toks: Seq<Seq<char>>, expected: nat) -> Option<ParseFault> {
    if toks.len() - 1 == expected {
        None
    } else {
        Some(
            ParseFault::WrongArgumentCount {
                mnemonic: toks[0],
                expected,
                found: (toks.len() - 1) as nat,
            },
        )
    }
}

/// The register that a `PopRegister` argument denotes: a symbolic name, or a
/// numeric literal of a register index.
pub open spec fn pop_register_arg(t: Seq<char>) -> Option<Register> {
    match Register::with_name(t) {
        Some(r) => Some(r),
        None => match numeric_value(t) {
            Some(v) => Register::with_slot(v as int),
            None => None,
        },
    }
}

/// The instruction that the tokens `toks` of a line spell.
pub open spec fn parse_tokens(toks: Seq<Seq<char>>) -> Result<Op, ParseFault> {
    if toks.len() == 0 {
        Err(ParseFault::Empty)
    } else {
        let m = toks[0];
        if m == "Push"@ {
            match arity_fault(toks, 1) {
                Some(f) => Err(f),
                None => match numeric_value(toks[1]) {
                    Some(v) => Ok(Op::Push(v as u16)),
                    None => Err(ParseFault::InvalidNumber(toks[1])),
                },
            }
        } else if m == "PopRegister"@ {
            match arity_fault(toks, 1) {
                Some(f) => Err(f),
                None => match pop_register_arg(toks[1]) {
                    Some(r) => Ok(Op::PopRegister(r)),
                    None => Err(ParseFault::InvalidRegister(toks[1])),
                },
            }
        } else if m == "AddStack"@ {
            match arity_fault(toks, 0) {
                Some(f) => Err(f),
                None => Ok(Op::AddStack),
            }
        } else if m == "AddRegister"@ {
            match arity_fault(toks, 2) {
                Some(f) => Err(f),
                None => match (Register::with_name(toks[1]), Register::with_name(toks[2])) {
                    (Some(r1), Some(r2)) => Ok(Op::AddRegister(r1, r2)),
                    (None, _) => Err(ParseFault::InvalidRegister(toks[1])),
                    (Some(_), None) => Err(ParseFault::InvalidRegister(toks[2])),
                },
            }
        } else if m == "Signal"@ {
            match arity_fault(toks, 1) {
                Some(f) => Err(f),
                None => match numeric_value(toks[1]) {
                    Some(v) => Ok(Op::Signal(v)),
                    None => Err(ParseFault::InvalidNumber(toks[1])),
                },
            }
        } else {
            Err(ParseFault::UnknownMnemonic(m))
        }
    }
}

/// Characters that separate the tokens of an instruction line.
pub open spec fn is_sep(c: char) -> bool {
    c == ' ' || c == '\t' || c == '\r' || c == '\n'
}

/// The tokens of `s`: its maximal runs of non-separator characters, in order.
pub open spec fn tokens(s: Seq<char>) -> Seq<Seq<char>>
    decreases s.len(),
{
    if s.len() == 0 {
        seq![]
    } else {
        let t = tokens(s.drop_last());
        let c = s.last();
        if is_sep(c) {
            t
        } else if s.len() >= 2 && !is_sep(s[s.len() - 2]) {
            t.drop_last().push(t.last().push(c))
        } else {
            t.push(seq![c])
        }
    }
}

/// The value of `c` as a digit (`0`-`9`, then `a`-`z` or `A`-`Z` from 10 on);
/// 99 for any other character.
pub open spec fn digit_of(c: char) -> nat {
    let u = c as u32;
    if 48 <= u <= 57 {
        (u - 48) as nat
    } else if 97 <= u <= 122 {
        (u - 87) as nat
    } else if 65 <= u <= 90 {
        (u - 55) as nat
    } else {
        99
    }
}

/// Whether every character of `s` is a digit of base `radix`.
pub open spec fn all_digits(s: Seq<char>, radix: nat) -> bool {
    forall|i: int| 0 <= i < s.len() ==> digit_of(#[trigger] s[i]) < radix
}

/// The number that the digits `s` write in base `radix`.
pub open spec fn digits_value(s: Seq<char>, radix: nat) -> nat
    decreases s.len(),
{
    if s.len() == 0 {
        0
    } else {
        digits_value(s.drop_last(), radix) * radix + digit_of(s.last())
    }
}

/// The byte that the digits `d` (after an optional `+`) write in base `radix`;
/// `None` where there are no digits, a character is no digit of that base, or
/// the value exceeds 255.
pub open spec fn radix_value(d: Seq<char>, radix: nat) -> Option<u8> {
    let body = if d.len() > 0 && d[0] == '+' {
        d.drop_first()
    } else {
        d
    };
    if body.len() == 0 || !all_digits(body, radix) || digits_value(body, radix) >= 256 {
        None
    } else {
        Some(digits_value(body, radix) as u8)
    }
}

/// The byte that a numeric literal denotes: `$` selects base 16, `%` base 2,
/// no prefix base 10.
pub open spec fn numeric_value(t: Seq<char>) -> Option<u8> {
    if t.len() == 0 {
        None
    } else if t[0] == '$' {
        radix_value(t.drop_first(), 16)
    } else if t[0] == '%' {
        radix_value(t.drop_first(), 2)
    } else {
        radix_value(t, 10)
    }
}

proof fn lemma_saturate(v: nat, r: nat, d: nat)
    requires
        v >= 256,
        r >= 1,
    ensures
        v * r + d >= 256,
{
    assert(v * r >= v) by (nonlinear_arith)
        requires
            r >= 1,
    ;
}

fn is_separator(c: char) -> (r: bool)
    ensures
        r == is_sep(c),
{
    c == ' ' || c == '\t' || c == '\r' || c == '\n'
}

/// The start and end (in characters) of each token of `line`.
fn token_spans(line: &str) -> (spans: Vec<(usize, usize)>)
    ensures
        spans@.len() == tokens(line@).len(),
        forall|k: int|
            0 <= k < spans@.len() ==> {
                &&& (#[trigger] spans@[k]).0 <= spans@[k].1 <= line@.len()
                &&& line@.subrange(spans@[k].0 as int, spans@[k].1 as int) == tokens(line@)[k]
            },
{
    let n = line.unicode_len();
    let mut spans: Vec<(usize, usize)> = Vec::new();
    let mut in_word = false;
    let mut i: usize = 0;
    while i < n
        invariant
            n == line@.len(),
            i <= n,
            spans@.len() == tokens(line@.take(i as int)).len(),
            forall|k: int|
                0 <= k < spans@.len() ==> {
                    &&& (#[trigger] spans@[k]).0 <= spans@[k].1 <= i
                    &&& line@.subrange(spans@[k].0 as int, spans@[k].1 as int) == tokens(
                        line@.take(i as int),
                    )[k]
                },
            in_word == (i > 0 && !is_sep(line@[i - 1])),
            in_word ==> spans@.len() > 0 && spans@.last().1 == i,
        decreases n - i,
    {
        let ghost pre = line@.take(i as int);
        let ghost cur = line@.take(i + 1);
        assert(cur.drop_last() == pre);
        let c = line.get_char(i);
        assert(cur.last() == c);
        if is_separator(c) {
            assert(tokens(cur) == tokens(pre));
            in_word = false;
            assert forall|k: int| 0 <= k < spans@.len() implies {
                &&& (#[trigger] spans@[k]).0 <= spans@[k].1 <= i + 1
                &&& line@.subrange(spans@[k].0 as int, spans@[k].1 as int) == tokens(cur)[k]
            } by {
                assert(tokens(pre)[k] == tokens(cur)[k]);
            }
        } else if in_word {
            assert(cur[cur.len() - 2] == line@[i - 1]);
            assert(tokens(cur) == tokens(pre).drop_last().push(tokens(pre).last().push(c)));
            assert forall|k: int| 0 <= k < tokens(pre).len() - 1 implies #[trigger] tokens(cur)[k]
                == tokens(pre)[k] by {
                assert(tokens(pre).drop_last()[k] == tokens(pre)[k]);
            }
            let last = spans.len() - 1;
            let start = spans[last].0;
            assert(start <= spans@[last as int].1);
            spans.set(last, (start, i + 1));
            assert(line@.subrange(start as int, i + 1) == line@.subrange(start as int, i as int).push(
                c,
            ));
            assert forall|k: int| 0 <= k < spans@.len() implies {
                &&& (#[trigger] spans@[k]).0 <= spans@[k].1 <= i + 1
                &&& line@.subrange(spans@[k].0 as int, spans@[k].1 as int) == tokens(cur)[k]
            } by {
                if k < last {
                    assert(tokens(cur)[k] == tokens(pre)[k]);
                } else {
                    assert(tokens(pre).last() == tokens(pre)[last as int]);
                }
            }
        } else {
            assert(tokens(cur) == tokens(pre).push(seq![c]));
            assert forall|k: int| 0 <= k < tokens(pre).len() implies #[trigger] tokens(cur)[k]
                == tokens(pre)[k] by {}
            spans.push((i, i + 1));
            in_word = true;
            assert(line@.subrange(i as int, i + 1) == seq![c]);
            assert forall|k: int| 0 <= k < spans@.len() implies {
                &&& (#[trigger] spans@[k]).0 <= spans@[k].1 <= i + 1
                &&& line@.subrange(spans@[k].0 as int, spans@[k].1 as int) == tokens(cur)[k]
            } by {
                if k < spans@.len() - 1 {
                    assert(tokens(cur)[k] == tokens(pre)[k]);
                }
            }
        }
        i = i + 1;
        assert(cur == line@.take(i as int));
    }
    assert(line@.take(n as int) == line@);
    spans
}

fn digit_value(c: char) -> (r: u32)
    ensures
        r == digit_of(c),
{
    let u = c as u32;
    if 48 <= u && u <= 57 {
        u - 48
    } else if 97 <= u && u <= 122 {
        u - 87
    } else if 65 <= u && u <= 90 {
        u - 55
    } else {
        99
    }
}

/// The byte that the characters of `s` from `start` on write in base `radix`,
/// after an optional `+`.
fn parse_radix(s: &str, start: usize, radix: u32) -> (r: Option<u8>)
    requires
        start <= s@.len(),
        2 <= radix <= 16,
    ensures
        r == radix_value(s@.subrange(start as int, s@.len() as int), radix as nat),
{
    let n = s.unicode_len();
    let ghost d = s@.subrange(start as int, n as int);
    let mut i = start;
    if i < n && s.get_char(i) == '+' {
        i = i + 1;
    }
    let ghost body = s@.subrange(i as int, n as int);
    assert(body == (if d.len() > 0 && d[0] == '+' {
        d.drop_first()
    } else {
        d
    }));
    if i == n {
        return None;
    }
    let body_start = i;
    let mut acc: u32 = 0;
    while i < n
        invariant
            body_start <= i <= n,
            n == s@.len(),
            body == s@.subrange(body_start as int, n as int),
            d == s@.subrange(start as int, n as int),
            body == (if d.len() > 0 && d[0] == '+' {
                d.drop_first()
            } else {
                d
            }),
            2 <= radix <= 16,
            all_digits(s@.subrange(body_start as int, i as int), radix as nat),
            acc == (if digits_value(s@.subrange(body_start as int, i as int), radix as nat) >= 256 {
                256
            } else {
                digits_value(s@.subrange(body_start as int, i as int), radix as nat)
            }),
        decreases n - i,
    {
        let ghost prefix = s@.subrange(body_start as int, i as int);
        let ghost next = s@.subrange(body_start as int, i + 1);
        assert(next.drop_last() == prefix);
        assert(next.last() == s@[i as int]);
        let c = s.get_char(i);
        let d = digit_value(c);
        if d >= radix {
            assert(body[i - body_start] == c);
            assert(!all_digits(body, radix as nat));
            return None;
        }
        assert(acc * radix <= 256 * 16) by (nonlinear_arith)
            requires
                acc <= 256,
                radix <= 16,
        ;
        proof {
            if digits_value(prefix, radix as nat) >= 256 {
                lemma_saturate(digits_value(prefix, radix as nat), radix as nat, d as nat);
            }
        }
        acc = acc * radix + d;
        if acc > 256 {
            acc = 256;
        }
        assert(all_digits(next, radix as nat)) by {
            assert forall|j: int| 0 <= j < next.len() implies digit_of(#[trigger] next[j])
                < radix by {
                if j < prefix.len() {
                    assert(next[j] == prefix[j]);
                }
            }
        }
        i = i + 1;
    }
    assert(s@.subrange(body_start as int, i as int) == body);
    if acc >= 256 {
        None
    } else {
        Some(acc as u8)
    }
}

impl Op {
    /// The instruction that a line of assembly text spells: a mnemonic
    /// (`Push`, `PopRegister`, `AddStack`, `AddRegister`, `Signal`) and its
    /// arguments, separated by runs of whitespace.
    pub fn parse(line: &str) -> (r: Result<Op, ParseError>)
        ensures
            parse_view(r) == parse_tokens(tokens(line@)),
    {
        proof {
            reveal_strlit("Push");
            reveal_strlit("PopRegister");
            reveal_strlit("AddStack");
            reveal_strlit("AddRegister");
            reveal_strlit("Signal");
            assert("Push"@.len() == 4);
            assert("PopRegister"@.len() == 11);
            assert("AddStack"@.len() == 8);
            assert("AddRegister"@.len() == 11);
            assert("Signal"@.len() == 6);
            assert("PopRegister"@[0] == 'P');
            assert("AddRegister"@[0] == 'A');
        }
        let spans = token_spans(line);
        let ghost toks = tokens(line@);
        if spans.len() == 0 {
            return Err(ParseError::Empty);
        }
        let mnemonic = line.substring_char(spans[0].0, spans[0].1);
        let found = spans.len() - 1;
        let expected: usize = if same_text(mnemonic, "Push") {
            1
        } else if same_text(mnemonic, "PopRegister") {
            1
        } else if same_text(mnemonic, "AddStack") {
            0
        } else if same_text(mnemonic, "AddRegister") {
            2
        } else if same_text(mnemonic, "Signal") {
            1
        } else {
            return Err(ParseError::UnknownMnemonic(String::from_str(mnemonic)));
        };
        if found != expected {
            return Err(
                ParseError::WrongArgumentCount {
                    mnemonic: String::from_str(mnemonic),
                    expected,
                    found,
                },
            );
        }
        if same_text(mnemonic, "AddStack") {
            return Ok(Op::AddStack);
        }
        let arg = line.substring_char(spans[1].0, spans[1].1);
        if same_text(mnemonic, "AddRegister") {
            let arg2 = line.substring_char(spans[2].0, spans[2].1);
            let r1 = match Register::from_name(arg) {
                Some(r) => r,
                None => {
                    return Err(ParseError::InvalidRegister(String::from_str(arg)));
                },
            };
            return match Register::from_name(arg2) {
                Some(r2) => Ok(Op::AddRegister(r1, r2)),
                None => Err(ParseError::InvalidRegister(String::from_str(arg2))),
            };
        }
        if same_text(mnemonic, "PopRegister") {
            if let Some(r) = Register::from_name(arg) {
                return Ok(Op::PopRegister(r));
            }
            return match Op::parse_numeric(arg) {
                Some(v) => match Register::from_index(v) {
                    Some(r) => Ok(Op::PopRegister(r)),
                    None => Err(ParseError::InvalidRegister(String::from_str(arg))),
                },
                None => Err(ParseError::InvalidRegister(String::from_str(arg))),
            };
        }
        match Op::parse_numeric(arg) {
            Some(v) => if same_text(mnemonic, "Push") {
                Ok(Op::Push(v as u16))
            } else {
                Ok(Op::Signal(v))
            },
            None => Err(ParseError::InvalidNumber(String::from_str(arg))),
        }
    }

    /// The byte that a numeric literal denotes: `$` selects base 16, `%`
    /// base 2, no prefix base 10; `None` for an empty or malformed literal
    /// or one above 255.
    pub fn parse_numeric(s: &str) -> (r: Option<u8>)
        ensures
            r == numeric_value(s@),
    {
        let n = s.unicode_len();
        if n == 0 {
            return None;
        }
        let c = s.get_char(0);
        if c == '$' {
            assert(s@.subrange(1, n as int) == s@.drop_first());
            parse_radix(s, 1, 16)
        } else if c == '%' {
            assert(s@.subrange(1, n as int) == s@.drop_first());
            parse_radix(s, 1, 2)
        } else {
            assert(s@.subrange(0, n as int) == s@);
            parse_radix(s, 0, 10)
        }
    }
}

impl TryFrom<String> for Op {
    type Error = ParseError;

    fn try_from(value: String) -> (r: Result<Op, ParseError>)
        ensures
            parse_view(r) == parse_tokens(tokens(value@)),
    {
        Op::parse(value.as_str())
    }
}

/// A parse error carries its tokens as `String`s, which a spec function cannot
/// build: the contract of `try_from` above states the result instead.
impl vstd::std_specs::convert::TryFromSpecImpl<String> for Op {
    open spec fn obeys_try_from_spec() -> bool {
        false
    }

    open spec fn try_from_spec(v: String) -> Result<Op, ParseError> {
        arbitrary()
    }
}

} // verus!
