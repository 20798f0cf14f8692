//! A line assembler for the `LD VX, NN`, `ADD VX, NN` and `ADD VX, VY`
//! instructions.
//!
//! A line is split into tokens at commas and white space. The first token is
//! the mnemonic; register operands are a prefix character followed by a hex
//! number; values are decimal, or hex after `0x`. Numbers follow the rules of
//! `u8::from_str_radix`: an optional `+`, then at least one digit, with a
//! value of at most 255.
use vstd::prelude::*;

verus! {

// ---------------------------------------------------------------------------
// Tokens
// ---------------------------------------------------------------------------
/// `char::is_whitespace`: the Unicode `White_Space` property.
pub open spec fn is_white_space(c: char) -> bool {
    let u = c as u32;
    ||| 0x09 <= u <= 0x0D
    ||| u == 0x20
    ||| u == 0x85
    ||| u == 0xA0
    ||| u == 0x1680
    ||| 0x2000 <= u <= 0x200A
    ||| u == 0x2028
    ||| u == 0x2029
    ||| u == 0x202F
    ||| u == 0x205F
    ||| u == 0x3000
}

/// Characters that separate tokens: commas and white space.
pub open spec fn is_separator(c: char) -> bool {
    c == ',' || is_white_space(c)
}

/// One character read by the tokenizer: `st` is the tokens completed so far
/// and the (possibly empty) token being read. A separator completes a
/// non-empty token; any other character extends the current token.
pub open spec fn scan_step(st: (Seq<Seq<char>>, Seq<char>), c: char) -> (
    Seq<Seq<char>>,
    Seq<char>,
) {
    if is_separator(c) {
        if st.1.len() > 0 {
            (st.0.push(st.1), Seq::empty())
        } else {
            st
        }
    } else {
        (st.0, st.1.push(c))
    }
}

/// Reading `s` left to right: the tokens completed so far, and the
/// (possibly empty) token still being read.
pub open spec fn scan_tokens(s: Seq<char>) -> (Seq<Seq<char>>, Seq<char>)
    decreases s.len(),
{
    if s.len() == 0 {
        (Seq::empty(), Seq::empty())
    } else {
        scan_step(scan_tokens(s.drop_last()), s.last())
    }
}

/// The maximal runs of non-separator characters of `s`, in order.
pub open spec fn tokens(s: Seq<char>) -> Seq<Seq<char>> {
    let r = scan_tokens(s);
    if r.1.len() > 0 {
        r.0.push(r.1)
    } else {
        r.0
    }
}

// ---------------------------------------------------------------------------
// Numbers
// ---------------------------------------------------------------------------
/// `char::to_digit`: the value of digit `c` in base `radix`, if it is one.
pub open spec fn digit_value(c: char, radix: nat) -> Option<nat> {
    let u = c as u32;
    let d: int = if 0x30 <= u <= 0x39 {
        u - 0x30
    } else if 0x61 <= u <= 0x7A {
        u - 0x61 + 10
    } else if 0x41 <= u <= 0x5A {
        u - 0x41 + 10
    } else {
        radix as int
    };
    if d < radix {
        Some(d as nat)
    } else {
        None
    }
}

/// Whether every character of `s` is a digit in base `radix`.
pub open spec fn all_digits(s: Seq<char>, radix: nat) -> bool {
    forall|k: int| 0 <= k < s.len() ==> (#[trigger] digit_value(s[k], radix)) is Some
}

/// The number that the digits `s` write in base `radix`.
pub open spec fn digits_value(s: Seq<char>, radix: nat) -> nat
    decreases s.len(),
{
    if s.len() == 0 {
        0
    } else {
        let last = match digit_value(s.last(), radix) {
            Some(d) => d,
            None => 0,
        };
        digits_value(s.drop_last(), radix) * radix + last
    }
}

/// `u8::from_str_radix(s, radix)` as an `Option`: an optional leading `+`,
/// then one or more digits whose value fits in a byte.
pub open spec fn parse_u8(s: Seq<char>, radix: nat) -> Option<u8> {
    let digits = if s.len() > 0 && s[0] == '+' {
        s.drop_first()
    } else {
        s
    };
    if digits.len() > 0 && all_digits(digits, radix) && digits_value(digits, radix) <= 255 {
        Some(digits_value(digits, radix) as u8)
    } else {
        None
    }
}

/// A register operand: one (ASCII) prefix character, then a hex number.
pub open spec fn register_of(token: Seq<char>) -> Option<u8> {
    if token.len() >= 1 && (token[0] as u32) < 0x80 {
        parse_u8(token.drop_first(), 16)
    } else {
        None
    }
}

/// Whether `token` starts with the hex prefix `0x`.
pub open spec fn has_hex_prefix(token: Seq<char>) -> bool {
    token.len() >= 2 && token[0] == '0' && token[1] == 'x'
}

/// A value operand: hex after `0x`, decimal otherwise.
pub open spec fn value_of(token: Seq<char>) -> Option<u8> {
    if has_hex_prefix(token) {
        parse_u8(token.skip(2), 16)
    } else {
        parse_u8(token, 10)
    }
}

// ---------------------------------------------------------------------------
// Lines
// ---------------------------------------------------------------------------
/// Why a line does not assemble to an opcode.
#[derive(Debug, Clone, Copy, PartialEq, Eq)]
pub enum AsmError {
    /// The line has fewer tokens than its mnemonic needs (or none at all).
    MissingToken,
    /// A register operand is not a prefix character and a hex byte.
    InvalidRegister,
    /// A `0x` value operand is not a hex byte.
    InvalidHexValue,
    /// A value operand is not a decimal byte.
    InvalidDecimalValue,
    /// The mnemonic is neither `LD` nor `ADD`; the line assembles to `0x0000`.
    UnknownMnemonic,
}

/// The value operand, or the error that reading it gives.
pub open spec fn value_result(token: Seq<char>) -> Result<u8, AsmError> {
    match value_of(token) {
        Some(v) => Ok(v),
        None => if has_hex_prefix(token) {
            Err(AsmError::InvalidHexValue)
        } else {
            Err(AsmError::InvalidDecimalValue)
        },
    }
}

/// `6XNN`, from `LD VX, NN`.
pub open spec fn ld_opcode(x: u8, nn: u8) -> u16 {
    0x6000u16 | ((x as u16) << 8u16) | (nn as u16)
}

/// `7XNN`, from `ADD VX, NN`.
pub open spec fn add_imm_opcode(x: u8, nn: u8) -> u16 {
    0x7000u16 | ((x as u16) << 8u16) | (nn as u16)
}

/// `8XY4`, from `ADD VX, VY`.
pub open spec fn add_reg_opcode(x: u8, y: u8) -> u16 {
    0x8000u16 | ((x as u16) << 8u16) | ((y as u16) << 4u16) | 0x0004u16
}

/// The opcode for the tokens of a line, or the first error met reading them
/// in order: mnemonic, first operand, second operand.
pub open spec fn assemble_tokens(t: Seq<Seq<char>>) -> Result<u16, AsmError> {
    if t.len() == 0 {
        Err(AsmError::MissingToken)
    } else if t[0] == seq!['L', 'D'] || t[0] == seq!['A', 'D', 'D'] {
        if t.len() < 2 {
            Err(AsmError::MissingToken)
        } else {
            match register_of(t[1]) {
                None => Err(AsmError::InvalidRegister),
                Some(x) => if t.len() < 3 {
                    Err(AsmError::MissingToken)
                } else if t[0] == seq!['L', 'D'] {
                    match value_result(t[2]) {
                        Ok(nn) => Ok(ld_opcode(x, nn)),
                        Err(e) => Err(e),
                    }
                } else if t[2].len() > 0 && t[2][0] == 'V' {
                    match register_of(t[2]) {
                        Some(y) => Ok(add_reg_opcode(x, y)),
                        None => Err(AsmError::InvalidRegister),
                    }
                } else {
                    match value_result(t[2]) {
                        Ok(nn) => Ok(add_imm_opcode(x, nn)),
                        Err(e) => Err(e),
                    }
                },
            }
        }
    } else {
        Err(AsmError::UnknownMnemonic)
    }
}

/// The outcome of assembling `line`.
pub open spec fn assemble_result(line: Seq<char>) -> Result<u16, AsmError> {
    assemble_tokens(tokens(line))
}

/// Whether `line` assembles: to an opcode, or to `0x0000` for an unknown
/// mnemonic.
pub open spec fn line_assembles(line: Seq<char>) -> bool {
    assemble_result(line) is Ok || assemble_result(line) == Err::<u16, AsmError>(
        AsmError::UnknownMnemonic,
    )
}

/// The opcode that `line` assembles to; `0x0000` for an unknown mnemonic.
pub open spec fn assembled_opcode(line: Seq<char>) -> u16 {
    match assemble_result(line) {
        Ok(op) => op,
        Err(_) => 0,
    }
}

// ---------------------------------------------------------------------------
// Executable assembler
// ---------------------------------------------------------------------------
/// The characters of `s`.
fn chars_of(s: &str) -> (r: Vec<char>)
    ensures
        r@ == s@,
{
    let len = s.unicode_len();
    let mut r: Vec<char> = Vec::new();
    for k in 0..len
        invariant
            len == s@.len(),
            r@ == s@.take(k as int),
    {
        r.push(s.get_char(k));
        assert(r@ =~= s@.take(k + 1));
    }
    assert(r@ =~= s@);
    r
}

/// `char::is_whitespace`.
fn is_white_space_char(c: char) -> (r: bool)
    ensures
        r == is_white_space(c),
{
    let u = c as u32;
    (0x09 <= u && u <= 0x0D) || u == 0x20 || u == 0x85 || u == 0xA0 || u == 0x1680 || (0x2000
        <= u && u <= 0x200A) || u == 0x2028 || u == 0x2029 || u == 0x202F || u == 0x205F || u
        == 0x3000
}

/// The tokens of the characters `s`.
fn tokenize_chars(s: &Vec<char>) -> (toks: Vec<Vec<char>>)
    ensures
        toks@.len() == tokens(s@).len(),
        forall|k: int| 0 <= k < toks@.len() ==> #[trigger] toks@[k]@ == tokens(s@)[k],
{
    let mut toks: Vec<Vec<char>> = Vec::new();
    let mut cur: Vec<char> = Vec::new();
    for i in 0..s.len()
        invariant
            toks@.len() == scan_tokens(s@.take(i as int)).0.len(),
            forall|k: int|
                0 <= k < toks@.len() ==> #[trigger] toks@[k]@ == scan_tokens(
                    s@.take(i as int),
                ).0[k],
            cur@ == scan_tokens(s@.take(i as int)).1,
    {
        let c = s[i];
        assert(s@.take(i + 1).drop_last() =~= s@.take(i as int));
        let ghost prev = scan_tokens(s@.take(i as int));
        if c == ',' || is_white_space_char(c) {
            if cur.len() > 0 {
                let done = cur;
                toks.push(done);
                cur = Vec::new();
                assert(cur@ =~= Seq::<char>::empty());
            }
        } else {
            cur.push(c);
        }
    }
    assert(s@.take(s@.len() as int) =~= s@);
    if cur.len() > 0 {
        toks.push(cur);
    }
    toks
}

/// Splits `line` into its tokens: the maximal runs of characters that are
/// neither commas nor white space.
pub fn tokenize(line: &str) -> (toks: Vec<Vec<char>>)
    ensures
        toks@.len() == tokens(line@).len(),
        forall|k: int| 0 <= k < toks@.len() ==> #[trigger] toks@[k]@ == tokens(line@)[k],
{
    let chars = chars_of(line);
    tokenize_chars(&chars)
}

/// `char::to_digit(radix)`.
fn digit_of(c: char, radix: u32) -> (r: Option<u32>)
    requires
        radix == 10 || radix == 16,
    ensures
        r is Some <==> digit_value(c, radix as nat) is Some,
        r matches Some(d) ==> digit_value(c, radix as nat) == Some(d as nat) && d < radix,
{
    let u = c as u32;
    let d: u32 = if 0x30 <= u && u <= 0x39 {
        u - 0x30
    } else if 0x61 <= u && u <= 0x7A {
        u - 0x61 + 10
    } else if 0x41 <= u && u <= 0x5A {
        u - 0x41 + 10
    } else {
        radix
    };
    if d < radix {
        Some(d)
    } else {
        None
    }
}

/// Extending the digits by one keeps a value of at least 256 at least 256.
proof fn lemma_saturated_step(v: nat, radix: nat, d: nat)
    requires
        radix == 10 || radix == 16,
    ensures
        (if v > 255 { 256 } else { v as int }) * radix + d > 255 <==> v * radix + d > 255,
        v <= 255 ==> (if v > 255 { 256 } else { v as int }) * radix + d == v * radix + d,
{
}

/// `u8::from_str_radix` on the characters of `s` from index `start` on.
fn parse_u8_from(s: &Vec<char>, start: usize, radix: u32) -> (r: Option<u8>)
    requires
        start <= s@.len(),
        radix == 10 || radix == 16,
    ensures
        r == parse_u8(s@.skip(start as int), radix as nat),
{
    let ghost rest = s@.skip(start as int);
    let mut first = start;
    if first < s.len() && s[first] == '+' {
        first = first + 1;
    }
    let ghost digits = s@.skip(first as int);
    assert(digits =~= if rest.len() > 0 && rest[0] == '+' {
        rest.drop_first()
    } else {
        rest
    });
    if first == s.len() {
        return None;
    }
    let mut acc: u32 = 0;
    let mut j = first;
    while j < s.len()
        invariant
            first <= j <= s@.len(),
            radix == 10 || radix == 16,
            digits == s@.skip(first as int),
            rest == s@.skip(start as int),
            digits == if rest.len() > 0 && rest[0] == '+' {
                rest.drop_first()
            } else {
                rest
            },
            all_digits(s@.subrange(first as int, j as int), radix as nat),
            acc as int == if digits_value(s@.subrange(first as int, j as int), radix as nat) > 255 {
                256
            } else {
                digits_value(s@.subrange(first as int, j as int), radix as nat) as int
            },
        decreases s@.len() - j,
    {
        let ghost prefix = s@.subrange(first as int, j as int);
        let ghost next = s@.subrange(first as int, j + 1);
        assert(next.drop_last() =~= prefix);
        match digit_of(s[j], radix) {
            None => {
                assert(digit_value(digits[j - first], radix as nat) is None);
                assert(!all_digits(digits, radix as nat));
                assert(parse_u8(rest, radix as nat) is None);
                return None;
            },
            Some(d) => {
                proof {
                    lemma_saturated_step(
                        digits_value(prefix, radix as nat),
                        radix as nat,
                        d as nat,
                    );
                }
                let grown = acc * radix + d;
                acc = if grown > 255 {
                    256
                } else {
                    grown
                };
                assert(all_digits(next, radix as nat)) by {
                    assert forall|k: int| 0 <= k < next.len() implies (#[trigger] digit_value(
                        next[k],
                        radix as nat,
                    )) is Some by {
                        if k < prefix.len() {
                            assert(next[k] == prefix[k]);
                        }
                    }
                }
            },
        }
        j = j + 1;
    }
    assert(s@.subrange(first as int, s@.len() as int) =~= digits);
    if acc > 255 {
        None
    } else {
        Some(acc as u8)
    }
}

/// A register operand of a token.
fn register_from(token: &Vec<char>) -> (r: Option<u8>)
    ensures
        r == register_of(token@),
{
    if token.len() >= 1 && (token[0] as u32) < 0x80 {
        assert(token@.skip(1) =~= token@.drop_first());
        parse_u8_from(token, 1, 16)
    } else {
        None
    }
}

/// Whether a token starts with `0x`.
fn hex_prefixed(token: &Vec<char>) -> (r: bool)
    ensures
        r == has_hex_prefix(token@),
{
    token.len() >= 2 && token[0] == '0' && token[1] == 'x'
}

/// A value operand of a token, or the error reading it gives.
fn value_from(token: &Vec<char>) -> (r: Result<u8, AsmError>)
    ensures
        r == value_result(token@),
{
    let hex = hex_prefixed(token);
    let parsed = if hex {
        parse_u8_from(token, 2, 16)
    } else {
        assert(token@.skip(0) =~= token@);
        parse_u8_from(token, 0, 10)
    };
    match parsed {
        Some(v) => Ok(v),
        None => if hex {
            Err(AsmError::InvalidHexValue)
        } else {
            Err(AsmError::InvalidDecimalValue)
        },
    }
}

/// Reads the register number of a register operand such as `VA`: the
/// characters after the first, as a hex byte.
pub fn parse_register(token: &str) -> (r: u8)
    requires
        register_of(token@) is Some,
    ensures
        register_of(token@) == Some(r),
{
    let chars = chars_of(token);
    match register_from(&chars) {
        Some(r) => r,
        None => {
            proof {
                assert(false);
            }
            0
        },
    }
}

/// Reads a value operand: hex after a `0x` prefix, decimal otherwise.
pub fn parse_value(token: &str) -> (r: u8)
    requires
        value_of(token@) is Some,
    ensures
        value_of(token@) == Some(r),
{
    let chars = chars_of(token);
    match value_from(&chars) {
        Ok(r) => r,
        Err(_) => {
            proof {
                assert(false);
            }
            0
        },
    }
}

/// Whether a token is exactly the two (or three) characters of `word`.
fn token_is(token: &Vec<char>, word: &str) -> (r: bool)
    ensures
        r == (token@ == word@),
{
    let w = chars_of(word);
    if token.len() != w.len() {
        return false;
    }
    for k in 0..w.len()
        invariant
            token@.len() == w@.len(),
            w@ == word@,
            forall|j: int| 0 <= j < k ==> token@[j] == w@[j],
    {
        if token[k] != w[k] {
            return false;
        }
    }
    assert(token@ =~= word@);
    true
}

/// The opcode for a line's tokens, or the first error in them.
fn assemble_token_vec(t: &Vec<Vec<char>>, Ghost(ts): Ghost<Seq<Seq<char>>>) -> (r: Result<
    u16,
    AsmError,
>)
    requires
        t@.len() == ts.len(),
        forall|k: int| 0 <= k < ts.len() ==> #[trigger] t@[k]@ == ts[k],
    ensures
        r == assemble_tokens(ts),
{
    if t.len() == 0 {
        return Err(AsmError::MissingToken);
    }
    proof {
        reveal_strlit("LD");
        reveal_strlit("ADD");
        assert(t@[0]@ == ts[0]);
    }
    let is_ld = token_is(&t[0], "LD");
    let is_add = token_is(&t[0], "ADD");
    assert("LD"@ =~= seq!['L', 'D']);
    assert("ADD"@ =~= seq!['A', 'D', 'D']);
    if !is_ld && !is_add {
        return Err(AsmError::UnknownMnemonic);
    }
    if t.len() < 2 {
        return Err(AsmError::MissingToken);
    }
    assert(t@[1]@ == ts[1]);
    let x = match register_from(&t[1]) {
        Some(x) => x,
        None => {
            return Err(AsmError::InvalidRegister);
        },
    };
    if t.len() < 3 {
        return Err(AsmError::MissingToken);
    }
    assert(t@[2]@ == ts[2]);
    let operand = &t[2];
    if is_ld {
        match value_from(operand) {
            Ok(nn) => Ok(0x6000 | ((x as u16) << 8) | (nn as u16)),
            Err(e) => Err(e),
        }
    } else if operand.len() > 0 && operand[0] == 'V' {
        match register_from(operand) {
            Some(y) => Ok(0x8000 | ((x as u16) << 8) | ((y as u16) << 4) | 0x0004),
            None => Err(AsmError::InvalidRegister),
        }
    } else {
        match value_from(operand) {
            Ok(nn) => Ok(0x7000 | ((x as u16) << 8) | (nn as u16)),
            Err(e) => Err(e),
        }
    }
}

/// Assembles one line, reporting why it does not assemble where it does not.
/// An unknown mnemonic is reported as [`AsmError::UnknownMnemonic`].
pub fn try_assemble(line: &str) -> (r: Result<u16, AsmError>)
    ensures
        r == assemble_result(line@),
{
    let toks = tokenize(line);
    assemble_token_vec(&toks, Ghost(tokens(line@)))
}

/// Assembles one line into its opcode: `LD VX, NN` gives `6XNN`, `ADD VX, NN`
/// gives `7XNN`, `ADD VX, VY` gives `8XY4`; any other mnemonic gives `0x0000`.
pub fn assemble(line: &str) -> (opcode: u16)
    requires
        line_assembles(line@),
    ensures
        opcode == assembled_opcode(line@),
{
    match try_assemble(line) {
        Ok(op) => op,
        Err(_) => 0,
    }
}

/// The two bytes of `opcode`, most significant first, as stored in a ROM.
pub fn opcode_bytes(opcode: u16) -> (bytes: [u8; 2])
    ensures
        bytes@ == seq![(opcode / 256) as u8, (opcode % 256) as u8],
{
    let high = (opcode >> 8) as u8;
    let low = (opcode & 0xFF) as u8;
    assert(opcode >> 8 == opcode / 256 && opcode & 0xFF == opcode % 256) by (bit_vector);
    let bytes = [high, low];
    assert(bytes@ =~= seq![(opcode / 256) as u8, (opcode % 256) as u8]);
    bytes
}

} // verus!
