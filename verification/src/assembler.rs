use vstd::prelude::*;

use crate::instr::{Instruction, OpCode};
use crate::vm::sub32;

verus! {

// ---------------------------------------------------------------------------
// Lexical structure, as spec functions over the raw bytes of one line.
// ---------------------------------------------------------------------------

/// Whitespace between tokens: space, tab, carriage return.
pub open spec fn is_space(c: u8) -> bool {
    c == 32 || c == 9 || c == 13
}

/// An ASCII decimal digit.
pub open spec fn is_digit(c: u8) -> bool {
    48 <= c <= 57
}

/// An ASCII letter.
pub open spec fn is_alpha(c: u8) -> bool {
    (65 <= c <= 90) || (97 <= c <= 122)
}

/// A letter or a digit.
pub open spec fn is_alnum(c: u8) -> bool {
    is_alpha(c) || is_digit(c)
}

/// A character that may continue an identifier: letter, digit or underscore.
pub open spec fn is_ident_char(c: u8) -> bool {
    is_alnum(c) || c == 95
}

/// The first position at or after `i` holding a non-whitespace byte (or the
/// end of the line).
pub open spec fn skip_ws(s: Seq<u8>, i: int) -> int
    decreases s.len() - i,
{
    if 0 <= i < s.len() && is_space(s[i]) {
        skip_ws(s, i + 1)
    } else {
        i
    }
}

/// The end of the run of identifier characters starting at `i`.
pub open spec fn ident_end(s: Seq<u8>, i: int) -> int
    decreases s.len() - i,
{
    if 0 <= i < s.len() && is_ident_char(s[i]) {
        ident_end(s, i + 1)
    } else {
        i
    }
}

/// The end of the run of decimal digits starting at `i`.
pub open spec fn digit_end(s: Seq<u8>, i: int) -> int
    decreases s.len() - i,
{
    if 0 <= i < s.len() && is_digit(s[i]) {
        digit_end(s, i + 1)
    } else {
        i
    }
}

/// The end of the run of letters and digits starting at `i`.
pub open spec fn alnum_end(s: Seq<u8>, i: int) -> int
    decreases s.len() - i,
{
    if 0 <= i < s.len() && is_alnum(s[i]) {
        alnum_end(s, i + 1)
    } else {
        i
    }
}

/// The end of the run of letters starting at `i`.
pub open spec fn alpha_end(s: Seq<u8>, i: int) -> int
    decreases s.len() - i,
{
    if 0 <= i < s.len() && is_alpha(s[i]) {
        alpha_end(s, i + 1)
    } else {
        i
    }
}

/// The first position at or after `i` holding a double quote (or the end of
/// the line).
pub open spec fn quote_end(s: Seq<u8>, i: int) -> int
    decreases s.len() - i,
{
    if 0 <= i < s.len() && s[i] != 34 {
        quote_end(s, i + 1)
    } else {
        i
    }
}

/// All the scanners stay within the line: position `i` advances at most to
/// the line's end.
pub proof fn lemma_scan_bounds(s: Seq<u8>, i: int)
    requires
        0 <= i <= s.len(),
    ensures
        i <= skip_ws(s, i) <= s.len(),
        i <= ident_end(s, i) <= s.len(),
        i <= digit_end(s, i) <= s.len(),
        i <= alnum_end(s, i) <= s.len(),
        i <= alpha_end(s, i) <= s.len(),
        i <= quote_end(s, i) <= s.len(),
    decreases s.len() - i,
{
    if i < s.len() {
        lemma_scan_bounds(s, i + 1);
    }
}

/// The numeric value of a letter or digit read as a digit: 0-9 for digits,
/// 10-35 for letters of either case, and 99 (never a valid digit) otherwise.
pub open spec fn digit_val(c: u8) -> int {
    if 48 <= c <= 57 {
        c - 48
    } else if 97 <= c <= 122 {
        c - 87
    } else if 65 <= c <= 90 {
        c - 55
    } else {
        99
    }
}

/// Whether every byte of `s` is a digit of the given radix.
pub open spec fn digits_ok(s: Seq<u8>, radix: int) -> bool {
    forall|k: int| 0 <= k < s.len() ==> digit_val(s[k]) < radix
}

/// The value of a digit string in the given radix (most significant first).
pub open spec fn digits_val(s: Seq<u8>, radix: int) -> int
    decreases s.len(),
{
    if s.len() == 0 {
        0
    } else {
        digits_val(s.drop_last(), radix) * radix + digit_val(s.last())
    }
}

/// A digit string's value is never negative.
pub proof fn lemma_digits_val_nonneg(s: Seq<u8>, radix: int)
    requires
        radix >= 2,
    ensures
        digits_val(s, radix) >= 0,
    decreases s.len(),
{
    if s.len() > 0 {
        lemma_digits_val_nonneg(s.drop_last(), radix);
        let p = digits_val(s.drop_last(), radix);
        assert(p * radix >= 0) by (nonlinear_arith)
            requires
                p >= 0,
                radix >= 2,
        ;
    }
}

// ---------------------------------------------------------------------------
// Executable scanners, each the twin of its spec function.
// ---------------------------------------------------------------------------

fn skip_ws_exec(s: &Vec<u8>, i: usize) -> (r: usize)
    requires
        i <= s@.len(),
    ensures
        r == skip_ws(s@, i as int),
        i <= r <= s@.len(),
    decreases s@.len() - i,
{
    if i < s.len() && (s[i] == 32 || s[i] == 9 || s[i] == 13) {
        skip_ws_exec(s, i + 1)
    } else {
        i
    }
}

fn ident_end_exec(s: &Vec<u8>, i: usize) -> (r: usize)
    requires
        i <= s@.len(),
    ensures
        r == ident_end(s@, i as int),
        i <= r <= s@.len(),
    decreases s@.len() - i,
{
    if i < s.len() && (is_alpha_exec(s[i]) || is_digit_exec(s[i]) || s[i] == 95) {
        ident_end_exec(s, i + 1)
    } else {
        i
    }
}

fn digit_end_exec(s: &Vec<u8>, i: usize) -> (r: usize)
    requires
        i <= s@.len(),
    ensures
        r == digit_end(s@, i as int),
        i <= r <= s@.len(),
    decreases s@.len() - i,
{
    if i < s.len() && is_digit_exec(s[i]) {
        digit_end_exec(s, i + 1)
    } else {
        i
    }
}

fn alnum_end_exec(s: &Vec<u8>, i: usize) -> (r: usize)
    requires
        i <= s@.len(),
    ensures
        r == alnum_end(s@, i as int),
        i <= r <= s@.len(),
    decreases s@.len() - i,
{
    if i < s.len() && (is_alpha_exec(s[i]) || is_digit_exec(s[i])) {
        alnum_end_exec(s, i + 1)
    } else {
        i
    }
}

fn alpha_end_exec(s: &Vec<u8>, i: usize) -> (r: usize)
    requires
        i <= s@.len(),
    ensures
        r == alpha_end(s@, i as int),
        i <= r <= s@.len(),
    decreases s@.len() - i,
{
    if i < s.len() && is_alpha_exec(s[i]) {
        alpha_end_exec(s, i + 1)
    } else {
        i
    }
}

fn quote_end_exec(s: &Vec<u8>, i: usize) -> (r: usize)
    requires
        i <= s@.len(),
    ensures
        r == quote_end(s@, i as int),
        i <= r <= s@.len(),
    decreases s@.len() - i,
{
    if i < s.len() && s[i] != 34 {
        quote_end_exec(s, i + 1)
    } else {
        i
    }
}

fn is_alpha_exec(c: u8) -> (r: bool)
    ensures
        r == is_alpha(c),
{
    (65 <= c && c <= 90) || (97 <= c && c <= 122)
}

fn is_digit_exec(c: u8) -> (r: bool)
    ensures
        r == is_digit(c),
{
    48 <= c && c <= 57
}

/// Copies the bytes `s[i..j]` into a fresh vector.
fn copy_range(s: &Vec<u8>, i: usize, j: usize) -> (r: Vec<u8>)
    requires
        i <= j <= s@.len(),
    ensures
        r@ == s@.subrange(i as int, j as int),
    decreases j - i,
{
    let mut r: Vec<u8> = Vec::new();
    let mut k: usize = i;
    while k < j
        invariant
            i <= k <= j <= s@.len(),
            r@ == s@.subrange(i as int, k as int),
        decreases j - k,
    {
        r.push(s[k]);
        proof {
            assert(s@.subrange(i as int, k + 1) =~= s@.subrange(i as int, k as int).push(
                s@[k as int],
            ));
        }
        k = k + 1;
    }
    r
}

// ---------------------------------------------------------------------------
// The assembler's data: placeholder instructions with unresolved labels.
// ---------------------------------------------------------------------------

/// An immediate as written in assembly: a numeric literal, an absolute label
/// reference (`%name`, the label's address), or a relative one (`$name`, the
/// label's address minus the address of the next instruction).
#[derive(Debug, Clone, PartialEq, Eq)]
pub enum ImmediatePlaceholder {
    Value(u32),
    LabelAbsolute(Vec<u8>),
    LabelRelative(Vec<u8>),
}

/// A parsed line's instruction before labels are resolved. `StringLiteral`
/// carries the raw bytes emitted by the `bytes` pseudo-op, escapes already
/// processed.
#[derive(Debug, Clone, PartialEq, Eq)]
pub enum InstructionPlaceholder {
    Register { op: OpCode, dst: usize, src1: usize, src2: usize },
    Immediate { op: OpCode, dst: usize, src1: usize, imm: ImmediatePlaceholder },
    Store { op: OpCode, src1: usize, src2: usize, imm: ImmediatePlaceholder },
    Upper { op: OpCode, dst: usize, imm: ImmediatePlaceholder },
    StringLiteral(Vec<u8>),
}

/// Ghost mirror of [`ImmediatePlaceholder`].
pub enum ImmSpec {
    Value(u32),
    LabelAbsolute(Seq<u8>),
    LabelRelative(Seq<u8>),
}

/// Ghost mirror of [`InstructionPlaceholder`].
pub enum ItemSpec {
    Register { op: OpCode, dst: usize, src1: usize, src2: usize },
    Immediate { op: OpCode, dst: usize, src1: usize, imm: ImmSpec },
    Store { op: OpCode, src1: usize, src2: usize, imm: ImmSpec },
    Upper { op: OpCode, dst: usize, imm: ImmSpec },
    Bytes(Seq<u8>),
}

impl View for ImmediatePlaceholder {
    type V = ImmSpec;

    open spec fn view(&self) -> ImmSpec {
        match *self {
            ImmediatePlaceholder::Value(v) => ImmSpec::Value(v),
            ImmediatePlaceholder::LabelAbsolute(ref n) => ImmSpec::LabelAbsolute(n@),
            ImmediatePlaceholder::LabelRelative(ref n) => ImmSpec::LabelRelative(n@),
        }
    }
}

impl View for InstructionPlaceholder {
    type V = ItemSpec;

    open spec fn view(&self) -> ItemSpec {
        match *self {
            InstructionPlaceholder::Register { op, dst, src1, src2 } => ItemSpec::Register {
                op,
                dst,
                src1,
                src2,
            },
            InstructionPlaceholder::Immediate { op, dst, src1, ref imm } => ItemSpec::Immediate {
                op,
                dst,
                src1,
                imm: imm@,
            },
            InstructionPlaceholder::Store { op, src1, src2, ref imm } => ItemSpec::Store {
                op,
                src1,
                src2,
                imm: imm@,
            },
            InstructionPlaceholder::Upper { op, dst, ref imm } => ItemSpec::Upper {
                op,
                dst,
                imm: imm@,
            },
            InstructionPlaceholder::StringLiteral(ref s) => ItemSpec::Bytes(s@),
        }
    }
}

impl ItemSpec {
    /// The number of bytes this item occupies in the output: the encoded
    /// instruction size, or the length of the raw bytes.
    pub open spec fn spec_size(self) -> u32 {
        match self {
            ItemSpec::Register { op, .. } => if op.spec_code() % 2 == 0 {
                4u32
            } else {
                2u32
            },
            ItemSpec::Immediate { op, .. } => if op.spec_code() % 2 == 0 {
                4u32
            } else {
                2u32
            },
            ItemSpec::Store { op, .. } => if op.spec_code() % 2 == 0 {
                4u32
            } else {
                2u32
            },
            ItemSpec::Upper { op, .. } => if op.spec_code() % 2 == 0 {
                4u32
            } else {
                2u32
            },
            ItemSpec::Bytes(s) => (s.len() % 0x1_0000_0000) as u32,
        }
    }
}

/// An assembler failure: a line that does not parse (1-based line number),
/// or a label reference that no label line defines.
#[derive(Debug, Clone, PartialEq, Eq)]
pub enum AsmError {
    LineError(usize),
    LabelNotFound(Vec<u8>),
}

/// Ghost mirror of [`AsmError`].
pub enum AsmErrSpec {
    LineError(int),
    LabelNotFound(Seq<u8>),
}

impl View for AsmError {
    type V = AsmErrSpec;

    open spec fn view(&self) -> AsmErrSpec {
        match *self {
            AsmError::LineError(n) => AsmErrSpec::LineError(n as int),
            AsmError::LabelNotFound(ref n) => AsmErrSpec::LabelNotFound(n@),
        }
    }
}

impl InstructionPlaceholder {
    /// Returns the size of this placeholder in bytes: the encoded size of the
    /// instruction, or the byte length of a raw literal (reduced modulo 2^32,
    /// as the address counter wraps).
    pub fn size(&self) -> (r: u32)
        ensures
            r == self@.spec_size(),
    {
        match *self {
            InstructionPlaceholder::Register { op, .. } => if op.code() % 2 == 0 {
                4
            } else {
                2
            },
            InstructionPlaceholder::Immediate { op, .. } => if op.code() % 2 == 0 {
                4
            } else {
                2
            },
            InstructionPlaceholder::Store { op, .. } => if op.code() % 2 == 0 {
                4
            } else {
                2
            },
            InstructionPlaceholder::Upper { op, .. } => if op.code() % 2 == 0 {
                4
            } else {
                2
            },
            InstructionPlaceholder::StringLiteral(ref s) => {
                let n = s.len() as u64;
                proof {
                    vstd::arithmetic::div_mod::lemma_mod_bound(n as int, 0x1_0000_0000int);
                }
                (n % 0x1_0000_0000u64) as u32
            },
        }
    }
}

// ---------------------------------------------------------------------------
// The label table: insertion order decides, the latest definition wins.
// ---------------------------------------------------------------------------

/// The association a list of label definitions denotes: later entries
/// overwrite earlier ones.
pub open spec fn labels_map(entries: Seq<(Vec<u8>, u32)>) -> Map<Seq<u8>, u32>
    decreases entries.len(),
{
    if entries.len() == 0 {
        Map::empty()
    } else {
        labels_map(entries.drop_last()).insert(entries.last().0@, entries.last().1)
    }
}

/// Compares two byte strings.
fn eq_bytes(a: &Vec<u8>, b: &Vec<u8>) -> (r: bool)
    ensures
        r == (a@ =~= b@),
{
    if a.len() != b.len() {
        return false;
    }
    let n = a.len();
    let mut i: usize = 0;
    while i < n
        invariant
            i <= n,
            n == a@.len() == b@.len(),
            forall|k: int| 0 <= k < i ==> a@[k] == b@[k],
        decreases n - i,
    {
        if a[i] != b[i] {
            return false;
        }
        i = i + 1;
    }
    true
}

/// Looks a label up in the table; the latest definition wins.
fn label_lookup(entries: &Vec<(Vec<u8>, u32)>, name: &Vec<u8>) -> (r: Option<u32>)
    ensures
        match r {
            Some(v) => labels_map(entries@).contains_key(name@) && labels_map(entries@)[name@]
                == v,
            None => !labels_map(entries@).contains_key(name@),
        },
{
    let mut i = entries.len();
    proof {
        assert(entries@.take(entries@.len() as int) =~= entries@);
    }
    while i > 0
        invariant
            i <= entries@.len(),
            labels_map(entries@).contains_key(name@) == labels_map(
                entries@.take(i as int),
            ).contains_key(name@),
            labels_map(entries@).contains_key(name@) ==> labels_map(entries@)[name@]
                == labels_map(entries@.take(i as int))[name@],
        decreases i,
    {
        i = i - 1;
        proof {
            assert(entries@.take(i + 1).drop_last() =~= entries@.take(i as int));
            assert(entries@.take(i + 1).last() == entries@[i as int]);
        }
        if eq_bytes(&entries[i].0, name) {
            return Some(entries[i].1);
        }
    }
    proof {
        assert(entries@.take(0) =~= Seq::<(Vec<u8>, u32)>::empty());
    }
    None
}

// ---------------------------------------------------------------------------
// Token grammar: numbers, identifiers, registers, mnemonics, string
// literals, as spec functions, with their executable twins.
// ---------------------------------------------------------------------------

/// The sign written at `i`: `-` negates, `+` or nothing does not.
pub open spec fn sign_prefix(s: Seq<u8>, i: int) -> (bool, int) {
    if i < s.len() && s[i] == 45 {
        (true, i + 1)
    } else if i < s.len() && s[i] == 43 {
        (false, i + 1)
    } else {
        (false, i)
    }
}

/// The radix selected by a prefix at `i`: `0b`, `0o`, `0x` (either case),
/// else decimal.
pub open spec fn radix_prefix(s: Seq<u8>, i: int) -> (int, int) {
    if i + 2 <= s.len() && s[i] == 48 && (s[i + 1] == 98 || s[i + 1] == 66) {
        (2, i + 2)
    } else if i + 2 <= s.len() && s[i] == 48 && (s[i + 1] == 111 || s[i + 1] == 79) {
        (8, i + 2)
    } else if i + 2 <= s.len() && s[i] == 48 && (s[i + 1] == 120 || s[i + 1] == 88) {
        (16, i + 2)
    } else {
        (10, i)
    }
}

/// A negative value as its two's-complement 32-bit pattern.
pub open spec fn signed_value(neg: bool, v: int) -> u32 {
    if neg {
        sub32(0, v as u32)
    } else {
        v as u32
    }
}

/// A numeric literal at `i` (no leading whitespace): optional sign, optional
/// radix prefix, then letters-and-digits that must all be digits of the radix
/// and denote a value of at most 0x7fffffff.
pub open spec fn spec_number(s: Seq<u8>, i: int) -> Option<(u32, int)> {
    let (neg, i1) = sign_prefix(s, i);
    let (radix, i2) = radix_prefix(s, i1);
    let e = alnum_end(s, i2);
    if i2 < e && digits_ok(s.subrange(i2, e), radix) && digits_val(s.subrange(i2, e), radix)
        <= 0x7fffffff {
        Some((signed_value(neg, digits_val(s.subrange(i2, e), radix)), e))
    } else {
        None
    }
}

/// An identifier at `i`: a letter, then letters, digits and underscores.
pub open spec fn spec_ident(s: Seq<u8>, i: int) -> Option<(Seq<u8>, int)> {
    if 0 <= i < s.len() && is_alpha(s[i]) {
        Some((s.subrange(i, ident_end(s, i)), ident_end(s, i)))
    } else {
        None
    }
}

/// A register operand at `i` (no leading whitespace): `r` or `R`, then
/// decimal digits denoting a value that fits the machine's word.
pub open spec fn spec_register(s: Seq<u8>, i: int) -> Option<(usize, int)> {
    if 0 <= i < s.len() && (s[i] == 114 || s[i] == 82) {
        let e = digit_end(s, i + 1);
        if i + 1 < e && digits_val(s.subrange(i + 1, e), 10) <= usize::MAX {
            Some((digits_val(s.subrange(i + 1, e), 10) as usize, e))
        } else {
            None
        }
    } else {
        None
    }
}

/// An immediate operand: a numeric literal, `%name` (absolute label) or
/// `$name` (relative label), with leading whitespace skipped.
pub open spec fn spec_immediate(s: Seq<u8>, i0: int) -> Option<(ImmSpec, int)> {
    let i = skip_ws(s, i0);
    if i < s.len() && s[i] == 37 {
        match spec_ident(s, i + 1) {
            Some((n, j)) => Some((ImmSpec::LabelAbsolute(n), j)),
            None => None,
        }
    } else if i < s.len() && s[i] == 36 {
        match spec_ident(s, i + 1) {
            Some((n, j)) => Some((ImmSpec::LabelRelative(n), j)),
            None => None,
        }
    } else {
        match spec_number(s, i) {
            Some((v, j)) => Some((ImmSpec::Value(v), j)),
            None => None,
        }
    }
}

/// The byte lowercased.
pub open spec fn lower(c: u8) -> u8 {
    if 65 <= c <= 90 {
        (c + 32) as u8
    } else {
        c
    }
}

/// The byte string lowercased.
pub open spec fn lower_seq(s: Seq<u8>) -> Seq<u8> {
    s.map_values(|c: u8| lower(c))
}

/// A mnemonic at `i0` after whitespace: an optional `c.` prefix (either
/// case), letters, and an optional `.u` suffix (either case). Yields the
/// prefix flag, the lowercased letters, and the suffix flag.
pub open spec fn spec_mnemonic(s: Seq<u8>, i0: int) -> Option<((bool, Seq<u8>, bool), int)> {
    let i = skip_ws(s, i0);
    let pre = i < s.len() && i + 1 < s.len() && (s[i] == 99 || s[i] == 67) && s[i + 1] == 46;
    let i1 = if pre {
        i + 2
    } else {
        i
    };
    let e = alpha_end(s, i1);
    if i1 < e {
        let suf = e < s.len() && e + 1 < s.len() && s[e] == 46 && (s[e + 1] == 117 || s[e + 1]
        == 85);
        let j = if suf {
            e + 2
        } else {
            e
        };
        Some(((pre, lower_seq(s.subrange(i1, e)), suf), j))
    } else {
        None
    }
}

/// A byte string folded big-endian into an integer, for mnemonic lookup.
pub open spec fn pack_fold(s: Seq<u8>) -> int
    decreases s.len(),
{
    if s.len() == 0 {
        0
    } else {
        pack_fold(s.drop_last()) * 256 + s.last()
    }
}

/// The opcode a mnemonic denotes: the lowercased letters (as their packed
/// key), together with the `c.` prefix and `.u` suffix flags.
pub open spec fn mnemonic_opcode(pre: bool, key: int, suf: bool) -> Option<OpCode> {
    if pre && !suf {
        if key == 0x616464 {
            Some(OpCode::C_ADD)
        } else if key == 0x737562 {
            Some(OpCode::C_SUB)
        } else if key == 0x616e64 {
            Some(OpCode::C_AND)
        } else if key == 0x6f72 {
            Some(OpCode::C_OR)
        } else if key == 0x786f72 {
            Some(OpCode::C_XOR)
        } else if key == 0x736c6c {
            Some(OpCode::C_SLL)
        } else if key == 0x73726c {
            Some(OpCode::C_SRL)
        } else if key == 0x737261 {
            Some(OpCode::C_SRA)
        } else if key == 0x61646469 {
            Some(OpCode::C_ADDI)
        } else if key == 0x616e6469 {
            Some(OpCode::C_ANDI)
        } else if key == 0x6f7269 {
            Some(OpCode::C_ORI)
        } else if key == 0x786f7269 {
            Some(OpCode::C_XORI)
        } else if key == 0x736c6c69 {
            Some(OpCode::C_SLLI)
        } else if key == 0x73726c69 {
            Some(OpCode::C_SRLI)
        } else if key == 0x73726169 {
            Some(OpCode::C_SRAI)
        } else if key == 0x62657a {
            Some(OpCode::C_BEZ)
        } else if key == 0x626e7a {
            Some(OpCode::C_BNZ)
        } else if key == 0x6c69 {
            Some(OpCode::C_LI)
        } else if key == 0x6c7569 {
            Some(OpCode::C_LUI)
        } else if key == 0x6c6f6164 {
            Some(OpCode::C_LOAD)
        } else if key == 0x73746f7265 {
            Some(OpCode::C_STORE)
        } else if key == 0x63616c6c {
            Some(OpCode::C_CALL)
        } else if key == 0x627265616b {
            Some(OpCode::C_BREAK)
        } else {
            None
        }
    } else if !pre && suf {
        if key == 0x626c74 {
            Some(OpCode::BLT_U)
        } else if key == 0x626765 {
            Some(OpCode::BGE_U)
        } else {
            None
        }
    } else if !pre && !suf {
        if key == 0x616464 {
            Some(OpCode::ADD)
        } else if key == 0x737562 {
            Some(OpCode::SUB)
        } else if key == 0x616e64 {
            Some(OpCode::AND)
        } else if key == 0x6f72 {
            Some(OpCode::OR)
        } else if key == 0x786f72 {
            Some(OpCode::XOR)
        } else if key == 0x736c6c {
            Some(OpCode::SLL)
        } else if key == 0x73726c {
            Some(OpCode::SRL)
        } else if key == 0x737261 {
            Some(OpCode::SRA)
        } else if key == 0x61646469 {
            Some(OpCode::ADDI)
        } else if key == 0x616e6469 {
            Some(OpCode::ANDI)
        } else if key == 0x6f7269 {
            Some(OpCode::ORI)
        } else if key == 0x786f7269 {
            Some(OpCode::XORI)
        } else if key == 0x736c6c69 {
            Some(OpCode::SLLI)
        } else if key == 0x73726c69 {
            Some(OpCode::SRLI)
        } else if key == 0x73726169 {
            Some(OpCode::SRAI)
        } else if key == 0x62657a {
            Some(OpCode::BEZ)
        } else if key == 0x626e7a {
            Some(OpCode::BNZ)
        } else if key == 0x626571 {
            Some(OpCode::BEQ)
        } else if key == 0x626e65 {
            Some(OpCode::BNE)
        } else if key == 0x626c74 {
            Some(OpCode::BLT)
        } else if key == 0x626765 {
            Some(OpCode::BGE)
        } else if key == 0x6c69 {
            Some(OpCode::LI)
        } else if key == 0x6c7569 {
            Some(OpCode::LUI)
        } else if key == 0x6c6f6164 {
            Some(OpCode::LOAD)
        } else if key == 0x73746f7265 {
            Some(OpCode::STORE)
        } else if key == 0x63616c6c {
            Some(OpCode::CALL)
        } else if key == 0x627265616b {
            Some(OpCode::BREAK)
        } else if key == 0x6d76 {
            Some(OpCode::MV)
        } else {
            None
        }
    } else {
        None
    }
}

/// The packed key of the letters of the `bytes` pseudo-op.
pub open spec fn bytes_key() -> int {
    0x6279746573
}

/// One pass of left-to-right, non-overlapping replacement of the two-byte
/// pattern `a b` by the byte `r`.
pub open spec fn replace2(s: Seq<u8>, a: u8, b: u8, r: u8) -> Seq<u8>
    decreases s.len(),
{
    if s.len() >= 2 && s[0] == a && s[1] == b {
        seq![r] + replace2(s.skip(2), a, b, r)
    } else if s.len() == 0 {
        s
    } else {
        seq![s[0]] + replace2(s.skip(1), a, b, r)
    }
}

/// The escape sequences of a string literal, applied one after the other in
/// this order: backslash, NUL, newline, carriage return, tab, single quote,
/// double quote.
pub open spec fn apply_escapes(s: Seq<u8>) -> Seq<u8> {
    replace2(
        replace2(
            replace2(
                replace2(replace2(replace2(replace2(s, 92, 92, 92), 92, 48, 0), 92, 110, 10), 92,
                114, 13),
                92,
                116,
                9,
            ),
            92,
            39,
            39,
        ),
        92,
        34,
        34,
    )
}

/// A string literal after whitespace: a double quote, any bytes other than a
/// double quote, a closing double quote; the content with escapes applied.
pub open spec fn spec_string_literal(s: Seq<u8>, i0: int) -> Option<(Seq<u8>, int)> {
    let i = skip_ws(s, i0);
    if i < s.len() && s[i] == 34 {
        let e = quote_end(s, i + 1);
        if e < s.len() {
            Some((apply_escapes(s.subrange(i + 1, e)), e + 1))
        } else {
            None
        }
    } else {
        None
    }
}

// ---------------------------------------------------------------------------
// Executable twins of the token grammar.
// ---------------------------------------------------------------------------

fn digit_val_exec(c: u8) -> (r: u32)
    ensures
        r as int == digit_val(c),
{
    if 48 <= c && c <= 57 {
        (c - 48) as u32
    } else if 97 <= c && c <= 122 {
        (c - 87) as u32
    } else if 65 <= c && c <= 90 {
        (c - 55) as u32
    } else {
        99
    }
}

/// Every byte of a digit run is a digit; every byte of an alnum run a letter
/// or digit.
proof fn lemma_digit_run(s: Seq<u8>, i: int)
    requires
        0 <= i <= s.len(),
    ensures
        forall|k: int| i <= k < digit_end(s, i) ==> is_digit(s[k]),
    decreases s.len() - i,
{
    lemma_scan_bounds(s, i);
    if i < s.len() && is_digit(s[i]) {
        lemma_digit_run(s, i + 1);
    }
}

/// Reads the digit run `s[i..e]` in the given radix, up to `cap`; `None`
/// when a byte is no digit of the radix or the value exceeds `cap`.
fn scan_digits(s: &Vec<u8>, i: usize, e: usize, radix: u32, cap: u64) -> (r: Option<u64>)
    requires
        i <= e <= s@.len(),
        2 <= radix <= 36,
    ensures
        match r {
            Some(v) => digits_ok(s@.subrange(i as int, e as int), radix as int) && digits_val(
                s@.subrange(i as int, e as int),
                radix as int,
            ) == v as int && v <= cap,
            None => !(digits_ok(s@.subrange(i as int, e as int), radix as int) && digits_val(
                s@.subrange(i as int, e as int),
                radix as int,
            ) <= cap),
        },
{
    let mut acc: u128 = 0;
    let mut k: usize = i;
    let ghost full = s@.subrange(i as int, e as int);
    while k < e
        invariant
            i <= k <= e <= s@.len(),
            2 <= radix <= 36,
            full == s@.subrange(i as int, e as int),
            digits_ok(s@.subrange(i as int, k as int), radix as int),
            acc <= cap as u128 + 1,
            (acc <= cap as u128 && acc as int == digits_val(
                s@.subrange(i as int, k as int),
                radix as int,
            )) || (acc == cap as u128 + 1 && digits_val(
                s@.subrange(i as int, k as int),
                radix as int,
            ) > cap),
        decreases e - k,
    {
        let d = digit_val_exec(s[k]);
        if d >= radix {
            proof {
                assert(s@.subrange(i as int, e as int)[k - i] == s@[k as int]);
            }
            return None;
        }
        proof {
            assert(s@.subrange(i as int, k + 1).drop_last() =~= s@.subrange(i as int, k as int));
            assert(s@.subrange(i as int, k + 1).last() == s@[k as int]);
            let prev = digits_val(s@.subrange(i as int, k as int), radix as int);
            lemma_digits_val_nonneg(s@.subrange(i as int, k as int), radix as int);
            assert(prev > cap ==> prev * radix + d > cap) by (nonlinear_arith)
                requires
                    radix >= 2,
                    d >= 0,
                    prev >= 0,
            ;
        }
        proof {
            assert(acc * (radix as u128) <= 0x10000000000000000u128 * 36) by (nonlinear_arith)
                requires
                    acc <= 0x10000000000000000u128,
                    radix <= 36,
            ;
            assert(acc * (radix as u128) >= acc * 2) by (nonlinear_arith)
                requires
                    radix >= 2,
            ;
        }
        let next: u128 = acc * (radix as u128) + (d as u128);
        acc = if next > cap as u128 {
            proof {
                let prev = digits_val(s@.subrange(i as int, k as int), radix as int);
                lemma_digits_val_nonneg(s@.subrange(i as int, k as int), radix as int);
                assert(prev > cap ==> prev * radix + d > cap) by (nonlinear_arith)
                    requires
                        radix >= 2,
                        d >= 0,
                        prev >= 0,
                ;
            }
            (cap as u128) + 1
        } else {
            next
        };
        k = k + 1;
    }
    proof {
        assert(s@.subrange(i as int, e as int) =~= s@.subrange(i as int, k as int));
    }
    if acc > cap as u128 {
        None
    } else {
        Some(acc as u64)
    }
}

/// Reads a numeric literal at `i` per [`spec_number`].
pub fn lex_number(s: &Vec<u8>, i: usize) -> (r: Option<(u32, usize)>)
    requires
        i <= s@.len(),
    ensures
        match r {
            Some((v, j)) => spec_number(s@, i as int) == Some((v, j as int)) && j <= s@.len(),
            None => spec_number(s@, i as int) is None,
        },
{
    let (neg, i1): (bool, usize) = if i < s.len() && s[i] == 45 {
        (true, i + 1)
    } else if i < s.len() && s[i] == 43 {
        (false, i + 1)
    } else {
        (false, i)
    };
    let two_more = i1 < s.len() && i1 + 1 < s.len();
    let (radix, i2): (u32, usize) = if two_more && s[i1] == 48 && (s[i1 + 1] == 98 || s[i1 + 1]
        == 66) {
        (2, i1 + 2)
    } else if two_more && s[i1] == 48 && (s[i1 + 1] == 111 || s[i1 + 1] == 79) {
        (8, i1 + 2)
    } else if two_more && s[i1] == 48 && (s[i1 + 1] == 120 || s[i1 + 1] == 88) {
        (16, i1 + 2)
    } else {
        (10, i1)
    };
    let e = alnum_end_exec(s, i2);
    if i2 == e {
        return None;
    }
    match scan_digits(s, i2, e, radix, 0x7fffffff) {
        Some(v) => {
            let v32 = v as u32;
            if neg {
                Some((0u32.wrapping_sub(v32), e))
            } else {
                Some((v32, e))
            }
        },
        None => None,
    }
}

/// Reads an identifier at `i` per [`spec_ident`].
pub fn lex_ident(s: &Vec<u8>, i: usize) -> (r: Option<(Vec<u8>, usize)>)
    requires
        i <= s@.len(),
    ensures
        match r {
            Some((name, j)) => spec_ident(s@, i as int) == Some((name@, j as int)) && j
                <= s@.len(),
            None => spec_ident(s@, i as int) is None,
        },
{
    if i < s.len() && is_alpha_exec(s[i]) {
        let e = ident_end_exec(s, i);
        Some((copy_range(s, i, e), e))
    } else {
        None
    }
}

/// Reads a register operand at `i` per [`spec_register`].
pub fn lex_register(s: &Vec<u8>, i: usize) -> (r: Option<(usize, usize)>)
    requires
        i <= s@.len(),
    ensures
        match r {
            Some((v, j)) => spec_register(s@, i as int) == Some((v, j as int)) && j <= s@.len(),
            None => spec_register(s@, i as int) is None,
        },
{
    if i < s.len() && (s[i] == 114 || s[i] == 82) {
        let e = digit_end_exec(s, i + 1);
        if i + 1 == e {
            return None;
        }
        proof {
            lemma_digit_run(s@, i + 1);
            assert forall|k: int| 0 <= k < s@.subrange(i + 1, e as int).len() implies #[trigger] digit_val(
                s@.subrange(i + 1, e as int)[k],
            ) < 10 by {
                assert(s@.subrange(i + 1, e as int)[k] == s@[i + 1 + k]);
            }
        }
        match scan_digits(s, i + 1, e, 10, usize::MAX as u64) {
            Some(v) => Some((v as usize, e)),
            None => None,
        }
    } else {
        None
    }
}

/// Reads an immediate operand per [`spec_immediate`].
pub fn lex_immediate(s: &Vec<u8>, i0: usize) -> (r: Option<(ImmediatePlaceholder, usize)>)
    requires
        i0 <= s@.len(),
    ensures
        match r {
            Some((imm, j)) => spec_immediate(s@, i0 as int) == Some((imm@, j as int)) && j
                <= s@.len(),
            None => spec_immediate(s@, i0 as int) is None,
        },
{
    let i = skip_ws_exec(s, i0);
    if i < s.len() && s[i] == 37 {
        match lex_ident(s, i + 1) {
            Some((n, j)) => Some((ImmediatePlaceholder::LabelAbsolute(n), j)),
            None => None,
        }
    } else if i < s.len() && s[i] == 36 {
        match lex_ident(s, i + 1) {
            Some((n, j)) => Some((ImmediatePlaceholder::LabelRelative(n), j)),
            None => None,
        }
    } else {
        match lex_number(s, i) {
            Some((v, j)) => Some((ImmediatePlaceholder::Value(v), j)),
            None => None,
        }
    }
}

/// Skips whitespace, then expects the byte `c`.
fn expect_char(s: &Vec<u8>, i0: usize, c: u8) -> (r: Option<usize>)
    requires
        i0 <= s@.len(),
    ensures
        ({
            let i = skip_ws(s@, i0 as int);
            match r {
                Some(j) => i < s@.len() && s@[i] == c && j == i + 1 && j <= s@.len(),
                None => !(i < s@.len() && s@[i] == c),
            }
        }),
{
    let i = skip_ws_exec(s, i0);
    if i < s.len() && s[i] == c {
        Some(i + 1)
    } else {
        None
    }
}

/// A packed key is never negative.
proof fn lemma_pack_fold_nonneg(s: Seq<u8>)
    ensures
        pack_fold(s) >= 0,
    decreases s.len(),
{
    if s.len() > 0 {
        lemma_pack_fold_nonneg(s.drop_last());
        let p = pack_fold(s.drop_last());
        assert(p * 256 >= 0) by (nonlinear_arith)
            requires
                p >= 0,
        ;
    }
}

/// Packs the lowercased bytes `s[i..e]` big-endian, up to 2^56 - 1; `None`
/// when the value exceeds that (no mnemonic's key does).
fn scan_key(s: &Vec<u8>, i: usize, e: usize) -> (r: Option<u64>)
    requires
        i <= e <= s@.len(),
    ensures
        match r {
            Some(k) => pack_fold(lower_seq(s@.subrange(i as int, e as int))) == k as int && k
                <= 0xffffffffffffff,
            None => pack_fold(lower_seq(s@.subrange(i as int, e as int))) > 0xffffffffffffff,
        },
{
    let cap: u128 = 0xffffffffffffff;
    let mut acc: u128 = 0;
    let mut k: usize = i;
    while k < e
        invariant
            i <= k <= e <= s@.len(),
            acc <= cap + 1,
            (acc <= cap && acc as int == pack_fold(lower_seq(s@.subrange(i as int, k as int))))
                || (acc == cap + 1 && pack_fold(lower_seq(s@.subrange(i as int, k as int)))
                > cap),
            cap == 0xffffffffffffff,
        decreases e - k,
    {
        let c = s[k];
        let lc: u8 = if 65 <= c && c <= 90 {
            c + 32
        } else {
            c
        };
        proof {
            let prev = lower_seq(s@.subrange(i as int, k as int));
            let cur = lower_seq(s@.subrange(i as int, k + 1));
            assert(cur.drop_last() =~= prev);
            assert(cur.last() == lower(s@[k as int]));
            lemma_pack_fold_nonneg(prev);
            let p = pack_fold(prev);
            assert(p > cap ==> p * 256 + lc > cap) by (nonlinear_arith)
                requires
                    p >= 0,
                    lc >= 0,
                    cap >= 0,
            ;
            assert(acc * 256 <= (cap + 1) * 256) by (nonlinear_arith)
                requires
                    acc <= cap + 1,
            ;
        }
        let next: u128 = acc * 256 + (lc as u128);
        acc = if next > cap {
            proof {
                let prev = lower_seq(s@.subrange(i as int, k as int));
                lemma_pack_fold_nonneg(prev);
            }
            cap + 1
        } else {
            next
        };
        k = k + 1;
    }
    if acc > cap {
        None
    } else {
        Some(acc as u64)
    }
}

/// Reads a mnemonic per [`spec_mnemonic`], returning the prefix and suffix
/// flags and the packed key of the lowercased letters (`None` when the key
/// is larger than any mnemonic's).
pub fn lex_mnemonic(s: &Vec<u8>, i0: usize) -> (r: Option<(bool, Option<u64>, bool, usize)>)
    requires
        i0 <= s@.len(),
    ensures
        match r {
            Some((pre, key, suf, j)) => j <= s@.len() && ({
                let sp = spec_mnemonic(s@, i0 as int);
                sp is Some && sp->Some_0.1 == j as int && sp->Some_0.0.0 == pre && sp->Some_0.0.2
                    == suf && (match key {
                    Some(k) => pack_fold(sp->Some_0.0.1) == k as int && k <= 0xffffffffffffff,
                    None => pack_fold(sp->Some_0.0.1) > 0xffffffffffffff,
                })
            }),
            None => spec_mnemonic(s@, i0 as int) is None,
        },
{
    let i = skip_ws_exec(s, i0);
    let pre = i < s.len() && i + 1 < s.len() && (s[i] == 99 || s[i] == 67) && s[i + 1] == 46;
    let i1: usize = if pre {
        i + 2
    } else {
        i
    };
    let e = alpha_end_exec(s, i1);
    if i1 == e {
        return None;
    }
    let suf = e < s.len() && e + 1 < s.len() && s[e] == 46 && (s[e + 1] == 117 || s[e + 1]
        == 85);
    let j: usize = if suf {
        e + 2
    } else {
        e
    };
    let key = scan_key(s, i1, e);
    Some((pre, key, suf, j))
}

/// Executable form of [`mnemonic_opcode`]; a key of `None` (a value larger
/// than any mnemonic's) matches no mnemonic.
fn mnemonic_opcode_exec(pre: bool, key: Option<u64>, suf: bool) -> (r: Option<OpCode>)
    ensures
        match key {
            Some(k) => r == mnemonic_opcode(pre, k as int, suf),
            None => r is None,
        },
{
    let k: u64 = match key {
        Some(k) => k,
        None => {
            return None;
        },
    };
    if pre && !suf {
        if k == 0x616464 {
            Some(OpCode::C_ADD)
        } else if k == 0x737562 {
            Some(OpCode::C_SUB)
        } else if k == 0x616e64 {
            Some(OpCode::C_AND)
        } else if k == 0x6f72 {
            Some(OpCode::C_OR)
        } else if k == 0x786f72 {
            Some(OpCode::C_XOR)
        } else if k == 0x736c6c {
            Some(OpCode::C_SLL)
        } else if k == 0x73726c {
            Some(OpCode::C_SRL)
        } else if k == 0x737261 {
            Some(OpCode::C_SRA)
        } else if k == 0x61646469 {
            Some(OpCode::C_ADDI)
        } else if k == 0x616e6469 {
            Some(OpCode::C_ANDI)
        } else if k == 0x6f7269 {
            Some(OpCode::C_ORI)
        } else if k == 0x786f7269 {
            Some(OpCode::C_XORI)
        } else if k == 0x736c6c69 {
            Some(OpCode::C_SLLI)
        } else if k == 0x73726c69 {
            Some(OpCode::C_SRLI)
        } else if k == 0x73726169 {
            Some(OpCode::C_SRAI)
        } else if k == 0x62657a {
            Some(OpCode::C_BEZ)
        } else if k == 0x626e7a {
            Some(OpCode::C_BNZ)
        } else if k == 0x6c69 {
            Some(OpCode::C_LI)
        } else if k == 0x6c7569 {
            Some(OpCode::C_LUI)
        } else if k == 0x6c6f6164 {
            Some(OpCode::C_LOAD)
        } else if k == 0x73746f7265 {
            Some(OpCode::C_STORE)
        } else if k == 0x63616c6c {
            Some(OpCode::C_CALL)
        } else if k == 0x627265616b {
            Some(OpCode::C_BREAK)
        } else {
            None
        }
    } else if !pre && suf {
        if k == 0x626c74 {
            Some(OpCode::BLT_U)
        } else if k == 0x626765 {
            Some(OpCode::BGE_U)
        } else {
            None
        }
    } else if !pre && !suf {
        if k == 0x616464 {
            Some(OpCode::ADD)
        } else if k == 0x737562 {
            Some(OpCode::SUB)
        } else if k == 0x616e64 {
            Some(OpCode::AND)
        } else if k == 0x6f72 {
            Some(OpCode::OR)
        } else if k == 0x786f72 {
            Some(OpCode::XOR)
        } else if k == 0x736c6c {
            Some(OpCode::SLL)
        } else if k == 0x73726c {
            Some(OpCode::SRL)
        } else if k == 0x737261 {
            Some(OpCode::SRA)
        } else if k == 0x61646469 {
            Some(OpCode::ADDI)
        } else if k == 0x616e6469 {
            Some(OpCode::ANDI)
        } else if k == 0x6f7269 {
            Some(OpCode::ORI)
        } else if k == 0x786f7269 {
            Some(OpCode::XORI)
        } else if k == 0x736c6c69 {
            Some(OpCode::SLLI)
        } else if k == 0x73726c69 {
            Some(OpCode::SRLI)
        } else if k == 0x73726169 {
            Some(OpCode::SRAI)
        } else if k == 0x62657a {
            Some(OpCode::BEZ)
        } else if k == 0x626e7a {
            Some(OpCode::BNZ)
        } else if k == 0x626571 {
            Some(OpCode::BEQ)
        } else if k == 0x626e65 {
            Some(OpCode::BNE)
        } else if k == 0x626c74 {
            Some(OpCode::BLT)
        } else if k == 0x626765 {
            Some(OpCode::BGE)
        } else if k == 0x6c69 {
            Some(OpCode::LI)
        } else if k == 0x6c7569 {
            Some(OpCode::LUI)
        } else if k == 0x6c6f6164 {
            Some(OpCode::LOAD)
        } else if k == 0x73746f7265 {
            Some(OpCode::STORE)
        } else if k == 0x63616c6c {
            Some(OpCode::CALL)
        } else if k == 0x627265616b {
            Some(OpCode::BREAK)
        } else if k == 0x6d76 {
            Some(OpCode::MV)
        } else {
            None
        }
    } else {
        None
    }
}

/// One replacement pass over `s[i..]` per [`replace2`].
fn replace2_from(s: &Vec<u8>, i: usize, a: u8, b: u8, rep: u8) -> (out: Vec<u8>)
    requires
        i <= s@.len(),
    ensures
        out@ == replace2(s@.skip(i as int), a, b, rep),
    decreases s@.len() - i,
{
    if i == s.len() {
        proof {
            assert(s@.skip(i as int) =~= Seq::<u8>::empty());
        }
        Vec::new()
    } else if i + 1 < s.len() && s[i] == a && s[i + 1] == b {
        let mut rest = replace2_from(s, i + 2, a, b, rep);
        rest.insert(0, rep);
        proof {
            assert(s@.skip(i as int).skip(2) =~= s@.skip(i + 2));
            assert(rest@ =~= seq![rep] + replace2(s@.skip(i + 2), a, b, rep));
        }
        rest
    } else {
        let mut rest = replace2_from(s, i + 1, a, b, rep);
        rest.insert(0, s[i]);
        proof {
            assert(s@.skip(i as int).skip(1) =~= s@.skip(i + 1));
            assert(rest@ =~= seq![s@[i as int]] + replace2(s@.skip(i + 1), a, b, rep));
        }
        rest
    }
}

/// One whole replacement pass.
fn replace_pass(s: &Vec<u8>, a: u8, b: u8, rep: u8) -> (out: Vec<u8>)
    ensures
        out@ == replace2(s@, a, b, rep),
{
    proof {
        assert(s@.skip(0) =~= s@);
    }
    replace2_from(s, 0, a, b, rep)
}

/// Applies the escape passes of [`apply_escapes`].
fn apply_escapes_exec(s: Vec<u8>) -> (out: Vec<u8>)
    ensures
        out@ == apply_escapes(s@),
{
    let s = replace_pass(&s, 92, 92, 92);
    let s = replace_pass(&s, 92, 48, 0);
    let s = replace_pass(&s, 92, 110, 10);
    let s = replace_pass(&s, 92, 114, 13);
    let s = replace_pass(&s, 92, 116, 9);
    let s = replace_pass(&s, 92, 39, 39);
    let s = replace_pass(&s, 92, 34, 34);
    s
}

/// Reads a string literal per [`spec_string_literal`].
fn lex_string_literal(s: &Vec<u8>, i0: usize) -> (r: Option<(Vec<u8>, usize)>)
    requires
        i0 <= s@.len(),
    ensures
        match r {
            Some((content, j)) => spec_string_literal(s@, i0 as int) == Some((content@, j as int))
                && j <= s@.len(),
            None => spec_string_literal(s@, i0 as int) is None,
        },
{
    let i = skip_ws_exec(s, i0);
    if i < s.len() && s[i] == 34 {
        let e = quote_end_exec(s, i + 1);
        if e < s.len() {
            let raw = copy_range(s, i + 1, e);
            let content = apply_escapes_exec(raw);
            Some((content, e + 1))
        } else {
            None
        }
    } else {
        None
    }
}

// ---------------------------------------------------------------------------
// Operand grammar per mnemonic family, and whole lines.
// ---------------------------------------------------------------------------

/// The comma or other single byte expected next, after whitespace.
pub open spec fn spec_expect(s: Seq<u8>, i0: int, c: u8) -> Option<int> {
    let i = skip_ws(s, i0);
    if i < s.len() && s[i] == c {
        Some(i + 1)
    } else {
        None
    }
}

/// A register token: whitespace, then a register.
pub open spec fn spec_reg_tok(s: Seq<u8>, i0: int) -> Option<(usize, int)> {
    spec_register(s, skip_ws(s, i0))
}

/// `rd, rs1, rs2`.
pub open spec fn spec_ops_r(s: Seq<u8>, i: int, op: OpCode) -> Option<(ItemSpec, int)> {
    match spec_reg_tok(s, i) {
        None => None,
        Some((dst, i1)) => match spec_expect(s, i1, 44) {
            None => None,
            Some(i2) => match spec_reg_tok(s, i2) {
                None => None,
                Some((src1, i3)) => match spec_expect(s, i3, 44) {
                    None => None,
                    Some(i4) => match spec_reg_tok(s, i4) {
                        None => None,
                        Some((src2, j)) => Some((ItemSpec::Register { op, dst, src1, src2 }, j)),
                    },
                },
            },
        },
    }
}

/// `rd, rs2` (rs1 = rd).
pub open spec fn spec_ops_cr(s: Seq<u8>, i: int, op: OpCode) -> Option<(ItemSpec, int)> {
    match spec_reg_tok(s, i) {
        None => None,
        Some((dst, i1)) => match spec_expect(s, i1, 44) {
            None => None,
            Some(i2) => match spec_reg_tok(s, i2) {
                None => None,
                Some((src2, j)) => Some(
                    (ItemSpec::Register { op, dst, src1: dst, src2 }, j),
                ),
            },
        },
    }
}

/// `rd, rs1, imm`.
pub open spec fn spec_ops_i(s: Seq<u8>, i: int, op: OpCode) -> Option<(ItemSpec, int)> {
    match spec_reg_tok(s, i) {
        None => None,
        Some((dst, i1)) => match spec_expect(s, i1, 44) {
            None => None,
            Some(i2) => match spec_reg_tok(s, i2) {
                None => None,
                Some((src1, i3)) => match spec_expect(s, i3, 44) {
                    None => None,
                    Some(i4) => match spec_immediate(s, i4) {
                        None => None,
                        Some((imm, j)) => Some((ItemSpec::Immediate { op, dst, src1, imm }, j)),
                    },
                },
            },
        },
    }
}

/// `rd, imm` (rs1 = rd).
pub open spec fn spec_ops_ci(s: Seq<u8>, i: int, op: OpCode) -> Option<(ItemSpec, int)> {
    match spec_reg_tok(s, i) {
        None => None,
        Some((dst, i1)) => match spec_expect(s, i1, 44) {
            None => None,
            Some(i2) => match spec_immediate(s, i2) {
                None => None,
                Some((imm, j)) => Some((ItemSpec::Immediate { op, dst, src1: dst, imm }, j)),
            },
        },
    }
}

/// `rs1, rs2, imm`.
pub open spec fn spec_ops_s(s: Seq<u8>, i: int, op: OpCode) -> Option<(ItemSpec, int)> {
    match spec_reg_tok(s, i) {
        None => None,
        Some((src1, i1)) => match spec_expect(s, i1, 44) {
            None => None,
            Some(i2) => match spec_reg_tok(s, i2) {
                None => None,
                Some((src2, i3)) => match spec_expect(s, i3, 44) {
                    None => None,
                    Some(i4) => match spec_immediate(s, i4) {
                        None => None,
                        Some((imm, j)) => Some((ItemSpec::Store { op, src1, src2, imm }, j)),
                    },
                },
            },
        },
    }
}

/// `rd, imm`.
pub open spec fn spec_ops_u(s: Seq<u8>, i: int, op: OpCode) -> Option<(ItemSpec, int)> {
    match spec_reg_tok(s, i) {
        None => None,
        Some((dst, i1)) => match spec_expect(s, i1, 44) {
            None => None,
            Some(i2) => match spec_immediate(s, i2) {
                None => None,
                Some((imm, j)) => Some((ItemSpec::Upper { op, dst, imm }, j)),
            },
        },
    }
}

/// `imm` alone (for the call family).
pub open spec fn spec_ops_call(s: Seq<u8>, i: int, op: OpCode) -> Option<(ItemSpec, int)> {
    match spec_immediate(s, i) {
        None => None,
        Some((imm, j)) => Some((ItemSpec::Immediate { op, dst: 0, src1: 0, imm }, j)),
    }
}

/// The operand rule of each mnemonic family, applied after the mnemonic.
pub open spec fn spec_operands(s: Seq<u8>, i: int, op: OpCode) -> Option<(ItemSpec, int)> {
    match op {
        OpCode::ADD | OpCode::SUB | OpCode::AND | OpCode::OR | OpCode::XOR | OpCode::SLL
        | OpCode::SRL | OpCode::SRA => spec_ops_r(s, i, op),
        OpCode::C_ADD | OpCode::C_SUB | OpCode::C_AND | OpCode::C_OR | OpCode::C_XOR
        | OpCode::C_SLL | OpCode::C_SRL | OpCode::C_SRA | OpCode::MV => spec_ops_cr(s, i, op),
        OpCode::ADDI | OpCode::ANDI | OpCode::ORI | OpCode::XORI | OpCode::SLLI | OpCode::SRLI
        | OpCode::SRAI | OpCode::LOAD | OpCode::C_LOAD => spec_ops_i(s, i, op),
        OpCode::LI | OpCode::BEZ | OpCode::BNZ | OpCode::C_ADDI | OpCode::C_ANDI | OpCode::C_ORI
        | OpCode::C_XORI | OpCode::C_SLLI | OpCode::C_SRLI | OpCode::C_SRAI | OpCode::C_LI
        | OpCode::C_BEZ | OpCode::C_BNZ => spec_ops_ci(s, i, op),
        OpCode::CALL | OpCode::C_CALL => spec_ops_call(s, i, op),
        OpCode::BREAK | OpCode::C_BREAK => Some(
            (
                ItemSpec::Immediate { op, dst: 0, src1: 0, imm: ImmSpec::Value(0) },
                i,
            ),
        ),
        OpCode::STORE | OpCode::C_STORE | OpCode::BEQ | OpCode::BNE | OpCode::BLT | OpCode::BGE
        | OpCode::BLT_U | OpCode::BGE_U => spec_ops_s(s, i, op),
        OpCode::LUI | OpCode::C_LUI => spec_ops_u(s, i, op),
    }
}

/// An instruction: a mnemonic, then its operands; or the `bytes` pseudo-op
/// followed by a string literal.
pub open spec fn spec_instruction(s: Seq<u8>, i0: int) -> Option<(ItemSpec, int)> {
    match spec_mnemonic(s, i0) {
        None => None,
        Some(((pre, low, suf), j)) => if !pre && !suf && pack_fold(low) == 0x6279746573 {
            match spec_string_literal(s, j) {
                Some((bytes, j2)) => Some((ItemSpec::Bytes(bytes), j2)),
                None => None,
            }
        } else {
            match mnemonic_opcode(pre, pack_fold(low), suf) {
                None => None,
                Some(op) => spec_operands(s, j, op),
            }
        },
    }
}

/// Whether only whitespace, or a trailing comment, remains from `j`.
pub open spec fn spec_tail_ok(s: Seq<u8>, j: int) -> bool {
    let k = skip_ws(s, j);
    k == s.len() || (k < s.len() && s[k] == 35)
}

/// One line: blank, comment, `label:` alone, an instruction alone, or
/// `label: instruction`, each with an optional trailing comment. `None` is a
/// line that parses no way.
pub open spec fn spec_parse_line(line: Seq<u8>) -> Option<(Option<Seq<u8>>, Option<ItemSpec>)> {
    let i0 = skip_ws(line, 0);
    if i0 == line.len() || line[i0] == 35 {
        Some((Option::<Seq<u8>>::None, Option::<ItemSpec>::None))
    } else {
        let lbl = match spec_ident(line, i0) {
            Some((name, i1)) => match spec_expect(line, i1, 58) {
                Some(i2) => Some((name, i2)),
                None => None,
            },
            None => None,
        };
        match lbl {
            Some((name, i)) => match spec_instruction(line, i) {
                Some((item, j)) => if spec_tail_ok(line, j) {
                    Some((Some(name), Some(item)))
                } else {
                    None
                },
                None => if spec_tail_ok(line, i) {
                    Some((Some(name), Option::<ItemSpec>::None))
                } else {
                    None
                },
            },
            None => match spec_instruction(line, i0) {
                Some((item, j)) => if spec_tail_ok(line, j) {
                    Some((Option::<Seq<u8>>::None, Some(item)))
                } else {
                    None
                },
                None => None,
            },
        }
    }
}

/// Reads a register token (whitespace, then a register).
fn reg_tok(s: &Vec<u8>, i0: usize) -> (r: Option<(usize, usize)>)
    requires
        i0 <= s@.len(),
    ensures
        match r {
            Some((v, j)) => spec_reg_tok(s@, i0 as int) == Some((v, j as int)) && j <= s@.len(),
            None => spec_reg_tok(s@, i0 as int) is None,
        },
{
    let i = skip_ws_exec(s, i0);
    lex_register(s, i)
}

/// Reads the operands of one mnemonic family per [`spec_operands`].
pub fn parse_operands(s: &Vec<u8>, i: usize, op: OpCode) -> (r: Option<(InstructionPlaceholder, usize)>)
    requires
        i <= s@.len(),
    ensures
        match r {
            Some((item, j)) => spec_operands(s@, i as int, op) == Some((item@, j as int)) && j
                <= s@.len(),
            None => spec_operands(s@, i as int, op) is None,
        },
{
    match op {
        OpCode::ADD | OpCode::SUB | OpCode::AND | OpCode::OR | OpCode::XOR | OpCode::SLL
        | OpCode::SRL | OpCode::SRA => {
            let (dst, i1) = match reg_tok(s, i) {
                Some(x) => x,
                None => {
                    return None;
                },
            };
            let i2 = match expect_char(s, i1, 44) {
                Some(x) => x,
                None => {
                    return None;
                },
            };
            let (src1, i3) = match reg_tok(s, i2) {
                Some(x) => x,
                None => {
                    return None;
                },
            };
            let i4 = match expect_char(s, i3, 44) {
                Some(x) => x,
                None => {
                    return None;
                },
            };
            let (src2, j) = match reg_tok(s, i4) {
                Some(x) => x,
                None => {
                    return None;
                },
            };
            Some((InstructionPlaceholder::Register { op, dst, src1, src2 }, j))
        },
        OpCode::C_ADD | OpCode::C_SUB | OpCode::C_AND | OpCode::C_OR | OpCode::C_XOR
        | OpCode::C_SLL | OpCode::C_SRL | OpCode::C_SRA | OpCode::MV => {
            let (dst, i1) = match reg_tok(s, i) {
                Some(x) => x,
                None => {
                    return None;
                },
            };
            let i2 = match expect_char(s, i1, 44) {
                Some(x) => x,
                None => {
                    return None;
                },
            };
            let (src2, j) = match reg_tok(s, i2) {
                Some(x) => x,
                None => {
                    return None;
                },
            };
            Some((InstructionPlaceholder::Register { op, dst, src1: dst, src2 }, j))
        },
        OpCode::ADDI | OpCode::ANDI | OpCode::ORI | OpCode::XORI | OpCode::SLLI | OpCode::SRLI
        | OpCode::SRAI | OpCode::LOAD | OpCode::C_LOAD => {
            let (dst, i1) = match reg_tok(s, i) {
                Some(x) => x,
                None => {
                    return None;
                },
            };
            let i2 = match expect_char(s, i1, 44) {
                Some(x) => x,
                None => {
                    return None;
                },
            };
            let (src1, i3) = match reg_tok(s, i2) {
                Some(x) => x,
                None => {
                    return None;
                },
            };
            let i4 = match expect_char(s, i3, 44) {
                Some(x) => x,
                None => {
                    return None;
                },
            };
            let (imm, j) = match lex_immediate(s, i4) {
                Some(x) => x,
                None => {
                    return None;
                },
            };
            Some((InstructionPlaceholder::Immediate { op, dst, src1, imm }, j))
        },
        OpCode::LI | OpCode::BEZ | OpCode::BNZ | OpCode::C_ADDI | OpCode::C_ANDI | OpCode::C_ORI
        | OpCode::C_XORI | OpCode::C_SLLI | OpCode::C_SRLI | OpCode::C_SRAI | OpCode::C_LI
        | OpCode::C_BEZ | OpCode::C_BNZ => {
            let (dst, i1) = match reg_tok(s, i) {
                Some(x) => x,
                None => {
                    return None;
                },
            };
            let i2 = match expect_char(s, i1, 44) {
                Some(x) => x,
                None => {
                    return None;
                },
            };
            let (imm, j) = match lex_immediate(s, i2) {
                Some(x) => x,
                None => {
                    return None;
                },
            };
            Some((InstructionPlaceholder::Immediate { op, dst, src1: dst, imm }, j))
        },
        OpCode::CALL | OpCode::C_CALL => {
            let (imm, j) = match lex_immediate(s, i) {
                Some(x) => x,
                None => {
                    return None;
                },
            };
            Some((InstructionPlaceholder::Immediate { op, dst: 0, src1: 0, imm }, j))
        },
        OpCode::BREAK | OpCode::C_BREAK => Some(
            (
                InstructionPlaceholder::Immediate {
                    op,
                    dst: 0,
                    src1: 0,
                    imm: ImmediatePlaceholder::Value(0),
                },
                i,
            ),
        ),
        OpCode::STORE | OpCode::C_STORE | OpCode::BEQ | OpCode::BNE | OpCode::BLT | OpCode::BGE
        | OpCode::BLT_U | OpCode::BGE_U => {
            let (src1, i1) = match reg_tok(s, i) {
                Some(x) => x,
                None => {
                    return None;
                },
            };
            let i2 = match expect_char(s, i1, 44) {
                Some(x) => x,
                None => {
                    return None;
                },
            };
            let (src2, i3) = match reg_tok(s, i2) {
                Some(x) => x,
                None => {
                    return None;
                },
            };
            let i4 = match expect_char(s, i3, 44) {
                Some(x) => x,
                None => {
                    return None;
                },
            };
            let (imm, j) = match lex_immediate(s, i4) {
                Some(x) => x,
                None => {
                    return None;
                },
            };
            Some((InstructionPlaceholder::Store { op, src1, src2, imm }, j))
        },
        OpCode::LUI | OpCode::C_LUI => {
            let (dst, i1) = match reg_tok(s, i) {
                Some(x) => x,
                None => {
                    return None;
                },
            };
            let i2 = match expect_char(s, i1, 44) {
                Some(x) => x,
                None => {
                    return None;
                },
            };
            let (imm, j) = match lex_immediate(s, i2) {
                Some(x) => x,
                None => {
                    return None;
                },
            };
            Some((InstructionPlaceholder::Upper { op, dst, imm }, j))
        },
    }
}

/// Reads one instruction (or `bytes` literal) per [`spec_instruction`].
pub fn parse_instruction(s: &Vec<u8>, i0: usize) -> (r: Option<(InstructionPlaceholder, usize)>)
    requires
        i0 <= s@.len(),
    ensures
        match r {
            Some((item, j)) => spec_instruction(s@, i0 as int) == Some((item@, j as int)) && j
                <= s@.len(),
            None => spec_instruction(s@, i0 as int) is None,
        },
{
    let (pre, key, suf, j) = match lex_mnemonic(s, i0) {
        Some(x) => x,
        None => {
            return None;
        },
    };
    let is_bytes = !pre && !suf && (match key {
        Some(k) => k == 0x6279746573,
        None => false,
    });
    if is_bytes {
        match lex_string_literal(s, j) {
            Some((content, j2)) => Some((InstructionPlaceholder::StringLiteral(content), j2)),
            None => None,
        }
    } else {
        let op = match mnemonic_opcode_exec(pre, key, suf) {
            Some(op) => op,
            None => {
                return None;
            },
        };
        parse_operands(s, j, op)
    }
}

/// Parses one line per [`spec_parse_line`]: an optional label and an
/// optional instruction, or `None` for a line in no valid form.
pub fn parse_line(line: &Vec<u8>) -> (r: Option<(Option<Vec<u8>>, Option<InstructionPlaceholder>)>)
    ensures
        match r {
            Some((lbl, item)) => spec_parse_line(line@) == Some(
                (
                    match lbl {
                        Some(ref n) => Some(n@),
                        None => Option::<Seq<u8>>::None,
                    },
                    match item {
                        Some(ref it) => Some(it@),
                        None => Option::<ItemSpec>::None,
                    },
                ),
            ),
            None => spec_parse_line(line@) is None,
        },
{
    let i0 = skip_ws_exec(line, 0);
    if i0 == line.len() || line[i0] == 35 {
        return Some((None, None));
    }
    let lbl: Option<(Vec<u8>, usize)> = match lex_ident(line, i0) {
        Some((name, i1)) => match expect_char(line, i1, 58) {
            Some(i2) => Some((name, i2)),
            None => None,
        },
        None => None,
    };
    match lbl {
        Some((name, i)) => match parse_instruction(line, i) {
            Some((item, j)) => {
                if tail_ok(line, j) {
                    Some((Some(name), Some(item)))
                } else {
                    None
                }
            },
            None => {
                if tail_ok(line, i) {
                    Some((Some(name), None))
                } else {
                    None
                }
            },
        },
        None => match parse_instruction(line, i0) {
            Some((item, j)) => {
                if tail_ok(line, j) {
                    Some((None, Some(item)))
                } else {
                    None
                }
            },
            None => None,
        },
    }
}

/// Whether only whitespace or a trailing comment remains.
fn tail_ok(s: &Vec<u8>, j: usize) -> (r: bool)
    requires
        j <= s@.len(),
    ensures
        r == spec_tail_ok(s@, j as int),
{
    let k = skip_ws_exec(s, j);
    k == s.len() || s[k] == 35
}

// ---------------------------------------------------------------------------
// Lines, label resolution and the two passes.
// ---------------------------------------------------------------------------

/// The position of the line feed ending the line that starts at `i` (or the
/// end of the input).
pub open spec fn line_break(src: Seq<u8>, i: int) -> int
    decreases src.len() - i,
{
    if 0 <= i < src.len() && src[i] != 10 {
        line_break(src, i + 1)
    } else {
        i
    }
}

/// A line with one trailing carriage return removed.
pub open spec fn strip_cr(s: Seq<u8>) -> Seq<u8> {
    if s.len() > 0 && s.last() == 13 {
        s.drop_last()
    } else {
        s
    }
}

/// The break position never lies before its start, nor past the end.
pub proof fn lemma_line_break_bounds(src: Seq<u8>, i: int)
    requires
        0 <= i <= src.len(),
    ensures
        i <= line_break(src, i) <= src.len(),
    decreases src.len() - i,
{
    if i < src.len() && src[i] != 10 {
        lemma_line_break_bounds(src, i + 1);
    }
}

/// The input split into lines at line feeds, one trailing carriage return
/// per line removed; no final empty line after a trailing line feed.
pub open spec fn spec_lines_from(src: Seq<u8>, i: int) -> Seq<Seq<u8>>
    decreases src.len() - i,
    via spec_lines_from_decreases
{
    if 0 <= i < src.len() {
        let e = line_break(src, i);
        seq![strip_cr(src.subrange(i, e))] + (if e < src.len() {
            spec_lines_from(src, e + 1)
        } else {
            Seq::empty()
        })
    } else {
        Seq::empty()
    }
}

#[via_fn]
proof fn spec_lines_from_decreases(src: Seq<u8>, i: int) {
    if 0 <= i < src.len() {
        lemma_line_break_bounds(src, i);
    }
}

/// The value an immediate resolves to at assembly position `pos` (the
/// address of the next instruction): a literal stands for itself, `%name`
/// for the label's address, `$name` for that address minus `pos`; a name no
/// label line defines is the error.
pub open spec fn spec_imm_resolve(imm: ImmSpec, labels: Map<Seq<u8>, u32>, pos: u32) -> Result<
    u32,
    Seq<u8>,
> {
    match imm {
        ImmSpec::Value(v) => Ok(v),
        ImmSpec::LabelAbsolute(n) => if labels.contains_key(n) {
            Ok(labels[n])
        } else {
            Err(n)
        },
        ImmSpec::LabelRelative(n) => if labels.contains_key(n) {
            Ok(sub32(labels[n], pos))
        } else {
            Err(n)
        },
    }
}

/// The instruction a placeholder resolves to (raw byte literals resolve to
/// no instruction and are not in this function's domain; they are appended
/// verbatim by the second pass).
pub open spec fn spec_resolve(it: ItemSpec, labels: Map<Seq<u8>, u32>, pos: u32) -> Result<
    Instruction,
    Seq<u8>,
> {
    match it {
        ItemSpec::Register { op, dst, src1, src2 } => Ok(
            Instruction::Register { op, dst, src1, src2 },
        ),
        ItemSpec::Immediate { op, dst, src1, imm } => match spec_imm_resolve(imm, labels, pos) {
            Ok(v) => Ok(Instruction::Immediate { op, dst, src1, imm: v }),
            Err(n) => Err(n),
        },
        ItemSpec::Store { op, src1, src2, imm } => match spec_imm_resolve(imm, labels, pos) {
            Ok(v) => Ok(Instruction::Store { op, src1, src2, imm: v }),
            Err(n) => Err(n),
        },
        ItemSpec::Upper { op, dst, imm } => match spec_imm_resolve(imm, labels, pos) {
            Ok(v) => Ok(Instruction::Upper { op, dst, imm: v }),
            Err(n) => Err(n),
        },
        ItemSpec::Bytes(_) => Err(Seq::empty()),
    }
}

/// The first pass over the lines from index `k`: parse each line, record
/// each label at the running address, keep the instructions in order and
/// advance the address by each one's size (wrapping at 2^32). A line that
/// parses no way is the error, as its 1-based number.
pub open spec fn spec_pass1(
    lines: Seq<Seq<u8>>,
    k: int,
    items: Seq<ItemSpec>,
    labels: Map<Seq<u8>, u32>,
    length: u32,
) -> Result<(Seq<ItemSpec>, Map<Seq<u8>, u32>), int>
    decreases lines.len() - k,
{
    if k < 0 || k >= lines.len() {
        Ok((items, labels))
    } else if lines[k].len() == 0 {
        spec_pass1(lines, k + 1, items, labels, length)
    } else {
        match spec_parse_line(lines[k]) {
            None => Err(k + 1),
            Some((lbl, item)) => {
                let labels2 = match lbl {
                    Some(name) => labels.insert(name, length),
                    None => labels,
                };
                match item {
                    Some(it) => spec_pass1(
                        lines,
                        k + 1,
                        items.push(it),
                        labels2,
                        crate::vm::add32(length, it.spec_size()),
                    ),
                    None => spec_pass1(lines, k + 1, items, labels2, length),
                }
            },
        }
    }
}

/// The second pass from item `k`: advance the address past each item, then
/// append its bytes — the codec encoding of the resolved instruction, or a
/// raw literal verbatim. An unresolved label is the error, as its name.
pub open spec fn spec_pass2(
    items: Seq<ItemSpec>,
    labels: Map<Seq<u8>, u32>,
    k: int,
    length: u32,
    out: Seq<u8>,
) -> Result<Seq<u8>, Seq<u8>>
    decreases items.len() - k,
{
    if k < 0 || k >= items.len() {
        Ok(out)
    } else {
        let it = items[k];
        let length2 = crate::vm::add32(length, it.spec_size());
        match it {
            ItemSpec::Bytes(bs) => spec_pass2(items, labels, k + 1, length2, out + bs),
            _ => match spec_resolve(it, labels, length2) {
                Ok(instr) => spec_pass2(items, labels, k + 1, length2, out + instr.spec_encoding()),
                Err(n) => Err(n),
            },
        }
    }
}

/// What the whole translation denotes: split into lines, collect labels and
/// placeholders, then resolve and encode.
pub open spec fn spec_parse(src: Seq<u8>) -> Result<Seq<u8>, AsmErrSpec> {
    match spec_pass1(spec_lines_from(src, 0), 0, Seq::empty(), Map::empty(), 0) {
        Err(n) => Err(AsmErrSpec::LineError(n)),
        Ok((items, labels)) => match spec_pass2(items, labels, 0, 0, Seq::empty()) {
            Ok(bytes) => Ok(bytes),
            Err(name) => Err(AsmErrSpec::LabelNotFound(name)),
        },
    }
}

/// The view of a placeholder list.
pub open spec fn items_view(s: Seq<InstructionPlaceholder>) -> Seq<ItemSpec> {
    s.map_values(|it: InstructionPlaceholder| it@)
}

impl ImmediatePlaceholder {
    /// Resolves this immediate against the label table at position `pos`.
    fn resolve(&self, labels: &Vec<(Vec<u8>, u32)>, pos: u32) -> (r: Result<u32, AsmError>)
        ensures
            match r {
                Ok(v) => spec_imm_resolve(self@, labels_map(labels@), pos) == Ok::<u32, Seq<u8>>(
                    v,
                ),
                Err(e) => e matches AsmError::LabelNotFound(n) && spec_imm_resolve(
                    self@,
                    labels_map(labels@),
                    pos,
                ) == Err::<u32, Seq<u8>>(n@),
            },
    {
        match *self {
            ImmediatePlaceholder::Value(v) => Ok(v),
            ImmediatePlaceholder::LabelAbsolute(ref n) => match label_lookup(labels, n) {
                Some(v) => Ok(v),
                None => {
                    let c = copy_range(n, 0, n.len());
                    proof {
                        assert(c@ =~= n@);
                    }
                    Err(AsmError::LabelNotFound(c))
                },
            },
            ImmediatePlaceholder::LabelRelative(ref n) => match label_lookup(labels, n) {
                Some(v) => Ok(v.wrapping_sub(pos)),
                None => {
                    let c = copy_range(n, 0, n.len());
                    proof {
                        assert(c@ =~= n@);
                    }
                    Err(AsmError::LabelNotFound(c))
                },
            },
        }
    }
}

impl InstructionPlaceholder {
    /// Resolves this placeholder's label references against the label table
    /// and returns the finished `Instruction`; `pos` is the address of the
    /// next instruction (the running address after this one).
    pub fn into_instr(&self, labels: &Vec<(Vec<u8>, u32)>, pos: u32) -> (r: Result<
        Instruction,
        AsmError,
    >)
        requires
            !(self@ is Bytes),
        ensures
            match r {
                Ok(i) => spec_resolve(self@, labels_map(labels@), pos) == Ok::<
                    Instruction,
                    Seq<u8>,
                >(i),
                Err(e) => e matches AsmError::LabelNotFound(n) && spec_resolve(
                    self@,
                    labels_map(labels@),
                    pos,
                ) == Err::<Instruction, Seq<u8>>(n@),
            },
    {
        match *self {
            InstructionPlaceholder::Register { op, dst, src1, src2 } => Ok(
                Instruction::Register { op, dst, src1, src2 },
            ),
            InstructionPlaceholder::Immediate { op, dst, src1, ref imm } => match imm.resolve(
                labels,
                pos,
            ) {
                Ok(v) => Ok(Instruction::Immediate { op, dst, src1, imm: v }),
                Err(e) => Err(e),
            },
            InstructionPlaceholder::Store { op, src1, src2, ref imm } => match imm.resolve(
                labels,
                pos,
            ) {
                Ok(v) => Ok(Instruction::Store { op, src1, src2, imm: v }),
                Err(e) => Err(e),
            },
            InstructionPlaceholder::Upper { op, dst, ref imm } => match imm.resolve(labels, pos) {
                Ok(v) => Ok(Instruction::Upper { op, dst, imm: v }),
                Err(e) => Err(e),
            },
            InstructionPlaceholder::StringLiteral(_) => Err(AsmError::LineError(0)),
        }
    }
}

/// Splits the input into lines per [`spec_lines_from`].
fn split_lines(src: &Vec<u8>) -> (r: Vec<Vec<u8>>)
    ensures
        r.deep_view() == spec_lines_from(src@, 0),
{
    let mut r: Vec<Vec<u8>> = Vec::new();
    let mut i: usize = 0;
    while i < src.len()
        invariant
            i <= src@.len(),
            r.deep_view() + spec_lines_from(src@, i as int) =~= spec_lines_from(src@, 0),
        decreases src@.len() - i,
    {
        let ghost i0 = i as int;
        let mut e: usize = i;
        while e < src.len() && src[e] != 10
            invariant
                i <= e <= src@.len(),
                line_break(src@, i as int) == line_break(src@, e as int),
            decreases src@.len() - e,
        {
            e = e + 1;
        }
        proof {
            assert(line_break(src@, i0) == e as int);
        }
        let mut line = copy_range(src, i, e);
        if line.len() > 0 && line[line.len() - 1] == 13 {
            line.pop();
            proof {
                assert(line@ =~= strip_cr(src@.subrange(i0, e as int)));
            }
        }
        proof {
            assert(line@ =~= strip_cr(src@.subrange(i0, e as int)));
        }
        let ghost prer = r.deep_view();
        r.push(line);
        proof {
            assert(r.deep_view() =~= prer.push(r@.last().deep_view()));
        }
        if e < src.len() {
            i = e + 1;
        } else {
            i = e;
        }
        proof {
            let tail = if (e as int) < src@.len() {
                spec_lines_from(src@, e + 1)
            } else {
                Seq::<Seq<u8>>::empty()
            };
            if e as int == src@.len() {
                assert(spec_lines_from(src@, i as int) =~= Seq::<Seq<u8>>::empty());
            }
            assert(r@.last().deep_view() =~= r@.last()@);
            assert(spec_lines_from(src@, i0) =~= seq![r@.last().deep_view()] + tail);
            assert(r.deep_view() + spec_lines_from(src@, i as int) =~= prer + spec_lines_from(
                src@,
                i0,
            ));
        }
    }
    proof {
        assert(spec_lines_from(src@, i as int) =~= Seq::<Seq<u8>>::empty());
        assert(r.deep_view() =~= spec_lines_from(src@, 0));
    }
    r
}

/// Translates assembly text to its binary image: records labels at their
/// addresses in a first pass over the lines, then resolves references and
/// encodes in a second. The result is exactly [`spec_parse`] of the text's
/// UTF-8 bytes: either the image, or the first error — an unparsable line by
/// its 1-based number, or an undefined label by its name.
pub fn parse(buf: String) -> (r: Result<Vec<u8>, AsmError>)
    ensures
        match r {
            Ok(bytes) => spec_parse(vstd::utf8::encode_utf8(buf@)) == Ok::<Seq<u8>, AsmErrSpec>(
                bytes@,
            ),
            Err(e) => spec_parse(vstd::utf8::encode_utf8(buf@)) == Err::<Seq<u8>, AsmErrSpec>(e@),
        },
{
    let src = buf.as_str().as_bytes_vec();
    let lines = split_lines(&src);
    let ghost linesv = lines.deep_view();
    proof {
        assert(linesv == spec_lines_from(vstd::utf8::encode_utf8(buf@), 0));
    }

    // Pass 1: parse lines, record labels, keep placeholders in order.
    let mut items: Vec<InstructionPlaceholder> = Vec::new();
    let mut labels: Vec<(Vec<u8>, u32)> = Vec::new();
    let mut length: u32 = 0;
    let mut k: usize = 0;
    proof {
        assert(items_view(items@) =~= Seq::<ItemSpec>::empty());
    }
    while k < lines.len()
        invariant
            k <= linesv.len(),
            linesv == lines.deep_view(),
            linesv == spec_lines_from(vstd::utf8::encode_utf8(buf@), 0),
            spec_pass1(linesv, 0, Seq::empty(), Map::empty(), 0) == spec_pass1(
                linesv,
                k as int,
                items_view(items@),
                labels_map(labels@),
                length,
            ),
        decreases linesv.len() - k,
    {
        let line = &lines[k];
        proof {
            assert(linesv[k as int] == line@);
        }
        if line.len() > 0 {
            match parse_line(line) {
                None => {
                    return Err(AsmError::LineError(k + 1));
                },
                Some((lbl, item)) => {
                    match lbl {
                        Some(name) => {
                            let ghost pre = labels@;
                            labels.push((name, length));
                            proof {
                                assert(labels@.drop_last() =~= pre);
                            }
                        },
                        None => {},
                    }
                    match item {
                        Some(it) => {
                            let sz = it.size();
                            let ghost prei = items@;
                            items.push(it);
                            proof {
                                assert(items@.drop_last() =~= prei);
                                assert(items_view(items@) =~= items_view(prei).push(
                                    items@.last()@,
                                ));
                            }
                            length = length.wrapping_add(sz);
                        },
                        None => {},
                    }
                },
            }
        }
        k = k + 1;
    }

    // Pass 2: resolve labels and encode.
    let mut out: Vec<u8> = Vec::new();
    let ghost itemsv = items_view(items@);
    let ghost labmap = labels_map(labels@);
    let mut length2: u32 = 0;
    let mut k2: usize = 0;
    while k2 < items.len()
        invariant
            k2 <= itemsv.len(),
            itemsv == items_view(items@),
            labmap == labels_map(labels@),
            linesv == spec_lines_from(vstd::utf8::encode_utf8(buf@), 0),
            spec_pass1(linesv, 0, Seq::empty(), Map::empty(), 0) == Ok::<
                (Seq<ItemSpec>, Map<Seq<u8>, u32>),
                int,
            >((itemsv, labmap)),
            spec_pass2(itemsv, labmap, 0, 0, Seq::empty()) == spec_pass2(
                itemsv,
                labmap,
                k2 as int,
                length2,
                out@,
            ),
        decreases itemsv.len() - k2,
    {
        let it = &items[k2];
        proof {
            assert(itemsv[k2 as int] == it@);
        }
        let sz = it.size();
        length2 = length2.wrapping_add(sz);
        match *it {
            InstructionPlaceholder::StringLiteral(ref bs) => {
                append_bytes(&mut out, bs);
            },
            _ => {
                match it.into_instr(&labels, length2) {
                    Ok(instr) => {
                        instr.write_bytes(&mut out);
                    },
                    Err(e) => {
                        return Err(e);
                    },
                }
            },
        }
        k2 = k2 + 1;
    }
    Ok(out)
}

/// Appends the bytes of `src` to `out`.
fn append_bytes(out: &mut Vec<u8>, src: &Vec<u8>)
    ensures
        final(out)@ == old(out)@ + src@,
{
    let n = src.len();
    let mut i: usize = 0;
    while i < n
        invariant
            i <= n,
            n == src@.len(),
            out@ == old(out)@ + src@.take(i as int),
        decreases n - i,
    {
        out.push(src[i]);
        proof {
            assert(old(out)@ + src@.take(i + 1) =~= (old(out)@ + src@.take(i as int)).push(
                src@[i as int],
            ));
        }
        i = i + 1;
    }
    proof {
        assert(old(out)@ + src@.take(n as int) =~= old(out)@ + src@);
    }
}

} // verus!
