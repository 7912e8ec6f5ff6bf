//! # Reading program text
//!
//! The grammar of the program text, one instruction per line. Blanks
//! (spaces, tabs, carriage returns) around a line are ignored, and so are
//! blank lines. A line is `//` and a comment; a name alone; or a name, one
//! space, and its operand: a decimal integer for `set`, `move`, `get` and
//! `put`, a float literal for `set-f`.
use vstd::prelude::*;
use crate::text::{digit_char, int_text, nat_text};
use crate::vm::{CoreOp, StandardOp, StandardProgram};

verus! {

/// What a non-blank line says.
pub enum LineOp {
    /// An instruction without text.
    Plain(StandardOp),
    /// A comment, with its text.
    Comment(Seq<char>),
    /// `set-f`, with the float literal.
    Float(Seq<char>),
}

/// The line at which the text stops following the grammar (0 is the first).
#[derive(Clone, Copy, Debug, PartialEq, Eq)]
pub struct ParseError {
    pub line: usize,
}

pub open spec fn is_blank(c: char) -> bool {
    c == ' ' || c == '\t' || c == '\r'
}

pub open spec fn trim_start(l: Seq<char>) -> Seq<char>
    decreases l.len(),
{
    if l.len() > 0 && is_blank(l[0]) {
        trim_start(l.drop_first())
    } else {
        l
    }
}

pub open spec fn trim_end(l: Seq<char>) -> Seq<char>
    decreases l.len(),
{
    if l.len() > 0 && is_blank(l.last()) {
        trim_end(l.drop_last())
    } else {
        l
    }
}

/// A line without the blanks around it.
pub open spec fn trim(l: Seq<char>) -> Seq<char> {
    trim_end(trim_start(l))
}

/// The index of the first space, or the length when there is none.
pub open spec fn first_space(t: Seq<char>) -> nat
    decreases t.len(),
{
    if t.len() == 0 || t[0] == ' ' {
        0
    } else {
        1 + first_space(t.drop_first())
    }
}

pub open spec fn is_digit(c: char) -> bool {
    '0' as u32 <= c as u32 <= '9' as u32
}

pub open spec fn all_digits(s: Seq<char>) -> bool {
    forall|i: int| 0 <= i < s.len() ==> is_digit(#[trigger] s[i])
}

/// The value of a sequence of decimal digits.
pub open spec fn digits_value(s: Seq<char>) -> int
    decreases s.len(),
{
    if s.len() == 0 {
        0
    } else {
        digits_value(s.drop_last()) * 10 + (s.last() as u32 - '0' as u32)
    }
}

/// A decimal integer: an optional `-` and at least one digit.
pub open spec fn parse_int(s: Seq<char>) -> Option<int> {
    if s.len() > 0 && s[0] == '-' {
        let d = s.drop_first();
        if d.len() > 0 && all_digits(d) {
            Some(-digits_value(d))
        } else {
            None
        }
    } else if s.len() > 0 && all_digits(s) {
        Some(digits_value(s))
    } else {
        None
    }
}

/// The instruction named `word` that takes no operand.
pub open spec fn plain_op(word: Seq<char>) -> Option<StandardOp> {
    if word == "function"@ { Some(StandardOp::CoreOp(CoreOp::Function)) }
    else if word == "call"@ { Some(StandardOp::CoreOp(CoreOp::Call)) }
    else if word == "return"@ { Some(StandardOp::CoreOp(CoreOp::Return)) }
    else if word == "while"@ { Some(StandardOp::CoreOp(CoreOp::While)) }
    else if word == "if"@ { Some(StandardOp::CoreOp(CoreOp::If)) }
    else if word == "else"@ { Some(StandardOp::CoreOp(CoreOp::Else)) }
    else if word == "end"@ { Some(StandardOp::CoreOp(CoreOp::End)) }
    else if word == "where"@ { Some(StandardOp::CoreOp(CoreOp::Where)) }
    else if word == "deref"@ { Some(StandardOp::CoreOp(CoreOp::Deref)) }
    else if word == "refer"@ { Some(StandardOp::CoreOp(CoreOp::Refer)) }
    else if word == "index"@ { Some(StandardOp::CoreOp(CoreOp::Index)) }
    else if word == "nand"@ { Some(StandardOp::CoreOp(CoreOp::BitwiseNand)) }
    else if word == "add"@ { Some(StandardOp::CoreOp(CoreOp::Add)) }
    else if word == "sub"@ { Some(StandardOp::CoreOp(CoreOp::Sub)) }
    else if word == "mul"@ { Some(StandardOp::CoreOp(CoreOp::Mul)) }
    else if word == "div"@ { Some(StandardOp::CoreOp(CoreOp::Div)) }
    else if word == "rem"@ { Some(StandardOp::CoreOp(CoreOp::Rem)) }
    else if word == "gez"@ { Some(StandardOp::CoreOp(CoreOp::IsNonNegative)) }
    else if word == "save"@ { Some(StandardOp::CoreOp(CoreOp::Save)) }
    else if word == "restore"@ { Some(StandardOp::CoreOp(CoreOp::Restore)) }
    else if word == "peek"@ { Some(StandardOp::Peek) }
    else if word == "poke"@ { Some(StandardOp::Poke) }
    else if word == "add-f"@ { Some(StandardOp::Add) }
    else if word == "sub-f"@ { Some(StandardOp::Sub) }
    else if word == "mul-f"@ { Some(StandardOp::Mul) }
    else if word == "div-f"@ { Some(StandardOp::Div) }
    else if word == "rem-f"@ { Some(StandardOp::Rem) }
    else if word == "pow-f"@ { Some(StandardOp::Pow) }
    else if word == "gez-f"@ { Some(StandardOp::IsNonNegative) }
    else if word == "sin"@ { Some(StandardOp::Sin) }
    else if word == "cos"@ { Some(StandardOp::Cos) }
    else if word == "tan"@ { Some(StandardOp::Tan) }
    else if word == "asin"@ { Some(StandardOp::ASin) }
    else if word == "acos"@ { Some(StandardOp::ACos) }
    else if word == "atan"@ { Some(StandardOp::ATan) }
    else if word == "alloc"@ { Some(StandardOp::Alloc) }
    else if word == "free"@ { Some(StandardOp::Free) }
    else if word == "to-int"@ { Some(StandardOp::ToInt) }
    else if word == "to-float"@ { Some(StandardOp::ToFloat) }
    else { None }
}

/// The instruction named `word` with the integer operand `n`.
pub open spec fn int_op(word: Seq<char>, n: isize) -> Option<StandardOp> {
    if word == "set"@ {
        Some(StandardOp::CoreOp(CoreOp::SetReg(n)))
    } else if word == "move"@ {
        Some(StandardOp::CoreOp(CoreOp::Move(n)))
    } else if word == "get"@ {
        Some(StandardOp::CoreOp(CoreOp::Get(n)))
    } else if word == "put"@ {
        Some(StandardOp::CoreOp(CoreOp::Put(n)))
    } else {
        None
    }
}

/// What a line says: `Some(None)` for a blank line, `None` for a line that
/// does not follow the grammar.
pub open spec fn parse_line_spec(l: Seq<char>) -> Option<Option<LineOp>> {
    let t = trim(l);
    if t.len() == 0 {
        Some(None)
    } else if t.len() >= 2 && t[0] == '/' && t[1] == '/' {
        Some(Some(LineOp::Comment(t.skip(2))))
    } else {
        let k = first_space(t);
        let word = t.take(k as int);
        if k == t.len() {
            match plain_op(word) {
                Some(op) => Some(Some(LineOp::Plain(op))),
                None => None,
            }
        } else {
            let rest = t.skip(k as int + 1);
            if word == "set-f"@ {
                Some(Some(LineOp::Float(rest)))
            } else {
                match parse_int(rest) {
                    Some(n) => if isize::MIN <= n <= isize::MAX {
                        match int_op(word, n as isize) {
                            Some(op) => Some(Some(LineOp::Plain(op))),
                            None => None,
                        }
                    } else {
                        None
                    },
                    None => None,
                }
            }
        }
    }
}

/// Whether the instruction `op` is what the line says.
pub open spec fn is_line_op(op: StandardOp, lo: LineOp) -> bool {
    match lo {
        LineOp::Plain(p) => op == p,
        LineOp::Comment(t) => op matches StandardOp::CoreOp(CoreOp::Comment(c)) && c@ == t,
        LineOp::Float(v) => op matches StandardOp::SetFloat(x) && x@ == v,
    }
}

/// The index of the first line break at or after `i`, or the length.
pub open spec fn line_end(s: Seq<char>, i: int) -> int
    decreases s.len() - i,
{
    if i >= s.len() || s[i] == '\n' {
        i
    } else {
        line_end(s, i + 1)
    }
}

/// What the lines of `s` from position `i` on say; `line` is the number of
/// the line that starts at `i`. An error is the number of the first line
/// that does not follow the grammar.
pub open spec fn parse_from(s: Seq<char>, i: int, line: nat) -> Result<Seq<LineOp>, nat>
    decreases s.len() + 1 - i,
    via parse_from_decreases
{
    if i > s.len() || i < 0 {
        Ok(Seq::empty())
    } else {
        let j = line_end(s, i);
        let rest = parse_from(s, j + 1, line + 1);
        match parse_line_spec(s.subrange(i, j)) {
            None => Err(line),
            Some(None) => rest,
            Some(Some(lo)) => match rest {
                Ok(more) => Ok(seq![lo] + more),
                Err(e) => Err(e),
            },
        }
    }
}

/// A line ends at or after its start, and on the text.
pub proof fn lemma_line_end(s: Seq<char>, i: int)
    requires
        0 <= i <= s.len(),
    ensures
        i <= line_end(s, i) <= s.len(),
        line_end(s, i) < s.len() ==> s[line_end(s, i)] == '\n',
    decreases s.len() - i,
{
    if i < s.len() && s[i] != '\n' {
        lemma_line_end(s, i + 1);
    }
}

#[via_fn]
proof fn parse_from_decreases(s: Seq<char>, i: int, line: nat) {
    if 0 <= i <= s.len() {
        lemma_line_end(s, i);
    }
}

/// Whether `ops` is, instruction by instruction, what `los` says.
pub open spec fn are_line_ops(ops: Seq<StandardOp>, los: Seq<LineOp>) -> bool {
    ops.len() == los.len() && forall|k: int| 0 <= k < ops.len() ==> is_line_op(#[trigger] ops[k], los[k])
}

/// Relies on `str::chars`: the characters of a string, in order.
#[verifier::external_body]
fn chars_of(s: &str) -> (r: Vec<char>)
    ensures
        r@ == s@,
{
    s.chars().collect()
}

/// Relies on `String`'s `FromIterator<char>`: the string of the characters
/// of `v`, in order.
#[verifier::external_body]
fn string_of(v: Vec<char>) -> (r: String)
    ensures
        r@ == v@,
{
    v.into_iter().collect()
}

/// The string of the characters `v[from..to]`.
fn substring(v: &Vec<char>, from: usize, to: usize) -> (r: String)
    requires
        from <= to <= v.len(),
    ensures
        r@ == v@.subrange(from as int, to as int),
{
    let mut part: Vec<char> = Vec::new();
    let mut i = from;
    while i < to
        invariant
            from <= i <= to <= v.len(),
            part@ == v@.subrange(from as int, i as int),
        decreases to - i,
    {
        part.push(v[i]);
        i = i + 1;
        assert(part@ =~= v@.subrange(from as int, i as int));
    }
    string_of(part)
}

fn is_blank_char(c: char) -> (r: bool)
    ensures
        r == is_blank(c),
{
    c == ' ' || c == '\t' || c == '\r'
}

/// The bounds of `v[from..to]` without the blanks around it.
fn trim_bounds(v: &Vec<char>, from: usize, to: usize) -> (r: (usize, usize))
    requires
        from <= to <= v.len(),
    ensures
        from <= r.0 <= r.1 <= to,
        v@.subrange(r.0 as int, r.1 as int) == trim(v@.subrange(from as int, to as int)),
{
    let mut a = from;
    while a < to && is_blank_char(v[a])
        invariant
            from <= a <= to <= v.len(),
            trim_start(v@.subrange(from as int, to as int)) == trim_start(
                v@.subrange(a as int, to as int),
            ),
        decreases to - a,
    {
        assert(v@.subrange(a as int, to as int).drop_first() =~= v@.subrange(a + 1, to as int));
        a = a + 1;
    }
    assert(trim_start(v@.subrange(a as int, to as int)) == v@.subrange(a as int, to as int));
    let mut b = to;
    while b > a && is_blank_char(v[b - 1])
        invariant
            from <= a <= b <= to <= v.len(),
            trim_end(v@.subrange(a as int, to as int)) == trim_end(v@.subrange(a as int, b as int)),
        decreases b - a,
    {
        assert(v@.subrange(a as int, b as int).drop_last() =~= v@.subrange(a as int, b - 1));
        b = b - 1;
    }
    assert(trim_end(v@.subrange(a as int, b as int)) == v@.subrange(a as int, b as int));
    (a, b)
}

/// Whether `v[from..to]` is the literal `lit`.
fn seg_is(v: &Vec<char>, from: usize, to: usize, lit: &str) -> (r: bool)
    requires
        from <= to <= v.len(),
    ensures
        r == (v@.subrange(from as int, to as int) == lit@),
{
    let n = lit.unicode_len();
    if to - from != n {
        return false;
    }
    let mut i: usize = 0;
    while i < n
        invariant
            i <= n,
            n == lit@.len(),
            to - from == n,
            from <= to <= v.len(),
            forall|j: int| 0 <= j < i ==> v@[from + j] == lit@[j],
        decreases n - i,
    {
        if v[from + i] != lit.get_char(i) {
            assert(v@.subrange(from as int, to as int)[i as int] != lit@[i as int]);
            return false;
        }
        i = i + 1;
    }
    assert(v@.subrange(from as int, to as int) =~= lit@);
    true
}

/// The instruction named `v[from..to]` that takes no operand.
fn plain_op_of(v: &Vec<char>, from: usize, to: usize) -> (r: Option<StandardOp>)
    requires
        from <= to <= v.len(),
    ensures
        r == plain_op(v@.subrange(from as int, to as int)),
{
    if seg_is(v, from, to, "function") { Some(StandardOp::CoreOp(CoreOp::Function)) }
    else if seg_is(v, from, to, "call") { Some(StandardOp::CoreOp(CoreOp::Call)) }
    else if seg_is(v, from, to, "return") { Some(StandardOp::CoreOp(CoreOp::Return)) }
    else if seg_is(v, from, to, "while") { Some(StandardOp::CoreOp(CoreOp::While)) }
    else if seg_is(v, from, to, "if") { Some(StandardOp::CoreOp(CoreOp::If)) }
    else if seg_is(v, from, to, "else") { Some(StandardOp::CoreOp(CoreOp::Else)) }
    else if seg_is(v, from, to, "end") { Some(StandardOp::CoreOp(CoreOp::End)) }
    else if seg_is(v, from, to, "where") { Some(StandardOp::CoreOp(CoreOp::Where)) }
    else if seg_is(v, from, to, "deref") { Some(StandardOp::CoreOp(CoreOp::Deref)) }
    else if seg_is(v, from, to, "refer") { Some(StandardOp::CoreOp(CoreOp::Refer)) }
    else if seg_is(v, from, to, "index") { Some(StandardOp::CoreOp(CoreOp::Index)) }
    else if seg_is(v, from, to, "nand") { Some(StandardOp::CoreOp(CoreOp::BitwiseNand)) }
    else if seg_is(v, from, to, "add") { Some(StandardOp::CoreOp(CoreOp::Add)) }
    else if seg_is(v, from, to, "sub") { Some(StandardOp::CoreOp(CoreOp::Sub)) }
    else if seg_is(v, from, to, "mul") { Some(StandardOp::CoreOp(CoreOp::Mul)) }
    else if seg_is(v, from, to, "div") { Some(StandardOp::CoreOp(CoreOp::Div)) }
    else if seg_is(v, from, to, "rem") { Some(StandardOp::CoreOp(CoreOp::Rem)) }
    else if seg_is(v, from, to, "gez") { Some(StandardOp::CoreOp(CoreOp::IsNonNegative)) }
    else if seg_is(v, from, to, "save") { Some(StandardOp::CoreOp(CoreOp::Save)) }
    else if seg_is(v, from, to, "restore") { Some(StandardOp::CoreOp(CoreOp::Restore)) }
    else if seg_is(v, from, to, "peek") { Some(StandardOp::Peek) }
    else if seg_is(v, from, to, "poke") { Some(StandardOp::Poke) }
    else if seg_is(v, from, to, "add-f") { Some(StandardOp::Add) }
    else if seg_is(v, from, to, "sub-f") { Some(StandardOp::Sub) }
    else if seg_is(v, from, to, "mul-f") { Some(StandardOp::Mul) }
    else if seg_is(v, from, to, "div-f") { Some(StandardOp::Div) }
    else if seg_is(v, from, to, "rem-f") { Some(StandardOp::Rem) }
    else if seg_is(v, from, to, "pow-f") { Some(StandardOp::Pow) }
    else if seg_is(v, from, to, "gez-f") { Some(StandardOp::IsNonNegative) }
    else if seg_is(v, from, to, "sin") { Some(StandardOp::Sin) }
    else if seg_is(v, from, to, "cos") { Some(StandardOp::Cos) }
    else if seg_is(v, from, to, "tan") { Some(StandardOp::Tan) }
    else if seg_is(v, from, to, "asin") { Some(StandardOp::ASin) }
    else if seg_is(v, from, to, "acos") { Some(StandardOp::ACos) }
    else if seg_is(v, from, to, "atan") { Some(StandardOp::ATan) }
    else if seg_is(v, from, to, "alloc") { Some(StandardOp::Alloc) }
    else if seg_is(v, from, to, "free") { Some(StandardOp::Free) }
    else if seg_is(v, from, to, "to-int") { Some(StandardOp::ToInt) }
    else if seg_is(v, from, to, "to-float") { Some(StandardOp::ToFloat) }
    else { None }
}

/// The instruction named `v[from..to]` with the integer operand `n`.
fn int_op_of(v: &Vec<char>, from: usize, to: usize, n: isize) -> (r: Option<StandardOp>)
    requires
        from <= to <= v.len(),
    ensures
        r == int_op(v@.subrange(from as int, to as int), n),
{
    if seg_is(v, from, to, "set") {
        Some(StandardOp::CoreOp(CoreOp::SetReg(n)))
    } else if seg_is(v, from, to, "move") {
        Some(StandardOp::CoreOp(CoreOp::Move(n)))
    } else if seg_is(v, from, to, "get") {
        Some(StandardOp::CoreOp(CoreOp::Get(n)))
    } else if seg_is(v, from, to, "put") {
        Some(StandardOp::CoreOp(CoreOp::Put(n)))
    } else {
        None
    }
}

proof fn lemma_digits_nonneg(s: Seq<char>)
    requires
        all_digits(s),
    ensures
        0 <= digits_value(s),
    decreases s.len(),
{
    if s.len() > 0 {
        assert(all_digits(s.drop_last()));
        lemma_digits_nonneg(s.drop_last());
        assert(is_digit(s[s.len() - 1]));
    }
}

proof fn lemma_digits_grow(s: Seq<char>, k: int)
    requires
        all_digits(s),
        0 <= k <= s.len(),
    ensures
        digits_value(s.take(k)) <= digits_value(s),
    decreases s.len() - k,
{
    if k < s.len() {
        lemma_digits_grow(s, k + 1);
        assert(s.take(k + 1).drop_last() =~= s.take(k));
        assert(all_digits(s.take(k)));
        lemma_digits_nonneg(s.take(k));
        assert(is_digit(s[k]));
    } else {
        assert(s.take(k) =~= s);
    }
}

/// The integer `v[from..to]`, if it is one and fits an `isize`.
fn parse_isize(v: &Vec<char>, from: usize, to: usize) -> (r: Option<isize>)
    requires
        from <= to <= v.len(),
    ensures
        r == match parse_int(v@.subrange(from as int, to as int)) {
            Some(n) => if isize::MIN <= n <= isize::MAX {
                Some(n as isize)
            } else {
                None
            },
            None => None,
        },
{
    let ghost s = v@.subrange(from as int, to as int);
    if from == to {
        return None;
    }
    let negative = v[from] == '-';
    assert(s[0] == v@[from as int]);
    let start = if negative { from + 1 } else { from };
    let ghost d = v@.subrange(start as int, to as int);
    assert(negative ==> d =~= s.drop_first());
    assert(!negative ==> d =~= s);
    if start == to {
        return None;
    }
    let mut acc: i128 = 0;
    let mut i = start;
    while i < to
        invariant
            start <= i <= to <= v.len(),
            from < to,
            s == v@.subrange(from as int, to as int),
            s[0] == v@[from as int],
            negative == (v@[from as int] == '-'),
            negative ==> d == s.drop_first(),
            !negative ==> d == s,
            d == v@.subrange(start as int, to as int),
            all_digits(d.take(i - start)),
            acc as int == digits_value(d.take(i - start)),
            0 <= acc <= 0x8000_0000_0000_0000,
        decreases to - i,
    {
        let c = v[i];
        if !((c as u32) >= ('0' as u32) && (c as u32) <= ('9' as u32)) {
            assert(!is_digit(d[i - start]));
            assert(!all_digits(d));
            return None;
        }
        proof {
            assert(d.take(i + 1 - start).drop_last() =~= d.take(i - start));
            assert(all_digits(d.take(i + 1 - start)));
        }
        acc = acc * 10 + ((c as u32) - ('0' as u32)) as i128;
        if acc > 0x8000_0000_0000_0000 {
            proof {
                if all_digits(d) {
                    lemma_digits_grow(d, i + 1 - start);
                    assert(digits_value(d) > 0x8000_0000_0000_0000);
                }
            }
            return None;
        }
        i = i + 1;
    }
    assert(d.take(to - start) =~= d);
    let value: i128 = if negative { 0 - acc } else { acc };
    if isize::MIN as i128 <= value && value <= isize::MAX as i128 {
        Some(value as isize)
    } else {
        None
    }
}

/// The index of the first space in `v[from..to]`, or `to`.
fn first_space_of(v: &Vec<char>, from: usize, to: usize) -> (r: usize)
    requires
        from <= to <= v.len(),
    ensures
        from <= r <= to,
        r - from == first_space(v@.subrange(from as int, to as int)),
{
    let mut k = from;
    while k < to && v[k] != ' '
        invariant
            from <= k <= to <= v.len(),
            first_space(v@.subrange(from as int, to as int)) == (k - from) + first_space(
                v@.subrange(k as int, to as int),
            ),
        decreases to - k,
    {
        assert(v@.subrange(k as int, to as int).drop_first() =~= v@.subrange(k + 1, to as int));
        k = k + 1;
    }
    k
}

/// Read the line `v[from..to]`.
fn parse_line(v: &Vec<char>, from: usize, to: usize) -> (r: Result<Option<StandardOp>, ()>)
    requires
        from <= to <= v.len(),
    ensures
        match parse_line_spec(v@.subrange(from as int, to as int)) {
            None => r is Err,
            Some(None) => r == Ok::<Option<StandardOp>, ()>(None),
            Some(Some(lo)) => r matches Ok(Some(op)) && is_line_op(op, lo),
        },
{
    let (a, b) = trim_bounds(v, from, to);
    let ghost t = v@.subrange(a as int, b as int);
    if a == b {
        return Ok(None);
    }
    if b - a >= 2 && v[a] == '/' && v[a + 1] == '/' {
        let text = substring(v, a + 2, b);
        assert(text@ =~= t.skip(2));
        return Ok(Some(StandardOp::CoreOp(CoreOp::Comment(text))));
    }
    let k = first_space_of(v, a, b);
    assert(v@.subrange(a as int, k as int) =~= t.take(k - a));
    if k == b {
        return match plain_op_of(v, a, k) {
            Some(op) => Ok(Some(op)),
            None => Err(()),
        };
    }
    assert(v@.subrange(k + 1, b as int) =~= t.skip(k - a + 1));
    if seg_is(v, a, k, "set-f") {
        let literal = substring(v, k + 1, b);
        return Ok(Some(StandardOp::SetFloat(literal)));
    }
    match parse_isize(v, k + 1, b) {
        Some(n) => match int_op_of(v, a, k, n) {
            Some(op) => Ok(Some(op)),
            None => Err(()),
        },
        None => Err(()),
    }
}

/// Read a program from its text. An error gives the number of the first
/// line (counting from 0) that does not follow the grammar.
pub fn parse_program(text: &str) -> (r: Result<StandardProgram, ParseError>)
    ensures
        match parse_from(text@, 0, 0) {
            Ok(los) => r matches Ok(p) && are_line_ops(p@, los),
            Err(line) => r == Err::<StandardProgram, ParseError>(ParseError { line: line as usize }),
        },
{
    let v = chars_of(text);
    let mut ops: Vec<StandardOp> = Vec::new();
    let ghost mut done: Seq<LineOp> = Seq::empty();
    let ghost mut pos: int = 0;
    let mut i: usize = 0;
    let mut line: usize = 0;
    let mut more = true;
    while more
        invariant
            v@ == text@,
            more ==> pos == i && i <= v.len() && line <= i,
            !more ==> pos == v.len() + 1,
            0 <= pos <= v.len() + 1,
            are_line_ops(ops@, done),
            parse_from(v@, 0, 0) == match parse_from(v@, pos, line as nat) {
                Ok(more) => Ok(done + more),
                Err(e) => Err::<Seq<LineOp>, nat>(e),
            },
        decreases v.len() + 1 - pos + (if more { 1int } else { 0int }),
    {
        let mut j = i;
        while j < v.len() && v[j] != '\n'
            invariant
                i <= j <= v.len(),
                line_end(v@, i as int) == line_end(v@, j as int),
            decreases v.len() - j,
        {
            j = j + 1;
        }
        assert(line_end(v@, j as int) == j);
        let ghost rest = parse_from(v@, j + 1, (line + 1) as nat);
        assert(parse_from(v@, i as int, line as nat) == match parse_line_spec(
            v@.subrange(i as int, j as int),
        ) {
            None => Err(line as nat),
            Some(None) => rest,
            Some(Some(lo)) => match rest {
                Ok(m) => Ok(seq![lo] + m),
                Err(e) => Err(e),
            },
        });
        match parse_line(&v, i, j) {
            Err(()) => {
                return Err(ParseError { line });
            },
            Ok(None) => {},
            Ok(Some(op)) => {
                let ghost lo = parse_line_spec(v@.subrange(i as int, j as int))->Some_0->Some_0;
                proof {
                    assert(done.push(lo) =~= done + seq![lo]);
                    if rest is Ok {
                        assert(done + (seq![lo] + rest->Ok_0) =~= (done + seq![lo]) + rest->Ok_0);
                    }
                }
                ops.push(op);
                proof {
                    done = done.push(lo);
                }
            },
        }
        proof {
            pos = j + 1;
        }
        proof {
            if j == v.len() {
                assert(parse_from(v@, pos, line as nat) == Ok::<Seq<LineOp>, nat>(Seq::empty()));
                assert(rest == Ok::<Seq<LineOp>, nat>(Seq::empty()));
            }
        }
        if j == v.len() {
            more = false;
        } else {
            i = j + 1;
            line = line + 1;
        }
    }
    assert(parse_from(v@, pos, line as nat) == Ok::<Seq<LineOp>, nat>(Seq::empty()));
    assert(done + Seq::<LineOp>::empty() =~= done);
    Ok(StandardProgram(ops))
}

/// A digit character reads back as its value.
proof fn lemma_digit_value(d: nat)
    requires
        d < 10,
    ensures
        is_digit(digit_char(d)),
        digit_char(d) as u32 - '0' as u32 == d,
        digit_char(d) != '-',
{
    assert('0' as u32 == 48);
    assert('9' as u32 == 57);
    if d == 0 { assert('0' as u32 == 48); }
    else if d == 1 { assert('1' as u32 == 49); }
    else if d == 2 { assert('2' as u32 == 50); }
    else if d == 3 { assert('3' as u32 == 51); }
    else if d == 4 { assert('4' as u32 == 52); }
    else if d == 5 { assert('5' as u32 == 53); }
    else if d == 6 { assert('6' as u32 == 54); }
    else if d == 7 { assert('7' as u32 == 55); }
    else if d == 8 { assert('8' as u32 == 56); }
    else { assert('9' as u32 == 57); }
}

/// The digits of a numeral read back as its value.
pub proof fn lemma_nat_text_reads_back(n: nat)
    ensures
        nat_text(n).len() > 0,
        all_digits(nat_text(n)),
        digits_value(nat_text(n)) == n,
        nat_text(n)[0] != '-',
    decreases n,
{
    if n < 10 {
        lemma_digit_value(n);
        assert(nat_text(n) == seq![digit_char(n)]);
        assert(nat_text(n).drop_last() =~= Seq::<char>::empty());
        assert(digits_value(Seq::<char>::empty()) == 0);
        assert(digits_value(nat_text(n)) == digits_value(nat_text(n).drop_last()) * 10 + (
        nat_text(n).last() as u32 - '0' as u32));
        assert(all_digits(nat_text(n)));
    } else {
        lemma_digit_value(n % 10);
        lemma_nat_text_reads_back(n / 10);
        let s = nat_text(n);
        assert(s == nat_text(n / 10).push(digit_char(n % 10)));
        assert(s.drop_last() =~= nat_text(n / 10));
        assert forall|i: int| 0 <= i < s.len() implies is_digit(#[trigger] s[i]) by {
            if i < s.len() - 1 {
                assert(s[i] == nat_text(n / 10)[i]);
            }
        }
        assert(n == (n / 10) * 10 + n % 10) by (nonlinear_arith);
        assert(s.last() == digit_char(n % 10));
        assert(digits_value(s) == digits_value(s.drop_last()) * 10 + (s.last() as u32 - '0' as u32));
        assert(s[0] == nat_text(n / 10)[0]);
    }
}

/// A numeral reads back as the integer it was written from.
pub proof fn lemma_int_text_reads_back(n: int)
    ensures
        parse_int(int_text(n)) == Some(n),
{
    if n < 0 {
        lemma_nat_text_reads_back((-n) as nat);
        let s = int_text(n);
        assert(s.drop_first() =~= nat_text((-n) as nat));
    } else {
        lemma_nat_text_reads_back(n as nat);
    }
}

} // verus!
