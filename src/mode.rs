//! The permission algebra: chmod-style mode strings applied to permission bits.
use vstd::prelude::*;

verus! {

/// A mode string that does not follow the grammar.
#[derive(Debug, Clone, Copy, PartialEq, Eq)]
pub struct InvalidMode;

/// Owner read, write, execute and setuid.
pub const OWNER_BITS: u32 = 0o4700;

/// Group read, write, execute and setgid.
pub const GROUP_BITS: u32 = 0o2070;

/// Other read, write, execute and sticky.
pub const OTHER_BITS: u32 = 0o1007;

/// Every permission bit, special bits included.
pub const ALL_BITS: u32 = 0o7777;

/// The three execute bits.
pub const EXEC_BITS: u32 = 0o111;

pub open spec fn is_octal_digit(c: char) -> bool {
    '0' <= c && c <= '7'
}

pub open spec fn is_operator(c: char) -> bool {
    c == '=' || c == '+' || c == '-'
}

pub open spec fn all_octal(s: Seq<char>) -> bool {
    forall|i: int| 0 <= i < s.len() ==> is_octal_digit(#[trigger] s[i])
}

/// The number that a string of octal digits denotes.
pub open spec fn octal_value(s: Seq<char>) -> nat
    decreases s.len(),
{
    if s.len() == 0 {
        0
    } else {
        octal_value(s.drop_last()) * 8 + ((s.last() as int - '0' as int) as nat)
    }
}

/// A non-empty string of octal digits whose value fits in 32 bits.
pub open spec fn octal_u32(s: Seq<char>) -> Option<u32> {
    if s.len() > 0 && all_octal(s) && octal_value(s) <= u32::MAX {
        Some(octal_value(s) as u32)
    } else {
        None
    }
}

/// The position of the first character of `s` that is in `stops`, or the length.
pub open spec fn first_in(s: Seq<char>, stops: Set<char>) -> nat
    decreases s.len(),
{
    if s.len() == 0 {
        0
    } else if stops.contains(s[0]) {
        0
    } else {
        1 + first_in(s.drop_first(), stops)
    }
}

pub open spec fn operators() -> Set<char> {
    set!['=', '+', '-']
}

pub open spec fn commas() -> Set<char> {
    set![',']
}

/// The bits that one class letter selects.
pub open spec fn class_letter(c: char) -> Option<u32> {
    if c == 'u' {
        Some(OWNER_BITS)
    } else if c == 'g' {
        Some(GROUP_BITS)
    } else if c == 'o' {
        Some(OTHER_BITS)
    } else if c == 'a' {
        Some(ALL_BITS)
    } else {
        None
    }
}

/// The union of the bits that a run of class letters selects.
pub open spec fn class_mask(s: Seq<char>) -> Option<u32>
    decreases s.len(),
{
    if s.len() == 0 {
        Some(0)
    } else {
        match (class_mask(s.drop_last()), class_letter(s.last())) {
            (Some(a), Some(b)) => Some(a | b),
            _ => None,
        }
    }
}

/// The bits that one permission letter stands for; `x_on` says whether `X`
/// grants execute.
pub open spec fn perm_letter(c: char, x_on: bool) -> Option<u32> {
    if c == 'r' {
        Some(0o444)
    } else if c == 'w' {
        Some(0o222)
    } else if c == 'x' {
        Some(EXEC_BITS)
    } else if c == 'X' {
        Some(if x_on { EXEC_BITS } else { 0 })
    } else if c == 's' {
        Some(0o6000)
    } else if c == 't' {
        Some(0o1000)
    } else {
        None
    }
}

/// The union of the bits that a run of permission letters stands for.
pub open spec fn perm_bits(s: Seq<char>, x_on: bool) -> Option<u32>
    decreases s.len(),
{
    if s.len() == 0 {
        Some(0)
    } else {
        match (perm_bits(s.drop_last(), x_on), perm_letter(s.last(), x_on)) {
            (Some(a), Some(b)) => Some(a | b),
            _ => None,
        }
    }
}

/// What an operator does to `bits` with the selected permission bits `sel`.
pub open spec fn combine(op: char, bits: u32, mask: u32, sel: u32) -> u32 {
    if op == '=' {
        (bits & !mask) | sel
    } else if op == '+' {
        bits | sel
    } else {
        bits & !sel
    }
}

/// One symbolic clause (`[ugoa]*[=+-][rwxXst]*`) applied to `bits`.
/// Without class letters the clause selects every bit that the umask lets
/// through; `X` grants execute when `bits` already has an execute bit or the
/// target is of an executable class.
pub open spec fn clause_result(bits: u32, c: Seq<char>, exec: bool, umask: u32) -> Option<u32> {
    let k = first_in(c, operators());
    if k >= c.len() {
        None
    } else {
        let x_on = (bits & EXEC_BITS) != 0 || exec;
        match (class_mask(c.subrange(0, k as int)), perm_bits(c.subrange(k + 1int, c.len() as int), x_on)) {
            (Some(cm), Some(pb)) => {
                let mask = if k == 0 { ALL_BITS & !umask } else { cm };
                Some(combine(c[k as int], bits, mask, pb & mask))
            },
            _ => None,
        }
    }
}

/// A comma-separated list of clauses, applied in order to the running bits.
pub open spec fn clauses_result(bits: u32, s: Seq<char>, exec: bool, umask: u32) -> Option<u32>
    decreases s.len(),
{
    let k = first_in(s, commas());
    match clause_result(bits, s.subrange(0, k as int), exec, umask) {
        None => None,
        Some(b) => if k >= s.len() {
            Some(b)
        } else {
            clauses_result(b, s.subrange(k + 1int, s.len() as int), exec, umask)
        },
    }
}

/// The bits that mode string `s` gives when applied to `bits`:
/// plain octal digits are an absolute value under the umask; `=`, `+` or `-`
/// before octal digits set, add or remove that raw value; anything else is a
/// list of symbolic clauses.
pub open spec fn mode_result(bits: u32, s: Seq<char>, exec: bool, umask: u32) -> Result<u32, InvalidMode> {
    if s.len() > 0 && is_octal_digit(s[0]) {
        match octal_u32(s) {
            Some(v) => Ok(v & !umask),
            None => Err(InvalidMode),
        }
    } else if s.len() > 1 && is_operator(s[0]) && is_octal_digit(s[1]) {
        match octal_u32(s.drop_first()) {
            Some(v) => Ok(
                if s[0] == '=' {
                    v
                } else if s[0] == '+' {
                    bits | v
                } else {
                    bits & !v
                },
            ),
            None => Err(InvalidMode),
        }
    } else {
        match clauses_result(bits, s, exec, umask) {
            Some(v) => Ok(v),
            None => Err(InvalidMode),
        }
    }
}

proof fn lemma_first_in(s: Seq<char>, stops: Set<char>, j: int)
    requires
        0 <= j <= s.len(),
        forall|i: int| 0 <= i < j ==> !stops.contains(#[trigger] s[i]),
        j == s.len() || stops.contains(s[j]),
    ensures
        first_in(s, stops) == j,
    decreases j,
{
    if j > 0 {
        assert forall|i: int| 0 <= i < j - 1 implies !stops.contains(#[trigger] s.drop_first()[i]) by {
            assert(s.drop_first()[i] == s[i + 1]);
        }
        lemma_first_in(s.drop_first(), stops, j - 1);
    }
}

proof fn lemma_octal_prefix_le(t: Seq<char>, j: int)
    requires
        0 <= j <= t.len(),
    ensures
        octal_value(t.subrange(0, j)) <= octal_value(t),
    decreases t.len(),
{
    if j < t.len() {
        assert(t.drop_last().subrange(0, j) =~= t.subrange(0, j));
        lemma_octal_prefix_le(t.drop_last(), j);
    } else {
        assert(t.subrange(0, j) =~= t);
    }
}

/// Finds the first comma of `s[start..end]`.
fn scan_until_comma(s: &str, start: usize, end: usize) -> (j: usize)
    requires
        start <= end <= s@.len(),
    ensures
        start <= j <= end,
        j - start == first_in(s@.subrange(start as int, end as int), commas()),
{
    let mut j: usize = start;
    while j < end && s.get_char(j) != ','
        invariant
            start <= j <= end,
            end <= s@.len(),
            forall|i: int| start <= i < j ==> s@[i] != ',',
        decreases end - j,
    {
        j = j + 1;
    }
    proof {
        let t = s@.subrange(start as int, end as int);
        lemma_first_in(t, commas(), j - start);
    }
    j
}

/// Finds the first operator character of `s[start..end]`.
fn scan_until_operator(s: &str, start: usize, end: usize) -> (j: usize)
    requires
        start <= end <= s@.len(),
    ensures
        start <= j <= end,
        j - start == first_in(s@.subrange(start as int, end as int), operators()),
{
    let mut j: usize = start;
    while j < end && !is_operator_char(s.get_char(j))
        invariant
            start <= j <= end,
            end <= s@.len(),
            forall|i: int| start <= i < j ==> !is_operator(s@[i]),
        decreases end - j,
    {
        j = j + 1;
    }
    proof {
        let t = s@.subrange(start as int, end as int);
        lemma_first_in(t, operators(), j - start);
    }
    j
}

fn is_operator_char(c: char) -> (r: bool)
    ensures
        r == is_operator(c),
{
    c == '=' || c == '+' || c == '-'
}

fn is_octal_char(c: char) -> (r: bool)
    ensures
        r == is_octal_digit(c),
{
    '0' <= c && c <= '7'
}

/// Reads `s[start..end]` as octal digits.
fn parse_octal(s: &str, start: usize, end: usize) -> (r: Option<u32>)
    requires
        start <= end <= s@.len(),
    ensures
        r == octal_u32(s@.subrange(start as int, end as int)),
{
    let ghost t = s@.subrange(start as int, end as int);
    if start == end {
        return None;
    }
    let mut acc: u32 = 0;
    let mut i: usize = start;
    while i < end
        invariant
            start <= i <= end,
            end <= s@.len(),
            t == s@.subrange(start as int, end as int),
            all_octal(s@.subrange(start as int, i as int)),
            acc as nat == octal_value(s@.subrange(start as int, i as int)),
        decreases end - i,
    {
        let c = s.get_char(i);
        let ghost p = s@.subrange(start as int, i as int + 1);
        assert(p.drop_last() =~= s@.subrange(start as int, i as int));
        assert(t[i - start] == c);
        if !is_octal_char(c) {
            return None;
        }
        let d: u32 = (c as u32) - ('0' as u32);
        if acc > 0x1fff_ffff {
            proof {
                assert(t.subrange(0, i - start + 1) =~= p);
                lemma_octal_prefix_le(t, i - start + 1);
            }
            return None;
        }
        acc = acc * 8 + d;
        assert(all_octal(p));
        i = i + 1;
    }
    assert(s@.subrange(start as int, i as int) =~= t);
    Some(acc)
}

fn class_letter_bits(c: char) -> (r: Option<u32>)
    ensures
        r == class_letter(c),
{
    if c == 'u' {
        Some(OWNER_BITS)
    } else if c == 'g' {
        Some(GROUP_BITS)
    } else if c == 'o' {
        Some(OTHER_BITS)
    } else if c == 'a' {
        Some(ALL_BITS)
    } else {
        None
    }
}

fn perm_letter_bits(c: char, x_on: bool) -> (r: Option<u32>)
    ensures
        r == perm_letter(c, x_on),
{
    if c == 'r' {
        Some(0o444)
    } else if c == 'w' {
        Some(0o222)
    } else if c == 'x' {
        Some(EXEC_BITS)
    } else if c == 'X' {
        Some(if x_on { EXEC_BITS } else { 0 })
    } else if c == 's' {
        Some(0o6000)
    } else if c == 't' {
        Some(0o1000)
    } else {
        None
    }
}

fn class_mask_of(s: &str, start: usize, end: usize) -> (r: Option<u32>)
    requires
        start <= end <= s@.len(),
    ensures
        r == class_mask(s@.subrange(start as int, end as int)),
{
    let mut acc: u32 = 0;
    let mut i: usize = start;
    while i < end
        invariant
            start <= i <= end,
            end <= s@.len(),
            class_mask(s@.subrange(start as int, i as int)) == Some(acc),
        decreases end - i,
    {
        let c = s.get_char(i);
        let ghost p = s@.subrange(start as int, i as int + 1);
        assert(p.drop_last() =~= s@.subrange(start as int, i as int));
        match class_letter_bits(c) {
            Some(b) => {
                acc = acc | b;
            },
            None => {
                proof { lemma_class_mask_fails(s@.subrange(start as int, end as int), i - start + 1); }
                assert(s@.subrange(start as int, end as int).subrange(0, i - start + 1) =~= p);
                return None;
            },
        }
        i = i + 1;
    }
    Some(acc)
}

fn perm_bits_of(s: &str, start: usize, end: usize, x_on: bool) -> (r: Option<u32>)
    requires
        start <= end <= s@.len(),
    ensures
        r == perm_bits(s@.subrange(start as int, end as int), x_on),
{
    let mut acc: u32 = 0;
    let mut i: usize = start;
    while i < end
        invariant
            start <= i <= end,
            end <= s@.len(),
            perm_bits(s@.subrange(start as int, i as int), x_on) == Some(acc),
        decreases end - i,
    {
        let c = s.get_char(i);
        let ghost p = s@.subrange(start as int, i as int + 1);
        assert(p.drop_last() =~= s@.subrange(start as int, i as int));
        match perm_letter_bits(c, x_on) {
            Some(b) => {
                acc = acc | b;
            },
            None => {
                proof { lemma_perm_bits_fails(s@.subrange(start as int, end as int), i - start + 1, x_on); }
                assert(s@.subrange(start as int, end as int).subrange(0, i - start + 1) =~= p);
                return None;
            },
        }
        i = i + 1;
    }
    Some(acc)
}

proof fn lemma_class_mask_fails(t: Seq<char>, j: int)
    requires
        0 <= j <= t.len(),
        class_mask(t.subrange(0, j)) is None,
    ensures
        class_mask(t) is None,
    decreases t.len(),
{
    if j < t.len() {
        assert(t.drop_last().subrange(0, j) =~= t.subrange(0, j));
        lemma_class_mask_fails(t.drop_last(), j);
    } else {
        assert(t.subrange(0, j) =~= t);
    }
}

proof fn lemma_perm_bits_fails(t: Seq<char>, j: int, x_on: bool)
    requires
        0 <= j <= t.len(),
        perm_bits(t.subrange(0, j), x_on) is None,
    ensures
        perm_bits(t, x_on) is None,
    decreases t.len(),
{
    if j < t.len() {
        assert(t.drop_last().subrange(0, j) =~= t.subrange(0, j));
        lemma_perm_bits_fails(t.drop_last(), j, x_on);
    } else {
        assert(t.subrange(0, j) =~= t);
    }
}

/// Applies the clause `s[start..end]` to `bits`.
fn apply_clause(bits: u32, s: &str, start: usize, end: usize, exec: bool, umask: u32) -> (r: Option<u32>)
    requires
        start <= end <= s@.len(),
    ensures
        r == clause_result(bits, s@.subrange(start as int, end as int), exec, umask),
{
    let ghost c = s@.subrange(start as int, end as int);
    let k = scan_until_operator(s, start, end);
    if k == end {
        return None;
    }
    let x_on = (bits & EXEC_BITS) != 0 || exec;
    let cm = class_mask_of(s, start, k);
    let pb = perm_bits_of(s, k + 1, end, x_on);
    assert(c.subrange(0, k - start) =~= s@.subrange(start as int, k as int));
    assert(c.subrange(k - start + 1, c.len() as int) =~= s@.subrange(k + 1, end as int));
    match (cm, pb) {
        (Some(cm), Some(pb)) => {
            let mask = if k == start { ALL_BITS & !umask } else { cm };
            let sel = pb & mask;
            let op = s.get_char(k);
            assert(c[k - start] == op);
            if op == '=' {
                Some((bits & !mask) | sel)
            } else if op == '+' {
                Some(bits | sel)
            } else {
                Some(bits & !sel)
            }
        },
        _ => None,
    }
}

/// Applies the mode string `mode` to the permission bits `bits`.
/// `exec` says that the target is of an executable class (a program or a
/// directory), for `X`; `umask` is the process's file-creation mask.
pub fn apply_mode(bits: u32, mode: &str, exec: bool, umask: u32) -> (r: Result<u32, InvalidMode>)
    ensures
        r == mode_result(bits, mode@, exec, umask),
{
    let n = mode.unicode_len();
    if n > 0 && is_octal_char(mode.get_char(0)) {
        assert(mode@.subrange(0, n as int) =~= mode@);
        return match parse_octal(mode, 0, n) {
            Some(v) => Ok(v & !umask),
            None => Err(InvalidMode),
        };
    }
    if n > 1 && is_operator_char(mode.get_char(0)) && is_octal_char(mode.get_char(1)) {
        assert(mode@.subrange(1, n as int) =~= mode@.drop_first());
        let op = mode.get_char(0);
        return match parse_octal(mode, 1, n) {
            Some(v) => Ok(
                if op == '=' {
                    v
                } else if op == '+' {
                    bits | v
                } else {
                    bits & !v
                },
            ),
            None => Err(InvalidMode),
        };
    }
    let mut cur: u32 = bits;
    let mut pos: usize = 0;
    assert(mode@.subrange(0, n as int) =~= mode@);
    loop
        invariant
            pos <= n,
            n == mode@.len(),
            mode_result(bits, mode@, exec, umask) == (match clauses_result(cur, mode@.subrange(pos as int, n as int), exec, umask) {
                Some(v) => Ok(v),
                None => Err(InvalidMode),
            }),
        decreases n - pos,
    {
        let ghost t = mode@.subrange(pos as int, n as int);
        let j = scan_until_comma(mode, pos, n);
        assert(t.subrange(0, j - pos) =~= mode@.subrange(pos as int, j as int));
        match apply_clause(cur, mode, pos, j, exec, umask) {
            None => {
                return Err(InvalidMode);
            },
            Some(b) => {
                if j >= n {
                    return Ok(b);
                }
                assert(t.subrange(j - pos + 1, t.len() as int) =~= mode@.subrange(j + 1, n as int));
                cur = b;
                pos = j + 1;
            },
        }
    }
}

proof fn lemma_one_clause(bits: u32, c: Seq<char>, exec: bool, umask: u32)
    requires
        forall|i: int| 0 <= i < c.len() ==> #[trigger] c[i] != ',',
    ensures
        clauses_result(bits, c, exec, umask) == clause_result(bits, c, exec, umask),
{
    lemma_first_in(c, commas(), c.len() as int);
    assert(c.subrange(0, c.len() as int) =~= c);
}

/// The parts of a clause of one class letter, one operator and one
/// permission letter.
proof fn lemma_simple_clause(bits: u32, cls: char, op: char, perm: char, exec: bool, umask: u32)
    requires
        class_letter(cls) is Some,
        is_operator(op),
        perm_letter(perm, (bits & EXEC_BITS) != 0 || exec) is Some,
    ensures
        mode_result(bits, seq![cls, op, perm], exec, umask) == Ok::<u32, InvalidMode>(
            combine(
                op,
                bits,
                class_letter(cls)->0,
                perm_letter(perm, (bits & EXEC_BITS) != 0 || exec)->0 & class_letter(cls)->0,
            ),
        ),
{
    let c = seq![cls, op, perm];
    let x_on = (bits & EXEC_BITS) != 0 || exec;
    lemma_one_clause(bits, c, exec, umask);
    lemma_first_in(c, operators(), 1);
    assert(c.subrange(0, 1).drop_last() =~= Seq::<char>::empty());
    assert(c.subrange(2, 3).drop_last() =~= Seq::<char>::empty());
    let cm = class_letter(cls)->0;
    let pb = perm_letter(perm, x_on)->0;
    assert(0u32 | cm == cm) by (bit_vector);
    assert(0u32 | pb == pb) by (bit_vector);
    assert(c.subrange(0, 1).last() == cls);
    assert(c.subrange(2, 3).last() == perm);
    assert(class_mask(Seq::<char>::empty()) == Some(0u32));
    assert(perm_bits(Seq::<char>::empty(), x_on) == Some(0u32));
    assert(class_mask(c.subrange(0, 1)) == Some(cm));
    assert(perm_bits(c.subrange(2, 3), x_on) == Some(pb));
}

/// A clause `c` followed by a comma and more clauses applies `c`, then the
/// rest.
proof fn lemma_clauses_cons(bits: u32, c: Seq<char>, rest: Seq<char>, exec: bool, umask: u32)
    requires
        forall|i: int| 0 <= i < c.len() ==> #[trigger] c[i] != ',',
        clause_result(bits, c, exec, umask) is Some,
    ensures
        clauses_result(bits, c + seq![','] + rest, exec, umask)
            == clauses_result(clause_result(bits, c, exec, umask)->0, rest, exec, umask),
{
    let s = c + seq![','] + rest;
    assert forall|i: int| 0 <= i < c.len() implies !commas().contains(#[trigger] s[i]) by {
        assert(s[i] == c[i]);
    }
    lemma_first_in(s, commas(), c.len() as int);
    assert(s.subrange(0, c.len() as int) =~= c);
    assert(s.subrange(c.len() + 1int, s.len() as int) =~= rest);
}

/// A clause of one class letter, `=` and permission letters.
proof fn lemma_assign_clause(bits: u32, cls: char, perms: Seq<char>, pv: u32, exec: bool, umask: u32)
    requires
        class_letter(cls) is Some,
        perm_bits(perms, (bits & EXEC_BITS) != 0 || exec) == Some(pv),
    ensures
        clause_result(bits, seq![cls, '='] + perms, exec, umask) == Some(
            (bits & !class_letter(cls)->0) | (pv & class_letter(cls)->0),
        ),
{
    let c = seq![cls, '='] + perms;
    lemma_first_in(c, operators(), 1);
    assert(c.subrange(0, 1) =~= seq![cls]);
    assert(seq![cls].drop_last() =~= Seq::<char>::empty());
    assert(class_mask(Seq::<char>::empty()) == Some(0u32));
    let cm = class_letter(cls)->0;
    assert(0u32 | cm == cm) by (bit_vector);
    assert(class_mask(seq![cls]) == Some(cm));
    assert(c.subrange(2, c.len() as int) =~= perms);
}

proof fn lemma_perms_rwx_rx(x_on: bool)
    ensures
        perm_bits(seq!['r', 'w', 'x'], x_on) == Some(0o777u32),
        perm_bits(seq!['r', 'x'], x_on) == Some(0o555u32),
{
    let e = Seq::<char>::empty();
    assert(seq!['r'].drop_last() =~= e);
    assert(seq!['r', 'w'].drop_last() =~= seq!['r']);
    assert(seq!['r', 'w', 'x'].drop_last() =~= seq!['r', 'w']);
    assert(seq!['r', 'x'].drop_last() =~= seq!['r']);
    assert(perm_bits(e, x_on) == Some(0u32));
    assert(0u32 | 0o444u32 == 0o444u32) by (bit_vector);
    assert(0o444u32 | 0o222u32 == 0o666u32) by (bit_vector);
    assert(0o666u32 | 0o111u32 == 0o777u32) by (bit_vector);
    assert(0o444u32 | 0o111u32 == 0o555u32) by (bit_vector);
    assert(perm_bits(seq!['r'], x_on) == Some(0o444u32));
    assert(perm_bits(seq!['r', 'w'], x_on) == Some(0o666u32));
}

/// `u=rwx,g=rx,o=rx` sets every permission bit: the result is `0o755`,
/// whatever the bits were; bits above the permission bits are kept.
pub proof fn lemma_program_mode(bits: u32, exec: bool, umask: u32)
    ensures
        mode_result(bits, "u=rwx,g=rx,o=rx"@, exec, umask) == Ok::<u32, InvalidMode>((bits & !ALL_BITS) | 0o755),
{
    reveal_strlit("u=rwx,g=rx,o=rx");
    let u = seq!['u', '=', 'r', 'w', 'x'];
    let g = seq!['g', '=', 'r', 'x'];
    let o = seq!['o', '=', 'r', 'x'];
    let s = "u=rwx,g=rx,o=rx"@;
    assert(s =~= u + seq![','] + (g + seq![','] + o));
    assert(u =~= seq!['u', '='] + seq!['r', 'w', 'x']);
    assert(g =~= seq!['g', '='] + seq!['r', 'x']);
    assert(o =~= seq!['o', '='] + seq!['r', 'x']);
    let b1 = (bits & !OWNER_BITS) | (0o777u32 & OWNER_BITS);
    let b2 = (b1 & !GROUP_BITS) | (0o555u32 & GROUP_BITS);
    let b3 = (b2 & !OTHER_BITS) | (0o555u32 & OTHER_BITS);
    lemma_perms_rwx_rx((bits & EXEC_BITS) != 0 || exec);
    lemma_perms_rwx_rx((b1 & EXEC_BITS) != 0 || exec);
    lemma_perms_rwx_rx((b2 & EXEC_BITS) != 0 || exec);
    lemma_assign_clause(bits, 'u', seq!['r', 'w', 'x'], 0o777, exec, umask);
    lemma_assign_clause(b1, 'g', seq!['r', 'x'], 0o555, exec, umask);
    lemma_assign_clause(b2, 'o', seq!['r', 'x'], 0o555, exec, umask);
    lemma_clauses_cons(bits, u, g + seq![','] + o, exec, umask);
    lemma_clauses_cons(b1, g, o, exec, umask);
    lemma_one_clause(b2, o, exec, umask);
    assert(b3 == (bits & !ALL_BITS) | 0o755) by (bit_vector)
        requires
            b1 == (bits & !0o4700u32) | (0o777u32 & 0o4700u32),
            b2 == (b1 & !0o2070u32) | (0o555u32 & 0o2070u32),
            b3 == (b2 & !0o1007u32) | (0o555u32 & 0o1007u32),
    ;
}

/// `=` followed by octal digits sets exactly the value that the digits
/// denote, whatever the bits were and whatever the umask is.
pub proof fn lemma_assign_octal(bits: u32, digits: Seq<char>, exec: bool, umask: u32)
    requires
        digits.len() > 0,
        all_octal(digits),
        octal_value(digits) <= u32::MAX,
    ensures
        mode_result(bits, seq!['='] + digits, exec, umask) == Ok::<u32, InvalidMode>(
            octal_value(digits) as u32,
        ),
{
    let s = seq!['='] + digits;
    assert(s[1] == digits[0]);
    assert(s.drop_first() =~= digits);
}

/// `=644` gives exactly `0o644` from any bits.
pub proof fn lemma_assign_644(bits: u32, exec: bool, umask: u32)
    ensures
        mode_result(bits, seq!['=', '6', '4', '4'], exec, umask) == Ok::<u32, InvalidMode>(0o644),
{
    let d = seq!['6', '4', '4'];
    assert(d.drop_last() =~= seq!['6', '4']);
    assert(d.drop_last().drop_last() =~= seq!['6']);
    assert(d.drop_last().drop_last().drop_last() =~= Seq::<char>::empty());
    assert(seq!['6'].drop_last() =~= Seq::<char>::empty());
    assert(seq!['6'].last() == '6');
    assert(seq!['6', '4'].last() == '4');
    assert(d.last() == '4');
    assert(octal_value(Seq::<char>::empty()) == 0);
    assert(octal_value(seq!['6']) == 6);
    assert(octal_value(seq!['6', '4']) == 52);
    assert(octal_value(d) == 0o644);
    assert(seq!['='] + d =~= seq!['=', '6', '4', '4']);
    lemma_assign_octal(bits, d, exec, umask);
}

/// `u+x` sets the owner-execute bit and changes no other bit.
pub proof fn lemma_owner_execute(bits: u32, exec: bool, umask: u32)
    ensures
        mode_result(bits, seq!['u', '+', 'x'], exec, umask) == Ok::<u32, InvalidMode>(bits | 0o100),
{
    lemma_simple_clause(bits, 'u', '+', 'x', exec, umask);
    assert(bits | (0o111u32 & 0o4700u32) == bits | 0o100u32) by (bit_vector);
}

/// `a+X` adds execute to a file with no execute bit only when the target is
/// of an executable class: `0o644` stays `0o644` for a plain file and becomes
/// `0o755` for a program or a directory.
pub proof fn lemma_conditional_execute(umask: u32)
    ensures
        mode_result(0o644, seq!['a', '+', 'X'], false, umask) == Ok::<u32, InvalidMode>(0o644),
        mode_result(0o644, seq!['a', '+', 'X'], true, umask) == Ok::<u32, InvalidMode>(0o755),
{
    assert((0o644u32 & EXEC_BITS) == 0) by (bit_vector);
    lemma_simple_clause(0o644, 'a', '+', 'X', false, umask);
    lemma_simple_clause(0o644, 'a', '+', 'X', true, umask);
    assert(0o644u32 | (0u32 & 0o7777u32) == 0o644u32) by (bit_vector);
    assert(0o644u32 | (0o111u32 & 0o7777u32) == 0o755u32) by (bit_vector);
}

} // verus!
