//! Byte-level reading: runs of a byte class, their numeric values, and
//! literal text, each over a byte window that may end early.
use vstd::prelude::*;

verus! {

/// Why a window does not hold a command.
#[derive(Debug, Clone, Copy, PartialEq, Eq, Structural)]
pub enum ParseError {
    /// The window ends inside a frame that may still turn out well formed.
    NeedMoreData,
    /// The text does not follow the grammar, or a value is out of range.
    MalformedInput,
    /// The keyword is not one of the protocol's commands.
    UnrecognizedCommand,
    /// An identifier's hex-digit run is neither 3 nor 8 digits long.
    IdentifierLengthInvalid,
}

/// The classes of bytes that the grammar reads as maximal runs.
#[derive(Debug, Clone, Copy, PartialEq, Eq, Structural)]
pub enum ByteClass {
    Digit,
    Hex,
    HexOrSpace,
    Lower,
}

pub open spec fn is_digit(b: u8) -> bool {
    '0' as u8 <= b <= '9' as u8
}

pub open spec fn is_hex(b: u8) -> bool {
    is_digit(b) || ('A' as u8 <= b <= 'F' as u8) || ('a' as u8 <= b <= 'f' as u8)
}

pub open spec fn in_class(c: ByteClass, b: u8) -> bool {
    match c {
        ByteClass::Digit => is_digit(b),
        ByteClass::Hex => is_hex(b),
        ByteClass::HexOrSpace => is_hex(b) || b == ' ' as u8,
        ByteClass::Lower => 'a' as u8 <= b <= 'z' as u8,
    }
}

/// The end of the longest run of bytes of class `c` that starts at `i` and stays before `e`.
pub open spec fn run_end(s: Seq<u8>, i: int, e: int, c: ByteClass) -> int
    decreases e - i,
{
    if i < e && in_class(c, s[i]) {
        run_end(s, i + 1, e, c)
    } else {
        i
    }
}

pub open spec fn digit_value(b: u8) -> nat {
    (b - '0' as u8) as nat
}

pub open spec fn hex_digit_value(b: u8) -> nat {
    if is_digit(b) {
        digit_value(b)
    } else if 'A' as u8 <= b <= 'F' as u8 {
        (b - 'A' as u8 + 10) as nat
    } else {
        (b - 'a' as u8 + 10) as nat
    }
}

/// The number that the decimal digits `s[i..j)` write.
pub open spec fn decimal_value(s: Seq<u8>, i: int, j: int) -> nat
    decreases j - i,
{
    if j <= i {
        0
    } else {
        decimal_value(s, i, j - 1) * 10 + digit_value(s[j - 1])
    }
}

/// The number that the hex digits `s[i..j)` write.
pub open spec fn hex_value(s: Seq<u8>, i: int, j: int) -> nat
    decreases j - i,
{
    if j <= i {
        0
    } else {
        hex_value(s, i, j - 1) * 16 + hex_digit_value(s[j - 1])
    }
}

pub open spec fn pow16(n: nat) -> nat
    decreases n,
{
    if n == 0 {
        1
    } else {
        16 * pow16((n - 1) as nat)
    }
}

/// Reads `lit` at `i`. A window that stops inside a matching prefix of `lit`
/// may still match once more bytes arrive.
pub open spec fn literal(s: Seq<u8>, i: int, lit: Seq<u8>) -> Result<int, ParseError> {
    if i + lit.len() <= s.len() {
        if s.subrange(i, i + lit.len()) == lit {
            Ok(i + lit.len())
        } else {
            Err(ParseError::MalformedInput)
        }
    } else if s.subrange(i, s.len() as int) == lit.subrange(0, s.len() - i) {
        Err(ParseError::NeedMoreData)
    } else {
        Err(ParseError::MalformedInput)
    }
}

/// Reads a decimal number of at most `max` at `i`, ended by a byte that is no digit.
pub open spec fn decimal(s: Seq<u8>, i: int, max: nat) -> Result<(nat, int), ParseError> {
    let e = run_end(s, i, s.len() as int, ByteClass::Digit);
    if e == s.len() {
        Err(ParseError::NeedMoreData)
    } else if e == i || decimal_value(s, i, e) > max {
        Err(ParseError::MalformedInput)
    } else {
        Ok((decimal_value(s, i, e), e))
    }
}

pub proof fn lemma_run_end_bounds(s: Seq<u8>, i: int, e: int, c: ByteClass)
    requires
        i <= e,
    ensures
        i <= run_end(s, i, e, c) <= e,
        forall|k: int| i <= k < run_end(s, i, e, c) ==> in_class(c, #[trigger] s[k]),
        run_end(s, i, e, c) < e ==> !in_class(c, s[run_end(s, i, e, c)]),
    decreases e - i,
{
    if i < e && in_class(c, s[i]) {
        lemma_run_end_bounds(s, i + 1, e, c);
    }
}

/// A run that ends at `e` because `e` is the limit or holds a byte of another class.
pub proof fn lemma_run_end_at(s: Seq<u8>, i: int, e: int, end: int, c: ByteClass)
    requires
        i <= e <= end,
        forall|k: int| i <= k < e ==> in_class(c, #[trigger] s[k]),
        e == end || !in_class(c, s[e]),
    ensures
        run_end(s, i, end, c) == e,
    decreases e - i,
{
    if i < e {
        lemma_run_end_at(s, i + 1, e, end, c);
    }
}

pub proof fn lemma_decimal_monotone(s: Seq<u8>, i: int, k: int, j: int)
    requires
        i <= k <= j,
    ensures
        decimal_value(s, i, k) <= decimal_value(s, i, j),
    decreases j - k,
{
    if k < j {
        lemma_decimal_monotone(s, i, k, j - 1);
    }
}

proof fn lemma_pow16_monotone(a: nat, b: nat)
    requires
        a <= b,
    ensures
        pow16(a) <= pow16(b),
    decreases b,
{
    if a < b {
        lemma_pow16_monotone(a, (b - 1) as nat);
    }
}

pub(crate) fn in_class_exec(c: ByteClass, b: u8) -> (r: bool)
    ensures
        r == in_class(c, b),
{
    match c {
        ByteClass::Digit => '0' as u8 <= b && b <= '9' as u8,
        ByteClass::Hex => ('0' as u8 <= b && b <= '9' as u8) || ('A' as u8 <= b && b <= 'F' as u8)
            || ('a' as u8 <= b && b <= 'f' as u8),
        ByteClass::HexOrSpace => ('0' as u8 <= b && b <= '9' as u8) || ('A' as u8 <= b && b
            <= 'F' as u8) || ('a' as u8 <= b && b <= 'f' as u8) || b == ' ' as u8,
        ByteClass::Lower => 'a' as u8 <= b && b <= 'z' as u8,
    }
}

/// The end of the run of class `c` from `i`, before `e`.
pub(crate) fn scan(s: &[u8], i: usize, e: usize, c: ByteClass) -> (r: usize)
    requires
        i <= e <= s@.len(),
    ensures
        r == run_end(s@, i as int, e as int, c),
        i <= r <= e,
{
    let mut k = i;
    while k < e && in_class_exec(c, s[k])
        invariant
            i <= k <= e,
            e <= s@.len(),
            run_end(s@, k as int, e as int, c) == run_end(s@, i as int, e as int, c),
        decreases e - k,
    {
        k += 1;
    }
    k
}

/// The value of the decimal digits `s[i..j)`, or `None` where it exceeds `max`.
pub(crate) fn decimal_exec(s: &[u8], i: usize, j: usize, max: u64) -> (r: Option<u64>)
    requires
        i <= j <= s@.len(),
        max <= u32::MAX,
        forall|k: int| i <= k < j ==> is_digit(#[trigger] s@[k]),
    ensures
        r == (if decimal_value(s@, i as int, j as int) <= max {
            Some(decimal_value(s@, i as int, j as int) as u64)
        } else {
            None::<u64>
        }),
{
    let mut acc: u64 = 0;
    let mut k = i;
    while k < j
        invariant
            i <= k <= j <= s@.len(),
            max <= u32::MAX,
            forall|k: int| i <= k < j ==> is_digit(#[trigger] s@[k]),
            acc == decimal_value(s@, i as int, k as int),
            acc <= max,
        decreases j - k,
    {
        let d = s[k] - '0' as u8;
        acc = acc * 10 + d as u64;
        k += 1;
        if acc > max {
            proof {
                lemma_decimal_monotone(s@, i as int, k as int, j as int);
            }
            return None;
        }
    }
    Some(acc)
}

/// The value of the hex digits `s[i..j)`, at most eight of them.
pub(crate) fn hex_exec(s: &[u8], i: usize, j: usize) -> (r: u32)
    requires
        i <= j <= s@.len(),
        j - i <= 8,
        forall|k: int| i <= k < j ==> is_hex(#[trigger] s@[k]),
    ensures
        r as nat == hex_value(s@, i as int, j as int),
        r < pow16((j - i) as nat),
{
    let mut acc: u64 = 0;
    let mut k = i;
    proof {
        lemma_pow16_monotone((j - i) as nat, 8);
        reveal_with_fuel(pow16, 9);
        assert(pow16(8) == 4294967296);
    }
    while k < j
        invariant
            i <= k <= j <= s@.len(),
            j - i <= 8,
            pow16((j - i) as nat) <= 4294967296,
            forall|k: int| i <= k < j ==> is_hex(#[trigger] s@[k]),
            acc == hex_value(s@, i as int, k as int),
            acc < pow16((k - i) as nat),
        decreases j - k,
    {
        let b = s[k];
        let d: u64 = if b <= '9' as u8 {
            (b - '0' as u8) as u64
        } else if b <= 'F' as u8 {
            (b - 'A' as u8 + 10) as u64
        } else {
            (b - 'a' as u8 + 10) as u64
        };
        proof {
            let p = pow16((k - i) as nat);
            lemma_pow16_monotone((k + 1 - i) as nat, (j - i) as nat);
            assert(pow16((k + 1 - i) as nat) == 16 * p);
            assert(acc * 16 + d < 16 * p) by (nonlinear_arith)
                requires
                    acc < p,
                    d < 16,
            ;
        }
        acc = acc * 16 + d;
        k += 1;
    }
    acc as u32
}

/// Reads the literal `lit` at `i`.
pub(crate) fn literal_exec(s: &[u8], i: usize, lit: &[u8]) -> (r: Result<usize, ParseError>)
    requires
        i <= s@.len(),
    ensures
        r matches Ok(n) ==> n == i + lit@.len() && n <= s@.len(),
        match r {
            Ok(n) => literal(s@, i as int, lit@) == Ok::<int, ParseError>(n as int),
            Err(e) => literal(s@, i as int, lit@) == Err::<int, ParseError>(e),
        },
{
    let len = s.len();
    let avail = len - i;
    let n = if lit.len() < avail {
        lit.len()
    } else {
        avail
    };
    let mut k: usize = 0;
    while k < n
        invariant
            i <= s@.len(),
            n == (if lit@.len() < s@.len() - i { lit@.len() as int } else { s@.len() - i }),
            k <= n,
            n <= lit@.len(),
            len == s@.len(),
            i + n <= len,
            s@.subrange(i as int, i + k) == lit@.subrange(0, k as int),
        decreases n - k,
    {
        if s[i + k] != lit[k] {
            proof {
                if i + lit@.len() <= s@.len() {
                    assert(s@.subrange(i as int, i + lit@.len())[k as int] != lit@[k as int]);
                } else {
                    assert(s@.subrange(i as int, s@.len() as int)[k as int] != lit@.subrange(
                        0,
                        s@.len() - i,
                    )[k as int]);
                }
            }
            return Err(ParseError::MalformedInput);
        }
        proof {
            assert(s@.subrange(i as int, i + k + 1) =~= s@.subrange(i as int, i + k).push(
                s@[i + k],
            ));
            assert(lit@.subrange(0, k + 1) =~= lit@.subrange(0, k as int).push(lit@[k as int]));
        }
        k += 1;
    }
    if n == lit.len() {
        assert(lit@.subrange(0, lit@.len() as int) =~= lit@);
        Ok(i + n)
    } else {
        assert(s@.subrange(i as int, s@.len() as int) =~= s@.subrange(i as int, i + k));
        Err(ParseError::NeedMoreData)
    }
}

} // verus!
