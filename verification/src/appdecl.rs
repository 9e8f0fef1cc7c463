//! Application declarations: the arguments of the `app` attribute
//! (`id = 3, stack_size = 2048, name = "timer"`), read from their source
//! bytes, and the stack layout and metadata they declare.
use vstd::prelude::*;

verus! {

/// Why an attribute argument list is refused.
#[derive(Copy, Clone, Debug, PartialEq, Eq, Structural)]
pub enum ArgsError {
    /// A parameter name was expected.
    ExpectedIdent,
    /// `=` was expected after a parameter name.
    ExpectedEquals,
    /// The parameter is not `id`, `stack_size` or `name`.
    UnknownParameter,
    /// An integer literal was expected.
    ExpectedInteger,
    /// The integer does not fit in 32 bits.
    IntegerTooLarge,
    /// A string literal was expected.
    ExpectedString,
    /// The string literal has no closing quote.
    UnterminatedString,
}

/// Why an application declaration is refused.
#[derive(Copy, Clone, Debug, PartialEq, Eq, Structural)]
pub enum DeclError {
    /// The arguments do not parse.
    Args(ArgsError),
    /// No `id` was given.
    MissingId,
    /// The stack, rounded up, does not fit in 32 bits.
    StackTooLarge,
}

pub open spec fn is_ws(b: u8) -> bool {
    b == 32 || b == 9 || b == 10 || b == 13
}

pub open spec fn is_ident_start(b: u8) -> bool {
    (65 <= b <= 90) || (97 <= b <= 122) || b == 95
}

pub open spec fn is_ident_continue(b: u8) -> bool {
    is_ident_start(b) || (48 <= b <= 57)
}

pub open spec fn is_digit(b: u8) -> bool {
    48 <= b <= 57
}

/// A digit or a separating underscore.
pub open spec fn is_digit_part(b: u8) -> bool {
    is_digit(b) || b == 95
}

/// The first position from `i` that is not white space.
pub open spec fn ws_end(s: Seq<u8>, i: int) -> int
    decreases s.len() - i,
{
    if 0 <= i < s.len() && is_ws(s[i]) {
        ws_end(s, i + 1)
    } else {
        i
    }
}

/// The end of the identifier characters from `i`.
pub open spec fn ident_end(s: Seq<u8>, i: int) -> int
    decreases s.len() - i,
{
    if 0 <= i < s.len() && is_ident_continue(s[i]) {
        ident_end(s, i + 1)
    } else {
        i
    }
}

/// The end of the digits and underscores from `i`.
pub open spec fn digits_end(s: Seq<u8>, i: int) -> int
    decreases s.len() - i,
{
    if 0 <= i < s.len() && is_digit_part(s[i]) {
        digits_end(s, i + 1)
    } else {
        i
    }
}

/// The position of the first `"` from `i`, or the end of the input.
pub open spec fn quote_end(s: Seq<u8>, i: int) -> int
    decreases s.len() - i,
{
    if 0 <= i < s.len() && s[i] != 34 {
        quote_end(s, i + 1)
    } else {
        i
    }
}

/// The decimal value of `s[i..j]`, underscores skipped.
pub open spec fn digits_value(s: Seq<u8>, i: int, j: int) -> int
    decreases j - i,
{
    if j <= i {
        0
    } else if s[j - 1] == 95 {
        digits_value(s, i, j - 1)
    } else {
        digits_value(s, i, j - 1) * 10 + (s[j - 1] - 48)
    }
}

/// The parameter names.
pub open spec fn key_id() -> Seq<u8> {
    seq![105u8, 100u8]
}

pub open spec fn key_stack_size() -> Seq<u8> {
    seq![115u8, 116u8, 97u8, 99u8, 107u8, 95u8, 115u8, 105u8, 122u8, 101u8]
}

pub open spec fn key_name() -> Seq<u8> {
    seq![110u8, 97u8, 109u8, 101u8]
}

/// The arguments read so far: id, stack size and name, each if given.
pub type ArgsView = (Option<u32>, Option<u32>, Option<Seq<u8>>);

/// Where the next parameter starts after a value ending at `k`: past an
/// optional comma.
pub open spec fn after_value(s: Seq<u8>, k: int) -> int {
    let c = ws_end(s, k);
    if c < s.len() && s[c] == 44 {
        c + 1
    } else {
        c
    }
}

pub proof fn lemma_ends_advance(s: Seq<u8>, i: int)
    requires
        0 <= i,
    ensures
        i <= ws_end(s, i),
        ws_end(s, i) <= s.len() || ws_end(s, i) == i,
        i <= ident_end(s, i),
        ident_end(s, i) <= s.len() || ident_end(s, i) == i,
        i <= digits_end(s, i),
        digits_end(s, i) <= s.len() || digits_end(s, i) == i,
        i <= quote_end(s, i),
        quote_end(s, i) <= s.len() || quote_end(s, i) == i,
    decreases s.len() - i,
{
    if i < s.len() {
        lemma_ends_advance(s, i + 1);
    }
}

/// The result of reading parameters from position `i` on, with `acc` read
/// before. A later value for the same parameter replaces an earlier one.
pub open spec fn parse_args_from(s: Seq<u8>, i: int, acc: ArgsView) -> Result<ArgsView, ArgsError>
    decreases s.len() - i,
{
    if i < 0 {
        Ok(acc)
    } else {
        let k0 = ws_end(s, i);
        if k0 >= s.len() {
            Ok(acc)
        } else {
            let k1 = ident_end(s, k0);
            if !is_ident_start(s[k0]) {
                Err(ArgsError::ExpectedIdent)
            } else {
                let key = s.subrange(k0, k1);
                let k2 = ws_end(s, k1);
                if k2 >= s.len() || s[k2] != 61 {
                    Err(ArgsError::ExpectedEquals)
                } else {
                    let k3 = ws_end(s, k2 + 1);
                    if key == key_id() || key == key_stack_size() {
                        if k3 >= s.len() || !is_digit(s[k3]) {
                            Err(ArgsError::ExpectedInteger)
                        } else {
                            let kd = digits_end(s, k3);
                            let v = digits_value(s, k3, kd);
                            if v > u32::MAX {
                                Err(ArgsError::IntegerTooLarge)
                            } else {
                                let next = after_value(s, ident_end(s, kd));
                                proof {
                                    lemma_ends_advance(s, i);
                                    lemma_ends_advance(s, k0);
                                    lemma_ends_advance(s, k1);
                                    lemma_ends_advance(s, k2 + 1);
                                    lemma_ends_advance(s, k3);
                                    lemma_ends_advance(s, kd);
                                    lemma_ends_advance(s, ident_end(s, kd));
                                }
                                if key == key_id() {
                                    parse_args_from(s, next, (Some(v as u32), acc.1, acc.2))
                                } else {
                                    parse_args_from(s, next, (acc.0, Some(v as u32), acc.2))
                                }
                            }
                        }
                    } else if key == key_name() {
                        if k3 >= s.len() || s[k3] != 34 {
                            Err(ArgsError::ExpectedString)
                        } else {
                            let kq = quote_end(s, k3 + 1);
                            if kq >= s.len() {
                                Err(ArgsError::UnterminatedString)
                            } else {
                                let next = after_value(s, kq + 1);
                                proof {
                                    lemma_ends_advance(s, i);
                                    lemma_ends_advance(s, k0);
                                    lemma_ends_advance(s, k1);
                                    lemma_ends_advance(s, k2 + 1);
                                    lemma_ends_advance(s, k3 + 1);
                                    lemma_ends_advance(s, kq + 1);
                                }
                                parse_args_from(s, next, (acc.0, acc.1, Some(s.subrange(k3 + 1, kq))))
                            }
                        }
                    } else {
                        Err(ArgsError::UnknownParameter)
                    }
                }
            }
        }
    }
}

/// The arguments of an `app` attribute.
pub open spec fn parse_args_spec(s: Seq<u8>) -> Result<ArgsView, ArgsError> {
    parse_args_from(s, 0, (None, None, None))
}

/// The arguments read from an attribute; `None` for those not given.
pub struct AppArgs {
    pub id: Option<u32>,
    pub stack_size: Option<u32>,
    pub name: Option<Vec<u8>>,
}

impl AppArgs {
    pub open spec fn view_args(&self) -> ArgsView {
        (
            self.id,
            self.stack_size,
            match self.name {
                Some(n) => Some(n@),
                None => None,
            },
        )
    }
}

fn is_ws_byte(b: u8) -> (r: bool)
    ensures
        r == is_ws(b),
{
    b == 32 || b == 9 || b == 10 || b == 13
}

fn skip_ws(s: &[u8], i: usize) -> (j: usize)
    requires
        i <= s.len(),
    ensures
        j == ws_end(s@, i as int),
        i <= j <= s.len(),
{
    let mut j = i;
    while j < s.len() && is_ws_byte(s[j])
        invariant
            i <= j <= s.len(),
            ws_end(s@, j as int) == ws_end(s@, i as int),
        decreases s.len() - j,
    {
        j = j + 1;
    }
    j
}

fn skip_ident(s: &[u8], i: usize) -> (j: usize)
    requires
        i <= s.len(),
    ensures
        j == ident_end(s@, i as int),
        i <= j <= s.len(),
{
    let mut j = i;
    while j < s.len() && ((s[j] >= 65 && s[j] <= 90) || (s[j] >= 97 && s[j] <= 122) || s[j] == 95 || (s[j] >= 48
        && s[j] <= 57))
        invariant
            i <= j <= s.len(),
            ident_end(s@, j as int) == ident_end(s@, i as int),
        decreases s.len() - j,
    {
        j = j + 1;
    }
    j
}

fn skip_digits(s: &[u8], i: usize) -> (j: usize)
    requires
        i <= s.len(),
    ensures
        j == digits_end(s@, i as int),
        i <= j <= s.len(),
{
    let mut j = i;
    while j < s.len() && ((s[j] >= 48 && s[j] <= 57) || s[j] == 95)
        invariant
            i <= j <= s.len(),
            digits_end(s@, j as int) == digits_end(s@, i as int),
        decreases s.len() - j,
    {
        j = j + 1;
    }
    j
}

fn find_quote(s: &[u8], i: usize) -> (j: usize)
    requires
        i <= s.len(),
    ensures
        j == quote_end(s@, i as int),
        i <= j <= s.len(),
{
    let mut j = i;
    while j < s.len() && s[j] != 34
        invariant
            i <= j <= s.len(),
            quote_end(s@, j as int) == quote_end(s@, i as int),
        decreases s.len() - j,
    {
        j = j + 1;
    }
    j
}

/// A value is never smaller than the value of its prefix.
proof fn lemma_digits_value_monotonic(s: Seq<u8>, i: int, j: int, k: int)
    requires
        i <= j <= k,
        forall|m: int| i <= m < k ==> is_digit_part(#[trigger] s[m]),
    ensures
        0 <= digits_value(s, i, j) <= digits_value(s, i, k),
    decreases k - j,
{
    if j < k {
        lemma_digits_value_monotonic(s, i, j, k - 1);
        lemma_digits_value_nonneg(s, i, k - 1);
    } else {
        lemma_digits_value_nonneg(s, i, j);
    }
}

proof fn lemma_digits_value_nonneg(s: Seq<u8>, i: int, j: int)
    requires
        forall|m: int| i <= m < j ==> is_digit_part(#[trigger] s[m]),
    ensures
        0 <= digits_value(s, i, j),
    decreases j - i,
{
    if j > i {
        lemma_digits_value_nonneg(s, i, j - 1);
    }
}

proof fn lemma_digits_end_parts(s: Seq<u8>, i: int, m: int)
    requires
        0 <= i <= m < digits_end(s, i),
    ensures
        is_digit_part(s[m]),
        digits_end(s, i) <= s.len(),
    decreases s.len() - i,
{
    lemma_ends_advance(s, i + 1);
    if i < m {
        lemma_digits_end_parts(s, i + 1, m);
    }
}

/// The value of the digits `s[i..j]`, or `None` when it passes `u32::MAX`.
fn read_digits(s: &[u8], i: usize, j: usize) -> (r: Option<u32>)
    requires
        i <= j <= s.len(),
        j == digits_end(s@, i as int),
    ensures
        match r {
            Some(v) => v == digits_value(s@, i as int, j as int),
            None => digits_value(s@, i as int, j as int) > u32::MAX,
        },
{
    proof {
        assert forall|m: int| i <= m < j implies is_digit_part(#[trigger] s@[m]) by {
            lemma_digits_end_parts(s@, i as int, m);
        }
    }
    let mut v: u64 = 0;
    let mut k = i;
    while k < j
        invariant
            i <= k <= j <= s.len(),
            forall|m: int| i <= m < j ==> is_digit_part(#[trigger] s@[m]),
            v == digits_value(s@, i as int, k as int),
            v <= u32::MAX,
        decreases j - k,
    {
        let b = s[k];
        if b != 95 {
            v = v * 10 + (b - 48) as u64;
            if v > 0xFFFF_FFFF {
                proof {
                    lemma_digits_value_monotonic(s@, i as int, k as int + 1, j as int);
                }
                return None;
            }
        }
        k = k + 1;
    }
    Some(v as u32)
}

/// Read the arguments of an `app` attribute.
pub fn parse_app_args(s: &[u8]) -> (r: Result<AppArgs, ArgsError>)
    ensures
        match r {
            Ok(a) => parse_args_spec(s@) == Ok::<ArgsView, ArgsError>(a.view_args()),
            Err(e) => parse_args_spec(s@) == Err::<ArgsView, ArgsError>(e),
        },
{
    let mut acc = AppArgs { id: None, stack_size: None, name: None };
    let mut i: usize = 0;
    while i < s.len()
        invariant
            i <= s.len(),
            parse_args_spec(s@) == parse_args_from(s@, i as int, acc.view_args()),
        decreases s.len() - i,
    {
        let k0 = skip_ws(s, i);
        if k0 >= s.len() {
            return Ok(acc);
        }
        let c = s[k0];
        if !((c >= 65 && c <= 90) || (c >= 97 && c <= 122) || c == 95) {
            return Err(ArgsError::ExpectedIdent);
        }
        let k1 = skip_ident(s, k0);
        let k2 = skip_ws(s, k1);
        if k2 >= s.len() || s[k2] != 61 {
            return Err(ArgsError::ExpectedEquals);
        }
        let k3 = skip_ws(s, k2 + 1);
        let ghost key = s@.subrange(k0 as int, k1 as int);
        let klen = k1 - k0;
        let is_id = klen == 2 && s[k0] == 105 && s[k0 + 1] == 100;
        let is_stack = klen == 10 && s[k0] == 115 && s[k0 + 1] == 116 && s[k0 + 2] == 97 && s[k0 + 3] == 99 && s[k0
            + 4] == 107 && s[k0 + 5] == 95 && s[k0 + 6] == 115 && s[k0 + 7] == 105 && s[k0 + 8] == 122 && s[k0 + 9]
            == 101;
        let is_name = klen == 4 && s[k0] == 110 && s[k0 + 1] == 97 && s[k0 + 2] == 109 && s[k0 + 3] == 101;
        proof {
            assert(is_id <==> key == key_id()) by {
                if key.len() == 2 {
                    assert(is_id ==> key =~= key_id());
                }
            }
            assert(is_stack <==> key == key_stack_size()) by {
                if key.len() == 10 {
                    assert(is_stack ==> key =~= key_stack_size());
                }
            }
            assert(is_name <==> key == key_name()) by {
                if key.len() == 4 {
                    assert(is_name ==> key =~= key_name());
                }
            }
        }
        if is_id || is_stack {
            if k3 >= s.len() || !(s[k3] >= 48 && s[k3] <= 57) {
                return Err(ArgsError::ExpectedInteger);
            }
            let kd = skip_digits(s, k3);
            let v = match read_digits(s, k3, kd) {
                Some(v) => v,
                None => {
                    return Err(ArgsError::IntegerTooLarge);
                },
            };
            let ks = skip_ident(s, kd);
            let c5 = skip_ws(s, ks);
            let next = if c5 < s.len() && s[c5] == 44 { c5 + 1 } else { c5 };
            if is_id {
                acc.id = Some(v);
            } else {
                acc.stack_size = Some(v);
            }
            i = next;
        } else if is_name {
            if k3 >= s.len() || s[k3] != 34 {
                return Err(ArgsError::ExpectedString);
            }
            let kq = find_quote(s, k3 + 1);
            if kq >= s.len() {
                return Err(ArgsError::UnterminatedString);
            }
            let mut name: Vec<u8> = Vec::new();
            let mut m = k3 + 1;
            while m < kq
                invariant
                    k3 + 1 <= m <= kq < s.len(),
                    name@ == s@.subrange(k3 + 1, m as int),
                decreases kq - m,
            {
                name.push(s[m]);
                m = m + 1;
                assert(name@ =~= s@.subrange(k3 + 1, m as int));
            }
            let c5 = skip_ws(s, kq + 1);
            let next = if c5 < s.len() && s[c5] == 44 { c5 + 1 } else { c5 };
            acc.name = Some(name);
            i = next;
        } else {
            return Err(ArgsError::UnknownParameter);
        }
    }
    proof {
        lemma_ends_advance(s@, i as int);
    }
    Ok(acc)
}

/// The smallest stack an application gets, in bytes.
pub const MIN_DECLARED_STACK_BYTES: u64 = 512;

/// The stack size an application gets: at least 512 bytes, rounded up to
/// a multiple of 8.
pub open spec fn declared_stack_bytes(requested: u32) -> int {
    let r = if requested < 512 { 512 } else { requested as int };
    ((r + 7) / 8) * 8
}

/// A declared stack holds at least what was asked and at least 512 bytes,
/// by less than 8 bytes more than that, in a whole number of 8-byte units,
/// and its word count covers it exactly.
pub proof fn lemma_declared_stack(requested: u32)
    ensures
        declared_stack_bytes(requested) >= requested,
        declared_stack_bytes(requested) >= 512,
        declared_stack_bytes(requested) % 8 == 0,
        declared_stack_bytes(requested) < (if requested < 512 { 512 } else { requested as int }) + 8,
        ((declared_stack_bytes(requested) + 3) / 4) * 4 == declared_stack_bytes(requested),
{
    let r = if requested < 512 { 512 } else { requested as int };
    let d = ((r + 7) / 8) * 8;
    assert(d >= r && d < r + 8 && d % 8 == 0 && ((d + 3) / 4) * 4 == d) by (nonlinear_arith)
        requires
            r >= 0,
            d == ((r + 7) / 8) * 8,
    ;
}

/// The stack of a declaration: its size in bytes (as declared in the
/// metadata) and in 32-bit words.
pub fn app_stack_layout(requested: u32) -> (r: Option<(u32, usize)>)
    ensures
        declared_stack_bytes(requested) <= u32::MAX ==> r == Some(
            ((declared_stack_bytes(requested) as u32), ((declared_stack_bytes(requested) + 3) / 4) as usize),
        ),
        declared_stack_bytes(requested) > u32::MAX ==> r is None,
{
    let req: u64 = if (requested as u64) < MIN_DECLARED_STACK_BYTES {
        MIN_DECLARED_STACK_BYTES
    } else {
        requested as u64
    };
    let aligned = ((req + 7) / 8) * 8;
    if aligned > 0xFFFF_FFFF {
        return None;
    }
    let words = (aligned + 3) / 4;
    Some((aligned as u32, words as usize))
}

/// What an `app` attribute declares for an application.
pub struct AppDeclaration {
    pub id: u32,
    /// The name, the function's own if none is given.
    pub name: Vec<u8>,
    /// The stack size recorded in the metadata, in bytes.
    pub stack_bytes: u32,
    /// The words reserved for the stack.
    pub stack_words: usize,
}

/// The declaration of an application function `fn_name` with the attribute
/// arguments `args`: an `id` is required, the stack defaults to 512 bytes
/// and the name to the function's.
pub fn app_declaration(args: &[u8], fn_name: &[u8]) -> (r: Result<AppDeclaration, DeclError>)
    ensures
        match parse_args_spec(args@) {
            Err(e) => r == Err::<AppDeclaration, DeclError>(DeclError::Args(e)),
            Ok((id, stack, name)) => match id {
                None => r == Err::<AppDeclaration, DeclError>(DeclError::MissingId),
                Some(id) => {
                    let requested = match stack {
                        Some(b) => b,
                        None => 512u32,
                    };
                    if declared_stack_bytes(requested) > u32::MAX {
                        r == Err::<AppDeclaration, DeclError>(DeclError::StackTooLarge)
                    } else {
                        r matches Ok(d) && d.id == id && d.stack_bytes == declared_stack_bytes(requested) && d.stack_words
                            == (declared_stack_bytes(requested) + 3) / 4 && d.name@ == match name {
                            Some(n) => n,
                            None => fn_name@,
                        }
                    }
                },
            },
        },
{
    let parsed = match parse_app_args(args) {
        Ok(a) => a,
        Err(e) => {
            return Err(DeclError::Args(e));
        },
    };
    let id = match parsed.id {
        Some(id) => id,
        None => {
            return Err(DeclError::MissingId);
        },
    };
    let requested = match parsed.stack_size {
        Some(b) => b,
        None => 512,
    };
    let (stack_bytes, stack_words) = match app_stack_layout(requested) {
        Some(l) => l,
        None => {
            return Err(DeclError::StackTooLarge);
        },
    };
    let name = match parsed.name {
        Some(n) => n,
        None => {
            let mut n: Vec<u8> = Vec::new();
            let mut k: usize = 0;
            while k < fn_name.len()
                invariant
                    0 <= k <= fn_name.len(),
                    n@ == fn_name@.subrange(0, k as int),
                decreases fn_name.len() - k,
            {
                n.push(fn_name[k]);
                k = k + 1;
                assert(n@ =~= fn_name@.subrange(0, k as int));
            }
            assert(fn_name@.subrange(0, fn_name.len() as int) =~= fn_name@);
            n
        },
    };
    Ok(AppDeclaration { id, name, stack_bytes, stack_words })
}

} // verus!
