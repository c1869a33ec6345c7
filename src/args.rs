use vstd::prelude::*;
use vstd::string::StrSliceExecFns;

verus! {

/// Whether `pat` occurs in `s` starting at position `i`.
pub open spec fn occurs_at(s: Seq<char>, pat: Seq<char>, i: int) -> bool {
    0 <= i && i + pat.len() <= s.len() && s.subrange(i, i + pat.len()) == pat
}

/// The first position at or after `k` where `pat` occurs in `s`.
pub open spec fn find_from(s: Seq<char>, pat: Seq<char>, k: int) -> Option<int>
    decreases s.len() + 1 - k,
{
    if k < 0 || k + pat.len() > s.len() {
        None
    } else if occurs_at(s, pat, k) {
        Some(k)
    } else {
        find_from(s, pat, k + 1)
    }
}

/// The text of `s` before the first occurrence of `pat` (all of `s` if there
/// is none).
pub open spec fn first_piece(s: Seq<char>, pat: Seq<char>) -> Seq<char> {
    match find_from(s, pat, 0) {
        Some(j) => s.subrange(0, j),
        None => s,
    }
}

/// The text of `s` between the first occurrence of `pat` and the next one (or
/// the end); none where `pat` does not occur.
pub open spec fn second_piece(s: Seq<char>, pat: Seq<char>) -> Option<Seq<char>> {
    match find_from(s, pat, 0) {
        None => None,
        Some(i) => {
            let start = i + pat.len();
            match find_from(s, pat, start) {
                Some(j) => Some(s.subrange(start, j)),
                None => Some(s.subrange(start, s.len() as int)),
            }
        },
    }
}

/// A class of characters that trimming removes from both ends of a text.
#[derive(Clone, Copy, Debug, PartialEq, Eq, Structural)]
pub enum CharClass {
    /// Characters with the Unicode White_Space property.
    Whitespace,
    /// The double quote.
    Quote,
}

/// Whether `c` has the Unicode White_Space property.
pub open spec fn is_white_space(c: char) -> bool {
    let u = c as u32;
    (0x09 <= u <= 0x0d) || u == 0x20 || u == 0x85 || u == 0xa0 || u == 0x1680 || (0x2000 <= u
        <= 0x200a) || u == 0x2028 || u == 0x2029 || u == 0x202f || u == 0x205f || u == 0x3000
}

/// Whether `class` holds `c`.
pub open spec fn in_class(c: char, class: CharClass) -> bool {
    match class {
        CharClass::Whitespace => is_white_space(c),
        CharClass::Quote => c == '"',
    }
}

/// `s` without its leading characters of `class`.
pub open spec fn trim_start(s: Seq<char>, class: CharClass) -> Seq<char>
    decreases s.len(),
{
    if s.len() > 0 && in_class(s[0], class) {
        trim_start(s.drop_first(), class)
    } else {
        s
    }
}

/// `s` without its trailing characters of `class`.
pub open spec fn trim_end(s: Seq<char>, class: CharClass) -> Seq<char>
    decreases s.len(),
{
    if s.len() > 0 && in_class(s.last(), class) {
        trim_end(s.drop_last(), class)
    } else {
        s
    }
}

/// `s` without the characters of `class` at either end.
pub open spec fn trimmed(s: Seq<char>, class: CharClass) -> Seq<char> {
    trim_end(trim_start(s, class), class)
}

/// The text given to `key` in an argument list such as
/// `price = 5000, token = "abc"`: what follows the first `key`, between the
/// first `=` and the next `=`, up to the first comma, with white space trimmed.
pub open spec fn arg_value(args: Seq<char>, key: Seq<char>) -> Option<Seq<char>> {
    match second_piece(args, key) {
        None => None,
        Some(after_key) => match second_piece(after_key, seq!['=']) {
            None => None,
            Some(v) => Some(
                trimmed(first_piece(trimmed(v, CharClass::Whitespace), seq![',']), CharClass::Whitespace),
            ),
        },
    }
}

/// Whether `c` is an ASCII decimal digit.
pub open spec fn is_digit(c: char) -> bool {
    '0' as u32 <= c as u32 <= '9' as u32
}

/// The value of a string of decimal digits.
pub open spec fn digits_value(s: Seq<char>) -> nat
    decreases s.len(),
{
    if s.len() == 0 {
        0
    } else {
        digits_value(s.drop_last()) * 10 + (s.last() as u32 - '0' as u32) as nat
    }
}

/// The value of `s` read as an unsigned decimal number no larger than `max`:
/// an optional `+` followed by one or more ASCII digits.
pub open spec fn unsigned_value(s: Seq<char>, max: nat) -> Option<nat> {
    let d = if s.len() > 0 && s[0] == '+' {
        s.drop_first()
    } else {
        s
    };
    if d.len() > 0 && (forall|i: int| 0 <= i < d.len() ==> is_digit(#[trigger] d[i]))
        && digits_value(d) <= max {
        Some(digits_value(d))
    } else {
        None
    }
}

/// Relies on `str::parse::<u64>`: an optional `+` followed by one or more
/// ASCII digits whose value fits in `u64`; anything else is an error.
#[verifier::external_body]
fn parse_u64(s: &str) -> (r: Option<u64>)
    ensures
        match unsigned_value(s@, u64::MAX as nat) {
            Some(v) => r == Some(v as u64),
            None => r is None,
        },
{
    s.parse::<u64>().ok()
}

/// Relies on `str::parse::<u8>`: an optional `+` followed by one or more
/// ASCII digits whose value fits in `u8`; anything else is an error.
#[verifier::external_body]
fn parse_u8(s: &str) -> (r: Option<u8>)
    ensures
        match unsigned_value(s@, u8::MAX as nat) {
            Some(v) => r == Some(v as u8),
            None => r is None,
        },
{
    s.parse::<u8>().ok()
}

/// Whether `pat` occurs in `s` at position `i`; `n` and `m` are the lengths of
/// `s` and `pat` in characters.
fn occurs_at_exec(s: &str, n: usize, pat: &str, m: usize, i: usize) -> (r: bool)
    requires
        n == s@.len(),
        m == pat@.len(),
    ensures
        r == occurs_at(s@, pat@, i as int),
{
    if m > n || i > n - m {
        return false;
    }
    let mut j: usize = 0;
    while j < m
        invariant
            j <= m,
            i + m <= n,
            n == s@.len(),
            m == pat@.len(),
            forall|t: int| 0 <= t < j ==> s@[i + t] == pat@[t],
        decreases m - j,
    {
        if s.get_char(i + j) != pat.get_char(j) {
            assert(s@.subrange(i as int, i + m)[j as int] != pat@[j as int]);
            return false;
        }
        j += 1;
    }
    assert(s@.subrange(i as int, i + m) =~= pat@);
    true
}

proof fn lemma_find_from_bounds(s: Seq<char>, pat: Seq<char>, k: int)
    ensures
        match find_from(s, pat, k) {
            Some(i) => k <= i && occurs_at(s, pat, i),
            None => true,
        },
    decreases s.len() + 1 - k,
{
    if !(k < 0 || k + pat.len() > s.len()) && !occurs_at(s, pat, k) {
        lemma_find_from_bounds(s, pat, k + 1);
    }
}

/// The first position at or after `k` where `pat` occurs in `s`.
fn find_from_exec(s: &str, n: usize, pat: &str, m: usize, k: usize) -> (r: Option<usize>)
    requires
        n == s@.len(),
        m == pat@.len(),
        m > 0,
    ensures
        match r {
            Some(i) => find_from(s@, pat@, k as int) == Some(i as int) && k <= i && i + m <= n,
            None => find_from(s@, pat@, k as int) is None,
        },
{
    proof {
        lemma_find_from_bounds(s@, pat@, k as int);
    }
    let mut i: usize = k;
    while m <= n && i <= n - m
        invariant
            k <= i,
            n == s@.len(),
            m == pat@.len(),
            m > 0,
            find_from(s@, pat@, k as int) == find_from(s@, pat@, i as int),
        decreases n + 1 - i,
    {
        if occurs_at_exec(s, n, pat, m, i) {
            return Some(i);
        }
        i += 1;
    }
    None
}

/// The text of `s` between the first occurrence of `pat` and the next one (or
/// the end).
fn second_piece_exec<'a>(s: &'a str, pat: &str) -> (r: Option<&'a str>)
    requires
        pat@.len() > 0,
    ensures
        match r {
            Some(t) => second_piece(s@, pat@) == Some(t@),
            None => second_piece(s@, pat@) is None,
        },
{
    let n = s.unicode_len();
    let m = pat.unicode_len();
    match find_from_exec(s, n, pat, m, 0) {
        None => None,
        Some(i) => {
            let start = i + m;
            match find_from_exec(s, n, pat, m, start) {
                Some(j) => Some(s.substring_char(start, j)),
                None => Some(s.substring_char(start, n)),
            }
        },
    }
}

/// The text of `s` before the first occurrence of `pat`.
fn first_piece_exec<'a>(s: &'a str, pat: &str) -> (r: &'a str)
    requires
        pat@.len() > 0,
    ensures
        r@ == first_piece(s@, pat@),
{
    let n = s.unicode_len();
    let m = pat.unicode_len();
    match find_from_exec(s, n, pat, m, 0) {
        Some(j) => s.substring_char(0, j),
        None => s,
    }
}

/// Whether `class` holds `c`.
fn in_class_exec(c: char, class: CharClass) -> (r: bool)
    ensures
        r == in_class(c, class),
{
    match class {
        CharClass::Whitespace => {
            let u = c as u32;
            (0x09 <= u && u <= 0x0d) || u == 0x20 || u == 0x85 || u == 0xa0 || u == 0x1680 || (
            0x2000 <= u && u <= 0x200a) || u == 0x2028 || u == 0x2029 || u == 0x202f || u
                == 0x205f || u == 0x3000
        },
        CharClass::Quote => c == '"',
    }
}

/// `s` without the characters of `class` at either end.
pub fn trim_class<'a>(s: &'a str, class: CharClass) -> (r: &'a str)
    ensures
        r@ == trimmed(s@, class),
{
    let n = s.unicode_len();
    let mut lo: usize = 0;
    assert(s@.subrange(0, n as int) =~= s@);
    while lo < n && in_class_exec(s.get_char(lo), class)
        invariant
            lo <= n,
            n == s@.len(),
            trim_start(s@, class) == trim_start(s@.subrange(lo as int, n as int), class),
        decreases n - lo,
    {
        assert(s@.subrange(lo as int, n as int).drop_first() =~= s@.subrange(lo + 1, n as int));
        lo += 1;
    }
    assert(trim_start(s@, class) == s@.subrange(lo as int, n as int));
    let mut hi: usize = n;
    while hi > lo && in_class_exec(s.get_char(hi - 1), class)
        invariant
            lo <= hi <= n,
            n == s@.len(),
            trimmed(s@, class) == trim_end(s@.subrange(lo as int, hi as int), class),
        decreases hi,
    {
        assert(s@.subrange(lo as int, hi as int).drop_last() =~= s@.subrange(
            lo as int,
            hi - 1,
        ));
        hi -= 1;
    }
    s.substring_char(lo, hi)
}

/// The text given to `key` in the argument list `args` (see [`arg_value`]).
pub fn extract_value<'a>(args: &'a str, key: &str) -> (r: Option<&'a str>)
    requires
        key@.len() > 0,
    ensures
        match r {
            Some(t) => arg_value(args@, key@) == Some(t@),
            None => arg_value(args@, key@) is None,
        },
{
    let after_key = match second_piece_exec(args, key) {
        Some(t) => t,
        None => return None,
    };
    let eq = "=";
    proof {
        reveal_strlit("=");
        assert(eq@ =~= seq!['=']);
    }
    let v = match second_piece_exec(after_key, eq) {
        Some(t) => t,
        None => return None,
    };
    let comma = ",";
    proof {
        reveal_strlit(",");
        assert(comma@ =~= seq![',']);
    }
    let head = first_piece_exec(trim_class(v, CharClass::Whitespace), comma);
    Some(trim_class(head, CharClass::Whitespace))
}

/// The price given in an argument list, as in `price = 5000`.
pub fn extract_price(args: &str) -> (r: Option<u64>)
    ensures
        match arg_value(args@, "price"@) {
            Some(v) => match unsigned_value(v, u64::MAX as nat) {
                Some(p) => r == Some(p as u64),
                None => r is None,
            },
            None => r is None,
        },
{
    let key = "price";
    proof {
        reveal_strlit("price");
    }
    match extract_value(args, key) {
        Some(v) => parse_u64(v),
        None => None,
    }
}

/// The token given in an argument list, as in `token = "abc"`, without its
/// quotes.
pub fn extract_token(args: &str) -> (r: Option<String>)
    ensures
        match arg_value(args@, "token"@) {
            Some(v) => r matches Some(t) && t@ == trimmed(v, CharClass::Quote),
            None => r is None,
        },
{
    let key = "token";
    proof {
        reveal_strlit("token");
    }
    match extract_value(args, key) {
        Some(v) => Some(trim_class(v, CharClass::Quote).to_owned()),
        None => None,
    }
}

/// The facilitator fee given in an argument list, as in
/// `facilitator_fee = 2`.
pub fn extract_facilitator_fee(args: &str) -> (r: Option<u8>)
    ensures
        match arg_value(args@, "facilitator_fee"@) {
            Some(v) => match unsigned_value(v, u8::MAX as nat) {
                Some(f) => r == Some(f as u8),
                None => r is None,
            },
            None => r is None,
        },
{
    let key = "facilitator_fee";
    proof {
        reveal_strlit("facilitator_fee");
    }
    match extract_value(args, key) {
        Some(v) => parse_u8(v),
        None => None,
    }
}

/// The recipient given in an argument list, as in `recipient = "abc"`,
/// without its quotes.
pub fn extract_recipient(args: &str) -> (r: Option<String>)
    ensures
        match arg_value(args@, "recipient"@) {
            Some(v) => r matches Some(t) && t@ == trimmed(v, CharClass::Quote),
            None => r is None,
        },
{
    let key = "recipient";
    proof {
        reveal_strlit("recipient");
    }
    match extract_value(args, key) {
        Some(v) => Some(trim_class(v, CharClass::Quote).to_owned()),
        None => None,
    }
}

/// Price used when an argument list gives none that can be read.
pub const DEFAULT_PRICE: u64 = 1_000_000;

/// Facilitator fee used when an argument list gives none that can be read.
pub const DEFAULT_FACILITATOR_FEE: u8 = 0;

/// The settings of a payment gate, as an argument list gives them.
#[derive(Clone, Debug)]
pub struct GateArgs {
    pub price: u64,
    pub token: String,
    pub facilitator_fee: u8,
    pub recipient: Option<String>,
}

/// Reads the settings of a payment gate from an argument list such as
/// `price = 5000, token = "abc"`; a price, token or fee that is missing or
/// unreadable takes its default: `DEFAULT_PRICE`, `default_token`,
/// `DEFAULT_FACILITATOR_FEE`.
pub fn parse_gate_args(args: &str, default_token: &str) -> (r: GateArgs)
    ensures
        match arg_value(args@, "price"@) {
            Some(v) => match unsigned_value(v, u64::MAX as nat) {
                Some(p) => r.price == p as u64,
                None => r.price == DEFAULT_PRICE,
            },
            None => r.price == DEFAULT_PRICE,
        },
        match arg_value(args@, "token"@) {
            Some(v) => r.token@ == trimmed(v, CharClass::Quote),
            None => r.token@ == default_token@,
        },
        match arg_value(args@, "facilitator_fee"@) {
            Some(v) => match unsigned_value(v, u8::MAX as nat) {
                Some(f) => r.facilitator_fee == f as u8,
                None => r.facilitator_fee == DEFAULT_FACILITATOR_FEE,
            },
            None => r.facilitator_fee == DEFAULT_FACILITATOR_FEE,
        },
        match arg_value(args@, "recipient"@) {
            Some(v) => r.recipient matches Some(t) && t@ == trimmed(v, CharClass::Quote),
            None => r.recipient is None,
        },
{
    let price = match extract_price(args) {
        Some(p) => p,
        None => DEFAULT_PRICE,
    };
    let token = match extract_token(args) {
        Some(t) => t,
        None => default_token.to_owned(),
    };
    let facilitator_fee = match extract_facilitator_fee(args) {
        Some(f) => f,
        None => DEFAULT_FACILITATOR_FEE,
    };
    let recipient = extract_recipient(args);
    GateArgs { price, token, facilitator_fee, recipient }
}

} // verus!
