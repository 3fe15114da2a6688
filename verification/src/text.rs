//! Text helpers: decimal rendering and parsing of integers, lexicographic
//! comparison of character sequences and lower-casing.

use vstd::prelude::*;

verus! {

/// The character of a decimal digit `d` (0..=9).
pub open spec fn digit_char(d: nat) -> char {
    (('0' as int) + d) as char
}

/// The decimal rendering of `n`, most significant digit first, without
/// leading zeros ("0" for zero).
pub open spec fn decimal(n: nat) -> Seq<char>
    decreases n,
{
    if n < 10 {
        seq![digit_char(n)]
    } else {
        decimal(n / 10).push(digit_char(n % 10))
    }
}

fn digit_str(d: u64) -> (s: &'static str)
    requires
        d < 10,
    ensures
        s@ == seq![digit_char(d as nat)],
{
    match d {
        0 => { proof { reveal_strlit("0"); } "0" },
        1 => { proof { reveal_strlit("1"); } "1" },
        2 => { proof { reveal_strlit("2"); } "2" },
        3 => { proof { reveal_strlit("3"); } "3" },
        4 => { proof { reveal_strlit("4"); } "4" },
        5 => { proof { reveal_strlit("5"); } "5" },
        6 => { proof { reveal_strlit("6"); } "6" },
        7 => { proof { reveal_strlit("7"); } "7" },
        8 => { proof { reveal_strlit("8"); } "8" },
        _ => { proof { reveal_strlit("9"); } "9" },
    }
}

/// Appends the decimal rendering of `n` to `out`.
pub fn push_decimal(out: &mut String, n: u64)
    ensures
        final(out)@ == old(out)@ + decimal(n as nat),
    decreases n,
{
    if n >= 10 {
        push_decimal(out, n / 10);
    }
    out.append(digit_str(n % 10));
}

/// The decimal rendering of `n`, as `n.to_string()` gives it.
pub fn decimal_string(n: u64) -> (s: String)
    ensures
        s@ == decimal(n as nat),
{
    let mut s = String::new();
    push_decimal(&mut s, n);
    assert(s@ =~= decimal(n as nat));
    s
}


/// Whether `c` is an ASCII decimal digit.
pub open spec fn is_digit(c: char) -> bool {
    '0' <= c && c <= '9'
}

/// The value of the decimal digit `c`.
pub open spec fn digit_value(c: char) -> nat {
    ((c as int) - ('0' as int)) as nat
}

/// Why a text is not an unsigned integer, as `core::num::IntErrorKind` tells it.
#[derive(Clone, Copy, Debug, PartialEq, Eq, Structural)]
pub enum IntParseError {
    /// The text is empty.
    Empty,
    /// The text holds a character that is not a digit (a lone sign counts).
    InvalidDigit,
    /// The value does not fit in the integer type.
    PosOverflow,
}

/// The text `ParseIntError` displays for each kind.
pub open spec fn int_parse_error_text(e: IntParseError) -> Seq<char> {
    match e {
        IntParseError::Empty => "cannot parse integer from empty string"@,
        IntParseError::InvalidDigit => "invalid digit found in string"@,
        IntParseError::PosOverflow => "number too large to fit in target type"@,
    }
}

impl IntParseError {
    /// The text shown for the error.
    pub fn message(&self) -> (r: String)
        ensures
            r@ == int_parse_error_text(*self),
    {
        match self {
            IntParseError::Empty => String::from_str("cannot parse integer from empty string"),
            IntParseError::InvalidDigit => String::from_str("invalid digit found in string"),
            IntParseError::PosOverflow => String::from_str("number too large to fit in target type"),
        }
    }
}

/// Reads the digits `d` left to right onto the value `acc`: the first
/// character that is not a digit is an invalid digit, and the first digit
/// that takes the value past `u64::MAX` is an overflow.
pub open spec fn digits_outcome(d: Seq<char>, acc: nat) -> Result<u64, IntParseError>
    decreases d.len(),
{
    if d.len() == 0 {
        Ok(acc as u64)
    } else if !is_digit(d[0]) {
        Err(IntParseError::InvalidDigit)
    } else if acc * 10 + digit_value(d[0]) > u64::MAX {
        Err(IntParseError::PosOverflow)
    } else {
        digits_outcome(d.drop_first(), acc * 10 + digit_value(d[0]))
    }
}

/// The digits part of an unsigned decimal literal: `s` without one leading `+`.
pub open spec fn unsigned_digits(s: Seq<char>) -> Seq<char> {
    if s.len() > 0 && s[0] == '+' {
        s.drop_first()
    } else {
        s
    }
}

/// What `str::parse::<u64>` gives for `s`: an optional `+` followed by
/// decimal digits only, read left to right.
pub open spec fn parsed_u64(s: Seq<char>) -> Result<u64, IntParseError> {
    if s.len() == 0 {
        Err(IntParseError::Empty)
    } else if unsigned_digits(s).len() == 0 {
        Err(IntParseError::InvalidDigit)
    } else {
        digits_outcome(unsigned_digits(s), 0)
    }
}

/// Parses an unsigned decimal integer as `str::parse::<u64>` does.
pub fn parse_u64(s: &str) -> (r: Result<u64, IntParseError>)
    ensures
        r == parsed_u64(s@),
{
    let n = s.unicode_len();
    if n == 0 {
        return Err(IntParseError::Empty);
    }
    let mut i: usize = 0;
    if s.get_char(0) == '+' {
        i = 1;
    }
    let start = i;
    let ghost d = unsigned_digits(s@);
    assert(d =~= s@.skip(start as int));
    if start == n {
        return Err(IntParseError::InvalidDigit);
    }
    let mut acc: u64 = 0;
    while i < n
        invariant
            start <= i <= n,
            n == s@.len(),
            d == unsigned_digits(s@),
            d.len() > 0,
            d == s@.skip(start as int),
            parsed_u64(s@) == digits_outcome(s@.skip(i as int), acc as nat),
        decreases n - i,
    {
        let c = s.get_char(i);
        let ghost rest = s@.skip(i as int);
        assert(rest[0] == c);
        assert(rest.drop_first() =~= s@.skip(i + 1));
        if !('0' <= c && c <= '9') {
            return Err(IntParseError::InvalidDigit);
        }
        let dv: u64 = (c as u32 - '0' as u32) as u64;
        if acc > 1844674407370955161u64 || (acc == 1844674407370955161u64 && dv > 5) {
            return Err(IntParseError::PosOverflow);
        }
        acc = acc * 10 + dv;
        i = i + 1;
    }
    assert(s@.skip(i as int).len() == 0);
    Ok(acc)
}

proof fn lemma_digit_char(d: nat)
    requires
        d < 10,
    ensures
        is_digit(digit_char(d)),
        digit_value(digit_char(d)) == d,
{
}

proof fn lemma_decimal_digits(n: nat)
    ensures
        decimal(n).len() > 0,
        forall|i: int| 0 <= i < decimal(n).len() ==> #[trigger] is_digit(decimal(n)[i]),
    decreases n,
{
    lemma_digit_char(n % 10);
    if n >= 10 {
        lemma_decimal_digits(n / 10);
        assert forall|i: int| 0 <= i < decimal(n).len() implies #[trigger] is_digit(decimal(n)[i]) by {
            if i < decimal(n / 10).len() {
                assert(decimal(n)[i] == decimal(n / 10)[i]);
            }
        }
    }
}

proof fn lemma_digits_outcome_push(a: Seq<char>, c: char, acc: nat)
    requires
        is_digit(c),
        acc <= u64::MAX,
    ensures
        digits_outcome(a.push(c), acc) == match digits_outcome(a, acc) {
            Ok(v) => if v * 10 + digit_value(c) > u64::MAX {
                Err(IntParseError::PosOverflow)
            } else {
                Ok((v * 10 + digit_value(c)) as u64)
            },
            Err(e) => Err(e),
        },
    decreases a.len(),
{
    let t = a.push(c);
    if a.len() > 0 {
        assert(t.drop_first() =~= a.drop_first().push(c));
        assert(t[0] == a[0]);
        if is_digit(a[0]) && acc * 10 + digit_value(a[0]) <= u64::MAX {
            let acc2 = acc * 10 + digit_value(a[0]);
            lemma_digits_outcome_push(a.drop_first(), c, acc2);
            assert(digits_outcome(t, acc) == digits_outcome(t.drop_first(), acc2));
            assert(digits_outcome(a, acc) == digits_outcome(a.drop_first(), acc2));
        }
    } else {
        assert(t.drop_first() =~= Seq::<char>::empty());
        assert(t[0] == c);
        assert(digits_outcome(a, acc) == Ok::<u64, IntParseError>(acc as u64));
        let acc2 = acc * 10 + digit_value(c);
        if acc2 <= u64::MAX {
            assert(digits_outcome(t.drop_first(), acc2) == Ok::<u64, IntParseError>(acc2 as u64));
            assert(digits_outcome(t, acc) == Ok::<u64, IntParseError>(acc2 as u64));
        }
    }
}

proof fn lemma_digits_outcome_decimal(n: nat)
    requires
        n <= u64::MAX,
    ensures
        digits_outcome(decimal(n), 0) == Ok::<u64, IntParseError>(n as u64),
    decreases n,
{
    lemma_digit_char(n % 10);
    if n < 10 {
        assert(decimal(n) =~= Seq::<char>::empty().push(digit_char(n)));
        lemma_digits_outcome_push(Seq::<char>::empty(), digit_char(n), 0);
        assert(digits_outcome(Seq::<char>::empty(), 0) == Ok::<u64, IntParseError>(0));
    } else {
        lemma_digits_outcome_decimal(n / 10);
        lemma_digits_outcome_push(decimal(n / 10), digit_char(n % 10), 0);
        assert((n / 10) * 10 + n % 10 == n) by (nonlinear_arith);
    }
}

/// Reading back the decimal rendering of a number gives the number.
pub proof fn law_decimal_parses_back(n: u64)
    ensures
        parsed_u64(decimal(n as nat)) == Ok::<u64, IntParseError>(n),
{
    lemma_decimal_digits(n as nat);
    assert(is_digit(decimal(n as nat)[0]));
    assert(unsigned_digits(decimal(n as nat)) == decimal(n as nat));
    lemma_digits_outcome_decimal(n as nat);
}

/// The outcome of comparing two values.
#[derive(PartialEq, Eq, Structural, Clone, Copy, Debug)]
pub enum Order {
    Less,
    Equal,
    Greater,
}

/// Lexicographic comparison of character sequences by code point, which is
/// the order `str` and `String` have (UTF-8 preserves code point order).
pub open spec fn text_order(a: Seq<char>, b: Seq<char>) -> Order
    decreases a.len(),
{
    if a.len() == 0 {
        if b.len() == 0 {
            Order::Equal
        } else {
            Order::Less
        }
    } else if b.len() == 0 {
        Order::Greater
    } else if a[0] < b[0] {
        Order::Less
    } else if a[0] > b[0] {
        Order::Greater
    } else {
        text_order(a.drop_first(), b.drop_first())
    }
}

proof fn lemma_text_order_step(a: Seq<char>, b: Seq<char>, i: int)
    requires
        0 <= i < a.len(),
        i < b.len(),
        a[i] == b[i],
    ensures
        text_order(a.skip(i), b.skip(i)) == text_order(a.skip(i + 1), b.skip(i + 1)),
{
    assert(a.skip(i).drop_first() =~= a.skip(i + 1));
    assert(b.skip(i).drop_first() =~= b.skip(i + 1));
}

/// Compares two texts lexicographically by code point.
pub fn compare_text(a: &str, b: &str) -> (r: Order)
    ensures
        r == text_order(a@, b@),
        r == Order::Equal <==> a@ == b@,
{
    let la = a.unicode_len();
    let lb = b.unicode_len();
    let mut i: usize = 0;
    assert(a@.skip(0) =~= a@);
    assert(b@.skip(0) =~= b@);
    while i < la && i < lb
        invariant
            la == a@.len(),
            lb == b@.len(),
            i <= la,
            i <= lb,
            text_order(a@, b@) == text_order(a@.skip(i as int), b@.skip(i as int)),
            a@.subrange(0, i as int) == b@.subrange(0, i as int),
        decreases la - i,
    {
        let ca = a.get_char(i);
        let cb = b.get_char(i);
        if ca < cb {
            assert(a@.skip(i as int)[0] == ca);
            assert(b@.skip(i as int)[0] == cb);
            assert(a@ != b@) by { assert(a@[i as int] != b@[i as int]); }
            return Order::Less;
        }
        if ca > cb {
            assert(a@.skip(i as int)[0] == ca);
            assert(b@.skip(i as int)[0] == cb);
            assert(a@ != b@) by { assert(a@[i as int] != b@[i as int]); }
            return Order::Greater;
        }
        assert(ca == cb);
        proof {
            lemma_text_order_step(a@, b@, i as int);
            assert(a@.subrange(0, i + 1) =~= a@.subrange(0, i as int).push(ca));
            assert(b@.subrange(0, i + 1) =~= b@.subrange(0, i as int).push(cb));
        }
        i = i + 1;
    }
    if la < lb {
        assert(a@.skip(i as int).len() == 0);
        assert(a@ != b@);
        Order::Less
    } else if la > lb {
        assert(b@.skip(i as int).len() == 0);
        assert(a@ != b@);
        Order::Greater
    } else {
        assert(a@.skip(i as int).len() == 0);
        assert(a@ =~= a@.subrange(0, i as int));
        assert(b@ =~= b@.subrange(0, i as int));
        Order::Equal
    }
}

/// Optional texts in order: no text first, then texts in text order.
pub open spec fn opt_text_order(a: Option<Seq<char>>, b: Option<Seq<char>>) -> Order {
    match (a, b) {
        (None, None) => Order::Equal,
        (None, Some(_)) => Order::Less,
        (Some(_), None) => Order::Greater,
        (Some(x), Some(y)) => text_order(x, y),
    }
}

/// The view of an optional text.
pub open spec fn opt_view(o: Option<String>) -> Option<Seq<char>> {
    match o {
        Some(s) => Some(s@),
        None => None,
    }
}

/// Compares two optional texts: no text before any text.
pub fn compare_opt_text(a: &Option<String>, b: &Option<String>) -> (r: Order)
    ensures
        r == opt_text_order(opt_view(*a), opt_view(*b)),
{
    match (a, b) {
        (None, None) => Order::Equal,
        (None, Some(_)) => Order::Less,
        (Some(_), None) => Order::Greater,
        (Some(x), Some(y)) => compare_text(x.as_str(), y.as_str()),
    }
}

/// Lists of texts in lexicographic order, element by element.
pub open spec fn texts_order(a: Seq<Seq<char>>, b: Seq<Seq<char>>) -> Order
    decreases a.len(),
{
    if a.len() == 0 {
        if b.len() == 0 {
            Order::Equal
        } else {
            Order::Less
        }
    } else if b.len() == 0 {
        Order::Greater
    } else if text_order(a[0], b[0]) != Order::Equal {
        text_order(a[0], b[0])
    } else {
        texts_order(a.drop_first(), b.drop_first())
    }
}

/// Compares two lists of texts lexicographically.
pub fn compare_texts(a: &Vec<String>, b: &Vec<String>) -> (r: Order)
    ensures
        r == texts_order(texts_view(a@), texts_view(b@)),
{
    let ghost va = texts_view(a@);
    let ghost vb = texts_view(b@);
    assert(va.skip(0) =~= va);
    assert(vb.skip(0) =~= vb);
    let mut i: usize = 0;
    while i < a.len() && i < b.len()
        invariant
            va == texts_view(a@),
            vb == texts_view(b@),
            i <= a.len(),
            i <= b.len(),
            texts_order(va, vb) == texts_order(va.skip(i as int), vb.skip(i as int)),
        decreases a.len() - i,
    {
        assert(va.skip(i as int)[0] == a@[i as int]@);
        assert(vb.skip(i as int)[0] == b@[i as int]@);
        assert(va.skip(i as int).drop_first() =~= va.skip(i + 1));
        assert(vb.skip(i as int).drop_first() =~= vb.skip(i + 1));
        let c = compare_text(a[i].as_str(), b[i].as_str());
        match c {
            Order::Equal => {},
            _ => { return c; },
        }
        i = i + 1;
    }
    if a.len() == i && b.len() == i {
        assert(va.skip(i as int).len() == 0 && vb.skip(i as int).len() == 0);
        Order::Equal
    } else if a.len() == i {
        assert(va.skip(i as int).len() == 0 && vb.skip(i as int).len() > 0);
        Order::Less
    } else {
        assert(va.skip(i as int).len() > 0 && vb.skip(i as int).len() == 0);
        Order::Greater
    }
}

/// The order seen from the other side.
pub open spec fn flipped(o: Order) -> Order {
    match o {
        Order::Less => Order::Greater,
        Order::Equal => Order::Equal,
        Order::Greater => Order::Less,
    }
}

/// Text order is lexicographic by code point: a text comes before another
/// that agrees with it on the first `k` characters and has a greater
/// character at position `k`, and before every longer text it begins.
pub proof fn law_text_order_lexicographic(a: Seq<char>, b: Seq<char>, k: int)
    requires
        0 <= k <= a.len(),
        k <= b.len(),
        a.subrange(0, k) == b.subrange(0, k),
    ensures
        k < a.len() && k < b.len() && a[k] < b[k] ==> text_order(a, b) == Order::Less,
        k == a.len() && a.len() < b.len() ==> text_order(a, b) == Order::Less,
    decreases k,
{
    if k > 0 {
        assert(a[0] == a.subrange(0, k)[0]);
        assert(b[0] == b.subrange(0, k)[0]);
        let (a1, b1) = (a.drop_first(), b.drop_first());
        assert(a1.subrange(0, k - 1) =~= a.subrange(0, k).drop_first());
        assert(b1.subrange(0, k - 1) =~= b.subrange(0, k).drop_first());
        law_text_order_lexicographic(a1, b1, k - 1);
        if k < a.len() && k < b.len() {
            assert(a1[k - 1] == a[k] && b1[k - 1] == b[k]);
        }
    }
}

/// Text order is antisymmetric and only equal texts compare equal.
pub proof fn lemma_text_order_flip(a: Seq<char>, b: Seq<char>)
    ensures
        text_order(b, a) == flipped(text_order(a, b)),
        text_order(a, b) == Order::Equal <==> a == b,
    decreases a.len(),
{
    if a.len() > 0 && b.len() > 0 {
        lemma_text_order_flip(a.drop_first(), b.drop_first());
        if a[0] == b[0] && a.drop_first() == b.drop_first() {
            assert(a =~= seq![a[0]] + a.drop_first());
            assert(b =~= seq![b[0]] + b.drop_first());
        }
        if a == b {
            assert(a.drop_first() == b.drop_first());
        }
    } else if a.len() == 0 && b.len() == 0 {
        assert(a =~= b);
    }
}

/// Text order is transitive.
pub proof fn lemma_text_order_trans(a: Seq<char>, b: Seq<char>, c: Seq<char>)
    requires
        text_order(a, b) == Order::Less,
        text_order(b, c) == Order::Less,
    ensures
        text_order(a, c) == Order::Less,
    decreases a.len(),
{
    if a.len() > 0 && b.len() > 0 && c.len() > 0 {
        if a[0] == b[0] && b[0] == c[0] {
            lemma_text_order_trans(a.drop_first(), b.drop_first(), c.drop_first());
        }
    }
}

/// Strictly-less on texts is a strict weak order (it is a strict total order).
pub proof fn lemma_text_less_strict_weak(a: Seq<char>, b: Seq<char>, c: Seq<char>)
    requires
        text_order(a, b) == Order::Less,
    ensures
        text_order(b, a) != Order::Less,
        text_order(a, c) == Order::Less || text_order(c, b) == Order::Less,
{
    lemma_text_order_flip(a, b);
    lemma_text_order_flip(a, c);
    if text_order(a, c) == Order::Greater {
        lemma_text_order_trans(c, a, b);
    }
}

/// Optional text order is antisymmetric and only equal values compare equal.
pub proof fn lemma_opt_text_order_flip(a: Option<Seq<char>>, b: Option<Seq<char>>)
    ensures
        opt_text_order(b, a) == flipped(opt_text_order(a, b)),
        opt_text_order(a, b) == Order::Equal <==> a == b,
{
    if let (Some(x), Some(y)) = (a, b) {
        lemma_text_order_flip(x, y);
    }
}

/// Optional text order is transitive.
pub proof fn lemma_opt_text_order_trans(a: Option<Seq<char>>, b: Option<Seq<char>>, c: Option<Seq<char>>)
    requires
        opt_text_order(a, b) == Order::Less,
        opt_text_order(b, c) == Order::Less,
    ensures
        opt_text_order(a, c) == Order::Less,
{
    if let (Some(x), Some(y), Some(z)) = (a, b, c) {
        lemma_text_order_trans(x, y, z);
    }
}

/// Strictly-less on optional texts is a strict weak order.
pub proof fn lemma_opt_text_less_strict_weak(a: Option<Seq<char>>, b: Option<Seq<char>>, c: Option<Seq<char>>)
    requires
        opt_text_order(a, b) == Order::Less,
    ensures
        opt_text_order(b, a) != Order::Less,
        opt_text_order(a, c) == Order::Less || opt_text_order(c, b) == Order::Less,
{
    lemma_opt_text_order_flip(a, b);
    lemma_opt_text_order_flip(a, c);
    if opt_text_order(a, c) == Order::Greater {
        lemma_opt_text_order_trans(c, a, b);
    }
}

/// Order of text lists is antisymmetric and only equal lists compare equal.
pub proof fn lemma_texts_order_flip(a: Seq<Seq<char>>, b: Seq<Seq<char>>)
    ensures
        texts_order(b, a) == flipped(texts_order(a, b)),
        texts_order(a, b) == Order::Equal <==> a == b,
    decreases a.len(),
{
    if a.len() > 0 && b.len() > 0 {
        lemma_text_order_flip(a[0], b[0]);
        lemma_texts_order_flip(a.drop_first(), b.drop_first());
        if a[0] == b[0] && a.drop_first() == b.drop_first() {
            assert(a =~= seq![a[0]] + a.drop_first());
            assert(b =~= seq![b[0]] + b.drop_first());
        }
        if a == b {
            assert(a.drop_first() == b.drop_first());
        }
    } else if a.len() == 0 && b.len() == 0 {
        assert(a =~= b);
    }
}

/// Order of text lists is transitive.
pub proof fn lemma_texts_order_trans(a: Seq<Seq<char>>, b: Seq<Seq<char>>, c: Seq<Seq<char>>)
    requires
        texts_order(a, b) == Order::Less,
        texts_order(b, c) == Order::Less,
    ensures
        texts_order(a, c) == Order::Less,
    decreases a.len(),
{
    if a.len() > 0 && b.len() > 0 && c.len() > 0 {
        lemma_text_order_flip(a[0], b[0]);
        lemma_text_order_flip(b[0], c[0]);
        lemma_text_order_flip(a[0], c[0]);
        let ab = text_order(a[0], b[0]);
        let bc = text_order(b[0], c[0]);
        if ab == Order::Less && bc == Order::Less {
            lemma_text_order_trans(a[0], b[0], c[0]);
        } else if ab == Order::Equal && bc == Order::Equal {
            lemma_texts_order_trans(a.drop_first(), b.drop_first(), c.drop_first());
        }
    }
}

/// Optional text lists in order: no list first, then lists in list order.
pub open spec fn opt_texts_order(a: Option<Seq<Seq<char>>>, b: Option<Seq<Seq<char>>>) -> Order {
    match (a, b) {
        (None, None) => Order::Equal,
        (None, Some(_)) => Order::Less,
        (Some(_), None) => Order::Greater,
        (Some(x), Some(y)) => texts_order(x, y),
    }
}

/// Optional text list order is antisymmetric and only equal values compare
/// equal.
pub proof fn lemma_opt_texts_order_flip(a: Option<Seq<Seq<char>>>, b: Option<Seq<Seq<char>>>)
    ensures
        opt_texts_order(b, a) == flipped(opt_texts_order(a, b)),
        opt_texts_order(a, b) == Order::Equal <==> a == b,
{
    if let (Some(x), Some(y)) = (a, b) {
        lemma_texts_order_flip(x, y);
    }
}

/// Optional text list order is transitive.
pub proof fn lemma_opt_texts_order_trans(a: Option<Seq<Seq<char>>>, b: Option<Seq<Seq<char>>>, c: Option<Seq<Seq<char>>>)
    requires
        opt_texts_order(a, b) == Order::Less,
        opt_texts_order(b, c) == Order::Less,
    ensures
        opt_texts_order(a, c) == Order::Less,
{
    if let (Some(x), Some(y), Some(z)) = (a, b, c) {
        lemma_texts_order_trans(x, y, z);
    }
}

/// Whether two texts are equal.
pub fn same_text(a: &str, b: &str) -> (r: bool)
    ensures
        r == (a@ == b@),
{
    match compare_text(a, b) {
        Order::Equal => true,
        _ => false,
    }
}

/// What `str::to_lowercase` gives for a text: the Unicode lower-case mapping,
/// which takes tables to state and depends on the text alone.
pub uninterp spec fn lowercase(s: Seq<char>) -> Seq<char>;

/// Lower-cases `s` with the standard library's `str::to_lowercase`. The result
/// is named `lowercase` of the text; nothing more of it is stated.
#[verifier::external_body]
pub(crate) fn to_lowercase(s: &str) -> (r: String)
    ensures
        r@ == lowercase(s@),
{
    s.to_lowercase()
}


/// The text `a` followed by the text `b`.
pub fn joined(a: &str, b: &str) -> (r: String)
    ensures
        r@ == a@ + b@,
{
    let s = String::from_str(a);
    s.concat(b)
}

/// A copy of an optional text.
pub fn copy_opt_text(o: &Option<String>) -> (r: Option<String>)
    ensures
        r == *o,
{
    match o {
        Some(s) => Some(s.clone()),
        None => None,
    }
}

/// A copy of a list of texts.
pub fn copy_texts(v: &Vec<String>) -> (r: Vec<String>)
    ensures
        r@ == v@,
{
    let mut r: Vec<String> = Vec::new();
    for i in 0..v.len()
        invariant
            r@ == v@.subrange(0, i as int),
    {
        r.push(v[i].clone());
        assert(r@ =~= v@.subrange(0, i + 1));
    }
    assert(v@.subrange(0, v.len() as int) =~= v@);
    r
}

/// The character views of a list of texts.
pub open spec fn texts_view(v: Seq<String>) -> Seq<Seq<char>> {
    v.map_values(|s: String| s@)
}

/// Whether `p` is a prefix of `s`.
pub open spec fn has_prefix(s: Seq<char>, p: Seq<char>) -> bool {
    p.len() <= s.len() && s.subrange(0, p.len() as int) == p
}

/// Whether the text `s` starts with the text `p`, as `str::starts_with` with a
/// text pattern decides.
pub fn starts_with(s: &str, p: &str) -> (r: bool)
    ensures
        r == has_prefix(s@, p@),
{
    let ls = s.unicode_len();
    let lp = p.unicode_len();
    if lp > ls {
        return false;
    }
    let mut i: usize = 0;
    while i < lp
        invariant
            ls == s@.len(),
            lp == p@.len(),
            lp <= ls,
            i <= lp,
            s@.subrange(0, i as int) == p@.subrange(0, i as int),
        decreases lp - i,
    {
        if s.get_char(i) != p.get_char(i) {
            assert(s@.subrange(0, lp as int)[i as int] != p@[i as int]);
            return false;
        }
        assert(s@.subrange(0, i + 1) =~= s@.subrange(0, i as int).push(s@[i as int]));
        assert(p@.subrange(0, i + 1) =~= p@.subrange(0, i as int).push(p@[i as int]));
        i = i + 1;
    }
    assert(p@.subrange(0, lp as int) =~= p@);
    true
}

} // verus!
