use vstd::prelude::*;

verus! {

/// The character of a decimal digit `d < 10`.
pub open spec fn digit_char(d: nat) -> char {
    if d == 0 {
        '0'
    } else if d == 1 {
        '1'
    } else if d == 2 {
        '2'
    } else if d == 3 {
        '3'
    } else if d == 4 {
        '4'
    } else if d == 5 {
        '5'
    } else if d == 6 {
        '6'
    } else if d == 7 {
        '7'
    } else if d == 8 {
        '8'
    } else {
        '9'
    }
}

/// The decimal representation of `n`, without sign or leading zeros.
pub open spec fn decimal(n: nat) -> Seq<char>
    decreases n,
{
    if n < 10 {
        seq![digit_char(n)]
    } else {
        decimal(n / 10).push(digit_char(n % 10))
    }
}

fn digit_text(d: u32) -> (r: &'static str)
    requires
        d < 10,
    ensures
        r@ == seq![digit_char(d as nat)],
{
    proof {
        reveal_strlit("0");
        reveal_strlit("1");
        reveal_strlit("2");
        reveal_strlit("3");
        reveal_strlit("4");
        reveal_strlit("5");
        reveal_strlit("6");
        reveal_strlit("7");
        reveal_strlit("8");
        reveal_strlit("9");
    }
    let r = match d {
        0 => "0",
        1 => "1",
        2 => "2",
        3 => "3",
        4 => "4",
        5 => "5",
        6 => "6",
        7 => "7",
        8 => "8",
        _ => "9",
    };
    assert(r@ =~= seq![digit_char(d as nat)]);
    r
}

/// Writes `n` in decimal.
pub fn decimal_text(n: u32) -> (r: String)
    ensures
        r@ == decimal(n as nat),
    decreases n,
{
    if n < 10 {
        String::from_str(digit_text(n))
    } else {
        let head = decimal_text(n / 10);
        let r = head.concat(digit_text(n % 10));
        assert(r@ =~= decimal(n as nat));
        r
    }
}

/// `pat` stands in `s` at index `i`.
pub open spec fn occurs_at(s: Seq<char>, pat: Seq<char>, i: int) -> bool {
    0 <= i && i + pat.len() <= s.len() && s.subrange(i, i + pat.len()) == pat
}

/// The first index at or after `from` where the non-empty `pat` stands in `s`.
pub open spec fn find_from(s: Seq<char>, pat: Seq<char>, from: int) -> Option<int>
    decreases s.len() - from,
{
    if from < 0 || from >= s.len() || from + pat.len() > s.len() {
        None
    } else if occurs_at(s, pat, from) {
        Some(from)
    } else {
        find_from(s, pat, from + 1)
    }
}

/// `pat` stands somewhere in `s`.
pub open spec fn contains(s: Seq<char>, pat: Seq<char>) -> bool {
    find_from(s, pat, 0) is Some
}

pub proof fn lemma_find_from_bounds(s: Seq<char>, pat: Seq<char>, from: int)
    requires
        0 <= from,
    ensures
        match find_from(s, pat, from) {
            Some(j) => from <= j < s.len() && occurs_at(s, pat, j) && forall|k: int|
                from <= k < j ==> !occurs_at(s, pat, k),
            None => forall|k: int| from <= k < s.len() ==> !occurs_at(s, pat, k),
        },
    decreases s.len() - from,
{
    if from < 0 || from >= s.len() || from + pat.len() > s.len() {
    } else if occurs_at(s, pat, from) {
    } else {
        lemma_find_from_bounds(s, pat, from + 1);
    }
}

/// The characters of `s`, in order.
pub fn chars_of(s: &str) -> (r: Vec<char>)
    ensures
        r@ == s@,
{
    let n = s.unicode_len();
    let mut r: Vec<char> = Vec::new();
    let mut i: usize = 0;
    while i < n
        invariant
            n == s@.len(),
            i <= n,
            r@ == s@.subrange(0, i as int),
        decreases n - i,
    {
        r.push(s.get_char(i));
        i = i + 1;
        assert(r@ =~= s@.subrange(0, i as int));
    }
    assert(r@ =~= s@);
    r
}

/// The characters of `s` from `lo` up to `hi`.
pub fn slice_chars(s: &Vec<char>, lo: usize, hi: usize) -> (r: Vec<char>)
    requires
        lo <= hi <= s@.len(),
    ensures
        r@ == s@.subrange(lo as int, hi as int),
{
    let mut r: Vec<char> = Vec::new();
    let mut i: usize = lo;
    while i < hi
        invariant
            lo <= i <= hi <= s@.len(),
            r@ == s@.subrange(lo as int, i as int),
        decreases hi - i,
    {
        r.push(s[i]);
        i = i + 1;
        assert(r@ =~= s@.subrange(lo as int, i as int));
    }
    r
}

fn matches_at(s: &Vec<char>, pat: &Vec<char>, i: usize) -> (r: bool)
    ensures
        r == occurs_at(s@, pat@, i as int),
{
    if pat.len() > s.len() || i > s.len() - pat.len() {
        return false;
    }
    let n = s.len();
    let mut k: usize = 0;
    while k < pat.len()
        invariant
            n == s@.len(),
            i + pat@.len() <= s@.len(),
            k <= pat@.len(),
            forall|m: int| 0 <= m < k ==> s@[i + m] == pat@[m],
        decreases pat@.len() - k,
    {
        if s[i + k] != pat[k] {
            assert(s@.subrange(i as int, i + pat@.len())[k as int] != pat@[k as int]);
            return false;
        }
        k = k + 1;
    }
    assert(s@.subrange(i as int, i + pat@.len()) =~= pat@);
    true
}

/// Searches `s` for `pat` from index `from` on.
pub fn find_in(s: &Vec<char>, pat: &Vec<char>, from: usize) -> (r: Option<usize>)
    requires
        pat@.len() > 0,
    ensures
        match r {
            Some(j) => find_from(s@, pat@, from as int) == Some(j as int),
            None => find_from(s@, pat@, from as int) is None,
        },
{
    let mut i: usize = from;
    while i < s.len() && pat.len() <= s.len() - i
        invariant
            from <= i,
            pat@.len() > 0,
            find_from(s@, pat@, from as int) == find_from(s@, pat@, i as int),
        decreases s@.len() - i,
    {
        if matches_at(s, pat, i) {
            return Some(i);
        }
        i = i + 1;
    }
    None
}

/// Why a text is not a `u32` in decimal.
#[derive(Clone, Copy, Debug, PartialEq, Eq, Structural)]
pub enum IntError {
    Empty,
    InvalidDigit,
    PosOverflow,
}

pub open spec fn is_digit(c: char) -> bool {
    '0' <= c && c <= '9'
}

pub open spec fn digit_value(c: char) -> nat {
    ((c as u32) - ('0' as u32)) as nat
}

/// Reads the digits of `s` from index `i` on, onto the value `acc` read so
/// far, left to right, stopping at the first character that breaks the
/// number: a step past `u32::MAX` or a non-digit.
pub open spec fn digits_from(s: Seq<char>, i: int, acc: nat) -> Result<nat, IntError>
    decreases s.len() - i,
{
    if i < 0 || i >= s.len() {
        Ok(acc)
    } else if acc * 10 > u32::MAX {
        Err(IntError::PosOverflow)
    } else if !is_digit(s[i]) {
        Err(IntError::InvalidDigit)
    } else if acc * 10 + digit_value(s[i]) > u32::MAX {
        Err(IntError::PosOverflow)
    } else {
        digits_from(s, i + 1, acc * 10 + digit_value(s[i]))
    }
}

/// A `u32` in decimal, with an optional leading `+`, as `str::parse` reads it.
pub open spec fn parse_u32(s: Seq<char>) -> Result<u32, IntError> {
    if s.len() == 0 {
        Err(IntError::Empty)
    } else if s.len() == 1 && (s[0] == '+' || s[0] == '-') {
        Err(IntError::InvalidDigit)
    } else {
        let start: int = if s[0] == '+' { 1 } else { 0 };
        match digits_from(s, start, 0) {
            Ok(v) => Ok(v as u32),
            Err(e) => Err(e),
        }
    }
}

/// How a parse failure reads.
pub open spec fn int_error_text(e: IntError) -> Seq<char> {
    match e {
        IntError::Empty => "cannot parse integer from empty string"@,
        IntError::InvalidDigit => "invalid digit found in string"@,
        IntError::PosOverflow => "number too large to fit in target type"@,
    }
}

impl IntError {
    pub fn text(&self) -> (r: &'static str)
        ensures
            r@ == int_error_text(*self),
    {
        match self {
            IntError::Empty => "cannot parse integer from empty string",
            IntError::InvalidDigit => "invalid digit found in string",
            IntError::PosOverflow => "number too large to fit in target type",
        }
    }
}

proof fn lemma_digits_bounded(s: Seq<char>, i: int, acc: nat)
    requires
        acc <= u32::MAX,
    ensures
        digits_from(s, i, acc) matches Ok(v) ==> v <= u32::MAX,
    decreases s.len() - i,
{
    if i < 0 || i >= s.len() {
    } else if acc * 10 > u32::MAX {
    } else if !is_digit(s[i]) {
    } else if acc * 10 + digit_value(s[i]) > u32::MAX {
    } else {
        lemma_digits_bounded(s, i + 1, acc * 10 + digit_value(s[i]));
    }
}

/// Reads `s[lo..hi]` as a `u32` in decimal.
pub fn parse_u32_in(s: &Vec<char>, lo: usize, hi: usize) -> (r: Result<u32, IntError>)
    requires
        lo <= hi <= s@.len(),
    ensures
        r == parse_u32(s@.subrange(lo as int, hi as int)),
{
    let ghost t = s@.subrange(lo as int, hi as int);
    if lo == hi {
        return Err(IntError::Empty);
    }
    if hi - lo == 1 && (s[lo] == '+' || s[lo] == '-') {
        return Err(IntError::InvalidDigit);
    }
    let mut i: usize = if s[lo] == '+' { lo + 1 } else { lo };
    let mut acc: u64 = 0;
    proof {
        lemma_digits_bounded(t, (i - lo) as int, 0);
    }
    while i < hi
        invariant
            lo <= i <= hi <= s@.len(),
            t == s@.subrange(lo as int, hi as int),
            acc <= u32::MAX,
            parse_u32(t) == (match digits_from(t, (i - lo) as int, acc as nat) {
                Ok(v) => Ok(v as u32),
                Err(e) => Err::<u32, IntError>(e),
            }),
        decreases hi - i,
    {
        let c = s[i];
        assert(t[(i - lo) as int] == c);
        if acc * 10 > 4294967295 {
            return Err(IntError::PosOverflow);
        }
        if !('0' <= c && c <= '9') {
            return Err(IntError::InvalidDigit);
        }
        let d: u64 = ((c as u32) - ('0' as u32)) as u64;
        if acc * 10 + d > 4294967295 {
            return Err(IntError::PosOverflow);
        }
        acc = acc * 10 + d;
        i = i + 1;
    }
    Ok(acc as u32)
}

/// The first occurrence of `pat` at or after `from` is at `i` when it stands
/// there and nowhere between.
pub proof fn lemma_find_first(s: Seq<char>, pat: Seq<char>, from: int, i: int)
    requires
        0 <= from <= i,
        pat.len() > 0,
        occurs_at(s, pat, i),
        forall|k: int| from <= k < i ==> !occurs_at(s, pat, k),
    ensures
        find_from(s, pat, from) == Some(i),
    decreases i - from,
{
    if from < i {
        lemma_find_first(s, pat, from + 1, i);
    }
}

/// A one-character pattern stands at `k` exactly when that character does.
pub proof fn lemma_occurs_single(s: Seq<char>, c: char, k: int)
    ensures
        occurs_at(s, seq![c], k) <==> (0 <= k < s.len() && s[k] == c),
{
    if 0 <= k < s.len() && s[k] == c {
        assert(s.subrange(k, k + 1) =~= seq![c]);
    }
    if occurs_at(s, seq![c], k) {
        assert(s.subrange(k, k + 1)[0] == c);
    }
}

/// Where a one-character pattern is first found, given where the character
/// first stands (or that it stands nowhere) from `from` on.
pub proof fn lemma_find_single(s: Seq<char>, c: char, from: int, i: int)
    requires
        0 <= from <= i <= s.len(),
        forall|k: int| from <= k < i ==> s[k] != c,
    ensures
        i < s.len() && s[i] == c ==> find_from(s, seq![c], from) == Some(i),
        i == s.len() ==> find_from(s, seq![c], from) is None,
{
    assert forall|k: int| from <= k < i implies !occurs_at(s, seq![c], k) by {
        lemma_occurs_single(s, c, k);
    }
    if i < s.len() && s[i] == c {
        lemma_occurs_single(s, c, i);
        lemma_find_first(s, seq![c], from, i);
    }
    if i == s.len() {
        lemma_find_from_bounds(s, seq![c], from);
    }
}

/// One step of reading digits: `acc` read so far, then `c`.
pub open spec fn digit_step(acc: nat, c: char) -> Result<nat, IntError> {
    if acc * 10 > u32::MAX {
        Err(IntError::PosOverflow)
    } else if !is_digit(c) {
        Err(IntError::InvalidDigit)
    } else if acc * 10 + digit_value(c) > u32::MAX {
        Err(IntError::PosOverflow)
    } else {
        Ok(acc * 10 + digit_value(c))
    }
}

proof fn lemma_digits_push(s: Seq<char>, c: char, i: int, acc: nat)
    requires
        0 <= i <= s.len(),
    ensures
        digits_from(s.push(c), i, acc) == match digits_from(s, i, acc) {
            Ok(v) => digit_step(v, c),
            Err(e) => Err(e),
        },
    decreases s.len() - i,
{
    let t = s.push(c);
    if i == s.len() {
        assert(t[i] == c);
        if !(acc * 10 > u32::MAX) && is_digit(c) && !(acc * 10 + digit_value(c) > u32::MAX) {
            assert(digits_from(t, i + 1, acc * 10 + digit_value(c)) == Ok::<nat, IntError>(
                acc * 10 + digit_value(c),
            ));
        }
    } else {
        assert(t[i] == s[i]);
        if !(acc * 10 > u32::MAX) && is_digit(s[i]) && !(acc * 10 + digit_value(s[i])
            > u32::MAX) {
            lemma_digits_push(s, c, i + 1, acc * 10 + digit_value(s[i]));
        }
    }
}

proof fn lemma_digit_char(d: nat)
    requires
        d < 10,
    ensures
        is_digit(digit_char(d)),
        digit_value(digit_char(d)) == d,
{
}

/// Every character of a decimal is a digit.
pub proof fn lemma_decimal_digits(n: nat)
    ensures
        decimal(n).len() > 0,
        forall|k: int| 0 <= k < decimal(n).len() ==> is_digit(#[trigger] decimal(n)[k]),
    decreases n,
{
    if n >= 10 {
        lemma_decimal_digits(n / 10);
        lemma_digit_char(n % 10);
        let s = decimal(n / 10);
        assert forall|k: int| 0 <= k < decimal(n).len() implies is_digit(
            #[trigger] decimal(n)[k],
        ) by {
            if k < s.len() {
                assert(decimal(n)[k] == s[k]);
            }
        }
    } else {
        lemma_digit_char(n);
    }
}

proof fn lemma_digits_of_decimal(n: nat)
    requires
        n <= u32::MAX,
    ensures
        digits_from(decimal(n), 0, 0) == Ok::<nat, IntError>(n),
    decreases n,
{
    lemma_digit_char(n % 10);
    if n < 10 {
        let s = Seq::<char>::empty();
        assert(decimal(n) =~= s.push(digit_char(n)));
        lemma_digits_push(s, digit_char(n), 0, 0);
    } else {
        lemma_digits_of_decimal(n / 10);
        lemma_digits_push(decimal(n / 10), digit_char(n % 10), 0, 0);
        assert((n / 10) * 10 + n % 10 == n) by (nonlinear_arith);
    }
}

/// Reading a decimal gives back its number.
pub proof fn lemma_parse_decimal(n: u32)
    ensures
        parse_u32(decimal(n as nat)) == Ok::<u32, IntError>(n),
{
    lemma_decimal_digits(n as nat);
    lemma_digits_of_decimal(n as nat);
    let s = decimal(n as nat);
    assert(is_digit(s[0]));
}

} // verus!
