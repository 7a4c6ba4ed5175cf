//! Characters, runs and literals: what the line grammar is written with.

use vstd::prelude::*;
use vstd::string::*;

verus! {

/// The classes of characters that the fields of a line are made of.
#[derive(Clone, Copy, Debug)]
pub enum CharClass {
    /// ASCII letters and the space: item names and kinds.
    Word,
    /// ASCII letters, the space and the hyphen: exterior grades.
    Grade,
    /// ASCII digits: order ids.
    Digit,
    /// ASCII digits and the comma: prices.
    Amount,
    /// White space, as Unicode defines it: what trimming removes.
    Space,
}

/// The ASCII letters.
pub open spec fn is_letter(c: char) -> bool {
    ('A' <= c && c <= 'Z') || ('a' <= c && c <= 'z')
}

/// The ASCII digits.
pub open spec fn is_digit(c: char) -> bool {
    '0' <= c && c <= '9'
}

/// The characters with Unicode's `White_Space` property.
pub open spec fn is_whitespace(c: char) -> bool {
    ||| ('\u{9}' <= c && c <= '\u{d}')
    ||| c == ' '
    ||| c == '\u{85}'
    ||| c == '\u{a0}'
    ||| c == '\u{1680}'
    ||| ('\u{2000}' <= c && c <= '\u{200a}')
    ||| c == '\u{2028}'
    ||| c == '\u{2029}'
    ||| c == '\u{202f}'
    ||| c == '\u{205f}'
    ||| c == '\u{3000}'
}

/// Whether `c` belongs to `class`.
pub open spec fn in_class(c: char, class: CharClass) -> bool {
    match class {
        CharClass::Word => is_letter(c) || c == ' ',
        CharClass::Grade => is_letter(c) || c == ' ' || c == '-',
        CharClass::Digit => is_digit(c),
        CharClass::Amount => is_digit(c) || c == ',',
        CharClass::Space => is_whitespace(c),
    }
}

/// Whether `c` belongs to `class`.
pub fn class_has(class: CharClass, c: char) -> (b: bool)
    ensures
        b == in_class(c, class),
{
    let letter = (c >= 'A' && c <= 'Z') || (c >= 'a' && c <= 'z');
    let digit = c >= '0' && c <= '9';
    match class {
        CharClass::Word => letter || c == ' ',
        CharClass::Grade => letter || c == ' ' || c == '-',
        CharClass::Digit => digit,
        CharClass::Amount => digit || c == ',',
        CharClass::Space => {
            (c >= '\u{9}' && c <= '\u{d}') || c == ' ' || c == '\u{85}' || c == '\u{a0}'
                || c == '\u{1680}' || (c >= '\u{2000}' && c <= '\u{200a}') || c == '\u{2028}'
                || c == '\u{2029}' || c == '\u{202f}' || c == '\u{205f}' || c == '\u{3000}'
        },
    }
}

/// Every character of `s` belongs to `class`.
pub open spec fn all_in_class(s: Seq<char>, class: CharClass) -> bool {
    forall|k: int| 0 <= k < s.len() ==> in_class(#[trigger] s[k], class)
}

/// Where the longest run of `class` characters that starts at `i` ends: the
/// first index from `i` on whose character is outside the class, or the
/// length of `s`.
pub open spec fn run_end(s: Seq<char>, i: int, class: CharClass) -> int
    decreases s.len() - i,
{
    if 0 <= i < s.len() && in_class(s[i], class) {
        run_end(s, i + 1, class)
    } else {
        i
    }
}

/// The run cannot go on at `j`: the line ends there, or the character there
/// is outside the class.
pub open spec fn closes(s: Seq<char>, j: int, class: CharClass) -> bool {
    j == s.len() || (0 <= j < s.len() && !in_class(s[j], class))
}

/// Up to its end a run is made of the class, and at its end it cannot go on.
pub proof fn lemma_run_end(s: Seq<char>, i: int, class: CharClass)
    requires
        0 <= i <= s.len(),
    ensures
        i <= run_end(s, i, class) <= s.len(),
        all_in_class(s.subrange(i, run_end(s, i, class)), class),
        closes(s, run_end(s, i, class), class),
    decreases s.len() - i,
{
    if i < s.len() && in_class(s[i], class) {
        lemma_run_end(s, i + 1, class);
        let j = run_end(s, i, class);
        assert forall|k: int| 0 <= k < j - i implies in_class(
            #[trigger] s.subrange(i, j)[k],
            class,
        ) by {
            if k > 0 {
                assert(s.subrange(i, j)[k] == s.subrange(i + 1, j)[k - 1]);
            }
        }
    }
}

/// An index that closes a run is the run's end.
pub proof fn lemma_run_end_unique(s: Seq<char>, i: int, j: int, class: CharClass)
    requires
        0 <= i <= j <= s.len(),
        forall|k: int| i <= k < j ==> in_class(#[trigger] s[k], class),
        j < s.len() ==> !in_class(s[j], class),
    ensures
        run_end(s, i, class) == j,
    decreases j - i,
{
    if i < j {
        lemma_run_end_unique(s, i + 1, j, class);
    }
}

/// Where the longest run of `class` characters that starts at `i` ends.
pub fn scan_run(v: &Vec<char>, i: usize, class: CharClass) -> (j: usize)
    ensures
        j == run_end(v@, i as int, class),
        i <= j,
        i <= v.len() ==> j <= v.len(),
{
    let mut j: usize = i;
    while j < v.len() && class_has(class, v[j])
        invariant
            i <= j,
            i <= v.len() ==> j <= v.len(),
            run_end(v@, i as int, class) == run_end(v@, j as int, class),
        decreases v.len() - j,
    {
        j = j + 1;
    }
    j
}

/// `lit` stands in `s` at `i`.
pub open spec fn has_at(s: Seq<char>, i: int, lit: Seq<char>) -> bool {
    &&& 0 <= i
    &&& i + lit.len() <= s.len()
    &&& s.subrange(i, i + lit.len()) == lit
}

/// Whether `lit` stands in `v` at `i`.
pub fn starts_at(v: &Vec<char>, i: usize, lit: &Vec<char>) -> (b: bool)
    ensures
        b == has_at(v@, i as int, lit@),
{
    if i > v.len() || lit.len() > v.len() - i {
        return false;
    }
    let mut k: usize = 0;
    while k < lit.len()
        invariant
            k <= lit.len(),
            i + lit.len() <= v.len(),
            forall|m: int| 0 <= m < k ==> v@[i + m] == lit@[m],
        decreases lit.len() - k,
    {
        if v[i + k] != lit[k] {
            return false;
        }
        k = k + 1;
    }
    assert(v@.subrange(i as int, i + lit.len()) =~= lit@);
    true
}

/// Owned copies of `items`, in their order.
pub fn owned_all(items: &[&str]) -> (r: Vec<String>)
    ensures
        r.deep_view() == items.deep_view(),
{
    let mut r: Vec<String> = Vec::new();
    let mut i: usize = 0;
    while i < items.len()
        invariant
            i <= items.len(),
            r.len() == i,
            forall|k: int| 0 <= k < i ==> r@[k]@ == items@[k]@,
        decreases items.len() - i,
    {
        r.push(items[i].to_owned());
        i = i + 1;
    }
    r
}

/// Whether two strings hold the same characters.
pub fn same_text(a: &str, b: &str) -> (r: bool)
    ensures
        r == (a@ == b@),
{
    let va = chars_of(a);
    let vb = chars_of(b);
    if va.len() != vb.len() {
        return false;
    }
    let r = starts_at(&va, 0, &vb);
    assert(va@.subrange(0, va@.len() as int) =~= va@);
    r
}

/// The characters of `s`, one by one.
pub fn chars_of(s: &str) -> (v: Vec<char>)
    ensures
        v@ == s@,
{
    let mut v: Vec<char> = Vec::new();
    for c in it: s.chars()
        invariant
            v@ == it.seq().take(it.index() as int),
            it.seq() == s@,
    {
        v.push(c);
    }
    v
}

/// Where the longest run of `class` characters that ends at `j` starts, not
/// going below `lo`.
pub open spec fn run_start(s: Seq<char>, lo: int, j: int, class: CharClass) -> int
    decreases j - lo,
{
    if lo < j <= s.len() && in_class(s[j - 1], class) {
        run_start(s, lo, j - 1, class)
    } else {
        j
    }
}

/// Where the longest run of `class` characters that ends at `j` starts, not
/// going below `lo`.
pub fn scan_run_back(v: &Vec<char>, lo: usize, j: usize, class: CharClass) -> (k: usize)
    ensures
        k == run_start(v@, lo as int, j as int, class),
        k <= j,
        lo <= j ==> lo <= k,
{
    if j > v.len() {
        return j;
    }
    let mut k: usize = j;
    while k > lo && class_has(class, v[k - 1])
        invariant
            k <= j <= v.len(),
            lo <= j ==> lo <= k,
            run_start(v@, lo as int, j as int, class) == run_start(v@, lo as int, k as int, class),
        decreases k - lo,
    {
        k = k - 1;
    }
    k
}

/// Where `s` begins once its leading white space is gone.
pub open spec fn trim_start(s: Seq<char>) -> int {
    run_end(s, 0, CharClass::Space)
}

/// Where `s` ends once its trailing white space is gone.
pub open spec fn trim_end(s: Seq<char>) -> int {
    run_start(s, trim_start(s), s.len() as int, CharClass::Space)
}

/// `s` without the white space at its two ends.
pub open spec fn trim(s: Seq<char>) -> Seq<char> {
    s.subrange(trim_start(s), trim_end(s))
}

/// Where `v` begins and ends once the white space at its two ends is gone.
pub fn trim_bounds(v: &Vec<char>) -> (r: (usize, usize))
    ensures
        r.0 == trim_start(v@),
        r.1 == trim_end(v@),
        r.0 <= r.1 <= v.len(),
{
    let a = scan_run(v, 0, CharClass::Space);
    let b = scan_run_back(v, a, v.len(), CharClass::Space);
    (a, b)
}

/// What parts the segments of a name line from each other.
pub open spec fn separator() -> Seq<char> {
    seq![' ', '|', ' ']
}

/// The segments of `s` from `start` on, where `s` has been searched for a
/// separator up to `i`: the line is read from left to right, it is cut at
/// each separator that is met, and reading goes on behind the separator.
pub open spec fn segments_scan(s: Seq<char>, start: int, i: int) -> Seq<Seq<char>>
    decreases s.len() - i,
{
    if i < 0 || i + 3 > s.len() {
        seq![s.subrange(start, s.len() as int)]
    } else if has_at(s, i, separator()) {
        seq![s.subrange(start, i)] + segments_scan(s, i + 3, i + 3)
    } else {
        segments_scan(s, start, i + 1)
    }
}

/// The segments that the separator `" | "` cuts `s` into, in order. A line
/// without a separator is one segment.
pub open spec fn segments(s: Seq<char>) -> Seq<Seq<char>> {
    segments_scan(s, 0, 0)
}

/// There is always a first segment.
pub proof fn lemma_segments_nonempty(s: Seq<char>, start: int, i: int)
    ensures
        segments_scan(s, start, i).len() >= 1,
    decreases s.len() - i,
{
    if 0 <= i && i + 3 <= s.len() && !has_at(s, i, separator()) {
        lemma_segments_nonempty(s, start, i + 1);
    }
}

/// A stretch of a line: the characters from `start` up to `end`.
#[derive(Clone, Copy, Debug)]
pub struct Span {
    pub start: usize,
    pub end: usize,
}

impl Span {
    /// The stretch lies within a line of `len` characters.
    pub open spec fn within(self, len: nat) -> bool {
        self.start <= self.end <= len
    }

    /// The characters of `s` that the stretch covers.
    pub open spec fn of(self, s: Seq<char>) -> Seq<char> {
        s.subrange(self.start as int, self.end as int)
    }
}

/// The stretches that the segments of `v` cover, in order.
pub fn split_segments(v: &Vec<char>) -> (r: Vec<Span>)
    ensures
        r.len() == segments(v@).len(),
        forall|k: int| 0 <= k < r.len() ==> (#[trigger] r[k]).within(v@.len()),
        forall|k: int| 0 <= k < r.len() ==> (#[trigger] r[k]).of(v@) == segments(v@)[k],
{
    let sep: Vec<char> = vec![' ', '|', ' '];
    let mut r: Vec<Span> = Vec::new();
    let mut start: usize = 0;
    let mut i: usize = 0;
    let ghost done: Seq<Seq<char>> = Seq::empty();
    while v.len() - i >= 3
        invariant
            start <= i <= v.len(),
            sep@ == separator(),
            r.len() == done.len(),
            segments(v@) == done + segments_scan(v@, start as int, i as int),
            forall|k: int| 0 <= k < r.len() ==> (#[trigger] r[k]).within(v@.len()),
            forall|k: int| 0 <= k < r.len() ==> (#[trigger] r[k]).of(v@) == done[k],
        decreases v.len() - i,
    {
        if starts_at(v, i, &sep) {
            r.push(Span { start: start, end: i });
            proof {
                done = done.push(v@.subrange(start as int, i as int));
            }
            start = i + 3;
            i = i + 3;
        } else {
            i = i + 1;
        }
    }
    r.push(Span { start: start, end: v.len() });
    proof {
    }
    r
}

/// Why a run of characters is not the decimal numeral of an `i32`.
#[derive(Clone, Copy, Debug, PartialEq, Eq, Structural)]
pub enum NumberError {
    /// There is no digit to read.
    Empty,
    /// A character is not an ASCII digit.
    InvalidDigit,
    /// The number is above `i32::MAX`.
    PosOverflow,
}

impl NumberError {
    /// What the error says.
    pub open spec fn message(self) -> Seq<char> {
        match self {
            NumberError::Empty => "cannot parse integer from empty string"@,
            NumberError::InvalidDigit => "invalid digit found in string"@,
            NumberError::PosOverflow => "number too large to fit in target type"@,
        }
    }

    /// What the error says.
    pub fn as_str(&self) -> (r: &'static str)
        ensures
            r@ == self.message(),
    {
        match self {
            NumberError::Empty => "cannot parse integer from empty string",
            NumberError::InvalidDigit => "invalid digit found in string",
            NumberError::PosOverflow => "number too large to fit in target type",
        }
    }
}

/// The number that the digit `c` stands for.
pub open spec fn digit_value(c: char) -> int {
    c as int - '0' as int
}

/// The number that the decimal numeral `s` stands for.
pub open spec fn decimal_value(s: Seq<char>) -> nat
    decreases s.len(),
{
    if s.len() == 0 {
        0
    } else {
        (decimal_value(s.drop_last()) * 10 + digit_value(s.last())) as nat
    }
}

/// The first `n` characters of `s` read as a decimal numeral, from left to
/// right: the first character that is no digit, or the first digit that
/// takes the number above `i32::MAX`, ends the reading with its error.
pub open spec fn decimal_scan(s: Seq<char>, n: int) -> Result<i32, NumberError>
    decreases n,
{
    if n <= 0 {
        Ok(0i32)
    } else {
        match decimal_scan(s, n - 1) {
            Err(e) => Err(e),
            Ok(acc) => {
                if !is_digit(s[n - 1]) {
                    Err(NumberError::InvalidDigit)
                } else if acc * 10 + digit_value(s[n - 1]) > i32::MAX {
                    Err(NumberError::PosOverflow)
                } else {
                    Ok((acc * 10 + digit_value(s[n - 1])) as i32)
                }
            },
        }
    }
}

/// `s` read as the decimal numeral of an `i32`.
pub open spec fn decimal_i32(s: Seq<char>) -> Result<i32, NumberError> {
    if s.len() == 0 {
        Err(NumberError::Empty)
    } else {
        decimal_scan(s, s.len() as int)
    }
}

/// On digits alone, reading from left to right gives the numeral's value
/// wherever that value fits, and `PosOverflow` wherever it does not.
pub proof fn lemma_decimal_scan(s: Seq<char>, n: int)
    requires
        all_in_class(s, CharClass::Digit),
        0 <= n <= s.len(),
    ensures
        decimal_value(s.take(n)) <= i32::MAX ==> decimal_scan(s, n) == Ok::<i32, NumberError>(
            decimal_value(s.take(n)) as i32,
        ),
        decimal_value(s.take(n)) > i32::MAX ==> decimal_scan(s, n) == Err::<i32, NumberError>(
            NumberError::PosOverflow,
        ),
    decreases n,
{
    if n > 0 {
        lemma_decimal_scan(s, n - 1);
        let t = s.take(n);
        assert(t.drop_last() =~= s.take(n - 1));
    }
}

/// A run of digits is read as its value, if that fits an `i32`.
pub proof fn lemma_decimal_i32(s: Seq<char>)
    requires
        all_in_class(s, CharClass::Digit),
        s.len() > 0,
    ensures
        decimal_value(s) <= i32::MAX ==> decimal_i32(s) == Ok::<i32, NumberError>(
            decimal_value(s) as i32,
        ),
        decimal_value(s) > i32::MAX ==> decimal_i32(s) == Err::<i32, NumberError>(
            NumberError::PosOverflow,
        ),
{
    lemma_decimal_scan(s, s.len() as int);
    assert(s.take(s.len() as int) =~= s);
}

/// What is read is not negative.
pub proof fn lemma_decimal_scan_nonnegative(s: Seq<char>, n: int)
    ensures
        decimal_scan(s, n) matches Ok(value) ==> value >= 0,
    decreases n,
{
    if n > 0 {
        lemma_decimal_scan_nonnegative(s, n - 1);
    }
}

/// Once the reading has ended with an error, more characters change nothing.
pub proof fn lemma_decimal_scan_stops(s: Seq<char>, n: int, m: int)
    requires
        0 <= n <= m,
        decimal_scan(s, n) is Err,
    ensures
        decimal_scan(s, m) == decimal_scan(s, n),
    decreases m - n,
{
    if n < m {
        lemma_decimal_scan_stops(s, n, m - 1);
    }
}

/// Reads `v` as the decimal numeral of an `i32`.
pub fn parse_decimal(v: &Vec<char>) -> (r: Result<i32, NumberError>)
    ensures
        r == decimal_i32(v@),
{
    if v.len() == 0 {
        return Err(NumberError::Empty);
    }
    let mut acc: i32 = 0;
    let mut i: usize = 0;
    while i < v.len()
        invariant
            i <= v.len(),
            0 <= acc,
            decimal_scan(v@, i as int) == Ok::<i32, NumberError>(acc),
        decreases v.len() - i,
    {
        let c = v[i];
        if !class_has(CharClass::Digit, c) {
            proof {
                lemma_decimal_scan_stops(v@, i + 1, v@.len() as int);
            }
            return Err(NumberError::InvalidDigit);
        }
        let d: i64 = (c as u32 - '0' as u32) as i64;
        let next: i64 = acc as i64 * 10 + d;
        if next > i32::MAX as i64 {
            proof {
                lemma_decimal_scan_stops(v@, i + 1, v@.len() as int);
            }
            return Err(NumberError::PosOverflow);
        }
        acc = next as i32;
        i = i + 1;
    }
    Ok(acc)
}

/// The digit that stands for `d`.
pub open spec fn digit_char(d: int) -> char {
    if d == 0 {
        '0'
    } else if d == 1 {
        '1'
    } else if d == 2 {
        '2'
    } else if d == 3 {
        '3'
    } else if d == 4 {
        '4'
    } else if d == 5 {
        '5'
    } else if d == 6 {
        '6'
    } else if d == 7 {
        '7'
    } else if d == 8 {
        '8'
    } else {
        '9'
    }
}

/// The decimal numeral of `n`, without leading zeros.
pub open spec fn digits_text(n: nat) -> Seq<char>
    decreases n,
{
    if n < 10 {
        seq![digit_char(n as int)]
    } else {
        digits_text(n / 10).push(digit_char((n % 10) as int))
    }
}

/// The decimal numeral of `n`, with a minus sign before it where `n` is
/// negative.
pub open spec fn decimal_text(n: int) -> Seq<char> {
    if n < 0 {
        seq!['-'] + digits_text((-n) as nat)
    } else {
        digits_text(n as nat)
    }
}

fn digit_str(d: u32) -> (r: &'static str)
    requires
        d < 10,
    ensures
        r@ == seq![digit_char(d as int)],
{
    proof {
        reveal_strlit("0");
        reveal_strlit("1");
        reveal_strlit("2");
        reveal_strlit("3");
        reveal_strlit("4");
        reveal_strlit("5");
        reveal_strlit("6");
        reveal_strlit("7");
        reveal_strlit("8");
        reveal_strlit("9");
    }
    let r = if d == 0 {
        "0"
    } else if d == 1 {
        "1"
    } else if d == 2 {
        "2"
    } else if d == 3 {
        "3"
    } else if d == 4 {
        "4"
    } else if d == 5 {
        "5"
    } else if d == 6 {
        "6"
    } else if d == 7 {
        "7"
    } else if d == 8 {
        "8"
    } else {
        "9"
    };
    r
}

fn digits_string(n: u32) -> (r: String)
    ensures
        r@ == digits_text(n as nat),
    decreases n,
{
    if n < 10 {
        digit_str(n).to_owned()
    } else {
        let mut r = digits_string(n / 10);
        r.append(digit_str(n % 10));
        r
    }
}

/// Writes `n` as a decimal numeral.
pub fn i32_to_string(n: i32) -> (r: String)
    ensures
        r@ == decimal_text(n as int),
{
    if n < 0 {
        proof {
            reveal_strlit("-");
        }
        let mut r = "-".to_owned();
        let magnitude: u32 = (-(n as i64)) as u32;
        r.append(digits_string(magnitude).as_str());
        r
    } else {
        digits_string(n as u32)
    }
}

/// `s` without its commas.
pub open spec fn without_commas(s: Seq<char>) -> Seq<char>
    decreases s.len(),
{
    if s.len() == 0 {
        s
    } else if s.last() == ',' {
        without_commas(s.drop_last())
    } else {
        without_commas(s.drop_last()).push(s.last())
    }
}

/// `v` without its commas.
pub fn strip_commas(v: &Vec<char>) -> (r: Vec<char>)
    ensures
        r@ == without_commas(v@),
{
    let mut r: Vec<char> = Vec::new();
    let mut i: usize = 0;
    while i < v.len()
        invariant
            i <= v.len(),
            r@ == without_commas(v@.take(i as int)),
        decreases v.len() - i,
    {
        proof {
            let t = v@.take(i + 1);
            assert(t.drop_last() =~= v@.take(i as int));
        }
        if v[i] != ',' {
            r.push(v[i]);
        }
        i = i + 1;
    }
    assert(v@.take(v@.len() as int) =~= v@);
    r
}

} // verus!
