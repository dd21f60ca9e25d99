use vstd::prelude::*;
use vstd::string::*;

verus! {

/// The type that a row declares for its content.
#[derive(Clone, Copy, Debug, PartialEq, Eq, Structural)]
pub enum CellType {
    /// An absent or unrecognised label.
    Empty,
    Text,
    Integer,
    Real,
}

pub open spec fn classify(label: Seq<char>) -> CellType {
    if label == "Text"@ {
        CellType::Text
    } else if label == "Integer"@ {
        CellType::Integer
    } else if label == "Real"@ {
        CellType::Real
    } else {
        CellType::Empty
    }
}

pub open spec fn is_digit(c: char) -> bool {
    '0' <= c && c <= '9'
}

pub open spec fn is_sign(c: char) -> bool {
    c == '+' || c == '-'
}

/// One or more decimal digits.
pub open spec fn is_digits(s: Seq<char>) -> bool {
    s.len() > 0 && forall|i: int| 0 <= i < s.len() ==> is_digit(#[trigger] s[i])
}

/// Digits preceded by an optional sign.
pub open spec fn is_signed_digits(s: Seq<char>) -> bool {
    is_digits(s) || (s.len() > 0 && is_sign(s[0]) && is_digits(s.skip(1)))
}

pub open spec fn digit_value(c: char) -> int {
    (c as u32) as int - ('0' as u32) as int
}

/// The number that a string of decimal digits denotes.
pub open spec fn digits_value(s: Seq<char>) -> int
    decreases s.len(),
{
    if s.len() == 0 {
        0
    } else {
        10 * digits_value(s.drop_last()) + digit_value(s.last())
    }
}

/// The number that an optionally signed string of digits denotes.
pub open spec fn signed_value(s: Seq<char>) -> int {
    if s.len() > 0 && s[0] == '-' {
        -digits_value(s.skip(1))
    } else if s.len() > 0 && s[0] == '+' {
        digits_value(s.skip(1))
    } else {
        digits_value(s)
    }
}

/// A base-10 integer with an optional sign whose value fits in an `isize`.
pub open spec fn integer_literal(s: Seq<char>) -> bool {
    &&& is_signed_digits(s)
    &&& isize::MIN <= signed_value(s) <= isize::MAX
}

/// Digits with at most one decimal point among them, and at least one digit.
pub open spec fn is_mantissa(s: Seq<char>) -> bool {
    &&& forall|i: int| 0 <= i < s.len() ==> is_digit(#[trigger] s[i]) || s[i] == '.'
    &&& forall|i: int, j: int|
        0 <= i < s.len() && 0 <= j < s.len() && #[trigger] s[i] == '.' && #[trigger] s[j] == '.'
            ==> i == j
    &&& exists|i: int| 0 <= i < s.len() && is_digit(#[trigger] s[i])
}

/// An exponent: `e` or `E`, then an optionally signed string of digits.
pub open spec fn is_exponent(s: Seq<char>) -> bool {
    s.len() > 0 && (s[0] == 'e' || s[0] == 'E') && is_signed_digits(s.skip(1))
}

pub open spec fn is_decimal(s: Seq<char>) -> bool {
    is_mantissa(s) || exists|k: int|
        0 <= k < s.len() && is_mantissa(#[trigger] s.take(k)) && is_exponent(s.skip(k))
}

/// `c` is the lower-case ASCII letter `l`, in either case.
pub open spec fn same_letter(c: char, l: char) -> bool {
    c == l || (c as u32) + 32 == (l as u32)
}

/// `s` spells the lower-case word `w`, ignoring ASCII case.
pub open spec fn spells(s: Seq<char>, w: Seq<char>) -> bool {
    s.len() == w.len() && forall|i: int| 0 <= i < s.len() ==> same_letter(#[trigger] s[i], w[i])
}

/// `inf`, `infinity` or `nan`, in any case.
pub open spec fn is_special(s: Seq<char>) -> bool {
    spells(s, "inf"@) || spells(s, "infinity"@) || spells(s, "nan"@)
}

/// A floating-point literal in the form that Rust's float parser accepts.
pub open spec fn real_literal(s: Seq<char>) -> bool {
    let u = if s.len() > 0 && is_sign(s[0]) { s.skip(1) } else { s };
    is_special(u) || is_decimal(u)
}

/// Whether `content` conforms to `t`.
pub open spec fn conforms(t: CellType, content: Seq<char>) -> bool {
    match t {
        CellType::Text => content.len() > 0,
        CellType::Integer => integer_literal(content),
        CellType::Real => real_literal(content),
        CellType::Empty => false,
    }
}

/// The characters of `s`, one by one.
fn chars_of(s: &str) -> (v: Vec<char>)
    ensures
        v@ == s@,
{
    let n: usize = s.unicode_len();
    let mut v: Vec<char> = Vec::new();
    let mut i: usize = 0;
    while i < n
        invariant
            n == s@.len(),
            i <= n,
            v@ == s@.take(i as int),
        decreases n - i,
    {
        v.push(s.get_char(i));
        i += 1;
        assert(v@ =~= s@.take(i as int));
    }
    assert(v@ =~= s@);
    v
}

/// Whether `c` is an ASCII decimal digit.
fn digit(c: char) -> (r: bool)
    ensures
        r == is_digit(c),
{
    '0' <= c && c <= '9'
}

/// Whether `v[lo..hi]` is one or more digits.
fn digits_in(v: &Vec<char>, lo: usize, hi: usize) -> (r: bool)
    requires
        lo <= hi <= v@.len(),
    ensures
        r == is_digits(v@.subrange(lo as int, hi as int)),
{
    let ghost sub = v@.subrange(lo as int, hi as int);
    if lo == hi {
        return false;
    }
    let mut i: usize = lo;
    while i < hi
        invariant
            lo <= i <= hi <= v@.len(),
            sub == v@.subrange(lo as int, hi as int),
            forall|k: int| lo <= k < i ==> is_digit(#[trigger] v@[k]),
        decreases hi - i,
    {
        if !digit(v[i]) {
            assert(sub[i - lo] == v@[i as int]);
            return false;
        }
        i += 1;
    }
    assert forall|k: int| 0 <= k < sub.len() implies is_digit(#[trigger] sub[k]) by {
        assert(sub[k] == v@[lo + k]);
    }
    true
}

/// Whether `v[lo..hi]` is digits with an optional sign.
fn signed_digits_in(v: &Vec<char>, lo: usize, hi: usize) -> (r: bool)
    requires
        lo <= hi <= v@.len(),
    ensures
        r == is_signed_digits(v@.subrange(lo as int, hi as int)),
{
    let ghost sub = v@.subrange(lo as int, hi as int);
    if lo < hi && (v[lo] == '+' || v[lo] == '-') {
        assert(sub.skip(1) =~= v@.subrange(lo + 1, hi as int));
        assert(!is_digit(sub[0]));
        digits_in(v, lo + 1, hi)
    } else {
        digits_in(v, lo, hi)
    }
}

/// Whether `v[lo..hi]` is a mantissa: digits with at most one point.
fn mantissa_in(v: &Vec<char>, lo: usize, hi: usize) -> (r: bool)
    requires
        lo <= hi <= v@.len(),
    ensures
        r == is_mantissa(v@.subrange(lo as int, hi as int)),
{
    let ghost sub = v@.subrange(lo as int, hi as int);
    let mut i: usize = lo;
    let mut dot: Option<usize> = None;
    let mut seen_digit: bool = false;
    while i < hi
        invariant
            lo <= i <= hi <= v@.len(),
            sub == v@.subrange(lo as int, hi as int),
            forall|k: int| lo <= k < i ==> is_digit(#[trigger] v@[k]) || v@[k] == '.',
            dot is None ==> forall|k: int| lo <= k < i ==> #[trigger] v@[k] != '.',
            dot is Some ==> {
                let d = dot->Some_0 as int;
                &&& lo <= d < i
                &&& v@[d] == '.'
                &&& forall|k: int| lo <= k < i && #[trigger] v@[k] == '.' ==> k == d
            },
            seen_digit <==> exists|k: int| lo <= k < i && is_digit(#[trigger] v@[k]),
        decreases hi - i,
    {
        let c = v[i];
        if c == '.' {
            if let Some(d) = dot {
                assert(sub[i - lo] == '.' && sub[d - lo] == '.');
                return false;
            }
            dot = Some(i);
        } else if digit(c) {
            seen_digit = true;
        } else {
            assert(sub[i - lo] == c);
            return false;
        }
        i += 1;
    }
    if seen_digit {
        let ghost w = choose|k: int| lo <= k < i && is_digit(#[trigger] v@[k]);
        assert(is_digit(sub[w - lo]));
    } else {
        assert forall|k: int| 0 <= k < sub.len() implies !is_digit(#[trigger] sub[k]) by {
            assert(sub[k] == v@[lo + k]);
        }
    }
    assert forall|a: int, b: int|
        0 <= a < sub.len() && 0 <= b < sub.len() && #[trigger] sub[a] == '.' && #[trigger] sub[b] == '.'
        implies a == b by {
        assert(sub[a] == v@[lo + a] && sub[b] == v@[lo + b]);
    }
    assert forall|k: int| 0 <= k < sub.len() implies is_digit(#[trigger] sub[k]) || sub[k] == '.' by {
        assert(sub[k] == v@[lo + k]);
    }
    seen_digit
}

/// Whether `v[lo..hi]` is a mantissa with an optional exponent, split at the
/// first `e` or `E`, which a mantissa cannot hold.
fn decimal_in(v: &Vec<char>, lo: usize, hi: usize) -> (r: bool)
    requires
        lo <= hi <= v@.len(),
    ensures
        r == is_decimal(v@.subrange(lo as int, hi as int)),
{
    let ghost sub = v@.subrange(lo as int, hi as int);
    let mut e: usize = lo;
    while e < hi && v[e] != 'e' && v[e] != 'E'
        invariant
            lo <= e <= hi <= v@.len(),
            forall|k: int| lo <= k < e ==> #[trigger] v@[k] != 'e' && v@[k] != 'E',
        decreases hi - e,
    {
        e += 1;
    }
    if e == hi {
        assert forall|k: int| 0 <= k < sub.len() implies !is_exponent(#[trigger] sub.skip(k)) by {
            assert(sub.skip(k)[0] == v@[lo + k]);
        }
        return mantissa_in(v, lo, hi);
    }
    let ghost x = (e - lo) as int;
    assert(sub[x] == v@[e as int]);
    assert(sub.take(x) =~= v@.subrange(lo as int, e as int));
    assert(sub.skip(x).skip(1) =~= v@.subrange(e + 1, hi as int));
    let m = mantissa_in(v, lo, e);
    let t = signed_digits_in(v, e + 1, hi);
    assert forall|k: int|
        0 <= k < sub.len() && is_mantissa(#[trigger] sub.take(k)) && is_exponent(sub.skip(k))
        implies k == x by {
        assert(sub.skip(k)[0] == sub[k]);
        if k < x {
            assert(sub[k] == v@[lo + k]);
        } else if k > x {
            assert(sub.take(k)[x] == sub[x]);
        }
    }
    proof {
        lemma_decimal_split(sub, x);
    }
    m && t
}

/// Splitting a candidate at its first exponent marker decides whether it is a decimal.
proof fn lemma_decimal_split(s: Seq<char>, x: int)
    requires
        0 <= x < s.len(),
        s[x] == 'e' || s[x] == 'E',
        forall|k: int|
            0 <= k < s.len() && is_mantissa(#[trigger] s.take(k)) && is_exponent(s.skip(k))
                ==> k == x,
    ensures
        is_decimal(s) == (is_mantissa(s.take(x)) && is_signed_digits(s.skip(x).skip(1))),
{
    assert(!is_digit(s[x]) && s[x] != '.');
    assert(s.skip(x)[0] == s[x]);
}

/// Whether `v[lo..hi]` spells the lower-case word `w`, ignoring ASCII case.
fn spells_in(v: &Vec<char>, lo: usize, hi: usize, w: &str) -> (r: bool)
    requires
        lo <= hi <= v@.len(),
    ensures
        r == spells(v@.subrange(lo as int, hi as int), w@),
{
    let ghost sub = v@.subrange(lo as int, hi as int);
    let n: usize = w.unicode_len();
    if hi - lo != n {
        return false;
    }
    let mut i: usize = 0;
    while i < n
        invariant
            n == w@.len(),
            hi - lo == n,
            lo <= hi <= v@.len(),
            i <= n,
            sub == v@.subrange(lo as int, hi as int),
            forall|k: int| 0 <= k < i ==> same_letter(#[trigger] sub[k], w@[k]),
        decreases n - i,
    {
        let c = v[lo + i];
        let l = w.get_char(i);
        assert(sub[i as int] == c);
        if !(c == l || (c as u32 as u64) + 32 == (l as u32 as u64)) {
            return false;
        }
        i += 1;
    }
    true
}

/// Whether `v` is a floating-point literal.
fn real_in(v: &Vec<char>) -> (r: bool)
    ensures
        r == real_literal(v@),
{
    let n: usize = v.len();
    let lo: usize = if n > 0 && (v[0] == '+' || v[0] == '-') { 1 } else { 0 };
    let ghost u = v@.subrange(lo as int, n as int);
    assert(lo == 0 ==> u =~= v@);
    assert(lo == 1 ==> u =~= v@.skip(1));
    spells_in(v, lo, n, "inf") || spells_in(v, lo, n, "infinity") || spells_in(v, lo, n, "nan")
        || decimal_in(v, lo, n)
}

/// Relies on `str::parse::<isize>`: it succeeds exactly on an optional `+` or `-`
/// followed by one or more ASCII digits whose value fits in an `isize`.
#[verifier::external_body]
fn parses_as_isize(s: &str) -> (r: bool)
    ensures
        r == integer_literal(s@),
{
    s.parse::<isize>().is_ok()
}

impl CellType {
    /// The type named by a declared-type label; case-sensitive.
    pub fn from(cell_content: &str) -> (r: CellType)
        ensures
            r == classify(cell_content@),
    {
        let label = cell_content.to_owned();
        if label == "Text".to_owned() {
            CellType::Text
        } else if label == "Integer".to_owned() {
            CellType::Integer
        } else if label == "Real".to_owned() {
            CellType::Real
        } else {
            CellType::Empty
        }
    }

    /// Whether `cell_content` is a value of this type.
    pub fn content_is_good(&self, cell_content: &str) -> (r: bool)
        ensures
            r == conforms(*self, cell_content@),
    {
        match self {
            CellType::Text => !cell_content.is_empty(),
            CellType::Integer => parses_as_isize(cell_content),
            // The float parser's grammar is checked here, without building the float.
            CellType::Real => real_in(&chars_of(cell_content)),
            CellType::Empty => false,
        }
    }
}

} // verus!
