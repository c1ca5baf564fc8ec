//! The `{value:SPEC}` clause of a format hole: its grammar, what it asks of
//! the value's type, and the counts it cannot honour.
use vstd::prelude::*;

verus! {

/// The largest count a `{value:SPEC}` clause can name: the largest count the
/// runtime can hold and count down.
pub const FORMAT_MAX_COUNT: i64 = 9223372036854775807;

/// The radix an integer is written in.
#[derive(PartialEq, Eq, Structural, Clone, Copy, Debug)]
pub enum IntegerBase {
    Decimal,
    HexLower,
    HexUpper,
    Binary,
    Octal,
}

/// What every format sink renders from.
#[derive(PartialEq, Eq, Structural, Clone, Copy, Debug)]
pub struct FormatSpec {
    pub width: Option<i64>,
    pub zero_pad: bool,
    pub base: IntegerBase,
    pub precision: Option<i64>,
}

/// What a clause asks of the value's type.
#[derive(Clone, Copy, Debug)]
pub enum FormatSpecAsk {
    /// No specifier, or a width alone: a width asks nothing of the type.
    AnyType,
    /// `{v:.N}`: N decimal places.
    DecimalPlaces(i64),
    /// `{v:x}` / `{v:X}` / `{v:b}` / `{v:o}`, by the base's English name.
    Base(&'static str),
}

/// The kind of count or specifier a clause could not honour as written.
#[derive(PartialEq, Eq, Structural, Clone, Copy, Debug)]
pub enum FaultKind {
    WidthTooLarge,
    PrecisionTooLarge,
    UnknownSpecifier,
}

/// A count in a clause that was read but cannot be honoured as written,
/// carrying the digits (or, for an unknown specifier, the whole clause).
#[derive(Debug)]
pub enum FormatSpecFault {
    WidthTooLarge(String),
    PrecisionTooLarge(String),
    UnknownSpecifier(String),
}

impl View for FormatSpecFault {
    type V = (FaultKind, Seq<char>);

    open spec fn view(&self) -> (FaultKind, Seq<char>) {
        match self {
            FormatSpecFault::WidthTooLarge(s) => (FaultKind::WidthTooLarge, s@),
            FormatSpecFault::PrecisionTooLarge(s) => (FaultKind::PrecisionTooLarge, s@),
            FormatSpecFault::UnknownSpecifier(s) => (FaultKind::UnknownSpecifier, s@),
        }
    }
}

/// The view of an optional fault.
pub open spec fn fault_view(f: Option<FormatSpecFault>) -> Option<(FaultKind, Seq<char>)> {
    match f {
        Some(x) => Some(x@),
        None => None,
    }
}

/// The reading of a would-be count.
#[derive(PartialEq, Eq, Structural, Clone, Copy, Debug)]
pub enum CountRead {
    /// Not a count at all: empty, or not all digits.
    Absent,
    Count(i64),
    /// All digits, but more than `FORMAT_MAX_COUNT` can hold.
    TooLarge,
}

pub open spec fn is_digit(c: char) -> bool {
    '0' <= c && c <= '9'
}

pub open spec fn all_digits(s: Seq<char>) -> bool {
    forall|i: int| 0 <= i < s.len() ==> is_digit(#[trigger] s[i])
}

/// The number a string of decimal digits spells.
pub open spec fn digits_value(s: Seq<char>) -> nat
    decreases s.len(),
{
    if s.len() == 0 {
        0
    } else {
        digits_value(s.drop_last()) * 10 + ((s.last() as int) - ('0' as int)) as nat
    }
}

/// How a clause piece reads as a count.
pub open spec fn count_of(s: Seq<char>) -> CountRead {
    if s.len() == 0 || !all_digits(s) {
        CountRead::Absent
    } else if digits_value(s) <= FORMAT_MAX_COUNT {
        CountRead::Count(digits_value(s) as i64)
    } else {
        CountRead::TooLarge
    }
}

/// How many `'0'` characters the text begins with.
pub open spec fn zeros_prefix_len(s: Seq<char>) -> nat
    decreases s.len(),
{
    if s.len() == 0 || s[0] != '0' {
        0
    } else {
        1 + zeros_prefix_len(s.drop_first())
    }
}

/// How many digit characters the text begins with.
pub open spec fn digit_prefix_len(s: Seq<char>) -> nat
    decreases s.len(),
{
    if s.len() == 0 || !is_digit(s[0]) {
        0
    } else {
        1 + digit_prefix_len(s.drop_first())
    }
}

/// The spec of a clause with nothing in it.
pub open spec fn plain_spec() -> FormatSpec {
    FormatSpec { width: None, zero_pad: false, base: IntegerBase::Decimal, precision: None }
}

/// The width half of a clause that does not start with `.`: the width read
/// (if any), whether one was read, what is left after it, and its fault.
pub open spec fn width_stage(f: Seq<char>) -> (Option<i64>, bool, Seq<char>, Option<
    (FaultKind, Seq<char>),
>) {
    let zero_pad = f.len() > 0 && f[0] == '0';
    let ws = if zero_pad {
        f.skip(zeros_prefix_len(f) as int)
    } else {
        f
    };
    let we = digit_prefix_len(ws);
    if !(f.len() > 0 && is_digit(f[0])) {
        (None, false, f, None)
    } else if we > 0 {
        let wd = ws.take(we as int);
        match count_of(wd) {
            CountRead::Count(n) => (Some(n), true, ws.skip(we as int), None),
            CountRead::TooLarge => (
                Some(FORMAT_MAX_COUNT),
                true,
                ws.skip(we as int),
                Some((FaultKind::WidthTooLarge, wd)),
            ),
            CountRead::Absent => (None, false, f, None),
        }
    } else if ws.len() == 0 {
        (Some(0), true, Seq::<char>::empty(), None)
    } else {
        (None, false, f, None)
    }
}

/// The precision half that may follow a width: the precision read, what is
/// left, and the fault so far.
pub open spec fn precision_stage(
    f: Seq<char>,
    has_width: bool,
    rest: Seq<char>,
    fault: Option<(FaultKind, Seq<char>)>,
) -> (Option<i64>, Seq<char>, Option<(FaultKind, Seq<char>)>) {
    if has_width && rest.len() > 0 && rest[0] == '.' {
        let pd = rest.drop_first();
        match count_of(pd) {
            CountRead::Absent => (
                None,
                Seq::<char>::empty(),
                if fault is None {
                    Some((FaultKind::UnknownSpecifier, f))
                } else {
                    fault
                },
            ),
            CountRead::Count(n) => (Some(n), Seq::<char>::empty(), fault),
            CountRead::TooLarge => (
                Some(FORMAT_MAX_COUNT),
                Seq::<char>::empty(),
                Some((FaultKind::PrecisionTooLarge, pd)),
            ),
        }
    } else {
        (None, rest, fault)
    }
}

/// The base letter that ends a clause, and the fault so far.
pub open spec fn base_stage(f: Seq<char>, rest: Seq<char>, fault: Option<(FaultKind, Seq<char>)>) -> (
    IntegerBase,
    Option<(FaultKind, Seq<char>)>,
) {
    if rest.len() == 0 {
        (IntegerBase::Decimal, fault)
    } else if rest == seq!['x'] {
        (IntegerBase::HexLower, fault)
    } else if rest == seq!['X'] {
        (IntegerBase::HexUpper, fault)
    } else if rest == seq!['b'] {
        (IntegerBase::Binary, fault)
    } else if rest == seq!['o'] {
        (IntegerBase::Octal, fault)
    } else {
        (
            IntegerBase::Decimal,
            if fault is None {
                Some((FaultKind::UnknownSpecifier, f))
            } else {
                fault
            },
        )
    }
}

/// What a clause written after the `:` means: the spec every sink renders
/// from, and what (if anything) the author wrote that cannot be honoured.
///
/// `.N` is a precision; otherwise an optional `0` flag and a width, then an
/// optional `.M` precision, then an optional base letter `x`, `X`, `b`, `o`.
/// A too-large count saturates to `FORMAT_MAX_COUNT` and is reported; a
/// later, more specific fault is never overwritten by an unknown-specifier
/// one.
pub open spec fn clause_meaning(f: Seq<char>) -> (FormatSpec, Option<(FaultKind, Seq<char>)>) {
    if f.len() > 0 && f[0] == '.' {
        let digits = f.drop_first();
        match count_of(digits) {
            CountRead::Absent => (plain_spec(), Some((FaultKind::UnknownSpecifier, f))),
            CountRead::Count(n) => (FormatSpec { precision: Some(n), ..plain_spec() }, None),
            CountRead::TooLarge => (
                FormatSpec { precision: Some(FORMAT_MAX_COUNT), ..plain_spec() },
                Some((FaultKind::PrecisionTooLarge, digits)),
            ),
        }
    } else {
        let (width, has_width, rest, fault1) = width_stage(f);
        let zero_pad = has_width && f.len() > 0 && f[0] == '0';
        let (precision, rest2, fault2) = precision_stage(f, has_width, rest, fault1);
        let (base, fault3) = base_stage(f, rest2, fault2);
        (FormatSpec { width, zero_pad, base, precision }, fault3)
    }
}

/// The meaning of an optional clause: no clause is the plain spec.
pub open spec fn optional_clause_meaning(fmt: Option<Seq<char>>) -> (FormatSpec, Option<
    (FaultKind, Seq<char>),
>) {
    match fmt {
        None => (plain_spec(), None),
        Some(f) => clause_meaning(f),
    }
}

/// What a spec asks of the value's type.
pub open spec fn ask_of(spec: FormatSpec) -> FormatSpecAsk {
    match spec.precision {
        Some(places) => FormatSpecAsk::DecimalPlaces(places),
        None => match spec.base {
            IntegerBase::Decimal => FormatSpecAsk::AnyType,
            IntegerBase::HexLower | IntegerBase::HexUpper => FormatSpecAsk::Base("hexadecimal"),
            IntegerBase::Binary => FormatSpecAsk::Base("binary"),
            IntegerBase::Octal => FormatSpecAsk::Base("octal"),
        },
    }
}

proof fn lemma_digits_value_take_mono(s: Seq<char>, i: int, j: int)
    requires
        0 <= i <= j <= s.len(),
    ensures
        digits_value(s.take(i)) <= digits_value(s.take(j)),
    decreases j - i,
{
    if i < j {
        lemma_digits_value_take_mono(s, i, j - 1);
        assert(s.take(j).drop_last() == s.take(j - 1));
    }
}

fn is_digit_char(c: char) -> (r: bool)
    ensures
        r == is_digit(c),
{
    '0' <= c && c <= '9'
}

/// Read a would-be count: plain digits and nothing else.
pub fn read_count(digits: &str) -> (r: CountRead)
    ensures
        r == count_of(digits@),
{
    let n = digits.unicode_len();
    if n == 0 {
        return CountRead::Absent;
    }
    let mut i: usize = 0;
    while i < n
        invariant
            n == digits@.len(),
            i <= n,
            forall|j: int| 0 <= j < i ==> is_digit(#[trigger] digits@[j]),
        decreases n - i,
    {
        if !is_digit_char(digits.get_char(i)) {
            return CountRead::Absent;
        }
        i = i + 1;
    }
    let ghost s = digits@;
    let mut value: i64 = 0;
    let mut k: usize = 0;
    while k < n
        invariant
            n == s.len(),
            s == digits@,
            all_digits(s),
            k <= n,
            0 <= value,
            value as nat == digits_value(s.take(k as int)),
        decreases n - k,
    {
        let c = digits.get_char(k);
        assert(is_digit(s[k as int]));
        let d: i64 = (c as u32 - '0' as u32) as i64;
        assert(0 <= d <= 9);
        assert(s.take(k + 1).drop_last() == s.take(k as int));
        assert(s.take(k + 1).last() == c);
        assert(digits_value(s.take(k + 1)) == value * 10 + d);
        if value > (FORMAT_MAX_COUNT - d) / 10 {
            proof {
                assert(value * 10 + d > FORMAT_MAX_COUNT) by (nonlinear_arith)
                    requires
                        value > (FORMAT_MAX_COUNT - d) / 10,
                        0 <= d <= 9,
                ;
                lemma_digits_value_take_mono(s, k + 1, n as int);
                assert(s.take(n as int) == s);
            }
            return CountRead::TooLarge;
        }
        assert(value * 10 + d <= FORMAT_MAX_COUNT) by (nonlinear_arith)
            requires
                value <= (FORMAT_MAX_COUNT - d) / 10,
                0 <= d <= 9,
                0 <= value,
        ;
        value = value * 10 + d;
        k = k + 1;
    }
    assert(s.take(n as int) == s);
    CountRead::Count(value)
}

/// The digits `s` begins with, counted.
fn digit_prefix_count(s: &str) -> (r: usize)
    ensures
        r == digit_prefix_len(s@),
{
    let n = s.unicode_len();
    let mut i: usize = n;
    // Walk back from the end so the count builds like the definition.
    let mut count: usize = 0;
    while i > 0
        invariant
            n == s@.len(),
            i <= n,
            count == digit_prefix_len(s@.skip(i as int)),
            count <= n - i,
        decreases i,
    {
        let c = s.get_char(i - 1);
        assert(s@.skip(i - 1).drop_first() == s@.skip(i as int));
        assert(s@.skip(i - 1)[0] == c);
        if is_digit_char(c) {
            count = count + 1;
        } else {
            count = 0;
        }
        i = i - 1;
    }
    assert(s@.skip(0) == s@);
    count
}

/// The `'0'` characters `s` begins with, counted.
fn zero_prefix_count(s: &str) -> (r: usize)
    ensures
        r == zeros_prefix_len(s@),
{
    let n = s.unicode_len();
    let mut i: usize = n;
    let mut count: usize = 0;
    while i > 0
        invariant
            n == s@.len(),
            i <= n,
            count == zeros_prefix_len(s@.skip(i as int)),
            count <= n - i,
        decreases i,
    {
        let c = s.get_char(i - 1);
        assert(s@.skip(i - 1).drop_first() == s@.skip(i as int));
        assert(s@.skip(i - 1)[0] == c);
        if c == '0' {
            count = count + 1;
        } else {
            count = 0;
        }
        i = i - 1;
    }
    assert(s@.skip(0) == s@);
    count
}

proof fn lemma_prefix_len_bounds(s: Seq<char>)
    ensures
        digit_prefix_len(s) <= s.len(),
        zeros_prefix_len(s) <= s.len(),
        zeros_prefix_len(s) <= digit_prefix_len(s),
    decreases s.len(),
{
    if s.len() > 0 {
        lemma_prefix_len_bounds(s.drop_first());
    }
}

proof fn lemma_digit_prefix_all_digits(s: Seq<char>)
    ensures
        all_digits(s.take(digit_prefix_len(s) as int)),
        digit_prefix_len(s) < s.len() ==> !is_digit(s[digit_prefix_len(s) as int]),
    decreases s.len(),
{
    lemma_prefix_len_bounds(s);
    if s.len() > 0 && is_digit(s[0]) {
        let t = s.drop_first();
        lemma_digit_prefix_all_digits(t);
        lemma_prefix_len_bounds(t);
        let k = digit_prefix_len(t) as int;
        assert forall|i: int| 0 <= i < k + 1 implies is_digit(#[trigger] s.take(k + 1)[i]) by {
            if i > 0 {
                assert(s.take(k + 1)[i] == t.take(k)[i - 1]);
            }
        }
    }
}

fn string_of(s: &str) -> (r: String)
    ensures
        r@ == s@,
{
    String::from_str(s)
}

/// Read the text after the `:` in `{value:SPEC}`: the spec every sink
/// formats from, and separately whatever the author wrote that it could not
/// honour.
pub fn read_format_spec(fmt: Option<&str>) -> (r: (FormatSpec, Option<FormatSpecFault>))
    ensures
        r.0 == optional_clause_meaning(
            match fmt {
                Some(f) => Some(f@),
                None => None,
            },
        ).0,
        fault_view(r.1) == optional_clause_meaning(
            match fmt {
                Some(f) => Some(f@),
                None => None,
            },
        ).1,
{
    let plain = FormatSpec {
        width: None,
        zero_pad: false,
        base: IntegerBase::Decimal,
        precision: None,
    };
    let fmt_str = match fmt {
        None => {
            return (plain, None);
        },
        Some(f) => f,
    };
    let ghost f = fmt_str@;
    let n = fmt_str.unicode_len();
    if n > 0 && fmt_str.get_char(0) == '.' {
        let digits = fmt_str.substring_char(1, n);
        assert(digits@ == f.drop_first());
        return match read_count(digits) {
            CountRead::Absent => (plain, Some(FormatSpecFault::UnknownSpecifier(string_of(fmt_str)))),
            CountRead::Count(c) => (FormatSpec { precision: Some(c), ..plain }, None),
            CountRead::TooLarge => (
                FormatSpec { precision: Some(FORMAT_MAX_COUNT), ..plain },
                Some(FormatSpecFault::PrecisionTooLarge(string_of(digits))),
            ),
        };
    }
    // The width, and an optional `0` flag before it.

    let mut width: Option<i64> = None;
    let mut zero_pad = false;
    let mut has_width = false;
    let mut rest: &str = fmt_str;
    let mut fault: Option<FormatSpecFault> = None;
    if n > 0 && is_digit_char(fmt_str.get_char(0)) {
        let zp = fmt_str.get_char(0) == '0';
        let width_str: &str = if zp {
            let z = zero_prefix_count(fmt_str);
            proof {
                lemma_prefix_len_bounds(f);
            }
            fmt_str.substring_char(z, n)
        } else {
            fmt_str
        };
        assert(width_str@ == (if zp {
            f.skip(zeros_prefix_len(f) as int)
        } else {
            f
        }));
        let wn = width_str.unicode_len();
        let width_end = digit_prefix_count(width_str);
        proof {
            lemma_prefix_len_bounds(width_str@);
        }
        if width_end > 0 {
            let width_digits = width_str.substring_char(0, width_end);
            assert(width_digits@ == width_str@.take(width_end as int));
            proof {
                lemma_digit_prefix_all_digits(width_str@);
            }
            match read_count(width_digits) {
                CountRead::Count(c) => {
                    width = Some(c);
                    zero_pad = zp;
                    has_width = true;
                    rest = width_str.substring_char(width_end, wn);
                },
                CountRead::TooLarge => {
                    fault = Some(FormatSpecFault::WidthTooLarge(string_of(width_digits)));
                    width = Some(FORMAT_MAX_COUNT);
                    zero_pad = zp;
                    has_width = true;
                    rest = width_str.substring_char(width_end, wn);
                },
                CountRead::Absent => {},
            }
        } else if wn == 0 {
            width = Some(0);
            zero_pad = zp;
            has_width = true;
            rest = "";
            proof {
                reveal_strlit("");
            }
        }
    }
    let ghost ws = width_stage(f);
    assert(width == ws.0 && has_width == ws.1 && rest@ == ws.2 && fault_view(fault) == ws.3);
    assert(zero_pad == (has_width && f.len() > 0 && f[0] == '0'));
    // A precision that follows a width.
    let mut precision: Option<i64> = None;
    let rn = rest.unicode_len();
    if has_width && rn > 0 && rest.get_char(0) == '.' {
        let precision_digits = rest.substring_char(1, rn);
        assert(precision_digits@ == rest@.drop_first());
        match read_count(precision_digits) {
            CountRead::Absent => {
                if fault.is_none() {
                    fault = Some(FormatSpecFault::UnknownSpecifier(string_of(fmt_str)));
                }
            },
            CountRead::Count(c) => {
                precision = Some(c);
            },
            CountRead::TooLarge => {
                precision = Some(FORMAT_MAX_COUNT);
                fault = Some(FormatSpecFault::PrecisionTooLarge(string_of(precision_digits)));
            },
        }
        rest = "";
        proof {
            reveal_strlit("");
        }
    }
    let ghost ps = precision_stage(f, ws.1, ws.2, ws.3);
    assert(precision == ps.0 && rest@ == ps.1 && fault_view(fault) == ps.2);
    // The base letter.
    let mut base = IntegerBase::Decimal;
    let rn2 = rest.unicode_len();
    if rn2 > 0 {
        let only = if rn2 == 1 {
            rest.get_char(0)
        } else {
            ' '
        };
        if rn2 == 1 && only == 'x' {
            assert(rest@ == seq!['x']);
            base = IntegerBase::HexLower;
        } else if rn2 == 1 && only == 'X' {
            assert(rest@ == seq!['X']);
            base = IntegerBase::HexUpper;
        } else if rn2 == 1 && only == 'b' {
            assert(rest@ == seq!['b']);
            base = IntegerBase::Binary;
        } else if rn2 == 1 && only == 'o' {
            assert(rest@ == seq!['o']);
            base = IntegerBase::Octal;
        } else {
            assert(rest@ != seq!['x'] && rest@ != seq!['X'] && rest@ != seq!['b'] && rest@
                != seq!['o']) by {
                if rn2 == 1 {
                    assert(rest@[0] == only);
                }
            }
            if fault.is_none() {
                fault = Some(FormatSpecFault::UnknownSpecifier(string_of(fmt_str)));
            }
        }
    }
    (FormatSpec { width, zero_pad, base, precision }, fault)
}

/// What a clause asks of the value's type; a count fault is not this
/// question's concern and is dropped.
pub fn read_format_spec_ask(fmt: Option<&str>) -> (r: FormatSpecAsk)
    ensures
        r == ask_of(
            optional_clause_meaning(
                match fmt {
                    Some(f) => Some(f@),
                    None => None,
                },
            ).0,
        ),
{
    let spec = read_format_spec(fmt).0;
    if let Some(places) = spec.precision {
        return FormatSpecAsk::DecimalPlaces(places);
    }
    match spec.base {
        IntegerBase::Decimal => FormatSpecAsk::AnyType,
        IntegerBase::HexLower | IntegerBase::HexUpper => FormatSpecAsk::Base("hexadecimal"),
        IntegerBase::Binary => FormatSpecAsk::Base("binary"),
        IntegerBase::Octal => FormatSpecAsk::Base("octal"),
    }
}

proof fn lemma_digit_prefix_of_digits_then(w: Seq<char>, t: Seq<char>)
    requires
        all_digits(w),
        t.len() > 0,
        !is_digit(t[0]),
    ensures
        digit_prefix_len(w + t) == w.len(),
    decreases w.len(),
{
    if w.len() == 0 {
        assert(w + t == t);
    } else {
        assert((w + t).drop_first() == w.drop_first() + t);
        lemma_digit_prefix_of_digits_then(w.drop_first(), t);
    }
}

/// A width followed by a precision keeps both: `{n:8.2}` is width 8 and two
/// decimal places, with nothing to report.
pub proof fn law_width_then_precision(w: Seq<char>, p: Seq<char>)
    requires
        w.len() > 0,
        all_digits(w),
        w[0] != '0',
        digits_value(w) <= FORMAT_MAX_COUNT,
        p.len() > 0,
        all_digits(p),
        digits_value(p) <= FORMAT_MAX_COUNT,
    ensures
        clause_meaning(w + seq!['.'] + p) == (
            FormatSpec {
                width: Some(digits_value(w) as i64),
                zero_pad: false,
                base: IntegerBase::Decimal,
                precision: Some(digits_value(p) as i64),
            },
            Option::<(FaultKind, Seq<char>)>::None,
        ),
{
    let t = seq!['.'] + p;
    let f = w + t;
    assert(w + seq!['.'] + p == f);
    assert(f[0] == w[0]);
    lemma_digit_prefix_of_digits_then(w, t);
    assert(f.take(w.len() as int) == w);
    assert(f.skip(w.len() as int) == t);
    assert(t.drop_first() == p);
    assert(t[0] == '.');
}

/// The zeros a text begins with: how many there are, and that the first
/// character after them is not one, when it has a character that is not.
proof fn lemma_zeros_prefix(w: Seq<char>, t: Seq<char>)
    requires
        exists|i: int| 0 <= i < w.len() && w[i] != '0',
    ensures
        zeros_prefix_len(w + t) == zeros_prefix_len(w),
        zeros_prefix_len(w) < w.len(),
        w[zeros_prefix_len(w) as int] != '0',
        forall|i: int| 0 <= i < zeros_prefix_len(w) ==> w[i] == '0',
    decreases w.len(),
{
    if w[0] != '0' {
        assert((w + t)[0] == w[0]);
    } else {
        let i = choose|i: int| 0 <= i < w.len() && w[i] != '0';
        assert(i > 0);
        assert(w.drop_first()[i - 1] == w[i]);
        assert((w + t).drop_first() =~= w.drop_first() + t);
        assert((w + t)[0] == '0');
        lemma_zeros_prefix(w.drop_first(), t);
        assert forall|k: int| 0 <= k < zeros_prefix_len(w) implies w[k] == '0' by {
            if k > 0 {
                assert(w[k] == w.drop_first()[k - 1]);
            }
        }
        assert(w[zeros_prefix_len(w) as int] == w.drop_first()[zeros_prefix_len(w.drop_first()) as int]);
    }
}

/// A leading zero does not change the number a string of digits spells.
proof fn lemma_leading_zero_value(s: Seq<char>)
    ensures
        digits_value(seq!['0'] + s) == digits_value(s),
    decreases s.len(),
{
    if s.len() == 0 {
        assert(seq!['0'] + s =~= seq!['0']);
        assert(seq!['0'].drop_last() =~= Seq::<char>::empty());
        assert(digits_value(Seq::<char>::empty()) == 0);
        assert(digits_value(seq!['0']) == digits_value(seq!['0'].drop_last()) * 10 + 0);
    } else {
        assert((seq!['0'] + s).drop_last() =~= seq!['0'] + s.drop_last());
        assert((seq!['0'] + s).last() == s.last());
        lemma_leading_zero_value(s.drop_last());
    }
}

/// Leading zeros do not change the number a string of digits spells.
proof fn lemma_skip_zeros_value(w: Seq<char>, z: int)
    requires
        0 <= z <= w.len(),
        forall|i: int| 0 <= i < z ==> w[i] == '0',
    ensures
        digits_value(w.skip(z)) == digits_value(w),
    decreases z,
{
    if z == 0 {
        assert(w.skip(0) =~= w);
    } else {
        assert forall|i: int| 0 <= i < z - 1 implies w.drop_first()[i] == '0' by {
            assert(w.drop_first()[i] == w[i + 1]);
        }
        lemma_skip_zeros_value(w.drop_first(), z - 1);
        assert(w =~= seq!['0'] + w.drop_first());
        lemma_leading_zero_value(w.drop_first());
        assert(w.skip(z) =~= w.drop_first().skip(z - 1));
    }
}

/// A width, zero-padded or not, followed by a precision keeps both counts
/// and reports nothing: `{n:08.2}` is width 8, zero-padded, with two decimal
/// places, and `{n:8.2}` the same without the padding. The width's leading
/// zeros ask for zero padding and do not change the width.
pub proof fn law_padded_width_then_precision(w: Seq<char>, p: Seq<char>)
    requires
        all_digits(w),
        exists|i: int| 0 <= i < w.len() && w[i] != '0',
        digits_value(w) <= FORMAT_MAX_COUNT,
        p.len() > 0,
        all_digits(p),
        digits_value(p) <= FORMAT_MAX_COUNT,
    ensures
        clause_meaning(w + seq!['.'] + p) == (
            FormatSpec {
                width: Some(digits_value(w) as i64),
                zero_pad: w[0] == '0',
                base: IntegerBase::Decimal,
                precision: Some(digits_value(p) as i64),
            },
            Option::<(FaultKind, Seq<char>)>::None,
        ),
{
    let t = seq!['.'] + p;
    let f = w + t;
    assert(w + seq!['.'] + p == f);
    assert(f[0] == w[0]);
    assert(t.drop_first() =~= p);
    assert(t[0] == '.');
    if w[0] == '0' {
        lemma_zeros_prefix(w, t);
        let z = zeros_prefix_len(w) as int;
        let ws = w.skip(z);
        assert(f.skip(z) =~= ws + t);
        assert(all_digits(ws));
        lemma_digit_prefix_of_digits_then(ws, t);
        assert((ws + t).take(ws.len() as int) =~= ws);
        assert((ws + t).skip(ws.len() as int) =~= t);
        lemma_skip_zeros_value(w, z);
        assert(ws.len() > 0);
    } else {
        lemma_digit_prefix_of_digits_then(w, t);
        assert(f.take(w.len() as int) == w);
        assert(f.skip(w.len() as int) == t);
    }
}

/// A count too large to hold is never dropped: the spec carries the largest
/// count instead, beside the fault that reports it.
pub proof fn law_too_large_saturates(f: Seq<char>)
    ensures
        clause_meaning(f).1 matches Some((FaultKind::WidthTooLarge, _)) ==> clause_meaning(
            f,
        ).0.width == Some(FORMAT_MAX_COUNT),
        clause_meaning(f).1 matches Some((FaultKind::PrecisionTooLarge, _)) ==> clause_meaning(
            f,
        ).0.precision == Some(FORMAT_MAX_COUNT),
{
}

} // verus!
