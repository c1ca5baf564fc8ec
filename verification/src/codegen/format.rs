//! Rendering values through `{value:SPEC}` format holes.
use vstd::prelude::*;
use crate::ast::VarType;
use crate::format_spec::{FormatSpec, IntegerBase};
use crate::text::{cat2, cat3, dec_int, i64_text};
use super::{indented, next_count, CodeGenerator};
use super::vars::{string_data_lines, string_label};

verus! {

/// The character of one hexadecimal digit, upper case.
pub open spec fn hex_digit_char(d: nat) -> char {
    if d < 10 {
        crate::text::digit_char(d)
    } else if d == 10 {
        'A'
    } else if d == 11 {
        'B'
    } else if d == 12 {
        'C'
    } else if d == 13 {
        'D'
    } else if d == 14 {
        'E'
    } else {
        'F'
    }
}

/// The last `n` hexadecimal digits of `x`, most significant first.
pub open spec fn hex_digits(x: nat, n: nat) -> Seq<char>
    decreases n,
{
    if n == 0 {
        Seq::empty()
    } else {
        hex_digits(x / 16, (n - 1) as nat).push(hex_digit_char(x % 16))
    }
}

/// A 64-bit pattern as sixteen upper-case hexadecimal digits.
pub open spec fn hex16(x: u64) -> Seq<char> {
    hex_digits(x as nat, 16)
}

fn hex_digit_text(d: u64) -> (s: &'static str)
    requires
        d < 16,
    ensures
        s@ == seq![hex_digit_char(d as nat)],
{
    if d < 10 {
        return crate::text::digit_text(d);
    }
    if d == 10 {
        proof {
            reveal_strlit("A");
        }
        "A"
    } else if d == 11 {
        proof {
            reveal_strlit("B");
        }
        "B"
    } else if d == 12 {
        proof {
            reveal_strlit("C");
        }
        "C"
    } else if d == 13 {
        proof {
            reveal_strlit("D");
        }
        "D"
    } else if d == 14 {
        proof {
            reveal_strlit("E");
        }
        "E"
    } else {
        proof {
            reveal_strlit("F");
        }
        "F"
    }
}

fn hex_digits_text(x: u64, n: u64) -> (s: String)
    ensures
        s@ == hex_digits(x as nat, n as nat),
    decreases n,
{
    if n == 0 {
        proof {
            reveal_strlit("");
        }
        String::from_str("")
    } else {
        let mut s = hex_digits_text(x / 16, n - 1);
        s.append(hex_digit_text(x % 16));
        s
    }
}

/// A 64-bit pattern as sixteen upper-case hexadecimal digits.
pub fn hex16_text(x: u64) -> (s: String)
    ensures
        s@ == hex16(x),
{
    hex_digits_text(x, 16)
}

/// The print routine of a whole number written in `base`.
pub open spec fn int_routine(base: IntegerBase) -> Seq<char> {
    match base {
        IntegerBase::Decimal => "PRINT_INT"@,
        IntegerBase::HexLower => "PRINT_HEX_LOWER"@,
        IntegerBase::HexUpper => "PRINT_HEX_UPPER"@,
        IntegerBase::Binary => "PRINT_BINARY"@,
        IntegerBase::Octal => "PRINT_OCTAL"@,
    }
}

/// The instruction printing rdi in `base`, padded to `width` with zeros or
/// spaces when a width is given.
pub open spec fn int_line(base: IntegerBase, width: Option<int>, zero_pad: bool) -> Seq<char> {
    match width {
        Some(w) => int_routine(base) + (if zero_pad {
            "_ZEROPAD rdi, "@
        } else {
            "_PADDED rdi, "@
        }) + dec_int(w),
        None => int_routine(base) + " rdi"@,
    }
}

/// A count as a mathematical integer.
pub open spec fn count_of(c: Option<i64>) -> Option<int> {
    match c {
        Some(n) => Some(n as int),
        None => None,
    }
}

/// A spec's counts are not negative.
pub open spec fn counts_nonnegative(fmt: FormatSpec) -> bool {
    &&& (fmt.width matches Some(w) ==> w >= 0)
    &&& (fmt.precision matches Some(p) ==> p >= 0)
}

/// Whether a value of this type renders through the integer family.
pub open spec fn integer_family(vt: Option<VarType>) -> bool {
    !(vt == Some(VarType::Float) || vt == Some(VarType::Text) || vt == Some(VarType::Buffer))
}

/// Whether rendering writes a decimal point from the data section: a
/// whole number with decimal places asked for.
pub open spec fn writes_point(vt: Option<VarType>, fmt: FormatSpec) -> bool {
    integer_family(vt) && (fmt.precision matches Some(p) && p > 0)
}

/// Whether rendering needs the formatting routines.
pub open spec fn needs_format(vt: Option<VarType>, fmt: FormatSpec) -> bool {
    if vt == Some(VarType::Float) {
        fmt.precision is Some
    } else if integer_family(vt) {
        fmt.precision is Some || fmt.width is Some || !(fmt.base is Decimal)
    } else {
        false
    }
}

/// The code printing a float in rdi: with decimal places when asked for.
pub open spec fn float_code(fmt: FormatSpec) -> Seq<Seq<char>> {
    seq![indented("movq xmm0, rdi"@)] + match fmt.precision {
        Some(p) => seq![indented("mov rdi, "@ + dec_int(p as int)), indented("call _print_float_precision"@)],
        None => seq![indented("PRINT_FLOAT"@)],
    }
}

/// The code printing a whole number in rdi with `p` decimal places: the
/// digits, padded so the whole rendering is as wide as asked, then a point
/// (the text at `point`) and `p` zeros.
pub open spec fn places_code(fmt: FormatSpec, p: int, point: Seq<char>) -> Seq<Seq<char>> {
    let dw: int = match fmt.width {
        Some(w) => w - 1 - p,
        None => 0,
    };
    seq![
        indented(
            if dw > 0 {
                int_line(IntegerBase::Decimal, Some(dw), fmt.zero_pad)
            } else {
                "PRINT_INT rdi"@
            },
        ),
    ] + if p > 0 {
        seq![
            indented("PRINT_STR "@ + point + ", "@ + point + "_len"@),
            indented("PRINT_INT_ZEROPAD 0, "@ + dec_int(p)),
        ]
    } else {
        Seq::empty()
    }
}

/// The code printing a whole number in rdi as `fmt` asks.
pub open spec fn integer_code(fmt: FormatSpec, point: Seq<char>) -> Seq<Seq<char>> {
    match fmt.precision {
        Some(p) => places_code(fmt, p as int, point),
        None => seq![indented(int_line(fmt.base, count_of(fmt.width), fmt.zero_pad))],
    }
}

/// The code that prints rdi, holding a value of type `vt`, as `fmt` asks;
/// `point` is the label of the decimal point text.
pub open spec fn formatted_value_code(vt: Option<VarType>, fmt: FormatSpec, point: Seq<char>) -> Seq<Seq<char>> {
    if vt == Some(VarType::Float) {
        float_code(fmt)
    } else if vt == Some(VarType::Text) {
        seq![indented("PRINT_CSTR rdi"@)]
    } else if vt == Some(VarType::Buffer) {
        if fmt.width is None && fmt.precision is None && fmt.base is Decimal {
            seq![indented("PRINT_BUF rdi"@)]
        } else {
            seq![indented("PRINT_CSTR rdi"@)]
        }
    } else {
        integer_code(fmt, point)
    }
}

fn int_routine_text(base: IntegerBase) -> (s: &'static str)
    ensures
        s@ == int_routine(base),
{
    match base {
        IntegerBase::Decimal => {
            proof {
                reveal_strlit("PRINT_INT");
            }
            "PRINT_INT"
        },
        IntegerBase::HexLower => {
            proof {
                reveal_strlit("PRINT_HEX_LOWER");
            }
            "PRINT_HEX_LOWER"
        },
        IntegerBase::HexUpper => {
            proof {
                reveal_strlit("PRINT_HEX_UPPER");
            }
            "PRINT_HEX_UPPER"
        },
        IntegerBase::Binary => {
            proof {
                reveal_strlit("PRINT_BINARY");
            }
            "PRINT_BINARY"
        },
        IntegerBase::Octal => {
            proof {
                reveal_strlit("PRINT_OCTAL");
            }
            "PRINT_OCTAL"
        },
    }
}

impl CodeGenerator {
    /// Emit the routine printing rdi in `base`, padded to `width`.
    fn emit_int_routine(&mut self, base: IntegerBase, width: Option<i64>, zero_pad: bool)
        ensures
            final(self).code() == old(self).code().push(indented(int_line(base, count_of(width), zero_pad))),
            *final(self) == (CodeGenerator { text: final(self).text, ..*old(self) }),
    {
        let stem = int_routine_text(base);
        match width {
            Some(w) => {
                let n = i64_text(w);
                let tail = if zero_pad {
                    "_ZEROPAD rdi, "
                } else {
                    "_PADDED rdi, "
                };
                proof {
                    reveal_strlit("_ZEROPAD rdi, ");
                    reveal_strlit("_PADDED rdi, ");
                }
                self.emit_indent(cat3(stem, tail, n.as_str()).as_str());
            },
            None => {
                proof {
                    reveal_strlit(" rdi");
                }
                self.emit_indent(cat2(stem, " rdi").as_str());
            },
        }
    }

    /// Print the value in rdi, of type `value_type`, as `fmt` asks. The
    /// type picks the routine and the spec only decorates it: a float or a
    /// text is never printed through an integer routine.
    #[verifier::rlimit(100)]
    pub fn emit_formatted_value(&mut self, value_type: Option<VarType>, fmt: FormatSpec)
        requires
            counts_nonnegative(fmt),
        ensures
            final(self).code() == old(self).code() + formatted_value_code(
                value_type,
                fmt,
                string_label(old(self).string_counter),
            ),
            final(self).uses_floats == (old(self).uses_floats || value_type == Some(VarType::Float)),
            final(self).uses_format == (old(self).uses_format || needs_format(value_type, fmt)),
            writes_point(value_type, fmt) ==> {
                &&& final(self).string_counter == next_count(old(self).string_counter)
                &&& crate::codegen::lines_view(final(self).data_section@) == crate::codegen::lines_view(
                    old(self).data_section@,
                ) + string_data_lines(string_label(old(self).string_counter), "."@)
            },
            !writes_point(value_type, fmt) ==> {
                &&& final(self).string_counter == old(self).string_counter
                &&& final(self).data_section == old(self).data_section
            },
            *final(self) == (CodeGenerator {
                text: final(self).text,
                uses_floats: final(self).uses_floats,
                uses_format: final(self).uses_format,
                string_counter: final(self).string_counter,
                data_section: final(self).data_section,
                ..*old(self)
            }),
    {
        let ghost start = *self;
        match value_type {
            Some(VarType::Float) => {
                self.emit_formatted_float(fmt);
                return;
            },
            Some(VarType::Text) => {
                self.emit_indent("PRINT_CSTR rdi");
                proof {
                    assert(self.code() =~= start.code() + formatted_value_code(
                        value_type,
                        fmt,
                        string_label(start.string_counter),
                    ));
                }
                return;
            },
            Some(VarType::Buffer) => {
                // With no spec rdi is still the buffer itself, printed by its
                // length; with one it already points at the NUL-terminated
                // data.
                let plain = fmt.width.is_none() && fmt.precision.is_none() && match fmt.base {
                    IntegerBase::Decimal => true,
                    _ => false,
                };
                if plain {
                    self.emit_indent("PRINT_BUF rdi");
                } else {
                    self.emit_indent("PRINT_CSTR rdi");
                }
                proof {
                    assert(self.code() =~= start.code() + formatted_value_code(
                        value_type,
                        fmt,
                        string_label(start.string_counter),
                    ));
                }
                return;
            },
            _ => {},
        }
        // The integer family: numbers, booleans (as 1 or 0), and anything
        // whose type is not known; rdi holds the value itself.
        self.emit_formatted_integer(fmt);
        proof {
            assert(self.code() =~= start.code() + formatted_value_code(
                value_type,
                fmt,
                string_label(start.string_counter),
            ));
        }
    }

    /// Print the float in rdi, to a precision when `fmt` gives one.
    fn emit_formatted_float(&mut self, fmt: FormatSpec)
        requires
            counts_nonnegative(fmt),
        ensures
            final(self).code() == old(self).code() + formatted_value_code(
                Some(VarType::Float),
                fmt,
                string_label(old(self).string_counter),
            ),
            final(self).uses_floats,
            final(self).uses_format == (old(self).uses_format || needs_format(Some(VarType::Float), fmt)),
            *final(self) == (CodeGenerator {
                text: final(self).text,
                uses_floats: final(self).uses_floats,
                uses_format: final(self).uses_format,
                ..*old(self)
            }),
    {
        let ghost start = *self;
        self.emit_indent("movq xmm0, rdi");
        match fmt.precision {
            Some(precision) => {
                self.emit_offset_line("mov rdi, ", precision, "");
                self.emit_indent("call _print_float_precision");
                self.uses_format = true;
            },
            None => {
                // A width or a radix on a float is not applied: there is no
                // float padding routine.
                self.emit_indent("PRINT_FLOAT");
            },
        }
        self.uses_floats = true;
        proof {
            reveal_strlit("movq xmm0, rdi");
            reveal_strlit("call _print_float_precision");
            reveal_strlit("PRINT_FLOAT");
            reveal_strlit("");
            assert(self.code() =~= start.code() + formatted_value_code(
                Some(VarType::Float),
                fmt,
                string_label(start.string_counter),
            ));
        }
    }

    /// Print the whole number in rdi as `fmt` asks.
    fn emit_formatted_integer(&mut self, fmt: FormatSpec)
        requires
            counts_nonnegative(fmt),
        ensures
            final(self).code() == old(self).code() + integer_code(fmt, string_label(old(self).string_counter)),
            final(self).uses_format == (old(self).uses_format || needs_format(None, fmt)),
            writes_point(None, fmt) ==> {
                &&& final(self).string_counter == next_count(old(self).string_counter)
                &&& crate::codegen::lines_view(final(self).data_section@) == crate::codegen::lines_view(
                    old(self).data_section@,
                ) + string_data_lines(string_label(old(self).string_counter), "."@)
            },
            !writes_point(None, fmt) ==> {
                &&& final(self).string_counter == old(self).string_counter
                &&& final(self).data_section == old(self).data_section
            },
            *final(self) == (CodeGenerator {
                text: final(self).text,
                uses_format: final(self).uses_format,
                string_counter: final(self).string_counter,
                data_section: final(self).data_section,
                ..*old(self)
            }),
    {
        if let Some(precision) = fmt.precision {
            self.emit_integer_places(fmt, precision);
            self.uses_format = true;
            return;
        }
        self.emit_int_routine(fmt.base, fmt.width, fmt.zero_pad);
        let plain = fmt.width.is_none() && match fmt.base {
            IntegerBase::Decimal => true,
            _ => false,
        };
        if !plain {
            self.uses_format = true;
        }
    }

    /// Print the whole number in rdi with `precision` decimal places.
    #[verifier::rlimit(50)]
    fn emit_integer_places(&mut self, fmt: FormatSpec, precision: i64)
        requires
            counts_nonnegative(fmt),
            precision >= 0,
        ensures
            final(self).code() == old(self).code() + places_code(
                fmt,
                precision as int,
                string_label(old(self).string_counter),
            ),
            precision > 0 ==> {
                &&& final(self).string_counter == next_count(old(self).string_counter)
                &&& crate::codegen::lines_view(final(self).data_section@) == crate::codegen::lines_view(
                    old(self).data_section@,
                ) + string_data_lines(string_label(old(self).string_counter), "."@)
            },
            precision == 0 ==> {
                &&& final(self).string_counter == old(self).string_counter
                &&& final(self).data_section == old(self).data_section
            },
            *final(self) == (CodeGenerator {
                text: final(self).text,
                string_counter: final(self).string_counter,
                data_section: final(self).data_section,
                ..*old(self)
            }),
    {
        let ghost start = *self;
        // Digits, a point, and `precision` zeros: exact for every whole
        // number. A width pads the digits so the whole is that wide.
        let digit_width: i64 = match fmt.width {
            Some(w) => w - 1 - precision,
            None => 0,
        };
        let ghost first: Seq<char> = if digit_width > 0 {
            int_line(IntegerBase::Decimal, Some(digit_width as int), fmt.zero_pad)
        } else {
            "PRINT_INT rdi"@
        };
        if digit_width > 0 {
            self.emit_int_routine(IntegerBase::Decimal, Some(digit_width), fmt.zero_pad);
        } else {
            self.emit_int_routine(IntegerBase::Decimal, None, false);
            proof {
                reveal_strlit("PRINT_INT rdi");
                reveal_strlit(" rdi");
                reveal_strlit("PRINT_INT");
                assert("PRINT_INT rdi"@ =~= "PRINT_INT"@ + " rdi"@);
            }
        }
        if precision > 0 {
            self.emit_decimal_places(precision);
        }
        proof {
            assert(self.code() =~= start.code() + places_code(
                fmt,
                precision as int,
                string_label(start.string_counter),
            ));
        }
    }

    /// Print a point and `places` zeros.
    fn emit_decimal_places(&mut self, places: i64)
        ensures
            final(self).code() == old(self).code() + seq![
                indented("PRINT_STR "@ + string_label(old(self).string_counter) + ", "@ + string_label(old(self).string_counter) + "_len"@),
                indented("PRINT_INT_ZEROPAD 0, "@ + dec_int(places as int)),
            ],
            final(self).string_counter == next_count(old(self).string_counter),
            crate::codegen::lines_view(final(self).data_section@) == crate::codegen::lines_view(
                old(self).data_section@,
            ) + string_data_lines(string_label(old(self).string_counter), "."@),
            *final(self) == (CodeGenerator {
                text: final(self).text,
                string_counter: final(self).string_counter,
                data_section: final(self).data_section,
                ..*old(self)
            }),
    {
        let point = self.add_string(".");
        self.emit_indent(cat5_str("PRINT_STR ", point.as_str(), ", ", point.as_str(), "_len").as_str());
        self.emit_offset_line("PRINT_INT_ZEROPAD 0, ", places, "");
        proof {
            reveal_strlit("");
            assert(self.code() =~= old(self).code() + seq![
                indented("PRINT_STR "@ + string_label(old(self).string_counter) + ", "@ + string_label(old(self).string_counter) + "_len"@),
                indented("PRINT_INT_ZEROPAD 0, "@ + dec_int(places as int)),
            ]);
        }
    }
}

fn cat5_str(a: &str, b: &str, c: &str, d: &str, e: &str) -> (r: String)
    ensures
        r@ == a@ + b@ + c@ + d@ + e@,
{
    crate::text::cat5(a, b, c, d, e)
}

} // verus!
