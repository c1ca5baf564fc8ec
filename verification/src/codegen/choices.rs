//! Which runtime instruction each operator and each base is lowered to,
//! and that no two of them share one.
use vstd::prelude::*;
use crate::ast::BinaryOperator;
use crate::codegen::format::{int_line, int_routine};
use crate::codegen::lower::int_op_lines;
use crate::format_spec::IntegerBase;

verus! {

/// A few characters of an instruction, enough to tell the instructions
/// here apart.
spec fn text_key(s: Seq<char>) -> (nat, char, char, char, char) {
    (s.len(), s[0], s[2], s[4], s[5])
}

/// Each integer operator reaches the runtime through an instruction of its
/// own: `+` adds (`INT_ADD`), `-` subtracts (`INT_SUB`), `*` multiplies
/// (`INT_MUL`), `/` divides (`INT_DIV`), `%` takes the remainder
/// (`INT_MOD`), and each comparison has its own test; so two different
/// operators never lower to the same code, and `7 - 2` subtracts.
pub proof fn law_each_int_operator_has_its_own_instruction(a: BinaryOperator, b: BinaryOperator)
    ensures
        int_op_lines(BinaryOperator::Add) == seq!["INT_ADD"@],
        int_op_lines(BinaryOperator::Subtract) == seq!["INT_SUB"@],
        int_op_lines(BinaryOperator::Multiply) == seq!["INT_MUL"@],
        int_op_lines(BinaryOperator::Divide) == seq!["INT_DIV"@],
        int_op_lines(BinaryOperator::Modulo) == seq!["INT_MOD"@],
        int_op_lines(BinaryOperator::Equal) == seq!["INT_EQ"@],
        int_op_lines(BinaryOperator::NotEqual) == seq!["INT_NE"@],
        int_op_lines(BinaryOperator::Greater) == seq!["INT_GT"@],
        int_op_lines(BinaryOperator::Less) == seq!["INT_LT"@],
        int_op_lines(BinaryOperator::GreaterEqual) == seq!["INT_GE"@],
        int_op_lines(BinaryOperator::LessEqual) == seq!["INT_LE"@],
        a != b ==> int_op_lines(a) != int_op_lines(b),
{
    reveal_strlit("INT_ADD");
    reveal_strlit("INT_SUB");
    reveal_strlit("INT_MUL");
    reveal_strlit("INT_DIV");
    reveal_strlit("INT_MOD");
    reveal_strlit("INT_EQ");
    reveal_strlit("INT_NE");
    reveal_strlit("INT_GT");
    reveal_strlit("INT_LT");
    reveal_strlit("INT_GE");
    reveal_strlit("INT_LE");
    reveal_strlit("INT_AND");
    reveal_strlit("INT_OR");
    reveal_strlit("and rax, rbx");
    reveal_strlit("or rax, rbx");
    reveal_strlit("xor rax, rbx");
    reveal_strlit("mov cl, bl");
    reveal_strlit("shl rax, cl");
    reveal_strlit("shr rax, cl");
    if a != b {
        let la = int_op_lines(a);
        let lb = int_op_lines(b);
        assert(la.len() != lb.len() || text_key(la[0]) != text_key(lb[0]) || text_key(la[la.len() - 1]) != text_key(
            lb[lb.len() - 1],
        ));
    }
}

/// Each base prints through a routine of its own: decimal through
/// `PRINT_INT`, lower- and upper-case hexadecimal through `PRINT_HEX_LOWER`
/// and `PRINT_HEX_UPPER`, binary through `PRINT_BINARY`, octal through
/// `PRINT_OCTAL`; no two bases share one, so `{n:o}` of 8 prints `10`.
pub proof fn law_each_base_has_its_own_routine(a: IntegerBase, b: IntegerBase)
    ensures
        int_routine(IntegerBase::Decimal) == "PRINT_INT"@,
        int_routine(IntegerBase::HexLower) == "PRINT_HEX_LOWER"@,
        int_routine(IntegerBase::HexUpper) == "PRINT_HEX_UPPER"@,
        int_routine(IntegerBase::Binary) == "PRINT_BINARY"@,
        int_routine(IntegerBase::Octal) == "PRINT_OCTAL"@,
        a != b ==> int_routine(a) != int_routine(b),
        a != b ==> int_line(a, None, false) != int_line(b, None, false),
{
    reveal_strlit("PRINT_INT");
    reveal_strlit("PRINT_HEX_LOWER");
    reveal_strlit("PRINT_HEX_UPPER");
    reveal_strlit("PRINT_BINARY");
    reveal_strlit("PRINT_OCTAL");
    reveal_strlit(" rdi");
    if a != b {
        let ra = int_routine(a);
        let rb = int_routine(b);
        assert(ra.len() != rb.len() || ra[6] != rb[6] || ra[10] != rb[10]);
        assert(int_line(a, None, false).len() == ra.len() + 4);
        assert(int_line(b, None, false).len() == rb.len() + 4);
        if ra.len() == rb.len() {
            assert(int_line(a, None, false)[6] == ra[6]);
            assert(int_line(b, None, false)[6] == rb[6]);
            assert(int_line(a, None, false)[10] == ra[10]);
            assert(int_line(b, None, false)[10] == rb[10]);
        }
    }
}

} // verus!
