//! Casting a `value` to a scalar type by its runtime tag: a four-way jump
//! on the tag, one conversion per source type, and a failure path.
use vstd::prelude::*;
use crate::ast::Type;
use crate::codegen::tags::{cast_dispatch_lines, code_prefix, is_scalar_target};
use crate::codegen::vars::{push_label_line, push_line, string_data_lines, string_label};
use crate::codegen::{
    indented, label_text, lines_view, next_count, CodeGenerator, TAG_BOOLEAN, TAG_FLOAT, TAG_INTEGER, TAG_STRING,
};
use crate::text::{cat2, cat3, dec_int, dec_nat, i64_text, u64_text};

verus! {

/// The runtime tag of a scalar type.
pub open spec fn scalar_tag(t: Type) -> u8 {
    match t {
        Type::Integer => TAG_INTEGER,
        Type::Float => TAG_FLOAT,
        Type::Text => TAG_STRING,
        _ => TAG_BOOLEAN,
    }
}

/// The line that leaves the new tag in r11b.
pub open spec fn new_tag_line(tag: u8) -> Seq<char> {
    indented("mov r11b, "@ + dec_nat(tag as nat) + "  ; new tag"@)
}

/// The end of a conversion: the new tag, then the jump to the shared end.
pub open spec fn closing_lines(tag: u8, done: Seq<char>) -> Seq<Seq<char>> {
    seq![new_tag_line(tag), indented("jmp "@ + done)]
}

/// An integer formatted into a fresh buffer whose address is kept at
/// `[rbp-tmp]`; rax ends on its text.
pub open spec fn int_to_text_lines(tmp: int) -> Seq<Seq<char>> {
    let slot = dec_int(tmp);
    seq![
        indented("; integer -> text"@),
        indented("push rax  ; integer to format"@),
        indented("mov rdi, 1024"@),
        indented("call _alloc_buffer"@),
        indented("mov [rbp-"@ + slot + "], rax  ; format buffer"@),
        indented("mov rdi, [rbp-"@ + slot + "]"@),
        indented("pop rax  ; restore integer"@),
        indented("mov rsi, rax"@),
        indented("xor rdx, rdx"@),
        indented("xor rcx, rcx"@),
        indented("xor r8, r8"@),
        indented("xor r9, r9"@),
        indented("call _buffer_append_formatted_int"@),
        indented("mov rax, [rbp-"@ + slot + "]"@),
        indented("BUFFER_DATA_ADDR rax  ; buffer data area"@),
    ]
}

/// A float formatted into a fresh buffer whose address is kept at
/// `[rbp-tmp]`; rax ends on its text.
pub open spec fn float_to_text_lines(tmp: int) -> Seq<Seq<char>> {
    let slot = dec_int(tmp);
    seq![
        indented("; float -> text"@),
        indented("push rax  ; float bits to format"@),
        indented("mov rdi, 1024"@),
        indented("call _alloc_buffer"@),
        indented("mov [rbp-"@ + slot + "], rax  ; format buffer"@),
        indented("mov rdi, [rbp-"@ + slot + "]"@),
        indented("pop rax  ; restore float bits"@),
        indented("call _buffer_append_float"@),
        indented("mov rax, [rbp-"@ + slot + "]"@),
        indented("BUFFER_DATA_ADDR rax  ; buffer data area"@),
    ]
}

/// The conversion of an integer payload to the type of tag `tag`.
pub open spec fn int_branch_lines(tag: u8, tmp: int) -> Seq<Seq<char>> {
    if tag == TAG_INTEGER {
        seq![indented("; integer -> integer (no-op)"@)]
    } else if tag == TAG_FLOAT {
        seq![indented("; integer -> float"@), indented("cvtsi2sd xmm0, rax"@), indented("XMM0_TO_RAX"@)]
    } else if tag == TAG_STRING {
        int_to_text_lines(tmp)
    } else {
        seq![indented("; integer -> boolean"@), indented("BOOL_FROM_RAX"@)]
    }
}

/// The conversion of a float payload to the type of tag `tag`.
pub open spec fn float_branch_lines(tag: u8, tmp: int) -> Seq<Seq<char>> {
    if tag == TAG_INTEGER {
        seq![indented("; float -> integer"@), indented("RAX_TO_XMM0"@), indented("cvttsd2si rax, xmm0"@)]
    } else if tag == TAG_FLOAT {
        seq![indented("; float -> float (no-op)"@)]
    } else if tag == TAG_STRING {
        float_to_text_lines(tmp)
    } else {
        seq![indented("; float -> boolean"@), indented("BOOL_FROM_RAX"@)]
    }
}

/// The conversion of a text payload to the type of tag `tag`; a boolean
/// target jumps to `store` once rax holds the answer.
pub open spec fn text_branch_lines(tag: u8, false_label: Seq<char>, store: Seq<char>) -> Seq<Seq<char>> {
    if tag == TAG_INTEGER {
        seq![indented("; text -> number"@), indented("mov rdi, rax"@), indented("call _parse_i64"@)]
    } else if tag == TAG_FLOAT {
        seq![indented("; text -> float"@), indented("mov rdi, rax"@), indented("call _parse_f64"@)]
    } else if tag == TAG_STRING {
        seq![indented("; text -> text (no-op)"@)]
    } else {
        seq![
            indented("; text -> boolean"@),
            indented("test rax, rax"@),
            indented("jz "@ + false_label),
            indented("mov rdi, rax"@),
            indented("call _text_to_boolean"@),
            indented("jmp "@ + store),
            false_label + ":"@,
            indented("xor rax, rax"@),
        ]
    }
}

/// The conversion of a boolean payload to the type of tag `tag`; a text
/// target picks the `true` or `false` string.
pub open spec fn bool_branch_lines(
    tag: u8,
    true_str: Seq<char>,
    false_str: Seq<char>,
    l_true: Seq<char>,
    l_end: Seq<char>,
) -> Seq<Seq<char>> {
    if tag == TAG_INTEGER {
        seq![indented("; boolean -> integer (no-op)"@)]
    } else if tag == TAG_FLOAT {
        seq![indented("; boolean -> float"@), indented("cvtsi2sd xmm0, rax"@), indented("XMM0_TO_RAX"@)]
    } else if tag == TAG_STRING {
        seq![
            indented("; boolean -> text"@),
            indented("test rax, rax"@),
            indented("jnz "@ + l_true),
            indented("lea rax, [rel "@ + false_str + "]"@),
            indented("jmp "@ + l_end),
            l_true + ":"@,
            indented("lea rax, [rel "@ + true_str + "]"@),
            l_end + ":"@,
        ]
    } else {
        seq![indented("; boolean -> boolean (no-op)"@)]
    }
}

/// The value a failed cast yields: the empty text for a text target, else 0.
pub open spec fn fail_value_lines(tag: u8, empty_str: Seq<char>) -> Seq<Seq<char>> {
    if tag == TAG_STRING {
        seq![indented("lea rax, [rel "@ + empty_str + "]  ; empty text on failure"@)]
    } else {
        seq![indented("xor rax, rax"@)]
    }
}

/// The integer source's part: its label, conversion and closing.
pub open spec fn int_segment(tag: u8, tmp: int, l: Seq<char>, done: Seq<char>) -> Seq<Seq<char>> {
    seq![l + ":"@] + int_branch_lines(tag, tmp) + closing_lines(tag, done)
}

/// The float source's part: its label, conversion and closing.
pub open spec fn float_segment(tag: u8, tmp: int, l: Seq<char>, done: Seq<char>) -> Seq<Seq<char>> {
    seq![l + ":"@] + float_branch_lines(tag, tmp) + closing_lines(tag, done)
}

/// The text source's part: its label, conversion, the store label and
/// closing.
pub open spec fn text_segment(tag: u8, l: Seq<char>, bool_l: Seq<char>, store: Seq<char>, done: Seq<char>) -> Seq<
    Seq<char>,
> {
    seq![l + ":"@] + text_branch_lines(tag, bool_l + "_str_false"@, store) + seq![store + ":"@] + closing_lines(
        tag,
        done,
    )
}

/// The boolean source's part: its label, conversion and closing.
pub open spec fn bool_segment(
    tag: u8,
    l: Seq<char>,
    true_str: Seq<char>,
    false_str: Seq<char>,
    l_true: Seq<char>,
    l_end: Seq<char>,
    done: Seq<char>,
) -> Seq<Seq<char>> {
    seq![l + ":"@] + bool_branch_lines(tag, true_str, false_str, l_true, l_end) + closing_lines(tag, done)
}

/// The failure path for a source with no cast (list, map, nothing): the
/// default value, the error flag, the new tag, and the shared end label.
pub open spec fn fail_segment(tag: u8, l: Seq<char>, empty_str: Seq<char>, done: Seq<char>) -> Seq<Seq<char>> {
    seq![l + ":"@, indented("; unsupported source tag for cast"@)] + fail_value_lines(tag, empty_str) + seq![
        indented("SET_LAST_ERROR 1"@),
        new_tag_line(tag),
        done + ":"@,
    ]
}

/// The four-way jump on the tag in r11 to the given labels.
pub open spec fn dispatch_lines(li: Seq<char>, lf: Seq<char>, ls: Seq<char>, lb: Seq<char>, lx: Seq<char>) -> Seq<
    Seq<char>,
> {
    seq![
        indented("cmp r11, 0  ; integer?"@),
        indented("je "@ + li),
        indented("cmp r11, 2  ; float?"@),
        indented("je "@ + lf),
        indented("cmp r11, 1  ; string/text?"@),
        indented("je "@ + ls),
        indented("cmp r11, 3  ; boolean?"@),
        indented("je "@ + lb),
        indented("jmp "@ + lx),
    ]
}

/// A cast's code from its labels and strings: the dispatch, each source
/// type's part (integer, float, text, boolean), and the failure path, all
/// ending at the label `done` with the target's tag in r11b. A text target
/// formats into scratch slots 8 and 16 bytes below the frame depth `so`.
#[verifier::opaque]
pub open spec fn cast_parts(
    tag: u8,
    so: int,
    li: Seq<char>,
    lf: Seq<char>,
    ls: Seq<char>,
    lb: Seq<char>,
    lx: Seq<char>,
    store: Seq<char>,
    done: Seq<char>,
    extras: (Seq<char>, Seq<char>, Seq<char>, Seq<char>, Seq<char>),
) -> Seq<Seq<char>> {
    dispatch_lines(li, lf, ls, lb, lx) + int_segment(tag, so + 8, li, done) + float_segment(tag, so + 16, lf, done)
        + text_segment(tag, ls, lb, store, done) + bool_segment(
        tag,
        lb,
        extras.0,
        extras.1,
        extras.2,
        extras.3,
        done,
    ) + fail_segment(tag, lx, extras.4, done)
}

/// What a cast to text needs beyond its labels, made after them from
/// label count `c7` and string count `sc`: the `true` and `false` strings,
/// the two labels of the boolean-to-text choice, and the empty string.
/// Other targets make none of them.
pub open spec fn cast_extras(tag: u8, c7: u64, sc: u64) -> (Seq<char>, Seq<char>, Seq<char>, Seq<char>, Seq<char>) {
    if tag == TAG_STRING {
        (
            string_label(sc),
            string_label(next_count(sc)),
            label_text("vr_bool_true"@, c7),
            label_text("vr_bool_done"@, next_count(c7)),
            string_label(next_count(next_count(sc))),
        )
    } else {
        (Seq::empty(), Seq::empty(), Seq::empty(), Seq::empty(), Seq::empty())
    }
}

/// The strings a cast to text defines, from string count `sc` on: the
/// text `true`, the text `false`, and the empty text a failed cast yields.
pub open spec fn cast_text_data(sc: u64) -> Seq<Seq<char>> {
    string_data_lines(string_label(sc), "true"@) + string_data_lines(string_label(next_count(sc)), "false"@)
        + string_data_lines(string_label(next_count(next_count(sc))), ""@)
}

/// In a cast to text a true boolean becomes the text `true` and a false one
/// the text `false`: the jump taken on a nonzero payload leads to a load of
/// the string the cast defines as `true`, and the path that falls through
/// on zero loads the one it defines as `false`.
pub proof fn law_booleans_cast_to_their_words(c: u64, sc: u64, so: int)
    ensures
        ({
            let code = scalar_cast_code(Type::Text, c, sc, so);
            let c7 = next_count(next_count(next_count(next_count(next_count(next_count(next_count(c)))))));
            let l_true = label_text("vr_bool_true"@, c7);
            exists|i: int, j: int, t: Seq<char>, f: Seq<char>|
                #![trigger code[i], code[j], string_data_lines(t, "true"@), string_data_lines(f, "false"@)]
                {
                    &&& 0 <= i && i + 1 < code.len() && 0 <= j && j + 1 < code.len()
                    &&& code[i] == indented("jnz "@ + l_true)
                    &&& code[i + 1] == indented("lea rax, [rel "@ + f + "]"@)
                    &&& code[j] == l_true + ":"@
                    &&& code[j + 1] == indented("lea rax, [rel "@ + t + "]"@)
                    &&& cast_text_data(sc) == string_data_lines(t, "true"@) + string_data_lines(f, "false"@)
                        + string_data_lines(string_label(next_count(next_count(sc))), ""@)
                }
        }),
{
    reveal(cast_parts);
    let c1 = next_count(c);
    let c2 = next_count(c1);
    let c3 = next_count(c2);
    let c4 = next_count(c3);
    let c5 = next_count(c4);
    let c6 = next_count(c5);
    let c7 = next_count(c6);
    let done = label_text("vr_done"@, c6);
    let tag = TAG_STRING;
    let ex = cast_extras(tag, c7, sc);
    let d = dispatch_lines(
        label_text("vr_int"@, c),
        label_text("vr_flt"@, c1),
        label_text("vr_str"@, c2),
        label_text("vr_bool"@, c3),
        label_text("vr_fail"@, c4),
    );
    let a1 = int_segment(tag, so + 8, label_text("vr_int"@, c), done);
    let a2 = float_segment(tag, so + 16, label_text("vr_flt"@, c1), done);
    let a3 = text_segment(tag, label_text("vr_str"@, c2), label_text("vr_bool"@, c3), label_text("vr_store"@, c5), done);
    let a4 = bool_segment(tag, label_text("vr_bool"@, c3), ex.0, ex.1, ex.2, ex.3, done);
    let a5 = fail_segment(tag, label_text("vr_fail"@, c4), ex.4, done);
    let code = scalar_cast_code(Type::Text, c, sc, so);
    assert(code == d + a1 + a2 + a3 + a4 + a5);
    assert(d.len() == 9);
    assert(a1.len() == 18);
    assert(a2.len() == 13);
    assert(a3.len() == 5);
    assert(a4.len() == 11);
    let pre = d + a1 + a2 + a3;
    assert(pre.len() == 45);
    let upto = pre + a4;
    assert(code == upto + a5);
    assert(code[48] == upto[48]);
    assert(upto[48] == a4[3]);
    assert(code[49] == a4[4]);
    assert(code[51] == a4[6]);
    assert(code[52] == a4[7]);
    let t = string_label(sc);
    let f = string_label(next_count(sc));
    assert(code[48] == indented("jnz "@ + label_text("vr_bool_true"@, c7)));
    assert(code[49] == indented("lea rax, [rel "@ + f + "]"@));
    assert(code[51] == label_text("vr_bool_true"@, c7) + ":"@);
    assert(code[52] == indented("lea rax, [rel "@ + t + "]"@));
    assert(string_data_lines(t, "true"@) == string_data_lines(t, "true"@));
    assert(string_data_lines(f, "false"@) == string_data_lines(f, "false"@));
}

/// The code of a cast of the payload in rax, whose tag is in r11, to the
/// scalar `target`, with labels counted from `c`, strings from `sc`, and
/// the frame `so` bytes deep.
pub open spec fn scalar_cast_code(target: Type, c: u64, sc: u64, so: int) -> Seq<Seq<char>> {
    let c1 = next_count(c);
    let c2 = next_count(c1);
    let c3 = next_count(c2);
    let c4 = next_count(c3);
    let c5 = next_count(c4);
    let c6 = next_count(c5);
    cast_parts(
        scalar_tag(target),
        so,
        label_text("vr_int"@, c),
        label_text("vr_flt"@, c1),
        label_text("vr_str"@, c2),
        label_text("vr_bool"@, c3),
        label_text("vr_fail"@, c4),
        label_text("vr_store"@, c5),
        label_text("vr_done"@, c6),
        cast_extras(scalar_tag(target), next_count(c6), sc),
    )
}

/// A cast's code begins with its dispatch and ends at its `done` label.
pub proof fn lemma_cast_parts_ends(
    tag: u8,
    so: int,
    li: Seq<char>,
    lf: Seq<char>,
    ls: Seq<char>,
    lb: Seq<char>,
    lx: Seq<char>,
    store: Seq<char>,
    done: Seq<char>,
    extras: (Seq<char>, Seq<char>, Seq<char>, Seq<char>, Seq<char>),
)
    ensures
        ({
            let p = cast_parts(tag, so, li, lf, ls, lb, lx, store, done, extras);
            let d = dispatch_lines(li, lf, ls, lb, lx);
            &&& d.len() <= p.len()
            &&& p.subrange(0, d.len() as int) == d
            &&& p.last() == done + ":"@
        }),
{
    reveal(cast_parts);
    let d = dispatch_lines(li, lf, ls, lb, lx);
    let rest = int_segment(tag, so + 8, li, done) + float_segment(tag, so + 16, lf, done) + text_segment(
        tag,
        ls,
        lb,
        store,
        done,
    ) + bool_segment(tag, lb, extras.0, extras.1, extras.2, extras.3, done) + fail_segment(tag, lx, extras.4, done);
    assert(cast_parts(tag, so, li, lf, ls, lb, lx, store, done, extras) =~= d + rest);
    assert((d + rest).subrange(0, d.len() as int) =~= d);
}

/// Append the closing lines of a conversion.
fn push_closing(v: &mut Vec<String>, tag: u8, done: &str)
    ensures
        lines_view(final(v)@) == lines_view(old(v)@) + closing_lines(tag, done@),
{
    let n = u64_text(tag as u64);
    push_line(v, cat3("mov r11b, ", n.as_str(), "  ; new tag").as_str());
    push_line(v, cat2("jmp ", done).as_str());
    assert(lines_view(v@) =~= lines_view(old(v)@) + closing_lines(tag, done@));
}

/// Append the opening of a payload's formatting into a fresh buffer kept
/// at `[rbp-slot]`: save the payload, allocate, keep the buffer, restore.
fn push_buffer_open(v: &mut Vec<String>, slot: &str, save: &str, restore: &str)
    ensures
        lines_view(final(v)@) == lines_view(old(v)@) + seq![
            indented(save@),
            indented("mov rdi, 1024"@),
            indented("call _alloc_buffer"@),
            indented("mov [rbp-"@ + slot@ + "], rax  ; format buffer"@),
            indented("mov rdi, [rbp-"@ + slot@ + "]"@),
            indented(restore@),
        ],
{
    push_line(v, save);
    push_line(v, "mov rdi, 1024");
    push_line(v, "call _alloc_buffer");
    push_line(v, cat3("mov [rbp-", slot, "], rax  ; format buffer").as_str());
    push_line(v, cat3("mov rdi, [rbp-", slot, "]").as_str());
    push_line(v, restore);
    assert(lines_view(v@) =~= lines_view(old(v)@) + seq![
        indented(save@),
        indented("mov rdi, 1024"@),
        indented("call _alloc_buffer"@),
        indented("mov [rbp-"@ + slot@ + "], rax  ; format buffer"@),
        indented("mov rdi, [rbp-"@ + slot@ + "]"@),
        indented(restore@),
    ]);
}

/// Append the two lines that end a buffer formatting.
fn push_buffer_close(v: &mut Vec<String>, slot: &str)
    ensures
        lines_view(final(v)@) == lines_view(old(v)@) + seq![
            indented("mov rax, [rbp-"@ + slot@ + "]"@),
            indented("BUFFER_DATA_ADDR rax  ; buffer data area"@),
        ],
{
    push_line(v, cat3("mov rax, [rbp-", slot, "]").as_str());
    push_line(v, "BUFFER_DATA_ADDR rax  ; buffer data area");
    assert(lines_view(v@) =~= lines_view(old(v)@) + seq![
        indented("mov rax, [rbp-"@ + slot@ + "]"@),
        indented("BUFFER_DATA_ADDR rax  ; buffer data area"@),
    ]);
}

/// Append one list of lines to another.
fn append_lines(v: &mut Vec<String>, w: Vec<String>)
    ensures
        lines_view(final(v)@) == lines_view(old(v)@) + lines_view(w@),
{
    let ghost wv = w@;
    let mut w = w;
    v.append(&mut w);
    assert(lines_view(v@) =~= lines_view(old(v)@) + lines_view(wv));
}

/// The integer source's part of a cast to the type of tag `tag`.
fn int_segment_code(tag: u8, tmp: i64, l: &str, done: &str) -> (r: Vec<String>)
    ensures
        lines_view(r@) == int_segment(tag, tmp as int, l@, done@),
{
    let mut v: Vec<String> = Vec::new();
    push_label_line(&mut v, l);
    let ghost head = lines_view(v@);
    if tag == TAG_INTEGER {
        push_line(&mut v, "; integer -> integer (no-op)");
    } else if tag == TAG_FLOAT {
        push_line(&mut v, "; integer -> float");
        push_line(&mut v, "cvtsi2sd xmm0, rax");
        push_line(&mut v, "XMM0_TO_RAX");
    } else if tag == TAG_STRING {
        let slot = i64_text(tmp);
        push_line(&mut v, "; integer -> text");
        push_buffer_open(&mut v, slot.as_str(), "push rax  ; integer to format", "pop rax  ; restore integer");
        push_line(&mut v, "mov rsi, rax");
        push_line(&mut v, "xor rdx, rdx");
        push_line(&mut v, "xor rcx, rcx");
        push_line(&mut v, "xor r8, r8");
        push_line(&mut v, "xor r9, r9");
        push_line(&mut v, "call _buffer_append_formatted_int");
        push_buffer_close(&mut v, slot.as_str());
    } else {
        push_line(&mut v, "; integer -> boolean");
        push_line(&mut v, "BOOL_FROM_RAX");
    }
    assert(lines_view(v@) =~= head + int_branch_lines(tag, tmp as int));
    push_closing(&mut v, tag, done);
    assert(lines_view(v@) =~= int_segment(tag, tmp as int, l@, done@));
    v
}

/// The float source's part of a cast to the type of tag `tag`.
fn float_segment_code(tag: u8, tmp: i64, l: &str, done: &str) -> (r: Vec<String>)
    ensures
        lines_view(r@) == float_segment(tag, tmp as int, l@, done@),
{
    let mut v: Vec<String> = Vec::new();
    push_label_line(&mut v, l);
    let ghost head = lines_view(v@);
    if tag == TAG_INTEGER {
        push_line(&mut v, "; float -> integer");
        push_line(&mut v, "RAX_TO_XMM0");
        push_line(&mut v, "cvttsd2si rax, xmm0");
    } else if tag == TAG_FLOAT {
        push_line(&mut v, "; float -> float (no-op)");
    } else if tag == TAG_STRING {
        let slot = i64_text(tmp);
        push_line(&mut v, "; float -> text");
        push_buffer_open(&mut v, slot.as_str(), "push rax  ; float bits to format", "pop rax  ; restore float bits");
        push_line(&mut v, "call _buffer_append_float");
        push_buffer_close(&mut v, slot.as_str());
    } else {
        push_line(&mut v, "; float -> boolean");
        push_line(&mut v, "BOOL_FROM_RAX");
    }
    assert(lines_view(v@) =~= head + float_branch_lines(tag, tmp as int));
    push_closing(&mut v, tag, done);
    assert(lines_view(v@) =~= float_segment(tag, tmp as int, l@, done@));
    v
}

/// The text source's part of a cast to the type of tag `tag`.
fn text_segment_code(tag: u8, l: &str, bool_l: &str, store: &str, done: &str) -> (r: Vec<String>)
    ensures
        lines_view(r@) == text_segment(tag, l@, bool_l@, store@, done@),
{
    let mut v: Vec<String> = Vec::new();
    push_label_line(&mut v, l);
    let ghost head = lines_view(v@);
    if tag == TAG_INTEGER {
        push_line(&mut v, "; text -> number");
        push_line(&mut v, "mov rdi, rax");
        push_line(&mut v, "call _parse_i64");
    } else if tag == TAG_FLOAT {
        push_line(&mut v, "; text -> float");
        push_line(&mut v, "mov rdi, rax");
        push_line(&mut v, "call _parse_f64");
    } else if tag == TAG_STRING {
        push_line(&mut v, "; text -> text (no-op)");
    } else {
        let false_label = cat2(bool_l, "_str_false");
        push_line(&mut v, "; text -> boolean");
        push_line(&mut v, "test rax, rax");
        push_line(&mut v, cat2("jz ", false_label.as_str()).as_str());
        push_line(&mut v, "mov rdi, rax");
        push_line(&mut v, "call _text_to_boolean");
        push_line(&mut v, cat2("jmp ", store).as_str());
        push_label_line(&mut v, false_label.as_str());
        push_line(&mut v, "xor rax, rax");
    }
    assert(lines_view(v@) =~= head + text_branch_lines(tag, bool_l@ + "_str_false"@, store@));
    push_label_line(&mut v, store);
    push_closing(&mut v, tag, done);
    assert(lines_view(v@) =~= text_segment(tag, l@, bool_l@, store@, done@));
    v
}

/// The boolean source's part of a cast to the type of tag `tag`.
fn bool_segment_code(
    tag: u8,
    l: &str,
    true_str: &str,
    false_str: &str,
    l_true: &str,
    l_end: &str,
    done: &str,
) -> (r: Vec<String>)
    ensures
        lines_view(r@) == bool_segment(tag, l@, true_str@, false_str@, l_true@, l_end@, done@),
{
    let mut v: Vec<String> = Vec::new();
    push_label_line(&mut v, l);
    let ghost head = lines_view(v@);
    if tag == TAG_INTEGER {
        push_line(&mut v, "; boolean -> integer (no-op)");
    } else if tag == TAG_FLOAT {
        push_line(&mut v, "; boolean -> float");
        push_line(&mut v, "cvtsi2sd xmm0, rax");
        push_line(&mut v, "XMM0_TO_RAX");
    } else if tag == TAG_STRING {
        push_line(&mut v, "; boolean -> text");
        push_line(&mut v, "test rax, rax");
        push_line(&mut v, cat2("jnz ", l_true).as_str());
        push_line(&mut v, cat3("lea rax, [rel ", false_str, "]").as_str());
        push_line(&mut v, cat2("jmp ", l_end).as_str());
        push_label_line(&mut v, l_true);
        push_line(&mut v, cat3("lea rax, [rel ", true_str, "]").as_str());
        push_label_line(&mut v, l_end);
    } else {
        push_line(&mut v, "; boolean -> boolean (no-op)");
    }
    assert(lines_view(v@) =~= head + bool_branch_lines(tag, true_str@, false_str@, l_true@, l_end@));
    push_closing(&mut v, tag, done);
    assert(lines_view(v@) =~= bool_segment(tag, l@, true_str@, false_str@, l_true@, l_end@, done@));
    v
}

/// The failure path of a cast to the type of tag `tag`.
fn fail_segment_code(tag: u8, l: &str, empty_str: &str, done: &str) -> (r: Vec<String>)
    ensures
        lines_view(r@) == fail_segment(tag, l@, empty_str@, done@),
{
    let mut v: Vec<String> = Vec::new();
    push_label_line(&mut v, l);
    push_line(&mut v, "; unsupported source tag for cast");
    let ghost head = lines_view(v@);
    if tag == TAG_STRING {
        push_line(&mut v, cat3("lea rax, [rel ", empty_str, "]  ; empty text on failure").as_str());
    } else {
        push_line(&mut v, "xor rax, rax");
    }
    assert(lines_view(v@) =~= head + fail_value_lines(tag, empty_str@));
    push_line(&mut v, "SET_LAST_ERROR 1");
    let n = u64_text(tag as u64);
    push_line(&mut v, cat3("mov r11b, ", n.as_str(), "  ; new tag").as_str());
    push_label_line(&mut v, done);
    assert(lines_view(v@) =~= fail_segment(tag, l@, empty_str@, done@));
    v
}

/// The four-way jump on the tag in r11.
fn dispatch_code(li: &str, lf: &str, ls: &str, lb: &str, lx: &str) -> (r: Vec<String>)
    ensures
        lines_view(r@) == dispatch_lines(li@, lf@, ls@, lb@, lx@),
{
    let mut v: Vec<String> = Vec::new();
    push_line(&mut v, "cmp r11, 0  ; integer?");
    push_line(&mut v, cat2("je ", li).as_str());
    push_line(&mut v, "cmp r11, 2  ; float?");
    push_line(&mut v, cat2("je ", lf).as_str());
    push_line(&mut v, "cmp r11, 1  ; string/text?");
    push_line(&mut v, cat2("je ", ls).as_str());
    push_line(&mut v, "cmp r11, 3  ; boolean?");
    push_line(&mut v, cat2("je ", lb).as_str());
    push_line(&mut v, cat2("jmp ", lx).as_str());
    assert(lines_view(v@) =~= dispatch_lines(li@, lf@, ls@, lb@, lx@));
    v
}

/// A cast's code from its labels and strings.
fn cast_code(
    tag: u8,
    so: i64,
    labels: &(String, String, String, String, String, String, String),
    extras: &(String, String, String, String, String),
) -> (r: Vec<String>)
    requires
        so <= i64::MAX - 16,
    ensures
        lines_view(r@) == cast_parts(
            tag,
            so as int,
            labels.0@,
            labels.1@,
            labels.2@,
            labels.3@,
            labels.4@,
            labels.5@,
            labels.6@,
            (extras.0@, extras.1@, extras.2@, extras.3@, extras.4@),
        ),
{
    let done = labels.6.as_str();
    let mut lines = dispatch_code(labels.0.as_str(), labels.1.as_str(), labels.2.as_str(), labels.3.as_str(), labels.4.as_str());
    append_lines(&mut lines, int_segment_code(tag, so + 8, labels.0.as_str(), done));
    append_lines(&mut lines, float_segment_code(tag, so + 16, labels.1.as_str(), done));
    append_lines(&mut lines, text_segment_code(tag, labels.2.as_str(), labels.3.as_str(), labels.5.as_str(), done));
    append_lines(
        &mut lines,
        bool_segment_code(
            tag,
            labels.3.as_str(),
            extras.0.as_str(),
            extras.1.as_str(),
            extras.2.as_str(),
            extras.3.as_str(),
            done,
        ),
    );
    append_lines(&mut lines, fail_segment_code(tag, labels.4.as_str(), extras.4.as_str(), done));
    proof {
        reveal(cast_parts);
    }
    lines
}

impl CodeGenerator {
    /// Convert the payload in rax from the type its tag in r11 names to the
    /// scalar `target_type`, leaving the new tag in r11b. A source with no
    /// defined cast (list, map, nothing) sets the error flag and yields the
    /// empty text or 0. A target that is not a scalar is refused.
    pub fn emit_scalar_cast_from_runtime_tag(&mut self, target_type: &Type)
        requires
            old(self).stack_offset <= i64::MAX - 16,
        ensures
            !is_scalar_target(*target_type) ==> final(self).code() == old(self).code() + seq![
                indented("; scalar cast to non-scalar target is unsupported"@),
                indented("SET_LAST_ERROR 1"@),
            ] && final(self).only_text_grew(old(self)),
            is_scalar_target(*target_type) ==> final(self).code() == old(self).code() + scalar_cast_code(
                *target_type,
                old(self).label_counter,
                old(self).string_counter,
                old(self).stack_offset as int,
            ),
            is_scalar_target(*target_type) ==> {
                &&& code_prefix(old(self).code() + cast_dispatch_lines(old(self).label_counter), final(self).code())
                &&& final(self).code().last() == label_text(
                    "vr_done"@,
                    next_count(next_count(next_count(next_count(next_count(next_count(old(self).label_counter)))))),
                ) + ":"@
            },
            *target_type is Text ==> lines_view(final(self).data_section@) == lines_view(old(self).data_section@)
                + cast_text_data(old(self).string_counter),
            is_scalar_target(*target_type) && !(*target_type is Text) ==> final(self).data_section
                == old(self).data_section,
            final(self).stack_offset >= old(self).stack_offset,
            final(self).stack_offset <= old(self).stack_offset + 16,
            final(self).variables == old(self).variables,
            final(self).variable_types == old(self).variable_types,
            final(self).global_var_labels == old(self).global_var_labels,
            final(self).in_function_codegen == old(self).in_function_codegen,
    {
        let target_tag: u8 = match target_type {
            Type::Integer => TAG_INTEGER,
            Type::Float => TAG_FLOAT,
            Type::Text => TAG_STRING,
            Type::Boolean => TAG_BOOLEAN,
            _ => {
                self.emit_indent("; scalar cast to non-scalar target is unsupported");
                self.emit_indent("SET_LAST_ERROR 1");
                proof {
                    assert(self.code() =~= old(self).code() + seq![
                        indented("; scalar cast to non-scalar target is unsupported"@),
                        indented("SET_LAST_ERROR 1"@),
                    ]);
                }
                return;
            },
        };
        let ghost g0 = *self;
        let so = self.stack_offset;
        let labels = self.mint_cast_labels();
        let extras = if target_tag == TAG_STRING {
            self.stack_offset = so + 16;
            self.uses_buffers = true;
            self.mint_text_extras()
        } else {
            (String::new(), String::new(), String::new(), String::new(), String::new())
        };
        if target_tag != TAG_BOOLEAN {
            self.uses_floats = true;
        }
        if target_tag == TAG_INTEGER {
            self.uses_ints = true;
        }
        if target_tag == TAG_BOOLEAN {
            self.uses_strings = true;
        }
        let mut lines = cast_code(target_tag, so, &labels, &extras);
        let ghost c = g0.label_counter;
        let ghost body = lines_view(lines@);
        proof {
            let c6 = next_count(next_count(next_count(next_count(next_count(next_count(c))))));
            assert((extras.0@, extras.1@, extras.2@, extras.3@, extras.4@) == cast_extras(
                target_tag,
                next_count(c6),
                g0.string_counter,
            ));
            assert(body == scalar_cast_code(*target_type, c, g0.string_counter, g0.stack_offset as int));
            lemma_cast_parts_ends(
                target_tag,
                so as int,
                labels.0@,
                labels.1@,
                labels.2@,
                labels.3@,
                labels.4@,
                labels.5@,
                labels.6@,
                (extras.0@, extras.1@, extras.2@, extras.3@, extras.4@),
            );
            assert(dispatch_lines(labels.0@, labels.1@, labels.2@, labels.3@, labels.4@) == cast_dispatch_lines(c));
        }
        let ghost before = self.text@;
        self.text.append(&mut lines);
        proof {
            let d = cast_dispatch_lines(c);
            assert(self.code() =~= lines_view(before) + body);
            assert(lines_view(before) == g0.code());
            assert(self.code().subrange(0, (g0.code().len() + d.len()) as int) =~= g0.code() + d);
        }
    }

    /// The seven labels of a cast, minted in turn.
    fn mint_cast_labels(&mut self) -> (r: (String, String, String, String, String, String, String))
        ensures
            ({
                let c = old(self).label_counter;
                let c1 = next_count(c);
                let c2 = next_count(c1);
                let c3 = next_count(c2);
                let c4 = next_count(c3);
                let c5 = next_count(c4);
                let c6 = next_count(c5);
                &&& r.0@ == label_text("vr_int"@, c)
                &&& r.1@ == label_text("vr_flt"@, c1)
                &&& r.2@ == label_text("vr_str"@, c2)
                &&& r.3@ == label_text("vr_bool"@, c3)
                &&& r.4@ == label_text("vr_fail"@, c4)
                &&& r.5@ == label_text("vr_store"@, c5)
                &&& r.6@ == label_text("vr_done"@, c6)
                &&& final(self).label_counter == next_count(c6)
            }),
            *final(self) == (CodeGenerator { label_counter: final(self).label_counter, ..*old(self) }),
    {
        let l_int = self.new_label("vr_int");
        let l_flt = self.new_label("vr_flt");
        let l_str = self.new_label("vr_str");
        let l_bool = self.new_label("vr_bool");
        let l_fail = self.new_label("vr_fail");
        let l_store = self.new_label("vr_store");
        let l_done = self.new_label("vr_done");
        (l_int, l_flt, l_str, l_bool, l_fail, l_store, l_done)
    }

    /// What a cast to text makes beyond its labels: the `true` and `false`
    /// strings, the two labels of the boolean-to-text choice, and the empty
    /// string.
    fn mint_text_extras(&mut self) -> (r: (String, String, String, String, String))
        ensures
            (r.0@, r.1@, r.2@, r.3@, r.4@) == cast_extras(TAG_STRING, old(self).label_counter, old(self).string_counter),
            lines_view(final(self).data_section@) == lines_view(old(self).data_section@) + cast_text_data(
                old(self).string_counter,
            ),
            *final(self) == (CodeGenerator {
                label_counter: final(self).label_counter,
                string_counter: final(self).string_counter,
                data_section: final(self).data_section,
                ..*old(self)
            }),
    {
        let true_str = self.add_string("true");
        let false_str = self.add_string("false");
        let l_true = self.new_label("vr_bool_true");
        let l_end = self.new_label("vr_bool_done");
        let empty_str = self.add_string("");
        (true_str, false_str, l_true, l_end, empty_str)
    }
}

} // verus!
