use vstd::prelude::*;
use vstd::string::StrSliceExecFns;
use crate::assembler::{expr_value, label_end, label_end_exec, eval_operand, low16};
use crate::assembler::{fields, ident_end, is_ident_char, is_ident_start};
use crate::disassembler::{digit_str, hex_char};
use crate::machine::wrap16;
use crate::text::{eq_str, find_char, find_from, find_str, find_sub_from, split, split_str, trim, trim_start, trim_start_str, trim_str};

verus! {

/// Names no label or macro may take.
pub open spec fn is_reserved_list() -> Seq<Seq<char>> {
    seq!["STC"@, "CMC"@, "INR"@, "DCR"@, "CMA"@, "DAA"@, "NOP"@, "MOV"@, "STAX"@, "LDAX"@, "ADD"@, "ADC"@, "SUB"@, "SBB"@, "ANA"@, "XRA"@, "ORA"@, "CMP"@, "RLC"@, "RRC"@, "RAL"@, "RAR"@, "PUSH"@, "POP"@, "DAD"@, "INX"@, "DCX"@, "XCHG"@, "XTHL"@, "SPHL"@, "LXI"@, "MVI"@, "ADI"@, "ACI"@, "SUI"@, "SBI"@, "ANI"@, "XRI"@, "ORI"@, "CPI"@, "STA"@, "LDA"@, "SHLD"@, "LHLD"@, "PCHL"@, "JMP"@, "JC"@, "JNC"@, "JZ"@, "JNZ"@, "JP"@, "JM"@, "JPE"@, "JPO"@, "CALL"@, "CC"@, "CNC"@, "CZ"@, "CNZ"@, "CP"@, "CM"@, "CPE"@, "CPO"@, "RET"@, "RC"@, "RNC"@, "RZ"@, "RNZ"@, "RM"@, "RP"@, "RPE"@, "RPO"@, "RST"@, "EI"@, "DI"@, "IN"@, "OUT"@, "HLT"@, "ORG"@, "EQU"@, "SET"@, "END"@, "IF"@, "ENDIF"@, "MACRO"@, "ENDM"@, "B"@, "C"@, "D"@, "H"@, "L"@, "A"@, "SP"@, "PSW"@]
}

pub open spec fn is_reserved(w: Seq<char>) -> bool {
    is_reserved_list().contains(w)
}

pub fn is_reserved_exec(w: &str) -> (b: bool)
    ensures
        b == is_reserved(w@),
{
    let names: Vec<&str> = vec!["STC", "CMC", "INR", "DCR", "CMA", "DAA", "NOP", "MOV", "STAX", "LDAX", "ADD", "ADC", "SUB", "SBB", "ANA", "XRA", "ORA", "CMP", "RLC", "RRC", "RAL", "RAR", "PUSH", "POP", "DAD", "INX", "DCX", "XCHG", "XTHL", "SPHL", "LXI", "MVI", "ADI", "ACI", "SUI", "SBI", "ANI", "XRI", "ORI", "CPI", "STA", "LDA", "SHLD", "LHLD", "PCHL", "JMP", "JC", "JNC", "JZ", "JNZ", "JP", "JM", "JPE", "JPO", "CALL", "CC", "CNC", "CZ", "CNZ", "CP", "CM", "CPE", "CPO", "RET", "RC", "RNC", "RZ", "RNZ", "RM", "RP", "RPE", "RPO", "RST", "EI", "DI", "IN", "OUT", "HLT", "ORG", "EQU", "SET", "END", "IF", "ENDIF", "MACRO", "ENDM", "B", "C", "D", "H", "L", "A", "SP", "PSW"];
    assert(is_reserved_list().len() == names@.len());
    assert forall|k: int| 0 <= k < names@.len() implies (#[trigger] names@[k])@ == is_reserved_list()[k] by {}
    let mut i: usize = 0;
    while i < names.len()
        invariant
            i <= names@.len(),
            is_reserved_list().len() == names@.len(),
            forall|k: int| 0 <= k < names@.len() ==> (#[trigger] names@[k])@ == is_reserved_list()[k],
            forall|k: int| 0 <= k < i ==> is_reserved_list()[k] != w@,
        decreases names@.len() - i,
    {
        if eq_str(names[i], w) {
            assert(is_reserved_list()[i as int] == w@);
            assert(is_reserved_list().contains(w@));
            return true;
        }
        i = i + 1;
    }
    assert(!is_reserved_list().contains(w@));
    false
}

/// Mnemonics of one-byte instructions.
pub open spec fn is_one_byte_list() -> Seq<Seq<char>> {
    seq!["NOP"@, "STAX"@, "INX"@, "INR"@, "DCR"@, "RLC"@, "DAD"@, "LDAX"@, "DCX"@, "RRC"@, "RAL"@, "RAR"@, "DAA"@, "STC"@, "CMC"@, "HLT"@, "SBB"@, "MOV"@, "ANA"@, "XRA"@, "ORA"@, "CMP"@, "RNZ"@, "POP"@, "PUSH"@, "RST"@, "RZ"@, "RET"@, "RNC"@, "RC"@, "RPO"@, "XTHL"@, "RPE"@, "PCHL"@, "XCHG"@, "RP"@, "DI"@, "RM"@, "SPHL"@, "EI"@, "CMA"@, "ADD"@, "ADC"@, "SUB"@]
}

pub open spec fn is_one_byte(w: Seq<char>) -> bool {
    is_one_byte_list().contains(w)
}

pub fn is_one_byte_exec(w: &str) -> (b: bool)
    ensures
        b == is_one_byte(w@),
{
    let names: Vec<&str> = vec!["NOP", "STAX", "INX", "INR", "DCR", "RLC", "DAD", "LDAX", "DCX", "RRC", "RAL", "RAR", "DAA", "STC", "CMC", "HLT", "SBB", "MOV", "ANA", "XRA", "ORA", "CMP", "RNZ", "POP", "PUSH", "RST", "RZ", "RET", "RNC", "RC", "RPO", "XTHL", "RPE", "PCHL", "XCHG", "RP", "DI", "RM", "SPHL", "EI", "CMA", "ADD", "ADC", "SUB"];
    assert(is_one_byte_list().len() == names@.len());
    assert forall|k: int| 0 <= k < names@.len() implies (#[trigger] names@[k])@ == is_one_byte_list()[k] by {}
    let mut i: usize = 0;
    while i < names.len()
        invariant
            i <= names@.len(),
            is_one_byte_list().len() == names@.len(),
            forall|k: int| 0 <= k < names@.len() ==> (#[trigger] names@[k])@ == is_one_byte_list()[k],
            forall|k: int| 0 <= k < i ==> is_one_byte_list()[k] != w@,
        decreases names@.len() - i,
    {
        if eq_str(names[i], w) {
            assert(is_one_byte_list()[i as int] == w@);
            assert(is_one_byte_list().contains(w@));
            return true;
        }
        i = i + 1;
    }
    assert(!is_one_byte_list().contains(w@));
    false
}

/// Mnemonics of two-byte instructions.
pub open spec fn is_two_byte_list() -> Seq<Seq<char>> {
    seq!["MVI"@, "ADI"@, "ACI"@, "OUT"@, "SUI"@, "IN"@, "SBI"@, "ANI"@, "XRI"@, "ORI"@, "CPI"@]
}

pub open spec fn is_two_byte(w: Seq<char>) -> bool {
    is_two_byte_list().contains(w)
}

pub fn is_two_byte_exec(w: &str) -> (b: bool)
    ensures
        b == is_two_byte(w@),
{
    let names: Vec<&str> = vec!["MVI", "ADI", "ACI", "OUT", "SUI", "IN", "SBI", "ANI", "XRI", "ORI", "CPI"];
    assert(is_two_byte_list().len() == names@.len());
    assert forall|k: int| 0 <= k < names@.len() implies (#[trigger] names@[k])@ == is_two_byte_list()[k] by {}
    let mut i: usize = 0;
    while i < names.len()
        invariant
            i <= names@.len(),
            is_two_byte_list().len() == names@.len(),
            forall|k: int| 0 <= k < names@.len() ==> (#[trigger] names@[k])@ == is_two_byte_list()[k],
            forall|k: int| 0 <= k < i ==> is_two_byte_list()[k] != w@,
        decreases names@.len() - i,
    {
        if eq_str(names[i], w) {
            assert(is_two_byte_list()[i as int] == w@);
            assert(is_two_byte_list().contains(w@));
            return true;
        }
        i = i + 1;
    }
    assert(!is_two_byte_list().contains(w@));
    false
}

/// Mnemonics of three-byte instructions.
pub open spec fn is_three_byte_list() -> Seq<Seq<char>> {
    seq!["LXI"@, "SHLD"@, "LHLD"@, "STA"@, "LDA"@, "JNZ"@, "JMP"@, "CNZ"@, "JZ"@, "CZ"@, "CALL"@, "JNC"@, "CNC"@, "JC"@, "CC"@, "JPO"@, "CPO"@, "JPE"@, "CPE"@, "JP"@, "CP"@, "JM"@, "CM"@]
}

pub open spec fn is_three_byte(w: Seq<char>) -> bool {
    is_three_byte_list().contains(w)
}

pub fn is_three_byte_exec(w: &str) -> (b: bool)
    ensures
        b == is_three_byte(w@),
{
    let names: Vec<&str> = vec!["LXI", "SHLD", "LHLD", "STA", "LDA", "JNZ", "JMP", "CNZ", "JZ", "CZ", "CALL", "JNC", "CNC", "JC", "CC", "JPO", "CPO", "JPE", "CPE", "JP", "CP", "JM", "CM"];
    assert(is_three_byte_list().len() == names@.len());
    assert forall|k: int| 0 <= k < names@.len() implies (#[trigger] names@[k])@ == is_three_byte_list()[k] by {}
    let mut i: usize = 0;
    while i < names.len()
        invariant
            i <= names@.len(),
            is_three_byte_list().len() == names@.len(),
            forall|k: int| 0 <= k < names@.len() ==> (#[trigger] names@[k])@ == is_three_byte_list()[k],
            forall|k: int| 0 <= k < i ==> is_three_byte_list()[k] != w@,
        decreases names@.len() - i,
    {
        if eq_str(names[i], w) {
            assert(is_three_byte_list()[i as int] == w@);
            assert(is_three_byte_list().contains(w@));
            return true;
        }
        i = i + 1;
    }
    assert(!is_three_byte_list().contains(w@));
    false
}

/// All reserved names, in a fixed order.
pub open spec fn reserved_names() -> Seq<Seq<char>> {
    seq!["STC"@, "CMC"@, "INR"@, "DCR"@, "CMA"@, "DAA"@, "NOP"@, "MOV"@, "STAX"@, "LDAX"@, "ADD"@, "ADC"@, "SUB"@, "SBB"@, "ANA"@, "XRA"@, "ORA"@, "CMP"@, "RLC"@, "RRC"@, "RAL"@, "RAR"@, "PUSH"@, "POP"@, "DAD"@, "INX"@, "DCX"@, "XCHG"@, "XTHL"@, "SPHL"@, "LXI"@, "MVI"@, "ADI"@, "ACI"@, "SUI"@, "SBI"@, "ANI"@, "XRI"@, "ORI"@, "CPI"@, "STA"@, "LDA"@, "SHLD"@, "LHLD"@, "PCHL"@, "JMP"@, "JC"@, "JNC"@, "JZ"@, "JNZ"@, "JP"@, "JM"@, "JPE"@, "JPO"@, "CALL"@, "CC"@, "CNC"@, "CZ"@, "CNZ"@, "CP"@, "CM"@, "CPE"@, "CPO"@, "RET"@, "RC"@, "RNC"@, "RZ"@, "RNZ"@, "RM"@, "RP"@, "RPE"@, "RPO"@, "RST"@, "EI"@, "DI"@, "IN"@, "OUT"@, "HLT"@, "ORG"@, "EQU"@, "SET"@, "END"@, "IF"@, "ENDIF"@, "MACRO"@, "ENDM"@, "B"@, "C"@, "D"@, "H"@, "L"@, "A"@, "SP"@, "PSW"@]
}

pub fn get_reserved_names() -> (r: Vec<&'static str>)
    ensures
        r@.len() == reserved_names().len(),
        forall|k: int| 0 <= k < r@.len() ==> (#[trigger] r@[k])@ == reserved_names()[k],
{
    let r: Vec<&'static str> = vec!["STC", "CMC", "INR", "DCR", "CMA", "DAA", "NOP", "MOV", "STAX", "LDAX", "ADD", "ADC", "SUB", "SBB", "ANA", "XRA", "ORA", "CMP", "RLC", "RRC", "RAL", "RAR", "PUSH", "POP", "DAD", "INX", "DCX", "XCHG", "XTHL", "SPHL", "LXI", "MVI", "ADI", "ACI", "SUI", "SBI", "ANI", "XRI", "ORI", "CPI", "STA", "LDA", "SHLD", "LHLD", "PCHL", "JMP", "JC", "JNC", "JZ", "JNZ", "JP", "JM", "JPE", "JPO", "CALL", "CC", "CNC", "CZ", "CNZ", "CP", "CM", "CPE", "CPO", "RET", "RC", "RNC", "RZ", "RNZ", "RM", "RP", "RPE", "RPO", "RST", "EI", "DI", "IN", "OUT", "HLT", "ORG", "EQU", "SET", "END", "IF", "ENDIF", "MACRO", "ENDM", "B", "C", "D", "H", "L", "A", "SP", "PSW"];
    assert forall|k: int| 0 <= k < r@.len() implies (#[trigger] r@[k])@ == reserved_names()[k] by {}
    r
}

/// The first word of a line (up to the first space), after leading blanks.
pub open spec fn first_word(l: Seq<char>) -> Seq<char> {
    let t = trim_start(l);
    t.subrange(0, find_from(t, ' ', 0))
}

/// Size in bytes of the instruction on a line (zero for directives and blank lines).
pub open spec fn byte_amount(l: Seq<char>) -> u16 {
    let w = first_word(l);
    if is_one_byte(w) {
        1
    } else if is_two_byte(w) {
        2
    } else if is_three_byte(w) {
        3
    } else {
        0
    }
}

pub fn first_word_exec(l: &str) -> (w: &str)
    ensures
        w@ == first_word(l@),
{
    let t = crate::text::trim_start_str(l);
    match find_char(t, ' ') {
        Some(k) => t.substring_char(0, k),
        None => {
            assert(t@.subrange(0, t@.len() as int) =~= t@);
            t
        },
    }
}

pub fn get_byte_amount_of_line(line: &str) -> (n: u16)
    ensures
        n == byte_amount(line@),
{
    let w = first_word_exec(line);
    if is_one_byte_exec(w) {
        1
    } else if is_two_byte_exec(w) {
        2
    } else if is_three_byte_exec(w) {
        3
    } else {
        0
    }
}

/// Text from `i` on without comments: each `;` and what follows it up to the next line feed.
pub open spec fn uncomment_from(s: Seq<char>, i: int) -> Seq<char>
    decreases s.len() - i,
{
    if i < 0 || i >= s.len() {
        Seq::empty()
    } else if s[i] == ';' {
        let j = find_from(s, '\n', i);
        if j <= i || j > s.len() {
            Seq::empty()
        } else {
            uncomment_from(s, j)
        }
    } else {
        seq![s[i]] + uncomment_from(s, i + 1)
    }
}

/// A line without its comment.
pub open spec fn strip_comment(l: Seq<char>) -> Seq<char> {
    uncomment_from(l, 0)
}

fn find_from_chars(cs: &Vec<char>, c: char, i: usize) -> (j: usize)
    requires
        i <= cs@.len(),
    ensures
        j as int == find_from(cs@, c, i as int),
        i <= j <= cs@.len(),
        (i < cs@.len() && cs@[i as int] != c) ==> j > i,
{
    let mut j = i;
    while j < cs.len() && cs[j] != c
        invariant
            i <= j <= cs@.len(),
            find_from(cs@, c, j as int) == find_from(cs@, c, i as int),
        decreases cs@.len() - j,
    {
        j = j + 1;
    }
    j
}

/// Removes comments from a text.
pub fn uncomment(l: &str) -> (r: String)
    ensures
        r@ == strip_comment(l@),
{
    let cs = crate::expr::to_chars(l);
    let n = cs.len();
    let mut out = String::new();
    let mut i: usize = 0;
    assert(out@ + uncomment_from(l@, 0) =~= strip_comment(l@));
    while i < n
        invariant
            cs@ == l@,
            n == l@.len(),
            i <= n,
            out@ + uncomment_from(l@, i as int) == strip_comment(l@),
        decreases n - i,
    {
        if cs[i] == ';' {
            let j = find_from_chars(&cs, '\n', i);
            i = j;
        } else {
            let one = l.substring_char(i, i + 1);
            assert(one@ =~= seq![cs@[i as int]]);
            assert(out@ + (seq![cs@[i as int]] + uncomment_from(l@, i + 1)) =~= (out@ + one@) + uncomment_from(l@, i + 1));
            out = out.concat(one);
            i = i + 1;
        }
    }
    assert(out@ + Seq::<char>::empty() =~= out@);
    out
}

pub open spec fn string_views(v: Seq<String>) -> Seq<Seq<char>> {
    Seq::new(v.len(), |i: int| v[i]@)
}

pub fn get_commentless_code(code: &Vec<String>) -> (r: Vec<String>)
    ensures
        string_views(r@) == Seq::new(code@.len(), |i: int| strip_comment(code@[i]@)),
{
    let mut out: Vec<String> = Vec::new();
    let mut i: usize = 0;
    while i < code.len()
        invariant
            i <= code@.len(),
            out@.len() == i,
            forall|k: int| 0 <= k < i ==> (#[trigger] out@[k])@ == strip_comment(code@[k]@),
        decreases code@.len() - i,
    {
        out.push(uncomment(code[i].as_str()));
        i = i + 1;
    }
    assert(string_views(out@) =~= Seq::new(code@.len(), |i: int| strip_comment(code@[i]@)));
    out
}

/// Lines that do not count for the END rule: blank lines, ENDIF and ENDM.
pub open spec fn end_neutral(l: Seq<char>) -> bool {
    trim(l).len() == 0 || trim(l) == "ENDIF"@ || trim(l) == "ENDM"@
}

/// The lines the END rule looks at: all but blank lines, ENDIF and ENDM.
pub open spec fn counted_lines(lines: Seq<Seq<char>>) -> Seq<Seq<char>> {
    lines.filter(|l: Seq<char>| !end_neutral(l))
}

/// Among the counted lines exactly one is END, and it is the last.
pub open spec fn correct_end(lines: Seq<Seq<char>>) -> bool {
    let rel = counted_lines(lines);
    &&& rel.len() > 0
    &&& trim(rel.last()) == "END"@
    &&& forall|k: int| 0 <= k < rel.len() - 1 ==> trim(#[trigger] rel[k]) != "END"@
}

pub fn has_correct_end(code: &Vec<String>) -> (b: bool)
    ensures
        b == correct_end(string_views(code@)),
{
    let ghost lines = string_views(code@);
    let mut seen = false;
    let mut ok = true;
    let mut i: usize = 0;
    proof {
        reveal_with_fuel(Seq::filter, 1);
        assert(lines.take(0) =~= Seq::<Seq<char>>::empty());
    }
    while i < code.len()
        invariant
            i <= code@.len(),
            lines == string_views(code@),
            seen == (exists|k: int| 0 <= k < counted_lines(lines.take(i as int)).len() && trim(#[trigger] counted_lines(lines.take(i as int))[k]) == "END"@),
            ok == (seen ==> {
                let rel = counted_lines(lines.take(i as int));
                trim(rel.last()) == "END"@ && forall|k: int| 0 <= k < rel.len() - 1 ==> trim(#[trigger] rel[k]) != "END"@
            }),
        decreases code@.len() - i,
    {
        let ghost prev = counted_lines(lines.take(i as int));
        proof {
            assert(lines.take(i as int + 1).drop_last() =~= lines.take(i as int));
            assert(lines.take(i as int + 1).last() == code@[i as int]@);
            reveal_with_fuel(Seq::filter, 1);
            reveal_strlit("END");
            reveal_strlit("ENDIF");
            reveal_strlit("ENDM");
        }
        let l = trim_str(code[i].as_str());
        if l.unicode_len() == 0 || eq_str(l, "ENDIF") || eq_str(l, "ENDM") {
            assert(counted_lines(lines.take(i as int + 1)) == prev);
        } else {
            let is_end = eq_str(l, "END");
            let ghost rel = counted_lines(lines.take(i as int + 1));
            assert(rel == prev.push(code@[i as int]@));
            assert(rel.last() == code@[i as int]@);
            assert(forall|k: int| 0 <= k < prev.len() ==> rel[k] == prev[k]);
            if is_end {
                ok = ok && !seen;
                seen = true;
                assert(trim(rel[rel.len() - 1]) == "END"@);
            } else {
                ok = ok && !seen;
                assert(seen == (exists|k: int| 0 <= k < rel.len() && trim(#[trigger] rel[k]) == "END"@)) by {
                    if exists|k: int| 0 <= k < rel.len() && trim(#[trigger] rel[k]) == "END"@ {
                        let k = choose|k: int| 0 <= k < rel.len() && trim(#[trigger] rel[k]) == "END"@;
                        assert(k < prev.len());
                        assert(trim(prev[k]) == "END"@);
                    }
                }
            }
        }
        i = i + 1;
    }
    proof {
        assert(lines.take(code@.len() as int) =~= lines);
    }
    seen && ok
}

/// A table of names and their values, in order of definition.
pub type Symbols = Seq<(Seq<char>, u16)>;

pub open spec fn symbol_views(v: Seq<(String, u16)>) -> Symbols {
    Seq::new(v.len(), |i: int| (v[i].0@, v[i].1))
}

pub open spec fn has_name(t: Symbols, name: Seq<char>) -> bool {
    exists|k: int| 0 <= k < t.len() && t[k].0 == name
}

pub fn has_name_exec(t: &Vec<(String, u16)>, name: &str) -> (b: bool)
    ensures
        b == has_name(symbol_views(t@), name@),
{
    let mut i: usize = 0;
    while i < t.len()
        invariant
            i <= t@.len(),
            forall|k: int| 0 <= k < i ==> symbol_views(t@)[k].0 != name@,
        decreases t@.len() - i,
    {
        if eq_str(t[i].0.as_str(), name) {
            assert(symbol_views(t@)[i as int].0 == name@);
            return true;
        }
        i = i + 1;
    }
    false
}

/// Binds the pending labels, most recent first, to `addr`.
pub open spec fn flush(pending: Seq<Seq<char>>, labels: Symbols, addr: u16, msg: Seq<char>) -> Result<Symbols, Seq<char>>
    decreases pending.len(),
{
    if pending.len() == 0 {
        Ok(labels)
    } else if has_name(labels, pending.last()) {
        Err(msg)
    } else {
        flush(pending.drop_last(), labels.push((pending.last(), addr)), addr, msg)
    }
}

/// The text after `ORG ` at the start of a line, if the line starts so.
pub open spec fn org_operand(l: Seq<char>) -> Option<Seq<char>> {
    if l.len() >= 4 && l.subrange(0, 4) == "ORG "@ {
        Some(l.subrange(4, l.len() as int))
    } else {
        None
    }
}

/// State of the label pass: labels waiting for an address, labels bound, current address.
pub type LabelState = (Seq<Seq<char>>, Symbols, u16);

/// The address after an ORG on `line`, or `addr` where there is none.
pub open spec fn org_addr(line: Seq<char>, addr: u16) -> Result<u16, Seq<char>> {
    match org_operand(line) {
        Some(e) => match expr_value(e) {
            Some(v) => Ok(low16(v)),
            None => Err("Invalid expression"@),
        },
        None => Ok(addr),
    }
}

/// The label pass on one line, at address `addr`.
pub open spec fn label_body(pending: Seq<Seq<char>>, labels: Symbols, addr: u16, line: Seq<char>) -> Result<LabelState, Seq<char>> {
    let le = label_end(line);
    if le > 0 {
        let name = trim_start(line.subrange(0, le - 1));
        let rest = line.subrange(le, line.len() as int);
        if is_reserved(name) {
            Err("illegal label name"@)
        } else if trim(rest).len() > 0 {
            match flush(pending.push(name), labels, addr, "label must not be assigned twice"@) {
                Ok(l2) => Ok((Seq::empty(), l2, wrap16(addr + byte_amount(rest)))),
                Err(e) => Err(e),
            }
        } else {
            Ok((pending.push(name), labels, addr))
        }
    } else {
        match flush(pending, labels, addr, "label must not be assigned twice!"@) {
            Ok(l2) => Ok((Seq::empty(), l2, wrap16(addr + byte_amount(line)))),
            Err(e) => Err(e),
        }
    }
}

pub open spec fn label_step(st: LabelState, line: Seq<char>) -> Result<LabelState, Seq<char>> {
    match org_addr(trim_start(line.subrange(label_end(line), line.len() as int)), st.2) {
        Err(e) => Err(e),
        Ok(addr) => label_body(st.0, st.1, addr, line),
    }
}

fn org_exec(line: &str, addr: u16) -> (r: Result<u16, &'static str>)
    ensures
        match org_addr(line@, addr) {
            Ok(a) => r == Ok::<u16, &'static str>(a),
            Err(e) => r is Err && r->Err_0@ == e,
        },
{
    let n = line.unicode_len();
    if n >= 4 && eq_str(line.substring_char(0, 4), "ORG ") {
        let v = eval_operand(line.substring_char(4, n))?;
        Ok((((v as i64) + 0x1_0000_0000) as u64 % 0x10000) as u16)
    } else {
        Ok(addr)
    }
}

fn label_body_exec(pending: &mut Vec<String>, labels: &mut Vec<(String, u16)>, addr: u16, line: &str) -> (r: Result<u16, &'static str>)
    ensures
        match label_body(string_views(old(pending)@), symbol_views(old(labels)@), addr, line@) {
            Ok(st) => r == Ok::<u16, &'static str>(st.2) && string_views(final(pending)@) == st.0 && symbol_views(final(labels)@) == st.1,
            Err(e) => r is Err && r->Err_0@ == e,
        },
{
    let n = line.unicode_len();
    let le = label_end_exec(line);
    if le > 0 {
        let name = trim_start_str(line.substring_char(0, le - 1));
        let rest = line.substring_char(le, n);
        if is_reserved_exec(name) {
            return Err("illegal label name");
        }
        pending.push(String::from_str(name));
        assert(string_views(pending@) =~= string_views(old(pending)@).push(name@));
        if trim_str(rest).unicode_len() > 0 {
            flush_exec(pending, labels, addr, "label must not be assigned twice")?;
            assert(string_views(pending@) =~= Seq::<Seq<char>>::empty());
            Ok(((addr as u32 + get_byte_amount_of_line(rest) as u32) % 0x10000) as u16)
        } else {
            Ok(addr)
        }
    } else {
        flush_exec(pending, labels, addr, "label must not be assigned twice!")?;
        assert(string_views(pending@) =~= Seq::<Seq<char>>::empty());
        Ok(((addr as u32 + get_byte_amount_of_line(line) as u32) % 0x10000) as u16)
    }
}

pub open spec fn label_pass(lines: Seq<Seq<char>>) -> Result<LabelState, Seq<char>>
    decreases lines.len(),
{
    if lines.len() == 0 {
        Ok((Seq::empty(), Seq::empty(), 0))
    } else {
        match label_pass(lines.drop_last()) {
            Ok(st) => label_step(st, lines.last()),
            Err(e) => Err(e),
        }
    }
}

/// The address of every label: each binds to the address of the next line
/// that holds anything, counting instruction sizes and honouring ORG.
pub open spec fn labels_of(lines: Seq<Seq<char>>) -> Result<Symbols, Seq<char>> {
    match label_pass(lines) {
        Ok((pending, labels, _)) => if pending.len() > 0 {
            Err("labels must not point to an empty address!"@)
        } else {
            Ok(labels)
        },
        Err(e) => Err(e),
    }
}

fn flush_exec(pending: &mut Vec<String>, labels: &mut Vec<(String, u16)>, addr: u16, msg: &'static str) -> (r: Result<(), &'static str>)
    ensures
        match flush(string_views(old(pending)@), symbol_views(old(labels)@), addr, msg@) {
            Ok(l2) => r is Ok && symbol_views(final(labels)@) == l2 && final(pending)@.len() == 0,
            Err(e) => r is Err && r->Err_0@ == e,
        },
{
    loop
        invariant
            flush(string_views(pending@), symbol_views(labels@), addr, msg@) == flush(string_views(old(pending)@), symbol_views(old(labels)@), addr, msg@),
        decreases pending@.len(),
    {
        if pending.len() == 0 {
            return Ok(());
        }
        let ghost pv = string_views(pending@);
        let ghost lv = symbol_views(labels@);
        let name = pending.pop().unwrap();
        assert(pv.last() == name@);
        assert(string_views(pending@) =~= pv.drop_last());
        if has_name_exec(labels, name.as_str()) {
            return Err(msg);
        }
        labels.push((name, addr));
        assert(symbol_views(labels@) =~= lv.push((pv.last(), addr)));
    }
}

/// Binds every label to its address.
pub fn get_labels(code: &Vec<String>) -> (r: Result<Vec<(String, u16)>, &'static str>)
    ensures
        match labels_of(string_views(code@)) {
            Ok(t) => r is Ok && symbol_views(r->Ok_0@) == t,
            Err(e) => r is Err && r->Err_0@ == e,
        },
{
    let ghost lines = string_views(code@);
    let mut pending: Vec<String> = Vec::new();
    let mut labels: Vec<(String, u16)> = Vec::new();
    let mut addr: u16 = 0;
    let mut i: usize = 0;
    assert(string_views(pending@) =~= Seq::<Seq<char>>::empty());
    assert(symbol_views(labels@) =~= Seq::<(Seq<char>, u16)>::empty());
    assert(lines.take(0) =~= Seq::<Seq<char>>::empty());
    while i < code.len()
        invariant
            i <= code@.len(),
            lines == string_views(code@),
            label_pass(lines.take(i as int)) == Ok::<LabelState, Seq<char>>((string_views(pending@), symbol_views(labels@), addr)),
        decreases code@.len() - i,
    {
        proof {
            assert(lines.take(i as int + 1).drop_last() =~= lines.take(i as int));
            assert(lines.take(i as int + 1).last() == code@[i as int]@);
        }
        let line = code[i].as_str();
        let le = label_end_exec(line);
        let step = match org_exec(trim_start_str(line.substring_char(le, line.unicode_len())), addr) {
            Ok(a) => label_body_exec(&mut pending, &mut labels, a, line),
            Err(e) => Err(e),
        };
        match step {
            Ok(a) => {
                addr = a;
            },
            Err(e) => {
                proof {
                    lemma_label_pass_err(lines, i as int + 1);
                    assert(lines.take(lines.len() as int) =~= lines);
                }
                return Err(e);
            },
        }
        i = i + 1;
    }
    proof {
        assert(lines.take(code@.len() as int) =~= lines);
    }
    if pending.len() > 0 {
        return Err("labels must not point to an empty address!");
    }
    Ok(labels)
}

proof fn lemma_label_pass_err(lines: Seq<Seq<char>>, n: int)
    requires
        0 <= n <= lines.len(),
        label_pass(lines.take(n)) is Err,
    ensures
        label_pass(lines) == label_pass(lines.take(n)),
    decreases lines.len() - n,
{
    if n < lines.len() {
        assert(lines.take(n + 1).drop_last() =~= lines.take(n));
        lemma_label_pass_err(lines, n + 1);
    } else {
        assert(lines.take(n) =~= lines);
    }
}

/// Decimal digits of `n`, without leading zeros.
pub open spec fn dec_digits(n: nat) -> Seq<char>
    decreases n,
{
    if n < 10 {
        seq![hex_char(n as int)]
    } else {
        dec_digits(n / 10).push(hex_char((n % 10) as int))
    }
}

pub fn dec_string(n: u16) -> (s: String)
    ensures
        s@ == dec_digits(n as nat),
    decreases n,
{
    if n < 10 {
        String::from_str(digit_str(n))
    } else {
        let s = dec_string(n / 10).concat(digit_str(n % 10));
        assert(s@ =~= dec_digits(n as nat));
        s
    }
}

/// Replacement texts for names.
pub type TextEnv = Seq<(Seq<char>, Seq<char>)>;

pub open spec fn text_env_views(v: Seq<(String, String)>) -> TextEnv {
    Seq::new(v.len(), |i: int| (v[i].0@, v[i].1@))
}

/// The replacement of the first entry named `name`.
pub open spec fn lookup_from(env: TextEnv, name: Seq<char>, k: int) -> Option<Seq<char>>
    decreases env.len() - k,
{
    if k < 0 || k >= env.len() {
        None
    } else if env[k].0 == name {
        Some(env[k].1)
    } else {
        lookup_from(env, name, k + 1)
    }
}

/// `s` from position `i` on, with every whole name that `env` knows replaced by
/// its text and every `$` by `dollar`; numbers and other names stay as they are.
pub open spec fn subst_from(s: Seq<char>, i: int, env: TextEnv, dollar: Seq<char>) -> Seq<char>
    decreases s.len() - i,
{
    if i < 0 || i >= s.len() {
        Seq::empty()
    } else if s[i] == '$' {
        dollar + subst_from(s, i + 1, env, dollar)
    } else if is_ident_char(s[i]) {
        let j = ident_end(s, i);
        if j <= i || j > s.len() {
            Seq::empty()
        } else {
            let w = s.subrange(i, j);
            let r = if is_ident_start(s[i]) && lookup_from(env, w, 0) is Some {
                lookup_from(env, w, 0)->Some_0
            } else {
                w
            };
            r + subst_from(s, j, env, dollar)
        }
    } else {
        seq![s[i]] + subst_from(s, i + 1, env, dollar)
    }
}

pub open spec fn subst(s: Seq<char>, env: TextEnv, dollar: Seq<char>) -> Seq<char> {
    subst_from(s, 0, env, dollar)
}

fn lookup_exec(env: &Vec<(String, String)>, name: &str) -> (r: Option<usize>)
    ensures
        match lookup_from(text_env_views(env@), name@, 0) {
            Some(t) => r is Some && r->Some_0 < env@.len() && env@[r->Some_0 as int].1@ == t,
            None => r is None,
        },
{
    let mut k: usize = 0;
    while k < env.len()
        invariant
            k <= env@.len(),
            lookup_from(text_env_views(env@), name@, k as int) == lookup_from(text_env_views(env@), name@, 0),
        decreases env@.len() - k,
    {
        if eq_str(env[k].0.as_str(), name) {
            return Some(k);
        }
        k = k + 1;
    }
    None
}

fn ident_end_str(cs: &Vec<char>, i: usize) -> (j: usize)
    requires
        i <= cs@.len(),
    ensures
        j as int == ident_end(cs@, i as int),
        i <= j <= cs@.len(),
        (i < cs@.len() && is_ident_char(cs@[i as int])) ==> j > i,
{
    let mut j = i;
    while j < cs.len() && (('a' <= cs[j] && cs[j] <= 'z') || ('A' <= cs[j] && cs[j] <= 'Z') || cs[j] == '@' || cs[j] == '?' || ('0' <= cs[j] && cs[j] <= '9'))
        invariant
            i <= j <= cs@.len(),
            ident_end(cs@, j as int) == ident_end(cs@, i as int),
        decreases cs@.len() - j,
    {
        j = j + 1;
    }
    j
}

/// Replaces whole names and `$` in a line.
pub fn substitute(s: &str, env: &Vec<(String, String)>, dollar: &str) -> (r: String)
    ensures
        r@ == subst(s@, text_env_views(env@), dollar@),
{
    let cs = crate::expr::to_chars(s);
    let n = cs.len();
    let mut out = String::new();
    let mut i: usize = 0;
    assert(out@ + subst_from(s@, 0, text_env_views(env@), dollar@) =~= subst(s@, text_env_views(env@), dollar@));
    while i < n
        invariant
            cs@ == s@,
            n == s@.len(),
            i <= n,
            out@ + subst_from(s@, i as int, text_env_views(env@), dollar@) == subst(s@, text_env_views(env@), dollar@),
        decreases n - i,
    {
        let ghost env_v = text_env_views(env@);
        let c = cs[i];
        if c == '$' {
            assert(out@ + (dollar@ + subst_from(s@, i + 1, env_v, dollar@)) =~= (out@ + dollar@) + subst_from(s@, i + 1, env_v, dollar@));
            out = out.concat(dollar);
            i = i + 1;
        } else if ('a' <= c && c <= 'z') || ('A' <= c && c <= 'Z') || c == '@' || c == '?' || ('0' <= c && c <= '9') {
            let j = ident_end_str(&cs, i);
            let w = s.substring_char(i, j);
            let start = ('a' <= c && c <= 'z') || ('A' <= c && c <= 'Z') || c == '@' || c == '?';
            let found = if start { lookup_exec(env, w) } else { None };
            let ghost piece = if start && lookup_from(env_v, w@, 0) is Some { lookup_from(env_v, w@, 0)->Some_0 } else { w@ };
            assert(out@ + (piece + subst_from(s@, j as int, env_v, dollar@)) =~= (out@ + piece) + subst_from(s@, j as int, env_v, dollar@));
            match found {
                Some(k) => {
                    out = out.concat(env[k].1.as_str());
                },
                None => {
                    out = out.concat(w);
                },
            }
            i = j;
        } else {
            let one = s.substring_char(i, i + 1);
            assert(one@ =~= seq![c]);
            assert(out@ + (seq![c] + subst_from(s@, i + 1, env_v, dollar@)) =~= (out@ + seq![c]) + subst_from(s@, i + 1, env_v, dollar@));
            out = out.concat(one);
            i = i + 1;
        }
    }
    assert(out@ + Seq::<char>::empty() =~= out@);
    out
}

/// A macro: its name, parameter names and body lines.
pub struct MacroDef {
    pub name: String,
    pub params: Vec<String>,
    pub body: Vec<String>,
}

pub type MacroView = (Seq<char>, Seq<Seq<char>>, Seq<Seq<char>>);

pub open spec fn macro_views(v: Seq<MacroDef>) -> Seq<MacroView> {
    Seq::new(v.len(), |i: int| (v[i].name@, string_views(v[i].params@), string_views(v[i].body@)))
}

/// Whether `l` holds `word` somewhere; the position is `find_sub_from(l, word, 0)`.
pub open spec fn holds(l: Seq<char>, word: Seq<char>) -> bool {
    find_sub_from(l, word, 0) + word.len() <= l.len()
}

/// A macro name: one to five name characters, the first a letter, `@` or `?`.
pub open spec fn valid_name(n: Seq<char>) -> bool {
    1 <= n.len() <= 5 && is_ident_start(n[0]) && ident_end(n, 0) == n.len()
}

/// The non-blank trimmed pieces of a comma-separated list.
pub open spec fn nonempty_trimmed(pieces: Seq<Seq<char>>) -> Seq<Seq<char>>
    decreases pieces.len(),
{
    if pieces.len() == 0 {
        Seq::empty()
    } else if trim(pieces.last()).len() > 0 {
        nonempty_trimmed(pieces.drop_last()).push(trim(pieces.last()))
    } else {
        nonempty_trimmed(pieces.drop_last())
    }
}

/// State of macro collection: finished macros, and the one being read, if any.
pub type MacroState = (Seq<MacroView>, Option<MacroView>);

pub open spec fn macro_step(st: MacroState, line: Seq<char>) -> Result<MacroState, Seq<char>> {
    let l = trim(line);
    let k = find_sub_from(l, "MACRO"@, 0);
    if holds(l, "MACRO"@) {
        let name = trim(l.subrange(0, k));
        if st.1 is Some {
            Err("Cannot define macro within macro"@)
        } else if name.len() == 0 {
            Err("Cannot define macro without name"@)
        } else if !valid_name(name) || is_reserved(name) {
            Err("Illegal macro name supplied!"@)
        } else {
            Ok((st.0, Some((name, nonempty_trimmed(split(l.subrange(k + 5, l.len() as int), ',')), Seq::empty()))))
        }
    } else if holds(l, "ENDM"@) {
        if l != "ENDM"@ {
            Err("ENDM must stand alone"@)
        } else {
            match st.1 {
                Some(m) => Ok((st.0.push(m), None)),
                None => Err("Every ENDM must have a corresponding MACRO"@),
            }
        }
    } else {
        match st.1 {
            Some(m) => Ok((st.0, Some((m.0, m.1, m.2.push(l))))),
            None => Ok(st),
        }
    }
}

pub open spec fn macro_pass(lines: Seq<Seq<char>>) -> Result<MacroState, Seq<char>>
    decreases lines.len(),
{
    if lines.len() == 0 {
        Ok((Seq::empty(), None))
    } else {
        match macro_pass(lines.drop_last()) {
            Ok(st) => macro_step(st, lines.last()),
            Err(e) => Err(e),
        }
    }
}

/// The macros a program defines, in order.
pub open spec fn macros_of(lines: Seq<Seq<char>>) -> Result<Seq<MacroView>, Seq<char>> {
    match macro_pass(lines) {
        Ok((defs, open)) => if open is Some {
            Err("Every MACRO has to be followed by an ENDM"@)
        } else {
            Ok(defs)
        },
        Err(e) => Err(e),
    }
}

fn holds_exec(l: &str, word: &str) -> (r: Option<usize>)
    requires
        word@.len() > 0,
    ensures
        match r {
            Some(k) => holds(l@, word@) && k as int == find_sub_from(l@, word@, 0) && k + word@.len() <= l@.len(),
            None => !holds(l@, word@),
        },
{
    match find_str(l, word) {
        Some(k) => Some(k),
        None => None,
    }
}

fn valid_name_exec(n: &str) -> (b: bool)
    ensures
        b == valid_name(n@),
{
    let cs = crate::expr::to_chars(n);
    if cs.len() < 1 || cs.len() > 5 {
        return false;
    }
    let c = cs[0];
    let start = ('a' <= c && c <= 'z') || ('A' <= c && c <= 'Z') || c == '@' || c == '?';
    start && ident_end_str(&cs, 0) == cs.len()
}

fn nonempty_trimmed_exec(pieces: &Vec<&str>) -> (r: Vec<String>)
    ensures
        string_views(r@) == nonempty_trimmed(Seq::new(pieces@.len(), |i: int| pieces@[i]@)),
{
    let ghost pv = Seq::new(pieces@.len(), |i: int| pieces@[i]@);
    let mut out: Vec<String> = Vec::new();
    let mut i: usize = 0;
    while i < pieces.len()
        invariant
            i <= pieces@.len(),
            pv == Seq::new(pieces@.len(), |i: int| pieces@[i]@),
            string_views(out@) == nonempty_trimmed(pv.take(i as int)),
        decreases pieces@.len() - i,
    {
        proof {
            assert(pv.take(i as int + 1).drop_last() =~= pv.take(i as int));
        }
        let t = trim_str(pieces[i]);
        if t.unicode_len() > 0 {
            out.push(String::from_str(t));
            assert(string_views(out@) =~= string_views(out@.drop_last()).push(t@));
        }
        i = i + 1;
    }
    assert(pv.take(pieces@.len() as int) =~= pv);
    out
}

/// Collects the macro definitions of a program.
pub fn get_macros(code: &Vec<String>) -> (r: Result<Vec<MacroDef>, &'static str>)
    ensures
        match macros_of(string_views(code@)) {
            Ok(defs) => r is Ok && macro_views(r->Ok_0@) == defs,
            Err(e) => r is Err && r->Err_0@ == e,
        },
{
    let ghost lines = string_views(code@);
    let mut defs: Vec<MacroDef> = Vec::new();
    let mut open: Option<MacroDef> = None;
    let mut i: usize = 0;
    assert(macro_views(defs@) =~= Seq::<MacroView>::empty());
    assert(lines.take(0) =~= Seq::<Seq<char>>::empty());
    while i < code.len()
        invariant
            i <= code@.len(),
            lines == string_views(code@),
            macro_pass(lines.take(i as int)) == Ok::<MacroState, Seq<char>>((macro_views(defs@), match open {
                Some(m) => Some((m.name@, string_views(m.params@), string_views(m.body@))),
                None => None,
            })),
        decreases code@.len() - i,
    {
        proof {
            assert(lines.take(i as int + 1).drop_last() =~= lines.take(i as int));
            assert(lines.take(i as int + 1).last() == code@[i as int]@);
        }
        let l = trim_str(code[i].as_str());
        let n = l.unicode_len();
        proof {
            reveal_strlit("MACRO");
            reveal_strlit("ENDM");
        }
        let step: Result<(), &'static str> = match holds_exec(l, "MACRO") {
            Some(k) => {
                let name = trim_str(l.substring_char(0, k));
                if open.is_some() {
                    Err("Cannot define macro within macro")
                } else if name.unicode_len() == 0 {
                    Err("Cannot define macro without name")
                } else if !valid_name_exec(name) || is_reserved_exec(name) {
                    Err("Illegal macro name supplied!")
                } else {
                    let pieces = split_str(l.substring_char(k + 5, n), ',');
                    proof {
                        assert(Seq::new(pieces@.len(), |i: int| pieces@[i]@) =~= split(l@.subrange(k + 5, n as int), ','));
                    }
                    let params = nonempty_trimmed_exec(&pieces);
                    let body: Vec<String> = Vec::new();
                    assert(string_views(body@) =~= Seq::<Seq<char>>::empty());
                    open = Some(MacroDef { name: String::from_str(name), params, body });
                    Ok(())
                }
            },
            None => {
                match holds_exec(l, "ENDM") {
                    Some(_) => {
                        if !eq_str(l, "ENDM") {
                            Err("ENDM must stand alone")
                        } else {
                            match open {
                                Some(m) => {
                                    let ghost before = macro_views(defs@);
                                    let ghost mv = (m.name@, string_views(m.params@), string_views(m.body@));
                                    defs.push(m);
                                    assert(macro_views(defs@) =~= before.push(mv));
                                    open = None;
                                    Ok(())
                                },
                                None => Err("Every ENDM must have a corresponding MACRO"),
                            }
                        }
                    },
                    None => {
                        match open {
                            Some(mut m) => {
                                let ghost before = string_views(m.body@);
                                m.body.push(String::from_str(l));
                                assert(string_views(m.body@) =~= before.push(l@));
                                open = Some(m);
                            },
                            None => {},
                        }
                        Ok(())
                    },
                }
            },
        };
        if let Err(e) = step {
            proof {
                lemma_macro_pass_err(lines, i as int + 1);
                assert(lines.take(lines.len() as int) =~= lines);
            }
            return Err(e);
        }
        i = i + 1;
    }
    proof {
        assert(lines.take(code@.len() as int) =~= lines);
    }
    if open.is_some() {
        return Err("Every MACRO has to be followed by an ENDM");
    }
    Ok(defs)
}

proof fn lemma_macro_pass_err(lines: Seq<Seq<char>>, n: int)
    requires
        0 <= n <= lines.len(),
        macro_pass(lines.take(n)) is Err,
    ensures
        macro_pass(lines) == macro_pass(lines.take(n)),
    decreases lines.len() - n,
{
    if n < lines.len() {
        assert(lines.take(n + 1).drop_last() =~= lines.take(n));
        lemma_macro_pass_err(lines, n + 1);
    } else {
        assert(lines.take(n) =~= lines);
    }
}

pub open spec fn find_macro_from(defs: Seq<MacroView>, name: Seq<char>, k: int) -> Option<MacroView>
    decreases defs.len() - k,
{
    if k < 0 || k >= defs.len() {
        None
    } else if defs[k].0 == name {
        Some(defs[k])
    } else {
        find_macro_from(defs, name, k + 1)
    }
}

/// The arguments of a macro call: the comma-separated fields after the name.
pub open spec fn call_args(l: Seq<char>) -> Seq<Seq<char>> {
    let k = find_from(l, ' ', 0);
    if k < l.len() {
        fields(l.subrange(k + 1, l.len() as int))
    } else {
        Seq::empty()
    }
}

/// Each parameter stands for its argument, or for nothing where the call gives none.
pub open spec fn param_env(params: Seq<Seq<char>>, args: Seq<Seq<char>>) -> TextEnv {
    Seq::new(params.len(), |i: int| (params[i], if i < args.len() { args[i] } else { Seq::<char>::empty() }))
}

pub open spec fn expand_body(body: Seq<Seq<char>>, env: TextEnv) -> Seq<Seq<char>> {
    Seq::new(body.len(), |i: int| trim(subst(body[i], env, "$"@)))
}

/// Expansion of one line: definitions disappear, calls become their bodies.
pub open spec fn expand_step(st: (Seq<Seq<char>>, bool), line: Seq<char>, defs: Seq<MacroView>) -> (Seq<Seq<char>>, bool) {
    let l = trim(line);
    if holds(l, "MACRO"@) {
        (st.0, true)
    } else if holds(l, "ENDM"@) {
        (st.0, false)
    } else if st.1 {
        st
    } else {
        match find_macro_from(defs, first_word(l), 0) {
            Some(m) => (st.0.push(macro_start()) + expand_body(m.2, param_env(m.1, call_args(l))).push(macro_end()), false),
            None => (st.0.push(l), false),
        }
    }
}

pub open spec fn expand_pass(lines: Seq<Seq<char>>, defs: Seq<MacroView>) -> (Seq<Seq<char>>, bool)
    decreases lines.len(),
{
    if lines.len() == 0 {
        (Seq::empty(), false)
    } else {
        expand_step(expand_pass(lines.drop_last(), defs), lines.last(), defs)
    }
}

/// The program with macro definitions removed and every call expanded, the
/// names local to each expansion made unique.
pub open spec fn expanded(lines: Seq<Seq<char>>) -> Result<Seq<Seq<char>>, Seq<char>> {
    match macros_of(lines) {
        Ok(defs) => localized(expand_pass(lines, defs).0),
        Err(e) => Err(e),
    }
}

fn find_macro_exec(defs: &Vec<MacroDef>, name: &str) -> (r: Option<usize>)
    ensures
        match find_macro_from(macro_views(defs@), name@, 0) {
            Some(m) => r is Some && r->Some_0 < defs@.len() && macro_views(defs@)[r->Some_0 as int] == m,
            None => r is None,
        },
{
    let mut k: usize = 0;
    while k < defs.len()
        invariant
            k <= defs@.len(),
            find_macro_from(macro_views(defs@), name@, k as int) == find_macro_from(macro_views(defs@), name@, 0),
        decreases defs@.len() - k,
    {
        if eq_str(defs[k].name.as_str(), name) {
            return Some(k);
        }
        k = k + 1;
    }
    None
}

fn call_args_exec(l: &str) -> (r: Vec<String>)
    ensures
        string_views(r@) == call_args(l@),
{
    let n = l.unicode_len();
    match find_char(l, ' ') {
        Some(k) => {
            let suffix = l.substring_char(k + 1, n);
            let parts = split_str(suffix, ',');
            let mut out: Vec<String> = Vec::new();
            let mut i: usize = 0;
            while i < parts.len()
                invariant
                    i <= parts@.len(),
                    parts@.len() == split(suffix@, ',').len(),
                    forall|m: int| 0 <= m < parts@.len() ==> (#[trigger] parts@[m])@ == split(suffix@, ',')[m],
                    out@.len() == i,
                    forall|m: int| 0 <= m < i ==> (#[trigger] out@[m])@ == trim(split(suffix@, ',')[m]),
                decreases parts@.len() - i,
            {
                out.push(String::from_str(trim_str(parts[i])));
                i = i + 1;
            }
            assert(string_views(out@) =~= fields(suffix@));
            out
        },
        None => {
            let out: Vec<String> = Vec::new();
            assert(string_views(out@) =~= Seq::<Seq<char>>::empty());
            out
        },
    }
}

fn expand_call(out: &mut Vec<String>, m: &MacroDef, l: &str)
    ensures
        string_views(final(out)@) == string_views(old(out)@).push(macro_start()) + expand_body(string_views(m.body@), param_env(string_views(m.params@), call_args(l@))).push(macro_end()),
{
    let args = call_args_exec(l);
    let mut env: Vec<(String, String)> = Vec::new();
    let mut i: usize = 0;
    let ghost pv = string_views(m.params@);
    let ghost av = string_views(args@);
    while i < m.params.len()
        invariant
            i <= m.params@.len(),
            pv == string_views(m.params@),
            av == string_views(args@),
            text_env_views(env@) == param_env(pv, av).take(i as int),
        decreases m.params@.len() - i,
    {
        let value = if i < args.len() { args[i].clone() } else { String::new() };
        proof {
            if i < args@.len() {
                assert(value@ == av[i as int]);
            }
        }
        let ghost before = text_env_views(env@);
        env.push((m.params[i].clone(), value));
        assert(text_env_views(env@) =~= before.push((pv[i as int], value@)));
        assert(param_env(pv, av).take(i as int + 1) =~= param_env(pv, av).take(i as int).push(param_env(pv, av)[i as int]));
        i = i + 1;
    }
    assert(param_env(pv, av).take(m.params@.len() as int) =~= param_env(pv, av));
    let ghost start0 = string_views(out@);
    out.push(String::from_str(MACRO_START));
    assert(string_views(out@) =~= start0.push(macro_start()));
    let ghost start = string_views(out@);
    let ghost bv = string_views(m.body@);
    let ghost benv = param_env(pv, av);
    let mut k: usize = 0;
    while k < m.body.len()
        invariant
            k <= m.body@.len(),
            bv == string_views(m.body@),
            text_env_views(env@) == benv,
            string_views(out@) == start + expand_body(bv, benv).take(k as int),
        decreases m.body@.len() - k,
    {
        let line = substitute(m.body[k].as_str(), &env, "$");
        let t = String::from_str(trim_str(line.as_str()));
        let ghost before = string_views(out@);
        out.push(t);
        assert(string_views(out@) =~= before.push(t@));
        assert(expand_body(bv, benv).take(k as int + 1) =~= expand_body(bv, benv).take(k as int).push(expand_body(bv, benv)[k as int]));
        k = k + 1;
    }
    assert(expand_body(bv, benv).take(m.body@.len() as int) =~= expand_body(bv, benv));
    let ghost before_end = string_views(out@);
    out.push(String::from_str(MACRO_END));
    assert(string_views(out@) =~= before_end.push(macro_end()));
    assert(start0.push(macro_start()) + expand_body(bv, benv).push(macro_end()) =~= (start0.push(macro_start()) + expand_body(bv, benv)).push(macro_end()));
}

/// Line that opens an expanded macro body.
pub const MACRO_START: &'static str = "Custom Mac";

/// Line that closes an expanded macro body.
pub const MACRO_END: &'static str = "Custom End";

pub open spec fn macro_start() -> Seq<char> {
    "Custom Mac"@
}

pub open spec fn macro_end() -> Seq<char> {
    "Custom End"@
}

/// Name of a generated local: a letter for each ten thousand, then the rest in decimal.
pub open spec fn generated_name(count: nat) -> Seq<char> {
    seq![('A' as int + count / 10000) as char] + dec_digits(count % 10000)
}

/// The first generated name from `count` on that is not taken, and the count after it.
pub open spec fn gen_from(taken: Seq<Seq<char>>, count: nat) -> Option<(Seq<char>, nat)>
    decreases 260000 - count,
{
    if count >= 260000 {
        None
    } else if taken.contains(generated_name(count)) {
        gen_from(taken, count + 1)
    } else {
        Some((generated_name(count), count + 1))
    }
}

/// Renaming state: taken names, next count, and the renames of the current expansion.
pub type Fresh = (Seq<Seq<char>>, nat, TextEnv);

/// Gives `name` a fresh generated name.
pub open spec fn fresh(f: Fresh, name: Seq<char>) -> Result<Fresh, Seq<char>> {
    match gen_from(f.0, f.1) {
        Some((g, c)) => Ok((f.0.push(g), c, f.2.push((name, g)))),
        None => Err("Exceeded maximum amount of local labels!"@),
    }
}

pub open spec fn label_name(l: Seq<char>) -> Seq<char> {
    trim_start(l.subrange(0, label_end(l) - 1))
}

/// Name before ` SET ` on a line.
pub open spec fn set_name(l: Seq<char>) -> Seq<char> {
    l.subrange(0, find_sub_from(l, " SET "@, 0))
}

/// Names bound outside expansions: labels and EQU names.
pub open spec fn names_pass(lines: Seq<Seq<char>>) -> (Seq<Seq<char>>, bool)
    decreases lines.len(),
{
    if lines.len() == 0 {
        (Seq::empty(), false)
    } else {
        let (names, in_macro) = names_pass(lines.drop_last());
        let l = lines.last();
        if l == macro_start() {
            (names, true)
        } else if l == macro_end() {
            (names, false)
        } else if in_macro {
            (names, true)
        } else {
            let n1 = if label_end(l) > 0 { names.push(label_name(l)) } else { names };
            match equ_parts(l) {
                Some((n, _)) => (n1.push(n), false),
                None => (n1, false),
            }
        }
    }
}

/// Output, inside an expansion, taken names, outer SET names, count, renames.
pub type LocState = (Seq<Seq<char>>, bool, Seq<Seq<char>>, Seq<Seq<char>>, nat, TextEnv);

/// The first end marker at or after `j`, or the length.
pub open spec fn block_close(lines: Seq<Seq<char>>, j: int) -> int
    decreases lines.len() - j,
{
    if 0 <= j < lines.len() && lines[j] != macro_end() {
        block_close(lines, j + 1)
    } else {
        j
    }
}

/// Whether a line declares a label with `::`, the escape to a global label.
pub open spec fn global_label(line: Seq<char>) -> bool {
    0 < label_end(line) < line.len() && line[label_end(line)] == ':'
}

/// A line with the second colon of a `name::` declaration removed.
pub open spec fn unglobal(line: Seq<char>) -> Seq<char> {
    let le = label_end(line);
    if global_label(line) {
        line.subrange(0, le) + line.subrange(le + 1, line.len() as int)
    } else {
        line
    }
}

/// Names a line of an expansion declares: its label unless written with
/// `::`, its EQU name, and its SET name unless that name is set outside.
pub open spec fn declared(line: Seq<char>, sets: Seq<Seq<char>>) -> Seq<Seq<char>> {
    let l2 = unglobal(line);
    let a = if label_end(line) > 0 && !global_label(line) { seq![label_name(line)] } else { Seq::<Seq<char>>::empty() };
    let b = match equ_parts(l2) {
        Some((n, _)) => seq![n],
        None => Seq::<Seq<char>>::empty(),
    };
    let c = if holds(l2, " SET "@) && !sets.contains(set_name(l2)) { seq![set_name(l2)] } else { Seq::<Seq<char>>::empty() };
    a + b + c
}

/// Gives each name not yet renamed a fresh name, in order.
pub open spec fn bind_names(f: Fresh, names: Seq<Seq<char>>) -> Result<Fresh, Seq<char>>
    decreases names.len(),
{
    if names.len() == 0 {
        Ok(f)
    } else {
        match bind_names(f, names.drop_last()) {
            Ok(f1) => if lookup_from(f1.2, names.last(), 0) is Some {
                Ok(f1)
            } else {
                fresh(f1, names.last())
            },
            Err(e) => Err(e),
        }
    }
}

/// The renames of a whole expansion block: every name any of its lines declares.
pub open spec fn block_env(f: Fresh, block: Seq<Seq<char>>, sets: Seq<Seq<char>>) -> Result<Fresh, Seq<char>>
    decreases block.len(),
{
    if block.len() == 0 {
        Ok(f)
    } else {
        match block_env(f, block.drop_last(), sets) {
            Ok(f1) => bind_names(f1, declared(block.last(), sets)),
            Err(e) => Err(e),
        }
    }
}

/// Line `i` of the pass. An opening marker binds the renames of the whole
/// block up to its closing marker; each line inside is then rewritten with
/// those renames, so a name is replaced before its declaration as well as after.
#[verifier::opaque]
pub open spec fn loc_step(st: LocState, lines: Seq<Seq<char>>, i: int) -> Result<LocState, Seq<char>> {
    let (out, in_macro, taken, sets, count, env) = st;
    let line = lines[i];
    if line == macro_start() {
        match block_env((taken, count, Seq::empty()), lines.subrange(i + 1, block_close(lines, i + 1)), sets) {
            Ok(f) => Ok((out, true, f.0, sets, f.1, f.2)),
            Err(e) => Err(e),
        }
    } else if line == macro_end() {
        Ok((out, false, taken, sets, count, Seq::empty()))
    } else if !in_macro {
        if holds(line, " SET "@) && !sets.contains(set_name(line)) {
            Ok((out.push(line), false, taken.push(set_name(line)), sets.push(set_name(line)), count, env))
        } else {
            Ok((out.push(line), false, taken, sets, count, env))
        }
    } else {
        Ok((out.push(subst(unglobal(line), env, "$"@)), true, taken, sets, count, env))
    }
}

pub open spec fn loc_pass(lines: Seq<Seq<char>>, n: int, taken: Seq<Seq<char>>) -> Result<LocState, Seq<char>>
    decreases n,
{
    if n <= 0 {
        Ok((Seq::empty(), false, taken, Seq::empty(), 0, Seq::empty()))
    } else {
        match loc_pass(lines, n - 1, taken) {
            Ok(st) => loc_step(st, lines, n - 1),
            Err(e) => Err(e),
        }
    }
}

/// Expanded lines with the markers dropped; inside each expansion every
/// whole-name occurrence of a label, EQU name or new SET name the expansion
/// declares is replaced, on every line of it, by that name's fresh name.
pub open spec fn localized(lines: Seq<Seq<char>>) -> Result<Seq<Seq<char>>, Seq<char>> {
    match loc_pass(lines, lines.len() as int, names_pass(lines).0) {
        Ok(st) => Ok(st.0),
        Err(e) => Err(e),
    }
}

fn contains_exec(names: &Vec<String>, name: &str) -> (b: bool)
    ensures
        b == string_views(names@).contains(name@),
{
    let mut k: usize = 0;
    while k < names.len()
        invariant
            k <= names@.len(),
            forall|m: int| 0 <= m < k ==> names@[m]@ != name@,
        decreases names@.len() - k,
    {
        if eq_str(names[k].as_str(), name) {
            assert(string_views(names@)[k as int] == name@);
            return true;
        }
        k = k + 1;
    }
    assert(!string_views(names@).contains(name@)) by {
        if string_views(names@).contains(name@) {
            let m = choose|m: int| 0 <= m < string_views(names@).len() && string_views(names@)[m] == name@;
            assert(names@[m]@ == name@);
        }
    }
    false
}

fn generated_name_exec(count: u32) -> (s: String)
    requires
        count < 260000,
    ensures
        s@ == generated_name(count as nat),
{
    let letters = "ABCDEFGHIJKLMNOPQRSTUVWXYZ";
    proof {
        reveal_strlit("ABCDEFGHIJKLMNOPQRSTUVWXYZ");
    }
    let k = (count / 10000) as usize;
    let letter = letters.substring_char(k, k + 1);
    assert(letter@ =~= seq![('A' as int + count / 10000) as char]);
    String::from_str(letter).concat(dec_string((count % 10000) as u16).as_str())
}

fn gen_exec(taken: &Vec<String>, count: u32) -> (r: Option<(String, u32)>)
    requires
        count <= 260000,
    ensures
        match gen_from(string_views(taken@), count as nat) {
            Some((g, c)) => r is Some && r->Some_0.0@ == g && r->Some_0.1 as nat == c && c <= 260000,
            None => r is None,
        },
{
    let mut c = count;
    while c < 260000
        invariant
            count <= c <= 260000,
            gen_from(string_views(taken@), c as nat) == gen_from(string_views(taken@), count as nat),
        decreases 260000 - c,
    {
        let name = generated_name_exec(c);
        if !contains_exec(taken, name.as_str()) {
            return Some((name, c + 1));
        }
        c = c + 1;
    }
    None
}

fn fresh_exec(taken: &mut Vec<String>, count: &mut u32, env: &mut Vec<(String, String)>, name: &str) -> (r: Result<(), &'static str>)
    requires
        *old(count) <= 260000,
    ensures
        *final(count) <= 260000,
        match fresh((string_views(old(taken)@), *old(count) as nat, text_env_views(old(env)@)), name@) {
            Ok(f) => r is Ok && string_views(final(taken)@) == f.0 && *final(count) as nat == f.1 && text_env_views(final(env)@) == f.2,
            Err(e) => r is Err && r->Err_0@ == e,
        },
{
    match gen_exec(taken, *count) {
        Some((g, c)) => {
            let ghost tv = string_views(taken@);
            let ghost ev = text_env_views(env@);
            env.push((String::from_str(name), g.clone()));
            taken.push(g);
            assert(string_views(taken@) =~= tv.push(g@));
            assert(text_env_views(env@) =~= ev.push((name@, g@)));
            *count = c;
            Ok(())
        },
        None => Err("Exceeded maximum amount of local labels!"),
    }
}

fn label_name_exec(l: &str) -> (r: &str)
    requires
        label_end(l@) > 0,
    ensures
        r@ == label_name(l@),
{
    let le = label_end_exec(l);
    trim_start_str(l.substring_char(0, le - 1))
}

fn names_exec(code: &Vec<String>) -> (r: Vec<String>)
    ensures
        string_views(r@) == names_pass(string_views(code@)).0,
{
    let ghost lines = string_views(code@);
    let mut names: Vec<String> = Vec::new();
    let mut in_macro = false;
    let mut i: usize = 0;
    assert(string_views(names@) =~= Seq::<Seq<char>>::empty());
    assert(lines.take(0) =~= Seq::<Seq<char>>::empty());
    while i < code.len()
        invariant
            i <= code@.len(),
            lines == string_views(code@),
            names_pass(lines.take(i as int)) == (string_views(names@), in_macro),
        decreases code@.len() - i,
    {
        proof {
            assert(lines.take(i as int + 1).drop_last() =~= lines.take(i as int));
            assert(lines.take(i as int + 1).last() == code@[i as int]@);
            reveal_strlit(" EQU ");
        }
        let l = code[i].as_str();
        if eq_str(l, MACRO_START) {
            in_macro = true;
        } else if eq_str(l, MACRO_END) {
            in_macro = false;
        } else if !in_macro {
            if label_end_exec(l) > 0 {
                let ghost before = string_views(names@);
                names.push(String::from_str(label_name_exec(l)));
                assert(string_views(names@) =~= before.push(label_name(l@)));
            }
            let t = trim_str(l);
            if let Some(k) = holds_exec(t, " EQU ") {
                let ghost before = string_views(names@);
                names.push(String::from_str(t.substring_char(0, k)));
                assert(string_views(names@) =~= before.push(t@.subrange(0, k as int)));
            }
        }
        i = i + 1;
    }
    assert(lines.take(code@.len() as int) =~= lines);
    names
}

pub open spec fn loc_views(out: Seq<String>, in_macro: bool, taken: Seq<String>, sets: Seq<String>, count: u32, env: Seq<(String, String)>) -> LocState {
    (string_views(out), in_macro, string_views(taken), string_views(sets), count as nat, text_env_views(env))
}

fn block_close_exec(code: &Vec<String>, j: usize) -> (e: usize)
    requires
        j <= code@.len(),
    ensures
        e as int == block_close(string_views(code@), j as int),
        j <= e <= code@.len(),
{
    let mut e = j;
    while e < code.len() && !eq_str(code[e].as_str(), MACRO_END)
        invariant
            j <= e <= code@.len(),
            block_close(string_views(code@), e as int) == block_close(string_views(code@), j as int),
        decreases code@.len() - e,
    {
        e = e + 1;
    }
    e
}

fn unglobal_exec(line: &str) -> (r: String)
    ensures
        r@ == unglobal(line@),
{
    let n = line.unicode_len();
    let le = label_end_exec(line);
    if 0 < le && le < n && line.get_char(le) == ':' {
        String::from_str(line.substring_char(0, le)).concat(line.substring_char(le + 1, n))
    } else {
        String::from_str(line)
    }
}

fn declared_exec(line: &str, sets: &Vec<String>) -> (r: Vec<String>)
    ensures
        string_views(r@) == declared(line@, string_views(sets@)),
{
    proof {
        reveal_strlit(" SET ");
        reveal_strlit(" EQU ");
    }
    let n = line.unicode_len();
    let le = label_end_exec(line);
    let global = 0 < le && le < n && line.get_char(le) == ':';
    let l2s = unglobal_exec(line);
    let l2 = l2s.as_str();
    let mut out: Vec<String> = Vec::new();
    let ghost a = if label_end(line@) > 0 && !global_label(line@) { seq![label_name(line@)] } else { Seq::<Seq<char>>::empty() };
    if le > 0 && !global {
        out.push(String::from_str(label_name_exec(line)));
    }
    assert(string_views(out@) =~= a);
    let ghost b = match equ_parts(l2@) {
        Some((nm, _)) => seq![nm],
        None => Seq::<Seq<char>>::empty(),
    };
    let t = trim_str(l2);
    if let Some(k) = holds_exec(t, " EQU ") {
        out.push(String::from_str(t.substring_char(0, k)));
    }
    assert(string_views(out@) =~= a + b);
    let ghost c = if holds(l2@, " SET "@) && !string_views(sets@).contains(set_name(l2@)) { seq![set_name(l2@)] } else { Seq::<Seq<char>>::empty() };
    if let Some(k) = holds_exec(l2, " SET ") {
        let name = l2.substring_char(0, k);
        if !contains_exec(sets, name) {
            out.push(String::from_str(name));
        }
    }
    assert(string_views(out@) =~= a + b + c);
    out
}

fn lookup_name_exec(env: &Vec<(String, String)>, name: &str) -> (b: bool)
    ensures
        b == (lookup_from(text_env_views(env@), name@, 0) is Some),
{
    let mut k: usize = 0;
    while k < env.len()
        invariant
            k <= env@.len(),
            lookup_from(text_env_views(env@), name@, k as int) == lookup_from(text_env_views(env@), name@, 0),
        decreases env@.len() - k,
    {
        if eq_str(env[k].0.as_str(), name) {
            return true;
        }
        k = k + 1;
    }
    false
}

pub open spec fn fresh_views(taken: Seq<String>, count: u32, env: Seq<(String, String)>) -> Fresh {
    (string_views(taken), count as nat, text_env_views(env))
}

fn bind_names_exec(taken: &mut Vec<String>, count: &mut u32, env: &mut Vec<(String, String)>, names: &Vec<String>) -> (r: Result<(), &'static str>)
    requires
        *old(count) <= 260000,
    ensures
        *final(count) <= 260000,
        match bind_names(fresh_views(old(taken)@, *old(count), old(env)@), string_views(names@)) {
            Ok(f) => r is Ok && fresh_views(final(taken)@, *final(count), final(env)@) == f,
            Err(e) => r is Err && r->Err_0@ == e,
        },
{
    let ghost nv = string_views(names@);
    let ghost f0 = fresh_views(taken@, *count, env@);
    let mut k: usize = 0;
    assert(nv.take(0) =~= Seq::<Seq<char>>::empty());
    while k < names.len()
        invariant
            k <= names@.len(),
            nv == string_views(names@),
            *count <= 260000,
            f0 == fresh_views(old(taken)@, *old(count), old(env)@),
            bind_names(f0, nv.take(k as int)) == Ok::<Fresh, Seq<char>>(fresh_views(taken@, *count, env@)),
        decreases names@.len() - k,
    {
        proof {
            assert(nv.take(k as int + 1).drop_last() =~= nv.take(k as int));
            assert(nv.take(k as int + 1).last() == names@[k as int]@);
        }
        let name = names[k].as_str();
        if !lookup_name_exec(env, name) {
            let r = fresh_exec(taken, count, env, name);
            if let Err(e) = r {
                proof {
                    lemma_bind_names_err(f0, nv, k as int + 1);
                }
                return Err(e);
            }
        }
        k = k + 1;
    }
    assert(nv.take(names@.len() as int) =~= nv);
    Ok(())
}

proof fn lemma_bind_names_err(f: Fresh, names: Seq<Seq<char>>, n: int)
    requires
        0 <= n <= names.len(),
        bind_names(f, names.take(n)) is Err,
    ensures
        bind_names(f, names) == bind_names(f, names.take(n)),
    decreases names.len() - n,
{
    if n < names.len() {
        assert(names.take(n + 1).drop_last() =~= names.take(n));
        lemma_bind_names_err(f, names, n + 1);
    } else {
        assert(names.take(n) =~= names);
    }
}

proof fn lemma_block_env_err(f: Fresh, block: Seq<Seq<char>>, sets: Seq<Seq<char>>, n: int)
    requires
        0 <= n <= block.len(),
        block_env(f, block.take(n), sets) is Err,
    ensures
        block_env(f, block, sets) == block_env(f, block.take(n), sets),
    decreases block.len() - n,
{
    if n < block.len() {
        assert(block.take(n + 1).drop_last() =~= block.take(n));
        lemma_block_env_err(f, block, sets, n + 1);
    } else {
        assert(block.take(n) =~= block);
    }
}

fn block_env_exec(
    code: &Vec<String>,
    from: usize,
    to: usize,
    sets: &Vec<String>,
    taken: &mut Vec<String>,
    count: &mut u32,
    env: &mut Vec<(String, String)>,
) -> (r: Result<(), &'static str>)
    requires
        from <= to <= code@.len(),
        *old(count) <= 260000,
    ensures
        *final(count) <= 260000,
        match block_env(fresh_views(old(taken)@, *old(count), old(env)@), string_views(code@).subrange(from as int, to as int), string_views(sets@)) {
            Ok(f) => r is Ok && fresh_views(final(taken)@, *final(count), final(env)@) == f,
            Err(e) => r is Err && r->Err_0@ == e,
        },
{
    let ghost block = string_views(code@).subrange(from as int, to as int);
    let ghost sv = string_views(sets@);
    let ghost f0 = fresh_views(taken@, *count, env@);
    let mut k: usize = from;
    assert(block.take(0) =~= Seq::<Seq<char>>::empty());
    while k < to
        invariant
            from <= k <= to <= code@.len(),
            block == string_views(code@).subrange(from as int, to as int),
            sv == string_views(sets@),
            *count <= 260000,
            f0 == fresh_views(old(taken)@, *old(count), old(env)@),
            block_env(f0, block.take(k - from), sv) == Ok::<Fresh, Seq<char>>(fresh_views(taken@, *count, env@)),
        decreases to - k,
    {
        proof {
            assert(block.take(k - from + 1).drop_last() =~= block.take(k - from));
            assert(block.take(k - from + 1).last() == code@[k as int]@);
        }
        let names = declared_exec(code[k].as_str(), sets);
        let r = bind_names_exec(taken, count, env, &names);
        if let Err(e) = r {
            proof {
                lemma_block_env_err(f0, block, sv, k - from + 1);
            }
            return Err(e);
        }
        k = k + 1;
    }
    assert(block.take(to - from) =~= block);
    Ok(())
}

fn loc_step_exec(
    out: &mut Vec<String>,
    in_macro: &mut bool,
    taken: &mut Vec<String>,
    sets: &mut Vec<String>,
    count: &mut u32,
    env: &mut Vec<(String, String)>,
    code: &Vec<String>,
    i: usize,
) -> (r: Result<(), &'static str>)
    requires
        *old(count) <= 260000,
        i < code@.len(),
    ensures
        *final(count) <= 260000,
        match loc_step(loc_views(old(out)@, *old(in_macro), old(taken)@, old(sets)@, *old(count), old(env)@), string_views(code@), i as int) {
            Ok(st) => r is Ok && loc_views(final(out)@, *final(in_macro), final(taken)@, final(sets)@, *final(count), final(env)@) == st,
            Err(e) => r is Err && r->Err_0@ == e,
        },
{
    proof {
        reveal(loc_step);
        reveal_strlit(" SET ");
    }
    let len = code.len();
    let line = code[i].as_str();
    if eq_str(line, MACRO_START) {
        let close = block_close_exec(code, i + 1);
        *env = Vec::new();
        assert(text_env_views(env@) =~= Seq::<(Seq<char>, Seq<char>)>::empty());
        block_env_exec(code, i + 1, close, sets, taken, count, env)?;
        *in_macro = true;
        return Ok(());
    }
    if eq_str(line, MACRO_END) {
        *in_macro = false;
        *env = Vec::new();
        assert(text_env_views(env@) =~= Seq::<(Seq<char>, Seq<char>)>::empty());
        return Ok(());
    }
    if !*in_macro {
        if let Some(k) = holds_exec(line, " SET ") {
            let name = line.substring_char(0, k);
            if !contains_exec(sets, name) {
                let ghost tv = string_views(taken@);
                let ghost sv = string_views(sets@);
                taken.push(String::from_str(name));
                sets.push(String::from_str(name));
                assert(string_views(taken@) =~= tv.push(name@));
                assert(string_views(sets@) =~= sv.push(name@));
            }
        }
        let ghost ov = string_views(out@);
        out.push(String::from_str(line));
        assert(string_views(out@) =~= ov.push(line@));
        return Ok(());
    }
    let l2 = unglobal_exec(line);
    let text = substitute(l2.as_str(), env, "$");
    let ghost ov = string_views(out@);
    out.push(text);
    assert(string_views(out@) =~= ov.push(text@));
    Ok(())
}

proof fn lemma_loc_pass_err(lines: Seq<Seq<char>>, taken: Seq<Seq<char>>, n: int, m: int)
    requires
        0 <= n <= m,
        loc_pass(lines, n, taken) is Err,
    ensures
        loc_pass(lines, m, taken) == loc_pass(lines, n, taken),
    decreases m - n,
{
    if n < m {
        lemma_loc_pass_err(lines, taken, n, m - 1);
    }
}

/// Drops the expansion markers and, inside each expansion, renames the
/// labels it declares (but not those declared with `::`), its EQU names and
/// the SET names not set outside, to fresh names, on every line of the expansion.
pub fn handle_macro_locals(code: &Vec<String>) -> (r: Result<Vec<String>, &'static str>)
    ensures
        match localized(string_views(code@)) {
            Ok(ls) => r is Ok && string_views(r->Ok_0@) == ls,
            Err(e) => r is Err && r->Err_0@ == e,
        },
{
    let ghost lines = string_views(code@);
    let mut taken = names_exec(code);
    let ghost t0 = string_views(taken@);
    let mut out: Vec<String> = Vec::new();
    let mut in_macro = false;
    let mut sets: Vec<String> = Vec::new();
    let mut count: u32 = 0;
    let mut env: Vec<(String, String)> = Vec::new();
    assert(string_views(out@) =~= Seq::<Seq<char>>::empty());
    assert(string_views(sets@) =~= Seq::<Seq<char>>::empty());
    assert(text_env_views(env@) =~= Seq::<(Seq<char>, Seq<char>)>::empty());
    let mut i: usize = 0;
    while i < code.len()
        invariant
            i <= code@.len(),
            lines == string_views(code@),
            t0 == names_pass(lines).0,
            count <= 260000,
            loc_pass(lines, i as int, t0) == Ok::<LocState, Seq<char>>(loc_views(out@, in_macro, taken@, sets@, count, env@)),
        decreases code@.len() - i,
    {
        let r = loc_step_exec(&mut out, &mut in_macro, &mut taken, &mut sets, &mut count, &mut env, code, i);
        if let Err(e) = r {
            proof {
                lemma_loc_pass_err(lines, t0, i as int + 1, lines.len() as int);
            }
            return Err(e);
        }
        i = i + 1;
    }
    Ok(out)
}

/// A generated name is none of the names taken when it is made, and the count moves past it.
pub proof fn lemma_gen_fresh(taken: Seq<Seq<char>>, count: nat)
    ensures
        match gen_from(taken, count) {
            Some((g, c)) => !taken.contains(g) && c > count,
            None => true,
        },
    decreases 260000 - count,
{
    if count < 260000 && taken.contains(generated_name(count)) {
        lemma_gen_fresh(taken, count + 1);
    }
}

/// Renaming a local binds it to a name that no taken name equals (the names
/// bound outside expansions and every name generated before), then takes that name.
pub proof fn lemma_fresh_name(f: Fresh, name: Seq<char>)
    ensures
        match fresh(f, name) {
            Ok(f2) => {
                let g = f2.2.last().1;
                &&& !f.0.contains(g)
                &&& f2.0 == f.0.push(g)
                &&& f2.2 == f.2.push((name, g))
            },
            Err(_) => true,
        },
{
    lemma_gen_fresh(f.0, f.1);
}

/// `p` is a prefix of `t`.
pub open spec fn is_prefix(p: Seq<Seq<char>>, t: Seq<Seq<char>>) -> bool {
    p.len() <= t.len() && t.subrange(0, p.len() as int) == p
}

proof fn lemma_prefix_push(p: Seq<Seq<char>>, t: Seq<Seq<char>>, x: Seq<char>)
    requires
        is_prefix(p, t),
    ensures
        is_prefix(p, t.push(x)),
{
    assert(t.push(x).subrange(0, p.len() as int) =~= t.subrange(0, p.len() as int));
}

proof fn lemma_fresh_prefix(p: Seq<Seq<char>>, f: Fresh, name: Seq<char>)
    requires
        is_prefix(p, f.0),
    ensures
        fresh(f, name) is Ok ==> is_prefix(p, fresh(f, name)->Ok_0.0),
{
    lemma_fresh_name(f, name);
    if fresh(f, name) is Ok {
        lemma_prefix_push(p, f.0, fresh(f, name)->Ok_0.2.last().1);
    }
}

proof fn lemma_bind_names_prefix(p: Seq<Seq<char>>, f: Fresh, names: Seq<Seq<char>>)
    requires
        is_prefix(p, f.0),
    ensures
        bind_names(f, names) is Ok ==> is_prefix(p, bind_names(f, names)->Ok_0.0),
    decreases names.len(),
{
    if names.len() > 0 {
        lemma_bind_names_prefix(p, f, names.drop_last());
        if bind_names(f, names.drop_last()) is Ok {
            lemma_fresh_prefix(p, bind_names(f, names.drop_last())->Ok_0, names.last());
        }
    }
}

proof fn lemma_block_env_prefix(p: Seq<Seq<char>>, f: Fresh, block: Seq<Seq<char>>, sets: Seq<Seq<char>>)
    requires
        is_prefix(p, f.0),
    ensures
        block_env(f, block, sets) is Ok ==> is_prefix(p, block_env(f, block, sets)->Ok_0.0),
    decreases block.len(),
{
    if block.len() > 0 {
        lemma_block_env_prefix(p, f, block.drop_last(), sets);
        if block_env(f, block.drop_last(), sets) is Ok {
            lemma_bind_names_prefix(p, block_env(f, block.drop_last(), sets)->Ok_0, declared(block.last(), sets));
        }
    }
}

/// Taken names only grow during the pass: the names bound outside expansions
/// stay taken throughout, so no renamed local can equal one of them.
pub proof fn lemma_loc_pass_keeps_taken(lines: Seq<Seq<char>>, n: int, taken: Seq<Seq<char>>)
    ensures
        loc_pass(lines, n, taken) is Ok ==> is_prefix(taken, loc_pass(lines, n, taken)->Ok_0.2),
    decreases n,
{
    if n <= 0 {
        assert(taken.subrange(0, taken.len() as int) =~= taken);
    } else {
        lemma_loc_pass_keeps_taken(lines, n - 1, taken);
        match loc_pass(lines, n - 1, taken) {
            Ok(st) => {
                reveal(loc_step);
                let i = n - 1;
                let line = lines[i];
                let (out, in_macro, tk, sets, count, env) = st;
                if line == macro_start() {
                    lemma_block_env_prefix(taken, (tk, count, Seq::empty()), lines.subrange(i + 1, block_close(lines, i + 1)), sets);
                } else if line != macro_end() && !in_macro {
                    if holds(line, " SET "@) && !sets.contains(set_name(line)) {
                        lemma_prefix_push(taken, tk, set_name(line));
                    }
                }
            },
            Err(_) => {},
        }
    }
}

/// Removes macro definitions and expands every macro call.
pub fn replace_macros(code: &Vec<String>) -> (r: Result<Vec<String>, &'static str>)
    ensures
        match expanded(string_views(code@)) {
            Ok(ls) => r is Ok && string_views(r->Ok_0@) == ls,
            Err(e) => r is Err && r->Err_0@ == e,
        },
{
    let defs = get_macros(code)?;
    let ghost lines = string_views(code@);
    let ghost dv = macro_views(defs@);
    let mut out: Vec<String> = Vec::new();
    let mut in_decl = false;
    let mut i: usize = 0;
    assert(string_views(out@) =~= Seq::<Seq<char>>::empty());
    assert(lines.take(0) =~= Seq::<Seq<char>>::empty());
    while i < code.len()
        invariant
            i <= code@.len(),
            lines == string_views(code@),
            dv == macro_views(defs@),
            expand_pass(lines.take(i as int), dv) == (string_views(out@), in_decl),
        decreases code@.len() - i,
    {
        proof {
            assert(lines.take(i as int + 1).drop_last() =~= lines.take(i as int));
            assert(lines.take(i as int + 1).last() == code@[i as int]@);
            reveal_strlit("MACRO");
            reveal_strlit("ENDM");
        }
        let l = trim_str(code[i].as_str());
        if holds_exec(l, "MACRO").is_some() {
            in_decl = true;
        } else if holds_exec(l, "ENDM").is_some() {
            in_decl = false;
        } else if !in_decl {
            match find_macro_exec(&defs, first_word_exec(l)) {
                Some(k) => {
                    expand_call(&mut out, &defs[k], l);
                },
                None => {
                    let ghost before = string_views(out@);
                    out.push(String::from_str(l));
                    assert(string_views(out@) =~= before.push(l@));
                },
            }
        }
        i = i + 1;
    }
    proof {
        assert(lines.take(code@.len() as int) =~= lines);
    }
    handle_macro_locals(&out)
}

/// Name and expression of a `name EQU expr` line.
pub open spec fn equ_parts(l: Seq<char>) -> Option<(Seq<char>, Seq<char>)> {
    let t = trim(l);
    if holds(t, " EQU "@) {
        let k = find_sub_from(t, " EQU "@, 0);
        Some((t.subrange(0, k), t.subrange(k + 5, t.len() as int)))
    } else {
        None
    }
}

pub open spec fn equ_pass(lines: Seq<Seq<char>>) -> Result<Symbols, Seq<char>>
    decreases lines.len(),
{
    if lines.len() == 0 {
        Ok(Seq::empty())
    } else {
        match equ_pass(lines.drop_last()) {
            Ok(t) => match equ_parts(lines.last()) {
                None => Ok(t),
                Some((name, e)) => if has_name(t, name) {
                    Err("Can't assign a variable more than once using EQU!"@)
                } else {
                    match expr_value(e) {
                        Some(v) => Ok(t.push((name, low16(v)))),
                        None => Err("Invalid expression"@),
                    }
                },
            },
            Err(e) => Err(e),
        }
    }
}

proof fn lemma_equ_pass_err(lines: Seq<Seq<char>>, n: int)
    requires
        0 <= n <= lines.len(),
        equ_pass(lines.take(n)) is Err,
    ensures
        equ_pass(lines) == equ_pass(lines.take(n)),
    decreases lines.len() - n,
{
    if n < lines.len() {
        assert(lines.take(n + 1).drop_last() =~= lines.take(n));
        lemma_equ_pass_err(lines, n + 1);
    } else {
        assert(lines.take(n) =~= lines);
    }
}

/// Values of every `name EQU expr` line; a name may be equated once.
pub fn get_equate_assignments(code: &Vec<String>) -> (r: Result<Vec<(String, u16)>, &'static str>)
    ensures
        match equ_pass(string_views(code@)) {
            Ok(t) => r is Ok && symbol_views(r->Ok_0@) == t,
            Err(e) => r is Err && r->Err_0@ == e,
        },
{
    let ghost lines = string_views(code@);
    let mut t: Vec<(String, u16)> = Vec::new();
    let mut i: usize = 0;
    assert(symbol_views(t@) =~= Seq::<(Seq<char>, u16)>::empty());
    assert(lines.take(0) =~= Seq::<Seq<char>>::empty());
    while i < code.len()
        invariant
            i <= code@.len(),
            lines == string_views(code@),
            equ_pass(lines.take(i as int)) == Ok::<Symbols, Seq<char>>(symbol_views(t@)),
        decreases code@.len() - i,
    {
        proof {
            assert(lines.take(i as int + 1).drop_last() =~= lines.take(i as int));
            assert(lines.take(i as int + 1).last() == code@[i as int]@);
            reveal_strlit(" EQU ");
        }
        let l = trim_str(code[i].as_str());
        let n = l.unicode_len();
        if let Some(k) = holds_exec(l, " EQU ") {
            let name = l.substring_char(0, k);
            if has_name_exec(&t, name) {
                proof {
                    lemma_equ_pass_err(lines, i as int + 1);
                }
                return Err("Can't assign a variable more than once using EQU!");
            }
            match eval_operand(l.substring_char(k + 5, n)) {
                Ok(v) => {
                    let ghost before = symbol_views(t@);
                    let w = (((v as i64) + 0x1_0000_0000) as u64 % 0x10000) as u16;
                    t.push((String::from_str(name), w));
                    assert(symbol_views(t@) =~= before.push((name@, low16(v))));
                },
                Err(e) => {
                    proof {
                        lemma_equ_pass_err(lines, i as int + 1);
                    }
                    return Err(e);
                },
            }
        }
        i = i + 1;
    }
    proof {
        assert(lines.take(code@.len() as int) =~= lines);
    }
    Ok(t)
}

/// Symbols as replacement texts: their values in decimal.
pub open spec fn sym_env(t: Symbols) -> TextEnv {
    Seq::new(t.len(), |i: int| (t[i].0, dec_digits(t[i].1 as nat)))
}

/// A line without its leading label declarations.
pub open spec fn strip_labels(l: Seq<char>) -> Seq<char>
    decreases l.len(),
{
    let le = label_end(l);
    if 0 < le <= l.len() {
        strip_labels(l.subrange(le, l.len() as int))
    } else {
        l
    }
}

/// The text after the first word of a line.
pub open spec fn operand_text(l: Seq<char>) -> Seq<char> {
    let k = find_from(l, ' ', 0);
    if 0 <= k < l.len() {
        l.subrange(k + 1, l.len() as int)
    } else {
        Seq::empty()
    }
}

pub open spec fn index_of_from(t: Symbols, name: Seq<char>, k: int) -> int
    decreases t.len() - k,
{
    if k < 0 || k >= t.len() {
        -1
    } else if t[k].0 == name {
        k
    } else {
        index_of_from(t, name, k + 1)
    }
}

/// The table with `name` bound to `v`: rebound where it is, added otherwise.
pub open spec fn set_bind(t: Symbols, name: Seq<char>, v: u16) -> Symbols {
    let k = index_of_from(t, name, 0);
    if 0 <= k < t.len() {
        t.update(k, (name, v))
    } else {
        t.push((name, v))
    }
}

/// Output lines, SET values, current address, inside an IF, and its condition.
pub type PreState = (Seq<Seq<char>>, Symbols, u16, bool, bool);

pub open spec fn eval_at(e: Seq<char>, env: TextEnv, pc: u16) -> Option<u16> {
    match expr_value(subst(e, env, dec_digits(pc as nat))) {
        Some(v) => Some(low16(v)),
        None => None,
    }
}

#[verifier::opaque]
pub open spec fn pre_step(st: PreState, line: Seq<char>, base: TextEnv) -> Result<PreState, Seq<char>> {
    let (out, sets, pc, in_cond, cond) = st;
    let l0 = trim(line);
    if in_cond && !cond && first_word(l0) != "ENDIF"@ {
        Ok(st)
    } else {
        let l = trim(strip_labels(l0));
        let w = first_word(l);
        let env = base + sym_env(sets);
        if w == "ENDIF"@ {
            if !in_cond {
                Err("Every ENDIF must have a corresponding IF"@)
            } else {
                Ok((out, sets, pc, false, false))
            }
        } else if w == "IF"@ {
            if in_cond {
                Err("IF blocks must not be nested"@)
            } else {
                match eval_at(operand_text(l), env, pc) {
                    Some(v) => Ok((out, sets, pc, true, v != 0)),
                    None => Err("Invalid expression"@),
                }
            }
        } else if holds(l, " EQU "@) || w == "END"@ || l.len() == 0 {
            Ok(st)
        } else if holds(l, " SET "@) {
            let k = find_sub_from(l, " SET "@, 0);
            match eval_at(l.subrange(k + 5, l.len() as int), env, pc) {
                Some(v) => Ok((out, set_bind(sets, l.subrange(0, k), v), pc, in_cond, cond)),
                None => Err("Invalid expression"@),
            }
        } else if w == "ORG"@ {
            match eval_at(operand_text(l), env, pc) {
                Some(v) => Ok((out.push("ORG "@ + dec_digits(v as nat)), sets, v, in_cond, cond)),
                None => Err("Invalid expression"@),
            }
        } else {
            Ok((out.push(subst(l, env, dec_digits(pc as nat))), sets, wrap16(pc + byte_amount(l)), in_cond, cond))
        }
    }
}

pub open spec fn pre_pass(lines: Seq<Seq<char>>, base: TextEnv) -> Result<PreState, Seq<char>>
    decreases lines.len(),
{
    if lines.len() == 0 {
        Ok((Seq::empty(), Seq::empty(), 0, false, false))
    } else {
        match pre_pass(lines.drop_last(), base) {
            Ok(st) => pre_step(st, lines.last(), base),
            Err(e) => Err(e),
        }
    }
}

pub fn strip_labels_exec(l: &str) -> (r: &str)
    ensures
        r@ == strip_labels(l@),
{
    let mut cur = l;
    loop
        invariant
            strip_labels(cur@) == strip_labels(l@),
        decreases cur@.len(),
    {
        let le = label_end_exec(cur);
        if le == 0 {
            return cur;
        }
        cur = cur.substring_char(le, cur.unicode_len());
    }
}

pub fn operand_text_exec(l: &str) -> (r: &str)
    ensures
        r@ == operand_text(l@),
{
    let n = l.unicode_len();
    match find_char(l, ' ') {
        Some(k) => l.substring_char(k + 1, n),
        None => {
            let e = l.substring_char(0, 0);
            assert(e@ =~= Seq::<char>::empty());
            e
        },
    }
}

fn set_bind_exec(sets: &mut Vec<(String, u16)>, name: &str, v: u16)
    ensures
        symbol_views(final(sets)@) == set_bind(symbol_views(old(sets)@), name@, v),
{
    let ghost t = symbol_views(sets@);
    let mut k: usize = 0;
    while k < sets.len()
        invariant
            k <= sets@.len(),
            sets@ == old(sets)@,
            t == symbol_views(sets@),
            index_of_from(t, name@, k as int) == index_of_from(t, name@, 0),
        decreases sets@.len() - k,
    {
        if eq_str(sets[k].0.as_str(), name) {
            sets.set(k, (String::from_str(name), v));
            assert(symbol_views(sets@) =~= t.update(k as int, (name@, v)));
            return;
        }
        k = k + 1;
    }
    sets.push((String::from_str(name), v));
    assert(symbol_views(sets@) =~= t.push((name@, v)));
}

fn sym_env_exec(t: &Vec<(String, u16)>, env: &mut Vec<(String, String)>)
    ensures
        text_env_views(final(env)@) == text_env_views(old(env)@) + sym_env(symbol_views(t@)),
{
    let ghost start = text_env_views(env@);
    let ghost tv = symbol_views(t@);
    let mut i: usize = 0;
    while i < t.len()
        invariant
            i <= t@.len(),
            tv == symbol_views(t@),
            text_env_views(env@) == start + sym_env(tv).take(i as int),
        decreases t@.len() - i,
    {
        let ghost before = text_env_views(env@);
        let d = dec_string(t[i].1);
        env.push((t[i].0.clone(), d));
        assert(text_env_views(env@) =~= before.push((tv[i as int].0, dec_digits(tv[i as int].1 as nat))));
        assert(sym_env(tv).take(i as int + 1) =~= sym_env(tv).take(i as int).push(sym_env(tv)[i as int]));
        i = i + 1;
    }
    assert(sym_env(tv).take(t@.len() as int) =~= sym_env(tv));
}

fn eval_at_exec(e: &str, env: &Vec<(String, String)>, pc: u16) -> (r: Option<u16>)
    ensures
        r == eval_at(e@, text_env_views(env@), pc),
{
    let d = dec_string(pc);
    let text = substitute(e, env, d.as_str());
    match eval_operand(text.as_str()) {
        Ok(v) => Some((((v as i64) + 0x1_0000_0000) as u64 % 0x10000) as u16),
        Err(_) => None,
    }
}

pub open spec fn pre_views(out: Seq<String>, sets: Seq<(String, u16)>, pc: u16, in_cond: bool, cond: bool) -> PreState {
    (string_views(out), symbol_views(sets), pc, in_cond, cond)
}

/// One line of the final pass.
fn pre_step_exec(
    out: &mut Vec<String>,
    sets: &mut Vec<(String, u16)>,
    pc: &mut u16,
    in_cond: &mut bool,
    cond: &mut bool,
    line: &str,
    base: &Vec<(String, String)>,
) -> (r: Result<(), &'static str>)
    ensures
        match pre_step(pre_views(old(out)@, old(sets)@, *old(pc), *old(in_cond), *old(cond)), line@, text_env_views(base@)) {
            Ok(st) => r is Ok && pre_views(final(out)@, final(sets)@, *final(pc), *final(in_cond), *final(cond)) == st,
            Err(e) => r is Err && r->Err_0@ == e,
        },
{
    proof {
        reveal_strlit(" EQU ");
        reveal_strlit(" SET ");
        reveal(pre_step);
    }
    let l0 = trim_str(line);
    if *in_cond && !*cond && !eq_str(first_word_exec(l0), "ENDIF") {
        return Ok(());
    }
    let l = trim_str(strip_labels_exec(l0));
    let n = l.unicode_len();
    let w = first_word_exec(l);
    let mut env: Vec<(String, String)> = Vec::new();
    let mut b: usize = 0;
    while b < base.len()
        invariant
            b <= base@.len(),
            text_env_views(env@) == text_env_views(base@).take(b as int),
        decreases base@.len() - b,
    {
        let ghost before = text_env_views(env@);
        env.push((base[b].0.clone(), base[b].1.clone()));
        assert(text_env_views(env@) =~= before.push(text_env_views(base@)[b as int]));
        assert(text_env_views(base@).take(b as int + 1) =~= text_env_views(base@).take(b as int).push(text_env_views(base@)[b as int]));
        b = b + 1;
    }
    assert(text_env_views(base@).take(base@.len() as int) =~= text_env_views(base@));
    sym_env_exec(sets, &mut env);
    if eq_str(w, "ENDIF") {
        if !*in_cond {
            return Err("Every ENDIF must have a corresponding IF");
        }
        *in_cond = false;
        *cond = false;
        Ok(())
    } else if eq_str(w, "IF") {
        if *in_cond {
            return Err("IF blocks must not be nested");
        }
        match eval_at_exec(operand_text_exec(l), &env, *pc) {
            Some(v) => {
                *in_cond = true;
                *cond = v != 0;
                Ok(())
            },
            None => Err("Invalid expression"),
        }
    } else if holds_exec(l, " EQU ").is_some() || eq_str(w, "END") || n == 0 {
        Ok(())
    } else if let Some(k) = holds_exec(l, " SET ") {
        match eval_at_exec(l.substring_char(k + 5, n), &env, *pc) {
            Some(v) => {
                set_bind_exec(sets, l.substring_char(0, k), v);
                Ok(())
            },
            None => Err("Invalid expression"),
        }
    } else if eq_str(w, "ORG") {
        match eval_at_exec(operand_text_exec(l), &env, *pc) {
            Some(v) => {
                let ghost before = string_views(out@);
                let text = String::from_str("ORG ").concat(dec_string(v).as_str());
                out.push(text);
                assert(string_views(out@) =~= before.push("ORG "@ + dec_digits(v as nat)));
                *pc = v;
                Ok(())
            },
            None => Err("Invalid expression"),
        }
    } else {
        let d = dec_string(*pc);
        let text = substitute(l, &env, d.as_str());
        let ghost before = string_views(out@);
        out.push(text);
        assert(string_views(out@) =~= before.push(text@));
        *pc = ((*pc as u32 + get_byte_amount_of_line(l) as u32) % 0x10000) as u16;
        Ok(())
    }
}

proof fn lemma_pre_pass_err(lines: Seq<Seq<char>>, base: TextEnv, n: int)
    requires
        0 <= n <= lines.len(),
        pre_pass(lines.take(n), base) is Err,
    ensures
        pre_pass(lines, base) == pre_pass(lines.take(n), base),
    decreases lines.len() - n,
{
    if n < lines.len() {
        assert(lines.take(n + 1).drop_last() =~= lines.take(n));
        lemma_pre_pass_err(lines, base, n + 1);
    } else {
        assert(lines.take(n) =~= lines);
    }
}

/// The output of the final pass, unless an IF is left open.
pub open spec fn finish_pre(r: Result<PreState, Seq<char>>) -> Result<Seq<Seq<char>>, Seq<char>> {
    match r {
        Err(e) => Err(e),
        Ok(st) => if st.3 {
            Err("Every IF must be closed"@)
        } else {
            Ok(st.0)
        },
    }
}

/// The program after all preprocessing: one entry per line to encode.
#[verifier::opaque]
pub open spec fn preprocessed(code: Seq<Seq<char>>) -> Result<Seq<Seq<char>>, Seq<char>> {
    if !correct_end(Seq::new(code.len(), |i: int| strip_comment(code[i]))) {
        Err("A program must only contain one END statement and it has to be the last"@)
    } else {
        match expanded(Seq::new(code.len(), |i: int| strip_comment(code[i]))) {
            Err(e) => Err(e),
            Ok(x) => match equ_pass(x) {
                Err(e) => Err(e),
                Ok(equs) => match labels_of(x) {
                    Err(e) => Err(e),
                    Ok(labels) => finish_pre(pre_pass(x, sym_env(labels) + sym_env(equs))),
                },
            },
        }
    }
}

/// Runs the preprocessor: comments, END rule, macros, EQU, labels, SET, IF and `$`.
pub fn get_preprocessed_code(code: &Vec<String>) -> (r: Result<Vec<String>, &'static str>)
    ensures
        match preprocessed(string_views(code@)) {
            Ok(ls) => r is Ok && string_views(r->Ok_0@) == ls,
            Err(e) => r is Err && r->Err_0@ == e,
        },
{
    proof {
        reveal(preprocessed);
    }
    let commentless = get_commentless_code(code);
    assert(string_views(commentless@) =~= Seq::new(string_views(code@).len(), |i: int| strip_comment(string_views(code@)[i])));
    if !has_correct_end(&commentless) {
        return Err("A program must only contain one END statement and it has to be the last");
    }
    let lines = replace_macros(&commentless)?;
    let equs = get_equate_assignments(&lines)?;
    let labels = get_labels(&lines)?;
    let mut base: Vec<(String, String)> = Vec::new();
    assert(text_env_views(base@) =~= Seq::<(Seq<char>, Seq<char>)>::empty());
    sym_env_exec(&labels, &mut base);
    sym_env_exec(&equs, &mut base);
    let ghost bv = text_env_views(base@);
    assert(bv =~= sym_env(symbol_views(labels@)) + sym_env(symbol_views(equs@)));
    let ghost xs = string_views(lines@);
    let mut out: Vec<String> = Vec::new();
    let mut sets: Vec<(String, u16)> = Vec::new();
    let mut pc: u16 = 0;
    let mut in_cond = false;
    let mut cond = false;
    assert(string_views(out@) =~= Seq::<Seq<char>>::empty());
    assert(symbol_views(sets@) =~= Seq::<(Seq<char>, u16)>::empty());
    assert(xs.take(0) =~= Seq::<Seq<char>>::empty());
    let mut i: usize = 0;
    assert(preprocessed(string_views(code@)) == finish_pre(pre_pass(xs, bv)));
    while i < lines.len()
        invariant
            i <= lines@.len(),
            xs == string_views(lines@),
            bv == text_env_views(base@),
            preprocessed(string_views(code@)) == finish_pre(pre_pass(xs, bv)),
            pre_pass(xs.take(i as int), bv) == Ok::<PreState, Seq<char>>(pre_views(out@, sets@, pc, in_cond, cond)),
        decreases lines@.len() - i,
    {
        proof {
            assert(xs.take(i as int + 1).drop_last() =~= xs.take(i as int));
            assert(xs.take(i as int + 1).last() == lines@[i as int]@);
        }
        let ghost st = pre_views(out@, sets@, pc, in_cond, cond);
        let r = pre_step_exec(&mut out, &mut sets, &mut pc, &mut in_cond, &mut cond, lines[i].as_str(), &base);
        if let Err(e) = r {
            proof {
                assert(pre_step(st, xs[i as int], bv) == Err::<PreState, Seq<char>>(e@));
                assert(pre_pass(xs.take(i as int + 1), bv) == Err::<PreState, Seq<char>>(e@));
                lemma_pre_pass_err(xs, bv, i as int + 1);
                assert(pre_pass(xs, bv) == Err::<PreState, Seq<char>>(e@));
            }
            return Err(e);
        }
        i = i + 1;
    }
    proof {
        assert(xs.take(lines@.len() as int) =~= xs);
    }
    if in_cond {
        return Err("Every IF must be closed");
    }
    Ok(out)
}

/// Entries mapping `n` bytes from `byte` on to `line`.
pub open spec fn byte_entries(byte: u16, n: u16, line: int) -> Seq<(u16, int)> {
    Seq::new(n as nat, |k: int| (wrap16(byte + k), line))
}

/// A line without one leading label declaration, trimmed.
pub open spec fn unlabelled(l: Seq<char>) -> Seq<char> {
    trim(l.subrange(label_end(l), l.len() as int))
}

/// Byte map of a macro body whose first line is source line `first`.
pub open spec fn body_map(body: Seq<Seq<char>>, first: int) -> (Seq<(u16, int)>, u16)
    decreases body.len(),
{
    if body.len() == 0 {
        (Seq::empty(), 0)
    } else {
        let (m, b) = body_map(body.drop_last(), first);
        let n = byte_amount(unlabelled(body.last()));
        (m + byte_entries(b, n, first + body.len() - 1), wrap16(b + n))
    }
}

/// First line at or after `j` that reads `ENDM` once its comment is gone.
pub open spec fn body_end(lines: Seq<Seq<char>>, j: int) -> int
    decreases lines.len() - j,
{
    if 0 <= j < lines.len() && trim(strip_comment(lines[j])) != "ENDM"@ {
        body_end(lines, j + 1)
    } else {
        j
    }
}

pub open spec fn find_local_map(maps: Seq<(Seq<char>, Seq<(u16, int)>)>, name: Seq<char>, k: int) -> Option<Seq<(u16, int)>>
    decreases maps.len() - k,
{
    if k < 0 || k >= maps.len() {
        None
    } else if maps[k].0 == name {
        Some(maps[k].1)
    } else {
        find_local_map(maps, name, k + 1)
    }
}

/// Map so far, macro maps, byte position, inside a macro definition, inside an unmet IF.
pub type MapState = (Seq<(u16, int)>, Seq<(Seq<char>, Seq<(u16, int)>)>, u16, bool, bool);

#[verifier::opaque]
pub open spec fn map_step(st: MapState, lines: Seq<Seq<char>>, i: int) -> Result<MapState, Seq<char>> {
    let (map, macros, byte, in_macro, unmet) = st;
    let l = unlabelled(lines[i]);
    if holds(l, "ENDM"@) {
        Ok((map, macros, byte, false, unmet))
    } else if holds(l, "ENDIF"@) {
        Ok((map, macros, byte, in_macro, false))
    } else if in_macro || unmet {
        Ok(st)
    } else {
        let cond = if holds(l, "IF "@) {
            match expr_value(operand_text(l)) {
                Some(v) => Ok(v == 0),
                None => Err("Invalid expression"@),
            }
        } else {
            Ok(false)
        };
        match cond {
            Err(e) => Err(e),
            Ok(now_unmet) => if holds(l, " MACRO"@) {
                let name = first_word(l);
                let local = body_map(lines.subrange(i + 1, body_end(lines, i + 1)), i + 1).0;
                Ok((map, macros.push((name, local)), byte, true, now_unmet))
            } else {
                match find_local_map(macros, first_word(l), 0) {
                    Some(local) => Ok((
                        map + Seq::new(local.len(), |k: int| (wrap16(local[k].0 + byte), local[k].1)),
                        macros,
                        wrap16(byte + local.len()),
                        false,
                        now_unmet,
                    )),
                    None => Ok((map + byte_entries(byte, byte_amount(l), i), macros, wrap16(byte + byte_amount(l)), false, now_unmet)),
                }
            },
        }
    }
}

pub open spec fn map_pass(lines: Seq<Seq<char>>, n: int) -> Result<MapState, Seq<char>>
    decreases n,
{
    if n <= 0 {
        Ok((Seq::empty(), Seq::empty(), 0, false, false))
    } else {
        match map_pass(lines, n - 1) {
            Ok(st) => map_step(st, lines, n - 1),
            Err(e) => Err(e),
        }
    }
}

pub open spec fn map_views(v: Seq<(u16, usize)>) -> Seq<(u16, int)> {
    Seq::new(v.len(), |i: int| (v[i].0, v[i].1 as int))
}

fn push_entries(map: &mut Vec<(u16, usize)>, byte: u16, n: u16, line: usize)
    ensures
        map_views(final(map)@) == map_views(old(map)@) + byte_entries(byte, n, line as int),
{
    let ghost start = map_views(map@);
    let mut k: u16 = 0;
    while k < n
        invariant
            k <= n,
            map_views(map@) == start + byte_entries(byte, n, line as int).take(k as int),
        decreases n - k,
    {
        let ghost before = map_views(map@);
        map.push((((byte as u32 + k as u32) % 0x10000) as u16, line));
        assert(byte_entries(byte, n, line as int).take(k as int + 1) =~= byte_entries(byte, n, line as int).take(k as int).push(byte_entries(byte, n, line as int)[k as int]));
        assert(map_views(map@) =~= before.push((wrap16(byte + k), line as int)));
        k = k + 1;
    }
    assert(byte_entries(byte, n, line as int).take(n as int) =~= byte_entries(byte, n, line as int));
}

fn unlabelled_exec(l: &str) -> (r: &str)
    ensures
        r@ == unlabelled(l@),
{
    let le = label_end_exec(l);
    trim_str(l.substring_char(le, l.unicode_len()))
}

fn body_map_exec(code: &Vec<String>, from: usize, to: usize) -> (r: Vec<(u16, usize)>)
    requires
        from <= to <= code@.len(),
    ensures
        map_views(r@) == body_map(string_views(code@).subrange(from as int, to as int), from as int).0,
{
    let ghost body = string_views(code@).subrange(from as int, to as int);
    let mut out: Vec<(u16, usize)> = Vec::new();
    let mut b: u16 = 0;
    let mut k: usize = from;
    assert(map_views(out@) =~= Seq::<(u16, int)>::empty());
    assert(body.take(0) =~= Seq::<Seq<char>>::empty());
    while k < to
        invariant
            from <= k <= to <= code@.len(),
            body == string_views(code@).subrange(from as int, to as int),
            body_map(body.take(k - from), from as int) == (map_views(out@), b),
        decreases to - k,
    {
        proof {
            assert(body.take(k - from + 1).drop_last() =~= body.take(k - from));
            assert(body.take(k - from + 1).last() == code@[k as int]@);
        }
        let n = get_byte_amount_of_line(unlabelled_exec(code[k].as_str()));
        push_entries(&mut out, b, n, k);
        b = ((b as u32 + n as u32) % 0x10000) as u16;
        k = k + 1;
    }
    assert(body.take(to - from) =~= body);
    out
}

fn body_end_exec(code: &Vec<String>, j: usize) -> (e: usize)
    requires
        j <= code@.len(),
    ensures
        e as int == body_end(string_views(code@), j as int),
        j <= e <= code@.len(),
{
    let mut e = j;
    while e < code.len() && !eq_str(trim_str(uncomment(code[e].as_str()).as_str()), "ENDM")
        invariant
            j <= e <= code@.len(),
            body_end(string_views(code@), e as int) == body_end(string_views(code@), j as int),
        decreases code@.len() - e,
    {
        e = e + 1;
    }
    e
}

fn find_local_exec(names: &Vec<String>, name: &str) -> (r: Option<usize>)
    ensures
        match r {
            Some(k) => k < names@.len() && names@[k as int]@ == name@ && forall|m: int| 0 <= m < k ==> names@[m]@ != name@,
            None => forall|m: int| 0 <= m < names@.len() ==> names@[m]@ != name@,
        },
{
    let mut k: usize = 0;
    while k < names.len()
        invariant
            k <= names@.len(),
            forall|m: int| 0 <= m < k ==> names@[m]@ != name@,
        decreases names@.len() - k,
    {
        if eq_str(names[k].as_str(), name) {
            return Some(k);
        }
        k = k + 1;
    }
    None
}

proof fn lemma_find_local(maps: Seq<(Seq<char>, Seq<(u16, int)>)>, name: Seq<char>, k: int, r: Option<int>)
    requires
        0 <= k <= maps.len(),
        forall|m: int| k <= m < maps.len() && (r is None || m < r->Some_0) ==> maps[m].0 != name,
        r is Some ==> k <= r->Some_0 < maps.len() && maps[r->Some_0].0 == name,
    ensures
        find_local_map(maps, name, k) == match r {
            Some(j) => Some(maps[j].1),
            None => None::<Seq<(u16, int)>>,
        },
    decreases maps.len() - k,
{
    if k < maps.len() && !(r is Some && r->Some_0 == k) {
        lemma_find_local(maps, name, k + 1, r);
    }
}

proof fn lemma_map_pass_err(lines: Seq<Seq<char>>, n: int, m: int)
    requires
        0 <= n <= m,
        map_pass(lines, n) is Err,
    ensures
        map_pass(lines, m) == map_pass(lines, n),
    decreases m - n,
{
    if n < m {
        lemma_map_pass_err(lines, n, m - 1);
    }
}

/// For every byte the program emits, the source line it comes from.
pub fn get_line_map(code: &Vec<String>) -> (r: Result<Vec<(u16, usize)>, &'static str>)
    ensures
        match map_pass(string_views(code@), code@.len() as int) {
            Ok(st) => r is Ok && map_views(r->Ok_0@) == st.0,
            Err(e) => r is Err && r->Err_0@ == e,
        },
{
    let ghost lines = string_views(code@);
    let mut map: Vec<(u16, usize)> = Vec::new();
    let mut names: Vec<String> = Vec::new();
    let mut locals: Vec<Vec<(u16, usize)>> = Vec::new();
    let mut byte: u16 = 0;
    let mut in_macro = false;
    let mut unmet = false;
    let mut i: usize = 0;
    assert(map_views(map@) =~= Seq::<(u16, int)>::empty());
    assert(Seq::new(names@.len(), |k: int| (names@[k]@, map_views(locals@[k]@))) =~= Seq::<(Seq<char>, Seq<(u16, int)>)>::empty());
    while i < code.len()
        invariant
            i <= code@.len(),
            lines == string_views(code@),
            names@.len() == locals@.len(),
            map_pass(lines, i as int) == Ok::<MapState, Seq<char>>((
                map_views(map@),
                Seq::new(names@.len(), |k: int| (names@[k]@, map_views(locals@[k]@))),
                byte,
                in_macro,
                unmet,
            )),
        decreases code@.len() - i,
    {
        proof {
            reveal(map_step);
            reveal_strlit("ENDM");
            reveal_strlit("ENDIF");
            reveal_strlit("IF ");
            reveal_strlit(" MACRO");
        }
        let ghost macros_v = Seq::new(names@.len(), |k: int| (names@[k]@, map_views(locals@[k]@)));
        let l = unlabelled_exec(code[i].as_str());
        if holds_exec(l, "ENDM").is_some() {
            in_macro = false;
        } else if holds_exec(l, "ENDIF").is_some() {
            unmet = false;
        } else if in_macro || unmet {
        } else {
            let now_unmet = if holds_exec(l, "IF ").is_some() {
                match eval_operand(operand_text_exec(l)) {
                    Ok(v) => v == 0,
                    Err(e) => {
                        proof {
                            lemma_map_pass_err(lines, i as int + 1, code@.len() as int);
                        }
                        return Err(e);
                    },
                }
            } else {
                false
            };
            if holds_exec(l, " MACRO").is_some() {
                let e = body_end_exec(code, i + 1);
                let local = body_map_exec(code, i + 1, e);
                names.push(String::from_str(first_word_exec(l)));
                locals.push(local);
                assert(Seq::new(names@.len(), |k: int| (names@[k]@, map_views(locals@[k]@))) =~= macros_v.push((first_word(l@), map_views(locals@.last()@))));
                in_macro = true;
                unmet = now_unmet;
            } else {
                let w = first_word_exec(l);
                match find_local_exec(&names, w) {
                    Some(k) => {
                        proof {
                            lemma_find_local(macros_v, w@, 0, Some(k as int));
                        }
                        let local = &locals[k];
                        let ghost start = map_views(map@);
                        let ghost lv = map_views(local@);
                        let mut m: usize = 0;
                        while m < local.len()
                            invariant
                                m <= local@.len(),
                                lv == map_views(local@),
                                map_views(map@) == start + Seq::new(lv.len(), |q: int| (wrap16(lv[q].0 + byte), lv[q].1)).take(m as int),
                            decreases local@.len() - m,
                        {
                            let ghost before = map_views(map@);
                            map.push((((local[m].0 as u32 + byte as u32) % 0x10000) as u16, local[m].1));
                            assert(map_views(map@) =~= before.push((wrap16(lv[m as int].0 + byte), lv[m as int].1)));
                            assert(Seq::new(lv.len(), |q: int| (wrap16(lv[q].0 + byte), lv[q].1)).take(m as int + 1) =~= Seq::new(lv.len(), |q: int| (wrap16(lv[q].0 + byte), lv[q].1)).take(m as int).push((wrap16(lv[m as int].0 + byte), lv[m as int].1)));
                            m = m + 1;
                        }
                        assert(Seq::new(lv.len(), |q: int| (wrap16(lv[q].0 + byte), lv[q].1)).take(local@.len() as int) =~= Seq::new(lv.len(), |q: int| (wrap16(lv[q].0 + byte), lv[q].1)));
                        let len16 = (local.len() % 0x10000) as u32;
                        proof {
                            vstd::arithmetic::div_mod::lemma_add_mod_noop(byte as int, local@.len() as int, 0x10000);
                            vstd::arithmetic::div_mod::lemma_small_mod(byte as nat, 0x10000);
                        }
                        byte = ((byte as u32 + len16) % 0x10000) as u16;
                    },
                    None => {
                        proof {
                            lemma_find_local(macros_v, w@, 0, None);
                        }
                        let n = get_byte_amount_of_line(l);
                        push_entries(&mut map, byte, n, i);
                        byte = ((byte as u32 + n as u32) % 0x10000) as u16;
                    },
                }
                in_macro = false;
                unmet = now_unmet;
            }
        }
        i = i + 1;
    }
    Ok(map)
}

} // verus!
