use vstd::prelude::*;
use crate::assembler::{all_registers_encoding, encode_args, encode_line, fields, ident_end, label_end, mov_encoding, reg_index, spaces_end};
use crate::disassembler::{decode_at, rst_digit, acc_name, alu_name, cond_name, hex_char, hex_digits, hex_text, imm_name, reg_name, shape};
use crate::expr::{at, digit_val, digits_value, eval_spec, hex_run_end, is_hex_digit, lex, lex_keyword, lex_number, lex_one, parse_digits, run, finish, feed, Token};
use crate::assembler::{addr_bytes, addr_op, bd_encoding, rst_encoding, expr_value, imm_op, low16, low8, lxi_encoding, mvi_encoding, no_arg_op, pair_encoding, pair_index};
use crate::text::{find_from, first_non_ws, last_non_ws, split, split_from, trim, trim_start};

verus! {

#[verifier::rlimit(100)]
proof fn lemma_reg_name(i: int)
    requires
        0 <= i < 8,
    ensures
        reg_name(i).len() == 1,
        reg_index(reg_name(i)) == Some(i as u8),
        reg_name(i)[0] != ' ' && reg_name(i)[0] != ',' && reg_name(i)[0] != ':',
        !(reg_name(i)[0] == '\t' || reg_name(i)[0] == '\r' || reg_name(i)[0] == '\n'),
{
    reveal_strlit("B");
    reveal_strlit("C");
    reveal_strlit("D");
    reveal_strlit("E");
    reveal_strlit("H");
    reveal_strlit("L");
    reveal_strlit("M");
    reveal_strlit("A");
    let names = seq!["B"@, "C"@, "D"@, "E"@, "H"@, "L"@, "M"@, "A"@];
    assert(names[0][0] == 'B' && names[1][0] == 'C' && names[2][0] == 'D' && names[3][0] == 'E');
    assert(names[4][0] == 'H' && names[5][0] == 'L' && names[6][0] == 'M' && names[7][0] == 'A');
    assert(reg_name(i) == names[i]);
    assert forall|k: int| 0 <= k < 8 && k != i implies names[k] != names[i] by {
        assert(names[k][0] != names[i][0]);
    }
}

/// The text the disassembler gives a MOV assembles back to the same opcode.
#[verifier::rlimit(100)]
pub proof fn lemma_mov_round_trip(op: u8)
    requires
        0x40 <= op < 0x80,
        op != 0x76,
    ensures
        match shape(op) {
            Some((t, n)) => n == 0 && encode_line(t) == Ok::<Seq<u8>, Seq<char>>(seq![op]),
            None => false,
        },
{
    let d = op as int / 8 - 8;
    let c = op as int % 8;
    lemma_reg_name(d);
    lemma_reg_name(c);
    reveal_strlit("MOV ");
    reveal_strlit(",");
    reveal_strlit("MOV");
    let t = (("MOV "@ + reg_name(d)) + ","@) + reg_name(c);
    assert(shape(op) == Some((t, 0int)));
    assert(t.len() == 7);
    assert(t[0] == 'M' && t[1] == 'O' && t[2] == 'V' && t[3] == ' ' && t[4] == reg_name(d)[0] && t[5] == ',' && t[6] == reg_name(c)[0]);
    reveal_with_fuel(spaces_end, 2);
    reveal_with_fuel(ident_end, 5);
    assert(spaces_end(t, 0) == 0);
    assert(ident_end(t, 0) == 3);
    assert(label_end(t) == 0);
    assert(t.subrange(0, 7) =~= t);
    reveal_with_fuel(first_non_ws, 2);
    assert(first_non_ws(t, 0) == 0);
    assert(trim_start(t) =~= t);
    reveal_with_fuel(find_from, 5);
    assert(find_from(t, ' ', 0) == 3);
    let suffix = t.subrange(4, 7);
    assert(suffix =~= seq![reg_name(d)[0], ',', reg_name(c)[0]]);
    assert(find_from(suffix, ',', 0) == 1);
    assert(find_from(suffix, ',', 2) == 3);
    reveal_with_fuel(split_from, 3);
    assert(split(suffix, ',') =~= seq![suffix.subrange(0, 1), suffix.subrange(2, 3)]);
    assert(suffix.subrange(0, 1) =~= reg_name(d));
    assert(suffix.subrange(2, 3) =~= reg_name(c));
    reveal_with_fuel(last_non_ws, 2);
    assert(trim(reg_name(d)) =~= reg_name(d));
    assert(trim(reg_name(c)) =~= reg_name(c));
    assert(fields(suffix) =~= seq![reg_name(d), reg_name(c)]);
    assert(t.subrange(0, 3) =~= "MOV"@);
    reveal(encode_line);
    reveal(encode_args);
    assert(encode_args("MOV"@, seq![reg_name(d), reg_name(c)]) == mov_encoding(seq![reg_name(d), reg_name(c)]));
}

/// The text the disassembler gives a register-operand accumulator
/// instruction (ADD to CMP) assembles back to the same opcode.
#[verifier::rlimit(100)]
pub proof fn lemma_alu_round_trip(op: u8)
    requires
        0x80 <= op < 0xC0,
    ensures
        match shape(op) {
            Some((t, n)) => n == 0 && encode_line(t) == Ok::<Seq<u8>, Seq<char>>(seq![op]),
            None => false,
        },
{
    let g = op as int / 8 - 16;
    let c = op as int % 8;
    lemma_reg_name(c);
    reveal_strlit(" ");
    reveal_strlit("ADD");
    reveal_strlit("ADC");
    reveal_strlit("SUB");
    reveal_strlit("SBB");
    reveal_strlit("ANA");
    reveal_strlit("XRA");
    reveal_strlit("ORA");
    reveal_strlit("CMP");
    reveal_strlit("MOV");
    reveal_strlit("STAX");
    reveal_strlit("LDAX");
    reveal_strlit("INR");
    reveal_strlit("DCR");
    let m = alu_name(g);
    let t = (m + " "@) + reg_name(c);
    assert(shape(op) == Some((t, 0int)));
    assert(m.len() == 3);
    assert(t.len() == 5);
    assert(t[3] == ' ' && t[4] == reg_name(c)[0]);
    assert('A' <= t[0] <= 'Z' && 'A' <= t[1] <= 'Z' && 'A' <= t[2] <= 'Z');
    reveal_with_fuel(spaces_end, 2);
    reveal_with_fuel(ident_end, 5);
    assert(spaces_end(t, 0) == 0);
    assert(ident_end(t, 0) == 3);
    assert(label_end(t) == 0);
    assert(t.subrange(0, 5) =~= t);
    reveal_with_fuel(first_non_ws, 2);
    assert(first_non_ws(t, 0) == 0);
    assert(trim_start(t) =~= t);
    reveal_with_fuel(find_from, 5);
    assert(find_from(t, ' ', 0) == 3);
    let suffix = t.subrange(4, 5);
    assert(suffix =~= reg_name(c));
    assert(find_from(suffix, ',', 0) == 1);
    reveal_with_fuel(split_from, 2);
    assert(suffix.len() == 1);
    assert(suffix.subrange(0, 1) =~= suffix);
    assert(split_from(suffix, ',', 0) == seq![suffix.subrange(0, 1)]);
    assert(split(suffix, ',') =~= seq![suffix]);
    reveal_with_fuel(last_non_ws, 2);
    assert(trim(reg_name(c)) =~= reg_name(c));
    assert(fields(suffix) =~= seq![reg_name(c)]);
    assert(t.subrange(0, 3) =~= m);
    reveal(encode_line);
    reveal(encode_args);
    let base: u8 = (0x80 + 8 * g) as u8;
    assert(encode_args(m, seq![reg_name(c)]) == all_registers_encoding(seq![reg_name(c)], base, false));
}

/// The text the disassembler gives an INR or DCR assembles back to the same opcode.
#[verifier::rlimit(100)]
pub proof fn lemma_inr_dcr_round_trip(op: u8)
    requires
        op < 0x40,
        op % 8 == 4 || op % 8 == 5,
    ensures
        match shape(op) {
            Some((t, n)) => n == 0 && encode_line(t) == Ok::<Seq<u8>, Seq<char>>(seq![op]),
            None => false,
        },
{
    let r = op as int / 8;
    lemma_reg_name(r);
    reveal_strlit("INR ");
    reveal_strlit("DCR ");
    reveal_strlit("INR");
    reveal_strlit("DCR");
    reveal_strlit("MOV");
    reveal_strlit("STAX");
    reveal_strlit("LDAX");
    let p = if op % 8 == 4 { "INR "@ } else { "DCR "@ };
    let m = if op % 8 == 4 { "INR"@ } else { "DCR"@ };
    let t = p + reg_name(r);
    assert(shape(op) == Some((t, 0int)));
    assert(t.len() == 5);
    assert(t[3] == ' ' && t[4] == reg_name(r)[0]);
    reveal_with_fuel(spaces_end, 2);
    reveal_with_fuel(ident_end, 5);
    assert(spaces_end(t, 0) == 0);
    assert(ident_end(t, 0) == 3);
    assert(label_end(t) == 0);
    assert(t.subrange(0, 5) =~= t);
    reveal_with_fuel(first_non_ws, 2);
    assert(first_non_ws(t, 0) == 0);
    assert(trim_start(t) =~= t);
    reveal_with_fuel(find_from, 5);
    assert(find_from(t, ' ', 0) == 3);
    let suffix = t.subrange(4, 5);
    assert(suffix =~= reg_name(r));
    assert(find_from(suffix, ',', 0) == 1);
    reveal_with_fuel(split_from, 2);
    assert(suffix.subrange(0, 1) =~= suffix);
    assert(split_from(suffix, ',', 0) == seq![suffix.subrange(0, 1)]);
    assert(split(suffix, ',') =~= seq![suffix]);
    reveal_with_fuel(last_non_ws, 2);
    assert(trim(reg_name(r)) =~= reg_name(r));
    assert(fields(suffix) =~= seq![reg_name(r)]);
    assert(t.subrange(0, 3) =~= m);
    reveal(encode_line);
    reveal(encode_args);
    let base: u8 = if op % 8 == 4 { 4 } else { 5 };
    assert(encode_args(m, seq![reg_name(r)]) == all_registers_encoding(seq![reg_name(r)], base, true));
}

#[verifier::rlimit(100)]
proof fn lemma_hex_char(d: int)
    requires
        0 <= d < 16,
    ensures
        digit_val(hex_char(d)) == d,
        ('0' <= hex_char(d) <= '9') || ('a' <= hex_char(d) <= 'f'),
        is_hex_digit(hex_char(d)),
{
}

#[verifier::rlimit(100)]
proof fn lemma_hex_digits(n: nat)
    ensures
        hex_digits(n).len() >= 1,
        forall|k: int| 0 <= k < hex_digits(n).len() ==> is_hex_digit(#[trigger] hex_digits(n)[k])
            && (('0' <= hex_digits(n)[k] <= '9') || ('a' <= hex_digits(n)[k] <= 'f')),
        digits_value(hex_digits(n), 16) == n,
    decreases n,
{
    if n >= 16 {
        lemma_hex_digits(n / 16);
        lemma_hex_char((n % 16) as int);
        let ds = hex_digits(n / 16);
        assert(hex_digits(n) == ds.push(hex_char((n % 16) as int)));
        assert(hex_digits(n).drop_last() =~= ds);
        assert(hex_digits(n).last() == hex_char((n % 16) as int));
        assert(digits_value(hex_digits(n), 16) == digits_value(hex_digits(n).drop_last(), 16) * 16 + digit_val(hex_digits(n).last()));
        assert(digits_value(hex_digits(n), 16) == (n / 16) as int * 16 + (n % 16) as int);
    } else {
        lemma_hex_char(n as int);
        assert(hex_digits(n) == seq![hex_char(n as int)]);
        assert(hex_digits(n).drop_last() =~= Seq::<char>::empty());
        assert(hex_digits(n).last() == hex_char(n as int));
        assert(digits_value(Seq::<char>::empty(), 16) == 0);
        assert(digits_value(hex_digits(n), 16) == digits_value(hex_digits(n).drop_last(), 16) * 16 + digit_val(hex_digits(n).last()));
    }
}

#[verifier::rlimit(100)]
proof fn lemma_leading_zero(ds: Seq<char>, r: int)
    ensures
        digits_value(seq!['0'] + ds, r) == digits_value(ds, r),
    decreases ds.len(),
{
    assert(digit_val('0') == 0);
    if ds.len() == 0 {
        assert((seq!['0'] + ds) =~= seq!['0']);
        assert(seq!['0'].drop_last() =~= Seq::<char>::empty());
        assert(seq!['0'].last() == '0');
        assert(digits_value(Seq::<char>::empty(), r) == 0);
        assert(digits_value(seq!['0'], r) == digits_value(seq!['0'].drop_last(), r) * r + digit_val('0'));
    } else {
        lemma_leading_zero(ds.drop_last(), r);
        assert((seq!['0'] + ds).drop_last() =~= seq!['0'] + ds.drop_last());
        assert((seq!['0'] + ds).last() == ds.last());
        assert(digits_value(seq!['0'] + ds, r) == digits_value((seq!['0'] + ds).drop_last(), r) * r + digit_val((seq!['0'] + ds).last()));
        assert(digits_value(ds, r) == digits_value(ds.drop_last(), r) * r + digit_val(ds.last()));
    }
}

#[verifier::rlimit(100)]
proof fn lemma_run_end(s: Seq<char>, i: int, e: int)
    requires
        0 <= i <= e < s.len(),
        forall|k: int| i <= k < e ==> is_hex_digit(#[trigger] s[k]),
        !is_hex_digit(s[e]),
    ensures
        hex_run_end(s, i) == e,
    decreases e - i,
{
    if i < e {
        lemma_run_end(s, i + 1, e);
    }
}

/// The evaluator reads the disassembler's hex rendering of `n` back as `n`.
#[verifier::rlimit(100)]
pub proof fn lemma_hex_value(n: nat)
    requires
        n < 0x10000,
    ensures
        expr_value(hex_text(n)) == Some(n as i32),
{
    lemma_hex_digits(n);
    let ds = hex_digits(n);
    let lead = 'a' <= ds[0];
    let run_s = if lead { seq!['0'] + ds } else { ds };
    let s = hex_text(n);
    assert(s =~= run_s + seq!['H']);
    if lead {
        lemma_leading_zero(ds, 16);
    }
    assert(forall|k: int| 0 <= k < run_s.len() ==> is_hex_digit(#[trigger] run_s[k]));
    assert(forall|k: int| 0 <= k < run_s.len() ==> s[k] == run_s[k]);
    assert(s[run_s.len() as int] == 'H');
    lemma_run_end(s, 0, run_s.len() as int);
    assert(s.subrange(0, run_s.len() as int) =~= run_s);
    assert(forall|k: int| 0 <= k < run_s.len() ==> digit_val(#[trigger] run_s[k]) < 16);
    assert(digits_value(run_s, 16) == n);
    assert(parse_digits(run_s, 16) == Some(n as i32));
    assert(lex_number(s, 0) == Some((n as i32, s.len() as int)));
    assert('0' <= s[0] <= '9');
    reveal_strlit("XOR");
    reveal_strlit("AND");
    reveal_strlit("OR");
    reveal_strlit("SHL");
    reveal_strlit("SHR");
    reveal_strlit("MOD");
    reveal_strlit("NOT");
    assert(!at(s, 0, "XOR"@)) by {
        if at(s, 0, "XOR"@) {
            assert(s.subrange(0, 3)[0] == s[0]);
        }
    }
    assert(!at(s, 0, "AND"@)) by {
        if at(s, 0, "AND"@) {
            assert(s.subrange(0, 3)[0] == s[0]);
        }
    }
    assert(!at(s, 0, "OR"@)) by {
        if at(s, 0, "OR"@) {
            assert(s.subrange(0, 2)[0] == s[0]);
        }
    }
    assert(!at(s, 0, "SHL"@)) by {
        if at(s, 0, "SHL"@) {
            assert(s.subrange(0, 3)[0] == s[0]);
        }
    }
    assert(!at(s, 0, "SHR"@)) by {
        if at(s, 0, "SHR"@) {
            assert(s.subrange(0, 3)[0] == s[0]);
        }
    }
    assert(!at(s, 0, "MOD"@)) by {
        if at(s, 0, "MOD"@) {
            assert(s.subrange(0, 3)[0] == s[0]);
        }
    }
    assert(!at(s, 0, "NOT"@)) by {
        if at(s, 0, "NOT"@) {
            assert(s.subrange(0, 3)[0] == s[0]);
        }
    }
    assert(lex_keyword(s, 0) is None);
    assert(lex_one(s, 0, None) == Ok::<(Token, int), Seq<char>>((Token::Number(n as i32), s.len() as int)));
    assert(lex(s, s.len() as int, Some(Token::Number(n as i32))) == Ok::<Seq<Token>, Seq<char>>(Seq::empty()));
    assert(lex(s, 0, None) == Ok::<Seq<Token>, Seq<char>>(seq![Token::Number(n as i32)] + Seq::empty()));
    assert(seq![Token::Number(n as i32)] + Seq::<Token>::empty() =~= seq![Token::Number(n as i32)]);
    let ts = seq![Token::Number(n as i32)];
    assert(ts.drop_last() =~= Seq::<Token>::empty());
    assert(ts.last() == Token::Number(n as i32));
    assert(run(Seq::<Token>::empty()) == Ok::<(Seq<Token>, Seq<i32>), Seq<char>>((Seq::empty(), Seq::empty())));
    assert(run(ts) == feed((Seq::empty(), Seq::empty()), Token::Number(n as i32)));
    assert(eval_spec(ts) == Ok::<i32, Seq<char>>(n as i32));
}

#[verifier::rlimit(100)]
proof fn lemma_no_char(s: Seq<char>, c: char, i: int)
    requires
        0 <= i <= s.len(),
        forall|k: int| i <= k < s.len() ==> #[trigger] s[k] != c,
    ensures
        find_from(s, c, i) == s.len(),
    decreases s.len() - i,
{
    if i < s.len() {
        lemma_no_char(s, c, i + 1);
    }
}

/// The disassembler's text for MVI with any byte assembles back to the same two bytes.
#[verifier::rlimit(100)]
pub proof fn lemma_mvi_round_trip(op: u8, b: u8)
    requires
        op < 0x40,
        op % 8 == 6,
    ensures
        match shape(op) {
            Some((p, n)) => n == 1 && encode_line(p + hex_text(b as nat)) == Ok::<Seq<u8>, Seq<char>>(seq![op, b]),
            None => false,
        },
{
    let r = op as int / 8;
    lemma_reg_name(r);
    lemma_hex_value(b as nat);
    lemma_hex_digits(b as nat);
    reveal_strlit("MVI ");
    reveal_strlit(",");
    reveal_strlit("MVI");
    reveal_strlit("MOV");
    reveal_strlit("STAX");
    reveal_strlit("LDAX");
    reveal_strlit("INR");
    reveal_strlit("DCR");
    reveal_strlit("ADD");
    reveal_strlit("ADC");
    reveal_strlit("SUB");
    reveal_strlit("SBB");
    reveal_strlit("ANA");
    reveal_strlit("XRA");
    reveal_strlit("ORA");
    reveal_strlit("CMP");
    reveal_strlit("INX");
    reveal_strlit("DAD");
    reveal_strlit("DCX");
    reveal_strlit("POP");
    reveal_strlit("PUSH");
    reveal_strlit("LXI");
    let p = ("MVI "@ + reg_name(r)) + ","@;
    assert(shape(op) == Some((p, 1int)));
    let h = hex_text(b as nat);
    let ds = hex_digits(b as nat);
    assert(forall|k: int| 0 <= k < h.len() ==> #[trigger] h[k] != ',' && h[k] != ' ' && h[k] != '\t' && h[k] != '\r' && h[k] != '\n') by {
        assert forall|k: int| 0 <= k < h.len() implies #[trigger] h[k] != ',' && h[k] != ' ' && h[k] != '\t' && h[k] != '\r' && h[k] != '\n' by {
            if 'a' <= ds[0] {
                if k >= 1 && k < h.len() - 1 {
                    assert(h[k] == ds[k - 1]);
                }
            } else {
                if k < h.len() - 1 {
                    assert(h[k] == ds[k]);
                }
            }
        }
    }
    let t = p + h;
    assert(p.len() == 6);
    assert(t[0] == 'M' && t[1] == 'V' && t[2] == 'I' && t[3] == ' ' && t[4] == reg_name(r)[0] && t[5] == ',');
    reveal_with_fuel(spaces_end, 2);
    reveal_with_fuel(ident_end, 5);
    assert(spaces_end(t, 0) == 0);
    assert(ident_end(t, 0) == 3);
    assert(label_end(t) == 0);
    assert(t.subrange(0, t.len() as int) =~= t);
    reveal_with_fuel(first_non_ws, 2);
    assert(first_non_ws(t, 0) == 0);
    assert(trim_start(t) =~= t);
    reveal_with_fuel(find_from, 5);
    assert(find_from(t, ' ', 0) == 3);
    let suffix = t.subrange(4, t.len() as int);
    assert(suffix =~= (reg_name(r) + ","@) + h);
    assert(suffix[0] == reg_name(r)[0] && suffix[1] == ',');
    assert(find_from(suffix, ',', 0) == 1);
    assert(forall|k: int| 2 <= k < suffix.len() ==> suffix[k] == h[k - 2]);
    lemma_no_char(suffix, ',', 2);
    reveal_with_fuel(split_from, 3);
    assert(suffix.subrange(0, 1) =~= reg_name(r));
    assert(suffix.subrange(2, suffix.len() as int) =~= h);
    assert(split(suffix, ',') =~= seq![reg_name(r), h]);
    reveal_with_fuel(last_non_ws, 2);
    assert(trim(reg_name(r)) =~= reg_name(r));
    assert(h[h.len() - 1] == 'H');
    assert(first_non_ws(h, 0) == 0);
    assert(last_non_ws(h, 0, h.len() as int) == h.len());
    assert(trim(h) =~= h);
    assert(fields(suffix) =~= seq![reg_name(r), h]);
    assert(t.subrange(0, 3) =~= "MVI"@);
    reveal(encode_line);
    reveal(encode_args);
    assert(low8(b as i32) == b);
    assert(encode_args("MVI"@, seq![reg_name(r), h]) == mvi_encoding(seq![reg_name(r), h]));
}

/// Text of a mnemonic of capital letters, a space, and a hex operand, splits
/// into that mnemonic and that one operand.
#[verifier::rlimit(100)]
proof fn lemma_operand_text(m: Seq<char>, v: nat)
    requires
        2 <= m.len() <= 4,
        forall|k: int| 0 <= k < m.len() ==> 'A' <= #[trigger] m[k] <= 'Z',
        v < 0x10000,
    ensures
        encode_line((m + " "@) + hex_text(v)) == encode_args(m, seq![hex_text(v)]),
{
    reveal_strlit(" ");
    lemma_hex_digits(v);
    let h = hex_text(v);
    let ds = hex_digits(v);
    assert(forall|k: int| 0 <= k < h.len() ==> #[trigger] h[k] != ',' && h[k] != ' ' && h[k] != '\t' && h[k] != '\r' && h[k] != '\n') by {
        assert forall|k: int| 0 <= k < h.len() implies #[trigger] h[k] != ',' && h[k] != ' ' && h[k] != '\t' && h[k] != '\r' && h[k] != '\n' by {
            if 'a' <= ds[0] {
                if k >= 1 && k < h.len() - 1 {
                    assert(h[k] == ds[k - 1]);
                }
            } else {
                if k < h.len() - 1 {
                    assert(h[k] == ds[k]);
                }
            }
        }
    }
    let n = m.len() as int;
    let t = (m + " "@) + h;
    assert(forall|k: int| 0 <= k < n ==> t[k] == m[k]);
    assert(t[n] == ' ');
    reveal_with_fuel(spaces_end, 2);
    reveal_with_fuel(ident_end, 6);
    assert(spaces_end(t, 0) == 0);
    assert(ident_end(t, 0) == n);
    assert(label_end(t) == 0);
    assert(t.subrange(0, t.len() as int) =~= t);
    reveal_with_fuel(first_non_ws, 2);
    assert(first_non_ws(t, 0) == 0);
    assert(trim_start(t) =~= t);
    reveal_with_fuel(find_from, 6);
    assert(find_from(t, ' ', 0) == n);
    let suffix = t.subrange(n + 1, t.len() as int);
    assert(suffix =~= h);
    lemma_no_char(suffix, ',', 0);
    reveal_with_fuel(split_from, 2);
    assert(suffix.subrange(0, suffix.len() as int) =~= h);
    assert(split(suffix, ',') =~= seq![h]);
    reveal_with_fuel(last_non_ws, 2);
    assert(h[h.len() - 1] == 'H');
    assert(first_non_ws(h, 0) == 0);
    assert(last_non_ws(h, 0, h.len() as int) == h.len());
    assert(trim(h) =~= h);
    assert(fields(suffix) =~= seq![h]);
    assert(t.subrange(0, n) =~= m);
    reveal(encode_line);
}

/// A mnemonic that is none of the register-operand forms.
pub open spec fn not_register_form(m: Seq<char>) -> bool {
    m != "MOV"@ && m != "STAX"@ && m != "LDAX"@ && m != "INR"@ && m != "DCR"@ && m != "ADD"@ && m != "ADC"@ && m != "SUB"@ && m != "SBB"@ && m != "ANA"@ && m != "XRA"@ && m != "ORA"@ && m != "CMP"@ && m != "INX"@ && m != "DAD"@ && m != "DCX"@ && m != "POP"@ && m != "PUSH"@ && m != "LXI"@ && m != "MVI"@ && m != "RST"@
}

#[verifier::rlimit(100)]
proof fn lemma_address_args(m: Seq<char>, v: u16)
    requires
        not_register_form(m),
        addr_op(m) is Some,
    ensures
        encode_args(m, seq![hex_text(v as nat)]) == Ok::<Seq<u8>, Seq<char>>(addr_bytes(addr_op(m)->Some_0, v)),
{
    lemma_hex_value(v as nat);
    assert(low16(v as i32) == v);
    reveal(encode_args);
}

#[verifier::rlimit(100)]
proof fn lemma_port_args(m: Seq<char>, v: u16)
    requires
        not_register_form(m),
        addr_op(m) is None,
        imm_op(m) is Some,
    ensures
        encode_args(m, seq![hex_text(v as nat)]) == Ok::<Seq<u8>, Seq<char>>(seq![imm_op(m)->Some_0, (v % 256) as u8]),
{
    lemma_hex_value(v as nat);
    assert(low8(v as i32) == (v % 256) as u8);
    reveal(encode_args);
}

#[verifier::rlimit(100)]
proof fn lemma_name_22()
    ensures
        not_register_form("SHLD"@),
{
    reveal_strlit("ADC");
    reveal_strlit("ADD");
    reveal_strlit("ANA");
    reveal_strlit("CMP");
    reveal_strlit("DAD");
    reveal_strlit("DCR");
    reveal_strlit("DCX");
    reveal_strlit("INR");
    reveal_strlit("INX");
    reveal_strlit("LDAX");
    reveal_strlit("LXI");
    reveal_strlit("MOV");
    reveal_strlit("MVI");
    reveal_strlit("ORA");
    reveal_strlit("POP");
    reveal_strlit("PUSH");
    reveal_strlit("RST");
    reveal_strlit("SBB");
    reveal_strlit("SHLD");
    reveal_strlit("STAX");
    reveal_strlit("SUB");
    reveal_strlit("XRA");
    let m = "SHLD"@;
    assert(m != "MOV"@) by { if m == "MOV"@ { assert(m.len() == "MOV"@.len()); } }
    assert(m != "STAX"@) by { if m == "STAX"@ { assert(m[1] == "STAX"@[1]); } }
    assert(m != "LDAX"@) by { if m == "LDAX"@ { assert(m[0] == "LDAX"@[0]); } }
    assert(m != "INR"@) by { if m == "INR"@ { assert(m.len() == "INR"@.len()); } }
    assert(m != "DCR"@) by { if m == "DCR"@ { assert(m.len() == "DCR"@.len()); } }
    assert(m != "ADD"@) by { if m == "ADD"@ { assert(m.len() == "ADD"@.len()); } }
    assert(m != "ADC"@) by { if m == "ADC"@ { assert(m.len() == "ADC"@.len()); } }
    assert(m != "SUB"@) by { if m == "SUB"@ { assert(m.len() == "SUB"@.len()); } }
    assert(m != "SBB"@) by { if m == "SBB"@ { assert(m.len() == "SBB"@.len()); } }
    assert(m != "ANA"@) by { if m == "ANA"@ { assert(m.len() == "ANA"@.len()); } }
    assert(m != "XRA"@) by { if m == "XRA"@ { assert(m.len() == "XRA"@.len()); } }
    assert(m != "ORA"@) by { if m == "ORA"@ { assert(m.len() == "ORA"@.len()); } }
    assert(m != "CMP"@) by { if m == "CMP"@ { assert(m.len() == "CMP"@.len()); } }
    assert(m != "INX"@) by { if m == "INX"@ { assert(m.len() == "INX"@.len()); } }
    assert(m != "DAD"@) by { if m == "DAD"@ { assert(m.len() == "DAD"@.len()); } }
    assert(m != "DCX"@) by { if m == "DCX"@ { assert(m.len() == "DCX"@.len()); } }
    assert(m != "POP"@) by { if m == "POP"@ { assert(m.len() == "POP"@.len()); } }
    assert(m != "PUSH"@) by { if m == "PUSH"@ { assert(m[0] == "PUSH"@[0]); } }
    assert(m != "LXI"@) by { if m == "LXI"@ { assert(m.len() == "LXI"@.len()); } }
    assert(m != "MVI"@) by { if m == "MVI"@ { assert(m.len() == "MVI"@.len()); } }
    assert(m != "RST"@) by { if m == "RST"@ { assert(m.len() == "RST"@.len()); } }
}

#[verifier::rlimit(100)]
proof fn lemma_table_22()
    ensures
        addr_op("SHLD"@) == Some(0x22u8),
{
    reveal_strlit("SHLD");
    let m = "SHLD"@;

    assert(addr_op(m) == Some(0x22u8));
}

#[verifier::rlimit(100)]
proof fn lemma_text_22(v: u16)
    ensures
        shape(0x22u8) is Some,
        encode_line(shape(0x22u8)->Some_0.0 + hex_text(v as nat)) == Ok::<Seq<u8>, Seq<char>>(addr_bytes(0x22u8, v)),
{
    reveal_strlit(" ");
    reveal_strlit("C");
    reveal_strlit("J");
    reveal_strlit("M");
    reveal_strlit("NC");
    reveal_strlit("NZ");
    reveal_strlit("P");
    reveal_strlit("PE");
    reveal_strlit("PO");
    reveal_strlit("SHLD");
    reveal_strlit("SHLD ");
    reveal_strlit("Z");
    let m = "SHLD"@;
    assert(shape(0x22u8)->Some_0.0 =~= m + " "@);
    lemma_operand_text(m, v as nat);
    lemma_name_22();
    lemma_table_22();
    lemma_address_args(m, v);
}

#[verifier::rlimit(100)]
proof fn lemma_name_2a()
    ensures
        not_register_form("LHLD"@),
{
    reveal_strlit("ADC");
    reveal_strlit("ADD");
    reveal_strlit("ANA");
    reveal_strlit("CMP");
    reveal_strlit("DAD");
    reveal_strlit("DCR");
    reveal_strlit("DCX");
    reveal_strlit("INR");
    reveal_strlit("INX");
    reveal_strlit("LDAX");
    reveal_strlit("LHLD");
    reveal_strlit("LXI");
    reveal_strlit("MOV");
    reveal_strlit("MVI");
    reveal_strlit("ORA");
    reveal_strlit("POP");
    reveal_strlit("PUSH");
    reveal_strlit("RST");
    reveal_strlit("SBB");
    reveal_strlit("STAX");
    reveal_strlit("SUB");
    reveal_strlit("XRA");
    let m = "LHLD"@;
    assert(m != "MOV"@) by { if m == "MOV"@ { assert(m.len() == "MOV"@.len()); } }
    assert(m != "STAX"@) by { if m == "STAX"@ { assert(m[0] == "STAX"@[0]); } }
    assert(m != "LDAX"@) by { if m == "LDAX"@ { assert(m[1] == "LDAX"@[1]); } }
    assert(m != "INR"@) by { if m == "INR"@ { assert(m.len() == "INR"@.len()); } }
    assert(m != "DCR"@) by { if m == "DCR"@ { assert(m.len() == "DCR"@.len()); } }
    assert(m != "ADD"@) by { if m == "ADD"@ { assert(m.len() == "ADD"@.len()); } }
    assert(m != "ADC"@) by { if m == "ADC"@ { assert(m.len() == "ADC"@.len()); } }
    assert(m != "SUB"@) by { if m == "SUB"@ { assert(m.len() == "SUB"@.len()); } }
    assert(m != "SBB"@) by { if m == "SBB"@ { assert(m.len() == "SBB"@.len()); } }
    assert(m != "ANA"@) by { if m == "ANA"@ { assert(m.len() == "ANA"@.len()); } }
    assert(m != "XRA"@) by { if m == "XRA"@ { assert(m.len() == "XRA"@.len()); } }
    assert(m != "ORA"@) by { if m == "ORA"@ { assert(m.len() == "ORA"@.len()); } }
    assert(m != "CMP"@) by { if m == "CMP"@ { assert(m.len() == "CMP"@.len()); } }
    assert(m != "INX"@) by { if m == "INX"@ { assert(m.len() == "INX"@.len()); } }
    assert(m != "DAD"@) by { if m == "DAD"@ { assert(m.len() == "DAD"@.len()); } }
    assert(m != "DCX"@) by { if m == "DCX"@ { assert(m.len() == "DCX"@.len()); } }
    assert(m != "POP"@) by { if m == "POP"@ { assert(m.len() == "POP"@.len()); } }
    assert(m != "PUSH"@) by { if m == "PUSH"@ { assert(m[0] == "PUSH"@[0]); } }
    assert(m != "LXI"@) by { if m == "LXI"@ { assert(m.len() == "LXI"@.len()); } }
    assert(m != "MVI"@) by { if m == "MVI"@ { assert(m.len() == "MVI"@.len()); } }
    assert(m != "RST"@) by { if m == "RST"@ { assert(m.len() == "RST"@.len()); } }
}

#[verifier::rlimit(100)]
proof fn lemma_table_2a()
    ensures
        addr_op("LHLD"@) == Some(0x2au8),
{
    reveal_strlit("LHLD");
    reveal_strlit("SHLD");
    let m = "LHLD"@;
    assert(m != "SHLD"@) by { if m == "SHLD"@ { assert(m[0] == "SHLD"@[0]); } }
    assert(addr_op(m) == Some(0x2au8));
}

#[verifier::rlimit(100)]
proof fn lemma_text_2a(v: u16)
    ensures
        shape(0x2au8) is Some,
        encode_line(shape(0x2au8)->Some_0.0 + hex_text(v as nat)) == Ok::<Seq<u8>, Seq<char>>(addr_bytes(0x2au8, v)),
{
    reveal_strlit(" ");
    reveal_strlit("C");
    reveal_strlit("J");
    reveal_strlit("LHLD");
    reveal_strlit("LHLD ");
    reveal_strlit("M");
    reveal_strlit("NC");
    reveal_strlit("NZ");
    reveal_strlit("P");
    reveal_strlit("PE");
    reveal_strlit("PO");
    reveal_strlit("Z");
    let m = "LHLD"@;
    assert(shape(0x2au8)->Some_0.0 =~= m + " "@);
    lemma_operand_text(m, v as nat);
    lemma_name_2a();
    lemma_table_2a();
    lemma_address_args(m, v);
}

#[verifier::rlimit(100)]
proof fn lemma_name_32()
    ensures
        not_register_form("STA"@),
{
    reveal_strlit("ADC");
    reveal_strlit("ADD");
    reveal_strlit("ANA");
    reveal_strlit("CMP");
    reveal_strlit("DAD");
    reveal_strlit("DCR");
    reveal_strlit("DCX");
    reveal_strlit("INR");
    reveal_strlit("INX");
    reveal_strlit("LDAX");
    reveal_strlit("LXI");
    reveal_strlit("MOV");
    reveal_strlit("MVI");
    reveal_strlit("ORA");
    reveal_strlit("POP");
    reveal_strlit("PUSH");
    reveal_strlit("RST");
    reveal_strlit("SBB");
    reveal_strlit("STA");
    reveal_strlit("STAX");
    reveal_strlit("SUB");
    reveal_strlit("XRA");
    let m = "STA"@;
    assert(m != "MOV"@) by { if m == "MOV"@ { assert(m[0] == "MOV"@[0]); } }
    assert(m != "STAX"@) by { if m == "STAX"@ { assert(m.len() == "STAX"@.len()); } }
    assert(m != "LDAX"@) by { if m == "LDAX"@ { assert(m.len() == "LDAX"@.len()); } }
    assert(m != "INR"@) by { if m == "INR"@ { assert(m[0] == "INR"@[0]); } }
    assert(m != "DCR"@) by { if m == "DCR"@ { assert(m[0] == "DCR"@[0]); } }
    assert(m != "ADD"@) by { if m == "ADD"@ { assert(m[0] == "ADD"@[0]); } }
    assert(m != "ADC"@) by { if m == "ADC"@ { assert(m[0] == "ADC"@[0]); } }
    assert(m != "SUB"@) by { if m == "SUB"@ { assert(m[1] == "SUB"@[1]); } }
    assert(m != "SBB"@) by { if m == "SBB"@ { assert(m[1] == "SBB"@[1]); } }
    assert(m != "ANA"@) by { if m == "ANA"@ { assert(m[0] == "ANA"@[0]); } }
    assert(m != "XRA"@) by { if m == "XRA"@ { assert(m[0] == "XRA"@[0]); } }
    assert(m != "ORA"@) by { if m == "ORA"@ { assert(m[0] == "ORA"@[0]); } }
    assert(m != "CMP"@) by { if m == "CMP"@ { assert(m[0] == "CMP"@[0]); } }
    assert(m != "INX"@) by { if m == "INX"@ { assert(m[0] == "INX"@[0]); } }
    assert(m != "DAD"@) by { if m == "DAD"@ { assert(m[0] == "DAD"@[0]); } }
    assert(m != "DCX"@) by { if m == "DCX"@ { assert(m[0] == "DCX"@[0]); } }
    assert(m != "POP"@) by { if m == "POP"@ { assert(m[0] == "POP"@[0]); } }
    assert(m != "PUSH"@) by { if m == "PUSH"@ { assert(m.len() == "PUSH"@.len()); } }
    assert(m != "LXI"@) by { if m == "LXI"@ { assert(m[0] == "LXI"@[0]); } }
    assert(m != "MVI"@) by { if m == "MVI"@ { assert(m[0] == "MVI"@[0]); } }
    assert(m != "RST"@) by { if m == "RST"@ { assert(m[0] == "RST"@[0]); } }
}

#[verifier::rlimit(100)]
proof fn lemma_table_32()
    ensures
        addr_op("STA"@) == Some(0x32u8),
{
    reveal_strlit("LHLD");
    reveal_strlit("SHLD");
    reveal_strlit("STA");
    let m = "STA"@;
    assert(m != "SHLD"@) by { if m == "SHLD"@ { assert(m.len() == "SHLD"@.len()); } }
    assert(m != "LHLD"@) by { if m == "LHLD"@ { assert(m.len() == "LHLD"@.len()); } }
    assert(addr_op(m) == Some(0x32u8));
}

#[verifier::rlimit(100)]
proof fn lemma_text_32(v: u16)
    ensures
        shape(0x32u8) is Some,
        encode_line(shape(0x32u8)->Some_0.0 + hex_text(v as nat)) == Ok::<Seq<u8>, Seq<char>>(addr_bytes(0x32u8, v)),
{
    reveal_strlit(" ");
    reveal_strlit("C");
    reveal_strlit("J");
    reveal_strlit("M");
    reveal_strlit("NC");
    reveal_strlit("NZ");
    reveal_strlit("P");
    reveal_strlit("PE");
    reveal_strlit("PO");
    reveal_strlit("STA");
    reveal_strlit("STA ");
    reveal_strlit("Z");
    let m = "STA"@;
    assert(shape(0x32u8)->Some_0.0 =~= m + " "@);
    lemma_operand_text(m, v as nat);
    lemma_name_32();
    lemma_table_32();
    lemma_address_args(m, v);
}

#[verifier::rlimit(100)]
proof fn lemma_name_3a()
    ensures
        not_register_form("LDA"@),
{
    reveal_strlit("ADC");
    reveal_strlit("ADD");
    reveal_strlit("ANA");
    reveal_strlit("CMP");
    reveal_strlit("DAD");
    reveal_strlit("DCR");
    reveal_strlit("DCX");
    reveal_strlit("INR");
    reveal_strlit("INX");
    reveal_strlit("LDA");
    reveal_strlit("LDAX");
    reveal_strlit("LXI");
    reveal_strlit("MOV");
    reveal_strlit("MVI");
    reveal_strlit("ORA");
    reveal_strlit("POP");
    reveal_strlit("PUSH");
    reveal_strlit("RST");
    reveal_strlit("SBB");
    reveal_strlit("STAX");
    reveal_strlit("SUB");
    reveal_strlit("XRA");
    let m = "LDA"@;
    assert(m != "MOV"@) by { if m == "MOV"@ { assert(m[0] == "MOV"@[0]); } }
    assert(m != "STAX"@) by { if m == "STAX"@ { assert(m.len() == "STAX"@.len()); } }
    assert(m != "LDAX"@) by { if m == "LDAX"@ { assert(m.len() == "LDAX"@.len()); } }
    assert(m != "INR"@) by { if m == "INR"@ { assert(m[0] == "INR"@[0]); } }
    assert(m != "DCR"@) by { if m == "DCR"@ { assert(m[0] == "DCR"@[0]); } }
    assert(m != "ADD"@) by { if m == "ADD"@ { assert(m[0] == "ADD"@[0]); } }
    assert(m != "ADC"@) by { if m == "ADC"@ { assert(m[0] == "ADC"@[0]); } }
    assert(m != "SUB"@) by { if m == "SUB"@ { assert(m[0] == "SUB"@[0]); } }
    assert(m != "SBB"@) by { if m == "SBB"@ { assert(m[0] == "SBB"@[0]); } }
    assert(m != "ANA"@) by { if m == "ANA"@ { assert(m[0] == "ANA"@[0]); } }
    assert(m != "XRA"@) by { if m == "XRA"@ { assert(m[0] == "XRA"@[0]); } }
    assert(m != "ORA"@) by { if m == "ORA"@ { assert(m[0] == "ORA"@[0]); } }
    assert(m != "CMP"@) by { if m == "CMP"@ { assert(m[0] == "CMP"@[0]); } }
    assert(m != "INX"@) by { if m == "INX"@ { assert(m[0] == "INX"@[0]); } }
    assert(m != "DAD"@) by { if m == "DAD"@ { assert(m[0] == "DAD"@[0]); } }
    assert(m != "DCX"@) by { if m == "DCX"@ { assert(m[0] == "DCX"@[0]); } }
    assert(m != "POP"@) by { if m == "POP"@ { assert(m[0] == "POP"@[0]); } }
    assert(m != "PUSH"@) by { if m == "PUSH"@ { assert(m.len() == "PUSH"@.len()); } }
    assert(m != "LXI"@) by { if m == "LXI"@ { assert(m[1] == "LXI"@[1]); } }
    assert(m != "MVI"@) by { if m == "MVI"@ { assert(m[0] == "MVI"@[0]); } }
    assert(m != "RST"@) by { if m == "RST"@ { assert(m[0] == "RST"@[0]); } }
}

#[verifier::rlimit(100)]
proof fn lemma_table_3a()
    ensures
        addr_op("LDA"@) == Some(0x3au8),
{
    reveal_strlit("LDA");
    reveal_strlit("LHLD");
    reveal_strlit("SHLD");
    reveal_strlit("STA");
    let m = "LDA"@;
    assert(m != "SHLD"@) by { if m == "SHLD"@ { assert(m.len() == "SHLD"@.len()); } }
    assert(m != "LHLD"@) by { if m == "LHLD"@ { assert(m.len() == "LHLD"@.len()); } }
    assert(m != "STA"@) by { if m == "STA"@ { assert(m[0] == "STA"@[0]); } }
    assert(addr_op(m) == Some(0x3au8));
}

#[verifier::rlimit(100)]
proof fn lemma_text_3a(v: u16)
    ensures
        shape(0x3au8) is Some,
        encode_line(shape(0x3au8)->Some_0.0 + hex_text(v as nat)) == Ok::<Seq<u8>, Seq<char>>(addr_bytes(0x3au8, v)),
{
    reveal_strlit(" ");
    reveal_strlit("C");
    reveal_strlit("J");
    reveal_strlit("LDA");
    reveal_strlit("LDA ");
    reveal_strlit("M");
    reveal_strlit("NC");
    reveal_strlit("NZ");
    reveal_strlit("P");
    reveal_strlit("PE");
    reveal_strlit("PO");
    reveal_strlit("Z");
    let m = "LDA"@;
    assert(shape(0x3au8)->Some_0.0 =~= m + " "@);
    lemma_operand_text(m, v as nat);
    lemma_name_3a();
    lemma_table_3a();
    lemma_address_args(m, v);
}

#[verifier::rlimit(100)]
proof fn lemma_name_c3()
    ensures
        not_register_form("JMP"@),
{
    reveal_strlit("ADC");
    reveal_strlit("ADD");
    reveal_strlit("ANA");
    reveal_strlit("CMP");
    reveal_strlit("DAD");
    reveal_strlit("DCR");
    reveal_strlit("DCX");
    reveal_strlit("INR");
    reveal_strlit("INX");
    reveal_strlit("JMP");
    reveal_strlit("LDAX");
    reveal_strlit("LXI");
    reveal_strlit("MOV");
    reveal_strlit("MVI");
    reveal_strlit("ORA");
    reveal_strlit("POP");
    reveal_strlit("PUSH");
    reveal_strlit("RST");
    reveal_strlit("SBB");
    reveal_strlit("STAX");
    reveal_strlit("SUB");
    reveal_strlit("XRA");
    let m = "JMP"@;
    assert(m != "MOV"@) by { if m == "MOV"@ { assert(m[0] == "MOV"@[0]); } }
    assert(m != "STAX"@) by { if m == "STAX"@ { assert(m.len() == "STAX"@.len()); } }
    assert(m != "LDAX"@) by { if m == "LDAX"@ { assert(m.len() == "LDAX"@.len()); } }
    assert(m != "INR"@) by { if m == "INR"@ { assert(m[0] == "INR"@[0]); } }
    assert(m != "DCR"@) by { if m == "DCR"@ { assert(m[0] == "DCR"@[0]); } }
    assert(m != "ADD"@) by { if m == "ADD"@ { assert(m[0] == "ADD"@[0]); } }
    assert(m != "ADC"@) by { if m == "ADC"@ { assert(m[0] == "ADC"@[0]); } }
    assert(m != "SUB"@) by { if m == "SUB"@ { assert(m[0] == "SUB"@[0]); } }
    assert(m != "SBB"@) by { if m == "SBB"@ { assert(m[0] == "SBB"@[0]); } }
    assert(m != "ANA"@) by { if m == "ANA"@ { assert(m[0] == "ANA"@[0]); } }
    assert(m != "XRA"@) by { if m == "XRA"@ { assert(m[0] == "XRA"@[0]); } }
    assert(m != "ORA"@) by { if m == "ORA"@ { assert(m[0] == "ORA"@[0]); } }
    assert(m != "CMP"@) by { if m == "CMP"@ { assert(m[0] == "CMP"@[0]); } }
    assert(m != "INX"@) by { if m == "INX"@ { assert(m[0] == "INX"@[0]); } }
    assert(m != "DAD"@) by { if m == "DAD"@ { assert(m[0] == "DAD"@[0]); } }
    assert(m != "DCX"@) by { if m == "DCX"@ { assert(m[0] == "DCX"@[0]); } }
    assert(m != "POP"@) by { if m == "POP"@ { assert(m[0] == "POP"@[0]); } }
    assert(m != "PUSH"@) by { if m == "PUSH"@ { assert(m.len() == "PUSH"@.len()); } }
    assert(m != "LXI"@) by { if m == "LXI"@ { assert(m[0] == "LXI"@[0]); } }
    assert(m != "MVI"@) by { if m == "MVI"@ { assert(m[0] == "MVI"@[0]); } }
    assert(m != "RST"@) by { if m == "RST"@ { assert(m[0] == "RST"@[0]); } }
}

#[verifier::rlimit(100)]
proof fn lemma_table_c3()
    ensures
        addr_op("JMP"@) == Some(0xc3u8),
{
    reveal_strlit("JMP");
    reveal_strlit("LDA");
    reveal_strlit("LHLD");
    reveal_strlit("SHLD");
    reveal_strlit("STA");
    let m = "JMP"@;
    assert(m != "SHLD"@) by { if m == "SHLD"@ { assert(m.len() == "SHLD"@.len()); } }
    assert(m != "LHLD"@) by { if m == "LHLD"@ { assert(m.len() == "LHLD"@.len()); } }
    assert(m != "STA"@) by { if m == "STA"@ { assert(m[0] == "STA"@[0]); } }
    assert(m != "LDA"@) by { if m == "LDA"@ { assert(m[0] == "LDA"@[0]); } }
    assert(addr_op(m) == Some(0xc3u8));
}

#[verifier::rlimit(100)]
proof fn lemma_text_c3(v: u16)
    ensures
        shape(0xc3u8) is Some,
        encode_line(shape(0xc3u8)->Some_0.0 + hex_text(v as nat)) == Ok::<Seq<u8>, Seq<char>>(addr_bytes(0xc3u8, v)),
{
    reveal_strlit(" ");
    reveal_strlit("C");
    reveal_strlit("J");
    reveal_strlit("JMP");
    reveal_strlit("JMP ");
    reveal_strlit("M");
    reveal_strlit("NC");
    reveal_strlit("NZ");
    reveal_strlit("P");
    reveal_strlit("PE");
    reveal_strlit("PO");
    reveal_strlit("Z");
    let m = "JMP"@;
    assert(shape(0xc3u8)->Some_0.0 =~= m + " "@);
    lemma_operand_text(m, v as nat);
    lemma_name_c3();
    lemma_table_c3();
    lemma_address_args(m, v);
}

#[verifier::rlimit(100)]
proof fn lemma_name_c2()
    ensures
        not_register_form("JNZ"@),
{
    reveal_strlit("ADC");
    reveal_strlit("ADD");
    reveal_strlit("ANA");
    reveal_strlit("CMP");
    reveal_strlit("DAD");
    reveal_strlit("DCR");
    reveal_strlit("DCX");
    reveal_strlit("INR");
    reveal_strlit("INX");
    reveal_strlit("JNZ");
    reveal_strlit("LDAX");
    reveal_strlit("LXI");
    reveal_strlit("MOV");
    reveal_strlit("MVI");
    reveal_strlit("ORA");
    reveal_strlit("POP");
    reveal_strlit("PUSH");
    reveal_strlit("RST");
    reveal_strlit("SBB");
    reveal_strlit("STAX");
    reveal_strlit("SUB");
    reveal_strlit("XRA");
    let m = "JNZ"@;
    assert(m != "MOV"@) by { if m == "MOV"@ { assert(m[0] == "MOV"@[0]); } }
    assert(m != "STAX"@) by { if m == "STAX"@ { assert(m.len() == "STAX"@.len()); } }
    assert(m != "LDAX"@) by { if m == "LDAX"@ { assert(m.len() == "LDAX"@.len()); } }
    assert(m != "INR"@) by { if m == "INR"@ { assert(m[0] == "INR"@[0]); } }
    assert(m != "DCR"@) by { if m == "DCR"@ { assert(m[0] == "DCR"@[0]); } }
    assert(m != "ADD"@) by { if m == "ADD"@ { assert(m[0] == "ADD"@[0]); } }
    assert(m != "ADC"@) by { if m == "ADC"@ { assert(m[0] == "ADC"@[0]); } }
    assert(m != "SUB"@) by { if m == "SUB"@ { assert(m[0] == "SUB"@[0]); } }
    assert(m != "SBB"@) by { if m == "SBB"@ { assert(m[0] == "SBB"@[0]); } }
    assert(m != "ANA"@) by { if m == "ANA"@ { assert(m[0] == "ANA"@[0]); } }
    assert(m != "XRA"@) by { if m == "XRA"@ { assert(m[0] == "XRA"@[0]); } }
    assert(m != "ORA"@) by { if m == "ORA"@ { assert(m[0] == "ORA"@[0]); } }
    assert(m != "CMP"@) by { if m == "CMP"@ { assert(m[0] == "CMP"@[0]); } }
    assert(m != "INX"@) by { if m == "INX"@ { assert(m[0] == "INX"@[0]); } }
    assert(m != "DAD"@) by { if m == "DAD"@ { assert(m[0] == "DAD"@[0]); } }
    assert(m != "DCX"@) by { if m == "DCX"@ { assert(m[0] == "DCX"@[0]); } }
    assert(m != "POP"@) by { if m == "POP"@ { assert(m[0] == "POP"@[0]); } }
    assert(m != "PUSH"@) by { if m == "PUSH"@ { assert(m.len() == "PUSH"@.len()); } }
    assert(m != "LXI"@) by { if m == "LXI"@ { assert(m[0] == "LXI"@[0]); } }
    assert(m != "MVI"@) by { if m == "MVI"@ { assert(m[0] == "MVI"@[0]); } }
    assert(m != "RST"@) by { if m == "RST"@ { assert(m[0] == "RST"@[0]); } }
}

#[verifier::rlimit(100)]
proof fn lemma_table_c2()
    ensures
        addr_op("JNZ"@) == Some(0xc2u8),
{
    reveal_strlit("JMP");
    reveal_strlit("JNZ");
    reveal_strlit("LDA");
    reveal_strlit("LHLD");
    reveal_strlit("SHLD");
    reveal_strlit("STA");
    let m = "JNZ"@;
    assert(m != "SHLD"@) by { if m == "SHLD"@ { assert(m.len() == "SHLD"@.len()); } }
    assert(m != "LHLD"@) by { if m == "LHLD"@ { assert(m.len() == "LHLD"@.len()); } }
    assert(m != "STA"@) by { if m == "STA"@ { assert(m[0] == "STA"@[0]); } }
    assert(m != "LDA"@) by { if m == "LDA"@ { assert(m[0] == "LDA"@[0]); } }
    assert(m != "JMP"@) by { if m == "JMP"@ { assert(m[1] == "JMP"@[1]); } }
    assert(addr_op(m) == Some(0xc2u8));
}

#[verifier::rlimit(100)]
proof fn lemma_text_c2(v: u16)
    ensures
        shape(0xc2u8) is Some,
        encode_line(shape(0xc2u8)->Some_0.0 + hex_text(v as nat)) == Ok::<Seq<u8>, Seq<char>>(addr_bytes(0xc2u8, v)),
{
    reveal_strlit(" ");
    reveal_strlit("C");
    reveal_strlit("J");
    reveal_strlit("JNZ");
    reveal_strlit("JNZ ");
    reveal_strlit("M");
    reveal_strlit("NC");
    reveal_strlit("NZ");
    reveal_strlit("P");
    reveal_strlit("PE");
    reveal_strlit("PO");
    reveal_strlit("Z");
    let m = "JNZ"@;
    assert(shape(0xc2u8)->Some_0.0 =~= m + " "@);
    lemma_operand_text(m, v as nat);
    lemma_name_c2();
    lemma_table_c2();
    lemma_address_args(m, v);
}

#[verifier::rlimit(100)]
proof fn lemma_name_c4()
    ensures
        not_register_form("CNZ"@),
{
    reveal_strlit("ADC");
    reveal_strlit("ADD");
    reveal_strlit("ANA");
    reveal_strlit("CMP");
    reveal_strlit("CNZ");
    reveal_strlit("DAD");
    reveal_strlit("DCR");
    reveal_strlit("DCX");
    reveal_strlit("INR");
    reveal_strlit("INX");
    reveal_strlit("LDAX");
    reveal_strlit("LXI");
    reveal_strlit("MOV");
    reveal_strlit("MVI");
    reveal_strlit("ORA");
    reveal_strlit("POP");
    reveal_strlit("PUSH");
    reveal_strlit("RST");
    reveal_strlit("SBB");
    reveal_strlit("STAX");
    reveal_strlit("SUB");
    reveal_strlit("XRA");
    let m = "CNZ"@;
    assert(m != "MOV"@) by { if m == "MOV"@ { assert(m[0] == "MOV"@[0]); } }
    assert(m != "STAX"@) by { if m == "STAX"@ { assert(m.len() == "STAX"@.len()); } }
    assert(m != "LDAX"@) by { if m == "LDAX"@ { assert(m.len() == "LDAX"@.len()); } }
    assert(m != "INR"@) by { if m == "INR"@ { assert(m[0] == "INR"@[0]); } }
    assert(m != "DCR"@) by { if m == "DCR"@ { assert(m[0] == "DCR"@[0]); } }
    assert(m != "ADD"@) by { if m == "ADD"@ { assert(m[0] == "ADD"@[0]); } }
    assert(m != "ADC"@) by { if m == "ADC"@ { assert(m[0] == "ADC"@[0]); } }
    assert(m != "SUB"@) by { if m == "SUB"@ { assert(m[0] == "SUB"@[0]); } }
    assert(m != "SBB"@) by { if m == "SBB"@ { assert(m[0] == "SBB"@[0]); } }
    assert(m != "ANA"@) by { if m == "ANA"@ { assert(m[0] == "ANA"@[0]); } }
    assert(m != "XRA"@) by { if m == "XRA"@ { assert(m[0] == "XRA"@[0]); } }
    assert(m != "ORA"@) by { if m == "ORA"@ { assert(m[0] == "ORA"@[0]); } }
    assert(m != "CMP"@) by { if m == "CMP"@ { assert(m[1] == "CMP"@[1]); } }
    assert(m != "INX"@) by { if m == "INX"@ { assert(m[0] == "INX"@[0]); } }
    assert(m != "DAD"@) by { if m == "DAD"@ { assert(m[0] == "DAD"@[0]); } }
    assert(m != "DCX"@) by { if m == "DCX"@ { assert(m[0] == "DCX"@[0]); } }
    assert(m != "POP"@) by { if m == "POP"@ { assert(m[0] == "POP"@[0]); } }
    assert(m != "PUSH"@) by { if m == "PUSH"@ { assert(m.len() == "PUSH"@.len()); } }
    assert(m != "LXI"@) by { if m == "LXI"@ { assert(m[0] == "LXI"@[0]); } }
    assert(m != "MVI"@) by { if m == "MVI"@ { assert(m[0] == "MVI"@[0]); } }
    assert(m != "RST"@) by { if m == "RST"@ { assert(m[0] == "RST"@[0]); } }
}

#[verifier::rlimit(100)]
proof fn lemma_table_c4()
    ensures
        addr_op("CNZ"@) == Some(0xc4u8),
{
    reveal_strlit("CNZ");
    reveal_strlit("JMP");
    reveal_strlit("JNZ");
    reveal_strlit("LDA");
    reveal_strlit("LHLD");
    reveal_strlit("SHLD");
    reveal_strlit("STA");
    let m = "CNZ"@;
    assert(m != "SHLD"@) by { if m == "SHLD"@ { assert(m.len() == "SHLD"@.len()); } }
    assert(m != "LHLD"@) by { if m == "LHLD"@ { assert(m.len() == "LHLD"@.len()); } }
    assert(m != "STA"@) by { if m == "STA"@ { assert(m[0] == "STA"@[0]); } }
    assert(m != "LDA"@) by { if m == "LDA"@ { assert(m[0] == "LDA"@[0]); } }
    assert(m != "JMP"@) by { if m == "JMP"@ { assert(m[0] == "JMP"@[0]); } }
    assert(m != "JNZ"@) by { if m == "JNZ"@ { assert(m[0] == "JNZ"@[0]); } }
    assert(addr_op(m) == Some(0xc4u8));
}

#[verifier::rlimit(100)]
proof fn lemma_text_c4(v: u16)
    ensures
        shape(0xc4u8) is Some,
        encode_line(shape(0xc4u8)->Some_0.0 + hex_text(v as nat)) == Ok::<Seq<u8>, Seq<char>>(addr_bytes(0xc4u8, v)),
{
    reveal_strlit(" ");
    reveal_strlit("C");
    reveal_strlit("CNZ");
    reveal_strlit("CNZ ");
    reveal_strlit("J");
    reveal_strlit("M");
    reveal_strlit("NC");
    reveal_strlit("NZ");
    reveal_strlit("P");
    reveal_strlit("PE");
    reveal_strlit("PO");
    reveal_strlit("Z");
    let m = "CNZ"@;
    assert(shape(0xc4u8)->Some_0.0 =~= m + " "@);
    lemma_operand_text(m, v as nat);
    lemma_name_c4();
    lemma_table_c4();
    lemma_address_args(m, v);
}

#[verifier::rlimit(100)]
proof fn lemma_name_ca()
    ensures
        not_register_form("JZ"@),
{
    reveal_strlit("ADC");
    reveal_strlit("ADD");
    reveal_strlit("ANA");
    reveal_strlit("CMP");
    reveal_strlit("DAD");
    reveal_strlit("DCR");
    reveal_strlit("DCX");
    reveal_strlit("INR");
    reveal_strlit("INX");
    reveal_strlit("JZ");
    reveal_strlit("LDAX");
    reveal_strlit("LXI");
    reveal_strlit("MOV");
    reveal_strlit("MVI");
    reveal_strlit("ORA");
    reveal_strlit("POP");
    reveal_strlit("PUSH");
    reveal_strlit("RST");
    reveal_strlit("SBB");
    reveal_strlit("STAX");
    reveal_strlit("SUB");
    reveal_strlit("XRA");
    let m = "JZ"@;
    assert(m != "MOV"@) by { if m == "MOV"@ { assert(m.len() == "MOV"@.len()); } }
    assert(m != "STAX"@) by { if m == "STAX"@ { assert(m.len() == "STAX"@.len()); } }
    assert(m != "LDAX"@) by { if m == "LDAX"@ { assert(m.len() == "LDAX"@.len()); } }
    assert(m != "INR"@) by { if m == "INR"@ { assert(m.len() == "INR"@.len()); } }
    assert(m != "DCR"@) by { if m == "DCR"@ { assert(m.len() == "DCR"@.len()); } }
    assert(m != "ADD"@) by { if m == "ADD"@ { assert(m.len() == "ADD"@.len()); } }
    assert(m != "ADC"@) by { if m == "ADC"@ { assert(m.len() == "ADC"@.len()); } }
    assert(m != "SUB"@) by { if m == "SUB"@ { assert(m.len() == "SUB"@.len()); } }
    assert(m != "SBB"@) by { if m == "SBB"@ { assert(m.len() == "SBB"@.len()); } }
    assert(m != "ANA"@) by { if m == "ANA"@ { assert(m.len() == "ANA"@.len()); } }
    assert(m != "XRA"@) by { if m == "XRA"@ { assert(m.len() == "XRA"@.len()); } }
    assert(m != "ORA"@) by { if m == "ORA"@ { assert(m.len() == "ORA"@.len()); } }
    assert(m != "CMP"@) by { if m == "CMP"@ { assert(m.len() == "CMP"@.len()); } }
    assert(m != "INX"@) by { if m == "INX"@ { assert(m.len() == "INX"@.len()); } }
    assert(m != "DAD"@) by { if m == "DAD"@ { assert(m.len() == "DAD"@.len()); } }
    assert(m != "DCX"@) by { if m == "DCX"@ { assert(m.len() == "DCX"@.len()); } }
    assert(m != "POP"@) by { if m == "POP"@ { assert(m.len() == "POP"@.len()); } }
    assert(m != "PUSH"@) by { if m == "PUSH"@ { assert(m.len() == "PUSH"@.len()); } }
    assert(m != "LXI"@) by { if m == "LXI"@ { assert(m.len() == "LXI"@.len()); } }
    assert(m != "MVI"@) by { if m == "MVI"@ { assert(m.len() == "MVI"@.len()); } }
    assert(m != "RST"@) by { if m == "RST"@ { assert(m.len() == "RST"@.len()); } }
}

#[verifier::rlimit(100)]
proof fn lemma_table_ca()
    ensures
        addr_op("JZ"@) == Some(0xcau8),
{
    reveal_strlit("CNZ");
    reveal_strlit("JMP");
    reveal_strlit("JNZ");
    reveal_strlit("JZ");
    reveal_strlit("LDA");
    reveal_strlit("LHLD");
    reveal_strlit("SHLD");
    reveal_strlit("STA");
    let m = "JZ"@;
    assert(m != "SHLD"@) by { if m == "SHLD"@ { assert(m.len() == "SHLD"@.len()); } }
    assert(m != "LHLD"@) by { if m == "LHLD"@ { assert(m.len() == "LHLD"@.len()); } }
    assert(m != "STA"@) by { if m == "STA"@ { assert(m.len() == "STA"@.len()); } }
    assert(m != "LDA"@) by { if m == "LDA"@ { assert(m.len() == "LDA"@.len()); } }
    assert(m != "JMP"@) by { if m == "JMP"@ { assert(m.len() == "JMP"@.len()); } }
    assert(m != "JNZ"@) by { if m == "JNZ"@ { assert(m.len() == "JNZ"@.len()); } }
    assert(m != "CNZ"@) by { if m == "CNZ"@ { assert(m.len() == "CNZ"@.len()); } }
    assert(addr_op(m) == Some(0xcau8));
}

#[verifier::rlimit(100)]
proof fn lemma_text_ca(v: u16)
    ensures
        shape(0xcau8) is Some,
        encode_line(shape(0xcau8)->Some_0.0 + hex_text(v as nat)) == Ok::<Seq<u8>, Seq<char>>(addr_bytes(0xcau8, v)),
{
    reveal_strlit(" ");
    reveal_strlit("C");
    reveal_strlit("J");
    reveal_strlit("JZ");
    reveal_strlit("JZ ");
    reveal_strlit("M");
    reveal_strlit("NC");
    reveal_strlit("NZ");
    reveal_strlit("P");
    reveal_strlit("PE");
    reveal_strlit("PO");
    reveal_strlit("Z");
    let m = "JZ"@;
    assert(shape(0xcau8)->Some_0.0 =~= m + " "@);
    lemma_operand_text(m, v as nat);
    lemma_name_ca();
    lemma_table_ca();
    lemma_address_args(m, v);
}

#[verifier::rlimit(100)]
proof fn lemma_name_cc()
    ensures
        not_register_form("CZ"@),
{
    reveal_strlit("ADC");
    reveal_strlit("ADD");
    reveal_strlit("ANA");
    reveal_strlit("CMP");
    reveal_strlit("CZ");
    reveal_strlit("DAD");
    reveal_strlit("DCR");
    reveal_strlit("DCX");
    reveal_strlit("INR");
    reveal_strlit("INX");
    reveal_strlit("LDAX");
    reveal_strlit("LXI");
    reveal_strlit("MOV");
    reveal_strlit("MVI");
    reveal_strlit("ORA");
    reveal_strlit("POP");
    reveal_strlit("PUSH");
    reveal_strlit("RST");
    reveal_strlit("SBB");
    reveal_strlit("STAX");
    reveal_strlit("SUB");
    reveal_strlit("XRA");
    let m = "CZ"@;
    assert(m != "MOV"@) by { if m == "MOV"@ { assert(m.len() == "MOV"@.len()); } }
    assert(m != "STAX"@) by { if m == "STAX"@ { assert(m.len() == "STAX"@.len()); } }
    assert(m != "LDAX"@) by { if m == "LDAX"@ { assert(m.len() == "LDAX"@.len()); } }
    assert(m != "INR"@) by { if m == "INR"@ { assert(m.len() == "INR"@.len()); } }
    assert(m != "DCR"@) by { if m == "DCR"@ { assert(m.len() == "DCR"@.len()); } }
    assert(m != "ADD"@) by { if m == "ADD"@ { assert(m.len() == "ADD"@.len()); } }
    assert(m != "ADC"@) by { if m == "ADC"@ { assert(m.len() == "ADC"@.len()); } }
    assert(m != "SUB"@) by { if m == "SUB"@ { assert(m.len() == "SUB"@.len()); } }
    assert(m != "SBB"@) by { if m == "SBB"@ { assert(m.len() == "SBB"@.len()); } }
    assert(m != "ANA"@) by { if m == "ANA"@ { assert(m.len() == "ANA"@.len()); } }
    assert(m != "XRA"@) by { if m == "XRA"@ { assert(m.len() == "XRA"@.len()); } }
    assert(m != "ORA"@) by { if m == "ORA"@ { assert(m.len() == "ORA"@.len()); } }
    assert(m != "CMP"@) by { if m == "CMP"@ { assert(m.len() == "CMP"@.len()); } }
    assert(m != "INX"@) by { if m == "INX"@ { assert(m.len() == "INX"@.len()); } }
    assert(m != "DAD"@) by { if m == "DAD"@ { assert(m.len() == "DAD"@.len()); } }
    assert(m != "DCX"@) by { if m == "DCX"@ { assert(m.len() == "DCX"@.len()); } }
    assert(m != "POP"@) by { if m == "POP"@ { assert(m.len() == "POP"@.len()); } }
    assert(m != "PUSH"@) by { if m == "PUSH"@ { assert(m.len() == "PUSH"@.len()); } }
    assert(m != "LXI"@) by { if m == "LXI"@ { assert(m.len() == "LXI"@.len()); } }
    assert(m != "MVI"@) by { if m == "MVI"@ { assert(m.len() == "MVI"@.len()); } }
    assert(m != "RST"@) by { if m == "RST"@ { assert(m.len() == "RST"@.len()); } }
}

#[verifier::rlimit(100)]
proof fn lemma_table_cc()
    ensures
        addr_op("CZ"@) == Some(0xccu8),
{
    reveal_strlit("CNZ");
    reveal_strlit("CZ");
    reveal_strlit("JMP");
    reveal_strlit("JNZ");
    reveal_strlit("JZ");
    reveal_strlit("LDA");
    reveal_strlit("LHLD");
    reveal_strlit("SHLD");
    reveal_strlit("STA");
    let m = "CZ"@;
    assert(m != "SHLD"@) by { if m == "SHLD"@ { assert(m.len() == "SHLD"@.len()); } }
    assert(m != "LHLD"@) by { if m == "LHLD"@ { assert(m.len() == "LHLD"@.len()); } }
    assert(m != "STA"@) by { if m == "STA"@ { assert(m.len() == "STA"@.len()); } }
    assert(m != "LDA"@) by { if m == "LDA"@ { assert(m.len() == "LDA"@.len()); } }
    assert(m != "JMP"@) by { if m == "JMP"@ { assert(m.len() == "JMP"@.len()); } }
    assert(m != "JNZ"@) by { if m == "JNZ"@ { assert(m.len() == "JNZ"@.len()); } }
    assert(m != "CNZ"@) by { if m == "CNZ"@ { assert(m.len() == "CNZ"@.len()); } }
    assert(m != "JZ"@) by { if m == "JZ"@ { assert(m[0] == "JZ"@[0]); } }
    assert(addr_op(m) == Some(0xccu8));
}

#[verifier::rlimit(100)]
proof fn lemma_text_cc(v: u16)
    ensures
        shape(0xccu8) is Some,
        encode_line(shape(0xccu8)->Some_0.0 + hex_text(v as nat)) == Ok::<Seq<u8>, Seq<char>>(addr_bytes(0xccu8, v)),
{
    reveal_strlit(" ");
    reveal_strlit("C");
    reveal_strlit("CZ");
    reveal_strlit("CZ ");
    reveal_strlit("J");
    reveal_strlit("M");
    reveal_strlit("NC");
    reveal_strlit("NZ");
    reveal_strlit("P");
    reveal_strlit("PE");
    reveal_strlit("PO");
    reveal_strlit("Z");
    let m = "CZ"@;
    assert(shape(0xccu8)->Some_0.0 =~= m + " "@);
    lemma_operand_text(m, v as nat);
    lemma_name_cc();
    lemma_table_cc();
    lemma_address_args(m, v);
}

#[verifier::rlimit(100)]
proof fn lemma_name_cd()
    ensures
        not_register_form("CALL"@),
{
    reveal_strlit("ADC");
    reveal_strlit("ADD");
    reveal_strlit("ANA");
    reveal_strlit("CALL");
    reveal_strlit("CMP");
    reveal_strlit("DAD");
    reveal_strlit("DCR");
    reveal_strlit("DCX");
    reveal_strlit("INR");
    reveal_strlit("INX");
    reveal_strlit("LDAX");
    reveal_strlit("LXI");
    reveal_strlit("MOV");
    reveal_strlit("MVI");
    reveal_strlit("ORA");
    reveal_strlit("POP");
    reveal_strlit("PUSH");
    reveal_strlit("RST");
    reveal_strlit("SBB");
    reveal_strlit("STAX");
    reveal_strlit("SUB");
    reveal_strlit("XRA");
    let m = "CALL"@;
    assert(m != "MOV"@) by { if m == "MOV"@ { assert(m.len() == "MOV"@.len()); } }
    assert(m != "STAX"@) by { if m == "STAX"@ { assert(m[0] == "STAX"@[0]); } }
    assert(m != "LDAX"@) by { if m == "LDAX"@ { assert(m[0] == "LDAX"@[0]); } }
    assert(m != "INR"@) by { if m == "INR"@ { assert(m.len() == "INR"@.len()); } }
    assert(m != "DCR"@) by { if m == "DCR"@ { assert(m.len() == "DCR"@.len()); } }
    assert(m != "ADD"@) by { if m == "ADD"@ { assert(m.len() == "ADD"@.len()); } }
    assert(m != "ADC"@) by { if m == "ADC"@ { assert(m.len() == "ADC"@.len()); } }
    assert(m != "SUB"@) by { if m == "SUB"@ { assert(m.len() == "SUB"@.len()); } }
    assert(m != "SBB"@) by { if m == "SBB"@ { assert(m.len() == "SBB"@.len()); } }
    assert(m != "ANA"@) by { if m == "ANA"@ { assert(m.len() == "ANA"@.len()); } }
    assert(m != "XRA"@) by { if m == "XRA"@ { assert(m.len() == "XRA"@.len()); } }
    assert(m != "ORA"@) by { if m == "ORA"@ { assert(m.len() == "ORA"@.len()); } }
    assert(m != "CMP"@) by { if m == "CMP"@ { assert(m.len() == "CMP"@.len()); } }
    assert(m != "INX"@) by { if m == "INX"@ { assert(m.len() == "INX"@.len()); } }
    assert(m != "DAD"@) by { if m == "DAD"@ { assert(m.len() == "DAD"@.len()); } }
    assert(m != "DCX"@) by { if m == "DCX"@ { assert(m.len() == "DCX"@.len()); } }
    assert(m != "POP"@) by { if m == "POP"@ { assert(m.len() == "POP"@.len()); } }
    assert(m != "PUSH"@) by { if m == "PUSH"@ { assert(m[0] == "PUSH"@[0]); } }
    assert(m != "LXI"@) by { if m == "LXI"@ { assert(m.len() == "LXI"@.len()); } }
    assert(m != "MVI"@) by { if m == "MVI"@ { assert(m.len() == "MVI"@.len()); } }
    assert(m != "RST"@) by { if m == "RST"@ { assert(m.len() == "RST"@.len()); } }
}

#[verifier::rlimit(100)]
proof fn lemma_table_cd()
    ensures
        addr_op("CALL"@) == Some(0xcdu8),
{
    reveal_strlit("CALL");
    reveal_strlit("CNZ");
    reveal_strlit("CZ");
    reveal_strlit("JMP");
    reveal_strlit("JNZ");
    reveal_strlit("JZ");
    reveal_strlit("LDA");
    reveal_strlit("LHLD");
    reveal_strlit("SHLD");
    reveal_strlit("STA");
    let m = "CALL"@;
    assert(m != "SHLD"@) by { if m == "SHLD"@ { assert(m[0] == "SHLD"@[0]); } }
    assert(m != "LHLD"@) by { if m == "LHLD"@ { assert(m[0] == "LHLD"@[0]); } }
    assert(m != "STA"@) by { if m == "STA"@ { assert(m.len() == "STA"@.len()); } }
    assert(m != "LDA"@) by { if m == "LDA"@ { assert(m.len() == "LDA"@.len()); } }
    assert(m != "JMP"@) by { if m == "JMP"@ { assert(m.len() == "JMP"@.len()); } }
    assert(m != "JNZ"@) by { if m == "JNZ"@ { assert(m.len() == "JNZ"@.len()); } }
    assert(m != "CNZ"@) by { if m == "CNZ"@ { assert(m.len() == "CNZ"@.len()); } }
    assert(m != "JZ"@) by { if m == "JZ"@ { assert(m.len() == "JZ"@.len()); } }
    assert(m != "CZ"@) by { if m == "CZ"@ { assert(m.len() == "CZ"@.len()); } }
    assert(addr_op(m) == Some(0xcdu8));
}

#[verifier::rlimit(100)]
proof fn lemma_text_cd(v: u16)
    ensures
        shape(0xcdu8) is Some,
        encode_line(shape(0xcdu8)->Some_0.0 + hex_text(v as nat)) == Ok::<Seq<u8>, Seq<char>>(addr_bytes(0xcdu8, v)),
{
    reveal_strlit(" ");
    reveal_strlit("C");
    reveal_strlit("CALL");
    reveal_strlit("CALL ");
    reveal_strlit("J");
    reveal_strlit("M");
    reveal_strlit("NC");
    reveal_strlit("NZ");
    reveal_strlit("P");
    reveal_strlit("PE");
    reveal_strlit("PO");
    reveal_strlit("Z");
    let m = "CALL"@;
    assert(shape(0xcdu8)->Some_0.0 =~= m + " "@);
    lemma_operand_text(m, v as nat);
    lemma_name_cd();
    lemma_table_cd();
    lemma_address_args(m, v);
}

#[verifier::rlimit(100)]
proof fn lemma_name_d2()
    ensures
        not_register_form("JNC"@),
{
    reveal_strlit("ADC");
    reveal_strlit("ADD");
    reveal_strlit("ANA");
    reveal_strlit("CMP");
    reveal_strlit("DAD");
    reveal_strlit("DCR");
    reveal_strlit("DCX");
    reveal_strlit("INR");
    reveal_strlit("INX");
    reveal_strlit("JNC");
    reveal_strlit("LDAX");
    reveal_strlit("LXI");
    reveal_strlit("MOV");
    reveal_strlit("MVI");
    reveal_strlit("ORA");
    reveal_strlit("POP");
    reveal_strlit("PUSH");
    reveal_strlit("RST");
    reveal_strlit("SBB");
    reveal_strlit("STAX");
    reveal_strlit("SUB");
    reveal_strlit("XRA");
    let m = "JNC"@;
    assert(m != "MOV"@) by { if m == "MOV"@ { assert(m[0] == "MOV"@[0]); } }
    assert(m != "STAX"@) by { if m == "STAX"@ { assert(m.len() == "STAX"@.len()); } }
    assert(m != "LDAX"@) by { if m == "LDAX"@ { assert(m.len() == "LDAX"@.len()); } }
    assert(m != "INR"@) by { if m == "INR"@ { assert(m[0] == "INR"@[0]); } }
    assert(m != "DCR"@) by { if m == "DCR"@ { assert(m[0] == "DCR"@[0]); } }
    assert(m != "ADD"@) by { if m == "ADD"@ { assert(m[0] == "ADD"@[0]); } }
    assert(m != "ADC"@) by { if m == "ADC"@ { assert(m[0] == "ADC"@[0]); } }
    assert(m != "SUB"@) by { if m == "SUB"@ { assert(m[0] == "SUB"@[0]); } }
    assert(m != "SBB"@) by { if m == "SBB"@ { assert(m[0] == "SBB"@[0]); } }
    assert(m != "ANA"@) by { if m == "ANA"@ { assert(m[0] == "ANA"@[0]); } }
    assert(m != "XRA"@) by { if m == "XRA"@ { assert(m[0] == "XRA"@[0]); } }
    assert(m != "ORA"@) by { if m == "ORA"@ { assert(m[0] == "ORA"@[0]); } }
    assert(m != "CMP"@) by { if m == "CMP"@ { assert(m[0] == "CMP"@[0]); } }
    assert(m != "INX"@) by { if m == "INX"@ { assert(m[0] == "INX"@[0]); } }
    assert(m != "DAD"@) by { if m == "DAD"@ { assert(m[0] == "DAD"@[0]); } }
    assert(m != "DCX"@) by { if m == "DCX"@ { assert(m[0] == "DCX"@[0]); } }
    assert(m != "POP"@) by { if m == "POP"@ { assert(m[0] == "POP"@[0]); } }
    assert(m != "PUSH"@) by { if m == "PUSH"@ { assert(m.len() == "PUSH"@.len()); } }
    assert(m != "LXI"@) by { if m == "LXI"@ { assert(m[0] == "LXI"@[0]); } }
    assert(m != "MVI"@) by { if m == "MVI"@ { assert(m[0] == "MVI"@[0]); } }
    assert(m != "RST"@) by { if m == "RST"@ { assert(m[0] == "RST"@[0]); } }
}

#[verifier::rlimit(100)]
proof fn lemma_table_d2()
    ensures
        addr_op("JNC"@) == Some(0xd2u8),
{
    reveal_strlit("CALL");
    reveal_strlit("CNZ");
    reveal_strlit("CZ");
    reveal_strlit("JMP");
    reveal_strlit("JNC");
    reveal_strlit("JNZ");
    reveal_strlit("JZ");
    reveal_strlit("LDA");
    reveal_strlit("LHLD");
    reveal_strlit("SHLD");
    reveal_strlit("STA");
    let m = "JNC"@;
    assert(m != "SHLD"@) by { if m == "SHLD"@ { assert(m.len() == "SHLD"@.len()); } }
    assert(m != "LHLD"@) by { if m == "LHLD"@ { assert(m.len() == "LHLD"@.len()); } }
    assert(m != "STA"@) by { if m == "STA"@ { assert(m[0] == "STA"@[0]); } }
    assert(m != "LDA"@) by { if m == "LDA"@ { assert(m[0] == "LDA"@[0]); } }
    assert(m != "JMP"@) by { if m == "JMP"@ { assert(m[1] == "JMP"@[1]); } }
    assert(m != "JNZ"@) by { if m == "JNZ"@ { assert(m[2] == "JNZ"@[2]); } }
    assert(m != "CNZ"@) by { if m == "CNZ"@ { assert(m[0] == "CNZ"@[0]); } }
    assert(m != "JZ"@) by { if m == "JZ"@ { assert(m.len() == "JZ"@.len()); } }
    assert(m != "CZ"@) by { if m == "CZ"@ { assert(m.len() == "CZ"@.len()); } }
    assert(m != "CALL"@) by { if m == "CALL"@ { assert(m.len() == "CALL"@.len()); } }
    assert(addr_op(m) == Some(0xd2u8));
}

#[verifier::rlimit(100)]
proof fn lemma_text_d2(v: u16)
    ensures
        shape(0xd2u8) is Some,
        encode_line(shape(0xd2u8)->Some_0.0 + hex_text(v as nat)) == Ok::<Seq<u8>, Seq<char>>(addr_bytes(0xd2u8, v)),
{
    reveal_strlit(" ");
    reveal_strlit("C");
    reveal_strlit("J");
    reveal_strlit("JNC");
    reveal_strlit("JNC ");
    reveal_strlit("M");
    reveal_strlit("NC");
    reveal_strlit("NZ");
    reveal_strlit("P");
    reveal_strlit("PE");
    reveal_strlit("PO");
    reveal_strlit("Z");
    let m = "JNC"@;
    assert(shape(0xd2u8)->Some_0.0 =~= m + " "@);
    lemma_operand_text(m, v as nat);
    lemma_name_d2();
    lemma_table_d2();
    lemma_address_args(m, v);
}

#[verifier::rlimit(100)]
proof fn lemma_name_d4()
    ensures
        not_register_form("CNC"@),
{
    reveal_strlit("ADC");
    reveal_strlit("ADD");
    reveal_strlit("ANA");
    reveal_strlit("CMP");
    reveal_strlit("CNC");
    reveal_strlit("DAD");
    reveal_strlit("DCR");
    reveal_strlit("DCX");
    reveal_strlit("INR");
    reveal_strlit("INX");
    reveal_strlit("LDAX");
    reveal_strlit("LXI");
    reveal_strlit("MOV");
    reveal_strlit("MVI");
    reveal_strlit("ORA");
    reveal_strlit("POP");
    reveal_strlit("PUSH");
    reveal_strlit("RST");
    reveal_strlit("SBB");
    reveal_strlit("STAX");
    reveal_strlit("SUB");
    reveal_strlit("XRA");
    let m = "CNC"@;
    assert(m != "MOV"@) by { if m == "MOV"@ { assert(m[0] == "MOV"@[0]); } }
    assert(m != "STAX"@) by { if m == "STAX"@ { assert(m.len() == "STAX"@.len()); } }
    assert(m != "LDAX"@) by { if m == "LDAX"@ { assert(m.len() == "LDAX"@.len()); } }
    assert(m != "INR"@) by { if m == "INR"@ { assert(m[0] == "INR"@[0]); } }
    assert(m != "DCR"@) by { if m == "DCR"@ { assert(m[0] == "DCR"@[0]); } }
    assert(m != "ADD"@) by { if m == "ADD"@ { assert(m[0] == "ADD"@[0]); } }
    assert(m != "ADC"@) by { if m == "ADC"@ { assert(m[0] == "ADC"@[0]); } }
    assert(m != "SUB"@) by { if m == "SUB"@ { assert(m[0] == "SUB"@[0]); } }
    assert(m != "SBB"@) by { if m == "SBB"@ { assert(m[0] == "SBB"@[0]); } }
    assert(m != "ANA"@) by { if m == "ANA"@ { assert(m[0] == "ANA"@[0]); } }
    assert(m != "XRA"@) by { if m == "XRA"@ { assert(m[0] == "XRA"@[0]); } }
    assert(m != "ORA"@) by { if m == "ORA"@ { assert(m[0] == "ORA"@[0]); } }
    assert(m != "CMP"@) by { if m == "CMP"@ { assert(m[1] == "CMP"@[1]); } }
    assert(m != "INX"@) by { if m == "INX"@ { assert(m[0] == "INX"@[0]); } }
    assert(m != "DAD"@) by { if m == "DAD"@ { assert(m[0] == "DAD"@[0]); } }
    assert(m != "DCX"@) by { if m == "DCX"@ { assert(m[0] == "DCX"@[0]); } }
    assert(m != "POP"@) by { if m == "POP"@ { assert(m[0] == "POP"@[0]); } }
    assert(m != "PUSH"@) by { if m == "PUSH"@ { assert(m.len() == "PUSH"@.len()); } }
    assert(m != "LXI"@) by { if m == "LXI"@ { assert(m[0] == "LXI"@[0]); } }
    assert(m != "MVI"@) by { if m == "MVI"@ { assert(m[0] == "MVI"@[0]); } }
    assert(m != "RST"@) by { if m == "RST"@ { assert(m[0] == "RST"@[0]); } }
}

#[verifier::rlimit(100)]
proof fn lemma_table_d4()
    ensures
        addr_op("CNC"@) == Some(0xd4u8),
{
    reveal_strlit("CALL");
    reveal_strlit("CNC");
    reveal_strlit("CNZ");
    reveal_strlit("CZ");
    reveal_strlit("JMP");
    reveal_strlit("JNC");
    reveal_strlit("JNZ");
    reveal_strlit("JZ");
    reveal_strlit("LDA");
    reveal_strlit("LHLD");
    reveal_strlit("SHLD");
    reveal_strlit("STA");
    let m = "CNC"@;
    assert(m != "SHLD"@) by { if m == "SHLD"@ { assert(m.len() == "SHLD"@.len()); } }
    assert(m != "LHLD"@) by { if m == "LHLD"@ { assert(m.len() == "LHLD"@.len()); } }
    assert(m != "STA"@) by { if m == "STA"@ { assert(m[0] == "STA"@[0]); } }
    assert(m != "LDA"@) by { if m == "LDA"@ { assert(m[0] == "LDA"@[0]); } }
    assert(m != "JMP"@) by { if m == "JMP"@ { assert(m[0] == "JMP"@[0]); } }
    assert(m != "JNZ"@) by { if m == "JNZ"@ { assert(m[0] == "JNZ"@[0]); } }
    assert(m != "CNZ"@) by { if m == "CNZ"@ { assert(m[2] == "CNZ"@[2]); } }
    assert(m != "JZ"@) by { if m == "JZ"@ { assert(m.len() == "JZ"@.len()); } }
    assert(m != "CZ"@) by { if m == "CZ"@ { assert(m.len() == "CZ"@.len()); } }
    assert(m != "CALL"@) by { if m == "CALL"@ { assert(m.len() == "CALL"@.len()); } }
    assert(m != "JNC"@) by { if m == "JNC"@ { assert(m[0] == "JNC"@[0]); } }
    assert(addr_op(m) == Some(0xd4u8));
}

#[verifier::rlimit(100)]
proof fn lemma_text_d4(v: u16)
    ensures
        shape(0xd4u8) is Some,
        encode_line(shape(0xd4u8)->Some_0.0 + hex_text(v as nat)) == Ok::<Seq<u8>, Seq<char>>(addr_bytes(0xd4u8, v)),
{
    reveal_strlit(" ");
    reveal_strlit("C");
    reveal_strlit("CNC");
    reveal_strlit("CNC ");
    reveal_strlit("J");
    reveal_strlit("M");
    reveal_strlit("NC");
    reveal_strlit("NZ");
    reveal_strlit("P");
    reveal_strlit("PE");
    reveal_strlit("PO");
    reveal_strlit("Z");
    let m = "CNC"@;
    assert(shape(0xd4u8)->Some_0.0 =~= m + " "@);
    lemma_operand_text(m, v as nat);
    lemma_name_d4();
    lemma_table_d4();
    lemma_address_args(m, v);
}

#[verifier::rlimit(100)]
proof fn lemma_name_da()
    ensures
        not_register_form("JC"@),
{
    reveal_strlit("ADC");
    reveal_strlit("ADD");
    reveal_strlit("ANA");
    reveal_strlit("CMP");
    reveal_strlit("DAD");
    reveal_strlit("DCR");
    reveal_strlit("DCX");
    reveal_strlit("INR");
    reveal_strlit("INX");
    reveal_strlit("JC");
    reveal_strlit("LDAX");
    reveal_strlit("LXI");
    reveal_strlit("MOV");
    reveal_strlit("MVI");
    reveal_strlit("ORA");
    reveal_strlit("POP");
    reveal_strlit("PUSH");
    reveal_strlit("RST");
    reveal_strlit("SBB");
    reveal_strlit("STAX");
    reveal_strlit("SUB");
    reveal_strlit("XRA");
    let m = "JC"@;
    assert(m != "MOV"@) by { if m == "MOV"@ { assert(m.len() == "MOV"@.len()); } }
    assert(m != "STAX"@) by { if m == "STAX"@ { assert(m.len() == "STAX"@.len()); } }
    assert(m != "LDAX"@) by { if m == "LDAX"@ { assert(m.len() == "LDAX"@.len()); } }
    assert(m != "INR"@) by { if m == "INR"@ { assert(m.len() == "INR"@.len()); } }
    assert(m != "DCR"@) by { if m == "DCR"@ { assert(m.len() == "DCR"@.len()); } }
    assert(m != "ADD"@) by { if m == "ADD"@ { assert(m.len() == "ADD"@.len()); } }
    assert(m != "ADC"@) by { if m == "ADC"@ { assert(m.len() == "ADC"@.len()); } }
    assert(m != "SUB"@) by { if m == "SUB"@ { assert(m.len() == "SUB"@.len()); } }
    assert(m != "SBB"@) by { if m == "SBB"@ { assert(m.len() == "SBB"@.len()); } }
    assert(m != "ANA"@) by { if m == "ANA"@ { assert(m.len() == "ANA"@.len()); } }
    assert(m != "XRA"@) by { if m == "XRA"@ { assert(m.len() == "XRA"@.len()); } }
    assert(m != "ORA"@) by { if m == "ORA"@ { assert(m.len() == "ORA"@.len()); } }
    assert(m != "CMP"@) by { if m == "CMP"@ { assert(m.len() == "CMP"@.len()); } }
    assert(m != "INX"@) by { if m == "INX"@ { assert(m.len() == "INX"@.len()); } }
    assert(m != "DAD"@) by { if m == "DAD"@ { assert(m.len() == "DAD"@.len()); } }
    assert(m != "DCX"@) by { if m == "DCX"@ { assert(m.len() == "DCX"@.len()); } }
    assert(m != "POP"@) by { if m == "POP"@ { assert(m.len() == "POP"@.len()); } }
    assert(m != "PUSH"@) by { if m == "PUSH"@ { assert(m.len() == "PUSH"@.len()); } }
    assert(m != "LXI"@) by { if m == "LXI"@ { assert(m.len() == "LXI"@.len()); } }
    assert(m != "MVI"@) by { if m == "MVI"@ { assert(m.len() == "MVI"@.len()); } }
    assert(m != "RST"@) by { if m == "RST"@ { assert(m.len() == "RST"@.len()); } }
}

#[verifier::rlimit(100)]
proof fn lemma_table_da()
    ensures
        addr_op("JC"@) == Some(0xdau8),
{
    reveal_strlit("CALL");
    reveal_strlit("CNC");
    reveal_strlit("CNZ");
    reveal_strlit("CZ");
    reveal_strlit("JC");
    reveal_strlit("JMP");
    reveal_strlit("JNC");
    reveal_strlit("JNZ");
    reveal_strlit("JZ");
    reveal_strlit("LDA");
    reveal_strlit("LHLD");
    reveal_strlit("SHLD");
    reveal_strlit("STA");
    let m = "JC"@;
    assert(m != "SHLD"@) by { if m == "SHLD"@ { assert(m.len() == "SHLD"@.len()); } }
    assert(m != "LHLD"@) by { if m == "LHLD"@ { assert(m.len() == "LHLD"@.len()); } }
    assert(m != "STA"@) by { if m == "STA"@ { assert(m.len() == "STA"@.len()); } }
    assert(m != "LDA"@) by { if m == "LDA"@ { assert(m.len() == "LDA"@.len()); } }
    assert(m != "JMP"@) by { if m == "JMP"@ { assert(m.len() == "JMP"@.len()); } }
    assert(m != "JNZ"@) by { if m == "JNZ"@ { assert(m.len() == "JNZ"@.len()); } }
    assert(m != "CNZ"@) by { if m == "CNZ"@ { assert(m.len() == "CNZ"@.len()); } }
    assert(m != "JZ"@) by { if m == "JZ"@ { assert(m[1] == "JZ"@[1]); } }
    assert(m != "CZ"@) by { if m == "CZ"@ { assert(m[0] == "CZ"@[0]); } }
    assert(m != "CALL"@) by { if m == "CALL"@ { assert(m.len() == "CALL"@.len()); } }
    assert(m != "JNC"@) by { if m == "JNC"@ { assert(m.len() == "JNC"@.len()); } }
    assert(m != "CNC"@) by { if m == "CNC"@ { assert(m.len() == "CNC"@.len()); } }
    assert(addr_op(m) == Some(0xdau8));
}

#[verifier::rlimit(100)]
proof fn lemma_text_da(v: u16)
    ensures
        shape(0xdau8) is Some,
        encode_line(shape(0xdau8)->Some_0.0 + hex_text(v as nat)) == Ok::<Seq<u8>, Seq<char>>(addr_bytes(0xdau8, v)),
{
    reveal_strlit(" ");
    reveal_strlit("C");
    reveal_strlit("J");
    reveal_strlit("JC");
    reveal_strlit("JC ");
    reveal_strlit("M");
    reveal_strlit("NC");
    reveal_strlit("NZ");
    reveal_strlit("P");
    reveal_strlit("PE");
    reveal_strlit("PO");
    reveal_strlit("Z");
    let m = "JC"@;
    assert(shape(0xdau8)->Some_0.0 =~= m + " "@);
    lemma_operand_text(m, v as nat);
    lemma_name_da();
    lemma_table_da();
    lemma_address_args(m, v);
}

#[verifier::rlimit(100)]
proof fn lemma_name_dc()
    ensures
        not_register_form("CC"@),
{
    reveal_strlit("ADC");
    reveal_strlit("ADD");
    reveal_strlit("ANA");
    reveal_strlit("CC");
    reveal_strlit("CMP");
    reveal_strlit("DAD");
    reveal_strlit("DCR");
    reveal_strlit("DCX");
    reveal_strlit("INR");
    reveal_strlit("INX");
    reveal_strlit("LDAX");
    reveal_strlit("LXI");
    reveal_strlit("MOV");
    reveal_strlit("MVI");
    reveal_strlit("ORA");
    reveal_strlit("POP");
    reveal_strlit("PUSH");
    reveal_strlit("RST");
    reveal_strlit("SBB");
    reveal_strlit("STAX");
    reveal_strlit("SUB");
    reveal_strlit("XRA");
    let m = "CC"@;
    assert(m != "MOV"@) by { if m == "MOV"@ { assert(m.len() == "MOV"@.len()); } }
    assert(m != "STAX"@) by { if m == "STAX"@ { assert(m.len() == "STAX"@.len()); } }
    assert(m != "LDAX"@) by { if m == "LDAX"@ { assert(m.len() == "LDAX"@.len()); } }
    assert(m != "INR"@) by { if m == "INR"@ { assert(m.len() == "INR"@.len()); } }
    assert(m != "DCR"@) by { if m == "DCR"@ { assert(m.len() == "DCR"@.len()); } }
    assert(m != "ADD"@) by { if m == "ADD"@ { assert(m.len() == "ADD"@.len()); } }
    assert(m != "ADC"@) by { if m == "ADC"@ { assert(m.len() == "ADC"@.len()); } }
    assert(m != "SUB"@) by { if m == "SUB"@ { assert(m.len() == "SUB"@.len()); } }
    assert(m != "SBB"@) by { if m == "SBB"@ { assert(m.len() == "SBB"@.len()); } }
    assert(m != "ANA"@) by { if m == "ANA"@ { assert(m.len() == "ANA"@.len()); } }
    assert(m != "XRA"@) by { if m == "XRA"@ { assert(m.len() == "XRA"@.len()); } }
    assert(m != "ORA"@) by { if m == "ORA"@ { assert(m.len() == "ORA"@.len()); } }
    assert(m != "CMP"@) by { if m == "CMP"@ { assert(m.len() == "CMP"@.len()); } }
    assert(m != "INX"@) by { if m == "INX"@ { assert(m.len() == "INX"@.len()); } }
    assert(m != "DAD"@) by { if m == "DAD"@ { assert(m.len() == "DAD"@.len()); } }
    assert(m != "DCX"@) by { if m == "DCX"@ { assert(m.len() == "DCX"@.len()); } }
    assert(m != "POP"@) by { if m == "POP"@ { assert(m.len() == "POP"@.len()); } }
    assert(m != "PUSH"@) by { if m == "PUSH"@ { assert(m.len() == "PUSH"@.len()); } }
    assert(m != "LXI"@) by { if m == "LXI"@ { assert(m.len() == "LXI"@.len()); } }
    assert(m != "MVI"@) by { if m == "MVI"@ { assert(m.len() == "MVI"@.len()); } }
    assert(m != "RST"@) by { if m == "RST"@ { assert(m.len() == "RST"@.len()); } }
}

#[verifier::rlimit(100)]
proof fn lemma_table_dc()
    ensures
        addr_op("CC"@) == Some(0xdcu8),
{
    reveal_strlit("CALL");
    reveal_strlit("CC");
    reveal_strlit("CNC");
    reveal_strlit("CNZ");
    reveal_strlit("CZ");
    reveal_strlit("JC");
    reveal_strlit("JMP");
    reveal_strlit("JNC");
    reveal_strlit("JNZ");
    reveal_strlit("JZ");
    reveal_strlit("LDA");
    reveal_strlit("LHLD");
    reveal_strlit("SHLD");
    reveal_strlit("STA");
    let m = "CC"@;
    assert(m != "SHLD"@) by { if m == "SHLD"@ { assert(m.len() == "SHLD"@.len()); } }
    assert(m != "LHLD"@) by { if m == "LHLD"@ { assert(m.len() == "LHLD"@.len()); } }
    assert(m != "STA"@) by { if m == "STA"@ { assert(m.len() == "STA"@.len()); } }
    assert(m != "LDA"@) by { if m == "LDA"@ { assert(m.len() == "LDA"@.len()); } }
    assert(m != "JMP"@) by { if m == "JMP"@ { assert(m.len() == "JMP"@.len()); } }
    assert(m != "JNZ"@) by { if m == "JNZ"@ { assert(m.len() == "JNZ"@.len()); } }
    assert(m != "CNZ"@) by { if m == "CNZ"@ { assert(m.len() == "CNZ"@.len()); } }
    assert(m != "JZ"@) by { if m == "JZ"@ { assert(m[0] == "JZ"@[0]); } }
    assert(m != "CZ"@) by { if m == "CZ"@ { assert(m[1] == "CZ"@[1]); } }
    assert(m != "CALL"@) by { if m == "CALL"@ { assert(m.len() == "CALL"@.len()); } }
    assert(m != "JNC"@) by { if m == "JNC"@ { assert(m.len() == "JNC"@.len()); } }
    assert(m != "CNC"@) by { if m == "CNC"@ { assert(m.len() == "CNC"@.len()); } }
    assert(m != "JC"@) by { if m == "JC"@ { assert(m[0] == "JC"@[0]); } }
    assert(addr_op(m) == Some(0xdcu8));
}

#[verifier::rlimit(100)]
proof fn lemma_text_dc(v: u16)
    ensures
        shape(0xdcu8) is Some,
        encode_line(shape(0xdcu8)->Some_0.0 + hex_text(v as nat)) == Ok::<Seq<u8>, Seq<char>>(addr_bytes(0xdcu8, v)),
{
    reveal_strlit(" ");
    reveal_strlit("C");
    reveal_strlit("CC");
    reveal_strlit("CC ");
    reveal_strlit("J");
    reveal_strlit("M");
    reveal_strlit("NC");
    reveal_strlit("NZ");
    reveal_strlit("P");
    reveal_strlit("PE");
    reveal_strlit("PO");
    reveal_strlit("Z");
    let m = "CC"@;
    assert(shape(0xdcu8)->Some_0.0 =~= m + " "@);
    lemma_operand_text(m, v as nat);
    lemma_name_dc();
    lemma_table_dc();
    lemma_address_args(m, v);
}

#[verifier::rlimit(100)]
proof fn lemma_name_e2()
    ensures
        not_register_form("JPO"@),
{
    reveal_strlit("ADC");
    reveal_strlit("ADD");
    reveal_strlit("ANA");
    reveal_strlit("CMP");
    reveal_strlit("DAD");
    reveal_strlit("DCR");
    reveal_strlit("DCX");
    reveal_strlit("INR");
    reveal_strlit("INX");
    reveal_strlit("JPO");
    reveal_strlit("LDAX");
    reveal_strlit("LXI");
    reveal_strlit("MOV");
    reveal_strlit("MVI");
    reveal_strlit("ORA");
    reveal_strlit("POP");
    reveal_strlit("PUSH");
    reveal_strlit("RST");
    reveal_strlit("SBB");
    reveal_strlit("STAX");
    reveal_strlit("SUB");
    reveal_strlit("XRA");
    let m = "JPO"@;
    assert(m != "MOV"@) by { if m == "MOV"@ { assert(m[0] == "MOV"@[0]); } }
    assert(m != "STAX"@) by { if m == "STAX"@ { assert(m.len() == "STAX"@.len()); } }
    assert(m != "LDAX"@) by { if m == "LDAX"@ { assert(m.len() == "LDAX"@.len()); } }
    assert(m != "INR"@) by { if m == "INR"@ { assert(m[0] == "INR"@[0]); } }
    assert(m != "DCR"@) by { if m == "DCR"@ { assert(m[0] == "DCR"@[0]); } }
    assert(m != "ADD"@) by { if m == "ADD"@ { assert(m[0] == "ADD"@[0]); } }
    assert(m != "ADC"@) by { if m == "ADC"@ { assert(m[0] == "ADC"@[0]); } }
    assert(m != "SUB"@) by { if m == "SUB"@ { assert(m[0] == "SUB"@[0]); } }
    assert(m != "SBB"@) by { if m == "SBB"@ { assert(m[0] == "SBB"@[0]); } }
    assert(m != "ANA"@) by { if m == "ANA"@ { assert(m[0] == "ANA"@[0]); } }
    assert(m != "XRA"@) by { if m == "XRA"@ { assert(m[0] == "XRA"@[0]); } }
    assert(m != "ORA"@) by { if m == "ORA"@ { assert(m[0] == "ORA"@[0]); } }
    assert(m != "CMP"@) by { if m == "CMP"@ { assert(m[0] == "CMP"@[0]); } }
    assert(m != "INX"@) by { if m == "INX"@ { assert(m[0] == "INX"@[0]); } }
    assert(m != "DAD"@) by { if m == "DAD"@ { assert(m[0] == "DAD"@[0]); } }
    assert(m != "DCX"@) by { if m == "DCX"@ { assert(m[0] == "DCX"@[0]); } }
    assert(m != "POP"@) by { if m == "POP"@ { assert(m[0] == "POP"@[0]); } }
    assert(m != "PUSH"@) by { if m == "PUSH"@ { assert(m.len() == "PUSH"@.len()); } }
    assert(m != "LXI"@) by { if m == "LXI"@ { assert(m[0] == "LXI"@[0]); } }
    assert(m != "MVI"@) by { if m == "MVI"@ { assert(m[0] == "MVI"@[0]); } }
    assert(m != "RST"@) by { if m == "RST"@ { assert(m[0] == "RST"@[0]); } }
}

#[verifier::rlimit(100)]
proof fn lemma_table_e2()
    ensures
        addr_op("JPO"@) == Some(0xe2u8),
{
    reveal_strlit("CALL");
    reveal_strlit("CC");
    reveal_strlit("CNC");
    reveal_strlit("CNZ");
    reveal_strlit("CZ");
    reveal_strlit("JC");
    reveal_strlit("JMP");
    reveal_strlit("JNC");
    reveal_strlit("JNZ");
    reveal_strlit("JPO");
    reveal_strlit("JZ");
    reveal_strlit("LDA");
    reveal_strlit("LHLD");
    reveal_strlit("SHLD");
    reveal_strlit("STA");
    let m = "JPO"@;
    assert(m != "SHLD"@) by { if m == "SHLD"@ { assert(m.len() == "SHLD"@.len()); } }
    assert(m != "LHLD"@) by { if m == "LHLD"@ { assert(m.len() == "LHLD"@.len()); } }
    assert(m != "STA"@) by { if m == "STA"@ { assert(m[0] == "STA"@[0]); } }
    assert(m != "LDA"@) by { if m == "LDA"@ { assert(m[0] == "LDA"@[0]); } }
    assert(m != "JMP"@) by { if m == "JMP"@ { assert(m[1] == "JMP"@[1]); } }
    assert(m != "JNZ"@) by { if m == "JNZ"@ { assert(m[1] == "JNZ"@[1]); } }
    assert(m != "CNZ"@) by { if m == "CNZ"@ { assert(m[0] == "CNZ"@[0]); } }
    assert(m != "JZ"@) by { if m == "JZ"@ { assert(m.len() == "JZ"@.len()); } }
    assert(m != "CZ"@) by { if m == "CZ"@ { assert(m.len() == "CZ"@.len()); } }
    assert(m != "CALL"@) by { if m == "CALL"@ { assert(m.len() == "CALL"@.len()); } }
    assert(m != "JNC"@) by { if m == "JNC"@ { assert(m[1] == "JNC"@[1]); } }
    assert(m != "CNC"@) by { if m == "CNC"@ { assert(m[0] == "CNC"@[0]); } }
    assert(m != "JC"@) by { if m == "JC"@ { assert(m.len() == "JC"@.len()); } }
    assert(m != "CC"@) by { if m == "CC"@ { assert(m.len() == "CC"@.len()); } }
    assert(addr_op(m) == Some(0xe2u8));
}

#[verifier::rlimit(100)]
proof fn lemma_text_e2(v: u16)
    ensures
        shape(0xe2u8) is Some,
        encode_line(shape(0xe2u8)->Some_0.0 + hex_text(v as nat)) == Ok::<Seq<u8>, Seq<char>>(addr_bytes(0xe2u8, v)),
{
    reveal_strlit(" ");
    reveal_strlit("C");
    reveal_strlit("J");
    reveal_strlit("JPO");
    reveal_strlit("JPO ");
    reveal_strlit("M");
    reveal_strlit("NC");
    reveal_strlit("NZ");
    reveal_strlit("P");
    reveal_strlit("PE");
    reveal_strlit("PO");
    reveal_strlit("Z");
    let m = "JPO"@;
    assert(shape(0xe2u8)->Some_0.0 =~= m + " "@);
    lemma_operand_text(m, v as nat);
    lemma_name_e2();
    lemma_table_e2();
    lemma_address_args(m, v);
}

#[verifier::rlimit(100)]
proof fn lemma_name_e4()
    ensures
        not_register_form("CPO"@),
{
    reveal_strlit("ADC");
    reveal_strlit("ADD");
    reveal_strlit("ANA");
    reveal_strlit("CMP");
    reveal_strlit("CPO");
    reveal_strlit("DAD");
    reveal_strlit("DCR");
    reveal_strlit("DCX");
    reveal_strlit("INR");
    reveal_strlit("INX");
    reveal_strlit("LDAX");
    reveal_strlit("LXI");
    reveal_strlit("MOV");
    reveal_strlit("MVI");
    reveal_strlit("ORA");
    reveal_strlit("POP");
    reveal_strlit("PUSH");
    reveal_strlit("RST");
    reveal_strlit("SBB");
    reveal_strlit("STAX");
    reveal_strlit("SUB");
    reveal_strlit("XRA");
    let m = "CPO"@;
    assert(m != "MOV"@) by { if m == "MOV"@ { assert(m[0] == "MOV"@[0]); } }
    assert(m != "STAX"@) by { if m == "STAX"@ { assert(m.len() == "STAX"@.len()); } }
    assert(m != "LDAX"@) by { if m == "LDAX"@ { assert(m.len() == "LDAX"@.len()); } }
    assert(m != "INR"@) by { if m == "INR"@ { assert(m[0] == "INR"@[0]); } }
    assert(m != "DCR"@) by { if m == "DCR"@ { assert(m[0] == "DCR"@[0]); } }
    assert(m != "ADD"@) by { if m == "ADD"@ { assert(m[0] == "ADD"@[0]); } }
    assert(m != "ADC"@) by { if m == "ADC"@ { assert(m[0] == "ADC"@[0]); } }
    assert(m != "SUB"@) by { if m == "SUB"@ { assert(m[0] == "SUB"@[0]); } }
    assert(m != "SBB"@) by { if m == "SBB"@ { assert(m[0] == "SBB"@[0]); } }
    assert(m != "ANA"@) by { if m == "ANA"@ { assert(m[0] == "ANA"@[0]); } }
    assert(m != "XRA"@) by { if m == "XRA"@ { assert(m[0] == "XRA"@[0]); } }
    assert(m != "ORA"@) by { if m == "ORA"@ { assert(m[0] == "ORA"@[0]); } }
    assert(m != "CMP"@) by { if m == "CMP"@ { assert(m[1] == "CMP"@[1]); } }
    assert(m != "INX"@) by { if m == "INX"@ { assert(m[0] == "INX"@[0]); } }
    assert(m != "DAD"@) by { if m == "DAD"@ { assert(m[0] == "DAD"@[0]); } }
    assert(m != "DCX"@) by { if m == "DCX"@ { assert(m[0] == "DCX"@[0]); } }
    assert(m != "POP"@) by { if m == "POP"@ { assert(m[0] == "POP"@[0]); } }
    assert(m != "PUSH"@) by { if m == "PUSH"@ { assert(m.len() == "PUSH"@.len()); } }
    assert(m != "LXI"@) by { if m == "LXI"@ { assert(m[0] == "LXI"@[0]); } }
    assert(m != "MVI"@) by { if m == "MVI"@ { assert(m[0] == "MVI"@[0]); } }
    assert(m != "RST"@) by { if m == "RST"@ { assert(m[0] == "RST"@[0]); } }
}

#[verifier::rlimit(100)]
proof fn lemma_table_e4()
    ensures
        addr_op("CPO"@) == Some(0xe4u8),
{
    reveal_strlit("CALL");
    reveal_strlit("CC");
    reveal_strlit("CNC");
    reveal_strlit("CNZ");
    reveal_strlit("CPO");
    reveal_strlit("CZ");
    reveal_strlit("JC");
    reveal_strlit("JMP");
    reveal_strlit("JNC");
    reveal_strlit("JNZ");
    reveal_strlit("JPO");
    reveal_strlit("JZ");
    reveal_strlit("LDA");
    reveal_strlit("LHLD");
    reveal_strlit("SHLD");
    reveal_strlit("STA");
    let m = "CPO"@;
    assert(m != "SHLD"@) by { if m == "SHLD"@ { assert(m.len() == "SHLD"@.len()); } }
    assert(m != "LHLD"@) by { if m == "LHLD"@ { assert(m.len() == "LHLD"@.len()); } }
    assert(m != "STA"@) by { if m == "STA"@ { assert(m[0] == "STA"@[0]); } }
    assert(m != "LDA"@) by { if m == "LDA"@ { assert(m[0] == "LDA"@[0]); } }
    assert(m != "JMP"@) by { if m == "JMP"@ { assert(m[0] == "JMP"@[0]); } }
    assert(m != "JNZ"@) by { if m == "JNZ"@ { assert(m[0] == "JNZ"@[0]); } }
    assert(m != "CNZ"@) by { if m == "CNZ"@ { assert(m[1] == "CNZ"@[1]); } }
    assert(m != "JZ"@) by { if m == "JZ"@ { assert(m.len() == "JZ"@.len()); } }
    assert(m != "CZ"@) by { if m == "CZ"@ { assert(m.len() == "CZ"@.len()); } }
    assert(m != "CALL"@) by { if m == "CALL"@ { assert(m.len() == "CALL"@.len()); } }
    assert(m != "JNC"@) by { if m == "JNC"@ { assert(m[0] == "JNC"@[0]); } }
    assert(m != "CNC"@) by { if m == "CNC"@ { assert(m[1] == "CNC"@[1]); } }
    assert(m != "JC"@) by { if m == "JC"@ { assert(m.len() == "JC"@.len()); } }
    assert(m != "CC"@) by { if m == "CC"@ { assert(m.len() == "CC"@.len()); } }
    assert(m != "JPO"@) by { if m == "JPO"@ { assert(m[0] == "JPO"@[0]); } }
    assert(addr_op(m) == Some(0xe4u8));
}

#[verifier::rlimit(100)]
proof fn lemma_text_e4(v: u16)
    ensures
        shape(0xe4u8) is Some,
        encode_line(shape(0xe4u8)->Some_0.0 + hex_text(v as nat)) == Ok::<Seq<u8>, Seq<char>>(addr_bytes(0xe4u8, v)),
{
    reveal_strlit(" ");
    reveal_strlit("C");
    reveal_strlit("CPO");
    reveal_strlit("CPO ");
    reveal_strlit("J");
    reveal_strlit("M");
    reveal_strlit("NC");
    reveal_strlit("NZ");
    reveal_strlit("P");
    reveal_strlit("PE");
    reveal_strlit("PO");
    reveal_strlit("Z");
    let m = "CPO"@;
    assert(shape(0xe4u8)->Some_0.0 =~= m + " "@);
    lemma_operand_text(m, v as nat);
    lemma_name_e4();
    lemma_table_e4();
    lemma_address_args(m, v);
}

#[verifier::rlimit(100)]
proof fn lemma_name_ea()
    ensures
        not_register_form("JPE"@),
{
    reveal_strlit("ADC");
    reveal_strlit("ADD");
    reveal_strlit("ANA");
    reveal_strlit("CMP");
    reveal_strlit("DAD");
    reveal_strlit("DCR");
    reveal_strlit("DCX");
    reveal_strlit("INR");
    reveal_strlit("INX");
    reveal_strlit("JPE");
    reveal_strlit("LDAX");
    reveal_strlit("LXI");
    reveal_strlit("MOV");
    reveal_strlit("MVI");
    reveal_strlit("ORA");
    reveal_strlit("POP");
    reveal_strlit("PUSH");
    reveal_strlit("RST");
    reveal_strlit("SBB");
    reveal_strlit("STAX");
    reveal_strlit("SUB");
    reveal_strlit("XRA");
    let m = "JPE"@;
    assert(m != "MOV"@) by { if m == "MOV"@ { assert(m[0] == "MOV"@[0]); } }
    assert(m != "STAX"@) by { if m == "STAX"@ { assert(m.len() == "STAX"@.len()); } }
    assert(m != "LDAX"@) by { if m == "LDAX"@ { assert(m.len() == "LDAX"@.len()); } }
    assert(m != "INR"@) by { if m == "INR"@ { assert(m[0] == "INR"@[0]); } }
    assert(m != "DCR"@) by { if m == "DCR"@ { assert(m[0] == "DCR"@[0]); } }
    assert(m != "ADD"@) by { if m == "ADD"@ { assert(m[0] == "ADD"@[0]); } }
    assert(m != "ADC"@) by { if m == "ADC"@ { assert(m[0] == "ADC"@[0]); } }
    assert(m != "SUB"@) by { if m == "SUB"@ { assert(m[0] == "SUB"@[0]); } }
    assert(m != "SBB"@) by { if m == "SBB"@ { assert(m[0] == "SBB"@[0]); } }
    assert(m != "ANA"@) by { if m == "ANA"@ { assert(m[0] == "ANA"@[0]); } }
    assert(m != "XRA"@) by { if m == "XRA"@ { assert(m[0] == "XRA"@[0]); } }
    assert(m != "ORA"@) by { if m == "ORA"@ { assert(m[0] == "ORA"@[0]); } }
    assert(m != "CMP"@) by { if m == "CMP"@ { assert(m[0] == "CMP"@[0]); } }
    assert(m != "INX"@) by { if m == "INX"@ { assert(m[0] == "INX"@[0]); } }
    assert(m != "DAD"@) by { if m == "DAD"@ { assert(m[0] == "DAD"@[0]); } }
    assert(m != "DCX"@) by { if m == "DCX"@ { assert(m[0] == "DCX"@[0]); } }
    assert(m != "POP"@) by { if m == "POP"@ { assert(m[0] == "POP"@[0]); } }
    assert(m != "PUSH"@) by { if m == "PUSH"@ { assert(m.len() == "PUSH"@.len()); } }
    assert(m != "LXI"@) by { if m == "LXI"@ { assert(m[0] == "LXI"@[0]); } }
    assert(m != "MVI"@) by { if m == "MVI"@ { assert(m[0] == "MVI"@[0]); } }
    assert(m != "RST"@) by { if m == "RST"@ { assert(m[0] == "RST"@[0]); } }
}

#[verifier::rlimit(100)]
proof fn lemma_table_ea()
    ensures
        addr_op("JPE"@) == Some(0xeau8),
{
    reveal_strlit("CALL");
    reveal_strlit("CC");
    reveal_strlit("CNC");
    reveal_strlit("CNZ");
    reveal_strlit("CPO");
    reveal_strlit("CZ");
    reveal_strlit("JC");
    reveal_strlit("JMP");
    reveal_strlit("JNC");
    reveal_strlit("JNZ");
    reveal_strlit("JPE");
    reveal_strlit("JPO");
    reveal_strlit("JZ");
    reveal_strlit("LDA");
    reveal_strlit("LHLD");
    reveal_strlit("SHLD");
    reveal_strlit("STA");
    let m = "JPE"@;
    assert(m != "SHLD"@) by { if m == "SHLD"@ { assert(m.len() == "SHLD"@.len()); } }
    assert(m != "LHLD"@) by { if m == "LHLD"@ { assert(m.len() == "LHLD"@.len()); } }
    assert(m != "STA"@) by { if m == "STA"@ { assert(m[0] == "STA"@[0]); } }
    assert(m != "LDA"@) by { if m == "LDA"@ { assert(m[0] == "LDA"@[0]); } }
    assert(m != "JMP"@) by { if m == "JMP"@ { assert(m[1] == "JMP"@[1]); } }
    assert(m != "JNZ"@) by { if m == "JNZ"@ { assert(m[1] == "JNZ"@[1]); } }
    assert(m != "CNZ"@) by { if m == "CNZ"@ { assert(m[0] == "CNZ"@[0]); } }
    assert(m != "JZ"@) by { if m == "JZ"@ { assert(m.len() == "JZ"@.len()); } }
    assert(m != "CZ"@) by { if m == "CZ"@ { assert(m.len() == "CZ"@.len()); } }
    assert(m != "CALL"@) by { if m == "CALL"@ { assert(m.len() == "CALL"@.len()); } }
    assert(m != "JNC"@) by { if m == "JNC"@ { assert(m[1] == "JNC"@[1]); } }
    assert(m != "CNC"@) by { if m == "CNC"@ { assert(m[0] == "CNC"@[0]); } }
    assert(m != "JC"@) by { if m == "JC"@ { assert(m.len() == "JC"@.len()); } }
    assert(m != "CC"@) by { if m == "CC"@ { assert(m.len() == "CC"@.len()); } }
    assert(m != "JPO"@) by { if m == "JPO"@ { assert(m[2] == "JPO"@[2]); } }
    assert(m != "CPO"@) by { if m == "CPO"@ { assert(m[0] == "CPO"@[0]); } }
    assert(addr_op(m) == Some(0xeau8));
}

#[verifier::rlimit(100)]
proof fn lemma_text_ea(v: u16)
    ensures
        shape(0xeau8) is Some,
        encode_line(shape(0xeau8)->Some_0.0 + hex_text(v as nat)) == Ok::<Seq<u8>, Seq<char>>(addr_bytes(0xeau8, v)),
{
    reveal_strlit(" ");
    reveal_strlit("C");
    reveal_strlit("J");
    reveal_strlit("JPE");
    reveal_strlit("JPE ");
    reveal_strlit("M");
    reveal_strlit("NC");
    reveal_strlit("NZ");
    reveal_strlit("P");
    reveal_strlit("PE");
    reveal_strlit("PO");
    reveal_strlit("Z");
    let m = "JPE"@;
    assert(shape(0xeau8)->Some_0.0 =~= m + " "@);
    lemma_operand_text(m, v as nat);
    lemma_name_ea();
    lemma_table_ea();
    lemma_address_args(m, v);
}

#[verifier::rlimit(100)]
proof fn lemma_name_ec()
    ensures
        not_register_form("CPE"@),
{
    reveal_strlit("ADC");
    reveal_strlit("ADD");
    reveal_strlit("ANA");
    reveal_strlit("CMP");
    reveal_strlit("CPE");
    reveal_strlit("DAD");
    reveal_strlit("DCR");
    reveal_strlit("DCX");
    reveal_strlit("INR");
    reveal_strlit("INX");
    reveal_strlit("LDAX");
    reveal_strlit("LXI");
    reveal_strlit("MOV");
    reveal_strlit("MVI");
    reveal_strlit("ORA");
    reveal_strlit("POP");
    reveal_strlit("PUSH");
    reveal_strlit("RST");
    reveal_strlit("SBB");
    reveal_strlit("STAX");
    reveal_strlit("SUB");
    reveal_strlit("XRA");
    let m = "CPE"@;
    assert(m != "MOV"@) by { if m == "MOV"@ { assert(m[0] == "MOV"@[0]); } }
    assert(m != "STAX"@) by { if m == "STAX"@ { assert(m.len() == "STAX"@.len()); } }
    assert(m != "LDAX"@) by { if m == "LDAX"@ { assert(m.len() == "LDAX"@.len()); } }
    assert(m != "INR"@) by { if m == "INR"@ { assert(m[0] == "INR"@[0]); } }
    assert(m != "DCR"@) by { if m == "DCR"@ { assert(m[0] == "DCR"@[0]); } }
    assert(m != "ADD"@) by { if m == "ADD"@ { assert(m[0] == "ADD"@[0]); } }
    assert(m != "ADC"@) by { if m == "ADC"@ { assert(m[0] == "ADC"@[0]); } }
    assert(m != "SUB"@) by { if m == "SUB"@ { assert(m[0] == "SUB"@[0]); } }
    assert(m != "SBB"@) by { if m == "SBB"@ { assert(m[0] == "SBB"@[0]); } }
    assert(m != "ANA"@) by { if m == "ANA"@ { assert(m[0] == "ANA"@[0]); } }
    assert(m != "XRA"@) by { if m == "XRA"@ { assert(m[0] == "XRA"@[0]); } }
    assert(m != "ORA"@) by { if m == "ORA"@ { assert(m[0] == "ORA"@[0]); } }
    assert(m != "CMP"@) by { if m == "CMP"@ { assert(m[1] == "CMP"@[1]); } }
    assert(m != "INX"@) by { if m == "INX"@ { assert(m[0] == "INX"@[0]); } }
    assert(m != "DAD"@) by { if m == "DAD"@ { assert(m[0] == "DAD"@[0]); } }
    assert(m != "DCX"@) by { if m == "DCX"@ { assert(m[0] == "DCX"@[0]); } }
    assert(m != "POP"@) by { if m == "POP"@ { assert(m[0] == "POP"@[0]); } }
    assert(m != "PUSH"@) by { if m == "PUSH"@ { assert(m.len() == "PUSH"@.len()); } }
    assert(m != "LXI"@) by { if m == "LXI"@ { assert(m[0] == "LXI"@[0]); } }
    assert(m != "MVI"@) by { if m == "MVI"@ { assert(m[0] == "MVI"@[0]); } }
    assert(m != "RST"@) by { if m == "RST"@ { assert(m[0] == "RST"@[0]); } }
}

#[verifier::rlimit(100)]
proof fn lemma_table_ec()
    ensures
        addr_op("CPE"@) == Some(0xecu8),
{
    reveal_strlit("CALL");
    reveal_strlit("CC");
    reveal_strlit("CNC");
    reveal_strlit("CNZ");
    reveal_strlit("CPE");
    reveal_strlit("CPO");
    reveal_strlit("CZ");
    reveal_strlit("JC");
    reveal_strlit("JMP");
    reveal_strlit("JNC");
    reveal_strlit("JNZ");
    reveal_strlit("JPE");
    reveal_strlit("JPO");
    reveal_strlit("JZ");
    reveal_strlit("LDA");
    reveal_strlit("LHLD");
    reveal_strlit("SHLD");
    reveal_strlit("STA");
    let m = "CPE"@;
    assert(m != "SHLD"@) by { if m == "SHLD"@ { assert(m.len() == "SHLD"@.len()); } }
    assert(m != "LHLD"@) by { if m == "LHLD"@ { assert(m.len() == "LHLD"@.len()); } }
    assert(m != "STA"@) by { if m == "STA"@ { assert(m[0] == "STA"@[0]); } }
    assert(m != "LDA"@) by { if m == "LDA"@ { assert(m[0] == "LDA"@[0]); } }
    assert(m != "JMP"@) by { if m == "JMP"@ { assert(m[0] == "JMP"@[0]); } }
    assert(m != "JNZ"@) by { if m == "JNZ"@ { assert(m[0] == "JNZ"@[0]); } }
    assert(m != "CNZ"@) by { if m == "CNZ"@ { assert(m[1] == "CNZ"@[1]); } }
    assert(m != "JZ"@) by { if m == "JZ"@ { assert(m.len() == "JZ"@.len()); } }
    assert(m != "CZ"@) by { if m == "CZ"@ { assert(m.len() == "CZ"@.len()); } }
    assert(m != "CALL"@) by { if m == "CALL"@ { assert(m.len() == "CALL"@.len()); } }
    assert(m != "JNC"@) by { if m == "JNC"@ { assert(m[0] == "JNC"@[0]); } }
    assert(m != "CNC"@) by { if m == "CNC"@ { assert(m[1] == "CNC"@[1]); } }
    assert(m != "JC"@) by { if m == "JC"@ { assert(m.len() == "JC"@.len()); } }
    assert(m != "CC"@) by { if m == "CC"@ { assert(m.len() == "CC"@.len()); } }
    assert(m != "JPO"@) by { if m == "JPO"@ { assert(m[0] == "JPO"@[0]); } }
    assert(m != "CPO"@) by { if m == "CPO"@ { assert(m[2] == "CPO"@[2]); } }
    assert(m != "JPE"@) by { if m == "JPE"@ { assert(m[0] == "JPE"@[0]); } }
    assert(addr_op(m) == Some(0xecu8));
}

#[verifier::rlimit(100)]
proof fn lemma_text_ec(v: u16)
    ensures
        shape(0xecu8) is Some,
        encode_line(shape(0xecu8)->Some_0.0 + hex_text(v as nat)) == Ok::<Seq<u8>, Seq<char>>(addr_bytes(0xecu8, v)),
{
    reveal_strlit(" ");
    reveal_strlit("C");
    reveal_strlit("CPE");
    reveal_strlit("CPE ");
    reveal_strlit("J");
    reveal_strlit("M");
    reveal_strlit("NC");
    reveal_strlit("NZ");
    reveal_strlit("P");
    reveal_strlit("PE");
    reveal_strlit("PO");
    reveal_strlit("Z");
    let m = "CPE"@;
    assert(shape(0xecu8)->Some_0.0 =~= m + " "@);
    lemma_operand_text(m, v as nat);
    lemma_name_ec();
    lemma_table_ec();
    lemma_address_args(m, v);
}

#[verifier::rlimit(100)]
proof fn lemma_name_f2()
    ensures
        not_register_form("JP"@),
{
    reveal_strlit("ADC");
    reveal_strlit("ADD");
    reveal_strlit("ANA");
    reveal_strlit("CMP");
    reveal_strlit("DAD");
    reveal_strlit("DCR");
    reveal_strlit("DCX");
    reveal_strlit("INR");
    reveal_strlit("INX");
    reveal_strlit("JP");
    reveal_strlit("LDAX");
    reveal_strlit("LXI");
    reveal_strlit("MOV");
    reveal_strlit("MVI");
    reveal_strlit("ORA");
    reveal_strlit("POP");
    reveal_strlit("PUSH");
    reveal_strlit("RST");
    reveal_strlit("SBB");
    reveal_strlit("STAX");
    reveal_strlit("SUB");
    reveal_strlit("XRA");
    let m = "JP"@;
    assert(m != "MOV"@) by { if m == "MOV"@ { assert(m.len() == "MOV"@.len()); } }
    assert(m != "STAX"@) by { if m == "STAX"@ { assert(m.len() == "STAX"@.len()); } }
    assert(m != "LDAX"@) by { if m == "LDAX"@ { assert(m.len() == "LDAX"@.len()); } }
    assert(m != "INR"@) by { if m == "INR"@ { assert(m.len() == "INR"@.len()); } }
    assert(m != "DCR"@) by { if m == "DCR"@ { assert(m.len() == "DCR"@.len()); } }
    assert(m != "ADD"@) by { if m == "ADD"@ { assert(m.len() == "ADD"@.len()); } }
    assert(m != "ADC"@) by { if m == "ADC"@ { assert(m.len() == "ADC"@.len()); } }
    assert(m != "SUB"@) by { if m == "SUB"@ { assert(m.len() == "SUB"@.len()); } }
    assert(m != "SBB"@) by { if m == "SBB"@ { assert(m.len() == "SBB"@.len()); } }
    assert(m != "ANA"@) by { if m == "ANA"@ { assert(m.len() == "ANA"@.len()); } }
    assert(m != "XRA"@) by { if m == "XRA"@ { assert(m.len() == "XRA"@.len()); } }
    assert(m != "ORA"@) by { if m == "ORA"@ { assert(m.len() == "ORA"@.len()); } }
    assert(m != "CMP"@) by { if m == "CMP"@ { assert(m.len() == "CMP"@.len()); } }
    assert(m != "INX"@) by { if m == "INX"@ { assert(m.len() == "INX"@.len()); } }
    assert(m != "DAD"@) by { if m == "DAD"@ { assert(m.len() == "DAD"@.len()); } }
    assert(m != "DCX"@) by { if m == "DCX"@ { assert(m.len() == "DCX"@.len()); } }
    assert(m != "POP"@) by { if m == "POP"@ { assert(m.len() == "POP"@.len()); } }
    assert(m != "PUSH"@) by { if m == "PUSH"@ { assert(m.len() == "PUSH"@.len()); } }
    assert(m != "LXI"@) by { if m == "LXI"@ { assert(m.len() == "LXI"@.len()); } }
    assert(m != "MVI"@) by { if m == "MVI"@ { assert(m.len() == "MVI"@.len()); } }
    assert(m != "RST"@) by { if m == "RST"@ { assert(m.len() == "RST"@.len()); } }
}

#[verifier::rlimit(100)]
proof fn lemma_table_f2()
    ensures
        addr_op("JP"@) == Some(0xf2u8),
{
    reveal_strlit("CALL");
    reveal_strlit("CC");
    reveal_strlit("CNC");
    reveal_strlit("CNZ");
    reveal_strlit("CPE");
    reveal_strlit("CPO");
    reveal_strlit("CZ");
    reveal_strlit("JC");
    reveal_strlit("JMP");
    reveal_strlit("JNC");
    reveal_strlit("JNZ");
    reveal_strlit("JP");
    reveal_strlit("JPE");
    reveal_strlit("JPO");
    reveal_strlit("JZ");
    reveal_strlit("LDA");
    reveal_strlit("LHLD");
    reveal_strlit("SHLD");
    reveal_strlit("STA");
    let m = "JP"@;
    assert(m != "SHLD"@) by { if m == "SHLD"@ { assert(m.len() == "SHLD"@.len()); } }
    assert(m != "LHLD"@) by { if m == "LHLD"@ { assert(m.len() == "LHLD"@.len()); } }
    assert(m != "STA"@) by { if m == "STA"@ { assert(m.len() == "STA"@.len()); } }
    assert(m != "LDA"@) by { if m == "LDA"@ { assert(m.len() == "LDA"@.len()); } }
    assert(m != "JMP"@) by { if m == "JMP"@ { assert(m.len() == "JMP"@.len()); } }
    assert(m != "JNZ"@) by { if m == "JNZ"@ { assert(m.len() == "JNZ"@.len()); } }
    assert(m != "CNZ"@) by { if m == "CNZ"@ { assert(m.len() == "CNZ"@.len()); } }
    assert(m != "JZ"@) by { if m == "JZ"@ { assert(m[1] == "JZ"@[1]); } }
    assert(m != "CZ"@) by { if m == "CZ"@ { assert(m[0] == "CZ"@[0]); } }
    assert(m != "CALL"@) by { if m == "CALL"@ { assert(m.len() == "CALL"@.len()); } }
    assert(m != "JNC"@) by { if m == "JNC"@ { assert(m.len() == "JNC"@.len()); } }
    assert(m != "CNC"@) by { if m == "CNC"@ { assert(m.len() == "CNC"@.len()); } }
    assert(m != "JC"@) by { if m == "JC"@ { assert(m[1] == "JC"@[1]); } }
    assert(m != "CC"@) by { if m == "CC"@ { assert(m[0] == "CC"@[0]); } }
    assert(m != "JPO"@) by { if m == "JPO"@ { assert(m.len() == "JPO"@.len()); } }
    assert(m != "CPO"@) by { if m == "CPO"@ { assert(m.len() == "CPO"@.len()); } }
    assert(m != "JPE"@) by { if m == "JPE"@ { assert(m.len() == "JPE"@.len()); } }
    assert(m != "CPE"@) by { if m == "CPE"@ { assert(m.len() == "CPE"@.len()); } }
    assert(addr_op(m) == Some(0xf2u8));
}

#[verifier::rlimit(100)]
proof fn lemma_text_f2(v: u16)
    ensures
        shape(0xf2u8) is Some,
        encode_line(shape(0xf2u8)->Some_0.0 + hex_text(v as nat)) == Ok::<Seq<u8>, Seq<char>>(addr_bytes(0xf2u8, v)),
{
    reveal_strlit(" ");
    reveal_strlit("C");
    reveal_strlit("J");
    reveal_strlit("JP");
    reveal_strlit("JP ");
    reveal_strlit("M");
    reveal_strlit("NC");
    reveal_strlit("NZ");
    reveal_strlit("P");
    reveal_strlit("PE");
    reveal_strlit("PO");
    reveal_strlit("Z");
    let m = "JP"@;
    assert(shape(0xf2u8)->Some_0.0 =~= m + " "@);
    lemma_operand_text(m, v as nat);
    lemma_name_f2();
    lemma_table_f2();
    lemma_address_args(m, v);
}

#[verifier::rlimit(100)]
proof fn lemma_name_f4()
    ensures
        not_register_form("CP"@),
{
    reveal_strlit("ADC");
    reveal_strlit("ADD");
    reveal_strlit("ANA");
    reveal_strlit("CMP");
    reveal_strlit("CP");
    reveal_strlit("DAD");
    reveal_strlit("DCR");
    reveal_strlit("DCX");
    reveal_strlit("INR");
    reveal_strlit("INX");
    reveal_strlit("LDAX");
    reveal_strlit("LXI");
    reveal_strlit("MOV");
    reveal_strlit("MVI");
    reveal_strlit("ORA");
    reveal_strlit("POP");
    reveal_strlit("PUSH");
    reveal_strlit("RST");
    reveal_strlit("SBB");
    reveal_strlit("STAX");
    reveal_strlit("SUB");
    reveal_strlit("XRA");
    let m = "CP"@;
    assert(m != "MOV"@) by { if m == "MOV"@ { assert(m.len() == "MOV"@.len()); } }
    assert(m != "STAX"@) by { if m == "STAX"@ { assert(m.len() == "STAX"@.len()); } }
    assert(m != "LDAX"@) by { if m == "LDAX"@ { assert(m.len() == "LDAX"@.len()); } }
    assert(m != "INR"@) by { if m == "INR"@ { assert(m.len() == "INR"@.len()); } }
    assert(m != "DCR"@) by { if m == "DCR"@ { assert(m.len() == "DCR"@.len()); } }
    assert(m != "ADD"@) by { if m == "ADD"@ { assert(m.len() == "ADD"@.len()); } }
    assert(m != "ADC"@) by { if m == "ADC"@ { assert(m.len() == "ADC"@.len()); } }
    assert(m != "SUB"@) by { if m == "SUB"@ { assert(m.len() == "SUB"@.len()); } }
    assert(m != "SBB"@) by { if m == "SBB"@ { assert(m.len() == "SBB"@.len()); } }
    assert(m != "ANA"@) by { if m == "ANA"@ { assert(m.len() == "ANA"@.len()); } }
    assert(m != "XRA"@) by { if m == "XRA"@ { assert(m.len() == "XRA"@.len()); } }
    assert(m != "ORA"@) by { if m == "ORA"@ { assert(m.len() == "ORA"@.len()); } }
    assert(m != "CMP"@) by { if m == "CMP"@ { assert(m.len() == "CMP"@.len()); } }
    assert(m != "INX"@) by { if m == "INX"@ { assert(m.len() == "INX"@.len()); } }
    assert(m != "DAD"@) by { if m == "DAD"@ { assert(m.len() == "DAD"@.len()); } }
    assert(m != "DCX"@) by { if m == "DCX"@ { assert(m.len() == "DCX"@.len()); } }
    assert(m != "POP"@) by { if m == "POP"@ { assert(m.len() == "POP"@.len()); } }
    assert(m != "PUSH"@) by { if m == "PUSH"@ { assert(m.len() == "PUSH"@.len()); } }
    assert(m != "LXI"@) by { if m == "LXI"@ { assert(m.len() == "LXI"@.len()); } }
    assert(m != "MVI"@) by { if m == "MVI"@ { assert(m.len() == "MVI"@.len()); } }
    assert(m != "RST"@) by { if m == "RST"@ { assert(m.len() == "RST"@.len()); } }
}

#[verifier::rlimit(100)]
proof fn lemma_table_f4()
    ensures
        addr_op("CP"@) == Some(0xf4u8),
{
    reveal_strlit("CALL");
    reveal_strlit("CC");
    reveal_strlit("CNC");
    reveal_strlit("CNZ");
    reveal_strlit("CP");
    reveal_strlit("CPE");
    reveal_strlit("CPO");
    reveal_strlit("CZ");
    reveal_strlit("JC");
    reveal_strlit("JMP");
    reveal_strlit("JNC");
    reveal_strlit("JNZ");
    reveal_strlit("JP");
    reveal_strlit("JPE");
    reveal_strlit("JPO");
    reveal_strlit("JZ");
    reveal_strlit("LDA");
    reveal_strlit("LHLD");
    reveal_strlit("SHLD");
    reveal_strlit("STA");
    let m = "CP"@;
    assert(m != "SHLD"@) by { if m == "SHLD"@ { assert(m.len() == "SHLD"@.len()); } }
    assert(m != "LHLD"@) by { if m == "LHLD"@ { assert(m.len() == "LHLD"@.len()); } }
    assert(m != "STA"@) by { if m == "STA"@ { assert(m.len() == "STA"@.len()); } }
    assert(m != "LDA"@) by { if m == "LDA"@ { assert(m.len() == "LDA"@.len()); } }
    assert(m != "JMP"@) by { if m == "JMP"@ { assert(m.len() == "JMP"@.len()); } }
    assert(m != "JNZ"@) by { if m == "JNZ"@ { assert(m.len() == "JNZ"@.len()); } }
    assert(m != "CNZ"@) by { if m == "CNZ"@ { assert(m.len() == "CNZ"@.len()); } }
    assert(m != "JZ"@) by { if m == "JZ"@ { assert(m[0] == "JZ"@[0]); } }
    assert(m != "CZ"@) by { if m == "CZ"@ { assert(m[1] == "CZ"@[1]); } }
    assert(m != "CALL"@) by { if m == "CALL"@ { assert(m.len() == "CALL"@.len()); } }
    assert(m != "JNC"@) by { if m == "JNC"@ { assert(m.len() == "JNC"@.len()); } }
    assert(m != "CNC"@) by { if m == "CNC"@ { assert(m.len() == "CNC"@.len()); } }
    assert(m != "JC"@) by { if m == "JC"@ { assert(m[0] == "JC"@[0]); } }
    assert(m != "CC"@) by { if m == "CC"@ { assert(m[1] == "CC"@[1]); } }
    assert(m != "JPO"@) by { if m == "JPO"@ { assert(m.len() == "JPO"@.len()); } }
    assert(m != "CPO"@) by { if m == "CPO"@ { assert(m.len() == "CPO"@.len()); } }
    assert(m != "JPE"@) by { if m == "JPE"@ { assert(m.len() == "JPE"@.len()); } }
    assert(m != "CPE"@) by { if m == "CPE"@ { assert(m.len() == "CPE"@.len()); } }
    assert(m != "JP"@) by { if m == "JP"@ { assert(m[0] == "JP"@[0]); } }
    assert(addr_op(m) == Some(0xf4u8));
}

#[verifier::rlimit(100)]
proof fn lemma_text_f4(v: u16)
    ensures
        shape(0xf4u8) is Some,
        encode_line(shape(0xf4u8)->Some_0.0 + hex_text(v as nat)) == Ok::<Seq<u8>, Seq<char>>(addr_bytes(0xf4u8, v)),
{
    reveal_strlit(" ");
    reveal_strlit("C");
    reveal_strlit("CP");
    reveal_strlit("CP ");
    reveal_strlit("J");
    reveal_strlit("M");
    reveal_strlit("NC");
    reveal_strlit("NZ");
    reveal_strlit("P");
    reveal_strlit("PE");
    reveal_strlit("PO");
    reveal_strlit("Z");
    let m = "CP"@;
    assert(shape(0xf4u8)->Some_0.0 =~= m + " "@);
    lemma_operand_text(m, v as nat);
    lemma_name_f4();
    lemma_table_f4();
    lemma_address_args(m, v);
}

#[verifier::rlimit(100)]
proof fn lemma_name_fa()
    ensures
        not_register_form("JM"@),
{
    reveal_strlit("ADC");
    reveal_strlit("ADD");
    reveal_strlit("ANA");
    reveal_strlit("CMP");
    reveal_strlit("DAD");
    reveal_strlit("DCR");
    reveal_strlit("DCX");
    reveal_strlit("INR");
    reveal_strlit("INX");
    reveal_strlit("JM");
    reveal_strlit("LDAX");
    reveal_strlit("LXI");
    reveal_strlit("MOV");
    reveal_strlit("MVI");
    reveal_strlit("ORA");
    reveal_strlit("POP");
    reveal_strlit("PUSH");
    reveal_strlit("RST");
    reveal_strlit("SBB");
    reveal_strlit("STAX");
    reveal_strlit("SUB");
    reveal_strlit("XRA");
    let m = "JM"@;
    assert(m != "MOV"@) by { if m == "MOV"@ { assert(m.len() == "MOV"@.len()); } }
    assert(m != "STAX"@) by { if m == "STAX"@ { assert(m.len() == "STAX"@.len()); } }
    assert(m != "LDAX"@) by { if m == "LDAX"@ { assert(m.len() == "LDAX"@.len()); } }
    assert(m != "INR"@) by { if m == "INR"@ { assert(m.len() == "INR"@.len()); } }
    assert(m != "DCR"@) by { if m == "DCR"@ { assert(m.len() == "DCR"@.len()); } }
    assert(m != "ADD"@) by { if m == "ADD"@ { assert(m.len() == "ADD"@.len()); } }
    assert(m != "ADC"@) by { if m == "ADC"@ { assert(m.len() == "ADC"@.len()); } }
    assert(m != "SUB"@) by { if m == "SUB"@ { assert(m.len() == "SUB"@.len()); } }
    assert(m != "SBB"@) by { if m == "SBB"@ { assert(m.len() == "SBB"@.len()); } }
    assert(m != "ANA"@) by { if m == "ANA"@ { assert(m.len() == "ANA"@.len()); } }
    assert(m != "XRA"@) by { if m == "XRA"@ { assert(m.len() == "XRA"@.len()); } }
    assert(m != "ORA"@) by { if m == "ORA"@ { assert(m.len() == "ORA"@.len()); } }
    assert(m != "CMP"@) by { if m == "CMP"@ { assert(m.len() == "CMP"@.len()); } }
    assert(m != "INX"@) by { if m == "INX"@ { assert(m.len() == "INX"@.len()); } }
    assert(m != "DAD"@) by { if m == "DAD"@ { assert(m.len() == "DAD"@.len()); } }
    assert(m != "DCX"@) by { if m == "DCX"@ { assert(m.len() == "DCX"@.len()); } }
    assert(m != "POP"@) by { if m == "POP"@ { assert(m.len() == "POP"@.len()); } }
    assert(m != "PUSH"@) by { if m == "PUSH"@ { assert(m.len() == "PUSH"@.len()); } }
    assert(m != "LXI"@) by { if m == "LXI"@ { assert(m.len() == "LXI"@.len()); } }
    assert(m != "MVI"@) by { if m == "MVI"@ { assert(m.len() == "MVI"@.len()); } }
    assert(m != "RST"@) by { if m == "RST"@ { assert(m.len() == "RST"@.len()); } }
}

#[verifier::rlimit(100)]
proof fn lemma_table_fa()
    ensures
        addr_op("JM"@) == Some(0xfau8),
{
    reveal_strlit("CALL");
    reveal_strlit("CC");
    reveal_strlit("CNC");
    reveal_strlit("CNZ");
    reveal_strlit("CP");
    reveal_strlit("CPE");
    reveal_strlit("CPO");
    reveal_strlit("CZ");
    reveal_strlit("JC");
    reveal_strlit("JM");
    reveal_strlit("JMP");
    reveal_strlit("JNC");
    reveal_strlit("JNZ");
    reveal_strlit("JP");
    reveal_strlit("JPE");
    reveal_strlit("JPO");
    reveal_strlit("JZ");
    reveal_strlit("LDA");
    reveal_strlit("LHLD");
    reveal_strlit("SHLD");
    reveal_strlit("STA");
    let m = "JM"@;
    assert(m != "SHLD"@) by { if m == "SHLD"@ { assert(m.len() == "SHLD"@.len()); } }
    assert(m != "LHLD"@) by { if m == "LHLD"@ { assert(m.len() == "LHLD"@.len()); } }
    assert(m != "STA"@) by { if m == "STA"@ { assert(m.len() == "STA"@.len()); } }
    assert(m != "LDA"@) by { if m == "LDA"@ { assert(m.len() == "LDA"@.len()); } }
    assert(m != "JMP"@) by { if m == "JMP"@ { assert(m.len() == "JMP"@.len()); } }
    assert(m != "JNZ"@) by { if m == "JNZ"@ { assert(m.len() == "JNZ"@.len()); } }
    assert(m != "CNZ"@) by { if m == "CNZ"@ { assert(m.len() == "CNZ"@.len()); } }
    assert(m != "JZ"@) by { if m == "JZ"@ { assert(m[1] == "JZ"@[1]); } }
    assert(m != "CZ"@) by { if m == "CZ"@ { assert(m[0] == "CZ"@[0]); } }
    assert(m != "CALL"@) by { if m == "CALL"@ { assert(m.len() == "CALL"@.len()); } }
    assert(m != "JNC"@) by { if m == "JNC"@ { assert(m.len() == "JNC"@.len()); } }
    assert(m != "CNC"@) by { if m == "CNC"@ { assert(m.len() == "CNC"@.len()); } }
    assert(m != "JC"@) by { if m == "JC"@ { assert(m[1] == "JC"@[1]); } }
    assert(m != "CC"@) by { if m == "CC"@ { assert(m[0] == "CC"@[0]); } }
    assert(m != "JPO"@) by { if m == "JPO"@ { assert(m.len() == "JPO"@.len()); } }
    assert(m != "CPO"@) by { if m == "CPO"@ { assert(m.len() == "CPO"@.len()); } }
    assert(m != "JPE"@) by { if m == "JPE"@ { assert(m.len() == "JPE"@.len()); } }
    assert(m != "CPE"@) by { if m == "CPE"@ { assert(m.len() == "CPE"@.len()); } }
    assert(m != "JP"@) by { if m == "JP"@ { assert(m[1] == "JP"@[1]); } }
    assert(m != "CP"@) by { if m == "CP"@ { assert(m[0] == "CP"@[0]); } }
    assert(addr_op(m) == Some(0xfau8));
}

#[verifier::rlimit(100)]
proof fn lemma_text_fa(v: u16)
    ensures
        shape(0xfau8) is Some,
        encode_line(shape(0xfau8)->Some_0.0 + hex_text(v as nat)) == Ok::<Seq<u8>, Seq<char>>(addr_bytes(0xfau8, v)),
{
    reveal_strlit(" ");
    reveal_strlit("C");
    reveal_strlit("J");
    reveal_strlit("JM");
    reveal_strlit("JM ");
    reveal_strlit("M");
    reveal_strlit("NC");
    reveal_strlit("NZ");
    reveal_strlit("P");
    reveal_strlit("PE");
    reveal_strlit("PO");
    reveal_strlit("Z");
    let m = "JM"@;
    assert(shape(0xfau8)->Some_0.0 =~= m + " "@);
    lemma_operand_text(m, v as nat);
    lemma_name_fa();
    lemma_table_fa();
    lemma_address_args(m, v);
}

#[verifier::rlimit(100)]
proof fn lemma_name_fc()
    ensures
        not_register_form("CM"@),
{
    reveal_strlit("ADC");
    reveal_strlit("ADD");
    reveal_strlit("ANA");
    reveal_strlit("CM");
    reveal_strlit("CMP");
    reveal_strlit("DAD");
    reveal_strlit("DCR");
    reveal_strlit("DCX");
    reveal_strlit("INR");
    reveal_strlit("INX");
    reveal_strlit("LDAX");
    reveal_strlit("LXI");
    reveal_strlit("MOV");
    reveal_strlit("MVI");
    reveal_strlit("ORA");
    reveal_strlit("POP");
    reveal_strlit("PUSH");
    reveal_strlit("RST");
    reveal_strlit("SBB");
    reveal_strlit("STAX");
    reveal_strlit("SUB");
    reveal_strlit("XRA");
    let m = "CM"@;
    assert(m != "MOV"@) by { if m == "MOV"@ { assert(m.len() == "MOV"@.len()); } }
    assert(m != "STAX"@) by { if m == "STAX"@ { assert(m.len() == "STAX"@.len()); } }
    assert(m != "LDAX"@) by { if m == "LDAX"@ { assert(m.len() == "LDAX"@.len()); } }
    assert(m != "INR"@) by { if m == "INR"@ { assert(m.len() == "INR"@.len()); } }
    assert(m != "DCR"@) by { if m == "DCR"@ { assert(m.len() == "DCR"@.len()); } }
    assert(m != "ADD"@) by { if m == "ADD"@ { assert(m.len() == "ADD"@.len()); } }
    assert(m != "ADC"@) by { if m == "ADC"@ { assert(m.len() == "ADC"@.len()); } }
    assert(m != "SUB"@) by { if m == "SUB"@ { assert(m.len() == "SUB"@.len()); } }
    assert(m != "SBB"@) by { if m == "SBB"@ { assert(m.len() == "SBB"@.len()); } }
    assert(m != "ANA"@) by { if m == "ANA"@ { assert(m.len() == "ANA"@.len()); } }
    assert(m != "XRA"@) by { if m == "XRA"@ { assert(m.len() == "XRA"@.len()); } }
    assert(m != "ORA"@) by { if m == "ORA"@ { assert(m.len() == "ORA"@.len()); } }
    assert(m != "CMP"@) by { if m == "CMP"@ { assert(m.len() == "CMP"@.len()); } }
    assert(m != "INX"@) by { if m == "INX"@ { assert(m.len() == "INX"@.len()); } }
    assert(m != "DAD"@) by { if m == "DAD"@ { assert(m.len() == "DAD"@.len()); } }
    assert(m != "DCX"@) by { if m == "DCX"@ { assert(m.len() == "DCX"@.len()); } }
    assert(m != "POP"@) by { if m == "POP"@ { assert(m.len() == "POP"@.len()); } }
    assert(m != "PUSH"@) by { if m == "PUSH"@ { assert(m.len() == "PUSH"@.len()); } }
    assert(m != "LXI"@) by { if m == "LXI"@ { assert(m.len() == "LXI"@.len()); } }
    assert(m != "MVI"@) by { if m == "MVI"@ { assert(m.len() == "MVI"@.len()); } }
    assert(m != "RST"@) by { if m == "RST"@ { assert(m.len() == "RST"@.len()); } }
}

#[verifier::rlimit(100)]
proof fn lemma_table_fc()
    ensures
        addr_op("CM"@) == Some(0xfcu8),
{
    reveal_strlit("CALL");
    reveal_strlit("CC");
    reveal_strlit("CM");
    reveal_strlit("CNC");
    reveal_strlit("CNZ");
    reveal_strlit("CP");
    reveal_strlit("CPE");
    reveal_strlit("CPO");
    reveal_strlit("CZ");
    reveal_strlit("JC");
    reveal_strlit("JM");
    reveal_strlit("JMP");
    reveal_strlit("JNC");
    reveal_strlit("JNZ");
    reveal_strlit("JP");
    reveal_strlit("JPE");
    reveal_strlit("JPO");
    reveal_strlit("JZ");
    reveal_strlit("LDA");
    reveal_strlit("LHLD");
    reveal_strlit("SHLD");
    reveal_strlit("STA");
    let m = "CM"@;
    assert(m != "SHLD"@) by { if m == "SHLD"@ { assert(m.len() == "SHLD"@.len()); } }
    assert(m != "LHLD"@) by { if m == "LHLD"@ { assert(m.len() == "LHLD"@.len()); } }
    assert(m != "STA"@) by { if m == "STA"@ { assert(m.len() == "STA"@.len()); } }
    assert(m != "LDA"@) by { if m == "LDA"@ { assert(m.len() == "LDA"@.len()); } }
    assert(m != "JMP"@) by { if m == "JMP"@ { assert(m.len() == "JMP"@.len()); } }
    assert(m != "JNZ"@) by { if m == "JNZ"@ { assert(m.len() == "JNZ"@.len()); } }
    assert(m != "CNZ"@) by { if m == "CNZ"@ { assert(m.len() == "CNZ"@.len()); } }
    assert(m != "JZ"@) by { if m == "JZ"@ { assert(m[0] == "JZ"@[0]); } }
    assert(m != "CZ"@) by { if m == "CZ"@ { assert(m[1] == "CZ"@[1]); } }
    assert(m != "CALL"@) by { if m == "CALL"@ { assert(m.len() == "CALL"@.len()); } }
    assert(m != "JNC"@) by { if m == "JNC"@ { assert(m.len() == "JNC"@.len()); } }
    assert(m != "CNC"@) by { if m == "CNC"@ { assert(m.len() == "CNC"@.len()); } }
    assert(m != "JC"@) by { if m == "JC"@ { assert(m[0] == "JC"@[0]); } }
    assert(m != "CC"@) by { if m == "CC"@ { assert(m[1] == "CC"@[1]); } }
    assert(m != "JPO"@) by { if m == "JPO"@ { assert(m.len() == "JPO"@.len()); } }
    assert(m != "CPO"@) by { if m == "CPO"@ { assert(m.len() == "CPO"@.len()); } }
    assert(m != "JPE"@) by { if m == "JPE"@ { assert(m.len() == "JPE"@.len()); } }
    assert(m != "CPE"@) by { if m == "CPE"@ { assert(m.len() == "CPE"@.len()); } }
    assert(m != "JP"@) by { if m == "JP"@ { assert(m[0] == "JP"@[0]); } }
    assert(m != "CP"@) by { if m == "CP"@ { assert(m[1] == "CP"@[1]); } }
    assert(m != "JM"@) by { if m == "JM"@ { assert(m[0] == "JM"@[0]); } }
    assert(addr_op(m) == Some(0xfcu8));
}

#[verifier::rlimit(100)]
proof fn lemma_text_fc(v: u16)
    ensures
        shape(0xfcu8) is Some,
        encode_line(shape(0xfcu8)->Some_0.0 + hex_text(v as nat)) == Ok::<Seq<u8>, Seq<char>>(addr_bytes(0xfcu8, v)),
{
    reveal_strlit(" ");
    reveal_strlit("C");
    reveal_strlit("CM");
    reveal_strlit("CM ");
    reveal_strlit("J");
    reveal_strlit("M");
    reveal_strlit("NC");
    reveal_strlit("NZ");
    reveal_strlit("P");
    reveal_strlit("PE");
    reveal_strlit("PO");
    reveal_strlit("Z");
    let m = "CM"@;
    assert(shape(0xfcu8)->Some_0.0 =~= m + " "@);
    lemma_operand_text(m, v as nat);
    lemma_name_fc();
    lemma_table_fc();
    lemma_address_args(m, v);
}

#[verifier::rlimit(100)]
proof fn lemma_name_d3()
    ensures
        not_register_form("OUT"@),
{
    reveal_strlit("ADC");
    reveal_strlit("ADD");
    reveal_strlit("ANA");
    reveal_strlit("CMP");
    reveal_strlit("DAD");
    reveal_strlit("DCR");
    reveal_strlit("DCX");
    reveal_strlit("INR");
    reveal_strlit("INX");
    reveal_strlit("LDAX");
    reveal_strlit("LXI");
    reveal_strlit("MOV");
    reveal_strlit("MVI");
    reveal_strlit("ORA");
    reveal_strlit("OUT");
    reveal_strlit("POP");
    reveal_strlit("PUSH");
    reveal_strlit("RST");
    reveal_strlit("SBB");
    reveal_strlit("STAX");
    reveal_strlit("SUB");
    reveal_strlit("XRA");
    let m = "OUT"@;
    assert(m != "MOV"@) by { if m == "MOV"@ { assert(m[0] == "MOV"@[0]); } }
    assert(m != "STAX"@) by { if m == "STAX"@ { assert(m.len() == "STAX"@.len()); } }
    assert(m != "LDAX"@) by { if m == "LDAX"@ { assert(m.len() == "LDAX"@.len()); } }
    assert(m != "INR"@) by { if m == "INR"@ { assert(m[0] == "INR"@[0]); } }
    assert(m != "DCR"@) by { if m == "DCR"@ { assert(m[0] == "DCR"@[0]); } }
    assert(m != "ADD"@) by { if m == "ADD"@ { assert(m[0] == "ADD"@[0]); } }
    assert(m != "ADC"@) by { if m == "ADC"@ { assert(m[0] == "ADC"@[0]); } }
    assert(m != "SUB"@) by { if m == "SUB"@ { assert(m[0] == "SUB"@[0]); } }
    assert(m != "SBB"@) by { if m == "SBB"@ { assert(m[0] == "SBB"@[0]); } }
    assert(m != "ANA"@) by { if m == "ANA"@ { assert(m[0] == "ANA"@[0]); } }
    assert(m != "XRA"@) by { if m == "XRA"@ { assert(m[0] == "XRA"@[0]); } }
    assert(m != "ORA"@) by { if m == "ORA"@ { assert(m[1] == "ORA"@[1]); } }
    assert(m != "CMP"@) by { if m == "CMP"@ { assert(m[0] == "CMP"@[0]); } }
    assert(m != "INX"@) by { if m == "INX"@ { assert(m[0] == "INX"@[0]); } }
    assert(m != "DAD"@) by { if m == "DAD"@ { assert(m[0] == "DAD"@[0]); } }
    assert(m != "DCX"@) by { if m == "DCX"@ { assert(m[0] == "DCX"@[0]); } }
    assert(m != "POP"@) by { if m == "POP"@ { assert(m[0] == "POP"@[0]); } }
    assert(m != "PUSH"@) by { if m == "PUSH"@ { assert(m.len() == "PUSH"@.len()); } }
    assert(m != "LXI"@) by { if m == "LXI"@ { assert(m[0] == "LXI"@[0]); } }
    assert(m != "MVI"@) by { if m == "MVI"@ { assert(m[0] == "MVI"@[0]); } }
    assert(m != "RST"@) by { if m == "RST"@ { assert(m[0] == "RST"@[0]); } }
}

#[verifier::rlimit(100)]
proof fn lemma_table_d3()
    ensures
        addr_op("OUT"@) is None,
        imm_op("OUT"@) == Some(0xd3u8),
{
    reveal_strlit("ACI");
    reveal_strlit("ADI");
    reveal_strlit("CALL");
    reveal_strlit("CC");
    reveal_strlit("CM");
    reveal_strlit("CNC");
    reveal_strlit("CNZ");
    reveal_strlit("CP");
    reveal_strlit("CPE");
    reveal_strlit("CPO");
    reveal_strlit("CZ");
    reveal_strlit("JC");
    reveal_strlit("JM");
    reveal_strlit("JMP");
    reveal_strlit("JNC");
    reveal_strlit("JNZ");
    reveal_strlit("JP");
    reveal_strlit("JPE");
    reveal_strlit("JPO");
    reveal_strlit("JZ");
    reveal_strlit("LDA");
    reveal_strlit("LHLD");
    reveal_strlit("OUT");
    reveal_strlit("SHLD");
    reveal_strlit("STA");
    let m = "OUT"@;
    assert(m != "SHLD"@) by { if m == "SHLD"@ { assert(m.len() == "SHLD"@.len()); } }
    assert(m != "LHLD"@) by { if m == "LHLD"@ { assert(m.len() == "LHLD"@.len()); } }
    assert(m != "STA"@) by { if m == "STA"@ { assert(m[0] == "STA"@[0]); } }
    assert(m != "LDA"@) by { if m == "LDA"@ { assert(m[0] == "LDA"@[0]); } }
    assert(m != "JMP"@) by { if m == "JMP"@ { assert(m[0] == "JMP"@[0]); } }
    assert(m != "JNZ"@) by { if m == "JNZ"@ { assert(m[0] == "JNZ"@[0]); } }
    assert(m != "CNZ"@) by { if m == "CNZ"@ { assert(m[0] == "CNZ"@[0]); } }
    assert(m != "JZ"@) by { if m == "JZ"@ { assert(m.len() == "JZ"@.len()); } }
    assert(m != "CZ"@) by { if m == "CZ"@ { assert(m.len() == "CZ"@.len()); } }
    assert(m != "CALL"@) by { if m == "CALL"@ { assert(m.len() == "CALL"@.len()); } }
    assert(m != "JNC"@) by { if m == "JNC"@ { assert(m[0] == "JNC"@[0]); } }
    assert(m != "CNC"@) by { if m == "CNC"@ { assert(m[0] == "CNC"@[0]); } }
    assert(m != "JC"@) by { if m == "JC"@ { assert(m.len() == "JC"@.len()); } }
    assert(m != "CC"@) by { if m == "CC"@ { assert(m.len() == "CC"@.len()); } }
    assert(m != "JPO"@) by { if m == "JPO"@ { assert(m[0] == "JPO"@[0]); } }
    assert(m != "CPO"@) by { if m == "CPO"@ { assert(m[0] == "CPO"@[0]); } }
    assert(m != "JPE"@) by { if m == "JPE"@ { assert(m[0] == "JPE"@[0]); } }
    assert(m != "CPE"@) by { if m == "CPE"@ { assert(m[0] == "CPE"@[0]); } }
    assert(m != "JP"@) by { if m == "JP"@ { assert(m.len() == "JP"@.len()); } }
    assert(m != "CP"@) by { if m == "CP"@ { assert(m.len() == "CP"@.len()); } }
    assert(m != "JM"@) by { if m == "JM"@ { assert(m.len() == "JM"@.len()); } }
    assert(m != "CM"@) by { if m == "CM"@ { assert(m.len() == "CM"@.len()); } }
    assert(m != "ADI"@) by { if m == "ADI"@ { assert(m[0] == "ADI"@[0]); } }
    assert(m != "ACI"@) by { if m == "ACI"@ { assert(m[0] == "ACI"@[0]); } }
    assert(addr_op(m) is None);
    assert(imm_op(m) == Some(0xd3u8));
}

#[verifier::rlimit(100)]
proof fn lemma_text_d3(v: u16)
    ensures
        shape(0xd3u8) is Some,
        encode_line(shape(0xd3u8)->Some_0.0 + hex_text(v as nat)) == Ok::<Seq<u8>, Seq<char>>(seq![0xd3u8, (v % 256) as u8]),
{
    reveal_strlit(" ");
    reveal_strlit("C");
    reveal_strlit("J");
    reveal_strlit("M");
    reveal_strlit("NC");
    reveal_strlit("NZ");
    reveal_strlit("OUT");
    reveal_strlit("OUT ");
    reveal_strlit("P");
    reveal_strlit("PE");
    reveal_strlit("PO");
    reveal_strlit("Z");
    let m = "OUT"@;
    assert(shape(0xd3u8)->Some_0.0 =~= m + " "@);
    lemma_operand_text(m, v as nat);
    lemma_name_d3();
    lemma_table_d3();
    lemma_port_args(m, v);
}

#[verifier::rlimit(100)]
proof fn lemma_name_db()
    ensures
        not_register_form("IN"@),
{
    reveal_strlit("ADC");
    reveal_strlit("ADD");
    reveal_strlit("ANA");
    reveal_strlit("CMP");
    reveal_strlit("DAD");
    reveal_strlit("DCR");
    reveal_strlit("DCX");
    reveal_strlit("IN");
    reveal_strlit("INR");
    reveal_strlit("INX");
    reveal_strlit("LDAX");
    reveal_strlit("LXI");
    reveal_strlit("MOV");
    reveal_strlit("MVI");
    reveal_strlit("ORA");
    reveal_strlit("POP");
    reveal_strlit("PUSH");
    reveal_strlit("RST");
    reveal_strlit("SBB");
    reveal_strlit("STAX");
    reveal_strlit("SUB");
    reveal_strlit("XRA");
    let m = "IN"@;
    assert(m != "MOV"@) by { if m == "MOV"@ { assert(m.len() == "MOV"@.len()); } }
    assert(m != "STAX"@) by { if m == "STAX"@ { assert(m.len() == "STAX"@.len()); } }
    assert(m != "LDAX"@) by { if m == "LDAX"@ { assert(m.len() == "LDAX"@.len()); } }
    assert(m != "INR"@) by { if m == "INR"@ { assert(m.len() == "INR"@.len()); } }
    assert(m != "DCR"@) by { if m == "DCR"@ { assert(m.len() == "DCR"@.len()); } }
    assert(m != "ADD"@) by { if m == "ADD"@ { assert(m.len() == "ADD"@.len()); } }
    assert(m != "ADC"@) by { if m == "ADC"@ { assert(m.len() == "ADC"@.len()); } }
    assert(m != "SUB"@) by { if m == "SUB"@ { assert(m.len() == "SUB"@.len()); } }
    assert(m != "SBB"@) by { if m == "SBB"@ { assert(m.len() == "SBB"@.len()); } }
    assert(m != "ANA"@) by { if m == "ANA"@ { assert(m.len() == "ANA"@.len()); } }
    assert(m != "XRA"@) by { if m == "XRA"@ { assert(m.len() == "XRA"@.len()); } }
    assert(m != "ORA"@) by { if m == "ORA"@ { assert(m.len() == "ORA"@.len()); } }
    assert(m != "CMP"@) by { if m == "CMP"@ { assert(m.len() == "CMP"@.len()); } }
    assert(m != "INX"@) by { if m == "INX"@ { assert(m.len() == "INX"@.len()); } }
    assert(m != "DAD"@) by { if m == "DAD"@ { assert(m.len() == "DAD"@.len()); } }
    assert(m != "DCX"@) by { if m == "DCX"@ { assert(m.len() == "DCX"@.len()); } }
    assert(m != "POP"@) by { if m == "POP"@ { assert(m.len() == "POP"@.len()); } }
    assert(m != "PUSH"@) by { if m == "PUSH"@ { assert(m.len() == "PUSH"@.len()); } }
    assert(m != "LXI"@) by { if m == "LXI"@ { assert(m.len() == "LXI"@.len()); } }
    assert(m != "MVI"@) by { if m == "MVI"@ { assert(m.len() == "MVI"@.len()); } }
    assert(m != "RST"@) by { if m == "RST"@ { assert(m.len() == "RST"@.len()); } }
}

#[verifier::rlimit(100)]
proof fn lemma_table_db()
    ensures
        addr_op("IN"@) is None,
        imm_op("IN"@) == Some(0xdbu8),
{
    reveal_strlit("ACI");
    reveal_strlit("ADI");
    reveal_strlit("CALL");
    reveal_strlit("CC");
    reveal_strlit("CM");
    reveal_strlit("CNC");
    reveal_strlit("CNZ");
    reveal_strlit("CP");
    reveal_strlit("CPE");
    reveal_strlit("CPO");
    reveal_strlit("CZ");
    reveal_strlit("IN");
    reveal_strlit("JC");
    reveal_strlit("JM");
    reveal_strlit("JMP");
    reveal_strlit("JNC");
    reveal_strlit("JNZ");
    reveal_strlit("JP");
    reveal_strlit("JPE");
    reveal_strlit("JPO");
    reveal_strlit("JZ");
    reveal_strlit("LDA");
    reveal_strlit("LHLD");
    reveal_strlit("OUT");
    reveal_strlit("SHLD");
    reveal_strlit("STA");
    reveal_strlit("SUI");
    let m = "IN"@;
    assert(m != "SHLD"@) by { if m == "SHLD"@ { assert(m.len() == "SHLD"@.len()); } }
    assert(m != "LHLD"@) by { if m == "LHLD"@ { assert(m.len() == "LHLD"@.len()); } }
    assert(m != "STA"@) by { if m == "STA"@ { assert(m.len() == "STA"@.len()); } }
    assert(m != "LDA"@) by { if m == "LDA"@ { assert(m.len() == "LDA"@.len()); } }
    assert(m != "JMP"@) by { if m == "JMP"@ { assert(m.len() == "JMP"@.len()); } }
    assert(m != "JNZ"@) by { if m == "JNZ"@ { assert(m.len() == "JNZ"@.len()); } }
    assert(m != "CNZ"@) by { if m == "CNZ"@ { assert(m.len() == "CNZ"@.len()); } }
    assert(m != "JZ"@) by { if m == "JZ"@ { assert(m[0] == "JZ"@[0]); } }
    assert(m != "CZ"@) by { if m == "CZ"@ { assert(m[0] == "CZ"@[0]); } }
    assert(m != "CALL"@) by { if m == "CALL"@ { assert(m.len() == "CALL"@.len()); } }
    assert(m != "JNC"@) by { if m == "JNC"@ { assert(m.len() == "JNC"@.len()); } }
    assert(m != "CNC"@) by { if m == "CNC"@ { assert(m.len() == "CNC"@.len()); } }
    assert(m != "JC"@) by { if m == "JC"@ { assert(m[0] == "JC"@[0]); } }
    assert(m != "CC"@) by { if m == "CC"@ { assert(m[0] == "CC"@[0]); } }
    assert(m != "JPO"@) by { if m == "JPO"@ { assert(m.len() == "JPO"@.len()); } }
    assert(m != "CPO"@) by { if m == "CPO"@ { assert(m.len() == "CPO"@.len()); } }
    assert(m != "JPE"@) by { if m == "JPE"@ { assert(m.len() == "JPE"@.len()); } }
    assert(m != "CPE"@) by { if m == "CPE"@ { assert(m.len() == "CPE"@.len()); } }
    assert(m != "JP"@) by { if m == "JP"@ { assert(m[0] == "JP"@[0]); } }
    assert(m != "CP"@) by { if m == "CP"@ { assert(m[0] == "CP"@[0]); } }
    assert(m != "JM"@) by { if m == "JM"@ { assert(m[0] == "JM"@[0]); } }
    assert(m != "CM"@) by { if m == "CM"@ { assert(m[0] == "CM"@[0]); } }
    assert(m != "ADI"@) by { if m == "ADI"@ { assert(m.len() == "ADI"@.len()); } }
    assert(m != "ACI"@) by { if m == "ACI"@ { assert(m.len() == "ACI"@.len()); } }
    assert(m != "OUT"@) by { if m == "OUT"@ { assert(m.len() == "OUT"@.len()); } }
    assert(m != "SUI"@) by { if m == "SUI"@ { assert(m.len() == "SUI"@.len()); } }
    assert(addr_op(m) is None);
    assert(imm_op(m) == Some(0xdbu8));
}

#[verifier::rlimit(100)]
proof fn lemma_text_db(v: u16)
    ensures
        shape(0xdbu8) is Some,
        encode_line(shape(0xdbu8)->Some_0.0 + hex_text(v as nat)) == Ok::<Seq<u8>, Seq<char>>(seq![0xdbu8, (v % 256) as u8]),
{
    reveal_strlit(" ");
    reveal_strlit("C");
    reveal_strlit("IN");
    reveal_strlit("IN ");
    reveal_strlit("J");
    reveal_strlit("M");
    reveal_strlit("NC");
    reveal_strlit("NZ");
    reveal_strlit("P");
    reveal_strlit("PE");
    reveal_strlit("PO");
    reveal_strlit("Z");
    let m = "IN"@;
    assert(shape(0xdbu8)->Some_0.0 =~= m + " "@);
    lemma_operand_text(m, v as nat);
    lemma_name_db();
    lemma_table_db();
    lemma_port_args(m, v);
}

#[verifier::rlimit(100)]
proof fn lemma_name_c6()
    ensures
        not_register_form("ADI"@),
{
    reveal_strlit("ADC");
    reveal_strlit("ADD");
    reveal_strlit("ADI");
    reveal_strlit("ANA");
    reveal_strlit("CMP");
    reveal_strlit("DAD");
    reveal_strlit("DCR");
    reveal_strlit("DCX");
    reveal_strlit("INR");
    reveal_strlit("INX");
    reveal_strlit("LDAX");
    reveal_strlit("LXI");
    reveal_strlit("MOV");
    reveal_strlit("MVI");
    reveal_strlit("ORA");
    reveal_strlit("POP");
    reveal_strlit("PUSH");
    reveal_strlit("RST");
    reveal_strlit("SBB");
    reveal_strlit("STAX");
    reveal_strlit("SUB");
    reveal_strlit("XRA");
    let m = "ADI"@;
    assert(m != "MOV"@) by { if m == "MOV"@ { assert(m[0] == "MOV"@[0]); } }
    assert(m != "STAX"@) by { if m == "STAX"@ { assert(m.len() == "STAX"@.len()); } }
    assert(m != "LDAX"@) by { if m == "LDAX"@ { assert(m.len() == "LDAX"@.len()); } }
    assert(m != "INR"@) by { if m == "INR"@ { assert(m[0] == "INR"@[0]); } }
    assert(m != "DCR"@) by { if m == "DCR"@ { assert(m[0] == "DCR"@[0]); } }
    assert(m != "ADD"@) by { if m == "ADD"@ { assert(m[2] == "ADD"@[2]); } }
    assert(m != "ADC"@) by { if m == "ADC"@ { assert(m[2] == "ADC"@[2]); } }
    assert(m != "SUB"@) by { if m == "SUB"@ { assert(m[0] == "SUB"@[0]); } }
    assert(m != "SBB"@) by { if m == "SBB"@ { assert(m[0] == "SBB"@[0]); } }
    assert(m != "ANA"@) by { if m == "ANA"@ { assert(m[1] == "ANA"@[1]); } }
    assert(m != "XRA"@) by { if m == "XRA"@ { assert(m[0] == "XRA"@[0]); } }
    assert(m != "ORA"@) by { if m == "ORA"@ { assert(m[0] == "ORA"@[0]); } }
    assert(m != "CMP"@) by { if m == "CMP"@ { assert(m[0] == "CMP"@[0]); } }
    assert(m != "INX"@) by { if m == "INX"@ { assert(m[0] == "INX"@[0]); } }
    assert(m != "DAD"@) by { if m == "DAD"@ { assert(m[0] == "DAD"@[0]); } }
    assert(m != "DCX"@) by { if m == "DCX"@ { assert(m[0] == "DCX"@[0]); } }
    assert(m != "POP"@) by { if m == "POP"@ { assert(m[0] == "POP"@[0]); } }
    assert(m != "PUSH"@) by { if m == "PUSH"@ { assert(m.len() == "PUSH"@.len()); } }
    assert(m != "LXI"@) by { if m == "LXI"@ { assert(m[0] == "LXI"@[0]); } }
    assert(m != "MVI"@) by { if m == "MVI"@ { assert(m[0] == "MVI"@[0]); } }
    assert(m != "RST"@) by { if m == "RST"@ { assert(m[0] == "RST"@[0]); } }
}

#[verifier::rlimit(100)]
proof fn lemma_table_c6()
    ensures
        addr_op("ADI"@) is None,
        imm_op("ADI"@) == Some(0xc6u8),
{
    reveal_strlit("ADI");
    reveal_strlit("CALL");
    reveal_strlit("CC");
    reveal_strlit("CM");
    reveal_strlit("CNC");
    reveal_strlit("CNZ");
    reveal_strlit("CP");
    reveal_strlit("CPE");
    reveal_strlit("CPO");
    reveal_strlit("CZ");
    reveal_strlit("JC");
    reveal_strlit("JM");
    reveal_strlit("JMP");
    reveal_strlit("JNC");
    reveal_strlit("JNZ");
    reveal_strlit("JP");
    reveal_strlit("JPE");
    reveal_strlit("JPO");
    reveal_strlit("JZ");
    reveal_strlit("LDA");
    reveal_strlit("LHLD");
    reveal_strlit("SHLD");
    reveal_strlit("STA");
    let m = "ADI"@;
    assert(m != "SHLD"@) by { if m == "SHLD"@ { assert(m.len() == "SHLD"@.len()); } }
    assert(m != "LHLD"@) by { if m == "LHLD"@ { assert(m.len() == "LHLD"@.len()); } }
    assert(m != "STA"@) by { if m == "STA"@ { assert(m[0] == "STA"@[0]); } }
    assert(m != "LDA"@) by { if m == "LDA"@ { assert(m[0] == "LDA"@[0]); } }
    assert(m != "JMP"@) by { if m == "JMP"@ { assert(m[0] == "JMP"@[0]); } }
    assert(m != "JNZ"@) by { if m == "JNZ"@ { assert(m[0] == "JNZ"@[0]); } }
    assert(m != "CNZ"@) by { if m == "CNZ"@ { assert(m[0] == "CNZ"@[0]); } }
    assert(m != "JZ"@) by { if m == "JZ"@ { assert(m.len() == "JZ"@.len()); } }
    assert(m != "CZ"@) by { if m == "CZ"@ { assert(m.len() == "CZ"@.len()); } }
    assert(m != "CALL"@) by { if m == "CALL"@ { assert(m.len() == "CALL"@.len()); } }
    assert(m != "JNC"@) by { if m == "JNC"@ { assert(m[0] == "JNC"@[0]); } }
    assert(m != "CNC"@) by { if m == "CNC"@ { assert(m[0] == "CNC"@[0]); } }
    assert(m != "JC"@) by { if m == "JC"@ { assert(m.len() == "JC"@.len()); } }
    assert(m != "CC"@) by { if m == "CC"@ { assert(m.len() == "CC"@.len()); } }
    assert(m != "JPO"@) by { if m == "JPO"@ { assert(m[0] == "JPO"@[0]); } }
    assert(m != "CPO"@) by { if m == "CPO"@ { assert(m[0] == "CPO"@[0]); } }
    assert(m != "JPE"@) by { if m == "JPE"@ { assert(m[0] == "JPE"@[0]); } }
    assert(m != "CPE"@) by { if m == "CPE"@ { assert(m[0] == "CPE"@[0]); } }
    assert(m != "JP"@) by { if m == "JP"@ { assert(m.len() == "JP"@.len()); } }
    assert(m != "CP"@) by { if m == "CP"@ { assert(m.len() == "CP"@.len()); } }
    assert(m != "JM"@) by { if m == "JM"@ { assert(m.len() == "JM"@.len()); } }
    assert(m != "CM"@) by { if m == "CM"@ { assert(m.len() == "CM"@.len()); } }
    assert(addr_op(m) is None);
    assert(imm_op(m) == Some(0xc6u8));
}

#[verifier::rlimit(100)]
proof fn lemma_text_c6(v: u16)
    requires
        v < 256,
    ensures
        shape(0xc6u8) is Some,
        encode_line(shape(0xc6u8)->Some_0.0 + hex_text(v as nat)) == Ok::<Seq<u8>, Seq<char>>(seq![0xc6u8, v as u8]),
{
    reveal_strlit("ADI");
    reveal_strlit(" ");
    reveal_strlit("ADI ");
    let m = "ADI"@;
    assert(shape(0xc6u8)->Some_0.0 =~= m + " "@);
    lemma_operand_text(m, v as nat);
    lemma_name_c6();
    lemma_table_c6();
    lemma_port_args(m, v);
}

#[verifier::rlimit(100)]
proof fn lemma_name_ce()
    ensures
        not_register_form("ACI"@),
{
    reveal_strlit("ACI");
    reveal_strlit("ADC");
    reveal_strlit("ADD");
    reveal_strlit("ANA");
    reveal_strlit("CMP");
    reveal_strlit("DAD");
    reveal_strlit("DCR");
    reveal_strlit("DCX");
    reveal_strlit("INR");
    reveal_strlit("INX");
    reveal_strlit("LDAX");
    reveal_strlit("LXI");
    reveal_strlit("MOV");
    reveal_strlit("MVI");
    reveal_strlit("ORA");
    reveal_strlit("POP");
    reveal_strlit("PUSH");
    reveal_strlit("RST");
    reveal_strlit("SBB");
    reveal_strlit("STAX");
    reveal_strlit("SUB");
    reveal_strlit("XRA");
    let m = "ACI"@;
    assert(m != "MOV"@) by { if m == "MOV"@ { assert(m[0] == "MOV"@[0]); } }
    assert(m != "STAX"@) by { if m == "STAX"@ { assert(m.len() == "STAX"@.len()); } }
    assert(m != "LDAX"@) by { if m == "LDAX"@ { assert(m.len() == "LDAX"@.len()); } }
    assert(m != "INR"@) by { if m == "INR"@ { assert(m[0] == "INR"@[0]); } }
    assert(m != "DCR"@) by { if m == "DCR"@ { assert(m[0] == "DCR"@[0]); } }
    assert(m != "ADD"@) by { if m == "ADD"@ { assert(m[1] == "ADD"@[1]); } }
    assert(m != "ADC"@) by { if m == "ADC"@ { assert(m[1] == "ADC"@[1]); } }
    assert(m != "SUB"@) by { if m == "SUB"@ { assert(m[0] == "SUB"@[0]); } }
    assert(m != "SBB"@) by { if m == "SBB"@ { assert(m[0] == "SBB"@[0]); } }
    assert(m != "ANA"@) by { if m == "ANA"@ { assert(m[1] == "ANA"@[1]); } }
    assert(m != "XRA"@) by { if m == "XRA"@ { assert(m[0] == "XRA"@[0]); } }
    assert(m != "ORA"@) by { if m == "ORA"@ { assert(m[0] == "ORA"@[0]); } }
    assert(m != "CMP"@) by { if m == "CMP"@ { assert(m[0] == "CMP"@[0]); } }
    assert(m != "INX"@) by { if m == "INX"@ { assert(m[0] == "INX"@[0]); } }
    assert(m != "DAD"@) by { if m == "DAD"@ { assert(m[0] == "DAD"@[0]); } }
    assert(m != "DCX"@) by { if m == "DCX"@ { assert(m[0] == "DCX"@[0]); } }
    assert(m != "POP"@) by { if m == "POP"@ { assert(m[0] == "POP"@[0]); } }
    assert(m != "PUSH"@) by { if m == "PUSH"@ { assert(m.len() == "PUSH"@.len()); } }
    assert(m != "LXI"@) by { if m == "LXI"@ { assert(m[0] == "LXI"@[0]); } }
    assert(m != "MVI"@) by { if m == "MVI"@ { assert(m[0] == "MVI"@[0]); } }
    assert(m != "RST"@) by { if m == "RST"@ { assert(m[0] == "RST"@[0]); } }
}

#[verifier::rlimit(100)]
proof fn lemma_table_ce()
    ensures
        addr_op("ACI"@) is None,
        imm_op("ACI"@) == Some(0xceu8),
{
    reveal_strlit("ACI");
    reveal_strlit("ADI");
    reveal_strlit("CALL");
    reveal_strlit("CC");
    reveal_strlit("CM");
    reveal_strlit("CNC");
    reveal_strlit("CNZ");
    reveal_strlit("CP");
    reveal_strlit("CPE");
    reveal_strlit("CPO");
    reveal_strlit("CZ");
    reveal_strlit("JC");
    reveal_strlit("JM");
    reveal_strlit("JMP");
    reveal_strlit("JNC");
    reveal_strlit("JNZ");
    reveal_strlit("JP");
    reveal_strlit("JPE");
    reveal_strlit("JPO");
    reveal_strlit("JZ");
    reveal_strlit("LDA");
    reveal_strlit("LHLD");
    reveal_strlit("SHLD");
    reveal_strlit("STA");
    let m = "ACI"@;
    assert(m != "SHLD"@) by { if m == "SHLD"@ { assert(m.len() == "SHLD"@.len()); } }
    assert(m != "LHLD"@) by { if m == "LHLD"@ { assert(m.len() == "LHLD"@.len()); } }
    assert(m != "STA"@) by { if m == "STA"@ { assert(m[0] == "STA"@[0]); } }
    assert(m != "LDA"@) by { if m == "LDA"@ { assert(m[0] == "LDA"@[0]); } }
    assert(m != "JMP"@) by { if m == "JMP"@ { assert(m[0] == "JMP"@[0]); } }
    assert(m != "JNZ"@) by { if m == "JNZ"@ { assert(m[0] == "JNZ"@[0]); } }
    assert(m != "CNZ"@) by { if m == "CNZ"@ { assert(m[0] == "CNZ"@[0]); } }
    assert(m != "JZ"@) by { if m == "JZ"@ { assert(m.len() == "JZ"@.len()); } }
    assert(m != "CZ"@) by { if m == "CZ"@ { assert(m.len() == "CZ"@.len()); } }
    assert(m != "CALL"@) by { if m == "CALL"@ { assert(m.len() == "CALL"@.len()); } }
    assert(m != "JNC"@) by { if m == "JNC"@ { assert(m[0] == "JNC"@[0]); } }
    assert(m != "CNC"@) by { if m == "CNC"@ { assert(m[0] == "CNC"@[0]); } }
    assert(m != "JC"@) by { if m == "JC"@ { assert(m.len() == "JC"@.len()); } }
    assert(m != "CC"@) by { if m == "CC"@ { assert(m.len() == "CC"@.len()); } }
    assert(m != "JPO"@) by { if m == "JPO"@ { assert(m[0] == "JPO"@[0]); } }
    assert(m != "CPO"@) by { if m == "CPO"@ { assert(m[0] == "CPO"@[0]); } }
    assert(m != "JPE"@) by { if m == "JPE"@ { assert(m[0] == "JPE"@[0]); } }
    assert(m != "CPE"@) by { if m == "CPE"@ { assert(m[0] == "CPE"@[0]); } }
    assert(m != "JP"@) by { if m == "JP"@ { assert(m.len() == "JP"@.len()); } }
    assert(m != "CP"@) by { if m == "CP"@ { assert(m.len() == "CP"@.len()); } }
    assert(m != "JM"@) by { if m == "JM"@ { assert(m.len() == "JM"@.len()); } }
    assert(m != "CM"@) by { if m == "CM"@ { assert(m.len() == "CM"@.len()); } }
    assert(m != "ADI"@) by { if m == "ADI"@ { assert(m[1] == "ADI"@[1]); } }
    assert(addr_op(m) is None);
    assert(imm_op(m) == Some(0xceu8));
}

#[verifier::rlimit(100)]
proof fn lemma_text_ce(v: u16)
    requires
        v < 256,
    ensures
        shape(0xceu8) is Some,
        encode_line(shape(0xceu8)->Some_0.0 + hex_text(v as nat)) == Ok::<Seq<u8>, Seq<char>>(seq![0xceu8, v as u8]),
{
    reveal_strlit("ACI");
    reveal_strlit(" ");
    reveal_strlit("ACI ");
    let m = "ACI"@;
    assert(shape(0xceu8)->Some_0.0 =~= m + " "@);
    lemma_operand_text(m, v as nat);
    lemma_name_ce();
    lemma_table_ce();
    lemma_port_args(m, v);
}

#[verifier::rlimit(100)]
proof fn lemma_name_d6()
    ensures
        not_register_form("SUI"@),
{
    reveal_strlit("ADC");
    reveal_strlit("ADD");
    reveal_strlit("ANA");
    reveal_strlit("CMP");
    reveal_strlit("DAD");
    reveal_strlit("DCR");
    reveal_strlit("DCX");
    reveal_strlit("INR");
    reveal_strlit("INX");
    reveal_strlit("LDAX");
    reveal_strlit("LXI");
    reveal_strlit("MOV");
    reveal_strlit("MVI");
    reveal_strlit("ORA");
    reveal_strlit("POP");
    reveal_strlit("PUSH");
    reveal_strlit("RST");
    reveal_strlit("SBB");
    reveal_strlit("STAX");
    reveal_strlit("SUB");
    reveal_strlit("SUI");
    reveal_strlit("XRA");
    let m = "SUI"@;
    assert(m != "MOV"@) by { if m == "MOV"@ { assert(m[0] == "MOV"@[0]); } }
    assert(m != "STAX"@) by { if m == "STAX"@ { assert(m.len() == "STAX"@.len()); } }
    assert(m != "LDAX"@) by { if m == "LDAX"@ { assert(m.len() == "LDAX"@.len()); } }
    assert(m != "INR"@) by { if m == "INR"@ { assert(m[0] == "INR"@[0]); } }
    assert(m != "DCR"@) by { if m == "DCR"@ { assert(m[0] == "DCR"@[0]); } }
    assert(m != "ADD"@) by { if m == "ADD"@ { assert(m[0] == "ADD"@[0]); } }
    assert(m != "ADC"@) by { if m == "ADC"@ { assert(m[0] == "ADC"@[0]); } }
    assert(m != "SUB"@) by { if m == "SUB"@ { assert(m[2] == "SUB"@[2]); } }
    assert(m != "SBB"@) by { if m == "SBB"@ { assert(m[1] == "SBB"@[1]); } }
    assert(m != "ANA"@) by { if m == "ANA"@ { assert(m[0] == "ANA"@[0]); } }
    assert(m != "XRA"@) by { if m == "XRA"@ { assert(m[0] == "XRA"@[0]); } }
    assert(m != "ORA"@) by { if m == "ORA"@ { assert(m[0] == "ORA"@[0]); } }
    assert(m != "CMP"@) by { if m == "CMP"@ { assert(m[0] == "CMP"@[0]); } }
    assert(m != "INX"@) by { if m == "INX"@ { assert(m[0] == "INX"@[0]); } }
    assert(m != "DAD"@) by { if m == "DAD"@ { assert(m[0] == "DAD"@[0]); } }
    assert(m != "DCX"@) by { if m == "DCX"@ { assert(m[0] == "DCX"@[0]); } }
    assert(m != "POP"@) by { if m == "POP"@ { assert(m[0] == "POP"@[0]); } }
    assert(m != "PUSH"@) by { if m == "PUSH"@ { assert(m.len() == "PUSH"@.len()); } }
    assert(m != "LXI"@) by { if m == "LXI"@ { assert(m[0] == "LXI"@[0]); } }
    assert(m != "MVI"@) by { if m == "MVI"@ { assert(m[0] == "MVI"@[0]); } }
    assert(m != "RST"@) by { if m == "RST"@ { assert(m[0] == "RST"@[0]); } }
}

#[verifier::rlimit(100)]
proof fn lemma_table_d6()
    ensures
        addr_op("SUI"@) is None,
        imm_op("SUI"@) == Some(0xd6u8),
{
    reveal_strlit("ACI");
    reveal_strlit("ADI");
    reveal_strlit("CALL");
    reveal_strlit("CC");
    reveal_strlit("CM");
    reveal_strlit("CNC");
    reveal_strlit("CNZ");
    reveal_strlit("CP");
    reveal_strlit("CPE");
    reveal_strlit("CPO");
    reveal_strlit("CZ");
    reveal_strlit("JC");
    reveal_strlit("JM");
    reveal_strlit("JMP");
    reveal_strlit("JNC");
    reveal_strlit("JNZ");
    reveal_strlit("JP");
    reveal_strlit("JPE");
    reveal_strlit("JPO");
    reveal_strlit("JZ");
    reveal_strlit("LDA");
    reveal_strlit("LHLD");
    reveal_strlit("OUT");
    reveal_strlit("SHLD");
    reveal_strlit("STA");
    reveal_strlit("SUI");
    let m = "SUI"@;
    assert(m != "SHLD"@) by { if m == "SHLD"@ { assert(m.len() == "SHLD"@.len()); } }
    assert(m != "LHLD"@) by { if m == "LHLD"@ { assert(m.len() == "LHLD"@.len()); } }
    assert(m != "STA"@) by { if m == "STA"@ { assert(m[1] == "STA"@[1]); } }
    assert(m != "LDA"@) by { if m == "LDA"@ { assert(m[0] == "LDA"@[0]); } }
    assert(m != "JMP"@) by { if m == "JMP"@ { assert(m[0] == "JMP"@[0]); } }
    assert(m != "JNZ"@) by { if m == "JNZ"@ { assert(m[0] == "JNZ"@[0]); } }
    assert(m != "CNZ"@) by { if m == "CNZ"@ { assert(m[0] == "CNZ"@[0]); } }
    assert(m != "JZ"@) by { if m == "JZ"@ { assert(m.len() == "JZ"@.len()); } }
    assert(m != "CZ"@) by { if m == "CZ"@ { assert(m.len() == "CZ"@.len()); } }
    assert(m != "CALL"@) by { if m == "CALL"@ { assert(m.len() == "CALL"@.len()); } }
    assert(m != "JNC"@) by { if m == "JNC"@ { assert(m[0] == "JNC"@[0]); } }
    assert(m != "CNC"@) by { if m == "CNC"@ { assert(m[0] == "CNC"@[0]); } }
    assert(m != "JC"@) by { if m == "JC"@ { assert(m.len() == "JC"@.len()); } }
    assert(m != "CC"@) by { if m == "CC"@ { assert(m.len() == "CC"@.len()); } }
    assert(m != "JPO"@) by { if m == "JPO"@ { assert(m[0] == "JPO"@[0]); } }
    assert(m != "CPO"@) by { if m == "CPO"@ { assert(m[0] == "CPO"@[0]); } }
    assert(m != "JPE"@) by { if m == "JPE"@ { assert(m[0] == "JPE"@[0]); } }
    assert(m != "CPE"@) by { if m == "CPE"@ { assert(m[0] == "CPE"@[0]); } }
    assert(m != "JP"@) by { if m == "JP"@ { assert(m.len() == "JP"@.len()); } }
    assert(m != "CP"@) by { if m == "CP"@ { assert(m.len() == "CP"@.len()); } }
    assert(m != "JM"@) by { if m == "JM"@ { assert(m.len() == "JM"@.len()); } }
    assert(m != "CM"@) by { if m == "CM"@ { assert(m.len() == "CM"@.len()); } }
    assert(m != "ADI"@) by { if m == "ADI"@ { assert(m[0] == "ADI"@[0]); } }
    assert(m != "ACI"@) by { if m == "ACI"@ { assert(m[0] == "ACI"@[0]); } }
    assert(m != "OUT"@) by { if m == "OUT"@ { assert(m[0] == "OUT"@[0]); } }
    assert(addr_op(m) is None);
    assert(imm_op(m) == Some(0xd6u8));
}

#[verifier::rlimit(100)]
proof fn lemma_text_d6(v: u16)
    requires
        v < 256,
    ensures
        shape(0xd6u8) is Some,
        encode_line(shape(0xd6u8)->Some_0.0 + hex_text(v as nat)) == Ok::<Seq<u8>, Seq<char>>(seq![0xd6u8, v as u8]),
{
    reveal_strlit("SUI");
    reveal_strlit(" ");
    reveal_strlit("SUI ");
    let m = "SUI"@;
    assert(shape(0xd6u8)->Some_0.0 =~= m + " "@);
    lemma_operand_text(m, v as nat);
    lemma_name_d6();
    lemma_table_d6();
    lemma_port_args(m, v);
}

#[verifier::rlimit(100)]
proof fn lemma_name_de()
    ensures
        not_register_form("SBI"@),
{
    reveal_strlit("ADC");
    reveal_strlit("ADD");
    reveal_strlit("ANA");
    reveal_strlit("CMP");
    reveal_strlit("DAD");
    reveal_strlit("DCR");
    reveal_strlit("DCX");
    reveal_strlit("INR");
    reveal_strlit("INX");
    reveal_strlit("LDAX");
    reveal_strlit("LXI");
    reveal_strlit("MOV");
    reveal_strlit("MVI");
    reveal_strlit("ORA");
    reveal_strlit("POP");
    reveal_strlit("PUSH");
    reveal_strlit("RST");
    reveal_strlit("SBB");
    reveal_strlit("SBI");
    reveal_strlit("STAX");
    reveal_strlit("SUB");
    reveal_strlit("XRA");
    let m = "SBI"@;
    assert(m != "MOV"@) by { if m == "MOV"@ { assert(m[0] == "MOV"@[0]); } }
    assert(m != "STAX"@) by { if m == "STAX"@ { assert(m.len() == "STAX"@.len()); } }
    assert(m != "LDAX"@) by { if m == "LDAX"@ { assert(m.len() == "LDAX"@.len()); } }
    assert(m != "INR"@) by { if m == "INR"@ { assert(m[0] == "INR"@[0]); } }
    assert(m != "DCR"@) by { if m == "DCR"@ { assert(m[0] == "DCR"@[0]); } }
    assert(m != "ADD"@) by { if m == "ADD"@ { assert(m[0] == "ADD"@[0]); } }
    assert(m != "ADC"@) by { if m == "ADC"@ { assert(m[0] == "ADC"@[0]); } }
    assert(m != "SUB"@) by { if m == "SUB"@ { assert(m[1] == "SUB"@[1]); } }
    assert(m != "SBB"@) by { if m == "SBB"@ { assert(m[2] == "SBB"@[2]); } }
    assert(m != "ANA"@) by { if m == "ANA"@ { assert(m[0] == "ANA"@[0]); } }
    assert(m != "XRA"@) by { if m == "XRA"@ { assert(m[0] == "XRA"@[0]); } }
    assert(m != "ORA"@) by { if m == "ORA"@ { assert(m[0] == "ORA"@[0]); } }
    assert(m != "CMP"@) by { if m == "CMP"@ { assert(m[0] == "CMP"@[0]); } }
    assert(m != "INX"@) by { if m == "INX"@ { assert(m[0] == "INX"@[0]); } }
    assert(m != "DAD"@) by { if m == "DAD"@ { assert(m[0] == "DAD"@[0]); } }
    assert(m != "DCX"@) by { if m == "DCX"@ { assert(m[0] == "DCX"@[0]); } }
    assert(m != "POP"@) by { if m == "POP"@ { assert(m[0] == "POP"@[0]); } }
    assert(m != "PUSH"@) by { if m == "PUSH"@ { assert(m.len() == "PUSH"@.len()); } }
    assert(m != "LXI"@) by { if m == "LXI"@ { assert(m[0] == "LXI"@[0]); } }
    assert(m != "MVI"@) by { if m == "MVI"@ { assert(m[0] == "MVI"@[0]); } }
    assert(m != "RST"@) by { if m == "RST"@ { assert(m[0] == "RST"@[0]); } }
}

#[verifier::rlimit(100)]
proof fn lemma_table_de()
    ensures
        addr_op("SBI"@) is None,
        imm_op("SBI"@) == Some(0xdeu8),
{
    reveal_strlit("ACI");
    reveal_strlit("ADI");
    reveal_strlit("CALL");
    reveal_strlit("CC");
    reveal_strlit("CM");
    reveal_strlit("CNC");
    reveal_strlit("CNZ");
    reveal_strlit("CP");
    reveal_strlit("CPE");
    reveal_strlit("CPO");
    reveal_strlit("CZ");
    reveal_strlit("IN");
    reveal_strlit("JC");
    reveal_strlit("JM");
    reveal_strlit("JMP");
    reveal_strlit("JNC");
    reveal_strlit("JNZ");
    reveal_strlit("JP");
    reveal_strlit("JPE");
    reveal_strlit("JPO");
    reveal_strlit("JZ");
    reveal_strlit("LDA");
    reveal_strlit("LHLD");
    reveal_strlit("OUT");
    reveal_strlit("SBI");
    reveal_strlit("SHLD");
    reveal_strlit("STA");
    reveal_strlit("SUI");
    let m = "SBI"@;
    assert(m != "SHLD"@) by { if m == "SHLD"@ { assert(m.len() == "SHLD"@.len()); } }
    assert(m != "LHLD"@) by { if m == "LHLD"@ { assert(m.len() == "LHLD"@.len()); } }
    assert(m != "STA"@) by { if m == "STA"@ { assert(m[1] == "STA"@[1]); } }
    assert(m != "LDA"@) by { if m == "LDA"@ { assert(m[0] == "LDA"@[0]); } }
    assert(m != "JMP"@) by { if m == "JMP"@ { assert(m[0] == "JMP"@[0]); } }
    assert(m != "JNZ"@) by { if m == "JNZ"@ { assert(m[0] == "JNZ"@[0]); } }
    assert(m != "CNZ"@) by { if m == "CNZ"@ { assert(m[0] == "CNZ"@[0]); } }
    assert(m != "JZ"@) by { if m == "JZ"@ { assert(m.len() == "JZ"@.len()); } }
    assert(m != "CZ"@) by { if m == "CZ"@ { assert(m.len() == "CZ"@.len()); } }
    assert(m != "CALL"@) by { if m == "CALL"@ { assert(m.len() == "CALL"@.len()); } }
    assert(m != "JNC"@) by { if m == "JNC"@ { assert(m[0] == "JNC"@[0]); } }
    assert(m != "CNC"@) by { if m == "CNC"@ { assert(m[0] == "CNC"@[0]); } }
    assert(m != "JC"@) by { if m == "JC"@ { assert(m.len() == "JC"@.len()); } }
    assert(m != "CC"@) by { if m == "CC"@ { assert(m.len() == "CC"@.len()); } }
    assert(m != "JPO"@) by { if m == "JPO"@ { assert(m[0] == "JPO"@[0]); } }
    assert(m != "CPO"@) by { if m == "CPO"@ { assert(m[0] == "CPO"@[0]); } }
    assert(m != "JPE"@) by { if m == "JPE"@ { assert(m[0] == "JPE"@[0]); } }
    assert(m != "CPE"@) by { if m == "CPE"@ { assert(m[0] == "CPE"@[0]); } }
    assert(m != "JP"@) by { if m == "JP"@ { assert(m.len() == "JP"@.len()); } }
    assert(m != "CP"@) by { if m == "CP"@ { assert(m.len() == "CP"@.len()); } }
    assert(m != "JM"@) by { if m == "JM"@ { assert(m.len() == "JM"@.len()); } }
    assert(m != "CM"@) by { if m == "CM"@ { assert(m.len() == "CM"@.len()); } }
    assert(m != "ADI"@) by { if m == "ADI"@ { assert(m[0] == "ADI"@[0]); } }
    assert(m != "ACI"@) by { if m == "ACI"@ { assert(m[0] == "ACI"@[0]); } }
    assert(m != "OUT"@) by { if m == "OUT"@ { assert(m[0] == "OUT"@[0]); } }
    assert(m != "SUI"@) by { if m == "SUI"@ { assert(m[1] == "SUI"@[1]); } }
    assert(m != "IN"@) by { if m == "IN"@ { assert(m.len() == "IN"@.len()); } }
    assert(addr_op(m) is None);
    assert(imm_op(m) == Some(0xdeu8));
}

#[verifier::rlimit(100)]
proof fn lemma_text_de(v: u16)
    requires
        v < 256,
    ensures
        shape(0xdeu8) is Some,
        encode_line(shape(0xdeu8)->Some_0.0 + hex_text(v as nat)) == Ok::<Seq<u8>, Seq<char>>(seq![0xdeu8, v as u8]),
{
    reveal_strlit("SBI");
    reveal_strlit(" ");
    reveal_strlit("SBI ");
    let m = "SBI"@;
    assert(shape(0xdeu8)->Some_0.0 =~= m + " "@);
    lemma_operand_text(m, v as nat);
    lemma_name_de();
    lemma_table_de();
    lemma_port_args(m, v);
}

#[verifier::rlimit(100)]
proof fn lemma_name_e6()
    ensures
        not_register_form("ANI"@),
{
    reveal_strlit("ADC");
    reveal_strlit("ADD");
    reveal_strlit("ANA");
    reveal_strlit("ANI");
    reveal_strlit("CMP");
    reveal_strlit("DAD");
    reveal_strlit("DCR");
    reveal_strlit("DCX");
    reveal_strlit("INR");
    reveal_strlit("INX");
    reveal_strlit("LDAX");
    reveal_strlit("LXI");
    reveal_strlit("MOV");
    reveal_strlit("MVI");
    reveal_strlit("ORA");
    reveal_strlit("POP");
    reveal_strlit("PUSH");
    reveal_strlit("RST");
    reveal_strlit("SBB");
    reveal_strlit("STAX");
    reveal_strlit("SUB");
    reveal_strlit("XRA");
    let m = "ANI"@;
    assert(m != "MOV"@) by { if m == "MOV"@ { assert(m[0] == "MOV"@[0]); } }
    assert(m != "STAX"@) by { if m == "STAX"@ { assert(m.len() == "STAX"@.len()); } }
    assert(m != "LDAX"@) by { if m == "LDAX"@ { assert(m.len() == "LDAX"@.len()); } }
    assert(m != "INR"@) by { if m == "INR"@ { assert(m[0] == "INR"@[0]); } }
    assert(m != "DCR"@) by { if m == "DCR"@ { assert(m[0] == "DCR"@[0]); } }
    assert(m != "ADD"@) by { if m == "ADD"@ { assert(m[1] == "ADD"@[1]); } }
    assert(m != "ADC"@) by { if m == "ADC"@ { assert(m[1] == "ADC"@[1]); } }
    assert(m != "SUB"@) by { if m == "SUB"@ { assert(m[0] == "SUB"@[0]); } }
    assert(m != "SBB"@) by { if m == "SBB"@ { assert(m[0] == "SBB"@[0]); } }
    assert(m != "ANA"@) by { if m == "ANA"@ { assert(m[2] == "ANA"@[2]); } }
    assert(m != "XRA"@) by { if m == "XRA"@ { assert(m[0] == "XRA"@[0]); } }
    assert(m != "ORA"@) by { if m == "ORA"@ { assert(m[0] == "ORA"@[0]); } }
    assert(m != "CMP"@) by { if m == "CMP"@ { assert(m[0] == "CMP"@[0]); } }
    assert(m != "INX"@) by { if m == "INX"@ { assert(m[0] == "INX"@[0]); } }
    assert(m != "DAD"@) by { if m == "DAD"@ { assert(m[0] == "DAD"@[0]); } }
    assert(m != "DCX"@) by { if m == "DCX"@ { assert(m[0] == "DCX"@[0]); } }
    assert(m != "POP"@) by { if m == "POP"@ { assert(m[0] == "POP"@[0]); } }
    assert(m != "PUSH"@) by { if m == "PUSH"@ { assert(m.len() == "PUSH"@.len()); } }
    assert(m != "LXI"@) by { if m == "LXI"@ { assert(m[0] == "LXI"@[0]); } }
    assert(m != "MVI"@) by { if m == "MVI"@ { assert(m[0] == "MVI"@[0]); } }
    assert(m != "RST"@) by { if m == "RST"@ { assert(m[0] == "RST"@[0]); } }
}

#[verifier::rlimit(100)]
proof fn lemma_table_e6()
    ensures
        addr_op("ANI"@) is None,
        imm_op("ANI"@) == Some(0xe6u8),
{
    reveal_strlit("ACI");
    reveal_strlit("ADI");
    reveal_strlit("ANI");
    reveal_strlit("CALL");
    reveal_strlit("CC");
    reveal_strlit("CM");
    reveal_strlit("CNC");
    reveal_strlit("CNZ");
    reveal_strlit("CP");
    reveal_strlit("CPE");
    reveal_strlit("CPO");
    reveal_strlit("CZ");
    reveal_strlit("IN");
    reveal_strlit("JC");
    reveal_strlit("JM");
    reveal_strlit("JMP");
    reveal_strlit("JNC");
    reveal_strlit("JNZ");
    reveal_strlit("JP");
    reveal_strlit("JPE");
    reveal_strlit("JPO");
    reveal_strlit("JZ");
    reveal_strlit("LDA");
    reveal_strlit("LHLD");
    reveal_strlit("OUT");
    reveal_strlit("SBI");
    reveal_strlit("SHLD");
    reveal_strlit("STA");
    reveal_strlit("SUI");
    let m = "ANI"@;
    assert(m != "SHLD"@) by { if m == "SHLD"@ { assert(m.len() == "SHLD"@.len()); } }
    assert(m != "LHLD"@) by { if m == "LHLD"@ { assert(m.len() == "LHLD"@.len()); } }
    assert(m != "STA"@) by { if m == "STA"@ { assert(m[0] == "STA"@[0]); } }
    assert(m != "LDA"@) by { if m == "LDA"@ { assert(m[0] == "LDA"@[0]); } }
    assert(m != "JMP"@) by { if m == "JMP"@ { assert(m[0] == "JMP"@[0]); } }
    assert(m != "JNZ"@) by { if m == "JNZ"@ { assert(m[0] == "JNZ"@[0]); } }
    assert(m != "CNZ"@) by { if m == "CNZ"@ { assert(m[0] == "CNZ"@[0]); } }
    assert(m != "JZ"@) by { if m == "JZ"@ { assert(m.len() == "JZ"@.len()); } }
    assert(m != "CZ"@) by { if m == "CZ"@ { assert(m.len() == "CZ"@.len()); } }
    assert(m != "CALL"@) by { if m == "CALL"@ { assert(m.len() == "CALL"@.len()); } }
    assert(m != "JNC"@) by { if m == "JNC"@ { assert(m[0] == "JNC"@[0]); } }
    assert(m != "CNC"@) by { if m == "CNC"@ { assert(m[0] == "CNC"@[0]); } }
    assert(m != "JC"@) by { if m == "JC"@ { assert(m.len() == "JC"@.len()); } }
    assert(m != "CC"@) by { if m == "CC"@ { assert(m.len() == "CC"@.len()); } }
    assert(m != "JPO"@) by { if m == "JPO"@ { assert(m[0] == "JPO"@[0]); } }
    assert(m != "CPO"@) by { if m == "CPO"@ { assert(m[0] == "CPO"@[0]); } }
    assert(m != "JPE"@) by { if m == "JPE"@ { assert(m[0] == "JPE"@[0]); } }
    assert(m != "CPE"@) by { if m == "CPE"@ { assert(m[0] == "CPE"@[0]); } }
    assert(m != "JP"@) by { if m == "JP"@ { assert(m.len() == "JP"@.len()); } }
    assert(m != "CP"@) by { if m == "CP"@ { assert(m.len() == "CP"@.len()); } }
    assert(m != "JM"@) by { if m == "JM"@ { assert(m.len() == "JM"@.len()); } }
    assert(m != "CM"@) by { if m == "CM"@ { assert(m.len() == "CM"@.len()); } }
    assert(m != "ADI"@) by { if m == "ADI"@ { assert(m[1] == "ADI"@[1]); } }
    assert(m != "ACI"@) by { if m == "ACI"@ { assert(m[1] == "ACI"@[1]); } }
    assert(m != "OUT"@) by { if m == "OUT"@ { assert(m[0] == "OUT"@[0]); } }
    assert(m != "SUI"@) by { if m == "SUI"@ { assert(m[0] == "SUI"@[0]); } }
    assert(m != "IN"@) by { if m == "IN"@ { assert(m.len() == "IN"@.len()); } }
    assert(m != "SBI"@) by { if m == "SBI"@ { assert(m[0] == "SBI"@[0]); } }
    assert(addr_op(m) is None);
    assert(imm_op(m) == Some(0xe6u8));
}

#[verifier::rlimit(100)]
proof fn lemma_text_e6(v: u16)
    requires
        v < 256,
    ensures
        shape(0xe6u8) is Some,
        encode_line(shape(0xe6u8)->Some_0.0 + hex_text(v as nat)) == Ok::<Seq<u8>, Seq<char>>(seq![0xe6u8, v as u8]),
{
    reveal_strlit("ANI");
    reveal_strlit(" ");
    reveal_strlit("ANI ");
    let m = "ANI"@;
    assert(shape(0xe6u8)->Some_0.0 =~= m + " "@);
    lemma_operand_text(m, v as nat);
    lemma_name_e6();
    lemma_table_e6();
    lemma_port_args(m, v);
}

#[verifier::rlimit(100)]
proof fn lemma_name_ee()
    ensures
        not_register_form("XRI"@),
{
    reveal_strlit("ADC");
    reveal_strlit("ADD");
    reveal_strlit("ANA");
    reveal_strlit("CMP");
    reveal_strlit("DAD");
    reveal_strlit("DCR");
    reveal_strlit("DCX");
    reveal_strlit("INR");
    reveal_strlit("INX");
    reveal_strlit("LDAX");
    reveal_strlit("LXI");
    reveal_strlit("MOV");
    reveal_strlit("MVI");
    reveal_strlit("ORA");
    reveal_strlit("POP");
    reveal_strlit("PUSH");
    reveal_strlit("RST");
    reveal_strlit("SBB");
    reveal_strlit("STAX");
    reveal_strlit("SUB");
    reveal_strlit("XRA");
    reveal_strlit("XRI");
    let m = "XRI"@;
    assert(m != "MOV"@) by { if m == "MOV"@ { assert(m[0] == "MOV"@[0]); } }
    assert(m != "STAX"@) by { if m == "STAX"@ { assert(m.len() == "STAX"@.len()); } }
    assert(m != "LDAX"@) by { if m == "LDAX"@ { assert(m.len() == "LDAX"@.len()); } }
    assert(m != "INR"@) by { if m == "INR"@ { assert(m[0] == "INR"@[0]); } }
    assert(m != "DCR"@) by { if m == "DCR"@ { assert(m[0] == "DCR"@[0]); } }
    assert(m != "ADD"@) by { if m == "ADD"@ { assert(m[0] == "ADD"@[0]); } }
    assert(m != "ADC"@) by { if m == "ADC"@ { assert(m[0] == "ADC"@[0]); } }
    assert(m != "SUB"@) by { if m == "SUB"@ { assert(m[0] == "SUB"@[0]); } }
    assert(m != "SBB"@) by { if m == "SBB"@ { assert(m[0] == "SBB"@[0]); } }
    assert(m != "ANA"@) by { if m == "ANA"@ { assert(m[0] == "ANA"@[0]); } }
    assert(m != "XRA"@) by { if m == "XRA"@ { assert(m[2] == "XRA"@[2]); } }
    assert(m != "ORA"@) by { if m == "ORA"@ { assert(m[0] == "ORA"@[0]); } }
    assert(m != "CMP"@) by { if m == "CMP"@ { assert(m[0] == "CMP"@[0]); } }
    assert(m != "INX"@) by { if m == "INX"@ { assert(m[0] == "INX"@[0]); } }
    assert(m != "DAD"@) by { if m == "DAD"@ { assert(m[0] == "DAD"@[0]); } }
    assert(m != "DCX"@) by { if m == "DCX"@ { assert(m[0] == "DCX"@[0]); } }
    assert(m != "POP"@) by { if m == "POP"@ { assert(m[0] == "POP"@[0]); } }
    assert(m != "PUSH"@) by { if m == "PUSH"@ { assert(m.len() == "PUSH"@.len()); } }
    assert(m != "LXI"@) by { if m == "LXI"@ { assert(m[0] == "LXI"@[0]); } }
    assert(m != "MVI"@) by { if m == "MVI"@ { assert(m[0] == "MVI"@[0]); } }
    assert(m != "RST"@) by { if m == "RST"@ { assert(m[0] == "RST"@[0]); } }
}

#[verifier::rlimit(100)]
proof fn lemma_table_ee()
    ensures
        addr_op("XRI"@) is None,
        imm_op("XRI"@) == Some(0xeeu8),
{
    reveal_strlit("ACI");
    reveal_strlit("ADI");
    reveal_strlit("ANI");
    reveal_strlit("CALL");
    reveal_strlit("CC");
    reveal_strlit("CM");
    reveal_strlit("CNC");
    reveal_strlit("CNZ");
    reveal_strlit("CP");
    reveal_strlit("CPE");
    reveal_strlit("CPO");
    reveal_strlit("CZ");
    reveal_strlit("IN");
    reveal_strlit("JC");
    reveal_strlit("JM");
    reveal_strlit("JMP");
    reveal_strlit("JNC");
    reveal_strlit("JNZ");
    reveal_strlit("JP");
    reveal_strlit("JPE");
    reveal_strlit("JPO");
    reveal_strlit("JZ");
    reveal_strlit("LDA");
    reveal_strlit("LHLD");
    reveal_strlit("OUT");
    reveal_strlit("SBI");
    reveal_strlit("SHLD");
    reveal_strlit("STA");
    reveal_strlit("SUI");
    reveal_strlit("XRI");
    let m = "XRI"@;
    assert(m != "SHLD"@) by { if m == "SHLD"@ { assert(m.len() == "SHLD"@.len()); } }
    assert(m != "LHLD"@) by { if m == "LHLD"@ { assert(m.len() == "LHLD"@.len()); } }
    assert(m != "STA"@) by { if m == "STA"@ { assert(m[0] == "STA"@[0]); } }
    assert(m != "LDA"@) by { if m == "LDA"@ { assert(m[0] == "LDA"@[0]); } }
    assert(m != "JMP"@) by { if m == "JMP"@ { assert(m[0] == "JMP"@[0]); } }
    assert(m != "JNZ"@) by { if m == "JNZ"@ { assert(m[0] == "JNZ"@[0]); } }
    assert(m != "CNZ"@) by { if m == "CNZ"@ { assert(m[0] == "CNZ"@[0]); } }
    assert(m != "JZ"@) by { if m == "JZ"@ { assert(m.len() == "JZ"@.len()); } }
    assert(m != "CZ"@) by { if m == "CZ"@ { assert(m.len() == "CZ"@.len()); } }
    assert(m != "CALL"@) by { if m == "CALL"@ { assert(m.len() == "CALL"@.len()); } }
    assert(m != "JNC"@) by { if m == "JNC"@ { assert(m[0] == "JNC"@[0]); } }
    assert(m != "CNC"@) by { if m == "CNC"@ { assert(m[0] == "CNC"@[0]); } }
    assert(m != "JC"@) by { if m == "JC"@ { assert(m.len() == "JC"@.len()); } }
    assert(m != "CC"@) by { if m == "CC"@ { assert(m.len() == "CC"@.len()); } }
    assert(m != "JPO"@) by { if m == "JPO"@ { assert(m[0] == "JPO"@[0]); } }
    assert(m != "CPO"@) by { if m == "CPO"@ { assert(m[0] == "CPO"@[0]); } }
    assert(m != "JPE"@) by { if m == "JPE"@ { assert(m[0] == "JPE"@[0]); } }
    assert(m != "CPE"@) by { if m == "CPE"@ { assert(m[0] == "CPE"@[0]); } }
    assert(m != "JP"@) by { if m == "JP"@ { assert(m.len() == "JP"@.len()); } }
    assert(m != "CP"@) by { if m == "CP"@ { assert(m.len() == "CP"@.len()); } }
    assert(m != "JM"@) by { if m == "JM"@ { assert(m.len() == "JM"@.len()); } }
    assert(m != "CM"@) by { if m == "CM"@ { assert(m.len() == "CM"@.len()); } }
    assert(m != "ADI"@) by { if m == "ADI"@ { assert(m[0] == "ADI"@[0]); } }
    assert(m != "ACI"@) by { if m == "ACI"@ { assert(m[0] == "ACI"@[0]); } }
    assert(m != "OUT"@) by { if m == "OUT"@ { assert(m[0] == "OUT"@[0]); } }
    assert(m != "SUI"@) by { if m == "SUI"@ { assert(m[0] == "SUI"@[0]); } }
    assert(m != "IN"@) by { if m == "IN"@ { assert(m.len() == "IN"@.len()); } }
    assert(m != "SBI"@) by { if m == "SBI"@ { assert(m[0] == "SBI"@[0]); } }
    assert(m != "ANI"@) by { if m == "ANI"@ { assert(m[0] == "ANI"@[0]); } }
    assert(addr_op(m) is None);
    assert(imm_op(m) == Some(0xeeu8));
}

#[verifier::rlimit(100)]
proof fn lemma_text_ee(v: u16)
    requires
        v < 256,
    ensures
        shape(0xeeu8) is Some,
        encode_line(shape(0xeeu8)->Some_0.0 + hex_text(v as nat)) == Ok::<Seq<u8>, Seq<char>>(seq![0xeeu8, v as u8]),
{
    reveal_strlit("XRI");
    reveal_strlit(" ");
    reveal_strlit("XRI ");
    let m = "XRI"@;
    assert(shape(0xeeu8)->Some_0.0 =~= m + " "@);
    lemma_operand_text(m, v as nat);
    lemma_name_ee();
    lemma_table_ee();
    lemma_port_args(m, v);
}

#[verifier::rlimit(100)]
proof fn lemma_name_f6()
    ensures
        not_register_form("ORI"@),
{
    reveal_strlit("ADC");
    reveal_strlit("ADD");
    reveal_strlit("ANA");
    reveal_strlit("CMP");
    reveal_strlit("DAD");
    reveal_strlit("DCR");
    reveal_strlit("DCX");
    reveal_strlit("INR");
    reveal_strlit("INX");
    reveal_strlit("LDAX");
    reveal_strlit("LXI");
    reveal_strlit("MOV");
    reveal_strlit("MVI");
    reveal_strlit("ORA");
    reveal_strlit("ORI");
    reveal_strlit("POP");
    reveal_strlit("PUSH");
    reveal_strlit("RST");
    reveal_strlit("SBB");
    reveal_strlit("STAX");
    reveal_strlit("SUB");
    reveal_strlit("XRA");
    let m = "ORI"@;
    assert(m != "MOV"@) by { if m == "MOV"@ { assert(m[0] == "MOV"@[0]); } }
    assert(m != "STAX"@) by { if m == "STAX"@ { assert(m.len() == "STAX"@.len()); } }
    assert(m != "LDAX"@) by { if m == "LDAX"@ { assert(m.len() == "LDAX"@.len()); } }
    assert(m != "INR"@) by { if m == "INR"@ { assert(m[0] == "INR"@[0]); } }
    assert(m != "DCR"@) by { if m == "DCR"@ { assert(m[0] == "DCR"@[0]); } }
    assert(m != "ADD"@) by { if m == "ADD"@ { assert(m[0] == "ADD"@[0]); } }
    assert(m != "ADC"@) by { if m == "ADC"@ { assert(m[0] == "ADC"@[0]); } }
    assert(m != "SUB"@) by { if m == "SUB"@ { assert(m[0] == "SUB"@[0]); } }
    assert(m != "SBB"@) by { if m == "SBB"@ { assert(m[0] == "SBB"@[0]); } }
    assert(m != "ANA"@) by { if m == "ANA"@ { assert(m[0] == "ANA"@[0]); } }
    assert(m != "XRA"@) by { if m == "XRA"@ { assert(m[0] == "XRA"@[0]); } }
    assert(m != "ORA"@) by { if m == "ORA"@ { assert(m[2] == "ORA"@[2]); } }
    assert(m != "CMP"@) by { if m == "CMP"@ { assert(m[0] == "CMP"@[0]); } }
    assert(m != "INX"@) by { if m == "INX"@ { assert(m[0] == "INX"@[0]); } }
    assert(m != "DAD"@) by { if m == "DAD"@ { assert(m[0] == "DAD"@[0]); } }
    assert(m != "DCX"@) by { if m == "DCX"@ { assert(m[0] == "DCX"@[0]); } }
    assert(m != "POP"@) by { if m == "POP"@ { assert(m[0] == "POP"@[0]); } }
    assert(m != "PUSH"@) by { if m == "PUSH"@ { assert(m.len() == "PUSH"@.len()); } }
    assert(m != "LXI"@) by { if m == "LXI"@ { assert(m[0] == "LXI"@[0]); } }
    assert(m != "MVI"@) by { if m == "MVI"@ { assert(m[0] == "MVI"@[0]); } }
    assert(m != "RST"@) by { if m == "RST"@ { assert(m[0] == "RST"@[0]); } }
}

#[verifier::rlimit(100)]
proof fn lemma_table_f6()
    ensures
        addr_op("ORI"@) is None,
        imm_op("ORI"@) == Some(0xf6u8),
{
    reveal_strlit("ACI");
    reveal_strlit("ADI");
    reveal_strlit("ANI");
    reveal_strlit("CALL");
    reveal_strlit("CC");
    reveal_strlit("CM");
    reveal_strlit("CNC");
    reveal_strlit("CNZ");
    reveal_strlit("CP");
    reveal_strlit("CPE");
    reveal_strlit("CPO");
    reveal_strlit("CZ");
    reveal_strlit("IN");
    reveal_strlit("JC");
    reveal_strlit("JM");
    reveal_strlit("JMP");
    reveal_strlit("JNC");
    reveal_strlit("JNZ");
    reveal_strlit("JP");
    reveal_strlit("JPE");
    reveal_strlit("JPO");
    reveal_strlit("JZ");
    reveal_strlit("LDA");
    reveal_strlit("LHLD");
    reveal_strlit("ORI");
    reveal_strlit("OUT");
    reveal_strlit("SBI");
    reveal_strlit("SHLD");
    reveal_strlit("STA");
    reveal_strlit("SUI");
    reveal_strlit("XRI");
    let m = "ORI"@;
    assert(m != "SHLD"@) by { if m == "SHLD"@ { assert(m.len() == "SHLD"@.len()); } }
    assert(m != "LHLD"@) by { if m == "LHLD"@ { assert(m.len() == "LHLD"@.len()); } }
    assert(m != "STA"@) by { if m == "STA"@ { assert(m[0] == "STA"@[0]); } }
    assert(m != "LDA"@) by { if m == "LDA"@ { assert(m[0] == "LDA"@[0]); } }
    assert(m != "JMP"@) by { if m == "JMP"@ { assert(m[0] == "JMP"@[0]); } }
    assert(m != "JNZ"@) by { if m == "JNZ"@ { assert(m[0] == "JNZ"@[0]); } }
    assert(m != "CNZ"@) by { if m == "CNZ"@ { assert(m[0] == "CNZ"@[0]); } }
    assert(m != "JZ"@) by { if m == "JZ"@ { assert(m.len() == "JZ"@.len()); } }
    assert(m != "CZ"@) by { if m == "CZ"@ { assert(m.len() == "CZ"@.len()); } }
    assert(m != "CALL"@) by { if m == "CALL"@ { assert(m.len() == "CALL"@.len()); } }
    assert(m != "JNC"@) by { if m == "JNC"@ { assert(m[0] == "JNC"@[0]); } }
    assert(m != "CNC"@) by { if m == "CNC"@ { assert(m[0] == "CNC"@[0]); } }
    assert(m != "JC"@) by { if m == "JC"@ { assert(m.len() == "JC"@.len()); } }
    assert(m != "CC"@) by { if m == "CC"@ { assert(m.len() == "CC"@.len()); } }
    assert(m != "JPO"@) by { if m == "JPO"@ { assert(m[0] == "JPO"@[0]); } }
    assert(m != "CPO"@) by { if m == "CPO"@ { assert(m[0] == "CPO"@[0]); } }
    assert(m != "JPE"@) by { if m == "JPE"@ { assert(m[0] == "JPE"@[0]); } }
    assert(m != "CPE"@) by { if m == "CPE"@ { assert(m[0] == "CPE"@[0]); } }
    assert(m != "JP"@) by { if m == "JP"@ { assert(m.len() == "JP"@.len()); } }
    assert(m != "CP"@) by { if m == "CP"@ { assert(m.len() == "CP"@.len()); } }
    assert(m != "JM"@) by { if m == "JM"@ { assert(m.len() == "JM"@.len()); } }
    assert(m != "CM"@) by { if m == "CM"@ { assert(m.len() == "CM"@.len()); } }
    assert(m != "ADI"@) by { if m == "ADI"@ { assert(m[0] == "ADI"@[0]); } }
    assert(m != "ACI"@) by { if m == "ACI"@ { assert(m[0] == "ACI"@[0]); } }
    assert(m != "OUT"@) by { if m == "OUT"@ { assert(m[1] == "OUT"@[1]); } }
    assert(m != "SUI"@) by { if m == "SUI"@ { assert(m[0] == "SUI"@[0]); } }
    assert(m != "IN"@) by { if m == "IN"@ { assert(m.len() == "IN"@.len()); } }
    assert(m != "SBI"@) by { if m == "SBI"@ { assert(m[0] == "SBI"@[0]); } }
    assert(m != "ANI"@) by { if m == "ANI"@ { assert(m[0] == "ANI"@[0]); } }
    assert(m != "XRI"@) by { if m == "XRI"@ { assert(m[0] == "XRI"@[0]); } }
    assert(addr_op(m) is None);
    assert(imm_op(m) == Some(0xf6u8));
}

#[verifier::rlimit(100)]
proof fn lemma_text_f6(v: u16)
    requires
        v < 256,
    ensures
        shape(0xf6u8) is Some,
        encode_line(shape(0xf6u8)->Some_0.0 + hex_text(v as nat)) == Ok::<Seq<u8>, Seq<char>>(seq![0xf6u8, v as u8]),
{
    reveal_strlit("ORI");
    reveal_strlit(" ");
    reveal_strlit("ORI ");
    let m = "ORI"@;
    assert(shape(0xf6u8)->Some_0.0 =~= m + " "@);
    lemma_operand_text(m, v as nat);
    lemma_name_f6();
    lemma_table_f6();
    lemma_port_args(m, v);
}

#[verifier::rlimit(100)]
proof fn lemma_name_fe()
    ensures
        not_register_form("CPI"@),
{
    reveal_strlit("ADC");
    reveal_strlit("ADD");
    reveal_strlit("ANA");
    reveal_strlit("CMP");
    reveal_strlit("CPI");
    reveal_strlit("DAD");
    reveal_strlit("DCR");
    reveal_strlit("DCX");
    reveal_strlit("INR");
    reveal_strlit("INX");
    reveal_strlit("LDAX");
    reveal_strlit("LXI");
    reveal_strlit("MOV");
    reveal_strlit("MVI");
    reveal_strlit("ORA");
    reveal_strlit("POP");
    reveal_strlit("PUSH");
    reveal_strlit("RST");
    reveal_strlit("SBB");
    reveal_strlit("STAX");
    reveal_strlit("SUB");
    reveal_strlit("XRA");
    let m = "CPI"@;
    assert(m != "MOV"@) by { if m == "MOV"@ { assert(m[0] == "MOV"@[0]); } }
    assert(m != "STAX"@) by { if m == "STAX"@ { assert(m.len() == "STAX"@.len()); } }
    assert(m != "LDAX"@) by { if m == "LDAX"@ { assert(m.len() == "LDAX"@.len()); } }
    assert(m != "INR"@) by { if m == "INR"@ { assert(m[0] == "INR"@[0]); } }
    assert(m != "DCR"@) by { if m == "DCR"@ { assert(m[0] == "DCR"@[0]); } }
    assert(m != "ADD"@) by { if m == "ADD"@ { assert(m[0] == "ADD"@[0]); } }
    assert(m != "ADC"@) by { if m == "ADC"@ { assert(m[0] == "ADC"@[0]); } }
    assert(m != "SUB"@) by { if m == "SUB"@ { assert(m[0] == "SUB"@[0]); } }
    assert(m != "SBB"@) by { if m == "SBB"@ { assert(m[0] == "SBB"@[0]); } }
    assert(m != "ANA"@) by { if m == "ANA"@ { assert(m[0] == "ANA"@[0]); } }
    assert(m != "XRA"@) by { if m == "XRA"@ { assert(m[0] == "XRA"@[0]); } }
    assert(m != "ORA"@) by { if m == "ORA"@ { assert(m[0] == "ORA"@[0]); } }
    assert(m != "CMP"@) by { if m == "CMP"@ { assert(m[1] == "CMP"@[1]); } }
    assert(m != "INX"@) by { if m == "INX"@ { assert(m[0] == "INX"@[0]); } }
    assert(m != "DAD"@) by { if m == "DAD"@ { assert(m[0] == "DAD"@[0]); } }
    assert(m != "DCX"@) by { if m == "DCX"@ { assert(m[0] == "DCX"@[0]); } }
    assert(m != "POP"@) by { if m == "POP"@ { assert(m[0] == "POP"@[0]); } }
    assert(m != "PUSH"@) by { if m == "PUSH"@ { assert(m.len() == "PUSH"@.len()); } }
    assert(m != "LXI"@) by { if m == "LXI"@ { assert(m[0] == "LXI"@[0]); } }
    assert(m != "MVI"@) by { if m == "MVI"@ { assert(m[0] == "MVI"@[0]); } }
    assert(m != "RST"@) by { if m == "RST"@ { assert(m[0] == "RST"@[0]); } }
}

#[verifier::rlimit(100)]
proof fn lemma_table_fe()
    ensures
        addr_op("CPI"@) is None,
        imm_op("CPI"@) == Some(0xfeu8),
{
    reveal_strlit("ACI");
    reveal_strlit("ADI");
    reveal_strlit("ANI");
    reveal_strlit("CALL");
    reveal_strlit("CC");
    reveal_strlit("CM");
    reveal_strlit("CNC");
    reveal_strlit("CNZ");
    reveal_strlit("CP");
    reveal_strlit("CPE");
    reveal_strlit("CPI");
    reveal_strlit("CPO");
    reveal_strlit("CZ");
    reveal_strlit("IN");
    reveal_strlit("JC");
    reveal_strlit("JM");
    reveal_strlit("JMP");
    reveal_strlit("JNC");
    reveal_strlit("JNZ");
    reveal_strlit("JP");
    reveal_strlit("JPE");
    reveal_strlit("JPO");
    reveal_strlit("JZ");
    reveal_strlit("LDA");
    reveal_strlit("LHLD");
    reveal_strlit("ORI");
    reveal_strlit("OUT");
    reveal_strlit("SBI");
    reveal_strlit("SHLD");
    reveal_strlit("STA");
    reveal_strlit("SUI");
    reveal_strlit("XRI");
    let m = "CPI"@;
    assert(m != "SHLD"@) by { if m == "SHLD"@ { assert(m.len() == "SHLD"@.len()); } }
    assert(m != "LHLD"@) by { if m == "LHLD"@ { assert(m.len() == "LHLD"@.len()); } }
    assert(m != "STA"@) by { if m == "STA"@ { assert(m[0] == "STA"@[0]); } }
    assert(m != "LDA"@) by { if m == "LDA"@ { assert(m[0] == "LDA"@[0]); } }
    assert(m != "JMP"@) by { if m == "JMP"@ { assert(m[0] == "JMP"@[0]); } }
    assert(m != "JNZ"@) by { if m == "JNZ"@ { assert(m[0] == "JNZ"@[0]); } }
    assert(m != "CNZ"@) by { if m == "CNZ"@ { assert(m[1] == "CNZ"@[1]); } }
    assert(m != "JZ"@) by { if m == "JZ"@ { assert(m.len() == "JZ"@.len()); } }
    assert(m != "CZ"@) by { if m == "CZ"@ { assert(m.len() == "CZ"@.len()); } }
    assert(m != "CALL"@) by { if m == "CALL"@ { assert(m.len() == "CALL"@.len()); } }
    assert(m != "JNC"@) by { if m == "JNC"@ { assert(m[0] == "JNC"@[0]); } }
    assert(m != "CNC"@) by { if m == "CNC"@ { assert(m[1] == "CNC"@[1]); } }
    assert(m != "JC"@) by { if m == "JC"@ { assert(m.len() == "JC"@.len()); } }
    assert(m != "CC"@) by { if m == "CC"@ { assert(m.len() == "CC"@.len()); } }
    assert(m != "JPO"@) by { if m == "JPO"@ { assert(m[0] == "JPO"@[0]); } }
    assert(m != "CPO"@) by { if m == "CPO"@ { assert(m[2] == "CPO"@[2]); } }
    assert(m != "JPE"@) by { if m == "JPE"@ { assert(m[0] == "JPE"@[0]); } }
    assert(m != "CPE"@) by { if m == "CPE"@ { assert(m[2] == "CPE"@[2]); } }
    assert(m != "JP"@) by { if m == "JP"@ { assert(m.len() == "JP"@.len()); } }
    assert(m != "CP"@) by { if m == "CP"@ { assert(m.len() == "CP"@.len()); } }
    assert(m != "JM"@) by { if m == "JM"@ { assert(m.len() == "JM"@.len()); } }
    assert(m != "CM"@) by { if m == "CM"@ { assert(m.len() == "CM"@.len()); } }
    assert(m != "ADI"@) by { if m == "ADI"@ { assert(m[0] == "ADI"@[0]); } }
    assert(m != "ACI"@) by { if m == "ACI"@ { assert(m[0] == "ACI"@[0]); } }
    assert(m != "OUT"@) by { if m == "OUT"@ { assert(m[0] == "OUT"@[0]); } }
    assert(m != "SUI"@) by { if m == "SUI"@ { assert(m[0] == "SUI"@[0]); } }
    assert(m != "IN"@) by { if m == "IN"@ { assert(m.len() == "IN"@.len()); } }
    assert(m != "SBI"@) by { if m == "SBI"@ { assert(m[0] == "SBI"@[0]); } }
    assert(m != "ANI"@) by { if m == "ANI"@ { assert(m[0] == "ANI"@[0]); } }
    assert(m != "XRI"@) by { if m == "XRI"@ { assert(m[0] == "XRI"@[0]); } }
    assert(m != "ORI"@) by { if m == "ORI"@ { assert(m[0] == "ORI"@[0]); } }
    assert(addr_op(m) is None);
    assert(imm_op(m) == Some(0xfeu8));
}

#[verifier::rlimit(100)]
proof fn lemma_text_fe(v: u16)
    requires
        v < 256,
    ensures
        shape(0xfeu8) is Some,
        encode_line(shape(0xfeu8)->Some_0.0 + hex_text(v as nat)) == Ok::<Seq<u8>, Seq<char>>(seq![0xfeu8, v as u8]),
{
    reveal_strlit("CPI");
    reveal_strlit(" ");
    reveal_strlit("CPI ");
    let m = "CPI"@;
    assert(shape(0xfeu8)->Some_0.0 =~= m + " "@);
    lemma_operand_text(m, v as nat);
    lemma_name_fe();
    lemma_table_fe();
    lemma_port_args(m, v);
}

/// The disassembler's text for an immediate accumulator instruction (ADI to
/// CPI) with any byte assembles back to the same two bytes.
#[verifier::rlimit(100)]
pub proof fn lemma_immediate_round_trip(op: u8, b: u8)
    requires
        op >= 0xC0,
        op % 8 == 6,
    ensures
        match shape(op) {
            Some((p, n)) => n == 1 && encode_line(p + hex_text(b as nat)) == Ok::<Seq<u8>, Seq<char>>(seq![op, b]),
            None => false,
        },
{
    assert(shape(op) is Some && shape(op)->Some_0.1 == 1);
    if op == 0xc6 {
        lemma_text_c6(b as u16);
    } else if op == 0xce {
        lemma_text_ce(b as u16);
    } else if op == 0xd6 {
        lemma_text_d6(b as u16);
    } else if op == 0xde {
        lemma_text_de(b as u16);
    } else if op == 0xe6 {
        lemma_text_e6(b as u16);
    } else if op == 0xee {
        lemma_text_ee(b as u16);
    } else if op == 0xf6 {
        lemma_text_f6(b as u16);
    } else if op == 0xfe {
        lemma_text_fe(b as u16);
    }
}

/// Opcodes with a 16-bit address operand.
pub open spec fn is_address_opcode(op: u8) -> bool {
    op == 0x22 || op == 0x2a || op == 0x32 || op == 0x3a || op == 0xc3 || op == 0xc2 || op == 0xc4 || op == 0xca || op == 0xcc || op == 0xcd || op == 0xd2 || op == 0xd4 || op == 0xda || op == 0xdc || op == 0xe2 || op == 0xe4 || op == 0xea || op == 0xec || op == 0xf2 || op == 0xf4 || op == 0xfa || op == 0xfc
}

/// The disassembler's text for an instruction with an address operand, or for
/// IN and OUT with a port, assembles back to the same bytes.
#[verifier::rlimit(100)]
pub proof fn lemma_address_round_trip(op: u8, v: u16)
    requires
        is_address_opcode(op) || ((op == 0xd3 || op == 0xdb) && v < 256),
    ensures
        match shape(op) {
            Some((p, n)) => encode_line(p + hex_text(v as nat)) == Ok::<Seq<u8>, Seq<char>>(
                if is_address_opcode(op) { seq![op, (v % 256) as u8, (v / 256) as u8] } else { seq![op, v as u8] },
            ),
            None => false,
        },
{
    if op == 0x22 {
        lemma_text_22(v);
    } else if op == 0x2a {
        lemma_text_2a(v);
    } else if op == 0x32 {
        lemma_text_32(v);
    } else if op == 0x3a {
        lemma_text_3a(v);
    } else if op == 0xc3 {
        lemma_text_c3(v);
    } else if op == 0xc2 {
        lemma_text_c2(v);
    } else if op == 0xc4 {
        lemma_text_c4(v);
    } else if op == 0xca {
        lemma_text_ca(v);
    } else if op == 0xcc {
        lemma_text_cc(v);
    } else if op == 0xcd {
        lemma_text_cd(v);
    } else if op == 0xd2 {
        lemma_text_d2(v);
    } else if op == 0xd4 {
        lemma_text_d4(v);
    } else if op == 0xda {
        lemma_text_da(v);
    } else if op == 0xdc {
        lemma_text_dc(v);
    } else if op == 0xe2 {
        lemma_text_e2(v);
    } else if op == 0xe4 {
        lemma_text_e4(v);
    } else if op == 0xea {
        lemma_text_ea(v);
    } else if op == 0xec {
        lemma_text_ec(v);
    } else if op == 0xf2 {
        lemma_text_f2(v);
    } else if op == 0xf4 {
        lemma_text_f4(v);
    } else if op == 0xfa {
        lemma_text_fa(v);
    } else if op == 0xfc {
        lemma_text_fc(v);
    } else if op == 0xd3 {
        lemma_text_d3(v);
    } else if op == 0xdb {
        lemma_text_db(v);
    }
}

#[verifier::rlimit(100)]
proof fn lemma_plain_text(m: Seq<char>)
    requires
        1 <= m.len() <= 4,
        forall|k: int| 0 <= k < m.len() ==> 'A' <= #[trigger] m[k] <= 'Z',
    ensures
        encode_line(m) == match no_arg_op(m) {
            Some(op) => Ok::<Seq<u8>, Seq<char>>(seq![op]),
            None => Err("Could not match instruction"@),
        },
{
    reveal_with_fuel(spaces_end, 2);
    reveal_with_fuel(ident_end, 6);
    assert(spaces_end(m, 0) == 0);
    assert(ident_end(m, 0) == m.len());
    assert(label_end(m) == 0);
    assert(m.subrange(0, m.len() as int) =~= m);
    reveal_with_fuel(first_non_ws, 2);
    assert(first_non_ws(m, 0) == 0);
    assert(trim_start(m) =~= m);
    reveal_with_fuel(find_from, 6);
    assert(find_from(m, ' ', 0) == m.len());
    reveal_with_fuel(last_non_ws, 2);
    assert(last_non_ws(m, 0, m.len() as int) == m.len());
    assert(trim(m) =~= m);
    reveal(encode_line);
}

/// Opcodes whose instruction takes no operand and is known to the assembler.
pub open spec fn is_plain_opcode(op: u8) -> bool {
    op == 0x0 || op == 0x7 || op == 0xf || op == 0x17 || op == 0x1f || op == 0x2f || op == 0x3f || op == 0x27 || op == 0x76 || op == 0xc0 || op == 0x37 || op == 0xc9 || op == 0xd0 || op == 0xe8 || op == 0xe0 || op == 0xfb || op == 0xf8 || op == 0xc8 || op == 0xd8 || op == 0xf3 || op == 0xf0 || op == 0xf9 || op == 0xeb || op == 0xe9 || op == 0xe3
}

/// The disassembler's text for an instruction without operands assembles back
/// to the same opcode.
#[verifier::rlimit(100)]
pub proof fn lemma_plain_round_trip(op: u8)
    requires
        is_plain_opcode(op),
    ensures
        match shape(op) {
            Some((t, n)) => n == 0 && encode_line(t) == Ok::<Seq<u8>, Seq<char>>(seq![op]),
            None => false,
        },
{
    reveal_strlit(" ");
    reveal_strlit("ACI");
    reveal_strlit("ACI ");
    reveal_strlit("ADC");
    reveal_strlit("ADD");
    reveal_strlit("ADI");
    reveal_strlit("ADI ");
    reveal_strlit("ANA");
    reveal_strlit("ANI");
    reveal_strlit("ANI ");
    reveal_strlit("C");
    reveal_strlit("CALL");
    reveal_strlit("CALL ");
    reveal_strlit("CC");
    reveal_strlit("CC ");
    reveal_strlit("CM");
    reveal_strlit("CM ");
    reveal_strlit("CMA");
    reveal_strlit("CMC");
    reveal_strlit("CMP");
    reveal_strlit("CNC");
    reveal_strlit("CNC ");
    reveal_strlit("CNZ");
    reveal_strlit("CNZ ");
    reveal_strlit("CP");
    reveal_strlit("CP ");
    reveal_strlit("CPE");
    reveal_strlit("CPE ");
    reveal_strlit("CPI");
    reveal_strlit("CPI ");
    reveal_strlit("CPO");
    reveal_strlit("CPO ");
    reveal_strlit("CZ");
    reveal_strlit("CZ ");
    reveal_strlit("DAA");
    reveal_strlit("DAD");
    reveal_strlit("DCR");
    reveal_strlit("DCX");
    reveal_strlit("DI");
    reveal_strlit("EI");
    reveal_strlit("HLT");
    reveal_strlit("IN");
    reveal_strlit("IN ");
    reveal_strlit("INR");
    reveal_strlit("INX");
    reveal_strlit("J");
    reveal_strlit("JC");
    reveal_strlit("JC ");
    reveal_strlit("JM");
    reveal_strlit("JM ");
    reveal_strlit("JMP");
    reveal_strlit("JMP ");
    reveal_strlit("JNC");
    reveal_strlit("JNC ");
    reveal_strlit("JNZ");
    reveal_strlit("JNZ ");
    reveal_strlit("JP");
    reveal_strlit("JP ");
    reveal_strlit("JPE");
    reveal_strlit("JPE ");
    reveal_strlit("JPO");
    reveal_strlit("JPO ");
    reveal_strlit("JZ");
    reveal_strlit("JZ ");
    reveal_strlit("LDA");
    reveal_strlit("LDA ");
    reveal_strlit("LDAX");
    reveal_strlit("LHLD");
    reveal_strlit("LHLD ");
    reveal_strlit("LXI");
    reveal_strlit("M");
    reveal_strlit("MOV");
    reveal_strlit("MVI");
    reveal_strlit("NC");
    reveal_strlit("NOP");
    reveal_strlit("NZ");
    reveal_strlit("ORA");
    reveal_strlit("ORI");
    reveal_strlit("ORI ");
    reveal_strlit("OUT");
    reveal_strlit("OUT ");
    reveal_strlit("P");
    reveal_strlit("PCHL");
    reveal_strlit("PE");
    reveal_strlit("PO");
    reveal_strlit("POP");
    reveal_strlit("PUSH");
    reveal_strlit("R");
    reveal_strlit("RAL");
    reveal_strlit("RAR");
    reveal_strlit("RC");
    reveal_strlit("RET");
    reveal_strlit("RLC");
    reveal_strlit("RM");
    reveal_strlit("RNC");
    reveal_strlit("RNZ");
    reveal_strlit("RP");
    reveal_strlit("RPE");
    reveal_strlit("RPO");
    reveal_strlit("RRC");
    reveal_strlit("RST");
    reveal_strlit("RZ");
    reveal_strlit("SBB");
    reveal_strlit("SBI");
    reveal_strlit("SBI ");
    reveal_strlit("SHLD");
    reveal_strlit("SHLD ");
    reveal_strlit("SPHL");
    reveal_strlit("STA");
    reveal_strlit("STA ");
    reveal_strlit("STAX");
    reveal_strlit("STC");
    reveal_strlit("SUB");
    reveal_strlit("SUI");
    reveal_strlit("SUI ");
    reveal_strlit("XCHG");
    reveal_strlit("XRA");
    reveal_strlit("XRI");
    reveal_strlit("XRI ");
    reveal_strlit("XTHL");
    reveal_strlit("Z");
    if op == 0x0 {
        let m = "NOP"@;
        assert(shape(op)->Some_0.0 =~= m);
        lemma_plain_text(m);
        assert(no_arg_op(m) == Some(0x0u8));
    } else if op == 0x7 {
        let m = "RLC"@;
        assert(shape(op)->Some_0.0 =~= m);
        lemma_plain_text(m);
        assert(m != "NOP"@) by { if m == "NOP"@ { assert(m[0] == "NOP"@[0]); } }
        assert(no_arg_op(m) == Some(0x7u8));
    } else if op == 0xf {
        let m = "RRC"@;
        assert(shape(op)->Some_0.0 =~= m);
        lemma_plain_text(m);
        assert(m != "NOP"@) by { if m == "NOP"@ { assert(m[0] == "NOP"@[0]); } }
        assert(m != "RLC"@) by { if m == "RLC"@ { assert(m[1] == "RLC"@[1]); } }
        assert(no_arg_op(m) == Some(0xfu8));
    } else if op == 0x17 {
        let m = "RAL"@;
        assert(shape(op)->Some_0.0 =~= m);
        lemma_plain_text(m);
        assert(m != "NOP"@) by { if m == "NOP"@ { assert(m[0] == "NOP"@[0]); } }
        assert(m != "RLC"@) by { if m == "RLC"@ { assert(m[1] == "RLC"@[1]); } }
        assert(m != "RRC"@) by { if m == "RRC"@ { assert(m[1] == "RRC"@[1]); } }
        assert(no_arg_op(m) == Some(0x17u8));
    } else if op == 0x1f {
        let m = "RAR"@;
        assert(shape(op)->Some_0.0 =~= m);
        lemma_plain_text(m);
        assert(m != "NOP"@) by { if m == "NOP"@ { assert(m[0] == "NOP"@[0]); } }
        assert(m != "RLC"@) by { if m == "RLC"@ { assert(m[1] == "RLC"@[1]); } }
        assert(m != "RRC"@) by { if m == "RRC"@ { assert(m[1] == "RRC"@[1]); } }
        assert(m != "RAL"@) by { if m == "RAL"@ { assert(m[2] == "RAL"@[2]); } }
        assert(no_arg_op(m) == Some(0x1fu8));
    } else if op == 0x2f {
        let m = "CMA"@;
        assert(shape(op)->Some_0.0 =~= m);
        lemma_plain_text(m);
        assert(m != "NOP"@) by { if m == "NOP"@ { assert(m[0] == "NOP"@[0]); } }
        assert(m != "RLC"@) by { if m == "RLC"@ { assert(m[0] == "RLC"@[0]); } }
        assert(m != "RRC"@) by { if m == "RRC"@ { assert(m[0] == "RRC"@[0]); } }
        assert(m != "RAL"@) by { if m == "RAL"@ { assert(m[0] == "RAL"@[0]); } }
        assert(m != "RAR"@) by { if m == "RAR"@ { assert(m[0] == "RAR"@[0]); } }
        assert(no_arg_op(m) == Some(0x2fu8));
    } else if op == 0x3f {
        let m = "CMC"@;
        assert(shape(op)->Some_0.0 =~= m);
        lemma_plain_text(m);
        assert(m != "NOP"@) by { if m == "NOP"@ { assert(m[0] == "NOP"@[0]); } }
        assert(m != "RLC"@) by { if m == "RLC"@ { assert(m[0] == "RLC"@[0]); } }
        assert(m != "RRC"@) by { if m == "RRC"@ { assert(m[0] == "RRC"@[0]); } }
        assert(m != "RAL"@) by { if m == "RAL"@ { assert(m[0] == "RAL"@[0]); } }
        assert(m != "RAR"@) by { if m == "RAR"@ { assert(m[0] == "RAR"@[0]); } }
        assert(m != "CMA"@) by { if m == "CMA"@ { assert(m[2] == "CMA"@[2]); } }
        assert(no_arg_op(m) == Some(0x3fu8));
    } else if op == 0x27 {
        let m = "DAA"@;
        assert(shape(op)->Some_0.0 =~= m);
        lemma_plain_text(m);
        assert(m != "NOP"@) by { if m == "NOP"@ { assert(m[0] == "NOP"@[0]); } }
        assert(m != "RLC"@) by { if m == "RLC"@ { assert(m[0] == "RLC"@[0]); } }
        assert(m != "RRC"@) by { if m == "RRC"@ { assert(m[0] == "RRC"@[0]); } }
        assert(m != "RAL"@) by { if m == "RAL"@ { assert(m[0] == "RAL"@[0]); } }
        assert(m != "RAR"@) by { if m == "RAR"@ { assert(m[0] == "RAR"@[0]); } }
        assert(m != "CMA"@) by { if m == "CMA"@ { assert(m[0] == "CMA"@[0]); } }
        assert(m != "CMC"@) by { if m == "CMC"@ { assert(m[0] == "CMC"@[0]); } }
        assert(no_arg_op(m) == Some(0x27u8));
    } else if op == 0x76 {
        let m = "HLT"@;
        assert(shape(op)->Some_0.0 =~= m);
        lemma_plain_text(m);
        assert(m != "NOP"@) by { if m == "NOP"@ { assert(m[0] == "NOP"@[0]); } }
        assert(m != "RLC"@) by { if m == "RLC"@ { assert(m[0] == "RLC"@[0]); } }
        assert(m != "RRC"@) by { if m == "RRC"@ { assert(m[0] == "RRC"@[0]); } }
        assert(m != "RAL"@) by { if m == "RAL"@ { assert(m[0] == "RAL"@[0]); } }
        assert(m != "RAR"@) by { if m == "RAR"@ { assert(m[0] == "RAR"@[0]); } }
        assert(m != "CMA"@) by { if m == "CMA"@ { assert(m[0] == "CMA"@[0]); } }
        assert(m != "CMC"@) by { if m == "CMC"@ { assert(m[0] == "CMC"@[0]); } }
        assert(m != "DAA"@) by { if m == "DAA"@ { assert(m[0] == "DAA"@[0]); } }
        assert(no_arg_op(m) == Some(0x76u8));
    } else if op == 0xc0 {
        let m = "RNZ"@;
        assert(shape(op)->Some_0.0 =~= m);
        lemma_plain_text(m);
        assert(m != "NOP"@) by { if m == "NOP"@ { assert(m[0] == "NOP"@[0]); } }
        assert(m != "RLC"@) by { if m == "RLC"@ { assert(m[1] == "RLC"@[1]); } }
        assert(m != "RRC"@) by { if m == "RRC"@ { assert(m[1] == "RRC"@[1]); } }
        assert(m != "RAL"@) by { if m == "RAL"@ { assert(m[1] == "RAL"@[1]); } }
        assert(m != "RAR"@) by { if m == "RAR"@ { assert(m[1] == "RAR"@[1]); } }
        assert(m != "CMA"@) by { if m == "CMA"@ { assert(m[0] == "CMA"@[0]); } }
        assert(m != "CMC"@) by { if m == "CMC"@ { assert(m[0] == "CMC"@[0]); } }
        assert(m != "DAA"@) by { if m == "DAA"@ { assert(m[0] == "DAA"@[0]); } }
        assert(m != "HLT"@) by { if m == "HLT"@ { assert(m[0] == "HLT"@[0]); } }
        assert(no_arg_op(m) == Some(0xc0u8));
    } else if op == 0x37 {
        let m = "STC"@;
        assert(shape(op)->Some_0.0 =~= m);
        lemma_plain_text(m);
        assert(m != "NOP"@) by { if m == "NOP"@ { assert(m[0] == "NOP"@[0]); } }
        assert(m != "RLC"@) by { if m == "RLC"@ { assert(m[0] == "RLC"@[0]); } }
        assert(m != "RRC"@) by { if m == "RRC"@ { assert(m[0] == "RRC"@[0]); } }
        assert(m != "RAL"@) by { if m == "RAL"@ { assert(m[0] == "RAL"@[0]); } }
        assert(m != "RAR"@) by { if m == "RAR"@ { assert(m[0] == "RAR"@[0]); } }
        assert(m != "CMA"@) by { if m == "CMA"@ { assert(m[0] == "CMA"@[0]); } }
        assert(m != "CMC"@) by { if m == "CMC"@ { assert(m[0] == "CMC"@[0]); } }
        assert(m != "DAA"@) by { if m == "DAA"@ { assert(m[0] == "DAA"@[0]); } }
        assert(m != "HLT"@) by { if m == "HLT"@ { assert(m[0] == "HLT"@[0]); } }
        assert(m != "RNZ"@) by { if m == "RNZ"@ { assert(m[0] == "RNZ"@[0]); } }
        assert(no_arg_op(m) == Some(0x37u8));
    } else if op == 0xc9 {
        let m = "RET"@;
        assert(shape(op)->Some_0.0 =~= m);
        lemma_plain_text(m);
        assert(m != "NOP"@) by { if m == "NOP"@ { assert(m[0] == "NOP"@[0]); } }
        assert(m != "RLC"@) by { if m == "RLC"@ { assert(m[1] == "RLC"@[1]); } }
        assert(m != "RRC"@) by { if m == "RRC"@ { assert(m[1] == "RRC"@[1]); } }
        assert(m != "RAL"@) by { if m == "RAL"@ { assert(m[1] == "RAL"@[1]); } }
        assert(m != "RAR"@) by { if m == "RAR"@ { assert(m[1] == "RAR"@[1]); } }
        assert(m != "CMA"@) by { if m == "CMA"@ { assert(m[0] == "CMA"@[0]); } }
        assert(m != "CMC"@) by { if m == "CMC"@ { assert(m[0] == "CMC"@[0]); } }
        assert(m != "DAA"@) by { if m == "DAA"@ { assert(m[0] == "DAA"@[0]); } }
        assert(m != "HLT"@) by { if m == "HLT"@ { assert(m[0] == "HLT"@[0]); } }
        assert(m != "RNZ"@) by { if m == "RNZ"@ { assert(m[1] == "RNZ"@[1]); } }
        assert(m != "STC"@) by { if m == "STC"@ { assert(m[0] == "STC"@[0]); } }
        assert(no_arg_op(m) == Some(0xc9u8));
    } else if op == 0xd0 {
        let m = "RNC"@;
        assert(shape(op)->Some_0.0 =~= m);
        lemma_plain_text(m);
        assert(m != "NOP"@) by { if m == "NOP"@ { assert(m[0] == "NOP"@[0]); } }
        assert(m != "RLC"@) by { if m == "RLC"@ { assert(m[1] == "RLC"@[1]); } }
        assert(m != "RRC"@) by { if m == "RRC"@ { assert(m[1] == "RRC"@[1]); } }
        assert(m != "RAL"@) by { if m == "RAL"@ { assert(m[1] == "RAL"@[1]); } }
        assert(m != "RAR"@) by { if m == "RAR"@ { assert(m[1] == "RAR"@[1]); } }
        assert(m != "CMA"@) by { if m == "CMA"@ { assert(m[0] == "CMA"@[0]); } }
        assert(m != "CMC"@) by { if m == "CMC"@ { assert(m[0] == "CMC"@[0]); } }
        assert(m != "DAA"@) by { if m == "DAA"@ { assert(m[0] == "DAA"@[0]); } }
        assert(m != "HLT"@) by { if m == "HLT"@ { assert(m[0] == "HLT"@[0]); } }
        assert(m != "RNZ"@) by { if m == "RNZ"@ { assert(m[2] == "RNZ"@[2]); } }
        assert(m != "STC"@) by { if m == "STC"@ { assert(m[0] == "STC"@[0]); } }
        assert(m != "RET"@) by { if m == "RET"@ { assert(m[1] == "RET"@[1]); } }
        assert(no_arg_op(m) == Some(0xd0u8));
    } else if op == 0xe8 {
        let m = "RPE"@;
        assert(shape(op)->Some_0.0 =~= m);
        lemma_plain_text(m);
        assert(m != "NOP"@) by { if m == "NOP"@ { assert(m[0] == "NOP"@[0]); } }
        assert(m != "RLC"@) by { if m == "RLC"@ { assert(m[1] == "RLC"@[1]); } }
        assert(m != "RRC"@) by { if m == "RRC"@ { assert(m[1] == "RRC"@[1]); } }
        assert(m != "RAL"@) by { if m == "RAL"@ { assert(m[1] == "RAL"@[1]); } }
        assert(m != "RAR"@) by { if m == "RAR"@ { assert(m[1] == "RAR"@[1]); } }
        assert(m != "CMA"@) by { if m == "CMA"@ { assert(m[0] == "CMA"@[0]); } }
        assert(m != "CMC"@) by { if m == "CMC"@ { assert(m[0] == "CMC"@[0]); } }
        assert(m != "DAA"@) by { if m == "DAA"@ { assert(m[0] == "DAA"@[0]); } }
        assert(m != "HLT"@) by { if m == "HLT"@ { assert(m[0] == "HLT"@[0]); } }
        assert(m != "RNZ"@) by { if m == "RNZ"@ { assert(m[1] == "RNZ"@[1]); } }
        assert(m != "STC"@) by { if m == "STC"@ { assert(m[0] == "STC"@[0]); } }
        assert(m != "RET"@) by { if m == "RET"@ { assert(m[1] == "RET"@[1]); } }
        assert(m != "RNC"@) by { if m == "RNC"@ { assert(m[1] == "RNC"@[1]); } }
        assert(no_arg_op(m) == Some(0xe8u8));
    } else if op == 0xe0 {
        let m = "RPO"@;
        assert(shape(op)->Some_0.0 =~= m);
        lemma_plain_text(m);
        assert(m != "NOP"@) by { if m == "NOP"@ { assert(m[0] == "NOP"@[0]); } }
        assert(m != "RLC"@) by { if m == "RLC"@ { assert(m[1] == "RLC"@[1]); } }
        assert(m != "RRC"@) by { if m == "RRC"@ { assert(m[1] == "RRC"@[1]); } }
        assert(m != "RAL"@) by { if m == "RAL"@ { assert(m[1] == "RAL"@[1]); } }
        assert(m != "RAR"@) by { if m == "RAR"@ { assert(m[1] == "RAR"@[1]); } }
        assert(m != "CMA"@) by { if m == "CMA"@ { assert(m[0] == "CMA"@[0]); } }
        assert(m != "CMC"@) by { if m == "CMC"@ { assert(m[0] == "CMC"@[0]); } }
        assert(m != "DAA"@) by { if m == "DAA"@ { assert(m[0] == "DAA"@[0]); } }
        assert(m != "HLT"@) by { if m == "HLT"@ { assert(m[0] == "HLT"@[0]); } }
        assert(m != "RNZ"@) by { if m == "RNZ"@ { assert(m[1] == "RNZ"@[1]); } }
        assert(m != "STC"@) by { if m == "STC"@ { assert(m[0] == "STC"@[0]); } }
        assert(m != "RET"@) by { if m == "RET"@ { assert(m[1] == "RET"@[1]); } }
        assert(m != "RNC"@) by { if m == "RNC"@ { assert(m[1] == "RNC"@[1]); } }
        assert(m != "RPE"@) by { if m == "RPE"@ { assert(m[2] == "RPE"@[2]); } }
        assert(no_arg_op(m) == Some(0xe0u8));
    } else if op == 0xfb {
        let m = "EI"@;
        assert(shape(op)->Some_0.0 =~= m);
        lemma_plain_text(m);
        assert(m != "NOP"@) by { if m == "NOP"@ { assert(m.len() == "NOP"@.len()); } }
        assert(m != "RLC"@) by { if m == "RLC"@ { assert(m.len() == "RLC"@.len()); } }
        assert(m != "RRC"@) by { if m == "RRC"@ { assert(m.len() == "RRC"@.len()); } }
        assert(m != "RAL"@) by { if m == "RAL"@ { assert(m.len() == "RAL"@.len()); } }
        assert(m != "RAR"@) by { if m == "RAR"@ { assert(m.len() == "RAR"@.len()); } }
        assert(m != "CMA"@) by { if m == "CMA"@ { assert(m.len() == "CMA"@.len()); } }
        assert(m != "CMC"@) by { if m == "CMC"@ { assert(m.len() == "CMC"@.len()); } }
        assert(m != "DAA"@) by { if m == "DAA"@ { assert(m.len() == "DAA"@.len()); } }
        assert(m != "HLT"@) by { if m == "HLT"@ { assert(m.len() == "HLT"@.len()); } }
        assert(m != "RNZ"@) by { if m == "RNZ"@ { assert(m.len() == "RNZ"@.len()); } }
        assert(m != "STC"@) by { if m == "STC"@ { assert(m.len() == "STC"@.len()); } }
        assert(m != "RET"@) by { if m == "RET"@ { assert(m.len() == "RET"@.len()); } }
        assert(m != "RNC"@) by { if m == "RNC"@ { assert(m.len() == "RNC"@.len()); } }
        assert(m != "RPE"@) by { if m == "RPE"@ { assert(m.len() == "RPE"@.len()); } }
        assert(m != "RPO"@) by { if m == "RPO"@ { assert(m.len() == "RPO"@.len()); } }
        assert(no_arg_op(m) == Some(0xfbu8));
    } else if op == 0xf8 {
        let m = "RM"@;
        assert(shape(op)->Some_0.0 =~= m);
        lemma_plain_text(m);
        assert(m != "NOP"@) by { if m == "NOP"@ { assert(m.len() == "NOP"@.len()); } }
        assert(m != "RLC"@) by { if m == "RLC"@ { assert(m.len() == "RLC"@.len()); } }
        assert(m != "RRC"@) by { if m == "RRC"@ { assert(m.len() == "RRC"@.len()); } }
        assert(m != "RAL"@) by { if m == "RAL"@ { assert(m.len() == "RAL"@.len()); } }
        assert(m != "RAR"@) by { if m == "RAR"@ { assert(m.len() == "RAR"@.len()); } }
        assert(m != "CMA"@) by { if m == "CMA"@ { assert(m.len() == "CMA"@.len()); } }
        assert(m != "CMC"@) by { if m == "CMC"@ { assert(m.len() == "CMC"@.len()); } }
        assert(m != "DAA"@) by { if m == "DAA"@ { assert(m.len() == "DAA"@.len()); } }
        assert(m != "HLT"@) by { if m == "HLT"@ { assert(m.len() == "HLT"@.len()); } }
        assert(m != "RNZ"@) by { if m == "RNZ"@ { assert(m.len() == "RNZ"@.len()); } }
        assert(m != "STC"@) by { if m == "STC"@ { assert(m.len() == "STC"@.len()); } }
        assert(m != "RET"@) by { if m == "RET"@ { assert(m.len() == "RET"@.len()); } }
        assert(m != "RNC"@) by { if m == "RNC"@ { assert(m.len() == "RNC"@.len()); } }
        assert(m != "RPE"@) by { if m == "RPE"@ { assert(m.len() == "RPE"@.len()); } }
        assert(m != "RPO"@) by { if m == "RPO"@ { assert(m.len() == "RPO"@.len()); } }
        assert(m != "EI"@) by { if m == "EI"@ { assert(m[0] == "EI"@[0]); } }
        assert(no_arg_op(m) == Some(0xf8u8));
    } else if op == 0xc8 {
        let m = "RZ"@;
        assert(shape(op)->Some_0.0 =~= m);
        lemma_plain_text(m);
        assert(m != "NOP"@) by { if m == "NOP"@ { assert(m.len() == "NOP"@.len()); } }
        assert(m != "RLC"@) by { if m == "RLC"@ { assert(m.len() == "RLC"@.len()); } }
        assert(m != "RRC"@) by { if m == "RRC"@ { assert(m.len() == "RRC"@.len()); } }
        assert(m != "RAL"@) by { if m == "RAL"@ { assert(m.len() == "RAL"@.len()); } }
        assert(m != "RAR"@) by { if m == "RAR"@ { assert(m.len() == "RAR"@.len()); } }
        assert(m != "CMA"@) by { if m == "CMA"@ { assert(m.len() == "CMA"@.len()); } }
        assert(m != "CMC"@) by { if m == "CMC"@ { assert(m.len() == "CMC"@.len()); } }
        assert(m != "DAA"@) by { if m == "DAA"@ { assert(m.len() == "DAA"@.len()); } }
        assert(m != "HLT"@) by { if m == "HLT"@ { assert(m.len() == "HLT"@.len()); } }
        assert(m != "RNZ"@) by { if m == "RNZ"@ { assert(m.len() == "RNZ"@.len()); } }
        assert(m != "STC"@) by { if m == "STC"@ { assert(m.len() == "STC"@.len()); } }
        assert(m != "RET"@) by { if m == "RET"@ { assert(m.len() == "RET"@.len()); } }
        assert(m != "RNC"@) by { if m == "RNC"@ { assert(m.len() == "RNC"@.len()); } }
        assert(m != "RPE"@) by { if m == "RPE"@ { assert(m.len() == "RPE"@.len()); } }
        assert(m != "RPO"@) by { if m == "RPO"@ { assert(m.len() == "RPO"@.len()); } }
        assert(m != "EI"@) by { if m == "EI"@ { assert(m[0] == "EI"@[0]); } }
        assert(m != "RM"@) by { if m == "RM"@ { assert(m[1] == "RM"@[1]); } }
        assert(no_arg_op(m) == Some(0xc8u8));
    } else if op == 0xd8 {
        let m = "RC"@;
        assert(shape(op)->Some_0.0 =~= m);
        lemma_plain_text(m);
        assert(m != "NOP"@) by { if m == "NOP"@ { assert(m.len() == "NOP"@.len()); } }
        assert(m != "RLC"@) by { if m == "RLC"@ { assert(m.len() == "RLC"@.len()); } }
        assert(m != "RRC"@) by { if m == "RRC"@ { assert(m.len() == "RRC"@.len()); } }
        assert(m != "RAL"@) by { if m == "RAL"@ { assert(m.len() == "RAL"@.len()); } }
        assert(m != "RAR"@) by { if m == "RAR"@ { assert(m.len() == "RAR"@.len()); } }
        assert(m != "CMA"@) by { if m == "CMA"@ { assert(m.len() == "CMA"@.len()); } }
        assert(m != "CMC"@) by { if m == "CMC"@ { assert(m.len() == "CMC"@.len()); } }
        assert(m != "DAA"@) by { if m == "DAA"@ { assert(m.len() == "DAA"@.len()); } }
        assert(m != "HLT"@) by { if m == "HLT"@ { assert(m.len() == "HLT"@.len()); } }
        assert(m != "RNZ"@) by { if m == "RNZ"@ { assert(m.len() == "RNZ"@.len()); } }
        assert(m != "STC"@) by { if m == "STC"@ { assert(m.len() == "STC"@.len()); } }
        assert(m != "RET"@) by { if m == "RET"@ { assert(m.len() == "RET"@.len()); } }
        assert(m != "RNC"@) by { if m == "RNC"@ { assert(m.len() == "RNC"@.len()); } }
        assert(m != "RPE"@) by { if m == "RPE"@ { assert(m.len() == "RPE"@.len()); } }
        assert(m != "RPO"@) by { if m == "RPO"@ { assert(m.len() == "RPO"@.len()); } }
        assert(m != "EI"@) by { if m == "EI"@ { assert(m[0] == "EI"@[0]); } }
        assert(m != "RM"@) by { if m == "RM"@ { assert(m[1] == "RM"@[1]); } }
        assert(m != "RZ"@) by { if m == "RZ"@ { assert(m[1] == "RZ"@[1]); } }
        assert(no_arg_op(m) == Some(0xd8u8));
    } else if op == 0xf3 {
        let m = "DI"@;
        assert(shape(op)->Some_0.0 =~= m);
        lemma_plain_text(m);
        assert(m != "NOP"@) by { if m == "NOP"@ { assert(m.len() == "NOP"@.len()); } }
        assert(m != "RLC"@) by { if m == "RLC"@ { assert(m.len() == "RLC"@.len()); } }
        assert(m != "RRC"@) by { if m == "RRC"@ { assert(m.len() == "RRC"@.len()); } }
        assert(m != "RAL"@) by { if m == "RAL"@ { assert(m.len() == "RAL"@.len()); } }
        assert(m != "RAR"@) by { if m == "RAR"@ { assert(m.len() == "RAR"@.len()); } }
        assert(m != "CMA"@) by { if m == "CMA"@ { assert(m.len() == "CMA"@.len()); } }
        assert(m != "CMC"@) by { if m == "CMC"@ { assert(m.len() == "CMC"@.len()); } }
        assert(m != "DAA"@) by { if m == "DAA"@ { assert(m.len() == "DAA"@.len()); } }
        assert(m != "HLT"@) by { if m == "HLT"@ { assert(m.len() == "HLT"@.len()); } }
        assert(m != "RNZ"@) by { if m == "RNZ"@ { assert(m.len() == "RNZ"@.len()); } }
        assert(m != "STC"@) by { if m == "STC"@ { assert(m.len() == "STC"@.len()); } }
        assert(m != "RET"@) by { if m == "RET"@ { assert(m.len() == "RET"@.len()); } }
        assert(m != "RNC"@) by { if m == "RNC"@ { assert(m.len() == "RNC"@.len()); } }
        assert(m != "RPE"@) by { if m == "RPE"@ { assert(m.len() == "RPE"@.len()); } }
        assert(m != "RPO"@) by { if m == "RPO"@ { assert(m.len() == "RPO"@.len()); } }
        assert(m != "EI"@) by { if m == "EI"@ { assert(m[0] == "EI"@[0]); } }
        assert(m != "RM"@) by { if m == "RM"@ { assert(m[0] == "RM"@[0]); } }
        assert(m != "RZ"@) by { if m == "RZ"@ { assert(m[0] == "RZ"@[0]); } }
        assert(m != "RC"@) by { if m == "RC"@ { assert(m[0] == "RC"@[0]); } }
        assert(no_arg_op(m) == Some(0xf3u8));
    } else if op == 0xf0 {
        let m = "RP"@;
        assert(shape(op)->Some_0.0 =~= m);
        lemma_plain_text(m);
        assert(m != "NOP"@) by { if m == "NOP"@ { assert(m.len() == "NOP"@.len()); } }
        assert(m != "RLC"@) by { if m == "RLC"@ { assert(m.len() == "RLC"@.len()); } }
        assert(m != "RRC"@) by { if m == "RRC"@ { assert(m.len() == "RRC"@.len()); } }
        assert(m != "RAL"@) by { if m == "RAL"@ { assert(m.len() == "RAL"@.len()); } }
        assert(m != "RAR"@) by { if m == "RAR"@ { assert(m.len() == "RAR"@.len()); } }
        assert(m != "CMA"@) by { if m == "CMA"@ { assert(m.len() == "CMA"@.len()); } }
        assert(m != "CMC"@) by { if m == "CMC"@ { assert(m.len() == "CMC"@.len()); } }
        assert(m != "DAA"@) by { if m == "DAA"@ { assert(m.len() == "DAA"@.len()); } }
        assert(m != "HLT"@) by { if m == "HLT"@ { assert(m.len() == "HLT"@.len()); } }
        assert(m != "RNZ"@) by { if m == "RNZ"@ { assert(m.len() == "RNZ"@.len()); } }
        assert(m != "STC"@) by { if m == "STC"@ { assert(m.len() == "STC"@.len()); } }
        assert(m != "RET"@) by { if m == "RET"@ { assert(m.len() == "RET"@.len()); } }
        assert(m != "RNC"@) by { if m == "RNC"@ { assert(m.len() == "RNC"@.len()); } }
        assert(m != "RPE"@) by { if m == "RPE"@ { assert(m.len() == "RPE"@.len()); } }
        assert(m != "RPO"@) by { if m == "RPO"@ { assert(m.len() == "RPO"@.len()); } }
        assert(m != "EI"@) by { if m == "EI"@ { assert(m[0] == "EI"@[0]); } }
        assert(m != "RM"@) by { if m == "RM"@ { assert(m[1] == "RM"@[1]); } }
        assert(m != "RZ"@) by { if m == "RZ"@ { assert(m[1] == "RZ"@[1]); } }
        assert(m != "RC"@) by { if m == "RC"@ { assert(m[1] == "RC"@[1]); } }
        assert(m != "DI"@) by { if m == "DI"@ { assert(m[0] == "DI"@[0]); } }
        assert(no_arg_op(m) == Some(0xf0u8));
    } else if op == 0xf9 {
        let m = "SPHL"@;
        assert(shape(op)->Some_0.0 =~= m);
        lemma_plain_text(m);
        assert(m != "NOP"@) by { if m == "NOP"@ { assert(m.len() == "NOP"@.len()); } }
        assert(m != "RLC"@) by { if m == "RLC"@ { assert(m.len() == "RLC"@.len()); } }
        assert(m != "RRC"@) by { if m == "RRC"@ { assert(m.len() == "RRC"@.len()); } }
        assert(m != "RAL"@) by { if m == "RAL"@ { assert(m.len() == "RAL"@.len()); } }
        assert(m != "RAR"@) by { if m == "RAR"@ { assert(m.len() == "RAR"@.len()); } }
        assert(m != "CMA"@) by { if m == "CMA"@ { assert(m.len() == "CMA"@.len()); } }
        assert(m != "CMC"@) by { if m == "CMC"@ { assert(m.len() == "CMC"@.len()); } }
        assert(m != "DAA"@) by { if m == "DAA"@ { assert(m.len() == "DAA"@.len()); } }
        assert(m != "HLT"@) by { if m == "HLT"@ { assert(m.len() == "HLT"@.len()); } }
        assert(m != "RNZ"@) by { if m == "RNZ"@ { assert(m.len() == "RNZ"@.len()); } }
        assert(m != "STC"@) by { if m == "STC"@ { assert(m.len() == "STC"@.len()); } }
        assert(m != "RET"@) by { if m == "RET"@ { assert(m.len() == "RET"@.len()); } }
        assert(m != "RNC"@) by { if m == "RNC"@ { assert(m.len() == "RNC"@.len()); } }
        assert(m != "RPE"@) by { if m == "RPE"@ { assert(m.len() == "RPE"@.len()); } }
        assert(m != "RPO"@) by { if m == "RPO"@ { assert(m.len() == "RPO"@.len()); } }
        assert(m != "EI"@) by { if m == "EI"@ { assert(m.len() == "EI"@.len()); } }
        assert(m != "RM"@) by { if m == "RM"@ { assert(m.len() == "RM"@.len()); } }
        assert(m != "RZ"@) by { if m == "RZ"@ { assert(m.len() == "RZ"@.len()); } }
        assert(m != "RC"@) by { if m == "RC"@ { assert(m.len() == "RC"@.len()); } }
        assert(m != "DI"@) by { if m == "DI"@ { assert(m.len() == "DI"@.len()); } }
        assert(m != "RP"@) by { if m == "RP"@ { assert(m.len() == "RP"@.len()); } }
        assert(no_arg_op(m) == Some(0xf9u8));
    } else if op == 0xeb {
        let m = "XCHG"@;
        assert(shape(op)->Some_0.0 =~= m);
        lemma_plain_text(m);
        assert(m != "NOP"@) by { if m == "NOP"@ { assert(m.len() == "NOP"@.len()); } }
        assert(m != "RLC"@) by { if m == "RLC"@ { assert(m.len() == "RLC"@.len()); } }
        assert(m != "RRC"@) by { if m == "RRC"@ { assert(m.len() == "RRC"@.len()); } }
        assert(m != "RAL"@) by { if m == "RAL"@ { assert(m.len() == "RAL"@.len()); } }
        assert(m != "RAR"@) by { if m == "RAR"@ { assert(m.len() == "RAR"@.len()); } }
        assert(m != "CMA"@) by { if m == "CMA"@ { assert(m.len() == "CMA"@.len()); } }
        assert(m != "CMC"@) by { if m == "CMC"@ { assert(m.len() == "CMC"@.len()); } }
        assert(m != "DAA"@) by { if m == "DAA"@ { assert(m.len() == "DAA"@.len()); } }
        assert(m != "HLT"@) by { if m == "HLT"@ { assert(m.len() == "HLT"@.len()); } }
        assert(m != "RNZ"@) by { if m == "RNZ"@ { assert(m.len() == "RNZ"@.len()); } }
        assert(m != "STC"@) by { if m == "STC"@ { assert(m.len() == "STC"@.len()); } }
        assert(m != "RET"@) by { if m == "RET"@ { assert(m.len() == "RET"@.len()); } }
        assert(m != "RNC"@) by { if m == "RNC"@ { assert(m.len() == "RNC"@.len()); } }
        assert(m != "RPE"@) by { if m == "RPE"@ { assert(m.len() == "RPE"@.len()); } }
        assert(m != "RPO"@) by { if m == "RPO"@ { assert(m.len() == "RPO"@.len()); } }
        assert(m != "EI"@) by { if m == "EI"@ { assert(m.len() == "EI"@.len()); } }
        assert(m != "RM"@) by { if m == "RM"@ { assert(m.len() == "RM"@.len()); } }
        assert(m != "RZ"@) by { if m == "RZ"@ { assert(m.len() == "RZ"@.len()); } }
        assert(m != "RC"@) by { if m == "RC"@ { assert(m.len() == "RC"@.len()); } }
        assert(m != "DI"@) by { if m == "DI"@ { assert(m.len() == "DI"@.len()); } }
        assert(m != "RP"@) by { if m == "RP"@ { assert(m.len() == "RP"@.len()); } }
        assert(m != "SPHL"@) by { if m == "SPHL"@ { assert(m[0] == "SPHL"@[0]); } }
        assert(no_arg_op(m) == Some(0xebu8));
    } else if op == 0xe9 {
        let m = "PCHL"@;
        assert(shape(op)->Some_0.0 =~= m);
        lemma_plain_text(m);
        assert(m != "NOP"@) by { if m == "NOP"@ { assert(m.len() == "NOP"@.len()); } }
        assert(m != "RLC"@) by { if m == "RLC"@ { assert(m.len() == "RLC"@.len()); } }
        assert(m != "RRC"@) by { if m == "RRC"@ { assert(m.len() == "RRC"@.len()); } }
        assert(m != "RAL"@) by { if m == "RAL"@ { assert(m.len() == "RAL"@.len()); } }
        assert(m != "RAR"@) by { if m == "RAR"@ { assert(m.len() == "RAR"@.len()); } }
        assert(m != "CMA"@) by { if m == "CMA"@ { assert(m.len() == "CMA"@.len()); } }
        assert(m != "CMC"@) by { if m == "CMC"@ { assert(m.len() == "CMC"@.len()); } }
        assert(m != "DAA"@) by { if m == "DAA"@ { assert(m.len() == "DAA"@.len()); } }
        assert(m != "HLT"@) by { if m == "HLT"@ { assert(m.len() == "HLT"@.len()); } }
        assert(m != "RNZ"@) by { if m == "RNZ"@ { assert(m.len() == "RNZ"@.len()); } }
        assert(m != "STC"@) by { if m == "STC"@ { assert(m.len() == "STC"@.len()); } }
        assert(m != "RET"@) by { if m == "RET"@ { assert(m.len() == "RET"@.len()); } }
        assert(m != "RNC"@) by { if m == "RNC"@ { assert(m.len() == "RNC"@.len()); } }
        assert(m != "RPE"@) by { if m == "RPE"@ { assert(m.len() == "RPE"@.len()); } }
        assert(m != "RPO"@) by { if m == "RPO"@ { assert(m.len() == "RPO"@.len()); } }
        assert(m != "EI"@) by { if m == "EI"@ { assert(m.len() == "EI"@.len()); } }
        assert(m != "RM"@) by { if m == "RM"@ { assert(m.len() == "RM"@.len()); } }
        assert(m != "RZ"@) by { if m == "RZ"@ { assert(m.len() == "RZ"@.len()); } }
        assert(m != "RC"@) by { if m == "RC"@ { assert(m.len() == "RC"@.len()); } }
        assert(m != "DI"@) by { if m == "DI"@ { assert(m.len() == "DI"@.len()); } }
        assert(m != "RP"@) by { if m == "RP"@ { assert(m.len() == "RP"@.len()); } }
        assert(m != "SPHL"@) by { if m == "SPHL"@ { assert(m[0] == "SPHL"@[0]); } }
        assert(m != "XCHG"@) by { if m == "XCHG"@ { assert(m[0] == "XCHG"@[0]); } }
        assert(no_arg_op(m) == Some(0xe9u8));
    } else if op == 0xe3 {
        let m = "XTHL"@;
        assert(shape(op)->Some_0.0 =~= m);
        lemma_plain_text(m);
        assert(m != "NOP"@) by { if m == "NOP"@ { assert(m.len() == "NOP"@.len()); } }
        assert(m != "RLC"@) by { if m == "RLC"@ { assert(m.len() == "RLC"@.len()); } }
        assert(m != "RRC"@) by { if m == "RRC"@ { assert(m.len() == "RRC"@.len()); } }
        assert(m != "RAL"@) by { if m == "RAL"@ { assert(m.len() == "RAL"@.len()); } }
        assert(m != "RAR"@) by { if m == "RAR"@ { assert(m.len() == "RAR"@.len()); } }
        assert(m != "CMA"@) by { if m == "CMA"@ { assert(m.len() == "CMA"@.len()); } }
        assert(m != "CMC"@) by { if m == "CMC"@ { assert(m.len() == "CMC"@.len()); } }
        assert(m != "DAA"@) by { if m == "DAA"@ { assert(m.len() == "DAA"@.len()); } }
        assert(m != "HLT"@) by { if m == "HLT"@ { assert(m.len() == "HLT"@.len()); } }
        assert(m != "RNZ"@) by { if m == "RNZ"@ { assert(m.len() == "RNZ"@.len()); } }
        assert(m != "STC"@) by { if m == "STC"@ { assert(m.len() == "STC"@.len()); } }
        assert(m != "RET"@) by { if m == "RET"@ { assert(m.len() == "RET"@.len()); } }
        assert(m != "RNC"@) by { if m == "RNC"@ { assert(m.len() == "RNC"@.len()); } }
        assert(m != "RPE"@) by { if m == "RPE"@ { assert(m.len() == "RPE"@.len()); } }
        assert(m != "RPO"@) by { if m == "RPO"@ { assert(m.len() == "RPO"@.len()); } }
        assert(m != "EI"@) by { if m == "EI"@ { assert(m.len() == "EI"@.len()); } }
        assert(m != "RM"@) by { if m == "RM"@ { assert(m.len() == "RM"@.len()); } }
        assert(m != "RZ"@) by { if m == "RZ"@ { assert(m.len() == "RZ"@.len()); } }
        assert(m != "RC"@) by { if m == "RC"@ { assert(m.len() == "RC"@.len()); } }
        assert(m != "DI"@) by { if m == "DI"@ { assert(m.len() == "DI"@.len()); } }
        assert(m != "RP"@) by { if m == "RP"@ { assert(m.len() == "RP"@.len()); } }
        assert(m != "SPHL"@) by { if m == "SPHL"@ { assert(m[0] == "SPHL"@[0]); } }
        assert(m != "XCHG"@) by { if m == "XCHG"@ { assert(m[1] == "XCHG"@[1]); } }
        assert(m != "PCHL"@) by { if m == "PCHL"@ { assert(m[0] == "PCHL"@[0]); } }
        assert(no_arg_op(m) == Some(0xe3u8));
    }
}

/// Text of a mnemonic, a space, and an operand word of capital letters splits
/// into that mnemonic and that one operand.
#[verifier::rlimit(100)]
proof fn lemma_word_text(m: Seq<char>, w: Seq<char>)
    requires
        2 <= m.len() <= 4,
        forall|k: int| 0 <= k < m.len() ==> 'A' <= #[trigger] m[k] <= 'Z',
        1 <= w.len() <= 3,
        forall|k: int| 0 <= k < w.len() ==> ('A' <= #[trigger] w[k] <= 'Z' || '0' <= w[k] <= '9'),
    ensures
        encode_line((m + " "@) + w) == encode_args(m, seq![w]),
{
    reveal_strlit(" ");
    let n = m.len() as int;
    let t = (m + " "@) + w;
    assert(forall|k: int| 0 <= k < n ==> t[k] == m[k]);
    assert(t[n] == ' ');
    reveal_with_fuel(spaces_end, 2);
    reveal_with_fuel(ident_end, 6);
    assert(spaces_end(t, 0) == 0);
    assert(ident_end(t, 0) == n);
    assert(label_end(t) == 0);
    assert(t.subrange(0, t.len() as int) =~= t);
    reveal_with_fuel(first_non_ws, 2);
    assert(first_non_ws(t, 0) == 0);
    assert(trim_start(t) =~= t);
    reveal_with_fuel(find_from, 6);
    assert(find_from(t, ' ', 0) == n);
    let suffix = t.subrange(n + 1, t.len() as int);
    assert(suffix =~= w);
    lemma_no_char(suffix, ',', 0);
    reveal_with_fuel(split_from, 2);
    assert(suffix.subrange(0, suffix.len() as int) =~= w);
    assert(split(suffix, ',') =~= seq![w]);
    reveal_with_fuel(last_non_ws, 2);
    assert(first_non_ws(w, 0) == 0);
    assert(last_non_ws(w, 0, w.len() as int) == w.len());
    assert(trim(w) =~= w);
    assert(fields(suffix) =~= seq![w]);
    assert(t.subrange(0, n) =~= m);
    reveal(encode_line);
}

#[verifier::rlimit(100)]
proof fn lemma_pair_03()
    ensures
        shape(0x3u8) is Some && shape(0x3u8)->Some_0.1 == 0,
        encode_line(shape(0x3u8)->Some_0.0) == Ok::<Seq<u8>, Seq<char>>(seq![0x3u8]),
{
    reveal_strlit(" ");
    reveal_strlit("ADC");
    reveal_strlit("ADD");
    reveal_strlit("ANA");
    reveal_strlit("B");
    reveal_strlit("CMP");
    reveal_strlit("D");
    reveal_strlit("DCR");
    reveal_strlit("H");
    reveal_strlit("INR");
    reveal_strlit("INX");
    reveal_strlit("INX ");
    reveal_strlit("LDAX");
    reveal_strlit("MOV");
    reveal_strlit("ORA");
    reveal_strlit("PSW");
    reveal_strlit("SBB");
    reveal_strlit("SP");
    reveal_strlit("STAX");
    reveal_strlit("SUB");
    reveal_strlit("XRA");
    let m = "INX"@;
    let w = "B"@;
    assert(shape(0x3u8)->Some_0.0 =~= (m + " "@) + w);
    lemma_word_text(m, w);
    assert(m != "MOV"@) by { if m == "MOV"@ { assert(m[0] == "MOV"@[0]); } }
    assert(m != "STAX"@) by { if m == "STAX"@ { assert(m.len() == "STAX"@.len()); } }
    assert(m != "LDAX"@) by { if m == "LDAX"@ { assert(m.len() == "LDAX"@.len()); } }
    assert(m != "INR"@) by { if m == "INR"@ { assert(m[2] == "INR"@[2]); } }
    assert(m != "DCR"@) by { if m == "DCR"@ { assert(m[0] == "DCR"@[0]); } }
    assert(m != "ADD"@) by { if m == "ADD"@ { assert(m[0] == "ADD"@[0]); } }
    assert(m != "ADC"@) by { if m == "ADC"@ { assert(m[0] == "ADC"@[0]); } }
    assert(m != "SUB"@) by { if m == "SUB"@ { assert(m[0] == "SUB"@[0]); } }
    assert(m != "SBB"@) by { if m == "SBB"@ { assert(m[0] == "SBB"@[0]); } }
    assert(m != "ANA"@) by { if m == "ANA"@ { assert(m[0] == "ANA"@[0]); } }
    assert(m != "XRA"@) by { if m == "XRA"@ { assert(m[0] == "XRA"@[0]); } }
    assert(m != "ORA"@) by { if m == "ORA"@ { assert(m[0] == "ORA"@[0]); } }
    assert(m != "CMP"@) by { if m == "CMP"@ { assert(m[0] == "CMP"@[0]); } }
    reveal(encode_args);
    assert(encode_args(m, seq![w]) == pair_encoding(seq!["B"@], 0x3, "SP"@));
    assert(pair_index(w, "SP"@) == Some(0u8));
}

#[verifier::rlimit(100)]
proof fn lemma_pair_0b()
    ensures
        shape(0xbu8) is Some && shape(0xbu8)->Some_0.1 == 0,
        encode_line(shape(0xbu8)->Some_0.0) == Ok::<Seq<u8>, Seq<char>>(seq![0xbu8]),
{
    reveal_strlit(" ");
    reveal_strlit("ADC");
    reveal_strlit("ADD");
    reveal_strlit("ANA");
    reveal_strlit("B");
    reveal_strlit("CMP");
    reveal_strlit("D");
    reveal_strlit("DAD");
    reveal_strlit("DCR");
    reveal_strlit("DCX");
    reveal_strlit("DCX ");
    reveal_strlit("H");
    reveal_strlit("INR");
    reveal_strlit("INX");
    reveal_strlit("LDAX");
    reveal_strlit("MOV");
    reveal_strlit("ORA");
    reveal_strlit("PSW");
    reveal_strlit("SBB");
    reveal_strlit("SP");
    reveal_strlit("STAX");
    reveal_strlit("SUB");
    reveal_strlit("XRA");
    let m = "DCX"@;
    let w = "B"@;
    assert(shape(0xbu8)->Some_0.0 =~= (m + " "@) + w);
    lemma_word_text(m, w);
    assert(m != "MOV"@) by { if m == "MOV"@ { assert(m[0] == "MOV"@[0]); } }
    assert(m != "STAX"@) by { if m == "STAX"@ { assert(m.len() == "STAX"@.len()); } }
    assert(m != "LDAX"@) by { if m == "LDAX"@ { assert(m.len() == "LDAX"@.len()); } }
    assert(m != "INR"@) by { if m == "INR"@ { assert(m[0] == "INR"@[0]); } }
    assert(m != "DCR"@) by { if m == "DCR"@ { assert(m[2] == "DCR"@[2]); } }
    assert(m != "ADD"@) by { if m == "ADD"@ { assert(m[0] == "ADD"@[0]); } }
    assert(m != "ADC"@) by { if m == "ADC"@ { assert(m[0] == "ADC"@[0]); } }
    assert(m != "SUB"@) by { if m == "SUB"@ { assert(m[0] == "SUB"@[0]); } }
    assert(m != "SBB"@) by { if m == "SBB"@ { assert(m[0] == "SBB"@[0]); } }
    assert(m != "ANA"@) by { if m == "ANA"@ { assert(m[0] == "ANA"@[0]); } }
    assert(m != "XRA"@) by { if m == "XRA"@ { assert(m[0] == "XRA"@[0]); } }
    assert(m != "ORA"@) by { if m == "ORA"@ { assert(m[0] == "ORA"@[0]); } }
    assert(m != "CMP"@) by { if m == "CMP"@ { assert(m[0] == "CMP"@[0]); } }
    assert(m != "INX"@) by { if m == "INX"@ { assert(m[0] == "INX"@[0]); } }
    assert(m != "DAD"@) by { if m == "DAD"@ { assert(m[1] == "DAD"@[1]); } }
    reveal(encode_args);
    assert(encode_args(m, seq![w]) == pair_encoding(seq!["B"@], 0xb, "SP"@));
    assert(pair_index(w, "SP"@) == Some(0u8));
}

#[verifier::rlimit(100)]
proof fn lemma_pair_09()
    ensures
        shape(0x9u8) is Some && shape(0x9u8)->Some_0.1 == 0,
        encode_line(shape(0x9u8)->Some_0.0) == Ok::<Seq<u8>, Seq<char>>(seq![0x9u8]),
{
    reveal_strlit(" ");
    reveal_strlit("ADC");
    reveal_strlit("ADD");
    reveal_strlit("ANA");
    reveal_strlit("B");
    reveal_strlit("CMP");
    reveal_strlit("D");
    reveal_strlit("DAD");
    reveal_strlit("DAD ");
    reveal_strlit("DCR");
    reveal_strlit("H");
    reveal_strlit("INR");
    reveal_strlit("INX");
    reveal_strlit("LDAX");
    reveal_strlit("MOV");
    reveal_strlit("ORA");
    reveal_strlit("PSW");
    reveal_strlit("SBB");
    reveal_strlit("SP");
    reveal_strlit("STAX");
    reveal_strlit("SUB");
    reveal_strlit("XRA");
    let m = "DAD"@;
    let w = "B"@;
    assert(shape(0x9u8)->Some_0.0 =~= (m + " "@) + w);
    lemma_word_text(m, w);
    assert(m != "MOV"@) by { if m == "MOV"@ { assert(m[0] == "MOV"@[0]); } }
    assert(m != "STAX"@) by { if m == "STAX"@ { assert(m.len() == "STAX"@.len()); } }
    assert(m != "LDAX"@) by { if m == "LDAX"@ { assert(m.len() == "LDAX"@.len()); } }
    assert(m != "INR"@) by { if m == "INR"@ { assert(m[0] == "INR"@[0]); } }
    assert(m != "DCR"@) by { if m == "DCR"@ { assert(m[1] == "DCR"@[1]); } }
    assert(m != "ADD"@) by { if m == "ADD"@ { assert(m[0] == "ADD"@[0]); } }
    assert(m != "ADC"@) by { if m == "ADC"@ { assert(m[0] == "ADC"@[0]); } }
    assert(m != "SUB"@) by { if m == "SUB"@ { assert(m[0] == "SUB"@[0]); } }
    assert(m != "SBB"@) by { if m == "SBB"@ { assert(m[0] == "SBB"@[0]); } }
    assert(m != "ANA"@) by { if m == "ANA"@ { assert(m[0] == "ANA"@[0]); } }
    assert(m != "XRA"@) by { if m == "XRA"@ { assert(m[0] == "XRA"@[0]); } }
    assert(m != "ORA"@) by { if m == "ORA"@ { assert(m[0] == "ORA"@[0]); } }
    assert(m != "CMP"@) by { if m == "CMP"@ { assert(m[0] == "CMP"@[0]); } }
    assert(m != "INX"@) by { if m == "INX"@ { assert(m[0] == "INX"@[0]); } }
    reveal(encode_args);
    assert(encode_args(m, seq![w]) == pair_encoding(seq!["B"@], 0x9, "SP"@));
    assert(pair_index(w, "SP"@) == Some(0u8));
}

#[verifier::rlimit(100)]
proof fn lemma_pair_c1()
    ensures
        shape(0xc1u8) is Some && shape(0xc1u8)->Some_0.1 == 0,
        encode_line(shape(0xc1u8)->Some_0.0) == Ok::<Seq<u8>, Seq<char>>(seq![0xc1u8]),
{
    reveal_strlit(" ");
    reveal_strlit("ADC");
    reveal_strlit("ADD");
    reveal_strlit("ANA");
    reveal_strlit("B");
    reveal_strlit("CMP");
    reveal_strlit("D");
    reveal_strlit("DAD");
    reveal_strlit("DCR");
    reveal_strlit("DCX");
    reveal_strlit("H");
    reveal_strlit("INR");
    reveal_strlit("INX");
    reveal_strlit("LDAX");
    reveal_strlit("MOV");
    reveal_strlit("ORA");
    reveal_strlit("POP");
    reveal_strlit("POP ");
    reveal_strlit("PSW");
    reveal_strlit("SBB");
    reveal_strlit("SP");
    reveal_strlit("STAX");
    reveal_strlit("SUB");
    reveal_strlit("XRA");
    let m = "POP"@;
    let w = "B"@;
    assert(shape(0xc1u8)->Some_0.0 =~= (m + " "@) + w);
    lemma_word_text(m, w);
    assert(m != "MOV"@) by { if m == "MOV"@ { assert(m[0] == "MOV"@[0]); } }
    assert(m != "STAX"@) by { if m == "STAX"@ { assert(m.len() == "STAX"@.len()); } }
    assert(m != "LDAX"@) by { if m == "LDAX"@ { assert(m.len() == "LDAX"@.len()); } }
    assert(m != "INR"@) by { if m == "INR"@ { assert(m[0] == "INR"@[0]); } }
    assert(m != "DCR"@) by { if m == "DCR"@ { assert(m[0] == "DCR"@[0]); } }
    assert(m != "ADD"@) by { if m == "ADD"@ { assert(m[0] == "ADD"@[0]); } }
    assert(m != "ADC"@) by { if m == "ADC"@ { assert(m[0] == "ADC"@[0]); } }
    assert(m != "SUB"@) by { if m == "SUB"@ { assert(m[0] == "SUB"@[0]); } }
    assert(m != "SBB"@) by { if m == "SBB"@ { assert(m[0] == "SBB"@[0]); } }
    assert(m != "ANA"@) by { if m == "ANA"@ { assert(m[0] == "ANA"@[0]); } }
    assert(m != "XRA"@) by { if m == "XRA"@ { assert(m[0] == "XRA"@[0]); } }
    assert(m != "ORA"@) by { if m == "ORA"@ { assert(m[0] == "ORA"@[0]); } }
    assert(m != "CMP"@) by { if m == "CMP"@ { assert(m[0] == "CMP"@[0]); } }
    assert(m != "INX"@) by { if m == "INX"@ { assert(m[0] == "INX"@[0]); } }
    assert(m != "DAD"@) by { if m == "DAD"@ { assert(m[0] == "DAD"@[0]); } }
    assert(m != "DCX"@) by { if m == "DCX"@ { assert(m[0] == "DCX"@[0]); } }
    reveal(encode_args);
    assert(encode_args(m, seq![w]) == pair_encoding(seq!["B"@], 0xc1, "PSW"@));
    assert(pair_index(w, "PSW"@) == Some(0u8));
}

#[verifier::rlimit(100)]
proof fn lemma_pair_c5()
    ensures
        shape(0xc5u8) is Some && shape(0xc5u8)->Some_0.1 == 0,
        encode_line(shape(0xc5u8)->Some_0.0) == Ok::<Seq<u8>, Seq<char>>(seq![0xc5u8]),
{
    reveal_strlit(" ");
    reveal_strlit("ADC");
    reveal_strlit("ADD");
    reveal_strlit("ANA");
    reveal_strlit("B");
    reveal_strlit("CMP");
    reveal_strlit("D");
    reveal_strlit("DAD");
    reveal_strlit("DCR");
    reveal_strlit("DCX");
    reveal_strlit("H");
    reveal_strlit("INR");
    reveal_strlit("INX");
    reveal_strlit("LDAX");
    reveal_strlit("MOV");
    reveal_strlit("ORA");
    reveal_strlit("POP");
    reveal_strlit("PSW");
    reveal_strlit("PUSH");
    reveal_strlit("PUSH ");
    reveal_strlit("SBB");
    reveal_strlit("SP");
    reveal_strlit("STAX");
    reveal_strlit("SUB");
    reveal_strlit("XRA");
    let m = "PUSH"@;
    let w = "B"@;
    assert(shape(0xc5u8)->Some_0.0 =~= (m + " "@) + w);
    lemma_word_text(m, w);
    assert(m != "MOV"@) by { if m == "MOV"@ { assert(m.len() == "MOV"@.len()); } }
    assert(m != "STAX"@) by { if m == "STAX"@ { assert(m[0] == "STAX"@[0]); } }
    assert(m != "LDAX"@) by { if m == "LDAX"@ { assert(m[0] == "LDAX"@[0]); } }
    assert(m != "INR"@) by { if m == "INR"@ { assert(m.len() == "INR"@.len()); } }
    assert(m != "DCR"@) by { if m == "DCR"@ { assert(m.len() == "DCR"@.len()); } }
    assert(m != "ADD"@) by { if m == "ADD"@ { assert(m.len() == "ADD"@.len()); } }
    assert(m != "ADC"@) by { if m == "ADC"@ { assert(m.len() == "ADC"@.len()); } }
    assert(m != "SUB"@) by { if m == "SUB"@ { assert(m.len() == "SUB"@.len()); } }
    assert(m != "SBB"@) by { if m == "SBB"@ { assert(m.len() == "SBB"@.len()); } }
    assert(m != "ANA"@) by { if m == "ANA"@ { assert(m.len() == "ANA"@.len()); } }
    assert(m != "XRA"@) by { if m == "XRA"@ { assert(m.len() == "XRA"@.len()); } }
    assert(m != "ORA"@) by { if m == "ORA"@ { assert(m.len() == "ORA"@.len()); } }
    assert(m != "CMP"@) by { if m == "CMP"@ { assert(m.len() == "CMP"@.len()); } }
    assert(m != "INX"@) by { if m == "INX"@ { assert(m.len() == "INX"@.len()); } }
    assert(m != "DAD"@) by { if m == "DAD"@ { assert(m.len() == "DAD"@.len()); } }
    assert(m != "DCX"@) by { if m == "DCX"@ { assert(m.len() == "DCX"@.len()); } }
    assert(m != "POP"@) by { if m == "POP"@ { assert(m.len() == "POP"@.len()); } }
    reveal(encode_args);
    assert(encode_args(m, seq![w]) == pair_encoding(seq!["B"@], 0xc5, "PSW"@));
    assert(pair_index(w, "PSW"@) == Some(0u8));
}

#[verifier::rlimit(100)]
proof fn lemma_pair_13()
    ensures
        shape(0x13u8) is Some && shape(0x13u8)->Some_0.1 == 0,
        encode_line(shape(0x13u8)->Some_0.0) == Ok::<Seq<u8>, Seq<char>>(seq![0x13u8]),
{
    reveal_strlit(" ");
    reveal_strlit("ADC");
    reveal_strlit("ADD");
    reveal_strlit("ANA");
    reveal_strlit("B");
    reveal_strlit("CMP");
    reveal_strlit("D");
    reveal_strlit("DCR");
    reveal_strlit("H");
    reveal_strlit("INR");
    reveal_strlit("INX");
    reveal_strlit("INX ");
    reveal_strlit("LDAX");
    reveal_strlit("MOV");
    reveal_strlit("ORA");
    reveal_strlit("PSW");
    reveal_strlit("SBB");
    reveal_strlit("SP");
    reveal_strlit("STAX");
    reveal_strlit("SUB");
    reveal_strlit("XRA");
    let m = "INX"@;
    let w = "D"@;
    assert(shape(0x13u8)->Some_0.0 =~= (m + " "@) + w);
    lemma_word_text(m, w);
    assert(m != "MOV"@) by { if m == "MOV"@ { assert(m[0] == "MOV"@[0]); } }
    assert(m != "STAX"@) by { if m == "STAX"@ { assert(m.len() == "STAX"@.len()); } }
    assert(m != "LDAX"@) by { if m == "LDAX"@ { assert(m.len() == "LDAX"@.len()); } }
    assert(m != "INR"@) by { if m == "INR"@ { assert(m[2] == "INR"@[2]); } }
    assert(m != "DCR"@) by { if m == "DCR"@ { assert(m[0] == "DCR"@[0]); } }
    assert(m != "ADD"@) by { if m == "ADD"@ { assert(m[0] == "ADD"@[0]); } }
    assert(m != "ADC"@) by { if m == "ADC"@ { assert(m[0] == "ADC"@[0]); } }
    assert(m != "SUB"@) by { if m == "SUB"@ { assert(m[0] == "SUB"@[0]); } }
    assert(m != "SBB"@) by { if m == "SBB"@ { assert(m[0] == "SBB"@[0]); } }
    assert(m != "ANA"@) by { if m == "ANA"@ { assert(m[0] == "ANA"@[0]); } }
    assert(m != "XRA"@) by { if m == "XRA"@ { assert(m[0] == "XRA"@[0]); } }
    assert(m != "ORA"@) by { if m == "ORA"@ { assert(m[0] == "ORA"@[0]); } }
    assert(m != "CMP"@) by { if m == "CMP"@ { assert(m[0] == "CMP"@[0]); } }
    reveal(encode_args);
    assert(encode_args(m, seq![w]) == pair_encoding(seq!["D"@], 0x3, "SP"@));
    assert(pair_index(w, "SP"@) == Some(1u8));
}

#[verifier::rlimit(100)]
proof fn lemma_pair_1b()
    ensures
        shape(0x1bu8) is Some && shape(0x1bu8)->Some_0.1 == 0,
        encode_line(shape(0x1bu8)->Some_0.0) == Ok::<Seq<u8>, Seq<char>>(seq![0x1bu8]),
{
    reveal_strlit(" ");
    reveal_strlit("ADC");
    reveal_strlit("ADD");
    reveal_strlit("ANA");
    reveal_strlit("B");
    reveal_strlit("CMP");
    reveal_strlit("D");
    reveal_strlit("DAD");
    reveal_strlit("DCR");
    reveal_strlit("DCX");
    reveal_strlit("DCX ");
    reveal_strlit("H");
    reveal_strlit("INR");
    reveal_strlit("INX");
    reveal_strlit("LDAX");
    reveal_strlit("MOV");
    reveal_strlit("ORA");
    reveal_strlit("PSW");
    reveal_strlit("SBB");
    reveal_strlit("SP");
    reveal_strlit("STAX");
    reveal_strlit("SUB");
    reveal_strlit("XRA");
    let m = "DCX"@;
    let w = "D"@;
    assert(shape(0x1bu8)->Some_0.0 =~= (m + " "@) + w);
    lemma_word_text(m, w);
    assert(m != "MOV"@) by { if m == "MOV"@ { assert(m[0] == "MOV"@[0]); } }
    assert(m != "STAX"@) by { if m == "STAX"@ { assert(m.len() == "STAX"@.len()); } }
    assert(m != "LDAX"@) by { if m == "LDAX"@ { assert(m.len() == "LDAX"@.len()); } }
    assert(m != "INR"@) by { if m == "INR"@ { assert(m[0] == "INR"@[0]); } }
    assert(m != "DCR"@) by { if m == "DCR"@ { assert(m[2] == "DCR"@[2]); } }
    assert(m != "ADD"@) by { if m == "ADD"@ { assert(m[0] == "ADD"@[0]); } }
    assert(m != "ADC"@) by { if m == "ADC"@ { assert(m[0] == "ADC"@[0]); } }
    assert(m != "SUB"@) by { if m == "SUB"@ { assert(m[0] == "SUB"@[0]); } }
    assert(m != "SBB"@) by { if m == "SBB"@ { assert(m[0] == "SBB"@[0]); } }
    assert(m != "ANA"@) by { if m == "ANA"@ { assert(m[0] == "ANA"@[0]); } }
    assert(m != "XRA"@) by { if m == "XRA"@ { assert(m[0] == "XRA"@[0]); } }
    assert(m != "ORA"@) by { if m == "ORA"@ { assert(m[0] == "ORA"@[0]); } }
    assert(m != "CMP"@) by { if m == "CMP"@ { assert(m[0] == "CMP"@[0]); } }
    assert(m != "INX"@) by { if m == "INX"@ { assert(m[0] == "INX"@[0]); } }
    assert(m != "DAD"@) by { if m == "DAD"@ { assert(m[1] == "DAD"@[1]); } }
    reveal(encode_args);
    assert(encode_args(m, seq![w]) == pair_encoding(seq!["D"@], 0xb, "SP"@));
    assert(pair_index(w, "SP"@) == Some(1u8));
}

#[verifier::rlimit(100)]
proof fn lemma_pair_19()
    ensures
        shape(0x19u8) is Some && shape(0x19u8)->Some_0.1 == 0,
        encode_line(shape(0x19u8)->Some_0.0) == Ok::<Seq<u8>, Seq<char>>(seq![0x19u8]),
{
    reveal_strlit(" ");
    reveal_strlit("ADC");
    reveal_strlit("ADD");
    reveal_strlit("ANA");
    reveal_strlit("B");
    reveal_strlit("CMP");
    reveal_strlit("D");
    reveal_strlit("DAD");
    reveal_strlit("DAD ");
    reveal_strlit("DCR");
    reveal_strlit("H");
    reveal_strlit("INR");
    reveal_strlit("INX");
    reveal_strlit("LDAX");
    reveal_strlit("MOV");
    reveal_strlit("ORA");
    reveal_strlit("PSW");
    reveal_strlit("SBB");
    reveal_strlit("SP");
    reveal_strlit("STAX");
    reveal_strlit("SUB");
    reveal_strlit("XRA");
    let m = "DAD"@;
    let w = "D"@;
    assert(shape(0x19u8)->Some_0.0 =~= (m + " "@) + w);
    lemma_word_text(m, w);
    assert(m != "MOV"@) by { if m == "MOV"@ { assert(m[0] == "MOV"@[0]); } }
    assert(m != "STAX"@) by { if m == "STAX"@ { assert(m.len() == "STAX"@.len()); } }
    assert(m != "LDAX"@) by { if m == "LDAX"@ { assert(m.len() == "LDAX"@.len()); } }
    assert(m != "INR"@) by { if m == "INR"@ { assert(m[0] == "INR"@[0]); } }
    assert(m != "DCR"@) by { if m == "DCR"@ { assert(m[1] == "DCR"@[1]); } }
    assert(m != "ADD"@) by { if m == "ADD"@ { assert(m[0] == "ADD"@[0]); } }
    assert(m != "ADC"@) by { if m == "ADC"@ { assert(m[0] == "ADC"@[0]); } }
    assert(m != "SUB"@) by { if m == "SUB"@ { assert(m[0] == "SUB"@[0]); } }
    assert(m != "SBB"@) by { if m == "SBB"@ { assert(m[0] == "SBB"@[0]); } }
    assert(m != "ANA"@) by { if m == "ANA"@ { assert(m[0] == "ANA"@[0]); } }
    assert(m != "XRA"@) by { if m == "XRA"@ { assert(m[0] == "XRA"@[0]); } }
    assert(m != "ORA"@) by { if m == "ORA"@ { assert(m[0] == "ORA"@[0]); } }
    assert(m != "CMP"@) by { if m == "CMP"@ { assert(m[0] == "CMP"@[0]); } }
    assert(m != "INX"@) by { if m == "INX"@ { assert(m[0] == "INX"@[0]); } }
    reveal(encode_args);
    assert(encode_args(m, seq![w]) == pair_encoding(seq!["D"@], 0x9, "SP"@));
    assert(pair_index(w, "SP"@) == Some(1u8));
}

#[verifier::rlimit(100)]
proof fn lemma_pair_d1()
    ensures
        shape(0xd1u8) is Some && shape(0xd1u8)->Some_0.1 == 0,
        encode_line(shape(0xd1u8)->Some_0.0) == Ok::<Seq<u8>, Seq<char>>(seq![0xd1u8]),
{
    reveal_strlit(" ");
    reveal_strlit("ADC");
    reveal_strlit("ADD");
    reveal_strlit("ANA");
    reveal_strlit("B");
    reveal_strlit("CMP");
    reveal_strlit("D");
    reveal_strlit("DAD");
    reveal_strlit("DCR");
    reveal_strlit("DCX");
    reveal_strlit("H");
    reveal_strlit("INR");
    reveal_strlit("INX");
    reveal_strlit("LDAX");
    reveal_strlit("MOV");
    reveal_strlit("ORA");
    reveal_strlit("POP");
    reveal_strlit("POP ");
    reveal_strlit("PSW");
    reveal_strlit("SBB");
    reveal_strlit("SP");
    reveal_strlit("STAX");
    reveal_strlit("SUB");
    reveal_strlit("XRA");
    let m = "POP"@;
    let w = "D"@;
    assert(shape(0xd1u8)->Some_0.0 =~= (m + " "@) + w);
    lemma_word_text(m, w);
    assert(m != "MOV"@) by { if m == "MOV"@ { assert(m[0] == "MOV"@[0]); } }
    assert(m != "STAX"@) by { if m == "STAX"@ { assert(m.len() == "STAX"@.len()); } }
    assert(m != "LDAX"@) by { if m == "LDAX"@ { assert(m.len() == "LDAX"@.len()); } }
    assert(m != "INR"@) by { if m == "INR"@ { assert(m[0] == "INR"@[0]); } }
    assert(m != "DCR"@) by { if m == "DCR"@ { assert(m[0] == "DCR"@[0]); } }
    assert(m != "ADD"@) by { if m == "ADD"@ { assert(m[0] == "ADD"@[0]); } }
    assert(m != "ADC"@) by { if m == "ADC"@ { assert(m[0] == "ADC"@[0]); } }
    assert(m != "SUB"@) by { if m == "SUB"@ { assert(m[0] == "SUB"@[0]); } }
    assert(m != "SBB"@) by { if m == "SBB"@ { assert(m[0] == "SBB"@[0]); } }
    assert(m != "ANA"@) by { if m == "ANA"@ { assert(m[0] == "ANA"@[0]); } }
    assert(m != "XRA"@) by { if m == "XRA"@ { assert(m[0] == "XRA"@[0]); } }
    assert(m != "ORA"@) by { if m == "ORA"@ { assert(m[0] == "ORA"@[0]); } }
    assert(m != "CMP"@) by { if m == "CMP"@ { assert(m[0] == "CMP"@[0]); } }
    assert(m != "INX"@) by { if m == "INX"@ { assert(m[0] == "INX"@[0]); } }
    assert(m != "DAD"@) by { if m == "DAD"@ { assert(m[0] == "DAD"@[0]); } }
    assert(m != "DCX"@) by { if m == "DCX"@ { assert(m[0] == "DCX"@[0]); } }
    reveal(encode_args);
    assert(encode_args(m, seq![w]) == pair_encoding(seq!["D"@], 0xc1, "PSW"@));
    assert(pair_index(w, "PSW"@) == Some(1u8));
}

#[verifier::rlimit(100)]
proof fn lemma_pair_d5()
    ensures
        shape(0xd5u8) is Some && shape(0xd5u8)->Some_0.1 == 0,
        encode_line(shape(0xd5u8)->Some_0.0) == Ok::<Seq<u8>, Seq<char>>(seq![0xd5u8]),
{
    reveal_strlit(" ");
    reveal_strlit("ADC");
    reveal_strlit("ADD");
    reveal_strlit("ANA");
    reveal_strlit("B");
    reveal_strlit("CMP");
    reveal_strlit("D");
    reveal_strlit("DAD");
    reveal_strlit("DCR");
    reveal_strlit("DCX");
    reveal_strlit("H");
    reveal_strlit("INR");
    reveal_strlit("INX");
    reveal_strlit("LDAX");
    reveal_strlit("MOV");
    reveal_strlit("ORA");
    reveal_strlit("POP");
    reveal_strlit("PSW");
    reveal_strlit("PUSH");
    reveal_strlit("PUSH ");
    reveal_strlit("SBB");
    reveal_strlit("SP");
    reveal_strlit("STAX");
    reveal_strlit("SUB");
    reveal_strlit("XRA");
    let m = "PUSH"@;
    let w = "D"@;
    assert(shape(0xd5u8)->Some_0.0 =~= (m + " "@) + w);
    lemma_word_text(m, w);
    assert(m != "MOV"@) by { if m == "MOV"@ { assert(m.len() == "MOV"@.len()); } }
    assert(m != "STAX"@) by { if m == "STAX"@ { assert(m[0] == "STAX"@[0]); } }
    assert(m != "LDAX"@) by { if m == "LDAX"@ { assert(m[0] == "LDAX"@[0]); } }
    assert(m != "INR"@) by { if m == "INR"@ { assert(m.len() == "INR"@.len()); } }
    assert(m != "DCR"@) by { if m == "DCR"@ { assert(m.len() == "DCR"@.len()); } }
    assert(m != "ADD"@) by { if m == "ADD"@ { assert(m.len() == "ADD"@.len()); } }
    assert(m != "ADC"@) by { if m == "ADC"@ { assert(m.len() == "ADC"@.len()); } }
    assert(m != "SUB"@) by { if m == "SUB"@ { assert(m.len() == "SUB"@.len()); } }
    assert(m != "SBB"@) by { if m == "SBB"@ { assert(m.len() == "SBB"@.len()); } }
    assert(m != "ANA"@) by { if m == "ANA"@ { assert(m.len() == "ANA"@.len()); } }
    assert(m != "XRA"@) by { if m == "XRA"@ { assert(m.len() == "XRA"@.len()); } }
    assert(m != "ORA"@) by { if m == "ORA"@ { assert(m.len() == "ORA"@.len()); } }
    assert(m != "CMP"@) by { if m == "CMP"@ { assert(m.len() == "CMP"@.len()); } }
    assert(m != "INX"@) by { if m == "INX"@ { assert(m.len() == "INX"@.len()); } }
    assert(m != "DAD"@) by { if m == "DAD"@ { assert(m.len() == "DAD"@.len()); } }
    assert(m != "DCX"@) by { if m == "DCX"@ { assert(m.len() == "DCX"@.len()); } }
    assert(m != "POP"@) by { if m == "POP"@ { assert(m.len() == "POP"@.len()); } }
    reveal(encode_args);
    assert(encode_args(m, seq![w]) == pair_encoding(seq!["D"@], 0xc5, "PSW"@));
    assert(pair_index(w, "PSW"@) == Some(1u8));
}

#[verifier::rlimit(100)]
proof fn lemma_pair_23()
    ensures
        shape(0x23u8) is Some && shape(0x23u8)->Some_0.1 == 0,
        encode_line(shape(0x23u8)->Some_0.0) == Ok::<Seq<u8>, Seq<char>>(seq![0x23u8]),
{
    reveal_strlit(" ");
    reveal_strlit("ADC");
    reveal_strlit("ADD");
    reveal_strlit("ANA");
    reveal_strlit("B");
    reveal_strlit("CMP");
    reveal_strlit("D");
    reveal_strlit("DCR");
    reveal_strlit("H");
    reveal_strlit("INR");
    reveal_strlit("INX");
    reveal_strlit("INX ");
    reveal_strlit("LDAX");
    reveal_strlit("MOV");
    reveal_strlit("ORA");
    reveal_strlit("PSW");
    reveal_strlit("SBB");
    reveal_strlit("SP");
    reveal_strlit("STAX");
    reveal_strlit("SUB");
    reveal_strlit("XRA");
    let m = "INX"@;
    let w = "H"@;
    assert(shape(0x23u8)->Some_0.0 =~= (m + " "@) + w);
    lemma_word_text(m, w);
    assert(m != "MOV"@) by { if m == "MOV"@ { assert(m[0] == "MOV"@[0]); } }
    assert(m != "STAX"@) by { if m == "STAX"@ { assert(m.len() == "STAX"@.len()); } }
    assert(m != "LDAX"@) by { if m == "LDAX"@ { assert(m.len() == "LDAX"@.len()); } }
    assert(m != "INR"@) by { if m == "INR"@ { assert(m[2] == "INR"@[2]); } }
    assert(m != "DCR"@) by { if m == "DCR"@ { assert(m[0] == "DCR"@[0]); } }
    assert(m != "ADD"@) by { if m == "ADD"@ { assert(m[0] == "ADD"@[0]); } }
    assert(m != "ADC"@) by { if m == "ADC"@ { assert(m[0] == "ADC"@[0]); } }
    assert(m != "SUB"@) by { if m == "SUB"@ { assert(m[0] == "SUB"@[0]); } }
    assert(m != "SBB"@) by { if m == "SBB"@ { assert(m[0] == "SBB"@[0]); } }
    assert(m != "ANA"@) by { if m == "ANA"@ { assert(m[0] == "ANA"@[0]); } }
    assert(m != "XRA"@) by { if m == "XRA"@ { assert(m[0] == "XRA"@[0]); } }
    assert(m != "ORA"@) by { if m == "ORA"@ { assert(m[0] == "ORA"@[0]); } }
    assert(m != "CMP"@) by { if m == "CMP"@ { assert(m[0] == "CMP"@[0]); } }
    reveal(encode_args);
    assert(encode_args(m, seq![w]) == pair_encoding(seq!["H"@], 0x3, "SP"@));
    assert(pair_index(w, "SP"@) == Some(2u8));
}

#[verifier::rlimit(100)]
proof fn lemma_pair_2b()
    ensures
        shape(0x2bu8) is Some && shape(0x2bu8)->Some_0.1 == 0,
        encode_line(shape(0x2bu8)->Some_0.0) == Ok::<Seq<u8>, Seq<char>>(seq![0x2bu8]),
{
    reveal_strlit(" ");
    reveal_strlit("ADC");
    reveal_strlit("ADD");
    reveal_strlit("ANA");
    reveal_strlit("B");
    reveal_strlit("CMP");
    reveal_strlit("D");
    reveal_strlit("DAD");
    reveal_strlit("DCR");
    reveal_strlit("DCX");
    reveal_strlit("DCX ");
    reveal_strlit("H");
    reveal_strlit("INR");
    reveal_strlit("INX");
    reveal_strlit("LDAX");
    reveal_strlit("MOV");
    reveal_strlit("ORA");
    reveal_strlit("PSW");
    reveal_strlit("SBB");
    reveal_strlit("SP");
    reveal_strlit("STAX");
    reveal_strlit("SUB");
    reveal_strlit("XRA");
    let m = "DCX"@;
    let w = "H"@;
    assert(shape(0x2bu8)->Some_0.0 =~= (m + " "@) + w);
    lemma_word_text(m, w);
    assert(m != "MOV"@) by { if m == "MOV"@ { assert(m[0] == "MOV"@[0]); } }
    assert(m != "STAX"@) by { if m == "STAX"@ { assert(m.len() == "STAX"@.len()); } }
    assert(m != "LDAX"@) by { if m == "LDAX"@ { assert(m.len() == "LDAX"@.len()); } }
    assert(m != "INR"@) by { if m == "INR"@ { assert(m[0] == "INR"@[0]); } }
    assert(m != "DCR"@) by { if m == "DCR"@ { assert(m[2] == "DCR"@[2]); } }
    assert(m != "ADD"@) by { if m == "ADD"@ { assert(m[0] == "ADD"@[0]); } }
    assert(m != "ADC"@) by { if m == "ADC"@ { assert(m[0] == "ADC"@[0]); } }
    assert(m != "SUB"@) by { if m == "SUB"@ { assert(m[0] == "SUB"@[0]); } }
    assert(m != "SBB"@) by { if m == "SBB"@ { assert(m[0] == "SBB"@[0]); } }
    assert(m != "ANA"@) by { if m == "ANA"@ { assert(m[0] == "ANA"@[0]); } }
    assert(m != "XRA"@) by { if m == "XRA"@ { assert(m[0] == "XRA"@[0]); } }
    assert(m != "ORA"@) by { if m == "ORA"@ { assert(m[0] == "ORA"@[0]); } }
    assert(m != "CMP"@) by { if m == "CMP"@ { assert(m[0] == "CMP"@[0]); } }
    assert(m != "INX"@) by { if m == "INX"@ { assert(m[0] == "INX"@[0]); } }
    assert(m != "DAD"@) by { if m == "DAD"@ { assert(m[1] == "DAD"@[1]); } }
    reveal(encode_args);
    assert(encode_args(m, seq![w]) == pair_encoding(seq!["H"@], 0xb, "SP"@));
    assert(pair_index(w, "SP"@) == Some(2u8));
}

#[verifier::rlimit(100)]
proof fn lemma_pair_29()
    ensures
        shape(0x29u8) is Some && shape(0x29u8)->Some_0.1 == 0,
        encode_line(shape(0x29u8)->Some_0.0) == Ok::<Seq<u8>, Seq<char>>(seq![0x29u8]),
{
    reveal_strlit(" ");
    reveal_strlit("ADC");
    reveal_strlit("ADD");
    reveal_strlit("ANA");
    reveal_strlit("B");
    reveal_strlit("CMP");
    reveal_strlit("D");
    reveal_strlit("DAD");
    reveal_strlit("DAD ");
    reveal_strlit("DCR");
    reveal_strlit("H");
    reveal_strlit("INR");
    reveal_strlit("INX");
    reveal_strlit("LDAX");
    reveal_strlit("MOV");
    reveal_strlit("ORA");
    reveal_strlit("PSW");
    reveal_strlit("SBB");
    reveal_strlit("SP");
    reveal_strlit("STAX");
    reveal_strlit("SUB");
    reveal_strlit("XRA");
    let m = "DAD"@;
    let w = "H"@;
    assert(shape(0x29u8)->Some_0.0 =~= (m + " "@) + w);
    lemma_word_text(m, w);
    assert(m != "MOV"@) by { if m == "MOV"@ { assert(m[0] == "MOV"@[0]); } }
    assert(m != "STAX"@) by { if m == "STAX"@ { assert(m.len() == "STAX"@.len()); } }
    assert(m != "LDAX"@) by { if m == "LDAX"@ { assert(m.len() == "LDAX"@.len()); } }
    assert(m != "INR"@) by { if m == "INR"@ { assert(m[0] == "INR"@[0]); } }
    assert(m != "DCR"@) by { if m == "DCR"@ { assert(m[1] == "DCR"@[1]); } }
    assert(m != "ADD"@) by { if m == "ADD"@ { assert(m[0] == "ADD"@[0]); } }
    assert(m != "ADC"@) by { if m == "ADC"@ { assert(m[0] == "ADC"@[0]); } }
    assert(m != "SUB"@) by { if m == "SUB"@ { assert(m[0] == "SUB"@[0]); } }
    assert(m != "SBB"@) by { if m == "SBB"@ { assert(m[0] == "SBB"@[0]); } }
    assert(m != "ANA"@) by { if m == "ANA"@ { assert(m[0] == "ANA"@[0]); } }
    assert(m != "XRA"@) by { if m == "XRA"@ { assert(m[0] == "XRA"@[0]); } }
    assert(m != "ORA"@) by { if m == "ORA"@ { assert(m[0] == "ORA"@[0]); } }
    assert(m != "CMP"@) by { if m == "CMP"@ { assert(m[0] == "CMP"@[0]); } }
    assert(m != "INX"@) by { if m == "INX"@ { assert(m[0] == "INX"@[0]); } }
    reveal(encode_args);
    assert(encode_args(m, seq![w]) == pair_encoding(seq!["H"@], 0x9, "SP"@));
    assert(pair_index(w, "SP"@) == Some(2u8));
}

#[verifier::rlimit(100)]
proof fn lemma_pair_e1()
    ensures
        shape(0xe1u8) is Some && shape(0xe1u8)->Some_0.1 == 0,
        encode_line(shape(0xe1u8)->Some_0.0) == Ok::<Seq<u8>, Seq<char>>(seq![0xe1u8]),
{
    reveal_strlit(" ");
    reveal_strlit("ADC");
    reveal_strlit("ADD");
    reveal_strlit("ANA");
    reveal_strlit("B");
    reveal_strlit("CMP");
    reveal_strlit("D");
    reveal_strlit("DAD");
    reveal_strlit("DCR");
    reveal_strlit("DCX");
    reveal_strlit("H");
    reveal_strlit("INR");
    reveal_strlit("INX");
    reveal_strlit("LDAX");
    reveal_strlit("MOV");
    reveal_strlit("ORA");
    reveal_strlit("POP");
    reveal_strlit("POP ");
    reveal_strlit("PSW");
    reveal_strlit("SBB");
    reveal_strlit("SP");
    reveal_strlit("STAX");
    reveal_strlit("SUB");
    reveal_strlit("XRA");
    let m = "POP"@;
    let w = "H"@;
    assert(shape(0xe1u8)->Some_0.0 =~= (m + " "@) + w);
    lemma_word_text(m, w);
    assert(m != "MOV"@) by { if m == "MOV"@ { assert(m[0] == "MOV"@[0]); } }
    assert(m != "STAX"@) by { if m == "STAX"@ { assert(m.len() == "STAX"@.len()); } }
    assert(m != "LDAX"@) by { if m == "LDAX"@ { assert(m.len() == "LDAX"@.len()); } }
    assert(m != "INR"@) by { if m == "INR"@ { assert(m[0] == "INR"@[0]); } }
    assert(m != "DCR"@) by { if m == "DCR"@ { assert(m[0] == "DCR"@[0]); } }
    assert(m != "ADD"@) by { if m == "ADD"@ { assert(m[0] == "ADD"@[0]); } }
    assert(m != "ADC"@) by { if m == "ADC"@ { assert(m[0] == "ADC"@[0]); } }
    assert(m != "SUB"@) by { if m == "SUB"@ { assert(m[0] == "SUB"@[0]); } }
    assert(m != "SBB"@) by { if m == "SBB"@ { assert(m[0] == "SBB"@[0]); } }
    assert(m != "ANA"@) by { if m == "ANA"@ { assert(m[0] == "ANA"@[0]); } }
    assert(m != "XRA"@) by { if m == "XRA"@ { assert(m[0] == "XRA"@[0]); } }
    assert(m != "ORA"@) by { if m == "ORA"@ { assert(m[0] == "ORA"@[0]); } }
    assert(m != "CMP"@) by { if m == "CMP"@ { assert(m[0] == "CMP"@[0]); } }
    assert(m != "INX"@) by { if m == "INX"@ { assert(m[0] == "INX"@[0]); } }
    assert(m != "DAD"@) by { if m == "DAD"@ { assert(m[0] == "DAD"@[0]); } }
    assert(m != "DCX"@) by { if m == "DCX"@ { assert(m[0] == "DCX"@[0]); } }
    reveal(encode_args);
    assert(encode_args(m, seq![w]) == pair_encoding(seq!["H"@], 0xc1, "PSW"@));
    assert(pair_index(w, "PSW"@) == Some(2u8));
}

#[verifier::rlimit(100)]
proof fn lemma_pair_e5()
    ensures
        shape(0xe5u8) is Some && shape(0xe5u8)->Some_0.1 == 0,
        encode_line(shape(0xe5u8)->Some_0.0) == Ok::<Seq<u8>, Seq<char>>(seq![0xe5u8]),
{
    reveal_strlit(" ");
    reveal_strlit("ADC");
    reveal_strlit("ADD");
    reveal_strlit("ANA");
    reveal_strlit("B");
    reveal_strlit("CMP");
    reveal_strlit("D");
    reveal_strlit("DAD");
    reveal_strlit("DCR");
    reveal_strlit("DCX");
    reveal_strlit("H");
    reveal_strlit("INR");
    reveal_strlit("INX");
    reveal_strlit("LDAX");
    reveal_strlit("MOV");
    reveal_strlit("ORA");
    reveal_strlit("POP");
    reveal_strlit("PSW");
    reveal_strlit("PUSH");
    reveal_strlit("PUSH ");
    reveal_strlit("SBB");
    reveal_strlit("SP");
    reveal_strlit("STAX");
    reveal_strlit("SUB");
    reveal_strlit("XRA");
    let m = "PUSH"@;
    let w = "H"@;
    assert(shape(0xe5u8)->Some_0.0 =~= (m + " "@) + w);
    lemma_word_text(m, w);
    assert(m != "MOV"@) by { if m == "MOV"@ { assert(m.len() == "MOV"@.len()); } }
    assert(m != "STAX"@) by { if m == "STAX"@ { assert(m[0] == "STAX"@[0]); } }
    assert(m != "LDAX"@) by { if m == "LDAX"@ { assert(m[0] == "LDAX"@[0]); } }
    assert(m != "INR"@) by { if m == "INR"@ { assert(m.len() == "INR"@.len()); } }
    assert(m != "DCR"@) by { if m == "DCR"@ { assert(m.len() == "DCR"@.len()); } }
    assert(m != "ADD"@) by { if m == "ADD"@ { assert(m.len() == "ADD"@.len()); } }
    assert(m != "ADC"@) by { if m == "ADC"@ { assert(m.len() == "ADC"@.len()); } }
    assert(m != "SUB"@) by { if m == "SUB"@ { assert(m.len() == "SUB"@.len()); } }
    assert(m != "SBB"@) by { if m == "SBB"@ { assert(m.len() == "SBB"@.len()); } }
    assert(m != "ANA"@) by { if m == "ANA"@ { assert(m.len() == "ANA"@.len()); } }
    assert(m != "XRA"@) by { if m == "XRA"@ { assert(m.len() == "XRA"@.len()); } }
    assert(m != "ORA"@) by { if m == "ORA"@ { assert(m.len() == "ORA"@.len()); } }
    assert(m != "CMP"@) by { if m == "CMP"@ { assert(m.len() == "CMP"@.len()); } }
    assert(m != "INX"@) by { if m == "INX"@ { assert(m.len() == "INX"@.len()); } }
    assert(m != "DAD"@) by { if m == "DAD"@ { assert(m.len() == "DAD"@.len()); } }
    assert(m != "DCX"@) by { if m == "DCX"@ { assert(m.len() == "DCX"@.len()); } }
    assert(m != "POP"@) by { if m == "POP"@ { assert(m.len() == "POP"@.len()); } }
    reveal(encode_args);
    assert(encode_args(m, seq![w]) == pair_encoding(seq!["H"@], 0xc5, "PSW"@));
    assert(pair_index(w, "PSW"@) == Some(2u8));
}

#[verifier::rlimit(100)]
proof fn lemma_pair_33()
    ensures
        shape(0x33u8) is Some && shape(0x33u8)->Some_0.1 == 0,
        encode_line(shape(0x33u8)->Some_0.0) == Ok::<Seq<u8>, Seq<char>>(seq![0x33u8]),
{
    reveal_strlit(" ");
    reveal_strlit("ADC");
    reveal_strlit("ADD");
    reveal_strlit("ANA");
    reveal_strlit("B");
    reveal_strlit("CMP");
    reveal_strlit("D");
    reveal_strlit("DCR");
    reveal_strlit("H");
    reveal_strlit("INR");
    reveal_strlit("INX");
    reveal_strlit("INX ");
    reveal_strlit("LDAX");
    reveal_strlit("MOV");
    reveal_strlit("ORA");
    reveal_strlit("PSW");
    reveal_strlit("SBB");
    reveal_strlit("SP");
    reveal_strlit("STAX");
    reveal_strlit("SUB");
    reveal_strlit("XRA");
    let m = "INX"@;
    let w = "SP"@;
    assert(shape(0x33u8)->Some_0.0 =~= (m + " "@) + w);
    lemma_word_text(m, w);
    assert(m != "MOV"@) by { if m == "MOV"@ { assert(m[0] == "MOV"@[0]); } }
    assert(m != "STAX"@) by { if m == "STAX"@ { assert(m.len() == "STAX"@.len()); } }
    assert(m != "LDAX"@) by { if m == "LDAX"@ { assert(m.len() == "LDAX"@.len()); } }
    assert(m != "INR"@) by { if m == "INR"@ { assert(m[2] == "INR"@[2]); } }
    assert(m != "DCR"@) by { if m == "DCR"@ { assert(m[0] == "DCR"@[0]); } }
    assert(m != "ADD"@) by { if m == "ADD"@ { assert(m[0] == "ADD"@[0]); } }
    assert(m != "ADC"@) by { if m == "ADC"@ { assert(m[0] == "ADC"@[0]); } }
    assert(m != "SUB"@) by { if m == "SUB"@ { assert(m[0] == "SUB"@[0]); } }
    assert(m != "SBB"@) by { if m == "SBB"@ { assert(m[0] == "SBB"@[0]); } }
    assert(m != "ANA"@) by { if m == "ANA"@ { assert(m[0] == "ANA"@[0]); } }
    assert(m != "XRA"@) by { if m == "XRA"@ { assert(m[0] == "XRA"@[0]); } }
    assert(m != "ORA"@) by { if m == "ORA"@ { assert(m[0] == "ORA"@[0]); } }
    assert(m != "CMP"@) by { if m == "CMP"@ { assert(m[0] == "CMP"@[0]); } }
    reveal(encode_args);
    assert(encode_args(m, seq![w]) == pair_encoding(seq!["SP"@], 0x3, "SP"@));
    assert(pair_index(w, "SP"@) == Some(3u8));
}

#[verifier::rlimit(100)]
proof fn lemma_pair_3b()
    ensures
        shape(0x3bu8) is Some && shape(0x3bu8)->Some_0.1 == 0,
        encode_line(shape(0x3bu8)->Some_0.0) == Ok::<Seq<u8>, Seq<char>>(seq![0x3bu8]),
{
    reveal_strlit(" ");
    reveal_strlit("ADC");
    reveal_strlit("ADD");
    reveal_strlit("ANA");
    reveal_strlit("B");
    reveal_strlit("CMP");
    reveal_strlit("D");
    reveal_strlit("DAD");
    reveal_strlit("DCR");
    reveal_strlit("DCX");
    reveal_strlit("DCX ");
    reveal_strlit("H");
    reveal_strlit("INR");
    reveal_strlit("INX");
    reveal_strlit("LDAX");
    reveal_strlit("MOV");
    reveal_strlit("ORA");
    reveal_strlit("PSW");
    reveal_strlit("SBB");
    reveal_strlit("SP");
    reveal_strlit("STAX");
    reveal_strlit("SUB");
    reveal_strlit("XRA");
    let m = "DCX"@;
    let w = "SP"@;
    assert(shape(0x3bu8)->Some_0.0 =~= (m + " "@) + w);
    lemma_word_text(m, w);
    assert(m != "MOV"@) by { if m == "MOV"@ { assert(m[0] == "MOV"@[0]); } }
    assert(m != "STAX"@) by { if m == "STAX"@ { assert(m.len() == "STAX"@.len()); } }
    assert(m != "LDAX"@) by { if m == "LDAX"@ { assert(m.len() == "LDAX"@.len()); } }
    assert(m != "INR"@) by { if m == "INR"@ { assert(m[0] == "INR"@[0]); } }
    assert(m != "DCR"@) by { if m == "DCR"@ { assert(m[2] == "DCR"@[2]); } }
    assert(m != "ADD"@) by { if m == "ADD"@ { assert(m[0] == "ADD"@[0]); } }
    assert(m != "ADC"@) by { if m == "ADC"@ { assert(m[0] == "ADC"@[0]); } }
    assert(m != "SUB"@) by { if m == "SUB"@ { assert(m[0] == "SUB"@[0]); } }
    assert(m != "SBB"@) by { if m == "SBB"@ { assert(m[0] == "SBB"@[0]); } }
    assert(m != "ANA"@) by { if m == "ANA"@ { assert(m[0] == "ANA"@[0]); } }
    assert(m != "XRA"@) by { if m == "XRA"@ { assert(m[0] == "XRA"@[0]); } }
    assert(m != "ORA"@) by { if m == "ORA"@ { assert(m[0] == "ORA"@[0]); } }
    assert(m != "CMP"@) by { if m == "CMP"@ { assert(m[0] == "CMP"@[0]); } }
    assert(m != "INX"@) by { if m == "INX"@ { assert(m[0] == "INX"@[0]); } }
    assert(m != "DAD"@) by { if m == "DAD"@ { assert(m[1] == "DAD"@[1]); } }
    reveal(encode_args);
    assert(encode_args(m, seq![w]) == pair_encoding(seq!["SP"@], 0xb, "SP"@));
    assert(pair_index(w, "SP"@) == Some(3u8));
}

#[verifier::rlimit(100)]
proof fn lemma_pair_39()
    ensures
        shape(0x39u8) is Some && shape(0x39u8)->Some_0.1 == 0,
        encode_line(shape(0x39u8)->Some_0.0) == Ok::<Seq<u8>, Seq<char>>(seq![0x39u8]),
{
    reveal_strlit(" ");
    reveal_strlit("ADC");
    reveal_strlit("ADD");
    reveal_strlit("ANA");
    reveal_strlit("B");
    reveal_strlit("CMP");
    reveal_strlit("D");
    reveal_strlit("DAD");
    reveal_strlit("DAD ");
    reveal_strlit("DCR");
    reveal_strlit("H");
    reveal_strlit("INR");
    reveal_strlit("INX");
    reveal_strlit("LDAX");
    reveal_strlit("MOV");
    reveal_strlit("ORA");
    reveal_strlit("PSW");
    reveal_strlit("SBB");
    reveal_strlit("SP");
    reveal_strlit("STAX");
    reveal_strlit("SUB");
    reveal_strlit("XRA");
    let m = "DAD"@;
    let w = "SP"@;
    assert(shape(0x39u8)->Some_0.0 =~= (m + " "@) + w);
    lemma_word_text(m, w);
    assert(m != "MOV"@) by { if m == "MOV"@ { assert(m[0] == "MOV"@[0]); } }
    assert(m != "STAX"@) by { if m == "STAX"@ { assert(m.len() == "STAX"@.len()); } }
    assert(m != "LDAX"@) by { if m == "LDAX"@ { assert(m.len() == "LDAX"@.len()); } }
    assert(m != "INR"@) by { if m == "INR"@ { assert(m[0] == "INR"@[0]); } }
    assert(m != "DCR"@) by { if m == "DCR"@ { assert(m[1] == "DCR"@[1]); } }
    assert(m != "ADD"@) by { if m == "ADD"@ { assert(m[0] == "ADD"@[0]); } }
    assert(m != "ADC"@) by { if m == "ADC"@ { assert(m[0] == "ADC"@[0]); } }
    assert(m != "SUB"@) by { if m == "SUB"@ { assert(m[0] == "SUB"@[0]); } }
    assert(m != "SBB"@) by { if m == "SBB"@ { assert(m[0] == "SBB"@[0]); } }
    assert(m != "ANA"@) by { if m == "ANA"@ { assert(m[0] == "ANA"@[0]); } }
    assert(m != "XRA"@) by { if m == "XRA"@ { assert(m[0] == "XRA"@[0]); } }
    assert(m != "ORA"@) by { if m == "ORA"@ { assert(m[0] == "ORA"@[0]); } }
    assert(m != "CMP"@) by { if m == "CMP"@ { assert(m[0] == "CMP"@[0]); } }
    assert(m != "INX"@) by { if m == "INX"@ { assert(m[0] == "INX"@[0]); } }
    reveal(encode_args);
    assert(encode_args(m, seq![w]) == pair_encoding(seq!["SP"@], 0x9, "SP"@));
    assert(pair_index(w, "SP"@) == Some(3u8));
}

#[verifier::rlimit(100)]
proof fn lemma_pair_f1()
    ensures
        shape(0xf1u8) is Some && shape(0xf1u8)->Some_0.1 == 0,
        encode_line(shape(0xf1u8)->Some_0.0) == Ok::<Seq<u8>, Seq<char>>(seq![0xf1u8]),
{
    reveal_strlit(" ");
    reveal_strlit("ADC");
    reveal_strlit("ADD");
    reveal_strlit("ANA");
    reveal_strlit("B");
    reveal_strlit("CMP");
    reveal_strlit("D");
    reveal_strlit("DAD");
    reveal_strlit("DCR");
    reveal_strlit("DCX");
    reveal_strlit("H");
    reveal_strlit("INR");
    reveal_strlit("INX");
    reveal_strlit("LDAX");
    reveal_strlit("MOV");
    reveal_strlit("ORA");
    reveal_strlit("POP");
    reveal_strlit("POP ");
    reveal_strlit("PSW");
    reveal_strlit("SBB");
    reveal_strlit("SP");
    reveal_strlit("STAX");
    reveal_strlit("SUB");
    reveal_strlit("XRA");
    let m = "POP"@;
    let w = "PSW"@;
    assert(shape(0xf1u8)->Some_0.0 =~= (m + " "@) + w);
    lemma_word_text(m, w);
    assert(m != "MOV"@) by { if m == "MOV"@ { assert(m[0] == "MOV"@[0]); } }
    assert(m != "STAX"@) by { if m == "STAX"@ { assert(m.len() == "STAX"@.len()); } }
    assert(m != "LDAX"@) by { if m == "LDAX"@ { assert(m.len() == "LDAX"@.len()); } }
    assert(m != "INR"@) by { if m == "INR"@ { assert(m[0] == "INR"@[0]); } }
    assert(m != "DCR"@) by { if m == "DCR"@ { assert(m[0] == "DCR"@[0]); } }
    assert(m != "ADD"@) by { if m == "ADD"@ { assert(m[0] == "ADD"@[0]); } }
    assert(m != "ADC"@) by { if m == "ADC"@ { assert(m[0] == "ADC"@[0]); } }
    assert(m != "SUB"@) by { if m == "SUB"@ { assert(m[0] == "SUB"@[0]); } }
    assert(m != "SBB"@) by { if m == "SBB"@ { assert(m[0] == "SBB"@[0]); } }
    assert(m != "ANA"@) by { if m == "ANA"@ { assert(m[0] == "ANA"@[0]); } }
    assert(m != "XRA"@) by { if m == "XRA"@ { assert(m[0] == "XRA"@[0]); } }
    assert(m != "ORA"@) by { if m == "ORA"@ { assert(m[0] == "ORA"@[0]); } }
    assert(m != "CMP"@) by { if m == "CMP"@ { assert(m[0] == "CMP"@[0]); } }
    assert(m != "INX"@) by { if m == "INX"@ { assert(m[0] == "INX"@[0]); } }
    assert(m != "DAD"@) by { if m == "DAD"@ { assert(m[0] == "DAD"@[0]); } }
    assert(m != "DCX"@) by { if m == "DCX"@ { assert(m[0] == "DCX"@[0]); } }
    reveal(encode_args);
    assert(encode_args(m, seq![w]) == pair_encoding(seq!["PSW"@], 0xc1, "PSW"@));
    assert(pair_index(w, "PSW"@) == Some(3u8));
}

#[verifier::rlimit(100)]
proof fn lemma_pair_f5()
    ensures
        shape(0xf5u8) is Some && shape(0xf5u8)->Some_0.1 == 0,
        encode_line(shape(0xf5u8)->Some_0.0) == Ok::<Seq<u8>, Seq<char>>(seq![0xf5u8]),
{
    reveal_strlit(" ");
    reveal_strlit("ADC");
    reveal_strlit("ADD");
    reveal_strlit("ANA");
    reveal_strlit("B");
    reveal_strlit("CMP");
    reveal_strlit("D");
    reveal_strlit("DAD");
    reveal_strlit("DCR");
    reveal_strlit("DCX");
    reveal_strlit("H");
    reveal_strlit("INR");
    reveal_strlit("INX");
    reveal_strlit("LDAX");
    reveal_strlit("MOV");
    reveal_strlit("ORA");
    reveal_strlit("POP");
    reveal_strlit("PSW");
    reveal_strlit("PUSH");
    reveal_strlit("PUSH ");
    reveal_strlit("SBB");
    reveal_strlit("SP");
    reveal_strlit("STAX");
    reveal_strlit("SUB");
    reveal_strlit("XRA");
    let m = "PUSH"@;
    let w = "PSW"@;
    assert(shape(0xf5u8)->Some_0.0 =~= (m + " "@) + w);
    lemma_word_text(m, w);
    assert(m != "MOV"@) by { if m == "MOV"@ { assert(m.len() == "MOV"@.len()); } }
    assert(m != "STAX"@) by { if m == "STAX"@ { assert(m[0] == "STAX"@[0]); } }
    assert(m != "LDAX"@) by { if m == "LDAX"@ { assert(m[0] == "LDAX"@[0]); } }
    assert(m != "INR"@) by { if m == "INR"@ { assert(m.len() == "INR"@.len()); } }
    assert(m != "DCR"@) by { if m == "DCR"@ { assert(m.len() == "DCR"@.len()); } }
    assert(m != "ADD"@) by { if m == "ADD"@ { assert(m.len() == "ADD"@.len()); } }
    assert(m != "ADC"@) by { if m == "ADC"@ { assert(m.len() == "ADC"@.len()); } }
    assert(m != "SUB"@) by { if m == "SUB"@ { assert(m.len() == "SUB"@.len()); } }
    assert(m != "SBB"@) by { if m == "SBB"@ { assert(m.len() == "SBB"@.len()); } }
    assert(m != "ANA"@) by { if m == "ANA"@ { assert(m.len() == "ANA"@.len()); } }
    assert(m != "XRA"@) by { if m == "XRA"@ { assert(m.len() == "XRA"@.len()); } }
    assert(m != "ORA"@) by { if m == "ORA"@ { assert(m.len() == "ORA"@.len()); } }
    assert(m != "CMP"@) by { if m == "CMP"@ { assert(m.len() == "CMP"@.len()); } }
    assert(m != "INX"@) by { if m == "INX"@ { assert(m.len() == "INX"@.len()); } }
    assert(m != "DAD"@) by { if m == "DAD"@ { assert(m.len() == "DAD"@.len()); } }
    assert(m != "DCX"@) by { if m == "DCX"@ { assert(m.len() == "DCX"@.len()); } }
    assert(m != "POP"@) by { if m == "POP"@ { assert(m.len() == "POP"@.len()); } }
    reveal(encode_args);
    assert(encode_args(m, seq![w]) == pair_encoding(seq!["PSW"@], 0xc5, "PSW"@));
    assert(pair_index(w, "PSW"@) == Some(3u8));
}

#[verifier::rlimit(100)]
proof fn lemma_pair_02()
    ensures
        shape(0x2u8) is Some && shape(0x2u8)->Some_0.1 == 0,
        encode_line(shape(0x2u8)->Some_0.0) == Ok::<Seq<u8>, Seq<char>>(seq![0x2u8]),
{
    reveal_strlit(" ");
    reveal_strlit("B");
    reveal_strlit("D");
    reveal_strlit("H");
    reveal_strlit("MOV");
    reveal_strlit("PSW");
    reveal_strlit("SP");
    reveal_strlit("STAX");
    reveal_strlit("STAX ");
    reveal_strlit("STAX B");
    let m = "STAX"@;
    let w = "B"@;
    assert(shape(0x2u8)->Some_0.0 =~= (m + " "@) + w);
    lemma_word_text(m, w);
    assert(m != "MOV"@) by { if m == "MOV"@ { assert(m.len() == "MOV"@.len()); } }
    reveal(encode_args);
    assert(encode_args(m, seq![w]) == bd_encoding(seq!["B"@], 0x2));

}

#[verifier::rlimit(100)]
proof fn lemma_pair_0a()
    ensures
        shape(0xau8) is Some && shape(0xau8)->Some_0.1 == 0,
        encode_line(shape(0xau8)->Some_0.0) == Ok::<Seq<u8>, Seq<char>>(seq![0xau8]),
{
    reveal_strlit(" ");
    reveal_strlit("B");
    reveal_strlit("D");
    reveal_strlit("H");
    reveal_strlit("LDAX");
    reveal_strlit("LDAX ");
    reveal_strlit("MOV");
    reveal_strlit("PSW");
    reveal_strlit("SP");
    reveal_strlit("STAX");
    reveal_strlit("LDAX B");
    let m = "LDAX"@;
    let w = "B"@;
    assert(shape(0xau8)->Some_0.0 =~= (m + " "@) + w);
    lemma_word_text(m, w);
    assert(m != "MOV"@) by { if m == "MOV"@ { assert(m.len() == "MOV"@.len()); } }
    assert(m != "STAX"@) by { if m == "STAX"@ { assert(m[0] == "STAX"@[0]); } }
    reveal(encode_args);
    assert(encode_args(m, seq![w]) == bd_encoding(seq!["B"@], 0xa));

}

#[verifier::rlimit(100)]
proof fn lemma_pair_12()
    ensures
        shape(0x12u8) is Some && shape(0x12u8)->Some_0.1 == 0,
        encode_line(shape(0x12u8)->Some_0.0) == Ok::<Seq<u8>, Seq<char>>(seq![0x12u8]),
{
    reveal_strlit(" ");
    reveal_strlit("B");
    reveal_strlit("D");
    reveal_strlit("H");
    reveal_strlit("MOV");
    reveal_strlit("PSW");
    reveal_strlit("SP");
    reveal_strlit("STAX");
    reveal_strlit("STAX ");
    reveal_strlit("STAX D");
    let m = "STAX"@;
    let w = "D"@;
    assert(shape(0x12u8)->Some_0.0 =~= (m + " "@) + w);
    lemma_word_text(m, w);
    assert(m != "MOV"@) by { if m == "MOV"@ { assert(m.len() == "MOV"@.len()); } }
    reveal(encode_args);
    assert(encode_args(m, seq![w]) == bd_encoding(seq!["D"@], 0x2));

}

#[verifier::rlimit(100)]
proof fn lemma_pair_1a()
    ensures
        shape(0x1au8) is Some && shape(0x1au8)->Some_0.1 == 0,
        encode_line(shape(0x1au8)->Some_0.0) == Ok::<Seq<u8>, Seq<char>>(seq![0x1au8]),
{
    reveal_strlit(" ");
    reveal_strlit("B");
    reveal_strlit("D");
    reveal_strlit("H");
    reveal_strlit("LDAX");
    reveal_strlit("LDAX ");
    reveal_strlit("MOV");
    reveal_strlit("PSW");
    reveal_strlit("SP");
    reveal_strlit("STAX");
    reveal_strlit("LDAX D");
    let m = "LDAX"@;
    let w = "D"@;
    assert(shape(0x1au8)->Some_0.0 =~= (m + " "@) + w);
    lemma_word_text(m, w);
    assert(m != "MOV"@) by { if m == "MOV"@ { assert(m.len() == "MOV"@.len()); } }
    assert(m != "STAX"@) by { if m == "STAX"@ { assert(m[0] == "STAX"@[0]); } }
    reveal(encode_args);
    assert(encode_args(m, seq![w]) == bd_encoding(seq!["D"@], 0xa));

}

/// Opcodes whose operand is a register pair.
pub open spec fn is_pair_opcode(op: u8) -> bool {
    op == 0x3 || op == 0xb || op == 0x9 || op == 0xc1 || op == 0xc5 || op == 0x13 || op == 0x1b || op == 0x19 || op == 0xd1 || op == 0xd5 || op == 0x23 || op == 0x2b || op == 0x29 || op == 0xe1 || op == 0xe5 || op == 0x33 || op == 0x3b || op == 0x39 || op == 0xf1 || op == 0xf5 || op == 0x2 || op == 0xa || op == 0x12 || op == 0x1a
}

/// The disassembler's text for an instruction on a register pair assembles
/// back to the same opcode.
#[verifier::rlimit(100)]
pub proof fn lemma_pair_round_trip(op: u8)
    requires
        is_pair_opcode(op),
    ensures
        match shape(op) {
            Some((t, n)) => n == 0 && encode_line(t) == Ok::<Seq<u8>, Seq<char>>(seq![op]),
            None => false,
        },
{
    if op == 0x3 {
        lemma_pair_03();
    } else if op == 0xb {
        lemma_pair_0b();
    } else if op == 0x9 {
        lemma_pair_09();
    } else if op == 0xc1 {
        lemma_pair_c1();
    } else if op == 0xc5 {
        lemma_pair_c5();
    } else if op == 0x13 {
        lemma_pair_13();
    } else if op == 0x1b {
        lemma_pair_1b();
    } else if op == 0x19 {
        lemma_pair_19();
    } else if op == 0xd1 {
        lemma_pair_d1();
    } else if op == 0xd5 {
        lemma_pair_d5();
    } else if op == 0x23 {
        lemma_pair_23();
    } else if op == 0x2b {
        lemma_pair_2b();
    } else if op == 0x29 {
        lemma_pair_29();
    } else if op == 0xe1 {
        lemma_pair_e1();
    } else if op == 0xe5 {
        lemma_pair_e5();
    } else if op == 0x33 {
        lemma_pair_33();
    } else if op == 0x3b {
        lemma_pair_3b();
    } else if op == 0x39 {
        lemma_pair_39();
    } else if op == 0xf1 {
        lemma_pair_f1();
    } else if op == 0xf5 {
        lemma_pair_f5();
    } else if op == 0x2 {
        lemma_pair_02();
    } else if op == 0xa {
        lemma_pair_0a();
    } else if op == 0x12 {
        lemma_pair_12();
    } else if op == 0x1a {
        lemma_pair_1a();
    }
}

/// Text of `LXI`, a pair name, a comma and a hex value splits into the pair and the value.
#[verifier::rlimit(100)]
proof fn lemma_lxi_text(w: Seq<char>, v: nat)
    requires
        1 <= w.len() <= 2,
        forall|k: int| 0 <= k < w.len() ==> 'A' <= #[trigger] w[k] <= 'Z',
        v < 0x10000,
    ensures
        encode_line((("LXI "@ + w) + ","@) + hex_text(v)) == encode_args("LXI"@, seq![w, hex_text(v)]),
{
    reveal_strlit("LXI ");
    reveal_strlit("LXI");
    reveal_strlit(",");
    lemma_hex_digits(v);
    let h = hex_text(v);
    let ds = hex_digits(v);
    assert(forall|k: int| 0 <= k < h.len() ==> #[trigger] h[k] != ',' && h[k] != ' ' && h[k] != '\t' && h[k] != '\r' && h[k] != '\n') by {
        assert forall|k: int| 0 <= k < h.len() implies #[trigger] h[k] != ',' && h[k] != ' ' && h[k] != '\t' && h[k] != '\r' && h[k] != '\n' by {
            if 'a' <= ds[0] {
                if k >= 1 && k < h.len() - 1 {
                    assert(h[k] == ds[k - 1]);
                }
            } else {
                if k < h.len() - 1 {
                    assert(h[k] == ds[k]);
                }
            }
        }
    }
    let t = (("LXI "@ + w) + ","@) + h;
    let wl = w.len() as int;
    assert(t[0] == 'L' && t[1] == 'X' && t[2] == 'I' && t[3] == ' ');
    assert(forall|k: int| 0 <= k < wl ==> t[4 + k] == w[k]);
    assert(t[4 + wl] == ',');
    reveal_with_fuel(spaces_end, 2);
    reveal_with_fuel(ident_end, 5);
    assert(spaces_end(t, 0) == 0);
    assert(ident_end(t, 0) == 3);
    assert(label_end(t) == 0);
    assert(t.subrange(0, t.len() as int) =~= t);
    reveal_with_fuel(first_non_ws, 2);
    assert(first_non_ws(t, 0) == 0);
    assert(trim_start(t) =~= t);
    reveal_with_fuel(find_from, 5);
    assert(find_from(t, ' ', 0) == 3);
    let suffix = t.subrange(4, t.len() as int);
    assert(suffix =~= (w + ","@) + h);
    assert(forall|k: int| 0 <= k < wl ==> suffix[k] == w[k]);
    assert(suffix[wl] == ',');
    assert(find_from(suffix, ',', 0) == wl);
    assert(forall|k: int| wl + 1 <= k < suffix.len() ==> suffix[k] == h[k - wl - 1]);
    lemma_no_char(suffix, ',', wl + 1);
    reveal_with_fuel(split_from, 3);
    assert(suffix.subrange(0, wl) =~= w);
    assert(suffix.subrange(wl + 1, suffix.len() as int) =~= h);
    assert(split(suffix, ',') =~= seq![w, h]);
    reveal_with_fuel(last_non_ws, 3);
    assert(first_non_ws(w, 0) == 0);
    assert(last_non_ws(w, 0, wl) == wl);
    assert(trim(w) =~= w);
    assert(h[h.len() - 1] == 'H');
    assert(first_non_ws(h, 0) == 0);
    assert(last_non_ws(h, 0, h.len() as int) == h.len());
    assert(trim(h) =~= h);
    assert(fields(suffix) =~= seq![w, h]);
    assert(t.subrange(0, 3) =~= "LXI"@);
    reveal(encode_line);
}

#[verifier::rlimit(100)]
proof fn lemma_lxi_01(v: u16)
    ensures
        shape(0x1u8) is Some && shape(0x1u8)->Some_0.1 == 2,
        encode_line(shape(0x1u8)->Some_0.0 + hex_text(v as nat)) == Ok::<Seq<u8>, Seq<char>>(addr_bytes(0x1u8, v)),
{
    reveal_strlit(",");
    reveal_strlit("ADC");
    reveal_strlit("ADD");
    reveal_strlit("ANA");
    reveal_strlit("B");
    reveal_strlit("CMP");
    reveal_strlit("D");
    reveal_strlit("DAD");
    reveal_strlit("DCR");
    reveal_strlit("DCX");
    reveal_strlit("H");
    reveal_strlit("INR");
    reveal_strlit("INX");
    reveal_strlit("LDAX");
    reveal_strlit("LXI");
    reveal_strlit("LXI ");
    reveal_strlit("MOV");
    reveal_strlit("ORA");
    reveal_strlit("POP");
    reveal_strlit("PUSH");
    reveal_strlit("SBB");
    reveal_strlit("SP");
    reveal_strlit("STAX");
    reveal_strlit("SUB");
    reveal_strlit("XRA");
    let m = "LXI"@;
    let w = "B"@;
    assert(shape(0x1u8)->Some_0.0 =~= ("LXI "@ + w) + ","@);
    lemma_lxi_text(w, v as nat);
    lemma_hex_value(v as nat);
    assert(low16(v as i32) == v);
    assert(m != "MOV"@) by { if m == "MOV"@ { assert(m[0] == "MOV"@[0]); } }
    assert(m != "STAX"@) by { if m == "STAX"@ { assert(m.len() == "STAX"@.len()); } }
    assert(m != "LDAX"@) by { if m == "LDAX"@ { assert(m.len() == "LDAX"@.len()); } }
    assert(m != "INR"@) by { if m == "INR"@ { assert(m[0] == "INR"@[0]); } }
    assert(m != "DCR"@) by { if m == "DCR"@ { assert(m[0] == "DCR"@[0]); } }
    assert(m != "ADD"@) by { if m == "ADD"@ { assert(m[0] == "ADD"@[0]); } }
    assert(m != "ADC"@) by { if m == "ADC"@ { assert(m[0] == "ADC"@[0]); } }
    assert(m != "SUB"@) by { if m == "SUB"@ { assert(m[0] == "SUB"@[0]); } }
    assert(m != "SBB"@) by { if m == "SBB"@ { assert(m[0] == "SBB"@[0]); } }
    assert(m != "ANA"@) by { if m == "ANA"@ { assert(m[0] == "ANA"@[0]); } }
    assert(m != "XRA"@) by { if m == "XRA"@ { assert(m[0] == "XRA"@[0]); } }
    assert(m != "ORA"@) by { if m == "ORA"@ { assert(m[0] == "ORA"@[0]); } }
    assert(m != "CMP"@) by { if m == "CMP"@ { assert(m[0] == "CMP"@[0]); } }
    assert(m != "INX"@) by { if m == "INX"@ { assert(m[0] == "INX"@[0]); } }
    assert(m != "DAD"@) by { if m == "DAD"@ { assert(m[0] == "DAD"@[0]); } }
    assert(m != "DCX"@) by { if m == "DCX"@ { assert(m[0] == "DCX"@[0]); } }
    assert(m != "POP"@) by { if m == "POP"@ { assert(m[0] == "POP"@[0]); } }
    assert(m != "PUSH"@) by { if m == "PUSH"@ { assert(m.len() == "PUSH"@.len()); } }
    reveal(encode_args);
    assert(encode_args(m, seq![w, hex_text(v as nat)]) == lxi_encoding(seq![w, hex_text(v as nat)]));
    assert(pair_index(w, "SP"@) == Some(0u8));
}

#[verifier::rlimit(100)]
proof fn lemma_lxi_11(v: u16)
    ensures
        shape(0x11u8) is Some && shape(0x11u8)->Some_0.1 == 2,
        encode_line(shape(0x11u8)->Some_0.0 + hex_text(v as nat)) == Ok::<Seq<u8>, Seq<char>>(addr_bytes(0x11u8, v)),
{
    reveal_strlit(",");
    reveal_strlit("ADC");
    reveal_strlit("ADD");
    reveal_strlit("ANA");
    reveal_strlit("B");
    reveal_strlit("CMP");
    reveal_strlit("D");
    reveal_strlit("DAD");
    reveal_strlit("DCR");
    reveal_strlit("DCX");
    reveal_strlit("H");
    reveal_strlit("INR");
    reveal_strlit("INX");
    reveal_strlit("LDAX");
    reveal_strlit("LXI");
    reveal_strlit("LXI ");
    reveal_strlit("MOV");
    reveal_strlit("ORA");
    reveal_strlit("POP");
    reveal_strlit("PUSH");
    reveal_strlit("SBB");
    reveal_strlit("SP");
    reveal_strlit("STAX");
    reveal_strlit("SUB");
    reveal_strlit("XRA");
    let m = "LXI"@;
    let w = "D"@;
    assert(shape(0x11u8)->Some_0.0 =~= ("LXI "@ + w) + ","@);
    lemma_lxi_text(w, v as nat);
    lemma_hex_value(v as nat);
    assert(low16(v as i32) == v);
    assert(m != "MOV"@) by { if m == "MOV"@ { assert(m[0] == "MOV"@[0]); } }
    assert(m != "STAX"@) by { if m == "STAX"@ { assert(m.len() == "STAX"@.len()); } }
    assert(m != "LDAX"@) by { if m == "LDAX"@ { assert(m.len() == "LDAX"@.len()); } }
    assert(m != "INR"@) by { if m == "INR"@ { assert(m[0] == "INR"@[0]); } }
    assert(m != "DCR"@) by { if m == "DCR"@ { assert(m[0] == "DCR"@[0]); } }
    assert(m != "ADD"@) by { if m == "ADD"@ { assert(m[0] == "ADD"@[0]); } }
    assert(m != "ADC"@) by { if m == "ADC"@ { assert(m[0] == "ADC"@[0]); } }
    assert(m != "SUB"@) by { if m == "SUB"@ { assert(m[0] == "SUB"@[0]); } }
    assert(m != "SBB"@) by { if m == "SBB"@ { assert(m[0] == "SBB"@[0]); } }
    assert(m != "ANA"@) by { if m == "ANA"@ { assert(m[0] == "ANA"@[0]); } }
    assert(m != "XRA"@) by { if m == "XRA"@ { assert(m[0] == "XRA"@[0]); } }
    assert(m != "ORA"@) by { if m == "ORA"@ { assert(m[0] == "ORA"@[0]); } }
    assert(m != "CMP"@) by { if m == "CMP"@ { assert(m[0] == "CMP"@[0]); } }
    assert(m != "INX"@) by { if m == "INX"@ { assert(m[0] == "INX"@[0]); } }
    assert(m != "DAD"@) by { if m == "DAD"@ { assert(m[0] == "DAD"@[0]); } }
    assert(m != "DCX"@) by { if m == "DCX"@ { assert(m[0] == "DCX"@[0]); } }
    assert(m != "POP"@) by { if m == "POP"@ { assert(m[0] == "POP"@[0]); } }
    assert(m != "PUSH"@) by { if m == "PUSH"@ { assert(m.len() == "PUSH"@.len()); } }
    reveal(encode_args);
    assert(encode_args(m, seq![w, hex_text(v as nat)]) == lxi_encoding(seq![w, hex_text(v as nat)]));
    assert(pair_index(w, "SP"@) == Some(1u8));
}

#[verifier::rlimit(100)]
proof fn lemma_lxi_21(v: u16)
    ensures
        shape(0x21u8) is Some && shape(0x21u8)->Some_0.1 == 2,
        encode_line(shape(0x21u8)->Some_0.0 + hex_text(v as nat)) == Ok::<Seq<u8>, Seq<char>>(addr_bytes(0x21u8, v)),
{
    reveal_strlit(",");
    reveal_strlit("ADC");
    reveal_strlit("ADD");
    reveal_strlit("ANA");
    reveal_strlit("B");
    reveal_strlit("CMP");
    reveal_strlit("D");
    reveal_strlit("DAD");
    reveal_strlit("DCR");
    reveal_strlit("DCX");
    reveal_strlit("H");
    reveal_strlit("INR");
    reveal_strlit("INX");
    reveal_strlit("LDAX");
    reveal_strlit("LXI");
    reveal_strlit("LXI ");
    reveal_strlit("MOV");
    reveal_strlit("ORA");
    reveal_strlit("POP");
    reveal_strlit("PUSH");
    reveal_strlit("SBB");
    reveal_strlit("SP");
    reveal_strlit("STAX");
    reveal_strlit("SUB");
    reveal_strlit("XRA");
    let m = "LXI"@;
    let w = "H"@;
    assert(shape(0x21u8)->Some_0.0 =~= ("LXI "@ + w) + ","@);
    lemma_lxi_text(w, v as nat);
    lemma_hex_value(v as nat);
    assert(low16(v as i32) == v);
    assert(m != "MOV"@) by { if m == "MOV"@ { assert(m[0] == "MOV"@[0]); } }
    assert(m != "STAX"@) by { if m == "STAX"@ { assert(m.len() == "STAX"@.len()); } }
    assert(m != "LDAX"@) by { if m == "LDAX"@ { assert(m.len() == "LDAX"@.len()); } }
    assert(m != "INR"@) by { if m == "INR"@ { assert(m[0] == "INR"@[0]); } }
    assert(m != "DCR"@) by { if m == "DCR"@ { assert(m[0] == "DCR"@[0]); } }
    assert(m != "ADD"@) by { if m == "ADD"@ { assert(m[0] == "ADD"@[0]); } }
    assert(m != "ADC"@) by { if m == "ADC"@ { assert(m[0] == "ADC"@[0]); } }
    assert(m != "SUB"@) by { if m == "SUB"@ { assert(m[0] == "SUB"@[0]); } }
    assert(m != "SBB"@) by { if m == "SBB"@ { assert(m[0] == "SBB"@[0]); } }
    assert(m != "ANA"@) by { if m == "ANA"@ { assert(m[0] == "ANA"@[0]); } }
    assert(m != "XRA"@) by { if m == "XRA"@ { assert(m[0] == "XRA"@[0]); } }
    assert(m != "ORA"@) by { if m == "ORA"@ { assert(m[0] == "ORA"@[0]); } }
    assert(m != "CMP"@) by { if m == "CMP"@ { assert(m[0] == "CMP"@[0]); } }
    assert(m != "INX"@) by { if m == "INX"@ { assert(m[0] == "INX"@[0]); } }
    assert(m != "DAD"@) by { if m == "DAD"@ { assert(m[0] == "DAD"@[0]); } }
    assert(m != "DCX"@) by { if m == "DCX"@ { assert(m[0] == "DCX"@[0]); } }
    assert(m != "POP"@) by { if m == "POP"@ { assert(m[0] == "POP"@[0]); } }
    assert(m != "PUSH"@) by { if m == "PUSH"@ { assert(m.len() == "PUSH"@.len()); } }
    reveal(encode_args);
    assert(encode_args(m, seq![w, hex_text(v as nat)]) == lxi_encoding(seq![w, hex_text(v as nat)]));
    assert(pair_index(w, "SP"@) == Some(2u8));
}

#[verifier::rlimit(100)]
proof fn lemma_lxi_31(v: u16)
    ensures
        shape(0x31u8) is Some && shape(0x31u8)->Some_0.1 == 2,
        encode_line(shape(0x31u8)->Some_0.0 + hex_text(v as nat)) == Ok::<Seq<u8>, Seq<char>>(addr_bytes(0x31u8, v)),
{
    reveal_strlit(",");
    reveal_strlit("ADC");
    reveal_strlit("ADD");
    reveal_strlit("ANA");
    reveal_strlit("B");
    reveal_strlit("CMP");
    reveal_strlit("D");
    reveal_strlit("DAD");
    reveal_strlit("DCR");
    reveal_strlit("DCX");
    reveal_strlit("H");
    reveal_strlit("INR");
    reveal_strlit("INX");
    reveal_strlit("LDAX");
    reveal_strlit("LXI");
    reveal_strlit("LXI ");
    reveal_strlit("MOV");
    reveal_strlit("ORA");
    reveal_strlit("POP");
    reveal_strlit("PUSH");
    reveal_strlit("SBB");
    reveal_strlit("SP");
    reveal_strlit("STAX");
    reveal_strlit("SUB");
    reveal_strlit("XRA");
    let m = "LXI"@;
    let w = "SP"@;
    assert(shape(0x31u8)->Some_0.0 =~= ("LXI "@ + w) + ","@);
    lemma_lxi_text(w, v as nat);
    lemma_hex_value(v as nat);
    assert(low16(v as i32) == v);
    assert(m != "MOV"@) by { if m == "MOV"@ { assert(m[0] == "MOV"@[0]); } }
    assert(m != "STAX"@) by { if m == "STAX"@ { assert(m.len() == "STAX"@.len()); } }
    assert(m != "LDAX"@) by { if m == "LDAX"@ { assert(m.len() == "LDAX"@.len()); } }
    assert(m != "INR"@) by { if m == "INR"@ { assert(m[0] == "INR"@[0]); } }
    assert(m != "DCR"@) by { if m == "DCR"@ { assert(m[0] == "DCR"@[0]); } }
    assert(m != "ADD"@) by { if m == "ADD"@ { assert(m[0] == "ADD"@[0]); } }
    assert(m != "ADC"@) by { if m == "ADC"@ { assert(m[0] == "ADC"@[0]); } }
    assert(m != "SUB"@) by { if m == "SUB"@ { assert(m[0] == "SUB"@[0]); } }
    assert(m != "SBB"@) by { if m == "SBB"@ { assert(m[0] == "SBB"@[0]); } }
    assert(m != "ANA"@) by { if m == "ANA"@ { assert(m[0] == "ANA"@[0]); } }
    assert(m != "XRA"@) by { if m == "XRA"@ { assert(m[0] == "XRA"@[0]); } }
    assert(m != "ORA"@) by { if m == "ORA"@ { assert(m[0] == "ORA"@[0]); } }
    assert(m != "CMP"@) by { if m == "CMP"@ { assert(m[0] == "CMP"@[0]); } }
    assert(m != "INX"@) by { if m == "INX"@ { assert(m[0] == "INX"@[0]); } }
    assert(m != "DAD"@) by { if m == "DAD"@ { assert(m[0] == "DAD"@[0]); } }
    assert(m != "DCX"@) by { if m == "DCX"@ { assert(m[0] == "DCX"@[0]); } }
    assert(m != "POP"@) by { if m == "POP"@ { assert(m[0] == "POP"@[0]); } }
    assert(m != "PUSH"@) by { if m == "PUSH"@ { assert(m.len() == "PUSH"@.len()); } }
    reveal(encode_args);
    assert(encode_args(m, seq![w, hex_text(v as nat)]) == lxi_encoding(seq![w, hex_text(v as nat)]));
    assert(pair_index(w, "SP"@) == Some(3u8));
}

/// The disassembler's text for LXI with any value assembles back to the same bytes.
#[verifier::rlimit(100)]
pub proof fn lemma_lxi_round_trip(op: u8, v: u16)
    requires
        op < 0x40,
        op % 16 == 1,
    ensures
        match shape(op) {
            Some((p, n)) => n == 2 && encode_line(p + hex_text(v as nat)) == Ok::<Seq<u8>, Seq<char>>(seq![op, (v % 256) as u8, (v / 256) as u8]),
            None => false,
        },
{
    if op == 0x01 {
        lemma_lxi_01(v);
    } else if op == 0x11 {
        lemma_lxi_11(v);
    } else if op == 0x21 {
        lemma_lxi_21(v);
    } else {
        lemma_lxi_31(v);
    }
}

/// The evaluator reads a single decimal digit as its value.
#[verifier::rlimit(100)]
proof fn lemma_digit_value(d: int)
    requires
        0 <= d < 8,
    ensures
        expr_value(seq![('0' as int + d) as char]) == Some(d as i32),
{
    let c = ('0' as int + d) as char;
    let s = seq![c];
    assert(is_hex_digit(c) && digit_val(c) == d);
    reveal_with_fuel(hex_run_end, 3);
    assert(hex_run_end(s, 0) == 1);
    assert(s.subrange(0, 1) =~= s);
    assert(s.drop_last() =~= Seq::<char>::empty());
    assert(digits_value(Seq::<char>::empty(), 10) == 0);
    assert(digits_value(s, 10) == digits_value(s.drop_last(), 10) * 10 + digit_val(s.last()));
    assert(digits_value(s, 10) == d);
    assert(parse_digits(s, 10) == Some(d as i32));
    assert(lex_number(s, 0) == Some((d as i32, 1int)));
    reveal_strlit("XOR");
    reveal_strlit("AND");
    reveal_strlit("OR");
    reveal_strlit("SHL");
    reveal_strlit("SHR");
    reveal_strlit("MOD");
    reveal_strlit("NOT");
    assert(!at(s, 0, "XOR"@));
    assert(!at(s, 0, "AND"@));
    assert(!at(s, 0, "OR"@));
    assert(!at(s, 0, "SHL"@));
    assert(!at(s, 0, "SHR"@));
    assert(!at(s, 0, "MOD"@));
    assert(!at(s, 0, "NOT"@));
    assert(lex_keyword(s, 0) is None);
    assert(lex_one(s, 0, None) == Ok::<(Token, int), Seq<char>>((Token::Number(d as i32), 1int)));
    assert(lex(s, 1, Some(Token::Number(d as i32))) == Ok::<Seq<Token>, Seq<char>>(Seq::empty()));
    assert(seq![Token::Number(d as i32)] + Seq::<Token>::empty() =~= seq![Token::Number(d as i32)]);
    let ts = seq![Token::Number(d as i32)];
    assert(lex(s, 0, None) == Ok::<Seq<Token>, Seq<char>>(ts));
    assert(ts.drop_last() =~= Seq::<Token>::empty());
    assert(ts.last() == Token::Number(d as i32));
    assert(run(Seq::<Token>::empty()) == Ok::<(Seq<Token>, Seq<i32>), Seq<char>>((Seq::empty(), Seq::empty())));
    assert(run(ts) == feed((Seq::empty(), Seq::empty()), Token::Number(d as i32)));
    assert(eval_spec(ts) == Ok::<i32, Seq<char>>(d as i32));
}

#[verifier::rlimit(100)]
proof fn lemma_rst_c7()
    ensures
        shape(0xc7u8) is Some && shape(0xc7u8)->Some_0.1 == 0,
        encode_line(shape(0xc7u8)->Some_0.0) == Ok::<Seq<u8>, Seq<char>>(seq![0xc7u8]),
{
    reveal_strlit("0");
    reveal_strlit("ADC");
    reveal_strlit("ADD");
    reveal_strlit("ANA");
    reveal_strlit("CMP");
    reveal_strlit("DAD");
    reveal_strlit("DCR");
    reveal_strlit("DCX");
    reveal_strlit("INR");
    reveal_strlit("INX");
    reveal_strlit("LDAX");
    reveal_strlit("LXI");
    reveal_strlit("MOV");
    reveal_strlit("MVI");
    reveal_strlit("ORA");
    reveal_strlit("POP");
    reveal_strlit("PUSH");
    reveal_strlit("RST");
    reveal_strlit("RST ");
    reveal_strlit("SBB");
    reveal_strlit("STAX");
    reveal_strlit("SUB");
    reveal_strlit("XRA");
    reveal_strlit(" ");
    let m = "RST"@;
    let w = "0"@;
    assert(w =~= seq![('0' as int + 0) as char]);
    assert(shape(0xc7u8)->Some_0.0 =~= (m + " "@) + w);
    lemma_word_text(m, w);
    lemma_digit_value(0);
    assert(m != "MOV"@) by { if m == "MOV"@ { assert(m[0] == "MOV"@[0]); } }
    assert(m != "STAX"@) by { if m == "STAX"@ { assert(m.len() == "STAX"@.len()); } }
    assert(m != "LDAX"@) by { if m == "LDAX"@ { assert(m.len() == "LDAX"@.len()); } }
    assert(m != "INR"@) by { if m == "INR"@ { assert(m[0] == "INR"@[0]); } }
    assert(m != "DCR"@) by { if m == "DCR"@ { assert(m[0] == "DCR"@[0]); } }
    assert(m != "ADD"@) by { if m == "ADD"@ { assert(m[0] == "ADD"@[0]); } }
    assert(m != "ADC"@) by { if m == "ADC"@ { assert(m[0] == "ADC"@[0]); } }
    assert(m != "SUB"@) by { if m == "SUB"@ { assert(m[0] == "SUB"@[0]); } }
    assert(m != "SBB"@) by { if m == "SBB"@ { assert(m[0] == "SBB"@[0]); } }
    assert(m != "ANA"@) by { if m == "ANA"@ { assert(m[0] == "ANA"@[0]); } }
    assert(m != "XRA"@) by { if m == "XRA"@ { assert(m[0] == "XRA"@[0]); } }
    assert(m != "ORA"@) by { if m == "ORA"@ { assert(m[0] == "ORA"@[0]); } }
    assert(m != "CMP"@) by { if m == "CMP"@ { assert(m[0] == "CMP"@[0]); } }
    assert(m != "INX"@) by { if m == "INX"@ { assert(m[0] == "INX"@[0]); } }
    assert(m != "DAD"@) by { if m == "DAD"@ { assert(m[0] == "DAD"@[0]); } }
    assert(m != "DCX"@) by { if m == "DCX"@ { assert(m[0] == "DCX"@[0]); } }
    assert(m != "POP"@) by { if m == "POP"@ { assert(m[0] == "POP"@[0]); } }
    assert(m != "PUSH"@) by { if m == "PUSH"@ { assert(m.len() == "PUSH"@.len()); } }
    assert(m != "LXI"@) by { if m == "LXI"@ { assert(m[0] == "LXI"@[0]); } }
    assert(m != "MVI"@) by { if m == "MVI"@ { assert(m[0] == "MVI"@[0]); } }
    reveal(encode_args);
    assert(encode_args(m, seq![w]) == rst_encoding(seq![w]));
}

#[verifier::rlimit(100)]
proof fn lemma_rst_cf()
    ensures
        shape(0xcfu8) is Some && shape(0xcfu8)->Some_0.1 == 0,
        encode_line(shape(0xcfu8)->Some_0.0) == Ok::<Seq<u8>, Seq<char>>(seq![0xcfu8]),
{
    reveal_strlit("1");
    reveal_strlit("ADC");
    reveal_strlit("ADD");
    reveal_strlit("ANA");
    reveal_strlit("CMP");
    reveal_strlit("DAD");
    reveal_strlit("DCR");
    reveal_strlit("DCX");
    reveal_strlit("INR");
    reveal_strlit("INX");
    reveal_strlit("LDAX");
    reveal_strlit("LXI");
    reveal_strlit("MOV");
    reveal_strlit("MVI");
    reveal_strlit("ORA");
    reveal_strlit("POP");
    reveal_strlit("PUSH");
    reveal_strlit("RST");
    reveal_strlit("RST ");
    reveal_strlit("SBB");
    reveal_strlit("STAX");
    reveal_strlit("SUB");
    reveal_strlit("XRA");
    reveal_strlit(" ");
    let m = "RST"@;
    let w = "1"@;
    assert(w =~= seq![('0' as int + 1) as char]);
    assert(shape(0xcfu8)->Some_0.0 =~= (m + " "@) + w);
    lemma_word_text(m, w);
    lemma_digit_value(1);
    assert(m != "MOV"@) by { if m == "MOV"@ { assert(m[0] == "MOV"@[0]); } }
    assert(m != "STAX"@) by { if m == "STAX"@ { assert(m.len() == "STAX"@.len()); } }
    assert(m != "LDAX"@) by { if m == "LDAX"@ { assert(m.len() == "LDAX"@.len()); } }
    assert(m != "INR"@) by { if m == "INR"@ { assert(m[0] == "INR"@[0]); } }
    assert(m != "DCR"@) by { if m == "DCR"@ { assert(m[0] == "DCR"@[0]); } }
    assert(m != "ADD"@) by { if m == "ADD"@ { assert(m[0] == "ADD"@[0]); } }
    assert(m != "ADC"@) by { if m == "ADC"@ { assert(m[0] == "ADC"@[0]); } }
    assert(m != "SUB"@) by { if m == "SUB"@ { assert(m[0] == "SUB"@[0]); } }
    assert(m != "SBB"@) by { if m == "SBB"@ { assert(m[0] == "SBB"@[0]); } }
    assert(m != "ANA"@) by { if m == "ANA"@ { assert(m[0] == "ANA"@[0]); } }
    assert(m != "XRA"@) by { if m == "XRA"@ { assert(m[0] == "XRA"@[0]); } }
    assert(m != "ORA"@) by { if m == "ORA"@ { assert(m[0] == "ORA"@[0]); } }
    assert(m != "CMP"@) by { if m == "CMP"@ { assert(m[0] == "CMP"@[0]); } }
    assert(m != "INX"@) by { if m == "INX"@ { assert(m[0] == "INX"@[0]); } }
    assert(m != "DAD"@) by { if m == "DAD"@ { assert(m[0] == "DAD"@[0]); } }
    assert(m != "DCX"@) by { if m == "DCX"@ { assert(m[0] == "DCX"@[0]); } }
    assert(m != "POP"@) by { if m == "POP"@ { assert(m[0] == "POP"@[0]); } }
    assert(m != "PUSH"@) by { if m == "PUSH"@ { assert(m.len() == "PUSH"@.len()); } }
    assert(m != "LXI"@) by { if m == "LXI"@ { assert(m[0] == "LXI"@[0]); } }
    assert(m != "MVI"@) by { if m == "MVI"@ { assert(m[0] == "MVI"@[0]); } }
    reveal(encode_args);
    assert(encode_args(m, seq![w]) == rst_encoding(seq![w]));
}

#[verifier::rlimit(100)]
proof fn lemma_rst_d7()
    ensures
        shape(0xd7u8) is Some && shape(0xd7u8)->Some_0.1 == 0,
        encode_line(shape(0xd7u8)->Some_0.0) == Ok::<Seq<u8>, Seq<char>>(seq![0xd7u8]),
{
    reveal_strlit("2");
    reveal_strlit("ADC");
    reveal_strlit("ADD");
    reveal_strlit("ANA");
    reveal_strlit("CMP");
    reveal_strlit("DAD");
    reveal_strlit("DCR");
    reveal_strlit("DCX");
    reveal_strlit("INR");
    reveal_strlit("INX");
    reveal_strlit("LDAX");
    reveal_strlit("LXI");
    reveal_strlit("MOV");
    reveal_strlit("MVI");
    reveal_strlit("ORA");
    reveal_strlit("POP");
    reveal_strlit("PUSH");
    reveal_strlit("RST");
    reveal_strlit("RST ");
    reveal_strlit("SBB");
    reveal_strlit("STAX");
    reveal_strlit("SUB");
    reveal_strlit("XRA");
    reveal_strlit(" ");
    let m = "RST"@;
    let w = "2"@;
    assert(w =~= seq![('0' as int + 2) as char]);
    assert(shape(0xd7u8)->Some_0.0 =~= (m + " "@) + w);
    lemma_word_text(m, w);
    lemma_digit_value(2);
    assert(m != "MOV"@) by { if m == "MOV"@ { assert(m[0] == "MOV"@[0]); } }
    assert(m != "STAX"@) by { if m == "STAX"@ { assert(m.len() == "STAX"@.len()); } }
    assert(m != "LDAX"@) by { if m == "LDAX"@ { assert(m.len() == "LDAX"@.len()); } }
    assert(m != "INR"@) by { if m == "INR"@ { assert(m[0] == "INR"@[0]); } }
    assert(m != "DCR"@) by { if m == "DCR"@ { assert(m[0] == "DCR"@[0]); } }
    assert(m != "ADD"@) by { if m == "ADD"@ { assert(m[0] == "ADD"@[0]); } }
    assert(m != "ADC"@) by { if m == "ADC"@ { assert(m[0] == "ADC"@[0]); } }
    assert(m != "SUB"@) by { if m == "SUB"@ { assert(m[0] == "SUB"@[0]); } }
    assert(m != "SBB"@) by { if m == "SBB"@ { assert(m[0] == "SBB"@[0]); } }
    assert(m != "ANA"@) by { if m == "ANA"@ { assert(m[0] == "ANA"@[0]); } }
    assert(m != "XRA"@) by { if m == "XRA"@ { assert(m[0] == "XRA"@[0]); } }
    assert(m != "ORA"@) by { if m == "ORA"@ { assert(m[0] == "ORA"@[0]); } }
    assert(m != "CMP"@) by { if m == "CMP"@ { assert(m[0] == "CMP"@[0]); } }
    assert(m != "INX"@) by { if m == "INX"@ { assert(m[0] == "INX"@[0]); } }
    assert(m != "DAD"@) by { if m == "DAD"@ { assert(m[0] == "DAD"@[0]); } }
    assert(m != "DCX"@) by { if m == "DCX"@ { assert(m[0] == "DCX"@[0]); } }
    assert(m != "POP"@) by { if m == "POP"@ { assert(m[0] == "POP"@[0]); } }
    assert(m != "PUSH"@) by { if m == "PUSH"@ { assert(m.len() == "PUSH"@.len()); } }
    assert(m != "LXI"@) by { if m == "LXI"@ { assert(m[0] == "LXI"@[0]); } }
    assert(m != "MVI"@) by { if m == "MVI"@ { assert(m[0] == "MVI"@[0]); } }
    reveal(encode_args);
    assert(encode_args(m, seq![w]) == rst_encoding(seq![w]));
}

#[verifier::rlimit(100)]
proof fn lemma_rst_df()
    ensures
        shape(0xdfu8) is Some && shape(0xdfu8)->Some_0.1 == 0,
        encode_line(shape(0xdfu8)->Some_0.0) == Ok::<Seq<u8>, Seq<char>>(seq![0xdfu8]),
{
    reveal_strlit("3");
    reveal_strlit("ADC");
    reveal_strlit("ADD");
    reveal_strlit("ANA");
    reveal_strlit("CMP");
    reveal_strlit("DAD");
    reveal_strlit("DCR");
    reveal_strlit("DCX");
    reveal_strlit("INR");
    reveal_strlit("INX");
    reveal_strlit("LDAX");
    reveal_strlit("LXI");
    reveal_strlit("MOV");
    reveal_strlit("MVI");
    reveal_strlit("ORA");
    reveal_strlit("POP");
    reveal_strlit("PUSH");
    reveal_strlit("RST");
    reveal_strlit("RST ");
    reveal_strlit("SBB");
    reveal_strlit("STAX");
    reveal_strlit("SUB");
    reveal_strlit("XRA");
    reveal_strlit(" ");
    let m = "RST"@;
    let w = "3"@;
    assert(w =~= seq![('0' as int + 3) as char]);
    assert(shape(0xdfu8)->Some_0.0 =~= (m + " "@) + w);
    lemma_word_text(m, w);
    lemma_digit_value(3);
    assert(m != "MOV"@) by { if m == "MOV"@ { assert(m[0] == "MOV"@[0]); } }
    assert(m != "STAX"@) by { if m == "STAX"@ { assert(m.len() == "STAX"@.len()); } }
    assert(m != "LDAX"@) by { if m == "LDAX"@ { assert(m.len() == "LDAX"@.len()); } }
    assert(m != "INR"@) by { if m == "INR"@ { assert(m[0] == "INR"@[0]); } }
    assert(m != "DCR"@) by { if m == "DCR"@ { assert(m[0] == "DCR"@[0]); } }
    assert(m != "ADD"@) by { if m == "ADD"@ { assert(m[0] == "ADD"@[0]); } }
    assert(m != "ADC"@) by { if m == "ADC"@ { assert(m[0] == "ADC"@[0]); } }
    assert(m != "SUB"@) by { if m == "SUB"@ { assert(m[0] == "SUB"@[0]); } }
    assert(m != "SBB"@) by { if m == "SBB"@ { assert(m[0] == "SBB"@[0]); } }
    assert(m != "ANA"@) by { if m == "ANA"@ { assert(m[0] == "ANA"@[0]); } }
    assert(m != "XRA"@) by { if m == "XRA"@ { assert(m[0] == "XRA"@[0]); } }
    assert(m != "ORA"@) by { if m == "ORA"@ { assert(m[0] == "ORA"@[0]); } }
    assert(m != "CMP"@) by { if m == "CMP"@ { assert(m[0] == "CMP"@[0]); } }
    assert(m != "INX"@) by { if m == "INX"@ { assert(m[0] == "INX"@[0]); } }
    assert(m != "DAD"@) by { if m == "DAD"@ { assert(m[0] == "DAD"@[0]); } }
    assert(m != "DCX"@) by { if m == "DCX"@ { assert(m[0] == "DCX"@[0]); } }
    assert(m != "POP"@) by { if m == "POP"@ { assert(m[0] == "POP"@[0]); } }
    assert(m != "PUSH"@) by { if m == "PUSH"@ { assert(m.len() == "PUSH"@.len()); } }
    assert(m != "LXI"@) by { if m == "LXI"@ { assert(m[0] == "LXI"@[0]); } }
    assert(m != "MVI"@) by { if m == "MVI"@ { assert(m[0] == "MVI"@[0]); } }
    reveal(encode_args);
    assert(encode_args(m, seq![w]) == rst_encoding(seq![w]));
}

#[verifier::rlimit(100)]
proof fn lemma_rst_e7()
    ensures
        shape(0xe7u8) is Some && shape(0xe7u8)->Some_0.1 == 0,
        encode_line(shape(0xe7u8)->Some_0.0) == Ok::<Seq<u8>, Seq<char>>(seq![0xe7u8]),
{
    reveal_strlit("4");
    reveal_strlit("ADC");
    reveal_strlit("ADD");
    reveal_strlit("ANA");
    reveal_strlit("CMP");
    reveal_strlit("DAD");
    reveal_strlit("DCR");
    reveal_strlit("DCX");
    reveal_strlit("INR");
    reveal_strlit("INX");
    reveal_strlit("LDAX");
    reveal_strlit("LXI");
    reveal_strlit("MOV");
    reveal_strlit("MVI");
    reveal_strlit("ORA");
    reveal_strlit("POP");
    reveal_strlit("PUSH");
    reveal_strlit("RST");
    reveal_strlit("RST ");
    reveal_strlit("SBB");
    reveal_strlit("STAX");
    reveal_strlit("SUB");
    reveal_strlit("XRA");
    reveal_strlit(" ");
    let m = "RST"@;
    let w = "4"@;
    assert(w =~= seq![('0' as int + 4) as char]);
    assert(shape(0xe7u8)->Some_0.0 =~= (m + " "@) + w);
    lemma_word_text(m, w);
    lemma_digit_value(4);
    assert(m != "MOV"@) by { if m == "MOV"@ { assert(m[0] == "MOV"@[0]); } }
    assert(m != "STAX"@) by { if m == "STAX"@ { assert(m.len() == "STAX"@.len()); } }
    assert(m != "LDAX"@) by { if m == "LDAX"@ { assert(m.len() == "LDAX"@.len()); } }
    assert(m != "INR"@) by { if m == "INR"@ { assert(m[0] == "INR"@[0]); } }
    assert(m != "DCR"@) by { if m == "DCR"@ { assert(m[0] == "DCR"@[0]); } }
    assert(m != "ADD"@) by { if m == "ADD"@ { assert(m[0] == "ADD"@[0]); } }
    assert(m != "ADC"@) by { if m == "ADC"@ { assert(m[0] == "ADC"@[0]); } }
    assert(m != "SUB"@) by { if m == "SUB"@ { assert(m[0] == "SUB"@[0]); } }
    assert(m != "SBB"@) by { if m == "SBB"@ { assert(m[0] == "SBB"@[0]); } }
    assert(m != "ANA"@) by { if m == "ANA"@ { assert(m[0] == "ANA"@[0]); } }
    assert(m != "XRA"@) by { if m == "XRA"@ { assert(m[0] == "XRA"@[0]); } }
    assert(m != "ORA"@) by { if m == "ORA"@ { assert(m[0] == "ORA"@[0]); } }
    assert(m != "CMP"@) by { if m == "CMP"@ { assert(m[0] == "CMP"@[0]); } }
    assert(m != "INX"@) by { if m == "INX"@ { assert(m[0] == "INX"@[0]); } }
    assert(m != "DAD"@) by { if m == "DAD"@ { assert(m[0] == "DAD"@[0]); } }
    assert(m != "DCX"@) by { if m == "DCX"@ { assert(m[0] == "DCX"@[0]); } }
    assert(m != "POP"@) by { if m == "POP"@ { assert(m[0] == "POP"@[0]); } }
    assert(m != "PUSH"@) by { if m == "PUSH"@ { assert(m.len() == "PUSH"@.len()); } }
    assert(m != "LXI"@) by { if m == "LXI"@ { assert(m[0] == "LXI"@[0]); } }
    assert(m != "MVI"@) by { if m == "MVI"@ { assert(m[0] == "MVI"@[0]); } }
    reveal(encode_args);
    assert(encode_args(m, seq![w]) == rst_encoding(seq![w]));
}

#[verifier::rlimit(100)]
proof fn lemma_rst_ef()
    ensures
        shape(0xefu8) is Some && shape(0xefu8)->Some_0.1 == 0,
        encode_line(shape(0xefu8)->Some_0.0) == Ok::<Seq<u8>, Seq<char>>(seq![0xefu8]),
{
    reveal_strlit("5");
    reveal_strlit("ADC");
    reveal_strlit("ADD");
    reveal_strlit("ANA");
    reveal_strlit("CMP");
    reveal_strlit("DAD");
    reveal_strlit("DCR");
    reveal_strlit("DCX");
    reveal_strlit("INR");
    reveal_strlit("INX");
    reveal_strlit("LDAX");
    reveal_strlit("LXI");
    reveal_strlit("MOV");
    reveal_strlit("MVI");
    reveal_strlit("ORA");
    reveal_strlit("POP");
    reveal_strlit("PUSH");
    reveal_strlit("RST");
    reveal_strlit("RST ");
    reveal_strlit("SBB");
    reveal_strlit("STAX");
    reveal_strlit("SUB");
    reveal_strlit("XRA");
    reveal_strlit(" ");
    let m = "RST"@;
    let w = "5"@;
    assert(w =~= seq![('0' as int + 5) as char]);
    assert(shape(0xefu8)->Some_0.0 =~= (m + " "@) + w);
    lemma_word_text(m, w);
    lemma_digit_value(5);
    assert(m != "MOV"@) by { if m == "MOV"@ { assert(m[0] == "MOV"@[0]); } }
    assert(m != "STAX"@) by { if m == "STAX"@ { assert(m.len() == "STAX"@.len()); } }
    assert(m != "LDAX"@) by { if m == "LDAX"@ { assert(m.len() == "LDAX"@.len()); } }
    assert(m != "INR"@) by { if m == "INR"@ { assert(m[0] == "INR"@[0]); } }
    assert(m != "DCR"@) by { if m == "DCR"@ { assert(m[0] == "DCR"@[0]); } }
    assert(m != "ADD"@) by { if m == "ADD"@ { assert(m[0] == "ADD"@[0]); } }
    assert(m != "ADC"@) by { if m == "ADC"@ { assert(m[0] == "ADC"@[0]); } }
    assert(m != "SUB"@) by { if m == "SUB"@ { assert(m[0] == "SUB"@[0]); } }
    assert(m != "SBB"@) by { if m == "SBB"@ { assert(m[0] == "SBB"@[0]); } }
    assert(m != "ANA"@) by { if m == "ANA"@ { assert(m[0] == "ANA"@[0]); } }
    assert(m != "XRA"@) by { if m == "XRA"@ { assert(m[0] == "XRA"@[0]); } }
    assert(m != "ORA"@) by { if m == "ORA"@ { assert(m[0] == "ORA"@[0]); } }
    assert(m != "CMP"@) by { if m == "CMP"@ { assert(m[0] == "CMP"@[0]); } }
    assert(m != "INX"@) by { if m == "INX"@ { assert(m[0] == "INX"@[0]); } }
    assert(m != "DAD"@) by { if m == "DAD"@ { assert(m[0] == "DAD"@[0]); } }
    assert(m != "DCX"@) by { if m == "DCX"@ { assert(m[0] == "DCX"@[0]); } }
    assert(m != "POP"@) by { if m == "POP"@ { assert(m[0] == "POP"@[0]); } }
    assert(m != "PUSH"@) by { if m == "PUSH"@ { assert(m.len() == "PUSH"@.len()); } }
    assert(m != "LXI"@) by { if m == "LXI"@ { assert(m[0] == "LXI"@[0]); } }
    assert(m != "MVI"@) by { if m == "MVI"@ { assert(m[0] == "MVI"@[0]); } }
    reveal(encode_args);
    assert(encode_args(m, seq![w]) == rst_encoding(seq![w]));
}

#[verifier::rlimit(100)]
proof fn lemma_rst_f7()
    ensures
        shape(0xf7u8) is Some && shape(0xf7u8)->Some_0.1 == 0,
        encode_line(shape(0xf7u8)->Some_0.0) == Ok::<Seq<u8>, Seq<char>>(seq![0xf7u8]),
{
    reveal_strlit("6");
    reveal_strlit("ADC");
    reveal_strlit("ADD");
    reveal_strlit("ANA");
    reveal_strlit("CMP");
    reveal_strlit("DAD");
    reveal_strlit("DCR");
    reveal_strlit("DCX");
    reveal_strlit("INR");
    reveal_strlit("INX");
    reveal_strlit("LDAX");
    reveal_strlit("LXI");
    reveal_strlit("MOV");
    reveal_strlit("MVI");
    reveal_strlit("ORA");
    reveal_strlit("POP");
    reveal_strlit("PUSH");
    reveal_strlit("RST");
    reveal_strlit("RST ");
    reveal_strlit("SBB");
    reveal_strlit("STAX");
    reveal_strlit("SUB");
    reveal_strlit("XRA");
    reveal_strlit(" ");
    let m = "RST"@;
    let w = "6"@;
    assert(w =~= seq![('0' as int + 6) as char]);
    assert(shape(0xf7u8)->Some_0.0 =~= (m + " "@) + w);
    lemma_word_text(m, w);
    lemma_digit_value(6);
    assert(m != "MOV"@) by { if m == "MOV"@ { assert(m[0] == "MOV"@[0]); } }
    assert(m != "STAX"@) by { if m == "STAX"@ { assert(m.len() == "STAX"@.len()); } }
    assert(m != "LDAX"@) by { if m == "LDAX"@ { assert(m.len() == "LDAX"@.len()); } }
    assert(m != "INR"@) by { if m == "INR"@ { assert(m[0] == "INR"@[0]); } }
    assert(m != "DCR"@) by { if m == "DCR"@ { assert(m[0] == "DCR"@[0]); } }
    assert(m != "ADD"@) by { if m == "ADD"@ { assert(m[0] == "ADD"@[0]); } }
    assert(m != "ADC"@) by { if m == "ADC"@ { assert(m[0] == "ADC"@[0]); } }
    assert(m != "SUB"@) by { if m == "SUB"@ { assert(m[0] == "SUB"@[0]); } }
    assert(m != "SBB"@) by { if m == "SBB"@ { assert(m[0] == "SBB"@[0]); } }
    assert(m != "ANA"@) by { if m == "ANA"@ { assert(m[0] == "ANA"@[0]); } }
    assert(m != "XRA"@) by { if m == "XRA"@ { assert(m[0] == "XRA"@[0]); } }
    assert(m != "ORA"@) by { if m == "ORA"@ { assert(m[0] == "ORA"@[0]); } }
    assert(m != "CMP"@) by { if m == "CMP"@ { assert(m[0] == "CMP"@[0]); } }
    assert(m != "INX"@) by { if m == "INX"@ { assert(m[0] == "INX"@[0]); } }
    assert(m != "DAD"@) by { if m == "DAD"@ { assert(m[0] == "DAD"@[0]); } }
    assert(m != "DCX"@) by { if m == "DCX"@ { assert(m[0] == "DCX"@[0]); } }
    assert(m != "POP"@) by { if m == "POP"@ { assert(m[0] == "POP"@[0]); } }
    assert(m != "PUSH"@) by { if m == "PUSH"@ { assert(m.len() == "PUSH"@.len()); } }
    assert(m != "LXI"@) by { if m == "LXI"@ { assert(m[0] == "LXI"@[0]); } }
    assert(m != "MVI"@) by { if m == "MVI"@ { assert(m[0] == "MVI"@[0]); } }
    reveal(encode_args);
    assert(encode_args(m, seq![w]) == rst_encoding(seq![w]));
}

#[verifier::rlimit(100)]
proof fn lemma_rst_ff()
    ensures
        shape(0xffu8) is Some && shape(0xffu8)->Some_0.1 == 0,
        encode_line(shape(0xffu8)->Some_0.0) == Ok::<Seq<u8>, Seq<char>>(seq![0xffu8]),
{
    reveal_strlit("7");
    reveal_strlit("ADC");
    reveal_strlit("ADD");
    reveal_strlit("ANA");
    reveal_strlit("CMP");
    reveal_strlit("DAD");
    reveal_strlit("DCR");
    reveal_strlit("DCX");
    reveal_strlit("INR");
    reveal_strlit("INX");
    reveal_strlit("LDAX");
    reveal_strlit("LXI");
    reveal_strlit("MOV");
    reveal_strlit("MVI");
    reveal_strlit("ORA");
    reveal_strlit("POP");
    reveal_strlit("PUSH");
    reveal_strlit("RST");
    reveal_strlit("RST ");
    reveal_strlit("SBB");
    reveal_strlit("STAX");
    reveal_strlit("SUB");
    reveal_strlit("XRA");
    reveal_strlit(" ");
    let m = "RST"@;
    let w = "7"@;
    assert(w =~= seq![('0' as int + 7) as char]);
    assert(shape(0xffu8)->Some_0.0 =~= (m + " "@) + w);
    lemma_word_text(m, w);
    lemma_digit_value(7);
    assert(m != "MOV"@) by { if m == "MOV"@ { assert(m[0] == "MOV"@[0]); } }
    assert(m != "STAX"@) by { if m == "STAX"@ { assert(m.len() == "STAX"@.len()); } }
    assert(m != "LDAX"@) by { if m == "LDAX"@ { assert(m.len() == "LDAX"@.len()); } }
    assert(m != "INR"@) by { if m == "INR"@ { assert(m[0] == "INR"@[0]); } }
    assert(m != "DCR"@) by { if m == "DCR"@ { assert(m[0] == "DCR"@[0]); } }
    assert(m != "ADD"@) by { if m == "ADD"@ { assert(m[0] == "ADD"@[0]); } }
    assert(m != "ADC"@) by { if m == "ADC"@ { assert(m[0] == "ADC"@[0]); } }
    assert(m != "SUB"@) by { if m == "SUB"@ { assert(m[0] == "SUB"@[0]); } }
    assert(m != "SBB"@) by { if m == "SBB"@ { assert(m[0] == "SBB"@[0]); } }
    assert(m != "ANA"@) by { if m == "ANA"@ { assert(m[0] == "ANA"@[0]); } }
    assert(m != "XRA"@) by { if m == "XRA"@ { assert(m[0] == "XRA"@[0]); } }
    assert(m != "ORA"@) by { if m == "ORA"@ { assert(m[0] == "ORA"@[0]); } }
    assert(m != "CMP"@) by { if m == "CMP"@ { assert(m[0] == "CMP"@[0]); } }
    assert(m != "INX"@) by { if m == "INX"@ { assert(m[0] == "INX"@[0]); } }
    assert(m != "DAD"@) by { if m == "DAD"@ { assert(m[0] == "DAD"@[0]); } }
    assert(m != "DCX"@) by { if m == "DCX"@ { assert(m[0] == "DCX"@[0]); } }
    assert(m != "POP"@) by { if m == "POP"@ { assert(m[0] == "POP"@[0]); } }
    assert(m != "PUSH"@) by { if m == "PUSH"@ { assert(m.len() == "PUSH"@.len()); } }
    assert(m != "LXI"@) by { if m == "LXI"@ { assert(m[0] == "LXI"@[0]); } }
    assert(m != "MVI"@) by { if m == "MVI"@ { assert(m[0] == "MVI"@[0]); } }
    reveal(encode_args);
    assert(encode_args(m, seq![w]) == rst_encoding(seq![w]));
}

/// The disassembler's text for RST assembles back to the same opcode.
#[verifier::rlimit(100)]
pub proof fn lemma_rst_round_trip(op: u8)
    requires
        op >= 0xC0,
        op % 8 == 7,
    ensures
        match shape(op) {
            Some((t, n)) => n == 0 && encode_line(t) == Ok::<Seq<u8>, Seq<char>>(seq![op]),
            None => false,
        },
{
    if op == 0xc7 {
        lemma_rst_c7();
    } else if op == 0xcf {
        lemma_rst_cf();
    } else if op == 0xd7 {
        lemma_rst_d7();
    } else if op == 0xdf {
        lemma_rst_df();
    } else if op == 0xe7 {
        lemma_rst_e7();
    } else if op == 0xef {
        lemma_rst_ef();
    } else if op == 0xf7 {
        lemma_rst_f7();
    } else if op == 0xff {
        lemma_rst_ff();
    }
}

/// Disassembling any instruction gives a text that assembles back to exactly
/// the bytes it was decoded from.
#[verifier::rlimit(100)]
pub proof fn lemma_disassembly_reassembles(bytes: Seq<u8>)
    requires
        bytes.len() >= 1,
        decode_at(bytes, 0) is Ok,
    ensures
        encode_line(decode_at(bytes, 0)->Ok_0.0) == Ok::<Seq<u8>, Seq<char>>(bytes.subrange(0, decode_at(bytes, 0)->Ok_0.1)),
{
    let op = bytes[0];
    let (t, n) = shape(op)->Some_0;
    assert(shape(op) is Some);
    if n == 0 {
        assert(decode_at(bytes, 0) == Ok::<(Seq<char>, int), Seq<char>>((t, 1)));
        assert(bytes.subrange(0, 1) =~= seq![op]);
        if 0x40 <= op < 0x80 && op != 0x76 {
            lemma_mov_round_trip(op);
        } else if 0x80 <= op < 0xC0 {
            lemma_alu_round_trip(op);
        } else if op < 0x40 && (op % 8 == 4 || op % 8 == 5) {
            lemma_inr_dcr_round_trip(op);
        } else if op >= 0xC0 && op % 8 == 7 {
            lemma_rst_round_trip(op);
        } else if is_pair_opcode(op) {
            lemma_pair_round_trip(op);
        } else {
            assert(is_plain_opcode(op));
            lemma_plain_round_trip(op);
        }
    } else if n == 1 {
        let b = bytes[1];
        assert(decode_at(bytes, 0) == Ok::<(Seq<char>, int), Seq<char>>((t + hex_text(b as nat), 2)));
        assert(bytes.subrange(0, 2) =~= seq![op, b]);
        if op < 0x40 {
            lemma_mvi_round_trip(op, b);
        } else if op % 8 == 6 {
            lemma_immediate_round_trip(op, b);
        } else {
            assert(op == 0xd3 || op == 0xdb);
            lemma_address_round_trip(op, b as u16);
        }
    } else {
        let w = (bytes[2] as int * 256 + bytes[1] as int) as u16;
        assert(decode_at(bytes, 0) == Ok::<(Seq<char>, int), Seq<char>>((t + hex_text(w as nat), 3)));
        assert(bytes.subrange(0, 3) =~= seq![op, (w % 256) as u8, (w / 256) as u8]);
        if op < 0x40 && op % 16 == 1 {
            lemma_lxi_round_trip(op, w);
        } else {
            assert(is_address_opcode(op));
            lemma_address_round_trip(op, w);
        }
    }
}

} // verus!
