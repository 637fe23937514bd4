//! The JSON text that the library's file images and protocol messages are
//! made of, at the level of character sequences.
//!
//! Writers emit one canonical form (fixed field order, no extra
//! whitespace, `\"`, `\\` and `\u00..` escapes only); parsers accept
//! that form, plus the short control escapes (`\n`, `\t`, `\r`, `\b`,
//! `\f`) that earlier vault writers used. Every parser is specified
//! against a spec-level parser, and the lemmas here show that parsing
//! inverts serialization, so the round trips of the vault, the state files
//! and the wire protocol all reduce to these facts.

use vstd::prelude::*;

use crate::text::chars_of;
use crate::transform::{digit_char, digit_val, push_decimal, spec_decimal};

verus! {

/// The lowercase hex digit for `n` in 0..=15.
pub open spec fn hex_digit(n: int) -> char {
    if n < 10 {
        digit_char(n)
    } else if n == 10 { 'a' }
    else if n == 11 { 'b' }
    else if n == 12 { 'c' }
    else if n == 13 { 'd' }
    else if n == 14 { 'e' }
    else { 'f' }
}

/// The numeric value of a lowercase hex digit character.
pub open spec fn hex_val(c: char) -> Option<int> {
    if digit_val(c) is Some {
        digit_val(c)
    } else if c == 'a' { Some(10int) }
    else if c == 'b' { Some(11int) }
    else if c == 'c' { Some(12int) }
    else if c == 'd' { Some(13int) }
    else if c == 'e' { Some(14int) }
    else if c == 'f' { Some(15int) }
    else { None }
}

proof fn lemma_hex_digit_val(n: int)
    requires
        0 <= n < 16,
    ensures
        hex_val(hex_digit(n)) == Some(n),
{
}

/// How one character is written inside a JSON string: quotes and
/// backslashes get a backslash escape, control characters a `\u00..`
/// escape, everything else stands as itself.
pub open spec fn esc_char(c: char) -> Seq<char> {
    if c == '"' {
        seq!['\\', '"']
    } else if c == '\\' {
        seq!['\\', '\\']
    } else if (c as u32) < 32 {
        seq!['\\', 'u', '0', '0', hex_digit((c as u32) as int / 16), hex_digit(
            (c as u32) as int % 16,
        )]
    } else {
        seq![c]
    }
}

/// The escaped body of a JSON string.
pub open spec fn esc_str(s: Seq<char>) -> Seq<char>
    decreases s.len(),
{
    if s.len() == 0 {
        Seq::empty()
    } else {
        esc_char(s[0]) + esc_str(s.drop_first())
    }
}

/// A complete JSON string: quote, escaped body, quote.
pub open spec fn jstr(s: Seq<char>) -> Seq<char> {
    seq!['"'] + esc_str(s) + seq!['"']
}

/// Escaping distributes over concatenation.
pub proof fn lemma_esc_str_app(a: Seq<char>, b: Seq<char>)
    ensures
        esc_str(a + b) == esc_str(a) + esc_str(b),
    decreases a.len(),
{
    if a.len() == 0 {
        assert(a + b =~= b);
        assert(esc_str(a) + esc_str(b) =~= esc_str(b));
    } else {
        lemma_esc_str_app(a.drop_first(), b);
        assert((a + b).drop_first() =~= a.drop_first() + b);
        assert(esc_char(a[0]) + (esc_str(a.drop_first()) + esc_str(b)) =~= (esc_char(a[0])
            + esc_str(a.drop_first())) + esc_str(b));
    }
}

/// The short control escapes of JSON: accepted by the parsers because
/// earlier vault writers emitted them, though this library's writers
/// always use the `\u00..` form.
pub open spec fn short_escape(c: char) -> Option<char> {
    if c == 'n' { Some('\n') }
    else if c == 't' { Some('\t') }
    else if c == 'r' { Some('\r') }
    else if c == 'b' { Some('\u{0008}') }
    else if c == 'f' { Some('\u{000C}') }
    else { None }
}

/// Prepends a character to the value of a partial parse.
pub open spec fn sp_prepend(c: char, r: Option<(Seq<char>, Seq<char>)>) -> Option<
    (Seq<char>, Seq<char>),
> {
    match r {
        Some((v, rest)) => Some((seq![c] + v, rest)),
        None => None,
    }
}

/// Parses the body of a JSON string up to and over the closing quote,
/// returning the unescaped content and what follows the quote.
pub open spec fn sp_content(s: Seq<char>) -> Option<(Seq<char>, Seq<char>)>
    decreases s.len(),
{
    if s.len() == 0 {
        None
    } else if s[0] == '"' {
        Some((Seq::empty(), s.drop_first()))
    } else if s[0] == '\\' {
        if s.len() >= 2 && s[1] == '"' {
            sp_prepend('"', sp_content(s.skip(2)))
        } else if s.len() >= 2 && s[1] == '\\' {
            sp_prepend('\\', sp_content(s.skip(2)))
        } else if s.len() >= 2 && short_escape(s[1]) is Some {
            sp_prepend(short_escape(s[1])->0, sp_content(s.skip(2)))
        } else if s.len() >= 6 && s[1] == 'u' && s[2] == '0' && s[3] == '0' && hex_val(s[4])
            is Some && hex_val(s[5]) is Some && 16 * hex_val(s[4])->0 + hex_val(s[5])->0 < 32 {
            sp_prepend(
                (((16 * hex_val(s[4])->0 + hex_val(s[5])->0)) as u8) as char,
                sp_content(s.skip(6)),
            )
        } else {
            None
        }
    } else {
        sp_prepend(s[0], sp_content(s.drop_first()))
    }
}

/// Parses a complete JSON string: an opening quote, then its body.
pub open spec fn sp_string(s: Seq<char>) -> Option<(Seq<char>, Seq<char>)> {
    if s.len() > 0 && s[0] == '"' {
        sp_content(s.drop_first())
    } else {
        None
    }
}

/// Parsing inverts escaping: the body parser recovers the content and
/// leaves exactly what follows the closing quote.
pub proof fn lemma_sp_content(s: Seq<char>, rest: Seq<char>)
    ensures
        sp_content(esc_str(s) + seq!['"'] + rest) == Some((s, rest)),
    decreases s.len(),
{
    if s.len() == 0 {
        assert(esc_str(s) + seq!['"'] + rest =~= seq!['"'] + rest);
        assert((seq!['"'] + rest)[0] == '"');
        assert((seq!['"'] + rest).drop_first() =~= rest);
    } else {
        let c = s[0];
        let tail = s.drop_first();
        lemma_sp_content(tail, rest);
        let full = esc_str(s) + seq!['"'] + rest;
        let inner = esc_str(tail) + seq!['"'] + rest;
        assert(esc_str(s) =~= esc_char(c) + esc_str(tail));
        assert(full =~= esc_char(c) + inner);
        if c == '"' {
            assert(full[0] == '\\' && full[1] == '"');
            assert(full.skip(2) =~= inner);
            assert(seq![c] + tail =~= s);
        } else if c == '\\' {
            assert(full[0] == '\\' && full[1] == '\\');
            assert(full.skip(2) =~= inner);
            assert(seq![c] + tail =~= s);
        } else if (c as u32) < 32 {
            let v = (c as u32) as int;
            lemma_hex_digit_val(v / 16);
            lemma_hex_digit_val(v % 16);
            assert(full[0] == '\\' && full[1] == 'u' && full[2] == '0' && full[3] == '0');
            assert(full[4] == hex_digit(v / 16) && full[5] == hex_digit(v % 16));
            assert(full.skip(6) =~= inner);
            assert(16 * (v / 16) + v % 16 == v);
            assert(((v as u8) as char) as u32 == v);
            vstd::utf8::char_u32_cast(c, c as u32);
            assert((v as u8) as char == c);
            assert(seq![c] + tail =~= s);
        } else {
            assert(full[0] == c);
            assert(full.drop_first() =~= inner);
            assert(seq![c] + tail =~= s);
        }
    }
}

/// Parsing inverts serialization for complete JSON strings.
pub proof fn lemma_sp_string(s: Seq<char>, rest: Seq<char>)
    ensures
        sp_string(jstr(s) + rest) == Some((s, rest)),
{
    lemma_sp_content(s, rest);
    assert(jstr(s) + rest =~= seq!['"'] + (esc_str(s) + seq!['"'] + rest));
    assert((jstr(s) + rest)[0] == '"');
    assert((jstr(s) + rest).drop_first() =~= esc_str(s) + seq!['"'] + rest);
}

/// Consumes an expected literal prefix.
pub open spec fn sp_lit(s: Seq<char>, lit: Seq<char>) -> Option<Seq<char>> {
    if lit.len() <= s.len() && s.take(lit.len() as int) == lit {
        Some(s.skip(lit.len() as int))
    } else {
        None
    }
}

/// Consuming a literal that is in fact there leaves the rest.
pub proof fn lemma_sp_lit(lit: Seq<char>, rest: Seq<char>)
    ensures
        sp_lit(lit + rest, lit) == Some(rest),
{
    assert((lit + rest).take(lit.len() as int) =~= lit);
    assert((lit + rest).skip(lit.len() as int) =~= rest);
}

// ---------------------------------------------------------------------------
// Executable writers.
// ---------------------------------------------------------------------------

fn hex_digit_exec(n: u8) -> (r: char)
    requires
        n < 16,
    ensures
        r == hex_digit(n as int),
{
    match n {
        0 => '0',
        1 => '1',
        2 => '2',
        3 => '3',
        4 => '4',
        5 => '5',
        6 => '6',
        7 => '7',
        8 => '8',
        9 => '9',
        10 => 'a',
        11 => 'b',
        12 => 'c',
        13 => 'd',
        14 => 'e',
        _ => 'f',
    }
}

/// Appends the characters of a literal.
pub fn push_lit(out: &mut Vec<char>, lit: &str)
    ensures
        final(out)@ == old(out)@ + lit@,
{
    let cs = chars_of(lit);
    let mut i: usize = 0;
    while i < cs.len()
        invariant
            i <= cs@.len(),
            cs@ == lit@,
            out@ =~= old(out)@ + lit@.take(i as int),
        decreases cs@.len() - i,
    {
        out.push(cs[i]);
        i = i + 1;
    }
    proof {
        assert(old(out)@ + lit@.take(i as int) =~= old(out)@ + lit@);
    }
}

/// Appends a string in its JSON form: quoted and escaped.
pub fn push_jstr(out: &mut Vec<char>, s: &str)
    ensures
        final(out)@ == old(out)@ + jstr(s@),
{
    let cs = chars_of(s);
    out.push('"');
    let mut i: usize = 0;
    while i < cs.len()
        invariant
            i <= cs@.len(),
            cs@ == s@,
            out@ =~= old(out)@ + seq!['"'] + esc_str(s@.take(i as int)),
        decreases cs@.len() - i,
    {
        let c = cs[i];
        proof {
            assert(s@.take(i + 1) =~= s@.take(i as int) + seq![s@[i as int]]);
            lemma_esc_str_app(s@.take(i as int), seq![s@[i as int]]);
            assert(seq![s@[i as int]].drop_first() =~= Seq::<char>::empty());
            assert(esc_str(Seq::<char>::empty()) == Seq::<char>::empty());
            assert(seq![s@[i as int]][0] == s@[i as int]);
            assert(esc_char(s@[i as int]) + Seq::<char>::empty() =~= esc_char(s@[i as int]));
            assert(esc_str(seq![s@[i as int]]) =~= esc_char(s@[i as int]));
        }
        if c == '"' {
            out.push('\\');
            out.push('"');
        } else if c == '\\' {
            out.push('\\');
            out.push('\\');
        } else if (c as u32) < 32 {
            let v = (c as u32) as u8;
            out.push('\\');
            out.push('u');
            out.push('0');
            out.push('0');
            out.push(hex_digit_exec(v / 16));
            out.push(hex_digit_exec(v % 16));
        } else {
            out.push(c);
        }
        proof {
            assert(out@ =~= old(out)@ + seq!['"'] + esc_str(s@.take(i + 1)));
        }
        i = i + 1;
    }
    out.push('"');
    proof {
        assert(s@.take(cs@.len() as int) =~= s@);
        assert(out@ =~= old(out)@ + jstr(s@));
    }
}

/// Appends a byte in decimal.
pub fn push_u8_text(out: &mut Vec<char>, n: u8)
    ensures
        final(out)@ == old(out)@ + spec_decimal(n as int),
{
    push_decimal(out, n as usize);
}

// ---------------------------------------------------------------------------
// Executable parsers.
// ---------------------------------------------------------------------------

fn short_escape_exec(c: char) -> (r: char)
    requires
        short_escape(c) is Some,
    ensures
        r == short_escape(c)->0,
{
    match c {
        'n' => '\n',
        't' => '\t',
        'r' => '\r',
        'b' => '\u{0008}',
        _ => '\u{000C}',
    }
}

fn hex_val_exec(c: char) -> (r: Option<u8>)
    ensures
        match r {
            Some(v) => hex_val(c) == Some(v as int) && v < 16,
            None => hex_val(c) is None,
        },
{
    match c {
        '0' => Some(0),
        '1' => Some(1),
        '2' => Some(2),
        '3' => Some(3),
        '4' => Some(4),
        '5' => Some(5),
        '6' => Some(6),
        '7' => Some(7),
        '8' => Some(8),
        '9' => Some(9),
        'a' => Some(10),
        'b' => Some(11),
        'c' => Some(12),
        'd' => Some(13),
        'e' => Some(14),
        'f' => Some(15),
        _ => None,
    }
}

/// Parses a JSON string starting at `pos`; on success returns its content
/// and the position just past the closing quote.
pub fn parse_string(input: &Vec<char>, pos: usize) -> (r: Option<(Vec<char>, usize)>)
    requires
        pos <= input@.len(),
    ensures
        r is Some <==> sp_string(input@.skip(pos as int)) is Some,
        r matches Some((v, np)) ==> pos < np <= input@.len() && sp_string(input@.skip(pos as int))
            == Some((v@, input@.skip(np as int))),
{
    if pos >= input.len() || input[pos] != '"' {
        return None;
    }
    let mut acc: Vec<char> = Vec::new();
    let mut i: usize = pos + 1;
    proof {
        assert(input@.skip(pos as int)[0] == '"');
        assert(input@.skip(pos as int).drop_first() =~= input@.skip(pos + 1));
    }
    let ghost start = input@.skip(pos + 1);
    loop
        invariant
            pos + 1 <= i <= input@.len(),
            sp_content(start) == sp_app(acc@, sp_content(input@.skip(i as int))),
            sp_string(input@.skip(pos as int)) == sp_content(start),
        decreases input@.len() - i,
    {
        if i >= input.len() {
            return None;
        }
        let c = input[i];
        proof {
            assert(input@.skip(i as int)[0] == input@[i as int]);
            assert(input@.skip(i as int).drop_first() =~= input@.skip(i + 1));
        }
        if c == '"' {
            proof {
                assert(sp_content(input@.skip(i as int)) == Some(
                    (Seq::<char>::empty(), input@.skip(i + 1)),
                ));
                assert(acc@ + Seq::<char>::empty() =~= acc@);
            }
            return Some((acc, i + 1));
        } else if c == '\\' {
            if i + 1 >= input.len() {
                proof {
                    assert(sp_content(input@.skip(i as int)) is None);
                }
                return None;
            }
            let e = input[i + 1];
            proof {
                assert(input@.skip(i as int)[1] == input@[i + 1]);
            }
            if e == '"' {
                proof {
                    assert(input@.skip(i as int).skip(2) =~= input@.skip(i + 2));
                    lemma_sp_app_push(acc@, '"', sp_content(input@.skip(i + 2)));
                }
                acc.push('"');
                i = i + 2;
            } else if e == '\\' {
                proof {
                    assert(input@.skip(i as int).skip(2) =~= input@.skip(i + 2));
                    lemma_sp_app_push(acc@, '\\', sp_content(input@.skip(i + 2)));
                }
                acc.push('\\');
                i = i + 2;
            } else if e == 'n' || e == 't' || e == 'r' || e == 'b' || e == 'f' {
                let c2 = short_escape_exec(e);
                proof {
                    assert(input@.skip(i as int).skip(2) =~= input@.skip(i + 2));
                    lemma_sp_app_push(acc@, short_escape(e)->0, sp_content(input@.skip(i + 2)));
                }
                acc.push(c2);
                i = i + 2;
            } else if e == 'u' {
                if input.len() - i < 6 {
                    proof {
                        assert(input@.skip(i as int).len() < 6);
                        assert(sp_content(input@.skip(i as int)) is None);
                    }
                    return None;
                }
                proof {
                    assert(input@.skip(i as int)[2] == input@[i + 2]);
                    assert(input@.skip(i as int)[3] == input@[i + 3]);
                    assert(input@.skip(i as int)[4] == input@[i + 4]);
                    assert(input@.skip(i as int)[5] == input@[i + 5]);
                }
                if input[i + 2] != '0' || input[i + 3] != '0' {
                    return None;
                }
                let h1 = hex_val_exec(input[i + 4]);
                let h2 = hex_val_exec(input[i + 5]);
                match (h1, h2) {
                    (Some(a), Some(b)) => {
                        let v: u8 = 16 * a + b;
                        if v >= 32 {
                            return None;
                        }
                        proof {
                            assert(input@.skip(i as int).skip(6) =~= input@.skip(i + 6));
                            lemma_sp_app_push(acc@, (v) as char, sp_content(input@.skip(i + 6)));
                        }
                        acc.push(v as char);
                        i = i + 6;
                    },
                    _ => {
                        return None;
                    },
                }
            } else {
                return None;
            }
        } else {
            proof {
                lemma_sp_app_push(acc@, c, sp_content(input@.skip(i + 1)));
            }
            acc.push(c);
            i = i + 1;
        }
    }
}

/// Appends a parsed character to an accumulated content prefix.
pub open spec fn sp_app(acc: Seq<char>, r: Option<(Seq<char>, Seq<char>)>) -> Option<
    (Seq<char>, Seq<char>),
> {
    match r {
        Some((v, rest)) => Some((acc + v, rest)),
        None => None,
    }
}

proof fn lemma_sp_app_push(acc: Seq<char>, c: char, r: Option<(Seq<char>, Seq<char>)>)
    ensures
        sp_app(acc, sp_prepend(c, r)) == sp_app(acc.push(c), r),
{
    match r {
        Some((v, rest)) => {
            assert(acc + (seq![c] + v) =~= acc.push(c) + v);
        },
        None => {},
    }
}

/// Consumes the literal `lit` at `pos` when it is there.
pub fn expect_lit(input: &Vec<char>, pos: usize, lit: &str) -> (r: Option<usize>)
    requires
        pos <= input@.len(),
    ensures
        r is Some <==> sp_lit(input@.skip(pos as int), lit@) is Some,
        r matches Some(np) ==> np == pos + lit@.len() && np <= input@.len() && sp_lit(
            input@.skip(pos as int),
            lit@,
        ) == Some(input@.skip(np as int)),
{
    let cs = chars_of(lit);
    if cs.len() > input.len() - pos {
        proof {
            assert(sp_lit(input@.skip(pos as int), lit@) is None);
        }
        return None;
    }
    proof {
        assert(pos + cs@.len() <= input@.len());
    }
    let mut i: usize = 0;
    while i < cs.len()
        invariant
            i <= cs@.len(),
            cs@ == lit@,
            pos + cs@.len() <= input@.len(),
            input@.len() <= usize::MAX,
            pos <= input@.len(),
            forall|j: int| 0 <= j < i ==> input@[pos + j] == lit@[j],
        decreases cs@.len() - i,
    {
        if input[pos + i] != cs[i] {
            proof {
                assert(input@.skip(pos as int).take(lit@.len() as int)[i as int] == input@[pos
                    + i]);
                assert(input@.skip(pos as int).take(lit@.len() as int) != lit@);
            }
            return None;
        }
        i = i + 1;
    }
    proof {
        assert(input@.skip(pos as int).take(lit@.len() as int) =~= lit@);
        assert(input@.skip(pos as int).skip(lit@.len() as int) =~= input@.skip(
            pos + lit@.len(),
        ));
    }
    Some(pos + cs.len())
}

// ---------------------------------------------------------------------------
// Decimal bytes (for key material in the daemon's state message).
// ---------------------------------------------------------------------------

/// Parses a decimal byte: one to three digits valued at most 255.
pub open spec fn sp_u8(s: Seq<char>) -> Option<(u8, Seq<char>)> {
    if s.len() >= 1 && digit_val(s[0]) is Some {
        let a = digit_val(s[0])->0;
        if s.len() >= 2 && digit_val(s[1]) is Some {
            let b = digit_val(s[1])->0;
            if s.len() >= 3 && digit_val(s[2]) is Some {
                let c = digit_val(s[2])->0;
                if 100 * a + 10 * b + c <= 255 {
                    Some(((100 * a + 10 * b + c) as u8, s.skip(3)))
                } else {
                    None
                }
            } else {
                Some(((10 * a + b) as u8, s.skip(2)))
            }
        } else {
            Some((a as u8, s.skip(1)))
        }
    } else {
        None
    }
}

/// Parsing inverts decimal formatting of a byte when what follows does not
/// begin with a digit.
pub proof fn lemma_sp_u8(n: u8, rest: Seq<char>)
    requires
        rest.len() > 0 ==> digit_val(rest[0]) is None,
    ensures
        sp_u8(spec_decimal(n as int) + rest) == Some((n, rest)),
{
    let v = n as int;
    if v < 10 {
        assert(spec_decimal(v) =~= seq![digit_char(v)]);
        assert((spec_decimal(v) + rest).skip(1) =~= rest);
    } else if v < 100 {
        assert(spec_decimal(v / 10) =~= seq![digit_char(v / 10)]);
        assert(spec_decimal(v) =~= seq![digit_char(v / 10), digit_char(v % 10)]);
        assert((spec_decimal(v) + rest).skip(2) =~= rest);
    } else {
        assert(spec_decimal(v / 100) =~= seq![digit_char(v / 100)]);
        assert(spec_decimal(v / 10) =~= seq![digit_char(v / 100), digit_char((v / 10) % 10)]);
        assert(spec_decimal(v) =~= seq![digit_char(v / 100), digit_char((v / 10) % 10), digit_char(
            v % 10,
        )]);
        assert((spec_decimal(v) + rest).skip(3) =~= rest);
        assert(100 * (v / 100) + 10 * ((v / 10) % 10) + v % 10 == v);
    }
}

/// Parses a decimal byte at `pos`.
pub fn parse_u8_text(input: &Vec<char>, pos: usize) -> (r: Option<(u8, usize)>)
    requires
        pos <= input@.len(),
    ensures
        r is Some <==> sp_u8(input@.skip(pos as int)) is Some,
        r matches Some((n, np)) ==> pos < np <= input@.len() && sp_u8(input@.skip(pos as int))
            == Some((n, input@.skip(np as int))),
{
    proof {
        if pos < input@.len() {
            assert(input@.skip(pos as int)[0] == input@[pos as int]);
        }
        if pos + 1 < input@.len() {
            assert(input@.skip(pos as int)[1] == input@[pos + 1]);
        }
        if pos + 2 < input@.len() {
            assert(input@.skip(pos as int)[2] == input@[pos + 2]);
        }
        assert(input@.skip(pos as int).len() == input@.len() - pos);
    }
    if pos >= input.len() {
        return None;
    }
    let d0 = digit_val_u8(input[pos]);
    match d0 {
        None => None,
        Some(a) => {
            if pos + 1 < input.len() {
                match digit_val_u8(input[pos + 1]) {
                    Some(b) => {
                        if pos + 2 < input.len() {
                            match digit_val_u8(input[pos + 2]) {
                                Some(c) => {
                                    let v: u32 = 100 * (a as u32) + 10 * (b as u32) + (c as u32);
                                    if v <= 255 {
                                        proof {
                                            assert(input@.skip(pos as int).skip(3) =~= input@.skip(
                                                pos + 3,
                                            ));
                                        }
                                        Some(((v as u8), pos + 3))
                                    } else {
                                        None
                                    }
                                },
                                None => {
                                    proof {
                                        assert(input@.skip(pos as int).skip(2) =~= input@.skip(
                                            pos + 2,
                                        ));
                                    }
                                    Some((10 * a + b, pos + 2))
                                },
                            }
                        } else {
                            proof {
                                assert(input@.skip(pos as int).skip(2) =~= input@.skip(pos + 2));
                            }
                            Some((10 * a + b, pos + 2))
                        }
                    },
                    None => {
                        proof {
                            assert(input@.skip(pos as int).skip(1) =~= input@.skip(pos + 1));
                        }
                        Some((a, pos + 1))
                    },
                }
            } else {
                proof {
                    assert(input@.skip(pos as int).skip(1) =~= input@.skip(pos + 1));
                }
                Some((a, pos + 1))
            }
        },
    }
}

fn digit_val_u8(c: char) -> (r: Option<u8>)
    ensures
        match r {
            Some(v) => digit_val(c) == Some(v as int) && v < 10,
            None => digit_val(c) is None,
        },
{
    match c {
        '0' => Some(0),
        '1' => Some(1),
        '2' => Some(2),
        '3' => Some(3),
        '4' => Some(4),
        '5' => Some(5),
        '6' => Some(6),
        '7' => Some(7),
        '8' => Some(8),
        '9' => Some(9),
        _ => None,
    }
}

} // verus!
