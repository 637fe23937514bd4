//! Legacy reversible text transforms.
//!
//! `fibbil_hash` applies a keyless character-shift to the master password
//! before key derivation. It adds no cryptographic strength (it is fully
//! invertible without secrets) and is kept bit-for-bit for on-disk
//! compatibility; `derive_key` isolates it so a versioned vault-format
//! upgrade can drop it.
//!
//! `codesmith28` is a positional transposition encoding kept for the same
//! reason: it sorts the characters and appends their original one-based
//! positions as zero-padded decimal indices after a `|` separator.

use vstd::prelude::*;

use crate::text::{chars_of, string_of_chars};

verus! {

/// The first twenty Fibonacci numbers, as the shift table uses them.
pub open spec fn spec_fibonacci(j: int) -> u32 {
    if j == 0 { 0 }
    else if j == 1 { 1 }
    else if j == 2 { 1 }
    else if j == 3 { 2 }
    else if j == 4 { 3 }
    else if j == 5 { 5 }
    else if j == 6 { 8 }
    else if j == 7 { 13 }
    else if j == 8 { 21 }
    else if j == 9 { 34 }
    else if j == 10 { 55 }
    else if j == 11 { 89 }
    else if j == 12 { 144 }
    else if j == 13 { 233 }
    else if j == 14 { 377 }
    else if j == 15 { 610 }
    else if j == 16 { 987 }
    else if j == 17 { 1597 }
    else if j == 18 { 2584 }
    else { 4181 }
}

/// The fixed key schedule: position `j` of the input selects this
/// one-based index into the Fibonacci table.
pub open spec fn spec_numeric_key(j: int) -> int {
    if j == 0 { 14 }
    else if j == 1 { 7 }
    else if j == 2 { 3 }
    else if j == 3 { 16 }
    else if j == 4 { 11 }
    else if j == 5 { 19 }
    else if j == 6 { 1 }
    else if j == 7 { 13 }
    else if j == 8 { 6 }
    else if j == 9 { 9 }
    else if j == 10 { 17 }
    else if j == 11 { 5 }
    else if j == 12 { 12 }
    else if j == 13 { 8 }
    else if j == 14 { 4 }
    else if j == 15 { 20 }
    else if j == 16 { 15 }
    else if j == 17 { 10 }
    else if j == 18 { 18 }
    else { 2 }
}

/// The shift added to the character at position `i`.
pub open spec fn shift_at(i: int) -> u32 {
    spec_fibonacci(spec_numeric_key(i % 20) - 1)
}

/// The shift table repeats every twenty positions and never exceeds 4181.
pub proof fn lemma_shift_at_bound(i: int)
    requires
        i >= 0,
    ensures
        shift_at(i) <= 4181,
{
}

fn shift_at_exec(i: usize) -> (r: u32)
    ensures
        r == shift_at(i as int),
        r <= 4181,
{
    let j: usize = i % 20;
    match j {
        0 => 233,
        1 => 8,
        2 => 1,
        3 => 610,
        4 => 55,
        5 => 2584,
        6 => 0,
        7 => 144,
        8 => 5,
        9 => 21,
        10 => 987,
        11 => 3,
        12 => 89,
        13 => 13,
        14 => 2,
        15 => 4181,
        16 => 377,
        17 => 34,
        18 => 1597,
        _ => 1,
    }
}

/// The character at position `i` after the forward shift: code points are
/// shifted by the schedule and reduced modulo 128.
pub open spec fn shifted_char(c: char, i: int) -> char {
    ((((c as u32) + shift_at(i)) % 128) as u8) as char
}

/// The character at position `i` after the inverse shift. Adding
/// `4224 - shift` (4224 = 33 * 128) realises subtraction modulo 128
/// without underflow.
pub open spec fn unshifted_char(c: char, i: int) -> char {
    ((((c as u32) + (4224 - shift_at(i))) % 128) as u8) as char
}

/// What `fibbil_hash` returns: every character shifted by the schedule.
pub open spec fn spec_fibbil_hash(s: Seq<char>) -> Seq<char> {
    Seq::new(s.len(), |i: int| shifted_char(s[i], i))
}

/// What `fibbil_unhash` returns: every character shifted back.
pub open spec fn spec_fibbil_unhash(s: Seq<char>) -> Seq<char> {
    Seq::new(s.len(), |i: int| unshifted_char(s[i], i))
}

/// Applies the forward character-shift transform.
pub fn fibbil_hash(string: &str) -> (r: String)
    ensures
        r@ == spec_fibbil_hash(string@),
{
    let cs = chars_of(string);
    let mut out: Vec<char> = Vec::new();
    let mut i: usize = 0;
    while i < cs.len()
        invariant
            i <= cs@.len(),
            cs@ == string@,
            out@ =~= spec_fibbil_hash(string@).take(i as int),
        decreases cs@.len() - i,
    {
        let c = cs[i];
        let sh = shift_at_exec(i);
        proof {
            vstd::utf8::char_is_scalar(c);
        }
        let x: u32 = (c as u32) + sh;
        let shifted: u8 = (x % 128) as u8;
        out.push(shifted as char);
        i = i + 1;
    }
    proof {
        assert(out@ =~= spec_fibbil_hash(string@));
    }
    string_of_chars(&out)
}

/// Applies the inverse character-shift transform.
pub fn fibbil_unhash(encrypted: &str) -> (r: String)
    ensures
        r@ == spec_fibbil_unhash(encrypted@),
{
    let cs = chars_of(encrypted);
    let mut out: Vec<char> = Vec::new();
    let mut i: usize = 0;
    while i < cs.len()
        invariant
            i <= cs@.len(),
            cs@ == encrypted@,
            out@ =~= spec_fibbil_unhash(encrypted@).take(i as int),
        decreases cs@.len() - i,
    {
        let c = cs[i];
        let sh = shift_at_exec(i);
        proof {
            vstd::utf8::char_is_scalar(c);
        }
        let x: u32 = (c as u32) + (4224 - sh);
        let shifted: u8 = (x % 128) as u8;
        out.push(shifted as char);
        i = i + 1;
    }
    proof {
        assert(out@ =~= spec_fibbil_unhash(encrypted@));
    }
    string_of_chars(&out)
}

/// Shifting back undoes shifting, for text whose code points stay below
/// 128 (the transform reduces modulo 128, so larger code points cannot
/// survive a round trip).
pub proof fn lemma_fibbil_round_trip(s: Seq<char>)
    requires
        forall|i: int| 0 <= i < s.len() ==> (s[i] as u32) < 128,
    ensures
        spec_fibbil_unhash(spec_fibbil_hash(s)) == s,
{
    assert forall|i: int| 0 <= i < s.len() implies unshifted_char(shifted_char(s[i], i), i)
        == s[i] by {
        let c = s[i] as u32;
        let f = shift_at(i) as int;
        lemma_shift_at_bound(i);
        let v = ((c + f) % 128) as int;
        let fwd = shifted_char(s[i], i);
        assert((fwd as u32) == v);
        assert((v + (4224 - f)) % 128 == c as int) by (nonlinear_arith)
            requires
                0 <= c < 128,
                0 <= f <= 4181,
                v == (c + f) % 128,
        ;
        assert(unshifted_char(fwd, i) as u32 == c);
        vstd::utf8::char_u32_cast(s[i], c);
        vstd::utf8::char_u32_cast(unshifted_char(fwd, i), c);
    }
    assert(spec_fibbil_unhash(spec_fibbil_hash(s)) =~= s);
}

// ---------------------------------------------------------------------------
// Stable sorting of key/payload pairs, shared by the transposition encoding
// and its decoder.
// ---------------------------------------------------------------------------

/// Inserts `p` into `s` before the first element whose key is strictly
/// greater, so equal keys keep their existing order.
pub open spec fn insert_pair<T>(p: (u64, T), s: Seq<(u64, T)>) -> Seq<(u64, T)>
    decreases s.len(),
{
    if s.len() == 0 {
        seq![p]
    } else if p.0 < s[0].0 {
        seq![p] + s
    } else {
        seq![s[0]] + insert_pair(p, s.drop_first())
    }
}

/// Stable insertion sort by key: the order of the original source decides
/// between equal keys.
pub open spec fn sort_pairs<T>(s: Seq<(u64, T)>) -> Seq<(u64, T)>
    decreases s.len(),
{
    if s.len() == 0 {
        Seq::empty()
    } else {
        insert_pair(s.last(), sort_pairs(s.drop_last()))
    }
}

/// Inserting adds one element.
pub proof fn lemma_insert_pair_len<T>(p: (u64, T), s: Seq<(u64, T)>)
    ensures
        insert_pair(p, s).len() == s.len() + 1,
    decreases s.len(),
{
    if s.len() > 0 && !(p.0 < s[0].0) {
        lemma_insert_pair_len(p, s.drop_first());
    }
}

/// Sorting keeps the length.
pub proof fn lemma_sort_pairs_len<T>(s: Seq<(u64, T)>)
    ensures
        sort_pairs(s).len() == s.len(),
    decreases s.len(),
{
    if s.len() > 0 {
        lemma_sort_pairs_len(s.drop_last());
        lemma_insert_pair_len(s.last(), sort_pairs(s.drop_last()));
    }
}

proof fn lemma_insert_pair_at<T>(p: (u64, T), s: Seq<(u64, T)>, j: int)
    requires
        0 <= j <= s.len(),
        forall|i: int| 0 <= i < j ==> (#[trigger] s[i]).0 <= p.0,
        j < s.len() ==> p.0 < s[j].0,
    ensures
        insert_pair(p, s) == s.insert(j, p),
    decreases j,
{
    if j == 0 {
        if s.len() == 0 {
            assert(insert_pair(p, s) =~= s.insert(0, p));
        } else {
            assert(insert_pair(p, s) =~= s.insert(0, p));
        }
    } else {
        assert(s[0].0 <= p.0);
        lemma_insert_pair_at(p, s.drop_first(), j - 1);
        assert(seq![s[0]] + s.drop_first().insert(j - 1, p) =~= s.insert(j, p));
    }
}

fn insert_pair_exec<T: Copy>(r: &mut Vec<(u64, T)>, p: (u64, T))
    ensures
        final(r)@ == insert_pair(p, old(r)@),
{
    let mut j: usize = 0;
    while j < r.len() && r[j].0 <= p.0
        invariant
            j <= r@.len(),
            forall|i: int| 0 <= i < j ==> (#[trigger] r@[i]).0 <= p.0,
            r@ == old(r)@,
        decreases r@.len() - j,
    {
        j = j + 1;
    }
    proof {
        lemma_insert_pair_at(p, r@, j as int);
    }
    r.insert(j, p);
}

fn sort_pairs_exec<T: Copy>(v: &Vec<(u64, T)>) -> (r: Vec<(u64, T)>)
    ensures
        r@ == sort_pairs(v@),
{
    let mut r: Vec<(u64, T)> = Vec::new();
    let mut k: usize = 0;
    while k < v.len()
        invariant
            k <= v@.len(),
            r@ == sort_pairs(v@.take(k as int)),
        decreases v@.len() - k,
    {
        proof {
            assert(v@.take(k + 1).drop_last() =~= v@.take(k as int));
            assert(v@.take(k + 1).last() == v@[k as int]);
        }
        insert_pair_exec(&mut r, v[k]);
        k = k + 1;
    }
    proof {
        assert(v@.take(k as int) =~= v@);
    }
    r
}

// ---------------------------------------------------------------------------
// Decimal formatting of the one-based positions.
// ---------------------------------------------------------------------------

/// The decimal digit character for `d` in 0..=9.
pub open spec fn digit_char(d: int) -> char {
    if d == 0 { '0' }
    else if d == 1 { '1' }
    else if d == 2 { '2' }
    else if d == 3 { '3' }
    else if d == 4 { '4' }
    else if d == 5 { '5' }
    else if d == 6 { '6' }
    else if d == 7 { '7' }
    else if d == 8 { '8' }
    else { '9' }
}

/// The plain decimal digits of `n`, most significant first.
pub open spec fn spec_decimal(n: int) -> Seq<char>
    recommends
        n >= 0,
    decreases n,
{
    if n < 10 {
        seq![digit_char(n)]
    } else {
        spec_decimal(n / 10) + seq![digit_char(n % 10)]
    }
}

/// `n` in decimal, zero-padded on the left to at least three digits.
pub open spec fn spec_index3(n: int) -> Seq<char>
    recommends
        n >= 0,
{
    if n < 10 {
        seq!['0', '0', digit_char(n)]
    } else if n < 100 {
        seq!['0'] + spec_decimal(n)
    } else {
        spec_decimal(n)
    }
}

fn digit_char_exec(d: usize) -> (r: char)
    requires
        d < 10,
    ensures
        r == digit_char(d as int),
{
    match d {
        0 => '0',
        1 => '1',
        2 => '2',
        3 => '3',
        4 => '4',
        5 => '5',
        6 => '6',
        7 => '7',
        8 => '8',
        _ => '9',
    }
}

pub fn push_decimal(out: &mut Vec<char>, n: usize)
    ensures
        final(out)@ == old(out)@ + spec_decimal(n as int),
    decreases n,
{
    if n < 10 {
        out.push(digit_char_exec(n));
        proof {
            assert(old(out)@.push(digit_char(n as int)) =~= old(out)@ + spec_decimal(n as int));
        }
    } else {
        push_decimal(out, n / 10);
        out.push(digit_char_exec(n % 10));
        proof {
            assert((old(out)@ + spec_decimal(n as int / 10)).push(digit_char(n as int % 10)) =~= old(
                out,
            )@ + spec_decimal(n as int));
        }
    }
}

fn push_index3(out: &mut Vec<char>, n: usize)
    ensures
        final(out)@ == old(out)@ + spec_index3(n as int),
{
    if n < 10 {
        out.push('0');
        out.push('0');
        out.push(digit_char_exec(n));
        proof {
            assert(old(out)@.push('0').push('0').push(digit_char(n as int)) =~= old(out)@
                + spec_index3(n as int));
        }
    } else if n < 100 {
        out.push('0');
        push_decimal(out, n);
        proof {
            assert(old(out)@.push('0') + spec_decimal(n as int) =~= old(out)@ + spec_index3(
                n as int,
            ));
        }
    } else {
        push_decimal(out, n);
    }
}

// ---------------------------------------------------------------------------
// The transposition encoding.
// ---------------------------------------------------------------------------

/// The character at position `i`, keyed by its code point and carrying its
/// one-based position.
pub open spec fn encode_pairs(s: Seq<char>) -> Seq<(u64, (char, usize))> {
    Seq::new(s.len(), |i: int| ((s[i] as u32) as u64, (s[i], (i + 1) as usize)))
}

/// The concatenated zero-padded positions of the sorted pairs.
pub open spec fn cat_indices(q: Seq<(u64, (char, usize))>) -> Seq<char>
    decreases q.len(),
{
    if q.len() == 0 {
        Seq::empty()
    } else {
        spec_index3(q[0].1.1 as int) + cat_indices(q.drop_first())
    }
}

/// What `codesmith28` returns: the characters in sorted order, a `|`
/// separator, then each character's original one-based position, zero-padded
/// to three digits (wider once positions pass 999).
pub open spec fn spec_codesmith(s: Seq<char>) -> Seq<char> {
    if s.len() == 0 {
        Seq::empty()
    } else {
        let sorted = sort_pairs(encode_pairs(s));
        Seq::new(sorted.len(), |i: int| sorted[i].1.0) + seq!['|'] + cat_indices(sorted)
    }
}

/// Applies the transposition encoding.
pub fn codesmith28(string: &str) -> (r: String)
    ensures
        r@ == spec_codesmith(string@),
{
    let cs = chars_of(string);
    if cs.len() == 0 {
        return String::new();
    }
    let mut pairs: Vec<(u64, (char, usize))> = Vec::new();
    let mut i: usize = 0;
    while i < cs.len()
        invariant
            i <= cs@.len(),
            cs@ == string@,
            pairs@ =~= encode_pairs(string@).take(i as int),
        decreases cs@.len() - i,
    {
        let c = cs[i];
        pairs.push(((c as u32) as u64, (c, i + 1)));
        i = i + 1;
    }
    proof {
        assert(pairs@ =~= encode_pairs(string@));
    }
    let sorted = sort_pairs_exec(&pairs);
    let ghost sortedv = sorted@;

    let mut out: Vec<char> = Vec::new();
    let mut i: usize = 0;
    while i < sorted.len()
        invariant
            i <= sorted@.len(),
            sorted@ == sortedv,
            out@ =~= Seq::new(sortedv.len(), |k: int| sortedv[k].1.0).take(i as int),
        decreases sorted@.len() - i,
    {
        out.push(sorted[i].1.0);
        i = i + 1;
    }
    out.push('|');
    proof {
        assert(out@ =~= Seq::new(sortedv.len(), |k: int| sortedv[k].1.0) + seq!['|']);
        assert(sortedv.skip(0) =~= sortedv);
    }
    let ghost head = out@;
    let mut i: usize = 0;
    while i < sorted.len()
        invariant
            i <= sorted@.len(),
            sorted@ == sortedv,
            out@ + cat_indices(sortedv.skip(i as int)) =~= head + cat_indices(sortedv),
        decreases sorted@.len() - i,
    {
        proof {
            assert(sortedv.skip(i as int).drop_first() =~= sortedv.skip(i + 1));
            assert(sortedv.skip(i as int)[0] == sortedv[i as int]);
        }
        push_index3(&mut out, sorted[i].1.1);
        i = i + 1;
    }
    proof {
        assert(cat_indices(sortedv.skip(sortedv.len() as int)) =~= Seq::<char>::empty());
        assert(out@ =~= head + cat_indices(sortedv));
    }
    string_of_chars(&out)
}

// ---------------------------------------------------------------------------
// The decoder for the transposition encoding.
// ---------------------------------------------------------------------------

/// How many times `c` occurs in `s`.
pub open spec fn count_occ(s: Seq<char>, c: char) -> int
    decreases s.len(),
{
    if s.len() == 0 {
        0
    } else {
        (if s[0] == c { 1int } else { 0int }) + count_occ(s.drop_first(), c)
    }
}

/// The index of the first occurrence of `c` in `s` (`s.len()` if absent).
pub open spec fn first_occ(s: Seq<char>, c: char) -> int
    decreases s.len(),
{
    if s.len() == 0 {
        0
    } else if s[0] == c {
        0
    } else {
        1 + first_occ(s.drop_first(), c)
    }
}

/// The numeric value of a decimal digit character.
pub open spec fn digit_val(c: char) -> Option<int> {
    if c == '0' { Some(0int) }
    else if c == '1' { Some(1int) }
    else if c == '2' { Some(2int) }
    else if c == '3' { Some(3int) }
    else if c == '4' { Some(4int) }
    else if c == '5' { Some(5int) }
    else if c == '6' { Some(6int) }
    else if c == '7' { Some(7int) }
    else if c == '8' { Some(8int) }
    else if c == '9' { Some(9int) }
    else { None }
}

/// What parsing one three-character index chunk yields: three digits, or a
/// leading plus sign and two digits, as the standard integer parser accepts.
pub open spec fn parse_chunk(c0: char, c1: char, c2: char) -> Option<usize> {
    match (digit_val(c0), digit_val(c1), digit_val(c2)) {
        (Some(a), Some(b), Some(c)) => Some((100 * a + 10 * b + c) as usize),
        (None, Some(b), Some(c)) => if c0 == '+' {
            Some((10 * b + c) as usize)
        } else {
            None
        },
        _ => None,
    }
}

/// The successfully parsed index chunks of `y`, in order; chunks that do not
/// parse are dropped.
pub open spec fn parse_chunks(y: Seq<char>) -> Seq<usize>
    decreases y.len(),
{
    if y.len() < 3 {
        Seq::empty()
    } else {
        match parse_chunk(y[0], y[1], y[2]) {
            Some(n) => seq![n] + parse_chunks(y.skip(3)),
            None => parse_chunks(y.skip(3)),
        }
    }
}

/// What `decode_codesmith28` returns: empty unless the input has exactly one
/// `|`, the index part's length is a multiple of three, and then the
/// characters reordered by their parsed positions (stable for equal
/// positions, pairing indices with characters in order).
pub open spec fn spec_decode_codesmith(s: Seq<char>) -> Seq<char> {
    if s.len() == 0 {
        Seq::empty()
    } else if count_occ(s, '|') != 1 {
        Seq::empty()
    } else {
        let k = first_occ(s, '|');
        let x = s.take(k);
        let y = s.skip(k + 1);
        if y.len() % 3 != 0 {
            Seq::empty()
        } else {
            let idxs = parse_chunks(y);
            let m = if idxs.len() <= x.len() { idxs.len() as int } else { x.len() as int };
            let sorted = sort_pairs(Seq::new(m as nat, |i: int| (idxs[i] as u64, x[i])));
            Seq::new(m as nat, |i: int| sorted[i].1)
        }
    }
}

proof fn lemma_first_occ_at(s: Seq<char>, c: char, j: int)
    requires
        0 <= j < s.len(),
        s[j] == c,
        forall|i: int| 0 <= i < j ==> s[i] != c,
    ensures
        first_occ(s, c) == j,
    decreases j,
{
    if j == 0 {
    } else {
        lemma_first_occ_at(s.drop_first(), c, j - 1);
    }
}

proof fn lemma_count_occ_split(s: Seq<char>, c: char, i: int)
    requires
        0 <= i <= s.len(),
    ensures
        count_occ(s, c) == count_occ(s.take(i), c) + count_occ(s.skip(i), c),
    decreases i,
{
    if i == 0 {
        assert(s.take(0) =~= Seq::<char>::empty());
        assert(s.skip(0) =~= s);
    } else {
        lemma_count_occ_split(s.drop_first(), c, i - 1);
        assert(s.take(i).drop_first() =~= s.drop_first().take(i - 1));
        assert(s.skip(i) =~= s.drop_first().skip(i - 1));
        assert(count_occ(s.take(i), c) == (if s[0] == c { 1int } else { 0int }) + count_occ(
            s.drop_first().take(i - 1),
            c,
        ));
    }
}

fn parse_chunk_exec(c0: char, c1: char, c2: char) -> (r: Option<usize>)
    ensures
        r == parse_chunk(c0, c1, c2),
{
    let d0 = digit_val_exec(c0);
    let d1 = digit_val_exec(c1);
    let d2 = digit_val_exec(c2);
    match (d0, d1, d2) {
        (Some(a), Some(b), Some(c)) => Some(100 * (a as usize) + 10 * (b as usize) + (c as usize)),
        (None, Some(b), Some(c)) => {
            if c0 == '+' {
                Some(10 * (b as usize) + (c as usize))
            } else {
                None
            }
        },
        _ => None,
    }
}

fn digit_val_exec(c: char) -> (r: Option<u8>)
    ensures
        match r {
            Some(v) => digit_val(c) == Some(v as int),
            None => digit_val(c) is None,
        },
{
    match c {
        '0' => Some(0),
        '1' => Some(1),
        '2' => Some(2),
        '3' => Some(3),
        '4' => Some(4),
        '5' => Some(5),
        '6' => Some(6),
        '7' => Some(7),
        '8' => Some(8),
        '9' => Some(9),
        _ => None,
    }
}

/// Decodes the transposition encoding; malformed input yields the empty
/// string, as the encoder's counterpart parser always has.
pub fn decode_codesmith28(encrypted: &str) -> (r: String)
    ensures
        r@ == spec_decode_codesmith(encrypted@),
{
    let cs = chars_of(encrypted);
    if cs.len() == 0 {
        return String::new();
    }

    // Count the separators and find the first one.
    let mut cnt: usize = 0;
    let mut sep: usize = 0;
    let mut found: bool = false;
    let mut i: usize = 0;
    proof {
        assert(cs@.skip(0) =~= cs@);
    }
    while i < cs.len()
        invariant
            i <= cs@.len(),
            cnt <= i,
            count_occ(cs@, '|') == cnt + count_occ(cs@.skip(i as int), '|'),
            found ==> sep < i && cs@[sep as int] == '|' && (forall|j: int|
                0 <= j < sep ==> cs@[j] != '|'),
            !found ==> cnt == 0 && (forall|j: int| 0 <= j < i ==> cs@[j] != '|'),
        decreases cs@.len() - i,
    {
        proof {
            assert(cs@.skip(i as int)[0] == cs@[i as int]);
            assert(cs@.skip(i as int).drop_first() =~= cs@.skip(i + 1));
        }
        if cs[i] == '|' {
            cnt = cnt + 1;
            if !found {
                sep = i;
                found = true;
            }
        }
        i = i + 1;
    }
    proof {
        assert(cs@.skip(cs@.len() as int) =~= Seq::<char>::empty());
    }
    if cnt != 1 {
        return String::new();
    }
    proof {
        lemma_first_occ_at(cs@, '|', sep as int);
    }

    // Split at the separator.
    let mut x: Vec<char> = Vec::new();
    let mut i: usize = 0;
    while i < sep
        invariant
            i <= sep < cs@.len(),
            x@ =~= cs@.take(sep as int).take(i as int),
        decreases sep - i,
    {
        x.push(cs[i]);
        i = i + 1;
    }
    let mut y: Vec<char> = Vec::new();
    let mut i: usize = sep + 1;
    while i < cs.len()
        invariant
            sep + 1 <= i <= cs@.len(),
            y@ =~= cs@.skip(sep + 1).take(i - sep - 1),
        decreases cs@.len() - i,
    {
        proof {
            assert(cs@.skip(sep + 1)[i - sep - 1] == cs@[i as int]);
        }
        y.push(cs[i]);
        i = i + 1;
    }
    proof {
        assert(x@ =~= cs@.take(sep as int));
        assert(y@ =~= cs@.skip(sep + 1));
    }

    if y.len() % 3 != 0 {
        return String::new();
    }

    // Parse the index chunks.
    let ghost yv = y@;
    let mut idxs: Vec<usize> = Vec::new();
    let mut j: usize = 0;
    while j < y.len()
        invariant
            j <= yv.len(),
            y@ == yv,
            j % 3 == 0,
            yv.len() % 3 == 0,
            parse_chunks(yv) =~= idxs@ + parse_chunks(yv.skip(j as int)),
        decreases yv.len() - j,
    {
        proof {
            assert(j + 3 <= yv.len());
            assert(yv.skip(j as int)[0] == yv[j as int]);
            assert(yv.skip(j as int)[1] == yv[j + 1]);
            assert(yv.skip(j as int)[2] == yv[j + 2]);
            assert(yv.skip(j as int).skip(3) =~= yv.skip(j + 3));
        }
        match parse_chunk_exec(y[j], y[j + 1], y[j + 2]) {
            Some(n) => {
                idxs.push(n);
            },
            None => {},
        }
        j = j + 3;
    }
    proof {
        assert(yv.skip(j as int).len() < 3);
        assert(parse_chunks(yv) =~= idxs@);
    }

    // Pair indices with characters, order by index, and read off.
    let m: usize = if idxs.len() <= x.len() {
        idxs.len()
    } else {
        x.len()
    };
    let mut pairs: Vec<(u64, char)> = Vec::new();
    let mut i: usize = 0;
    while i < m
        invariant
            i <= m,
            m <= idxs@.len() && m <= x@.len(),
            pairs@ =~= Seq::new(m as nat, |k: int| (idxs@[k] as u64, x@[k])).take(i as int),
        decreases m - i,
    {
        pairs.push((idxs[i] as u64, x[i]));
        i = i + 1;
    }
    proof {
        assert(pairs@ =~= Seq::new(m as nat, |k: int| (idxs@[k] as u64, x@[k])));
    }
    let sorted = sort_pairs_exec(&pairs);
    let mut out: Vec<char> = Vec::new();
    let mut i: usize = 0;
    while i < sorted.len()
        invariant
            i <= sorted@.len(),
            sorted@ == sort_pairs(pairs@),
            out@ =~= Seq::new(sorted@.len(), |k: int| sorted@[k].1).take(i as int),
        decreases sorted@.len() - i,
    {
        out.push(sorted[i].1);
        i = i + 1;
    }
    proof {
        assert(out@ =~= Seq::new(sorted@.len(), |k: int| sorted@[k].1));
        lemma_sort_pairs_len(pairs@);
        assert(out@ =~= spec_decode_codesmith(encrypted@));
    }
    string_of_chars(&out)
}

} // verus!
