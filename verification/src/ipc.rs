//! The daemon's state record and the request/response wire protocol.
//!
//! Each request/response pair is one self-delimiting JSON message:
//! `Unlock` carries the password in an object, the other commands are bare
//! strings, and `StateInfo` carries the daemon's state record with key
//! material as byte arrays. Writers and parsers follow the same canonical
//! form as the rest of the library, with round-trip lemmas.

use vstd::prelude::*;

use crate::jsontext::{
    expect_lit, jstr, lemma_sp_lit, lemma_sp_string, lemma_sp_u8, parse_string, parse_u8_text,
    push_jstr, push_lit, push_u8_text, sp_lit, sp_string, sp_u8,
};
use crate::text::{chars_of, string_of_chars};
use crate::transform::spec_decimal;

verus! {

/// The daemon's session state: the canonical record of whether the vault
/// is unlocked, and the key material while it is.
pub struct DaemonState {
    pub unlocked: bool,
    pub encryption_key: Option<Vec<u8>>,
    pub salt: Option<Vec<u8>>,
}

/// Mathematical model of a [`DaemonState`].
pub ghost struct DaemonStateView {
    pub unlocked: bool,
    pub encryption_key: Option<Seq<u8>>,
    pub salt: Option<Seq<u8>>,
}

impl View for DaemonState {
    type V = DaemonStateView;

    open spec fn view(&self) -> DaemonStateView {
        DaemonStateView {
            unlocked: self.unlocked,
            encryption_key: self.encryption_key.deep_view(),
            salt: self.salt.deep_view(),
        }
    }
}

/// The locked state: no key material.
pub open spec fn locked_state() -> DaemonStateView {
    DaemonStateView { unlocked: false, encryption_key: None, salt: None }
}

/// The state invariant: key material is present exactly while unlocked.
pub open spec fn state_consistent(s: DaemonStateView) -> bool {
    &&& s.encryption_key is Some <==> s.unlocked
    &&& s.salt is Some <==> s.unlocked
}

impl Default for DaemonState {
    /// A fresh daemon starts locked, holding nothing.
    fn default() -> (r: DaemonState)
        ensures
            r@ == locked_state(),
    {
        DaemonState { unlocked: false, encryption_key: None, salt: None }
    }
}

impl Clone for DaemonState {
    fn clone(&self) -> (r: DaemonState)
        ensures
            r@ == self@,
    {
        let key = match &self.encryption_key {
            Some(k) => Some(k.clone()),
            None => None,
        };
        let salt = match &self.salt {
            Some(s) => Some(s.clone()),
            None => None,
        };
        let r = DaemonState { unlocked: self.unlocked, encryption_key: key, salt };
        proof {
            assert(r@.encryption_key =~~= self@.encryption_key);
            assert(r@.salt =~~= self@.salt);
        }
        r
    }
}

/// A request to the daemon.
pub enum DaemonCommand {
    Unlock { password: String },
    Lock,
    GetState,
    Exit,
}

/// Mathematical model of a [`DaemonCommand`].
pub ghost enum CommandView {
    Unlock(Seq<char>),
    Lock,
    GetState,
    Exit,
}

impl View for DaemonCommand {
    type V = CommandView;

    open spec fn view(&self) -> CommandView {
        match self {
            DaemonCommand::Unlock { password } => CommandView::Unlock(password@),
            DaemonCommand::Lock => CommandView::Lock,
            DaemonCommand::GetState => CommandView::GetState,
            DaemonCommand::Exit => CommandView::Exit,
        }
    }
}

/// The daemon's answer.
pub enum DaemonResponse {
    Success,
    StateInfo(DaemonState),
    Error(String),
}

/// Mathematical model of a [`DaemonResponse`].
pub ghost enum ResponseView {
    Success,
    StateInfo(DaemonStateView),
    Error(Seq<char>),
}

impl View for DaemonResponse {
    type V = ResponseView;

    open spec fn view(&self) -> ResponseView {
        match self {
            DaemonResponse::Success => ResponseView::Success,
            DaemonResponse::StateInfo(s) => ResponseView::StateInfo(s@),
            DaemonResponse::Error(m) => ResponseView::Error(m@),
        }
    }
}

// ---------------------------------------------------------------------------
// Byte arrays on the wire.
// ---------------------------------------------------------------------------

/// The decimal bytes after the first.
pub open spec fn ser_u8s_tail(bs: Seq<u8>) -> Seq<char>
    decreases bs.len(),
{
    if bs.len() == 0 {
        Seq::empty()
    } else {
        seq![','] + spec_decimal(bs[0] as int) + ser_u8s_tail(bs.drop_first())
    }
}

/// A byte sequence as a JSON array of decimals.
pub open spec fn ser_u8s(bs: Seq<u8>) -> Seq<char> {
    if bs.len() == 0 {
        seq!['[', ']']
    } else {
        seq!['['] + spec_decimal(bs[0] as int) + ser_u8s_tail(bs.drop_first()) + seq![']']
    }
}

/// Parses the bytes after the first: a closing bracket, or a comma and
/// another decimal.
pub open spec fn sp_u8s_more(s: Seq<char>) -> Option<(Seq<u8>, Seq<char>)>
    decreases s.len(),
{
    if sp_lit(s, "]"@) is Some {
        Some((Seq::empty(), sp_lit(s, "]"@)->0))
    } else {
        match sp_lit(s, ","@) {
            None => None,
            Some(s1) => match sp_u8(s1) {
                None => None,
                Some((n, s2)) => if s2.len() < s.len() {
                    match sp_u8s_more(s2) {
                        Some((bs, rest)) => Some((seq![n] + bs, rest)),
                        None => None,
                    }
                } else {
                    None
                },
            },
        }
    }
}

/// Parses a byte array.
pub open spec fn sp_u8s(s: Seq<char>) -> Option<(Seq<u8>, Seq<char>)> {
    match sp_lit(s, "["@) {
        None => None,
        Some(s1) => {
            if sp_lit(s1, "]"@) is Some {
                Some((Seq::empty(), sp_lit(s1, "]"@)->0))
            } else {
                match sp_u8(s1) {
                    None => None,
                    Some((n, s2)) => if s2.len() < s1.len() {
                        match sp_u8s_more(s2) {
                            Some((bs, rest)) => Some((seq![n] + bs, rest)),
                            None => None,
                        }
                    } else {
                        None
                    },
                }
            }
        },
    }
}

proof fn lemma_sp_u8s_more(bs: Seq<u8>, rest: Seq<char>)
    ensures
        sp_u8s_more(ser_u8s_tail(bs) + seq![']'] + rest) == Some((bs, rest)),
    decreases bs.len(),
{
    reveal_strlit("]");
    reveal_strlit(",");
    if bs.len() == 0 {
        let s = ser_u8s_tail(bs) + seq![']'] + rest;
        assert(s =~= "]"@ + rest);
        lemma_sp_lit("]"@, rest);
    } else {
        let b = bs[0];
        let tail = bs.drop_first();
        let inner = ser_u8s_tail(tail) + seq![']'] + rest;
        let s = ser_u8s_tail(bs) + seq![']'] + rest;
        let s1 = spec_decimal(b as int) + inner;
        assert(s =~= ","@ + s1);
        if sp_lit(s, "]"@) is Some {
            assert(s.take(1)[0] == s[0]);
            assert(false);
        }
        lemma_sp_lit(","@, s1);
        assert(inner[0] == ',' || inner[0] == ']');
        lemma_sp_u8(b, inner);
        assert(inner.len() < s1.len() + 1);
        lemma_sp_u8s_more(tail, rest);
        assert(seq![b] + tail =~= bs);
    }
}

/// Parsing inverts serialization for byte arrays.
pub proof fn lemma_sp_u8s(bs: Seq<u8>, rest: Seq<char>)
    ensures
        sp_u8s(ser_u8s(bs) + rest) == Some((bs, rest)),
{
    reveal_strlit("[");
    reveal_strlit("]");
    let s = ser_u8s(bs) + rest;
    if bs.len() == 0 {
        assert(s =~= "["@ + ("]"@ + rest));
        lemma_sp_lit("["@, "]"@ + rest);
        lemma_sp_lit("]"@, rest);
    } else {
        let b = bs[0];
        let tail = bs.drop_first();
        let inner = ser_u8s_tail(tail) + seq![']'] + rest;
        let s1 = spec_decimal(b as int) + inner;
        assert(s =~= "["@ + s1);
        lemma_sp_lit("["@, s1);
        if sp_lit(s1, "]"@) is Some {
            assert(s1.take(1)[0] == s1[0]);
            lemma_decimal_head(b as int);
            assert(false);
        }
        assert(inner[0] == ',' || inner[0] == ']');
        lemma_sp_u8(b, inner);
        assert(inner.len() < s1.len());
        lemma_sp_u8s_more(tail, rest);
        assert(seq![b] + tail =~= bs);
    }
}

/// A decimal never starts with a bracket.
proof fn lemma_decimal_head(n: int)
    requires
        0 <= n <= 255,
    ensures
        spec_decimal(n).len() >= 1,
        crate::transform::digit_val(spec_decimal(n)[0]) is Some,
{
    if n >= 100 {
        assert(spec_decimal(n / 100) =~= seq![crate::transform::digit_char(n / 100)]);
        assert(spec_decimal(n / 10) =~= seq![
            crate::transform::digit_char(n / 100),
            crate::transform::digit_char((n / 10) % 10),
        ]);
    } else if n >= 10 {
        assert(spec_decimal(n / 10) =~= seq![crate::transform::digit_char(n / 10)]);
    }
}

/// Writes a byte array.
fn push_u8s(out: &mut Vec<char>, bs: &Vec<u8>)
    ensures
        final(out)@ == old(out)@ + ser_u8s(bs@),
{
    out.push('[');
    let mut i: usize = 0;
    while i < bs.len()
        invariant
            i <= bs@.len(),
            out@ == old(out)@ + seq!['['] + ser_head_items(bs@.take(i as int)),
        decreases bs@.len() - i,
    {
        proof {
            assert(bs@.take(i + 1) =~= bs@.take(i as int).push(bs@[i as int]));
            lemma_head_items_snoc(bs@.take(i as int), bs@[i as int]);
        }
        if i > 0 {
            out.push(',');
        }
        push_u8_text(out, bs[i]);
        proof {
            assert(out@ =~= old(out)@ + seq!['['] + ser_head_items(bs@.take(i + 1)));
        }
        i = i + 1;
    }
    out.push(']');
    proof {
        assert(bs@.take(i as int) =~= bs@);
        assert(out@ =~= old(out)@ + ser_u8s(bs@));
    }
}

/// The array contents without the brackets.
pub open spec fn ser_head_items(bs: Seq<u8>) -> Seq<char> {
    if bs.len() == 0 {
        Seq::empty()
    } else {
        spec_decimal(bs[0] as int) + ser_u8s_tail(bs.drop_first())
    }
}

proof fn lemma_u8s_tail_snoc(bs: Seq<u8>, b: u8)
    ensures
        ser_u8s_tail(bs.push(b)) == ser_u8s_tail(bs) + seq![','] + spec_decimal(b as int),
    decreases bs.len(),
{
    if bs.len() == 0 {
        assert(bs.push(b)[0] == b);
        assert(bs.push(b).drop_first() =~= Seq::<u8>::empty());
        assert(ser_u8s_tail(Seq::<u8>::empty()) == Seq::<char>::empty());
        assert(ser_u8s_tail(bs.push(b)) == seq![','] + spec_decimal(b as int) + ser_u8s_tail(
            bs.push(b).drop_first(),
        ));
        assert(seq![','] + spec_decimal(b as int) + Seq::<char>::empty() =~= ser_u8s_tail(bs)
            + seq![','] + spec_decimal(b as int));
    } else {
        lemma_u8s_tail_snoc(bs.drop_first(), b);
        assert(bs.push(b).drop_first() =~= bs.drop_first().push(b));
        assert(bs.push(b)[0] == bs[0]);
        assert(seq![','] + spec_decimal(bs[0] as int) + (ser_u8s_tail(bs.drop_first()) + seq![',']
            + spec_decimal(b as int)) =~= (seq![','] + spec_decimal(bs[0] as int) + ser_u8s_tail(
            bs.drop_first(),
        )) + seq![','] + spec_decimal(b as int));
    }
}

proof fn lemma_head_items_snoc(bs: Seq<u8>, b: u8)
    ensures
        ser_head_items(bs.push(b)) == if bs.len() == 0 {
            spec_decimal(b as int)
        } else {
            ser_head_items(bs) + seq![','] + spec_decimal(b as int)
        },
{
    if bs.len() == 0 {
        assert(bs.push(b)[0] == b);
        assert(bs.push(b).drop_first() =~= Seq::<u8>::empty());
        assert(spec_decimal(b as int) + ser_u8s_tail(Seq::<u8>::empty()) =~= spec_decimal(
            b as int,
        ));
    } else {
        lemma_u8s_tail_snoc(bs.drop_first(), b);
        assert(bs.push(b)[0] == bs[0]);
        assert(bs.push(b).drop_first() =~= bs.drop_first().push(b));
        assert(spec_decimal(bs[0] as int) + (ser_u8s_tail(bs.drop_first()) + seq![',']
            + spec_decimal(b as int)) =~= (spec_decimal(bs[0] as int) + ser_u8s_tail(
            bs.drop_first(),
        )) + seq![','] + spec_decimal(b as int));
    }
}

/// Parses a byte array starting at `pos`.
fn parse_u8s(input: &Vec<char>, pos: usize) -> (r: Option<(Vec<u8>, usize)>)
    requires
        pos <= input@.len(),
    ensures
        r is Some <==> sp_u8s(input@.skip(pos as int)) is Some,
        r matches Some((bs, np)) ==> pos <= np <= input@.len() && sp_u8s(input@.skip(pos as int))
            == Some((bs@, input@.skip(np as int))),
{
    let p1 = match expect_lit(input, pos, "[") {
        Some(p) => p,
        None => {
            return None;
        },
    };
    match expect_lit(input, p1, "]") {
        Some(p2) => {
            let empty: Vec<u8> = Vec::new();
            return Some((empty, p2));
        },
        None => {},
    }
    let (b0, mut p) = match parse_u8_text(input, p1) {
        Some(r) => r,
        None => {
            return None;
        },
    };
    let mut acc: Vec<u8> = Vec::new();
    acc.push(b0);
    proof {
        assert(acc@ =~= seq![b0]);
        match sp_u8s_more(input@.skip(p as int)) {
            Some((bs, rest)) => {
                assert(acc@ + bs =~= seq![b0] + bs);
            },
            None => {},
        }
    }
    loop
        invariant
            pos <= p <= input@.len(),
            match sp_u8s_more(input@.skip(p as int)) {
                Some((bs, rest)) => sp_u8s(input@.skip(pos as int)) == Some((acc@ + bs, rest)),
                None => sp_u8s(input@.skip(pos as int)) is None,
            },
        decreases input@.len() - p,
    {
        match expect_lit(input, p, "]") {
            Some(p2) => {
                proof {
                    assert(acc@ + Seq::<u8>::empty() =~= acc@);
                }
                return Some((acc, p2));
            },
            None => {},
        }
        let pc = match expect_lit(input, p, ",") {
            Some(p2) => p2,
            None => {
                return None;
            },
        };
        let (b, p2) = match parse_u8_text(input, pc) {
            Some(r) => r,
            None => {
                return None;
            },
        };
        if p2 <= p {
            return None;
        }
        let ghost av = acc@;
        acc.push(b);
        p = p2;
        proof {
            match sp_u8s_more(input@.skip(p as int)) {
                Some((bs2, rest)) => {
                    assert(av + (seq![b] + bs2) =~= av.push(b) + bs2);
                },
                None => {},
            }
        }
    }
}

// ---------------------------------------------------------------------------
// Optional byte arrays and booleans.
// ---------------------------------------------------------------------------

/// `null` or a byte array.
pub open spec fn ser_opt_bytes(o: Option<Seq<u8>>) -> Seq<char> {
    match o {
        Some(bs) => ser_u8s(bs),
        None => "null"@,
    }
}

/// Parses `null` or a byte array.
pub open spec fn sp_opt_bytes(s: Seq<char>) -> Option<(Option<Seq<u8>>, Seq<char>)> {
    if sp_lit(s, "null"@) is Some {
        Some((None, sp_lit(s, "null"@)->0))
    } else {
        match sp_u8s(s) {
            Some((bs, rest)) => Some((Some(bs), rest)),
            None => None,
        }
    }
}

proof fn lemma_sp_opt_bytes(o: Option<Seq<u8>>, rest: Seq<char>)
    ensures
        sp_opt_bytes(ser_opt_bytes(o) + rest) == Some((o, rest)),
{
    reveal_strlit("null");
    match o {
        None => {
            lemma_sp_lit("null"@, rest);
        },
        Some(bs) => {
            lemma_sp_u8s(bs, rest);
            let s = ser_u8s(bs) + rest;
            assert(s[0] == '[');
            if sp_lit(s, "null"@) is Some {
                assert(s.take(4)[0] == s[0]);
                assert(false);
            }
        },
    }
}

fn push_opt_bytes(out: &mut Vec<char>, o: &Option<Vec<u8>>)
    ensures
        final(out)@ == old(out)@ + ser_opt_bytes(o.deep_view()),
{
    match o {
        Some(bs) => {
            push_u8s(out, bs);
            proof {
                assert(bs.deep_view() =~= bs@);
            }
        },
        None => push_lit(out, "null"),
    }
}

fn parse_opt_bytes(input: &Vec<char>, pos: usize) -> (r: Option<(Option<Vec<u8>>, usize)>)
    requires
        pos <= input@.len(),
    ensures
        r is Some <==> sp_opt_bytes(input@.skip(pos as int)) is Some,
        r matches Some((o, np)) ==> pos <= np <= input@.len() && sp_opt_bytes(
            input@.skip(pos as int),
        ) == Some((o.deep_view(), input@.skip(np as int))),
{
    match expect_lit(input, pos, "null") {
        Some(np) => Some((None, np)),
        None => {
            match parse_u8s(input, pos) {
                Some((bs, np)) => Some((Some(bs), np)),
                None => None,
            }
        },
    }
}

/// `true` or `false`.
pub open spec fn ser_bool(b: bool) -> Seq<char> {
    if b {
        "true"@
    } else {
        "false"@
    }
}

/// Parses `true` or `false`.
pub open spec fn sp_bool(s: Seq<char>) -> Option<(bool, Seq<char>)> {
    if sp_lit(s, "true"@) is Some {
        Some((true, sp_lit(s, "true"@)->0))
    } else if sp_lit(s, "false"@) is Some {
        Some((false, sp_lit(s, "false"@)->0))
    } else {
        None
    }
}

proof fn lemma_sp_bool(b: bool, rest: Seq<char>)
    ensures
        sp_bool(ser_bool(b) + rest) == Some((b, rest)),
{
    reveal_strlit("true");
    reveal_strlit("false");
    if b {
        lemma_sp_lit("true"@, rest);
    } else {
        lemma_sp_lit("false"@, rest);
        let s = "false"@ + rest;
        if sp_lit(s, "true"@) is Some {
            assert(s.take(4)[0] == s[0]);
            assert(false);
        }
    }
}

fn parse_bool(input: &Vec<char>, pos: usize) -> (r: Option<(bool, usize)>)
    requires
        pos <= input@.len(),
    ensures
        r is Some <==> sp_bool(input@.skip(pos as int)) is Some,
        r matches Some((b, np)) ==> pos <= np <= input@.len() && sp_bool(input@.skip(pos as int))
            == Some((b, input@.skip(np as int))),
{
    match expect_lit(input, pos, "true") {
        Some(np) => Some((true, np)),
        None => {
            match expect_lit(input, pos, "false") {
                Some(np) => Some((false, np)),
                None => None,
            }
        },
    }
}

// ---------------------------------------------------------------------------
// The daemon state record on the wire.
// ---------------------------------------------------------------------------

/// The state record as a JSON object.
pub open spec fn ser_state_msg(s: DaemonStateView) -> Seq<char> {
    "{\"unlocked\":"@ + ser_bool(s.unlocked) + ",\"encryption_key\":"@ + ser_opt_bytes(
        s.encryption_key,
    ) + ",\"salt\":"@ + ser_opt_bytes(s.salt) + "}"@
}

/// Parses the state record.
pub open spec fn sp_state_msg(s: Seq<char>) -> Option<(DaemonStateView, Seq<char>)> {
    match sp_lit(s, "{\"unlocked\":"@) {
        None => None,
        Some(s1) => match sp_bool(s1) {
            None => None,
            Some((unlocked, s2)) => match sp_lit(s2, ",\"encryption_key\":"@) {
                None => None,
                Some(s3) => match sp_opt_bytes(s3) {
                    None => None,
                    Some((key, s4)) => match sp_lit(s4, ",\"salt\":"@) {
                        None => None,
                        Some(s5) => match sp_opt_bytes(s5) {
                            None => None,
                            Some((salt, s6)) => match sp_lit(s6, "}"@) {
                                None => None,
                                Some(s7) => Some(
                                    (
                                        DaemonStateView {
                                            unlocked,
                                            encryption_key: key,
                                            salt,
                                        },
                                        s7,
                                    ),
                                ),
                            },
                        },
                    },
                },
            },
        },
    }
}

proof fn lemma_sp_state_msg(s: DaemonStateView, rest: Seq<char>)
    ensures
        sp_state_msg(ser_state_msg(s) + rest) == Some((s, rest)),
{
    let t6 = "}"@ + rest;
    let t5 = ser_opt_bytes(s.salt) + t6;
    let t4 = ",\"salt\":"@ + t5;
    let t3 = ser_opt_bytes(s.encryption_key) + t4;
    let t2 = ",\"encryption_key\":"@ + t3;
    let t1 = ser_bool(s.unlocked) + t2;
    let t0 = "{\"unlocked\":"@ + t1;
    assert(ser_state_msg(s) + rest =~= t0);
    lemma_sp_lit("{\"unlocked\":"@, t1);
    lemma_sp_bool(s.unlocked, t2);
    assert(ser_bool(s.unlocked) + t2 =~= t1);
    lemma_sp_lit(",\"encryption_key\":"@, t3);
    lemma_sp_opt_bytes(s.encryption_key, t4);
    assert(ser_opt_bytes(s.encryption_key) + t4 =~= t3);
    lemma_sp_lit(",\"salt\":"@, t5);
    lemma_sp_opt_bytes(s.salt, t6);
    assert(ser_opt_bytes(s.salt) + t6 =~= t5);
    lemma_sp_lit("}"@, rest);
}

fn push_state_msg(out: &mut Vec<char>, s: &DaemonState)
    ensures
        final(out)@ == old(out)@ + ser_state_msg(s@),
{
    push_lit(out, "{\"unlocked\":");
    if s.unlocked {
        push_lit(out, "true");
    } else {
        push_lit(out, "false");
    }
    push_lit(out, ",\"encryption_key\":");
    push_opt_bytes(out, &s.encryption_key);
    push_lit(out, ",\"salt\":");
    push_opt_bytes(out, &s.salt);
    push_lit(out, "}");
    proof {
        assert(final(out)@ =~= old(out)@ + ser_state_msg(s@));
    }
}

fn parse_state_msg(input: &Vec<char>, pos: usize) -> (r: Option<(DaemonState, usize)>)
    requires
        pos <= input@.len(),
    ensures
        r is Some <==> sp_state_msg(input@.skip(pos as int)) is Some,
        r matches Some((s, np)) ==> pos <= np <= input@.len() && sp_state_msg(
            input@.skip(pos as int),
        ) == Some((s@, input@.skip(np as int))),
{
    let p1 = match expect_lit(input, pos, "{\"unlocked\":") {
        Some(p) => p,
        None => {
            return None;
        },
    };
    let (unlocked, p2) = match parse_bool(input, p1) {
        Some(r) => r,
        None => {
            return None;
        },
    };
    let p3 = match expect_lit(input, p2, ",\"encryption_key\":") {
        Some(p) => p,
        None => {
            return None;
        },
    };
    let (key, p4) = match parse_opt_bytes(input, p3) {
        Some(r) => r,
        None => {
            return None;
        },
    };
    let p5 = match expect_lit(input, p4, ",\"salt\":") {
        Some(p) => p,
        None => {
            return None;
        },
    };
    let (salt, p6) = match parse_opt_bytes(input, p5) {
        Some(r) => r,
        None => {
            return None;
        },
    };
    let p7 = match expect_lit(input, p6, "}") {
        Some(p) => p,
        None => {
            return None;
        },
    };
    Some((DaemonState { unlocked, encryption_key: key, salt }, p7))
}


/// A complete state-mirror document: the record and nothing after it.
pub open spec fn sp_state_doc(s: Seq<char>) -> Option<DaemonStateView> {
    match sp_state_msg(s) {
        Some((st, rest)) => if rest.len() == 0 {
            Some(st)
        } else {
            None
        },
        None => None,
    }
}

/// Parsing inverts serialization for the persisted state record.
pub proof fn lemma_state_doc_round_trip(s: DaemonStateView)
    ensures
        sp_state_doc(ser_state_msg(s)) == Some(s),
{
    lemma_sp_state_msg(s, Seq::empty());
    assert(ser_state_msg(s) + Seq::<char>::empty() =~= ser_state_msg(s));
}

/// Writes the state record as the text persisted at the daemon's
/// state-mirror path.
pub fn encode_daemon_state(s: &DaemonState) -> (r: String)
    ensures
        r@ == ser_state_msg(s@),
{
    let mut out: Vec<char> = Vec::new();
    push_state_msg(&mut out, s);
    string_of_chars(&out)
}

/// Reads a persisted state record back; unreadable text yields `None`
/// and the daemon starts locked.
pub fn parse_daemon_state(text: &str) -> (r: Option<DaemonState>)
    ensures
        r is Some <==> sp_state_doc(text@) is Some,
        r matches Some(st) ==> sp_state_doc(text@) == Some(st@),
{
    let cs = chars_of(text);
    proof {
        assert(cs@.skip(0) =~= cs@);
    }
    let (st, np) = match parse_state_msg(&cs, 0) {
        Some(r) => r,
        None => {
            return None;
        },
    };
    if np != cs.len() {
        proof {
            assert(cs@.skip(np as int).len() != 0);
        }
        return None;
    }
    proof {
        assert(cs@.skip(np as int).len() == 0);
    }
    Some(st)
}

// ---------------------------------------------------------------------------
// Commands and responses.
// ---------------------------------------------------------------------------

/// A command as one JSON message.
pub open spec fn ser_command(c: CommandView) -> Seq<char> {
    match c {
        CommandView::Unlock(password) => "{\"Unlock\":{\"password\":"@ + jstr(password) + "}}"@,
        CommandView::Lock => jstr("Lock"@),
        CommandView::GetState => jstr("GetState"@),
        CommandView::Exit => jstr("Exit"@),
    }
}

/// Parses one command message; the whole text must be consumed.
pub open spec fn sp_command(s: Seq<char>) -> Option<CommandView> {
    match sp_lit(s, "{\"Unlock\":{\"password\":"@) {
        Some(s1) => match sp_string(s1) {
            None => None,
            Some((password, s2)) => match sp_lit(s2, "}}"@) {
                Some(s3) => if s3.len() == 0 {
                    Some(CommandView::Unlock(password))
                } else {
                    None
                },
                None => None,
            },
        },
        None => match sp_string(s) {
            None => None,
            Some((name, rest)) => {
                if rest.len() != 0 {
                    None
                } else if name == "Lock"@ {
                    Some(CommandView::Lock)
                } else if name == "GetState"@ {
                    Some(CommandView::GetState)
                } else if name == "Exit"@ {
                    Some(CommandView::Exit)
                } else {
                    None
                }
            },
        },
    }
}

/// Parsing inverts serialization for commands.
pub proof fn lemma_command_round_trip(c: CommandView)
    ensures
        sp_command(ser_command(c)) == Some(c),
{
    reveal_strlit("{\"Unlock\":{\"password\":");
    reveal_strlit("Lock");
    reveal_strlit("GetState");
    reveal_strlit("Exit");
    match c {
        CommandView::Unlock(password) => {
            let t2 = "}}"@;
            let t1 = jstr(password) + t2;
            assert(ser_command(c) =~= "{\"Unlock\":{\"password\":"@ + t1);
            lemma_sp_lit("{\"Unlock\":{\"password\":"@, t1);
            lemma_sp_string(password, t2);
            assert(jstr(password) + t2 =~= t1);
            lemma_sp_lit("}}"@, Seq::empty());
            assert("}}"@ + Seq::<char>::empty() =~= "}}"@);
        },
        CommandView::Lock => {
            lemma_unit_command("Lock"@);
            assert(!("Lock"@ == "GetState"@)) by {
                reveal_strlit("Lock");
                reveal_strlit("GetState");
            }
        },
        CommandView::GetState => {
            lemma_unit_command("GetState"@);
            assert("GetState"@ != "Lock"@);
        },
        CommandView::Exit => {
            lemma_unit_command("Exit"@);
            assert("Exit"@ != "Lock"@ && "Exit"@ != "GetState"@);
        },
    }
}

/// A bare string message parses as that string, and is not the `Unlock`
/// object.
proof fn lemma_unit_command(name: Seq<char>)
    ensures
        sp_lit(jstr(name), "{\"Unlock\":{\"password\":"@) is None,
        sp_string(jstr(name)) == Some((name, Seq::<char>::empty())),
{
    reveal_strlit("{\"Unlock\":{\"password\":");
    lemma_sp_string(name, Seq::empty());
    assert(jstr(name) + Seq::<char>::empty() =~= jstr(name));
    let s = jstr(name);
    assert(s[0] == '"');
    if sp_lit(s, "{\"Unlock\":{\"password\":"@) is Some {
        assert(s.take("{\"Unlock\":{\"password\":"@.len() as int)[0] == s[0]);
        assert(false);
    }
}

/// Writes a command as its wire message.
pub fn encode_command(c: &DaemonCommand) -> (r: String)
    ensures
        r@ == ser_command(c@),
{
    let mut out: Vec<char> = Vec::new();
    match c {
        DaemonCommand::Unlock { password } => {
            push_lit(&mut out, "{\"Unlock\":{\"password\":");
            push_jstr(&mut out, password.as_str());
            push_lit(&mut out, "}}");
            proof {
                assert(out@ =~= ser_command(c@));
            }
        },
        DaemonCommand::Lock => {
            push_jstr(&mut out, "Lock");
            proof {
                assert(out@ =~= ser_command(c@));
            }
        },
        DaemonCommand::GetState => {
            push_jstr(&mut out, "GetState");
            proof {
                assert(out@ =~= ser_command(c@));
            }
        },
        DaemonCommand::Exit => {
            push_jstr(&mut out, "Exit");
            proof {
                assert(out@ =~= ser_command(c@));
            }
        },
    }
    string_of_chars(&out)
}

/// Reads a command off the wire. Unparseable requests yield `None`, which
/// the daemon answers with an error message, never by failing.
pub fn parse_command(text: &str) -> (r: Option<DaemonCommand>)
    ensures
        r is Some <==> sp_command(text@) is Some,
        r matches Some(c) ==> sp_command(text@) == Some(c@),
{
    let cs = chars_of(text);
    proof {
        assert(cs@.skip(0) =~= cs@);
    }
    match expect_lit(&cs, 0, "{\"Unlock\":{\"password\":") {
        Some(p1) => {
            let (password, p2) = match parse_string(&cs, p1) {
                Some(r) => r,
                None => {
                    return None;
                },
            };
            let p3 = match expect_lit(&cs, p2, "}}") {
                Some(p) => p,
                None => {
                    return None;
                },
            };
            if p3 != cs.len() {
                proof {
                    assert(cs@.skip(p3 as int).len() != 0);
                }
                return None;
            }
            proof {
                assert(cs@.skip(p3 as int).len() == 0);
            }
            Some(DaemonCommand::Unlock { password: string_of_chars(&password) })
        },
        None => {
            let (name, p1) = match parse_string(&cs, 0) {
                Some(r) => r,
                None => {
                    return None;
                },
            };
            if p1 != cs.len() {
                proof {
                    assert(cs@.skip(p1 as int).len() != 0);
                }
                return None;
            }
            proof {
                assert(cs@.skip(p1 as int).len() == 0);
            }
            if eq_chars(&name, "Lock") {
                Some(DaemonCommand::Lock)
            } else if eq_chars(&name, "GetState") {
                Some(DaemonCommand::GetState)
            } else if eq_chars(&name, "Exit") {
                Some(DaemonCommand::Exit)
            } else {
                None
            }
        },
    }
}

/// Compares parsed characters against a literal.
fn eq_chars(v: &Vec<char>, lit: &str) -> (r: bool)
    ensures
        r == (v@ == lit@),
{
    let cs = chars_of(lit);
    if v.len() != cs.len() {
        proof {
            assert(v@.len() != lit@.len());
        }
        return false;
    }
    let mut i: usize = 0;
    while i < v.len()
        invariant
            i <= v@.len(),
            v@.len() == cs@.len(),
            cs@ == lit@,
            forall|j: int| 0 <= j < i ==> v@[j] == lit@[j],
        decreases v@.len() - i,
    {
        if v[i] != cs[i] {
            return false;
        }
        i = i + 1;
    }
    proof {
        assert(v@ =~= lit@);
    }
    true
}

/// A response as one JSON message.
pub open spec fn ser_response(r: ResponseView) -> Seq<char> {
    match r {
        ResponseView::Success => jstr("Success"@),
        ResponseView::StateInfo(s) => "{\"StateInfo\":"@ + ser_state_msg(s) + "}"@,
        ResponseView::Error(m) => "{\"Error\":"@ + jstr(m) + "}"@,
    }
}

/// Parses one response message; the whole text must be consumed.
pub open spec fn sp_response(s: Seq<char>) -> Option<ResponseView> {
    match sp_lit(s, "{\"StateInfo\":"@) {
        Some(s1) => match sp_state_msg(s1) {
            None => None,
            Some((st, s2)) => match sp_lit(s2, "}"@) {
                Some(s3) => if s3.len() == 0 {
                    Some(ResponseView::StateInfo(st))
                } else {
                    None
                },
                None => None,
            },
        },
        None => match sp_lit(s, "{\"Error\":"@) {
            Some(s1) => match sp_string(s1) {
                None => None,
                Some((m, s2)) => match sp_lit(s2, "}"@) {
                    Some(s3) => if s3.len() == 0 {
                        Some(ResponseView::Error(m))
                    } else {
                        None
                    },
                    None => None,
                },
            },
            None => match sp_string(s) {
                None => None,
                Some((name, rest)) => {
                    if rest.len() == 0 && name == "Success"@ {
                        Some(ResponseView::Success)
                    } else {
                        None
                    }
                },
            },
        },
    }
}

/// Parsing inverts serialization for responses.
pub proof fn lemma_response_round_trip(r: ResponseView)
    ensures
        sp_response(ser_response(r)) == Some(r),
{
    reveal_strlit("{\"StateInfo\":");
    reveal_strlit("{\"Error\":");
    reveal_strlit("Success");
    match r {
        ResponseView::Success => {
            let s = jstr("Success"@);
            lemma_sp_string("Success"@, Seq::empty());
            assert(s + Seq::<char>::empty() =~= s);
            assert(s[0] == '"');
            if sp_lit(s, "{\"StateInfo\":"@) is Some {
                assert(s.take("{\"StateInfo\":"@.len() as int)[0] == s[0]);
                assert(false);
            }
            if sp_lit(s, "{\"Error\":"@) is Some {
                assert(s.take("{\"Error\":"@.len() as int)[0] == s[0]);
                assert(false);
            }
        },
        ResponseView::StateInfo(st) => {
            let t1 = ser_state_msg(st) + "}"@;
            let s = ser_response(r);
            assert(s =~= "{\"StateInfo\":"@ + t1);
            lemma_sp_lit("{\"StateInfo\":"@, t1);
            lemma_sp_state_msg(st, "}"@);
            assert(ser_state_msg(st) + "}"@ =~= t1);
            lemma_sp_lit("}"@, Seq::empty());
            assert("}"@ + Seq::<char>::empty() =~= "}"@);
        },
        ResponseView::Error(m) => {
            let t1 = jstr(m) + "}"@;
            let s = ser_response(r);
            assert(s =~= "{\"Error\":"@ + t1);
            reveal_strlit("{\"unlocked\":");
            assert(s[0] == '{');
            if sp_lit(s, "{\"StateInfo\":"@) is Some {
                assert(s.take("{\"StateInfo\":"@.len() as int)[2] == s[2]);
                assert(s[2] == "{\"Error\":"@[2]);
                assert(false);
            }
            lemma_sp_lit("{\"Error\":"@, t1);
            lemma_sp_string(m, "}"@);
            assert(jstr(m) + "}"@ =~= t1);
            lemma_sp_lit("}"@, Seq::empty());
            assert("}"@ + Seq::<char>::empty() =~= "}"@);
        },
    }
}

/// Writes a response as its wire message.
pub fn encode_response(r: &DaemonResponse) -> (t: String)
    ensures
        t@ == ser_response(r@),
{
    let mut out: Vec<char> = Vec::new();
    match r {
        DaemonResponse::Success => {
            push_jstr(&mut out, "Success");
            proof {
                assert(out@ =~= ser_response(r@));
            }
        },
        DaemonResponse::StateInfo(st) => {
            push_lit(&mut out, "{\"StateInfo\":");
            push_state_msg(&mut out, st);
            push_lit(&mut out, "}");
            proof {
                assert(out@ =~= ser_response(r@));
            }
        },
        DaemonResponse::Error(m) => {
            push_lit(&mut out, "{\"Error\":");
            push_jstr(&mut out, m.as_str());
            push_lit(&mut out, "}");
            proof {
                assert(out@ =~= ser_response(r@));
            }
        },
    }
    string_of_chars(&out)
}

/// Reads a response off the wire.
pub fn parse_response(text: &str) -> (r: Option<DaemonResponse>)
    ensures
        r is Some <==> sp_response(text@) is Some,
        r matches Some(resp) ==> sp_response(text@) == Some(resp@),
{
    let cs = chars_of(text);
    proof {
        assert(cs@.skip(0) =~= cs@);
    }
    match expect_lit(&cs, 0, "{\"StateInfo\":") {
        Some(p1) => {
            let (st, p2) = match parse_state_msg(&cs, p1) {
                Some(r) => r,
                None => {
                    return None;
                },
            };
            let p3 = match expect_lit(&cs, p2, "}") {
                Some(p) => p,
                None => {
                    return None;
                },
            };
            if p3 != cs.len() {
                proof {
                    assert(cs@.skip(p3 as int).len() != 0);
                }
                return None;
            }
            proof {
                assert(cs@.skip(p3 as int).len() == 0);
            }
            Some(DaemonResponse::StateInfo(st))
        },
        None => {
            match expect_lit(&cs, 0, "{\"Error\":") {
                Some(p1) => {
                    let (m, p2) = match parse_string(&cs, p1) {
                        Some(r) => r,
                        None => {
                            return None;
                        },
                    };
                    let p3 = match expect_lit(&cs, p2, "}") {
                        Some(p) => p,
                        None => {
                            return None;
                        },
                    };
                    if p3 != cs.len() {
                        proof {
                            assert(cs@.skip(p3 as int).len() != 0);
                        }
                        return None;
                    }
                    proof {
                        assert(cs@.skip(p3 as int).len() == 0);
                    }
                    Some(DaemonResponse::Error(string_of_chars(&m)))
                },
                None => {
                    let (name, p1) = match parse_string(&cs, 0) {
                        Some(r) => r,
                        None => {
                            return None;
                        },
                    };
                    if p1 != cs.len() {
                        proof {
                            assert(cs@.skip(p1 as int).len() != 0);
                        }
                        return None;
                    }
                    proof {
                        assert(cs@.skip(p1 as int).len() == 0);
                    }
                    if eq_chars(&name, "Success") {
                        Some(DaemonResponse::Success)
                    } else {
                        None
                    }
                },
            }
        },
    }
}

// ---------------------------------------------------------------------------
// Well-known file names under the runtime directory.
// ---------------------------------------------------------------------------

/// The daemon's listening socket, under the runtime directory the caller
/// resolved.
pub fn get_socket_path(ipc_dir: &str) -> (r: String)
    ensures
        r@ == ipc_dir@ + "/daemon.sock"@,
{
    let mut s = ipc_dir.to_owned();
    s.append("/daemon.sock");
    s
}

/// The daemon's state-mirror file, under the runtime directory the caller
/// resolved.
pub fn get_state_path(ipc_dir: &str) -> (r: String)
    ensures
        r@ == ipc_dir@ + "/state.json"@,
{
    let mut s = ipc_dir.to_owned();
    s.append("/state.json");
    s
}

} // verus!
