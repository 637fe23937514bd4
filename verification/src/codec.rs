//! The vault codec: the JSON array of credential entries kept inside the
//! encrypted payload, the three-field vault file around it, and the
//! password -> key -> encrypt/decrypt pipeline.
//!
//! Writers emit one canonical JSON form and the parsers accept exactly
//! that form; `lemma_entries_round_trip` and `lemma_vault_round_trip` show
//! that loading undoes saving.

use vstd::prelude::*;

use crate::crypto::{
    b64_data, b64_decode, b64_encode, b64_text, decrypt_data, derive_key, encrypt_data, gcm_plain,
    random_salt, vault_key,
};
use crate::jsontext::{
    expect_lit, jstr, lemma_sp_lit, lemma_sp_string, parse_string, push_jstr, push_lit, sp_lit,
    sp_string,
};
use crate::models::{EncryptedFile, EntryView, Metadata, MetadataView, PasswordEntry, VaultError};
use crate::text::{bytes_of_str, chars_of, string_from_utf8, string_of_chars};

verus! {

/// An optional string field: `null` or a JSON string.
pub open spec fn opt_str(o: Option<Seq<char>>) -> Seq<char> {
    match o {
        Some(s) => jstr(s),
        None => "null"@,
    }
}

/// The canonical JSON text of one entry.
pub open spec fn ser_entry(e: EntryView) -> Seq<char> {
    "{\"name\":"@ + jstr(e.name) + ",\"id\":"@ + jstr(e.id) + ",\"password\":"@ + jstr(e.password)
        + ",\"metadata\":{\"url\":"@ + opt_str(e.metadata.url) + ",\"notes\":"@ + opt_str(
        e.metadata.notes,
    ) + "}}"@
}

/// The comma-separated entries after the first.
pub open spec fn ser_tail(es: Seq<EntryView>) -> Seq<char>
    decreases es.len(),
{
    if es.len() == 0 {
        Seq::empty()
    } else {
        seq![','] + ser_entry(es[0]) + ser_tail(es.drop_first())
    }
}

/// The entries between the array brackets.
pub open spec fn ser_items(es: Seq<EntryView>) -> Seq<char> {
    if es.len() == 0 {
        Seq::empty()
    } else {
        ser_entry(es[0]) + ser_tail(es.drop_first())
    }
}

/// The canonical JSON text of an entry list.
pub open spec fn ser_entries(es: Seq<EntryView>) -> Seq<char> {
    seq!['['] + ser_items(es) + seq![']']
}

#[verifier::rlimit(60)]
proof fn lemma_ser_tail_snoc(es: Seq<EntryView>, e: EntryView)
    ensures
        ser_tail(es.push(e)) == ser_tail(es) + seq![','] + ser_entry(e),
    decreases es.len(),
{
    if es.len() == 0 {
        assert(es.push(e)[0] == e);
        assert(es.push(e).drop_first() =~= Seq::<EntryView>::empty());
        assert(ser_tail(Seq::<EntryView>::empty()) == Seq::<char>::empty());
        assert(ser_tail(es) == Seq::<char>::empty());
        assert(ser_tail(es.push(e)) == seq![','] + ser_entry(e) + ser_tail(
            es.push(e).drop_first(),
        ));
        assert(seq![','] + ser_entry(e) + Seq::<char>::empty() =~= ser_tail(es) + seq![',']
            + ser_entry(e));
    } else {
        lemma_ser_tail_snoc(es.drop_first(), e);
        assert(es.push(e).drop_first() =~= es.drop_first().push(e));
        assert(es.push(e)[0] == es[0]);
        assert(seq![','] + ser_entry(es[0]) + (ser_tail(es.drop_first()) + seq![','] + ser_entry(e))
            =~= (seq![','] + ser_entry(es[0]) + ser_tail(es.drop_first())) + seq![','] + ser_entry(
            e,
        ));
    }
}

proof fn lemma_ser_items_snoc(es: Seq<EntryView>, e: EntryView)
    ensures
        ser_items(es.push(e)) == if es.len() == 0 {
            ser_entry(e)
        } else {
            ser_items(es) + seq![','] + ser_entry(e)
        },
{
    if es.len() == 0 {
        assert(es.push(e)[0] == e);
        assert(es.push(e).drop_first() =~= Seq::<EntryView>::empty());
        assert(ser_entry(e) + ser_tail(Seq::<EntryView>::empty()) =~= ser_entry(e));
    } else {
        lemma_ser_tail_snoc(es.drop_first(), e);
        assert(es.push(e)[0] == es[0]);
        assert(es.push(e).drop_first() =~= es.drop_first().push(e));
        assert(ser_entry(es[0]) + (ser_tail(es.drop_first()) + seq![','] + ser_entry(e)) =~= (
        ser_entry(es[0]) + ser_tail(es.drop_first())) + seq![','] + ser_entry(e));
    }
}

// ---------------------------------------------------------------------------
// Spec-level parsing of the entry list.
// ---------------------------------------------------------------------------

/// Parses `null` or a JSON string.
pub open spec fn sp_opt_str(s: Seq<char>) -> Option<(Option<Seq<char>>, Seq<char>)> {
    if sp_lit(s, "null"@) is Some {
        Some((None, sp_lit(s, "null"@)->0))
    } else {
        match sp_string(s) {
            Some((v, rest)) => Some((Some(v), rest)),
            None => None,
        }
    }
}

/// Parses one entry object.
pub open spec fn sp_entry(s: Seq<char>) -> Option<(EntryView, Seq<char>)> {
    match sp_lit(s, "{\"name\":"@) {
        None => None,
        Some(s1) => match sp_string(s1) {
            None => None,
            Some((name, s2)) => match sp_lit(s2, ",\"id\":"@) {
                None => None,
                Some(s3) => match sp_string(s3) {
                    None => None,
                    Some((id, s4)) => match sp_lit(s4, ",\"password\":"@) {
                        None => None,
                        Some(s5) => match sp_string(s5) {
                            None => None,
                            Some((password, s6)) => match sp_lit(s6, ",\"metadata\":{\"url\":"@) {
                                None => None,
                                Some(s7) => match sp_opt_str(s7) {
                                    None => None,
                                    Some((url, s8)) => match sp_lit(s8, ",\"notes\":"@) {
                                        None => None,
                                        Some(s9) => match sp_opt_str(s9) {
                                            None => None,
                                            Some((notes, s10)) => match sp_lit(s10, "}}"@) {
                                                None => None,
                                                Some(s11) => Some(
                                                    (
                                                        EntryView {
                                                            name,
                                                            id,
                                                            password,
                                                            metadata: MetadataView { url, notes },
                                                        },
                                                        s11,
                                                    ),
                                                ),
                                            },
                                        },
                                    },
                                },
                            },
                        },
                    },
                },
            },
        },
    }
}

/// Parses the entries after the first: a closing bracket, or a comma and
/// another entry. Parsing an entry must consume text, which keeps this
/// well founded.
pub open spec fn sp_more(s: Seq<char>) -> Option<(Seq<EntryView>, Seq<char>)>
    decreases s.len(),
{
    if sp_lit(s, "]"@) is Some {
        Some((Seq::empty(), sp_lit(s, "]"@)->0))
    } else {
        match sp_lit(s, ","@) {
            None => None,
            Some(s1) => match sp_entry(s1) {
                None => None,
                Some((e, s2)) => if s2.len() < s.len() {
                    match sp_more(s2) {
                        Some((es, rest)) => Some((seq![e] + es, rest)),
                        None => None,
                    }
                } else {
                    None
                },
            },
        }
    }
}

/// Parses the inside of the array and the closing bracket.
pub open spec fn sp_items(s: Seq<char>) -> Option<(Seq<EntryView>, Seq<char>)> {
    if sp_lit(s, "]"@) is Some {
        Some((Seq::empty(), sp_lit(s, "]"@)->0))
    } else {
        match sp_entry(s) {
            None => None,
            Some((e, s2)) => if s2.len() < s.len() {
                match sp_more(s2) {
                    Some((es, rest)) => Some((seq![e] + es, rest)),
                    None => None,
                }
            } else {
                None
            },
        }
    }
}

/// Parses a complete entry array.
pub open spec fn sp_entries(s: Seq<char>) -> Option<(Seq<EntryView>, Seq<char>)> {
    match sp_lit(s, "["@) {
        None => None,
        Some(s1) => sp_items(s1),
    }
}

// ---------------------------------------------------------------------------
// Parsing inverts serialization.
// ---------------------------------------------------------------------------

proof fn lemma_sp_opt_str(o: Option<Seq<char>>, rest: Seq<char>)
    ensures
        sp_opt_str(opt_str(o) + rest) == Some((o, rest)),
{
    reveal_strlit("null");
    match o {
        None => {
            lemma_sp_lit("null"@, rest);
        },
        Some(v) => {
            lemma_sp_string(v, rest);
            let s = jstr(v) + rest;
            assert(s[0] == '"');
            assert("null"@[0] == 'n');
            if sp_lit(s, "null"@) is Some {
                assert(s.take(4)[0] == s[0]);
                assert(false);
            }
        },
    }
}

#[verifier::rlimit(100)]
proof fn lemma_sp_entry(e: EntryView, rest: Seq<char>)
    ensures
        sp_entry(ser_entry(e) + rest) == Some((e, rest)),
{
    let t10 = "}}"@ + rest;
    let t9 = opt_str(e.metadata.notes) + t10;
    let t8 = ",\"notes\":"@ + t9;
    let t7 = opt_str(e.metadata.url) + t8;
    let t6 = ",\"metadata\":{\"url\":"@ + t7;
    let t5 = jstr(e.password) + t6;
    let t4 = ",\"password\":"@ + t5;
    let t3 = jstr(e.id) + t4;
    let t2 = ",\"id\":"@ + t3;
    let t1 = jstr(e.name) + t2;
    let t0 = "{\"name\":"@ + t1;
    assert(ser_entry(e) + rest =~= t0);
    lemma_sp_lit("{\"name\":"@, t1);
    lemma_sp_string(e.name, t2);
    assert(jstr(e.name) + t2 =~= t1);
    lemma_sp_lit(",\"id\":"@, t3);
    lemma_sp_string(e.id, t4);
    assert(jstr(e.id) + t4 =~= t3);
    lemma_sp_lit(",\"password\":"@, t5);
    lemma_sp_string(e.password, t6);
    assert(jstr(e.password) + t6 =~= t5);
    lemma_sp_lit(",\"metadata\":{\"url\":"@, t7);
    lemma_sp_opt_str(e.metadata.url, t8);
    assert(opt_str(e.metadata.url) + t8 =~= t7);
    lemma_sp_lit(",\"notes\":"@, t9);
    lemma_sp_opt_str(e.metadata.notes, t10);
    assert(opt_str(e.metadata.notes) + t10 =~= t9);
    lemma_sp_lit("}}"@, rest);
    assert(sp_entry(t0) == Some((e, rest)));
}

/// An entry's serialization is never empty and never starts like the
/// array terminators.
proof fn lemma_ser_entry_head(e: EntryView)
    ensures
        ser_entry(e).len() > 0,
        ser_entry(e)[0] == '{',
{
    reveal_strlit("{\"name\":");
    assert(ser_entry(e)[0] == "{\"name\":"@[0]);
}

#[verifier::rlimit(100)]
proof fn lemma_sp_more(es: Seq<EntryView>, rest: Seq<char>)
    ensures
        sp_more(ser_tail(es) + seq![']'] + rest) == Some((es, rest)),
    decreases es.len(),
{
    reveal_strlit("]");
    reveal_strlit(",");
    if es.len() == 0 {
        let s = ser_tail(es) + seq![']'] + rest;
        assert(s =~= "]"@ + rest);
        lemma_sp_lit("]"@, rest);
    } else {
        let e = es[0];
        let tail = es.drop_first();
        let inner = ser_tail(tail) + seq![']'] + rest;
        let s = ser_tail(es) + seq![']'] + rest;
        let s1 = ser_entry(e) + inner;
        assert(s =~= ","@ + s1);
        lemma_ser_entry_head(e);
        // The closing-bracket branch does not fire: the text starts with a comma.
        assert(s[0] == ',');
        if sp_lit(s, "]"@) is Some {
            assert(s.take(1)[0] == s[0]);
            assert(false);
        }
        lemma_sp_lit(","@, s1);
        lemma_sp_entry(e, inner);
        assert(inner.len() < s1.len() + 1);
        lemma_sp_more(tail, rest);
        assert(seq![e] + tail =~= es);
    }
}

/// Parsing inverts serialization for entry lists.
#[verifier::rlimit(100)]
pub proof fn lemma_entries_round_trip(es: Seq<EntryView>, rest: Seq<char>)
    ensures
        sp_entries(ser_entries(es) + rest) == Some((es, rest)),
{
    reveal_strlit("[");
    reveal_strlit("]");
    let s = ser_entries(es) + rest;
    let s1 = ser_items(es) + seq![']'] + rest;
    assert(s =~= "["@ + s1);
    lemma_sp_lit("["@, s1);
    if es.len() == 0 {
        assert(s1 =~= "]"@ + rest);
        lemma_sp_lit("]"@, rest);
    } else {
        let e = es[0];
        let tail = es.drop_first();
        let inner = ser_tail(tail) + seq![']'] + rest;
        assert(s1 =~= ser_entry(e) + inner);
        lemma_ser_entry_head(e);
        assert(s1[0] == '{');
        if sp_lit(s1, "]"@) is Some {
            assert(s1.take(1)[0] == s1[0]);
            assert(false);
        }
        lemma_sp_entry(e, inner);
        assert(inner.len() < s1.len());
        lemma_sp_more(tail, rest);
        assert(seq![e] + tail =~= es);
    }
}

// ---------------------------------------------------------------------------
// Executable writer.
// ---------------------------------------------------------------------------

fn push_opt_str(out: &mut Vec<char>, o: &Option<String>)
    ensures
        final(out)@ == old(out)@ + opt_str(o.deep_view()),
{
    match o {
        Some(s) => push_jstr(out, s.as_str()),
        None => push_lit(out, "null"),
    }
}

fn push_entry(out: &mut Vec<char>, e: &PasswordEntry)
    ensures
        final(out)@ == old(out)@ + ser_entry(e@),
{
    push_lit(out, "{\"name\":");
    push_jstr(out, e.name.as_str());
    push_lit(out, ",\"id\":");
    push_jstr(out, e.id.as_str());
    push_lit(out, ",\"password\":");
    push_jstr(out, e.password.as_str());
    push_lit(out, ",\"metadata\":{\"url\":");
    push_opt_str(out, &e.metadata.url);
    push_lit(out, ",\"notes\":");
    push_opt_str(out, &e.metadata.notes);
    push_lit(out, "}}");
    proof {
        assert(final(out)@ =~= old(out)@ + ser_entry(e@));
    }
}

/// Writes the canonical JSON text of the entry list.
pub fn entries_to_text(entries: &Vec<PasswordEntry>) -> (r: Vec<char>)
    ensures
        r@ == ser_entries(entries.deep_view()),
{
    let mut out: Vec<char> = Vec::new();
    out.push('[');
    let mut i: usize = 0;
    while i < entries.len()
        invariant
            i <= entries@.len(),
            out@ == seq!['['] + ser_items(entries.deep_view().take(i as int)),
        decreases entries@.len() - i,
    {
        proof {
            assert(entries.deep_view().take(i + 1) =~= entries.deep_view().take(i as int).push(
                entries@[i as int].deep_view(),
            ));
            lemma_ser_items_snoc(entries.deep_view().take(i as int), entries@[i as int].deep_view());
        }
        if i > 0 {
            push_lit(&mut out, ",");
            proof {
                reveal_strlit(",");
                assert(","@ =~= seq![',']);
            }
        }
        push_entry(&mut out, &entries[i]);
        proof {
            assert(out@ =~= seq!['['] + ser_items(entries.deep_view().take(i + 1)));
        }
        i = i + 1;
    }
    out.push(']');
    proof {
        assert(entries.deep_view().take(i as int) =~= entries.deep_view());
        assert(out@ =~= ser_entries(entries.deep_view()));
    }
    out
}

// ---------------------------------------------------------------------------
// Executable parser.
// ---------------------------------------------------------------------------

fn parse_opt_str(input: &Vec<char>, pos: usize) -> (r: Option<(Option<String>, usize)>)
    requires
        pos <= input@.len(),
    ensures
        r is Some <==> sp_opt_str(input@.skip(pos as int)) is Some,
        r matches Some((v, np)) ==> pos <= np <= input@.len() && sp_opt_str(
            input@.skip(pos as int),
        ) == Some((v.deep_view(), input@.skip(np as int))),
{
    match expect_lit(input, pos, "null") {
        Some(np) => Some((None, np)),
        None => {
            match parse_string(input, pos) {
                Some((v, np)) => {
                    let s = string_of_chars(&v);
                    Some((Some(s), np))
                },
                None => None,
            }
        },
    }
}

fn parse_entry(input: &Vec<char>, pos: usize) -> (r: Option<(PasswordEntry, usize)>)
    requires
        pos <= input@.len(),
    ensures
        r is Some <==> sp_entry(input@.skip(pos as int)) is Some,
        r matches Some((e, np)) ==> pos <= np <= input@.len() && sp_entry(input@.skip(pos as int))
            == Some((e@, input@.skip(np as int))),
{
    let p1 = match expect_lit(input, pos, "{\"name\":") {
        Some(p) => p,
        None => {
            return None;
        },
    };
    let (name, p2) = match parse_string(input, p1) {
        Some(r) => r,
        None => {
            return None;
        },
    };
    let p3 = match expect_lit(input, p2, ",\"id\":") {
        Some(p) => p,
        None => {
            return None;
        },
    };
    let (id, p4) = match parse_string(input, p3) {
        Some(r) => r,
        None => {
            return None;
        },
    };
    let p5 = match expect_lit(input, p4, ",\"password\":") {
        Some(p) => p,
        None => {
            return None;
        },
    };
    let (password, p6) = match parse_string(input, p5) {
        Some(r) => r,
        None => {
            return None;
        },
    };
    let p7 = match expect_lit(input, p6, ",\"metadata\":{\"url\":") {
        Some(p) => p,
        None => {
            return None;
        },
    };
    let (url, p8) = match parse_opt_str(input, p7) {
        Some(r) => r,
        None => {
            return None;
        },
    };
    let p9 = match expect_lit(input, p8, ",\"notes\":") {
        Some(p) => p,
        None => {
            return None;
        },
    };
    let (notes, p10) = match parse_opt_str(input, p9) {
        Some(r) => r,
        None => {
            return None;
        },
    };
    let p11 = match expect_lit(input, p10, "}}") {
        Some(p) => p,
        None => {
            return None;
        },
    };
    let entry = PasswordEntry {
        name: string_of_chars(&name),
        id: string_of_chars(&id),
        password: string_of_chars(&password),
        metadata: Metadata { url, notes },
    };
    Some((entry, p11))
}

/// Parses a complete entry array starting at `pos`.
pub fn parse_entries(input: &Vec<char>, pos: usize) -> (r: Option<(Vec<PasswordEntry>, usize)>)
    requires
        pos <= input@.len(),
    ensures
        r is Some <==> sp_entries(input@.skip(pos as int)) is Some,
        r matches Some((es, np)) ==> pos <= np <= input@.len() && sp_entries(
            input@.skip(pos as int),
        ) == Some((es.deep_view(), input@.skip(np as int))),
{
    let p1 = match expect_lit(input, pos, "[") {
        Some(p) => p,
        None => {
            return None;
        },
    };
    match expect_lit(input, p1, "]") {
        Some(p2) => {
            let empty: Vec<PasswordEntry> = Vec::new();
            proof {
                assert(empty.deep_view() =~= Seq::<EntryView>::empty());
                assert(Seq::<EntryView>::empty() + Seq::<EntryView>::empty()
                    =~= Seq::<EntryView>::empty());
            }
            return Some((empty, p2));
        },
        None => {},
    }
    let (e0, mut p) = match parse_entry(input, p1) {
        Some(r) => r,
        None => {
            return None;
        },
    };
    if p <= p1 {
        return None;
    }
    let mut acc: Vec<PasswordEntry> = Vec::new();
    acc.push(e0);
    proof {
        assert(acc.deep_view() =~= seq![e0@]);
        match sp_more(input@.skip(p as int)) {
            Some((es, rest)) => {
                assert(acc.deep_view() + es =~= seq![e0@] + es);
            },
            None => {},
        }
    }
    loop
        invariant
            pos <= p <= input@.len(),
            match sp_more(input@.skip(p as int)) {
                Some((es, rest)) => sp_entries(input@.skip(pos as int)) == Some(
                    (acc.deep_view() + es, rest),
                ),
                None => sp_entries(input@.skip(pos as int)) is None,
            },
        decreases input@.len() - p,
    {
        match expect_lit(input, p, "]") {
            Some(p2) => {
                proof {
                    assert(acc.deep_view() + Seq::<EntryView>::empty() =~= acc.deep_view());
                }
                return Some((acc, p2));
            },
            None => {},
        }
        let pc = match expect_lit(input, p, ",") {
            Some(p2) => p2,
            None => {
                return None;
            },
        };
        let (e, p2) = match parse_entry(input, pc) {
            Some(r) => r,
            None => {
                return None;
            },
        };
        if p2 <= p {
            return None;
        }
        let ghost av = acc.deep_view();
        acc.push(e);
        p = p2;
        proof {
            assert(acc.deep_view() =~= av.push(e@));
            match sp_more(input@.skip(p as int)) {
                Some((es2, rest)) => {
                    assert(av + (seq![e@] + es2) =~= av.push(e@) + es2);
                },
                None => {},
            }
        }
    }
}

// ---------------------------------------------------------------------------
// The vault file: three base64 fields around the encrypted payload.
// ---------------------------------------------------------------------------

/// The canonical JSON text of the vault file.
pub open spec fn ser_vault_file(salt: Seq<char>, nonce: Seq<char>, data: Seq<char>) -> Seq<char> {
    "{\"salt\":"@ + jstr(salt) + ",\"nonce\":"@ + jstr(nonce) + ",\"encrypted_data\":"@ + jstr(
        data,
    ) + "}"@
}

/// Parses the vault file object.
pub open spec fn sp_vault_file(s: Seq<char>) -> Option<
    ((Seq<char>, Seq<char>, Seq<char>), Seq<char>),
> {
    match sp_lit(s, "{\"salt\":"@) {
        None => None,
        Some(s1) => match sp_string(s1) {
            None => None,
            Some((salt, s2)) => match sp_lit(s2, ",\"nonce\":"@) {
                None => None,
                Some(s3) => match sp_string(s3) {
                    None => None,
                    Some((nonce, s4)) => match sp_lit(s4, ",\"encrypted_data\":"@) {
                        None => None,
                        Some(s5) => match sp_string(s5) {
                            None => None,
                            Some((data, s6)) => match sp_lit(s6, "}"@) {
                                None => None,
                                Some(s7) => Some(((salt, nonce, data), s7)),
                            },
                        },
                    },
                },
            },
        },
    }
}

/// Parsing inverts serialization for the vault file.
pub proof fn lemma_sp_vault_file(
    salt: Seq<char>,
    nonce: Seq<char>,
    data: Seq<char>,
    rest: Seq<char>,
)
    ensures
        sp_vault_file(ser_vault_file(salt, nonce, data) + rest) == Some(
            ((salt, nonce, data), rest),
        ),
{
    let t6 = "}"@ + rest;
    let t5 = jstr(data) + t6;
    let t4 = ",\"encrypted_data\":"@ + t5;
    let t3 = jstr(nonce) + t4;
    let t2 = ",\"nonce\":"@ + t3;
    let t1 = jstr(salt) + t2;
    let t0 = "{\"salt\":"@ + t1;
    assert(ser_vault_file(salt, nonce, data) + rest =~= t0);
    lemma_sp_lit("{\"salt\":"@, t1);
    lemma_sp_string(salt, t2);
    assert(jstr(salt) + t2 =~= t1);
    lemma_sp_lit(",\"nonce\":"@, t3);
    lemma_sp_string(nonce, t4);
    assert(jstr(nonce) + t4 =~= t3);
    lemma_sp_lit(",\"encrypted_data\":"@, t5);
    lemma_sp_string(data, t6);
    assert(jstr(data) + t6 =~= t5);
    lemma_sp_lit("}"@, rest);
}

/// Parses the vault file object starting at `pos`.
pub fn parse_vault_file(input: &Vec<char>, pos: usize) -> (r: Option<(EncryptedFile, usize)>)
    requires
        pos <= input@.len(),
    ensures
        r is Some <==> sp_vault_file(input@.skip(pos as int)) is Some,
        r matches Some((f, np)) ==> pos <= np <= input@.len() && sp_vault_file(
            input@.skip(pos as int),
        ) == Some(((f.salt@, f.nonce@, f.encrypted_data@), input@.skip(np as int))),
{
    let p1 = match expect_lit(input, pos, "{\"salt\":") {
        Some(p) => p,
        None => {
            return None;
        },
    };
    let (salt, p2) = match parse_string(input, p1) {
        Some(r) => r,
        None => {
            return None;
        },
    };
    let p3 = match expect_lit(input, p2, ",\"nonce\":") {
        Some(p) => p,
        None => {
            return None;
        },
    };
    let (nonce, p4) = match parse_string(input, p3) {
        Some(r) => r,
        None => {
            return None;
        },
    };
    let p5 = match expect_lit(input, p4, ",\"encrypted_data\":") {
        Some(p) => p,
        None => {
            return None;
        },
    };
    let (data, p6) = match parse_string(input, p5) {
        Some(r) => r,
        None => {
            return None;
        },
    };
    let p7 = match expect_lit(input, p6, "}") {
        Some(p) => p,
        None => {
            return None;
        },
    };
    let f = EncryptedFile {
        salt: string_of_chars(&salt),
        nonce: string_of_chars(&nonce),
        encrypted_data: string_of_chars(&data),
    };
    Some((f, p7))
}

// ---------------------------------------------------------------------------
// The byte-level pipeline.
// ---------------------------------------------------------------------------

/// The plaintext the cipher sees: the UTF-8 bytes of the entry list's
/// canonical JSON text.
pub open spec fn vault_plain(es: Seq<EntryView>) -> Seq<u8> {
    vstd::utf8::encode_utf8(ser_entries(es))
}

/// The vault file image for a salt, nonce and ciphertext: the UTF-8 bytes
/// of the three-field JSON object holding their base64 texts.
pub open spec fn vault_image(salt: Seq<u8>, nonce: Seq<u8>, ct: Seq<u8>) -> Seq<u8> {
    vstd::utf8::encode_utf8(
        ser_vault_file(b64_text(salt), b64_text(nonce), b64_text(ct)),
    )
}

/// A complete entry document: the array and nothing after it.
pub open spec fn parse_entries_text(s: Seq<char>) -> Option<Seq<EntryView>> {
    match sp_entries(s) {
        Some((es, rest)) => if rest.len() == 0 {
            Some(es)
        } else {
            None
        },
        None => None,
    }
}

/// A complete vault file document: the object and nothing after it.
pub open spec fn parse_vault_text(s: Seq<char>) -> Option<(Seq<char>, Seq<char>, Seq<char>)> {
    match sp_vault_file(s) {
        Some((f, rest)) => if rest.len() == 0 {
            Some(f)
        } else {
            None
        },
        None => None,
    }
}

/// What loading a vault file image with a password yields: the entries,
/// the derived key and the salt, or the error class the spec assigns.
/// Every malformed-file and failed-authentication case is `Decryption`;
/// only a salt of impossible length is `KeyDerivation`.
pub open spec fn load_vault_spec(file: Seq<u8>, password: Seq<char>) -> Result<
    (Seq<EntryView>, Seq<u8>, Seq<u8>),
    VaultError,
> {
    if !vstd::utf8::valid_utf8(file) {
        Err(VaultError::Decryption)
    } else {
        match parse_vault_text(vstd::utf8::decode_utf8(file)) {
            None => Err(VaultError::Decryption),
            Some((sb, nb, db)) => match (b64_data(sb), b64_data(nb), b64_data(db)) {
                (Some(salt), Some(nonce), Some(ct)) => {
                    if !(8 <= salt.len() <= 48 && password.len() <= 0xFFFF_FFFF) {
                        Err(VaultError::KeyDerivation)
                    } else if nonce.len() != 12 {
                        Err(VaultError::Decryption)
                    } else {
                        match gcm_plain(vault_key(password, salt), nonce, ct) {
                            None => Err(VaultError::Decryption),
                            Some(plain) => {
                                if !vstd::utf8::valid_utf8(plain) {
                                    Err(VaultError::Decryption)
                                } else {
                                    match parse_entries_text(vstd::utf8::decode_utf8(plain)) {
                                        None => Err(VaultError::Decryption),
                                        Some(es) => Ok((es, vault_key(password, salt), salt)),
                                    }
                                }
                            },
                        }
                    }
                },
                _ => Err(VaultError::Decryption),
            },
        }
    }
}

/// Reads the vault file image: decodes the three base64 fields, derives
/// the key from the password and the stored salt, decrypts, and parses the
/// entry list. Behaves exactly as [`load_vault_spec`] says.
pub fn load_passwords(file: &[u8], password: &str) -> (r: Result<
    (Vec<PasswordEntry>, [u8; 32], Vec<u8>),
    VaultError,
>)
    ensures
        r is Ok <==> load_vault_spec(file@, password@) is Ok,
        r matches Ok((es, key, salt)) ==> {
            let ok = load_vault_spec(file@, password@)->Ok_0;
            es.deep_view() == ok.0 && key@ == ok.1 && salt@ == ok.2
        },
        r matches Err(e) ==> load_vault_spec(file@, password@) == Err::<
            (Seq<EntryView>, Seq<u8>, Seq<u8>),
            VaultError,
        >(e),
{
    let text = match string_from_utf8(vstd::slice::slice_to_vec(file)) {
        Some(t) => t,
        None => {
            return Err(VaultError::Decryption);
        },
    };
    let cs = chars_of(text.as_str());
    proof {
        assert(cs@.skip(0) =~= cs@);
    }
    let (f, np) = match parse_vault_file(&cs, 0) {
        Some(r) => r,
        None => {
            return Err(VaultError::Decryption);
        },
    };
    if np != cs.len() {
        proof {
            assert(cs@.skip(np as int).len() != 0);
        }
        return Err(VaultError::Decryption);
    }
    proof {
        assert(cs@.skip(np as int).len() == 0);
    }
    let salt = match b64_decode(f.salt.as_str()) {
        Some(v) => v,
        None => {
            return Err(VaultError::Decryption);
        },
    };
    let nonce = match b64_decode(f.nonce.as_str()) {
        Some(v) => v,
        None => {
            return Err(VaultError::Decryption);
        },
    };
    let ct = match b64_decode(f.encrypted_data.as_str()) {
        Some(v) => v,
        None => {
            return Err(VaultError::Decryption);
        },
    };
    let key = match derive_key(password, salt.as_slice()) {
        Ok(k) => k,
        Err(_) => {
            return Err(VaultError::KeyDerivation);
        },
    };
    let plain = match decrypt_data(ct.as_slice(), &key, nonce.as_slice()) {
        Ok(p) => p,
        Err(_) => {
            return Err(VaultError::Decryption);
        },
    };
    let ptext = match string_from_utf8(plain) {
        Some(t) => t,
        None => {
            return Err(VaultError::Decryption);
        },
    };
    let pcs = chars_of(ptext.as_str());
    proof {
        assert(pcs@.skip(0) =~= pcs@);
    }
    let (entries, ep) = match parse_entries(&pcs, 0) {
        Some(r) => r,
        None => {
            return Err(VaultError::Decryption);
        },
    };
    if ep != pcs.len() {
        proof {
            assert(pcs@.skip(ep as int).len() != 0);
        }
        return Err(VaultError::Decryption);
    }
    proof {
        assert(pcs@.skip(ep as int).len() == 0);
    }
    Ok((entries, key, salt))
}

/// Loads the entry list from a vault file image when the key is already
/// known (the salt field is carried along but not consulted).
pub open spec fn load_with_key_spec(file: Seq<u8>, key: Seq<u8>) -> Result<
    Seq<EntryView>,
    VaultError,
> {
    if !vstd::utf8::valid_utf8(file) {
        Err(VaultError::Decryption)
    } else {
        match parse_vault_text(vstd::utf8::decode_utf8(file)) {
            None => Err(VaultError::Decryption),
            Some((sb, nb, db)) => match (b64_data(nb), b64_data(db)) {
                (Some(nonce), Some(ct)) => {
                    if nonce.len() != 12 {
                        Err(VaultError::Decryption)
                    } else {
                        match gcm_plain(key, nonce, ct) {
                            None => Err(VaultError::Decryption),
                            Some(plain) => {
                                if !vstd::utf8::valid_utf8(plain) {
                                    Err(VaultError::Decryption)
                                } else {
                                    match parse_entries_text(vstd::utf8::decode_utf8(plain)) {
                                        None => Err(VaultError::Decryption),
                                        Some(es) => Ok(es),
                                    }
                                }
                            },
                        }
                    }
                },
                _ => Err(VaultError::Decryption),
            },
        }
    }
}

/// Reads the vault file image with a known key, as a client does after the
/// daemon hands it the key and salt.
pub fn load_passwords_with_key(file: &[u8], key: &[u8; 32], _salt: &[u8]) -> (r: Result<
    Vec<PasswordEntry>,
    VaultError,
>)
    ensures
        r is Ok <==> load_with_key_spec(file@, key@) is Ok,
        r matches Ok(es) ==> es.deep_view() == load_with_key_spec(file@, key@)->Ok_0,
        r matches Err(e) ==> load_with_key_spec(file@, key@) == Err::<Seq<EntryView>, VaultError>(
            e,
        ),
{
    let text = match string_from_utf8(vstd::slice::slice_to_vec(file)) {
        Some(t) => t,
        None => {
            return Err(VaultError::Decryption);
        },
    };
    let cs = chars_of(text.as_str());
    proof {
        assert(cs@.skip(0) =~= cs@);
    }
    let (f, np) = match parse_vault_file(&cs, 0) {
        Some(r) => r,
        None => {
            return Err(VaultError::Decryption);
        },
    };
    if np != cs.len() {
        proof {
            assert(cs@.skip(np as int).len() != 0);
        }
        return Err(VaultError::Decryption);
    }
    proof {
        assert(cs@.skip(np as int).len() == 0);
    }
    let nonce = match b64_decode(f.nonce.as_str()) {
        Some(v) => v,
        None => {
            return Err(VaultError::Decryption);
        },
    };
    let ct = match b64_decode(f.encrypted_data.as_str()) {
        Some(v) => v,
        None => {
            return Err(VaultError::Decryption);
        },
    };
    let plain = match decrypt_data(ct.as_slice(), key, nonce.as_slice()) {
        Ok(p) => p,
        Err(_) => {
            return Err(VaultError::Decryption);
        },
    };
    let ptext = match string_from_utf8(plain) {
        Some(t) => t,
        None => {
            return Err(VaultError::Decryption);
        },
    };
    let pcs = chars_of(ptext.as_str());
    proof {
        assert(pcs@.skip(0) =~= pcs@);
    }
    let (entries, ep) = match parse_entries(&pcs, 0) {
        Some(r) => r,
        None => {
            return Err(VaultError::Decryption);
        },
    };
    if ep != pcs.len() {
        proof {
            assert(pcs@.skip(ep as int).len() != 0);
        }
        return Err(VaultError::Decryption);
    }
    proof {
        assert(pcs@.skip(ep as int).len() == 0);
    }
    Ok(entries)
}

/// Serializes the entries, encrypts them under the key with a freshly
/// generated nonce, and returns the bytes of the vault file to write. The
/// salt is recorded in the file; the nonce is new on every call, never the
/// one a previous read saw.
pub fn save_passwords(passwords: &Vec<PasswordEntry>, key: &[u8; 32], salt: &[u8]) -> (r: Result<
    Vec<u8>,
    VaultError,
>)
    ensures
        r is Ok <==> vault_plain(passwords.deep_view()).len() <= 0x10_0000_0000,
        r is Ok ==> b64_data(b64_text(salt@)) == Some(salt@),
        r matches Ok(img) ==> exists|nonce: Seq<u8>, ct: Seq<u8>|
            #![trigger vault_image(salt@, nonce, ct)]
            {
                &&& nonce.len() == 12
                &&& b64_data(b64_text(nonce)) == Some(nonce)
                &&& b64_data(b64_text(ct)) == Some(ct)
                &&& gcm_plain(key@, nonce, ct) == Some(vault_plain(passwords.deep_view()))
                &&& img@ == vault_image(salt@, nonce, ct)
            },
        r matches Err(e) ==> e == VaultError::Encryption,
{
    let text = entries_to_text(passwords);
    let doc = string_of_chars(&text);
    let data = bytes_of_str(doc.as_str());
    let (nonce, ct) = match encrypt_data(data.as_slice(), key) {
        Ok(p) => p,
        Err(_) => {
            return Err(VaultError::Encryption);
        },
    };
    let salt_b64 = b64_encode(salt);
    let nonce_b64 = b64_encode(nonce.as_slice());
    let data_b64 = b64_encode(ct.as_slice());
    let mut out: Vec<char> = Vec::new();
    push_lit(&mut out, "{\"salt\":");
    push_jstr(&mut out, salt_b64.as_str());
    push_lit(&mut out, ",\"nonce\":");
    push_jstr(&mut out, nonce_b64.as_str());
    push_lit(&mut out, ",\"encrypted_data\":");
    push_jstr(&mut out, data_b64.as_str());
    push_lit(&mut out, "}");
    proof {
        assert(out@ =~= ser_vault_file(b64_text(salt@), b64_text(nonce@), b64_text(ct@)));
    }
    let img = bytes_of_str(string_of_chars(&out).as_str());
    proof {
        assert(img@ == vault_image(salt@, nonce@, ct@));
    }
    Ok(img)
}

/// Creates a new, empty vault for a password: draws a fresh 16-byte salt,
/// derives the key, and produces the file image of the empty entry list.
pub fn create_password_file(password: &str) -> (r: Result<
    (Vec<PasswordEntry>, [u8; 32], Vec<u8>, Vec<u8>),
    VaultError,
>)
    ensures
        r is Ok <==> password@.len() <= 0xFFFF_FFFF,
        r matches Ok((es, key, salt, img)) ==> {
            &&& es.deep_view() == Seq::<EntryView>::empty()
            &&& salt@.len() == 16
            &&& key@ == vault_key(password@, salt@)
            &&& b64_data(b64_text(salt@)) == Some(salt@)
            &&& exists|nonce: Seq<u8>, ct: Seq<u8>|
                #![trigger vault_image(salt@, nonce, ct)]
                {
                    &&& nonce.len() == 12
                    &&& b64_data(b64_text(nonce)) == Some(nonce)
                    &&& b64_data(b64_text(ct)) == Some(ct)
                    &&& gcm_plain(key@, nonce, ct) == Some(vault_plain(Seq::<EntryView>::empty()))
                    &&& img@ == vault_image(salt@, nonce, ct)
                }
        },
        r matches Err(e) ==> e == VaultError::KeyDerivation,
{
    let salt = random_salt();
    let key = match derive_key(password, salt.as_slice()) {
        Ok(k) => k,
        Err(_) => {
            return Err(VaultError::KeyDerivation);
        },
    };
    let passwords: Vec<PasswordEntry> = Vec::new();
    proof {
        assert(passwords.deep_view() =~= Seq::<EntryView>::empty());
        lemma_empty_vault_plain_small();
    }
    match save_passwords(&passwords, &key, salt.as_slice()) {
        Ok(img) => {
            proof {
                assert(passwords.deep_view() =~= Seq::<EntryView>::empty());
                let (n, c) = choose|n: Seq<u8>, c: Seq<u8>|
                    #![trigger vault_image(salt@, n, c)]
                    {
                        &&& n.len() == 12
                        &&& b64_data(b64_text(n)) == Some(n)
                        &&& b64_data(b64_text(c)) == Some(c)
                        &&& gcm_plain(key@, n, c) == Some(vault_plain(passwords.deep_view()))
                        &&& img@ == vault_image(salt@, n, c)
                    };
                assert(gcm_plain(key@, n, c) == Some(vault_plain(Seq::<EntryView>::empty())));
            }
            Ok((passwords, key, salt, img))
        },
        Err(_) => Err(VaultError::KeyDerivation),
    }
}

/// The empty entry list's plaintext is two bytes.
proof fn lemma_empty_vault_plain_small()
    ensures
        vault_plain(Seq::<EntryView>::empty()).len() == 2,
{
    broadcast use vstd::utf8::is_ascii_chars_encode_utf8;

    let doc = ser_entries(Seq::<EntryView>::empty());
    assert(ser_items(Seq::<EntryView>::empty()) == Seq::<char>::empty());
    assert(doc =~= seq!['[', ']']);
    assert(vstd::utf8::is_ascii_chars(doc));
}

// ---------------------------------------------------------------------------
// Loading undoes saving.
// ---------------------------------------------------------------------------

/// Loading a saved vault image with the password it was saved under
/// returns exactly the entries that were saved, together with the key and
/// salt. The hypotheses are what `save_passwords` ensures of the image it
/// produced: the base64 fields decode back, the nonce is fresh and twelve
/// bytes, and the ciphertext authenticates to the serialized entries
/// under the derived key.
pub proof fn lemma_vault_round_trip(
    es: Seq<EntryView>,
    password: Seq<char>,
    salt: Seq<u8>,
    nonce: Seq<u8>,
    ct: Seq<u8>,
)
    requires
        b64_data(b64_text(salt)) == Some(salt),
        b64_data(b64_text(nonce)) == Some(nonce),
        b64_data(b64_text(ct)) == Some(ct),
        8 <= salt.len() <= 48,
        password.len() <= 0xFFFF_FFFF,
        nonce.len() == 12,
        gcm_plain(vault_key(password, salt), nonce, ct) == Some(vault_plain(es)),
    ensures
        load_vault_spec(vault_image(salt, nonce, ct), password) == Ok::<
            (Seq<EntryView>, Seq<u8>, Seq<u8>),
            VaultError,
        >((es, vault_key(password, salt), salt)),
{
    broadcast use vstd::utf8::encode_utf8_valid_utf8;
    broadcast use vstd::utf8::encode_utf8_decode_utf8;

    let doc = ser_vault_file(b64_text(salt), b64_text(nonce), b64_text(ct));
    let file = vault_image(salt, nonce, ct);
    assert(vstd::utf8::valid_utf8(file));
    assert(vstd::utf8::decode_utf8(file) == doc);
    lemma_sp_vault_file(b64_text(salt), b64_text(nonce), b64_text(ct), Seq::empty());
    assert(doc + Seq::<char>::empty() =~= doc);
    assert(parse_vault_text(doc) == Some((b64_text(salt), b64_text(nonce), b64_text(ct))));
    let plain = vault_plain(es);
    assert(vstd::utf8::valid_utf8(plain));
    assert(vstd::utf8::decode_utf8(plain) == ser_entries(es));
    lemma_entries_round_trip(es, Seq::empty());
    assert(ser_entries(es) + Seq::<char>::empty() =~= ser_entries(es));
    assert(parse_entries_text(ser_entries(es)) == Some(es));
}

} // verus!
