//! The JSON schema that describes an actor's message type: its variants, their fields with
//! their types, whether each is an RPC and what it replies with.
//!
//! A variant is given as plain values: its name, whether it is marked `#[rpc]`, the written form
//! of its field types, the names from a `#[fields(...)]` attribute and the written form of its
//! reply type.

use vstd::prelude::*;

use crate::cluster::{decimal, decimal_text};
use crate::text::{chars_of, push_char, push_str};

verus! {

/// `s` with every occurrence of `pat` replaced by `rep`, scanning left to right
/// (`str::replace`).
pub open spec fn replace_all(s: Seq<char>, pat: Seq<char>, rep: Seq<char>) -> Seq<char>
    decreases s.len(),
{
    if s.len() == 0 {
        s
    } else if pat.len() > 0 && pat.len() <= s.len() && s.take(pat.len() as int) == pat {
        rep + replace_all(s.skip(pat.len() as int), pat, rep)
    } else {
        seq![s[0]] + replace_all(s.drop_first(), pat, rep)
    }
}

/// `str::replace(s, pat, rep)` for a non-empty pattern.
pub fn replace(s: &str, pat: &str, rep: &str) -> (r: String)
    requires
        pat@.len() > 0,
    ensures
        r@ == replace_all(s@, pat@, rep@),
{
    let cs = chars_of(s);
    let ps = chars_of(pat);
    let mut out = String::new();
    let mut i: usize = 0;
    proof {
        assert(cs@.skip(0) =~= cs@);
    }
    while i < cs.len()
        invariant
            i <= cs@.len(),
            cs@ == s@,
            ps@ == pat@,
            ps@.len() > 0,
            out@ + replace_all(cs@.skip(i as int), ps@, rep@) == replace_all(s@, pat@, rep@),
        decreases cs.len() - i,
    {
        let ghost rest = cs@.skip(i as int);
        assert(cs@.len() == cs.len());
        let mut matched = ps.len() <= cs.len() - i;
        let mut k: usize = 0;
        while matched && k < ps.len()
            invariant
                k <= ps@.len(),
                matched ==> i + ps@.len() <= cs@.len(),
                matched ==> forall|j: int| 0 <= j < k ==> cs@[i + j] == ps@[j],
                !matched ==> !(ps@.len() <= rest.len() && rest.take(ps@.len() as int) == ps@),
                rest == cs@.skip(i as int),
                i < cs@.len(),
                cs@.len() <= usize::MAX,
            decreases ps.len() - k,
        {
            if cs[i + k] != ps[k] {
                matched = false;
                proof {
                    if ps@.len() <= rest.len() && rest.take(ps@.len() as int) == ps@ {
                        assert(rest.take(ps@.len() as int)[k as int] == cs@[i + k]);
                    }
                }
            }
            k = k + 1;
        }
        if matched {
            proof {
                assert(rest.take(ps@.len() as int) =~= ps@) by {
                    assert forall|j: int| 0 <= j < ps@.len() implies rest.take(ps@.len() as int)[j] == ps@[j] by {
                        assert(rest[j] == cs@[i + j]);
                    }
                }
                assert(rest.skip(ps@.len() as int) =~= cs@.skip(i + ps@.len()));
            }
            let ghost before = out@;
            push_str(&mut out, rep);
            proof {
                assert(before + replace_all(rest, ps@, rep@) == before + (rep@ + replace_all(rest.skip(ps@.len() as int), ps@, rep@)));
                assert(out@ + replace_all(cs@.skip(i + ps@.len()), ps@, rep@) =~= before + (rep@ + replace_all(rest.skip(ps@.len() as int), ps@, rep@)));
            }
            i = i + ps.len();
        } else {
            let ghost before = out@;
            push_char(&mut out, cs[i]);
            proof {
                assert(rest[0] == cs@[i as int]);
                assert(rest.drop_first() =~= cs@.skip(i + 1));
                assert(out@ + replace_all(cs@.skip(i + 1), ps@, rep@) =~= before + (seq![rest[0]] + replace_all(rest.drop_first(), ps@, rep@)));
            }
            i = i + 1;
        }
    }
    proof {
        assert(cs@.skip(i as int) =~= Seq::<char>::empty());
        assert(out@ + Seq::<char>::empty() =~= out@);
    }
    out
}

/// The written form of a type as the schema shows it: without spaces and without the
/// `ractor::` and `crate::` prefixes.
pub open spec fn type_text(written: Seq<char>) -> Seq<char> {
    replace_all(replace_all(replace_all(written, " "@, ""@), "ractor::"@, ""@), "crate::"@, ""@)
}

/// The written form of a type as the schema shows it.
pub fn type_to_string(written: &str) -> (r: String)
    ensures
        r@ == type_text(written@),
{
    proof {
        reveal_strlit(" ");
        reveal_strlit("ractor::");
        reveal_strlit("crate::");
    }
    let a = replace(written, " ", "");
    let b = replace(a.as_str(), "ractor::", "");
    replace(b.as_str(), "crate::", "")
}

/// The key of the `index`-th tuple field: the name given for it, or its index.
pub open spec fn field_key_text(index: nat, names: Option<Seq<String>>) -> Seq<char> {
    match names {
        Some(ns) => if index < ns.len() {
            ns[index as int]@
        } else {
            decimal_text(index)
        },
        None => decimal_text(index),
    }
}

/// The key of the `index`-th tuple field: its name from `#[fields(...)]` if one was given for
/// it, else its index.
pub fn get_field_key(index: usize, field_names: &Option<Vec<String>>) -> (r: String)
    ensures
        r@ == field_key_text(
            index as nat,
            match field_names {
                Some(v) => Some(v@),
                None => None,
            },
        ),
{
    if let Some(names) = field_names {
        if index < names.len() {
            return names[index].clone();
        }
    }
    decimal(index)
}

/// The fields of a message variant, with the written form of each type.
#[derive(Debug, Clone)]
pub enum VariantFields {
    /// No fields
    Unit,
    /// Tuple fields (for an RPC, the last is the reply port)
    Unnamed(Vec<String>),
    /// Named fields
    Named(Vec<(String, String)>),
}

/// A message variant as the schema reads it.
#[derive(Debug, Clone)]
pub struct VariantInfo {
    /// The variant's name
    pub name: String,
    /// Whether the variant is marked `#[rpc]`
    pub is_rpc: bool,
    /// Its fields
    pub fields: VariantFields,
    /// Names from a `#[fields(...)]` attribute, if it has one
    pub field_names: Option<Vec<String>>,
    /// The written form of the reply port's type argument, for an RPC whose last field is a
    /// reply port
    pub reply_type: Option<String>,
}

/// The number of tuple fields the schema lists: all of them, or all but the reply port for an
/// RPC.
pub open spec fn listed_count(n: nat, is_rpc: bool) -> nat {
    if is_rpc && n > 0 {
        (n - 1) as nat
    } else if is_rpc {
        0
    } else {
        n
    }
}

/// `"key":"type"`.
pub open spec fn entry_text(key: Seq<char>, ty: Seq<char>) -> Seq<char> {
    "\""@ + key + "\":\""@ + ty + "\""@
}

/// Entries joined by commas.
pub open spec fn join_comma(es: Seq<Seq<char>>) -> Seq<char>
    decreases es.len(),
{
    if es.len() == 0 {
        Seq::empty()
    } else if es.len() == 1 {
        es[0]
    } else {
        join_comma(es.drop_last()) + ","@ + es.last()
    }
}

/// The field entries of a variant.
pub open spec fn field_entries(v: VariantInfo) -> Seq<Seq<char>> {
    let names = match v.field_names {
        Some(ns) => Some(ns@),
        None => None,
    };
    match v.fields {
        VariantFields::Unit => Seq::empty(),
        VariantFields::Unnamed(ts) => Seq::new(
            listed_count(ts@.len(), v.is_rpc),
            |i: int| entry_text(field_key_text(i as nat, names), type_text(ts@[i]@)),
        ),
        VariantFields::Named(ps) => Seq::new(
            ps@.len(),
            |i: int| entry_text(ps@[i].0@, type_text(ps@[i].1@)),
        ),
    }
}

/// The fields object of a variant.
pub open spec fn fields_text(v: VariantInfo) -> Seq<char> {
    match v.fields {
        VariantFields::Unit => "{}"@,
        _ => "{"@ + join_comma(field_entries(v)) + "}"@,
    }
}

/// The reply type entry of a variant: for an RPC with tuple fields and a reply type.
pub open spec fn reply_text(v: VariantInfo) -> Seq<char> {
    match (v.is_rpc, v.fields, v.reply_type) {
        (true, VariantFields::Unnamed(_), Some(r)) => ",\"reply_type\":\""@ + replace_all(r@, " "@, ""@) + "\""@,
        _ => Seq::empty(),
    }
}

/// `true` or `false`.
pub open spec fn bool_text(b: bool) -> Seq<char> {
    if b {
        "true"@
    } else {
        "false"@
    }
}

/// The schema entry of a variant.
pub open spec fn variant_text(v: VariantInfo) -> Seq<char> {
    "\""@ + v.name@ + "\":{\"fields\":"@ + fields_text(v) + ",\"rpc\":"@ + bool_text(v.is_rpc)
        + reply_text(v) + "}"@
}

/// Whether the `#[fields(...)]` names of a tuple variant do not match its listed fields.
pub open spec fn names_mismatch(v: VariantInfo) -> bool {
    match (v.fields, v.field_names) {
        (VariantFields::Unnamed(ts), Some(ns)) => ns@.len() != listed_count(ts@.len(), v.is_rpc),
        _ => false,
    }
}

/// The error for a variant whose names do not match its fields.
pub open spec fn mismatch_text(v: VariantInfo) -> Seq<char> {
    match (v.fields, v.field_names) {
        (VariantFields::Unnamed(ts), Some(ns)) => "#[fields(...)] has "@ + decimal_text(ns@.len())
            + " names but variant '"@ + v.name@ + "' has "@ + decimal_text(
            listed_count(ts@.len(), v.is_rpc),
        ) + " fields"@ + (if v.is_rpc {
            " (excluding RpcReplyPort)"@
        } else {
            Seq::<char>::empty()
        }),
        _ => Seq::empty(),
    }
}

/// The first variant, from `from` on, whose names do not match its fields, if any.
pub open spec fn first_mismatch(vs: Seq<VariantInfo>, from: int) -> Option<int>
    decreases vs.len() - from,
{
    if from >= vs.len() || from < 0 {
        None
    } else if names_mismatch(vs[from]) {
        Some(from)
    } else {
        first_mismatch(vs, from + 1)
    }
}

/// The schema of a message type with the given variants.
pub open spec fn schema_text(vs: Seq<VariantInfo>) -> Seq<char> {
    "{\"variants\":{"@ + join_comma(Seq::new(vs.len(), |i: int| variant_text(vs[i]))) + "}}"@
}

fn join_step(out: &mut String, first: bool, entry: &str)
    ensures
        final(out)@ == if first {
            old(out)@ + entry@
        } else {
            old(out)@ + ","@ + entry@
        },
{
    if !first {
        push_str(out, ",");
    }
    push_str(out, entry);
}

proof fn lemma_join_comma_push(es: Seq<Seq<char>>, e: Seq<char>)
    ensures
        join_comma(es.push(e)) == if es.len() == 0 {
            e
        } else {
            join_comma(es) + ","@ + e
        },
{
    assert(es.push(e).drop_last() =~= es);
}

fn fields_json(v: &VariantInfo) -> (r: String)
    ensures
        r@ == fields_text(*v),
{
    match &v.fields {
        VariantFields::Unit => "{}".to_string(),
        VariantFields::Unnamed(ts) => {
            let count: usize = if v.is_rpc {
                if ts.len() > 0 {
                    ts.len() - 1
                } else {
                    0
                }
            } else {
                ts.len()
            };
            let mut body = String::new();
            let ghost entries = field_entries(*v);
            let mut i: usize = 0;
            while i < count
                invariant
                    i <= count,
                    count == listed_count(ts@.len(), v.is_rpc),
                    count <= ts@.len(),
                    entries == field_entries(*v),
                    v.fields == VariantFields::Unnamed(*ts),
                    entries.len() == count,
                    body@ == join_comma(entries.take(i as int)),
                decreases count - i,
            {
                let key = get_field_key(i, &v.field_names);
                let ty = type_to_string(ts[i].as_str());
                let mut entry = "\"".to_string();
                push_str(&mut entry, key.as_str());
                push_str(&mut entry, "\":\"");
                push_str(&mut entry, ty.as_str());
                push_str(&mut entry, "\"");
                proof {
                    assert(entry@ == entries[i as int]);
                    lemma_join_comma_push(entries.take(i as int), entries[i as int]);
                    assert(entries.take(i + 1) =~= entries.take(i as int).push(entries[i as int]));
                }
                join_step(&mut body, i == 0, entry.as_str());
                i = i + 1;
            }
            proof {
                assert(entries.take(i as int) =~= entries);
            }
            let mut r = "{".to_string();
            push_str(&mut r, body.as_str());
            push_str(&mut r, "}");
            r
        },
        VariantFields::Named(ps) => {
            let mut body = String::new();
            let ghost entries = field_entries(*v);
            let mut i: usize = 0;
            while i < ps.len()
                invariant
                    i <= ps@.len(),
                    entries == field_entries(*v),
                    v.fields == VariantFields::Named(*ps),
                    entries.len() == ps@.len(),
                    body@ == join_comma(entries.take(i as int)),
                decreases ps.len() - i,
            {
                let ty = type_to_string(ps[i].1.as_str());
                let mut entry = "\"".to_string();
                push_str(&mut entry, ps[i].0.as_str());
                push_str(&mut entry, "\":\"");
                push_str(&mut entry, ty.as_str());
                push_str(&mut entry, "\"");
                proof {
                    assert(entry@ == entries[i as int]);
                    lemma_join_comma_push(entries.take(i as int), entries[i as int]);
                    assert(entries.take(i + 1) =~= entries.take(i as int).push(entries[i as int]));
                }
                join_step(&mut body, i == 0, entry.as_str());
                i = i + 1;
            }
            proof {
                assert(entries.take(i as int) =~= entries);
            }
            let mut r = "{".to_string();
            push_str(&mut r, body.as_str());
            push_str(&mut r, "}");
            r
        },
    }
}

fn names_mismatch_of(v: &VariantInfo) -> (b: bool)
    ensures
        b == names_mismatch(*v),
{
    match (&v.fields, &v.field_names) {
        (VariantFields::Unnamed(ts), Some(ns)) => {
            let count: usize = if v.is_rpc {
                if ts.len() > 0 {
                    ts.len() - 1
                } else {
                    0
                }
            } else {
                ts.len()
            };
            ns.len() != count
        },
        _ => false,
    }
}

fn mismatch_message(v: &VariantInfo) -> (m: String)
    requires
        names_mismatch(*v),
    ensures
        m@ == mismatch_text(*v),
{
    match (&v.fields, &v.field_names) {
        (VariantFields::Unnamed(ts), Some(ns)) => {
            let count: usize = if v.is_rpc {
                if ts.len() > 0 {
                    ts.len() - 1
                } else {
                    0
                }
            } else {
                ts.len()
            };
            let mut m = "#[fields(...)] has ".to_string();
            push_str(&mut m, decimal(ns.len()).as_str());
            push_str(&mut m, " names but variant '");
            push_str(&mut m, v.name.as_str());
            push_str(&mut m, "' has ");
            push_str(&mut m, decimal(count).as_str());
            push_str(&mut m, " fields");
            if v.is_rpc {
                push_str(&mut m, " (excluding RpcReplyPort)");
            } else {
                proof {
                    assert(m@ + Seq::<char>::empty() =~= m@);
                }
            }
            m
        },
        _ => String::new(),
    }
}

fn variant_json(v: &VariantInfo) -> (r: String)
    ensures
        r@ == variant_text(*v),
{
    let mut r = "\"".to_string();
    push_str(&mut r, v.name.as_str());
    push_str(&mut r, "\":{\"fields\":");
    push_str(&mut r, fields_json(v).as_str());
    push_str(&mut r, ",\"rpc\":");
    push_str(&mut r, if v.is_rpc { "true" } else { "false" });
    match (&v.fields, &v.reply_type) {
        (VariantFields::Unnamed(_), Some(t)) => {
            if v.is_rpc {
                proof {
                    reveal_strlit(" ");
                }
                push_str(&mut r, ",\"reply_type\":\"");
                push_str(&mut r, replace(t.as_str(), " ", "").as_str());
                push_str(&mut r, "\"");
            }
        },
        _ => {},
    }
    push_str(&mut r, "}");
    proof {
        let base = "\""@ + v.name@ + "\":{\"fields\":"@ + fields_text(*v) + ",\"rpc\":"@ + bool_text(v.is_rpc);
        assert(base + Seq::<char>::empty() =~= base);
    }
    r
}

/// Build the JSON schema of a message type from its variants: for each variant its fields
/// (tuple fields keyed by their `#[fields(...)]` name or index, the reply port of an RPC left
/// out), whether it is an RPC and its reply type. An error for the first variant whose
/// `#[fields(...)]` names do not match its fields.
pub fn build_schema_json(variants: &Vec<VariantInfo>) -> (r: Result<String, String>)
    ensures
        match first_mismatch(variants@, 0) {
            Some(i) => r matches Err(m) && m@ == mismatch_text(variants@[i]),
            None => r matches Ok(s) && s@ == schema_text(variants@),
        },
{
    let ghost entries = Seq::new(variants@.len(), |i: int| variant_text(variants@[i]));
    let mut body = String::new();
    let mut i: usize = 0;
    while i < variants.len()
        invariant
            i <= variants@.len(),
            entries == Seq::new(variants@.len(), |i: int| variant_text(variants@[i])),
            body@ == join_comma(entries.take(i as int)),
            first_mismatch(variants@, 0) == first_mismatch(variants@, i as int),
        decreases variants.len() - i,
    {
        let v = &variants[i];
        if names_mismatch_of(v) {
            return Err(mismatch_message(v));
        }
        let entry = variant_json(v);
        proof {
            lemma_join_comma_push(entries.take(i as int), entries[i as int]);
            assert(entries.take(i + 1) =~= entries.take(i as int).push(entries[i as int]));
        }
        join_step(&mut body, i == 0, entry.as_str());
        i = i + 1;
    }
    proof {
        assert(entries.take(i as int) =~= entries);
    }
    let mut r = "{\"variants\":{".to_string();
    push_str(&mut r, body.as_str());
    push_str(&mut r, "}}");
    Ok(r)
}


/// The fields object of a tuple variant lists its fields in order, keyed by their
/// `#[fields(...)]` name or index: every one of them for a plain variant, and all but the last
/// (the reply port) for an RPC.
pub proof fn lemma_tuple_fields_listed(v: VariantInfo)
    requires
        v.fields is Unnamed,
    ensures
        ({
            let ts = v.fields->Unnamed_0@;
            let names = match v.field_names {
                Some(ns) => Some(ns@),
                None => None,
            };
            &&& !v.is_rpc ==> field_entries(v).len() == ts.len()
            &&& v.is_rpc && ts.len() > 0 ==> field_entries(v).len() == ts.len() - 1
            &&& v.is_rpc && ts.len() == 0 ==> field_entries(v).len() == 0
            &&& forall|i: int|
                0 <= i < field_entries(v).len() ==> #[trigger] field_entries(v)[i] == entry_text(
                    field_key_text(i as nat, names),
                    type_text(ts[i]@),
                )
        }),
{
}

} // verus!
