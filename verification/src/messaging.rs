//! Reading typed messages (`VariantName {json args}`) typed at the shell.

use vstd::prelude::*;

use crate::error::{ShellError, ShellErrorOf, ShellResult};
use crate::introspection::{first_index_of, lemma_first_index_bounds};
use crate::text::{chars_of, is_whitespace, is_ws, push_str, substring, trim, trim_bounds};

verus! {

/// serde_json's dynamically typed JSON value.
#[verifier::external_type_specification]
#[verifier::external_body]
pub struct ExJsonValue(serde_json::Value);

/// What serde_json makes of reading `s` as one JSON value: the value read, or the message its
/// error displays (which says what went wrong, and at which line and column).
pub uninterp spec fn json_read(s: Seq<char>) -> Result<serde_json::Value, Seq<char>>;

/// Whether serde_json reads `s` as one JSON value.
pub open spec fn json_accepts(s: Seq<char>) -> bool {
    json_read(s) is Ok
}

/// The message of serde_json's error for `s` (empty where `s` reads).
pub open spec fn json_error_message(s: Seq<char>) -> Seq<char> {
    match json_read(s) {
        Ok(_) => Seq::empty(),
        Err(m) => m,
    }
}

/// serde_json's `from_str::<Value>`, with the error written out by its `Display`.
///
/// The value read, or the error's text, is named by [`json_read`], a function of the text
/// alone.
#[verifier::external_body]
fn parse_json(s: &str) -> (r: Result<serde_json::Value, String>)
    ensures
        match r {
            Ok(v) => json_read(s@) == Ok::<serde_json::Value, Seq<char>>(v),
            Err(m) => json_read(s@) == Err::<serde_json::Value, Seq<char>>(m@),
        },
{
    match serde_json::from_str(s) {
        Ok(v) => Ok(v),
        Err(e) => Err(e.to_string()),
    }
}

/// Whether `c` is upper-case under Unicode (`char::is_uppercase`).
pub uninterp spec fn uppercase_char(c: char) -> bool;

/// std's `char::is_uppercase`.
///
/// The Unicode property is named by [`uppercase_char`]; of ASCII the contract states what std
/// documents: exactly `A` to `Z` are upper-case.
#[verifier::external_body]
fn is_uppercase(c: char) -> (b: bool)
    ensures
        b == uppercase_char(c),
        (c as u32) < 128 ==> (b <==> ('A' <= c && c <= 'Z')),
{
    c.is_uppercase()
}

/// Whether a trimmed message starts like a typed message: an upper-case first character (the
/// convention for enum variants) and a `{` somewhere.
pub open spec fn typed_shape(t: Seq<char>) -> bool {
    &&& t.len() > 0
    &&& uppercase_char(t[0])
    &&& t.contains('{')
}

/// Check if a message looks like typed syntax: `VariantName {}` or `VariantName {args}`.
pub fn looks_like_typed_message(message: &str) -> (b: bool)
    ensures
        b == typed_shape(trim(message@)),
{
    let cs = chars_of(message);
    let (a, e) = trim_bounds(&cs);
    if a == e {
        return false;
    }
    assert(cs@.subrange(a as int, e as int)[0] == cs@[a as int]);
    if !is_uppercase(cs[a]) {
        return false;
    }
    let mut i = a;
    while i < e
        invariant
            a <= i <= e <= cs@.len(),
            a < e,
            cs@.subrange(a as int, e as int) == trim(message@),
            uppercase_char(cs@[a as int]),
            forall|j: int| a <= j < i ==> cs@[j] != '{',
        decreases e - i,
    {
        if cs[i] == '{' {
            proof {
                assert(cs@.subrange(a as int, e as int)[i - a] == '{');
            }
            return true;
        }
        i = i + 1;
    }
    proof {
        let t = cs@.subrange(a as int, e as int);
        assert(t[0] == cs@[a as int]);
        if t.contains('{') {
            let k = t.index_of('{');
            assert(cs@[a + k] == '{');
        }
    }
    false
}

/// The length of the variant name at the start of `t`: everything before its first `{` or
/// whitespace.
pub open spec fn variant_end(t: Seq<char>) -> int
    decreases t.len(),
{
    if t.len() == 0 || t[0] == '{' || is_ws(t[0]) {
        0
    } else {
        1 + variant_end(t.drop_first())
    }
}

proof fn lemma_variant_end(t: Seq<char>)
    ensures
        0 <= variant_end(t) <= t.len(),
        forall|i: int| 0 <= i < variant_end(t) ==> t[i] != '{' && !is_ws(t[i]),
        variant_end(t) < t.len() ==> (t[variant_end(t)] == '{' || is_ws(t[variant_end(t)])),
    decreases t.len(),
{
    if t.len() > 0 && t[0] != '{' && !is_ws(t[0]) {
        lemma_variant_end(t.drop_first());
        assert forall|i: int| 0 <= i < variant_end(t) implies t[i] != '{' && !is_ws(t[i]) by {
            if i > 0 {
                assert(t[i] == t.drop_first()[i - 1]);
            }
        }
    }
}

/// The JSON text of a typed message's arguments: from its first `{` to its end, trimmed, or `{}`
/// when it has no `{`.
pub open spec fn typed_args(t: Seq<char>) -> Seq<char> {
    if t.contains('{') {
        trim(t.skip(first_index_of(t, '{')))
    } else {
        "{}"@
    }
}

/// The error text for a typed message without a variant name.
pub open spec fn missing_variant_text() -> Seq<char> {
    "Missing variant name. Use format: VariantName {}"@
}

fn variant_name(cs: &Vec<char>) -> (r: String)
    ensures
        r@ == trim(cs@.take(variant_end(cs@))),
{
    proof {
        lemma_variant_end(cs@);
    }
    let mut ve: usize = 0;
    while ve < cs.len() && cs[ve] != '{' && !is_whitespace(cs[ve])
        invariant
            ve <= variant_end(cs@),
            variant_end(cs@) <= cs@.len(),
            forall|i: int| 0 <= i < variant_end(cs@) ==> cs@[i] != '{' && !is_ws(cs@[i]),
            variant_end(cs@) < cs@.len() ==> (cs@[variant_end(cs@)] == '{' || is_ws(
                cs@[variant_end(cs@)],
            )),
        decreases cs.len() - ve,
    {
        ve = ve + 1;
    }
    assert(ve == variant_end(cs@));
    let ghost name = cs@.take(ve as int);
    let head = substring(cs, 0, ve);
    let head_cs = chars_of(head.as_str());
    let (ha, he) = trim_bounds(&head_cs);
    assert(head_cs@ =~= name);
    substring(&head_cs, ha, he)
}

fn args_text(cs: &Vec<char>) -> (r: String)
    ensures
        r@ == typed_args(cs@),
{
    proof {
        lemma_first_index_bounds(cs@, '{');
    }
    let mut b: usize = 0;
    while b < cs.len() && cs[b] != '{'
        invariant
            b <= first_index_of(cs@, '{'),
            first_index_of(cs@, '{') <= cs@.len(),
            forall|i: int| 0 <= i < first_index_of(cs@, '{') ==> cs@[i] != '{',
            first_index_of(cs@, '{') < cs@.len() ==> cs@[first_index_of(cs@, '{')] == '{',
        decreases cs.len() - b,
    {
        b = b + 1;
    }
    if b < cs.len() {
        let tail = substring(cs, b, cs.len());
        let tail_cs = chars_of(tail.as_str());
        let (ta, te) = trim_bounds(&tail_cs);
        proof {
            assert(cs@.subrange(b as int, cs@.len() as int) =~= cs@.skip(b as int));
            assert(cs@[b as int] == '{');
            assert(cs@.contains('{'));
        }
        substring(&tail_cs, ta, te)
    } else {
        proof {
            if cs@.contains('{') {
                let k = cs@.index_of('{');
                assert(cs@[k] == '{');
            }
        }
        "{}".to_string()
    }
}

/// The error text for typed-message arguments that are not JSON, given serde_json's message.
pub open spec fn invalid_args_text(detail: Seq<char>) -> Seq<char> {
    "Invalid JSON args: "@ + detail + ". Use format: VariantName {}"@
}

fn invalid_args_error(detail: &str) -> (m: String)
    ensures
        m@ == invalid_args_text(detail@),
{
    let mut m = "Invalid JSON args: ".to_string();
    push_str(&mut m, detail);
    push_str(&mut m, ". Use format: VariantName {}");
    m
}

/// Parse a typed message in format `VariantName {args}` or `VariantName {}`.
///
/// The variant name is the text (trimmed) before the first `{` or whitespace; the arguments are
/// the JSON text from the first `{` on, or `{}` if there is none.
pub fn parse_typed_message(message: &str) -> (r: ShellResult<(String, serde_json::Value)>)
    ensures
        ({
            let t = trim(message@);
            let v = trim(t.take(variant_end(t)));
            if v.len() == 0 {
                r matches Err(ShellErrorOf::ParseError(m)) && m@ == missing_variant_text()
            } else if json_accepts(typed_args(t)) {
                r matches Ok((name, val)) && name@ == v && json_read(typed_args(t)) == Ok::<
                    serde_json::Value,
                    Seq<char>,
                >(val)
            } else {
                r matches Err(ShellErrorOf::ParseError(m)) && m@ == invalid_args_text(
                    json_error_message(typed_args(t)),
                )
            }
        }),
{
    let all = chars_of(message);
    let (a, e) = trim_bounds(&all);
    let t = substring(&all, a, e);
    let cs = chars_of(t.as_str());
    let variant = variant_name(&cs);
    let vcs = chars_of(variant.as_str());
    if vcs.len() == 0 {
        return Err(ShellError::ParseError("Missing variant name. Use format: VariantName {}".to_string()));
    }
    let args = args_text(&cs);
    match parse_json(args.as_str()) {
        Ok(value) => Ok((variant, value)),
        Err(detail) => Err(ShellError::ParseError(invalid_args_error(detail.as_str()))),
    }
}

/// The error text for input that is not JSON.
pub open spec fn invalid_json_text() -> Seq<char> {
    "Invalid JSON. Message must be valid JSON or a simple string."@
}

/// Parse user input as one JSON value; an error if it is not valid JSON.
pub fn parse_json_input(input: &str) -> (r: Result<serde_json::Value, String>)
    ensures
        r is Ok <==> json_accepts(input@),
        r matches Ok(v) ==> json_read(input@) == Ok::<serde_json::Value, Seq<char>>(v),
        r matches Err(m) ==> m@ == invalid_json_text(),
{
    match parse_json(input) {
        Ok(v) => Ok(v),
        Err(_) => Err("Invalid JSON. Message must be valid JSON or a simple string.".to_string()),
    }
}

/// Where a `send` or `call` goes once its message is read.
#[derive(Debug)]
pub enum MessageRoute {
    /// A typed RPC (`VariantName {args}`), handled by the typed call path
    Typed,
    /// A JSON message for the current remote node
    Remote(serde_json::Value),
    /// A JSON message for a local actor
    Local(serde_json::Value),
    /// The message is not JSON; the error text
    Invalid(String),
}

/// Route a `send`: its message must be JSON, and goes to the current node if there is one.
pub fn route_send(message: &str, remote: bool) -> (r: MessageRoute)
    ensures
        !json_accepts(message@) <==> (r matches MessageRoute::Invalid(m) && m@ == invalid_json_text()),
        json_accepts(message@) && remote ==> (r matches MessageRoute::Remote(v) && json_read(message@)
            == Ok::<serde_json::Value, Seq<char>>(v)),
        json_accepts(message@) && !remote ==> (r matches MessageRoute::Local(v) && json_read(message@)
            == Ok::<serde_json::Value, Seq<char>>(v)),
{
    match parse_json_input(message) {
        Ok(v) => if remote {
            MessageRoute::Remote(v)
        } else {
            MessageRoute::Local(v)
        },
        Err(e) => MessageRoute::Invalid(e),
    }
}

/// Route a `call`: a typed message to a remote node, or any message to an actor with a known
/// schema, is a typed RPC; any other message is routed as for `send`.
pub fn route_call(message: &str, remote: bool, has_schema: bool) -> (r: MessageRoute)
    ensures
        (typed_shape(trim(message@)) && remote) || has_schema ==> r is Typed,
        !((typed_shape(trim(message@)) && remote) || has_schema) ==> {
            &&& !json_accepts(message@) <==> (r matches MessageRoute::Invalid(m) && m@
                == invalid_json_text())
            &&& json_accepts(message@) && remote ==> (r matches MessageRoute::Remote(v) && json_read(
                message@,
            ) == Ok::<serde_json::Value, Seq<char>>(v))
            &&& json_accepts(message@) && !remote ==> (r matches MessageRoute::Local(v) && json_read(
                message@,
            ) == Ok::<serde_json::Value, Seq<char>>(v))
        },
{
    if (looks_like_typed_message(message) && remote) || has_schema {
        return MessageRoute::Typed;
    }
    route_send(message, remote)
}

} // verus!
