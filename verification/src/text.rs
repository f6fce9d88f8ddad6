//! Character-level text utilities shared by the command parser and the completer.

use vstd::prelude::*;
use vstd::utf8::{encode_scalar, encode_utf8};

verus! {

/// The Unicode `White_Space` property, which is what `char::is_whitespace` tests.
pub open spec fn is_ws(c: char) -> bool {
    let u = c as u32;
    ||| 9 <= u <= 13
    ||| u == 32
    ||| u == 0x85
    ||| u == 0xA0
    ||| u == 0x1680
    ||| 0x2000 <= u <= 0x200A
    ||| u == 0x2028
    ||| u == 0x2029
    ||| u == 0x202F
    ||| u == 0x205F
    ||| u == 0x3000
}

/// Whether `c` is a whitespace character.
pub fn is_whitespace(c: char) -> (b: bool)
    ensures
        b == is_ws(c),
{
    let u = c as u32;
    (9 <= u && u <= 13) || u == 32 || u == 0x85 || u == 0xA0 || u == 0x1680 || (0x2000 <= u && u
        <= 0x200A) || u == 0x2028 || u == 0x2029 || u == 0x202F || u == 0x205F || u == 0x3000
}

/// The characters of `s`, in order.
pub fn chars_of(s: &str) -> (v: Vec<char>)
    ensures
        v@ == s@,
{
    let mut v: Vec<char> = Vec::new();
    for c in it: s.chars()
        invariant
            v@ == it.seq().take(it.index()),
    {
        v.push(c);
    }
    v
}


/// The lower-case form of `s` under Unicode's case mapping, as `str::to_lowercase` returns it.
pub uninterp spec fn lowercase(s: Seq<char>) -> Seq<char>;

/// Whether every character of `s` is ASCII.
pub open spec fn all_ascii(s: Seq<char>) -> bool {
    forall|i: int| 0 <= i < s.len() ==> (s[i] as u32) < 128
}

/// ASCII lower-casing of one character: `A` to `Z` become `a` to `z`, others stay.
pub open spec fn ascii_lower_char(c: char) -> char {
    if 'A' <= c && c <= 'Z' {
        ((c as u32) + 32) as char
    } else {
        c
    }
}

/// std's `str::to_lowercase`.
///
/// The mapping itself is named by [`lowercase`], a function of the text alone. Of it the contract
/// states what std documents for ASCII text (each character is mapped by its own lower-case form,
/// which for ASCII is `A`..`Z` to `a`..`z`), and that the result, like every `String`, holds at
/// most `isize::MAX` bytes.
#[verifier::external_body]
pub(crate) fn to_lowercase(s: &str) -> (r: String)
    ensures
        r@ == lowercase(s@),
        all_ascii(s@) ==> r@ == s@.map_values(|c: char| ascii_lower_char(c)),
        byte_len(r@) <= isize::MAX,
{
    s.to_lowercase()
}

/// One step of the left-to-right word scan: the words completed so far and the word in progress.
pub open spec fn scan_step(st: (Seq<Seq<char>>, Seq<char>), c: char) -> (Seq<Seq<char>>, Seq<char>) {
    if is_ws(c) {
        if st.1.len() > 0 {
            (st.0.push(st.1), Seq::empty())
        } else {
            (st.0, Seq::empty())
        }
    } else {
        (st.0, st.1.push(c))
    }
}

/// The state of the word scan after reading all of `s`.
pub open spec fn scan_words(s: Seq<char>) -> (Seq<Seq<char>>, Seq<char>)
    decreases s.len(),
{
    if s.len() == 0 {
        (Seq::empty(), Seq::empty())
    } else {
        scan_step(scan_words(s.drop_last()), s.last())
    }
}

/// The whitespace-separated words of `s`: its maximal runs of non-whitespace characters.
pub open spec fn split_ws(s: Seq<char>) -> Seq<Seq<char>> {
    let st = scan_words(s);
    if st.1.len() > 0 {
        st.0.push(st.1)
    } else {
        st.0
    }
}

/// A word: a non-empty run of characters without whitespace.
pub open spec fn is_word(w: Seq<char>) -> bool {
    w.len() > 0 && forall|i: int| 0 <= i < w.len() ==> !is_ws(#[trigger] w[i])
}

proof fn lemma_scan_words_clean(s: Seq<char>)
    ensures
        forall|j: int| 0 <= j < scan_words(s).0.len() ==> is_word(#[trigger] scan_words(s).0[j]),
        forall|i: int| 0 <= i < scan_words(s).1.len() ==> !is_ws(#[trigger] scan_words(s).1[i]),
    decreases s.len(),
{
    if s.len() > 0 {
        let prev = scan_words(s.drop_last());
        lemma_scan_words_clean(s.drop_last());
        let c = s.last();
        let next = scan_words(s);
        assert(next == scan_step(prev, c));
        if is_ws(c) {
            if prev.1.len() > 0 {
                assert forall|j: int| 0 <= j < next.0.len() implies is_word(#[trigger] next.0[j]) by {
                    if j < prev.0.len() {
                        assert(next.0[j] == prev.0[j]);
                    } else {
                        assert(next.0[j] == prev.1);
                    }
                }
            }
        } else {
            assert forall|i: int| 0 <= i < next.1.len() implies !is_ws(#[trigger] next.1[i]) by {
                if i < prev.1.len() {
                    assert(next.1[i] == prev.1[i]);
                }
            }
        }
    }
}

/// The words of a text are non-empty and hold no whitespace.
pub proof fn lemma_split_ws_words(s: Seq<char>)
    ensures
        forall|j: int| 0 <= j < split_ws(s).len() ==> is_word(#[trigger] split_ws(s)[j]),
{
    lemma_scan_words_clean(s);
    let st = scan_words(s);
    if st.1.len() > 0 {
        assert forall|j: int| 0 <= j < split_ws(s).len() implies is_word(#[trigger] split_ws(s)[j]) by {
            if j < st.0.len() {
                assert(split_ws(s)[j] == st.0[j]);
            }
        }
    }
}

/// The state of the word scan after reading `s`, starting from the state `st`.
pub open spec fn scan_from(st: (Seq<Seq<char>>, Seq<char>), s: Seq<char>) -> (Seq<Seq<char>>, Seq<char>)
    decreases s.len(),
{
    if s.len() == 0 {
        st
    } else {
        scan_step(scan_from(st, s.drop_last()), s.last())
    }
}

/// The empty scan state.
pub open spec fn scan_start() -> (Seq<Seq<char>>, Seq<char>) {
    (Seq::<Seq<char>>::empty(), Seq::<char>::empty())
}

proof fn lemma_scan_words_from(s: Seq<char>)
    ensures
        scan_words(s) == scan_from(scan_start(), s),
    decreases s.len(),
{
    if s.len() > 0 {
        lemma_scan_words_from(s.drop_last());
    }
}

proof fn lemma_scan_from_concat(st: (Seq<Seq<char>>, Seq<char>), a: Seq<char>, b: Seq<char>)
    ensures
        scan_from(st, a + b) == scan_from(scan_from(st, a), b),
    decreases b.len(),
{
    if b.len() == 0 {
        assert(a + b =~= a);
    } else {
        assert((a + b).drop_last() =~= a + b.drop_last());
        assert((a + b).last() == b.last());
        lemma_scan_from_concat(st, a, b.drop_last());
    }
}

proof fn lemma_scan_from_words_before(ws: Seq<Seq<char>>, s: Seq<char>)
    ensures
        scan_from((ws, Seq::<char>::empty()), s) == (
            ws + scan_from(scan_start(), s).0,
            scan_from(scan_start(), s).1,
        ),
    decreases s.len(),
{
    if s.len() == 0 {
        assert(ws + Seq::<Seq<char>>::empty() =~= ws);
    } else {
        lemma_scan_from_words_before(ws, s.drop_last());
        let p = scan_from(scan_start(), s.drop_last());
        if is_ws(s.last()) && p.1.len() > 0 {
            assert((ws + p.0).push(p.1) =~= ws + p.0.push(p.1));
        }
    }
}

proof fn lemma_scan_blank(s: Seq<char>)
    requires
        forall|i: int| 0 <= i < s.len() ==> is_ws(#[trigger] s[i]),
    ensures
        scan_from(scan_start(), s) == scan_start(),
    decreases s.len(),
{
    if s.len() > 0 {
        lemma_scan_blank(s.drop_last());
        assert(is_ws(s[s.len() - 1]));
    }
}

proof fn lemma_scan_word(w: Seq<char>)
    requires
        forall|i: int| 0 <= i < w.len() ==> !is_ws(#[trigger] w[i]),
    ensures
        scan_from(scan_start(), w) == (Seq::<Seq<char>>::empty(), w),
    decreases w.len(),
{
    if w.len() > 0 {
        lemma_scan_word(w.drop_last());
        assert(!is_ws(w[w.len() - 1]));
        assert(w.drop_last().push(w.last()) =~= w);
    }
}

proof fn lemma_scan_one(st: (Seq<Seq<char>>, Seq<char>), c: char)
    ensures
        scan_from(st, seq![c]) == scan_step(st, c),
{
    assert(seq![c].drop_last() =~= Seq::<char>::empty());
    assert(scan_from(st, seq![c].drop_last()) == st);
    assert(seq![c].last() == c);
}

/// A text that opens with blanks and then the word `w`, followed by the rest `r` (which is
/// empty or starts with whitespace), splits into `w` and then the words of `r`.
pub proof fn lemma_split_first_word(lead: Seq<char>, w: Seq<char>, r: Seq<char>)
    requires
        forall|i: int| 0 <= i < lead.len() ==> is_ws(#[trigger] lead[i]),
        is_word(w),
        r.len() == 0 || is_ws(r[0]),
    ensures
        split_ws(lead + w + r) == seq![w] + split_ws(r),
{
    let e = scan_start();
    lemma_scan_words_from(lead + w + r);
    lemma_scan_words_from(r);
    lemma_scan_from_concat(e, lead, w);
    lemma_scan_blank(lead);
    lemma_scan_word(w);
    lemma_scan_from_concat(e, lead + w, r);
    let after_w = (Seq::<Seq<char>>::empty(), w);
    assert(scan_from(e, lead + w) == after_w);
    if r.len() == 0 {
        assert(lead + w + r =~= lead + w);
        assert(scan_from(after_w, r) == after_w);
        assert(split_ws(r) =~= Seq::<Seq<char>>::empty());
        assert(seq![w] + split_ws(r) =~= Seq::<Seq<char>>::empty().push(w));
    } else {
        let rest = r.subrange(1, r.len() as int);
        assert(r =~= seq![r[0]] + rest);
        lemma_scan_from_concat(after_w, seq![r[0]], rest);
        lemma_scan_from_concat(e, seq![r[0]], rest);
        lemma_scan_one(after_w, r[0]);
        lemma_scan_one(e, r[0]);
        assert(scan_from(after_w, seq![r[0]]) == (seq![w], Seq::<char>::empty()));
        assert(scan_from(e, seq![r[0]]) == e);
        lemma_scan_from_words_before(seq![w], rest);
        let x = scan_from(e, rest);
        assert(scan_from(e, r) == x);
        assert(scan_from(after_w, r) == (seq![w] + x.0, x.1));
        if x.1.len() > 0 {
            assert((seq![w] + x.0).push(x.1) =~= seq![w] + x.0.push(x.1));
        }
    }
}

/// The character sequences of a sequence of strings.
pub open spec fn views(v: Seq<String>) -> Seq<Seq<char>> {
    v.map_values(|s: String| s@)
}

/// Appends `c` to `s` (std's `String::push`).
#[verifier::external_body]
pub(crate) fn push_char(s: &mut String, c: char)
    ensures
        final(s)@ == old(s)@.push(c),
{
    s.push(c);
}

/// Appends `t` to `s` (std's `String::push_str`).
#[verifier::external_body]
pub(crate) fn push_str(s: &mut String, t: &str)
    ensures
        final(s)@ == old(s)@ + t@,
{
    s.push_str(t);
}

/// Whether two string slices hold the same characters.
pub(crate) fn str_eq(a: &str, b: &str) -> (r: bool)
    ensures
        r == (a@ == b@),
{
    let x = chars_of(a);
    let y = chars_of(b);
    if x.len() != y.len() {
        return false;
    }
    let mut i: usize = 0;
    while i < x.len()
        invariant
            x@ == a@,
            y@ == b@,
            x@.len() == y@.len(),
            i <= x@.len(),
            forall|j: int| 0 <= j < i ==> x@[j] == y@[j],
        decreases x.len() - i,
    {
        if x[i] != y[i] {
            return false;
        }
        i = i + 1;
    }
    assert(x@ =~= y@);
    true
}

/// The whitespace-separated words of `s`, as `str::split_whitespace` yields them.
pub fn split_whitespace(s: &str) -> (words: Vec<String>)
    ensures
        views(words@) == split_ws(s@),
{
    let mut words: Vec<String> = Vec::new();
    let mut cur = String::new();
    for c in it: s.chars()
        invariant
            it.seq() == s@,
            (views(words@), cur@) == scan_words(s@.take(it.index())),
    {
        let ghost pre = s@.take(it.index());
        assert(s@.take(it.index() + 1).drop_last() == pre);
        if is_whitespace(c) {
            if !cur.as_str().is_empty() {
                let w = cur;
                cur = String::new();
                words.push(w);
            } else {
                cur = String::new();
            }
        } else {
            push_char(&mut cur, c);
        }
        assert(views(words@) =~= scan_words(s@.take(it.index() + 1)).0);
    }
    assert(s@.take(s@.len() as int) == s@);
    if !cur.as_str().is_empty() {
        words.push(cur);
    }
    assert(views(words@) =~= split_ws(s@));
    words
}


/// The words `w` joined with single spaces.
pub open spec fn join_ws(w: Seq<Seq<char>>) -> Seq<char>
    decreases w.len(),
{
    if w.len() == 0 {
        Seq::empty()
    } else if w.len() == 1 {
        w[0]
    } else {
        join_ws(w.drop_last()) + seq![' '] + w.last()
    }
}

/// `words[from..].join(" ")`.
pub fn join_from(words: &Vec<String>, from: usize) -> (r: String)
    requires
        from <= words.len(),
    ensures
        r@ == join_ws(views(words@).subrange(from as int, words.len() as int)),
{
    let mut r = String::new();
    let mut i = from;
    while i < words.len()
        invariant
            from <= i <= words.len(),
            r@ == join_ws(views(words@).subrange(from as int, i as int)),
        decreases words.len() - i,
    {
        let ghost ws = views(words@);
        assert(ws.subrange(from as int, i + 1).drop_last() =~= ws.subrange(from as int, i as int));
        if i > from {
            push_char(&mut r, ' ');
        }
        push_str(&mut r, words[i].as_str());
        i = i + 1;
    }
    r
}


/// `s` without its leading whitespace.
pub open spec fn trim_start(s: Seq<char>) -> Seq<char>
    decreases s.len(),
{
    if s.len() > 0 && is_ws(s[0]) {
        trim_start(s.drop_first())
    } else {
        s
    }
}

/// `s` without its trailing whitespace.
pub open spec fn trim_end(s: Seq<char>) -> Seq<char>
    decreases s.len(),
{
    if s.len() > 0 && is_ws(s.last()) {
        trim_end(s.drop_last())
    } else {
        s
    }
}

/// `s` without leading and trailing whitespace (`str::trim`).
pub open spec fn trim(s: Seq<char>) -> Seq<char> {
    trim_end(trim_start(s))
}

/// The bounds of `cs` without its leading and trailing whitespace.
pub fn trim_bounds(cs: &Vec<char>) -> (r: (usize, usize))
    ensures
        r.0 <= r.1 <= cs@.len(),
        cs@.subrange(r.0 as int, r.1 as int) == trim(cs@),
{
    let mut a: usize = 0;
    assert(cs@.skip(0) =~= cs@);
    while a < cs.len() && is_whitespace(cs[a])
        invariant
            a <= cs@.len(),
            trim_start(cs@) == trim_start(cs@.skip(a as int)),
        decreases cs.len() - a,
    {
        assert(cs@.skip(a as int).drop_first() =~= cs@.skip(a + 1));
        a = a + 1;
    }
    assert(cs@.skip(a as int) =~= cs@.subrange(a as int, cs@.len() as int));
    if a < cs.len() {
        assert(cs@.skip(a as int)[0] == cs@[a as int]);
    }
    assert(trim_start(cs@.skip(a as int)) == cs@.skip(a as int));
    let mut b: usize = cs.len();
    while b > a && is_whitespace(cs[b - 1])
        invariant
            a <= b <= cs@.len(),
            trim_start(cs@) == cs@.subrange(a as int, cs@.len() as int),
            trim(cs@) == trim_end(cs@.subrange(a as int, b as int)),
        decreases b,
    {
        assert(cs@.subrange(a as int, b as int).drop_last() =~= cs@.subrange(a as int, b - 1));
        b = b - 1;
    }
    if b > a {
        assert(cs@.subrange(a as int, b as int).last() == cs@[b - 1]);
    }
    (a, b)
}

/// The characters `cs[from..to]` as a string.
pub fn substring(cs: &Vec<char>, from: usize, to: usize) -> (r: String)
    requires
        from <= to <= cs@.len(),
    ensures
        r@ == cs@.subrange(from as int, to as int),
{
    let mut r = String::new();
    let mut i = from;
    while i < to
        invariant
            from <= i <= to <= cs@.len(),
            r@ == cs@.subrange(from as int, i as int),
        decreases to - i,
    {
        push_char(&mut r, cs[i]);
        assert(cs@.subrange(from as int, i + 1) =~= cs@.subrange(from as int, i as int).push(cs@[i as int]));
        i = i + 1;
    }
    r
}

/// Whether `s` begins with `prefix` (`str::starts_with`).
pub fn starts_with(s: &str, prefix: &str) -> (b: bool)
    ensures
        b == prefix@.is_prefix_of(s@),
{
    let a = chars_of(s);
    let p = chars_of(prefix);
    if p.len() > a.len() {
        return false;
    }
    let mut i: usize = 0;
    while i < p.len()
        invariant
            i <= p@.len() <= a@.len(),
            a@ == s@,
            p@ == prefix@,
            forall|j: int| 0 <= j < i ==> p@[j] == a@[j],
        decreases p.len() - i,
    {
        if p[i] != a[i] {
            return false;
        }
        i = i + 1;
    }
    assert(a@.take(p@.len() as int) =~= p@);
    true
}

/// Lexicographic order of character sequences by code point, which is the order of `str`.
pub open spec fn lex_le(a: Seq<char>, b: Seq<char>) -> bool
    decreases a.len(),
{
    if a.len() == 0 {
        true
    } else if b.len() == 0 {
        false
    } else if (a[0] as u32) < (b[0] as u32) {
        true
    } else if (a[0] as u32) > (b[0] as u32) {
        false
    } else {
        lex_le(a.drop_first(), b.drop_first())
    }
}

/// The lexicographic order is total.
pub proof fn lemma_lex_total(a: Seq<char>, b: Seq<char>)
    ensures
        lex_le(a, b) || lex_le(b, a),
    decreases a.len(),
{
    if a.len() > 0 && b.len() > 0 && a[0] as u32 == b[0] as u32 {
        lemma_lex_total(a.drop_first(), b.drop_first());
    }
}

/// The lexicographic order is transitive.
pub proof fn lemma_lex_trans(a: Seq<char>, b: Seq<char>, c: Seq<char>)
    requires
        lex_le(a, b),
        lex_le(b, c),
    ensures
        lex_le(a, c),
    decreases a.len(),
{
    if a.len() > 0 && b.len() > 0 && c.len() > 0 && a[0] as u32 == b[0] as u32 && b[0] as u32
        == c[0] as u32 {
        lemma_lex_trans(a.drop_first(), b.drop_first(), c.drop_first());
    }
}

/// Whether `a` comes no later than `b` in the order of `str`.
/// Texts that are each no greater than the other are equal.
pub proof fn lemma_lex_antisym(a: Seq<char>, b: Seq<char>)
    requires
        lex_le(a, b),
        lex_le(b, a),
    ensures
        a == b,
    decreases a.len(),
{
    if a.len() > 0 && b.len() > 0 {
        lemma_lex_antisym(a.drop_first(), b.drop_first());
        assert(a =~= seq![a[0]] + a.drop_first());
        assert(b =~= seq![b[0]] + b.drop_first());
        assert(a[0] == b[0]) by {
            vstd::utf8::char_u32_cast(a[0], a[0] as u32);
            vstd::utf8::char_u32_cast(b[0], b[0] as u32);
        }
    } else if a.len() == 0 && b.len() == 0 {
        assert(a =~= b);
    }
}

pub fn str_le(a: &str, b: &str) -> (r: bool)
    ensures
        r == lex_le(a@, b@),
{
    let x = chars_of(a);
    let y = chars_of(b);
    let mut i: usize = 0;
    assert(x@.skip(0) =~= x@);
    assert(y@.skip(0) =~= y@);
    while i < x.len() && i < y.len() && (x[i] as u32) == (y[i] as u32)
        invariant
            i <= x@.len(),
            i <= y@.len(),
            x@ == a@,
            y@ == b@,
            lex_le(a@, b@) == lex_le(x@.skip(i as int), y@.skip(i as int)),
        decreases x.len() - i,
    {
        assert(x@.skip(i as int).drop_first() =~= x@.skip(i + 1));
        assert(y@.skip(i as int).drop_first() =~= y@.skip(i + 1));
        i = i + 1;
    }
    if i == x.len() {
        true
    } else if i == y.len() {
        false
    } else {
        assert(x@.skip(i as int)[0] == x@[i as int]);
        assert(y@.skip(i as int)[0] == y@[i as int]);
        (x[i] as u32) < (y[i] as u32)
    }
}


/// The number of bytes in the UTF-8 encoding of `s`.
pub open spec fn byte_len(s: Seq<char>) -> int {
    encode_utf8(s).len() as int
}

/// Encoding distributes over concatenation.
pub proof fn lemma_encode_concat(a: Seq<char>, b: Seq<char>)
    ensures
        encode_utf8(a + b) == encode_utf8(a) + encode_utf8(b),
    decreases a.len(),
{
    if a.len() == 0 {
        assert(a + b =~= b);
        assert(encode_utf8(a) + encode_utf8(b) =~= encode_utf8(b));
    } else {
        lemma_encode_concat(a.drop_first(), b);
        assert((a + b).drop_first() =~= a.drop_first() + b);
        assert((a + b)[0] == a[0]);
        assert(encode_utf8(a + b) =~= encode_utf8(a) + encode_utf8(b));
    }
}

/// The number of bytes in the UTF-8 encoding of `c` (`char::len_utf8`).
pub fn utf8_width(c: char) -> (n: usize)
    ensures
        n == encode_scalar(c as u32).len(),
{
    let u = c as u32;
    if u < 0x80 {
        1
    } else if u < 0x800 {
        2
    } else if u < 0x10000 {
        3
    } else {
        4
    }
}

/// Whether `s` contains a whitespace character.
pub open spec fn has_ws(s: Seq<char>) -> bool {
    exists|i: int| 0 <= i < s.len() && is_ws(#[trigger] s[i])
}

/// The position of the last whitespace character of `s`, or -1 if there is none.
pub open spec fn last_ws_index(s: Seq<char>) -> int
    decreases s.len(),
{
    if s.len() == 0 {
        -1
    } else if is_ws(s.last()) {
        s.len() - 1
    } else {
        last_ws_index(s.drop_last())
    }
}

/// Bounds and meaning of [`last_ws_index`].
pub proof fn lemma_last_ws_index(s: Seq<char>)
    ensures
        -1 <= last_ws_index(s) < s.len(),
        last_ws_index(s) >= 0 ==> is_ws(s[last_ws_index(s)]),
        forall|j: int| last_ws_index(s) < j < s.len() ==> !is_ws(#[trigger] s[j]),
    decreases s.len(),
{
    if s.len() > 0 && !is_ws(s.last()) {
        lemma_last_ws_index(s.drop_last());
        assert forall|j: int| last_ws_index(s) < j < s.len() implies !is_ws(#[trigger] s[j]) by {
            if j < s.len() - 1 {
                assert(s[j] == s.drop_last()[j]);
            }
        }
    }
}

/// One past the byte offset at which the last whitespace character of `s` starts, or 0 if `s`
/// has no whitespace (`s.rfind(char::is_whitespace).map(|i| i + 1).unwrap_or(0)`).
pub open spec fn word_start_offset(s: Seq<char>) -> int {
    let k = last_ws_index(s);
    if k < 0 {
        0
    } else {
        byte_len(s.take(k)) + 1
    }
}

/// The byte offset just past the last whitespace of `s`, as [`word_start_offset`] states it.
pub fn word_start(s: &Vec<char>) -> (n: usize)
    requires
        byte_len(s@) <= usize::MAX,
    ensures
        n == word_start_offset(s@),
{
    let mut off: usize = 0;
    let mut start: usize = 0;
    let mut i: usize = 0;
    proof {
        assert(s@.take(0) =~= Seq::<char>::empty());
    }
    while i < s.len()
        invariant
            i <= s@.len(),
            byte_len(s@) <= usize::MAX,
            off == byte_len(s@.take(i as int)),
            start == word_start_offset(s@.take(i as int)),
        decreases s.len() - i,
    {
        let c = s[i];
        let w = utf8_width(c);
        proof {
            let t = s@.take(i as int);
            assert(s@.take(i + 1) =~= t + seq![c]);
            lemma_encode_concat(t, seq![c]);
            assert(seq![c].drop_first() =~= Seq::<char>::empty());
            assert(encode_utf8(Seq::<char>::empty()) =~= Seq::<u8>::empty());
            assert(encode_utf8(seq![c]) == encode_scalar(seq![c][0] as u32) + encode_utf8(
                seq![c].drop_first(),
            ));
            assert(encode_utf8(seq![c]) =~= encode_scalar(c as u32));
            assert(s@.take(i + 1).take(i as int) =~= t);
            assert(s@.take(i + 1).last() == c);
            lemma_last_ws_index(t);
            let k = last_ws_index(t);
            if k >= 0 {
                assert(s@.take(i + 1).take(k) =~= t.take(k));
            }
            lemma_encode_concat(s@.take(i + 1), s@.skip(i + 1));
            assert(s@.take(i + 1) + s@.skip(i + 1) =~= s@);
            assert(s@.take(i + 1).drop_last() =~= t);
        }
        if is_whitespace(c) {
            start = off + 1;
        }
        off = off + w;
        i = i + 1;
    }
    assert(s@.take(s@.len() as int) =~= s@);
    start
}

} // verus!
