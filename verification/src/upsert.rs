//! Escaping of node property values for the graph store's query language.
//!
//! A property value is rendered as text, then wrapped in double quotes with
//! every inner double quote and backslash escaped by a backslash.

use vstd::prelude::*;

use crate::digits::dec_digits;
use crate::digits::i64_to_decimal;
use crate::digits::signed_dec_digits;
use crate::digits::u64_to_decimal;

verus! {

/// A string that has been quoted and escaped for the query language. Values
/// of this type are only ever produced by `escape_quote`, so holding one is
/// proof that the quoting discipline was applied.
pub struct Escaped {
    text: String,
}

impl View for Escaped {
    type V = Seq<char>;

    closed spec fn view(&self) -> Seq<char> {
        self.text@
    }
}

impl Escaped {
    /// The escaped text, quotes included.
    pub fn as_str(&self) -> (s: &str)
        ensures
            s@ == self@,
    {
        self.text.as_str()
    }
}

/// How one character is escaped: a double quote or a backslash gets a
/// backslash before it; everything else stands as it is.
pub open spec fn escape_char(c: char) -> Seq<char> {
    if c == '"' {
        seq!['\\', '"']
    } else if c == '\\' {
        seq!['\\', '\\']
    } else {
        seq![c]
    }
}

/// The escaped form of a character sequence.
pub open spec fn escape_chars(s: Seq<char>) -> Seq<char>
    decreases s.len(),
{
    if s.len() == 0 {
        Seq::empty()
    } else {
        escape_char(s[0]) + escape_chars(s.subrange(1, s.len() as int))
    }
}

/// The escaped form of `s`, wrapped in double quotes.
pub open spec fn quoted(s: Seq<char>) -> Seq<char> {
    seq!['"'] + escape_chars(s) + seq!['"']
}

proof fn lemma_escape_chars_snoc(s: Seq<char>, c: char)
    ensures
        escape_chars(s.push(c)) == escape_chars(s) + escape_char(c),
    decreases s.len(),
{
    if s.len() == 0 {
        assert(s.push(c)[0] == c);
        assert(s.push(c).subrange(1, 1) =~= Seq::<char>::empty());
        assert(escape_chars(Seq::<char>::empty()) == Seq::<char>::empty());
        assert(escape_chars(s.push(c)) == escape_char(c) + escape_chars(
            s.push(c).subrange(1, 1),
        ));
        assert(escape_chars(s.push(c)) =~= escape_chars(s) + escape_char(c));
    } else {
        assert(s.push(c).subrange(1, s.len() as int + 1) =~= s.subrange(1, s.len() as int).push(
            c,
        ));
        lemma_escape_chars_snoc(s.subrange(1, s.len() as int), c);
        assert(escape_chars(s.push(c)) =~= escape_chars(s) + escape_char(c));
    }
}

/// Relies on `String: FromIterator<char>`: collecting chars yields the
/// string of exactly those characters in order.
#[verifier::external_body]
pub(crate) fn chars_to_string(chars: &Vec<char>) -> (s: String)
    ensures
        s@ == chars@,
{
    chars.iter().collect()
}

fn quote_chars(cs: &Vec<char>) -> (r: Escaped)
    ensures
        r@ == quoted(cs@),
{
    let mut out: Vec<char> = Vec::new();
    out.push('"');
    let mut i: usize = 0;
    proof {
        assert(cs@.subrange(0, 0) =~= Seq::<char>::empty());
        assert(out@ =~= seq!['"'] + escape_chars(cs@.subrange(0, 0)));
    }
    while i < cs.len()
        invariant
            i <= cs@.len(),
            out@ == seq!['"'] + escape_chars(cs@.subrange(0, i as int)),
        decreases cs@.len() - i,
    {
        let ghost prefix = cs@.subrange(0, i as int);
        let ghost old_out = out@;
        let c = cs[i];
        if c == '"' {
            out.push('\\');
            out.push('"');
        } else if c == '\\' {
            out.push('\\');
            out.push('\\');
        } else {
            out.push(c);
        }
        proof {
            assert(out@ =~= old_out + escape_char(c));
            lemma_escape_chars_snoc(prefix, c);
            assert(cs@.subrange(0, i + 1) =~= prefix.push(c));
            assert(out@ =~= seq!['"'] + escape_chars(cs@.subrange(0, i + 1)));
        }
        i = i + 1;
    }
    let ghost escaped_body = out@;
    out.push('"');
    proof {
        assert(cs@.subrange(0, cs@.len() as int) =~= cs@);
        assert(out@ =~= quoted(cs@));
    }
    Escaped { text: chars_to_string(&out) }
}

fn str_to_chars(s: &str) -> (cs: Vec<char>)
    ensures
        cs@ == s@,
{
    let mut cs: Vec<char> = Vec::new();
    let n = s.unicode_len();
    let mut i: usize = 0;
    while i < n
        invariant
            n == s@.len(),
            i <= n,
            cs@ == s@.subrange(0, i as int),
        decreases n - i,
    {
        cs.push(s.get_char(i));
        proof {
            assert(cs@ =~= s@.subrange(0, i + 1));
        }
        i = i + 1;
    }
    proof {
        assert(s@.subrange(0, s@.len() as int) =~= s@);
    }
    cs
}

/// Quote `s` for the query language, escaping inner quotes and backslashes.
pub fn escape_quote(s: &str) -> (r: Escaped)
    ensures
        r@ == quoted(s@),
{
    let cs = str_to_chars(s);
    quote_chars(&cs)
}

/// One node property value. Integer-valued properties are rendered in
/// decimal when escaped; the string-valued property is escaped as it is.
pub enum Property {
    IncrementOnlyIntProp(i64),
    DecrementOnlyIntProp(i64),
    ImmutableIntProp(i64),
    IncrementOnlyUintProp(u64),
    DecrementOnlyUintProp(u64),
    ImmutableUintProp(u64),
    ImmutableStrProp(String),
}

/// A named node property as carried in a graph description.
pub struct NodeProperty {
    pub property: Property,
}

/// The textual rendering of a property value, before quoting.
pub open spec fn property_chars(p: Property) -> Seq<char> {
    match p {
        Property::IncrementOnlyIntProp(v) => signed_dec_digits(v as int),
        Property::DecrementOnlyIntProp(v) => signed_dec_digits(v as int),
        Property::ImmutableIntProp(v) => signed_dec_digits(v as int),
        Property::IncrementOnlyUintProp(v) => dec_digits(v as nat),
        Property::DecrementOnlyUintProp(v) => dec_digits(v as nat),
        Property::ImmutableUintProp(v) => dec_digits(v as nat),
        Property::ImmutableStrProp(s) => s@,
    }
}

/// Render a property value as text, unquoted: integers in decimal, the
/// string property as it is.
pub fn property_string(p: &Property) -> (s: String)
    ensures
        s@ == property_chars(*p),
{
    match p {
        Property::IncrementOnlyIntProp(v) => chars_to_string(&i64_to_decimal(*v)),
        Property::DecrementOnlyIntProp(v) => chars_to_string(&i64_to_decimal(*v)),
        Property::ImmutableIntProp(v) => chars_to_string(&i64_to_decimal(*v)),
        Property::IncrementOnlyUintProp(v) => chars_to_string(&u64_to_decimal(*v)),
        Property::DecrementOnlyUintProp(v) => chars_to_string(&u64_to_decimal(*v)),
        Property::ImmutableUintProp(v) => chars_to_string(&u64_to_decimal(*v)),
        Property::ImmutableStrProp(s) => s.clone(),
    }
}

/// Escape a node property's value: render it as text and quote it.
pub fn escape_prop(node_property: &NodeProperty) -> (r: Escaped)
    ensures
        r@ == quoted(property_chars(node_property.property)),
{
    match &node_property.property {
        Property::IncrementOnlyIntProp(v) => quote_chars(&i64_to_decimal(*v)),
        Property::DecrementOnlyIntProp(v) => quote_chars(&i64_to_decimal(*v)),
        Property::ImmutableIntProp(v) => quote_chars(&i64_to_decimal(*v)),
        Property::IncrementOnlyUintProp(v) => quote_chars(&u64_to_decimal(*v)),
        Property::DecrementOnlyUintProp(v) => quote_chars(&u64_to_decimal(*v)),
        Property::ImmutableUintProp(v) => quote_chars(&u64_to_decimal(*v)),
        Property::ImmutableStrProp(s) => escape_quote(s.as_str()),
    }
}

} // verus!
