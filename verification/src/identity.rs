//! Node identity attribution.
//!
//! A described node is attributed an identity by one of two strategies. A
//! session strategy builds a pseudo key from the tenant's URN, the node's
//! primary-key property values and its node key, and resolves it against the
//! session store (an external call the host makes). A static strategy needs
//! no store: the node key is the hex form of a digest over the node's
//! primary-key property values (in sorted property-name order), its node
//! type and the tenant id.

use vstd::prelude::*;
use vstd::string::StrSliceExecFns;
use vstd::string::StringExecFns;
use vstd::utf8::encode_utf8;

use crate::digits::digit_char;
use crate::upsert::NodeProperty;
use crate::upsert::Property;
use crate::upsert::property_chars;
use crate::upsert::property_string;

verus! {

broadcast use vstd::seq_lib::group_to_multiset_ensures;

/// A node as described by an upstream generator, before identity
/// attribution.
pub struct NodeDescription {
    pub properties: Vec<(String, NodeProperty)>,
    pub node_key: String,
    pub node_type: String,
    pub id_strategy: Vec<Strategy>,
}

/// Attribution by session resolution: the listed properties form the
/// primary key; the two times say whether the observation opens a session.
pub struct SessionStrategy {
    pub primary_key_properties: Vec<String>,
    pub primary_key_requires_asset_id: bool,
    pub create_time: u64,
    pub last_seen_time: u64,
}

/// Attribution by deterministic hashing of the listed properties.
pub struct StaticStrategy {
    pub primary_key_properties: Vec<String>,
}

pub enum Strategy {
    Session(SessionStrategy),
    Static(StaticStrategy),
}

/// An unidentified session: the pseudo key to resolve, the observation
/// time, and whether the observation is a session creation.
pub struct UnidSession {
    pub pseudo_key: String,
    pub timestamp: u64,
    pub is_creation: bool,
}

/// Why attribution was refused.
#[derive(Debug)]
pub enum IdentityError {
    /// The node lacks a property the strategy's primary key requires.
    MissingProperty(String),
    /// The session strategy carries neither a creation nor a last-seen
    /// time; terminating sessions are not supported.
    UnsupportedSessionTimes,
}

/// The name a digest byte sequence is known by: what `sha2`'s SHA-256
/// computes. It depends on the input bytes alone.
pub uninterp spec fn sha256_of(bytes: Seq<u8>) -> Seq<u8>;

/// The name of a tenant id's URN rendering: what `uuid` prints for the
/// 128-bit id. It depends on the id alone.
pub uninterp spec fn urn_of(id: u128) -> Seq<char>;

/// Relies on `sha2::Sha256`: one call of `digest` hashes exactly the given
/// bytes, and a SHA-256 digest is 32 bytes long.
#[verifier::external_body]
fn sha256(data: &Vec<u8>) -> (r: Vec<u8>)
    ensures
        r@ == sha256_of(data@),
        r@.len() == 32,
{
    <sha2::Sha256 as sha2::Digest>::digest(data.as_slice()).to_vec()
}

/// Relies on `uuid::Uuid::from_u128` (big-endian) and the `Urn` formatter:
/// the URN rendering of a UUID is a function of its 128 bits alone, and is
/// always 45 characters ("urn:uuid:" and the 36-character hyphenated form).
#[verifier::external_body]
fn tenant_urn(id: u128) -> (r: String)
    ensures
        r@ == urn_of(id),
        r@.len() == 45,
{
    uuid::Uuid::from_u128(id).urn().to_string()
}

/// The lowercase hex digit for `d`.
pub open spec fn hex_digit(d: int) -> char {
    if d < 10 {
        digit_char(d)
    } else if d == 10 {
        'a'
    } else if d == 11 {
        'b'
    } else if d == 12 {
        'c'
    } else if d == 13 {
        'd'
    } else if d == 14 {
        'e'
    } else {
        'f'
    }
}

/// The lowercase hex encoding of a byte sequence: two digits per byte, high
/// nibble first.
pub open spec fn hex_of(bytes: Seq<u8>) -> Seq<char>
    decreases bytes.len(),
{
    if bytes.len() == 0 {
        Seq::empty()
    } else {
        seq![hex_digit(bytes[0] as int / 16), hex_digit(bytes[0] as int % 16)] + hex_of(
            bytes.subrange(1, bytes.len() as int),
        )
    }
}

/// Relies on `hex::encode`: each byte becomes exactly two lowercase hex
/// digits, in input order.
#[verifier::external_body]
fn hex_encode(bytes: &Vec<u8>) -> (r: String)
    ensures
        r@ == hex_of(bytes@),
{
    hex::encode(bytes.as_slice())
}

/// Byte `i` (from the most significant end) of `v`.
pub open spec fn be_byte(v: u128, i: int) -> u8 {
    ((v >> (((15 - i) * 8) as u128)) & 0xff) as u8
}

/// The sixteen bytes of `v`, most significant first — the byte form of a
/// tenant id, as the session store keys it.
pub open spec fn u128_be_bytes(v: u128) -> Seq<u8> {
    Seq::new(16, |i: int| be_byte(v, i))
}

/// Render a tenant id as its sixteen big-endian bytes.
pub fn tenant_id_bytes(v: u128) -> (bytes: Vec<u8>)
    ensures
        bytes@ == u128_be_bytes(v),
{
    let mut bytes: Vec<u8> = Vec::new();
    let mut i: usize = 0;
    while i < 16
        invariant
            i <= 16,
            bytes@.len() == i,
            forall|j: int| 0 <= j < i ==> bytes@[j] == be_byte(v, j),
        decreases 16 - i,
    {
        let shift: u128 = ((15 - i) * 8) as u128;
        let byte_wide: u128 = (v >> shift) & 0xff;
        assert(byte_wide <= 0xff) by (bit_vector)
            requires
                byte_wide == (v >> shift) & 0xff,
        ;
        bytes.push(byte_wide as u8);
        i = i + 1;
    }
    proof {
        assert(bytes@ =~= u128_be_bytes(v));
    }
    bytes
}

/// The first property of `props` named `name`, if any.
pub open spec fn prop_lookup(props: Seq<(String, NodeProperty)>, name: Seq<char>) -> Option<
    NodeProperty,
>
    decreases props.len(),
{
    if props.len() == 0 {
        Option::None
    } else if props[0].0@ == name {
        Option::Some(props[0].1)
    } else {
        prop_lookup(props.subrange(1, props.len() as int), name)
    }
}

proof fn lemma_prop_lookup_at(props: Seq<(String, NodeProperty)>, name: Seq<char>, i: int)
    requires
        0 <= i < props.len(),
        forall|j: int| 0 <= j < i ==> props[j].0@ != name,
        props[i].0@ == name,
    ensures
        prop_lookup(props, name) == Option::Some(props[i].1),
    decreases i,
{
    if i == 0 {
    } else {
        let t = props.subrange(1, props.len() as int);
        assert(forall|j: int| 0 <= j < t.len() ==> t[j] == props[j + 1]);
        lemma_prop_lookup_at(t, name, i - 1);
    }
}

proof fn lemma_prop_lookup_none(props: Seq<(String, NodeProperty)>, name: Seq<char>)
    requires
        forall|j: int| 0 <= j < props.len() ==> props[j].0@ != name,
    ensures
        prop_lookup(props, name) is None,
    decreases props.len(),
{
    if props.len() > 0 {
        let t = props.subrange(1, props.len() as int);
        assert(forall|j: int| 0 <= j < t.len() ==> t[j] == props[j + 1]);
        lemma_prop_lookup_none(t, name);
    }
}

fn find_prop(props: &Vec<(String, NodeProperty)>, name: &String) -> (r: Option<usize>)
    ensures
        r matches Some(i) ==> i < props@.len() && props@[i as int].0@ == name@ && prop_lookup(
            props@,
            name@,
        ) == Option::Some(props@[i as int].1),
        r is None ==> prop_lookup(props@, name@) is None,
{
    let mut i: usize = 0;
    while i < props.len()
        invariant
            i <= props@.len(),
            forall|j: int| 0 <= j < i ==> props@[j].0@ != name@,
        decreases props@.len() - i,
    {
        if props[i].0 == *name {
            proof {
                lemma_prop_lookup_at(props@, name@, i as int);
            }
            return Some(i);
        }
        i = i + 1;
    }
    proof {
        lemma_prop_lookup_none(props@, name@);
    }
    None
}

/// The concatenated renderings of the properties `names[i..]` name, looked
/// up in `props`; or the first name that is missing.
pub open spec fn session_parts_from(
    props: Seq<(String, NodeProperty)>,
    names: Seq<String>,
    i: int,
) -> Result<Seq<char>, Seq<char>>
    decreases names.len() - i,
{
    if i < 0 || i >= names.len() {
        Result::Ok(Seq::empty())
    } else {
        match prop_lookup(props, names[i]@) {
            Option::None => Result::Err(names[i]@),
            Option::Some(p) => match session_parts_from(props, names, i + 1) {
                Result::Ok(rest) => Result::Ok(property_chars(p.property) + rest),
                Result::Err(e) => Result::Err(e),
            },
        }
    }
}

/// The middle of a session primary key: the renderings of all the named
/// properties in order, or the first missing name.
pub open spec fn session_parts(props: Seq<(String, NodeProperty)>, names: Seq<String>) -> Result<
    Seq<char>,
    Seq<char>,
> {
    session_parts_from(props, names, 0)
}

spec fn with_char_prefix(done: Seq<char>, rest: Result<Seq<char>, Seq<char>>) -> Result<
    Seq<char>,
    Seq<char>,
> {
    match rest {
        Result::Ok(r) => Result::Ok(done + r),
        Result::Err(e) => Result::Err(e),
    }
}

/// Build the primary key a session strategy resolves: the tenant's URN,
/// then the renderings of the strategy's primary-key properties in order,
/// then the node's key as a natural partition. Fails with the first
/// primary-key property the node lacks. (Asset-id primary keys are not
/// supported; the caller must not ask for one.)
pub fn primary_session_key(tenant_id: u128, node: &NodeDescription, strategy: &SessionStrategy)
    -> (r: Result<String, IdentityError>)
    requires
        !strategy.primary_key_requires_asset_id,
    ensures
        session_parts(node.properties@, strategy.primary_key_properties@) matches Result::Ok(cs)
            ==> (r matches Ok(s) && s@ == urn_of(tenant_id) + cs + node.node_key@),
        session_parts(node.properties@, strategy.primary_key_properties@) matches Result::Err(name)
            ==> (r matches Err(IdentityError::MissingProperty(n)) && n@ == name),
{
    let props = &node.properties;
    let names = &strategy.primary_key_properties;
    let mut acc = tenant_urn(tenant_id);
    let ghost mut done: Seq<char> = Seq::empty();
    let mut i: usize = 0;
    proof {
        let f0 = session_parts_from(props@, names@, 0);
        if f0 is Ok {
            assert(Seq::<char>::empty() + f0->Ok_0 =~= f0->Ok_0);
        }
        assert(acc@ =~= urn_of(tenant_id) + done);
    }
    while i < names.len()
        invariant
            props@ == node.properties@,
            names@ == strategy.primary_key_properties@,
            i <= names@.len(),
            acc@ == urn_of(tenant_id) + done,
            session_parts(props@, names@) == with_char_prefix(
                done,
                session_parts_from(props@, names@, i as int),
            ),
        decreases names@.len() - i,
    {
        let found = find_prop(props, &names[i]);
        match found {
            Some(pi) => {
                let ps = property_string(&props[pi].1.property);
                let ghost pc = property_chars(props@[pi as int].1.property);
                acc.append(ps.as_str());
                proof {
                    let fi = session_parts_from(props@, names@, i as int);
                    let fi1 = session_parts_from(props@, names@, i as int + 1);
                    assert(prop_lookup(props@, names@[i as int]@) == Option::Some(
                        props@[pi as int].1,
                    ));
                    if fi1 is Ok {
                        assert(fi == Result::<Seq<char>, Seq<char>>::Ok(pc + fi1->Ok_0));
                        assert(done + (pc + fi1->Ok_0) =~= (done + pc) + fi1->Ok_0);
                    } else {
                        assert(fi == fi1);
                    }
                    done = done + pc;
                    assert(acc@ =~= urn_of(tenant_id) + done);
                }
            },
            None => {
                proof {
                    assert(prop_lookup(props@, names@[i as int]@) is None);
                    assert(session_parts_from(props@, names@, i as int)
                        == Result::<Seq<char>, Seq<char>>::Err(names@[i as int]@));
                    assert(session_parts(props@, names@) == Result::<Seq<char>, Seq<char>>::Err(
                        names@[i as int]@,
                    ));
                }
                return Err(IdentityError::MissingProperty(names[i].clone()));
            },
        }
        i = i + 1;
    }
    proof {
        assert(done + Seq::<char>::empty() =~= done);
    }
    acc.append(node.node_key.as_str());
    proof {
        assert(acc@ =~= urn_of(tenant_id) + done + node.node_key@);
    }
    Ok(acc)
}

/// Lexicographic order on character sequences, by code point.
pub open spec fn lex_leq_chars(a: Seq<char>, b: Seq<char>) -> bool
    decreases a.len(),
{
    if a.len() == 0 {
        true
    } else if b.len() == 0 {
        false
    } else if (a[0] as u32) < (b[0] as u32) {
        true
    } else if (b[0] as u32) < (a[0] as u32) {
        false
    } else {
        lex_leq_chars(a.subrange(1, a.len() as int), b.subrange(1, b.len() as int))
    }
}

proof fn lemma_lex_total(a: Seq<char>, b: Seq<char>)
    ensures
        lex_leq_chars(a, b) || lex_leq_chars(b, a),
    decreases a.len(),
{
    if a.len() == 0 || b.len() == 0 {
    } else if (a[0] as u32) < (b[0] as u32) || (b[0] as u32) < (a[0] as u32) {
    } else {
        lemma_lex_total(a.subrange(1, a.len() as int), b.subrange(1, b.len() as int));
    }
}

proof fn lemma_lex_trans(a: Seq<char>, b: Seq<char>, c: Seq<char>)
    requires
        lex_leq_chars(a, b),
        lex_leq_chars(b, c),
    ensures
        lex_leq_chars(a, c),
    decreases a.len(),
{
    if a.len() == 0 {
    } else {
        assert(b.len() > 0);
        assert(c.len() > 0);
        if (a[0] as u32) < (b[0] as u32) {
        } else if (b[0] as u32) < (c[0] as u32) {
        } else {
            lemma_lex_trans(
                a.subrange(1, a.len() as int),
                b.subrange(1, b.len() as int),
                c.subrange(1, c.len() as int),
            );
        }
    }
}

/// Compare two strings in the lexicographic code-point order.
fn lex_le(a: &String, b: &String) -> (r: bool)
    ensures
        r == lex_leq_chars(a@, b@),
{
    let an = a.as_str().unicode_len();
    let bn = b.as_str().unicode_len();
    let mut i: usize = 0;
    proof {
        assert(a@.subrange(0, an as int) =~= a@);
        assert(b@.subrange(0, bn as int) =~= b@);
    }
    loop
        invariant
            i <= an,
            i <= bn,
            an == a@.len(),
            bn == b@.len(),
            lex_leq_chars(a@, b@) == lex_leq_chars(
                a@.subrange(i as int, an as int),
                b@.subrange(i as int, bn as int),
            ),
        decreases an - i,
    {
        let ghost asub = a@.subrange(i as int, an as int);
        let ghost bsub = b@.subrange(i as int, bn as int);
        if i == an {
            proof {
                assert(asub.len() == 0);
            }
            return true;
        }
        if i == bn {
            proof {
                assert(bsub.len() == 0 && asub.len() > 0);
            }
            return false;
        }
        let ca = a.as_str().get_char(i);
        let cb = b.as_str().get_char(i);
        proof {
            assert(asub[0] == a@[i as int]);
            assert(bsub[0] == b@[i as int]);
        }
        if (ca as u32) < (cb as u32) {
            return true;
        }
        if (cb as u32) < (ca as u32) {
            return false;
        }
        proof {
            assert(asub.subrange(1, asub.len() as int) =~= a@.subrange(i + 1, an as int));
            assert(bsub.subrange(1, bsub.len() as int) =~= b@.subrange(i + 1, bn as int));
        }
        i = i + 1;
    }
}

/// Sort property names into the lexicographic code-point order, keeping
/// exactly the same multiset of names.
pub fn sort_property_names(names: &Vec<String>) -> (sorted: Vec<String>)
    ensures
        sorted@.to_multiset() == names@.to_multiset(),
        forall|p: int, q: int|
            0 <= p < q < sorted@.len() ==> lex_leq_chars(sorted@[p]@, sorted@[q]@),
{
    broadcast use vstd::seq_lib::group_to_multiset_ensures;

    let mut rest = names.clone();
    proof {
        assert forall|j: int| 0 <= j < names@.len() implies rest@[j] == names@[j] by {}
        assert(rest@ =~= names@);
    }
    let mut out: Vec<String> = Vec::new();
    proof {
        assert(out@.to_multiset().add(rest@.to_multiset()) =~= names@.to_multiset());
    }
    while rest.len() > 0
        invariant
            out@.to_multiset().add(rest@.to_multiset()) == names@.to_multiset(),
            forall|p: int, q: int| 0 <= p < q < out@.len() ==> lex_leq_chars(out@[p]@, out@[q]@),
            forall|p: int, j: int|
                (0 <= p < out@.len() && 0 <= j < rest@.len()) ==> lex_leq_chars(
                    out@[p]@,
                    rest@[j]@,
                ),
        decreases rest@.len(),
    {
        let mut m: usize = 0;
        let mut k: usize = 1;
        proof {
            lemma_lex_total(rest@[0]@, rest@[0]@);
        }
        while k < rest.len()
            invariant
                rest@.len() > 0,
                m < k,
                k <= rest@.len(),
                forall|j: int| 0 <= j < k ==> lex_leq_chars(rest@[m as int]@, rest@[j]@),
            decreases rest@.len() - k,
        {
            if lex_le(&rest[k], &rest[m]) {
                proof {
                    assert forall|j: int| 0 <= j < k + 1 implies lex_leq_chars(
                        rest@[k as int]@,
                        rest@[j]@,
                    ) by {
                        if j < k as int {
                            lemma_lex_trans(rest@[k as int]@, rest@[m as int]@, rest@[j]@);
                        } else {
                            lemma_lex_total(rest@[k as int]@, rest@[k as int]@);
                        }
                    }
                }
                m = k;
            } else {
                proof {
                    lemma_lex_total(rest@[m as int]@, rest@[k as int]@);
                }
            }
            k = k + 1;
        }
        let ghost old_out = out@;
        let ghost old_rest = rest@;
        let x = rest.remove(m);
        out.push(x);
        proof {
            assert(old_rest.contains(old_rest[m as int])) by {
                assert(old_rest[m as int] == old_rest[m as int]);
            }
            assert(rest@ == old_rest.remove(m as int));
            assert(old_rest.remove(m as int).to_multiset() =~= old_rest.to_multiset().remove(
                old_rest[m as int],
            ));
            assert(out@ == old_out.push(old_rest[m as int]));
            assert(old_out.push(old_rest[m as int]).to_multiset() =~= old_out.to_multiset().insert(
                old_rest[m as int],
            ));
            assert(old_rest.to_multiset().count(old_rest[m as int]) > 0);
            assert(out@.to_multiset().add(rest@.to_multiset()) =~= old_out.to_multiset().add(
                old_rest.to_multiset(),
            ));
            assert forall|p: int, q: int|
                0 <= p < q < out@.len() implies lex_leq_chars(out@[p]@, out@[q]@) by {
                if q < out@.len() - 1 {
                    assert(out@[p] == old_out[p] && out@[q] == old_out[q]);
                } else {
                    assert(out@[p] == old_out[p] && out@[q] == old_rest[m as int]);
                }
            }
            assert forall|p: int, j: int|
                (0 <= p < out@.len() && 0 <= j < rest@.len()) implies lex_leq_chars(
                out@[p]@,
                rest@[j]@,
            ) by {
                let oj: int = if j < m as int {
                    j
                } else {
                    j + 1
                };
                assert(rest@[j] == old_rest[oj]);
                if p < out@.len() - 1 {
                    assert(out@[p] == old_out[p]);
                } else {
                    assert(out@[p] == old_rest[m as int]);
                }
            }
        }
    }
    proof {
        assert forall|x: String| true implies out@.to_multiset().count(x) == names@.to_multiset().count(
            x,
        ) by {
            assert(!rest@.contains(x));
            assert(rest@.to_multiset().count(x) == 0);
            assert(out@.to_multiset().add(rest@.to_multiset()).count(x) == out@.to_multiset().count(
                x,
            ) + rest@.to_multiset().count(x));
        }
        assert(out@.to_multiset() =~= names@.to_multiset());
    }
    out
}

/// The concatenated rendered bytes of the properties `names[i..]` name,
/// looked up in `props`; or the first name that is missing.
pub open spec fn hashed_parts_from(
    props: Seq<(String, NodeProperty)>,
    names: Seq<String>,
    i: int,
) -> Result<Seq<u8>, Seq<char>>
    decreases names.len() - i,
{
    if i < 0 || i >= names.len() {
        Result::Ok(Seq::empty())
    } else {
        match prop_lookup(props, names[i]@) {
            Option::None => Result::Err(names[i]@),
            Option::Some(p) => match hashed_parts_from(props, names, i + 1) {
                Result::Ok(rest) => Result::Ok(encode_utf8(property_chars(p.property)) + rest),
                Result::Err(e) => Result::Err(e),
            },
        }
    }
}

/// What a static strategy hashes: the rendered bytes of the named
/// properties in the given order, then the node type's bytes, then the
/// tenant id's sixteen bytes; or the first missing name.
pub open spec fn static_key_input(
    props: Seq<(String, NodeProperty)>,
    names: Seq<String>,
    node_type: Seq<char>,
    tenant_id: u128,
) -> Result<Seq<u8>, Seq<char>> {
    match hashed_parts_from(props, names, 0) {
        Result::Ok(bs) => Result::Ok(bs + encode_utf8(node_type) + u128_be_bytes(tenant_id)),
        Result::Err(e) => Result::Err(e),
    }
}

spec fn with_byte_prefix(done: Seq<u8>, rest: Result<Seq<u8>, Seq<char>>) -> Result<
    Seq<u8>,
    Seq<char>,
> {
    match rest {
        Result::Ok(r) => Result::Ok(done + r),
        Result::Err(e) => Result::Err(e),
    }
}

/// `key` is the static node key of a node with these properties, this node
/// type and this tenant: the hex form of the digest over the rendered bytes
/// of the named properties taken in sorted name order, the node type and
/// the tenant id.
pub open spec fn is_static_key_of(
    key: Seq<char>,
    props: Seq<(String, NodeProperty)>,
    names: Seq<String>,
    node_type: Seq<char>,
    tenant_id: u128,
) -> bool {
    exists|sn: Seq<String>|
        {
            &&& #[trigger] sn.to_multiset() == names.to_multiset()
            &&& (forall|p: int, q: int|
                0 <= p < q < sn.len() ==> lex_leq_chars(#[trigger] sn[p]@, #[trigger] sn[q]@))
            &&& static_key_input(props, sn, node_type, tenant_id) matches Result::Ok(input)
                && key == hex_of(sha256_of(input))
        }
}

/// Compute the static node key: the hex form of the digest over the node's
/// primary-key property values in sorted property-name order, its node type
/// and the tenant id. A statically identified node is thereby keyed without
/// any store lookup. Succeeds exactly when the node carries every
/// primary-key property; fails with a property the node lacks.
pub fn get_static_node_key(tenant_id: u128, node: &NodeDescription, strategy: &StaticStrategy)
    -> (r: Result<String, IdentityError>)
    ensures
        r matches Ok(s) ==> is_static_key_of(
            s@,
            node.properties@,
            strategy.primary_key_properties@,
            node.node_type@,
            tenant_id,
        ),
        r matches Err(e) ==> (e matches IdentityError::MissingProperty(n) && prop_lookup(
            node.properties@,
            n@,
        ) is None && strategy.primary_key_properties@.contains(n)),
        (r is Ok) <==> (forall|j: int|
            0 <= j < strategy.primary_key_properties@.len() ==> prop_lookup(
                node.properties@,
                #[trigger] strategy.primary_key_properties@[j]@,
            ) is Some),
{
    let props = &node.properties;
    let sorted = sort_property_names(&strategy.primary_key_properties);
    let ghost names_v = strategy.primary_key_properties@;
    let mut data: Vec<u8> = Vec::new();
    let ghost mut done: Seq<u8> = Seq::empty();
    let mut i: usize = 0;
    proof {
        let f0 = hashed_parts_from(props@, sorted@, 0);
        if f0 is Ok {
            assert(Seq::<u8>::empty() + f0->Ok_0 =~= f0->Ok_0);
        }
        assert(data@ =~= done);
    }
    while i < sorted.len()
        invariant
            props@ == node.properties@,
            names_v == strategy.primary_key_properties@,
            sorted@.to_multiset() == names_v.to_multiset(),
            forall|p: int, q: int|
                0 <= p < q < sorted@.len() ==> lex_leq_chars(
                    #[trigger] sorted@[p]@,
                    #[trigger] sorted@[q]@,
                ),
            i <= sorted@.len(),
            data@ == done,
            forall|j: int| 0 <= j < i ==> prop_lookup(props@, #[trigger] sorted@[j]@) is Some,
            hashed_parts_from(props@, sorted@, 0) == with_byte_prefix(
                done,
                hashed_parts_from(props@, sorted@, i as int),
            ),
        decreases sorted@.len() - i,
    {
        let found = find_prop(props, &sorted[i]);
        match found {
            Some(pi) => {
                let ps = property_string(&props[pi].1.property);
                let ghost pb = encode_utf8(property_chars(props@[pi as int].1.property));
                let ghost old_data = data@;
                data.extend_from_slice(ps.as_str().as_bytes());
                proof {
                    assert(data@ =~= old_data + pb);
                    let fi = hashed_parts_from(props@, sorted@, i as int);
                    let fi1 = hashed_parts_from(props@, sorted@, i as int + 1);
                    assert(prop_lookup(props@, sorted@[i as int]@) == Option::Some(
                        props@[pi as int].1,
                    ));
                    if fi1 is Ok {
                        assert(fi == Result::<Seq<u8>, Seq<char>>::Ok(pb + fi1->Ok_0));
                        assert(done + (pb + fi1->Ok_0) =~= (done + pb) + fi1->Ok_0);
                    } else {
                        assert(fi == fi1);
                    }
                    done = done + pb;
                }
            },
            None => {
                proof {
                    assert(prop_lookup(props@, sorted@[i as int]@) is None);
                    assert(sorted@.contains(sorted@[i as int])) by {
                        assert(sorted@[i as int] == sorted@[i as int]);
                    }
                    assert(sorted@.to_multiset().count(sorted@[i as int]) > 0);
                    assert(names_v.to_multiset().count(sorted@[i as int]) > 0);
                    assert(names_v.contains(sorted@[i as int]));
                    let w = choose|w: int|
                        0 <= w < names_v.len() && names_v[w] == sorted@[i as int];
                    assert(prop_lookup(props@, names_v[w]@) is None);
                }
                return Err(IdentityError::MissingProperty(sorted[i].clone()));
            },
        }
        i = i + 1;
    }
    proof {
        let f0 = hashed_parts_from(props@, sorted@, 0);
        assert(hashed_parts_from(props@, sorted@, sorted@.len() as int) == Result::<
            Seq<u8>,
            Seq<char>,
        >::Ok(Seq::empty()));
        assert(done + Seq::<u8>::empty() =~= done);
        assert(f0 == Result::<Seq<u8>, Seq<char>>::Ok(done));
        // every primary-key property is present: transfer from the sorted
        // permutation back to the strategy's own order
        assert forall|j: int| 0 <= j < names_v.len() implies prop_lookup(
            props@,
            #[trigger] names_v[j]@,
        ) is Some by {
            assert(names_v.contains(names_v[j])) by {
                assert(names_v[j] == names_v[j]);
            }
            assert(names_v.to_multiset().count(names_v[j]) > 0);
            assert(sorted@.to_multiset().count(names_v[j]) > 0);
            assert(sorted@.contains(names_v[j]));
            let k = choose|k: int| 0 <= k < sorted@.len() && sorted@[k] == names_v[j];
            assert(prop_lookup(props@, sorted@[k]@) is Some);
        }
    }
    let ghost parts_done = done;
    let ghost old_data = data@;
    data.extend_from_slice(node.node_type.as_str().as_bytes());
    proof {
        assert(data@ =~= old_data + encode_utf8(node.node_type@));
    }
    let tenant_bytes = tenant_id_bytes(tenant_id);
    let ghost old_data2 = data@;
    data.extend_from_slice(tenant_bytes.as_slice());
    proof {
        assert(data@ =~= old_data2 + u128_be_bytes(tenant_id));
        assert(data@ =~= parts_done + encode_utf8(node.node_type@) + u128_be_bytes(tenant_id));
        assert(static_key_input(props@, sorted@, node.node_type@, tenant_id) == Result::<
            Seq<u8>,
            Seq<char>,
        >::Ok(data@));
    }
    let digest = sha256(&data);
    let key = hex_encode(&digest);
    proof {
        let sn = sorted@;
        assert(static_key_input(node.properties@, sn, node.node_type@, tenant_id) matches
            Result::Ok(input) && key@ == hex_of(sha256_of(input)));
        assert(is_static_key_of(
            key@,
            node.properties@,
            strategy.primary_key_properties@,
            node.node_type@,
            tenant_id,
        ));
    }
    Ok(key)
}

/// Attribute a statically identified node: its node key becomes the static
/// node key computed from its properties; nothing else changes. Fails
/// exactly when a primary-key property is missing.
pub fn attribute_static_mapping(
    tenant_id: u128,
    node: NodeDescription,
    strategy: &StaticStrategy,
) -> (r: Result<NodeDescription, IdentityError>)
    ensures
        r matches Ok(n) ==> ({
            &&& n.properties == node.properties
            &&& n.node_type == node.node_type
            &&& n.id_strategy == node.id_strategy
            &&& is_static_key_of(
                n.node_key@,
                node.properties@,
                strategy.primary_key_properties@,
                node.node_type@,
                tenant_id,
            )
        }),
        r matches Err(e) ==> (e matches IdentityError::MissingProperty(n) && prop_lookup(
            node.properties@,
            n@,
        ) is None && strategy.primary_key_properties@.contains(n)),
        (r is Ok) <==> (forall|j: int|
            0 <= j < strategy.primary_key_properties@.len() ==> prop_lookup(
                node.properties@,
                #[trigger] strategy.primary_key_properties@[j]@,
            ) is Some),
{
    let key = get_static_node_key(tenant_id, &node, strategy);
    match key {
        Ok(static_node_key) => Ok(
            NodeDescription {
                properties: node.properties,
                node_key: static_node_key,
                node_type: node.node_type,
                id_strategy: node.id_strategy,
            },
        ),
        Err(e) => Err(e),
    }
}

/// Decide the unidentified session for a primary key under a session
/// strategy: a non-zero creation time opens a session at that time; failing
/// that, a non-zero last-seen time continues one; with neither the strategy
/// is unsupported and attribution fails.
pub fn session_for_attribution(primary_key: String, strategy: &SessionStrategy) -> (r: Result<
    UnidSession,
    IdentityError,
>)
    ensures
        strategy.create_time != 0 ==> (r matches Ok(u) && u.pseudo_key@ == primary_key@
            && u.timestamp == strategy.create_time && u.is_creation),
        (strategy.create_time == 0 && strategy.last_seen_time != 0) ==> (r matches Ok(u)
            && u.pseudo_key@ == primary_key@ && u.timestamp == strategy.last_seen_time
            && !u.is_creation),
        (strategy.create_time == 0 && strategy.last_seen_time == 0) ==> r matches Err(
            IdentityError::UnsupportedSessionTimes,
        ),
    {
    if strategy.create_time != 0 {
        Ok(
            UnidSession {
                pseudo_key: primary_key,
                timestamp: strategy.create_time,
                is_creation: true,
            },
        )
    } else if strategy.last_seen_time != 0 {
        Ok(
            UnidSession {
                pseudo_key: primary_key,
                timestamp: strategy.last_seen_time,
                is_creation: false,
            },
        )
    } else {
        Err(IdentityError::UnsupportedSessionTimes)
    }
}

/// How attribution of a dynamic node proceeds after the strategy decision.
pub enum AttributionStep {
    /// A static strategy: the node is fully attributed, no store lookup.
    Completed(NodeDescription),
    /// A session strategy: the host must resolve this session against the
    /// session store, then bind the resolved id with `apply_session_id`.
    NeedsSessionResolution(UnidSession, NodeDescription),
}

/// Attribute a dynamic node by its first identity strategy. A static
/// strategy completes at once; a session strategy yields the unidentified
/// session the store must resolve. (The caller must not hand in a session
/// strategy that requires asset-id resolution: that is unsupported.)
pub fn prepare_attribution(tenant_id: u128, node: NodeDescription) -> (r: Result<
    AttributionStep,
    IdentityError,
>)
    requires
        node.id_strategy@.len() > 0,
        node.id_strategy@[0] matches Strategy::Session(s) ==> !s.primary_key_requires_asset_id,
    ensures
        node.id_strategy@[0] matches Strategy::Static(st) ==> ({
            &&& r matches Ok(step) ==> (step matches AttributionStep::Completed(n) && ({
                &&& n.properties@ == node.properties@
                &&& n.node_type@ == node.node_type@
                &&& is_static_key_of(
                    n.node_key@,
                    node.properties@,
                    st.primary_key_properties@,
                    node.node_type@,
                    tenant_id,
                )
            }))
            &&& r matches Err(e) ==> (e matches IdentityError::MissingProperty(n) && prop_lookup(
                node.properties@,
                n@,
            ) is None)
        }),
        node.id_strategy@[0] matches Strategy::Session(ss) ==> ({
            let parts = session_parts(node.properties@, ss.primary_key_properties@);
            &&& parts matches Result::Ok(cs) ==> ({
                &&& ss.create_time != 0 ==> (r matches Ok(step) && step matches
                    AttributionStep::NeedsSessionResolution(u, n) && ({
                    &&& u.pseudo_key@ == urn_of(tenant_id) + cs + node.node_key@
                    &&& u.timestamp == ss.create_time
                    &&& u.is_creation
                    &&& n.properties@ == node.properties@
                    &&& n.node_key@ == node.node_key@
                    &&& n.node_type@ == node.node_type@
                }))
                &&& (ss.create_time == 0 && ss.last_seen_time != 0) ==> (r matches Ok(step)
                    && step matches AttributionStep::NeedsSessionResolution(u, n) && ({
                    &&& u.pseudo_key@ == urn_of(tenant_id) + cs + node.node_key@
                    &&& u.timestamp == ss.last_seen_time
                    &&& !u.is_creation
                    &&& n.properties@ == node.properties@
                    &&& n.node_key@ == node.node_key@
                    &&& n.node_type@ == node.node_type@
                }))
                &&& (ss.create_time == 0 && ss.last_seen_time == 0) ==> r matches Err(
                    IdentityError::UnsupportedSessionTimes,
                )
            })
            &&& parts matches Result::Err(name) ==> (r matches Err(
                IdentityError::MissingProperty(n),
            ) && n@ == name)
        }),
{
    let is_static = matches!(&node.id_strategy[0], Strategy::Static(_));
    if is_static {
        let strategy = match &node.id_strategy[0] {
            Strategy::Static(st) => StaticStrategy {
                primary_key_properties: st.primary_key_properties.clone(),
            },
            Strategy::Session(_) => StaticStrategy { primary_key_properties: Vec::new() },
        };
        proof {
            let st = node.id_strategy@[0]->Static_0;
            assert forall|j: int|
                0 <= j < st.primary_key_properties@.len() implies strategy
                .primary_key_properties@[j] == st.primary_key_properties@[j] by {}
            assert(strategy.primary_key_properties@ =~= st.primary_key_properties@);
        }
        match attribute_static_mapping(tenant_id, node, &strategy) {
            Ok(n) => Ok(AttributionStep::Completed(n)),
            Err(e) => Err(e),
        }
    } else {
        let session_strategy = match &node.id_strategy[0] {
            Strategy::Session(ss) => SessionStrategy {
                primary_key_properties: ss.primary_key_properties.clone(),
                primary_key_requires_asset_id: ss.primary_key_requires_asset_id,
                create_time: ss.create_time,
                last_seen_time: ss.last_seen_time,
            },
            Strategy::Static(_) => SessionStrategy {
                primary_key_properties: Vec::new(),
                primary_key_requires_asset_id: false,
                create_time: 0,
                last_seen_time: 0,
            },
        };
        proof {
            let ss = node.id_strategy@[0]->Session_0;
            assert forall|j: int|
                0 <= j < ss.primary_key_properties@.len() implies session_strategy
                .primary_key_properties@[j] == ss.primary_key_properties@[j] by {}
            assert(session_strategy.primary_key_properties@ =~= ss.primary_key_properties@);
        }
        let key = primary_session_key(tenant_id, &node, &session_strategy);
        match key {
            Ok(primary_key) => match session_for_attribution(primary_key, &session_strategy) {
                Ok(unid) => Ok(AttributionStep::NeedsSessionResolution(unid, node)),
                Err(e) => Err(e),
            },
            Err(e) => Err(e),
        }
    }
}

/// Bind the session id the store resolved to the node: the node key becomes
/// the session id; nothing else changes.
pub fn apply_session_id(node: NodeDescription, session_id: String) -> (r: NodeDescription)
    ensures
        r.node_key@ == session_id@,
        r.properties == node.properties,
        r.node_type == node.node_type,
        r.id_strategy == node.id_strategy,
{
    NodeDescription {
        properties: node.properties,
        node_key: session_id,
        node_type: node.node_type,
        id_strategy: node.id_strategy,
    }
}

} // verus!
