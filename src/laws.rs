//! Properties that hold of every blob and every pair of lookup tables.

use vstd::prelude::*;

use crate::cursor::{group_scale, varint_at, varint_encoding, varint_from, LAST_GROUP};
use crate::error::DecodeError;
use crate::rule::{RuleModel, TablesModel};
use crate::shape::{Field, Shape, REUSE};
use crate::table::{
    decode_slot, decode_slots, decode_table, prefixed_mnemonic, read_body, read_field, read_fields,
    tag_prefixed, tag_shape,
};

verus! {

/// Decoding depends on nothing but the blob, the slot count and the contents
/// of the lookup tables: equal inputs give equal tables, or equal errors.
pub proof fn law_deterministic(b1: Seq<u8>, b2: Seq<u8>, t1: TablesModel, t2: TablesModel, n: nat)
    requires
        b1 == b2,
        t1 == t2,
    ensures
        decode_table(b1, t1, n) == decode_table(b2, t2, n),
{
}

proof fn lemma_slots_len(b: Seq<u8>, t: TablesModel, count: nat, pos: int, last: Option<int>)
    ensures
        decode_slots(b, t, count, pos, last) matches Ok((rs, _)) ==> rs.len() == count,
    decreases count,
{
    if count > 0 {
        if let Ok((_, p, l)) = decode_slot(b, t, pos, last) {
            lemma_slots_len(b, t, (count - 1) as nat, p, l);
        }
    }
}

/// A decoded table has exactly one rule per slot.
pub proof fn law_one_rule_per_slot(b: Seq<u8>, t: TablesModel, n: nat)
    ensures
        decode_table(b, t, n) matches Ok(rs) ==> rs.len() == n,
{
    lemma_slots_len(b, t, n, 0, None);
}

proof fn lemma_varint_extend(b: Seq<u8>, x: Seq<u8>, pos: int, k: nat)
    requires
        varint_from(b, pos, k) is Ok,
    ensures
        varint_from(b + x, pos, k) == varint_from(b, pos, k),
        pos < varint_from(b, pos, k)->Ok_0.1 <= b.len(),
    decreases LAST_GROUP - k,
{
    assert((b + x)[pos] == b[pos]);
    if k < LAST_GROUP && b[pos] >= 128 {
        lemma_varint_extend(b, x, pos + 1, k + 1);
    }
}

proof fn lemma_field_extend(b: Seq<u8>, x: Seq<u8>, t: TablesModel, f: Field, pos: int, acc: RuleModel)
    requires
        0 <= pos <= b.len(),
        read_field(b, t, f, pos, acc) is Ok,
    ensures
        read_field(b + x, t, f, pos, acc) == read_field(b, t, f, pos, acc),
        pos <= read_field(b, t, f, pos, acc)->Ok_0.1 <= b.len(),
{
    match f {
        Field::Varint | Field::StringRef => {
            lemma_varint_extend(b, x, pos, 0);
        },
        Field::Suffix(_) => {},
        _ => {
            assert((b + x)[pos] == b[pos]);
        },
    }
}

proof fn lemma_fields_extend(
    b: Seq<u8>,
    x: Seq<u8>,
    t: TablesModel,
    fs: Seq<Field>,
    j: nat,
    pos: int,
    acc: RuleModel,
)
    requires
        0 <= pos <= b.len(),
        read_fields(b, t, fs, j, pos, acc) is Ok,
    ensures
        read_fields(b + x, t, fs, j, pos, acc) == read_fields(b, t, fs, j, pos, acc),
        pos <= read_fields(b, t, fs, j, pos, acc)->Ok_0.1 <= b.len(),
    decreases fs.len() - j,
{
    if j < fs.len() {
        lemma_field_extend(b, x, t, fs[j as int], pos, acc);
        let (a, p) = read_field(b, t, fs[j as int], pos, acc)->Ok_0;
        lemma_fields_extend(b, x, t, fs, j + 1, p, a);
    }
}

proof fn lemma_body_extend(b: Seq<u8>, x: Seq<u8>, t: TablesModel, shape_id: u8, prefixed: bool, pos: int)
    requires
        0 <= pos <= b.len(),
        read_body(b, t, shape_id, prefixed, pos) is Ok,
    ensures
        read_body(b + x, t, shape_id, prefixed, pos) == read_body(b, t, shape_id, prefixed, pos),
        pos <= read_body(b, t, shape_id, prefixed, pos)->Ok_0.1 <= b.len(),
{
    let shape = Shape::with_id(shape_id)->Some_0;
    lemma_varint_extend(b, x, pos, 0);
    let (id, p) = varint_at(b, pos)->Ok_0;
    let m = prefixed_mnemonic(t.strings[id as int], prefixed);
    lemma_fields_extend(b, x, t, shape.recipe(), 0, p, RuleModel::bare(shape, m));
}

proof fn lemma_slot_extend(b: Seq<u8>, x: Seq<u8>, t: TablesModel, pos: int, last: Option<int>)
    requires
        0 <= pos <= b.len(),
        decode_slot(b, t, pos, last) is Ok,
    ensures
        decode_slot(b + x, t, pos, last) == decode_slot(b, t, pos, last),
        pos <= decode_slot(b, t, pos, last)->Ok_0.1 <= b.len(),
{
    assert((b + x)[pos] == b[pos]);
    let tag = b[pos];
    if tag_shape(tag) == REUSE {
        let src = last->Some_0;
        assert((b + x)[src] == b[src]);
        lemma_body_extend(b, x, t, tag_shape(b[src]), tag_prefixed(tag), src + 1);
    } else {
        lemma_body_extend(b, x, t, tag_shape(tag), tag_prefixed(tag), pos + 1);
    }
}

proof fn lemma_slots_extend(b: Seq<u8>, x: Seq<u8>, t: TablesModel, count: nat, pos: int, last: Option<int>)
    requires
        0 <= pos <= b.len(),
        decode_slots(b, t, count, pos, last) is Ok,
    ensures
        decode_slots(b + x, t, count, pos, last) == decode_slots(b, t, count, pos, last),
        pos <= decode_slots(b, t, count, pos, last)->Ok_0.1 <= b.len(),
    decreases count,
{
    if count > 0 {
        lemma_slot_extend(b, x, t, pos, last);
        let (_, p, l) = decode_slot(b, t, pos, last)->Ok_0;
        lemma_slots_extend(b, x, t, (count - 1) as nat, p, l);
    }
}

/// A blob that decodes is read to its last byte: the same blob with one more
/// byte after it fails with `TrailingData`.
pub proof fn law_trailing_byte_rejected(b: Seq<u8>, t: TablesModel, n: nat, extra: u8)
    requires
        decode_table(b, t, n) is Ok,
    ensures
        decode_table(b.push(extra), t, n) == Err::<Seq<RuleModel>, DecodeError>(DecodeError::TrailingData),
{
    lemma_slots_extend(b, seq![extra], t, n, 0, None);
    assert(b.push(extra) =~= b + seq![extra]);
}

/// Whether a field list composes a spelling from the mnemonic.
pub open spec fn composes_from_mnemonic(fs: Seq<Field>) -> bool {
    exists|k: int| 0 <= k < fs.len() && (fs[k] is Suffix || fs[k] is SuffixByte)
}

/// The mnemonic `m` without the prefix character, where `prefixed` says it has one.
pub open spec fn unprefixed(m: Seq<char>, prefixed: bool) -> Seq<char> {
    if prefixed {
        m.subrange(1, m.len() as int)
    } else {
        m
    }
}

proof fn lemma_fields_other_mnemonic(
    b: Seq<u8>,
    t: TablesModel,
    fs: Seq<Field>,
    j: nat,
    pos: int,
    a1: RuleModel,
    a2: RuleModel,
)
    requires
        a1.shape == a2.shape,
        a1.args == a2.args,
        a1.pseudo_ops == a2.pseudo_ops,
    ensures
        ({
            let r1 = read_fields(b, t, fs, j, pos, a1);
            let r2 = read_fields(b, t, fs, j, pos, a2);
            &&& (r1 is Ok) == (r2 is Ok)
            &&& !(r1 is Ok) ==> r1 == r2
            &&& r1 is Ok ==> {
                let (x1, e1) = r1->Ok_0;
                let (x2, e2) = r2->Ok_0;
                &&& e1 == e2
                &&& x1.shape == a1.shape
                &&& x2.shape == a2.shape
                &&& x1.args == x2.args
                &&& x1.pseudo_ops == x2.pseudo_ops
                &&& x1.mnemonic == a1.mnemonic
                &&& x2.mnemonic == a2.mnemonic
                &&& (a1.spellings == a2.spellings && (forall|k: int|
                    j <= k < fs.len() ==> !(fs[k] is Suffix) && !(fs[k] is SuffixByte)))
                    ==> x1.spellings == x2.spellings
            }
        }),
    decreases fs.len() - j,
{
    if j < fs.len() {
        let f = fs[j as int];
        let s1 = read_field(b, t, f, pos, a1);
        let s2 = read_field(b, t, f, pos, a2);
        if s1 is Ok {
            let (n1, next1) = s1->Ok_0;
            let (n2, next2) = s2->Ok_0;
            lemma_fields_other_mnemonic(b, t, fs, j + 1, next1, n1, n2);
        }
    }
}

/// A reuse record replays the most recent original record. Decoding an
/// original record at `pos_a` leaves `pos_a` as the back reference; a reuse
/// tag at `pos_b` then decodes, costs one byte, and gives the same shape,
/// parameters and pseudo-op aliases, and the same mnemonic up to the prefix
/// character, which the reuse tag alone decides. The extra spellings agree
/// too where the shape does not compose them from the mnemonic, and the whole
/// rule agrees where both tags ask for the prefix alike.
pub proof fn law_reuse_replays_original(b: Seq<u8>, t: TablesModel, pos_a: int, last: Option<int>, pos_b: int)
    requires
        0 <= pos_a < b.len(),
        tag_shape(b[pos_a]) != REUSE,
        decode_slot(b, t, pos_a, last) is Ok,
        0 <= pos_b < b.len(),
        tag_shape(b[pos_b]) == REUSE,
    ensures
        decode_slot(b, t, pos_a, last)->Ok_0.2 == Some(pos_a),
        decode_slot(b, t, pos_b, Some(pos_a)) is Ok,
        decode_slot(b, t, pos_b, Some(pos_a))->Ok_0.1 == pos_b + 1,
        decode_slot(b, t, pos_b, Some(pos_a))->Ok_0.2 == Some(pos_a),
        ({
            let a = decode_slot(b, t, pos_a, last)->Ok_0.0;
            let r = decode_slot(b, t, pos_b, Some(pos_a))->Ok_0.0;
            &&& r.shape == a.shape
            &&& r.args == a.args
            &&& r.pseudo_ops == a.pseudo_ops
            &&& r.mnemonic == prefixed_mnemonic(
                unprefixed(a.mnemonic, tag_prefixed(b[pos_a])),
                tag_prefixed(b[pos_b]),
            )
            &&& !composes_from_mnemonic(a.shape.recipe()) ==> r.spellings == a.spellings
            &&& tag_prefixed(b[pos_a]) == tag_prefixed(b[pos_b]) ==> r == a
        }),
{
    let sid = tag_shape(b[pos_a]);
    let shape = Shape::with_id(sid)->Some_0;
    let (id, p) = varint_at(b, pos_a + 1)->Ok_0;
    let base = t.strings[id as int];
    let pa = tag_prefixed(b[pos_a]);
    let pb = tag_prefixed(b[pos_b]);
    let m1 = prefixed_mnemonic(base, pa);
    let m2 = prefixed_mnemonic(base, pb);
    lemma_fields_other_mnemonic(b, t, shape.recipe(), 0, p, RuleModel::bare(shape, m1), RuleModel::bare(shape, m2));
    let ra = read_body(b, t, sid, pa, pos_a + 1);
    let rb = read_body(b, t, sid, pb, pos_a + 1);
    assert(ra == read_fields(b, t, shape.recipe(), 0, p, RuleModel::bare(shape, m1)));
    assert(rb == read_fields(b, t, shape.recipe(), 0, p, RuleModel::bare(shape, m2)));
    assert(decode_slot(b, t, pos_a, last)->Ok_0.0 == ra->Ok_0.0);
    assert(decode_slot(b, t, pos_b, Some(pos_a))->Ok_0.0 == rb->Ok_0.0);
    assert(unprefixed(m1, pa) =~= base);
    if pa == pb {
        assert(ra == rb);
    }
    if !composes_from_mnemonic(shape.recipe()) {
        assert(forall|k: int|
            0 <= k < shape.recipe().len() ==> !(shape.recipe()[k] is Suffix) && !(
            shape.recipe()[k] is SuffixByte));
    }
}

/// A boolean field takes the bytes 0 and 1, each as its own parameter, and
/// fails with `InvalidBooleanField` on every other byte.
pub proof fn law_boolean_field(b: Seq<u8>, t: TablesModel, pos: int, acc: RuleModel)
    requires
        0 <= pos < b.len(),
    ensures
        b[pos] > 1 ==> read_field(b, t, Field::Bool, pos, acc) == Err::<(RuleModel, int), DecodeError>(
            DecodeError::InvalidBooleanField,
        ),
        b[pos] <= 1 ==> read_field(b, t, Field::Bool, pos, acc) == Ok::<(RuleModel, int), DecodeError>(
            (acc.with_arg(b[pos] as u32), pos + 1),
        ),
{
}

proof fn lemma_varint_decodes_encoding(s: Seq<u8>, pos: int, x: nat, k: nat)
    requires
        0 <= pos,
        pos + varint_encoding(x).len() <= s.len(),
        forall|i: int| 0 <= i < varint_encoding(x).len() ==> s[pos + i] == varint_encoding(x)[i],
        k <= LAST_GROUP,
        x * group_scale(k) < 0x1_0000_0000,
    ensures
        varint_from(s, pos, k) == Ok::<(nat, int), DecodeError>(
            (x * group_scale(k), pos + varint_encoding(x).len()),
        ),
    decreases x,
{
    let e = varint_encoding(x);
    assert(s[pos + 0] == e[0]);
    if k == LAST_GROUP {
        assert(group_scale(4) == 268435456) by {
            reveal_with_fuel(group_scale, 5);
        }
        assert(x < 16) by (nonlinear_arith)
            requires
                x * 268435456 < 0x1_0000_0000,
        ;
    }
    if x >= 128 {
        if k == LAST_GROUP {
            assert(false);
        }
        let q = x / 128;
        let g = group_scale(k);
        assert(group_scale(k + 1) == 128 * g);
        assert(x == 128 * q + x % 128);
        assert(q * (128 * g) <= x * g) by (nonlinear_arith)
            requires
                x == 128 * q + x % 128,
                x % 128 >= 0,
                g >= 0,
        ;
        assert(e == seq![(x % 128 + 128) as u8] + varint_encoding(q));
        assert forall|i: int| 0 <= i < varint_encoding(q).len() implies s[pos + 1 + i] == varint_encoding(
            q,
        )[i] by {
            assert(s[pos + (1 + i)] == e[1 + i]);
        }
        lemma_varint_decodes_encoding(s, pos + 1, q, k + 1);
        assert((x % 128) * g + q * (128 * g) == x * g) by (nonlinear_arith)
            requires
                x == 128 * q + x % 128,
        ;
    }
}

/// Decoding the encoding of any 32-bit value gives the value back and reads
/// exactly the encoding, whatever follows it.
pub proof fn law_varint_round_trip(x: u32, rest: Seq<u8>)
    ensures
        varint_at(varint_encoding(x as nat) + rest, 0) == Ok::<(nat, int), DecodeError>(
            (x as nat, varint_encoding(x as nat).len() as int),
        ),
{
    let s = varint_encoding(x as nat) + rest;
    assert(group_scale(0) == 1);
    lemma_varint_decodes_encoding(s, 0, x as nat, 0);
}

} // verus!
