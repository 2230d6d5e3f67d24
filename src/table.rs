//! Decoding a blob into one formatting rule per opcode slot.
//!
//! Each slot starts with a tag byte. Its low seven bits name a shape, or
//! `REUSE`; its high bit asks for the prefix character before the mnemonic.
//! An original record stores its mnemonic id and fields right after its tag.
//! A reuse record stores only its tag: its shape, mnemonic id and fields are
//! read again where the most recent original record stored them, and only
//! the prefix is decided by the reuse record's own tag.

use vstd::prelude::*;

use crate::cursor::{byte_at, varint_at, Cursor};
use crate::error::DecodeError;
use crate::rule::{
    copy_strings, rules_view, spellings_of, FormatRule, LookupTables, RuleModel, TablesModel,
};
use crate::shape::{Field, Shape, REUSE};
use crate::spelling::{add_prefix, add_suffix};

verus! {

/// The character put before a mnemonic whose tag has its high bit set.
pub const PREFIX_CHAR: char = 'v';

/// Bit of a tag byte that asks for the prefix character.
pub const PREFIX_FLAG: u8 = 0x80;

/// The shape id that a tag byte names (its low seven bits).
pub open spec fn tag_shape(tag: u8) -> u8 {
    (tag % 128) as u8
}

/// Whether a tag byte asks for the prefix character (its high bit).
pub open spec fn tag_prefixed(tag: u8) -> bool {
    tag >= PREFIX_FLAG
}

/// The mnemonic `s`, with the prefix character before it when `prefixed`.
pub open spec fn prefixed_mnemonic(s: Seq<char>, prefixed: bool) -> Seq<char> {
    if prefixed {
        seq![PREFIX_CHAR] + s
    } else {
        s
    }
}

/// Reading field `f` at `pos` into the rule `acc`.
pub open spec fn read_field(b: Seq<u8>, t: TablesModel, f: Field, pos: int, acc: RuleModel) -> Result<
    (RuleModel, int),
    DecodeError,
> {
    match f {
        Field::Varint => match varint_at(b, pos) {
            Ok((v, e)) => Ok((acc.with_arg(v as u32), e)),
            Err(err) => Err(err),
        },
        Field::Byte => match byte_at(b, pos) {
            Ok((x, e)) => Ok((acc.with_arg(x as u32), e)),
            Err(err) => Err(err),
        },
        Field::Bool => match byte_at(b, pos) {
            Ok((x, e)) => if x > 1 {
                Err(DecodeError::InvalidBooleanField)
            } else {
                Ok((acc.with_arg(x as u32), e))
            },
            Err(err) => Err(err),
        },
        Field::StringRef => match varint_at(b, pos) {
            Ok((v, e)) => if v >= t.strings.len() {
                Err(DecodeError::MalformedData)
            } else {
                Ok((acc.with_spelling(t.strings[v as int]), e))
            },
            Err(err) => Err(err),
        },
        Field::PseudoOps => match byte_at(b, pos) {
            Ok((x, e)) => if x >= t.pseudo_ops.len() {
                Err(DecodeError::MalformedData)
            } else {
                Ok((acc.with_pseudo_ops(t.pseudo_ops[x as int]), e))
            },
            Err(err) => Err(err),
        },
        Field::SuffixByte => match byte_at(b, pos) {
            Ok((x, e)) => Ok((acc.with_spelling(acc.mnemonic.push(x as char)), e)),
            Err(err) => Err(err),
        },
        Field::Suffix(c) => Ok((acc.with_spelling(acc.mnemonic.push(c)), pos)),
    }
}

/// Reading fields `fs[j..]` from `pos` on into the rule `acc`.
pub open spec fn read_fields(
    b: Seq<u8>,
    t: TablesModel,
    fs: Seq<Field>,
    j: nat,
    pos: int,
    acc: RuleModel,
) -> Result<(RuleModel, int), DecodeError>
    decreases fs.len() - j,
{
    if j >= fs.len() {
        Ok((acc, pos))
    } else {
        match read_field(b, t, fs[j as int], pos, acc) {
            Ok((a, p)) => read_fields(b, t, fs, j + 1, p, a),
            Err(err) => Err(err),
        }
    }
}

/// Reading the payload of a record of shape id `shape_id` at `pos`: the
/// mnemonic id, then the shape's fields.
pub open spec fn read_body(b: Seq<u8>, t: TablesModel, shape_id: u8, prefixed: bool, pos: int) -> Result<
    (RuleModel, int),
    DecodeError,
> {
    match Shape::with_id(shape_id) {
        None => Err(DecodeError::MalformedData),
        Some(shape) => match varint_at(b, pos) {
            Err(err) => Err(err),
            Ok((id, p)) => if id >= t.strings.len() {
                Err(DecodeError::MalformedData)
            } else {
                let m = prefixed_mnemonic(t.strings[id as int], prefixed);
                read_fields(b, t, shape.recipe(), 0, p, RuleModel::bare(shape, m))
            },
        },
    }
}

/// Decoding the slot whose tag is at `pos`, where `last` is the position of
/// the most recent original record's tag: the rule, the position of the next
/// tag, and the new `last`.
pub open spec fn decode_slot(b: Seq<u8>, t: TablesModel, pos: int, last: Option<int>) -> Result<
    (RuleModel, int, Option<int>),
    DecodeError,
> {
    match byte_at(b, pos) {
        Err(err) => Err(err),
        Ok((tag, next)) => if tag_shape(tag) == REUSE {
            match last {
                None => Err(DecodeError::InvalidBackReference),
                Some(src) => match byte_at(b, src) {
                    Err(err) => Err(err),
                    Ok((src_tag, p)) => match read_body(
                        b,
                        t,
                        tag_shape(src_tag),
                        tag_prefixed(tag),
                        p,
                    ) {
                        Ok((r, _)) => Ok((r, next, last)),
                        Err(err) => Err(err),
                    },
                },
            }
        } else {
            match read_body(b, t, tag_shape(tag), tag_prefixed(tag), next) {
                Ok((r, e)) => Ok((r, e, Some(pos))),
                Err(err) => Err(err),
            }
        },
    }
}

/// Decoding `count` consecutive slots from `pos` on: their rules and the
/// position after them.
pub open spec fn decode_slots(b: Seq<u8>, t: TablesModel, count: nat, pos: int, last: Option<int>) -> Result<
    (Seq<RuleModel>, int),
    DecodeError,
>
    decreases count,
{
    if count == 0 {
        Ok((seq![], pos))
    } else {
        match decode_slot(b, t, pos, last) {
            Err(err) => Err(err),
            Ok((r, p, l)) => match decode_slots(b, t, (count - 1) as nat, p, l) {
                Ok((rs, e)) => Ok((seq![r] + rs, e)),
                Err(err) => Err(err),
            },
        }
    }
}

/// The table that a blob of `n` slots decodes to: every slot must decode, and
/// the blob must end right after the last one.
pub open spec fn decode_table(b: Seq<u8>, t: TablesModel, n: nat) -> Result<Seq<RuleModel>, DecodeError> {
    match decode_slots(b, t, n, 0, None) {
        Ok((rs, e)) => if e < b.len() {
            Err(DecodeError::TrailingData)
        } else {
            Ok(rs)
        },
        Err(err) => Err(err),
    }
}

/// `rs` put before the rules of `r`.
pub open spec fn prepend(rs: Seq<RuleModel>, r: Result<(Seq<RuleModel>, int), DecodeError>) -> Result<
    (Seq<RuleModel>, int),
    DecodeError,
> {
    match r {
        Ok((xs, e)) => Ok((rs + xs, e)),
        Err(err) => Err(err),
    }
}

/// A saved position, as an integer.
pub open spec fn opt_pos(o: Option<usize>) -> Option<int> {
    match o {
        Some(p) => Some(p as int),
        None => None,
    }
}

/// Reads field `f` from `cur` into `acc`.
fn take_field(cur: &mut Cursor, t: &LookupTables, f: Field, acc: &mut FormatRule) -> (r: Result<
    (),
    DecodeError,
>)
    ensures
        final(cur).data() == old(cur).data(),
        match read_field(old(cur).data(), t@, f, old(cur).pos(), old(acc)@) {
            Ok((a, e)) => r is Ok && final(acc)@ == a && final(cur).pos() == e,
            Err(err) => r == Err::<(), DecodeError>(err),
        },
{
    match f {
        Field::Varint => {
            let v = match cur.read_varint() {
                Ok(v) => v,
                Err(err) => return Err(err),
            };
            acc.args.push(v);
            Ok(())
        },
        Field::Byte => {
            let x = match cur.read_byte() {
                Ok(x) => x,
                Err(err) => return Err(err),
            };
            acc.args.push(x as u32);
            Ok(())
        },
        Field::Bool => {
            let x = match cur.read_byte() {
                Ok(x) => x,
                Err(err) => return Err(err),
            };
            if x > 1 {
                return Err(DecodeError::InvalidBooleanField);
            }
            acc.args.push(x as u32);
            Ok(())
        },
        Field::StringRef => {
            let v = match cur.read_varint() {
                Ok(v) => v,
                Err(err) => return Err(err),
            };
            if v as usize >= t.strings.len() {
                return Err(DecodeError::MalformedData);
            }
            let s = t.strings[v as usize].clone();
            let ghost old_sp = acc.spellings@;
            acc.spellings.push(s);
            assert(spellings_of(acc.spellings@) =~= spellings_of(old_sp).push(s@));
            Ok(())
        },
        Field::PseudoOps => {
            let x = match cur.read_byte() {
                Ok(x) => x,
                Err(err) => return Err(err),
            };
            if x as usize >= t.pseudo_ops.len() {
                return Err(DecodeError::MalformedData);
            }
            acc.pseudo_ops = copy_strings(&t.pseudo_ops[x as usize]);
            Ok(())
        },
        Field::SuffixByte => {
            let x = match cur.read_byte() {
                Ok(x) => x,
                Err(err) => return Err(err),
            };
            let s = add_suffix(acc.mnemonic.as_str(), x as char);
            let ghost old_sp = acc.spellings@;
            acc.spellings.push(s);
            assert(spellings_of(acc.spellings@) =~= spellings_of(old_sp).push(s@));
            Ok(())
        },
        Field::Suffix(c) => {
            let s = add_suffix(acc.mnemonic.as_str(), c);
            let ghost old_sp = acc.spellings@;
            acc.spellings.push(s);
            assert(spellings_of(acc.spellings@) =~= spellings_of(old_sp).push(s@));
            Ok(())
        },
    }
}

/// Reads the payload of a record of shape id `shape_id` from `cur`.
fn take_body(cur: &mut Cursor, t: &LookupTables, shape_id: u8, prefixed: bool) -> (r: Result<
    FormatRule,
    DecodeError,
>)
    ensures
        final(cur).data() == old(cur).data(),
        match read_body(old(cur).data(), t@, shape_id, prefixed, old(cur).pos()) {
            Ok((a, e)) => r is Ok && r->Ok_0@ == a && final(cur).pos() == e,
            Err(err) => r == Err::<FormatRule, DecodeError>(err),
        },
{
    let shape = match Shape::from_id(shape_id) {
        Some(s) => s,
        None => return Err(DecodeError::MalformedData),
    };
    let id = match cur.read_varint() {
        Ok(v) => v,
        Err(err) => return Err(err),
    };
    if id as usize >= t.strings.len() {
        return Err(DecodeError::MalformedData);
    }
    let base = &t.strings[id as usize];
    let mnemonic = if prefixed {
        add_prefix(base.as_str(), PREFIX_CHAR)
    } else {
        base.clone()
    };
    let mut acc = FormatRule {
        shape,
        mnemonic,
        spellings: Vec::new(),
        args: Vec::new(),
        pseudo_ops: Vec::new(),
    };
    assert(t@.strings[id as int] == t.strings@[id as int]@);
    assert(spellings_of(acc.spellings@) =~= seq![]);
    assert(spellings_of(acc.pseudo_ops@) =~= seq![]);
    assert(acc@ == RuleModel::bare(shape, prefixed_mnemonic(t@.strings[id as int], prefixed)));
    let fs = shape.fields();
    let mut j: usize = 0;
    while j < fs.len()
        invariant
            cur.data() == old(cur).data(),
            fs@ == shape.recipe(),
            j <= fs@.len(),
            read_body(old(cur).data(), t@, shape_id, prefixed, old(cur).pos()) == read_fields(
                cur.data(),
                t@,
                fs@,
                j as nat,
                cur.pos(),
                acc@,
            ),
        decreases fs@.len() - j,
    {
        match take_field(cur, t, fs[j], &mut acc) {
            Ok(()) => {},
            Err(err) => return Err(err),
        }
        j = j + 1;
    }
    Ok(acc)
}

/// Decodes the slot whose tag is next in `cur`, where `last` holds the
/// position of the most recent original record's tag, and updates `last`.
/// A reuse record's payload is read by a second cursor; `cur` moves past the
/// tag alone.
fn take_slot(blob: &[u8], cur: &mut Cursor, t: &LookupTables, last: &mut Option<usize>) -> (r: Result<
    FormatRule,
    DecodeError,
>)
    requires
        old(cur).data() == blob@,
        *old(last) matches Some(p) ==> p < blob@.len(),
    ensures
        final(cur).data() == blob@,
        *final(last) matches Some(p) ==> p < blob@.len(),
        match decode_slot(blob@, t@, old(cur).pos(), opt_pos(*old(last))) {
            Ok((a, next, l)) => r is Ok && r->Ok_0@ == a && final(cur).pos() == next && opt_pos(
                *final(last),
            ) == l,
            Err(err) => r == Err::<FormatRule, DecodeError>(err),
        },
{
    let tag_pos = cur.position();
    let tag = match cur.read_byte() {
        Ok(x) => x,
        Err(err) => return Err(err),
    };
    let prefixed = tag >= PREFIX_FLAG;
    let shape_id = tag % 128;
    if shape_id == REUSE {
        match *last {
            None => Err(DecodeError::InvalidBackReference),
            Some(src) => {
                let mut side = Cursor::at(blob, src);
                let src_tag = match side.read_byte() {
                    Ok(x) => x,
                    Err(err) => return Err(err),
                };
                take_body(&mut side, t, src_tag % 128, prefixed)
            },
        }
    } else {
        let r = take_body(cur, t, shape_id, prefixed);
        *last = Some(tag_pos);
        r
    }
}

proof fn lemma_prepend_one(rs: Seq<RuleModel>, a: RuleModel, x: Result<(Seq<RuleModel>, int), DecodeError>)
    ensures
        prepend(
            rs,
            match x {
                Ok((xs, e)) => Ok((seq![a] + xs, e)),
                Err(err) => Err(err),
            },
        ) == prepend(rs.push(a), x),
{
    match x {
        Ok((xs, e)) => {
            assert(rs + (seq![a] + xs) =~= rs.push(a) + xs);
        },
        Err(err) => {},
    }
}

/// The rules of all opcode slots, in slot order; built once, never changed.
pub struct FormatterTable {
    rules: Vec<FormatRule>,
}

impl View for FormatterTable {
    type V = Seq<RuleModel>;

    closed spec fn view(&self) -> Seq<RuleModel> {
        rules_view(self.rules@)
    }
}

impl FormatterTable {
    /// Decodes the `n` slots of `blob` against the lookup tables `t`. Fails,
    /// with no table, on the first slot that cannot be decoded, or when bytes
    /// are left after the last slot.
    pub fn build(blob: &[u8], n: usize, t: &LookupTables) -> (r: Result<FormatterTable, DecodeError>)
        ensures
            match decode_table(blob@, t@, n as nat) {
                Ok(rs) => r is Ok && r->Ok_0@ == rs,
                Err(err) => r == Err::<FormatterTable, DecodeError>(err),
            },
    {
        let mut cur = Cursor::new(blob);
        let mut last: Option<usize> = None;
        let mut rules: Vec<FormatRule> = Vec::new();
        let mut i: usize = 0;
        assert(rules_view(rules@) =~= seq![]);
        while i < n
            invariant
                cur.data() == blob@,
                i <= n,
                last matches Some(p) ==> p < blob@.len(),
                decode_slots(blob@, t@, n as nat, 0, None) == prepend(
                    rules_view(rules@),
                    decode_slots(blob@, t@, (n - i) as nat, cur.pos(), opt_pos(last)),
                ),
            decreases n - i,
        {
            let ghost before = rules_view(rules@);
            let ghost pos = cur.pos();
            let ghost l = opt_pos(last);
            let rule = match take_slot(blob, &mut cur, t, &mut last) {
                Ok(rule) => rule,
                Err(err) => return Err(err),
            };
            proof {
                let rest = decode_slots(blob@, t@, (n - i - 1) as nat, cur.pos(), opt_pos(last));
                lemma_prepend_one(before, rule@, rest);
            }
            rules.push(rule);
            assert(rules_view(rules@) =~= before.push(rule@));
            i = i + 1;
        }
        assert(rules_view(rules@) + seq![] =~= rules_view(rules@));
        if cur.remaining() {
            return Err(DecodeError::TrailingData);
        }
        Ok(FormatterTable { rules })
    }

    /// The number of slots.
    pub fn len(&self) -> (r: usize)
        ensures
            r == self@.len(),
    {
        self.rules.len()
    }

    /// The rule of slot `code`.
    pub fn get(&self, code: usize) -> (r: &FormatRule)
        requires
            code < self@.len(),
        ensures
            r@ == self@[code as int],
    {
        &self.rules[code]
    }
}

} // verus!
