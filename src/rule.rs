//! The decoded form of one record, and the lookup tables records refer to.

use vstd::prelude::*;

use crate::shape::Shape;

verus! {

/// The spellings held by a list of strings.
pub open spec fn spellings_of(v: Seq<String>) -> Seq<Seq<char>> {
    v.map_values(|s: String| s@)
}

/// The models of a list of rules.
pub open spec fn rules_view(v: Seq<FormatRule>) -> Seq<RuleModel> {
    v.map_values(|r: FormatRule| r@)
}

/// What a formatting rule is built from: its shape, mnemonic, the extra
/// spellings it composes, its numeric parameters in the order stored, and its
/// pseudo-op aliases.
pub ghost struct RuleModel {
    pub shape: Shape,
    pub mnemonic: Seq<char>,
    pub spellings: Seq<Seq<char>>,
    pub args: Seq<u32>,
    pub pseudo_ops: Seq<Seq<char>>,
}

impl RuleModel {
    /// A rule of `shape` with mnemonic `mnemonic` and nothing else yet.
    pub open spec fn bare(shape: Shape, mnemonic: Seq<char>) -> RuleModel {
        RuleModel { shape, mnemonic, spellings: seq![], args: seq![], pseudo_ops: seq![] }
    }

    /// This rule with `a` appended to its parameters.
    pub open spec fn with_arg(self, a: u32) -> RuleModel {
        RuleModel { args: self.args.push(a), ..self }
    }

    /// This rule with `s` appended to its spellings.
    pub open spec fn with_spelling(self, s: Seq<char>) -> RuleModel {
        RuleModel { spellings: self.spellings.push(s), ..self }
    }

    /// This rule with `p` as its pseudo-op aliases.
    pub open spec fn with_pseudo_ops(self, p: Seq<Seq<char>>) -> RuleModel {
        RuleModel { pseudo_ops: p, ..self }
    }
}

/// The arguments with which one record's rule constructor is called. A rule
/// of shape `DeclareData` also receives its own slot index, which is its
/// index in the table.
#[derive(Debug, PartialEq, Eq)]
pub struct FormatRule {
    pub shape: Shape,
    pub mnemonic: String,
    pub spellings: Vec<String>,
    pub args: Vec<u32>,
    pub pseudo_ops: Vec<String>,
}

impl View for FormatRule {
    type V = RuleModel;

    open spec fn view(&self) -> RuleModel {
        RuleModel {
            shape: self.shape,
            mnemonic: self.mnemonic@,
            spellings: spellings_of(self.spellings@),
            args: self.args@,
            pseudo_ops: spellings_of(self.pseudo_ops@),
        }
    }
}

/// The contents of the lookup tables.
pub ghost struct TablesModel {
    pub strings: Seq<Seq<char>>,
    pub pseudo_ops: Seq<Seq<Seq<char>>>,
}

/// The string table, indexed by string id, and the pseudo-op table, indexed
/// by category id.
pub struct LookupTables {
    pub strings: Vec<String>,
    pub pseudo_ops: Vec<Vec<String>>,
}

impl View for LookupTables {
    type V = TablesModel;

    open spec fn view(&self) -> TablesModel {
        TablesModel {
            strings: spellings_of(self.strings@),
            pseudo_ops: self.pseudo_ops@.map_values(|v: Vec<String>| spellings_of(v@)),
        }
    }
}

/// A copy of a list of strings.
pub fn copy_strings(v: &Vec<String>) -> (r: Vec<String>)
    ensures
        r@ == v@,
{
    let mut r: Vec<String> = Vec::new();
    let mut i: usize = 0;
    while i < v.len()
        invariant
            i <= v@.len(),
            r@ == v@.subrange(0, i as int),
        decreases v@.len() - i,
    {
        r.push(v[i].clone());
        i = i + 1;
        assert(r@ =~= v@.subrange(0, i as int));
    }
    assert(v@.subrange(0, v@.len() as int) =~= v@);
    r
}

} // verus!
