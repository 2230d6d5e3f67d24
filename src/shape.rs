//! The closed catalog of record shapes: which fields a record carries, in
//! which order, and which rule constructor consumes them.

use vstd::prelude::*;

verus! {

/// Low seven bits of a tag byte that mark a reuse record.
pub const REUSE: u8 = 0x7F;

/// The constructor that a record's fields are handed to.
#[allow(non_camel_case_types)]
#[derive(Debug, Clone, Copy, PartialEq, Eq, Structural)]
pub enum Shape {
    Normal_1,
    Normal_2,
    AamAad,
    asz,
    AX,
    AY,
    bcst,
    bnd_1,
    bnd_2,
    DeclareData,
    DX,
    er_2,
    er_3,
    far,
    far_mem,
    invlpga,
    maskmovq,
    mmxmem_1,
    mmxmem_2,
    mmxmem_3,
    movabs,
    ms_pops,
    nop,
    OpSize,
    OpSize2_bnd,
    OpSize3,
    os_2,
    os_3,
    os_call_2,
    os_call_3,
    os_jcc_2,
    os_jcc_3,
    os_loop,
    os_mem,
    os_mem_reg16,
    os_mem2,
    pblendvb_1,
    pblendvb_2,
    pclmulqdq,
    pops_2,
    pops_3,
    Reg16,
    reverse2,
    sae,
    sae_pops,
    SEX1,
    SEX1a,
    SEX2_2,
    SEX2_3,
    SEX2_4,
    SEX3,
    STIG1_1,
    STIG1_2,
    STIG2_2a,
    STIG2_2b,
    xbegin,
    XLAT,
    XY,
    YA,
    YD,
    YX,
}

/// One field of a record, as the blob stores it.
#[derive(Debug, Clone, Copy, PartialEq, Eq, Structural)]
pub enum Field {
    /// A varint parameter.
    Varint,
    /// A raw byte parameter.
    Byte,
    /// A byte parameter that must be 0 or 1.
    Bool,
    /// A varint id into the string table, giving one more spelling.
    StringRef,
    /// A byte id into the pseudo-op table, giving the alias list.
    PseudoOps,
    /// A byte holding a character, giving the mnemonic with it appended.
    SuffixByte,
    /// Reads nothing; gives the mnemonic with the character appended.
    Suffix(char),
}
impl Shape {
    /// The shape that the blob names by `id`, if the catalog has one.
    pub open spec fn with_id(id: u8) -> Option<Shape> {
        match id {
            0 => Some(Shape::Normal_1),
            1 => Some(Shape::Normal_2),
            2 => Some(Shape::AamAad),
            3 => Some(Shape::asz),
            4 => Some(Shape::AX),
            5 => Some(Shape::AY),
            6 => Some(Shape::bcst),
            7 => Some(Shape::bnd_1),
            8 => Some(Shape::bnd_2),
            9 => Some(Shape::DeclareData),
            10 => Some(Shape::DX),
            11 => Some(Shape::er_2),
            12 => Some(Shape::er_3),
            13 => Some(Shape::far),
            14 => Some(Shape::far_mem),
            15 => Some(Shape::invlpga),
            16 => Some(Shape::maskmovq),
            17 => Some(Shape::mmxmem_1),
            18 => Some(Shape::mmxmem_2),
            19 => Some(Shape::mmxmem_3),
            20 => Some(Shape::movabs),
            21 => Some(Shape::ms_pops),
            22 => Some(Shape::nop),
            23 => Some(Shape::OpSize),
            24 => Some(Shape::OpSize2_bnd),
            25 => Some(Shape::OpSize3),
            26 => Some(Shape::os_2),
            27 => Some(Shape::os_3),
            28 => Some(Shape::os_call_2),
            29 => Some(Shape::os_call_3),
            30 => Some(Shape::os_jcc_2),
            31 => Some(Shape::os_jcc_3),
            32 => Some(Shape::os_loop),
            33 => Some(Shape::os_mem),
            34 => Some(Shape::os_mem_reg16),
            35 => Some(Shape::os_mem2),
            36 => Some(Shape::pblendvb_1),
            37 => Some(Shape::pblendvb_2),
            38 => Some(Shape::pclmulqdq),
            39 => Some(Shape::pops_2),
            40 => Some(Shape::pops_3),
            41 => Some(Shape::Reg16),
            42 => Some(Shape::reverse2),
            43 => Some(Shape::sae),
            44 => Some(Shape::sae_pops),
            45 => Some(Shape::SEX1),
            46 => Some(Shape::SEX1a),
            47 => Some(Shape::SEX2_2),
            48 => Some(Shape::SEX2_3),
            49 => Some(Shape::SEX2_4),
            50 => Some(Shape::SEX3),
            51 => Some(Shape::STIG1_1),
            52 => Some(Shape::STIG1_2),
            53 => Some(Shape::STIG2_2a),
            54 => Some(Shape::STIG2_2b),
            55 => Some(Shape::xbegin),
            56 => Some(Shape::XLAT),
            57 => Some(Shape::XY),
            58 => Some(Shape::YA),
            59 => Some(Shape::YD),
            60 => Some(Shape::YX),
            _ => None,
        }
    }

    /// The shape with id `id`, if the catalog has one.
    pub fn from_id(id: u8) -> (r: Option<Shape>)
        ensures
            r == Shape::with_id(id),
    {
        match id {
            0 => Some(Shape::Normal_1),
            1 => Some(Shape::Normal_2),
            2 => Some(Shape::AamAad),
            3 => Some(Shape::asz),
            4 => Some(Shape::AX),
            5 => Some(Shape::AY),
            6 => Some(Shape::bcst),
            7 => Some(Shape::bnd_1),
            8 => Some(Shape::bnd_2),
            9 => Some(Shape::DeclareData),
            10 => Some(Shape::DX),
            11 => Some(Shape::er_2),
            12 => Some(Shape::er_3),
            13 => Some(Shape::far),
            14 => Some(Shape::far_mem),
            15 => Some(Shape::invlpga),
            16 => Some(Shape::maskmovq),
            17 => Some(Shape::mmxmem_1),
            18 => Some(Shape::mmxmem_2),
            19 => Some(Shape::mmxmem_3),
            20 => Some(Shape::movabs),
            21 => Some(Shape::ms_pops),
            22 => Some(Shape::nop),
            23 => Some(Shape::OpSize),
            24 => Some(Shape::OpSize2_bnd),
            25 => Some(Shape::OpSize3),
            26 => Some(Shape::os_2),
            27 => Some(Shape::os_3),
            28 => Some(Shape::os_call_2),
            29 => Some(Shape::os_call_3),
            30 => Some(Shape::os_jcc_2),
            31 => Some(Shape::os_jcc_3),
            32 => Some(Shape::os_loop),
            33 => Some(Shape::os_mem),
            34 => Some(Shape::os_mem_reg16),
            35 => Some(Shape::os_mem2),
            36 => Some(Shape::pblendvb_1),
            37 => Some(Shape::pblendvb_2),
            38 => Some(Shape::pclmulqdq),
            39 => Some(Shape::pops_2),
            40 => Some(Shape::pops_3),
            41 => Some(Shape::Reg16),
            42 => Some(Shape::reverse2),
            43 => Some(Shape::sae),
            44 => Some(Shape::sae_pops),
            45 => Some(Shape::SEX1),
            46 => Some(Shape::SEX1a),
            47 => Some(Shape::SEX2_2),
            48 => Some(Shape::SEX2_3),
            49 => Some(Shape::SEX2_4),
            50 => Some(Shape::SEX3),
            51 => Some(Shape::STIG1_1),
            52 => Some(Shape::STIG1_2),
            53 => Some(Shape::STIG2_2a),
            54 => Some(Shape::STIG2_2b),
            55 => Some(Shape::xbegin),
            56 => Some(Shape::XLAT),
            57 => Some(Shape::XY),
            58 => Some(Shape::YA),
            59 => Some(Shape::YD),
            60 => Some(Shape::YX),
            _ => None,
        }
    }

    /// The fields that a record of this shape carries after its mnemonic, in
    /// the order in which they are stored.
    pub open spec fn recipe(self) -> Seq<Field> {
        match self {
            Shape::Normal_1
            | Shape::AamAad
            | Shape::AX
            | Shape::AY
            | Shape::bnd_1
            | Shape::DeclareData
            | Shape::DX
            | Shape::maskmovq
            | Shape::mmxmem_1
            | Shape::pblendvb_1
            | Shape::Reg16
            | Shape::reverse2
            | Shape::STIG1_1
            | Shape::XLAT
            | Shape::XY
            | Shape::YA
            | Shape::YD
            | Shape::YX => seq![],
            Shape::Normal_2
            | Shape::asz
            | Shape::bnd_2
            | Shape::er_2
            | Shape::far
            | Shape::far_mem
            | Shape::invlpga
            | Shape::mmxmem_2
            | Shape::movabs
            | Shape::os_2
            | Shape::os_call_2
            | Shape::os_jcc_2
            | Shape::os_mem
            | Shape::os_mem_reg16
            | Shape::sae
            | Shape::STIG2_2b
            | Shape::xbegin => seq![Field::Varint],
            Shape::bcst
            | Shape::er_3
            | Shape::os_3
            | Shape::os_jcc_3
            | Shape::os_mem2 => seq![Field::Varint, Field::Varint],
            Shape::mmxmem_3
            | Shape::nop
            | Shape::os_loop
            | Shape::SEX1
            | Shape::SEX1a => seq![Field::Varint, Field::Byte],
            Shape::os_call_3 => seq![Field::Varint, Field::Bool],
            Shape::ms_pops => seq![Field::PseudoOps, Field::Varint, Field::Byte],
            Shape::OpSize => seq![Field::Byte, Field::Suffix('w'), Field::Suffix('d'), Field::Suffix('q')],
            Shape::OpSize2_bnd => seq![Field::StringRef, Field::StringRef, Field::StringRef],
            Shape::OpSize3 => seq![Field::SuffixByte, Field::Varint],
            Shape::pblendvb_2
            | Shape::SEX2_2
            | Shape::SEX3 => seq![Field::Byte],
            Shape::pclmulqdq
            | Shape::pops_2 => seq![Field::PseudoOps],
            Shape::pops_3 => seq![Field::PseudoOps, Field::Varint],
            Shape::sae_pops => seq![Field::Varint, Field::PseudoOps],
            Shape::SEX2_3 => seq![Field::Byte, Field::Varint],
            Shape::SEX2_4 => seq![Field::Byte, Field::Byte, Field::Varint],
            Shape::STIG1_2
            | Shape::STIG2_2a => seq![Field::Bool],
        }
    }

    /// The fields that a record of this shape carries after its mnemonic.
    pub fn fields(self) -> (r: Vec<Field>)
        ensures
            r@ == self.recipe(),
    {
        match self {
            Shape::Normal_1
            | Shape::AamAad
            | Shape::AX
            | Shape::AY
            | Shape::bnd_1
            | Shape::DeclareData
            | Shape::DX
            | Shape::maskmovq
            | Shape::mmxmem_1
            | Shape::pblendvb_1
            | Shape::Reg16
            | Shape::reverse2
            | Shape::STIG1_1
            | Shape::XLAT
            | Shape::XY
            | Shape::YA
            | Shape::YD
            | Shape::YX => vec![],
            Shape::Normal_2
            | Shape::asz
            | Shape::bnd_2
            | Shape::er_2
            | Shape::far
            | Shape::far_mem
            | Shape::invlpga
            | Shape::mmxmem_2
            | Shape::movabs
            | Shape::os_2
            | Shape::os_call_2
            | Shape::os_jcc_2
            | Shape::os_mem
            | Shape::os_mem_reg16
            | Shape::sae
            | Shape::STIG2_2b
            | Shape::xbegin => vec![Field::Varint],
            Shape::bcst
            | Shape::er_3
            | Shape::os_3
            | Shape::os_jcc_3
            | Shape::os_mem2 => vec![Field::Varint, Field::Varint],
            Shape::mmxmem_3
            | Shape::nop
            | Shape::os_loop
            | Shape::SEX1
            | Shape::SEX1a => vec![Field::Varint, Field::Byte],
            Shape::os_call_3 => vec![Field::Varint, Field::Bool],
            Shape::ms_pops => vec![Field::PseudoOps, Field::Varint, Field::Byte],
            Shape::OpSize => vec![Field::Byte, Field::Suffix('w'), Field::Suffix('d'), Field::Suffix('q')],
            Shape::OpSize2_bnd => vec![Field::StringRef, Field::StringRef, Field::StringRef],
            Shape::OpSize3 => vec![Field::SuffixByte, Field::Varint],
            Shape::pblendvb_2
            | Shape::SEX2_2
            | Shape::SEX3 => vec![Field::Byte],
            Shape::pclmulqdq
            | Shape::pops_2 => vec![Field::PseudoOps],
            Shape::pops_3 => vec![Field::PseudoOps, Field::Varint],
            Shape::sae_pops => vec![Field::Varint, Field::PseudoOps],
            Shape::SEX2_3 => vec![Field::Byte, Field::Varint],
            Shape::SEX2_4 => vec![Field::Byte, Field::Byte, Field::Varint],
            Shape::STIG1_2
            | Shape::STIG2_2a => vec![Field::Bool],
        }
    }
}

} // verus!
