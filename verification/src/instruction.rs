use vstd::prelude::*;

verus! {

/// Instruction set of the controller. Each instruction is one opcode byte,
/// given by [`Instruction::code`].
#[derive(Clone, Copy, Debug, PartialEq, Eq, Structural)]
pub enum Instruction {
    /// No Operation.
    Nop,
    /// Software Reset.
    SwReset,
    /// Read Display Identification Information.
    RddId,
    /// Read Display Status.
    RddSt,
    /// Enter Sleep Mode (SLPIN).
    SlpIn,
    /// Exit Sleep Mode (SLPOUT).
    SlpOut,
    /// Enter Partial Mode (PTLON).
    PtlOn,
    /// Enter Normal Mode (NORON).
    NorOn,
    /// Display Inversion Off (INVOFF).
    InvOff,
    /// Display Inversion On (INVON).
    InvOn,
    /// Gamma Set (GAMSET).
    GamSet,
    /// Display Off (DISPOFF).
    DispOff,
    /// Display On (DISPON).
    DispOn,
    /// Column Address Set (CASET).
    CaSet,
    /// Row Address Set (RASET).
    RaSet,
    /// Memory Write (RAMWR).
    RamWr,
    /// Memory Read (RAMRD).
    RamRd,
    /// Partial Area (PTLAR).
    PtlAr,
    /// Vertical Scrolling Definition (VSCRDEF).
    VScrDef,
    /// Tearing Effect Line OFF (TEOFF).
    TEOFF,
    /// Tearing Effect Line ON (TEON).
    TEON,
    /// Memory Access Control (MADCTL).
    MadCtl,
    /// Pixel Format Set (COLMOD).
    ColMod,
    /// Write Memory Continue (WRMEMC).
    WrMemC,
    /// Read Memory Continue (RDMEMC).
    RdMemC,
    /// Set Tear Scanline (STE).
    Ste,
    /// Get Scanline (GSCAN).
    GScan,
    /// Write Display Brightness (WRDISBV).
    WrDisBV,
    /// Read Display Brightness (RDDISBV).
    RdDisBV,
    /// Write CTRL Display (WRCTRLD).
    WrCtrLD,
    /// Read CTRL Display (RDCTRLD).
    RdCtrLD,
    /// Write CABC (WRCACE).
    WrCACE,
    /// Read CABC (RDCABC).
    RdCABC,
    /// Write CABC Minimum Brightness (WRCABCMB).
    WrCABCMB,
    /// Read CABC Minimum Brightness (RDCABCMB).
    RdCABCMB,
    /// Read Automatic Brightness Control Self-Diagnostic Result (RDABCSDR).
    RdABCSDR,
    /// Read ID1 (RDID1).
    RdId1,
    /// Read ID2 (RDID2).
    RdId2,
    /// Read ID3 (RDID3).
    RdId3,
}

impl Instruction {
    /// The opcode byte that selects this instruction on the bus.
    pub open spec fn spec_code(self) -> u8 {
        match self {
            Instruction::Nop => 0x00,
            Instruction::SwReset => 0x01,
            Instruction::RddId => 0x04,
            Instruction::RddSt => 0x09,
            Instruction::SlpIn => 0x10,
            Instruction::SlpOut => 0x11,
            Instruction::PtlOn => 0x12,
            Instruction::NorOn => 0x13,
            Instruction::InvOff => 0x20,
            Instruction::InvOn => 0x21,
            Instruction::GamSet => 0x26,
            Instruction::DispOff => 0x28,
            Instruction::DispOn => 0x29,
            Instruction::CaSet => 0x2a,
            Instruction::RaSet => 0x2b,
            Instruction::RamWr => 0x2c,
            Instruction::RamRd => 0x2e,
            Instruction::PtlAr => 0x30,
            Instruction::VScrDef => 0x33,
            Instruction::TEOFF => 0x34,
            Instruction::TEON => 0x35,
            Instruction::MadCtl => 0x36,
            Instruction::ColMod => 0x3a,
            Instruction::WrMemC => 0x3c,
            Instruction::RdMemC => 0x3e,
            Instruction::Ste => 0x44,
            Instruction::GScan => 0x45,
            Instruction::WrDisBV => 0x51,
            Instruction::RdDisBV => 0x52,
            Instruction::WrCtrLD => 0x53,
            Instruction::RdCtrLD => 0x54,
            Instruction::WrCACE => 0x55,
            Instruction::RdCABC => 0x56,
            Instruction::WrCABCMB => 0x5e,
            Instruction::RdCABCMB => 0x5f,
            Instruction::RdABCSDR => 0x68,
            Instruction::RdId1 => 0xda,
            Instruction::RdId2 => 0xdb,
            Instruction::RdId3 => 0xdc,
        }
    }

    /// Returns the opcode byte of this instruction.
    pub fn code(self) -> (c: u8)
        ensures
            c == self.spec_code(),
    {
        match self {
            Instruction::Nop => 0x00,
            Instruction::SwReset => 0x01,
            Instruction::RddId => 0x04,
            Instruction::RddSt => 0x09,
            Instruction::SlpIn => 0x10,
            Instruction::SlpOut => 0x11,
            Instruction::PtlOn => 0x12,
            Instruction::NorOn => 0x13,
            Instruction::InvOff => 0x20,
            Instruction::InvOn => 0x21,
            Instruction::GamSet => 0x26,
            Instruction::DispOff => 0x28,
            Instruction::DispOn => 0x29,
            Instruction::CaSet => 0x2a,
            Instruction::RaSet => 0x2b,
            Instruction::RamWr => 0x2c,
            Instruction::RamRd => 0x2e,
            Instruction::PtlAr => 0x30,
            Instruction::VScrDef => 0x33,
            Instruction::TEOFF => 0x34,
            Instruction::TEON => 0x35,
            Instruction::MadCtl => 0x36,
            Instruction::ColMod => 0x3a,
            Instruction::WrMemC => 0x3c,
            Instruction::RdMemC => 0x3e,
            Instruction::Ste => 0x44,
            Instruction::GScan => 0x45,
            Instruction::WrDisBV => 0x51,
            Instruction::RdDisBV => 0x52,
            Instruction::WrCtrLD => 0x53,
            Instruction::RdCtrLD => 0x54,
            Instruction::WrCACE => 0x55,
            Instruction::RdCABC => 0x56,
            Instruction::WrCABCMB => 0x5e,
            Instruction::RdCABCMB => 0x5f,
            Instruction::RdABCSDR => 0x68,
            Instruction::RdId1 => 0xda,
            Instruction::RdId2 => 0xdb,
            Instruction::RdId3 => 0xdc,
        }
    }
}

} // verus!
