//! The 16-bit registers that exercises are checked on, by name.
use vstd::prelude::*;
use crate::text::{chars_of, str_eq_chars, string_of};

verus! {

/// A 16-bit general register, or one of the byte halves of one.
#[derive(Debug, Clone, Copy, PartialEq, Eq, Structural)]
pub enum Register {
    AX,
    BX,
    CX,
    DX,
    AH,
    AL,
    BH,
    BL,
    CH,
    CL,
    DH,
    DL,
    SP,
    BP,
    SI,
    DI,
}

/// The name of a register, in upper case.
pub open spec fn register_name(r: Register) -> Seq<char> {
    match r {
        Register::AX => "AX"@,
        Register::BX => "BX"@,
        Register::CX => "CX"@,
        Register::DX => "DX"@,
        Register::AH => "AH"@,
        Register::AL => "AL"@,
        Register::BH => "BH"@,
        Register::BL => "BL"@,
        Register::CH => "CH"@,
        Register::CL => "CL"@,
        Register::DH => "DH"@,
        Register::DL => "DL"@,
        Register::SP => "SP"@,
        Register::BP => "BP"@,
        Register::SI => "SI"@,
        Register::DI => "DI"@,
    }
}

/// The register with the given upper-case name, if there is one.
pub open spec fn register_named(s: Seq<char>) -> Option<Register> {
    if s == "AX"@ {
        Some(Register::AX)
    } else if s == "BX"@ {
        Some(Register::BX)
    } else if s == "CX"@ {
        Some(Register::CX)
    } else if s == "DX"@ {
        Some(Register::DX)
    } else if s == "AH"@ {
        Some(Register::AH)
    } else if s == "AL"@ {
        Some(Register::AL)
    } else if s == "BH"@ {
        Some(Register::BH)
    } else if s == "BL"@ {
        Some(Register::BL)
    } else if s == "CH"@ {
        Some(Register::CH)
    } else if s == "CL"@ {
        Some(Register::CL)
    } else if s == "DH"@ {
        Some(Register::DH)
    } else if s == "DL"@ {
        Some(Register::DL)
    } else if s == "SP"@ {
        Some(Register::SP)
    } else if s == "BP"@ {
        Some(Register::BP)
    } else if s == "SI"@ {
        Some(Register::SI)
    } else if s == "DI"@ {
        Some(Register::DI)
    } else {
        None
    }
}

impl Register {
    /// The name of this register.
    pub fn name(&self) -> (s: &'static str)
        ensures
            s@ == register_name(*self),
    {
        match self {
            Register::AX => "AX",
            Register::BX => "BX",
            Register::CX => "CX",
            Register::DX => "DX",
            Register::AH => "AH",
            Register::AL => "AL",
            Register::BH => "BH",
            Register::BL => "BL",
            Register::CH => "CH",
            Register::CL => "CL",
            Register::DH => "DH",
            Register::DL => "DL",
            Register::SP => "SP",
            Register::BP => "BP",
            Register::SI => "SI",
            Register::DI => "DI",
        }
    }
}

/// A register name that names no register.
#[derive(Debug)]
pub struct UnknownRegister {
    pub name: String,
}

impl UnknownRegister {
    /// The error's text: `Unknown register: ` and the name.
    pub fn message(&self) -> (s: String)
        ensures
            s@ == "Unknown register: "@ + self.name@,
    {
        let mut s = String::from_str("Unknown register: ");
        s.append(self.name.as_str());
        s
    }
}

/// The register with the given name; names are upper case (`AX`, `AL`, `SI`, ...).
pub fn name_to_reg(name: &str) -> (r: Result<Register, UnknownRegister>)
    ensures
        match r {
            Ok(reg) => register_named(name@) == Some(reg),
            Err(e) => register_named(name@) is None && e.name@ == name@,
        },
{
    let n = chars_of(name);
    let s = n.as_slice();
    if str_eq_chars("AX", s) {
        Ok(Register::AX)
    } else if str_eq_chars("BX", s) {
        Ok(Register::BX)
    } else if str_eq_chars("CX", s) {
        Ok(Register::CX)
    } else if str_eq_chars("DX", s) {
        Ok(Register::DX)
    } else if str_eq_chars("AH", s) {
        Ok(Register::AH)
    } else if str_eq_chars("AL", s) {
        Ok(Register::AL)
    } else if str_eq_chars("BH", s) {
        Ok(Register::BH)
    } else if str_eq_chars("BL", s) {
        Ok(Register::BL)
    } else if str_eq_chars("CH", s) {
        Ok(Register::CH)
    } else if str_eq_chars("CL", s) {
        Ok(Register::CL)
    } else if str_eq_chars("DH", s) {
        Ok(Register::DH)
    } else if str_eq_chars("DL", s) {
        Ok(Register::DL)
    } else if str_eq_chars("SP", s) {
        Ok(Register::SP)
    } else if str_eq_chars("BP", s) {
        Ok(Register::BP)
    } else if str_eq_chars("SI", s) {
        Ok(Register::SI)
    } else if str_eq_chars("DI", s) {
        Ok(Register::DI)
    } else {
        Err(UnknownRegister { name: string_of(s) })
    }
}

/// Every register's name leads back to that register.
pub proof fn lemma_register_name_roundtrip(r: Register)
    ensures
        register_named(register_name(r)) == Some(r),
{
    reveal_strlit("AX");
    assert("AX"@ =~= seq!['A', 'X']);
    reveal_strlit("BX");
    assert("BX"@ =~= seq!['B', 'X']);
    reveal_strlit("CX");
    assert("CX"@ =~= seq!['C', 'X']);
    reveal_strlit("DX");
    assert("DX"@ =~= seq!['D', 'X']);
    reveal_strlit("AH");
    assert("AH"@ =~= seq!['A', 'H']);
    reveal_strlit("AL");
    assert("AL"@ =~= seq!['A', 'L']);
    reveal_strlit("BH");
    assert("BH"@ =~= seq!['B', 'H']);
    reveal_strlit("BL");
    assert("BL"@ =~= seq!['B', 'L']);
    reveal_strlit("CH");
    assert("CH"@ =~= seq!['C', 'H']);
    reveal_strlit("CL");
    assert("CL"@ =~= seq!['C', 'L']);
    reveal_strlit("DH");
    assert("DH"@ =~= seq!['D', 'H']);
    reveal_strlit("DL");
    assert("DL"@ =~= seq!['D', 'L']);
    reveal_strlit("SP");
    assert("SP"@ =~= seq!['S', 'P']);
    reveal_strlit("BP");
    assert("BP"@ =~= seq!['B', 'P']);
    reveal_strlit("SI");
    assert("SI"@ =~= seq!['S', 'I']);
    reveal_strlit("DI");
    assert("DI"@ =~= seq!['D', 'I']);
}

} // verus!
