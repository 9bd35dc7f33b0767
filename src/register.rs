use vstd::prelude::*;

verus! {

/// The eight registers of the machine, each naming one slot of the register file.
#[derive(Clone, Copy, Debug, PartialEq, Eq, Structural)]
pub enum Register {
    A,
    B,
    C,
    M,
    SP,
    PC,
    BP,
    Flags,
}

/// Number of slots in the register file.
pub const REGISTER_COUNT: usize = 8;

impl Register {
    /// The slot of the register file that this register names.
    pub open spec fn slot(self) -> nat {
        match self {
            Register::A => 0,
            Register::B => 1,
            Register::C => 2,
            Register::M => 3,
            Register::SP => 4,
            Register::PC => 5,
            Register::BP => 6,
            Register::Flags => 7,
        }
    }

    /// The register whose slot is `i`, if `i` is a slot.
    pub open spec fn with_slot(i: int) -> Option<Register> {
        if i == 0 {
            Some(Register::A)
        } else if i == 1 {
            Some(Register::B)
        } else if i == 2 {
            Some(Register::C)
        } else if i == 3 {
            Some(Register::M)
        } else if i == 4 {
            Some(Register::SP)
        } else if i == 5 {
            Some(Register::PC)
        } else if i == 6 {
            Some(Register::BP)
        } else if i == 7 {
            Some(Register::Flags)
        } else {
            None
        }
    }

    /// The register whose symbolic name is `s`.
    pub open spec fn with_name(s: Seq<char>) -> Option<Register> {
        if s == "A"@ {
            Some(Register::A)
        } else if s == "B"@ {
            Some(Register::B)
        } else if s == "C"@ {
            Some(Register::C)
        } else if s == "M"@ {
            Some(Register::M)
        } else if s == "SP"@ {
            Some(Register::SP)
        } else if s == "PC"@ {
            Some(Register::PC)
        } else if s == "BP"@ {
            Some(Register::BP)
        } else if s == "Flags"@ {
            Some(Register::Flags)
        } else {
            None
        }
    }

    pub fn index(self) -> (r: usize)
        ensures
            r == self.slot(),
            r < REGISTER_COUNT,
    {
        match self {
            Register::A => 0,
            Register::B => 1,
            Register::C => 2,
            Register::M => 3,
            Register::SP => 4,
            Register::PC => 5,
            Register::BP => 6,
            Register::Flags => 7,
        }
    }

    /// The register of slot `i`; `None` where `i` is 8 or more.
    pub fn from_index(i: u8) -> (r: Option<Register>)
        ensures
            r == Register::with_slot(i as int),
    {
        match i {
            0 => Some(Register::A),
            1 => Some(Register::B),
            2 => Some(Register::C),
            3 => Some(Register::M),
            4 => Some(Register::SP),
            5 => Some(Register::PC),
            6 => Some(Register::BP),
            7 => Some(Register::Flags),
            _ => None,
        }
    }

    /// The register with the symbolic name `s` (`A`, `B`, `C`, `M`, `SP`, `PC`,
    /// `BP` or `Flags`).
    pub fn from_name(s: &str) -> (r: Option<Register>)
        ensures
            r == Register::with_name(s@),
    {
        if same_text(s, "A") {
            Some(Register::A)
        } else if same_text(s, "B") {
            Some(Register::B)
        } else if same_text(s, "C") {
            Some(Register::C)
        } else if same_text(s, "M") {
            Some(Register::M)
        } else if same_text(s, "SP") {
            Some(Register::SP)
        } else if same_text(s, "PC") {
            Some(Register::PC)
        } else if same_text(s, "BP") {
            Some(Register::BP)
        } else if same_text(s, "Flags") {
            Some(Register::Flags)
        } else {
            None
        }
    }
}

/// Whether two strings hold the same characters.
pub fn same_text(a: &str, b: &str) -> (r: bool)
    ensures
        r == (a@ == b@),
{
    let n = a.unicode_len();
    if n != b.unicode_len() {
        return false;
    }
    let mut i: usize = 0;
    while i < n
        invariant
            n == a@.len(),
            n == b@.len(),
            i <= n,
            a@.subrange(0, i as int) == b@.subrange(0, i as int),
        decreases n - i,
    {
        if a.get_char(i) != b.get_char(i) {
            assert(a@[i as int] != b@[i as int]);
            return false;
        }
        assert(a@.subrange(0, i + 1) == a@.subrange(0, i as int).push(a@[i as int]));
        assert(b@.subrange(0, i + 1) == b@.subrange(0, i as int).push(b@[i as int]));
        i = i + 1;
    }
    assert(a@ == a@.subrange(0, n as int));
    assert(b@ == b@.subrange(0, n as int));
    true
}

} // verus!
