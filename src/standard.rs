use vstd::prelude::*;

use crate::names::same_text;

verus! {

/// The form factor / pinout convention a board follows.
#[derive(Debug, Clone, Copy, PartialEq, Eq, Structural)]
pub enum BoardStandards {
    Feather,
    Arduino,
    RaspberryPi,
    ThingPlus,
    MicroMod,
}

/// The name under which a standard is written in a metadata file and shown to users.
pub open spec fn standard_name(s: BoardStandards) -> Seq<char> {
    match s {
        BoardStandards::Feather => "Feather"@,
        BoardStandards::Arduino => "Arduino"@,
        BoardStandards::RaspberryPi => "RaspberryPi"@,
        BoardStandards::ThingPlus => "ThingPlus"@,
        BoardStandards::MicroMod => "MicroMod"@,
    }
}

/// The standard whose name is `n`, if any.
pub open spec fn standard_named(n: Seq<char>) -> Option<BoardStandards> {
    if n == "Feather"@ {
        Some(BoardStandards::Feather)
    } else if n == "Arduino"@ {
        Some(BoardStandards::Arduino)
    } else if n == "RaspberryPi"@ {
        Some(BoardStandards::RaspberryPi)
    } else if n == "ThingPlus"@ {
        Some(BoardStandards::ThingPlus)
    } else if n == "MicroMod"@ {
        Some(BoardStandards::MicroMod)
    } else {
        None
    }
}

impl BoardStandards {
    /// The standard's name, as it is written in a metadata file.
    pub fn name(&self) -> (r: String)
        ensures
            r@ == standard_name(*self),
    {
        let s = match self {
            BoardStandards::Feather => "Feather",
            BoardStandards::Arduino => "Arduino",
            BoardStandards::RaspberryPi => "RaspberryPi",
            BoardStandards::ThingPlus => "ThingPlus",
            BoardStandards::MicroMod => "MicroMod",
        };
        proof {
            reveal_strlit("Feather");
            reveal_strlit("Arduino");
            reveal_strlit("RaspberryPi");
            reveal_strlit("ThingPlus");
            reveal_strlit("MicroMod");
        }
        s.to_owned()
    }

    /// The standard whose name is `n`; `None` for any other text.
    pub fn from_name(n: &str) -> (r: Option<BoardStandards>)
        ensures
            r == standard_named(n@),
    {
        if same_text(n, "Feather") {
            Some(BoardStandards::Feather)
        } else if same_text(n, "Arduino") {
            Some(BoardStandards::Arduino)
        } else if same_text(n, "RaspberryPi") {
            Some(BoardStandards::RaspberryPi)
        } else if same_text(n, "ThingPlus") {
            Some(BoardStandards::ThingPlus)
        } else if same_text(n, "MicroMod") {
            Some(BoardStandards::MicroMod)
        } else {
            None
        }
    }
}

/// Reading back the name of a standard gives that standard.
pub proof fn lemma_standard_name_round_trip(s: BoardStandards)
    ensures
        standard_named(standard_name(s)) == Some(s),
{
    reveal_strlit("Feather");
    reveal_strlit("Arduino");
    reveal_strlit("RaspberryPi");
    reveal_strlit("ThingPlus");
    reveal_strlit("MicroMod");
    let n = standard_name(s);
    if n == "Feather"@ {
        assert(n[0] == 'F');
    } else if n == "Arduino"@ {
        assert(n[0] == 'A');
    } else if n == "RaspberryPi"@ {
        assert(n[0] == 'R');
    } else if n == "ThingPlus"@ {
        assert(n[0] == 'T');
    }
}

} // verus!
