use vstd::prelude::*;

verus! {

/// The eighteen face turns: a face and a quarter turn clockwise (1), a half turn (2) or a
/// quarter turn counterclockwise (3).
#[derive(Clone, Copy, PartialEq, Eq, Hash, Debug)]
pub enum Move {
    U1,
    U2,
    U3,
    D1,
    D2,
    D3,
    F1,
    F2,
    F3,
    B1,
    B2,
    B3,
    R1,
    R2,
    R3,
    L1,
    L2,
    L3,
}

/// The usual notation of a move: the face letter, then `2` for a half turn or `'` for a
/// counterclockwise quarter turn.
pub open spec fn move_notation(m: Move) -> Seq<char> {
    match m {
        Move::U1 => "U"@,
        Move::U2 => "U2"@,
        Move::U3 => "U'"@,
        Move::D1 => "D"@,
        Move::D2 => "D2"@,
        Move::D3 => "D'"@,
        Move::F1 => "F"@,
        Move::F2 => "F2"@,
        Move::F3 => "F'"@,
        Move::B1 => "B"@,
        Move::B2 => "B2"@,
        Move::B3 => "B'"@,
        Move::R1 => "R"@,
        Move::R2 => "R2"@,
        Move::R3 => "R'"@,
        Move::L1 => "L"@,
        Move::L2 => "L2"@,
        Move::L3 => "L'"@,
    }
}

/// The position of a move in the order of declaration.
pub open spec fn move_index(m: Move) -> nat {
    match m {
        Move::U1 => 0,
        Move::U2 => 1,
        Move::U3 => 2,
        Move::D1 => 3,
        Move::D2 => 4,
        Move::D3 => 5,
        Move::F1 => 6,
        Move::F2 => 7,
        Move::F3 => 8,
        Move::B1 => 9,
        Move::B2 => 10,
        Move::B3 => 11,
        Move::R1 => 12,
        Move::R2 => 13,
        Move::R3 => 14,
        Move::L1 => 15,
        Move::L2 => 16,
        Move::L3 => 17,
    }
}

/// The move at position `i` of the order of declaration.
pub open spec fn move_at(i: int) -> Move {
    if i == 0 {
        Move::U1
    } else if i == 1 {
        Move::U2
    } else if i == 2 {
        Move::U3
    } else if i == 3 {
        Move::D1
    } else if i == 4 {
        Move::D2
    } else if i == 5 {
        Move::D3
    } else if i == 6 {
        Move::F1
    } else if i == 7 {
        Move::F2
    } else if i == 8 {
        Move::F3
    } else if i == 9 {
        Move::B1
    } else if i == 10 {
        Move::B2
    } else if i == 11 {
        Move::B3
    } else if i == 12 {
        Move::R1
    } else if i == 13 {
        Move::R2
    } else if i == 14 {
        Move::R3
    } else if i == 15 {
        Move::L1
    } else if i == 16 {
        Move::L2
    } else {
        Move::L3
    }
}

impl Move {
    /// All eighteen moves, in the order of declaration.
    pub fn all_iter() -> (r: Vec<Move>)
        ensures
            r@.len() == 18,
            forall|i: int| 0 <= i < 18 ==> r@[i] == move_at(i),
    {
        let mut v = Vec::new();
        let mut i: u8 = 0;
        while i < 18
            invariant
                i <= 18,
                v@.len() == i,
                forall|k: int| 0 <= k < i ==> v@[k] == move_at(k),
            decreases 18 - i,
        {
            v.push(Self::from_u8(i));
            i += 1;
        }
        v
    }

    /// The move at position `x` of the order of declaration.
    pub fn from_u8(x: u8) -> (r: Move)
        requires
            x < 18,
        ensures
            r == move_at(x as int),
            move_index(r) == x,
    {
        match x {
            0 => Move::U1,
            1 => Move::U2,
            2 => Move::U3,
            3 => Move::D1,
            4 => Move::D2,
            5 => Move::D3,
            6 => Move::F1,
            7 => Move::F2,
            8 => Move::F3,
            9 => Move::B1,
            10 => Move::B2,
            11 => Move::B3,
            12 => Move::R1,
            13 => Move::R2,
            14 => Move::R3,
            15 => Move::L1,
            16 => Move::L2,
            _ => Move::L3,
        }
    }

    pub fn into_u8(self) -> (r: u8)
        ensures
            r == move_index(self),
            move_at(r as int) == self,
    {
        match self {
            Move::U1 => 0,
            Move::U2 => 1,
            Move::U3 => 2,
            Move::D1 => 3,
            Move::D2 => 4,
            Move::D3 => 5,
            Move::F1 => 6,
            Move::F2 => 7,
            Move::F3 => 8,
            Move::B1 => 9,
            Move::B2 => 10,
            Move::B3 => 11,
            Move::R1 => 12,
            Move::R2 => 13,
            Move::R3 => 14,
            Move::L1 => 15,
            Move::L2 => 16,
            Move::L3 => 17,
        }
    }

    pub fn into_index(self) -> (r: usize)
        ensures
            r == move_index(self),
            r < 18,
    {
        self.into_u8() as usize
    }

    /// The move in the usual notation: the face letter, then `2` for a half turn or `'` for a
    /// counterclockwise quarter turn.
    pub fn notation(self) -> (r: &'static str)
        ensures
            r@ == move_notation(self),
    {
        match self {
            Move::U1 => "U",
            Move::U2 => "U2",
            Move::U3 => "U'",
            Move::D1 => "D",
            Move::D2 => "D2",
            Move::D3 => "D'",
            Move::F1 => "F",
            Move::F2 => "F2",
            Move::F3 => "F'",
            Move::B1 => "B",
            Move::B2 => "B2",
            Move::B3 => "B'",
            Move::R1 => "R",
            Move::R2 => "R2",
            Move::R3 => "R'",
            Move::L1 => "L",
            Move::L2 => "L2",
            Move::L3 => "L'",
        }
    }

    /// The face turn that a phase 2 move names.
    pub fn from_phase_2(value: Phase2Move) -> (r: Move)
        ensures
            r == phase_2_as_move(value),
    {
        match value {
            Phase2Move::U1 => Move::U1,
            Phase2Move::U2 => Move::U2,
            Phase2Move::U3 => Move::U3,
            Phase2Move::D1 => Move::D1,
            Phase2Move::D2 => Move::D2,
            Phase2Move::D3 => Move::D3,
            Phase2Move::F2 => Move::F2,
            Phase2Move::B2 => Move::B2,
            Phase2Move::R2 => Move::R2,
            Phase2Move::L2 => Move::L2,
        }
    }
}

/// The ten moves that keep a domino-reduced cube domino-reduced.
#[derive(Clone, Copy, PartialEq, Eq, Hash, Debug)]
pub enum Phase2Move {
    U1,
    U2,
    U3,
    D1,
    D2,
    D3,
    F2,
    B2,
    R2,
    L2,
}

pub open spec fn phase_2_as_move(m: Phase2Move) -> Move {
    match m {
        Phase2Move::U1 => Move::U1,
        Phase2Move::U2 => Move::U2,
        Phase2Move::U3 => Move::U3,
        Phase2Move::D1 => Move::D1,
        Phase2Move::D2 => Move::D2,
        Phase2Move::D3 => Move::D3,
        Phase2Move::F2 => Move::F2,
        Phase2Move::B2 => Move::B2,
        Phase2Move::R2 => Move::R2,
        Phase2Move::L2 => Move::L2,
    }
}

pub open spec fn phase_2_index(m: Phase2Move) -> nat {
    match m {
        Phase2Move::U1 => 0,
        Phase2Move::U2 => 1,
        Phase2Move::U3 => 2,
        Phase2Move::D1 => 3,
        Phase2Move::D2 => 4,
        Phase2Move::D3 => 5,
        Phase2Move::F2 => 6,
        Phase2Move::B2 => 7,
        Phase2Move::R2 => 8,
        Phase2Move::L2 => 9,
    }
}

pub open spec fn phase_2_at(i: int) -> Phase2Move {
    if i == 0 {
        Phase2Move::U1
    } else if i == 1 {
        Phase2Move::U2
    } else if i == 2 {
        Phase2Move::U3
    } else if i == 3 {
        Phase2Move::D1
    } else if i == 4 {
        Phase2Move::D2
    } else if i == 5 {
        Phase2Move::D3
    } else if i == 6 {
        Phase2Move::F2
    } else if i == 7 {
        Phase2Move::B2
    } else if i == 8 {
        Phase2Move::R2
    } else {
        Phase2Move::L2
    }
}

impl Phase2Move {
    /// All ten phase 2 moves, in the order of declaration.
    pub fn all_iter() -> (r: Vec<Phase2Move>)
        ensures
            r@.len() == 10,
            forall|i: int| 0 <= i < 10 ==> r@[i] == phase_2_at(i),
    {
        let mut v = Vec::new();
        let mut i: u8 = 0;
        while i < 10
            invariant
                i <= 10,
                v@.len() == i,
                forall|k: int| 0 <= k < i ==> v@[k] == phase_2_at(k),
            decreases 10 - i,
        {
            v.push(Self::from_u8(i));
            i += 1;
        }
        v
    }

    /// The phase 2 move at position `x` of the order of declaration.
    pub fn from_u8(x: u8) -> (r: Phase2Move)
        requires
            x < 10,
        ensures
            r == phase_2_at(x as int),
            phase_2_index(r) == x,
    {
        match x {
            0 => Phase2Move::U1,
            1 => Phase2Move::U2,
            2 => Phase2Move::U3,
            3 => Phase2Move::D1,
            4 => Phase2Move::D2,
            5 => Phase2Move::D3,
            6 => Phase2Move::F2,
            7 => Phase2Move::B2,
            8 => Phase2Move::R2,
            _ => Phase2Move::L2,
        }
    }

    pub fn into_u8(self) -> (r: u8)
        ensures
            r == phase_2_index(self),
            phase_2_at(r as int) == self,
    {
        match self {
            Phase2Move::U1 => 0,
            Phase2Move::U2 => 1,
            Phase2Move::U3 => 2,
            Phase2Move::D1 => 3,
            Phase2Move::D2 => 4,
            Phase2Move::D3 => 5,
            Phase2Move::F2 => 6,
            Phase2Move::B2 => 7,
            Phase2Move::R2 => 8,
            Phase2Move::L2 => 9,
        }
    }

    pub fn into_index(self) -> (r: usize)
        ensures
            r == phase_2_index(self),
            r < 10,
    {
        self.into_u8() as usize
    }
}

} // verus!
