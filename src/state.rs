use vstd::prelude::*;

verus! {

/// The state of one patch of ground.
#[derive(Clone, Copy, Debug, PartialEq, Eq, Structural)]
pub enum State {
    Tree,
    Burning,
    Empty,
}

/// The character that stands for a state in a rendered grid.
pub open spec fn symbol_of(s: State) -> char {
    match s {
        State::Tree => 'T',
        State::Burning => 'B',
        State::Empty => 'E',
    }
}

/// The one-character text that stands for `s`.
pub fn symbol(s: State) -> (r: &'static str)
    ensures
        r@ == seq![symbol_of(s)],
{
    match s {
        State::Tree => {
            proof {
                reveal_strlit("T");
            }
            "T"
        },
        State::Burning => {
            proof {
                reveal_strlit("B");
            }
            "B"
        },
        State::Empty => {
            proof {
                reveal_strlit("E");
            }
            "E"
        },
    }
}

} // verus!
