//! The two input modes of the editor.

use vstd::prelude::*;

verus! {

/// Input mode: in `Normal` mode keys are commands, in `Insert` mode
/// character keys are inserted literally into the buffer.
#[derive(Debug, Clone, Copy, PartialEq, Eq, Structural)]
pub enum Mode {
    Normal,
    Insert,
}

/// The status-line label of a mode.
pub open spec fn mode_label(m: Mode) -> Seq<char> {
    match m {
        Mode::Normal => seq!['N', 'O', 'R', 'M', 'A', 'L'],
        Mode::Insert => seq!['I', 'N', 'S', 'E', 'R', 'T'],
    }
}

impl Mode {
    /// The label shown in the status line for this mode.
    pub fn label(&self) -> (r: Vec<char>)
        ensures
            r@ == mode_label(*self),
    {
        let mut v: Vec<char> = Vec::new();
        match self {
            Mode::Normal => {
                v.push('N');
                v.push('O');
                v.push('R');
                v.push('M');
                v.push('A');
                v.push('L');
            },
            Mode::Insert => {
                v.push('I');
                v.push('N');
                v.push('S');
                v.push('E');
                v.push('R');
                v.push('T');
            },
        }
        proof {
            assert(v@ =~= mode_label(*self));
        }
        v
    }
}

} // verus!
