use vstd::prelude::*;

verus! {

/// The ways in which the trail can be moved before a frame is blended in.
#[derive(Clone, Copy, Debug, PartialEq, Eq, Structural)]
pub enum MoveKind {
    /// The trail stays where it is.
    Still,
    /// The trail is panned as a whole.
    Direction,
    /// The trail runs away from the centre, or towards it.
    Radial,
    /// The trail turns about the centre while it runs.
    Spiral,
    /// The trail is sheared by a wave.
    Wave,
}

/// The tag of a pan: the letters of `direction`.
pub open spec fn direction_tag() -> Seq<u8> {
    seq![100u8, 105u8, 114u8, 101u8, 99u8, 116u8, 105u8, 111u8, 110u8]
}

/// The tag of a radial move: the letters of `radial`.
pub open spec fn radial_tag() -> Seq<u8> {
    seq![114u8, 97u8, 100u8, 105u8, 97u8, 108u8]
}

/// The tag of a spiral move: the letters of `spiral`.
pub open spec fn spiral_tag() -> Seq<u8> {
    seq![115u8, 112u8, 105u8, 114u8, 97u8, 108u8]
}

/// The tag of a wave: the letters of `wave`.
pub open spec fn wave_tag() -> Seq<u8> {
    seq![119u8, 97u8, 118u8, 101u8]
}

/// The move that a tag names. A tag that is none of the four known ones names no move.
pub open spec fn kind_of_tag(tag: Seq<u8>) -> MoveKind {
    if tag == direction_tag() {
        MoveKind::Direction
    } else if tag == radial_tag() {
        MoveKind::Radial
    } else if tag == spiral_tag() {
        MoveKind::Spiral
    } else if tag == wave_tag() {
        MoveKind::Wave
    } else {
        MoveKind::Still
    }
}

/// The move that an optional tag names: none where the tag is absent.
pub open spec fn kind_of(tag: Option<Seq<u8>>) -> MoveKind {
    match tag {
        Some(t) => kind_of_tag(t),
        None => MoveKind::Still,
    }
}

/// Tells whether two byte strings are the same.
pub fn same_bytes(a: &[u8], b: &[u8]) -> (out: bool)
    ensures
        out == (a@ == b@),
{
    if a.len() != b.len() {
        return false;
    }
    let len: usize = a.len();
    let mut i: usize = 0;
    while i < len
        invariant
            i <= len,
            a@.len() == len,
            b@.len() == len,
            forall|k: int| 0 <= k < i ==> a@[k] == b@[k],
        decreases len - i,
    {
        if a[i] != b[i] {
            return false;
        }
        i += 1;
    }
    assert(a@ =~= b@);
    true
}

/// Resolves a tag to the move it names.
pub fn move_kind_from_tag(tag: &[u8]) -> (out: MoveKind)
    ensures
        out == kind_of_tag(tag@),
{
    let direction: [u8; 9] = [100, 105, 114, 101, 99, 116, 105, 111, 110];
    let radial: [u8; 6] = [114, 97, 100, 105, 97, 108];
    let spiral: [u8; 6] = [115, 112, 105, 114, 97, 108];
    let wave: [u8; 4] = [119, 97, 118, 101];
    proof {
        assert(direction@ =~= direction_tag());
        assert(radial@ =~= radial_tag());
        assert(spiral@ =~= spiral_tag());
        assert(wave@ =~= wave_tag());
    }
    if same_bytes(tag, direction.as_slice()) {
        MoveKind::Direction
    } else if same_bytes(tag, radial.as_slice()) {
        MoveKind::Radial
    } else if same_bytes(tag, spiral.as_slice()) {
        MoveKind::Spiral
    } else if same_bytes(tag, wave.as_slice()) {
        MoveKind::Wave
    } else {
        MoveKind::Still
    }
}

/// Resolves an optional tag to the move it names: none where the tag is absent.
pub fn resolve_move_kind(tag: Option<&[u8]>) -> (out: MoveKind)
    ensures
        out == kind_of(
            match tag {
                Some(t) => Some(t@),
                None => None,
            },
        ),
{
    match tag {
        Some(t) => move_kind_from_tag(t),
        None => MoveKind::Still,
    }
}

/// Tells along which axis a wave displaces: along the rows for the code 0, along the columns
/// for any other code.
pub fn wave_is_vertical(direction: i32) -> (out: bool)
    ensures
        out == (direction != 0),
{
    direction != 0
}

/// What a frame asks the detector to do with the trail before the frame is blended in. The
/// numbers that shape a move other than a pan are not held here: they reach the detector through
/// the source that is handed over with the frame.
#[derive(Debug)]
pub enum Motion<T> {
    /// Leave the trail where it is.
    Still,
    /// Pan the trail by a whole number of pixels along each axis.
    Direction { move_x: i32, move_y: i32 },
    /// Run the trail towards the centre or away from it: each pixel takes the level found at
    /// the source given for it.
    Radial,
    /// Turn the trail about the centre while it runs: each pixel takes the level found at the
    /// source given for it.
    Spiral,
    /// Slide each pixel's level in along one axis, and advance the phase of the wave.
    Wave { vertical: bool, next_phase: T },
}

impl<T> Motion<T> {
    /// The kind of this move.
    pub open spec fn kind_spec(self) -> MoveKind {
        match self {
            Motion::Still => MoveKind::Still,
            Motion::Direction { .. } => MoveKind::Direction,
            Motion::Radial => MoveKind::Radial,
            Motion::Spiral => MoveKind::Spiral,
            Motion::Wave { .. } => MoveKind::Wave,
        }
    }

    /// Gives the kind of this move.
    pub fn kind(&self) -> (out: MoveKind)
        ensures
            out == self.kind_spec(),
    {
        match self {
            Motion::Still => MoveKind::Still,
            Motion::Direction { .. } => MoveKind::Direction,
            Motion::Radial => MoveKind::Radial,
            Motion::Spiral => MoveKind::Spiral,
            Motion::Wave { .. } => MoveKind::Wave,
        }
    }
}

} // verus!
