//! A ring of lights of which one is lit, and which is turned by one position
//! at a time.

use vstd::prelude::*;
use crate::convert::{narrow, widen};

verus! {

/// Why a wheel could not be made.
#[derive(Clone, Copy, Debug, PartialEq, Eq, Structural)]
pub enum WheelError {
    /// A wheel has at least one position.
    Empty,
    /// The number of positions does not fit the position counter.
    TooMany,
}

/// One turn of the wheel: the position that went dark and the one that lit up.
#[derive(Clone, Copy, Debug, PartialEq, Eq, Structural)]
pub struct Turn {
    pub off: usize,
    pub on: usize,
}

/// The position that follows `position` on a wheel of `count` positions.
pub open spec fn next_position(position: int, count: int) -> int {
    (position + 1) % count
}

/// The position reached from `position` after `turns` turns.
pub open spec fn position_after(position: int, count: int, turns: nat) -> int
    decreases turns,
{
    if turns == 0 {
        position
    } else {
        next_position(position_after(position, count, (turns - 1) as nat), count)
    }
}

/// The wheel: its position on a ring of lights. The light at the position
/// is lit, and no other.
#[derive(Clone, Copy, Debug, PartialEq, Eq, Structural)]
pub struct Wheel {
    position: u8,
    count: usize,
}

impl Wheel {
    /// The position of the wheel.
    pub closed spec fn spec_position(&self) -> u8 {
        self.position
    }

    /// The state of each light, by position.
    pub closed spec fn lit(&self) -> Seq<bool> {
        Seq::new(self.count as nat, |i: int| i == self.position)
    }

    /// The position is on the wheel, and the light there is lit, and no
    /// other: at every moment exactly one light is lit.
    pub open spec fn wf(&self) -> bool {
        &&& 0 < self.lit().len() <= u8::MAX
        &&& self.position() < self.lit().len()
        &&& forall|i: int|
            0 <= i < self.lit().len() ==> (#[trigger] self.lit()[i] <==> i == self.position())
    }

    /// The next turn of this wheel: from its position to the one that follows.
    pub open spec fn turn(&self) -> Turn {
        Turn {
            off: self.position() as usize,
            on: next_position(self.position() as int, self.lit().len() as int) as usize,
        }
    }

    /// Whether this wheel is `before` after one turn.
    pub open spec fn follows(&self, before: &Wheel) -> bool {
        &&& self.position() == before.turn().on
        &&& self.lit() == before.lit().update(before.turn().off as int, false).update(
            before.turn().on as int,
            true,
        )
    }

    /// This wheel after one turn.
    pub closed spec fn turned(&self) -> Wheel {
        Wheel {
            position: next_position(self.position as int, self.count as int) as u8,
            count: self.count,
        }
    }

    /// A wheel of `count` positions, at position zero, with the light there
    /// lit.
    pub fn new(count: usize) -> (r: Result<Wheel, WheelError>)
        ensures
            r is Ok <==> 0 < count <= u8::MAX,
            r is Ok ==> r->Ok_0.lit().len() == count,
            r is Ok ==> r->Ok_0.wf() && r->Ok_0.position() == 0 && r->Ok_0.lit() == Seq::new(
                count as nat,
                |i: int| i == 0,
            ),
            r is Err ==> (r->Err_0 == WheelError::Empty <==> count == 0),
    {
        match narrow(count) {
            Err(_) => Err(WheelError::TooMany),
            Ok(n) => {
                if n == 0 {
                    Err(WheelError::Empty)
                } else {
                    let wheel = Wheel { position: 0, count };
                    assert(wheel.lit() =~= Seq::new(count as nat, |i: int| i == 0));
                    Ok(wheel)
                }
            },
        }
    }

    /// Turns the wheel by one position: the light at the old position goes
    /// dark, the one at the new position is lit.
    pub fn advance(&mut self) -> (turn: Turn)
        requires
            old(self).wf(),
        ensures
            final(self).wf(),
            turn == old(self).turn(),
            *final(self) == old(self).turned(),
            final(self).follows(old(self)),
            final(self).lit().len() == old(self).lit().len(),
    {
        let count: u8 = narrow(self.count).unwrap();
        let curr: u8 = self.position;
        let next: u8 = (curr + 1) % count;
        let off: usize = widen(curr);
        let on: usize = widen(next);
        self.position = next;
        assert(self.lit() =~= old(self).lit().update(off as int, false).update(on as int, true));
        Turn { off, on }
    }

    /// The position of the wheel.
    #[verifier::when_used_as_spec(spec_position)]
    pub fn position(&self) -> (p: u8)
        ensures
            p == self.position(),
    {
        self.position
    }

    /// The number of positions.
    pub fn count(&self) -> (n: usize)
        ensures
            n == self.lit().len(),
    {
        self.count
    }

    /// Whether the light at `index` is lit; there is none beyond the wheel.
    pub fn is_lit(&self, index: usize) -> (b: bool)
        ensures
            b <==> index < self.lit().len() && self.lit()[index as int],
    {
        index < self.count && index == widen(self.position)
    }
}

/// One turn of a wheel gives a wheel: of as many lights, one position on,
/// with the light there lit and the old one dark.
pub proof fn lemma_turned(wheel: Wheel)
    requires
        wheel.wf(),
    ensures
        wheel.turned().wf(),
        wheel.turned().follows(&wheel),
        wheel.turned().lit().len() == wheel.lit().len(),
        wheel.turned().position() == next_position(
            wheel.position() as int,
            wheel.lit().len() as int,
        ),
{
    let after = wheel.turned();
    let off = wheel.turn().off as int;
    let on = wheel.turn().on as int;
    assert(after.lit() =~= wheel.lit().update(off, false).update(on, true));
}

/// A full round brings the wheel back: after as many turns as it has
/// positions, it is where it started.
pub proof fn law_full_round(position: int, count: int)
    requires
        0 <= position < count,
    ensures
        position_after(position, count, count as nat) == position,
{
    lemma_position_after(position, count, count as nat);
    assert((position + count) % count == position) by (nonlinear_arith)
        requires
            0 <= position < count,
    ;
}

/// Turning `turns` times adds `turns` to the position, modulo the count.
pub proof fn lemma_position_after(position: int, count: int, turns: nat)
    requires
        0 <= position < count,
    ensures
        position_after(position, count, turns) == (position + turns) % count,
    decreases turns,
{
    if turns == 0 {
        assert(position % count == position) by (nonlinear_arith)
            requires
                0 <= position < count,
        ;
    } else {
        let before = (turns - 1) as nat;
        lemma_position_after(position, count, before);
        let p = position + before;
        assert(((p % count) + 1) % count == (p + 1) % count) by (nonlinear_arith)
            requires
                0 < count,
                0 <= p,
        ;
    }
}

} // verus!
