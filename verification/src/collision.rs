//! Collision detection between an actor and a set of obstacles.

use vstd::prelude::*;
use crate::objects::{MovingRect, Rect};

verus! {

/// What takes part in a contact.
#[derive(Clone, Copy, Debug, PartialEq, Eq, Structural)]
pub enum ContactID {
    Obstacle,
    Player,
}

/// A contact between two things.
#[derive(Clone, Copy, Debug)]
pub struct Contact(ContactID, ContactID);

impl Contact {
    /// The two parties.
    pub closed spec fn ids(&self) -> (ContactID, ContactID) {
        (self.0, self.1)
    }

    pub fn get_ids(&self) -> (ids: (ContactID, ContactID))
        ensures
            ids == self.ids(),
    {
        (self.0, self.1)
    }
}

/// The obstacles that the box `actor` overlaps, in their order. Boxes that
/// only touch overlap: see [`Rect::touches`].
pub open spec fn touched(actor: Rect, obstacles: Seq<Rect>) -> Seq<Rect> {
    obstacles.filter(|o: Rect| actor.touches(o))
}

/// Reports one contact, of the player with an obstacle, for each obstacle
/// that the player's box overlaps. An obstacle that occurs twice is reported
/// twice. Only the overlap is detected: how deep it is, and how to resolve
/// it, is left to the caller.
pub fn gather_contacts(player: &MovingRect, obstacles: &[Rect]) -> (contacts: Vec<Contact>)
    ensures
        contacts@.len() == touched(player.rect(), obstacles@).len(),
        forall|i: int|
            0 <= i < contacts@.len() ==> (#[trigger] contacts@[i]).ids() == (
                ContactID::Player,
                ContactID::Obstacle,
            ),
{
    let actor: Rect = player.as_rect();
    let mut contacts: Vec<Contact> = Vec::new();
    let mut i: usize = 0;
    proof {
        reveal(Seq::filter);
        assert(obstacles@.take(0) =~= Seq::<Rect>::empty());
    }
    while i < obstacles.len()
        invariant
            i <= obstacles.len(),
            actor == player.rect(),
            contacts@.len() == touched(actor, obstacles@.take(i as int)).len(),
            forall|j: int|
                0 <= j < contacts@.len() ==> (#[trigger] contacts@[j]).ids() == (
                    ContactID::Player,
                    ContactID::Obstacle,
                ),
        decreases obstacles.len() - i,
    {
        proof {
            reveal(Seq::filter);
            assert(obstacles@.take(i + 1).drop_last() =~= obstacles@.take(i as int));
            assert(obstacles@.take(i + 1).last() == obstacles@[i as int]);
        }
        if actor.overlaps(&obstacles[i]) {
            contacts.push(Contact(ContactID::Player, ContactID::Obstacle));
        }
        i = i + 1;
    }
    assert(obstacles@.take(i as int) =~= obstacles@);
    contacts
}

} // verus!
