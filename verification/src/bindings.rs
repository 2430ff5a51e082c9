//! Key-binding store: the mapping of each player's move-up and
//! move-down actions to physical keys, with swap-on-conflict
//! reassignment so that no key ever serves two actions, and the
//! rebinding flow driven from the settings menu.
//!
//! Physical keys are plain identifiers; the window layer translates
//! its own key type to and from these values.

use vstd::prelude::*;

verus! {

use crate::Player;

pub const KEY_W: u32 = 87;

pub const KEY_S: u32 = 83;

pub const KEY_UP: u32 = 38;

pub const KEY_DOWN: u32 = 40;

pub const KEY_ESCAPE: u32 = 27;

pub const KEY_RETURN: u32 = 13;

/// One player's bindings: the keys that move the paddle up and down.
#[derive(Clone, Copy, PartialEq, Eq, Structural, Debug)]
pub struct KeyBindings {
    pub move_up: u32,
    pub move_down: u32,
}

/// Both players' bindings, the persisted record.
#[derive(Clone, Copy, PartialEq, Eq, Structural, Debug)]
pub struct PlayerKeyBinds {
    pub player1: KeyBindings,
    pub player2: KeyBindings,
}

impl PlayerKeyBinds {
    /// The key bound to the (player, action) slot; `up` selects
    /// move-up over move-down.
    pub open spec fn slot_key(self, player: Player, up: bool) -> u32 {
        match player {
            Player::PlayerOne => if up {
                self.player1.move_up
            } else {
                self.player1.move_down
            },
            Player::PlayerTwo => if up {
                self.player2.move_up
            } else {
                self.player2.move_down
            },
        }
    }

    /// No physical key is bound to two logical actions.
    pub open spec fn no_duplicate(self) -> bool {
        forall|p1: Player, u1: bool, p2: Player, u2: bool|
            (p1 != p2 || u1 != u2) ==> self.slot_key(p1, u1) != self.slot_key(p2, u2)
    }

    /// The record with one slot overwritten and the rest unchanged.
    pub open spec fn with_slot(self, player: Player, up: bool, key: u32) -> PlayerKeyBinds {
        match player {
            Player::PlayerOne => if up {
                PlayerKeyBinds { player1: KeyBindings { move_up: key, ..self.player1 }, ..self }
            } else {
                PlayerKeyBinds { player1: KeyBindings { move_down: key, ..self.player1 }, ..self }
            },
            Player::PlayerTwo => if up {
                PlayerKeyBinds { player2: KeyBindings { move_up: key, ..self.player2 }, ..self }
            } else {
                PlayerKeyBinds { player2: KeyBindings { move_down: key, ..self.player2 }, ..self }
            },
        }
    }

    /// The outcome of `set`: the chosen slot takes `to`, and every
    /// other slot that held `to` takes the key the chosen slot gave up.
    pub open spec fn rebound(self, player: Player, up: bool, to: u32) -> PlayerKeyBinds {
        let vacated = self.slot_key(player, up);
        let swap = |p: Player, u: bool|
            if p == player && u == up {
                to
            } else if self.slot_key(p, u) == to {
                vacated
            } else {
                self.slot_key(p, u)
            };
        PlayerKeyBinds {
            player1: KeyBindings {
                move_up: swap(Player::PlayerOne, true),
                move_down: swap(Player::PlayerOne, false),
            },
            player2: KeyBindings {
                move_up: swap(Player::PlayerTwo, true),
                move_down: swap(Player::PlayerTwo, false),
            },
        }
    }

    /// Bind `to` to the (player, up) action. The key that slot held
    /// before moves into any other slot that was holding `to`, so a
    /// duplicate assignment swaps the two keys instead of leaving the
    /// same key on two actions. The caller persists the record
    /// afterwards.
    pub fn set(&mut self, player: Player, up: bool, to: u32)
        ensures
            *final(self) == old(self).rebound(player, up, to),
    {
        let old_key = self.get_slot(player, up);
        self.put_slot(player, up, to);
        if !(matches!(player, Player::PlayerOne) && up) {
            if self.player1.move_up == to {
                self.player1.move_up = old_key;
            }
        }
        if !(matches!(player, Player::PlayerOne) && !up) {
            if self.player1.move_down == to {
                self.player1.move_down = old_key;
            }
        }
        if !(matches!(player, Player::PlayerTwo) && up) {
            if self.player2.move_up == to {
                self.player2.move_up = old_key;
            }
        }
        if !(matches!(player, Player::PlayerTwo) && !up) {
            if self.player2.move_down == to {
                self.player2.move_down = old_key;
            }
        }
    }

    pub fn get(&self, player: Player) -> (r: KeyBindings)
        ensures
            r == match player {
                Player::PlayerOne => self.player1,
                Player::PlayerTwo => self.player2,
            },
    {
        match player {
            Player::PlayerOne => self.player1,
            Player::PlayerTwo => self.player2,
        }
    }

    fn get_slot(&self, player: Player, up: bool) -> (r: u32)
        ensures
            r == self.slot_key(player, up),
    {
        match player {
            Player::PlayerOne => if up {
                self.player1.move_up
            } else {
                self.player1.move_down
            },
            Player::PlayerTwo => if up {
                self.player2.move_up
            } else {
                self.player2.move_down
            },
        }
    }

    fn put_slot(&mut self, player: Player, up: bool, key: u32)
        ensures
            *final(self) == old(self).with_slot(player, up, key),
    {
        match player {
            Player::PlayerOne => if up {
                self.player1.move_up = key;
            } else {
                self.player1.move_down = key;
            },
            Player::PlayerTwo => if up {
                self.player2.move_up = key;
            } else {
                self.player2.move_down = key;
            },
        }
    }

    /// The bindings a fresh install starts from.
    pub open spec fn default_spec() -> PlayerKeyBinds {
        PlayerKeyBinds {
            player1: KeyBindings { move_up: KEY_W, move_down: KEY_S },
            player2: KeyBindings { move_up: KEY_UP, move_down: KEY_DOWN },
        }
    }

    /// The record read back from storage at startup, or the default
    /// set when nothing usable was stored.
    pub fn from_loaded(loaded: Option<PlayerKeyBinds>) -> (r: PlayerKeyBinds)
        ensures
            r == match loaded {
                Option::Some(b) => b,
                Option::None => PlayerKeyBinds::default_spec(),
            },
    {
        match loaded {
            Option::Some(b) => b,
            Option::None => PlayerKeyBinds::default(),
        }
    }
}

impl Default for PlayerKeyBinds {
    fn default() -> (r: PlayerKeyBinds)
        ensures
            r == PlayerKeyBinds::default_spec(),
    {
        PlayerKeyBinds {
            player1: KeyBindings { move_up: KEY_W, move_down: KEY_S },
            player2: KeyBindings { move_up: KEY_UP, move_down: KEY_DOWN },
        }
    }
}

/// Which binding slot the settings menu is waiting to fill, if any.
#[derive(Clone, Copy, PartialEq, Eq, Structural, Debug, Hash)]
pub enum SetBinding {
    Idle,
    P1Up,
    P1Down,
    P2Up,
    P2Down,
}

impl SetBinding {
    pub open spec fn slot_player(self) -> Player
        recommends
            self != SetBinding::Idle,
    {
        match self {
            SetBinding::P1Up | SetBinding::P1Down => Player::PlayerOne,
            _ => Player::PlayerTwo,
        }
    }

    pub open spec fn slot_up(self) -> bool
        recommends
            self != SetBinding::Idle,
    {
        match self {
            SetBinding::P1Up | SetBinding::P2Up => true,
            _ => false,
        }
    }
}

/// One keyboard event as the window layer reports it: the key, where
/// it carries one, and whether it went down rather than up.
#[derive(Clone, Copy, PartialEq, Eq, Structural, Debug)]
pub struct KeyEvent {
    pub key: Option<u32>,
    pub pressed: bool,
}

/// Keys that never become a binding: they drive the menus themselves.
pub open spec fn reserved_key(k: u32) -> bool {
    k == KEY_ESCAPE || k == KEY_RETURN
}

/// The key the rebinding flow picks out of a frame's keyboard events:
/// the last press of an unreserved key, if there was one.
pub open spec fn last_new_key(events: Seq<KeyEvent>) -> Option<u32>
    decreases events.len(),
{
    if events.len() == 0 {
        Option::None
    } else {
        let e = events.last();
        match e.key {
            Option::Some(k) => if e.pressed && !reserved_key(k) {
                Option::Some(k)
            } else {
                last_new_key(events.drop_last())
            },
            Option::None => last_new_key(events.drop_last()),
        }
    }
}

pub fn choose_new_key(events: &Vec<KeyEvent>) -> (r: Option<u32>)
    ensures
        r == last_new_key(events@),
{
    let mut new_key: Option<u32> = Option::None;
    let mut i: usize = 0;
    while i < events.len()
        invariant
            i <= events.len(),
            new_key == last_new_key(events@.subrange(0, i as int)),
        decreases events.len() - i,
    {
        let e = events[i];
        if e.pressed {
            if let Option::Some(k) = e.key {
                if k != KEY_ESCAPE && k != KEY_RETURN {
                    new_key = Option::Some(k);
                }
            }
        }
        proof {
            let pre = events@.subrange(0, i as int);
            let cur = events@.subrange(0, i + 1int);
            assert(cur.drop_last() =~= pre);
            assert(cur.last() == events@[i as int]);
        }
        i = i + 1;
    }
    proof {
        assert(events@.subrange(0, events@.len() as int) =~= events@);
    }
    new_key
}

/// One settings-menu frame while a slot is armed: pick the last
/// pressed unreserved key out of the frame's events and rebind the
/// armed slot with it. Returns the slot state to keep (disarmed once
/// a key was taken) and whether the record changed and must be
/// persisted.
pub fn set_key_binding(bindings: &mut PlayerKeyBinds, slot: SetBinding, events: &Vec<KeyEvent>)
    -> (r: (SetBinding, bool))
    requires
        slot != SetBinding::Idle,
    ensures
        match last_new_key(events@) {
            Option::Some(k) => *final(bindings) == old(bindings).rebound(
                slot.slot_player(),
                slot.slot_up(),
                k,
            ) && r == (SetBinding::Idle, true),
            Option::None => *final(bindings) == *old(bindings) && r == (slot, false),
        },
{
    match choose_new_key(events) {
        Option::Some(k) => {
            let (player, up) = match slot {
                SetBinding::Idle | SetBinding::P1Up => (Player::PlayerOne, true),
                SetBinding::P1Down => (Player::PlayerOne, false),
                SetBinding::P2Up => (Player::PlayerTwo, true),
                SetBinding::P2Down => (Player::PlayerTwo, false),
            };
            bindings.set(player, up, k);
            (SetBinding::Idle, true)
        },
        Option::None => (slot, false),
    }
}

/// Rebinding restores the no-duplicate invariant: after `set`, the
/// chosen slot holds the new key and no other slot does, and all four
/// slots still hold pairwise distinct keys.
pub proof fn lemma_rebound_no_duplicate(b: PlayerKeyBinds, player: Player, up: bool, to: u32)
    requires
        b.no_duplicate(),
    ensures
        b.rebound(player, up, to).no_duplicate(),
        b.rebound(player, up, to).slot_key(player, up) == to,
        forall|p: Player, u: bool|
            (p != player || u != up) ==> b.rebound(player, up, to).slot_key(p, u) != to,
{
    let r = b.rebound(player, up, to);
    assert forall|p1: Player, u1: bool, p2: Player, u2: bool|
        (p1 != p2 || u1 != u2) implies r.slot_key(p1, u1) != r.slot_key(p2, u2) by {
        assert(b.slot_key(p1, u1) != b.slot_key(p2, u2));
    }
}

} // verus!
