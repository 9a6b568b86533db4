use vstd::prelude::*;

verus! {

/// Number of fields of a player's row in the player menu.
pub const PLAYER_MENU_FIELDS: usize = 3;

/// Which screen of the menu is shown.
#[derive(Clone, Copy, Debug, PartialEq, Eq, Structural)]
pub enum MenuState {
    Home,
    Help,
    Share,
    Player(PlayerMenu),
}

/// The cursor of the player menu: which player's row, which field of it, and
/// whether that field is being edited.
#[derive(Clone, Copy, Debug, PartialEq, Eq, Structural)]
pub struct PlayerMenu {
    pub player_index: usize,
    pub field_index: usize,
    pub selection_active: bool,
}

/// The menu shown over the arena between rounds.
pub struct Menu {
    pub state: MenuState,
}

impl Menu {
    /// A menu on its home screen.
    pub fn new() -> (r: Self)
        ensures
            r.state == MenuState::Home,
    {
        Menu { state: MenuState::Home }
    }

    /// Shows `screen`, or goes back home when it is already shown.
    pub fn toggle(&mut self, screen: MenuState)
        ensures
            final(self).state == if old(self).state == screen {
                MenuState::Home
            } else {
                screen
            },
    {
        if self.state == screen {
            self.state = MenuState::Home;
        } else {
            self.state = screen;
        }
    }
}

impl PlayerMenu {
    /// The cursor on the first field of the first player, not editing.
    pub fn new() -> (r: Self)
        ensures
            r.player_index == 0,
            r.field_index == 0,
            !r.selection_active,
    {
        PlayerMenu { player_index: 0, field_index: 0, selection_active: false }
    }

    /// Moves to the field on the left, from the first to the last.
    pub fn selection_left(&mut self)
        ensures
            final(self).field_index == if old(self).field_index == 0 {
                (PLAYER_MENU_FIELDS - 1) as usize
            } else {
                (old(self).field_index - 1) as usize
            },
            final(self).player_index == old(self).player_index,
            final(self).selection_active == old(self).selection_active,
    {
        if self.field_index == 0 {
            self.field_index = PLAYER_MENU_FIELDS - 1;
        } else {
            self.field_index = self.field_index - 1;
        }
    }

    /// Moves to the field on the right, from the last to the first.
    pub fn selection_right(&mut self)
        requires
            old(self).field_index < usize::MAX,
        ensures
            final(self).field_index == (old(self).field_index + 1) % (PLAYER_MENU_FIELDS as int),
            final(self).player_index == old(self).player_index,
            final(self).selection_active == old(self).selection_active,
    {
        self.field_index = (self.field_index + 1) % PLAYER_MENU_FIELDS;
    }

    /// Moves to the row of the previous player, from the first to the last
    /// of `num_players`.
    pub fn selection_up(&mut self, num_players: usize)
        requires
            num_players > 0,
        ensures
            final(self).player_index == if old(self).player_index == 0 {
                (num_players - 1) as usize
            } else {
                (old(self).player_index - 1) as usize
            },
            final(self).field_index == old(self).field_index,
            final(self).selection_active == old(self).selection_active,
    {
        if self.player_index == 0 {
            self.player_index = num_players - 1;
        } else {
            self.player_index = self.player_index - 1;
        }
    }

    /// Moves to the row of the next player, from the last of `num_players`
    /// to the first.
    pub fn selection_down(&mut self, num_players: usize)
        requires
            num_players > 0,
            old(self).player_index < usize::MAX,
        ensures
            final(self).player_index == (old(self).player_index + 1) % (num_players as int),
            final(self).field_index == old(self).field_index,
            final(self).selection_active == old(self).selection_active,
    {
        self.player_index = (self.player_index + 1) % num_players;
    }
}

} // verus!
