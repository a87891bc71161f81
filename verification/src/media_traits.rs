//! Media instance identifiers and the audio-focus registry: which player, in
//! page order, currently owns audio output.

use vstd::prelude::*;
use std::sync::mpsc::Sender;

verus! {

#[verifier::external_type_specification]
#[verifier::external_body]
#[verifier::reject_recursive_types(T)]
pub struct ExSender<T>(Sender<T>);

/// An ID for clients to track instances of players and audio contexts that
/// belong to the same tab and mute them together: a browsing-context ID,
/// whose second part is never zero.
#[derive(PartialEq, Eq, Hash, Debug, Clone, Copy)]
pub struct ClientContextId(u32, u32);

impl ClientContextId {
    #[verifier::type_invariant]
    spec fn well_formed(self) -> bool {
        self.1 != 0
    }

    /// The two parts of the ID.
    pub closed spec fn parts(self) -> (u32, u32) {
        (self.0, self.1)
    }

    /// The ID with parts `a` and `b`; `b` must not be zero.
    pub fn build(a: u32, b: u32) -> (r: ClientContextId)
        requires
            b != 0,
        ensures
            r.parts() == (a, b),
    {
        ClientContextId(a, b)
    }

    /// The namespace part of the ID.
    pub fn namespace(&self) -> (r: u32)
        ensures
            r == self.parts().0,
    {
        self.0
    }

    /// The index part of the ID, never zero.
    pub fn index(&self) -> (r: u32)
        ensures
            r == self.parts().1,
            r != 0,
    {
        proof {
            use_type_invariant(self);
        }
        self.1
    }
}

/// The error of a media instance operation.
#[derive(Debug)]
pub struct MediaInstanceError;

/// Common functionality of high-level media instances (audio contexts and players).
pub trait MediaInstance: Send {
    fn get_id(&self) -> usize;

    fn mute(&self, val: bool) -> Result<(), MediaInstanceError>;

    fn suspend(&self) -> Result<(), MediaInstanceError>;

    fn resume(&self) -> Result<(), MediaInstanceError>;
}

/// A message to the media backend.
pub enum BackendMsg {
    /// A media instance, identified by `id`, shut down.
    Shutdown { context: ClientContextId, id: usize, tx_ack: Sender<()> },
}

/// Player IDs are distinct in `s`.
pub open spec fn ids_distinct(s: Seq<i32>) -> bool {
    forall|i: int, j: int| 0 <= i < j < s.len() ==> s[i] != s[j]
}

/// The audio-focus state: the player that owns audio output, the players in
/// page order (the order they registered in) and the current page.
pub struct AudioFocus {
    focus: i32,
    registry: Vec<i32>,
    current_page: usize,
}

impl AudioFocus {
    #[verifier::type_invariant]
    spec fn well_formed(self) -> bool {
        &&& ids_distinct(self.registry@)
        &&& if self.registry@.len() == 0 {
            self.current_page == 0
        } else {
            self.current_page < self.registry@.len()
        }
    }

    /// The player that owns audio output (zero before any player registered).
    pub closed spec fn focus(&self) -> i32 {
        self.focus
    }

    /// The registered players in page order.
    pub closed spec fn players(&self) -> Seq<i32> {
        self.registry@
    }

    /// The current page: an index into `players()`.
    pub closed spec fn page(&self) -> nat {
        self.current_page as nat
    }

    /// The players are distinct and the page is a position among them
    /// (zero while there are none); every state the functions below leave
    /// is consistent.
    pub open spec fn consistent(&self) -> bool {
        &&& ids_distinct(self.players())
        &&& if self.players().len() == 0 {
            self.page() == 0
        } else {
            self.page() < self.players().len()
        }
    }

    /// The state before any player registered.
    pub fn new() -> (r: AudioFocus)
        ensures
            r.focus() == 0,
            r.players() == Seq::<i32>::empty(),
            r.page() == 0,
            r.consistent(),
    {
        AudioFocus { focus: 0, registry: Vec::new(), current_page: 0 }
    }

    /// The position of `player_id` among the registered players.
    fn position(&self, player_id: i32) -> (r: Option<usize>)
        ensures
            r matches Some(i) ==> i < self.players().len() && self.players()[i as int]
                == player_id,
            r is None ==> !self.players().contains(player_id),
    {
        let mut i: usize = 0;
        while i < self.registry.len()
            invariant
                i <= self.registry@.len(),
                forall|j: int| 0 <= j < i ==> self.registry@[j] != player_id,
            decreases self.registry@.len() - i,
        {
            if self.registry[i] == player_id {
                return Some(i);
            }
            i = i + 1;
        }
        None
    }
}

/// Registers a player at the end of the page order, unless it is already
/// registered. The first player registered gets audio focus.
pub fn register_player(state: &mut AudioFocus, player_id: i32)
    ensures
        final(state).consistent(),
        old(state).players().contains(player_id) ==> *final(state) == *old(state),
        !old(state).players().contains(player_id) ==> {
            &&& final(state).players() == old(state).players().push(player_id)
            &&& old(state).players().len() == 0 ==> final(state).focus() == player_id
                && final(state).page() == 0
            &&& old(state).players().len() > 0 ==> final(state).focus() == old(state).focus()
                && final(state).page() == old(state).page()
        },
{
    proof {
        use_type_invariant(&*state);
    }
    if state.position(player_id).is_some() {
        return;
    }
    let mut previous = AudioFocus::new();
    std::mem::swap(&mut previous, state);
    proof {
        use_type_invariant(&previous);
    }
    let AudioFocus { focus, mut registry, current_page } = previous;
    let is_first = registry.len() == 0;
    registry.push(player_id);
    if is_first {
        *state = AudioFocus { focus: player_id, registry, current_page: 0 };
    } else {
        *state = AudioFocus { focus, registry, current_page };
    }
}

/// The player that owns audio output.
pub fn audio_focus_player(state: &AudioFocus) -> (r: i32)
    ensures
        r == state.focus(),
{
    state.focus
}

/// Gives audio focus to `player_id`; when it is registered, its page becomes
/// the current page.
pub fn set_audio_focus(state: &mut AudioFocus, player_id: i32)
    ensures
        final(state).consistent(),
        final(state).focus() == player_id,
        final(state).players() == old(state).players(),
        old(state).players().contains(player_id) ==> final(state).players()[final(state).page() as int] == player_id,
        !old(state).players().contains(player_id) ==> final(state).page() == old(state).page(),
{
    proof {
        use_type_invariant(&*state);
    }
    let page = match state.position(player_id) {
        Some(i) => i,
        None => state.current_page,
    };
    let mut previous = AudioFocus::new();
    std::mem::swap(&mut previous, state);
    let AudioFocus { focus: _, registry, current_page: _ } = previous;
    *state = AudioFocus { focus: player_id, registry, current_page: page };
}

/// The page that cycling from page `cur` among `len` players by `delta`
/// reaches: the next page (at most the last) when `delta` is positive, else
/// the previous one (at least the first).
pub open spec fn cycled_page(cur: nat, len: nat, delta: i32) -> nat {
    if delta > 0 {
        if cur + 1 < len {
            cur + 1
        } else {
            (len - 1) as nat
        }
    } else {
        if cur > 0 {
            (cur - 1) as nat
        } else {
            0
        }
    }
}

/// Moves audio focus to the next (`delta > 0`) or previous player in page
/// order; nothing happens while no player is registered.
pub fn cycle_audio_focus(state: &mut AudioFocus, delta: i32)
    ensures
        final(state).consistent(),
        old(state).players().len() == 0 ==> *final(state) == *old(state),
        old(state).players().len() > 0 ==> {
            &&& final(state).page() == cycled_page(
                old(state).page(),
                old(state).players().len(),
                delta,
            )
            &&& final(state).focus() == old(state).players()[final(state).page() as int]
        },
        final(state).players() == old(state).players(),
{
    proof {
        use_type_invariant(&*state);
    }
    let len = state.registry.len();
    if len == 0 {
        return;
    }
    let cur = state.current_page;
    let new_idx = if delta > 0 {
        if cur + 1 < len {
            cur + 1
        } else {
            len - 1
        }
    } else {
        if cur > 0 {
            cur - 1
        } else {
            0
        }
    };
    let new_player = state.registry[new_idx];
    let mut previous = AudioFocus::new();
    std::mem::swap(&mut previous, state);
    let AudioFocus { focus: _, registry, current_page: _ } = previous;
    *state = AudioFocus { focus: new_player, registry, current_page: new_idx };
}

/// Cycling forward then back returns to the page and player one started
/// from, unless one started on the last page.
pub proof fn law_cycle_forward_then_back(cur: nat, len: nat, forward: i32, back: i32)
    requires
        cur + 1 < len,
        forward > 0,
        back <= 0,
    ensures
        cycled_page(cycled_page(cur, len, forward), len, back) == cur,
{
}

/// Cycling back then forward returns to the page one started from, unless
/// one started on the first page.
pub proof fn law_cycle_back_then_forward(cur: nat, len: nat, back: i32, forward: i32)
    requires
        0 < cur < len,
        back <= 0,
        forward > 0,
    ensures
        cycled_page(cycled_page(cur, len, back), len, forward) == cur,
{
}

/// Cycling never leaves the registered pages.
pub proof fn law_cycle_stays_in_range(cur: nat, len: nat, delta: i32)
    requires
        cur < len,
    ensures
        cycled_page(cur, len, delta) < len,
{
}

} // verus!
