//! Previews on the cards: which card plays, the frames that a preview is made of,
//! and the animation that shows them.

use crate::paths::{join_path, joined, law_extension_of_a_path};
use crate::text::{
    decimal, decimal3, decimal3_text, decimal_text, digits_value, law_decimal_is_plain,
    law_three_digits_at_least, texts,
};
use vstd::prelude::*;
use vstd::string::*;

verus! {

/// How many frames a preview has.
pub const PREVIEW_FRAMES: usize = 60;

/// The pace of a preview that starts as soon as its frames are there, in
/// milliseconds for each frame.
pub const FRESH_INTERVAL_MS: u32 = 50;

/// The pace of a preview whose frames were there already, in milliseconds for each
/// frame.
pub const CACHED_INTERVAL_MS: u32 = 41;

/// How often to look whether the frames are there, in milliseconds.
pub const POLL_INTERVAL_MS: u64 = 50;

/// How the cards are laid out.
#[derive(Debug, Clone, Copy, PartialEq, Eq, Structural)]
pub enum CardMode {
    Gallery,
    List,
}

/// The preview of one card: `T` is what holds the loaded frames, `S` what stands for
/// a running animation.
#[derive(Debug)]
pub struct VideoCardState<T, S> {
    pub is_playing: bool,
    pub preview_textures: Option<T>,
    pub preview_timeout: Option<S>,
    pub preview_generating: bool,
}

impl<T, S> VideoCardState<T, S> {
    /// A card without a preview.
    pub fn new() -> (c: Self)
        ensures
            c == idle_card::<T, S>(),
    {
        VideoCardState {
            is_playing: false,
            preview_textures: None,
            preview_timeout: None,
            preview_generating: false,
        }
    }
}

/// A card without a preview.
pub open spec fn idle_card<T, S>() -> VideoCardState<T, S> {
    VideoCardState {
        is_playing: false,
        preview_textures: None,
        preview_timeout: None,
        preview_generating: false,
    }
}

/// The card with its preview stopped, its frames kept or not.
pub open spec fn stopped_card<T, S>(c: VideoCardState<T, S>, keep: bool) -> VideoCardState<T, S> {
    VideoCardState {
        is_playing: false,
        preview_textures: if keep {
            c.preview_textures
        } else {
            None
        },
        preview_timeout: None,
        preview_generating: c.preview_generating,
    }
}

/// The card with its preview playing.
pub open spec fn playing_card<T, S>(c: VideoCardState<T, S>) -> VideoCardState<T, S> {
    VideoCardState { is_playing: true, ..c }
}

/// The cards after all previews but that of card `current` were stopped; only the
/// first `n` cards are concerned.
pub open spec fn others_stopped<T, S>(
    cards: Seq<VideoCardState<T, S>>,
    current: int,
    n: int,
) -> Seq<VideoCardState<T, S>> {
    cards.map(
        |i: int, c: VideoCardState<T, S>|
            if i < n && i != current && c.is_playing {
                stopped_card(c, false)
            } else {
                c
            },
    )
}

/// The animations that run on the first `n` cards, except on card `current`.
pub open spec fn other_animations<T, S>(
    cards: Seq<VideoCardState<T, S>>,
    current: int,
    n: nat,
) -> Seq<S>
    decreases n,
{
    if n == 0 {
        Seq::<S>::empty()
    } else {
        let rest = other_animations(cards, current, (n - 1) as nat);
        let c = cards[n - 1];
        match c.preview_timeout {
            Some(s) if n - 1 != current && c.is_playing => rest.push(s),
            _ => rest,
        }
    }
}

/// What comes next when a preview is asked for.
#[derive(Debug, Clone, Copy, PartialEq, Eq, Structural)]
pub enum Next {
    /// Nothing.
    Nothing,
    /// The frames are to be made, in the background.
    Generate,
    /// The frames are to be made and loaded, right now.
    Load,
    /// The animation is to be started.
    Animate,
}

/// What follows from the pointer or the focus coming to a card.
pub struct Entered<S> {
    /// The animations of other cards; they are to be removed.
    pub stopped: Vec<S>,
    /// What to do for the card itself.
    pub next: Next,
}

/// What follows from the frames of a card being there.
pub struct Started<S> {
    /// The animations of other cards; they are to be removed.
    pub stopped: Vec<S>,
    /// The animation of the card is to be started.
    pub animate: bool,
}

/// What follows from the pointer or the focus leaving a card.
pub struct Left<S> {
    /// The card played: its poster is to be shown again.
    pub restore_poster: bool,
    /// The animation of the card; it is to be removed.
    pub animation: Option<S>,
}

/// What comes next when the pointer comes to a card.
pub open spec fn hover_next<T, S>(c: VideoCardState<T, S>) -> Next {
    if c.is_playing {
        Next::Nothing
    } else if c.preview_textures is Some {
        if c.preview_timeout is None {
            Next::Animate
        } else {
            Next::Nothing
        }
    } else if c.preview_generating {
        Next::Nothing
    } else {
        Next::Generate
    }
}

/// The card after the pointer came to it.
pub open spec fn hovered_card<T, S>(c: VideoCardState<T, S>) -> VideoCardState<T, S> {
    if !c.is_playing && c.preview_textures is Some {
        playing_card(c)
    } else if hover_next(c) == Next::Generate {
        VideoCardState { preview_generating: true, ..c }
    } else {
        c
    }
}

/// What comes next when the focus comes to a card of the gallery.
pub open spec fn focus_next<T, S>(c: VideoCardState<T, S>) -> Next {
    if c.is_playing {
        Next::Nothing
    } else if c.preview_textures is None {
        Next::Load
    } else if c.preview_timeout is None {
        Next::Animate
    } else {
        Next::Nothing
    }
}

/// The card after the focus came to it.
pub open spec fn focused_card<T, S>(c: VideoCardState<T, S>) -> VideoCardState<T, S> {
    if !c.is_playing && c.preview_textures is Some {
        playing_card(c)
    } else {
        c
    }
}

/// The card after its frames were made, `None` when none came of it. Frames are kept for
/// the next time where they do not start the preview.
pub open spec fn ready_card<T, S>(
    c: VideoCardState<T, S>,
    frames: Option<T>,
    starts: bool,
) -> VideoCardState<T, S> {
    match frames {
        Some(t) => VideoCardState {
            is_playing: c.is_playing || starts,
            preview_textures: Some(t),
            preview_generating: false,
            ..c
        },
        None => VideoCardState { preview_generating: false, ..c },
    }
}

/// The cards of a window, and the card under the pointer.
pub struct CardRegistry<T, S> {
    cards: Vec<VideoCardState<T, S>>,
    pointer: Option<usize>,
}

/// What is known of the cards of a window.
pub struct RegistryView<T, S> {
    pub cards: Seq<VideoCardState<T, S>>,
    /// The card under the pointer.
    pub pointer: Option<usize>,
}

impl<T, S> View for CardRegistry<T, S> {
    type V = RegistryView<T, S>;

    closed spec fn view(&self) -> RegistryView<T, S> {
        RegistryView { cards: self.cards@, pointer: self.pointer }
    }
}

/// An animation runs only on a card that plays.
pub open spec fn consistent<T, S>(c: VideoCardState<T, S>) -> bool {
    c.preview_timeout is Some ==> c.is_playing
}

/// No card but `card` plays.
pub open spec fn no_other_plays<T, S>(cards: Seq<VideoCardState<T, S>>, card: int) -> bool {
    forall|i: int| 0 <= i < cards.len() && i != card ==> !(#[trigger] cards[i]).is_playing
}

/// At most one card plays.
pub open spec fn at_most_one_plays<T, S>(cards: Seq<VideoCardState<T, S>>) -> bool {
    forall|i: int|
        0 <= i < cards.len() && (#[trigger] cards[i]).is_playing ==> no_other_plays(cards, i)
}

/// The cards after the pointer came to one of them.
pub open spec fn hovered<T, S>(v: RegistryView<T, S>, card: usize) -> RegistryView<T, S> {
    let c = card as int;
    RegistryView {
        cards: others_stopped(v.cards, c, v.cards.len() as int).update(
            c,
            hovered_card(v.cards[c]),
        ),
        pointer: Some(card),
    }
}

/// The cards after the focus came to one of the gallery.
pub open spec fn focused<T, S>(v: RegistryView<T, S>, card: usize) -> RegistryView<T, S> {
    let c = card as int;
    RegistryView {
        cards: others_stopped(v.cards, c, v.cards.len() as int).update(
            c,
            focused_card(v.cards[c]),
        ),
        pointer: v.pointer,
    }
}

/// The preview of a card starts now that its frames are there: in the list in any case, in
/// the gallery when the pointer is still on the card.
pub open spec fn starts_when_ready<T, S>(
    v: RegistryView<T, S>,
    mode: CardMode,
    card: usize,
    frames: Option<T>,
) -> bool {
    frames is Some && (mode == CardMode::List || v.pointer == Some(card))
}

/// The previews of all other cards are stopped before the preview of a card starts with its
/// frames; only the gallery does that.
pub open spec fn stops_when_ready<T, S>(
    v: RegistryView<T, S>,
    mode: CardMode,
    card: usize,
    frames: Option<T>,
) -> bool {
    mode == CardMode::Gallery && starts_when_ready(v, mode, card, frames)
}

/// The cards after the frames of one of them were made, `None` when none came of it.
pub open spec fn ready<T, S>(
    v: RegistryView<T, S>,
    mode: CardMode,
    card: usize,
    frames: Option<T>,
) -> RegistryView<T, S> {
    let c = card as int;
    let starts = starts_when_ready(v, mode, card, frames);
    let cards = if stops_when_ready(v, mode, card, frames) {
        others_stopped(v.cards, c, v.cards.len() as int)
    } else {
        v.cards
    };
    RegistryView {
        cards: cards.update(c, ready_card(v.cards[c], frames, starts)),
        pointer: v.pointer,
    }
}

/// The cards after the frames that the focus asked for were loaded, `None` when there are
/// none.
pub open spec fn loaded<T, S>(
    v: RegistryView<T, S>,
    card: usize,
    frames: Option<T>,
) -> RegistryView<T, S> {
    let c = card as int;
    if frames is Some {
        RegistryView {
            cards: others_stopped(v.cards, c, v.cards.len() as int).update(
                c,
                VideoCardState { is_playing: true, preview_textures: frames, ..v.cards[c] },
            ),
            pointer: v.pointer,
        }
    } else {
        v
    }
}

/// The cards after the preview of one of them was stopped, its frames kept or not.
pub open spec fn with_stopped<T, S>(
    cards: Seq<VideoCardState<T, S>>,
    card: int,
    keep: bool,
) -> Seq<VideoCardState<T, S>> {
    if cards[card].is_playing {
        cards.update(card, stopped_card(cards[card], keep))
    } else {
        cards
    }
}

/// The card under the pointer when the pointer is no longer on `card`.
pub open spec fn pointer_without(pointer: Option<usize>, card: usize) -> Option<usize> {
    if pointer == Some(card) {
        None
    } else {
        pointer
    }
}

/// The cards after the pointer left one of them.
pub open spec fn unhovered<T, S>(
    v: RegistryView<T, S>,
    mode: CardMode,
    card: usize,
) -> RegistryView<T, S> {
    RegistryView {
        cards: with_stopped(v.cards, card as int, mode == CardMode::Gallery),
        pointer: pointer_without(v.pointer, card),
    }
}

/// The cards after the focus left one of them.
pub open spec fn unfocused<T, S>(v: RegistryView<T, S>, card: usize) -> RegistryView<T, S> {
    RegistryView { cards: with_stopped(v.cards, card as int, false), pointer: v.pointer }
}

/// The cards after one of them went away.
pub open spec fn cleaned<T, S>(v: RegistryView<T, S>, card: usize) -> RegistryView<T, S> {
    let c = card as int;
    RegistryView {
        cards: v.cards.update(c, stopped_card(v.cards[c], false)),
        pointer: pointer_without(v.pointer, card),
    }
}

impl<T, S> CardRegistry<T, S> {
    #[verifier::type_invariant]
    spec fn well_formed(&self) -> bool {
        forall|i: int| 0 <= i < self.cards@.len() ==> consistent(#[trigger] self.cards@[i])
    }

    /// A window without cards.
    pub fn new() -> (r: Self)
        ensures
            r@ == (RegistryView { cards: Seq::<VideoCardState<T, S>>::empty(), pointer: None }),
    {
        CardRegistry { cards: Vec::new(), pointer: None }
    }

    /// The number of cards.
    pub fn len(&self) -> (n: usize)
        ensures
            n == self@.cards.len(),
    {
        self.cards.len()
    }

    /// The preview of a card.
    pub fn card(&self, card: usize) -> (c: &VideoCardState<T, S>)
        requires
            card < self@.cards.len(),
        ensures
            *c == self@.cards[card as int],
            consistent(*c),
    {
        proof {
            use_type_invariant(self);
        }
        &self.cards[card]
    }

    /// Adds a card without a preview. Returns its index.
    pub fn register_card(&mut self) -> (card: usize)
        ensures
            card == old(self)@.cards.len(),
            final(self)@ == (RegistryView {
                cards: old(self)@.cards.push(idle_card::<T, S>()),
                pointer: old(self)@.pointer,
            }),
    {
        proof {
            use_type_invariant(&*self);
        }
        let card: usize = self.cards.len();
        let mut cards: Vec<VideoCardState<T, S>> = Vec::new();
        std::mem::swap(&mut cards, &mut self.cards);
        cards.push(VideoCardState::new());
        self.cards = cards;
        card
    }

    fn replace(&mut self, card: usize, c: VideoCardState<T, S>) -> (before: VideoCardState<T, S>)
        requires
            card < old(self)@.cards.len(),
            consistent(c),
        ensures
            before == old(self)@.cards[card as int],
            consistent(before),
            final(self)@ == (RegistryView {
                cards: old(self)@.cards.update(card as int, c),
                pointer: old(self)@.pointer,
            }),
    {
        proof {
            use_type_invariant(&*self);
        }
        let mut c = c;
        let mut cards: Vec<VideoCardState<T, S>> = Vec::new();
        std::mem::swap(&mut cards, &mut self.cards);
        cards.set_and_swap(card, &mut c);
        self.cards = cards;
        c
    }

    /// Stops the previews of all cards but one. Returns their animations, which are
    /// to be removed.
    pub fn stop_other_previews(&mut self, current: usize) -> (stopped: Vec<S>)
        ensures
            final(self)@ == (RegistryView {
                cards: others_stopped(
                    old(self)@.cards,
                    current as int,
                    old(self)@.cards.len() as int,
                ),
                pointer: old(self)@.pointer,
            }),
            stopped@ == other_animations(
                old(self)@.cards,
                current as int,
                old(self)@.cards.len(),
            ),
    {
        let mut stopped: Vec<S> = Vec::new();
        let ghost before = self.cards@;
        let n: usize = self.cards.len();
        assert(self.cards@ =~= others_stopped(before, current as int, 0));
        for i in 0..n
            invariant
                n == before.len(),
                self.cards@ == others_stopped(before, current as int, i as int),
                self.pointer == old(self).pointer,
                stopped@ == other_animations(before, current as int, i as nat),
        {
            assert(self.cards@[i as int] == before[i as int]);
            assert((i + 1 - 1) as nat == i as nat);
            if i != current && self.cards[i].is_playing {
                let c = self.replace(i, VideoCardState::new());
                let idle = VideoCardState {
                    is_playing: false,
                    preview_textures: None,
                    preview_timeout: None,
                    preview_generating: c.preview_generating,
                };
                if let Some(s) = c.preview_timeout {
                    stopped.push(s);
                }
                let _ = self.replace(i, idle);
            }
            assert(self.cards@ =~= others_stopped(before, current as int, i + 1));
        }
        stopped
    }

    /// The pointer comes to a card: all other previews are stopped, and the card's
    /// own preview starts when its frames are there; otherwise they are asked for,
    /// unless that was done already.
    pub fn hover_enter(&mut self, card: usize) -> (e: Entered<S>)
        requires
            card < old(self)@.cards.len(),
        ensures
            e.stopped@ == other_animations(
                old(self)@.cards,
                card as int,
                old(self)@.cards.len(),
            ),
            e.next == hover_next(old(self)@.cards[card as int]),
            final(self)@ == hovered(old(self)@, card),
    {
        let ghost before = self@;
        let stopped = self.stop_other_previews(card);
        assert(self@.cards[card as int] == before.cards[card as int]);
        let c = &self.cards[card];
        let mut next = Next::Nothing;
        if !c.is_playing {
            if c.preview_textures.is_some() {
                if c.preview_timeout.is_none() {
                    next = Next::Animate;
                }
                self.set_playing(card);
            } else if !c.preview_generating {
                next = Next::Generate;
                self.set_generating(card);
            }
        }
        self.set_pointer(Some(card));
        assert(self@.cards =~= hovered(before, card).cards);
        Entered { stopped, next }
    }

    fn set_pointer(&mut self, pointer: Option<usize>)
        ensures
            final(self)@ == (RegistryView { cards: old(self)@.cards, pointer }),
    {
        proof {
            use_type_invariant(&*self);
        }
        self.pointer = pointer;
    }

    fn set_playing(&mut self, card: usize)
        requires
            card < old(self)@.cards.len(),
        ensures
            final(self)@ == (RegistryView {
                cards: old(self)@.cards.update(
                    card as int,
                    playing_card(old(self)@.cards[card as int]),
                ),
                pointer: old(self)@.pointer,
            }),
    {
        let ghost before = self@.cards;
        let c = self.take(card);
        self.put(card, VideoCardState { is_playing: true, ..c });
        assert(self@.cards =~= before.update(card as int, playing_card(before[card as int])));
    }

    fn set_generating(&mut self, card: usize)
        requires
            card < old(self)@.cards.len(),
        ensures
            final(self)@ == (RegistryView {
                cards: old(self)@.cards.update(
                    card as int,
                    VideoCardState { preview_generating: true, ..old(self)@.cards[card as int] },
                ),
                pointer: old(self)@.pointer,
            }),
    {
        let c = self.take(card);
        self.put(card, VideoCardState { preview_generating: true, ..c });
        assert(self@.cards =~= old(self)@.cards.update(
            card as int,
            VideoCardState { preview_generating: true, ..old(self)@.cards[card as int] },
        ));
    }

    // Takes the state of a card, which is idle until another state is put.
    fn take(&mut self, card: usize) -> (c: VideoCardState<T, S>)
        requires
            card < old(self)@.cards.len(),
        ensures
            c == old(self)@.cards[card as int],
            consistent(c),
            final(self)@ == (RegistryView {
                cards: old(self)@.cards.update(card as int, idle_card::<T, S>()),
                pointer: old(self)@.pointer,
            }),
    {
        self.replace(card, VideoCardState::new())
    }

    fn put(&mut self, card: usize, c: VideoCardState<T, S>)
        requires
            card < old(self)@.cards.len(),
            consistent(c),
        ensures
            final(self)@ == (RegistryView {
                cards: old(self)@.cards.update(card as int, c),
                pointer: old(self)@.pointer,
            }),
    {
        let _ = self.replace(card, c);
    }

    /// The frames that were asked for are there, `None` when none came of it. In the
    /// gallery the preview starts when the pointer is still on the card, and then all
    /// others are stopped; otherwise the frames are kept. In the list it starts even when
    /// the pointer has left, and stops no other. An animation is to be started in the
    /// gallery only for a card that does not play yet.
    pub fn frames_ready(&mut self, mode: CardMode, card: usize, frames: Option<T>) -> (s: Started<S>)
        requires
            card < old(self)@.cards.len(),
        ensures
            s.animate == (starts_when_ready(old(self)@, mode, card, frames) && old(
                self,
            )@.cards[card as int].preview_timeout is None && (mode == CardMode::List || !old(
                self,
            )@.cards[card as int].is_playing)),
            s.stopped@ == if stops_when_ready(old(self)@, mode, card, frames) {
                other_animations(old(self)@.cards, card as int, old(self)@.cards.len())
            } else {
                Seq::<S>::empty()
            },
            final(self)@ == ready(old(self)@, mode, card, frames),
    {
        let ghost before = self@;
        let ghost made = frames;
        let pointed_at = match self.pointer {
            Some(p) => p == card,
            None => false,
        };
        let starts = frames.is_some() && (mode == CardMode::List || pointed_at);
        let stopped: Vec<S> = if starts && mode == CardMode::Gallery {
            self.stop_other_previews(card)
        } else {
            Vec::new()
        };
        assert(self@.cards[card as int] == before.cards[card as int]);
        let c = self.take(card);
        let animate = starts && c.preview_timeout.is_none() && (mode == CardMode::List
            || !c.is_playing);
        let after = match frames {
            Some(t) => VideoCardState {
                is_playing: c.is_playing || starts,
                preview_textures: Some(t),
                preview_generating: false,
                preview_timeout: c.preview_timeout,
            },
            None => VideoCardState { preview_generating: false, ..c },
        };
        self.put(card, after);
        assert(self@.cards =~= ready(before, mode, card, made).cards);
        Started { stopped, animate }
    }

    /// The focus comes to a card. In the gallery that is as good as the pointer,
    /// but frames are loaded right away. In the list it starts nothing, so that a
    /// change of the layout does not start several previews.
    pub fn focus_enter(&mut self, mode: CardMode, card: usize) -> (e: Entered<S>)
        requires
            card < old(self)@.cards.len(),
        ensures
            mode == CardMode::List ==> {
                &&& e.stopped@.len() == 0
                &&& e.next == Next::Nothing
                &&& final(self)@ == old(self)@
            },
            mode == CardMode::Gallery ==> {
                &&& e.stopped@ == other_animations(
                    old(self)@.cards,
                    card as int,
                    old(self)@.cards.len(),
                )
                &&& e.next == focus_next(old(self)@.cards[card as int])
                &&& final(self)@ == focused(old(self)@, card)
            },
    {
        if mode == CardMode::List {
            return Entered { stopped: Vec::new(), next: Next::Nothing };
        }
        let ghost before = self@;
        let stopped = self.stop_other_previews(card);
        assert(self@.cards[card as int] == before.cards[card as int]);
        let c = &self.cards[card];
        let mut next = Next::Nothing;
        if !c.is_playing {
            if c.preview_textures.is_none() {
                next = Next::Load;
            } else {
                if c.preview_timeout.is_none() {
                    next = Next::Animate;
                }
                self.set_playing(card);
            }
        }
        assert(self@.cards =~= focused(before, card).cards);
        Entered { stopped, next }
    }

    /// The frames that the focus asked for are loaded, `None` when there are none. The
    /// preview starts, and all others are stopped.
    pub fn focus_loaded(&mut self, card: usize, frames: Option<T>) -> (s: Started<S>)
        requires
            card < old(self)@.cards.len(),
            old(self)@.cards[card as int].preview_textures is None,
        ensures
            s.animate == (frames is Some && old(self)@.cards[card as int].preview_timeout is None),
            s.stopped@ == if frames is Some {
                other_animations(old(self)@.cards, card as int, old(self)@.cards.len())
            } else {
                Seq::<S>::empty()
            },
            final(self)@ == loaded(old(self)@, card, frames),
    {
        if frames.is_none() {
            return Started { stopped: Vec::new(), animate: false };
        }
        let ghost before = self@;
        let stopped = self.stop_other_previews(card);
        assert(self@.cards[card as int] == before.cards[card as int]);
        let c = self.take(card);
        let animate = c.preview_timeout.is_none();
        self.put(
            card,
            VideoCardState {
                is_playing: true,
                preview_textures: frames,
                preview_timeout: c.preview_timeout,
                preview_generating: c.preview_generating,
            },
        );
        assert(self@.cards =~= loaded(before, card, frames).cards);
        Started { stopped, animate }
    }

    /// Keeps the animation that was started for a card, `None` when there was
    /// nothing to animate.
    pub fn animation_started(&mut self, card: usize, animation: Option<S>)
        requires
            card < old(self)@.cards.len(),
            old(self)@.cards[card as int].preview_timeout is None,
            old(self)@.cards[card as int].is_playing,
        ensures
            final(self)@ == (RegistryView {
                cards: old(self)@.cards.update(
                    card as int,
                    VideoCardState { preview_timeout: animation, ..old(self)@.cards[card as int] },
                ),
                pointer: old(self)@.pointer,
            }),
    {
        let ghost before = self@.cards;
        let c = self.take(card);
        self.put(
            card,
            VideoCardState {
                is_playing: c.is_playing,
                preview_textures: c.preview_textures,
                preview_timeout: animation,
                preview_generating: c.preview_generating,
            },
        );
        assert(self@.cards =~= before.update(
            card as int,
            VideoCardState { preview_timeout: animation, ..before[card as int] },
        ));
    }

    fn leave(&mut self, card: usize, keep: bool) -> (l: Left<S>)
        requires
            card < old(self)@.cards.len(),
        ensures
            l.restore_poster == old(self)@.cards[card as int].is_playing,
            l.animation == old(self)@.cards[card as int].preview_timeout,
            final(self)@ == (RegistryView {
                cards: with_stopped(old(self)@.cards, card as int, keep),
                pointer: old(self)@.pointer,
            }),
    {
        proof {
            use_type_invariant(&*self);
        }
        if !self.cards[card].is_playing {
            assert(consistent(self.cards@[card as int]));
            return Left { restore_poster: false, animation: None };
        }
        let ghost before = self@.cards;
        let c = self.take(card);
        let stopped = VideoCardState {
            is_playing: false,
            preview_textures: if keep {
                c.preview_textures
            } else {
                None
            },
            preview_timeout: None,
            preview_generating: c.preview_generating,
        };
        self.put(card, stopped);
        assert(self@.cards =~= with_stopped(before, card as int, keep));
        Left { restore_poster: true, animation: c.preview_timeout }
    }

    /// The pointer leaves a card: a preview that plays is stopped. In the gallery
    /// the frames are kept, in the list they are given up.
    pub fn hover_leave(&mut self, mode: CardMode, card: usize) -> (l: Left<S>)
        requires
            card < old(self)@.cards.len(),
        ensures
            l.restore_poster == old(self)@.cards[card as int].is_playing,
            l.animation == old(self)@.cards[card as int].preview_timeout,
            final(self)@ == unhovered(old(self)@, mode, card),
    {
        let left = self.leave(card, mode == CardMode::Gallery);
        self.pointer_leaves(card);
        left
    }

    fn pointer_leaves(&mut self, card: usize)
        ensures
            final(self)@ == (RegistryView {
                cards: old(self)@.cards,
                pointer: pointer_without(old(self)@.pointer, card),
            }),
    {
        if let Some(p) = self.pointer {
            if p == card {
                self.set_pointer(None);
            }
        }
    }

    /// The focus leaves a card: a preview that plays is stopped and its frames are
    /// given up.
    pub fn focus_leave(&mut self, card: usize) -> (l: Left<S>)
        requires
            card < old(self)@.cards.len(),
        ensures
            l.restore_poster == old(self)@.cards[card as int].is_playing,
            l.animation == old(self)@.cards[card as int].preview_timeout,
            final(self)@ == unfocused(old(self)@, card),
    {
        self.leave(card, false)
    }

    /// The card goes away: whatever it plays is stopped. Returns its animation,
    /// which is to be removed.
    pub fn cleanup(&mut self, card: usize) -> (animation: Option<S>)
        requires
            card < old(self)@.cards.len(),
        ensures
            animation == old(self)@.cards[card as int].preview_timeout,
            final(self)@ == cleaned(old(self)@, card),
    {
        let ghost before = self@.cards;
        let c = self.take(card);
        self.put(
            card,
            VideoCardState {
                is_playing: false,
                preview_textures: None,
                preview_timeout: None,
                preview_generating: c.preview_generating,
            },
        );
        assert(self@.cards =~= before.update(card as int, stopped_card(before[card as int], false)));
        self.pointer_leaves(card);
        c.preview_timeout
    }
}

proof fn lemma_one_plays_after_update<T, S>(
    cards: Seq<VideoCardState<T, S>>,
    card: int,
    c: VideoCardState<T, S>,
)
    requires
        0 <= card < cards.len(),
        at_most_one_plays(cards),
        c.is_playing ==> no_other_plays(cards, card),
    ensures
        at_most_one_plays(cards.update(card, c)),
{
    let after = cards.update(card, c);
    assert forall|i: int|
        0 <= i < after.len() && (#[trigger] after[i]).is_playing implies no_other_plays(after, i) by {
        assert forall|j: int| 0 <= j < after.len() && j != i implies !(
        #[trigger] after[j]).is_playing by {
            if i == card {
                assert(after[j] == cards[j]);
            } else {
                assert(cards[i].is_playing);
                assert(no_other_plays(cards, i));
                if j != card {
                    assert(after[j] == cards[j]);
                } else if c.is_playing {
                    assert(!cards[i].is_playing);
                }
            }
        }
    }
}

proof fn lemma_others_stopped<T, S>(cards: Seq<VideoCardState<T, S>>, card: int)
    ensures
        no_other_plays(others_stopped(cards, card, cards.len() as int), card),
        at_most_one_plays(others_stopped(cards, card, cards.len() as int)),
{
    let after = others_stopped(cards, card, cards.len() as int);
    assert forall|i: int|
        0 <= i < after.len() && (#[trigger] after[i]).is_playing implies no_other_plays(after, i) by {
        assert(i == card);
    }
}

/// In the gallery never do two cards play at once: whatever happens to a card, at most one
/// plays afterwards when at most one did before. When the pointer, or in the gallery the
/// focus, has come to a card, no other card plays at all. In the list the same holds, except
/// when frames come for a card while another one plays.
pub proof fn law_one_preview_at_a_time<T, S>(
    v: RegistryView<T, S>,
    mode: CardMode,
    card: usize,
    frames: Option<T>,
)
    requires
        card < v.cards.len(),
        at_most_one_plays(v.cards),
    ensures
        no_other_plays(hovered(v, card).cards, card as int),
        no_other_plays(focused(v, card).cards, card as int),
        at_most_one_plays(hovered(v, card).cards),
        at_most_one_plays(focused(v, card).cards),
        mode == CardMode::Gallery || no_other_plays(v.cards, card as int) ==> at_most_one_plays(
            ready(v, mode, card, frames).cards,
        ),
        at_most_one_plays(loaded(v, card, frames).cards),
        at_most_one_plays(unhovered(v, mode, card).cards),
        at_most_one_plays(unfocused(v, card).cards),
        at_most_one_plays(cleaned(v, card).cards),
{
    let c = card as int;
    let alone = others_stopped(v.cards, c, v.cards.len() as int);
    let stopped = stopped_card(v.cards[c], false);
    let kept = stopped_card(v.cards[c], true);
    lemma_others_stopped(v.cards, c);
    lemma_one_plays_after_update(alone, c, hovered_card(v.cards[c]));
    lemma_one_plays_after_update(alone, c, focused_card(v.cards[c]));
    lemma_one_plays_after_update(v.cards, c, stopped);
    lemma_one_plays_after_update(v.cards, c, kept);
    if stops_when_ready(v, mode, card, frames) {
        lemma_one_plays_after_update(alone, c, ready_card(v.cards[c], frames, true));
    } else if mode == CardMode::Gallery || no_other_plays(v.cards, c) {
        let starts = starts_when_ready(v, mode, card, frames);
        lemma_one_plays_after_update(v.cards, c, ready_card(v.cards[c], frames, starts));
    }
    if frames is Some {
        lemma_one_plays_after_update(
            alone,
            c,
            VideoCardState { is_playing: true, preview_textures: frames, ..v.cards[c] },
        );
    }
}

/// A card of the gallery that the pointer has left does not start to play when its frames
/// come: they are kept, and the preview starts from them when the pointer comes back.
pub proof fn law_left_card_stays_still<T, S>(v: RegistryView<T, S>, card: usize, frames: T)
    requires
        card < v.cards.len(),
        v.pointer != Some(card),
        !v.cards[card as int].is_playing,
        v.cards[card as int].preview_timeout is None,
    ensures
        ({
            let after = ready(v, CardMode::Gallery, card, Some(frames)).cards[card as int];
            &&& !after.is_playing
            &&& after.preview_textures == Some(frames)
            &&& hover_next(after) == Next::Animate
        }),
        forall|i: int|
            0 <= i < v.cards.len() && i != card ==> ready(v, CardMode::Gallery, card, Some(frames)).cards[i]
                == #[trigger] v.cards[i],
{
}

/// Stopping the other previews loses no animation: the animation of every other card
/// that plays is handed out, and none of them keeps one.
pub proof fn law_no_animation_is_lost<T, S>(
    cards: Seq<VideoCardState<T, S>>,
    card: int,
    n: nat,
    i: int,
)
    requires
        n <= cards.len(),
        0 <= i < n,
        i != card,
        cards[i].is_playing,
    ensures
        cards[i].preview_timeout matches Some(s) ==> other_animations(cards, card, n).contains(s),
        others_stopped(cards, card, n as int)[i].preview_timeout is None,
    decreases n,
{
    let rest = other_animations(cards, card, (n - 1) as nat);
    let all = other_animations(cards, card, n);
    if i < n - 1 {
        law_no_animation_is_lost(cards, card, (n - 1) as nat, i);
        if let Some(s) = cards[i].preview_timeout {
            let k = choose|k: int| 0 <= k < rest.len() && rest[k] == s;
            assert(all[k] == s);
        }
    } else {
        if let Some(s) = cards[i].preview_timeout {
            assert(all[all.len() - 1] == s);
        }
    }
}

/// In the gallery a preview that was left starts again from the frames that it has:
/// they are not made a second time.
pub proof fn law_gallery_keeps_frames<T, S>(c: VideoCardState<T, S>)
    requires
        c.is_playing,
        c.preview_textures is Some,
    ensures
        hover_next(stopped_card(c, true)) == Next::Animate,
        hovered_card(stopped_card(c, true)).preview_textures == c.preview_textures,
{
}

/// The preview of a card was stopped and its frames were given up; whether frames are being
/// made for it has not changed.
pub open spec fn is_given_up<T, S>(
    before: VideoCardState<T, S>,
    after: VideoCardState<T, S>,
) -> bool {
    &&& !after.is_playing
    &&& after.preview_textures is None
    &&& after.preview_timeout is None
    &&& after.preview_generating == before.preview_generating
}

/// Of two cards nothing differs but that the second one plays.
pub open spec fn only_plays<T, S>(
    before: VideoCardState<T, S>,
    after: VideoCardState<T, S>,
) -> bool {
    &&& after.is_playing
    &&& after.preview_textures == before.preview_textures
    &&& after.preview_timeout == before.preview_timeout
    &&& after.preview_generating == before.preview_generating
}

/// When the pointer, or in the gallery the focus, comes to a card, every other card that plays
/// is given up, and every other one that does not is left alone. So it is when the frames of a
/// card start its preview in the gallery, or were loaded for the focus; and nothing happens to
/// other cards otherwise.
pub proof fn law_other_cards_are_given_up<T, S>(
    v: RegistryView<T, S>,
    mode: CardMode,
    card: usize,
    frames: Option<T>,
    i: int,
)
    requires
        card < v.cards.len(),
        0 <= i < v.cards.len(),
        i != card,
    ensures
        v.cards[i].is_playing ==> {
            &&& is_given_up(v.cards[i], hovered(v, card).cards[i])
            &&& is_given_up(v.cards[i], focused(v, card).cards[i])
            &&& frames is Some && mode == CardMode::Gallery && v.pointer == Some(card)
                ==> is_given_up(v.cards[i], ready(v, mode, card, frames).cards[i])
            &&& frames is Some ==> is_given_up(v.cards[i], loaded(v, card, frames).cards[i])
        },
        !v.cards[i].is_playing ==> {
            &&& hovered(v, card).cards[i] == v.cards[i]
            &&& focused(v, card).cards[i] == v.cards[i]
            &&& ready(v, mode, card, frames).cards[i] == v.cards[i]
            &&& loaded(v, card, frames).cards[i] == v.cards[i]
        },
        frames is None || mode == CardMode::List || v.pointer != Some(card) ==> ready(
            v,
            mode,
            card,
            frames,
        ).cards[i] == v.cards[i],
        frames is None ==> loaded(v, card, frames).cards[i] == v.cards[i],
        unhovered(v, mode, card).cards[i] == v.cards[i],
        unfocused(v, card).cards[i] == v.cards[i],
        cleaned(v, card).cards[i] == v.cards[i],
{
}

/// Stopping the other previews gives up every other card that plays, and touches neither the
/// card itself nor one that does not play.
pub proof fn law_only_playing_cards_are_stopped<T, S>(
    cards: Seq<VideoCardState<T, S>>,
    card: int,
    i: int,
)
    requires
        0 <= i < cards.len(),
    ensures
        ({
            let after = others_stopped(cards, card, cards.len() as int);
            &&& after.len() == cards.len()
            &&& cards[i].is_playing && i != card ==> is_given_up(cards[i], after[i])
            &&& !cards[i].is_playing || i == card ==> after[i] == cards[i]
        }),
{
}

/// No card comes or goes with the pointer, the focus or the frames. The pointer is where it
/// came to, and no longer where it left or where the card has gone.
pub proof fn law_pointer_is_followed<T, S>(
    v: RegistryView<T, S>,
    mode: CardMode,
    card: usize,
    frames: Option<T>,
)
    requires
        card < v.cards.len(),
    ensures
        hovered(v, card).cards.len() == v.cards.len(),
        focused(v, card).cards.len() == v.cards.len(),
        ready(v, mode, card, frames).cards.len() == v.cards.len(),
        loaded(v, card, frames).cards.len() == v.cards.len(),
        unhovered(v, mode, card).cards.len() == v.cards.len(),
        unfocused(v, card).cards.len() == v.cards.len(),
        cleaned(v, card).cards.len() == v.cards.len(),
        hovered(v, card).pointer == Some(card),
        focused(v, card).pointer == v.pointer,
        ready(v, mode, card, frames).pointer == v.pointer,
        loaded(v, card, frames).pointer == v.pointer,
        unfocused(v, card).pointer == v.pointer,
        v.pointer == Some(card) ==> unhovered(v, mode, card).pointer is None && cleaned(
            v,
            card,
        ).pointer is None,
        v.pointer != Some(card) ==> unhovered(v, mode, card).pointer == v.pointer && cleaned(
            v,
            card,
        ).pointer == v.pointer,
{
}

/// The pointer starts the preview of a card that has its frames, asks for frames that a card
/// lacks unless they are being made, and leaves a card alone that plays.
pub proof fn law_pointer_starts_the_preview<T, S>(v: RegistryView<T, S>, card: usize)
    requires
        card < v.cards.len(),
    ensures
        ({
            let before = v.cards[card as int];
            let after = hovered(v, card).cards[card as int];
            &&& before.is_playing ==> after == before && hover_next(before) == Next::Nothing
            &&& !before.is_playing && before.preview_textures is Some ==> only_plays(before, after)
            &&& !before.is_playing && before.preview_textures is Some && before.preview_timeout
                is None ==> hover_next(before) == Next::Animate
            &&& before.preview_timeout is Some ==> hover_next(before) != Next::Animate
            &&& !before.is_playing && before.preview_textures is None && before.preview_generating
                ==> after == before && hover_next(before) == Next::Nothing
            &&& !before.is_playing && before.preview_textures is None && !before.preview_generating
                ==> {
                &&& hover_next(before) == Next::Generate
                &&& after.preview_generating
                &&& !after.is_playing
                &&& after.preview_textures is None
                &&& after.preview_timeout == before.preview_timeout
            }
        }),
{
}

/// The focus starts the preview of a card of the gallery that has its frames, has them loaded
/// for one that lacks them, and leaves a card alone that plays.
pub proof fn law_focus_starts_the_preview<T, S>(v: RegistryView<T, S>, card: usize)
    requires
        card < v.cards.len(),
    ensures
        ({
            let before = v.cards[card as int];
            let after = focused(v, card).cards[card as int];
            &&& before.is_playing ==> after == before && focus_next(before) == Next::Nothing
            &&& !before.is_playing && before.preview_textures is Some ==> only_plays(before, after)
            &&& !before.is_playing && before.preview_textures is Some ==> (focus_next(before)
                == Next::Animate <==> before.preview_timeout is None)
            &&& !before.is_playing && before.preview_textures is None ==> after == before
                && focus_next(before) == Next::Load
            &&& focus_next(before) != Next::Generate
        }),
{
}

/// Frames that come are kept and are no longer being made; in the list they start the preview,
/// in the gallery only under the pointer. Without frames nothing starts, and they may be asked
/// for again.
pub proof fn law_frames_are_kept<T, S>(
    v: RegistryView<T, S>,
    mode: CardMode,
    card: usize,
    frames: Option<T>,
)
    requires
        card < v.cards.len(),
    ensures
        ({
            let before = v.cards[card as int];
            let after = ready(v, mode, card, frames).cards[card as int];
            &&& !after.preview_generating
            &&& after.preview_timeout == before.preview_timeout
            &&& frames is Some ==> after.preview_textures == frames
            &&& frames is None ==> after.preview_textures == before.preview_textures
            &&& after.is_playing <==> before.is_playing || (frames is Some && (mode
                == CardMode::List || v.pointer == Some(card)))
        }),
        starts_when_ready(v, mode, card, frames) <==> frames is Some && (mode == CardMode::List
            || v.pointer == Some(card)),
        stops_when_ready(v, mode, card, frames) <==> frames is Some && mode == CardMode::Gallery
            && v.pointer == Some(card),
{
}

/// Frames that were loaded for the focus start the preview and are kept; without frames
/// nothing changes.
pub proof fn law_loaded_frames_start_the_preview<T, S>(
    v: RegistryView<T, S>,
    card: usize,
    frames: Option<T>,
)
    requires
        card < v.cards.len(),
    ensures
        frames is None ==> loaded(v, card, frames) == v,
        frames is Some ==> {
            let before = v.cards[card as int];
            let after = loaded(v, card, frames).cards[card as int];
            &&& after.is_playing
            &&& after.preview_textures == frames
            &&& after.preview_timeout == before.preview_timeout
            &&& after.preview_generating == before.preview_generating
        },
{
}

/// A card that is left while it plays is stopped; the pointer in the gallery leaves it its
/// frames, the pointer in the list and the focus give them up. A card that does not play is
/// left alone. One that goes away is given up in any case.
pub proof fn law_leaving_stops_the_preview<T, S>(
    v: RegistryView<T, S>,
    mode: CardMode,
    card: usize,
)
    requires
        card < v.cards.len(),
    ensures
        ({
            let before = v.cards[card as int];
            let unpointed = unhovered(v, mode, card).cards[card as int];
            let unfocused_card = unfocused(v, card).cards[card as int];
            &&& !before.is_playing ==> unpointed == before && unfocused_card == before
            &&& before.is_playing ==> {
                &&& !unpointed.is_playing
                &&& unpointed.preview_timeout is None
                &&& unpointed.preview_generating == before.preview_generating
                &&& mode == CardMode::Gallery ==> unpointed.preview_textures
                    == before.preview_textures
                &&& mode == CardMode::List ==> unpointed.preview_textures is None
                &&& is_given_up(before, unfocused_card)
            }
            &&& is_given_up(before, cleaned(v, card).cards[card as int])
        }),
{
}

/// The animations that are handed out are those of the other cards that play, each once and in
/// the order of the cards.
pub proof fn law_animations_come_in_order<T, S>(
    cards: Seq<VideoCardState<T, S>>,
    card: int,
    c: VideoCardState<T, S>,
)
    ensures
        other_animations(Seq::<VideoCardState<T, S>>::empty(), card, 0).len() == 0,
        other_animations(cards.push(c), card, cards.len() + 1) == other_animations(
            cards,
            card,
            cards.len(),
        ) + (if c.is_playing && c.preview_timeout is Some && card != cards.len() {
            seq![c.preview_timeout->Some_0]
        } else {
            Seq::<S>::empty()
        }),
{
    let all = cards.push(c);
    lemma_animations_of_the_first(cards, all, card, cards.len());
    let rest = other_animations(all, card, cards.len());
    assert(all[cards.len() as int] == c);
    assert((cards.len() + 1 - 1) as nat == cards.len());
    if c.is_playing && c.preview_timeout is Some && card != cards.len() {
        assert(rest.push(c.preview_timeout->Some_0) =~= rest + seq![c.preview_timeout->Some_0]);
    } else {
        assert(rest =~= rest + Seq::<S>::empty());
    }
}

proof fn lemma_animations_of_the_first<T, S>(
    cards: Seq<VideoCardState<T, S>>,
    all: Seq<VideoCardState<T, S>>,
    card: int,
    n: nat,
)
    requires
        n <= cards.len() <= all.len(),
        forall|i: int| 0 <= i < cards.len() ==> cards[i] == all[i],
    ensures
        other_animations(cards, card, n) == other_animations(all, card, n),
    decreases n,
{
    if n > 0 {
        lemma_animations_of_the_first(cards, all, card, (n - 1) as nat);
        assert(cards[n - 1] == all[n - 1]);
    }
}

// Frames.

/// The file name of preview frame `i`; the files count from one.
pub open spec fn frame_name(base: Seq<char>, i: nat) -> Seq<char> {
    base + "_"@ + decimal3(i + 1) + ".png"@
}

/// The paths of the first `count` preview frames in a directory.
pub open spec fn frame_paths_of(dir: Seq<char>, base: Seq<char>, count: nat) -> Seq<Seq<char>> {
    Seq::new(count, |i: int| joined(dir, frame_name(base, i as nat)))
}

/// The name of a frame is the pattern's name with its number in the place of the number's
/// mark: counted from one, in at least three digits, filled up with zeros and with no more
/// zeros than that takes.
pub proof fn law_frame_is_named_by_the_pattern(base: Seq<char>, i: nat)
    ensures
        base + "_%03d.png"@ == base + "_"@ + "%03d"@ + ".png"@,
        ({
            let name = frame_name(base, i);
            let digits = name.subrange(base.len() as int + 1, name.len() - 4);
            &&& name.len() >= base.len() + 8
            &&& name == base + "_"@ + digits + ".png"@
            &&& digits.len() >= 3
            &&& forall|k: int| 0 <= k < digits.len() ==> '0' <= #[trigger] digits[k] <= '9'
            &&& digits.len() > 3 ==> digits[0] != '0'
            &&& digits_value(digits) == i + 1
        }),
{
    reveal_strlit("_%03d.png");
    reveal_strlit("%03d");
    reveal_strlit("_");
    reveal_strlit(".png");
    assert("_%03d.png"@ =~= "_"@ + "%03d"@ + ".png"@);
    assert(base + "_%03d.png"@ =~= base + "_"@ + "%03d"@ + ".png"@);
    law_three_digits_at_least(i + 1);
    law_decimal_is_plain(i + 1);
    let name = frame_name(base, i);
    let digits = name.subrange(base.len() as int + 1, name.len() - 4);
    assert(digits =~= decimal3(i + 1));
}

/// Every frame has its own file: the paths of the frames are those of their names, in order,
/// and no two are the same.
pub proof fn law_frames_have_their_own_files(
    dir: Seq<char>,
    base: Seq<char>,
    count: nat,
    i: int,
    j: int,
)
    requires
        0 <= i < count,
        0 <= j < count,
        i != j,
    ensures
        frame_paths_of(dir, base, count).len() == count,
        frame_paths_of(dir, base, count)[i] == joined(dir, frame_name(base, i as nat)),
        frame_paths_of(dir, base, count)[i] != frame_paths_of(dir, base, count)[j],
{
    reveal_strlit("_");
    let x = frame_name(base, i as nat);
    let y = frame_name(base, j as nat);
    law_frame_is_named_by_the_pattern(base, i as nat);
    law_frame_is_named_by_the_pattern(base, j as nat);
    assert(x != y) by {
        if x == y {
            assert(digits_value(x.subrange(base.len() as int + 1, x.len() - 4)) == i + 1);
        }
    }
    assert(x[0] == y[0]) by {
        if base.len() > 0 {
            assert(x[0] == base[0] && y[0] == base[0]);
        } else {
            assert(x[0] == '_' && y[0] == '_');
        }
    }
    law_extension_of_a_path(dir, x);
    law_extension_of_a_path(dir, y);
    let p = joined(dir, x);
    let q = joined(dir, y);
    if p == q {
        assert(p.skip(p.len() - x.len()) =~= x);
        assert(q.skip(q.len() - y.len()) =~= y);
    }
}

/// The directory of preview frames among other files.
pub fn preview_directory(dir: &str) -> (previews: String)
    ensures
        previews@ == joined(dir@, "previews"@),
{
    join_path(dir, "previews")
}

fn frame_path(dir: &str, base: &str, i: usize) -> (path: String)
    requires
        i < usize::MAX,
    ensures
        path@ == joined(dir@, frame_name(base@, i as nat)),
{
    let mut name = base.to_owned();
    name.append("_");
    name.append(decimal3_text((i + 1) as u64).as_str());
    name.append(".png");
    join_path(dir, name.as_str())
}

/// The paths of the preview frames in a directory.
pub fn frame_paths(dir: &str, base: &str, count: usize) -> (paths: Vec<String>)
    ensures
        texts(paths@) == frame_paths_of(dir@, base@, count as nat),
{
    let mut paths: Vec<String> = Vec::new();
    assert(texts(paths@) =~= frame_paths_of(dir@, base@, 0));
    for i in 0..count
        invariant
            texts(paths@) == frame_paths_of(dir@, base@, i as nat),
    {
        let ghost before = texts(paths@);
        let path = frame_path(dir, base, i);
        paths.push(path);
        assert(texts(paths@) =~= before.push(path@));
        assert(texts(paths@) =~= frame_paths_of(dir@, base@, (i + 1) as nat));
    }
    paths
}

/// The pattern by which the frames are numbered when they are made.
pub fn frame_pattern(dir: &str, base: &str) -> (pattern: String)
    ensures
        pattern@ == joined(dir@, base@ + "_%03d.png"@),
{
    let name = base.to_owned().concat("_%03d.png");
    join_path(dir, name.as_str())
}

/// The frame rate of a preview of `count` frames that covers three seconds, in
/// thousandths: at least one frame in a second.
pub open spec fn preview_rate(count: nat) -> nat {
    if count < 3 {
        1000
    } else {
        (1000 * count + 1) / 3
    }
}

/// The frame rate of a preview with three decimals.
pub open spec fn preview_rate_text(count: nat) -> Seq<char> {
    decimal(preview_rate(count) / 1000) + "."@ + decimal3(preview_rate(count) % 1000)
}

/// A preview covers three seconds: its frames are spread over them as evenly as three decimals
/// allow, but never less than one in a second.
pub proof fn law_preview_covers_three_seconds(count: nat)
    ensures
        count < 3 ==> preview_rate(count) == 1000,
        count >= 3 ==> -1 <= 3 * preview_rate(count) - 1000 * count <= 1,
        ({
            let text = preview_rate_text(count);
            let whole = decimal(preview_rate(count) / 1000);
            &&& text.len() == whole.len() + 4
            &&& text.take(whole.len() as int) == whole
            &&& text[whole.len() as int] == '.'
            &&& digits_value(text.skip(whole.len() as int + 1)) == preview_rate(count) % 1000
        }),
{
    reveal_strlit(".");
    let rate = preview_rate(count);
    let whole = decimal(rate / 1000);
    law_three_digits_at_least(rate % 1000);
    let text = preview_rate_text(count);
    assert(text.take(whole.len() as int) =~= whole);
    assert(text.skip(whole.len() as int + 1) =~= decimal3(rate % 1000));
}

/// The frame rate as text. Beyond so many frames three decimals are more than a rate
/// can be told apart by.
fn rate_text(count: usize) -> (text: String)
    requires
        count <= 1_000_000_000_000,
    ensures
        text@ == preview_rate_text(count as nat),
{
    let n: u64 = count as u64;
    let rate: u64 = if n < 3 {
        1000
    } else {
        (1000 * n + 1) / 3
    };
    let mut text = decimal_text(rate / 1000);
    text.append(".");
    text.append(decimal3_text(rate % 1000).as_str());
    text
}

/// The arguments that make `count` preview frames of a video: three seconds of it,
/// from its first second on.
pub open spec fn preview_arguments_of(video: Seq<char>, count: nat, pattern: Seq<char>) -> Seq<
    Seq<char>,
> {
    seq![
        "-loglevel"@,
        "error"@,
        "-ss"@,
        "1"@,
        "-t"@,
        "3.000"@,
        "-i"@,
        video,
        "-vf"@,
        "fps="@ + preview_rate_text(count)
            + ",scale=320:-1:force_original_aspect_ratio=decrease:flags=lanczos"@,
        "-y"@,
        pattern,
    ]
}

/// The tool reads the video, makes frames at the rate of the preview, and writes them by the
/// pattern; nothing else that it is told depends on these.
pub proof fn law_preview_arguments(
    video: Seq<char>,
    count: nat,
    pattern: Seq<char>,
    other_video: Seq<char>,
    other_count: nat,
    other_pattern: Seq<char>,
    k: int,
)
    requires
        0 <= k < 12,
    ensures
        ({
            let args = preview_arguments_of(video, count, pattern);
            let others = preview_arguments_of(other_video, other_count, other_pattern);
            &&& args.len() == 12
            &&& others.len() == 12
            &&& args[6] == "-i"@ && args[7] == video
            &&& args[9] == "fps="@ + preview_rate_text(count)
                + ",scale=320:-1:force_original_aspect_ratio=decrease:flags=lanczos"@
            &&& args[11] == pattern
            &&& k != 7 && k != 9 && k != 11 ==> args[k] == others[k]
        }),
{
}

/// The arguments that make the preview frames of a video.
pub fn preview_arguments(video_path: &str, count: usize, pattern: &str) -> (args: Vec<String>)
    requires
        count <= 1_000_000_000_000,
    ensures
        texts(args@) == preview_arguments_of(video_path@, count as nat, pattern@),
{
    let filter = "fps=".to_owned().concat(rate_text(count).as_str()).concat(
        ",scale=320:-1:force_original_aspect_ratio=decrease:flags=lanczos",
    );
    let args = vec![
        "-loglevel".to_owned(),
        "error".to_owned(),
        "-ss".to_owned(),
        "1".to_owned(),
        "-t".to_owned(),
        "3.000".to_owned(),
        "-i".to_owned(),
        video_path.to_owned(),
        "-vf".to_owned(),
        filter,
        "-y".to_owned(),
        pattern.to_owned(),
    ];
    assert(texts(args@) =~= preview_arguments_of(video_path@, count as nat, pattern@));
    args
}

/// The frames of which each file is in one of two places; the first one counts
/// when both hold it.
pub open spec fn collected_frames(
    own: Seq<Seq<char>>,
    own_there: Seq<bool>,
    global: Seq<Seq<char>>,
    global_there: Seq<bool>,
    n: nat,
) -> Seq<Seq<char>>
    decreases n,
{
    if n == 0 {
        Seq::<Seq<char>>::empty()
    } else {
        let rest = collected_frames(own, own_there, global, global_there, (n - 1) as nat);
        if own_there[n - 1] {
            rest.push(own[n - 1])
        } else if global_there[n - 1] {
            rest.push(global[n - 1])
        } else {
            rest
        }
    }
}

/// Each frame is taken from the video's own files when it is there, otherwise from the
/// directory of the others when it is there, and is left out when it is in neither. Frames
/// that are all in one place come from it, in order.
pub proof fn law_own_frames_come_first(
    own: Seq<Seq<char>>,
    own_there: Seq<bool>,
    global: Seq<Seq<char>>,
    global_there: Seq<bool>,
    n: nat,
)
    requires
        n <= own.len(),
        n <= global.len(),
    ensures
        n > 0 ==> ({
            let before = collected_frames(own, own_there, global, global_there, (n - 1) as nat);
            let all = collected_frames(own, own_there, global, global_there, n);
            &&& own_there[n - 1] ==> all == before.push(own[n - 1])
            &&& !own_there[n - 1] && global_there[n - 1] ==> all == before.push(global[n - 1])
            &&& !own_there[n - 1] && !global_there[n - 1] ==> all == before
        }),
        (forall|i: int| 0 <= i < n ==> own_there[i]) ==> collected_frames(
            own,
            own_there,
            global,
            global_there,
            n,
        ) == own.take(n as int),
        (forall|i: int| 0 <= i < n ==> !own_there[i] && global_there[i]) ==> collected_frames(
            own,
            own_there,
            global,
            global_there,
            n,
        ) == global.take(n as int),
        (forall|i: int| 0 <= i < n ==> !own_there[i] && !global_there[i]) ==> collected_frames(
            own,
            own_there,
            global,
            global_there,
            n,
        ).len() == 0,
    decreases n,
{
    if n > 0 {
        law_own_frames_come_first(own, own_there, global, global_there, (n - 1) as nat);
        assert(own.take(n - 1).push(own[n - 1]) =~= own.take(n as int));
        assert(global.take(n - 1).push(global[n - 1]) =~= global.take(n as int));
    } else {
        assert(own.take(0) =~= Seq::<Seq<char>>::empty());
        assert(global.take(0) =~= Seq::<Seq<char>>::empty());
    }
}

/// The frames that are there already: all of them, or none when one is missing.
pub fn existing_frames(paths: Vec<String>, there: &Vec<bool>) -> (frames: Option<Vec<String>>)
    requires
        there@.len() == paths@.len(),
    ensures
        frames is Some <==> forall|i: int| 0 <= i < there@.len() ==> there@[i],
        frames matches Some(f) ==> f == paths,
{
    for i in 0..there.len()
        invariant
            forall|j: int| 0 <= j < i ==> there@[j],
    {
        if !there[i] {
            return None;
        }
    }
    Some(paths)
}

/// Where the frames of a video are made.
#[derive(Debug, Clone, Copy, PartialEq, Eq, Structural)]
pub enum FramesPlace {
    /// Among the video's own files.
    Own,
    /// In the directory of all the others.
    Common,
}

/// Where to make the frames of a video, given which of the two directories could be made,
/// and whether the video has files of its own: nowhere when there is neither directory,
/// otherwise among its own files when it has such.
pub fn frames_place(own_made: bool, common_made: bool, assets_there: bool) -> (place: Option<
    FramesPlace,
>)
    ensures
        place is None <==> !own_made && !common_made,
        place matches Some(p) ==> (p == FramesPlace::Own <==> assets_there),
{
    if !own_made && !common_made {
        None
    } else if assets_there {
        Some(FramesPlace::Own)
    } else {
        Some(FramesPlace::Common)
    }
}

/// How making the frames went.
pub enum FramesRun {
    /// The tool could not be started.
    NotStarted,
    /// The tool failed.
    Failed,
    /// The tool is done; which files are there now, in either place.
    Done { own_there: Vec<bool>, global_there: Vec<bool> },
}

/// The preview frames of a video after they were made: each from the video's own
/// files or from the directory of the others. None when the tool failed or left no
/// frame at all.
pub fn generate_preview_frames(own: &Vec<String>, global: &Vec<String>, run: FramesRun) -> (frames:
    Option<Vec<String>>)
    requires
        own@.len() == global@.len(),
        run matches FramesRun::Done { own_there, global_there } ==> own_there@.len() == own@.len()
            && global_there@.len() == own@.len(),
    ensures
        match run {
            FramesRun::Done { own_there, global_there } => {
                let all = collected_frames(
                    texts(own@),
                    own_there@,
                    texts(global@),
                    global_there@,
                    own@.len(),
                );
                &&& frames is Some <==> all.len() > 0
                &&& frames matches Some(f) ==> texts(f@) == all
            },
            _ => frames is None,
        },
{
    match run {
        FramesRun::Done { own_there, global_there } => {
            let mut frames: Vec<String> = Vec::new();
            let n: usize = own.len();
            assert(texts(frames@) =~= Seq::<Seq<char>>::empty());
            for i in 0..n
                invariant
                    n == own@.len(),
                    n == global@.len(),
                    n == own_there@.len(),
                    n == global_there@.len(),
                    texts(frames@) == collected_frames(
                        texts(own@),
                        own_there@,
                        texts(global@),
                        global_there@,
                        i as nat,
                    ),
            {
                let ghost before = texts(frames@);
                assert((i + 1 - 1) as nat == i as nat);
                if own_there[i] {
                    frames.push(own[i].clone());
                    assert(texts(frames@) =~= before.push(texts(own@)[i as int]));
                } else if global_there[i] {
                    frames.push(global[i].clone());
                    assert(texts(frames@) =~= before.push(texts(global@)[i as int]));
                }
            }
            if frames.len() == 0 {
                None
            } else {
                Some(frames)
            }
        },
        _ => None,
    }
}

/// The course of an animation over the frames of a preview.
pub struct PreviewAnimation {
    tick: usize,
    len: usize,
}

/// How far an animation is.
pub struct AnimationView {
    /// How many frames it has shown; it begins anew when that can be counted no
    /// further.
    pub tick: usize,
    /// How many frames there are.
    pub len: usize,
}

impl View for PreviewAnimation {
    type V = AnimationView;

    closed spec fn view(&self) -> AnimationView {
        AnimationView { tick: self.tick, len: self.len }
    }
}

impl PreviewAnimation {
    #[verifier::type_invariant]
    spec fn well_formed(&self) -> bool {
        self.len > 0
    }

    /// The animation of so many frames; none without frames.
    pub fn new(len: usize) -> (a: Option<Self>)
        ensures
            a is Some <==> len > 0,
            a matches Some(x) ==> x@ == (AnimationView { tick: 0, len }),
    {
        if len == 0 {
            None
        } else {
            Some(PreviewAnimation { tick: 0, len })
        }
    }

    /// The frame to show now; the animation goes on to the next one, and from the
    /// last to the first.
    pub fn next_frame(&mut self) -> (index: usize)
        ensures
            index == old(self)@.tick as int % old(self)@.len as int,
            index < old(self)@.len,
            final(self)@ == (AnimationView {
                tick: if old(self)@.tick == usize::MAX {
                    0
                } else {
                    (old(self)@.tick + 1) as usize
                },
                len: old(self)@.len,
            }),
    {
        proof {
            use_type_invariant(&*self);
        }
        let index: usize = self.tick % self.len;
        if self.tick == usize::MAX {
            self.tick = 0;
        } else {
            self.tick = self.tick + 1;
        }
        index
    }
}

} // verus!
