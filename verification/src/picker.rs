//! One pass of the picker: the popup that opens and closes, the sliders that
//! change the color being edited, and the commit of the result.
//!
//! The picker runs once per refresh of the interface. In each pass it learns
//! what the user did and decides from that alone what the color and the popup
//! become. A pass in which the popup is not drawn leaves the color alone; so
//! does one in which no slider moved it. Only a pass that changed the color
//! commits: it shows the new color and remembers it for the next edit.
//!
//! Turning a perceptual color into a display color and back is left to the
//! caller, who hands in the two conversions. The picker asks for the display
//! color only of colors that lie within the bounds of their channels, and for
//! the perceptual color of a fully transparent display color it asks about
//! transparent black.

use vstd::prelude::*;
use crate::cache::{after_set, is_valid, lemma_set_then_lookup, lookup, Entry, RoundTripCache};
use crate::color::{DisplayColor, PerceptualColor, SliderValue};

verus! {

/// Whether the popup with the sliders is on screen.
#[derive(Clone, Copy, Debug, PartialEq, Eq, Structural)]
pub enum PopupState {
    Closed,
    Open,
}

impl PopupState {
    /// The state once the trigger button has had its say: a click opens a
    /// closed popup and closes an open one.
    pub open spec fn triggered(self, trigger_clicked: bool) -> PopupState {
        if !trigger_clicked {
            self
        } else if self == PopupState::Closed {
            PopupState::Open
        } else {
            PopupState::Closed
        }
    }

    /// The state at the end of a pass in which the popup stood as `self`: an
    /// open popup closes on escape or on a click outside it, unless that
    /// click was the one on the trigger button.
    pub open spec fn dismissed(
        self,
        trigger_clicked: bool,
        escape_pressed: bool,
        clicked_outside: bool,
    ) -> PopupState {
        if self == PopupState::Open && !trigger_clicked && (escape_pressed || clicked_outside) {
            PopupState::Closed
        } else {
            self
        }
    }

    pub fn is_open(self) -> (open: bool)
        ensures
            open == (self == PopupState::Open),
    {
        match self {
            PopupState::Open => true,
            PopupState::Closed => false,
        }
    }

    /// Applies the trigger button. The popup is drawn in this pass exactly
    /// when the result is open.
    pub fn after_trigger(self, trigger_clicked: bool) -> (next: PopupState)
        ensures
            next == self.triggered(trigger_clicked),
    {
        if !trigger_clicked {
            self
        } else {
            match self {
                PopupState::Closed => PopupState::Open,
                PopupState::Open => PopupState::Closed,
            }
        }
    }

    /// Applies escape and clicks outside the popup, once the popup has been
    /// drawn.
    pub fn after_dismissal(
        self,
        trigger_clicked: bool,
        escape_pressed: bool,
        clicked_outside: bool,
    ) -> (next: PopupState)
        ensures
            next == self.dismissed(trigger_clicked, escape_pressed, clicked_outside),
    {
        match self {
            PopupState::Open => {
                if !trigger_clicked && (escape_pressed || clicked_outside) {
                    PopupState::Closed
                } else {
                    PopupState::Open
                }
            },
            PopupState::Closed => PopupState::Closed,
        }
    }
}

/// What the user did in one pass.
#[derive(Debug)]
pub struct PassInput {
    /// The trigger button was clicked.
    pub trigger_clicked: bool,
    /// The escape key was pressed.
    pub escape_pressed: bool,
    /// There was a click outside the popup.
    pub clicked_outside: bool,
    /// The values the sliders were dragged to, in the order in which the
    /// popup lays the sliders out.
    pub drags: Vec<SliderValue>,
}

impl PassInput {
    /// Whether the popup is drawn, and its sliders read, in a pass that
    /// starts in `state`.
    pub open spec fn shows_popup(self, state: PopupState) -> bool {
        state.triggered(self.trigger_clicked) == PopupState::Open
    }

    /// The popup state that a pass starting in `state` ends in.
    pub open spec fn state_after(self, state: PopupState) -> PopupState {
        state.triggered(self.trigger_clicked).dismissed(
            self.trigger_clicked,
            self.escape_pressed,
            self.clicked_outside,
        )
    }

    /// The color that a pass starting in `state` with `color` ends with.
    /// Drags count only while the popup is drawn.
    pub open spec fn color_after(self, state: PopupState, color: PerceptualColor) -> PerceptualColor {
        if self.shows_popup(state) {
            color.updated_by_all(self.drags@)
        } else {
            color
        }
    }
}

/// A popup that is closed and stays untouched reads no slider: whatever drags
/// a pass reports, the color and the popup are after it what they were.
pub proof fn lemma_closed_popup_reads_nothing(input: PassInput, color: PerceptualColor)
    requires
        !input.trigger_clicked,
    ensures
        input.color_after(PopupState::Closed, color) == color,
        input.state_after(PopupState::Closed) == PopupState::Closed,
{
}

/// A click on the trigger button closes an open popup before its sliders are
/// read, and opens a closed one for good: nothing else in the same pass
/// closes it again.
pub proof fn lemma_trigger_decides_the_pass(input: PassInput, color: PerceptualColor)
    requires
        input.trigger_clicked,
    ensures
        input.state_after(PopupState::Open) == PopupState::Closed,
        input.color_after(PopupState::Open, color) == color,
        input.state_after(PopupState::Closed) == PopupState::Open,
        input.color_after(PopupState::Closed, color) == color.updated_by_all(input.drags@),
{
}

/// Whether an edit of `shown` may start from `seed`: the remembered color
/// where there is one, else a result of the conversion of `shown` as it is
/// read back.
pub open spec fn is_seed<F: Fn(DisplayColor) -> PerceptualColor>(
    entries: Seq<Entry>,
    shown: DisplayColor,
    to_perceptual: F,
    seed: PerceptualColor,
) -> bool {
    match lookup(entries, shown) {
        Some(remembered) => seed == remembered,
        None => call_ensures(to_perceptual, (shown.read_back(),), seed),
    }
}

/// Whether `shown` and the cache content `after` are what committing
/// `working` leaves: `shown` is a result of the conversion of `working`, and
/// the cache has `working` set under it.
pub open spec fn is_commit_of<G: Fn(PerceptualColor) -> DisplayColor>(
    working: PerceptualColor,
    to_display: G,
    before: Seq<Entry>,
    capacity: nat,
    after: Seq<Entry>,
    shown: DisplayColor,
) -> bool {
    &&& call_ensures(to_display, (working,), shown)
    &&& after == after_set(before, capacity, shown, working)
    &&& lookup(after, shown) == Some(working)
}

/// Whether `shown_after` and the cache content `after` are what a drawn pass
/// leaves that started from `seed` and ended with `working`. Where no field
/// of `working` is another number than it was in `seed`, nothing is touched.
/// Otherwise `working`, brought within its bounds, is committed.
pub open spec fn is_outcome_of<G: Fn(PerceptualColor) -> DisplayColor>(
    seed: PerceptualColor,
    working: PerceptualColor,
    to_display: G,
    before: Seq<Entry>,
    capacity: nat,
    after: Seq<Entry>,
    shown_before: DisplayColor,
    shown_after: DisplayColor,
) -> bool {
    if working.numerically_equal(seed) {
        shown_after == shown_before && after == before
    } else {
        is_commit_of(working.nominal(), to_display, before, capacity, after, shown_after)
    }
}

/// A color that was committed is the color the next edit of its display
/// color starts from, field for field, whatever the conversion would have
/// made of that display color: the hue of a gray comes back, though the gray
/// itself shows none.
pub proof fn lemma_committed_color_is_recalled<F: Fn(DisplayColor) -> PerceptualColor>(
    entries: Seq<Entry>,
    capacity: nat,
    quantized: DisplayColor,
    working: PerceptualColor,
    to_perceptual: F,
    seed: PerceptualColor,
)
    requires
        is_valid(entries, capacity),
    ensures
        is_seed(after_set(entries, capacity, quantized, working), quantized, to_perceptual, seed)
            <==> seed == working,
{
    lemma_set_then_lookup(entries, capacity, quantized, working);
}

/// Runs one pass on a perceptual color. Returns whether the pass changed the
/// color: the popup was drawn and some field is no longer the number it was.
/// Whatever a drag writes lies within the bounds of its channel.
pub fn edit_perceptual_color(
    state: &mut PopupState,
    color: &mut PerceptualColor,
    input: &PassInput,
) -> (changed: bool)
    ensures
        *final(state) == input.state_after(*old(state)),
        *final(color) == input.color_after(*old(state), *old(color)),
        changed == (input.shows_popup(*old(state)) && !final(color).numerically_equal(*old(color))),
        old(color).is_nominal() ==> final(color).is_nominal(),
{
    let before = *color;
    let shown = state.after_trigger(input.trigger_clicked);
    let mut changed = false;
    if shown.is_open() {
        *color = before.apply_all(&input.drags);
        changed = !color.same_value(&before);
    }
    *state = shown.after_dismissal(
        input.trigger_clicked,
        input.escape_pressed,
        input.clicked_outside,
    );
    changed
}

/// The color an edit of `shown` starts from. The conversion is consulted only
/// where the cache remembers nothing, and then about `shown` as it is read
/// back: about transparent black where `shown` is fully transparent.
pub fn seed_color<F: Fn(DisplayColor) -> PerceptualColor>(
    cache: &RoundTripCache,
    shown: DisplayColor,
    to_perceptual: &F,
) -> (seed: PerceptualColor)
    requires
        call_requires(*to_perceptual, (shown.read_back(),)),
    ensures
        is_seed(cache@, shown, *to_perceptual, seed),
{
    match cache.get(shown) {
        Some(remembered) => remembered,
        None => to_perceptual(shown.readable()),
    }
}

/// Ends an edit: `shown` becomes `quantized`, the display color of
/// `working`, and the cache remembers `working` under it. Returns whether
/// the display color changed.
pub fn commit(
    cache: &mut RoundTripCache,
    shown: &mut DisplayColor,
    quantized: DisplayColor,
    working: PerceptualColor,
) -> (changed: bool)
    ensures
        *final(shown) == quantized,
        changed == (quantized != *old(shown)),
        final(cache)@ == after_set(old(cache)@, old(cache).limit(), quantized, working),
        final(cache).limit() == old(cache).limit(),
        lookup(final(cache)@, quantized) == Some(working),
{
    let changed = quantized != *shown;
    cache.set(quantized, working);
    proof {
        lemma_set_then_lookup(old(cache)@, old(cache).limit(), quantized, working);
    }
    *shown = quantized;
    changed
}

/// Runs one pass on a display color. Where the popup is not drawn, nothing
/// happens but to the popup. Where it is drawn, the edit starts from the
/// remembered perceptual color, or from the converted one where nothing is
/// remembered, and takes the drags; if they made any field another number,
/// the result is brought within its bounds, shown as a display color and
/// remembered under it. Returns whether the display color is another than
/// the one handed in.
pub fn edit_display_color<F, G>(
    state: &mut PopupState,
    cache: &mut RoundTripCache,
    shown: &mut DisplayColor,
    input: &PassInput,
    to_perceptual: F,
    to_display: G,
) -> (changed: bool) where
    F: Fn(DisplayColor) -> PerceptualColor,
    G: Fn(PerceptualColor) -> DisplayColor,

    requires
        call_requires(to_perceptual, (old(shown).read_back(),)),
        forall|p: PerceptualColor| p.is_nominal() ==> call_requires(to_display, (p,)),
    ensures
        *final(state) == input.state_after(*old(state)),
        changed == (*final(shown) != *old(shown)),
        final(cache).limit() == old(cache).limit(),
        !input.shows_popup(*old(state)) ==> {
            &&& *final(shown) == *old(shown)
            &&& final(cache)@ == old(cache)@
            &&& !changed
        },
        input.shows_popup(*old(state)) ==> exists|seed: PerceptualColor| #[trigger]
            is_seed(old(cache)@, *old(shown), to_perceptual, seed) && is_outcome_of(
                seed,
                seed.updated_by_all(input.drags@),
                to_display,
                old(cache)@,
                old(cache).limit(),
                final(cache)@,
                *old(shown),
                *final(shown),
            ),
{
    let drawn = state.after_trigger(input.trigger_clicked);
    if !drawn.is_open() {
        *state = drawn.after_dismissal(
            input.trigger_clicked,
            input.escape_pressed,
            input.clicked_outside,
        );
        return false;
    }
    let seed = seed_color(cache, *shown, &to_perceptual);
    let mut working = seed;
    let moved = edit_perceptual_color(state, &mut working, input);
    assert(is_seed(old(cache)@, *old(shown), to_perceptual, seed));
    if !moved {
        return false;
    }
    let stored = working.clamped();
    let quantized = to_display(stored);
    commit(cache, shown, quantized, stored)
}

} // verus!
