//! The engine's window onto the host: a [`Screen`] it owns outright, and an
//! outbox of events describing every observable change (pixel writes, scrolls,
//! audio on and off). A host shell drains the outbox and performs the real
//! drawing and buzzing; the engine itself never touches a device.

use vstd::prelude::*;
use crate::screen::{Screen, ScreenView, sv_set, sv_get_scaled, sv_in_bounds, spec_get_pix};
use crate::events::{IncomingEvent, ScreenEvent, AudioEvent};

verus! {

/// The abstract value of an [`Output`]: the screen and the queued events.
#[verifier::ext_equal]
pub struct OutputView {
    /// The framebuffer.
    pub screen: ScreenView,
    /// Events not yet drained by the host, oldest first.
    pub pending: Seq<IncomingEvent>,
}

/// One write step of [`out_set`]: writes `v` to every physical target in
/// `ts`, in order, queueing a draw event for each pixel that changed.
pub open spec fn out_set_targets(o: OutputView, ts: Seq<(usize, usize)>, v: bool) -> OutputView
    decreases ts.len(),
{
    if ts.len() == 0 {
        o
    } else {
        let t = ts[0];
        let sc = sv_set(o.screen, t.0 as int, t.1 as int, v);
        let o2 = OutputView {
            screen: sc.0,
            pending: if sc.1 {
                o.pending.push(IncomingEvent::Screen(ScreenEvent::DrawPixel(t.0, t.1, v)))
            } else {
                o.pending
            },
        };
        out_set_targets(o2, ts.drop_first(), v)
    }
}

/// Writing the logical pixel `(x, y)`: its physical targets are written in
/// order and a draw event is queued for each pixel that really changed.
pub open spec fn out_set(o: OutputView, x: int, y: int, v: bool) -> OutputView {
    out_set_targets(o, spec_get_pix(o.screen, x, y), v)
}

/// Toggling the logical pixel `(x, y)`: the new state, and the old value of
/// the pixel (`true` exactly when a lit pixel was turned off).
pub open spec fn out_swap(o: OutputView, x: int, y: int) -> (OutputView, bool) {
    let was = sv_get_scaled(o.screen, x, y);
    (out_set(o, x, y, !was), was)
}

/// Blanking the screen: every pixel unlit, one clear event queued.
pub open spec fn out_clear(o: OutputView) -> OutputView {
    OutputView {
        screen: ScreenView { grid: Seq::new(o.screen.grid.len(), |i: int| false), ..o.screen },
        pending: o.pending.push(IncomingEvent::Screen(ScreenEvent::Clear)),
    }
}

/// Scrolling the viewport down: the stored offset wraps to a byte and the
/// host is told how far to move.
pub open spec fn out_scroll_down(o: OutputView, amount: isize) -> OutputView {
    OutputView {
        screen: ScreenView {
            scroll_down: ((o.screen.scroll_down + amount) % 256) as nat,
            ..o.screen
        },
        pending: o.pending.push(IncomingEvent::Screen(ScreenEvent::ScrollDown(amount))),
    }
}

/// Scrolling the viewport sideways: the stored offset wraps to a byte and the
/// host is told how far to move.
pub open spec fn out_scroll_side(o: OutputView, amount: isize) -> OutputView {
    OutputView {
        screen: ScreenView {
            scroll_side: ((o.screen.scroll_side + amount) % 256) as nat,
            ..o.screen
        },
        pending: o.pending.push(IncomingEvent::Screen(ScreenEvent::ScrollSide(amount))),
    }
}

/// Setting the drawing scale.
pub open spec fn out_set_scale(o: OutputView, scale: nat) -> OutputView {
    OutputView { screen: ScreenView { scale: scale, ..o.screen }, ..o }
}

/// Queueing a buzzer change.
pub open spec fn out_buzz(o: OutputView, on: bool) -> OutputView {
    OutputView { pending: o.pending.push(IncomingEvent::Audio(AudioEvent::Buzz(on))), ..o }
}

/// The draw opcode's collision rule, one unscaled pixel at a time: toggling
/// a pixel twice restores the screen exactly, and when the pixel is on the
/// grid the second toggle reports a lit-to-unlit transition precisely when
/// the pixel started unlit — so drawing a sprite twice over blank screen
/// area raises the collision flag on the second draw.
pub proof fn lemma_pixel_toggle_round_trip(o: OutputView, x: int, y: int)
    requires
        o.screen.scale == 1,
        o.screen.grid.len() == o.screen.width * o.screen.height,
        0 <= x <= 0xFFFF,
        0 <= y <= 0xFFFF,
    ensures
        out_swap(out_swap(o, x, y).0, x, y).0.screen == o.screen,
        sv_in_bounds(o.screen, x, y) ==> out_swap(out_swap(o, x, y).0, x, y).1
            == !sv_get_scaled(o.screen, x, y),
{
    reveal_with_fuel(out_set_targets, 3);
    let s = o.screen;
    let was = sv_get_scaled(s, x, y);
    let a = out_swap(o, x, y);
    assert(spec_get_pix(s, x, y) =~= seq![(x as usize, y as usize)]);
    assert(spec_get_pix(s, x, y).drop_first() =~= Seq::<(usize, usize)>::empty());
    if sv_in_bounds(s, x, y) {
        let i = y * s.width + x;
        assert(0 <= i < s.grid.len()) by (nonlinear_arith)
            requires
                i == y * s.width + x,
                0 <= x < s.width,
                0 <= y < s.height,
                s.grid.len() == s.width * s.height,
        ;
        assert(a.0.screen.grid =~= s.grid.update(i, !was));
        let b = out_swap(a.0, x, y);
        assert(spec_get_pix(a.0.screen, x, y) =~= seq![(x as usize, y as usize)]);
        assert(spec_get_pix(a.0.screen, x, y).drop_first() =~= Seq::<(usize, usize)>::empty());
        assert(sv_get_scaled(a.0.screen, x, y) == !was);
        assert(b.0.screen.grid =~= s.grid);
        assert(b.0.screen =~= s);
    } else {
        assert(a.0.screen == s);
        let b = out_swap(a.0, x, y);
        assert(b.0.screen == s);
    }
}

/// The framebuffer together with the outbox of not yet delivered events.
pub struct Output {
    screen: Screen,
    pending: Vec<IncomingEvent>,
}

impl View for Output {
    type V = OutputView;

    closed spec fn view(&self) -> OutputView {
        OutputView { screen: self.screen@, pending: self.pending@ }
    }
}

impl Output {
    /// A blank output of the given dimensions with an empty outbox.
    pub fn new(width: usize, height: usize) -> (r: Self)
        requires
            width <= 256,
            height <= 256,
        ensures
            r@.screen.width == width,
            r@.screen.height == height,
            r@.screen.scale == 2,
            r@.screen.scroll_down == 0,
            r@.screen.scroll_side == 0,
            r@.screen.grid == Seq::new((width * height) as nat, |i: int| false),
            r@.pending == Seq::<IncomingEvent>::empty(),
    {
        Output { screen: Screen::new(width, height), pending: Vec::new() }
    }

    /// The screen, read-only.
    pub fn get_screen(&self) -> (r: &Screen)
        ensures
            r@ == self@.screen,
    {
        &self.screen
    }

    /// The screen, for direct manipulation (snapshot restore).
    pub fn get_screen_mut(&mut self) -> (r: &mut Screen)
        ensures
            r@ == old(self)@.screen,
            final(self)@.screen == final(r)@,
            final(self)@.pending == old(self)@.pending,
    {
        &mut self.screen
    }

    /// Queues a screen event for the host.
    pub fn send_to_app_state(&mut self, s: ScreenEvent)
        ensures
            final(self)@ == (OutputView {
                pending: old(self)@.pending.push(IncomingEvent::Screen(s)),
                ..old(self)@
            }),
    {
        self.pending.push(IncomingEvent::Screen(s));
    }

    /// Blanks the screen and tells the host to clear its surface.
    pub fn clear(&mut self)
        ensures
            final(self)@ == out_clear(old(self)@),
    {
        self.screen.clear();
        self.send_to_app_state(ScreenEvent::Clear);
    }

    /// Queues a redraw-everything event; the host pulls the pixels through
    /// [`Self::get_screen`].
    pub fn redraw_all(&mut self)
        ensures
            final(self)@ == (OutputView {
                pending: old(self)@.pending.push(
                    IncomingEvent::Screen(ScreenEvent::RedrawAll),
                ),
                ..old(self)@
            }),
    {
        self.send_to_app_state(ScreenEvent::RedrawAll);
    }

    /// Moves the viewport sideways, wrapping the stored offset to a byte.
    pub fn scroll_side(&mut self, amount: isize)
        requires
            isize::MIN < amount,
            amount <= isize::MAX - 255,
        ensures
            final(self)@ == out_scroll_side(old(self)@, amount),
    {
        self.send_to_app_state(ScreenEvent::ScrollSide(amount));
        let cur = self.screen.get_scroll_side();
        proof {
            use_type_invariant(&self.screen);
        }
        let next = wrap_offset(cur, amount);
        self.screen.set_scroll_side(next);
    }

    /// Moves the viewport down, wrapping the stored offset to a byte.
    pub fn scroll_down(&mut self, amount: isize)
        requires
            isize::MIN < amount,
            amount <= isize::MAX - 255,
        ensures
            final(self)@ == out_scroll_down(old(self)@, amount),
    {
        self.send_to_app_state(ScreenEvent::ScrollDown(amount));
        let cur = self.screen.get_scroll_down();
        proof {
            use_type_invariant(&self.screen);
        }
        let next = wrap_offset(cur, amount);
        self.screen.set_scroll_down(next);
    }

    /// The logical pixel at `(x, y)`.
    pub fn get(&self, x: usize, y: usize) -> (r: bool)
        ensures
            r == sv_get_scaled(self@.screen, x as int, y as int),
    {
        self.screen.get(x, y)
    }

    /// Writes `v` to the logical pixel `(x, y)`, queueing a draw event for
    /// each physical pixel that changes; writes that change nothing are
    /// suppressed.
    pub fn set(&mut self, x: usize, y: usize, v: bool)
        ensures
            final(self)@ == out_set(old(self)@, x as int, y as int, v),
    {
        let targets = self.screen.get_pix(x, y);
        let ghost all = targets@;
        proof {
            assert(all.skip(0) =~= all);
        }
        let mut i: usize = 0;
        while i < targets.len()
            invariant
                i <= all.len(),
                targets@ == all,
                all == spec_get_pix(old(self)@.screen, x as int, y as int),
                out_set_targets(self@, all.skip(i as int), v) == out_set_targets(
                    old(self)@,
                    all,
                    v,
                ),
            decreases all.len() - i,
        {
            let ghost before = self@;
            let px = targets[i].0;
            let py = targets[i].1;
            let changed = self.screen.set(px, py, v);
            if changed {
                self.pending.push(IncomingEvent::Screen(ScreenEvent::DrawPixel(px, py, v)));
            }
            proof {
                assert(all.skip(i as int).drop_first() =~= all.skip(i as int + 1));
            }
            i = i + 1;
        }
    }

    /// Toggles the logical pixel `(x, y)`; reports whether it was lit before
    /// (a lit-to-unlit transition is the draw opcode's collision signal).
    pub fn swap(&mut self, x: usize, y: usize) -> (r: bool)
        ensures
            (final(self)@, r) == out_swap(old(self)@, x as int, y as int),
    {
        let old_val = self.screen.get(x, y);
        self.set(x, y, !old_val);
        old_val
    }

    /// Queues a buzzer-on event.
    pub fn buzz(&mut self)
        ensures
            final(self)@ == out_buzz(old(self)@, true),
    {
        self.pending.push(IncomingEvent::Audio(AudioEvent::Buzz(true)));
    }

    /// Queues a buzzer-off event.
    pub fn stop_buzz(&mut self)
        ensures
            final(self)@ == out_buzz(old(self)@, false),
    {
        self.pending.push(IncomingEvent::Audio(AudioEvent::Buzz(false)));
    }

    /// Hands the queued events to the host and empties the outbox.
    pub fn take_events(&mut self) -> (r: Vec<IncomingEvent>)
        ensures
            r@ == old(self)@.pending,
            final(self)@.pending == Seq::<IncomingEvent>::empty(),
            final(self)@.screen == old(self)@.screen,
    {
        let mut out: Vec<IncomingEvent> = Vec::new();
        core::mem::swap(&mut out, &mut self.pending);
        out
    }
}

/// Adds a signed amount to a byte-sized offset, wrapping modulo 256.
fn wrap_offset(cur: usize, amount: isize) -> (r: usize)
    requires
        cur <= 255,
        isize::MIN < amount,
        amount <= isize::MAX - 255,
    ensures
        r == (cur + amount) % 256,
        r <= 255,
{
    if amount >= 0 {
        let a = (amount as usize) % 256;
        proof {
            vstd::arithmetic::div_mod::lemma_add_mod_noop(cur as int, amount as int, 256);
            vstd::arithmetic::div_mod::lemma_small_mod(cur as nat, 256);
        }
        (cur + a) % 256
    } else {
        let neg = -amount;
        let a = (neg as usize) % 256;
        proof {
            let k = (neg as int) / 256;
            vstd::arithmetic::div_mod::lemma_fundamental_div_mod(neg as int, 256);
            vstd::arithmetic::div_mod::lemma_mod_multiples_vanish(
                -(k + 1),
                cur + 256 - (a as int),
                256,
            );
        }
        (cur + 256 - a) % 256
    }
}

} // verus!
