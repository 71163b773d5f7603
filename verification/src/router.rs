//! The event-routing backbone: a single message loop that forwards each
//! event to every subscriber whose interest list matches it (wildcard-aware),
//! and runs a fixed set of small reactive policy modules whose derived events
//! are queued behind the ones already pending, preserving arrival order.

use vstd::prelude::*;
use crate::events::{
    Event,
    IncomingEvent,
    InputEvent,
    AppEvent,
    InterpreterEvent,
    ScreenEvent,
    Key,
    MouseButton,
    event_matches,
};

verus! {

/// Whether any pattern of an interest list matches the event.
pub open spec fn matches_any(interests: Seq<IncomingEvent>, e: IncomingEvent) -> bool {
    exists|i: int| 0 <= i < interests.len() && event_matches(#[trigger] interests[i], e)
}

/// The subscribers among the first `n` whose interest lists match the event,
/// in ascending order.
pub open spec fn deliveries_upto(
    subs: Seq<Seq<IncomingEvent>>,
    e: IncomingEvent,
    n: nat,
) -> Seq<usize>
    decreases n,
{
    if n == 0 {
        Seq::empty()
    } else {
        let p = deliveries_upto(subs, e, (n - 1) as nat);
        if matches_any(subs[n - 1], e) {
            p.push((n - 1) as usize)
        } else {
            p
        }
    }
}

/// The subscribers an event is forwarded to: exactly those whose interest
/// list matches it.
pub open spec fn spec_deliveries(subs: Seq<Seq<IncomingEvent>>, e: IncomingEvent) -> Seq<usize> {
    deliveries_upto(subs, e, subs.len())
}

/// A subscriber index is listed among the first `n` deliveries exactly when
/// it is below `n` and its interest list matches the event.
proof fn lemma_deliveries_upto(subs: Seq<Seq<IncomingEvent>>, e: IncomingEvent, n: nat, i: int)
    requires
        0 <= i <= usize::MAX,
        n <= subs.len(),
        n <= usize::MAX,
    ensures
        deliveries_upto(subs, e, n).contains(i as usize) <==> (i < n && matches_any(subs[i], e)),
    decreases n,
{
    if n > 0 {
        lemma_deliveries_upto(subs, e, (n - 1) as nat, i);
        let p = deliveries_upto(subs, e, (n - 1) as nat);
        if matches_any(subs[n - 1], e) {
            let q = p.push((n - 1) as usize);
            assert(q[q.len() - 1] == (n - 1) as usize);
            assert(q.contains((n - 1) as usize));
            assert forall|x: usize| q.contains(x) implies p.contains(x) || x == (n - 1) as usize by {
                let j = choose|j: int| 0 <= j < q.len() && q[j] == x;
                if j < p.len() {
                    assert(p[j] == x);
                    assert(p.contains(x));
                }
            }
            if i < n - 1 && matches_any(subs[i], e) {
                assert(p.contains(i as usize));
                let j = choose|j: int| 0 <= j < p.len() && p[j] == i as usize;
                assert(q[j] == i as usize);
                assert(q.contains(i as usize));
            }
        }
    }
}

/// An event is delivered to a subscriber exactly when one of the
/// subscriber's declared patterns matches it; in particular a subscriber
/// whose interest list does not match, because every pattern differs in
/// variant and neither side is a wildcard, never receives the event.
pub proof fn lemma_delivered_iff(subs: Seq<Seq<IncomingEvent>>, e: IncomingEvent, i: int)
    requires
        0 <= i < subs.len(),
        subs.len() <= usize::MAX,
    ensures
        spec_deliveries(subs, e).contains(i as usize) <==> matches_any(subs[i], e),
{
    lemma_deliveries_upto(subs, e, subs.len(), i);
}

/// A reactive policy module hosted by the router: it declares the event
/// patterns it wants, and reacts to a matching event with a new state and at
/// most one derived event.
pub trait EventManager: Sized {
    /// The module's starting state.
    spec fn spec_init() -> Self;

    /// The patterns the module subscribes to.
    spec fn interests(&self) -> Seq<IncomingEvent>;

    /// The reaction to one event: the next state and the derived event.
    spec fn spec_update(&self, e: IncomingEvent) -> (Self, Option<IncomingEvent>);

    /// A fresh module.
    fn new() -> (r: Self)
        ensures
            r == Self::spec_init(),
    ;

    /// Reacts to one event.
    fn update(&mut self, app_event: &IncomingEvent) -> (r: Option<IncomingEvent>)
        ensures
            (*final(self), r) == old(self).spec_update(*app_event),
    ;

    /// The patterns the module subscribes to.
    fn get_callbacks(&self) -> (r: Vec<IncomingEvent>)
        ensures
            r@ == self.interests(),
    ;
}

/// Translates input into commands: it tracks the pause flag, the speed
/// exponent, the cheat-mode flag and the pointer position, turns function
/// keys into speed, save, load, restart and pause commands (refusing speed
/// changes beyond the exponent range), and in cheat mode turns pointer
/// presses into direct pixel edits.
#[derive(Debug, Eq, PartialEq, Copy, Clone, Structural)]
pub struct InputEventManager {
    /// Whether emulation is currently paused.
    pub pause_state: bool,
    /// The current speed exponent.
    pub speed: i8,
    /// Whether pointer presses edit pixels directly.
    pub is_in_cheat_mode: bool,
    /// The last reported pointer column.
    pub mouse_x: usize,
    /// The last reported pointer row.
    pub mouse_y: usize,
}

impl EventManager for InputEventManager {
    open spec fn spec_init() -> Self {
        InputEventManager {
            pause_state: false,
            speed: 0,
            is_in_cheat_mode: false,
            mouse_x: 0,
            mouse_y: 0,
        }
    }

    open spec fn interests(&self) -> Seq<IncomingEvent> {
        seq![
            IncomingEvent::Pause(false),
            IncomingEvent::Input(InputEvent::Any),
            IncomingEvent::SetSpeed(0),
            IncomingEvent::SetCheatMode(true),
        ]
    }

    open spec fn spec_update(&self, e: IncomingEvent) -> (Self, Option<IncomingEvent>) {
        match e {
            IncomingEvent::SetSpeed(sp) => (InputEventManager { speed: sp, ..*self }, None),
            IncomingEvent::Pause(p) => (InputEventManager { pause_state: p, ..*self }, None),
            IncomingEvent::SetCheatMode(c) => (
                InputEventManager { is_in_cheat_mode: c, ..*self },
                None,
            ),
            IncomingEvent::Input(InputEvent::UpdateMouseCoordinates(x, y)) => (
                InputEventManager { mouse_x: x as usize, mouse_y: y as usize, ..*self },
                None,
            ),
            IncomingEvent::Input(InputEvent::MouseButtonPress(m)) => (
                *self,
                if self.is_in_cheat_mode {
                    match m {
                        MouseButton::Left => Some(
                            IncomingEvent::Interpreter(
                                InterpreterEvent::SetPixel(
                                    self.mouse_x,
                                    self.mouse_y,
                                    true,
                                ),
                            ),
                        ),
                        MouseButton::Right => Some(
                            IncomingEvent::Interpreter(
                                InterpreterEvent::SetPixel(
                                    self.mouse_x,
                                    self.mouse_y,
                                    false,
                                ),
                            ),
                        ),
                        _ => None,
                    }
                } else {
                    None
                },
            ),
            IncomingEvent::Input(InputEvent::KeyDown(k)) => (
                *self,
                match k {
                    Key::F1 => Some(IncomingEvent::SetSpeed(0)),
                    Key::F2 => if self.speed > i8::MIN {
                        Some(IncomingEvent::SetSpeed((self.speed - 1) as i8))
                    } else {
                        None
                    },
                    Key::F3 => if self.speed < i8::MAX {
                        Some(IncomingEvent::SetSpeed((self.speed + 1) as i8))
                    } else {
                        None
                    },
                    Key::F4 => Some(IncomingEvent::SetCheatMode(!self.is_in_cheat_mode)),
                    Key::F5 => Some(IncomingEvent::Interpreter(InterpreterEvent::QuickSave)),
                    Key::F6 => Some(IncomingEvent::Restart),
                    Key::F7 => Some(IncomingEvent::NewGame),
                    Key::F8 => Some(IncomingEvent::Interpreter(InterpreterEvent::QuickLoad)),
                    Key::F9 => Some(IncomingEvent::Interpreter(InterpreterEvent::Save)),
                    Key::F10 => Some(IncomingEvent::Interpreter(InterpreterEvent::Load)),
                    Key::F11 => Some(IncomingEvent::Screen(ScreenEvent::ToggleFullscreen)),
                    Key::Escape => Some(IncomingEvent::Pause(!self.pause_state)),
                    _ => None,
                },
            ),
            _ => (*self, None),
        }
    }

    fn new() -> (r: Self) {
        InputEventManager {
            pause_state: false,
            speed: 0,
            is_in_cheat_mode: false,
            mouse_x: 0,
            mouse_y: 0,
        }
    }

    fn update(&mut self, app_event: &IncomingEvent) -> (r: Option<IncomingEvent>) {
        match *app_event {
            IncomingEvent::SetSpeed(sp) => {
                self.speed = sp;
                None
            },
            IncomingEvent::Pause(p) => {
                self.pause_state = p;
                None
            },
            IncomingEvent::SetCheatMode(c) => {
                self.is_in_cheat_mode = c;
                None
            },
            IncomingEvent::Input(InputEvent::UpdateMouseCoordinates(x, y)) => {
                self.mouse_x = #[verifier::truncate] (x as usize);
                self.mouse_y = #[verifier::truncate] (y as usize);
                None
            },
            IncomingEvent::Input(InputEvent::MouseButtonPress(m)) => {
                if self.is_in_cheat_mode {
                    match m {
                        MouseButton::Left => Some(
                            IncomingEvent::Interpreter(
                                InterpreterEvent::SetPixel(
                                    self.mouse_x,
                                    self.mouse_y,
                                    true,
                                ),
                            ),
                        ),
                        MouseButton::Right => Some(
                            IncomingEvent::Interpreter(
                                InterpreterEvent::SetPixel(
                                    self.mouse_x,
                                    self.mouse_y,
                                    false,
                                ),
                            ),
                        ),
                        _ => None,
                    }
                } else {
                    None
                }
            },
            IncomingEvent::Input(InputEvent::KeyDown(k)) => {
                match k {
                    Key::F1 => Some(IncomingEvent::SetSpeed(0)),
                    Key::F2 => if self.speed > i8::MIN {
                        Some(IncomingEvent::SetSpeed(self.speed - 1))
                    } else {
                        None
                    },
                    Key::F3 => if self.speed < i8::MAX {
                        Some(IncomingEvent::SetSpeed(self.speed + 1))
                    } else {
                        None
                    },
                    Key::F4 => Some(IncomingEvent::SetCheatMode(!self.is_in_cheat_mode)),
                    Key::F5 => Some(IncomingEvent::Interpreter(InterpreterEvent::QuickSave)),
                    Key::F6 => Some(IncomingEvent::Restart),
                    Key::F7 => Some(IncomingEvent::NewGame),
                    Key::F8 => Some(IncomingEvent::Interpreter(InterpreterEvent::QuickLoad)),
                    Key::F9 => Some(IncomingEvent::Interpreter(InterpreterEvent::Save)),
                    Key::F10 => Some(IncomingEvent::Interpreter(InterpreterEvent::Load)),
                    Key::F11 => Some(IncomingEvent::Screen(ScreenEvent::ToggleFullscreen)),
                    Key::Escape => Some(IncomingEvent::Pause(!self.pause_state)),
                    _ => None,
                }
            },
            _ => None,
        }
    }

    fn get_callbacks(&self) -> (r: Vec<IncomingEvent>) {
        let mut r: Vec<IncomingEvent> = Vec::new();
        r.push(IncomingEvent::Pause(false));
        r.push(IncomingEvent::Input(InputEvent::Any));
        r.push(IncomingEvent::SetSpeed(0));
        r.push(IncomingEvent::SetCheatMode(true));
        proof {
            assert(r@ =~= self.interests());
        }
        r
    }
}

/// Reacts to window events: a resize or an unpause asks the engine to
/// repaint everything, and losing focus pauses emulation.
#[derive(Debug, Eq, PartialEq, Copy, Clone, Structural)]
pub struct AppEventManager {
    /// The module is stateless; the field keeps the struct inhabited.
    pub reserved: bool,
}

impl EventManager for AppEventManager {
    open spec fn spec_init() -> Self {
        AppEventManager { reserved: false }
    }

    open spec fn interests(&self) -> Seq<IncomingEvent> {
        seq![IncomingEvent::App(AppEvent::Any), IncomingEvent::Pause(false)]
    }

    open spec fn spec_update(&self, e: IncomingEvent) -> (Self, Option<IncomingEvent>) {
        (
            *self,
            match e {
                IncomingEvent::App(AppEvent::WindowSizeChange(..)) => Some(
                    IncomingEvent::Interpreter(InterpreterEvent::RedrawAll),
                ),
                IncomingEvent::App(AppEvent::SetFocus(false)) => Some(IncomingEvent::Pause(true)),
                IncomingEvent::Pause(false) => Some(
                    IncomingEvent::Interpreter(InterpreterEvent::RedrawAll),
                ),
                _ => None,
            },
        )
    }

    fn new() -> (r: Self) {
        AppEventManager { reserved: false }
    }

    fn update(&mut self, app_event: &IncomingEvent) -> (r: Option<IncomingEvent>) {
        match *app_event {
            IncomingEvent::App(AppEvent::WindowSizeChange(..)) => Some(
                IncomingEvent::Interpreter(InterpreterEvent::RedrawAll),
            ),
            IncomingEvent::App(AppEvent::SetFocus(false)) => Some(IncomingEvent::Pause(true)),
            IncomingEvent::Pause(false) => Some(
                IncomingEvent::Interpreter(InterpreterEvent::RedrawAll),
            ),
            _ => None,
        }
    }

    fn get_callbacks(&self) -> (r: Vec<IncomingEvent>) {
        let mut r: Vec<IncomingEvent> = Vec::new();
        r.push(IncomingEvent::App(AppEvent::Any));
        r.push(IncomingEvent::Pause(false));
        proof {
            assert(r@ =~= self.interests());
        }
        r
    }
}

/// Watches every event so the host can log pause, speed and cheat-mode
/// changes; it changes nothing and derives nothing itself.
#[derive(Debug, Eq, PartialEq, Copy, Clone, Structural)]
pub struct Logger {
    /// The module is stateless; the field keeps the struct inhabited.
    pub reserved: bool,
}

impl EventManager for Logger {
    open spec fn spec_init() -> Self {
        Logger { reserved: false }
    }

    open spec fn interests(&self) -> Seq<IncomingEvent> {
        seq![IncomingEvent::Any]
    }

    open spec fn spec_update(&self, e: IncomingEvent) -> (Self, Option<IncomingEvent>) {
        (*self, None)
    }

    fn new() -> (r: Self) {
        Logger { reserved: false }
    }

    fn update(&mut self, app_event: &IncomingEvent) -> (r: Option<IncomingEvent>) {
        None
    }

    fn get_callbacks(&self) -> (r: Vec<IncomingEvent>) {
        let mut r: Vec<IncomingEvent> = Vec::new();
        r.push(IncomingEvent::Any);
        proof {
            assert(r@ =~= self.interests());
        }
        r
    }
}

/// The router's abstract state: subscriber interest lists, the three policy
/// modules, and the FIFO queue of pending events.
#[verifier::ext_equal]
pub struct RouterView {
    /// One interest list per subscriber, in subscription order.
    pub subs: Seq<Seq<IncomingEvent>>,
    /// The input-to-command module.
    pub input: InputEventManager,
    /// The window-event module.
    pub app: AppEventManager,
    /// The logging module.
    pub logger: Logger,
    /// Events waiting to be processed, oldest first.
    pub pending: Seq<IncomingEvent>,
}

/// One router iteration: the oldest pending event is removed and handed to
/// every matching subscriber; then each policy module whose interests match
/// runs in a fixed order, its derived event queued behind everything already
/// pending. With nothing pending, nothing happens.
pub open spec fn spec_route(r: RouterView) -> (RouterView, Option<(IncomingEvent, Seq<usize>)>) {
    if r.pending.len() == 0 {
        (r, None)
    } else {
        let e = r.pending[0];
        let ds = spec_deliveries(r.subs, e);
        let st1 = if matches_any(r.input.interests(), e) {
            r.input.spec_update(e)
        } else {
            (r.input, None)
        };
        let st2 = if matches_any(r.app.interests(), e) {
            r.app.spec_update(e)
        } else {
            (r.app, None)
        };
        let st3 = if matches_any(r.logger.interests(), e) {
            r.logger.spec_update(e)
        } else {
            (r.logger, None)
        };
        let p1 = r.pending.drop_first();
        let p2 = match st1.1 {
            Some(d) => p1.push(d),
            None => p1,
        };
        let p3 = match st2.1 {
            Some(d) => p2.push(d),
            None => p2,
        };
        let p4 = match st3.1 {
            Some(d) => p3.push(d),
            None => p3,
        };
        (
            RouterView { input: st1.0, app: st2.0, logger: st3.0, pending: p4, ..r },
            Some((e, ds)),
        )
    }
}

/// The single-threaded message router: it owns the policy modules and the
/// pending-event queue, and computes which subscribers each event goes to;
/// the host performs the actual channel sends.
pub struct EventRedirectManager {
    subscriptions: Vec<Vec<IncomingEvent>>,
    input_manager: InputEventManager,
    app_manager: AppEventManager,
    logger: Logger,
    pending: Vec<IncomingEvent>,
}

impl View for EventRedirectManager {
    type V = RouterView;

    closed spec fn view(&self) -> RouterView {
        RouterView {
            subs: Seq::new(self.subscriptions@.len(), |i: int| self.subscriptions@[i]@),
            input: self.input_manager,
            app: self.app_manager,
            logger: self.logger,
            pending: self.pending@,
        }
    }
}

impl EventRedirectManager {
    /// A router over the given subscriber interest lists, with fresh policy
    /// modules and nothing pending.
    pub fn new(callbacks: Vec<Vec<IncomingEvent>>) -> (r: Self)
        ensures
            r@.subs == Seq::new(callbacks@.len(), |i: int| callbacks@[i]@),
            r@.input == InputEventManager::spec_init(),
            r@.app == AppEventManager::spec_init(),
            r@.logger == Logger::spec_init(),
            r@.pending == Seq::<IncomingEvent>::empty(),
    {
        EventRedirectManager {
            subscriptions: callbacks,
            input_manager: InputEventManager::new(),
            app_manager: AppEventManager::new(),
            logger: Logger::new(),
            pending: Vec::new(),
        }
    }

    /// Queues one event behind everything already pending.
    pub fn push_event(&mut self, e: IncomingEvent)
        ensures
            final(self)@ == (RouterView { pending: old(self)@.pending.push(e), ..old(self)@ }),
    {
        self.pending.push(e);
    }

    /// How many events are waiting.
    pub fn pending_len(&self) -> (r: usize)
        ensures
            r == self@.pending.len(),
    {
        self.pending.len()
    }

    /// Processes the oldest pending event: reports it together with the
    /// subscriber indices it must be forwarded to, runs the policy modules,
    /// and queues their derived events; `None` when nothing is pending.
    pub fn step(&mut self) -> (r: Option<(IncomingEvent, Vec<usize>)>)
        ensures
            ({
                let (rv, out) = spec_route(old(self)@);
                &&& final(self)@ == rv
                &&& (out is None ==> r is None)
                &&& (out matches Some(p) ==> r matches Some(q) && q.0 == p.0 && q.1@ == p.1)
            }),
    {
        if self.pending.len() == 0 {
            proof {
                assert(final(self)@ =~~= old(self)@);
            }
            return None;
        }
        let event = self.pending.remove(0);
        proof {
            assert(self@.pending =~= old(self)@.pending.drop_first());
        }
        let mut ds: Vec<usize> = Vec::new();
        let mut i: usize = 0;
        proof {
            assert(old(self)@.subs.len() == self.subscriptions@.len());
        }
        while i < self.subscriptions.len()
            invariant
                i <= self.subscriptions@.len(),
                self@.subs.len() == self.subscriptions@.len(),
                self@.subs == old(self)@.subs,
                event == old(self)@.pending[0],
                old(self)@.pending.len() > 0,
                self@ == (RouterView {
                    pending: old(self)@.pending.drop_first(),
                    ..old(self)@
                }),
                ds@ == deliveries_upto(old(self)@.subs, event, i as nat),
            decreases self.subscriptions@.len() - i,
        {
            let hit = any_match(&self.subscriptions[i], &event);
            proof {
                assert(self.subscriptions@[i as int]@ == self@.subs[i as int]);
            }
            if hit {
                ds.push(i);
            }
            i = i + 1;
        }
        let cb1 = self.input_manager.get_callbacks();
        if any_match(&cb1, &event) {
            let derived = self.input_manager.update(&event);
            if let Some(d) = derived {
                self.pending.push(d);
            }
        }
        let cb2 = self.app_manager.get_callbacks();
        if any_match(&cb2, &event) {
            let derived = self.app_manager.update(&event);
            if let Some(d) = derived {
                self.pending.push(d);
            }
        }
        let cb3 = self.logger.get_callbacks();
        if any_match(&cb3, &event) {
            let derived = self.logger.update(&event);
            if let Some(d) = derived {
                self.pending.push(d);
            }
        }
        proof {
            assert(final(self)@ =~~= spec_route(old(self)@).0);
        }
        Some((event, ds))
    }
}

/// Whether any pattern of the interest list matches the event.
fn any_match(interests: &Vec<IncomingEvent>, e: &IncomingEvent) -> (r: bool)
    ensures
        r == matches_any(interests@, *e),
{
    let mut i: usize = 0;
    while i < interests.len()
        invariant
            i <= interests@.len(),
            forall|j: int| 0 <= j < i ==> !event_matches(#[trigger] interests@[j], *e),
        decreases interests@.len() - i,
    {
        if interests[i].equals(e) {
            return true;
        }
        i = i + 1;
    }
    false
}

} // verus!
