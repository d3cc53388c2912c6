//! The control loop's decisions: from its state and one inbox message to its
//! next state and the window actions to perform.

use vstd::prelude::*;
use crate::channels::{
    close_json, fresh_in, message_json, open_deliveries, Channel, ChannelId, Channels,
    Delivery, WindowId,
};
use crate::codec::channel_script;
use crate::events::{ApplicationOpenLocation, EventLoopMessage, WindowButton};

verus! {

/// The channel that is told where to open the interface.
pub open spec fn ui_events() -> Seq<char> {
    "ui-events"@
}

/// The channel that is told of focus, blur and minimize.
pub open spec fn window_events() -> Seq<char> {
    "window-events"@
}

/// The script that tells the interface that the window system asked the
/// application to close and the request was refused.
pub open spec fn close_request_script() -> Seq<char> {
    "window.ipcHandler._onCloseRequested();"@
}

/// The JSON text of an open location.
pub open spec fn location_json(aol: ApplicationOpenLocation) -> Seq<char> {
    match aol {
        ApplicationOpenLocation::Auto => "\"Auto\""@,
        ApplicationOpenLocation::Generate => "\"Generate\""@,
        ApplicationOpenLocation::Retrieve => "\"Retrieve\""@,
    }
}

/// Builds the JSON text of an open location.
pub fn location_to_json(aol: ApplicationOpenLocation) -> (r: String)
    ensures
        r@ == location_json(aol),
{
    match aol {
        ApplicationOpenLocation::Auto => String::from_str("\"Auto\""),
        ApplicationOpenLocation::Generate => String::from_str("\"Generate\""),
        ApplicationOpenLocation::Retrieve => String::from_str("\"Retrieve\""),
    }
}

/// What the loop does to the window, as plain values.
pub enum Effect {
    Show,
    Deliver(WindowId, Seq<char>),
    ShowSysMenu(i32, i32),
    Close,
    Minimize,
    Hide,
    Focus,
}

/// One action for the window that the loop drives.
pub enum WindowAction {
    /// Reveal the window, with its borderless styling.
    Show,
    /// Evaluate a script in a window's web view.
    Deliver(Delivery),
    /// Open the system menu at a screen position.
    ShowSysMenu { x: i32, y: i32 },
    /// Ask the window to close.
    Close,
    Minimize,
    Hide,
    /// Focus the window and ask for the user's attention.
    Focus,
}

impl WindowAction {
    pub open spec fn view(&self) -> Effect {
        match self {
            WindowAction::Show => Effect::Show,
            WindowAction::Deliver(d) => Effect::Deliver(d.window, d.script@),
            WindowAction::ShowSysMenu { x, y } => Effect::ShowSysMenu(*x, *y),
            WindowAction::Close => Effect::Close,
            WindowAction::Minimize => Effect::Minimize,
            WindowAction::Hide => Effect::Hide,
            WindowAction::Focus => Effect::Focus,
        }
    }
}

/// What the loop was started with; it does not change while it runs.
#[derive(Clone, Copy)]
pub struct LoopConfig {
    /// Whether the window is revealed once the interface is ready.
    pub should_show_window: bool,
    /// Started in the background, with a tray icon: closing hides.
    pub is_launcher: bool,
    /// Where to open the interface when it is ready, if anywhere.
    pub application_open_location: Option<ApplicationOpenLocation>,
    /// The window that the interface runs in.
    pub window: WindowId,
}

/// The loop's state as plain values.
pub struct LoopState {
    pub initialized: bool,
    pub force_close: bool,
    pub show_with_delay: bool,
    pub channels: Map<Seq<char>, Channel>,
}

/// Pushes `json` through the channel named `name`, if one is open.
pub open spec fn push_to(channels: Map<Seq<char>, Channel>, name: Seq<char>, json: Seq<char>) -> Seq<Effect> {
    if channels.contains_key(name) {
        seq![Effect::Deliver(channels[name].window, channel_script(message_json(channels[name].id.0, json, "null"@)))]
    } else {
        Seq::<Effect>::empty()
    }
}

/// Deliveries as effects.
pub open spec fn deliver_all(ds: Seq<(WindowId, Seq<char>)>) -> Seq<Effect> {
    ds.map_values(|d: (WindowId, Seq<char>)| Effect::Deliver(d.0, d.1))
}

/// The loop's next state and its actions, on message `event`, where
/// `visible` tells whether the window is shown and `id` is the UUID that a
/// newly opened channel gets.
pub open spec fn transition(
    cfg: LoopConfig,
    s: LoopState,
    event: EventLoopMessage,
    visible: bool,
    id: ChannelId,
) -> (LoopState, Seq<Effect>) {
    match event {
        EventLoopMessage::WebAppInit => {
            if s.initialized {
                (s, seq![])
            } else if !cfg.should_show_window {
                (LoopState { initialized: true, ..s }, seq![])
            } else if s.channels.contains_key(ui_events()) && cfg.application_open_location is Some {
                (
                    LoopState { initialized: true, show_with_delay: true, ..s },
                    push_to(s.channels, ui_events(), location_json(cfg.application_open_location->0)),
                )
            } else {
                (LoopState { initialized: true, ..s }, seq![Effect::Show])
            }
        },
        EventLoopMessage::PageContentLoaded => {
            if s.show_with_delay {
                (LoopState { show_with_delay: false, ..s }, seq![Effect::Show])
            } else {
                (s, seq![])
            }
        },
        EventLoopMessage::EstablishChannel(req) => (
            LoopState { channels: s.channels.insert(req.0@, Channel { id, window: cfg.window }), ..s },
            deliver_all(open_deliveries(s.channels, req.0@, cfg.window, req.1.0 as nat, id)),
        ),
        EventLoopMessage::CloseChannel(cid) => {
            if exists|name: Seq<char>| #[trigger] s.channels.contains_key(name) && s.channels[name].id == cid {
                let name = choose|name: Seq<char>| #[trigger] s.channels.contains_key(name) && s.channels[name].id == cid;
                (s, seq![Effect::Deliver(s.channels[name].window, channel_script(close_json(cid.0)))])
            } else {
                (s, seq![])
            }
        },
        EventLoopMessage::WindowShowSysMenu { x, y } => (s, seq![Effect::ShowSysMenu(x, y)]),
        EventLoopMessage::WindowSysCommand(button) => (s, seq![
            match button {
                WindowButton::Close => Effect::Close,
                WindowButton::Minimize => Effect::Minimize,
            },
        ]),
        EventLoopMessage::WindowFocus => (s, push_to(s.channels, window_events(), "\"focus\""@)),
        EventLoopMessage::WindowBlur => (s, push_to(s.channels, window_events(), "\"blur\""@)),
        EventLoopMessage::WindowMinimize => (s, push_to(s.channels, window_events(), "\"minimized\""@)),
        EventLoopMessage::ApplicationOpenWindow(aol) => {
            if visible {
                (s, seq![Effect::Focus])
            } else if s.channels.contains_key(ui_events()) {
                (LoopState { show_with_delay: true, ..s }, push_to(s.channels, ui_events(), location_json(aol)))
            } else {
                (s, seq![Effect::Show])
            }
        },
        EventLoopMessage::ApplicationCloseWindow => {
            if cfg.is_launcher {
                (s, seq![Effect::Hide])
            } else {
                (LoopState { force_close: true, ..s }, seq![Effect::Close])
            }
        },
        EventLoopMessage::ApplicationQuit => (LoopState { force_close: true, ..s }, seq![Effect::Close]),
    }
}

/// Whether every open channel delivers to `window`.
pub open spec fn bound_to(channels: Map<Seq<char>, Channel>, window: WindowId) -> bool {
    forall|name: Seq<char>| #[trigger] channels.contains_key(name) ==> channels[name].window == window
}

/// The control loop: its configuration, its flags and the open channels.
pub struct ControlLoop {
    config: LoopConfig,
    initialized: bool,
    force_close: bool,
    show_with_delay: bool,
    channels: Channels,
}

impl ControlLoop {
    pub closed spec fn wf(&self) -> bool {
        &&& self.channels.wf()
        &&& forall|name: Seq<char>| #[trigger] self.channels@.contains_key(name)
            ==> self.channels@[name].window == self.config.window
    }

    /// What the loop was started with.
    pub closed spec fn configuration(&self) -> LoopConfig {
        self.config
    }

    pub closed spec fn view(&self) -> LoopState {
        LoopState {
            initialized: self.initialized,
            force_close: self.force_close,
            show_with_delay: self.show_with_delay,
            channels: self.channels@,
        }
    }

    /// A loop that has seen nothing yet.
    pub fn new(config: LoopConfig) -> (r: ControlLoop)
        ensures
            r.wf(),
            r.configuration() == config,
            r.issued() == Seq::<ChannelId>::empty(),
            bound_to(r@.channels, config.window),
            r@ == (LoopState {
                initialized: false,
                force_close: false,
                show_with_delay: false,
                channels: Map::empty(),
            }),
    {
        ControlLoop {
            config,
            initialized: false,
            force_close: false,
            show_with_delay: false,
            channels: Channels::new(),
        }
    }

    /// The channels that are open.
    pub fn channels(&self) -> (r: &Channels)
        requires
            self.wf(),
        ensures
            r.wf(),
            r@ == self@.channels,
    {
        &self.channels
    }

    /// Answers a close request from the window system: it is refused unless
    /// a close or quit was asked for, and every refusal tells the interface,
    /// in the loop's window, that the application was asked to close.
    pub fn close_requested(&self) -> (r: (bool, Vec<WindowAction>))
        ensures
            r.0 == !self@.force_close,
            r.1@.map_values(|a: WindowAction| a.view()) == (if r.0 {
                seq![Effect::Deliver(self.configuration().window, close_request_script())]
            } else {
                Seq::<Effect>::empty()
            }),
    {
        let mut actions: Vec<WindowAction> = Vec::new();
        if !self.force_close {
            let script = String::from_str("window.ipcHandler._onCloseRequested();");
            actions.push(WindowAction::Deliver(Delivery { window: self.config.window, script }));
        }
        assert(actions@.map_values(|a: WindowAction| a.view()) =~= (if !self.force_close {
            seq![Effect::Deliver(self.configuration().window, close_request_script())]
        } else {
            Seq::<Effect>::empty()
        }));
        (!self.force_close, actions)
    }

    /// Every open channel delivers to the loop's window.
    pub proof fn lemma_channels_bound(&self)
        requires
            self.wf(),
        ensures
            bound_to(self@.channels, self.configuration().window),
    {
    }

    /// The UUIDs given to channels so far, replaced channels' included.
    pub closed spec fn issued(&self) -> Seq<ChannelId> {
        self.channels.issued()
    }

    fn push_to_channel(&self, name: &str, json: &str, actions: &mut Vec<WindowAction>) -> (pushed: bool)
        requires
            self.wf(),
        ensures
            pushed == self@.channels.contains_key(name@),
            final(actions)@.map_values(|a: WindowAction| a.view())
                == old(actions)@.map_values(|a: WindowAction| a.view()) + push_to(self@.channels, name@, json@),
    {
        let ghost before = actions@;
        match self.channels.get_channel(name) {
            Some(channel) => {
                actions.push(WindowAction::Deliver(channel.send_message(json)));
                proof {
                    assert(actions@.map_values(|a: WindowAction| a.view())
                        =~= before.map_values(|a: WindowAction| a.view()) + push_to(self@.channels, name@, json@));
                }
                true
            },
            None => {
                proof {
                    assert(actions@.map_values(|a: WindowAction| a.view())
                        =~= before.map_values(|a: WindowAction| a.view()) + push_to(self@.channels, name@, json@));
                }
                false
            },
        }
    }

    /// Reacts to `event`. `visible` tells whether the window is shown; `id`
    /// is the UUID that a channel opened by this event gets.
    pub fn step(&mut self, event: EventLoopMessage, visible: bool, id: ChannelId) -> (r: Vec<WindowAction>)
        requires
            old(self).wf(),
        ensures
            final(self).wf(),
            final(self).configuration() == old(self).configuration(),
            bound_to(final(self)@.channels, final(self).configuration().window),
            final(self).issued() == (if event is EstablishChannel { old(self).issued().push(id) } else { old(self).issued() }),
            (final(self)@, r@.map_values(|a: WindowAction| a.view()))
                == transition(old(self).configuration(), old(self)@, event, visible, id),
    {
        let ghost s0 = self@;
        let ghost cfg = self.config;
        let ghost ev = event;
        let mut actions: Vec<WindowAction> = Vec::new();
        assert(actions@.map_values(|a: WindowAction| a.view()) =~= Seq::<Effect>::empty());
        match event {
            EventLoopMessage::WebAppInit => {
                if !self.initialized {
                    if self.config.should_show_window {
                        let mut success = false;
                        match self.config.application_open_location {
                            Some(aol) => {
                                let json = location_to_json(aol);
                                success = self.push_to_channel("ui-events", json.as_str(), &mut actions);
                                if success {
                                    self.show_with_delay = true;
                                }
                            },
                            None => {},
                        }
                        if !success {
                            actions.push(WindowAction::Show);
                        }
                    }
                    self.initialized = true;
                }
            },
            EventLoopMessage::PageContentLoaded => {
                if self.show_with_delay {
                    self.show_with_delay = false;
                    actions.push(WindowAction::Show);
                }
            },
            EventLoopMessage::EstablishChannel(req) => {
                let window = self.config.window;
                let mut deliveries = self.channels.open_channel_with_id(req.0.as_str(), window, req.1, id);
                let ghost all = deliveries@;
                let ghost n = deliveries@.len();
                while deliveries.len() > 0
                    invariant
                        deliveries@ == all.skip(n - deliveries@.len()),
                        deliveries@.len() <= n,
                        n == all.len(),
                        actions@.map_values(|a: WindowAction| a.view())
                            == deliver_all(all.take(n - deliveries@.len()).map_values(|d: Delivery| d@)),
                    decreases deliveries@.len(),
                {
                    let ghost k = n - deliveries@.len();
                    let ghost before = actions@;
                    let d = deliveries.remove(0);
                    assert(d == all[k]);
                    actions.push(WindowAction::Deliver(d));
                    proof {
                        assert(all.take(k + 1) =~= all.take(k).push(all[k]));
                        assert(all.take(k + 1).map_values(|d: Delivery| d@)
                            =~= all.take(k).map_values(|d: Delivery| d@).push(all[k]@));
                        assert(actions@.map_values(|a: WindowAction| a.view())
                            =~= before.map_values(|a: WindowAction| a.view()).push(Effect::Deliver(d.window, d.script@)));
                        assert(deliveries@ =~= all.skip(n - deliveries@.len()));
                        assert(actions@.map_values(|a: WindowAction| a.view())
                            =~= deliver_all(all.take(n - deliveries@.len()).map_values(|d: Delivery| d@)));
                    }
                }
                proof {
                    assert(all.take(n as int) =~= all);
                    assert forall|name: Seq<char>| #[trigger] self.channels@.contains_key(name)
                        implies self.channels@[name].window == self.config.window by {
                        if name != req.0@ {
                            assert(s0.channels.contains_key(name));
                        }
                    }
                }
            },
            EventLoopMessage::CloseChannel(cid) => {
                match self.channels.get_channel_by_id(cid) {
                    Some(channel) => {
                        actions.push(WindowAction::Deliver(channel.send_close()));
                        proof {
                            let name = choose|name: Seq<char>| #[trigger] s0.channels.contains_key(name) && s0.channels[name].id == cid;
                            assert(s0.channels.contains_key(name));
                        }
                    },
                    None => {},
                }
            },
            EventLoopMessage::WindowShowSysMenu { x, y } => {
                actions.push(WindowAction::ShowSysMenu { x, y });
            },
            EventLoopMessage::WindowSysCommand(button) => {
                match button {
                    WindowButton::Close => actions.push(WindowAction::Close),
                    WindowButton::Minimize => actions.push(WindowAction::Minimize),
                }
            },
            EventLoopMessage::WindowFocus => {
                self.push_to_channel("window-events", "\"focus\"", &mut actions);
            },
            EventLoopMessage::WindowBlur => {
                self.push_to_channel("window-events", "\"blur\"", &mut actions);
            },
            EventLoopMessage::WindowMinimize => {
                self.push_to_channel("window-events", "\"minimized\"", &mut actions);
            },
            EventLoopMessage::ApplicationOpenWindow(aol) => {
                if !visible {
                    let json = location_to_json(aol);
                    if self.push_to_channel("ui-events", json.as_str(), &mut actions) {
                        self.show_with_delay = true;
                    } else {
                        actions.push(WindowAction::Show);
                    }
                } else {
                    actions.push(WindowAction::Focus);
                }
            },
            EventLoopMessage::ApplicationCloseWindow => {
                if self.config.is_launcher {
                    actions.push(WindowAction::Hide);
                } else {
                    self.force_close = true;
                    actions.push(WindowAction::Close);
                }
            },
            EventLoopMessage::ApplicationQuit => {
                self.force_close = true;
                actions.push(WindowAction::Close);
            },
        }
        assert(actions@.map_values(|a: WindowAction| a.view()) =~= transition(cfg, s0, ev, visible, id).1);
        assert(self@ == transition(cfg, s0, ev, visible, id).0);
        actions
    }

    /// Reacts to `event` as `step` does; a channel that it opens gets a UUID
    /// that no open channel carries.
    pub fn handle(&mut self, event: EventLoopMessage, visible: bool) -> (r: Vec<WindowAction>)
        requires
            old(self).wf(),
        ensures
            final(self).wf(),
            final(self).configuration() == old(self).configuration(),
            bound_to(final(self)@.channels, final(self).configuration().window),
            !(event is EstablishChannel) ==> final(self).issued() == old(self).issued(),
            exists|id: ChannelId| (event is EstablishChannel ==> !old(self).issued().contains(id)
                && fresh_in(old(self)@.channels, id)
                && final(self).issued() == old(self).issued().push(id))
                && (final(self)@, r@.map_values(|a: WindowAction| a.view()))
                == #[trigger] transition(old(self).configuration(), old(self)@, event, visible, id),
    {
        let id = match &event {
            EventLoopMessage::EstablishChannel(_) => self.channels.fresh_channel_id(),
            _ => ChannelId(0),
        };
        self.step(event, visible, id)
    }
}

/// With a reveal deferred until the interface has shown where to open, the
/// ready signal does not reveal the window; the content-loaded signal that
/// follows does, and nothing else.
pub proof fn lemma_reveal_waits_for_content(cfg: LoopConfig, s: LoopState, visible: bool, id: ChannelId)
    requires
        !s.initialized,
        cfg.should_show_window,
        cfg.application_open_location is Some,
        s.channels.contains_key(ui_events()),
    ensures
        ({
            let (s1, effects1) = transition(cfg, s, EventLoopMessage::WebAppInit, visible, id);
            let (s2, effects2) = transition(cfg, s1, EventLoopMessage::PageContentLoaded, visible, id);
            &&& forall|i: int| 0 <= i < effects1.len() ==> effects1[i] != Effect::Show
            &&& s1.show_with_delay
            &&& effects2 == seq![Effect::Show]
            &&& !s2.show_with_delay
        }),
{
}

/// Closing a UUID that no open channel carries sends nothing and changes
/// nothing.
pub proof fn lemma_close_unknown_is_noop(cfg: LoopConfig, s: LoopState, cid: ChannelId, visible: bool, id: ChannelId)
    requires
        forall|name: Seq<char>| #[trigger] s.channels.contains_key(name) ==> s.channels[name].id != cid,
    ensures
        transition(cfg, s, EventLoopMessage::CloseChannel(cid), visible, id) == (s, Seq::<Effect>::empty()),
{
}

} // verus!
