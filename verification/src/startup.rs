//! Bringing up a capture path: through the portal first, then by trying video devices in turn.

use crate::camera::{setup_text, Setup};
use crate::errors::{error_text, CaptureError};
use crate::pipeline::{build_preview_pipeline, device_source, device_source_text, portal_source, portal_source_text, preview_text};
use crate::preview::{is_preview_run, preview_answer, preview_error, preview_step, previews_are_used_or_stopped, PreviewAction, PreviewEvent};
use crate::text::{lex_less, lex_less_asymmetric, lex_less_total, lex_less_transitive, starts_with, str_less};
use vstd::multiset::Multiset;
use vstd::prelude::*;
use vstd::string::StringExecFns;

verus! {

/// What has happened in the negotiation with the camera portal.
pub enum PortalEvent {
    /// The portal can be talked to.
    Connected,
    /// Whether the portal knows of a camera.
    Presence(bool),
    /// The user lets the application use the camera.
    AccessGranted,
    /// The connection to the camera is open.
    RemoteOpened { fd: i32 },
    /// What has happened to the preview on that connection.
    Preview(PreviewEvent),
    /// A step before the preview failed.
    Failed { error: String },
    /// The steps before the preview took too long.
    TimedOut,
}

/// What to do next in the negotiation.
pub enum PortalAction {
    CheckPresence,
    RequestAccess,
    OpenRemote,
    Launch { pipeline: String },
    ConfirmPlaying,
    /// Use this setup with the pipeline that plays.
    Finish { setup: Setup },
    /// Stop the pipeline, then give up.
    TearDown { error: String },
    GiveUp { error: String },
}

/// What the next step of the preview is in the negotiation.
pub open spec fn portal_preview(action: PreviewAction) -> PortalAction {
    match action {
        PreviewAction::ConfirmPlaying => PortalAction::ConfirmPlaying,
        PreviewAction::Use => PortalAction::Finish { setup: Setup::Portal },
        PreviewAction::TearDown { error } => PortalAction::TearDown { error },
        PreviewAction::GiveUp { error } => PortalAction::GiveUp { error },
    }
}

/// Whether an action is the right answer to an event.
pub open spec fn is_portal_step(event: PortalEvent, action: PortalAction) -> bool {
    match event {
        PortalEvent::Connected => action is CheckPresence,
        PortalEvent::Presence(present) => if present {
            action is RequestAccess
        } else {
            action matches PortalAction::GiveUp { error } && error@ == error_text(
                CaptureError::NoCameraPresent,
            )
        },
        PortalEvent::AccessGranted => action is OpenRemote,
        PortalEvent::RemoteOpened { fd } => action matches PortalAction::Launch { pipeline }
            && pipeline@ == preview_text(portal_source_text(fd as int)),
        PortalEvent::Preview(preview) => action == portal_preview(preview_answer(preview)),
        PortalEvent::Failed { error } => action == PortalAction::GiveUp { error },
        PortalEvent::TimedOut => action matches PortalAction::GiveUp { error } && error@
            == error_text(CaptureError::PortalTimedOut),
    }
}

/// One step of the negotiation with the portal: a camera has to be there, access to it has to be
/// granted and its connection opened before a preview is launched on it.
pub fn portal_setup_step(event: PortalEvent) -> (action: PortalAction)
    ensures
        is_portal_step(event, action),
{
    match event {
        PortalEvent::Connected => PortalAction::CheckPresence,
        PortalEvent::Presence(present) => if present {
            PortalAction::RequestAccess
        } else {
            PortalAction::GiveUp { error: CaptureError::NoCameraPresent.message() }
        },
        PortalEvent::AccessGranted => PortalAction::OpenRemote,
        PortalEvent::RemoteOpened { fd } => {
            let source: String = portal_source(fd);
            PortalAction::Launch { pipeline: build_preview_pipeline(source.as_str()) }
        },
        PortalEvent::Preview(preview) => match preview_step(preview) {
            PreviewAction::ConfirmPlaying => PortalAction::ConfirmPlaying,
            PreviewAction::Use => PortalAction::Finish { setup: Setup::Portal },
            PreviewAction::TearDown { error } => PortalAction::TearDown { error },
            PreviewAction::GiveUp { error } => PortalAction::GiveUp { error },
        },
        PortalEvent::Failed { error } => PortalAction::GiveUp { error },
        PortalEvent::TimedOut => PortalAction::GiveUp {
            error: CaptureError::PortalTimedOut.message(),
        },
    }
}

/// Whether an event can follow an action. The wait for the portal can end in a failure or run out
/// of time; nothing is waited for from the portal once a preview is launched. Nothing follows the
/// end of the negotiation.
pub open spec fn can_follow(action: PortalAction, event: PortalEvent) -> bool {
    match action {
        PortalAction::CheckPresence => event is Presence || event is Failed || event is TimedOut,
        PortalAction::RequestAccess => event is AccessGranted || event is Failed || event
            is TimedOut,
        PortalAction::OpenRemote => event is RemoteOpened || event is Failed || event is TimedOut,
        PortalAction::Launch { .. } => event matches PortalEvent::Preview(preview) && (preview
            is Launched || preview is Failed),
        PortalAction::ConfirmPlaying => event matches PortalEvent::Preview(preview) && (preview
            is Playing || preview is NotPlaying),
        _ => false,
    }
}

/// A course of the negotiation: it begins with the attempt to connect, every event is answered,
/// and every further event follows the action before it.
pub open spec fn is_portal_run(events: Seq<PortalEvent>, actions: Seq<PortalAction>) -> bool {
    &&& 0 < events.len() == actions.len()
    &&& events[0] is Connected || events[0] is Failed || events[0] is TimedOut
    &&& forall|i: int|
        0 <= i < events.len() ==> is_portal_step(#[trigger] events[i], actions[i])
    &&& forall|i: int|
        0 < i < events.len() ==> can_follow(actions[i - 1], #[trigger] events[i])
}

/// Whether an action is the one that a negotiation without a setback takes in its place.
spec fn is_stage(i: int, action: PortalAction) -> bool {
    ||| i == 0 && action is CheckPresence
    ||| i == 1 && action is RequestAccess
    ||| i == 2 && action is OpenRemote
    ||| i == 3 && action is Launch
    ||| i == 4 && action is ConfirmPlaying
    ||| i == 5 && action is Finish
}

proof fn lemma_stage(events: Seq<PortalEvent>, actions: Seq<PortalAction>, i: int)
    requires
        is_portal_run(events, actions),
        0 <= i < actions.len(),
    ensures
        is_stage(i, actions[i]) || (i < 5 && actions[i] is GiveUp) || (i == 5 && actions[i]
            is TearDown),
        i + 1 < actions.len() ==> is_stage(i, actions[i]) && i < 5,
    decreases i,
{
    assert(is_portal_step(events[i], actions[i]));
    if i > 0 {
        lemma_stage(events, actions, i - 1);
        assert(can_follow(actions[i - 1], events[i]));
    }
    if i + 1 < actions.len() {
        assert(can_follow(actions[(i + 1) - 1], events[i + 1]));
    }
}

/// A negotiation ends: no course of it has more than six events.
pub proof fn negotiation_ends(events: Seq<PortalEvent>, actions: Seq<PortalAction>)
    requires
        is_portal_run(events, actions),
    ensures
        events.len() <= 6,
{
    if events.len() > 6 {
        lemma_stage(events, actions, 5);
    }
}

/// The portal is used only after all of its steps have succeeded, in their order: the connection,
/// a camera that is present, the grant of access, the opened stream, the launched pipeline and
/// its playing.
pub proof fn portal_needs_every_step(events: Seq<PortalEvent>, actions: Seq<PortalAction>)
    requires
        is_portal_run(events, actions),
        actions.last() is Finish,
    ensures
        events.len() == 6,
        events[0] is Connected,
        events[1] == PortalEvent::Presence(true),
        events[2] is AccessGranted,
        events[3] is RemoteOpened,
        events[4] == PortalEvent::Preview(PreviewEvent::Launched),
        events[5] == PortalEvent::Preview(PreviewEvent::Playing),
{
    let n = actions.len() - 1;
    lemma_stage(events, actions, n);
    assert forall|i: int| 0 <= i <= n implies is_stage(i, #[trigger] actions[i]) && is_portal_step(
        events[i],
        actions[i],
    ) by {
        lemma_stage(events, actions, i);
    }
    assert(is_stage(0, actions[0]) && is_stage(1, actions[1]) && is_stage(2, actions[2]));
    assert(is_stage(3, actions[3]) && is_stage(4, actions[4]) && is_stage(5, actions[5]));
}

/// No preview is left running by a negotiation that fails: once one is launched, the negotiation
/// goes on to confirm it, and then ends by using it or by stopping it.
pub proof fn launched_portal_previews_are_used_or_stopped(
    events: Seq<PortalEvent>,
    actions: Seq<PortalAction>,
    i: int,
)
    requires
        is_portal_run(events, actions),
        0 <= i < events.len(),
        events[i] == PortalEvent::Preview(PreviewEvent::Launched),
    ensures
        actions[i] is ConfirmPlaying,
        i + 1 < events.len() ==> i + 2 == events.len() && (actions.last() is Finish
            || actions.last() is TearDown),
        actions.last() matches PortalAction::TearDown { error } ==> events.last()
            == PortalEvent::Preview(PreviewEvent::NotPlaying { error }),
{
    assert(is_portal_step(events[i], actions[i]));
    lemma_stage(events, actions, i);
    let n = actions.len() - 1;
    assert(is_portal_step(events[n], actions[n]));
    lemma_stage(events, actions, n);
}

/// The texts of a list of strings.
pub open spec fn texts(names: Seq<String>) -> Seq<Seq<char>> {
    names.map_values(|s: String| s@)
}

/// The names that belong to video devices, as often as they occur.
pub open spec fn video_names(names: Seq<Seq<char>>) -> Multiset<Seq<char>>
    decreases names.len(),
{
    if names.len() == 0 {
        Multiset::empty()
    } else if "video"@.is_prefix_of(names.last()) {
        video_names(names.drop_last()).insert(names.last())
    } else {
        video_names(names.drop_last())
    }
}

/// Whether names stand in ascending order.
pub open spec fn in_order(names: Seq<Seq<char>>) -> bool {
    forall|i: int, j: int|
        0 <= i < j < names.len() ==> !lex_less(#[trigger] names[j], #[trigger] names[i])
}

proof fn lemma_insert_multiset(names: Seq<Seq<char>>, p: int, name: Seq<char>)
    requires
        0 <= p <= names.len(),
    ensures
        names.insert(p, name).to_multiset() == names.to_multiset().insert(name),
{
    let after = names.insert(p, name);
    assert(after.remove(p) =~= names);
    after.to_multiset_ensures();
    assert(after[p] == name);
    assert(after.contains(name));
    assert(after.to_multiset().remove(name).insert(name) =~= after.to_multiset());
}

proof fn lemma_insert_in_order(names: Seq<Seq<char>>, p: int, name: Seq<char>)
    requires
        in_order(names),
        0 <= p <= names.len(),
        forall|i: int| 0 <= i < p ==> !lex_less(name, #[trigger] names[i]),
        p < names.len() ==> lex_less(name, names[p]),
    ensures
        in_order(names.insert(p, name)),
{
    let after = names.insert(p, name);
    assert forall|i: int, j: int| 0 <= i < j < after.len() implies !lex_less(
        #[trigger] after[j],
        #[trigger] after[i],
    ) by {
        if i == p {
            let m = names[j - 1];
            if lex_less(m, name) {
                if j - 1 == p {
                    lex_less_asymmetric(name, m);
                } else {
                    lex_less_transitive(m, name, names[p]);
                    assert(!lex_less(names[j - 1], names[p]));
                }
            }
        } else {
            let i0 = if i < p {
                i
            } else {
                i - 1
            };
            if j != p {
                let j0 = if j < p {
                    j
                } else {
                    j - 1
                };
                assert(!lex_less(names[j0], names[i0]));
            } else {
                assert(!lex_less(name, names[i0]));
            }
        }
    }
}

/// Puts a name where it belongs in an ordered list.
fn insert_name(names: &mut Vec<String>, name: String)
    requires
        in_order(texts(old(names)@)),
    ensures
        in_order(texts(final(names)@)),
        texts(final(names)@).to_multiset() == texts(old(names)@).to_multiset().insert(name@),
{
    let ghost before = texts(names@);
    let mut p: usize = 0;
    while p < names.len() && !str_less(name.as_str(), names[p].as_str())
        invariant
            p <= names.len(),
            before == texts(names@),
            forall|i: int| 0 <= i < p ==> !lex_less(name@, #[trigger] before[i]),
        decreases names.len() - p,
    {
        p = p + 1;
    }
    proof {
        lemma_insert_in_order(before, p as int, name@);
        lemma_insert_multiset(before, p as int, name@);
    }
    names.insert(p, name);
    assert(texts(names@) =~= before.insert(p as int, name@));
}

/// The video devices among the names in the device directory, in order.
pub fn video_devices(entries: &Vec<String>) -> (devices: Vec<String>)
    ensures
        in_order(texts(devices@)),
        texts(devices@).to_multiset() == video_names(texts(entries@)),
{
    let mut devices: Vec<String> = Vec::new();
    let ghost all = texts(entries@);
    let mut n: usize = 0;
    proof {
        texts(devices@).to_multiset_ensures();
        assert(texts(devices@).to_multiset() =~= Multiset::empty());
    }
    while n < entries.len()
        invariant
            n <= entries.len(),
            all == texts(entries@),
            in_order(texts(devices@)),
            texts(devices@).to_multiset() == video_names(all.take(n as int)),
        decreases entries.len() - n,
    {
        assert(all.take(n + 1).drop_last() =~= all.take(n as int));
        if starts_with(entries[n].as_str(), "video") {
            insert_name(&mut devices, entries[n].clone());
        }
        n = n + 1;
    }
    assert(all.take(entries.len() as int) =~= all);
    devices
}

/// Two ordered lists of the same names are equal.
pub proof fn order_is_unique(a: Seq<Seq<char>>, b: Seq<Seq<char>>)
    requires
        in_order(a),
        in_order(b),
        a.to_multiset() == b.to_multiset(),
    ensures
        a == b,
    decreases a.len(),
{
    a.to_multiset_ensures();
    b.to_multiset_ensures();
    assert(a.len() == b.len());
    if a.len() > 0 {
        let last = a.len() - 1;
        let x = a[last];
        let y = b[last];
        assert(a.contains(x) && b.contains(y));
        assert(a.to_multiset().count(x) > 0 && b.to_multiset().count(y) > 0);
        assert(b.contains(x) && a.contains(y));
        let i = choose|i: int| 0 <= i < b.len() && b[i] == x;
        let j = choose|j: int| 0 <= j < a.len() && a[j] == y;
        assert(!lex_less(y, x)) by {
            if i < last {
                assert(!lex_less(b[last], b[i]));
            } else {
                if lex_less(y, x) {
                    lex_less_asymmetric(y, x);
                }
            }
        }
        assert(!lex_less(x, y)) by {
            if j < last {
                assert(!lex_less(a[last], a[j]));
            } else {
                if lex_less(x, y) {
                    lex_less_asymmetric(x, y);
                }
            }
        }
        lex_less_total(x, y);
        assert(a.remove(last).to_multiset() == b.remove(last).to_multiset());
        assert(a.remove(last) =~= a.drop_last());
        assert(b.remove(last) =~= b.drop_last());
        order_is_unique(a.drop_last(), b.drop_last());
        assert(a =~= a.drop_last().push(x));
        assert(b =~= b.drop_last().push(y));
    } else {
        assert(a =~= b);
    }
}

/// The progress of a search for a video device that works.
pub struct DeviceProbe {
    names: Vec<String>,
    next: usize,
    last_error: Option<String>,
}

/// The devices to try in turn, how many have failed, and the latest failure.
pub ghost struct Probe {
    pub names: Seq<Seq<char>>,
    pub failed: int,
    pub last_error: Option<Seq<char>>,
}

impl Probe {
    /// Nothing has been tried yet.
    pub open spec fn fresh(names: Seq<Seq<char>>) -> Probe {
        Probe { names, failed: 0, last_error: None }
    }

    /// The device at hand does not work.
    pub open spec fn fail(self, error: Seq<char>) -> Probe {
        Probe { names: self.names, failed: self.failed + 1, last_error: Some(error) }
    }

    /// What an event of the preview at hand makes of the search: an error fails the device.
    pub open spec fn told(self, event: PreviewEvent) -> Probe {
        match preview_error(event) {
            Some(error) => self.fail(error),
            None => self,
        }
    }

    /// What several events make of the search.
    pub open spec fn told_all(self, events: Seq<PreviewEvent>) -> Probe
        decreases events.len(),
    {
        if events.len() == 0 {
            self
        } else {
            self.told_all(events.drop_last()).told(events.last())
        }
    }

    /// What is logged of an error of the device at hand.
    pub open spec fn failure_text(self, error: Seq<char>) -> Seq<char> {
        "  "@ + self.device() + " not usable for capture: "@ + error
    }

    /// The device node at hand.
    pub open spec fn device(self) -> Seq<char> {
        "/dev/"@ + self.names[self.failed]
    }
}

/// What to do next in the search.
pub enum ProbeStep {
    /// Bring up this preview; once it plays, this is the setup.
    Try { setup: Setup, pipeline: String },
    /// No device is left; this is why the last one failed.
    GiveUp { error: String },
}

/// What to do next with the preview of the device at hand, and what to log.
pub struct ProbeAnswer {
    pub action: PreviewAction,
    pub note: Option<String>,
}

impl View for DeviceProbe {
    type V = Probe;

    closed spec fn view(&self) -> Probe {
        Probe {
            names: texts(self.names@),
            failed: self.next as int,
            last_error: match self.last_error {
                Some(error) => Some(error@),
                None => None,
            },
        }
    }
}

impl DeviceProbe {
    /// There is a device to try, and once one has failed there is an error to report.
    pub open spec fn wf(self) -> bool {
        &&& 0 < self@.names.len()
        &&& 0 <= self@.failed <= self@.names.len()
        &&& self@.failed > 0 ==> self@.last_error is Some
    }

    /// Begins a search among the names in the device directory. Without a video device among them
    /// there is nothing to search.
    pub fn start(entries: &Vec<String>) -> (res: Result<DeviceProbe, CaptureError>)
        ensures
            match res {
                Ok(probe) => {
                    &&& probe.wf()
                    &&& probe@ == Probe::fresh(probe@.names)
                    &&& in_order(probe@.names)
                    &&& probe@.names.to_multiset() == video_names(texts(entries@))
                },
                Err(e) => e is NoVideoDevices && video_names(texts(entries@)).len() == 0,
            },
    {
        let names: Vec<String> = video_devices(entries);
        proof {
            texts(names@).to_multiset_ensures();
        }
        if names.len() == 0 {
            return Err(CaptureError::NoVideoDevices);
        }
        Ok(DeviceProbe { names, next: 0, last_error: None })
    }

    fn device(&self) -> (res: String)
        requires
            self.wf(),
            self@.failed < self@.names.len(),
        ensures
            res@ == self@.device(),
    {
        let mut out: String = "/dev/".to_owned();
        out.append(self.names[self.next].as_str());
        out
    }

    /// The next thing to do: try the device at hand, or give up with the latest failure.
    pub fn step(&self) -> (res: ProbeStep)
        requires
            self.wf(),
        ensures
            match res {
                ProbeStep::Try { setup, pipeline } => {
                    &&& self@.failed < self@.names.len()
                    &&& setup@ == Some(self@.device())
                    &&& pipeline@ == preview_text(device_source_text(self@.device()))
                },
                ProbeStep::GiveUp { error } => {
                    &&& self@.failed == self@.names.len()
                    &&& self@.last_error == Some(error@)
                },
            },
    {
        if self.next < self.names.len() {
            let device: String = self.device();
            let source: String = device_source(device.as_str());
            ProbeStep::Try {
                setup: Setup::V4l2 { device },
                pipeline: build_preview_pipeline(source.as_str()),
            }
        } else {
            ProbeStep::GiveUp { error: self.last_error.as_ref().unwrap().clone() }
        }
    }

    /// Answers what has happened to the preview of the device at hand. One that was built and
    /// does not play is stopped; with any error the search goes on to the next device.
    pub fn tell(&mut self, event: PreviewEvent) -> (res: ProbeAnswer)
        requires
            old(self).wf(),
            old(self)@.failed < old(self)@.names.len(),
        ensures
            final(self).wf(),
            final(self)@ == old(self)@.told(event),
            res.action == preview_answer(event),
            match res.note {
                Some(note) => preview_error(event) is Some && note@ == old(self)@.failure_text(
                    preview_error(event)->0,
                ),
                None => preview_error(event) is None,
            },
    {
        let action: PreviewAction = preview_step(event);
        let error: Option<String> = match &action {
            PreviewAction::TearDown { error } => Some(error.clone()),
            PreviewAction::GiveUp { error } => Some(error.clone()),
            _ => None,
        };
        let note: Option<String> = match error {
            Some(error) => Some(self.fail(error)),
            None => None,
        };
        ProbeAnswer { action, note }
    }

    /// Takes note that the device at hand does not work, and says so for the log.
    fn fail(&mut self, error: String) -> (note: String)
        requires
            old(self).wf(),
            old(self)@.failed < old(self)@.names.len(),
        ensures
            final(self).wf(),
            final(self)@ == old(self)@.fail(error@),
            note@ == old(self)@.failure_text(error@),
    {
        let mut note: String = "  ".to_owned();
        let device: String = self.device();
        note.append(device.as_str());
        note.append(" not usable for capture: ");
        note.append(error.as_str());
        assert(self.next < self.names.len());
        self.next = self.next + 1;
        self.last_error = Some(error);
        note
    }
}

/// A search after a number of failures.
pub open spec fn probe_after(names: Seq<Seq<char>>, errors: Seq<Seq<char>>) -> Probe
    decreases errors.len(),
{
    if errors.len() == 0 {
        Probe::fresh(names)
    } else {
        probe_after(names, errors.drop_last()).fail(errors.last())
    }
}

/// A search tries the devices one after the other and each of them once: after a number of
/// failures it stands at the device of that number, and it knows the latest failure.
pub proof fn probe_visits_devices_in_turn(names: Seq<Seq<char>>, errors: Seq<Seq<char>>)
    requires
        errors.len() <= names.len(),
    ensures
        probe_after(names, errors).names == names,
        probe_after(names, errors).failed == errors.len(),
        errors.len() < names.len() ==> probe_after(names, errors).device() == "/dev/"@
            + names[errors.len() as int],
        errors.len() > 0 ==> probe_after(names, errors).last_error == Some(errors.last()),
    decreases errors.len(),
{
    if errors.len() > 0 {
        probe_visits_devices_in_turn(names, errors.drop_last());
    }
}

/// The preview of one device in a search: what happened to it and how that was answered.
pub ghost struct Attempt {
    pub events: Seq<PreviewEvent>,
    pub actions: Seq<PreviewAction>,
}

/// Whether an attempt came to an error.
pub open spec fn failed_with(attempt: Attempt, error: Seq<char>) -> bool {
    &&& is_preview_run(attempt.events, attempt.actions)
    &&& preview_error(attempt.events.last()) == Some(error)
}

/// An attempt costs a search one device if it fails, and none while it does not.
pub proof fn attempts_fail_one_device(probe: Probe, attempt: Attempt)
    requires
        is_preview_run(attempt.events, attempt.actions),
    ensures
        probe.told_all(attempt.events) == probe.told(attempt.events.last()),
        attempt.actions.last() is Use ==> probe.told_all(attempt.events) == probe,
{
    let events = attempt.events;
    previews_are_used_or_stopped(events, attempt.actions);
    assert(attempt.actions[events.len() - 1] == preview_answer(events[events.len() - 1]));
    reveal_with_fuel(Probe::told_all, 3);
    if events.len() == 2 {
        assert(events.drop_last().last() == events[0]);
        assert(events.drop_last().drop_last().len() == 0);
    } else {
        assert(events.drop_last().len() == 0);
    }
}

/// A search after attempts on as many devices.
pub open spec fn searched(names: Seq<Seq<char>>, attempts: Seq<Attempt>) -> Probe
    decreases attempts.len(),
{
    if attempts.len() == 0 {
        Probe::fresh(names)
    } else {
        searched(names, attempts.drop_last()).told_all(attempts.last().events)
    }
}

/// Whether every attempt came to its error.
pub open spec fn all_failed(attempts: Seq<Attempt>, errors: Seq<Seq<char>>) -> bool {
    &&& attempts.len() == errors.len()
    &&& forall|k: int| 0 <= k < attempts.len() ==> failed_with(#[trigger] attempts[k], errors[k])
}

/// Failed attempts fail one device each.
proof fn lemma_searched(names: Seq<Seq<char>>, attempts: Seq<Attempt>, errors: Seq<Seq<char>>)
    requires
        all_failed(attempts, errors),
    ensures
        searched(names, attempts) == probe_after(names, errors),
    decreases attempts.len(),
{
    if attempts.len() > 0 {
        let n = attempts.len() - 1;
        assert(failed_with(attempts[n], errors[n]));
        assert forall|k: int| 0 <= k < n implies failed_with(
            #[trigger] attempts.drop_last()[k],
            errors.drop_last()[k],
        ) by {
            assert(failed_with(attempts[k], errors[k]));
        }
        lemma_searched(names, attempts.drop_last(), errors.drop_last());
        attempts_fail_one_device(searched(names, attempts.drop_last()), attempts.last());
    }
}

/// A search in which every attempt fails leaves nothing running: each preview that was built has
/// been stopped. It gives up once each device has failed, with the error of the last.
pub proof fn failed_searches_stop_every_preview(
    names: Seq<Seq<char>>,
    attempts: Seq<Attempt>,
    errors: Seq<Seq<char>>,
    i: int,
)
    requires
        attempts.len() <= names.len(),
        all_failed(attempts, errors),
        0 <= i < attempts.len(),
    ensures
        attempts[i].events[0] is Launched ==> attempts[i].actions.last() is TearDown,
        searched(names, attempts).names == names,
        searched(names, attempts).failed == attempts.len(),
        searched(names, attempts).last_error == preview_error(attempts.last().events.last()),
{
    lemma_searched(names, attempts, errors);
    assert(failed_with(attempts[i], errors[i]));
    previews_are_used_or_stopped(attempts[i].events, attempts[i].actions);
    probe_visits_devices_in_turn(names, errors);
    assert(failed_with(attempts[attempts.len() - 1], errors[errors.len() - 1]));
}

/// A search ends at the first device, in their order, whose preview plays: the devices before it
/// have failed and their previews are stopped, it stays at that device, and no device that comes
/// earlier in the order is left untried.
pub proof fn searches_use_the_first_device_that_plays(
    names: Seq<Seq<char>>,
    attempts: Seq<Attempt>,
    errors: Seq<Seq<char>>,
    last: Attempt,
)
    requires
        in_order(names),
        attempts.len() < names.len(),
        all_failed(attempts, errors),
        is_preview_run(last.events, last.actions),
        last.actions.last() is Use,
    ensures
        searched(names, attempts.push(last)) == searched(names, attempts),
        searched(names, attempts).names == names,
        searched(names, attempts).failed == attempts.len(),
        searched(names, attempts).device() == "/dev/"@ + names[attempts.len() as int],
        last.events.last() is Playing,
        forall|j: int|
            attempts.len() < j < names.len() ==> !lex_less(
                #[trigger] names[j],
                names[attempts.len() as int],
            ),
        forall|k: int|
            0 <= k < attempts.len() && (#[trigger] attempts[k]).events[0] is Launched
                ==> attempts[k].actions.last() is TearDown,
{
    lemma_searched(names, attempts, errors);
    probe_visits_devices_in_turn(names, errors);
    previews_are_used_or_stopped(last.events, last.actions);
    attempts_fail_one_device(searched(names, attempts), last);
    assert(attempts.push(last).drop_last() =~= attempts);
    assert forall|k: int|
        0 <= k < attempts.len() && (#[trigger] attempts[k]).events[0] is Launched implies attempts[k].actions.last()
        is TearDown by {
        assert(failed_with(attempts[k], errors[k]));
        previews_are_used_or_stopped(attempts[k].events, attempts[k].actions);
    }
}

/// What has happened while the application starts.
pub enum BootEvent {
    Begin,
    /// How the negotiation with the portal came out.
    Portal(Result<Setup, String>),
    /// How the search for a video device came out.
    Devices(Result<Setup, String>),
}

/// What to do next while the application starts; the note is for the log.
pub enum BootAction {
    TryPortal { note: String },
    TryDevices { note: String },
    Ready { setup: Setup, note: String },
    Fail { context: String, cause: String },
}

/// Whether an action is the right answer to an event: the portal first, the devices only if it
/// fails, and no capture at all if both do.
pub open spec fn is_boot_step(event: BootEvent, action: BootAction) -> bool {
    match event {
        BootEvent::Begin => action matches BootAction::TryPortal { note } && note@
            == "Trying portal capture path (org.freedesktop.portal.Camera)..."@,
        BootEvent::Portal(Err(error)) => action matches BootAction::TryDevices { note } && note@
            == "Portal path failed: "@ + error@ + "\nFalling back to direct V4L2 access:"@,
        BootEvent::Portal(Ok(setup)) | BootEvent::Devices(Ok(setup)) => {
            action matches BootAction::Ready { setup: used, note } && used == setup && note@
                == "Capture path in use: "@ + setup_text(setup)
        },
        BootEvent::Devices(Err(error)) => {
            action matches BootAction::Fail { context, cause } && context@
                == "both the portal and V4L2 capture paths failed"@ && cause == error
        },
    }
}

/// Whether an event can follow an action while the application starts.
pub open spec fn boot_can_follow(action: BootAction, event: BootEvent) -> bool {
    match action {
        BootAction::TryPortal { .. } => event is Portal,
        BootAction::TryDevices { .. } => event is Devices,
        _ => false,
    }
}

/// A course of starting the application: every event is answered, and every further event follows
/// the action before it.
pub open spec fn is_boot_run(events: Seq<BootEvent>, actions: Seq<BootAction>) -> bool {
    &&& 0 < events.len() == actions.len()
    &&& events[0] is Begin
    &&& forall|i: int| 0 <= i < events.len() ==> is_boot_step(#[trigger] events[i], actions[i])
    &&& forall|i: int|
        0 < i < events.len() ==> boot_can_follow(actions[i - 1], #[trigger] events[i])
}

/// Whether the application is ready on a setup.
pub open spec fn is_ready_on(action: BootAction, setup: Setup) -> bool {
    action matches BootAction::Ready { setup: used, .. } && used == setup
}

/// The portal is asked first and used if it can be. Video devices are searched only where it
/// fails, and the application fails to start only where both do.
pub proof fn devices_are_the_fallback(events: Seq<BootEvent>, actions: Seq<BootAction>)
    requires
        is_boot_run(events, actions),
    ensures
        events.len() <= 3,
        actions[0] is TryPortal,
        events.len() > 1 ==> (events[1] matches BootEvent::Portal(result) && match result {
            Ok(setup) => events.len() == 2 && is_ready_on(actions[1], setup),
            Err(_) => actions[1] is TryDevices,
        }),
        events.len() > 2 ==> (events[2] matches BootEvent::Devices(result) && match result {
            Ok(setup) => is_ready_on(actions[2], setup),
            Err(_) => actions[2] is Fail,
        }),
        actions.last() is Fail ==> events.len() == 3,
{
    assert(is_boot_step(events[0], actions[0]));
    if events.len() > 1 {
        assert(boot_can_follow(actions[1 - 1], events[1]));
        assert(is_boot_step(events[1], actions[1]));
    }
    if events.len() > 2 {
        assert(boot_can_follow(actions[2 - 1], events[2]));
        assert(is_boot_step(events[2], actions[2]));
    }
    if events.len() > 3 {
        assert(boot_can_follow(actions[3 - 1], events[3]));
    }
}

fn ready(setup: Setup) -> (res: BootAction)
    ensures
        res matches BootAction::Ready { setup: used, note } && used == setup && note@
            == "Capture path in use: "@ + setup_text(setup),
{
    let mut note: String = "Capture path in use: ".to_owned();
    note.append(setup.describe().as_str());
    BootAction::Ready { setup, note }
}

/// One step of starting the application.
pub fn bootstrap(event: BootEvent) -> (action: BootAction)
    ensures
        is_boot_step(event, action),
{
    match event {
        BootEvent::Begin => BootAction::TryPortal {
            note: "Trying portal capture path (org.freedesktop.portal.Camera)...".to_owned(),
        },
        BootEvent::Portal(Ok(setup)) => ready(setup),
        BootEvent::Portal(Err(error)) => {
            let mut note: String = "Portal path failed: ".to_owned();
            note.append(error.as_str());
            note.append("\nFalling back to direct V4L2 access:");
            BootAction::TryDevices { note }
        },
        BootEvent::Devices(Ok(setup)) => ready(setup),
        BootEvent::Devices(Err(error)) => BootAction::Fail {
            context: "both the portal and V4L2 capture paths failed".to_owned(),
            cause: error,
        },
    }
}

} // verus!
