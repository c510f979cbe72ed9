//! The daemon-side command handler: a mirror of each known service's status
//! and process id, kept current from the supervisor's events, and the
//! domain operations served from it.
use vstd::prelude::*;

use crate::messages::{str_eq, HorustChangeServiceStatus, HorustMsgServiceStatus};

verus! {

/// Lifecycle status of a service inside the supervisor.
#[derive(Clone, Copy, Debug, PartialEq, Eq, Structural, Hash)]
pub enum ServiceStatus {
    Starting,
    Started,
    Running,
    InKilling,
    Success,
    Finished,
    FinishedFailed,
    Failed,
    Initial,
}

/// The wire status that stands for each supervisor status.
pub open spec fn wire_status(s: ServiceStatus) -> HorustMsgServiceStatus {
    match s {
        ServiceStatus::Starting => HorustMsgServiceStatus::Starting,
        ServiceStatus::Started => HorustMsgServiceStatus::Started,
        ServiceStatus::Running => HorustMsgServiceStatus::Running,
        ServiceStatus::InKilling => HorustMsgServiceStatus::Inkilling,
        ServiceStatus::Success => HorustMsgServiceStatus::Success,
        ServiceStatus::Finished => HorustMsgServiceStatus::Finished,
        ServiceStatus::FinishedFailed => HorustMsgServiceStatus::Finishedfailed,
        ServiceStatus::Failed => HorustMsgServiceStatus::Failed,
        ServiceStatus::Initial => HorustMsgServiceStatus::Initial,
    }
}

/// Maps a supervisor status to its wire status.
pub fn from_service_status(status: &ServiceStatus) -> (r: HorustMsgServiceStatus)
    ensures
        r == wire_status(*status),
{
    match status {
        ServiceStatus::Starting => HorustMsgServiceStatus::Starting,
        ServiceStatus::Started => HorustMsgServiceStatus::Started,
        ServiceStatus::Running => HorustMsgServiceStatus::Running,
        ServiceStatus::InKilling => HorustMsgServiceStatus::Inkilling,
        ServiceStatus::Success => HorustMsgServiceStatus::Success,
        ServiceStatus::Finished => HorustMsgServiceStatus::Finished,
        ServiceStatus::FinishedFailed => HorustMsgServiceStatus::Finishedfailed,
        ServiceStatus::Failed => HorustMsgServiceStatus::Failed,
        ServiceStatus::Initial => HorustMsgServiceStatus::Initial,
    }
}

/// An event of the supervisor's bus, as far as this handler reads or sends it.
#[derive(Clone, Debug, PartialEq, Eq)]
pub enum Event {
    StatusChanged(String, ServiceStatus),
    PidChanged(String, i32),
    ShuttingDownInitiated,
    StatusUpdate(String, ServiceStatus),
    ForceKill(String),
    Run(String),
    /// Any event kind that this handler ignores.
    Other,
}

/// The mathematical model of an event.
pub ghost enum EventView {
    StatusChanged(Seq<char>, ServiceStatus),
    PidChanged(Seq<char>, i32),
    ShuttingDownInitiated,
    StatusUpdate(Seq<char>, ServiceStatus),
    ForceKill(Seq<char>),
    Run(Seq<char>),
    Other,
}

impl View for Event {
    type V = EventView;

    open spec fn view(&self) -> EventView {
        match self {
            Event::StatusChanged(n, s) => EventView::StatusChanged(n@, *s),
            Event::PidChanged(n, p) => EventView::PidChanged(n@, *p),
            Event::ShuttingDownInitiated => EventView::ShuttingDownInitiated,
            Event::StatusUpdate(n, s) => EventView::StatusUpdate(n@, *s),
            Event::ForceKill(n) => EventView::ForceKill(n@),
            Event::Run(n) => EventView::Run(n@),
            Event::Other => EventView::Other,
        }
    }
}

/// The models of a list of events.
pub open spec fn events_view(evs: Seq<Event>) -> Seq<EventView> {
    evs.map_values(|e: Event| e@)
}

/// One known service in the mirror.
pub struct ServiceEntry {
    pub name: String,
    pub status: ServiceStatus,
    pub pid: i32,
}

/// Whether no two entries share a name.
pub open spec fn names_unique(s: Seq<ServiceEntry>) -> bool {
    forall|i: int, j: int| 0 <= i < j < s.len() ==> s[i].name@ != s[j].name@
}

/// Whether some entry is named `k`.
pub open spec fn named(s: Seq<ServiceEntry>, k: Seq<char>) -> bool {
    exists|i: int| 0 <= i < s.len() && s[i].name@ == k
}

/// The position of the entry named `k`.
pub open spec fn position(s: Seq<ServiceEntry>, k: Seq<char>) -> int {
    choose|i: int| 0 <= i < s.len() && s[i].name@ == k
}

/// The status of each named entry.
pub open spec fn status_map(s: Seq<ServiceEntry>) -> Map<Seq<char>, ServiceStatus> {
    Map::new(|k: Seq<char>| named(s, k), |k: Seq<char>| s[position(s, k)].status)
}

/// The process id of each named entry.
pub open spec fn pid_map(s: Seq<ServiceEntry>) -> Map<Seq<char>, i32> {
    Map::new(|k: Seq<char>| named(s, k), |k: Seq<char>| s[position(s, k)].pid)
}

/// A status mirror after one event: a status change of a known service
/// overwrites its status; nothing else changes it.
pub open spec fn next_statuses(m: Map<Seq<char>, ServiceStatus>, e: EventView) -> Map<
    Seq<char>,
    ServiceStatus,
> {
    match e {
        EventView::StatusChanged(n, s) => if m.contains_key(n) {
            m.insert(n, s)
        } else {
            m
        },
        _ => m,
    }
}

/// A pid mirror after one event: a pid change of a known service
/// overwrites its pid; nothing else changes it.
pub open spec fn next_pids(m: Map<Seq<char>, i32>, e: EventView) -> Map<Seq<char>, i32> {
    match e {
        EventView::PidChanged(n, p) => if m.contains_key(n) {
            m.insert(n, p)
        } else {
            m
        },
        _ => m,
    }
}

/// A status mirror after a run of events.
pub open spec fn fold_statuses(m: Map<Seq<char>, ServiceStatus>, es: Seq<EventView>) -> Map<
    Seq<char>,
    ServiceStatus,
>
    decreases es.len(),
{
    if es.len() == 0 {
        m
    } else {
        next_statuses(fold_statuses(m, es.drop_last()), es.last())
    }
}

/// A pid mirror after a run of events.
pub open spec fn fold_pids(m: Map<Seq<char>, i32>, es: Seq<EventView>) -> Map<Seq<char>, i32>
    decreases es.len(),
{
    if es.len() == 0 {
        m
    } else {
        next_pids(fold_pids(m, es.drop_last()), es.last())
    }
}

/// Error text for a status lookup of an unknown service.
pub open spec fn not_found_text(name: Seq<char>) -> Seq<char> {
    "Error: service "@ + name + " not found."@
}

/// Error text for a pid lookup of an unknown service.
pub open spec fn pid_not_found_text(name: Seq<char>) -> Seq<char> {
    "Error: service "@ + name + " pid not found."@
}

/// Error text for a service whose process is not alive.
pub open spec fn process_not_found_text(name: Seq<char>) -> Seq<char> {
    "Error: service "@ + name + " process not found."@
}

/// Error text for a change of an unknown service.
pub open spec fn change_unknown_text(name: Seq<char>) -> Seq<char> {
    "Service "@ + name + " not found."@
}

/// Error text for a change of a service that is not running.
pub open spec fn change_refused_text(name: Seq<char>) -> Seq<char> {
    "Service "@ + name + " status is not present."@
}

/// The commands that realise a change of a running service: force it
/// towards killing and kill it, and for a start run it again.
pub open spec fn change_commands(name: Seq<char>, c: HorustChangeServiceStatus) -> Seq<EventView> {
    match c {
        HorustChangeServiceStatus::Start => seq![
            EventView::StatusUpdate(name, ServiceStatus::InKilling),
            EventView::ForceKill(name),
            EventView::Run(name),
        ],
        HorustChangeServiceStatus::Stop => seq![
            EventView::StatusUpdate(name, ServiceStatus::InKilling),
            EventView::ForceKill(name),
        ],
    }
}

/// Whether `r` is an error whose text is `text`.
pub open spec fn fails_with<T>(r: Result<T, String>, text: Seq<char>) -> bool {
    r matches Err(e) && e@ == text
}

/// Builds `a` followed by `b` and `c`.
fn text3(a: &str, b: &str, c: &str) -> (r: String)
    ensures
        r@ == a@ + b@ + c@,
{
    String::from_str(a).concat(b).concat(c)
}

/// The mirror of the known services, and the commands emitted for the
/// supervisor that have not been handed out yet.
pub struct CommandsHandler {
    services: Vec<ServiceEntry>,
    outbox: Vec<Event>,
}

impl CommandsHandler {
    /// No two known services share a name.
    pub closed spec fn wf(&self) -> bool {
        names_unique(self.services@)
    }

    /// The mirrored status of each known service.
    pub closed spec fn statuses(&self) -> Map<Seq<char>, ServiceStatus> {
        status_map(self.services@)
    }

    /// The mirrored process id of each known service.
    pub closed spec fn pids(&self) -> Map<Seq<char>, i32> {
        pid_map(self.services@)
    }

    /// The commands emitted and not yet handed out, oldest first.
    pub closed spec fn pending(&self) -> Seq<EventView> {
        events_view(self.outbox@)
    }

    /// A mirror of the services named in `services`, each with status
    /// `Initial` and pid 0; a repeated name counts once.
    pub fn new(services: Vec<String>) -> (r: CommandsHandler)
        ensures
            r.wf(),
            r.statuses().dom() == services@.map_values(|s: String| s@).to_set(),
            forall|k: Seq<char>| #[trigger]
                r.statuses().contains_key(k) ==> r.statuses()[k] == ServiceStatus::Initial,
            r.pids().dom() == r.statuses().dom(),
            forall|k: Seq<char>| #[trigger] r.pids().contains_key(k) ==> r.pids()[k] == 0,
            r.pending().len() == 0,
    {
        let mut entries: Vec<ServiceEntry> = Vec::new();
        let mut i: usize = 0;
        while i < services.len()
            invariant
                i <= services.len(),
                names_unique(entries@),
                forall|j: int| 0 <= j < entries.len() ==> (#[trigger] entries@[j]).status
                    == ServiceStatus::Initial && entries@[j].pid == 0,
                forall|k: Seq<char>| named(entries@, k) <==> exists|j: int|
                    0 <= j < i && #[trigger] services@[j]@ == k,
            decreases services.len() - i,
        {
            let known = find_entry(&entries, services[i].as_str());
            if known.is_none() {
                let ghost old_entries = entries@;
                entries.push(
                    ServiceEntry {
                        name: services[i].clone(),
                        status: ServiceStatus::Initial,
                        pid: 0,
                    },
                );
                assert forall|k: Seq<char>| named(entries@, k) <==> exists|j: int|
                    0 <= j < i + 1 && #[trigger] services@[j]@ == k by {
                    if named(entries@, k) {
                        let p = choose|p: int| 0 <= p < entries.len() && entries@[p].name@ == k;
                        if p < old_entries.len() {
                            assert(old_entries[p] == entries@[p]);
                            assert(named(old_entries, k));
                        } else {
                            assert(services@[i as int]@ == k);
                        }
                    }
                    if exists|j: int| 0 <= j < i + 1 && #[trigger] services@[j]@ == k {
                        let j = choose|j: int| 0 <= j < i + 1 && #[trigger] services@[j]@ == k;
                        if j < i {
                            assert(named(old_entries, k));
                            let p = choose|p: int|
                                0 <= p < old_entries.len() && old_entries[p].name@ == k;
                            assert(entries@[p] == old_entries[p]);
                        } else {
                            assert(entries@[old_entries.len() as int].name@ == k);
                        }
                    }
                }
            } else {
                assert forall|k: Seq<char>| named(entries@, k) <==> exists|j: int|
                    0 <= j < i + 1 && #[trigger] services@[j]@ == k by {
                    if exists|j: int| 0 <= j < i + 1 && #[trigger] services@[j]@ == k {
                        let j = choose|j: int| 0 <= j < i + 1 && #[trigger] services@[j]@ == k;
                        if j == i {
                            let p = known.unwrap() as int;
                            assert(entries@[p].name@ == k);
                        }
                    }
                }
            }
            i = i + 1;
        }
        let r = CommandsHandler { services: entries, outbox: Vec::new() };
        let ghost names = services@.map_values(|s: String| s@);
        assert(r.statuses().dom() =~= names.to_set()) by {
            assert forall|k: Seq<char>| names.to_set().contains(k) <==> named(entries@, k) by {
                if names.to_set().contains(k) {
                    let j = choose|j: int| 0 <= j < names.len() && #[trigger] names[j] == k;
                    assert(services@[j]@ == k);
                }
                if named(entries@, k) {
                    let j = choose|j: int| 0 <= j < services.len() && #[trigger] services@[j]@
                        == k;
                    assert(names[j] == k);
                }
            }
        }
        assert(r.pids().dom() =~= r.statuses().dom());
        assert(r.pending() =~= Seq::<EventView>::empty());
        r
    }

    /// The wire status of `service_name`, or the not-found error.
    pub fn get_service_status(&self, service_name: &str) -> (r: Result<
        HorustMsgServiceStatus,
        String,
    >)
        requires
            self.wf(),
        ensures
            self.statuses().contains_key(service_name@) ==> r == Ok::<
                HorustMsgServiceStatus,
                String,
            >(wire_status(self.statuses()[service_name@])),
            !self.statuses().contains_key(service_name@) ==> fails_with(r, not_found_text(service_name@)),
    {
        match find_entry(&self.services, service_name) {
            Some(i) => Ok(from_service_status(&self.services[i].status)),
            None => Err(text3("Error: service ", service_name, " not found.")),
        }
    }

    /// The mirrored process id of `service_name`, or the pid-not-found error.
    pub fn service_pid(&self, service_name: &str) -> (r: Result<i32, String>)
        requires
            self.wf(),
        ensures
            self.pids().contains_key(service_name@) ==> r == Ok::<i32, String>(
                self.pids()[service_name@],
            ),
            !self.pids().contains_key(service_name@) ==> fails_with(r, pid_not_found_text(service_name@)),
    {
        match find_entry(&self.services, service_name) {
            Some(i) => Ok(self.services[i].pid),
            None => Err(text3("Error: service ", service_name, " pid not found.")),
        }
    }

    /// Asks for a transition of `service_name`. It is accepted only for a
    /// known service whose mirrored status is `Running`; then the commands
    /// that realise it are emitted and the mirrored status, which the
    /// commands have not changed yet, is returned.
    pub fn update_service_status(
        &mut self,
        service_name: &str,
        new_status: HorustChangeServiceStatus,
    ) -> (r: Result<HorustMsgServiceStatus, String>)
        requires
            old(self).wf(),
        ensures
            final(self).wf(),
            final(self).statuses() == old(self).statuses(),
            final(self).pids() == old(self).pids(),
            !old(self).statuses().contains_key(service_name@) ==> fails_with(r, change_unknown_text(service_name@)) && final(self).pending() == old(
                self,
            ).pending(),
            old(self).statuses().contains_key(service_name@) && old(self).statuses()[service_name@]
                != ServiceStatus::Running ==> fails_with(r, change_refused_text(service_name@)) && final(self).pending() == old(self).pending(),
            old(self).statuses().contains_key(service_name@) && old(self).statuses()[service_name@]
                == ServiceStatus::Running ==> r == Ok::<HorustMsgServiceStatus, String>(
                HorustMsgServiceStatus::Running,
            ) && final(self).pending() == old(self).pending() + change_commands(
                service_name@,
                new_status,
            ),
    {
        let i = match find_entry(&self.services, service_name) {
            Some(i) => i,
            None => {
                return Err(text3("Service ", service_name, " not found."));
            },
        };
        if self.services[i].status != ServiceStatus::Running {
            return Err(text3("Service ", service_name, " status is not present."));
        }
        let ghost before = self.outbox@;
        self.outbox.push(
            Event::StatusUpdate(String::from_str(service_name), ServiceStatus::InKilling),
        );
        self.outbox.push(Event::ForceKill(String::from_str(service_name)));
        match new_status {
            HorustChangeServiceStatus::Start => {
                self.outbox.push(Event::Run(String::from_str(service_name)));
            },
            HorustChangeServiceStatus::Stop => {},
        }
        assert(self.pending() =~= events_view(before) + change_commands(
            service_name@,
            new_status,
        ));
        self.get_service_status(service_name)
    }

    /// Applies one event of the bus to the mirror; returns `false` for the
    /// shutdown event, after which the handler stops.
    pub fn apply_event(&mut self, event: &Event) -> (go_on: bool)
        requires
            old(self).wf(),
        ensures
            final(self).wf(),
            go_on == !(event@ is ShuttingDownInitiated),
            final(self).statuses() == next_statuses(old(self).statuses(), event@),
            final(self).pids() == next_pids(old(self).pids(), event@),
            final(self).pending() == old(self).pending(),
    {
        match event {
            Event::StatusChanged(name, status) => {
                if let Some(i) = find_entry(&self.services, name.as_str()) {
                    let entry = ServiceEntry {
                        name: self.services[i].name.clone(),
                        status: *status,
                        pid: self.services[i].pid,
                    };
                    proof {
                        lemma_replace_entry(self.services@, i as int, entry);
                    }
                    self.services.set(i, entry);
                }
                true
            },
            Event::PidChanged(name, pid) => {
                if let Some(i) = find_entry(&self.services, name.as_str()) {
                    let entry = ServiceEntry {
                        name: self.services[i].name.clone(),
                        status: self.services[i].status,
                        pid: *pid,
                    };
                    proof {
                        lemma_replace_entry(self.services@, i as int, entry);
                    }
                    self.services.set(i, entry);
                }
                true
            },
            Event::ShuttingDownInitiated => false,
            _ => true,
        }
    }

    /// Applies the events drained from the bus in order, up to the first
    /// shutdown event; returns `false` when there was one.
    pub fn apply_events(&mut self, events: &Vec<Event>) -> (go_on: bool)
        requires
            old(self).wf(),
        ensures
            final(self).wf(),
            final(self).pending() == old(self).pending(),
            go_on == forall|j: int|
                0 <= j < events.len() ==> !((#[trigger] events@[j])@ is ShuttingDownInitiated),
            go_on ==> final(self).statuses() == fold_statuses(
                old(self).statuses(),
                events_view(events@),
            ) && final(self).pids() == fold_pids(old(self).pids(), events_view(events@)),
            !go_on ==> exists|k: int|
                0 <= k < events.len() && (#[trigger] events@[k])@ is ShuttingDownInitiated && (
                forall|j: int| 0 <= j < k ==> !((#[trigger] events@[j])@ is ShuttingDownInitiated))
                    && final(self).statuses() == fold_statuses(
                    old(self).statuses(),
                    events_view(events@.take(k)),
                ) && final(self).pids() == fold_pids(
                    old(self).pids(),
                    events_view(events@.take(k)),
                ),
    {
        let ghost statuses0 = self.statuses();
        let ghost pids0 = self.pids();
        let mut i: usize = 0;
        while i < events.len()
            invariant
                i <= events.len(),
                self.wf(),
                self.pending() == old(self).pending(),
                statuses0 == old(self).statuses(),
                pids0 == old(self).pids(),
                forall|j: int| 0 <= j < i ==> !((#[trigger] events@[j])@ is ShuttingDownInitiated),
                self.statuses() == fold_statuses(statuses0, events_view(events@.take(i as int))),
                self.pids() == fold_pids(pids0, events_view(events@.take(i as int))),
            decreases events.len() - i,
        {
            let ghost prefix = events_view(events@.take(i as int));
            let ghost longer = events_view(events@.take(i + 1));
            assert(longer.drop_last() =~= prefix);
            assert(longer.last() == events@[i as int]@);
            if !self.apply_event(&events[i]) {
                return false;
            }
            i = i + 1;
        }
        assert(events@.take(events.len() as int) =~= events@);
        true
    }

    /// Hands out the commands emitted so far, oldest first, and forgets them.
    pub fn take_events(&mut self) -> (r: Vec<Event>)
        ensures
            events_view(r@) == old(self).pending(),
            final(self).pending().len() == 0,
            final(self).wf() == old(self).wf(),
            final(self).statuses() == old(self).statuses(),
            final(self).pids() == old(self).pids(),
    {
        let mut out: Vec<Event> = Vec::new();
        std::mem::swap(&mut out, &mut self.outbox);
        assert(self.pending() =~= Seq::<EventView>::empty());
        out
    }
}

/// The answer to an info request for `service_name` once its process has
/// been sampled: the sampled line, or the process-not-found error when no
/// live process has the mirrored id.
pub fn info_result(service_name: &str, sample: Option<String>) -> (r: Result<String, String>)
    ensures
        sample matches Some(line) ==> r == Ok::<String, String>(line),
        sample is None ==> fails_with(r, process_not_found_text(service_name@)),
{
    match sample {
        Some(line) => Ok(line),
        None => Err(text3("Error: service ", service_name, " process not found.")),
    }
}

/// Replacing an entry by one of the same name keeps the names unique and
/// overwrites that name's status and pid.
proof fn lemma_replace_entry(s: Seq<ServiceEntry>, i: int, e: ServiceEntry)
    requires
        names_unique(s),
        0 <= i < s.len(),
        e.name@ == s[i].name@,
    ensures
        names_unique(s.update(i, e)),
        status_map(s.update(i, e)) == status_map(s).insert(e.name@, e.status),
        pid_map(s.update(i, e)) == pid_map(s).insert(e.name@, e.pid),
{
    let t = s.update(i, e);
    assert forall|k: Seq<char>| named(t, k) <==> named(s, k) by {
        if named(t, k) {
            let p = choose|p: int| 0 <= p < t.len() && t[p].name@ == k;
            assert(s[p].name@ == k);
        }
        if named(s, k) {
            let p = choose|p: int| 0 <= p < s.len() && s[p].name@ == k;
            assert(t[p].name@ == k);
        }
    }
    assert forall|k: Seq<char>| named(t, k) implies #[trigger] position(t, k) == position(s, k)
        by {
        let p = position(t, k);
        let q = position(s, k);
        assert(t[p].name@ == k);
        assert(s[q].name@ == k);
        assert(s[p].name@ == k);
        if p != q {
            if p < q {
                assert(s[p].name@ != s[q].name@);
            } else {
                assert(s[q].name@ != s[p].name@);
            }
        }
    }
    assert(named(s, e.name@));
    assert(position(s, e.name@) == i) by {
        let q = position(s, e.name@);
        if q != i {
            if q < i {
                assert(s[q].name@ != s[i].name@);
            } else {
                assert(s[i].name@ != s[q].name@);
            }
        }
    }
    assert(status_map(t) =~= status_map(s).insert(e.name@, e.status));
    assert(pid_map(t) =~= pid_map(s).insert(e.name@, e.pid));
}

/// The position of the entry named `name`, if any.
fn find_entry(entries: &Vec<ServiceEntry>, name: &str) -> (r: Option<usize>)
    requires
        names_unique(entries@),
    ensures
        r is Some <==> named(entries@, name@),
        r matches Some(i) ==> i < entries.len() && entries@[i as int].name@ == name@ && i
            == position(entries@, name@),
{
    let mut i: usize = 0;
    while i < entries.len()
        invariant
            i <= entries.len(),
            names_unique(entries@),
            forall|j: int| 0 <= j < i ==> (#[trigger] entries@[j]).name@ != name@,
        decreases entries.len() - i,
    {
        if str_eq(entries[i].name.as_str(), name) {
            assert(named(entries@, name@));
            let ghost p = position(entries@, name@);
            assert(entries@[p].name@ == name@);
            proof {
                if p != i as int {
                    assert(p > i);
                    assert(entries@[i as int].name@ != entries@[p].name@);
                }
            }
            return Some(i);
        }
        i = i + 1;
    }
    None
}

} // verus!
