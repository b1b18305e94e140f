use std::collections::HashMap;
use vstd::prelude::*;
use vstd::string::*;
use crate::keys::Command;
use crate::order::{SortMode, lemma_filter_none, sort_processes, stable_sorted};
use crate::process::{ProcessInfo, ProcessView, command_display, process_views};
use crate::projects::ProjectManager;
use crate::scan::{contains, contains_chars};
use crate::text::{chars_of, decimal, lowercase, pop_char, push_char, to_decimal, to_lowercase};

verus! {

broadcast use vstd::std_specs::hash::group_hash_axioms;

/// The screen the user is on.
#[derive(Clone, Copy, Debug, PartialEq, Eq, Structural)]
pub enum ViewMode {
    List,
    Detail,
    ConfirmKill,
    Projects,
}

/// How many samples a process history keeps.
pub const HISTORY_LEN: usize = 60;

/// The recent samples of one process, oldest first, the CPU shares held as
/// `ProcessInfo::cpu_key` holds them.
pub struct ProcessHistory {
    pub cpu: Vec<u32>,
    pub memory: Vec<u64>,
    pub connections: Vec<u32>,
}

/// What a `ProcessHistory` holds.
pub struct HistoryView {
    pub cpu: Seq<u32>,
    pub memory: Seq<u64>,
    pub connections: Seq<u32>,
}

impl View for ProcessHistory {
    type V = HistoryView;

    open spec fn view(&self) -> HistoryView {
        HistoryView { cpu: self.cpu@, memory: self.memory@, connections: self.connections@ }
    }
}

pub open spec fn empty_history() -> HistoryView {
    HistoryView { cpu: Seq::empty(), memory: Seq::empty(), connections: Seq::empty() }
}

/// A history with one more sample: each series grows by its value, and when
/// the CPU series would exceed `HISTORY_LEN` the oldest sample of every
/// series is dropped.
pub open spec fn pushed(h: HistoryView, cpu: u32, memory: u64, connections: u32) -> HistoryView {
    if h.cpu.len() + 1 > HISTORY_LEN {
        HistoryView {
            cpu: h.cpu.push(cpu).drop_first(),
            memory: h.memory.push(memory).drop_first(),
            connections: h.connections.push(connections).drop_first(),
        }
    } else {
        HistoryView {
            cpu: h.cpu.push(cpu),
            memory: h.memory.push(memory),
            connections: h.connections.push(connections),
        }
    }
}

/// The last `HISTORY_LEN` elements of `s` (all of them when it is shorter).
pub open spec fn last_samples<T>(s: Seq<T>) -> Seq<T> {
    if s.len() > HISTORY_LEN {
        s.skip(s.len() - HISTORY_LEN)
    } else {
        s
    }
}

/// The history made of the given sample series.
pub open spec fn history_of(cpu: Seq<u32>, memory: Seq<u64>, connections: Seq<u32>) -> HistoryView {
    HistoryView {
        cpu: last_samples(cpu),
        memory: last_samples(memory),
        connections: last_samples(connections),
    }
}

impl ProcessHistory {
    /// A history with no samples.
    pub fn new() -> (h: Self)
        ensures
            h@ == empty_history(),
    {
        ProcessHistory { cpu: Vec::new(), memory: Vec::new(), connections: Vec::new() }
    }

    /// Records one sample, keeping at most `HISTORY_LEN` per series.
    pub fn push(&mut self, cpu: u32, memory: u64, connections: u32)
        ensures
            final(self)@ == pushed(old(self)@, cpu, memory, connections),
    {
        self.cpu.push(cpu);
        self.memory.push(memory);
        self.connections.push(connections);
        if self.cpu.len() > HISTORY_LEN {
            self.cpu.remove(0);
            self.memory.remove(0);
            self.connections.remove(0);
        }
        assert(self@ =~= pushed(old(self)@, cpu, memory, connections));
    }
}

/// A history that holds the last `HISTORY_LEN` samples keeps doing so when
/// a sample is pushed: however many samples a process has had, its history
/// is their last `HISTORY_LEN`, oldest first.
pub proof fn lemma_history_keeps_last_samples(
    cpu: Seq<u32>,
    memory: Seq<u64>,
    connections: Seq<u32>,
    c: u32,
    m: u64,
    k: u32,
)
    requires
        cpu.len() == memory.len(),
        cpu.len() == connections.len(),
    ensures
        pushed(history_of(cpu, memory, connections), c, m, k) == history_of(
            cpu.push(c),
            memory.push(m),
            connections.push(k),
        ),
        history_of(cpu, memory, connections).cpu.len() <= HISTORY_LEN,
        history_of(Seq::empty(), Seq::empty(), Seq::empty()) == empty_history(),
{
    let h = history_of(cpu, memory, connections);
    let r = pushed(h, c, m, k);
    let e = history_of(cpu.push(c), memory.push(m), connections.push(k));
    assert(r.cpu =~= e.cpu);
    assert(r.memory =~= e.memory);
    assert(r.connections =~= e.connections);
    assert(history_of(Seq::empty(), Seq::empty(), Seq::empty()) =~= empty_history());
}

/// The histories, by process id.
pub open spec fn history_views(m: Map<u32, ProcessHistory>) -> Map<u32, HistoryView> {
    m.map_values(|h: ProcessHistory| h@)
}

/// The histories after one sample of each listed process, in list order.
pub open spec fn record_samples(h: Map<u32, HistoryView>, procs: Seq<ProcessView>) -> Map<u32, HistoryView>
    decreases procs.len(),
{
    if procs.len() == 0 {
        h
    } else {
        let prev = record_samples(h, procs.drop_last());
        let p = procs.last();
        let cur = if prev.contains_key(p.pid) {
            prev[p.pid]
        } else {
            empty_history()
        };
        prev.insert(p.pid, pushed(cur, p.cpu_key, p.memory, p.connections))
    }
}

/// A process matches a lower-cased query when the query occurs in its
/// lower-cased name, in its port number or in its lower-cased command line.
pub open spec fn matches_query(p: ProcessView, query_lower: Seq<char>) -> bool {
    ||| contains(lowercase(p.name), query_lower)
    ||| contains(decimal(p.port as nat), query_lower)
    ||| contains(lowercase(command_display(p)), query_lower)
}

pub open spec fn query_pred(query_lower: Seq<char>) -> spec_fn(ProcessView) -> bool {
    |p: ProcessView| matches_query(p, query_lower)
}

/// The processes that the search query lets through, in order: all of them
/// for an empty query.
pub open spec fn filtered(procs: Seq<ProcessView>, query: Seq<char>) -> Seq<ProcessView> {
    if query.len() == 0 {
        procs
    } else {
        procs.filter(query_pred(lowercase(query)))
    }
}

/// Whether the lower-cased query occurs in the lower-cased name, in the
/// decimal port number or in the lower-cased command line.
#[allow(non_snake_case)]
pub fn matchesQuery(name_lower: &str, port: u16, command_lower: &str, query_lower: &str) -> (b: bool)
    ensures
        b == (contains(name_lower@, query_lower@) || contains(decimal(port as nat), query_lower@)
            || contains(command_lower@, query_lower@)),
{
    let q = chars_of(query_lower);
    if contains_chars(&chars_of(name_lower), &q) {
        return true;
    }
    let port_text = to_decimal(port as u64);
    if contains_chars(&chars_of(port_text.as_str()), &q) {
        return true;
    }
    contains_chars(&chars_of(command_lower), &q)
}

fn process_matches(p: &ProcessInfo, query_lower: &str) -> (b: bool)
    ensures
        b == matches_query(p@, query_lower@),
{
    let name_lower = to_lowercase(p.name.as_str());
    let command = p.commandDisplay();
    let command_lower = to_lowercase(command.as_str());
    matchesQuery(name_lower.as_str(), p.port, command_lower.as_str(), query_lower)
}

/// The processes of `procs` that the search query lets through.
pub fn filter_processes(procs: &Vec<ProcessInfo>, query: &str) -> (out: Vec<ProcessInfo>)
    ensures
        process_views(out@) == filtered(process_views(procs@), query@),
{
    if query.is_empty() {
        let out = procs.clone();
        assert(process_views(out@) =~= process_views(procs@)) by {
            assert forall|i: int| 0 <= i < out@.len() implies out@[i]@ == procs@[i]@ by {
                assert(cloned::<ProcessInfo>(procs@[i], out@[i]));
            }
        }
        return out;
    }
    let query_lower = to_lowercase(query);
    let ghost pred = query_pred(query_lower@);
    let ghost all = process_views(procs@);
    let mut out: Vec<ProcessInfo> = Vec::new();
    let n = procs.len();
    let mut i: usize = 0;
    assert(all.take(0).filter(pred) =~= Seq::<ProcessView>::empty()) by {
        reveal(Seq::filter);
    }
    while i < n
        invariant
            n == procs@.len(),
            i <= n,
            all == process_views(procs@),
            pred == query_pred(query_lower@),
            process_views(out@) == all.take(i as int).filter(pred),
        decreases n - i,
    {
        let ghost before = process_views(out@);
        assert(all[i as int] == procs@[i as int]@);
        if process_matches(&procs[i], query_lower.as_str()) {
            let p = procs[i].clone();
            out.push(p);
            assert(process_views(out@) =~= before.push(all[i as int]));
        }
        proof {
            all.take(i as int).lemma_filter_push(all[i as int], pred);
            assert(all.take(i + 1) =~= all.take(i as int).push(all[i as int]));
        }
        i = i + 1;
    }
    assert(all.take(n as int) =~= all);
    out
}

/// The whole state of the process manager screen.
pub struct App<H> {
    pub processes: Vec<ProcessInfo>,
    pub filtered_processes: Vec<ProcessInfo>,
    pub selected: usize,
    pub scroll_offset: usize,
    pub should_quit: bool,
    pub status_message: Option<String>,
    pub view_mode: ViewMode,
    pub sort_mode: SortMode,
    pub sort_reversed: bool,
    pub search_query: String,
    pub search_mode: bool,
    pub project_manager: ProjectManager<H>,
    pub projects_selected: usize,
    pub process_history: HashMap<u32, ProcessHistory>,
    pub update_available: Option<String>,
}

/// The selection after the list shrank to `len` processes: moved to the
/// last one when it fell past the end of a non-empty list.
pub open spec fn clamped(selected: usize, len: nat) -> usize {
    if selected >= len && len > 0 {
        (len - 1) as usize
    } else {
        selected
    }
}

/// The sort column after `mode` in the cycle port, CPU, memory,
/// connections, name.
pub open spec fn next_sort_mode(mode: SortMode) -> SortMode {
    match mode {
        SortMode::Port => SortMode::Cpu,
        SortMode::Cpu => SortMode::Memory,
        SortMode::Memory => SortMode::Connections,
        SortMode::Connections => SortMode::Name,
        SortMode::Name => SortMode::Port,
    }
}

/// The position after `i` in a list of `len` entries, wrapping at the end;
/// unchanged in an empty list.
pub open spec fn next_index(i: usize, len: nat) -> usize {
    if len > 0 {
        ((i + 1) % (len as int)) as usize
    } else {
        i
    }
}

/// The position before `i` in a list of `len` entries, wrapping at the
/// start; unchanged in an empty list.
pub open spec fn previous_index(i: usize, len: nat) -> usize {
    if len > 0 {
        if i > 0 {
            (i - 1) as usize
        } else {
            (len - 1) as usize
        }
    } else {
        i
    }
}

/// The scroll offset that keeps row `selected` among `visible` rows shown
/// from `offset` on, moving as little as needed.
pub open spec fn scrolled(selected: usize, offset: usize, visible: usize) -> usize {
    if selected < offset {
        selected
    } else if selected >= offset + visible {
        (selected - visible + 1) as usize
    } else {
        offset
    }
}

/// The status message after killing process `p`.
pub open spec fn killed_message(p: ProcessView) -> Seq<char> {
    "\u{2713} Killed "@ + p.name + " (PID: "@ + decimal(p.pid as nat) + ")"@
}

/// The status message after a kill failed with `e`.
pub open spec fn kill_failed_message(e: Seq<char>) -> Seq<char> {
    "\u{2717} Error: "@ + e
}

/// The status message after starting or stopping project `name`.
pub open spec fn toggle_message(name: Seq<char>, was_running: bool, outcome: Result<(), String>) -> Seq<char> {
    match outcome {
        Ok(_) => if was_running {
            "\u{2713} Stopped "@ + name
        } else {
            "\u{2713} Started "@ + name
        },
        Err(e) => "\u{2717} "@ + e@,
    }
}

/// The status message after deploying project `name`.
pub open spec fn deploy_message(name: Seq<char>, outcome: Result<(), String>) -> Seq<char> {
    match outcome {
        Ok(_) => "\u{2713} Deployed "@ + name,
        Err(e) => "\u{2717} Deploy failed: "@ + e@,
    }
}

fn killed_text(p: &ProcessInfo) -> (s: String)
    ensures
        s@ == killed_message(p@),
{
    proof {
        reveal_strlit("\u{2713} Killed ");
        reveal_strlit(" (PID: ");
        reveal_strlit(")");
    }
    let mut s = String::from_str("\u{2713} Killed ");
    s.append(p.name.as_str());
    s.append(" (PID: ");
    let pid = to_decimal(p.pid as u64);
    s.append(pid.as_str());
    s.append(")");
    s
}

/// Counts and totals over the process list. The CPU total is a sum of
/// floats, which the caller adds up.
pub struct AppStats {
    pub total_processes: usize,
    pub filtered_count: usize,
    pub unique_ports: usize,
    pub total_memory: u64,
    pub total_connections: u32,
}

pub open spec fn sum_memory(s: Seq<ProcessView>) -> nat
    decreases s.len(),
{
    if s.len() == 0 { 0 } else { sum_memory(s.drop_last()) + s.last().memory as nat }
}

pub open spec fn sum_connections(s: Seq<ProcessView>) -> nat
    decreases s.len(),
{
    if s.len() == 0 { 0 } else { sum_connections(s.drop_last()) + s.last().connections as nat }
}

/// The totals fit the types of `AppStats`.
pub open spec fn stats_fit(s: Seq<ProcessView>) -> bool {
    &&& sum_memory(s) <= u64::MAX
    &&& sum_connections(s) <= u32::MAX
}

/// The distinct ports of the processes.
pub open spec fn port_set(s: Seq<ProcessView>) -> Set<u16> {
    s.map_values(|p: ProcessView| p.port).to_set()
}

proof fn lemma_sums_grow(s: Seq<ProcessView>)
    requires
        s.len() > 0,
    ensures
        stats_fit(s) ==> stats_fit(s.drop_last()),
{
}

proof fn lemma_prefix_sums_fit(s: Seq<ProcessView>, i: int)
    requires
        stats_fit(s),
        0 <= i <= s.len(),
    ensures
        stats_fit(s.take(i)),
    decreases s.len() - i,
{
    if i < s.len() {
        lemma_prefix_sums_fit(s, i + 1);
        assert(s.take(i + 1).drop_last() =~= s.take(i));
    } else {
        assert(s.take(i) =~= s);
    }
}

fn vec_contains_u16(v: &Vec<u16>, x: u16) -> (b: bool)
    ensures
        b == v@.contains(x),
{
    let n = v.len();
    let mut i: usize = 0;
    while i < n
        invariant
            n == v@.len(),
            i <= n,
            forall|j: int| 0 <= j < i ==> v@[j] != x,
        decreases n - i,
    {
        if v[i] == x {
            return true;
        }
        i = i + 1;
    }
    false
}

/// The filtered list is what the search query lets through of the process
/// list. Every operation that changes either list or the query leaves the
/// screen so.
pub open spec fn listing_consistent<H>(app: App<H>) -> bool {
    process_views(app.filtered_processes@) == filtered(
        process_views(app.processes@),
        app.search_query@,
    )
}

/// `after` is `before` with a fresh process list: ordered by the sort
/// settings of `before`, filtered by its query, each process's sample added
/// to its history, and the selection kept inside the filtered list.
pub open spec fn refreshed<H>(before: App<H>, fresh: Seq<ProcessView>, after: App<H>) -> bool {
    &&& stable_sorted(before.sort_mode, before.sort_reversed, fresh, process_views(after.processes@))
    &&& process_views(after.filtered_processes@) == filtered(
        process_views(after.processes@),
        before.search_query@,
    )
    &&& history_views(after.process_history@) == record_samples(
        history_views(before.process_history@),
        fresh,
    )
    &&& after.selected == clamped(before.selected, after.filtered_processes@.len())
    &&& after == App {
        processes: after.processes,
        filtered_processes: after.filtered_processes,
        process_history: after.process_history,
        selected: after.selected,
        ..before
    }
}

/// `after` is `before` with the search query set to `query`: the process
/// list filtered again by it and the selection back at the top.
pub open spec fn search_edited<H>(before: App<H>, query: Seq<char>, after: App<H>) -> bool {
    &&& after.search_query@ == query
    &&& process_views(after.filtered_processes@) == filtered(process_views(before.processes@), query)
    &&& after == App {
        search_query: after.search_query,
        filtered_processes: after.filtered_processes,
        selected: 0,
        scroll_offset: 0,
        ..before
    }
}

/// `after` is `before` with search mode switched: entering keeps the rest,
/// leaving clears the query and shows every process again.
pub open spec fn search_toggled<H>(before: App<H>, after: App<H>) -> bool {
    if before.search_mode {
        &&& after.search_query@.len() == 0
        &&& process_views(after.filtered_processes@) == process_views(before.processes@)
        &&& after == App {
            search_mode: false,
            search_query: after.search_query,
            filtered_processes: after.filtered_processes,
            ..before
        }
    } else {
        after == App { search_mode: true, ..before }
    }
}

/// Scrolling to row `selected` from `offset` with `visible` rows stays
/// within `usize`.
pub open spec fn scroll_fits(selected: usize, offset: usize, visible: usize) -> bool {
    &&& selected >= offset ==> offset + visible <= usize::MAX
    &&& visible == 0 && selected >= offset ==> selected < usize::MAX
}

/// `after` is `before` with the selection moved to `selected`, scrolled
/// into view and the status message cleared.
pub open spec fn moved_to<H>(before: App<H>, selected: usize, visible: usize, after: App<H>) -> bool {
    after == App {
        selected,
        scroll_offset: scrolled(selected, before.scroll_offset, visible),
        status_message: None,
        ..before
    }
}

/// The query after a backspace: its last character removed, when it has one.
pub open spec fn backspaced(query: Seq<char>) -> Seq<char> {
    if query.len() == 0 {
        query
    } else {
        query.drop_last()
    }
}

/// What a command leaves for the caller to do outside the screen state.
pub enum Effect {
    /// Nothing more.
    Nothing,
    /// Read the processes and hand them to `refreshProcesses`.
    Refresh,
    /// Read the processes and hand them to `cycleSort`.
    CycleSort,
    /// Read the processes and hand them to `toggleSortOrder`.
    ToggleSortOrder,
    /// Stop the process and hand the outcome to `killSelected`.
    Kill(u32),
    /// Stop the project when it was running, start it otherwise, and hand
    /// the outcome to `toggleProject`.
    ToggleProject { id: String, name: String, was_running: bool },
    /// Deploy the project and hand the outcome to `deployProject`.
    DeployProject { id: String, name: String },
}

/// The arithmetic of `command` stays within `usize`: moving down from
/// `usize::MAX`, or scrolling past the largest offset, would overflow.
pub open spec fn command_fits<H>(app: App<H>, command: Command, visible: usize) -> bool {
    match command {
        Command::Next => {
            &&& app.filtered_processes@.len() > 0 ==> app.selected < usize::MAX
            &&& scroll_fits(
                next_index(app.selected, app.filtered_processes@.len()),
                app.scroll_offset,
                visible,
            )
        },
        Command::Previous => scroll_fits(
            previous_index(app.selected, app.filtered_processes@.len()),
            app.scroll_offset,
            visible,
        ),
        Command::ProjectsNext => app.project_manager@.projects.len() > 0 ==> app.projects_selected
            < usize::MAX,
        _ => true,
    }
}

/// The project on the selected row of the projects view, when there is one.
pub open spec fn project_at<H>(app: App<H>) -> Option<crate::projects::ProjectView> {
    if app.projects_selected < app.project_manager@.projects.len() {
        Some(app.project_manager@.projects[app.projects_selected as int])
    } else {
        None
    }
}

/// `after` and `effect` are what `command` makes of `before` with
/// `visible` table rows: the state changes of the screen, and what is left
/// to do outside it.
pub open spec fn handled<H>(
    before: App<H>,
    command: Command,
    visible: usize,
    after: App<H>,
    effect: Effect,
) -> bool {
    match command {
        Command::Nothing => after == before && effect is Nothing,
        Command::ToggleSearch => search_toggled(before, after) && effect is Nothing,
        Command::SearchBackspace => search_edited(before, backspaced(before.search_query@), after)
            && effect is Nothing,
        Command::SearchInput(c) => search_edited(before, before.search_query@.push(c), after)
            && effect is Nothing,
        Command::Quit => after == (App { should_quit: true, ..before }) && effect is Nothing,
        Command::Refresh => after == (App { status_message: None, ..before }) && effect is Refresh,
        Command::CycleSort => after == before && effect is CycleSort,
        Command::ToggleSortOrder => after == before && effect is ToggleSortOrder,
        Command::ConfirmKill => after == (App { view_mode: ViewMode::ConfirmKill, ..before })
            && effect is Nothing,
        Command::ShowDetail => after == (App { view_mode: ViewMode::Detail, ..before })
            && effect is Nothing,
        Command::Next => moved_to(
            before,
            next_index(before.selected, before.filtered_processes@.len()),
            visible,
            after,
        ) && effect is Nothing,
        Command::Previous => moved_to(
            before,
            previous_index(before.selected, before.filtered_processes@.len()),
            visible,
            after,
        ) && effect is Nothing,
        Command::BackToList => after == (App {
            view_mode: ViewMode::List,
            status_message: None,
            ..before
        }) && effect is Nothing,
        Command::ToggleProject => after == before && match project_at(before) {
            Some(p) => effect matches Effect::ToggleProject { id, name, was_running } && id@ == p.id
                && name@ == p.name && was_running == before.project_manager@.running.contains(p.id),
            None => effect is Nothing,
        },
        Command::DeployProject => after == before && match project_at(before) {
            Some(p) => effect matches Effect::DeployProject { id, name } && id@ == p.id && name@
                == p.name,
            None => effect is Nothing,
        },
        Command::ProjectsNext => after == (App {
            projects_selected: next_index(
                before.projects_selected,
                before.project_manager@.projects.len(),
            ),
            ..before
        }) && effect is Nothing,
        Command::ProjectsPrevious => after == (App {
            projects_selected: previous_index(
                before.projects_selected,
                before.project_manager@.projects.len(),
            ),
            ..before
        }) && effect is Nothing,
        Command::KillSelected => after == before && if before.selected
            < before.filtered_processes@.len() {
            effect == Effect::Kill(before.filtered_processes@[before.selected as int].pid)
        } else {
            effect is Nothing
        },
    }
}

fn scroll_fits_exec(selected: usize, offset: usize, visible: usize) -> (b: bool)
    ensures
        b == scroll_fits(selected, offset, visible),
{
    if selected >= offset {
        if offset > usize::MAX - visible {
            return false;
        }
        if visible == 0 && selected == usize::MAX {
            return false;
        }
    }
    true
}

impl<H> App<H> {
    /// A screen with no processes, on the list view, ordered by port.
    pub fn new(project_manager: ProjectManager<H>, update_available: Option<String>) -> (app: Self)
        ensures
            app.processes@.len() == 0,
            app.filtered_processes@.len() == 0,
            app.selected == 0,
            app.scroll_offset == 0,
            !app.should_quit,
            app.status_message is None,
            app.view_mode == ViewMode::List,
            app.sort_mode == SortMode::Port,
            !app.sort_reversed,
            app.search_query@.len() == 0,
            !app.search_mode,
            app.project_manager == project_manager,
            app.projects_selected == 0,
            app.process_history@ == Map::<u32, ProcessHistory>::empty(),
            app.update_available == update_available,
            listing_consistent(app),
    {
        App {
            processes: Vec::new(),
            filtered_processes: Vec::new(),
            selected: 0,
            scroll_offset: 0,
            should_quit: false,
            status_message: None,
            view_mode: ViewMode::List,
            sort_mode: SortMode::Port,
            sort_reversed: false,
            search_query: String::new(),
            search_mode: false,
            project_manager,
            projects_selected: 0,
            process_history: HashMap::new(),
            update_available,
        }
    }

    fn record_history(&mut self, fresh: &Vec<ProcessInfo>)
        ensures
            history_views(final(self).process_history@) == record_samples(
                history_views(old(self).process_history@),
                process_views(fresh@),
            ),
            *final(self) == (App { process_history: final(self).process_history, ..*old(self) }),
    {
        let ghost start = history_views(self.process_history@);
        let ghost all = process_views(fresh@);
        let n = fresh.len();
        let mut i: usize = 0;
        assert(all.take(0) =~= Seq::<ProcessView>::empty());
        while i < n
            invariant
                n == fresh@.len(),
                i <= n,
                all == process_views(fresh@),
                history_views(self.process_history@) == record_samples(start, all.take(i as int)),
                *self == (App { process_history: self.process_history, ..*old(self) }),
            decreases n - i,
        {
            let p = &fresh[i];
            assert(all[i as int] == p@);
            let ghost prev = history_views(self.process_history@);
            let mut h = match self.process_history.remove(&p.pid) {
                Some(h) => h,
                None => ProcessHistory::new(),
            };
            h.push(p.cpu_key, p.memory, p.connections);
            let ghost hv = h@;
            self.process_history.insert(p.pid, h);
            proof {
                let cur = if prev.contains_key(p.pid) { prev[p.pid] } else { empty_history() };
                assert(hv == pushed(cur, p.cpu_key, p.memory, p.connections));
                assert(all.take(i + 1).drop_last() =~= all.take(i as int));
                assert(history_views(self.process_history@) =~= prev.insert(p.pid, hv));
            }
            i = i + 1;
        }
        assert(all.take(n as int) =~= all);
    }

    /// Orders the process list by the current sort settings.
    #[allow(non_snake_case)]
    pub fn applySort(&mut self)
        ensures
            stable_sorted(
                old(self).sort_mode,
                old(self).sort_reversed,
                process_views(old(self).processes@),
                process_views(final(self).processes@),
            ),
            *final(self) == (App { processes: final(self).processes, ..*old(self) }),
    {
        let mut procs: Vec<ProcessInfo> = Vec::new();
        std::mem::swap(&mut procs, &mut self.processes);
        self.processes = sort_processes(procs, self.sort_mode, self.sort_reversed);
    }

    /// Recomputes the filtered list from the process list and the query.
    #[allow(non_snake_case)]
    pub fn applyFilter(&mut self)
        ensures
            process_views(final(self).filtered_processes@) == filtered(
                process_views(old(self).processes@),
                old(self).search_query@,
            ),
            *final(self) == (App { filtered_processes: final(self).filtered_processes, ..*old(self) }),
            listing_consistent(*final(self)),
    {
        self.filtered_processes = filter_processes(&self.processes, self.search_query.as_str());
    }

    /// Takes a freshly read process list: records each process's sample in
    /// its history, orders and filters the list, and keeps the selection
    /// inside the filtered list.
    #[allow(non_snake_case)]
    pub fn refreshProcesses(&mut self, fresh: Vec<ProcessInfo>)
        ensures
            refreshed(*old(self), process_views(fresh@), *final(self)),
            listing_consistent(*final(self)),
    {
        self.record_history(&fresh);
        self.processes = fresh;
        self.applySort();
        self.applyFilter();
        let len = self.filtered_processes.len();
        if self.selected >= len && len > 0 {
            self.selected = len - 1;
        }
    }

    /// Moves to the next sort column (port, CPU, memory, connections, name,
    /// and round again), turning the direction around when it wraps from
    /// name to port, and takes a freshly read process list.
    #[allow(non_snake_case)]
    pub fn cycleSort(&mut self, fresh: Vec<ProcessInfo>)
        ensures
            refreshed(
                App {
                    sort_mode: next_sort_mode(old(self).sort_mode),
                    sort_reversed: if old(self).sort_mode == SortMode::Name {
                        !old(self).sort_reversed
                    } else {
                        old(self).sort_reversed
                    },
                    ..*old(self)
                },
                process_views(fresh@),
                *final(self),
            ),
            listing_consistent(*final(self)),
    {
        let next_mode = match self.sort_mode {
            SortMode::Port => SortMode::Cpu,
            SortMode::Cpu => SortMode::Memory,
            SortMode::Memory => SortMode::Connections,
            SortMode::Connections => SortMode::Name,
            SortMode::Name => SortMode::Port,
        };
        if next_mode == SortMode::Port && self.sort_mode == SortMode::Name {
            self.sort_reversed = !self.sort_reversed;
        }
        self.sort_mode = next_mode;
        self.refreshProcesses(fresh);
    }

    /// Turns the sort direction around and takes a freshly read process
    /// list.
    #[allow(non_snake_case)]
    pub fn toggleSortOrder(&mut self, fresh: Vec<ProcessInfo>)
        ensures
            refreshed(
                App { sort_reversed: !old(self).sort_reversed, ..*old(self) },
                process_views(fresh@),
                *final(self),
            ),
            listing_consistent(*final(self)),
    {
        self.sort_reversed = !self.sort_reversed;
        self.refreshProcesses(fresh);
    }

    /// Enters or leaves search mode; leaving clears the query and shows
    /// every process again.
    #[allow(non_snake_case)]
    pub fn toggleSearch(&mut self)
        ensures
            search_toggled(*old(self), *final(self)),
            listing_consistent(*old(self)) ==> listing_consistent(*final(self)),
    {
        self.search_mode = !self.search_mode;
        if !self.search_mode {
            self.search_query = String::new();
            self.applyFilter();
        }
    }

    /// Adds a character to the query, filters again and goes back to the
    /// top of the list.
    #[allow(non_snake_case)]
    pub fn searchInput(&mut self, c: char)
        ensures
            search_edited(*old(self), old(self).search_query@.push(c), *final(self)),
            listing_consistent(*final(self)),
    {
        push_char(&mut self.search_query, c);
        self.applyFilter();
        self.selected = 0;
        self.scroll_offset = 0;
    }

    /// Removes the last character of the query, if any, filters again and
    /// goes back to the top of the list.
    #[allow(non_snake_case)]
    pub fn searchBackspace(&mut self)
        ensures
            search_edited(*old(self), backspaced(old(self).search_query@), *final(self)),
            listing_consistent(*final(self)),
    {
        pop_char(&mut self.search_query);
        self.applyFilter();
        self.selected = 0;
        self.scroll_offset = 0;
    }

    /// Switches to the projects view.
    #[allow(non_snake_case)]
    pub fn showProjects(&mut self)
        ensures
            *final(self) == (App { view_mode: ViewMode::Projects, ..*old(self) }),
    {
        self.view_mode = ViewMode::Projects;
    }

    /// Selects the next project, wrapping from the last to the first.
    #[allow(non_snake_case)]
    pub fn projectsNext(&mut self)
        requires
            old(self).project_manager@.projects.len() > 0 ==> old(self).projects_selected < usize::MAX,
        ensures
            *final(self) == (App {
                projects_selected: next_index(
                    old(self).projects_selected,
                    old(self).project_manager@.projects.len(),
                ),
                ..*old(self)
            }),
    {
        let len = self.project_manager.getProjects().len();
        if len > 0 {
            self.projects_selected = (self.projects_selected + 1) % len;
        }
    }

    /// Selects the previous project, wrapping from the first to the last.
    #[allow(non_snake_case)]
    pub fn projectsPrevious(&mut self)
        ensures
            *final(self) == (App {
                projects_selected: previous_index(
                    old(self).projects_selected,
                    old(self).project_manager@.projects.len(),
                ),
                ..*old(self)
            }),
    {
        let len = self.project_manager.getProjects().len();
        if len > 0 {
            if self.projects_selected > 0 {
                self.projects_selected = self.projects_selected - 1;
            } else {
                self.projects_selected = len - 1;
            }
        }
    }

    /// Selects the next process, wrapping from the last to the first.
    pub fn next(&mut self)
        requires
            old(self).filtered_processes@.len() > 0 ==> old(self).selected < usize::MAX,
        ensures
            *final(self) == (App {
                selected: next_index(old(self).selected, old(self).filtered_processes@.len()),
                ..*old(self)
            }),
    {
        let len = self.filtered_processes.len();
        if len > 0 {
            self.selected = (self.selected + 1) % len;
        }
    }

    /// Selects the previous process, wrapping from the first to the last.
    pub fn previous(&mut self)
        ensures
            *final(self) == (App {
                selected: previous_index(old(self).selected, old(self).filtered_processes@.len()),
                ..*old(self)
            }),
    {
        let len = self.filtered_processes.len();
        if len > 0 {
            if self.selected > 0 {
                self.selected = self.selected - 1;
            } else {
                self.selected = len - 1;
            }
        }
    }

    /// Scrolls the list just enough that the selected row is among the
    /// `visible_rows` rows shown.
    #[allow(non_snake_case)]
    pub fn adjustScroll(&mut self, visible_rows: usize)
        requires
            scroll_fits(old(self).selected, old(self).scroll_offset, visible_rows),
        ensures
            *final(self) == (App {
                scroll_offset: scrolled(old(self).selected, old(self).scroll_offset, visible_rows),
                ..*old(self)
            }),
    {
        if self.selected < self.scroll_offset {
            self.scroll_offset = self.selected;
        } else if self.selected >= self.scroll_offset + visible_rows {
            self.scroll_offset = self.selected - visible_rows + 1;
        }
    }

    /// Asks the main loop to stop.
    pub fn quit(&mut self)
        ensures
            *final(self) == (App { should_quit: true, ..*old(self) }),
    {
        self.should_quit = true;
    }

    /// Switches to the detail view.
    #[allow(non_snake_case)]
    pub fn showDetail(&mut self)
        ensures
            *final(self) == (App { view_mode: ViewMode::Detail, ..*old(self) }),
    {
        self.view_mode = ViewMode::Detail;
    }

    /// Switches to the kill confirmation.
    #[allow(non_snake_case)]
    pub fn showConfirmKill(&mut self)
        ensures
            *final(self) == (App { view_mode: ViewMode::ConfirmKill, ..*old(self) }),
    {
        self.view_mode = ViewMode::ConfirmKill;
    }

    /// Goes back to the list view and clears the status message.
    #[allow(non_snake_case)]
    pub fn backToList(&mut self)
        ensures
            *final(self) == (App { view_mode: ViewMode::List, status_message: None, ..*old(self) }),
    {
        self.view_mode = ViewMode::List;
        self.clearStatus();
    }

    /// Clears the status message.
    #[allow(non_snake_case)]
    pub fn clearStatus(&mut self)
        ensures
            *final(self) == (App { status_message: None, ..*old(self) }),
    {
        self.status_message = None;
    }

    /// The process that the selection points at in the filtered list.
    #[allow(non_snake_case)]
    pub fn getSelectedProcess(&self) -> (r: Option<&ProcessInfo>)
        ensures
            self.selected < self.filtered_processes@.len() ==> r == Some(
                &self.filtered_processes@[self.selected as int],
            ),
            self.selected >= self.filtered_processes@.len() ==> r is None,
    {
        if self.selected < self.filtered_processes.len() {
            Some(&self.filtered_processes[self.selected])
        } else {
            None
        }
    }

    /// The recorded history of process `pid`.
    #[allow(non_snake_case)]
    pub fn getHistory(&self, pid: u32) -> (r: Option<&ProcessHistory>)
        ensures
            self.process_history@.contains_key(pid) ==> r == Some(&self.process_history@[pid]),
            !self.process_history@.contains_key(pid) ==> r is None,
    {
        self.process_history.get(&pid)
    }

    /// The process id that a kill would stop: that of the selected row, the
    /// process that the confirmation shows.
    #[allow(non_snake_case)]
    pub fn killTarget(&self) -> (r: Option<u32>)
        ensures
            self.selected < self.filtered_processes@.len() ==> r == Some(
                self.filtered_processes@[self.selected as int].pid,
            ),
            self.selected >= self.filtered_processes@.len() ==> r is None,
            listing_consistent(*self) && self.processes@.len() == 0 ==> r is None,
    {
        proof {
            lemma_nothing_shown_of_nothing(process_views(self.processes@), self.search_query@);
        }
        if self.selected < self.filtered_processes.len() {
            Some(self.filtered_processes[self.selected].pid)
        } else {
            None
        }
    }

    /// Takes the outcome of killing `killTarget`: on success the freshly
    /// read process list, on failure the error. Reports it in the status
    /// message and goes back to the list view; does nothing when there was
    /// no target.
    #[allow(non_snake_case)]
    pub fn killSelected(&mut self, outcome: Result<Vec<ProcessInfo>, String>)
        ensures
            old(self).selected >= old(self).filtered_processes@.len() ==> *final(self) == *old(self),
            old(self).selected < old(self).filtered_processes@.len() ==> final(self).status_message is Some
                && match outcome {
                Ok(fresh) => {
                    &&& final(self).status_message->0@ == killed_message(
                        old(self).filtered_processes@[old(self).selected as int]@,
                    )
                    &&& refreshed(
                        App {
                            status_message: final(self).status_message,
                            view_mode: ViewMode::List,
                            ..*old(self)
                        },
                        process_views(fresh@),
                        *final(self),
                    )
                },
                Err(e) => {
                    &&& final(self).status_message->0@ == kill_failed_message(e@)
                    &&& *final(self) == (App {
                        status_message: final(self).status_message,
                        view_mode: ViewMode::List,
                        ..*old(self)
                    })
                },
            },
            listing_consistent(*old(self)) ==> listing_consistent(*final(self)),
            listing_consistent(*old(self)) && old(self).processes@.len() == 0 ==> *final(self) == *old(
                self,
            ),
    {
        proof {
            lemma_nothing_shown_of_nothing(process_views(self.processes@), self.search_query@);
        }
        if self.selected >= self.filtered_processes.len() {
            return;
        }
        match outcome {
            Ok(fresh) => {
                let msg = killed_text(&self.filtered_processes[self.selected]);
                self.status_message = Some(msg);
                self.refreshProcesses(fresh);
                self.view_mode = ViewMode::List;
            },
            Err(e) => {
                proof {
                    reveal_strlit("\u{2717} Error: ");
                }
                let mut msg = String::from_str("\u{2717} Error: ");
                msg.append(e.as_str());
                self.status_message = Some(msg);
                self.view_mode = ViewMode::List;
            },
        }
    }

    /// The id and name of the selected project, and whether it runs: a
    /// toggle stops a running project and starts one that is not.
    #[allow(non_snake_case)]
    pub fn selectedProject(&self) -> (r: Option<(String, String, bool)>)
        ensures
            self.projects_selected < self.project_manager@.projects.len() ==> r is Some,
            self.projects_selected >= self.project_manager@.projects.len() ==> r is None,
            match r {
                Some((id, name, running)) => id@ == self.project_manager@.projects[self.projects_selected as int].id
                    && name@ == self.project_manager@.projects[self.projects_selected as int].name
                    && running == self.project_manager@.running.contains(id@),
                None => true,
            },
    {
        let projects = self.project_manager.getProjects();
        if self.projects_selected < projects.len() {
            let p = &projects[self.projects_selected];
            assert(p@ == self.project_manager@.projects[self.projects_selected as int]);
            let id = p.id.clone();
            let name = p.name.clone();
            let running = self.project_manager.isRunning(id.as_str());
            Some((id, name, running))
        } else {
            None
        }
    }

    /// Reports in the status message how starting or stopping project
    /// `name` went.
    #[allow(non_snake_case)]
    pub fn toggleProject(&mut self, name: &str, was_running: bool, outcome: Result<(), String>)
        ensures
            final(self).status_message is Some,
            final(self).status_message->0@ == toggle_message(name@, was_running, outcome),
            *final(self) == (App { status_message: final(self).status_message, ..*old(self) }),
    {
        proof {
            reveal_strlit("\u{2713} Stopped ");
            reveal_strlit("\u{2713} Started ");
            reveal_strlit("\u{2717} ");
        }
        let msg = match outcome {
            Ok(_) => {
                let mut m = if was_running {
                    String::from_str("\u{2713} Stopped ")
                } else {
                    String::from_str("\u{2713} Started ")
                };
                m.append(name);
                m
            },
            Err(e) => {
                let mut m = String::from_str("\u{2717} ");
                m.append(e.as_str());
                m
            },
        };
        self.status_message = Some(msg);
    }

    /// Reports in the status message how deploying project `name` went.
    #[allow(non_snake_case)]
    pub fn deployProject(&mut self, name: &str, outcome: Result<(), String>)
        ensures
            final(self).status_message is Some,
            final(self).status_message->0@ == deploy_message(name@, outcome),
            *final(self) == (App { status_message: final(self).status_message, ..*old(self) }),
    {
        proof {
            reveal_strlit("\u{2713} Deployed ");
            reveal_strlit("\u{2717} Deploy failed: ");
        }
        let msg = match outcome {
            Ok(_) => {
                let mut m = String::from_str("\u{2713} Deployed ");
                m.append(name);
                m
            },
            Err(e) => {
                let mut m = String::from_str("\u{2717} Deploy failed: ");
                m.append(e.as_str());
                m
            },
        };
        self.status_message = Some(msg);
    }

    /// Whether the totals of `getStats` fit their types.
    #[allow(non_snake_case)]
    pub fn statsFit(&self) -> (b: bool)
        ensures
            b == stats_fit(process_views(self.processes@)),
    {
        let ghost all = process_views(self.processes@);
        let n = self.processes.len();
        let mut memory: u64 = 0;
        let mut connections: u32 = 0;
        let mut fits = true;
        let mut i: usize = 0;
        while i < n
            invariant
                n == self.processes@.len(),
                i <= n,
                all == process_views(self.processes@),
                fits == stats_fit(all.take(i as int)),
                fits ==> memory == sum_memory(all.take(i as int))
                    && connections == sum_connections(all.take(i as int)),
            decreases n - i,
        {
            let p = &self.processes[i];
            assert(all[i as int] == p@);
            assert(all.take(i + 1).drop_last() =~= all.take(i as int));
            proof {
                lemma_sums_grow(all.take(i + 1));
            }
            if fits {
                match (memory.checked_add(p.memory), connections.checked_add(p.connections)) {
                    (Some(m), Some(k)) => {
                        memory = m;
                        connections = k;
                    },
                    _ => {
                        fits = false;
                    },
                }
            }
            i = i + 1;
        }
        assert(all.take(n as int) =~= all);
        fits
    }

    /// Whether `handleCommand` can take `command` with `visible_rows` table
    /// rows without leaving `usize`.
    #[allow(non_snake_case)]
    pub fn commandFits(&self, command: Command, visible_rows: usize) -> (b: bool)
        ensures
            b == command_fits(*self, command, visible_rows),
    {
        match command {
            Command::Next => {
                let len = self.filtered_processes.len();
                if len > 0 && self.selected == usize::MAX {
                    return false;
                }
                let s = if len > 0 {
                    (self.selected + 1) % len
                } else {
                    self.selected
                };
                scroll_fits_exec(s, self.scroll_offset, visible_rows)
            },
            Command::Previous => {
                let len = self.filtered_processes.len();
                let s = if len > 0 {
                    if self.selected > 0 {
                        self.selected - 1
                    } else {
                        len - 1
                    }
                } else {
                    self.selected
                };
                scroll_fits_exec(s, self.scroll_offset, visible_rows)
            },
            Command::ProjectsNext => {
                let len = self.project_manager.getProjects().len();
                !(len > 0 && self.projects_selected == usize::MAX)
            },
            _ => true,
        }
    }

    /// Carries out a command of the key handler on the screen state, with
    /// `visible_rows` table rows, and says what is left to do outside it.
    #[allow(non_snake_case)]
    pub fn handleCommand(&mut self, command: Command, visible_rows: usize) -> (e: Effect)
        requires
            command_fits(*old(self), command, visible_rows),
        ensures
            handled(*old(self), command, visible_rows, *final(self), e),
            listing_consistent(*old(self)) ==> listing_consistent(*final(self)),
    {
        match command {
            Command::Nothing => Effect::Nothing,
            Command::ToggleSearch => {
                self.toggleSearch();
                Effect::Nothing
            },
            Command::SearchBackspace => {
                self.searchBackspace();
                Effect::Nothing
            },
            Command::SearchInput(c) => {
                self.searchInput(c);
                Effect::Nothing
            },
            Command::Quit => {
                self.quit();
                Effect::Nothing
            },
            Command::Refresh => {
                self.clearStatus();
                Effect::Refresh
            },
            Command::CycleSort => Effect::CycleSort,
            Command::ToggleSortOrder => Effect::ToggleSortOrder,
            Command::ConfirmKill => {
                self.showConfirmKill();
                Effect::Nothing
            },
            Command::ShowDetail => {
                self.showDetail();
                Effect::Nothing
            },
            Command::Next => {
                self.next();
                self.adjustScroll(visible_rows);
                self.clearStatus();
                Effect::Nothing
            },
            Command::Previous => {
                self.previous();
                self.adjustScroll(visible_rows);
                self.clearStatus();
                Effect::Nothing
            },
            Command::BackToList => {
                self.backToList();
                Effect::Nothing
            },
            Command::ToggleProject => match self.selectedProject() {
                Some((id, name, was_running)) => Effect::ToggleProject { id, name, was_running },
                None => Effect::Nothing,
            },
            Command::DeployProject => match self.selectedProject() {
                Some((id, name, _)) => Effect::DeployProject { id, name },
                None => Effect::Nothing,
            },
            Command::ProjectsNext => {
                self.projectsNext();
                Effect::Nothing
            },
            Command::ProjectsPrevious => {
                self.projectsPrevious();
                Effect::Nothing
            },
            Command::KillSelected => match self.killTarget() {
                Some(pid) => Effect::Kill(pid),
                None => Effect::Nothing,
            },
        }
    }

    /// Whether the automatic refresh is due: two seconds after the last
    /// refresh.
    #[allow(non_snake_case)]
    pub fn shouldAutoRefresh(&self, elapsed_millis: u128) -> (b: bool)
        ensures
            b == (elapsed_millis >= 2000),
    {
        elapsed_millis >= 2000
    }

    /// Counts and totals over the process list.
    #[allow(non_snake_case)]
    pub fn getStats(&self) -> (st: AppStats)
        requires
            stats_fit(process_views(self.processes@)),
        ensures
            st.total_processes == self.processes@.len(),
            st.filtered_count == self.filtered_processes@.len(),
            st.unique_ports == port_set(process_views(self.processes@)).len(),
            st.total_memory == sum_memory(process_views(self.processes@)),
            st.total_connections == sum_connections(process_views(self.processes@)),
            st.unique_ports <= st.total_processes,
    {
        let ghost all = process_views(self.processes@);
        let n = self.processes.len();
        let mut memory: u64 = 0;
        let mut connections: u32 = 0;
        let mut seen: Vec<u16> = Vec::new();
        let mut i: usize = 0;
        assert(all.take(0).map_values(|p: ProcessView| p.port) =~= Seq::<u16>::empty());
        while i < n
            invariant
                n == self.processes@.len(),
                i <= n,
                all == process_views(self.processes@),
                stats_fit(all),
                memory == sum_memory(all.take(i as int)),
                connections == sum_connections(all.take(i as int)),
                seen@.no_duplicates(),
                seen@.len() <= i,
                seen@.to_set() == port_set(all.take(i as int)),
            decreases n - i,
        {
            let p = &self.processes[i];
            assert(all[i as int] == p@);
            assert(all.take(i + 1).drop_last() =~= all.take(i as int));
            proof {
                lemma_prefix_sums_fit(all, i + 1);
            }
            memory = memory + p.memory;
            connections = connections + p.connections;
            let ghost before = seen@;
            let ghost ports_before = all.take(i as int).map_values(|q: ProcessView| q.port);
            assert(all.take(i + 1).map_values(|q: ProcessView| q.port) =~= ports_before.push(p.port));
            if !vec_contains_u16(&seen, p.port) {
                seen.push(p.port);
                assert(seen@.no_duplicates()) by {
                    assert forall|a: int, b: int| 0 <= a < b < seen@.len() implies seen@[a] != seen@[b] by {
                        if b == before.len() {
                            assert(before.contains(before[a]));
                        }
                    }
                }
                assert(seen@.to_set() =~= before.to_set().insert(p.port)) by {
                    broadcast use vstd::seq_lib::group_seq_properties;
                }
            } else {
                assert(before.to_set().contains(p.port));
            }
            proof {
                broadcast use vstd::seq_lib::group_seq_properties;
                assert(ports_before.push(p.port).to_set() =~= ports_before.to_set().insert(p.port));
                assert(seen@.to_set() =~= port_set(all.take(i + 1)));
            }
            i = i + 1;
        }
        assert(all.take(n as int) =~= all);
        proof {
            seen@.unique_seq_to_set();
        }
        AppStats {
            total_processes: n,
            filtered_count: self.filtered_processes.len(),
            unique_ports: seen.len(),
            total_memory: memory,
            total_connections: connections,
        }
    }
}

/// Pressing the sort key five times comes back to the same column with the
/// direction turned around once.
pub proof fn lemma_sort_cycle_returns(mode: SortMode)
    ensures
        next_sort_mode(next_sort_mode(next_sort_mode(next_sort_mode(next_sort_mode(mode)))))
            == mode,
        (mode == SortMode::Name) as int + (next_sort_mode(mode) == SortMode::Name) as int
            + (next_sort_mode(next_sort_mode(mode)) == SortMode::Name) as int + (next_sort_mode(
            next_sort_mode(next_sort_mode(mode)),
        ) == SortMode::Name) as int + (next_sort_mode(
            next_sort_mode(next_sort_mode(next_sort_mode(mode))),
        ) == SortMode::Name) as int == 1,
{
}

/// Moving down and then up, or up and then down, comes back to the same
/// row, and either move keeps a row of a non-empty list inside it.
pub proof fn lemma_navigation_round_trip(i: usize, len: nat)
    requires
        i < len,
        len <= usize::MAX,
    ensures
        previous_index(next_index(i, len), len) == i,
        next_index(previous_index(i, len), len) == i,
        next_index(i, len) < len,
        previous_index(i, len) < len,
{
    if i + 1 < len {
        assert((i + 1) % (len as int) == i + 1) by (nonlinear_arith)
            requires
                0 <= i + 1 < len,
        ;
    } else {
        assert((i + 1) % (len as int) == 0) by (nonlinear_arith)
            requires
                i + 1 == len,
                len > 0,
        ;
    }
    if i > 0 {
        assert((i as int) % (len as int) == i) by (nonlinear_arith)
            requires
                0 <= i < len,
        ;
    } else {
        assert(((len - 1) + 1) % (len as int) == 0) by (nonlinear_arith)
            requires
                len > 0,
        ;
    }
}

/// After scrolling, the selected row is among the rows shown.
pub proof fn lemma_scroll_shows_selection(selected: usize, offset: usize, visible: usize)
    requires
        visible > 0,
        selected >= offset ==> offset + visible <= usize::MAX,
    ensures
        scrolled(selected, offset, visible) <= selected < scrolled(selected, offset, visible) + visible,
{
}

/// A refresh keeps a process selected whenever the filtered list is not
/// empty: the selected row stays where it was when it is still inside the
/// list, and moves to the new last row when the list got shorter than it.
pub proof fn lemma_refresh_selection_in_list<H>(before: App<H>, fresh: Seq<ProcessView>, after: App<H>)
    requires
        refreshed(before, fresh, after),
    ensures
        after.filtered_processes@.len() > 0 ==> after.selected < after.filtered_processes@.len(),
        before.selected < after.filtered_processes@.len() ==> after.selected == before.selected,
        before.selected >= after.filtered_processes@.len() > 0 ==> after.selected
            == after.filtered_processes@.len() - 1,
        after.filtered_processes@.len() == 0 ==> after.selected == before.selected,
{
}

/// With a non-empty query, a process is shown exactly when it is in the
/// list and matches the lower-cased query; with an empty query every
/// process is shown.
pub proof fn lemma_filter_membership(procs: Seq<ProcessView>, query: Seq<char>, p: ProcessView)
    ensures
        query.len() == 0 ==> filtered(procs, query) == procs,
        query.len() > 0 ==> (filtered(procs, query).contains(p) <==> procs.contains(p)
            && matches_query(p, lowercase(query))),
{
    broadcast use vstd::seq_lib::group_filter_ensures;

    if query.len() > 0 {
        let f = query_pred(lowercase(query));
        if filtered(procs, query).contains(p) {
            procs.lemma_filter_contains_rev(f, p);
            let i = choose|i: int| 0 <= i < procs.filter(f).len() && procs.filter(f)[i] == p;
            assert(f(procs.filter(f)[i]));
        }
        if procs.contains(p) && matches_query(p, lowercase(query)) {
            let i = choose|i: int| 0 <= i < procs.len() && procs[i] == p;
            assert(f(procs[i]));
        }
    }
}


/// A backspace undoes a typed character: the query is the one before, and
/// the filtered list is the one that query gives.
pub proof fn lemma_backspace_undoes_input<H>(before: App<H>, c: char, typed: App<H>, after: App<H>)
    requires
        search_edited(before, before.search_query@.push(c), typed),
        search_edited(typed, backspaced(typed.search_query@), after),
    ensures
        after.search_query@ == before.search_query@,
        process_views(after.filtered_processes@) == filtered(
            process_views(before.processes@),
            before.search_query@,
        ),
        after.processes == before.processes,
        after.selected == 0,
{
    assert(before.search_query@.push(c).drop_last() =~= before.search_query@);
}


/// Nothing is shown of an empty process list, whatever the query.
pub proof fn lemma_nothing_shown_of_nothing(procs: Seq<ProcessView>, query: Seq<char>)
    ensures
        procs.len() == 0 ==> filtered(procs, query).len() == 0,
{
    if procs.len() == 0 && query.len() > 0 {
        lemma_filter_none(procs, query_pred(lowercase(query)));
    }
}

/// Every command keeps the filtered list what the query lets through of
/// the process list.
pub proof fn lemma_commands_keep_listing_consistent<H>(
    before: App<H>,
    command: Command,
    visible: usize,
    after: App<H>,
    effect: Effect,
)
    requires
        listing_consistent(before),
        handled(before, command, visible, after, effect),
    ensures
        listing_consistent(after),
{
}

/// With no process listed, the kill key asks for no kill and leaves the
/// screen as it was.
pub proof fn lemma_no_kill_without_processes<H>(
    before: App<H>,
    visible: usize,
    after: App<H>,
    effect: Effect,
)
    requires
        listing_consistent(before),
        before.processes@.len() == 0,
        handled(before, Command::KillSelected, visible, after, effect),
    ensures
        effect is Nothing,
        after == before,
{
    lemma_nothing_shown_of_nothing(process_views(before.processes@), before.search_query@);
}


/// A search shows a listed process exactly when the lower-cased query
/// occurs in its lower-cased name, in its port number written in decimal,
/// or in its lower-cased command line as displayed (the arguments joined
/// by single spaces).
pub proof fn lemma_search_matches_shown_text(procs: Seq<ProcessView>, query: Seq<char>, p: ProcessView)
    requires
        query.len() > 0,
        procs.contains(p),
    ensures
        filtered(procs, query).contains(p) <==> (contains(lowercase(p.name), lowercase(query))
            || contains(decimal(p.port as nat), lowercase(query)) || contains(
            lowercase(command_display(p)),
            lowercase(query),
        )),
{
    lemma_filter_membership(procs, query, p);
}

} // verus!
