use vstd::prelude::*;
use vstd::string::*;

verus! {

/// A process that listens on a local TCP port.
///
/// The CPU share, a non-negative `f32` percentage, is kept as its bit
/// pattern: for non-negative floats the bit patterns are ordered as the
/// values are, so the library orders processes by CPU exactly as by the
/// float. Reading and printing the float stay with the caller.
pub struct ProcessInfo {
    pub pid: u32,
    pub name: String,
    pub cmd: Vec<String>,
    pub port: u16,
    pub cpu_key: u32,
    pub memory: u64,
    pub connections: u32,
    pub protocol: String,
}

/// What a `ProcessInfo` holds, with its texts as character sequences.
pub struct ProcessView {
    pub pid: u32,
    pub name: Seq<char>,
    pub cmd: Seq<Seq<char>>,
    pub port: u16,
    pub cpu_key: u32,
    pub memory: u64,
    pub connections: u32,
    pub protocol: Seq<char>,
}

impl View for ProcessInfo {
    type V = ProcessView;

    open spec fn view(&self) -> ProcessView {
        ProcessView {
            pid: self.pid,
            name: self.name@,
            cmd: string_views(self.cmd@),
            port: self.port,
            cpu_key: self.cpu_key,
            memory: self.memory,
            connections: self.connections,
            protocol: self.protocol@,
        }
    }
}

/// The views of a list of processes.
pub open spec fn process_views(v: Seq<ProcessInfo>) -> Seq<ProcessView> {
    v.map_values(|p: ProcessInfo| p@)
}

impl Clone for ProcessInfo {
    fn clone(&self) -> (r: Self)
        ensures
            r@ == self@,
    {
        let cmd = self.cmd.clone();
        assert(string_views(cmd@) =~= string_views(self.cmd@)) by {
            assert forall|i: int| 0 <= i < cmd@.len() implies cmd@[i]@ == self.cmd@[i]@ by {
                assert(cloned::<String>(self.cmd@[i], cmd@[i]));
            }
        }
        ProcessInfo {
            pid: self.pid,
            name: self.name.clone(),
            cmd,
            port: self.port,
            cpu_key: self.cpu_key,
            memory: self.memory,
            connections: self.connections,
            protocol: self.protocol.clone(),
        }
    }
}

/// The texts of a list of strings.
pub open spec fn string_views(v: Seq<String>) -> Seq<Seq<char>> {
    v.map_values(|s: String| s@)
}

/// The parts joined with `sep` between neighbours, as `slice::join` does.
pub open spec fn join(parts: Seq<Seq<char>>, sep: Seq<char>) -> Seq<char>
    decreases parts.len(),
{
    if parts.len() == 0 {
        Seq::empty()
    } else if parts.len() == 1 {
        parts[0]
    } else {
        join(parts.drop_last(), sep) + sep + parts.last()
    }
}

/// The command line shown for a process: its arguments joined by single
/// spaces, or its name when it has none.
pub open spec fn command_display(p: ProcessView) -> Seq<char> {
    if p.cmd.len() == 0 {
        p.name
    } else {
        join(p.cmd, seq![' '])
    }
}

/// Joins `parts` with `sep` between neighbours.
pub fn join_strings(parts: &Vec<String>, sep: &str) -> (s: String)
    ensures
        s@ == join(string_views(parts@), sep@),
{
    let mut s = String::new();
    let n = parts.len();
    let mut i: usize = 0;
    while i < n
        invariant
            n == parts@.len(),
            i <= n,
            s@ == join(string_views(parts@).take(i as int), sep@),
        decreases n - i,
    {
        let ghost prev = string_views(parts@).take(i as int);
        assert(string_views(parts@).take(i + 1).drop_last() =~= prev);
        if i > 0 {
            s.append(sep);
        }
        s.append(parts[i].as_str());
        proof {
            if i == 0 {
                assert(s@ =~= string_views(parts@).take(1)[0]);
            }
        }
        i = i + 1;
    }
    assert(string_views(parts@).take(n as int) =~= string_views(parts@));
    s
}

impl ProcessInfo {
    /// The command line of the process, or its name when it has no
    /// arguments.
    #[allow(non_snake_case)]
    pub fn commandDisplay(&self) -> (s: String)
        ensures
            s@ == command_display(self@),
    {
        if self.cmd.len() == 0 {
            self.name.clone()
        } else {
            proof {
                reveal_strlit(" ");
                assert(" "@ =~= seq![' ']);
            }
            join_strings(&self.cmd, " ")
        }
    }
}

/// The message when `kill` exits with a failure status.
pub open spec fn kill_refused_message(pid: u32) -> Seq<char> {
    "Failed to kill process "@ + crate::text::decimal(pid as nat)
}

/// The outcome of sending `kill` to process `pid`: an error naming the
/// process when the command reports failure.
#[allow(non_snake_case)]
pub fn killResult(pid: u32, success: bool) -> (r: Result<(), String>)
    ensures
        success ==> r is Ok,
        !success ==> r is Err && r->Err_0@ == kill_refused_message(pid),
{
    if success {
        Ok(())
    } else {
        proof {
            reveal_strlit("Failed to kill process ");
        }
        let mut m = String::from_str("Failed to kill process ");
        let n = crate::text::to_decimal(pid as u64);
        m.append(n.as_str());
        Err(m)
    }
}

/// The first process of the list that listens on `port`.
#[allow(non_snake_case)]
pub fn findProcessByPort(processes: &Vec<ProcessInfo>, port: u16) -> (r: Option<&ProcessInfo>)
    ensures
        match r {
            Some(p) => exists|i: int|
                0 <= i < processes@.len() && p == &processes@[i] && processes@[i].port == port
                    && forall|j: int| 0 <= j < i ==> #[trigger] processes@[j].port != port,
            None => forall|j: int| 0 <= j < processes@.len() ==> #[trigger] processes@[j].port != port,
        },
{
    let n = processes.len();
    let mut i: usize = 0;
    while i < n
        invariant
            n == processes@.len(),
            i <= n,
            forall|j: int| 0 <= j < i ==> #[trigger] processes@[j].port != port,
        decreases n - i,
    {
        if processes[i].port == port {
            return Some(&processes[i]);
        }
        i = i + 1;
    }
    None
}


/// A joined text ends with the last part.
proof fn lemma_join_ends_with_last(parts: Seq<Seq<char>>, sep: Seq<char>)
    requires
        parts.len() > 0,
    ensures
        join(parts, sep).len() >= parts.last().len(),
        join(parts, sep) =~= join(parts, sep).take(
            join(parts, sep).len() - parts.last().len(),
        ) + parts.last(),
{
    if parts.len() == 1 {
        assert(join(parts, sep).take(0) =~= Seq::<char>::empty());
    } else {
        let j = join(parts.drop_last(), sep);
        assert(join(parts, sep) == j + sep + parts.last());
        assert((j + sep + parts.last()).take((j + sep).len() as int) =~= j + sep);
    }
}

/// Every two neighbouring parts of a joined text stand in it with the
/// separator between them.
proof fn lemma_join_neighbours(parts: Seq<Seq<char>>, sep: Seq<char>, i: int)
    requires
        0 <= i,
        i + 1 < parts.len(),
    ensures
        crate::scan::contains(join(parts, sep), parts[i] + sep + parts[i + 1]),
    decreases parts.len(),
{
    let needle = parts[i] + sep + parts[i + 1];
    let init = parts.drop_last();
    let whole = join(parts, sep);
    assert(whole == join(init, sep) + sep + parts.last());
    if i + 2 == parts.len() {
        lemma_join_ends_with_last(init, sep);
        let ji = join(init, sep);
        let x = ji.take(ji.len() - init.last().len());
        assert(init.last() == parts[i]);
        assert(whole =~= x + needle);
        assert(whole.subrange(x.len() as int, (x.len() + needle.len()) as int) =~= needle);
        assert(crate::scan::occurs_at(whole, needle, x.len() as int));
    } else {
        assert(init[i] == parts[i] && init[i + 1] == parts[i + 1]);
        lemma_join_neighbours(init, sep, i);
        let ji = join(init, sep);
        let k = choose|k: int| crate::scan::occurs_at(ji, needle, k);
        assert(whole.subrange(k, k + needle.len()) =~= ji.subrange(k, k + needle.len()));
        assert(crate::scan::occurs_at(whole, needle, k));
    }
}

/// The command line shown for a process holds each argument, and each two
/// neighbouring arguments with exactly one space between them; a process
/// without arguments shows its name.
pub proof fn lemma_command_display_spaces(p: ProcessView, i: int)
    ensures
        p.cmd.len() == 0 ==> command_display(p) == p.name,
        0 <= i && i + 1 < p.cmd.len() ==> crate::scan::contains(
            command_display(p),
            p.cmd[i] + seq![' '] + p.cmd[i + 1],
        ),
{
    if 0 <= i && i + 1 < p.cmd.len() {
        lemma_join_neighbours(p.cmd, seq![' '], i);
    }
}

} // verus!
