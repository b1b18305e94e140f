use std::collections::HashMap;
use vstd::prelude::*;
use vstd::std_specs::iter::IteratorSpec;
use crate::scan::{
    contains, contains_chars, lemma_split_len, lines, lines_of, parse_u16, parse_u32,
    parse_unsigned, split, split_chars, views, words, words_of,
};
use crate::order::{SortMode, sort_processes, stable_sorted};
use crate::process::{ProcessInfo, ProcessView, process_views, string_views};
use crate::text::{chars_of, string_of};

verus! {

broadcast use vstd::std_specs::hash::group_hash_axioms;

/// One line of the port listing, as far as it is read: the process, its
/// port, the protocol column, and whether the state says the port listens
/// or carries an established connection.
pub struct Observation {
    pub pid: u32,
    pub port: u16,
    pub protocol: Vec<char>,
    pub listen: bool,
    pub established: bool,
}

pub struct ObservationView {
    pub pid: u32,
    pub port: u16,
    pub protocol: Seq<char>,
    pub listen: bool,
    pub established: bool,
}

impl View for Observation {
    type V = ObservationView;

    open spec fn view(&self) -> ObservationView {
        ObservationView {
            pid: self.pid,
            port: self.port,
            protocol: self.protocol@,
            listen: self.listen,
            established: self.established,
        }
    }
}

pub open spec fn observation_views(v: Seq<Option<Observation>>) -> Seq<Option<ObservationView>> {
    v.map_values(|o: Option<Observation>| match o {
        Some(x) => Some(x@),
        None => None,
    })
}

/// The port that ends an address such as `127.0.0.1:3000`: the text after
/// its last colon.
pub open spec fn address_port(address: Seq<char>) -> Option<nat> {
    parse_unsigned(split(address, ':').last(), u16::MAX as nat)
}

/// The local end of an `lsof` address: the text before its first `->`
/// (`127.0.0.1:3000->127.0.0.1:51000` has the local end
/// `127.0.0.1:3000`), or the whole text when it names no remote end.
pub open spec fn local_address(address: Seq<char>) -> Seq<char>
    decreases address.len(),
{
    if address.len() < 2 {
        address
    } else if address[0] == '-' && address[1] == '>' {
        Seq::empty()
    } else {
        seq![address[0]] + local_address(address.drop_first())
    }
}

/// A line of `lsof -iTCP -n -P` output, split into words: at least nine
/// words, the process id second, the protocol eighth, the address ninth and
/// the state, when there is one, tenth. The port is that of the local end
/// of the address, so that a connection counts for the port it was made
/// to.
pub open spec fn lsof_observation(t: Seq<Seq<char>>) -> Option<ObservationView> {
    if t.len() >= 9 {
        match (parse_unsigned(t[1], u32::MAX as nat), address_port(local_address(t[8]))) {
            (Some(pid), Some(port)) => {
                let state = if t.len() > 9 { t[9] } else { Seq::<char>::empty() };
                Some(ObservationView {
                    pid: pid as u32,
                    port: port as u16,
                    protocol: t[7],
                    listen: contains(state, "LISTEN"@),
                    established: contains(state, "ESTABLISHED"@),
                })
            },
            _ => None,
        }
    } else {
        None
    }
}

/// A line of `netstat -ano -p TCP` output, split into words: at least five
/// words, the protocol first, the local address second, the state fourth
/// and the process id fifth.
pub open spec fn netstat_observation(t: Seq<Seq<char>>) -> Option<ObservationView> {
    if t.len() >= 5 {
        match (parse_unsigned(t[4], u32::MAX as nat), address_port(t[1])) {
            (Some(pid), Some(port)) => Some(ObservationView {
                pid: pid as u32,
                port: port as u16,
                protocol: t[0],
                listen: t[3] == "LISTENING"@,
                established: t[3] == "ESTABLISHED"@,
            }),
            _ => None,
        }
    } else {
        None
    }
}

/// The lines after the first `k` (none when there are fewer).
pub open spec fn lines_after(ls: Seq<Seq<char>>, k: int) -> Seq<Seq<char>> {
    if k <= ls.len() {
        ls.skip(k)
    } else {
        Seq::empty()
    }
}

/// The observations of the lines of `text` after its first `skip` lines.
pub open spec fn observations(text: Seq<char>, skip: int, netstat: bool) -> Seq<Option<ObservationView>> {
    lines_after(lines(text), skip).map_values(|l: Seq<char>| if netstat {
        netstat_observation(words(l))
    } else {
        lsof_observation(words(l))
    })
}

/// The protocol of the last listening observation of the port.
pub open spec fn listen_protocol(obs: Seq<Option<ObservationView>>, pid: u32, port: u16) -> Option<Seq<char>>
    decreases obs.len(),
{
    if obs.len() == 0 {
        None
    } else {
        match obs.last() {
            Some(o) => if o.listen && o.pid == pid && o.port == port {
                Some(o.protocol)
            } else {
                listen_protocol(obs.drop_last(), pid, port)
            },
            None => listen_protocol(obs.drop_last(), pid, port),
        }
    }
}

/// The number of established-connection observations of the port.
pub open spec fn established_count(obs: Seq<Option<ObservationView>>, pid: u32, port: u16) -> nat
    decreases obs.len(),
{
    if obs.len() == 0 {
        0
    } else {
        established_count(obs.drop_last(), pid, port) + match obs.last() {
            Some(o) => if o.established && o.pid == pid && o.port == port { 1nat } else { 0nat },
            None => 0nat,
        }
    }
}

/// A listening port of a process: its connection count and protocol.
pub struct PortEntry {
    pub pid: u32,
    pub port: u16,
    pub connections: u32,
    pub protocol: String,
}

pub struct PortEntryView {
    pub pid: u32,
    pub port: u16,
    pub connections: u32,
    pub protocol: Seq<char>,
}

impl View for PortEntry {
    type V = PortEntryView;

    open spec fn view(&self) -> PortEntryView {
        PortEntryView {
            pid: self.pid,
            port: self.port,
            connections: self.connections,
            protocol: self.protocol@,
        }
    }
}

/// The key of the table entry of port `port` of process `pid`.
pub open spec fn port_key(pid: u32, port: u16) -> u64 {
    (pid as int * 65536 + port as int) as u64
}

/// Different process ports have different keys.
pub proof fn lemma_port_key_injective(p1: u32, q1: u16, p2: u32, q2: u16)
    ensures
        port_key(p1, q1) == port_key(p2, q2) ==> p1 == p2 && q1 == q2,
{
    assert(p1 as int * 65536 + q1 as int == p2 as int * 65536 + q2 as int ==> p1 == p2 && q1 == q2)
        by (nonlinear_arith);
}

/// The key of the table entry of port `port` of process `pid`.
#[allow(non_snake_case)]
pub fn portKey(pid: u32, port: u16) -> (k: u64)
    ensures
        k == port_key(pid, port),
{
    pid as u64 * 65536 + port as u64
}

/// Each process port of `m` stands under its own key and was seen
/// listening, with the protocol of its last listening observation; every
/// process port seen listening has an entry.
pub open spec fn listening(obs: Seq<Option<ObservationView>>, m: Map<u64, PortEntry>) -> bool {
    &&& forall|pid: u32, port: u16|
        #[trigger] m.contains_key(port_key(pid, port)) <==> listen_protocol(obs, pid, port) is Some
    &&& forall|k: u64|
        #[trigger] m.contains_key(k) ==> k == port_key(m[k].pid, m[k].port) && listen_protocol(
            obs,
            m[k].pid,
            m[k].port,
        ) == Some(m[k].protocol@)
}

/// Each entry of `m` counts the established observations of its port.
pub open spec fn counted(obs: Seq<Option<ObservationView>>, m: Map<u64, PortEntry>) -> bool {
    forall|k: u64| #[trigger]
        m.contains_key(k) ==> m[k].connections == established_count(obs, m[k].pid, m[k].port)
}

/// `m` is the table of listening ports that the observations describe,
/// keyed by `port_key`: one entry for every process port that was seen
/// listening, with the protocol of its last listening observation and the
/// number of its established-connection observations.
pub open spec fn port_map(obs: Seq<Option<ObservationView>>, m: Map<u64, PortEntry>) -> bool {
    listening(obs, m) && counted(obs, m)
}

fn local_address_exec(address: &Vec<char>) -> (r: Vec<char>)
    ensures
        r@ == local_address(address@),
{
    let ghost s = address@;
    let n = address.len();
    let mut out: Vec<char> = Vec::new();
    let mut i: usize = 0;
    assert(s.skip(0) =~= s);
    while i < n && n - i > 1
        invariant
            s == address@,
            n == s.len(),
            i <= n,
            out@ == s.take(i as int),
            local_address(s) == s.take(i as int) + local_address(s.skip(i as int)),
        decreases n - i,
    {
        let ghost rest = s.skip(i as int);
        assert(rest[0] == s[i as int] && rest[1] == s[i + 1]);
        if address[i] == '-' && address[i + 1] == '>' {
            assert(local_address(rest) =~= Seq::<char>::empty());
            assert(s.take(i as int) + Seq::<char>::empty() =~= s.take(i as int));
            return out;
        }
        assert(rest.drop_first() =~= s.skip(i + 1));
        assert(s.take(i as int) + (seq![s[i as int]] + local_address(s.skip(i + 1))) =~= s.take(i + 1)
            + local_address(s.skip(i + 1)));
        out.push(address[i]);
        assert(out@ =~= s.take(i + 1));
        i = i + 1;
    }
    let ghost rest = s.skip(i as int);
    assert(local_address(rest) == rest);
    assert(s.take(i as int) + rest =~= s);
    let mut j = i;
    while j < n
        invariant
            s == address@,
            n == s.len(),
            i <= j <= n,
            out@ == s.take(j as int),
        decreases n - j,
    {
        out.push(address[j]);
        assert(out@ =~= s.take(j + 1));
        j = j + 1;
    }
    assert(s.take(n as int) =~= s);
    out
}

fn observe_lsof(t: &Vec<Vec<char>>) -> (r: Option<Observation>)
    ensures
        match r {
            Some(o) => lsof_observation(views(t@)) == Some(o@),
            None => lsof_observation(views(t@)) is None,
        },
{
    let n = t.len();
    if n < 9 {
        return None;
    }
    let ghost tv = views(t@);
    assert(tv[1] == t@[1]@ && tv[7] == t@[7]@ && tv[8] == t@[8]@);
    let pid = match parse_u32(&t[1]) {
        Some(p) => p,
        None => return None,
    };
    let local = local_address_exec(&t[8]);
    let pieces = split_chars(&local, ':');
    proof {
        lemma_split_len(local@, ':');
    }
    let k = pieces.len();
    assert(pieces@[k - 1]@ == split(local@, ':').last());
    let port = match parse_u16(&pieces[k - 1]) {
        Some(p) => p,
        None => return None,
    };
    let protocol = t[7].clone();
    let listen;
    let established;
    proof {
        reveal_strlit("LISTEN");
        reveal_strlit("ESTABLISHED");
    }
    let listen_word = chars_of("LISTEN");
    let established_word = chars_of("ESTABLISHED");
    if n > 9 {
        assert(tv[9] == t@[9]@);
        listen = contains_chars(&t[9], &listen_word);
        established = contains_chars(&t[9], &established_word);
    } else {
        let empty: Vec<char> = Vec::new();
        listen = contains_chars(&empty, &listen_word);
        established = contains_chars(&empty, &established_word);
    }
    Some(Observation { pid, port, protocol, listen, established })
}

fn chars_eq(a: &Vec<char>, b: &Vec<char>) -> (r: bool)
    ensures
        r == (a@ == b@),
{
    if a.len() != b.len() {
        return false;
    }
    let n = a.len();
    let mut i: usize = 0;
    while i < n
        invariant
            n == a@.len(),
            n == b@.len(),
            i <= n,
            forall|j: int| 0 <= j < i ==> a@[j] == b@[j],
        decreases n - i,
    {
        if a[i] != b[i] {
            return false;
        }
        i = i + 1;
    }
    assert(a@ =~= b@);
    true
}

fn observe_netstat(t: &Vec<Vec<char>>) -> (r: Option<Observation>)
    ensures
        match r {
            Some(o) => netstat_observation(views(t@)) == Some(o@),
            None => netstat_observation(views(t@)) is None,
        },
{
    let n = t.len();
    if n < 5 {
        return None;
    }
    let ghost tv = views(t@);
    assert(tv[0] == t@[0]@ && tv[1] == t@[1]@ && tv[3] == t@[3]@ && tv[4] == t@[4]@);
    let pid = match parse_u32(&t[4]) {
        Some(p) => p,
        None => return None,
    };
    let pieces = split_chars(&t[1], ':');
    proof {
        lemma_split_len(t@[1]@, ':');
    }
    let k = pieces.len();
    assert(pieces@[k - 1]@ == split(t@[1]@, ':').last());
    let port = match parse_u16(&pieces[k - 1]) {
        Some(p) => p,
        None => return None,
    };
    let protocol = t[0].clone();
    proof {
        reveal_strlit("LISTENING");
        reveal_strlit("ESTABLISHED");
    }
    let listen = chars_eq(&t[3], &chars_of("LISTENING"));
    let established = chars_eq(&t[3], &chars_of("ESTABLISHED"));
    Some(Observation { pid, port, protocol, listen, established })
}


proof fn lemma_lines_len(s: Seq<char>)
    ensures
        lines(s).len() <= s.len() + 1,
{
    lemma_split_len(s, '\n');
}

fn observe_all(text: &str, skip: usize, netstat: bool) -> (r: Vec<Option<Observation>>)
    ensures
        observation_views(r@) == observations(text@, skip as int, netstat),
        r@.len() <= text@.len() + 1,
{
    let chars = chars_of(text);
    let ls = lines_of(&chars);
    let ghost lv = views(ls@);
    proof {
        lemma_lines_len(text@);
    }
    let n = ls.len();
    let mut out: Vec<Option<Observation>> = Vec::new();
    let mut i: usize = skip;
    let ghost rest = lines_after(lv, skip as int);
    let ghost f = |l: Seq<char>| if netstat {
        netstat_observation(words(l))
    } else {
        lsof_observation(words(l))
    };
    if skip >= n {
        assert(observation_views(out@) =~= rest.map_values(f));
        return out;
    }
    assert(rest.take(0).map_values(f) =~= Seq::<Option<ObservationView>>::empty());
    while i < n
        invariant
            n == ls@.len(),
            skip <= i <= n,
            lv == views(ls@),
            rest == lv.skip(skip as int),
            f == (|l: Seq<char>| if netstat {
                netstat_observation(words(l))
            } else {
                lsof_observation(words(l))
            }),
            observation_views(out@) == rest.take(i - skip).map_values(f),
            out@.len() == i - skip,
        decreases n - i,
    {
        let t = words_of(&ls[i]);
        assert(lv[i as int] == ls@[i as int]@);
        assert(rest[i - skip] == lv[i as int]);
        let o = if netstat { observe_netstat(&t) } else { observe_lsof(&t) };
        let ghost before = observation_views(out@);
        let ghost ov = observation_views(seq![o])[0];
        out.push(o);
        assert(observation_views(out@) =~= before.push(ov));
        assert(rest.take(i + 1 - skip) =~= rest.take(i - skip).push(rest[i - skip]));
        i = i + 1;
    }
    assert(rest.take(n - skip) =~= rest);
    out
}

proof fn lemma_count_le(obs: Seq<Option<ObservationView>>, pid: u32, port: u16)
    ensures
        established_count(obs, pid, port) <= obs.len(),
    decreases obs.len(),
{
    if obs.len() > 0 {
        lemma_count_le(obs.drop_last(), pid, port);
    }
}

/// A prefix of the observations counts no more connections than all of
/// them.
proof fn lemma_count_prefix(obs: Seq<Option<ObservationView>>, i: int, pid: u32, port: u16)
    requires
        0 <= i <= obs.len(),
    ensures
        established_count(obs.take(i), pid, port) <= established_count(obs, pid, port),
    decreases obs.len() - i,
{
    if i < obs.len() {
        lemma_count_prefix(obs, i + 1, pid, port);
        assert(obs.take(i + 1).drop_last() =~= obs.take(i));
    } else {
        assert(obs.take(i) =~= obs);
    }
}

/// Every process port has at most `u32::MAX` established-connection
/// observations, so that its count fits the connection count.
pub open spec fn counts_fit(obs: Seq<Option<ObservationView>>) -> bool {
    forall|pid: u32, port: u16| #[trigger] established_count(obs, pid, port) <= u32::MAX
}

/// Builds the table of listening ports from the observations: first the
/// listening ports, then the connections counted on them.
fn build_table(obs: &Vec<Option<Observation>>) -> (out: HashMap<u64, PortEntry>)
    requires
        counts_fit(observation_views(obs@)),
    ensures
        port_map(observation_views(obs@), out@),
{
    let ghost ov = observation_views(obs@);
    let n = obs.len();
    let mut m: HashMap<u64, PortEntry> = HashMap::new();
    let mut i: usize = 0;
    while i < n
        invariant
            n == obs@.len(),
            i <= n,
            ov == observation_views(obs@),
            listening(ov.take(i as int), m@),
            forall|k: u64| #[trigger] m@.contains_key(k) ==> m@[k].connections == 0,
        decreases n - i,
    {
        let ghost pre = ov.take(i as int);
        let ghost post = ov.take(i + 1);
        let ghost before = m@;
        assert(post.drop_last() =~= pre);
        assert(post.last() == ov[i as int]);
        match &obs[i] {
            Some(o) => {
                if o.listen {
                    let key = portKey(o.pid, o.port);
                    let protocol = string_of(&o.protocol);
                    m.insert(key, PortEntry { pid: o.pid, port: o.port, connections: 0, protocol });
                    assert forall|pid: u32, port: u16| #[trigger]
                        m@.contains_key(port_key(pid, port)) <==> listen_protocol(post, pid, port)
                            is Some by {
                        lemma_port_key_injective(pid, port, o.pid, o.port);
                    }
                    assert forall|k: u64| #[trigger]
                        m@.contains_key(k) implies k == port_key(m@[k].pid, m@[k].port)
                            && listen_protocol(post, m@[k].pid, m@[k].port) == Some(
                            m@[k].protocol@,
                        ) by {
                        if k != key {
                            lemma_port_key_injective(m@[k].pid, m@[k].port, o.pid, o.port);
                        }
                    }
                } else {
                    assert(forall|pid: u32, port: u16| #[trigger] listen_protocol(post, pid, port)
                        == listen_protocol(pre, pid, port));
                }
            },
            None => {
                assert(forall|pid: u32, port: u16| #[trigger] listen_protocol(post, pid, port)
                    == listen_protocol(pre, pid, port));
            },
        }
        i = i + 1;
    }
    assert(ov.take(n as int) =~= ov);
    assert(counted(ov.take(0), m@));
    let mut i: usize = 0;
    while i < n
        invariant
            n == obs@.len(),
            counts_fit(ov),
            i <= n,
            ov == observation_views(obs@),
            listening(ov, m@),
            counted(ov.take(i as int), m@),
        decreases n - i,
    {
        let ghost pre = ov.take(i as int);
        let ghost post = ov.take(i + 1);
        assert(post.drop_last() =~= pre);
        assert(post.last() == ov[i as int]);
        match &obs[i] {
            Some(o) => {
                if o.established {
                    let key = portKey(o.pid, o.port);
                    let found = match m.get(&key) {
                        Some(e) => Some(PortEntry {
                            pid: e.pid,
                            port: e.port,
                            connections: e.connections,
                            protocol: e.protocol.clone(),
                        }),
                        None => None,
                    };
                    match found {
                        Some(e) => {
                            proof {
                                lemma_port_key_injective(e.pid, e.port, o.pid, o.port);
                                lemma_count_prefix(ov, i + 1, o.pid, o.port);
                                assert(established_count(ov, o.pid, o.port) <= u32::MAX);
                            }
                            let updated = PortEntry {
                                pid: e.pid,
                                port: e.port,
                                connections: e.connections + 1,
                                protocol: e.protocol,
                            };
                            let ghost before = m@;
                            m.insert(key, updated);
                            assert forall|k: u64| #[trigger]
                                m@.contains_key(k) implies m@[k].connections == established_count(
                                post,
                                m@[k].pid,
                                m@[k].port,
                            ) by {
                                if k != key {
                                    lemma_port_key_injective(m@[k].pid, m@[k].port, o.pid, o.port);
                                }
                            }
                            assert forall|pid: u32, port: u16| #[trigger]
                                m@.contains_key(port_key(pid, port)) <==> listen_protocol(ov, pid, port)
                                    is Some by {
                                assert(before.contains_key(port_key(pid, port)) <==> listen_protocol(
                                    ov,
                                    pid,
                                    port,
                                ) is Some);
                            }
                            assert forall|k: u64| #[trigger]
                                m@.contains_key(k) implies k == port_key(m@[k].pid, m@[k].port)
                                    && listen_protocol(ov, m@[k].pid, m@[k].port) == Some(
                                    m@[k].protocol@,
                                ) by {
                                assert(before.contains_key(k));
                            }
                        },
                        None => {
                            assert forall|k: u64| #[trigger]
                                m@.contains_key(k) implies m@[k].connections == established_count(
                                post,
                                m@[k].pid,
                                m@[k].port,
                            ) by {
                                lemma_port_key_injective(m@[k].pid, m@[k].port, o.pid, o.port);
                            }
                        },
                    }
                } else {
                    assert(forall|pid: u32, port: u16| #[trigger] established_count(post, pid, port)
                        == established_count(pre, pid, port));
                }
            },
            None => {
                assert(forall|pid: u32, port: u16| #[trigger] established_count(post, pid, port)
                    == established_count(pre, pid, port));
            },
        }
        i = i + 1;
    }
    assert(ov.take(n as int) =~= ov);
    m
}

/// The listening ports that `lsof -iTCP -n -P` reports in `text` (its
/// first line is the header): for each process port seen listening, the
/// protocol of its last listening line and the number of established
/// connections whose local end is that port.
#[allow(non_snake_case)]
pub fn parseLsofOutput(text: &str) -> (out: HashMap<u64, PortEntry>)
    requires
        counts_fit(observations(text@, 1, false)),
    ensures
        port_map(observations(text@, 1, false), out@),
{
    let obs = observe_all(text, 1, false);
    build_table(&obs)
}

/// The listening ports that `netstat -ano -p TCP` reports in `text` (its
/// first four lines are headers): for each process port in state
/// `LISTENING`, its protocol and the number of its `ESTABLISHED` lines.
#[allow(non_snake_case)]
pub fn parseNetstatOutput(text: &str) -> (out: HashMap<u64, PortEntry>)
    requires
        counts_fit(observations(text@, 4, true)),
    ensures
        port_map(observations(text@, 4, true), out@),
{
    let obs = observe_all(text, 4, true);
    build_table(&obs)
}


/// Whether every process port of the listing in `text` (from `netstat`
/// when `netstat` is set, else from `lsof`) has at most `u32::MAX`
/// established connections, as the parsers require.
#[allow(non_snake_case)]
pub fn connectionCountsFit(text: &str, netstat: bool) -> (b: bool)
    ensures
        b == counts_fit(observations(text@, if netstat { 4 } else { 1 }, netstat)),
{
    let skip: usize = if netstat { 4 } else { 1 };
    let obs = observe_all(text, skip, netstat);
    let ghost ov = observation_views(obs@);
    assert(ov == observations(text@, if netstat { 4 } else { 1 }, netstat));
    let n = obs.len();
    let mut counts: HashMap<u64, u64> = HashMap::new();
    let mut i: usize = 0;
    while i < n
        invariant
            n == obs@.len(),
            i <= n,
            ov == observation_views(obs@),
            forall|pid: u32, port: u16| #[trigger]
                established_count(ov.take(i as int), pid, port) == if counts@.contains_key(
                    port_key(pid, port),
                ) {
                    counts@[port_key(pid, port)] as nat
                } else {
                    0nat
                },
            counts_fit(ov.take(i as int)),
            ov == observations(text@, if netstat { 4 } else { 1 }, netstat),
        decreases n - i,
    {
        let ghost pre = ov.take(i as int);
        let ghost post = ov.take(i + 1);
        assert(post.drop_last() =~= pre);
        assert(post.last() == ov[i as int]);
        match &obs[i] {
            Some(o) => {
                if o.established {
                    let key = portKey(o.pid, o.port);
                    let c: u64 = match counts.get(&key) {
                        Some(c) => *c,
                        None => 0,
                    };
                    let ghost before = counts@;
                    proof {
                        lemma_count_le(pre, o.pid, o.port);
                        assert(established_count(ov.take(i as int), o.pid, o.port) == c as nat);
                        assert(ov[i as int] == Some(o@));
                        assert(established_count(post, o.pid, o.port) == c + 1);
                    }
                    if c >= 4294967295 {
                        proof {
                            lemma_count_prefix(ov, i + 1, o.pid, o.port);
                            assert(established_count(ov, o.pid, o.port) > u32::MAX);
                            assert(!counts_fit(ov));
                        }
                        return false;
                    }
                    counts.insert(key, c + 1);
                    assert forall|pid: u32, port: u16| #[trigger]
                        established_count(post, pid, port) == if counts@.contains_key(
                            port_key(pid, port),
                        ) {
                            counts@[port_key(pid, port)] as nat
                        } else {
                            0nat
                        } by {
                        lemma_port_key_injective(pid, port, o.pid, o.port);
                        assert(established_count(ov.take(i as int), pid, port) == if before.contains_key(
                            port_key(pid, port),
                        ) {
                            before[port_key(pid, port)] as nat
                        } else {
                            0nat
                        });
                    }
                    assert forall|pid: u32, port: u16|
                        #[trigger] established_count(post, pid, port) <= u32::MAX by {
                        lemma_port_key_injective(pid, port, o.pid, o.port);
                        assert(established_count(ov.take(i as int), pid, port) <= u32::MAX);
                    }
                } else {
                    assert(ov[i as int] == Some(o@));
                    assert(forall|pid: u32, port: u16| #[trigger] established_count(post, pid, port)
                        == established_count(pre, pid, port));
                }
            },
            None => {
                assert(ov[i as int] is None);
                assert(forall|pid: u32, port: u16| #[trigger] established_count(post, pid, port)
                    == established_count(pre, pid, port));
            },
        }
        i = i + 1;
    }
    assert(ov.take(n as int) =~= ov);
    true
}

/// A line of `ps -eo pid,%cpu` output, split into words (surrounding white
/// space does not change them): the process id and the text of its CPU
/// share, when the line has two words and the first is a `u32`.
pub open spec fn ps_sample(t: Seq<Seq<char>>) -> Option<(u32, Seq<char>)> {
    if t.len() >= 2 {
        match parse_unsigned(t[0], u32::MAX as nat) {
            Some(pid) => Some((pid as u32, t[1])),
            None => None,
        }
    } else {
        None
    }
}

/// The samples of the given lines, in order.
pub open spec fn ps_samples(ls: Seq<Seq<char>>) -> Seq<(u32, Seq<char>)>
    decreases ls.len(),
{
    if ls.len() == 0 {
        Seq::empty()
    } else {
        let prev = ps_samples(ls.drop_last());
        match ps_sample(words(ls.last())) {
            Some(x) => prev.push(x),
            None => prev,
        }
    }
}

/// A process id with the text of its CPU share.
pub struct CpuSample {
    pub pid: u32,
    pub cpu_text: String,
}

/// The samples that `ps -eo pid,%cpu` reports in `text` (its first line is
/// the header), in order; the caller reads the CPU texts as numbers.
#[allow(non_snake_case)]
pub fn parsePsOutput(text: &str) -> (out: Vec<CpuSample>)
    ensures
        out@.map_values(|c: CpuSample| (c.pid, c.cpu_text@)) == ps_samples(lines_after(lines(text@), 1)),
{
    let chars = chars_of(text);
    let ls = lines_of(&chars);
    let ghost lv = views(ls@);
    let ghost rest = lines_after(lv, 1);
    let n = ls.len();
    let mut out: Vec<CpuSample> = Vec::new();
    if n <= 1 {
        assert(rest =~= Seq::<Seq<char>>::empty());
        assert(out@.map_values(|c: CpuSample| (c.pid, c.cpu_text@)) =~= Seq::<(u32, Seq<char>)>::empty());
        return out;
    }
    let mut i: usize = 1;
    assert(rest.take(0) =~= Seq::<Seq<char>>::empty());
    assert(out@.map_values(|c: CpuSample| (c.pid, c.cpu_text@)) =~= Seq::<(u32, Seq<char>)>::empty());
    while i < n
        invariant
            n == ls@.len(),
            1 <= i <= n,
            lv == views(ls@),
            rest == lv.skip(1),
            out@.map_values(|c: CpuSample| (c.pid, c.cpu_text@)) == ps_samples(rest.take(i - 1)),
        decreases n - i,
    {
        let t = words_of(&ls[i]);
        assert(lv[i as int] == ls@[i as int]@);
        assert(rest[i - 1] == lv[i as int]);
        assert(rest.take(i as int).drop_last() =~= rest.take(i - 1));
        assert(rest.take(i as int).last() == rest[i - 1]);
        let ghost tv = views(t@);
        let ghost before = out@.map_values(|c: CpuSample| (c.pid, c.cpu_text@));
        if t.len() >= 2 {
            assert(tv[0] == t@[0]@ && tv[1] == t@[1]@);
            match parse_u32(&t[0]) {
                Some(pid) => {
                    let cpu_text = string_of(&t[1]);
                    out.push(CpuSample { pid, cpu_text });
                    assert(out@.map_values(|c: CpuSample| (c.pid, c.cpu_text@)) =~= before.push((pid, tv[1])));
                },
                None => {},
            }
        }
        i = i + 1;
    }
    assert(rest.take(n - 1) =~= rest);
    out
}

/// What the system reports of a running process.
pub struct SystemProcess {
    pub pid: u32,
    pub name: String,
    pub cmd: Vec<String>,
    pub memory: u64,
}

pub struct SystemView {
    pub pid: u32,
    pub name: Seq<char>,
    pub cmd: Seq<Seq<char>>,
    pub memory: u64,
}

impl View for SystemProcess {
    type V = SystemView;

    open spec fn view(&self) -> SystemView {
        SystemView { pid: self.pid, name: self.name@, cmd: string_views(self.cmd@), memory: self.memory }
    }
}

pub open spec fn system_views(v: Seq<SystemProcess>) -> Seq<SystemView> {
    v.map_values(|p: SystemProcess| p@)
}

/// The first process of the system list with id `pid`.
pub open spec fn find_system(sys: Seq<SystemView>, pid: u32) -> Option<SystemView>
    decreases sys.len(),
{
    if sys.len() == 0 {
        None
    } else if sys[0].pid == pid {
        Some(sys[0])
    } else {
        find_system(sys.drop_first(), pid)
    }
}

/// The CPU share of `pid` (as `ProcessInfo::cpu_key` holds it): its entry
/// in the map, or 0 (the share 0.0) when it has none.
pub open spec fn cpu_of(cpu: Map<u32, u32>, pid: u32) -> u32 {
    if cpu.contains_key(pid) {
        cpu[pid]
    } else {
        0
    }
}

/// The processes behind the listening ports, in the order of the ports:
/// ports whose process the system does not know are left out.
pub open spec fn assembled(
    entries: Seq<PortEntryView>,
    sys: Seq<SystemView>,
    cpu: Map<u32, u32>,
) -> Seq<ProcessView>
    decreases entries.len(),
{
    if entries.len() == 0 {
        Seq::empty()
    } else {
        let prev = assembled(entries.drop_last(), sys, cpu);
        let e = entries.last();
        match find_system(sys, e.pid) {
            Some(s) => prev.push(ProcessView {
                pid: e.pid,
                name: s.name,
                cmd: s.cmd,
                port: e.port,
                cpu_key: cpu_of(cpu, e.pid),
                memory: s.memory,
                connections: e.connections,
                protocol: e.protocol,
            }),
            None => prev,
        }
    }
}

fn find_system_exec(sys: &Vec<SystemProcess>, pid: u32) -> (r: Option<usize>)
    ensures
        match r {
            Some(i) => i < sys@.len() && find_system(system_views(sys@), pid) == Some(sys@[i as int]@),
            None => find_system(system_views(sys@), pid) is None,
        },
{
    let ghost sv = system_views(sys@);
    let n = sys.len();
    let mut i: usize = 0;
    assert(sv.skip(0) =~= sv);
    while i < n
        invariant
            n == sys@.len(),
            i <= n,
            sv == system_views(sys@),
            find_system(sv, pid) == find_system(sv.skip(i as int), pid),
        decreases n - i,
    {
        assert(sv.skip(i as int)[0] == sys@[i as int]@);
        if sys[i].pid == pid {
            return Some(i);
        }
        assert(sv.skip(i as int).drop_first() =~= sv.skip(i + 1));
        i = i + 1;
    }
    None
}

fn cpu_of_exec(cpu: &HashMap<u32, u32>, pid: u32) -> (c: u32)
    ensures
        c == cpu_of(cpu@, pid),
{
    match cpu.get(&pid) {
        Some(c) => *c,
        None => 0,
    }
}

fn clone_strings(v: &Vec<String>) -> (r: Vec<String>)
    ensures
        string_views(r@) == string_views(v@),
{
    let r = v.clone();
    assert(string_views(r@) =~= string_views(v@)) by {
        assert forall|i: int| 0 <= i < r@.len() implies r@[i]@ == v@[i]@ by {
            assert(cloned::<String>(v@[i], r@[i]));
        }
    }
    r
}

/// The entries of a listing of a table, in the listing's order.
pub open spec fn listed_entries(order: Seq<(u64, PortEntry)>) -> Seq<PortEntryView> {
    order.map_values(|kv: (u64, PortEntry)| kv.1@)
}

/// `order` lists the key and entry pairs of `table`, each once.
pub open spec fn lists_table(order: Seq<(u64, PortEntry)>, table: Map<u64, PortEntry>) -> bool {
    order.no_duplicates() && order.to_set() == table.kv_pairs()
}

/// The processes that listen on the ports of `entries`, with their name,
/// command line and memory from `system` and their CPU share from `cpu`
/// (by process id; 0 for a process it does not list), ordered by port with
/// a stable sort. The table is walked in the map's own order, which the
/// map does not fix: the result is that of some listing of its entries.
#[allow(non_snake_case)]
pub fn assembleProcesses(
    entries: &HashMap<u64, PortEntry>,
    system: &Vec<SystemProcess>,
    cpu: &HashMap<u32, u32>,
) -> (out: Vec<ProcessInfo>)
    ensures
        exists|order: Seq<(u64, PortEntry)>|
            lists_table(order, entries@) && stable_sorted(
                SortMode::Port,
                false,
                assembled(listed_entries(order), system_views(system@), cpu@),
                process_views(out@),
            ),
{
    let ghost sv = system_views(system@);
    let mut procs: Vec<ProcessInfo> = Vec::new();
    let it0 = entries.iter();
    let ghost all = it0.remaining();
    let ghost order = all.map_values(|p: (&u64, &PortEntry)| (*p.0, *p.1));
    for kv in it: it0
        invariant
            it.seq() == all,
            order == all.map_values(|p: (&u64, &PortEntry)| (*p.0, *p.1)),
            sv == system_views(system@),
            process_views(procs@) == assembled(
                listed_entries(order.take(it.index())),
                sv,
                cpu@,
            ),
    {
        let e = kv.1;
        let ghost k = it.index();
        assert(order[k] == (*kv.0, *e));
        assert(listed_entries(order.take(k + 1)).drop_last() =~= listed_entries(order.take(k)));
        assert(listed_entries(order.take(k + 1)).last() == e@);
        let ghost before = process_views(procs@);
        match find_system_exec(system, e.pid) {
            Some(j) => {
                let s = &system[j];
                let p = ProcessInfo {
                    pid: e.pid,
                    name: s.name.clone(),
                    cmd: clone_strings(&s.cmd),
                    port: e.port,
                    cpu_key: cpu_of_exec(cpu, e.pid),
                    memory: s.memory,
                    connections: e.connections,
                    protocol: e.protocol.clone(),
                };
                let ghost pv = p@;
                procs.push(p);
                assert(process_views(procs@) =~= before.push(pv));
            },
            None => {},
        }
    }
    assert(order.take(order.len() as int) =~= order);
    assert(order.no_duplicates()) by {
        assert forall|a: int, b: int| 0 <= a < b < order.len() implies order[a] != order[b] by {
            assert(all[a] != all[b]);
        }
    }
    assert(order.to_set() =~= entries@.kv_pairs()) by {
        assert(all.unref().to_set() == entries@.kv_pairs());
        assert(order =~= all.unref());
    }
    let out = sort_processes(procs, SortMode::Port, false);
    assert(lists_table(order, entries@));
    out
}


/// `l` holds no `->`.
pub open spec fn no_arrow(l: Seq<char>) -> bool {
    forall|i: int| 0 <= i < l.len() - 1 ==> !(l[i] == '-' && #[trigger] l[i + 1] == '>')
}

/// The local end of `l->r` is `l`, and an address without `->` is its own
/// local end.
pub proof fn lemma_local_address_before_arrow(l: Seq<char>, r: Seq<char>)
    requires
        no_arrow(l),
    ensures
        local_address(l + seq!['-', '>'] + r) == l,
        local_address(l) == l,
    decreases l.len(),
{
    let whole = l + seq!['-', '>'] + r;
    if l.len() == 0 {
        assert(whole[0] == '-' && whole[1] == '>');
        assert(local_address(whole) =~= l);
    } else {
        let rest = l.drop_first();
        assert forall|i: int| 0 <= i < rest.len() - 1 implies !(rest[i] == '-' && #[trigger] rest[i
            + 1] == '>') by {
            assert(rest[i] == l[i + 1] && rest[i + 1] == l[i + 2]);
        }
        lemma_local_address_before_arrow(rest, r);
        assert(whole.drop_first() =~= rest + seq!['-', '>'] + r);
        if l.len() == 1 {
            assert(whole[1] == '-');
        } else {
            assert(whole[1] == l[1]);
            assert(!(l[0] == '-' && l[1] == '>'));
        }
        assert(seq![l[0]] + rest =~= l);
    }
}

/// An `lsof` connection line `l->r` is read as the same process, port and
/// state as the line with only its local end `l`: the remote end never
/// decides the port a connection counts for.
pub proof fn lemma_connection_counts_on_local_port(t: Seq<Seq<char>>, l: Seq<char>, r: Seq<char>)
    requires
        t.len() >= 9,
        t[8] == l + seq!['-', '>'] + r,
        no_arrow(l),
    ensures
        lsof_observation(t) == lsof_observation(t.update(8, l)),
{
    lemma_local_address_before_arrow(l, r);
}

} // verus!
