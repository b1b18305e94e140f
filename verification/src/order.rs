use vstd::prelude::*;
use crate::process::{ProcessInfo, ProcessView, process_views};
use crate::text::chars_of;

verus! {

/// The column by which the process list is ordered.
#[derive(Clone, Copy, Debug, PartialEq, Eq, Structural)]
pub enum SortMode {
    Port,
    Cpu,
    Memory,
    Connections,
    Name,
}

/// Lexicographic order on texts by character code: `a` is not after `b`.
/// This is the order of `String`'s `cmp`, since UTF-8 keeps code point
/// order.
pub open spec fn lex_le(a: Seq<char>, b: Seq<char>) -> bool
    decreases a.len(),
{
    if a.len() == 0 {
        true
    } else if b.len() == 0 {
        false
    } else if (a[0] as u32) < (b[0] as u32) {
        true
    } else if (a[0] as u32) > (b[0] as u32) {
        false
    } else {
        lex_le(a.drop_first(), b.drop_first())
    }
}

pub proof fn lemma_lex_reflexive(a: Seq<char>)
    ensures
        lex_le(a, a),
    decreases a.len(),
{
    if a.len() > 0 {
        lemma_lex_reflexive(a.drop_first());
    }
}

pub proof fn lemma_lex_total(a: Seq<char>, b: Seq<char>)
    ensures
        lex_le(a, b) || lex_le(b, a),
    decreases a.len(),
{
    if a.len() > 0 && b.len() > 0 {
        lemma_lex_total(a.drop_first(), b.drop_first());
    }
}

pub proof fn lemma_lex_transitive(a: Seq<char>, b: Seq<char>, c: Seq<char>)
    requires
        lex_le(a, b),
        lex_le(b, c),
    ensures
        lex_le(a, c),
    decreases a.len(),
{
    if a.len() > 0 && b.len() > 0 && c.len() > 0 {
        if (a[0] as u32) == (b[0] as u32) && (b[0] as u32) == (c[0] as u32) {
            lemma_lex_transitive(a.drop_first(), b.drop_first(), c.drop_first());
        }
    }
}

/// Compares two texts lexicographically by character code.
pub fn lex_le_exec(a: &Vec<char>, b: &Vec<char>) -> (r: bool)
    ensures
        r == lex_le(a@, b@),
{
    let n = a.len();
    let m = b.len();
    let mut i: usize = 0;
    assert(a@.skip(0) =~= a@);
    assert(b@.skip(0) =~= b@);
    while i < n && i < m
        invariant
            n == a@.len(),
            m == b@.len(),
            i <= n,
            i <= m,
            lex_le(a@, b@) == lex_le(a@.skip(i as int), b@.skip(i as int)),
        decreases n - i,
    {
        let x = a[i] as u32;
        let y = b[i] as u32;
        assert(a@.skip(i as int)[0] == a@[i as int]);
        assert(b@.skip(i as int)[0] == b@[i as int]);
        if x < y {
            return true;
        }
        if x > y {
            return false;
        }
        assert(a@.skip(i as int).drop_first() =~= a@.skip(i + 1));
        assert(b@.skip(i as int).drop_first() =~= b@.skip(i + 1));
        i = i + 1;
    }
    if i == n {
        assert(a@.skip(i as int).len() == 0);
        true
    } else {
        assert(b@.skip(i as int).len() == 0);
        assert(a@.skip(i as int).len() > 0);
        false
    }
}

/// Whether `a` may stand before `b` in the list ordered by `mode`; with
/// `reversed` false the port and name orders ascend and the usage orders
/// (CPU, memory, connections) descend, and `reversed` turns each around.
pub open spec fn order_le(mode: SortMode, reversed: bool, a: ProcessView, b: ProcessView) -> bool {
    match mode {
        SortMode::Port => if reversed { a.port >= b.port } else { a.port <= b.port },
        SortMode::Cpu => if reversed { a.cpu_key <= b.cpu_key } else { a.cpu_key >= b.cpu_key },
        SortMode::Memory => if reversed { a.memory <= b.memory } else { a.memory >= b.memory },
        SortMode::Connections => if reversed { a.connections <= b.connections } else { a.connections >= b.connections },
        SortMode::Name => if reversed { lex_le(b.name, a.name) } else { lex_le(a.name, b.name) },
    }
}

/// `a` and `b` have the same value in the column of `mode`.
pub open spec fn same_rank(mode: SortMode, a: ProcessView, b: ProcessView) -> bool {
    match mode {
        SortMode::Port => a.port == b.port,
        SortMode::Cpu => a.cpu_key == b.cpu_key,
        SortMode::Memory => a.memory == b.memory,
        SortMode::Connections => a.connections == b.connections,
        SortMode::Name => a.name == b.name,
    }
}

/// The processes with the same value as `p` in the column of `mode`.
pub open spec fn rank_class(mode: SortMode, p: ProcessView) -> spec_fn(ProcessView) -> bool {
    |x: ProcessView| same_rank(mode, x, p)
}

/// Every process may stand before every later one.
pub open spec fn sorted_by(mode: SortMode, reversed: bool, s: Seq<ProcessView>) -> bool {
    forall|i: int, j: int| 0 <= i < j < s.len() ==> order_le(mode, reversed, s[i], s[j])
}

/// `output` is `input` ordered by `mode` and `reversed`, with processes
/// that have the same value in that column kept in their input order (a
/// stable sort).
pub open spec fn stable_sorted(
    mode: SortMode,
    reversed: bool,
    input: Seq<ProcessView>,
    output: Seq<ProcessView>,
) -> bool {
    &&& sorted_by(mode, reversed, output)
    &&& forall|p: ProcessView| #[trigger]
        output.filter(rank_class(mode, p)) == input.filter(rank_class(mode, p))
}

pub proof fn lemma_order_reflexive(mode: SortMode, reversed: bool, a: ProcessView, b: ProcessView)
    requires
        same_rank(mode, a, b),
    ensures
        order_le(mode, reversed, a, b),
{
    if mode == SortMode::Name {
        lemma_lex_reflexive(a.name);
    }
}

pub proof fn lemma_order_total(mode: SortMode, reversed: bool, a: ProcessView, b: ProcessView)
    ensures
        order_le(mode, reversed, a, b) || order_le(mode, reversed, b, a),
{
    if mode == SortMode::Name {
        lemma_lex_total(a.name, b.name);
    }
}

pub proof fn lemma_order_transitive(
    mode: SortMode,
    reversed: bool,
    a: ProcessView,
    b: ProcessView,
    c: ProcessView,
)
    requires
        order_le(mode, reversed, a, b),
        order_le(mode, reversed, b, c),
    ensures
        order_le(mode, reversed, a, c),
{
    if mode == SortMode::Name {
        if reversed {
            lemma_lex_transitive(c.name, b.name, a.name);
        } else {
            lemma_lex_transitive(a.name, b.name, c.name);
        }
    }
}

/// Whether `a` may stand before `b` in the list ordered by `mode`.
pub fn order_le_exec(mode: SortMode, reversed: bool, a: &ProcessInfo, b: &ProcessInfo) -> (r: bool)
    ensures
        r == order_le(mode, reversed, a@, b@),
{
    match mode {
        SortMode::Port => if reversed { a.port >= b.port } else { a.port <= b.port },
        SortMode::Cpu => if reversed { a.cpu_key <= b.cpu_key } else { a.cpu_key >= b.cpu_key },
        SortMode::Memory => if reversed { a.memory <= b.memory } else { a.memory >= b.memory },
        SortMode::Connections => if reversed { a.connections <= b.connections } else { a.connections >= b.connections },
        SortMode::Name => {
            let x = chars_of(a.name.as_str());
            let y = chars_of(b.name.as_str());
            if reversed { lex_le_exec(&y, &x) } else { lex_le_exec(&x, &y) }
        },
    }
}

/// The position at which `x` goes into the ordered `out`: after every
/// process that may stand before it.
fn insertion_point(out: &Vec<ProcessInfo>, x: &ProcessInfo, mode: SortMode, reversed: bool) -> (k: usize)
    ensures
        k <= out@.len(),
        forall|j: int| 0 <= j < k ==> order_le(mode, reversed, #[trigger] out@[j]@, x@),
        k < out@.len() ==> !order_le(mode, reversed, out@[k as int]@, x@),
{
    let n = out.len();
    let mut k: usize = 0;
    while k < n
        invariant
            n == out@.len(),
            k <= n,
            forall|j: int| 0 <= j < k ==> order_le(mode, reversed, #[trigger] out@[j]@, x@),
        decreases n - k,
    {
        if !order_le_exec(mode, reversed, &out[k], x) {
            return k;
        }
        k = k + 1;
    }
    k
}

/// A filter that keeps nothing of `s` gives the empty sequence.
pub proof fn lemma_filter_none<A>(s: Seq<A>, f: spec_fn(A) -> bool)
    requires
        forall|i: int| 0 <= i < s.len() ==> !f(#[trigger] s[i]),
    ensures
        s.filter(f) =~= Seq::<A>::empty(),
    decreases s.len(),
{
    reveal(Seq::filter);
    if s.len() > 0 {
        lemma_filter_none(s.drop_last(), f);
    }
}

proof fn lemma_insert_keeps_stable(
    mode: SortMode,
    reversed: bool,
    pre: Seq<ProcessView>,
    out: Seq<ProcessView>,
    x: ProcessView,
    k: int,
)
    requires
        stable_sorted(mode, reversed, pre, out),
        0 <= k <= out.len(),
        forall|j: int| 0 <= j < k ==> order_le(mode, reversed, #[trigger] out[j], x),
        k < out.len() ==> !order_le(mode, reversed, out[k], x),
    ensures
        stable_sorted(mode, reversed, pre.push(x), out.insert(k, x)),
{
    broadcast use vstd::seq_lib::group_filter_ensures;

    let new = out.insert(k, x);
    // Every process after the insertion point stands strictly after `x`.
    assert forall|j: int| k <= j < out.len() implies !order_le(mode, reversed, #[trigger] out[j], x)
        && order_le(mode, reversed, x, out[j]) by {
        if order_le(mode, reversed, out[j], x) {
            if j > k {
                lemma_order_transitive(mode, reversed, out[k], out[j], x);
            }
        }
        lemma_order_total(mode, reversed, out[k], x);
        if j > k {
            lemma_order_transitive(mode, reversed, x, out[k], out[j]);
        }
    }
    assert forall|i: int, j: int| 0 <= i < j < new.len() implies order_le(
        mode,
        reversed,
        new[i],
        new[j],
    ) by {
        if j < k {
        } else if j == k {
        } else if i < k {
            lemma_order_transitive(mode, reversed, out[i], x, out[j - 1]);
        } else if i == k {
        } else {
        }
    }
    assert(new =~= out.take(k) + seq![x] + out.skip(k));
    assert(out =~= out.take(k) + out.skip(k));
    assert forall|p: ProcessView| #[trigger] new.filter(rank_class(mode, p)) == pre.push(x).filter(
        rank_class(mode, p),
    ) by {
        let f = rank_class(mode, p);
        assert(out.filter(f) == pre.filter(f));
        pre.lemma_filter_push(x, f);
        Seq::filter_distributes_over_add(out.take(k) + seq![x], out.skip(k), f);
        Seq::filter_distributes_over_add(out.take(k), seq![x], f);
        Seq::filter_distributes_over_add(out.take(k), out.skip(k), f);
        lemma_filter_none(Seq::<ProcessView>::empty(), f);
        Seq::<ProcessView>::empty().lemma_filter_push(x, f);
        assert(Seq::<ProcessView>::empty().push(x) =~= seq![x]);
        if f(x) {
            assert forall|j: int| 0 <= j < out.skip(k).len() implies !f(#[trigger] out.skip(k)[j]) by {
                assert(out.skip(k)[j] == out[k + j]);
                if f(out[k + j]) {
                    lemma_order_reflexive(mode, reversed, out[k + j], x);
                }
            }
            lemma_filter_none(out.skip(k), f);
        }
    }
}

/// Orders `v` by `mode` and `reversed` with a stable sort.
pub fn sort_processes(v: Vec<ProcessInfo>, mode: SortMode, reversed: bool) -> (out: Vec<ProcessInfo>)
    ensures
        stable_sorted(mode, reversed, process_views(v@), process_views(out@)),
{
    let ghost orig = process_views(v@);
    let mut input = v;
    let mut out: Vec<ProcessInfo> = Vec::new();
    let ghost mut i: int = 0;
    assert(process_views(out@) =~= Seq::<ProcessView>::empty());
    assert(orig.take(0) =~= Seq::<ProcessView>::empty());
    while input.len() > 0
        invariant
            0 <= i <= orig.len(),
            process_views(input@) == orig.skip(i),
            stable_sorted(mode, reversed, orig.take(i), process_views(out@)),
        decreases input@.len(),
    {
        let ghost old_input = input@;
        let x = input.remove(0);
        assert(x == old_input[0]);
        assert(process_views(old_input)[0] == old_input[0]@);
        assert(process_views(old_input).len() == old_input.len());
        assert(orig.skip(i).len() > 0);
        assert(orig.skip(i)[0] == orig[i]);
        assert(x@ == orig[i]);
        let k = insertion_point(&out, &x, mode, reversed);
        let ghost before = process_views(out@);
        proof {
            lemma_insert_keeps_stable(mode, reversed, orig.take(i), before, x@, k as int);
        }
        out.insert(k, x);
        assert(process_views(out@) =~= before.insert(k as int, x@));
        assert(orig.take(i + 1) =~= orig.take(i).push(x@));
        assert forall|j: int| 0 <= j < input@.len() implies #[trigger] input@[j]@ == orig[i + 1 + j] by {
            assert(input@[j] == old_input[j + 1]);
            assert(process_views(old_input)[j + 1] == old_input[j + 1]@);
            assert(orig.skip(i)[j + 1] == orig[i + 1 + j]);
        }
        assert(process_views(input@) =~= orig.skip(i + 1));
        proof {
            i = i + 1;
        }
    }
    assert(orig.take(i) =~= orig);
    out
}

/// The number of times `x` occurs in `s`.
pub open spec fn occurrences(s: Seq<ProcessView>, x: ProcessView) -> nat
    decreases s.len(),
{
    if s.len() == 0 {
        0
    } else {
        occurrences(s.drop_last(), x) + if s.last() == x { 1nat } else { 0nat }
    }
}

proof fn lemma_occurrences_in_class(s: Seq<ProcessView>, f: spec_fn(ProcessView) -> bool, x: ProcessView)
    requires
        f(x),
    ensures
        occurrences(s.filter(f), x) == occurrences(s, x),
    decreases s.len(),
{
    if s.len() > 0 {
        lemma_occurrences_in_class(s.drop_last(), f, x);
        s.drop_last().lemma_filter_push(s.last(), f);
        assert(s.drop_last().push(s.last()) =~= s);
        if f(s.last()) {
            assert(s.filter(f).drop_last() =~= s.drop_last().filter(f));
        }
    }
}

/// A stable sort neither adds nor drops a process: every process occurs
/// as often in the ordered list as in the input.
pub proof fn lemma_sort_is_permutation(
    mode: SortMode,
    reversed: bool,
    input: Seq<ProcessView>,
    output: Seq<ProcessView>,
    x: ProcessView,
)
    requires
        stable_sorted(mode, reversed, input, output),
    ensures
        occurrences(output, x) == occurrences(input, x),
{
    let f = rank_class(mode, x);
    lemma_order_reflexive(mode, reversed, x, x);
    assert(f(x)) by {
        if mode == SortMode::Name {
        }
    }
    lemma_occurrences_in_class(output, f, x);
    lemma_occurrences_in_class(input, f, x);
    assert(output.filter(f) == input.filter(f));
}


/// A text sorts before every longer text that starts with it, and never
/// after it, as `String`'s order puts a prefix first.
pub proof fn lemma_lex_prefix_first(a: Seq<char>, c: Seq<char>)
    ensures
        lex_le(a, a + c),
        c.len() > 0 ==> !lex_le(a + c, a),
    decreases a.len(),
{
    if a.len() > 0 {
        assert((a + c).drop_first() =~= a.drop_first() + c);
        assert((a + c)[0] == a[0]);
        lemma_lex_prefix_first(a.drop_first(), c);
    } else {
        assert(a + c =~= c);
    }
}

/// Texts that agree before position `i` and differ there are ordered by
/// their characters at `i`, whatever follows.
pub proof fn lemma_lex_first_difference(a: Seq<char>, b: Seq<char>, i: int)
    requires
        0 <= i < a.len(),
        i < b.len(),
        a.take(i) == b.take(i),
        (a[i] as u32) < (b[i] as u32),
    ensures
        lex_le(a, b),
        !lex_le(b, a),
    decreases i,
{
    if i > 0 {
        assert(a[0] == a.take(i)[0] && b[0] == b.take(i)[0]);
        assert(a.drop_first().take(i - 1) =~= a.take(i).drop_first());
        assert(b.drop_first().take(i - 1) =~= b.take(i).drop_first());
        assert(a.drop_first()[i - 1] == a[i] && b.drop_first()[i - 1] == b[i]);
        lemma_lex_first_difference(a.drop_first(), b.drop_first(), i - 1);
    }
}

/// In a list sorted by name, a process whose name is a proper prefix of
/// another's stands before it when ascending and after it when descending.
pub proof fn lemma_name_sort_puts_prefix_first(
    reversed: bool,
    input: Seq<ProcessView>,
    output: Seq<ProcessView>,
    i: int,
    j: int,
)
    requires
        stable_sorted(SortMode::Name, reversed, input, output),
        0 <= i < output.len(),
        0 <= j < output.len(),
        output[i].name.len() < output[j].name.len(),
        output[j].name.take(output[i].name.len() as int) == output[i].name,
    ensures
        !reversed ==> i < j,
        reversed ==> j < i,
{
    let a = output[i].name;
    let c = output[j].name.skip(a.len() as int);
    assert(output[j].name =~= a + c);
    lemma_lex_prefix_first(a, c);
    if i == j {
    } else if i < j {
        assert(order_le(SortMode::Name, reversed, output[i], output[j]));
    } else {
        assert(order_le(SortMode::Name, reversed, output[j], output[i]));
    }
}


/// What a sorted list looks like column by column: ports rise and names
/// go up in `String` order, while CPU, memory and connections fall, and
/// `reversed` turns each of these around.
pub proof fn lemma_sorted_columns(
    mode: SortMode,
    reversed: bool,
    input: Seq<ProcessView>,
    output: Seq<ProcessView>,
    i: int,
    j: int,
)
    requires
        stable_sorted(mode, reversed, input, output),
        0 <= i < j < output.len(),
    ensures
        mode == SortMode::Port ==> if reversed {
            output[i].port >= output[j].port
        } else {
            output[i].port <= output[j].port
        },
        mode == SortMode::Cpu ==> if reversed {
            output[i].cpu_key <= output[j].cpu_key
        } else {
            output[i].cpu_key >= output[j].cpu_key
        },
        mode == SortMode::Memory ==> if reversed {
            output[i].memory <= output[j].memory
        } else {
            output[i].memory >= output[j].memory
        },
        mode == SortMode::Connections ==> if reversed {
            output[i].connections <= output[j].connections
        } else {
            output[i].connections >= output[j].connections
        },
        mode == SortMode::Name && !reversed ==> !(output[j].name.len() < output[i].name.len()
            && output[i].name.take(output[j].name.len() as int) == output[j].name),
        mode == SortMode::Name && reversed ==> !(output[i].name.len() < output[j].name.len()
            && output[j].name.take(output[i].name.len() as int) == output[i].name),
{
    assert(order_le(mode, reversed, output[i], output[j]));
    if mode == SortMode::Name {
        if !reversed && output[j].name.len() < output[i].name.len() && output[i].name.take(
            output[j].name.len() as int,
        ) == output[j].name {
            lemma_name_sort_puts_prefix_first(reversed, input, output, j, i);
        }
        if reversed && output[i].name.len() < output[j].name.len() && output[j].name.take(
            output[i].name.len() as int,
        ) == output[i].name {
            lemma_name_sort_puts_prefix_first(reversed, input, output, i, j);
        }
    }
}

} // verus!
