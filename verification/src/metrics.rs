//! Resource figures of the application's process tree, as the developer
//! panel shows them: which processes belong to the application, how much
//! memory each one holds, and in which order they are listed.
//!
//! The system's process table comes in as plain values; per-process CPU and
//! GPU percentages are fractions and stay with the caller.
use crate::text::{chars_contain, chars_of, contains_chars, decimal, decimal_of, string_from_chars};
use vstd::prelude::*;
use vstd::string::*;

verus! {

/// `child`'s entry in the table names `parent` as its parent.
pub open spec fn child_of(table: Seq<(u32, Option<u32>)>, child: u32, parent: u32) -> bool {
    exists|i: int| 0 <= i < table.len() && (#[trigger] table[i]).0 == child && table[i].1 == Some(parent)
}

/// `p` is reached from `root` by `n` steps down the parent links of the table.
pub open spec fn descends(table: Seq<(u32, Option<u32>)>, p: u32, root: u32, n: nat) -> bool
    decreases n,
{
    if n == 0 {
        p == root
    } else {
        exists|q: u32| #[trigger] child_of(table, p, q) && descends(table, q, root, (n - 1) as nat)
    }
}

/// `p` is `root` or one of its descendants in the table.
pub open spec fn in_tree(table: Seq<(u32, Option<u32>)>, p: u32, root: u32) -> bool {
    exists|n: nat| #[trigger] descends(table, p, root, n)
}

/// Whether `x` is in `v`.
fn contains_pid(v: &Vec<u32>, x: u32) -> (r: bool)
    ensures
        r == v@.contains(x),
{
    let mut i: usize = 0;
    while i < v.len()
        invariant
            i <= v.len(),
            forall|j: int| 0 <= j < i ==> v@[j] != x,
        decreases v.len() - i,
    {
        if v[i] == x {
            return true;
        }
        i = i + 1;
    }
    false
}

/// The pids of a table, with `root`.
pub open spec fn known_pids(table: Seq<(u32, Option<u32>)>, root: u32) -> Set<u32> {
    table.map_values(|e: (u32, Option<u32>)| e.0).to_set().insert(root)
}

/// The entry's parent is in `s`.
pub open spec fn parent_in(e: (u32, Option<u32>), s: Seq<u32>) -> bool {
    match e.1 {
        Some(q) => s.contains(q),
        None => false,
    }
}

/// A set of pids closed under "child of": every child of a member is a member.
pub open spec fn closed_under_children(table: Seq<(u32, Option<u32>)>, s: Seq<u32>) -> bool {
    forall|i: int| 0 <= i < table.len() && parent_in(#[trigger] table[i], s) ==> s.contains(table[i].0)
}

/// Every descendant of `root` is in a set that holds `root` and is closed
/// under "child of".
proof fn lemma_closed_holds_tree(table: Seq<(u32, Option<u32>)>, s: Seq<u32>, root: u32, p: u32, n: nat)
    requires
        s.contains(root),
        closed_under_children(table, s),
        descends(table, p, root, n),
    ensures
        s.contains(p),
    decreases n,
{
    if n > 0 {
        let q = choose|q: u32| #[trigger] child_of(table, p, q) && descends(table, q, root, (n - 1) as nat);
        lemma_closed_holds_tree(table, s, root, q, (n - 1) as nat);
        let i = choose|i: int| 0 <= i < table.len() && (#[trigger] table[i]).0 == p && table[i].1 == Some(q);
        assert(parent_in(table[i], s));
    }
}

/// The number of distinct pids in a sequence without repeats, all taken from
/// a table and `root`, is at most the table's length plus one.
proof fn lemma_tree_size(table: Seq<(u32, Option<u32>)>, s: Seq<u32>, root: u32)
    requires
        s.no_duplicates(),
        forall|i: int| 0 <= i < s.len() ==> known_pids(table, root).contains(#[trigger] s[i]),
    ensures
        s.len() <= table.len() + 1,
{
    let keys = table.map_values(|e: (u32, Option<u32>)| e.0);
    keys.lemma_cardinality_of_set();
    s.unique_seq_to_set();
    assert(s.to_set().subset_of(known_pids(table, root))) by {
        assert forall|x: u32| s.to_set().contains(x) implies known_pids(table, root).contains(x) by {
            let i = choose|i: int| 0 <= i < s.len() && s[i] == x;
        }
    }
    vstd::set_lib::lemma_len_subset(s.to_set(), known_pids(table, root));
}

/// The application's processes: `main` and every process that descends from
/// it through the parent links of `table` (each pid with its parent, if any).
/// Each pid appears once, `main` first.
pub fn process_tree(main: u32, table: &Vec<(u32, Option<u32>)>) -> (r: Vec<u32>)
    ensures
        r@.no_duplicates(),
        r@.len() > 0 && r@[0] == main,
        forall|p: u32| r@.contains(p) <==> in_tree(table@, p, main),
{
    let mut all: Vec<u32> = Vec::new();
    all.push(main);
    proof {
        assert(descends(table@, main, main, 0));
    }
    let mut added = true;
    while added
        invariant
            all@.no_duplicates(),
            all@.len() > 0 && all@[0] == main,
            forall|k: int| 0 <= k < all@.len() ==> in_tree(table@, #[trigger] all@[k], main),
            forall|k: int| 0 <= k < all@.len() ==> known_pids(table@, main).contains(#[trigger] all@[k]),
            !added ==> closed_under_children(table@, all@),
        decreases table@.len() + 2 - all@.len() - (if added { 0int } else { 1int }),
    {
        proof {
            lemma_tree_size(table@, all@, main);
        }
        let ghost start_len = all@.len();
        added = false;
        let mut i: usize = 0;
        while i < table.len()
            invariant
                i <= table.len(),
                all@.no_duplicates(),
                all@.len() > 0 && all@[0] == main,
                all@.len() >= start_len,
                start_len <= table@.len() + 1,
                forall|k: int| 0 <= k < all@.len() ==> in_tree(table@, #[trigger] all@[k], main),
                forall|k: int|
                    0 <= k < all@.len() ==> known_pids(table@, main).contains(#[trigger] all@[k]),
                added ==> all@.len() > start_len,
                !added ==> all@.len() == start_len,
                !added ==> forall|j: int|
                    0 <= j < i && parent_in(#[trigger] table@[j], all@) ==> all@.contains(table@[j].0),
            decreases table.len() - i,
        {
            let (p, parent) = table[i];
            if !contains_pid(&all, p) {
                match parent {
                    Some(q) => {
                        if contains_pid(&all, q) {
                            proof {
                                let k = choose|k: int| 0 <= k < all@.len() && all@[k] == q;
                                let n = choose|n: nat| #[trigger] descends(table@, q, main, n);
                                assert(child_of(table@, p, q)) by {
                                    assert(table@[i as int].0 == p);
                                }
                                assert(descends(table@, p, main, n + 1));
                                assert(known_pids(table@, main).contains(p)) by {
                                    let keys = table@.map_values(|e: (u32, Option<u32>)| e.0);
                                    assert(keys[i as int] == p);
                                }
                            }
                            let ghost before = all@;
                            all.push(p);
                            added = true;
                            proof {
                                assert forall|a: int, b: int|
                                    0 <= a < b < all@.len() implies all@[a] != all@[b] by {
                                    if b == before.len() {
                                        assert(before.contains(before[a]));
                                    }
                                }
                                assert forall|x: u32| before.contains(x) implies all@.contains(x) by {
                                    let k = choose|k: int| 0 <= k < before.len() && before[k] == x;
                                    assert(all@[k] == x);
                                }
                            }
                        }
                    },
                    None => {},
                }
            }
            i = i + 1;
        }
        proof {
            if added {
                lemma_tree_size(table@, all@, main);
            }
        }
    }
    proof {
        assert forall|p: u32| in_tree(table@, p, main) implies all@.contains(p) by {
            let n = choose|n: nat| #[trigger] descends(table@, p, main, n);
            assert(all@[0] == main);
            lemma_closed_holds_tree(table@, all@, main, p, n);
        }
        assert forall|p: u32| all@.contains(p) implies in_tree(table@, p, main) by {
            let k = choose|k: int| 0 <= k < all@.len() && all@[k] == p;
        }
    }
    all
}

/// Memory counters of one process, in bytes, as the system reports them
/// (zero where the system gave nothing).
pub struct MemoryCounters {
    pub working_set: u64,
    pub private_usage: u64,
    pub private_working_set: u64,
}

/// Counters from a report without a private working set: it is taken as
/// the smaller of the private bytes and the working set.
pub fn counters_without_private_ws(working_set: u64, private_usage: u64) -> (r: MemoryCounters)
    ensures
        r.working_set == working_set,
        r.private_usage == private_usage,
        r.private_working_set == if private_usage <= working_set {
            private_usage
        } else {
            working_set
        },
{
    let private_working_set = if private_usage <= working_set {
        private_usage
    } else {
        working_set
    };
    MemoryCounters { working_set, private_usage, private_working_set }
}

/// The memory shown for a process: private bytes, working set and private
/// working set from the counters, each falling back when the counter is
/// zero (the first two to the resident size, the last to the smaller of the
/// first two).
pub fn process_memory(c: &MemoryCounters, resident: u64) -> (r: (u64, u64, u64))
    ensures
        r.0 == if c.private_usage > 0 {
            c.private_usage
        } else {
            resident
        },
        r.1 == if c.working_set > 0 {
            c.working_set
        } else {
            resident
        },
        r.2 == if c.private_working_set > 0 {
            c.private_working_set
        } else if r.0 <= r.1 {
            r.0
        } else {
            r.1
        },
{
    let ram = if c.private_usage > 0 {
        c.private_usage
    } else {
        resident
    };
    let ws = if c.working_set > 0 {
        c.working_set
    } else {
        resident
    };
    let pws = if c.private_working_set > 0 {
        c.private_working_set
    } else if ram <= ws {
        ram
    } else {
        ws
    };
    (ram, ws, pws)
}

/// The memory shown for a process where the system reports a physical
/// footprint: the footprint when it was read and is not zero, else the
/// resident size.
pub fn footprint_memory(footprint: Option<u64>, resident: u64) -> (r: u64)
    ensures
        r == match footprint {
            Some(f) => if f > 0 {
                f
            } else {
                resident
            },
            None => resident,
        },
{
    match footprint {
        Some(f) => if f > 0 {
            f
        } else {
            resident
        },
        None => resident,
    }
}

/// One process of the application, as listed.
pub struct ProcessEntry {
    pub pid: u32,
    pub name: String,
    pub is_main: bool,
    pub ram_bytes: u64,
    pub working_set_bytes: u64,
    pub private_ws_bytes: u64,
}

/// `a` is listed before `b`: the main process first, then by private
/// working set, largest first.
pub open spec fn goes_before(a: ProcessEntry, b: ProcessEntry) -> bool {
    (a.is_main && !b.is_main) || (a.is_main == b.is_main && a.private_ws_bytes > b.private_ws_bytes)
}

/// `a` and `b` have the same place in the order.
pub open spec fn same_rank(a: ProcessEntry, b: ProcessEntry) -> bool {
    a.is_main == b.is_main && a.private_ws_bytes == b.private_ws_bytes
}

/// `out` is `inp` reordered by `perm`, in listing order, with processes of
/// the same rank in their order in `inp`.
pub open spec fn ordered_by(out: Seq<ProcessEntry>, inp: Seq<ProcessEntry>, perm: Seq<int>) -> bool {
    &&& out.len() == inp.len()
    &&& perm.len() == inp.len()
    &&& forall|k: int| 0 <= k < perm.len() ==> 0 <= #[trigger] perm[k] < inp.len()
    &&& forall|j: int, k: int| 0 <= j < k < perm.len() ==> #[trigger] perm[j] != #[trigger] perm[k]
    &&& forall|k: int| 0 <= k < out.len() ==> #[trigger] out[k] == inp[perm[k]]
    &&& forall|j: int, k: int| 0 <= j < k < out.len() ==> !goes_before(#[trigger] out[k], #[trigger] out[j])
    &&& forall|j: int, k: int|
        0 <= j < k < out.len() && same_rank(#[trigger] out[j], #[trigger] out[k]) ==> perm[j] < perm[k]
}

/// `out` lists the processes of `inp` in listing order, stably.
pub open spec fn is_listing_order(out: Seq<ProcessEntry>, inp: Seq<ProcessEntry>) -> bool {
    exists|perm: Seq<int>| ordered_by(out, inp, perm)
}

proof fn lemma_insert_keeps_order(
    out: Seq<ProcessEntry>,
    inp: Seq<ProcessEntry>,
    perm: Seq<int>,
    n: int,
    p: int,
    m: ProcessEntry,
)
    requires
        0 <= n < inp.len(),
        m == inp[n],
        ordered_by(out, inp.take(n), perm),
        0 <= p <= out.len(),
        forall|q: int| 0 <= q < p ==> !goes_before(m, #[trigger] out[q]),
        p < out.len() ==> goes_before(m, out[p]),
    ensures
        ordered_by(out.insert(p, m), inp.take(n + 1), perm.insert(p, n)),
{
    let o2 = out.insert(p, m);
    let p2 = perm.insert(p, n);
    let i2 = inp.take(n + 1);
    assert forall|k: int| 0 <= k < p2.len() implies 0 <= #[trigger] p2[k] < i2.len() by {
        if k > p {
            assert(p2[k] == perm[k - 1]);
        }
    }
    assert forall|j: int, k: int| 0 <= j < k < p2.len() implies #[trigger] p2[j] != #[trigger] p2[k] by {
        let pj = if j < p { j } else if j == p { -1 } else { j - 1 };
        let pk = if k < p { k } else if k == p { -1 } else { k - 1 };
        if j != p && k != p {
            assert(perm[pj] != perm[pk]);
        } else if j == p {
            assert(0 <= perm[pk] < n);
        } else {
            assert(0 <= perm[pj] < n);
        }
    }
    assert forall|k: int| 0 <= k < o2.len() implies #[trigger] o2[k] == i2[p2[k]] by {
        if k < p {
            assert(out[k] == inp.take(n)[perm[k]]);
        } else if k > p {
            assert(out[k - 1] == inp.take(n)[perm[k - 1]]);
        }
    }
    assert forall|j: int, k: int| 0 <= j < k < o2.len() implies !goes_before(
        #[trigger] o2[k],
        #[trigger] o2[j],
    ) by {
        let oj = if j < p { j } else { j - 1 };
        let ok = if k <= p { k } else { k - 1 };
        if j != p && k != p {
            assert(!goes_before(out[ok], out[oj]));
        } else if k == p {
            assert(!goes_before(m, out[j]));
        } else {
            if k - 1 > p {
                assert(!goes_before(out[k - 1], out[p]));
            }
        }
    }
    assert forall|j: int, k: int|
        0 <= j < k < o2.len() && same_rank(#[trigger] o2[j], #[trigger] o2[k]) implies p2[j]
        < p2[k] by {
        let oj = if j < p { j } else { j - 1 };
        let ok = if k <= p { k } else { k - 1 };
        if j != p && k != p {
            assert(perm[oj] < perm[ok]);
        } else if k == p {
            assert(0 <= perm[j] < n);
        } else {
            if k - 1 > p {
                assert(!goes_before(out[k - 1], out[p]));
            }
        }
    }
}

/// Lists the processes: the main process first, then by private working
/// set, largest first; processes of the same rank keep their order.
pub fn order_processes(entries: Vec<ProcessEntry>) -> (r: Vec<ProcessEntry>)
    ensures
        is_listing_order(r@, entries@),
{
    let ghost inp = entries@;
    let mut out: Vec<ProcessEntry> = Vec::new();
    let ghost mut perm: Seq<int> = Seq::empty();
    let mut n: usize = 0;
    let len = entries.len();
    assert(ordered_by(out@, inp.take(0), perm));
    for m in it: entries
        invariant
            it.seq() == inp,
            inp.len() == len,
            n == it.index(),
            n <= inp.len(),
            out.len() == n,
            ordered_by(out@, inp.take(n as int), perm),
    {
        let mut p: usize = 0;
        while p < out.len() && !(
        (m.is_main && !out[p].is_main) || (m.is_main == out[p].is_main && m.private_ws_bytes
            > out[p].private_ws_bytes))
            invariant
                p <= out.len(),
                forall|q: int| 0 <= q < p ==> !goes_before(m, #[trigger] out@[q]),
            decreases out.len() - p,
        {
            p = p + 1;
        }
        proof {
            lemma_insert_keeps_order(out@, inp, perm, n as int, p as int, m);
            perm = perm.insert(p as int, n as int);
        }
        out.insert(p, m);
        n = n + 1;
    }
    proof {
        assert(inp.take(inp.len() as int) =~= inp);
    }
    out
}

/// The sums of one memory figure over the listed processes.
pub open spec fn ram_sum(s: Seq<ProcessEntry>) -> int
    decreases s.len(),
{
    if s.len() == 0 {
        0
    } else {
        ram_sum(s.drop_last()) + s.last().ram_bytes
    }
}

pub open spec fn working_set_sum(s: Seq<ProcessEntry>) -> int
    decreases s.len(),
{
    if s.len() == 0 {
        0
    } else {
        working_set_sum(s.drop_last()) + s.last().working_set_bytes
    }
}

pub open spec fn private_ws_sum(s: Seq<ProcessEntry>) -> int
    decreases s.len(),
{
    if s.len() == 0 {
        0
    } else {
        private_ws_sum(s.drop_last()) + s.last().private_ws_bytes
    }
}

proof fn lemma_sums_grow(s: Seq<ProcessEntry>, k: int)
    requires
        0 <= k <= s.len(),
    ensures
        ram_sum(s.take(k)) <= ram_sum(s),
        working_set_sum(s.take(k)) <= working_set_sum(s),
        private_ws_sum(s.take(k)) <= private_ws_sum(s),
    decreases s.len() - k,
{
    if k < s.len() {
        lemma_sums_grow(s, k + 1);
        assert(s.take(k + 1).drop_last() =~= s.take(k));
    } else {
        assert(s.take(k) =~= s);
    }
}

/// The application's memory in all: private bytes, working set and private
/// working set, each summed over its processes.
pub fn memory_totals(entries: &Vec<ProcessEntry>) -> (r: (u64, u64, u64))
    requires
        ram_sum(entries@) <= u64::MAX,
        working_set_sum(entries@) <= u64::MAX,
        private_ws_sum(entries@) <= u64::MAX,
    ensures
        r.0 == ram_sum(entries@),
        r.1 == working_set_sum(entries@),
        r.2 == private_ws_sum(entries@),
{
    let mut ram: u64 = 0;
    let mut ws: u64 = 0;
    let mut pws: u64 = 0;
    let mut i: usize = 0;
    while i < entries.len()
        invariant
            i <= entries.len(),
            ram_sum(entries@) <= u64::MAX,
            working_set_sum(entries@) <= u64::MAX,
            private_ws_sum(entries@) <= u64::MAX,
            ram == ram_sum(entries@.take(i as int)),
            ws == working_set_sum(entries@.take(i as int)),
            pws == private_ws_sum(entries@.take(i as int)),
        decreases entries.len() - i,
    {
        proof {
            lemma_sums_grow(entries@, i + 1);
            assert(entries@.take(i + 1).drop_last() =~= entries@.take(i as int));
        }
        ram = ram + entries[i].ram_bytes;
        ws = ws + entries[i].working_set_bytes;
        pws = pws + entries[i].private_ws_bytes;
        i = i + 1;
    }
    proof {
        assert(entries@.take(entries.len() as int) =~= entries@);
    }
    (ram, ws, pws)
}

/// The prefix of the names of WebKit's helper processes.
pub const WEBKIT_PREFIX: &'static str = "com.apple.WebKit.";

/// `s` without any number of leading copies of `prefix` (as
/// `str::trim_start_matches` removes them).
pub open spec fn without_prefixes(s: Seq<char>, prefix: Seq<char>) -> Seq<char>
    decreases s.len(),
{
    if prefix.len() > 0 && prefix.len() <= s.len() && s.take(prefix.len() as int) == prefix {
        without_prefixes(s.skip(prefix.len() as int), prefix)
    } else {
        s
    }
}

/// The name listed for a process: the main process under its own name,
/// WebKit's helpers by what they do, anything else without WebKit's prefix.
pub open spec fn display_name(raw: Seq<char>, is_main: bool) -> Seq<char> {
    if is_main {
        raw
    } else if contains_chars(raw, "WebContent"@) {
        "WebContent"@
    } else if contains_chars(raw, "GPU"@) {
        "Graphics and Media"@
    } else if contains_chars(raw, "Networking"@) {
        "Networking"@
    } else {
        without_prefixes(raw, WEBKIT_PREFIX@)
    }
}

/// Whether `s` starts with `prefix` at position `start`.
fn starts_at(s: &Vec<char>, prefix: &Vec<char>, start: usize) -> (r: bool)
    requires
        start <= s.len(),
    ensures
        r == (prefix@.len() <= s@.len() - start && s@.skip(start as int).take(prefix@.len() as int)
            == prefix@),
{
    if prefix.len() > s.len() - start {
        return false;
    }
    let mut k: usize = 0;
    while k < prefix.len()
        invariant
            start + prefix.len() <= s.len(),
            k <= prefix.len(),
            forall|j: int| 0 <= j < k ==> s@[start + j] == prefix@[j],
        decreases prefix.len() - k,
    {
        if s[start + k] != prefix[k] {
            assert(s@.skip(start as int).take(prefix@.len() as int)[k as int] != prefix@[k as int]);
            return false;
        }
        k = k + 1;
    }
    assert(s@.skip(start as int).take(prefix@.len() as int) =~= prefix@);
    true
}

/// `s` without leading copies of `prefix`.
fn trim_start_matches(s: &Vec<char>, prefix: &Vec<char>) -> (r: Vec<char>)
    ensures
        r@ == without_prefixes(s@, prefix@),
{
    let mut start: usize = 0;
    assert(s@.skip(0) =~= s@);
    if prefix.len() > 0 {
        while starts_at(s, prefix, start)
            invariant
                start <= s.len(),
                prefix.len() > 0,
                without_prefixes(s@, prefix@) == without_prefixes(s@.skip(start as int), prefix@),
            decreases s.len() - start,
        {
            assert(s@.skip(start as int).skip(prefix@.len() as int) =~= s@.skip(start + prefix.len()));
            start = start + prefix.len();
        }
    }
    let mut out: Vec<char> = Vec::new();
    let mut i: usize = start;
    while i < s.len()
        invariant
            start <= i <= s.len(),
            out@ == s@.subrange(start as int, i as int),
        decreases s.len() - i,
    {
        out.push(s[i]);
        assert(s@.subrange(start as int, i + 1) =~= s@.subrange(start as int, i as int).push(s@[i as int]));
        i = i + 1;
    }
    assert(out@ =~= s@.skip(start as int));
    out
}

/// The name listed for a process (see `display_name`).
pub fn process_display_name(raw: &str, is_main: bool) -> (r: String)
    ensures
        r@ == display_name(raw@, is_main),
{
    if is_main {
        return string_from_chars(&chars_of(raw));
    }
    let cs = chars_of(raw);
    if chars_contain(&cs, &chars_of("WebContent")) {
        String::from_str("WebContent")
    } else if chars_contain(&cs, &chars_of("GPU")) {
        String::from_str("Graphics and Media")
    } else if chars_contain(&cs, &chars_of("Networking")) {
        String::from_str("Networking")
    } else {
        string_from_chars(&trim_start_matches(&cs, &chars_of(WEBKIT_PREFIX)))
    }
}

/// The NUL-terminated strings of `t`, with `cur` already read of the
/// first one; empty strings are skipped and a last string without its NUL
/// is dropped.
pub open spec fn strings_from(t: Seq<u16>, cur: Seq<u16>) -> Seq<Seq<u16>>
    decreases t.len(),
{
    if t.len() == 0 {
        Seq::empty()
    } else if t[0] == 0 {
        (if cur.len() > 0 {
            seq![cur]
        } else {
            Seq::empty()
        }) + strings_from(t.drop_first(), Seq::empty())
    } else {
        strings_from(t.drop_first(), cur.push(t[0]))
    }
}

/// `t` has two NUL units in a row at position `i`.
pub open spec fn double_nul_at(t: Seq<u16>, i: int) -> bool {
    0 <= i && i + 1 < t.len() && t[i] == 0 && t[i + 1] == 0
}

/// The instance names in a list of non-empty NUL-terminated UTF-16
/// strings that an empty string (two NULs in a row) ends.
pub open spec fn instance_names(buf: Seq<u16>) -> Seq<Seq<u16>> {
    if exists|i: int| #[trigger] double_nul_at(buf, i) {
        let z = choose|i: int| #[trigger] double_nul_at(buf, i) && forall|j: int|
            0 <= j < i ==> !double_nul_at(buf, j);
        strings_from(buf.take(z + 1), Seq::empty())
    } else {
        strings_from(buf, Seq::empty())
    }
}

/// Appends the NUL-terminated strings of `buf[..end]` to `out`.
fn push_nul_strings(buf: &Vec<u16>, end: usize, out: &mut Vec<Vec<u16>>)
    requires
        end <= buf.len(),
    ensures
        final(out)@.map_values(|v: Vec<u16>| v@) == old(out)@.map_values(|v: Vec<u16>| v@)
            + strings_from(buf@.take(end as int), Seq::empty()),
{
    let ghost t = buf@.take(end as int);
    let mut piece: Vec<u16> = Vec::new();
    let mut i: usize = 0;
    assert(t.skip(0) =~= t);
    while i < end
        invariant
            i <= end <= buf.len(),
            t == buf@.take(end as int),
            out@.map_values(|v: Vec<u16>| v@) + strings_from(t.skip(i as int), piece@) == old(
                out,
            )@.map_values(|v: Vec<u16>| v@) + strings_from(t, Seq::empty()),
        decreases end - i,
    {
        let ghost u = t.skip(i as int);
        let ghost before = out@.map_values(|v: Vec<u16>| v@);
        assert(u.drop_first() =~= t.skip(i + 1));
        assert(u[0] == buf@[i as int]);
        if buf[i] == 0 {
            if piece.len() > 0 {
                let ghost pv = piece@;
                out.push(piece);
                proof {
                    assert(out@.map_values(|v: Vec<u16>| v@) =~= before.push(pv));
                    assert(before + strings_from(u, pv) =~= out@.map_values(|v: Vec<u16>| v@)
                        + strings_from(t.skip(i + 1), Seq::empty()));
                }
            } else {
                assert(strings_from(u, piece@) =~= strings_from(t.skip(i + 1), Seq::empty()));
            }
            piece = Vec::new();
        } else {
            piece.push(buf[i]);
        }
        i = i + 1;
    }
    assert(t.skip(end as int) =~= Seq::<u16>::empty());
    assert(out@.map_values(|v: Vec<u16>| v@) =~= out@.map_values(|v: Vec<u16>| v@) + strings_from(
        t.skip(end as int),
        piece@,
    ));
}

/// The position of the first pair of NULs in a row, if any.
fn find_double_nul(buf: &Vec<u16>) -> (r: Option<usize>)
    ensures
        match r {
            Some(z) => double_nul_at(buf@, z as int) && forall|j: int|
                0 <= j < z ==> !double_nul_at(buf@, j),
            None => forall|j: int| !#[trigger] double_nul_at(buf@, j),
        },
{
    let mut z: usize = 0;
    while z < buf.len() && buf.len() - z > 1
        invariant
            z <= buf.len(),
            forall|j: int| 0 <= j < z ==> !double_nul_at(buf@, j),
        decreases buf.len() - z,
    {
        if buf[z] == 0 && buf[z + 1] == 0 {
            return Some(z);
        }
        z = z + 1;
    }
    assert forall|j: int| !#[trigger] double_nul_at(buf@, j) by {
        if 0 <= j < z {
        }
    }
    None
}

/// Splits a list of NUL-terminated UTF-16 strings, ended by an empty
/// string, into its non-empty strings (see `instance_names`).
pub fn split_instance_list(buf: &Vec<u16>) -> (r: Vec<Vec<u16>>)
    ensures
        r@.map_values(|v: Vec<u16>| v@) == instance_names(buf@),
{
    let mut out: Vec<Vec<u16>> = Vec::new();
    assert(out@.map_values(|v: Vec<u16>| v@) =~= Seq::<Seq<u16>>::empty());
    match find_double_nul(buf) {
        Some(z) => {
            proof {
                let c = choose|i: int| #[trigger] double_nul_at(buf@, i) && forall|j: int|
                    0 <= j < i ==> !double_nul_at(buf@, j);
                if c < z {
                }
                if c > z {
                }
                assert(z + 1 < buf@.len());
                assert(buf@.len() == buf.len());
            }
            push_nul_strings(buf, z + 1, &mut out);
        },
        None => {
            assert(buf@.take(buf.len() as int) =~= buf@);
            push_nul_strings(buf, buf.len(), &mut out);
        },
    }
    assert(out@.map_values(|v: Vec<u16>| v@) =~= instance_names(buf@));
    out
}

/// UTF-16 code units of an ASCII text.
pub open spec fn ascii_units(s: Seq<char>) -> Seq<u16> {
    s.map_values(|c: char| c as u16)
}

/// The prefix of the GPU counter instances of process `pid`: `pid_` and its
/// decimal number.
pub open spec fn pid_prefix(pid: u32) -> Seq<u16> {
    ascii_units("pid_"@ + decimal_of(pid as nat))
}

/// `s` starts with `pre`.
pub open spec fn starts_with_units(s: Seq<u16>, pre: Seq<u16>) -> bool {
    pre.len() <= s.len() && s.take(pre.len() as int) == pre
}

/// The first of `pids` whose prefix starts the instance name.
pub open spec fn instance_owner(instance: Seq<u16>, pids: Seq<u32>) -> Option<u32>
    decreases pids.len(),
{
    if pids.len() == 0 {
        None
    } else if starts_with_units(instance, pid_prefix(pids[0])) {
        Some(pids[0])
    } else {
        instance_owner(instance, pids.drop_first())
    }
}

/// The UTF-16 units of `pid_<pid>`.
fn pid_prefix_units(pid: u32) -> (r: Vec<u16>)
    ensures
        r@ == pid_prefix(pid),
{
    let mut cs = chars_of("pid_");
    proof {
        reveal_strlit("pid_");
    }
    let digits = chars_of(decimal(pid as u64).as_str());
    let ghost text = cs@ + digits@;
    let mut j: usize = 0;
    while j < digits.len()
        invariant
            j <= digits.len(),
            cs@ == text.take(4 + j),
            text == "pid_"@ + digits@,
            "pid_"@.len() == 4,
        decreases digits.len() - j,
    {
        cs.push(digits[j]);
        assert(text.take(4 + j + 1) =~= text.take(4 + j).push(digits@[j as int]));
        j = j + 1;
    }
    let mut out: Vec<u16> = Vec::new();
    let mut i: usize = 0;
    while i < cs.len()
        invariant
            i <= cs.len(),
            out@ == ascii_units(cs@.take(i as int)),
        decreases cs.len() - i,
    {
        out.push(cs[i] as u16);
        assert(ascii_units(cs@.take(i + 1)) =~= ascii_units(cs@.take(i as int)).push(cs@[i as int] as u16));
        i = i + 1;
    }
    assert(cs@.take(cs.len() as int) =~= cs@);
    assert(cs@ =~= text.take(4 + digits.len()));
    assert(text.take(4 + digits.len()) =~= text);
    out
}

/// Whether `s` starts with `pre`.
fn units_start_with(s: &Vec<u16>, pre: &Vec<u16>) -> (r: bool)
    ensures
        r == starts_with_units(s@, pre@),
{
    if pre.len() > s.len() {
        return false;
    }
    let mut k: usize = 0;
    while k < pre.len()
        invariant
            pre.len() <= s.len(),
            k <= pre.len(),
            forall|j: int| 0 <= j < k ==> s@[j] == pre@[j],
        decreases pre.len() - k,
    {
        if s[k] != pre[k] {
            assert(s@.take(pre@.len() as int)[k as int] != pre@[k as int]);
            return false;
        }
        k = k + 1;
    }
    assert(s@.take(pre@.len() as int) =~= pre@);
    true
}

/// The process that a GPU counter instance belongs to: the first of `pids`
/// whose `pid_<n>` prefix starts the instance name.
pub fn gpu_instance_pid(instance: &Vec<u16>, pids: &Vec<u32>) -> (r: Option<u32>)
    ensures
        r == instance_owner(instance@, pids@),
{
    let mut i: usize = 0;
    assert(pids@.skip(0) =~= pids@);
    while i < pids.len()
        invariant
            i <= pids.len(),
            instance_owner(instance@, pids@) == instance_owner(instance@, pids@.skip(i as int)),
        decreases pids.len() - i,
    {
        assert(pids@.skip(i as int).drop_first() =~= pids@.skip(i + 1));
        let pre = pid_prefix_units(pids[i]);
        if units_start_with(instance, &pre) {
            return Some(pids[i]);
        }
        i = i + 1;
    }
    None
}

} // verus!
