//! Splitting a file of known length into the byte ranges that are fetched
//! independently, and the `Range` header that asks for one of them.

use vstd::prelude::*;
use crate::text::decimal_string;
use crate::text::decimal_digits;

verus! {

/// One byte range of a file, both ends included.
#[derive(Clone, Copy, Debug, PartialEq, Eq, Structural)]
pub struct ChunkTask {
    pub byte_start: u64,
    pub byte_end_inclusive: u64,
}

impl ChunkTask {
    /// The number of bytes in the range.
    pub open spec fn spec_len(self) -> int {
        self.byte_end_inclusive - self.byte_start + 1
    }

    /// Whether byte offset `b` lies in the range.
    pub open spec fn covers(self, b: int) -> bool {
        self.byte_start <= b <= self.byte_end_inclusive
    }
}

/// The number of chunks of `chunk` bytes needed for `total` bytes: the
/// quotient rounded up.
pub open spec fn chunk_count(total: nat, chunk: nat) -> nat
    recommends
        chunk > 0,
{
    ((total + chunk - 1) / (chunk as int)) as nat
}

/// The `i`-th range of the plan for `total` bytes in chunks of `chunk` bytes.
pub open spec fn chunk_at(total: nat, chunk: nat, i: int) -> ChunkTask
    recommends
        chunk > 0,
        0 <= i < chunk_count(total, chunk),
{
    ChunkTask {
        byte_start: (i * chunk) as u64,
        byte_end_inclusive: (if (i + 1) * chunk < total {
            (i + 1) * chunk - 1
        } else {
            total - 1
        }) as u64,
    }
}

/// The whole plan: range `i` starts at `i * chunk` and holds `chunk` bytes,
/// but for the last one, which ends with the file.
pub open spec fn chunk_plan(total: nat, chunk: nat) -> Seq<ChunkTask>
    recommends
        chunk > 0,
{
    Seq::new(chunk_count(total, chunk), |i: int| chunk_at(total, chunk, i))
}

/// What it means for `tasks` to cut `[0, total)` into consecutive pieces of at
/// most `chunk` bytes: no piece is empty, the first starts at 0, each next one
/// starts right after the one before, and the last ends at `total - 1`.
pub open spec fn is_partition(tasks: Seq<ChunkTask>, total: nat, chunk: nat) -> bool {
    &&& (tasks.len() == 0 <==> total == 0)
    &&& forall|i: int|
        0 <= i < tasks.len() ==> {
            &&& (#[trigger] tasks[i]).byte_start <= tasks[i].byte_end_inclusive
            &&& tasks[i].spec_len() <= chunk
        }
    &&& tasks.len() > 0 ==> tasks[0].byte_start == 0 && tasks.last().byte_end_inclusive == total - 1
    &&& forall|i: int|
        0 <= i < tasks.len() - 1 ==> (#[trigger] tasks[i + 1]).byte_start
            == tasks[i].byte_end_inclusive + 1
}

/// The index of the chunk that byte offset `b` falls in.
pub open spec fn chunk_index(b: int, chunk: nat) -> int
    recommends
        chunk > 0,
{
    b / (chunk as int)
}

/// Whether `n` chunks of `chunk` bytes hold `total` bytes or more.
pub open spec fn chunks_suffice(n: nat, total: nat, chunk: nat) -> bool {
    n * chunk >= total
}

/// `k` chunks fall short of `total` bytes exactly when `k` is below the
/// rounded-up quotient.
pub proof fn lemma_chunk_count_bounds(total: nat, chunk: nat, k: nat)
    requires
        chunk > 0,
    ensures
        k * chunk < total <==> k < chunk_count(total, chunk),
{
    let c = chunk as int;
    let n = (total + chunk - 1) as int;
    let q = n / c;
    assert(n == c * q + n % c && 0 <= n % c < c) by {
        vstd::arithmetic::div_mod::lemma_fundamental_div_mod(n, c);
        vstd::arithmetic::div_mod::lemma_mod_bound(n, c);
    }
    assert(q >= 0) by {
        vstd::arithmetic::div_mod::lemma_div_pos_is_pos(n, c);
    }
    if (k as int) < q {
        assert(k * c <= (q - 1) * c) by (nonlinear_arith)
            requires
                k <= q - 1,
                c > 0,
        ;
        assert((q - 1) * c == c * q - c) by (nonlinear_arith);
    } else {
        assert(k * c >= q * c) by (nonlinear_arith)
            requires
                k >= q,
                c > 0,
        ;
        assert(q * c == c * q) by (nonlinear_arith);
    }
}

/// The number of chunks is the quotient of the two sizes rounded up: the
/// least `n` with `n * chunk >= total`.
pub proof fn lemma_chunk_count_is_ceiling(total: nat, chunk: nat)
    requires
        chunk > 0,
    ensures
        chunks_suffice(chunk_count(total, chunk), total, chunk),
        forall|n: nat| #[trigger] chunks_suffice(n, total, chunk) ==> n >= chunk_count(total, chunk),
        total % chunk == 0 ==> chunk_count(total, chunk) == total / chunk,
        total % chunk != 0 ==> chunk_count(total, chunk) == total / chunk + 1,
{
    let count = chunk_count(total, chunk);
    lemma_chunk_count_bounds(total, chunk, count);
    assert forall|n: nat| #[trigger] chunks_suffice(n, total, chunk) implies n >= count by {
        lemma_chunk_count_bounds(total, chunk, n);
    }
    let c = chunk as int;
    let t = total as int;
    let d = t / c;
    vstd::arithmetic::div_mod::lemma_fundamental_div_mod(t, c);
    vstd::arithmetic::div_mod::lemma_mod_bound(t, c);
    vstd::arithmetic::div_mod::lemma_div_pos_is_pos(t, c);
    assert(c * d == d * c) by (nonlinear_arith);
    assert((d + 1) * c == d * c + c) by (nonlinear_arith);
    lemma_chunk_count_bounds(total, chunk, d as nat);
    lemma_chunk_count_bounds(total, chunk, (d + 1) as nat);
    if t % c != 0 && d > 0 {
        assert((d - 1) * c == d * c - c) by (nonlinear_arith);
    }
    if t % c == 0 && d > 0 {
        assert((d - 1) * c == d * c - c) by (nonlinear_arith);
        lemma_chunk_count_bounds(total, chunk, (d - 1) as nat);
    }
}

/// The plan is a partition of `[0, total)`: its ranges are consecutive, none
/// is empty or overlaps another, together they hold every byte offset below
/// `total` exactly once, and there are as many as the rounded-up quotient.
pub proof fn lemma_chunk_plan_partitions(total: nat, chunk: nat)
    requires
        chunk > 0,
        total <= u64::MAX,
    ensures
        chunk_plan(total, chunk).len() == chunk_count(total, chunk),
        is_partition(chunk_plan(total, chunk), total, chunk),
        forall|b: int|
            0 <= b < total ==> 0 <= #[trigger] chunk_index(b, chunk) < chunk_plan(
                total,
                chunk,
            ).len() && chunk_plan(total, chunk)[chunk_index(b, chunk)].covers(b),
        forall|i: int, j: int, b: int|
            0 <= i < chunk_plan(total, chunk).len() && 0 <= j < chunk_plan(total, chunk).len()
                && #[trigger] chunk_plan(total, chunk)[i].covers(b) && #[trigger] chunk_plan(
                total,
                chunk,
            )[j].covers(b) ==> i == j,
{
    let plan = chunk_plan(total, chunk);
    let count = chunk_count(total, chunk);
    let c = chunk as int;
    lemma_chunk_count_bounds(total, chunk, 0);
    assert(0 * c == 0) by (nonlinear_arith);
    assert(plan.len() == count);
    assert forall|i: int| 0 <= i < count implies {
        &&& plan[i].byte_start == i * c
        &&& plan[i].byte_end_inclusive == (if (i + 1) * c < total {
            (i + 1) * c - 1
        } else {
            total - 1
        })
        &&& i * c < total
        &&& (i + 1) * c == i * c + c
    } by {
        lemma_chunk_count_bounds(total, chunk, i as nat);
        assert((i + 1) * c == i * c + c) by (nonlinear_arith);
        assert(i * c >= 0) by (nonlinear_arith)
            requires
                i >= 0,
                c > 0,
        ;
    }
    if count > 0 {
        lemma_chunk_count_bounds(total, chunk, count);
        assert(((count - 1) + 1) * c == count * c);
    }
    assert forall|i: int| 0 <= i < plan.len() - 1 implies (#[trigger] plan[i + 1]).byte_start
        == plan[i].byte_end_inclusive + 1 by {
        lemma_chunk_count_bounds(total, chunk, (i + 1) as nat);
    }
    assert forall|b: int| 0 <= b < total implies 0 <= #[trigger] chunk_index(b, chunk)
        < plan.len() && plan[chunk_index(b, chunk)].covers(b) by {
        let i = b / c;
        vstd::arithmetic::div_mod::lemma_fundamental_div_mod(b, c);
        vstd::arithmetic::div_mod::lemma_mod_bound(b, c);
        vstd::arithmetic::div_mod::lemma_div_pos_is_pos(b, c);
        assert(c * i == i * c) by (nonlinear_arith);
        lemma_chunk_count_bounds(total, chunk, i as nat);
        assert((i + 1) * c == i * c + c) by (nonlinear_arith);
    }
    assert forall|i: int, j: int, b: int|
        0 <= i < plan.len() && 0 <= j < plan.len() && #[trigger] plan[i].covers(b)
            && #[trigger] plan[j].covers(b) implies i == j by {
        if i < j {
            assert((i + 1) * c <= j * c) by (nonlinear_arith)
                requires
                    i + 1 <= j,
                    c > 0,
            ;
        }
        if j < i {
            assert((j + 1) * c <= i * c) by (nonlinear_arith)
                requires
                    j + 1 <= i,
                    c > 0,
            ;
        }
    }
}

/// Cuts `[0, total)` into consecutive ranges of `chunk_size` bytes, the last
/// one clipped to the end of the file. An empty file has no range.
pub fn chunk_ranges(total: u64, chunk_size: u64) -> (tasks: Vec<ChunkTask>)
    requires
        chunk_size > 0,
    ensures
        tasks@ == chunk_plan(total as nat, chunk_size as nat),
        tasks@.len() == chunk_count(total as nat, chunk_size as nat),
        is_partition(tasks@, total as nat, chunk_size as nat),
{
    let mut tasks: Vec<ChunkTask> = Vec::new();
    let mut start: u64 = 0;
    let ghost plan = chunk_plan(total as nat, chunk_size as nat);
    let ghost c = chunk_size as int;
    proof {
        assert(0 * c == 0) by (nonlinear_arith);
        lemma_chunk_count_bounds(total as nat, chunk_size as nat, 0);
    }
    while start < total
        invariant
            chunk_size > 0,
            c == chunk_size,
            plan == chunk_plan(total as nat, chunk_size as nat),
            tasks@.len() <= plan.len(),
            tasks@ == plan.take(tasks@.len() as int),
            start <= total,
            start == (if tasks@.len() * c < total {
                tasks@.len() * c
            } else {
                total as int
            }),
        decreases total - start,
    {
        let ghost k = tasks@.len() as int;
        proof {
            lemma_chunk_count_bounds(total as nat, chunk_size as nat, k as nat);
            lemma_chunk_count_bounds(total as nat, chunk_size as nat, (k + 1) as nat);
            assert((k + 1) * c == k * c + c) by (nonlinear_arith);
        }
        let end: u64 = if total - start <= chunk_size {
            total - 1
        } else {
            start + chunk_size - 1
        };
        let task = ChunkTask { byte_start: start, byte_end_inclusive: end };
        assert(task == plan[k]);
        tasks.push(task);
        start = end + 1;
        assert(tasks@ =~= plan.take(k + 1));
    }
    proof {
        lemma_chunk_count_bounds(total as nat, chunk_size as nat, tasks@.len());
        assert(tasks@ =~= plan);
        lemma_chunk_plan_partitions(total as nat, chunk_size as nat);
    }
    tasks
}

/// The file `file` after `body` is written at byte offset `offset`.
pub open spec fn write_at(file: Seq<u8>, offset: int, body: Seq<u8>) -> Seq<u8>
    recommends
        0 <= offset,
        offset + body.len() <= file.len(),
{
    file.take(offset) + body + file.skip(offset + body.len())
}

/// The file `file` after the bodies of the chunks named in `order` are
/// written, one after another, each at the start of its range. A chunk may
/// be named more than once, as one that is fetched again is.
pub open spec fn written_in(
    file: Seq<u8>,
    tasks: Seq<ChunkTask>,
    bodies: Seq<Seq<u8>>,
    order: Seq<int>,
) -> Seq<u8>
    decreases order.len(),
{
    if order.len() == 0 {
        file
    } else {
        write_at(
            written_in(file, tasks, bodies, order.drop_last()),
            tasks[order.last()].byte_start as int,
            bodies[order.last()],
        )
    }
}

/// The first `n` of `bodies`, one after another.
pub open spec fn concat_bodies(bodies: Seq<Seq<u8>>, n: int) -> Seq<u8>
    decreases n,
{
    if n <= 0 {
        Seq::empty()
    } else {
        concat_bodies(bodies, n - 1) + bodies[n - 1]
    }
}

/// Whether there is one body for each task, as long as the task's range.
pub open spec fn bodies_fit(tasks: Seq<ChunkTask>, bodies: Seq<Seq<u8>>) -> bool {
    &&& bodies.len() == tasks.len()
    &&& forall|i: int| 0 <= i < tasks.len() ==> (#[trigger] bodies[i]).len() == tasks[i].spec_len()
}

/// Whether `order` names tasks only.
pub open spec fn names_tasks(order: Seq<int>, tasks: Seq<ChunkTask>) -> bool {
    forall|k: int| 0 <= k < order.len() ==> 0 <= #[trigger] order[k] < tasks.len()
}

proof fn lemma_ranges_ascend(tasks: Seq<ChunkTask>, total: nat, chunk: nat, i: int, j: int)
    requires
        is_partition(tasks, total, chunk),
        0 <= i < j < tasks.len(),
    ensures
        tasks[i].byte_end_inclusive < tasks[j].byte_start,
    decreases j - i,
{
    if i + 1 < j {
        lemma_ranges_ascend(tasks, total, chunk, i, j - 1);
        assert(tasks[(j - 1) + 1].byte_start == tasks[j - 1].byte_end_inclusive + 1);
        assert(tasks[j - 1].byte_start <= tasks[j - 1].byte_end_inclusive);
    } else {
        assert(tasks[i + 1].byte_start == tasks[i].byte_end_inclusive + 1);
    }
}

proof fn lemma_range_within(tasks: Seq<ChunkTask>, total: nat, chunk: nat, i: int)
    requires
        is_partition(tasks, total, chunk),
        0 <= i < tasks.len(),
    ensures
        tasks[i].byte_start <= tasks[i].byte_end_inclusive < total,
{
    assert(tasks[i].byte_start <= tasks[i].byte_end_inclusive);
    if i < tasks.len() - 1 {
        lemma_ranges_ascend(tasks, total, chunk, i, tasks.len() - 1);
        assert(tasks[tasks.len() - 1].byte_start <= tasks[tasks.len() - 1].byte_end_inclusive);
    }
    assert(tasks.last().byte_end_inclusive == total - 1);
}

proof fn lemma_bodies_reach(
    tasks: Seq<ChunkTask>,
    total: nat,
    chunk: nat,
    bodies: Seq<Seq<u8>>,
    n: int,
)
    requires
        is_partition(tasks, total, chunk),
        bodies_fit(tasks, bodies),
        0 <= n <= tasks.len(),
    ensures
        concat_bodies(bodies, n).len() == (if n == tasks.len() {
            total as int
        } else {
            tasks[n].byte_start as int
        }),
    decreases n,
{
    if n > 0 {
        lemma_bodies_reach(tasks, total, chunk, bodies, n - 1);
        assert(bodies[n - 1].len() == tasks[n - 1].spec_len());
        if n < tasks.len() {
            assert(tasks[(n - 1) + 1].byte_start == tasks[n - 1].byte_end_inclusive + 1);
        } else {
            assert(tasks.last().byte_end_inclusive == total - 1);
        }
    }
}

proof fn lemma_body_in_concat(
    tasks: Seq<ChunkTask>,
    total: nat,
    chunk: nat,
    bodies: Seq<Seq<u8>>,
    i: int,
    n: int,
    b: int,
)
    requires
        is_partition(tasks, total, chunk),
        bodies_fit(tasks, bodies),
        0 <= i < n <= tasks.len(),
        tasks[i].covers(b),
    ensures
        b < concat_bodies(bodies, n).len(),
        concat_bodies(bodies, n)[b] == bodies[i][b - tasks[i].byte_start],
    decreases n,
{
    lemma_bodies_reach(tasks, total, chunk, bodies, n - 1);
    assert(bodies[n - 1].len() == tasks[n - 1].spec_len());
    if i == n - 1 {
    } else {
        lemma_body_in_concat(tasks, total, chunk, bodies, i, n - 1, b);
    }
}

proof fn lemma_covering_task(tasks: Seq<ChunkTask>, total: nat, chunk: nat, b: int, n: int) -> (i:
    int)
    requires
        is_partition(tasks, total, chunk),
        0 <= n <= tasks.len(),
        0 <= b,
        n == tasks.len() ==> b < total,
        n < tasks.len() ==> b < tasks[n].byte_start,
    ensures
        0 <= i < n,
        tasks[i].covers(b),
    decreases n,
{
    if n == 0 {
        assert(tasks.len() > 0 ==> tasks[0].byte_start == 0);
        0
    } else {
        if n < tasks.len() {
            assert(tasks[(n - 1) + 1].byte_start == tasks[n - 1].byte_end_inclusive + 1);
        } else {
            assert(tasks.last().byte_end_inclusive == total - 1);
        }
        if b >= tasks[n - 1].byte_start {
            n - 1
        } else {
            lemma_covering_task(tasks, total, chunk, b, n - 1)
        }
    }
}

/// A write touches its own range only. After the bodies of the chunks in
/// `order` are written into a file as long as the ranges cover, the file
/// has its length still, and a byte holds what the chunk that covers it
/// wrote, or what it held before where that chunk was not written.
pub proof fn lemma_writes_are_local(
    file: Seq<u8>,
    tasks: Seq<ChunkTask>,
    bodies: Seq<Seq<u8>>,
    chunk: nat,
    order: Seq<int>,
)
    requires
        is_partition(tasks, file.len(), chunk),
        bodies_fit(tasks, bodies),
        names_tasks(order, tasks),
    ensures
        written_in(file, tasks, bodies, order).len() == file.len(),
        forall|i: int, b: int|
            0 <= i < tasks.len() && #[trigger] tasks[i].covers(b) ==> #[trigger] written_in(
                file,
                tasks,
                bodies,
                order,
            )[b] == (if order.contains(i) {
                bodies[i][b - tasks[i].byte_start]
            } else {
                file[b]
            }),
    decreases order.len(),
{
    if order.len() > 0 {
        let before = order.drop_last();
        let j = order.last();
        assert(0 <= j < tasks.len());
        assert forall|k: int| 0 <= k < before.len() implies 0 <= #[trigger] before[k]
            < tasks.len() by {
            assert(before[k] == order[k]);
        }
        lemma_writes_are_local(file, tasks, bodies, chunk, before);
        let old_file = written_in(file, tasks, bodies, before);
        let new_file = written_in(file, tasks, bodies, order);
        let start = tasks[j].byte_start as int;
        lemma_range_within(tasks, file.len(), chunk, j);
        assert(bodies[j].len() == tasks[j].spec_len());
        assert(new_file == write_at(old_file, start, bodies[j]));
        assert(new_file.len() == file.len());
        assert forall|i: int, b: int|
            0 <= i < tasks.len() && #[trigger] tasks[i].covers(b) implies #[trigger] new_file[b]
            == (if order.contains(i) {
            bodies[i][b - tasks[i].byte_start]
        } else {
            file[b]
        }) by {
            lemma_range_within(tasks, file.len(), chunk, i);
            assert(order.contains(i) <==> (before.contains(i) || i == j)) by {
                if before.contains(i) {
                    let k = choose|k: int| 0 <= k < before.len() && before[k] == i;
                    assert(order[k] == i);
                }
                if i == j {
                    assert(order[order.len() - 1] == i);
                }
                if order.contains(i) && i != j {
                    let k = choose|k: int| 0 <= k < order.len() && order[k] == i;
                    assert(before[k] == i);
                }
            }
            if i == j {
                assert(new_file[b] == bodies[j][b - start]);
            } else {
                if i < j {
                    lemma_ranges_ascend(tasks, file.len(), chunk, i, j);
                } else {
                    lemma_ranges_ascend(tasks, file.len(), chunk, j, i);
                }
                assert(new_file[b] == old_file[b]);
            }
        }
    }
}

/// Once the body of every chunk is written at the start of its range, in
/// whatever order and however often, the file has the length it was made
/// with and holds the bodies one after another in the order of the ranges.
pub proof fn lemma_any_order_assembles(
    file: Seq<u8>,
    tasks: Seq<ChunkTask>,
    bodies: Seq<Seq<u8>>,
    chunk: nat,
    order: Seq<int>,
)
    requires
        is_partition(tasks, file.len(), chunk),
        bodies_fit(tasks, bodies),
        names_tasks(order, tasks),
        forall|i: int| 0 <= i < tasks.len() ==> order.contains(i),
    ensures
        written_in(file, tasks, bodies, order).len() == file.len(),
        written_in(file, tasks, bodies, order) == concat_bodies(bodies, tasks.len() as int),
{
    let done = written_in(file, tasks, bodies, order);
    let all = concat_bodies(bodies, tasks.len() as int);
    lemma_writes_are_local(file, tasks, bodies, chunk, order);
    lemma_bodies_reach(tasks, file.len(), chunk, bodies, tasks.len() as int);
    assert forall|b: int| 0 <= b < file.len() implies done[b] == all[b] by {
        let i = lemma_covering_task(tasks, file.len(), chunk, b, tasks.len() as int);
        assert(tasks[i].covers(b));
        assert(order.contains(i));
        lemma_body_in_concat(tasks, file.len(), chunk, bodies, i, tasks.len() as int, b);
    }
    assert(done =~= all);
}

/// The text `bytes=<start>-<end>`, with both offsets in decimal.
pub open spec fn range_header_text(start: nat, end: nat) -> Seq<char> {
    seq!['b', 'y', 't', 'e', 's', '='] + decimal_digits(start) + seq!['-'] + decimal_digits(end)
}

impl ChunkTask {
    /// The value of the `Range` header that asks for this range:
    /// `bytes=<start>-<end>`, both in decimal.
    pub fn range_header(&self) -> (out: String)
        ensures
            out@ == range_header_text(self.byte_start as nat, self.byte_end_inclusive as nat),
    {
        let mut out = String::new();
        out.push('b');
        out.push('y');
        out.push('t');
        out.push('e');
        out.push('s');
        out.push('=');
        let a = decimal_string(self.byte_start);
        out.append(a.as_str());
        out.push('-');
        let b = decimal_string(self.byte_end_inclusive);
        out.append(b.as_str());
        assert(out@ =~= range_header_text(
            self.byte_start as nat,
            self.byte_end_inclusive as nat,
        ));
        out
    }
}

} // verus!
