use crate::comparison::{Diff, DiffView};
use std::ops::Range;
use vstd::prelude::*;

verus! {

/// The granularity, in bytes, at which differing content is reported.
pub const BLOCK_SIZE: usize = 512;

/// The size, in bytes, of one chunk of content read from each side.
pub const BUF_SIZE: usize = 262144;

/// `BUF_SIZE` as a file offset.
pub const BUF_SIZE_U64: u64 = 262144;

/// `a / b`, rounded up.
pub open spec fn ceil_div(a: int, b: int) -> int {
    (a + b - 1) / b
}

/// The distance between the starts of consecutive chunks when about `limit`
/// of `size` bytes are read in chunks of `chunk` bytes.
pub open spec fn leap_of(size: int, limit: int, chunk: int) -> int {
    if limit < chunk {
        limit
    } else {
        let spread = size / ceil_div(limit, chunk);
        if chunk < spread { spread } else { chunk }
    }
}

/// How many chunks of `chunk` bytes are read for a budget of `limit` bytes.
pub open spec fn chunk_count_of(limit: int, chunk: int) -> int {
    if limit / chunk < 1 { 1 } else { limit / chunk }
}

/// Number of chunks to read for a budget of `limit` bytes.
pub fn calc_chunk_count(limit: u64, chunk_size: u64) -> (r: u64)
    requires
        chunk_size > 0,
    ensures
        r == chunk_count_of(limit as int, chunk_size as int),
{
    let whole = limit / chunk_size;
    if whole < 1 { 1 } else { whole }
}

/// Stride between chunk starts that spreads a budget of `limit` bytes evenly
/// over `size` bytes.
pub fn calc_leap(size: u64, limit: u64, chunk_size: u64) -> (r: u64)
    requires
        chunk_size > 0,
    ensures
        r == leap_of(size as int, limit as int, chunk_size as int),
{
    if limit < chunk_size {
        limit
    } else {
        proof {
            lemma_ceil_div(limit as int, chunk_size as int);
        }
        let rounded: u64 = limit / chunk_size + if limit % chunk_size != 0 { 1 } else { 0 };
        let spread = size / rounded;
        if chunk_size < spread { spread } else { chunk_size }
    }
}

proof fn lemma_ceil_div(a: int, b: int)
    requires
        0 <= a,
        0 < b,
    ensures
        ceil_div(a, b) == a / b + if a % b != 0 { 1int } else { 0int },
        ceil_div(a, b) * b >= a,
        a >= b ==> ceil_div(a, b) >= 1,
        ceil_div(a, b) >= a / b,
        a % b != 0 ==> a / b < a,
{
    let q = a / b;
    let r = a % b;
    vstd::arithmetic::div_mod::lemma_fundamental_div_mod(a, b);
    assert(0 <= r < b);
    if r == 0 {
        assert(a + b - 1 == q * b + (b - 1)) by (nonlinear_arith)
            requires a == b * q + r, r == 0;
        vstd::arithmetic::div_mod::lemma_fundamental_div_mod_converse(a + b - 1, b, q, b - 1);
    } else {
        assert(a + b - 1 == (q + 1) * b + (r - 1)) by (nonlinear_arith)
            requires a == b * q + r;
        vstd::arithmetic::div_mod::lemma_fundamental_div_mod_converse(a + b - 1, b, q + 1, r - 1);
    }
    assert(ceil_div(a, b) * b >= a) by (nonlinear_arith)
        requires a == b * q + r, 0 <= r < b, ceil_div(a, b) == q + if r != 0 { 1int } else { 0int };
    if r != 0 {
        assert(q < a) by (nonlinear_arith)
            requires a == b * q + r, 0 < r < b, q >= 0;
    }
    if a >= b {
        assert(q >= 1) by (nonlinear_arith)
            requires a == b * q + r, 0 <= r < b, a >= b;
    }
}

/// The number of bytes compared out of `size` when at most `full_compare_limit`
/// bytes are to be read.
pub open spec fn budget_of(size: u64, full_compare_limit: Option<u64>) -> u64 {
    match full_compare_limit {
        Some(limit) => if limit < size { limit } else { size },
        None => size,
    }
}

/// Which chunks of two files of `size` bytes are read and compared: chunk `i`
/// starts at `i * leap` and is `BUF_SIZE` bytes long, cut at `size`.
#[derive(Debug)]
pub struct ContentPlan {
    pub size: u64,
    pub limit: u64,
    pub leap: u64,
    pub count: u64,
}

impl ContentPlan {
    pub open spec fn wf(&self) -> bool {
        &&& self.limit <= self.size
        &&& self.leap == leap_of(self.size as int, self.limit as int, BUF_SIZE_U64 as int)
        &&& self.count == chunk_count_of(self.limit as int, BUF_SIZE_U64 as int)
    }

    /// Where chunk `i` starts.
    pub open spec fn chunk_start(&self, i: int) -> int {
        i * self.leap
    }

    /// Where chunk `i` ends.
    pub open spec fn chunk_end(&self, i: int) -> int {
        let start = self.chunk_start(i);
        if start + BUF_SIZE_U64 < self.size { start + BUF_SIZE_U64 } else { self.size as int }
    }

    /// The plan for `size` bytes under an optional limit on the bytes read.
    pub fn new(size: u64, full_compare_limit: Option<u64>) -> (p: ContentPlan)
        ensures
            p.wf(),
            p.size == size,
            p.limit == budget_of(size, full_compare_limit),
    {
        let limit = match full_compare_limit {
            Some(limit) => if limit < size { limit } else { size },
            None => size,
        };
        let leap = calc_leap(size, limit, BUF_SIZE_U64);
        let count = calc_chunk_count(limit, BUF_SIZE_U64);
        ContentPlan { size, limit, leap, count }
    }

    /// The byte range of chunk `i`.
    pub fn chunk(&self, i: u64) -> (r: Range<u64>)
        requires
            self.wf(),
            i < self.count,
        ensures
            r.start == self.chunk_start(i as int),
            r.end == self.chunk_end(i as int),
            r.start <= r.end <= self.size,
            self.size > 0 ==> r.start < self.size,
    {
        proof {
            self.lemma_chunk_starts_within(i as int);
        }
        let start = i * self.leap;
        let room = self.size - start;
        let end = if BUF_SIZE_U64 < room { start + BUF_SIZE_U64 } else { self.size };
        start..end
    }

    /// Every chunk starts inside the file.
    pub proof fn lemma_chunk_starts_within(&self, i: int)
        requires
            self.wf(),
            0 <= i < self.count,
        ensures
            0 <= self.chunk_start(i) <= self.size,
            self.size > 0 ==> self.chunk_start(i) < self.size,
    {
        let c = BUF_SIZE_U64 as int;
        let size = self.size as int;
        let limit = self.limit as int;
        let leap = self.leap as int;
        assert(i * leap >= 0) by (nonlinear_arith)
            requires i >= 0, leap >= 0;
        if limit < c {
            assert(limit / c == 0) by (nonlinear_arith)
                requires 0 <= limit < c;
            assert(i == 0);
        } else {
            lemma_ceil_div(limit, c);
            let k = ceil_div(limit, c);
            let spread = size / k;
            vstd::arithmetic::div_mod::lemma_fundamental_div_mod(limit, c);
            vstd::arithmetic::div_mod::lemma_fundamental_div_mod(size, k);
            assert(limit / c >= 1) by (nonlinear_arith)
                requires limit >= c, c > 0, limit == c * (limit / c) + limit % c, limit % c < c;
            if c < spread {
                assert(i * spread < size) by (nonlinear_arith)
                    requires
                        0 <= i < k,
                        spread >= 1,
                        size == k * spread + size % k,
                        size % k >= 0;
            } else {
                assert(i * c < size) by (nonlinear_arith)
                    requires
                        0 <= i < limit / c,
                        limit == c * (limit / c) + limit % c,
                        limit % c >= 0,
                        limit <= size,
                        c > 0;
            }
        }
    }

    /// With no limit on the bytes read, each byte before the last whole
    /// chunk, or any byte of a file smaller than one chunk, lies in some
    /// chunk.
    pub proof fn lemma_full_plan_covers(&self, k: int) -> (i: int)
        requires
            self.wf(),
            self.limit == self.size,
            0 <= k < self.size,
            self.size < BUF_SIZE_U64 || k < (self.size / BUF_SIZE_U64) * BUF_SIZE_U64,
        ensures
            0 <= i < self.count,
            self.chunk_start(i) <= k < self.chunk_end(i),
    {
        let c = BUF_SIZE_U64 as int;
        let size = self.size as int;
        if size < c {
            assert(size / c == 0) by (nonlinear_arith)
                requires 0 <= size < c;
            assert(self.chunk_start(0) == 0);
            0
        } else {
            lemma_ceil_div(size, c);
            let kk = ceil_div(size, c);
            vstd::arithmetic::div_mod::lemma_fundamental_div_mod(size, kk);
            assert(size / kk <= c) by (nonlinear_arith)
                requires
                    kk >= 1,
                    kk * c >= size,
                    size == kk * (size / kk) + size % kk,
                    size % kk >= 0;
            assert(self.leap == c);
            let i = k / c;
            vstd::arithmetic::div_mod::lemma_fundamental_div_mod(k, c);
            assert(i < size / c && i * c <= k < i * c + c) by (nonlinear_arith)
                requires
                    k == c * i + k % c,
                    0 <= k % c < c,
                    k < (size / c) * c,
                    c > 0;
            assert(size / c >= 1);
            i
        }
    }
}

/// `i` is the first index at which `a` and `b` differ.
pub open spec fn is_first_difference(a: Seq<u8>, b: Seq<u8>, i: int) -> bool {
    &&& 0 <= i < a.len()
    &&& i < b.len()
    &&& a[i] != b[i]
    &&& forall|j: int| 0 <= j < i ==> a[j] == b[j]
}

/// `a` and `b` differ somewhere within the shorter of the two.
pub open spec fn differ(a: Seq<u8>, b: Seq<u8>) -> bool {
    exists|i: int| 0 <= i < a.len() && i < b.len() && a[i] != b[i]
}

/// The first index at which `a` and `b` differ.
pub open spec fn first_difference(a: Seq<u8>, b: Seq<u8>) -> int {
    choose|i: int| is_first_difference(a, b, i)
}

/// The block of `BLOCK_SIZE` bytes of `s` that holds index `i`, cut at the
/// end of `s`.
pub open spec fn block_around(s: Seq<u8>, i: int) -> Seq<u8> {
    let from = i / BLOCK_SIZE as int * BLOCK_SIZE as int;
    s.subrange(from, if from + BLOCK_SIZE < s.len() { from + BLOCK_SIZE } else { s.len() as int })
}

/// What comparing the chunk at `start` whose bytes are `a` on one side and
/// `b` on the other reports.
pub open spec fn chunk_outcome(start: u64, a: Seq<u8>, b: Seq<u8>) -> Option<DiffView> {
    if a == b {
        None
    } else {
        let i = first_difference(a, b);
        Some(
            DiffView::Contents(
                ((start + i) / BLOCK_SIZE as int) as u64,
                block_around(a, i),
                block_around(b, i),
            ),
        )
    }
}

/// There is only one first difference.
pub proof fn lemma_first_difference_unique(a: Seq<u8>, b: Seq<u8>, i: int)
    requires
        is_first_difference(a, b, i),
    ensures
        first_difference(a, b) == i,
{
    let j = first_difference(a, b);
    assert(is_first_difference(a, b, j));
    if j < i {
        assert(a[j] == b[j]);
    } else if i < j {
        assert(a[i] == b[i]);
    }
}

/// The index of the first byte at which `first` and `second` differ.
pub fn get_diff_index(first: &[u8], second: &[u8]) -> (r: usize)
    requires
        differ(first@, second@),
    ensures
        is_first_difference(first@, second@, r as int),
{
    let len = if first.len() < second.len() { first.len() } else { second.len() };
    let mut i: usize = 0;
    while i < len
        invariant
            len <= first@.len(),
            len <= second@.len(),
            len == first@.len() || len == second@.len(),
            i <= len,
            forall|j: int| 0 <= j < i ==> first@[j] == second@[j],
        decreases len - i,
    {
        if first[i] != second[i] {
            return i;
        }
        i += 1;
    }
    proof {
        let d = choose|d: int| 0 <= d < first@.len() && d < second@.len() && first@[d] != second@[d];
        assert(first@[d] == second@[d]);
    }
    0
}

/// At most `size` elements of `s` from `start` on.
pub fn subslice<T>(s: &[T], start: usize, size: usize) -> (r: &[T])
    requires
        start <= s@.len(),
    ensures
        r@ == s@.subrange(
            start as int,
            if start + size < s@.len() { start + size } else { s@.len() as int },
        ),
{
    let room = s.len() - start;
    let end = if size < room { start + size } else { s.len() };
    &s[start..end]
}

/// Whether two byte slices hold the same bytes.
pub fn bytes_eq(a: &[u8], b: &[u8]) -> (r: bool)
    ensures
        r == (a@ == b@),
{
    if a.len() != b.len() {
        return false;
    }
    let mut i: usize = 0;
    while i < a.len()
        invariant
            a@.len() == b@.len(),
            i <= a@.len(),
            forall|j: int| 0 <= j < i ==> a@[j] == b@[j],
        decreases a@.len() - i,
    {
        if a[i] != b[i] {
            return false;
        }
        i += 1;
    }
    assert(a@ =~= b@);
    true
}

/// Compares one chunk read from both sides, starting at offset `start`: on a
/// difference, the number of the block that holds the first differing byte,
/// and that block from each side.
pub fn chunk_diff(start: u64, first: &[u8], second: &[u8]) -> (r: Option<Diff>)
    requires
        first@.len() == second@.len(),
        start + first@.len() <= u64::MAX,
    ensures
        r is None <==> first@ == second@,
        r matches Some(d) ==> Some(d@) == chunk_outcome(start, first@, second@),
{
    if bytes_eq(first, second) {
        return None;
    }
    proof {
        assert(differ(first@, second@)) by {
            if !differ(first@, second@) {
                assert(first@ =~= second@);
            }
        }
    }
    let diff_index = get_diff_index(first, second);
    proof {
        lemma_first_difference_unique(first@, second@, diff_index as int);
    }
    let local_lba = diff_index / BLOCK_SIZE * BLOCK_SIZE;
    let lba = (start + diff_index as u64) / (BLOCK_SIZE as u64);
    let block1 = vstd::slice::slice_to_vec(subslice(first, local_lba, BLOCK_SIZE));
    let block2 = vstd::slice::slice_to_vec(subslice(second, local_lba, BLOCK_SIZE));
    Some(Diff::Contents(lba, block1, block2))
}

/// The outcome of comparing chunk `i` of the plan, the two files' bytes being
/// `f1` and `f2`.
pub open spec fn planned_chunk_outcome(plan: ContentPlan, i: int, f1: Seq<u8>, f2: Seq<u8>) -> Option<
    DiffView,
> {
    let s = plan.chunk_start(i);
    let e = plan.chunk_end(i);
    chunk_outcome(s as u64, f1.subrange(s, e), f2.subrange(s, e))
}

/// Two files of equal length that differ in the one byte at offset `k`: the
/// chunk that holds `k` reports the block of `k`, and every other chunk
/// compares equal.
pub proof fn lemma_single_difference_located(plan: ContentPlan, f1: Seq<u8>, f2: Seq<u8>, k: int, i: int)
    requires
        plan.wf(),
        f1.len() == plan.size,
        f2.len() == plan.size,
        0 <= k < plan.size,
        f1[k] != f2[k],
        forall|j: int| 0 <= j < plan.size && j != k ==> f1[j] == f2[j],
        0 <= i < plan.count,
    ensures
        plan.chunk_start(i) <= k < plan.chunk_end(i) ==> (planned_chunk_outcome(plan, i, f1, f2) matches Some(
            DiffView::Contents(lba, _, _),
        ) && lba == k / BLOCK_SIZE as int),
        !(plan.chunk_start(i) <= k < plan.chunk_end(i)) ==> planned_chunk_outcome(plan, i, f1, f2) is None,
{
    plan.lemma_chunk_starts_within(i);
    let s = plan.chunk_start(i);
    let e = plan.chunk_end(i);
    let a = f1.subrange(s, e);
    let b = f2.subrange(s, e);
    if s <= k < e {
        assert(a[k - s] != b[k - s]);
        assert(is_first_difference(a, b, k - s));
        lemma_first_difference_unique(a, b, k - s);
        assert(a != b);
    } else {
        assert(a =~= b);
    }
}

/// With no limit on the bytes read, two files of equal length that differ in
/// the one byte at offset `k` are told apart by some chunk, which reports the
/// block of `k`, as long as `k` is in a file smaller than one chunk or
/// before the file's last whole chunk.
pub proof fn lemma_full_compare_locates(plan: ContentPlan, f1: Seq<u8>, f2: Seq<u8>, k: int) -> (i: int)
    requires
        plan.wf(),
        plan.limit == plan.size,
        f1.len() == plan.size,
        f2.len() == plan.size,
        0 <= k < plan.size,
        plan.size < BUF_SIZE_U64 || k < (plan.size / BUF_SIZE_U64) * BUF_SIZE_U64,
        f1[k] != f2[k],
        forall|j: int| 0 <= j < plan.size && j != k ==> f1[j] == f2[j],
    ensures
        0 <= i < plan.count,
        planned_chunk_outcome(plan, i, f1, f2) matches Some(DiffView::Contents(lba, _, _)) && lba
            == k / BLOCK_SIZE as int,
{
    let i = plan.lemma_full_plan_covers(k);
    lemma_single_difference_located(plan, f1, f2, k, i);
    i
}

} // verus!
