//! The Rail Fence transposition: characters are written in a zigzag over a
//! number of rails and read off rail by rail.
use vstd::prelude::*;
use vstd::set_lib::{lemma_int_range, lemma_map_size, lemma_subset_equality, set_int_range};

verus! {

/// The rail that position `k` falls on: 0, 1, .., rails-1, rails-2, .., 1, 0, 1, ..
pub open spec fn rail_of(k: int, rails: int) -> int {
    let period = 2 * rails - 2;
    let m = k % period;
    if m < rails { m } else { period - m }
}

pub open spec fn pattern(n: int, rails: int) -> Seq<int> {
    Seq::new(n as nat, |k: int| rail_of(k, rails))
}

/// How many of the first `k` positions lie on rail `r`.
pub open spec fn count_on(p: Seq<int>, k: int, r: int) -> nat
    decreases k,
{
    if k <= 0 {
        0
    } else {
        count_on(p, k - 1, r) + if p[k - 1] == r { 1nat } else { 0nat }
    }
}

/// How many of the first `k` positions lie on rails below `r`.
pub open spec fn count_below(p: Seq<int>, k: int, r: int) -> nat
    decreases r,
{
    if r <= 0 {
        0
    } else {
        count_below(p, k, r - 1) + count_on(p, k, r - 1)
    }
}

/// Where the character at position `i` stands once the rails are read off in
/// order: after every character of the lower rails, and after the earlier
/// characters of its own rail.
pub open spec fn fence_pos(p: Seq<int>, i: int) -> int {
    (count_below(p, p.len() as int, p[i]) + count_on(p, i, p[i])) as int
}

/// The position whose character lands at `k`.
pub open spec fn fence_source(p: Seq<int>, k: int) -> int {
    choose|i: int| 0 <= i < p.len() && fence_pos(p, i) == k
}

/// Rail Fence encipherment of `s` over `rails` rails (at least 2).
pub open spec fn rail_fence_encode_spec(s: Seq<char>, rails: int) -> Seq<char> {
    if s.len() <= 1 {
        s
    } else {
        let p = pattern(s.len() as int, rails);
        Seq::new(s.len(), |k: int| s[fence_source(p, k)])
    }
}

/// Rail Fence decipherment of `s` over `rails` rails (at least 2).
pub open spec fn rail_fence_decode_spec(s: Seq<char>, rails: int) -> Seq<char> {
    if s.len() <= 1 {
        s
    } else {
        let p = pattern(s.len() as int, rails);
        Seq::new(s.len(), |i: int| s[fence_pos(p, i)])
    }
}

pub open spec fn rails_bounded(p: Seq<int>, bound: int) -> bool {
    forall|k: int| 0 <= k < p.len() ==> 0 <= #[trigger] p[k] < bound
}

// ---------------------------------------------------------------- counting

proof fn lemma_count_on_mono(p: Seq<int>, i: int, j: int, r: int)
    requires
        0 <= i <= j <= p.len(),
    ensures
        count_on(p, i, r) <= count_on(p, j, r),
    decreases j - i,
{
    if i < j {
        lemma_count_on_mono(p, i, j - 1, r);
    }
}

proof fn lemma_count_on_le(p: Seq<int>, k: int, r: int)
    requires
        0 <= k,
    ensures
        count_on(p, k, r) <= k,
    decreases k,
{
    if k > 0 {
        lemma_count_on_le(p, k - 1, r);
    }
}

proof fn lemma_count_below_mono(p: Seq<int>, k: int, r1: int, r2: int)
    requires
        0 <= r1 <= r2,
    ensures
        count_below(p, k, r1) <= count_below(p, k, r2),
    decreases r2 - r1,
{
    if r1 < r2 {
        lemma_count_below_mono(p, k, r1, r2 - 1);
    }
}

proof fn lemma_count_below_step(p: Seq<int>, k: int, r: int)
    requires
        0 <= k < p.len(),
        0 <= r,
    ensures
        count_below(p, k + 1, r) == count_below(p, k, r) + if 0 <= p[k] < r { 1nat } else { 0nat },
    decreases r,
{
    if r > 0 {
        lemma_count_below_step(p, k, r - 1);
    }
}

proof fn lemma_count_below_total(p: Seq<int>, k: int, bound: int)
    requires
        0 <= k <= p.len(),
        0 <= bound,
        rails_bounded(p, bound),
    ensures
        count_below(p, k, bound) == k,
    decreases k,
{
    if k == 0 {
        lemma_count_below_zero(p, bound);
    } else {
        lemma_count_below_total(p, k - 1, bound);
        lemma_count_below_step(p, k - 1, bound);
    }
}

proof fn lemma_count_below_zero(p: Seq<int>, r: int)
    requires
        0 <= r,
    ensures
        count_below(p, 0, r) == 0,
    decreases r,
{
    if r > 0 {
        lemma_count_below_zero(p, r - 1);
    }
}

/// Each position lands inside the text.
pub proof fn lemma_fence_pos_bounds(p: Seq<int>, bound: int, i: int)
    requires
        0 <= bound,
        rails_bounded(p, bound),
        0 <= i < p.len(),
    ensures
        0 <= fence_pos(p, i) < p.len(),
        count_below(p, p.len() as int, p[i]) <= fence_pos(p, i),
        fence_pos(p, i) < count_below(p, p.len() as int, p[i] + 1),
{
    let n = p.len() as int;
    lemma_count_on_mono(p, i + 1, n, p[i]);
    lemma_count_below_mono(p, n, p[i] + 1, bound);
    lemma_count_below_total(p, n, bound);
}

/// Different positions land in different places.
pub proof fn lemma_fence_pos_injective(p: Seq<int>, bound: int, i: int, j: int)
    requires
        0 <= bound,
        rails_bounded(p, bound),
        0 <= i < j < p.len(),
    ensures
        fence_pos(p, i) != fence_pos(p, j),
{
    let n = p.len() as int;
    lemma_fence_pos_bounds(p, bound, i);
    lemma_fence_pos_bounds(p, bound, j);
    if p[i] == p[j] {
        lemma_count_on_mono(p, i + 1, j, p[i]);
    } else if p[i] < p[j] {
        lemma_count_below_mono(p, n, p[i] + 1, p[j]);
    } else {
        lemma_count_below_mono(p, n, p[j] + 1, p[i]);
    }
}

/// Every place in the text receives some position.
pub proof fn lemma_fence_pos_onto(p: Seq<int>, bound: int, k: int)
    requires
        0 <= bound,
        rails_bounded(p, bound),
        0 <= k < p.len(),
    ensures
        0 <= fence_source(p, k) < p.len(),
        fence_pos(p, fence_source(p, k)) == k,
{
    let n = p.len() as int;
    let f = |i: int| fence_pos(p, i);
    let x = set_int_range(0, n);
    let y = x.map(f);
    lemma_int_range(0, n);
    assert(vstd::relations::injective_on(f, x)) by {
        assert forall|a: int, b: int| x.contains(a) && x.contains(b) && #[trigger] f(a) == #[trigger] f(b) implies a == b by {
            if a < b {
                lemma_fence_pos_injective(p, bound, a, b);
            } else if b < a {
                lemma_fence_pos_injective(p, bound, b, a);
            }
        }
    }
    lemma_map_size(x, y, f);
    assert(y.subset_of(x)) by {
        assert forall|v: int| y.contains(v) implies x.contains(v) by {
            let i = choose|i: int| x.contains(i) && f(i) == v;
            lemma_fence_pos_bounds(p, bound, i);
        }
    }
    lemma_subset_equality(y, x);
    assert(y.contains(k));
    let w = choose|i: int| x.contains(i) && f(i) == k;
    assert(0 <= w < n && fence_pos(p, w) == k);
}

// ---------------------------------------------------------------- the zigzag

proof fn lemma_rail_of_bounds(k: int, rails: int)
    requires
        0 <= k,
        rails >= 2,
    ensures
        0 <= rail_of(k, rails) < rails,
        rail_of(k, rails) <= k,
{
    let period = 2 * rails - 2;
    vstd::arithmetic::div_mod::lemma_fundamental_div_mod(k, period);
    let q = k / period;
    assert(q >= 0) by {
        vstd::arithmetic::div_mod::lemma_div_pos_is_pos(k, period);
    }
    assert(k % period <= k) by (nonlinear_arith)
        requires k == period * q + k % period, q >= 0, period > 0;
}

proof fn lemma_mod_step(i: int, m: int, period: int)
    requires
        0 <= i,
        period > 0,
        m == i % period,
    ensures
        (i + 1) % period == if m + 1 == period { 0 } else { m + 1 },
{
    vstd::arithmetic::div_mod::lemma_fundamental_div_mod(i, period);
    let q = i / period;
    if m + 1 == period {
        assert(i + 1 == (q + 1) * period + 0) by (nonlinear_arith)
            requires i == period * q + m, m + 1 == period;
        vstd::arithmetic::div_mod::lemma_fundamental_div_mod_converse_mod(i + 1, period, q + 1, 0);
    } else {
        assert(i + 1 == q * period + (m + 1)) by (nonlinear_arith)
            requires i == period * q + m;
        vstd::arithmetic::div_mod::lemma_fundamental_div_mod_converse_mod(i + 1, period, q, m + 1);
    }
}

/// The rail of each of the first `length` positions, walking the zigzag as a
/// cursor that turns at the top and bottom rails.
pub fn rail_pattern(length: usize, rails: usize) -> (p: Vec<usize>)
    requires
        rails >= 2,
    ensures
        p@.len() == length,
        forall|k: int| 0 <= k < length ==> #[trigger] p@[k] as int == rail_of(k, rails as int),
        forall|k: int| 0 <= k < length ==> #[trigger] p@[k] <= k && p@[k] < rails,
{
    let mut rail: usize = 0;
    let mut up = true;
    let mut p: Vec<usize> = Vec::new();
    let ghost period: int = 2 * rails - 2;
    let ghost mut m: int = 0;
    let mut i: usize = 0;
    while i < length
        invariant
            rails >= 2,
            period == 2 * rails - 2,
            i <= length,
            p@.len() == i,
            0 <= m < period,
            m == (i as int) % period,
            rail as int == rail_of(i as int, rails as int),
            i > 0 ==> (up <==> (i - 1) % period < rails - 1),
            forall|k: int| 0 <= k < i ==> #[trigger] p@[k] as int == rail_of(k, rails as int),
            forall|k: int| 0 <= k < i ==> #[trigger] p@[k] <= k && p@[k] < rails,
        decreases length - i,
    {
        proof {
            lemma_rail_of_bounds(i as int, rails as int);
            vstd::arithmetic::div_mod::lemma_small_mod(0, period as nat);
        }
        p.push(rail);
        if rail == 0 {
            up = true;
        } else if rail == rails - 1 {
            up = false;
        }
        proof {
            if i > 0 {
                lemma_mod_step((i - 1) as int, (i - 1) as int % period, period);
            }
            assert(up <==> m < rails - 1);
            lemma_mod_step(i as int, m, period);
        }
        if up {
            rail = rail + 1;
        } else {
            rail = rail - 1;
        }
        proof {
            m = if m + 1 == period { 0 } else { m + 1 };
        }
        i = i + 1;
    }
    p
}

fn zeros(len: usize) -> (v: Vec<usize>)
    ensures
        v@.len() == len,
        forall|j: int| 0 <= j < len ==> #[trigger] v@[j] == 0,
{
    let mut v: Vec<usize> = Vec::new();
    let mut i: usize = 0;
    while i < len
        invariant
            i <= len,
            v@.len() == i,
            forall|j: int| 0 <= j < i ==> #[trigger] v@[j] == 0,
        decreases len - i,
    {
        v.push(0);
        i = i + 1;
    }
    v
}

/// For each position of a text of `length` characters, where it stands once
/// the rails are read off.
fn fence_positions(length: usize, rails: usize) -> (pos: Vec<usize>)
    requires
        rails >= 2,
    ensures
        pos@.len() == length,
        forall|i: int| 0 <= i < length ==> #[trigger] pos@[i] as int == fence_pos(pattern(length as int, rails as int), i),
{
    let ghost pat = pattern(length as int, rails as int);
    let p = rail_pattern(length, rails);
    let width: usize = if rails < length { rails } else { length };
    assert(rails_bounded(pat, width as int)) by {
        assert forall|k: int| 0 <= k < pat.len() implies 0 <= #[trigger] pat[k] < width by {
            assert(p@[k] as int == rail_of(k, rails as int));
        }
    }
    // characters per rail
    let mut counts = zeros(width);
    let mut i: usize = 0;
    while i < length
        invariant
            i <= length,
            p@.len() == length,
            pat == pattern(length as int, rails as int),
            forall|k: int| 0 <= k < length ==> #[trigger] p@[k] as int == pat[k],
            rails_bounded(pat, width as int),
            counts@.len() == width,
            forall|r: int| 0 <= r < width ==> #[trigger] counts@[r] as int == count_on(pat, i as int, r),
        decreases length - i,
    {
        let r = p[i];
        proof {
            assert(pat[i as int] == r as int);
            lemma_count_on_le(pat, i as int, r as int);
        }
        let c = counts[r];
        counts.set(r, c + 1);
        i = i + 1;
    }
    // first place of each rail
    let mut starts: Vec<usize> = Vec::new();
    let mut acc: usize = 0;
    let mut r: usize = 0;
    proof { lemma_count_below_total(pat, length as int, width as int); }
    while r < width
        invariant
            r <= width,
            pat == pattern(length as int, rails as int),
            rails_bounded(pat, width as int),
            counts@.len() == width,
            forall|q: int| 0 <= q < width ==> #[trigger] counts@[q] as int == count_on(pat, length as int, q),
            count_below(pat, length as int, width as int) == length,
            acc as int == count_below(pat, length as int, r as int),
            starts@.len() == r,
            forall|q: int| 0 <= q < r ==> #[trigger] starts@[q] as int == count_below(pat, length as int, q),
        decreases width - r,
    {
        proof { lemma_count_below_mono(pat, length as int, r + 1, width as int); }
        starts.push(acc);
        acc = acc + counts[r];
        r = r + 1;
    }
    // place of each character
    let mut offsets = zeros(width);
    let mut pos: Vec<usize> = Vec::new();
    let mut i: usize = 0;
    while i < length
        invariant
            i <= length,
            p@.len() == length,
            pat == pattern(length as int, rails as int),
            pat.len() == length,
            forall|k: int| 0 <= k < length ==> #[trigger] p@[k] as int == pat[k],
            rails_bounded(pat, width as int),
            starts@.len() == width,
            forall|q: int| 0 <= q < width ==> #[trigger] starts@[q] as int == count_below(pat, length as int, q),
            offsets@.len() == width,
            forall|q: int| 0 <= q < width ==> #[trigger] offsets@[q] as int == count_on(pat, i as int, q),
            pos@.len() == i,
            forall|k: int| 0 <= k < i ==> #[trigger] pos@[k] as int == fence_pos(pat, k),
        decreases length - i,
    {
        let r = p[i];
        proof {
            assert(pat[i as int] == r as int);
            lemma_fence_pos_bounds(pat, width as int, i as int);
            lemma_count_on_mono(pat, i as int, length as int, r as int);
        }
        let at = starts[r] + offsets[r];
        pos.push(at);
        let o = offsets[r];
        offsets.set(r, o + 1);
        i = i + 1;
    }
    pos
}

/// Rail Fence encipherment: the zigzag's rails read off from top to bottom.
pub fn rail_fence_encode(input: &[char], rails: usize) -> (r: Vec<char>)
    requires
        rails >= 2,
    ensures
        r@ == rail_fence_encode_spec(input@, rails as int),
        r@.len() == input@.len(),
        forall|i: int| 0 <= i < input@.len() ==> r@[fence_pos(pattern(input@.len() as int, rails as int), i)] == #[trigger] input@[i],
{
    let n = input.len();
    let ghost pat = pattern(n as int, rails as int);
    let mut out: Vec<char> = Vec::new();
    let mut i: usize = 0;
    while i < n
        invariant
            n == input.len(),
            i <= n,
            out@ == input@.take(i as int),
        decreases n - i,
    {
        out.push(input[i]);
        i = i + 1;
    }
    assert(out@ =~= input@);
    if n <= 1 {
        proof {
            if n == 1 {
                vstd::arithmetic::div_mod::lemma_small_mod(0, (2 * rails - 2) as nat);
                assert(pat[0] == 0);
                assert(fence_pos(pat, 0) == 0);
            }
        }
        return out;
    }
    let pos = fence_positions(n, rails);
    assert(rails_bounded(pat, rails as int)) by {
        assert forall|k: int| 0 <= k < pat.len() implies 0 <= #[trigger] pat[k] < rails by {
            lemma_rail_of_bounds(k, rails as int);
        }
    }
    let mut i: usize = 0;
    while i < n
        invariant
            n == input.len(),
            n >= 2,
            i <= n,
            pat == pattern(n as int, rails as int),
            pat.len() == n,
            rails_bounded(pat, rails as int),
            pos@.len() == n,
            forall|k: int| 0 <= k < n ==> #[trigger] pos@[k] as int == fence_pos(pat, k),
            out@.len() == n,
            forall|k: int| 0 <= k < i ==> out@[fence_pos(pat, k)] == #[trigger] input@[k],
        decreases n - i,
    {
        proof {
            lemma_fence_pos_bounds(pat, rails as int, i as int);
            assert forall|k: int| 0 <= k < i implies fence_pos(pat, k) != fence_pos(pat, i as int)
                && 0 <= fence_pos(pat, k) < n by {
                lemma_fence_pos_injective(pat, rails as int, k, i as int);
                lemma_fence_pos_bounds(pat, rails as int, k);
            }
        }
        out.set(pos[i], input[i]);
        i = i + 1;
    }
    proof {
        assert forall|k: int| 0 <= k < n implies out@[k] == input@[fence_source(pat, k)] by {
            lemma_fence_pos_onto(pat, rails as int, k);
        }
        assert(out@ =~= rail_fence_encode_spec(input@, rails as int));
    }
    out
}

/// Rail Fence decipherment: the character at each position is fetched from
/// where encipherment put it.
pub fn rail_fence_decode(input: &[char], rails: usize) -> (r: Vec<char>)
    requires
        rails >= 2,
    ensures
        r@ == rail_fence_decode_spec(input@, rails as int),
{
    let n = input.len();
    let ghost pat = pattern(n as int, rails as int);
    let mut out: Vec<char> = Vec::new();
    if n <= 1 {
        let mut i: usize = 0;
        while i < n
            invariant
                n == input.len(),
                i <= n,
                out@ == input@.take(i as int),
            decreases n - i,
        {
            out.push(input[i]);
            i = i + 1;
        }
        assert(out@ =~= input@);
        return out;
    }
    let pos = fence_positions(n, rails);
    assert(rails_bounded(pat, rails as int)) by {
        assert forall|k: int| 0 <= k < pat.len() implies 0 <= #[trigger] pat[k] < rails by {
            lemma_rail_of_bounds(k, rails as int);
        }
    }
    let mut i: usize = 0;
    while i < n
        invariant
            n == input.len(),
            i <= n,
            pat == pattern(n as int, rails as int),
            pat.len() == n,
            rails_bounded(pat, rails as int),
            pos@.len() == n,
            forall|k: int| 0 <= k < n ==> #[trigger] pos@[k] as int == fence_pos(pat, k),
            out@.len() == i,
            forall|k: int| 0 <= k < i ==> #[trigger] out@[k] == input@[fence_pos(pat, k)],
        decreases n - i,
    {
        proof { lemma_fence_pos_bounds(pat, rails as int, i as int); }
        out.push(input[pos[i]]);
        i = i + 1;
    }
    assert(out@ =~= rail_fence_decode_spec(input@, rails as int));
    out
}

pub proof fn lemma_pattern_bounded(n: int, rails: int)
    requires
        0 <= n,
        rails >= 2,
    ensures
        rails_bounded(pattern(n, rails), rails),
{
    assert forall|k: int| 0 <= k < pattern(n, rails).len() implies 0 <= #[trigger] pattern(n, rails)[k] < rails by {
        lemma_rail_of_bounds(k, rails);
    }
}

/// Deciphering what was enciphered over the same rails gives the text back,
/// and so does enciphering what was deciphered: the two are inverse
/// permutations.
pub proof fn lemma_rail_fence_round_trip(s: Seq<char>, rails: int)
    requires
        rails >= 2,
    ensures
        rail_fence_decode_spec(rail_fence_encode_spec(s, rails), rails) == s,
        rail_fence_encode_spec(rail_fence_decode_spec(s, rails), rails) == s,
{
    let n = s.len() as int;
    if n > 1 {
        let pat = pattern(n, rails);
        lemma_pattern_bounded(n, rails);
        let e = rail_fence_encode_spec(s, rails);
        let d = rail_fence_decode_spec(e, rails);
        assert forall|i: int| 0 <= i < n implies d[i] == s[i] by {
            lemma_fence_pos_bounds(pat, rails, i);
            let k = fence_pos(pat, i);
            lemma_fence_pos_onto(pat, rails, k);
            let j = fence_source(pat, k);
            if j < i {
                lemma_fence_pos_injective(pat, rails, j, i);
            } else if i < j {
                lemma_fence_pos_injective(pat, rails, i, j);
            }
        }
        assert(d =~= s);
        let d2 = rail_fence_decode_spec(s, rails);
        let e2 = rail_fence_encode_spec(d2, rails);
        assert forall|k: int| 0 <= k < n implies e2[k] == s[k] by {
            lemma_fence_pos_onto(pat, rails, k);
        }
        assert(e2 =~= s);
    }
}

} // verus!
