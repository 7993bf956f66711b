use vstd::prelude::*;

verus! {

/// Shortest cycle, counted in tokens with the pivot at both ends.
pub const MIN_CHAIN_LENGTH: usize = 3;

/// Longest cycle, counted in tokens with the pivot at both ends.
pub const MAX_CHAIN_LENGTH: usize = 5;

/// Pairs of tokens (by index) for which some family lists a pool, in both directions.
pub struct ValidPairs {
    pub rows: Vec<Vec<bool>>,
}

impl ValidPairs {
    pub open spec fn wf(&self) -> bool {
        forall|i: int| 0 <= i < self.rows@.len() ==> #[trigger] self.rows@[i]@.len() == self.rows@.len()
    }

    /// Number of tokens the table is over.
    pub open spec fn size(&self) -> nat {
        self.rows@.len()
    }

    /// The table as a matrix.
    pub open spec fn table(&self) -> Seq<Seq<bool>> {
        self.rows@.map_values(|r: Vec<bool>| r@)
    }

    /// An empty table over `n` tokens.
    pub fn new(n: usize) -> (r: ValidPairs)
        ensures
            r.wf(),
            r.size() == n,
            forall|i: int, j: int| 0 <= i < n && 0 <= j < n ==> !#[trigger] r.table()[i][j],
    {
        let mut rows: Vec<Vec<bool>> = Vec::new();
        let mut i: usize = 0;
        while i < n
            invariant
                i <= n,
                rows@.len() == i,
                forall|k: int| 0 <= k < i ==> #[trigger] rows@[k]@.len() == n,
                forall|k: int, j: int| 0 <= k < i && 0 <= j < n ==> !#[trigger] rows@[k]@[j],
            decreases n - i,
        {
            let mut row: Vec<bool> = Vec::new();
            let mut j: usize = 0;
            while j < n
                invariant
                    j <= n,
                    row@.len() == j,
                    forall|k: int| 0 <= k < j ==> !#[trigger] row@[k],
                decreases n - j,
            {
                row.push(false);
                j = j + 1;
            }
            rows.push(row);
            i = i + 1;
        }
        ValidPairs { rows }
    }

    /// Marks the pair valid in both directions.
    pub fn add_pair(&mut self, a: usize, b: usize)
        requires
            old(self).wf(),
            a < old(self).size(),
            b < old(self).size(),
        ensures
            final(self).wf(),
            final(self).size() == old(self).size(),
            forall|i: int, j: int|
                0 <= i < old(self).size() && 0 <= j < old(self).size() ==> #[trigger] final(self).table()[i][j]
                    == (old(self).table()[i][j] || (i == a && j == b) || (i == b && j == a)),
    {
        let ghost before = self.table();
        let mut row_a = self.rows[a].clone();
        row_a.set(b, true);
        self.rows.set(a, row_a);
        let mut row_b = self.rows[b].clone();
        row_b.set(a, true);
        self.rows.set(b, row_b);
        assert forall|i: int, j: int|
            0 <= i < self.size() && 0 <= j < self.size() implies #[trigger] self.table()[i][j]
                == (before[i][j] || (i == a && j == b) || (i == b && j == a)) by {
            if i == b {
            } else if i == a {
            }
        }
    }

    /// Whether either direction of the pair was marked.
    pub fn is_valid_pair(&self, a: usize, b: usize) -> (r: bool)
        requires
            self.wf(),
            a < self.size(),
            b < self.size(),
        ensures
            r == (self.table()[a as int][b as int] || self.table()[b as int][a as int]),
    {
        self.rows[a][b] || self.rows[b][a]
    }
}


/// The two hops `a -> b` and `c -> d` use the same unordered pair of tokens.
pub open spec fn same_group(a: usize, b: usize, c: usize, d: usize) -> bool {
    (a == c && b == d) || (a == d && b == c)
}

/// Both tokens are in the table and some direction of the pair is marked.
pub open spec fn valid_in(tbl: Seq<Seq<bool>>, a: usize, b: usize) -> bool {
    a < tbl.len() && b < tbl.len() && (tbl[a as int][b as int] || tbl[b as int][a as int])
}

/// No hop of `c` uses the unordered pair `{a, b}`.
pub open spec fn group_unused(c: Seq<usize>, a: usize, b: usize) -> bool {
    forall|i: int| 0 <= i < c.len() - 1 ==> !same_group(#[trigger] c[i], c[i + 1], a, b)
}

/// `c` may be extended by the hop to `x`: a valid pair of distinct tokens not used before.
pub open spec fn can_extend(tbl: Seq<Seq<bool>>, c: Seq<usize>, x: usize) -> bool {
    c.len() > 0 && x != c.last() && valid_in(tbl, c.last(), x) && group_unused(c, c.last(), x)
}

/// Every token of `c` is in the table.
pub open spec fn in_range(tbl: Seq<Seq<bool>>, c: Seq<usize>) -> bool {
    forall|k: int| 0 <= k < c.len() ==> #[trigger] c[k] < tbl.len()
}

/// Every hop of `c` joins two distinct tokens of a valid pair.
pub open spec fn steps_ok(tbl: Seq<Seq<bool>>, c: Seq<usize>) -> bool {
    forall|k: int| 0 <= k < c.len() - 1 ==> #[trigger] c[k] != c[k + 1] && valid_in(tbl, c[k], c[k + 1])
}

/// No two hops of `c` use the same unordered pair.
pub open spec fn groups_distinct(c: Seq<usize>) -> bool {
    forall|i: int, j: int|
        0 <= i < j < c.len() - 1 ==> !same_group(#[trigger] c[i], c[i + 1], #[trigger] c[j], c[j + 1])
}

/// A walk from the pivot that the enumerator may still extend.
pub open spec fn prefix_ok(tbl: Seq<Seq<bool>>, pivot: usize, c: Seq<usize>) -> bool {
    &&& c.len() >= 1
    &&& c[0] == pivot
    &&& in_range(tbl, c)
    &&& steps_ok(tbl, c)
    &&& groups_distinct(c)
}

/// A token cycle of `len` tokens: it starts and ends at the pivot, each hop is a
/// valid pair of distinct tokens, and no unordered pair is used twice.
pub open spec fn is_cycle(tbl: Seq<Seq<bool>>, len: nat, pivot: usize, c: Seq<usize>) -> bool {
    &&& c.len() == len
    &&& len >= 2
    &&& prefix_ok(tbl, pivot, c)
    &&& c.last() == pivot
}

/// The cycles of `len` tokens that extend `c` by a next token `x` or later, in the
/// order of a depth-first walk that tries next tokens by increasing index.
pub open spec fn gen(tbl: Seq<Seq<bool>>, len: nat, pivot: usize, c: Seq<usize>, x: nat) -> Seq<Seq<usize>>
    decreases len - c.len(), tbl.len() - x,
{
    if c.len() >= len || x >= tbl.len() || c.len() == 0 {
        Seq::empty()
    } else {
        let e = c.push(x as usize);
        let here = if can_extend(tbl, c, x as usize) {
            (if e.len() == len && x == pivot {
                seq![e]
            } else {
                Seq::empty()
            }) + gen(tbl, len, pivot, e, 0)
        } else {
            Seq::empty()
        };
        here + gen(tbl, len, pivot, c, x + 1)
    }
}

/// Extending a walk from the pivot by an allowed hop keeps it a walk from the pivot.
proof fn lemma_extend_ok(tbl: Seq<Seq<bool>>, pivot: usize, c: Seq<usize>, x: usize)
    requires
        prefix_ok(tbl, pivot, c),
        can_extend(tbl, c, x),
    ensures
        prefix_ok(tbl, pivot, c.push(x)),
{
    let e = c.push(x);
    assert forall|k: int| 0 <= k < e.len() implies #[trigger] e[k] < tbl.len() by {
        if k < c.len() {
            assert(e[k] == c[k]);
        }
    }
    assert forall|k: int| 0 <= k < e.len() - 1 implies #[trigger] e[k] != e[k + 1] && valid_in(
        tbl,
        e[k],
        e[k + 1],
    ) by {
        if k < c.len() - 1 {
            assert(e[k] == c[k] && e[k + 1] == c[k + 1]);
        }
    }
    assert forall|i: int, j: int| 0 <= i < j < e.len() - 1 implies !same_group(
        #[trigger] e[i],
        e[i + 1],
        #[trigger] e[j],
        e[j + 1],
    ) by {
        assert(e[i] == c[i] && e[i + 1] == c[i + 1]);
        if j < c.len() - 1 {
            assert(e[j] == c[j] && e[j + 1] == c[j + 1]);
        } else {
            assert(e[j] == c.last() && e[j + 1] == x);
            assert(!same_group(c[i], c[i + 1], c.last(), x));
        }
    }
}

/// Every chain that the walk from `c` yields is a cycle of `len` tokens that extends `c`.
pub proof fn lemma_gen_sound(tbl: Seq<Seq<bool>>, len: nat, pivot: usize, c: Seq<usize>, x: nat)
    requires
        prefix_ok(tbl, pivot, c),
    ensures
        forall|i: int|
            0 <= i < gen(tbl, len, pivot, c, x).len() ==> is_cycle(tbl, len, pivot, #[trigger] gen(tbl, len, pivot, c, x)[i])
                && gen(tbl, len, pivot, c, x)[i].subrange(0, c.len() as int) == c,
    decreases len - c.len(), tbl.len() - x,
{
    if c.len() >= len || x >= tbl.len() || c.len() == 0 {
    } else {
        let e = c.push(x as usize);
        let g = gen(tbl, len, pivot, c, x);
        let rest = gen(tbl, len, pivot, c, x + 1);
        lemma_gen_sound(tbl, len, pivot, c, x + 1);
        if can_extend(tbl, c, x as usize) {
            lemma_extend_ok(tbl, pivot, c, x as usize);
            lemma_gen_sound(tbl, len, pivot, e, 0);
            let first: Seq<Seq<usize>> = if e.len() == len && x == pivot {
                seq![e]
            } else {
                Seq::empty()
            };
            let below = gen(tbl, len, pivot, e, 0);
            assert(e.subrange(0, c.len() as int) =~= c);
            assert forall|i: int| 0 <= i < g.len() implies is_cycle(tbl, len, pivot, #[trigger] g[i])
                && g[i].subrange(0, c.len() as int) == c by {
                if i < first.len() {
                    assert(g[i] == e);
                } else if i < first.len() + below.len() {
                    let d = below[i - first.len()];
                    assert(g[i] == d);
                    assert(d.subrange(0, e.len() as int) == e);
                    assert(d.subrange(0, c.len() as int) =~= e.subrange(0, c.len() as int));
                } else {
                    assert(g[i] == rest[i - first.len() - below.len()]);
                }
            }
        } else {
            assert(g =~= rest);
        }
    }
}

/// Every cycle of `len` tokens that extends `c` by a next token `x` or later is yielded by the walk.
pub proof fn lemma_gen_complete(
    tbl: Seq<Seq<bool>>,
    len: nat,
    pivot: usize,
    c: Seq<usize>,
    x: nat,
    e: Seq<usize>,
)
    requires
        is_cycle(tbl, len, pivot, e),
        1 <= c.len() < len,
        e.subrange(0, c.len() as int) == c,
        e[c.len() as int] >= x,
    ensures
        gen(tbl, len, pivot, c, x).contains(e),
    decreases len - c.len(), tbl.len() - x,
{
    let n = c.len() as int;
    let y = e[n];
    assert(y < tbl.len());
    assert(c[n - 1] == e[n - 1]);
    let ce = c.push(x as usize);
    let g = gen(tbl, len, pivot, c, x);
    let rest = gen(tbl, len, pivot, c, x + 1);
    if y == x {
        assert(e[n - 1] != e[n] && valid_in(tbl, e[n - 1], e[n]));
        assert forall|i: int| 0 <= i < c.len() - 1 implies !same_group(
            #[trigger] c[i],
            c[i + 1],
            c.last(),
            x as usize,
        ) by {
            assert(c[i] == e[i] && c[i + 1] == e[i + 1]);
            assert(!same_group(e[i], e[i + 1], e[n - 1], e[n]));
        }
        assert(can_extend(tbl, c, x as usize));
        assert(ce =~= e.subrange(0, n + 1));
        let first: Seq<Seq<usize>> = if ce.len() == len && x == pivot {
            seq![ce]
        } else {
            Seq::empty()
        };
        let below = gen(tbl, len, pivot, ce, 0);
        assert(g == (first + below) + rest);
        if ce.len() == len {
            assert(ce =~= e);
            assert(g[0] == e);
        } else {
            lemma_gen_complete(tbl, len, pivot, ce, 0, e);
            let i = choose|i: int| 0 <= i < below.len() && below[i] == e;
            assert(g[first.len() + i] == e);
        }
    } else {
        lemma_gen_complete(tbl, len, pivot, c, x + 1, e);
        let i = choose|i: int| 0 <= i < rest.len() && rest[i] == e;
        assert(g[g.len() - rest.len() + i] == e);
    }
}

/// The views of a list of chains.
pub open spec fn views(s: Seq<Vec<usize>>) -> Seq<Seq<usize>> {
    s.map_values(|v: Vec<usize>| v@)
}

/// Whether no hop of `chain` uses the unordered pair `{a, b}`.
fn group_unused_exec(chain: &Vec<usize>, a: usize, b: usize) -> (r: bool)
    ensures
        r == group_unused(chain@, a, b),
{
    let n = chain.len();
    if n < 2 {
        return true;
    }
    let mut i: usize = 0;
    while i < n - 1
        invariant
            n == chain@.len(),
            n >= 2,
            i <= n - 1,
            forall|k: int| 0 <= k < i ==> !same_group(#[trigger] chain@[k], chain@[k + 1], a, b),
        decreases n - 1 - i,
    {
        let p = chain[i];
        let q = chain[i + 1];
        if (p == a && q == b) || (p == b && q == a) {
            return false;
        }
        i = i + 1;
    }
    true
}

fn dfs(pairs: &ValidPairs, len: usize, pivot: usize, chain: &mut Vec<usize>, out: &mut Vec<Vec<usize>>)
    requires
        pairs.wf(),
        1 <= old(chain)@.len() <= len,
        in_range(pairs.table(), old(chain)@),
    ensures
        final(chain)@ == old(chain)@,
        views(final(out)@) == views(old(out)@) + gen(pairs.table(), len as nat, pivot, old(chain)@, 0),
    decreases (len as int) - old(chain)@.len(),
{
    let ghost tbl = pairs.table();
    let ghost c0 = chain@;
    let ghost out0 = views(out@);
    if chain.len() >= len {
        return;
    }
    let n = pairs.rows.len();
    let mut x: usize = 0;
    while x < n
        invariant
            n == tbl.len(),
            tbl == pairs.table(),
            pairs.wf(),
            chain@ == c0,
            c0 == old(chain)@,
            1 <= c0.len() < len,
            in_range(tbl, c0),
            x <= n,
            views(out@) + gen(tbl, len as nat, pivot, c0, x as nat) == out0 + gen(tbl, len as nat, pivot, c0, 0),
        decreases n - x,
    {
        let ghost before = views(out@);
        let last = chain[chain.len() - 1];
        let ok = x != last && pairs.is_valid_pair(last, x) && group_unused_exec(chain, last, x);
        let ghost e = c0.push(x);
        assert(ok == can_extend(tbl, c0, x));
        if ok {
            chain.push(x);
            assert(chain@ == e);
            if chain.len() == len && x == pivot {
                let copy = chain.clone();
                assert(copy@ == e);
                out.push(copy);
                assert(views(out@) =~= before.push(e));
            }
            let ghost mid = views(out@);
            assert(in_range(tbl, e));
            assert(chain@.len() == c0.len() + 1);
            dfs(pairs, len, pivot, chain, out);
            chain.pop();
            assert(chain@ =~= c0);
            let ghost first: Seq<Seq<usize>> = if e.len() == len && x == pivot {
                seq![e]
            } else {
                Seq::empty()
            };
            assert(mid =~= before + first);
            assert(views(out@) =~= before + (first + gen(tbl, len as nat, pivot, e, 0)));
        }
        assert(gen(tbl, len as nat, pivot, c0, x as nat) == (if ok {
            (if e.len() == len && x == pivot {
                seq![e]
            } else {
                Seq::empty()
            }) + gen(tbl, len as nat, pivot, e, 0)
        } else {
            Seq::empty()
        }) + gen(tbl, len as nat, pivot, c0, (x + 1) as nat));
        x = x + 1;
        assert(views(out@) + gen(tbl, len as nat, pivot, c0, x as nat) =~= out0 + gen(
            tbl,
            len as nat,
            pivot,
            c0,
            0,
        ));
    }
}

/// The cycles of `len` tokens from `pivot`, in depth-first order.
pub fn find_chains(pairs: &ValidPairs, pivot: usize, len: usize) -> (r: Vec<Vec<usize>>)
    requires
        pairs.wf(),
        pivot < pairs.size(),
        len >= 2,
    ensures
        views(r@) == gen(pairs.table(), len as nat, pivot, seq![pivot], 0),
        forall|e: Seq<usize>| #[trigger] views(r@).contains(e) <==> is_cycle(pairs.table(), len as nat, pivot, e),
{
    let mut chain: Vec<usize> = Vec::new();
    chain.push(pivot);
    let mut out: Vec<Vec<usize>> = Vec::new();
    assert(views(out@) =~= Seq::<Seq<usize>>::empty());
    assert(chain@ =~= seq![pivot]);
    dfs(pairs, len, pivot, &mut chain, &mut out);
    assert(views(out@) =~= gen(pairs.table(), len as nat, pivot, seq![pivot], 0));
    proof {
        let tbl = pairs.table();
        let start = seq![pivot];
        let g = gen(tbl, len as nat, pivot, start, 0);
        assert(prefix_ok(tbl, pivot, start));
        lemma_gen_sound(tbl, len as nat, pivot, start, 0);
        assert forall|e: Seq<usize>| #[trigger] g.contains(e) <==> is_cycle(tbl, len as nat, pivot, e) by {
            if g.contains(e) {
                let i = choose|i: int| 0 <= i < g.len() && g[i] == e;
                assert(is_cycle(tbl, len as nat, pivot, g[i]));
            }
            if is_cycle(tbl, len as nat, pivot, e) {
                assert(e.subrange(0, 1) =~= start);
                lemma_gen_complete(tbl, len as nat, pivot, start, 0, e);
            }
        }
    }
    out
}


/// Whether two chains hold the same tokens in the same order.
pub fn same_chain(a: &Vec<usize>, b: &Vec<usize>) -> (r: bool)
    ensures
        r == (a@ == b@),
{
    if a.len() != b.len() {
        return false;
    }
    let mut i: usize = 0;
    while i < a.len()
        invariant
            a@.len() == b@.len(),
            i <= a@.len(),
            forall|k: int| 0 <= k < i ==> a@[k] == b@[k],
        decreases a@.len() - i,
    {
        if a[i] != b[i] {
            return false;
        }
        i = i + 1;
    }
    assert(a@ =~= b@);
    true
}

/// Keeps the first occurrence of each chain, in order.
pub fn deduplicate(chains: &mut Vec<Vec<usize>>)
    ensures
        views(final(chains)@).no_duplicates(),
        forall|e: Seq<usize>| #[trigger] views(final(chains)@).contains(e) <==> views(old(chains)@).contains(e),
{
    let ghost src = views(chains@);
    let mut kept: Vec<Vec<usize>> = Vec::new();
    let mut i: usize = 0;
    while i < chains.len()
        invariant
            src == views(chains@),
            i <= chains@.len(),
            views(kept@).no_duplicates(),
            forall|e: Seq<usize>| #[trigger] views(kept@).contains(e) <==> src.subrange(0, i as int).contains(e),
        decreases chains@.len() - i,
    {
        let mut seen = false;
        let mut j: usize = 0;
        while j < kept.len()
            invariant
                j <= kept@.len(),
                i < chains@.len(),
                seen == (exists|k: int| 0 <= k < j && kept@[k]@ == chains@[i as int]@),
            decreases kept@.len() - j,
        {
            if same_chain(&kept[j], &chains[i]) {
                seen = true;
            }
            j = j + 1;
        }
        let ghost before = views(kept@);
        let ghost cur = src[i as int];
        let ghost s1 = src.subrange(0, i + 1);
        let ghost s0 = src.subrange(0, i as int);
        assert(forall|e: Seq<usize>| #[trigger] before.contains(e) <==> s0.contains(e));
        assert(src.subrange(0, i + 1) =~= src.subrange(0, i as int).push(cur));
        if !seen {
            let copy = chains[i].clone();
            assert(copy@ == cur);
            kept.push(copy);
            assert(views(kept@) =~= before.push(cur));
            assert forall|k: int| 0 <= k < before.len() implies before[k] != cur by {
                assert(before[k] == kept@[k]@);
            }
            assert(!before.contains(cur));
            assert forall|e: Seq<usize>| #[trigger] views(kept@).contains(e) <==> src.subrange(0, i + 1).contains(e) by {
                if views(kept@).contains(e) && e != cur {
                    let k = choose|k: int| 0 <= k < views(kept@).len() && views(kept@)[k] == e;
                    assert(before[k] == e);
                    assert(before.contains(e));
                    let m = choose|m: int| 0 <= m < s0.len() && s0[m] == e;
                    assert(s1[m] == e);
                }
                if s1.contains(e) && e != cur {
                    let m = choose|m: int| 0 <= m < s1.len() && s1[m] == e;
                    assert(s0[m] == e);
                    assert(s0.contains(e));
                    assert(before.contains(e) == s0.contains(e));
                    let k = choose|k: int| 0 <= k < before.len() && before[k] == e;
                    assert(views(kept@)[k] == e);
                }
                if e == cur {
                    assert(views(kept@)[before.len() as int] == cur);
                    assert(s1[i as int] == cur);
                }
            }
        } else {
            proof {
                let k = choose|k: int| 0 <= k < kept@.len() && kept@[k]@ == chains@[i as int]@;
                assert(before[k] == cur);
            }
            assert forall|e: Seq<usize>| #[trigger] views(kept@).contains(e) <==> src.subrange(0, i + 1).contains(e) by {
                if src.subrange(0, i + 1).contains(e) && e != cur {
                    let m = choose|m: int| 0 <= m < s1.len() && s1[m] == e;
                    assert(src.subrange(0, i as int)[m] == e);
                }
                if e == cur {
                    assert(src.subrange(0, i + 1)[i as int] == cur);
                }
            }
        }
        i = i + 1;
    }
    assert(src.subrange(0, src.len() as int) =~= src);
    *chains = kept;
}

} // verus!
