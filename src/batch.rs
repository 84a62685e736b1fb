//! Vertex batching: quads are gathered into a bounded batch that is handed
//! out for one GPU submission whenever the next quad would not fit.

use vstd::arithmetic::div_mod::lemma_fundamental_div_mod_converse;
use vstd::prelude::*;

verus! {

/// The vertices of one quad.
pub open spec fn quad_seq<V>(a: V, b: V, c: V, d: V) -> Seq<V> {
    seq![a, b, c, d]
}

/// One `push_quad` on a batch holding `pending`: when the quad would not
/// fit, the pending vertices are handed out and the quad starts a new batch.
pub open spec fn push_step<V>(pending: Seq<V>, quad: Seq<V>, max_quads: nat) -> (Option<
    Seq<V>,
>, Seq<V>) {
    if pending.len() + 4 > 4 * max_quads {
        (Some(pending), quad)
    } else {
        (None, pending + quad)
    }
}

/// What a run of `push_quad` calls from an empty batch has handed out, and
/// what is still pending.
pub open spec fn push_run<V>(quads: Seq<Seq<V>>, max_quads: nat) -> (Seq<Seq<V>>, Seq<V>)
    decreases quads.len(),
{
    if quads.len() == 0 {
        (Seq::empty(), Seq::empty())
    } else {
        let (handed, pending) = push_run(quads.drop_last(), max_quads);
        let (flushed, next) = push_step(pending, quads.last(), max_quads);
        (
            match flushed {
                Some(b) => handed.push(b),
                None => handed,
            },
            next,
        )
    }
}

/// Every submission of a run of `push_quad` calls followed by `finish`.
pub open spec fn submissions<V>(quads: Seq<Seq<V>>, max_quads: nat) -> Seq<Seq<V>> {
    let (handed, pending) = push_run(quads, max_quads);
    if pending.len() > 0 {
        handed.push(pending)
    } else {
        handed
    }
}

/// A batch of quad vertices bounded by a fixed number of quads.
pub struct Batch<V> {
    vertices: Vec<V>,
    max_quads: usize,
}

impl<V> View for Batch<V> {
    type V = Seq<V>;

    /// The vertices gathered since the last submission.
    closed spec fn view(&self) -> Seq<V> {
        self.vertices@
    }
}

impl<V> Batch<V> {
    /// The number of quads that one submission holds at most.
    pub closed spec fn capacity(&self) -> nat {
        self.max_quads as nat
    }

    /// The batch holds whole quads, no more than its capacity.
    pub closed spec fn wf(&self) -> bool {
        &&& 1 <= self.max_quads <= usize::MAX / 4
        &&& self.vertices@.len() <= 4 * self.max_quads
        &&& self.vertices@.len() % 4 == 0
    }

    /// An empty batch for up to `max_quads` quads.
    pub fn new(max_quads: usize) -> (r: Batch<V>)
        requires
            1 <= max_quads <= usize::MAX / 4,
        ensures
            r.wf(),
            r@ == Seq::<V>::empty(),
            r.capacity() == max_quads,
    {
        Batch { vertices: Vec::with_capacity(4 * max_quads), max_quads }
    }

    /// The number of quads that one submission holds at most.
    pub fn max_quads(&self) -> (r: usize)
        ensures
            r == self.capacity(),
    {
        self.max_quads
    }

    /// The number of vertices gathered since the last submission.
    pub fn len(&self) -> (r: usize)
        ensures
            r == self@.len(),
    {
        self.vertices.len()
    }

    /// Appends one quad; when it would not fit, first hands out the gathered
    /// vertices for submission and starts a new batch with the quad.
    pub fn push_quad(&mut self, a: V, b: V, c: V, d: V) -> (r: Option<Vec<V>>)
        requires
            old(self).wf(),
        ensures
            final(self).wf(),
            final(self).capacity() == old(self).capacity(),
            (match r {
                Some(v) => Some(v@),
                None => None,
            }, final(self)@) == push_step(old(self)@, quad_seq(a, b, c, d), old(self).capacity()),
    {
        let mut flushed: Option<Vec<V>> = None;
        if self.vertices.len() > 4 * self.max_quads - 4 {
            let mut full = Vec::with_capacity(4 * self.max_quads);
            std::mem::swap(&mut full, &mut self.vertices);
            flushed = Some(full);
        }
        let ghost before = self.vertices@;
        self.vertices.push(a);
        self.vertices.push(b);
        self.vertices.push(c);
        self.vertices.push(d);
        assert(self.vertices@ =~= before + quad_seq(a, b, c, d));
        flushed
    }

    /// Hands out the gathered vertices, if any, for the final submission of
    /// the frame, and leaves the batch empty.
    pub fn finish(&mut self) -> (r: Option<Vec<V>>)
        requires
            old(self).wf(),
        ensures
            final(self).wf(),
            final(self).capacity() == old(self).capacity(),
            final(self)@ == Seq::<V>::empty(),
            match r {
                Some(v) => old(self)@.len() > 0 && v@ == old(self)@,
                None => old(self)@.len() == 0,
            },
    {
        if self.vertices.len() == 0 {
            None
        } else {
            let mut full = Vec::with_capacity(4 * self.max_quads);
            std::mem::swap(&mut full, &mut self.vertices);
            Some(full)
        }
    }

    /// Drops the gathered vertices without submitting them.
    pub fn clear(&mut self)
        requires
            old(self).wf(),
        ensures
            final(self).wf(),
            final(self).capacity() == old(self).capacity(),
            final(self)@ == Seq::<V>::empty(),
    {
        self.vertices.clear();
    }
}

/// The corner that entry `j` (0 to 5) of a quad's two triangles uses.
pub open spec fn quad_corner(j: int) -> int {
    if j == 0 {
        0
    } else if j == 1 {
        1
    } else if j == 2 {
        2
    } else if j == 3 {
        2
    } else if j == 4 {
        3
    } else {
        0
    }
}

/// The index buffer of a batch of `max_quads` quads: two triangles per
/// quad, (0, 1, 2) and (2, 3, 0) over its four vertices.
pub fn quad_indices(max_quads: usize) -> (r: Vec<u16>)
    requires
        4 * max_quads <= 0x1_0000,
    ensures
        r@.len() == 6 * max_quads,
        forall|i: int|
            0 <= i < r@.len() ==> #[trigger] r@[i] == 4 * (i / 6) + quad_corner(i % 6),
{
    let corners: [u16; 6] = [0, 1, 2, 2, 3, 0];
    let mut indices: Vec<u16> = Vec::with_capacity(6 * max_quads);
    let mut q: usize = 0;
    while q < max_quads
        invariant
            q <= max_quads,
            4 * max_quads <= 0x1_0000,
            corners@ == seq![0u16, 1, 2, 2, 3, 0],
            indices@.len() == 6 * q,
            forall|i: int|
                0 <= i < indices@.len() ==> #[trigger] indices@[i] == 4 * (i / 6) + quad_corner(
                    i % 6,
                ),
        decreases max_quads - q,
    {
        let mut j: usize = 0;
        while j < 6
            invariant
                q < max_quads,
                4 * max_quads <= 0x1_0000,
                j <= 6,
                corners@ == seq![0u16, 1, 2, 2, 3, 0],
                indices@.len() == 6 * q + j,
                forall|i: int|
                    0 <= i < indices@.len() ==> #[trigger] indices@[i] == 4 * (i / 6)
                        + quad_corner(i % 6),
            decreases 6 - j,
        {
            proof {
                lemma_fundamental_div_mod_converse((6 * q + j) as int, 6, q as int, j as int);
            }
            indices.push(4 * q as u16 + corners[j]);
            j = j + 1;
        }
        q = q + 1;
    }
    indices
}

/// The index buffer of `max_tris` separate triangles: entry `i` is `i`.
pub fn tri_indices(max_tris: usize) -> (r: Vec<u16>)
    requires
        3 * max_tris <= 0x1_0000,
    ensures
        r@.len() == 3 * max_tris,
        forall|i: int| 0 <= i < r@.len() ==> #[trigger] r@[i] == i,
{
    let n = 3 * max_tris;
    let mut indices: Vec<u16> = Vec::with_capacity(n);
    let mut i: usize = 0;
    while i < n
        invariant
            i <= n,
            n <= 0x1_0000,
            indices@.len() == i,
            forall|k: int| 0 <= k < i ==> #[trigger] indices@[k] == k,
        decreases n - i,
    {
        indices.push(i as u16);
        i = i + 1;
    }
    indices
}

/// How pending vertices go into a vertex buffer.
#[derive(Clone, Copy, Debug, PartialEq, Eq, Structural)]
pub enum Upload {
    /// They fill the buffer: it is written whole, in place.
    Whole,
    /// They fill a prefix of this length: the buffer is invalidated and the
    /// prefix written.
    Prefix(usize),
}

/// How `pending` vertices go into a buffer of `buffer_len` vertices; `None`
/// when they do not fit, so that no write runs past the buffer.
pub fn upload_mode(pending: usize, buffer_len: usize) -> (r: Option<Upload>)
    ensures
        r == if pending > buffer_len {
            None
        } else if pending == buffer_len {
            Some(Upload::Whole)
        } else {
            Some(Upload::Prefix(pending))
        },
{
    if pending > buffer_len {
        None
    } else if pending == buffer_len {
        Some(Upload::Whole)
    } else {
        Some(Upload::Prefix(pending))
    }
}

proof fn lemma_push_run<V>(quads: Seq<Seq<V>>, max_quads: nat)
    requires
        max_quads >= 1,
        forall|i: int| 0 <= i < quads.len() ==> (#[trigger] quads[i]).len() == 4,
    ensures
        ({
            let (handed, pending) = push_run(quads, max_quads);
            &&& handed.flatten() + pending == quads.flatten()
            &&& quads.len() == 0 ==> pending.len() == 0
            &&& quads.len() > 0 ==> pending.len() == 4 * ((
            (quads.len() - 1) as int % max_quads as int) + 1)
            &&& quads.len() > 0 ==> handed.len() == (quads.len() - 1) as int / max_quads as int
            &&& forall|i: int|
                0 <= i < handed.len() ==> 0 < (#[trigger] handed[i]).len() <= 4 * max_quads
        }),
    decreases quads.len(),
{
    broadcast use Seq::lemma_flatten_push;

    if quads.len() > 0 {
        let prev = quads.drop_last();
        lemma_push_run(prev, max_quads);
        let (handed, pending) = push_run(prev, max_quads);
        let n = quads.len() as int;
        let m = max_quads as int;
        assert(quads =~= prev.push(quads.last()));
        assert(quads.flatten() == prev.flatten() + quads.last());
        if n == 1 {
            assert(pending.len() == 0);
            assert(0int % m == 0) by {
                lemma_fundamental_div_mod_converse(0, m, 0, 0);
            }
            assert(0int / m == 0) by {
                lemma_fundamental_div_mod_converse(0, m, 0, 0);
            }
            assert(handed.len() == 0);
            assert(pending + quads.last() =~= quads.last());
        } else {
            let q = (n - 2) / m;
            let r = (n - 2) % m;
            assert(n - 2 == q * m + r && 0 <= r < m) by {
                vstd::arithmetic::div_mod::lemma_fundamental_div_mod(n - 2, m);
            }
            if r == m - 1 {
                assert(n - 1 == (q + 1) * m + 0) by (nonlinear_arith)
                    requires
                        n - 2 == q * m + r,
                        r == m - 1,
                ;
                lemma_fundamental_div_mod_converse(n - 1, m, q + 1, 0);
                assert(handed.push(pending).flatten() == handed.flatten() + pending);
            } else {
                assert(n - 1 == q * m + (r + 1)) by (nonlinear_arith)
                    requires
                        n - 2 == q * m + r,
                ;
                lemma_fundamental_div_mod_converse(n - 1, m, q, r + 1);
                assert(handed.flatten() + (pending + quads.last()) =~= handed.flatten() + pending
                    + quads.last());
            }
        }
    } else {
        assert(quads.flatten() =~= Seq::<V>::empty());
        assert(Seq::<Seq<V>>::empty().flatten() =~= Seq::<V>::empty());
    }
}

/// Batching loses and reorders nothing, and bounds the number of GPU
/// submissions: drawing `n` quads through `push_quad` and then `finish`
/// submits every vertex once and in order (4 per quad), in exactly
/// ceil(n / capacity) submissions of at most `capacity` quads each.
pub proof fn lemma_batch_submissions<V>(quads: Seq<Seq<V>>, max_quads: nat)
    requires
        max_quads >= 1,
        forall|i: int| 0 <= i < quads.len() ==> (#[trigger] quads[i]).len() == 4,
    ensures
        submissions(quads, max_quads).flatten() == quads.flatten(),
        submissions(quads, max_quads).flatten().len() == 4 * quads.len(),
        submissions(quads, max_quads).len() == (quads.len() + max_quads - 1) as int
            / max_quads as int,
        forall|i: int|
            0 <= i < submissions(quads, max_quads).len() ==> 0 < (#[trigger] submissions(
                quads,
                max_quads,
            )[i]).len() <= 4 * max_quads,
{
    broadcast use Seq::lemma_flatten_push;

    lemma_push_run(quads, max_quads);
    let (handed, pending) = push_run(quads, max_quads);
    let n = quads.len() as int;
    let m = max_quads as int;
    lemma_flatten_len(quads);
    if n == 0 {
        lemma_fundamental_div_mod_converse(m - 1, m, 0, m - 1);
        assert(handed.flatten() + pending =~= handed.flatten());
    } else {
        let q = (n - 1) / m;
        let r = (n - 1) % m;
        assert(n - 1 == q * m + r && 0 <= r < m) by {
            vstd::arithmetic::div_mod::lemma_fundamental_div_mod(n - 1, m);
        }
        assert(n + m - 1 == (q + 1) * m + r) by (nonlinear_arith)
            requires
                n - 1 == q * m + r,
        ;
        lemma_fundamental_div_mod_converse(n + m - 1, m, q + 1, r);
        assert(pending.len() <= 4 * m) by (nonlinear_arith)
            requires
                pending.len() == 4 * (r + 1),
                r < m,
        ;
    }
}

proof fn lemma_flatten_len<V>(quads: Seq<Seq<V>>)
    requires
        forall|i: int| 0 <= i < quads.len() ==> (#[trigger] quads[i]).len() == 4,
    ensures
        quads.flatten().len() == 4 * quads.len(),
    decreases quads.len(),
{
    broadcast use Seq::lemma_flatten_push;

    if quads.len() > 0 {
        let prev = quads.drop_last();
        lemma_flatten_len(prev);
        assert(quads =~= prev.push(quads.last()));
    } else {
        assert(quads.flatten() =~= Seq::<V>::empty());
    }
}

} // verus!
