//! The network: an ordered stack of layers and one optional terminal loss
//! layer, driving the forward / backward / update protocol over the whole
//! stack.
//!
//! Layer order fixes both traversals: `predict` feeds each layer's output
//! to the next in order, `gradient` walks the same stack in reverse. The
//! contracts pin down exactly when each drive succeeds: a missing terminal
//! layer, a width that does not fit the stack, and a backward pass without
//! a matching forward pass are each a distinct recoverable error.

use vstd::prelude::*;

use crate::Error;
use crate::scalar::{div_bits, u32_bits};
use crate::tensor::{Tensor, argmax};

use crate::layers::common::{cross_entropy_bits, softmax_row_at};
use crate::layers::last_layer::LastLayer;
use crate::layers::layer::{Layer, backward_rel, forward_rel, same_params, stepped};
use crate::scalar::{F_ONE, f_is_nan, f_sign, f_val_le, sub_bits};
use crate::tensor::{first_max_idx, first_max_in, lemma_first_max_unique};

verus! {

/// The width a batch has after its first `k` layers, starting from `c0`
/// feature columns.
pub open spec fn cols_at(layers: Seq<Layer>, k: int, c0: int) -> int
    decreases k,
{
    if k <= 0 {
        c0
    } else {
        layers[k - 1].out_cols(cols_at(layers, k - 1, c0))
    }
}

/// Every layer of the stack accepts the width the layers before it
/// produce: the condition under which a whole forward traversal succeeds.
pub open spec fn chain_ok(layers: Seq<Layer>, c0: int) -> bool {
    forall|i: int|
        0 <= i < layers.len() ==> (#[trigger] layers[i]).fwd_ok(cols_at(layers, i, c0))
}

/// Some layer of the stack is a dropout layer.
pub open spec fn has_dropout(layers: Seq<Layer>) -> bool {
    exists|i: int| 0 <= i < layers.len() && (#[trigger] layers[i]).is_dropout()
}

/// Two stacks of the same length whose layers agree variant-wise in their
/// fixed widths: everything the chain conditions depend on.
pub open spec fn same_stack(a: Seq<Layer>, b: Seq<Layer>) -> bool {
    &&& a.len() == b.len()
    &&& forall|i: int|
        0 <= i < a.len() ==> (#[trigger] a[i]).shape_sig() == b[i].shape_sig() && a[i].is_dropout()
            == b[i].is_dropout()
}

/// The chain widths depend only on the shape signatures, so two stacks
/// that agree on them agree on every intermediate width.
pub proof fn lemma_cols_at_same(a: Seq<Layer>, b: Seq<Layer>, k: int, c0: int)
    requires
        same_stack(a, b),
        k <= a.len(),
    ensures
        cols_at(a, k, c0) == cols_at(b, k, c0),
    decreases (if k > 0 {
        k
    } else {
        0
    }),
{
    if k > 0 {
        lemma_cols_at_same(a, b, k - 1, c0);
    }
}

/// `chain_ok` too depends only on the shape signatures.
pub proof fn lemma_chain_ok_same(a: Seq<Layer>, b: Seq<Layer>, c0: int)
    requires
        same_stack(a, b),
    ensures
        chain_ok(a, c0) == chain_ok(b, c0),
{
    if chain_ok(a, c0) {
        assert forall|i: int| 0 <= i < b.len() implies (#[trigger] b[i]).fwd_ok(
            cols_at(b, i, c0),
        ) by {
            lemma_cols_at_same(a, b, i, c0);
            assert(a[i].fwd_ok(cols_at(a, i, c0)));
        }
    }
    if chain_ok(b, c0) {
        assert forall|i: int| 0 <= i < a.len() implies (#[trigger] a[i]).fwd_ok(
            cols_at(a, i, c0),
        ) by {
            lemma_cols_at_same(a, b, i, c0);
            assert(b[i].fwd_ok(cols_at(b, i, c0)));
        }
    }
}

/// The layer parameters of two equal-length stacks agree position by
/// position: nothing but forward/backward caches may differ.
pub open spec fn params_kept(a: Seq<Layer>, b: Seq<Layer>) -> bool {
    &&& a.len() == b.len()
    &&& forall|i: int| 0 <= i < a.len() ==> same_params(#[trigger] a[i], b[i])
}

/// A trace through the stack: `ms` holds the batch between every pair of
/// consecutive layers, starting at (the content of) `x` and ending at (the
/// content of) `y`, and each step is one layer's forward relation — the
/// layer as it was in `bef`, its cached mask read from `aft`.
pub open spec fn net_trace(
    bef: Seq<Layer>,
    aft: Seq<Layer>,
    x: Tensor,
    y: Tensor,
    if_train: bool,
    ms: Seq<Tensor>,
) -> bool {
    &&& aft.len() == bef.len()
    &&& ms.len() == bef.len() + 1
    &&& x.same_content(ms[0])
    &&& ms[bef.len() as int].same_content(y)
    &&& forall|k: int|
        0 <= k < bef.len() ==> forward_rel(bef[k], aft[k], ms[k], #[trigger] ms[k + 1], if_train)
}

/// `y` is the composite output of the whole stack on the batch `x`: some
/// trace of intermediate batches connects them. An empty stack returns the
/// batch itself.
pub open spec fn is_net_output(
    bef: Seq<Layer>,
    aft: Seq<Layer>,
    x: Tensor,
    y: Tensor,
    if_train: bool,
) -> bool {
    exists|ms: Seq<Tensor>| #[trigger] net_trace(bef, aft, x, y, if_train, ms)
}

/// `y` is the row-wise softmax of `p`.
pub open spec fn softmax_of(p: Tensor, y: Tensor) -> bool {
    &&& y.rows == p.rows
    &&& y.cols == p.cols
    &&& forall|i: int, j: int|
        0 <= i < y.rows && 0 <= j < y.cols ==> #[trigger] y.at(i, j) == softmax_row_at(
            p.row_seq(i),
            j,
        )
}

/// `d0` is the closed-form loss gradient `(ys - ts) / batch` of the cached
/// softmax output and targets: the seed of the backward traversal.
pub open spec fn loss_grad_of(ys: Tensor, ts: Tensor, d0: Tensor) -> bool {
    &&& d0.rows == ts.rows
    &&& d0.cols == ts.cols
    &&& forall|i: int, j: int|
        0 <= i < d0.rows && 0 <= j < d0.cols ==> #[trigger] d0.at(i, j) == div_bits(
            sub_bits(ys.at(i, j), ts.at(i, j)),
            u32_bits(ts.rows as u32),
        )
}

/// A trace of the backward traversal over the stack as `gradient` left it:
/// `ds[k]` is the gradient leaving layer `k` (with respect to its input),
/// `ds[len]` is (the content of) the seed `d0`, and each step is one
/// layer's backward relation — which for an affine layer also pins the
/// parameter gradients now cached in the stack.
pub open spec fn grad_trace(layers: Seq<Layer>, d0: Tensor, ds: Seq<Tensor>) -> bool {
    &&& ds.len() == layers.len() + 1
    &&& d0.same_content(ds[layers.len() as int])
    &&& forall|k: int| 0 <= k < layers.len() ==> backward_rel(layers[k], ds[k + 1], #[trigger] ds[k])
}

/// The stack's cached gradients are exactly one reverse traversal seeded
/// by `d0`.
pub open spec fn is_grad_chain(layers: Seq<Layer>, d0: Tensor) -> bool {
    exists|ds: Seq<Tensor>| #[trigger] grad_trace(layers, d0, ds)
}

/// `s` is the consecutive row slice `src[start..end]`.
pub open spec fn is_row_slice(src: Tensor, start: int, end: int, s: Tensor) -> bool {
    &&& s.wf()
    &&& s.rows == end - start
    &&& s.cols == src.cols
    &&& forall|i: int, j: int|
        0 <= i < s.rows && 0 <= j < s.cols ==> #[trigger] s.at(i, j) == src.at(start + i, j)
}

/// The count, over the first `k` rows, of rows whose first-maximum index
/// of the prediction equals the target's: the numerator of `accuracy`.
pub open spec fn match_count(p: Tensor, t: Tensor, k: int) -> int
    decreases k,
{
    if k <= 0 {
        0
    } else {
        match_count(p, t, k - 1) + (if first_max_idx(p.row_seq(k - 1)) == first_max_idx(
            t.row_seq(k - 1),
        ) {
            1int
        } else {
            0int
        })
    }
}

/// The match count over every compared row: predictions and targets are
/// zipped, so a longer batch's trailing rows are not compared.
pub open spec fn argmax_matches(p: Tensor, t: Tensor) -> int {
    match_count(
        p,
        t,
        if p.rows <= t.rows {
            p.rows as int
        } else {
            t.rows as int
        },
    )
}

/// Everything a successful `loss` drive guarantees, from the state `pre`
/// it started in to the state `post` it left: parameters kept, and the
/// terminal layer caching the targets, the row-wise softmax of the
/// stack's composite prediction, and their batch-mean cross-entropy `l`.
pub open spec fn loss_post(
    pre: Network,
    post: Network,
    x: Tensor,
    t: Tensor,
    if_train: bool,
    l: u64,
) -> bool {
    &&& post.wf()
    &&& same_stack(pre.layers@, post.layers@)
    &&& params_kept(pre.layers@, post.layers@)
    &&& pre.loss_ok(x, t)
    &&& post.last_layer matches Some(ll) && ((ll.sm().y, ll.sm().t) matches (Some(ys), Some(ts))
        && ll.sm().loss == Some(l) && ts.rows == t.rows && ts.cols == t.cols && (forall|
        i: int,
        j: int,
    |
        0 <= i < ts.rows && 0 <= j < ts.cols ==> #[trigger] ts.at(i, j) == t.at(i, j)) && l
        == cross_entropy_bits(ys, ts) && (exists|p: Tensor|
        #[trigger] is_net_output(pre.layers@, post.layers@, x, p, if_train) && softmax_of(p, ys)))
}

/// Everything a successful `update` drive guarantees: every affine layer
/// stepped by its own cached gradients and learning rate, every other
/// layer untouched, the terminal layer untouched.
pub open spec fn update_post(pre: Network, post: Network) -> bool {
    &&& post.wf()
    &&& same_stack(pre.layers@, post.layers@)
    &&& post.last_layer == pre.last_layer
    &&& forall|i: int| 0 <= i < pre.layers@.len() ==> (#[trigger] pre.layers@[i]).upd_ok()
    &&& forall|i: int|
        0 <= i < pre.layers@.len() ==> match pre.layers@[i] {
            Layer::Affine(a) => (#[trigger] post.layers@[i]) matches Layer::Affine(b) && stepped(
                a,
                b,
            ),
            _ => post.layers@[i] == pre.layers@[i],
        }
}

/// Everything a successful `gradient` drive guarantees: `loss` ran (the
/// terminal caches hold the targets and the softmax of the composite
/// prediction), parameters are untouched, and the stack's cached
/// parameter gradients are exactly one reverse traversal seeded by the
/// closed-form loss gradient.
pub open spec fn gradient_post(
    pre: Network,
    post: Network,
    x: Tensor,
    t: Tensor,
    if_train: bool,
) -> bool {
    &&& post.wf()
    &&& same_stack(pre.layers@, post.layers@)
    &&& params_kept(pre.layers@, post.layers@)
    &&& pre.loss_ok(x, t)
    &&& (if_train || !has_dropout(pre.layers@))
    &&& forall|i: int| 0 <= i < post.layers@.len() ==> (#[trigger] post.layers@[i]).upd_ok()
    &&& post.last_layer matches Some(ll) && ((ll.sm().y, ll.sm().t) matches (Some(ys), Some(ts))
        && ts.rows == t.rows && ts.cols == t.cols && (forall|i: int, j: int|
        0 <= i < ts.rows && 0 <= j < ts.cols ==> #[trigger] ts.at(i, j) == t.at(i, j)) && (exists|
        p: Tensor,
    |
        #[trigger] is_net_output(pre.layers@, post.layers@, x, p, if_train) && softmax_of(p, ys))
        && (exists|d0: Tensor| #[trigger] is_grad_chain(post.layers@, d0) && loss_grad_of(ys, ts, d0)))
}

/// Everything a successful `accuracy` drive guarantees: parameters kept,
/// and the result is the fraction of compared rows whose first-maximum
/// prediction index equals the target's, over the batch size — a value in
/// [0, 1] whenever the batch is non-empty.
pub open spec fn accuracy_post(
    pre: Network,
    post: Network,
    x: Tensor,
    t: Tensor,
    if_train: bool,
    a: u64,
) -> bool {
    &&& post.wf()
    &&& same_stack(pre.layers@, post.layers@)
    &&& params_kept(pre.layers@, post.layers@)
    &&& post.last_layer == pre.last_layer
    &&& exists|p: Tensor|
        {
            &&& #[trigger] is_net_output(pre.layers@, post.layers@, x, p, if_train)
            &&& 0 <= argmax_matches(p, t) <= x.rows
            &&& a == div_bits(u32_bits(argmax_matches(p, t) as u32), u32_bits(x.rows as u32))
            &&& x.rows >= 1 ==> !f_is_nan(a) && f_sign(a) == 0 && f_val_le(a, F_ONE)
        }
}

/// One training step on one batch: a gradient pass in training mode, then
/// one update step, through the intermediate state the gradient pass left.
pub open spec fn train_step(pre: Network, post: Network, bx: Tensor, bt: Tensor) -> bool {
    exists|m: Network| #[trigger] gradient_post(pre, m, bx, bt, true) && update_post(m, post)
}

/// The `k`-th batch step of an epoch: some pair of row slices of the
/// training set, `batch_size` rows from offset `k * batch_size`, took the
/// network from `pre` to `post` by one training step.
pub open spec fn batch_step_at(
    pre: Network,
    post: Network,
    trx: Tensor,
    trt: Tensor,
    bs: int,
    k: int,
) -> bool {
    exists|bx: Tensor, bt: Tensor|
        is_row_slice(trx, k * bs, (k + 1) * bs, bx) && is_row_slice(trt, k * bs, (k + 1) * bs, bt)
            && #[trigger] train_step(pre, post, bx, bt)
}

/// The full trace of one epoch: `ns` walks from `pre` through one
/// gradient-and-update step per consecutive batch (the trailing remainder
/// dropped, nothing shuffled), then the four whole-set evaluations whose
/// values the report holds — training-set loss and accuracy in training
/// mode, test-set loss and accuracy in evaluation mode, in that order.
pub open spec fn epoch_trace(
    pre: Network,
    post: Network,
    rep: EpochReport,
    trx: Tensor,
    trt: Tensor,
    tex: Tensor,
    tet: Tensor,
    bs: int,
    ns: Seq<Network>,
) -> bool {
    let nb = trx.rows as int / bs;
    &&& ns.len() == nb + 5
    &&& ns[0] == pre
    &&& ns[nb + 4] == post
    &&& forall|k: int|
        0 <= k < nb ==> #[trigger] batch_step_at(ns[k], ns[k + 1], trx, trt, bs, k)
    &&& loss_post(ns[nb], ns[nb + 1], trx, trt, true, rep.train_loss)
    &&& loss_post(ns[nb + 1], ns[nb + 2], tex, tet, false, rep.test_loss)
    &&& accuracy_post(ns[nb + 2], ns[nb + 3], trx, trt, true, rep.train_accuracy)
    &&& accuracy_post(ns[nb + 3], ns[nb + 4], tex, tet, false, rep.test_accuracy)
}

/// Some trace realises the epoch.
pub open spec fn epoch_rel(
    pre: Network,
    post: Network,
    rep: EpochReport,
    trx: Tensor,
    trt: Tensor,
    tex: Tensor,
    tet: Tensor,
    bs: int,
) -> bool {
    exists|ns: Seq<Network>| #[trigger] epoch_trace(pre, post, rep, trx, trt, tex, tet, bs, ns)
}

/// The whole training run: a chain of network states, one epoch apart,
/// whose `k`-th step produced the `k`-th report.
pub open spec fn train_trace(
    pre: Network,
    post: Network,
    reps: Seq<EpochReport>,
    trx: Tensor,
    trt: Tensor,
    tex: Tensor,
    tet: Tensor,
    bs: int,
    es: Seq<Network>,
) -> bool {
    &&& es.len() == reps.len() + 1
    &&& es[0] == pre
    &&& es[reps.len() as int] == post
    &&& forall|k: int|
        0 <= k < reps.len() ==> epoch_rel(#[trigger] es[k], es[k + 1], reps[k], trx, trt, tex, tet, bs)
}

/// Some chain of states realises the run.
pub open spec fn train_evolution(
    pre: Network,
    post: Network,
    reps: Seq<EpochReport>,
    trx: Tensor,
    trt: Tensor,
    tex: Tensor,
    tet: Tensor,
    bs: int,
) -> bool {
    exists|es: Seq<Network>| #[trigger] train_trace(pre, post, reps, trx, trt, tex, tet, bs, es)
}

/// A composite-output trace survives changes that touch no dropout layer
/// in `aft`: only the train-mode dropout arm of `forward_rel` reads the
/// after-state, for its cached mask.
pub proof fn lemma_net_output_stable(
    bef: Seq<Layer>,
    aft1: Seq<Layer>,
    aft2: Seq<Layer>,
    x: Tensor,
    y: Tensor,
    if_train: bool,
)
    requires
        is_net_output(bef, aft1, x, y, if_train),
        aft2.len() == aft1.len(),
        forall|j: int| 0 <= j < bef.len() && (#[trigger] bef[j]).is_dropout() ==> aft2[j] == aft1[j],
    ensures
        is_net_output(bef, aft2, x, y, if_train),
{
    let ms = choose|ms: Seq<Tensor>| #[trigger] net_trace(bef, aft1, x, y, if_train, ms);
    assert forall|k: int| 0 <= k < bef.len() implies forward_rel(
        bef[k],
        aft2[k],
        ms[k],
        #[trigger] ms[k + 1],
        if_train,
    ) by {
        assert(forward_rel(bef[k], aft1[k], ms[k], ms[k + 1], if_train));
    }
    assert(net_trace(bef, aft2, x, y, if_train, ms));
}

/// What one training epoch reports: loss and accuracy over the whole
/// training set (training mode) and the whole test set (evaluation mode).
#[derive(Clone, Copy, Debug, PartialEq, Eq, Structural)]
pub struct EpochReport {
    pub train_loss: u64,
    pub train_accuracy: u64,
    pub test_loss: u64,
    pub test_accuracy: u64,
}

/// An ordered stack of layers and at most one terminal loss layer.
pub struct Network {
    pub layers: Vec<Layer>,
    pub last_layer: Option<LastLayer>,
}

impl Network {
    /// Every layer of the stack, and the terminal layer if set, is
    /// well-formed.
    pub open spec fn wf(self) -> bool {
        &&& forall|i: int| 0 <= i < self.layers.len() ==> (#[trigger] self.layers[i]).wf()
        &&& (self.last_layer matches Some(l) ==> l.wf())
    }

    /// An empty network: no layers, no terminal layer.
    pub fn new() -> (r: Self)
        ensures
            r.wf(),
            r.layers@.len() == 0,
            r.last_layer is None,
    {
        Network { layers: Vec::new(), last_layer: None }
    }

    /// The network with one more layer at the end of the stack.
    pub fn add_layer(self, layer: Layer) -> (r: Self)
        requires
            layer.wf(),
        ensures
            r.layers@ == self.layers@.push(layer),
            r.last_layer == self.last_layer,
            self.wf() ==> r.wf(),
    {
        let mut n = self;
        n.layers.push(layer);
        n
    }

    /// The network with its terminal loss layer set.
    pub fn set_last_layer(self, last_layer: LastLayer) -> (r: Self)
        requires
            last_layer.wf(),
        ensures
            r.layers@ == self.layers@,
            r.last_layer == Some(last_layer),
            self.wf() ==> r.wf(),
    {
        let mut n = self;
        n.last_layer = Some(last_layer);
        n
    }

    /// The forward traversal: each layer's output is the next layer's
    /// input, in stack order. Succeeds exactly when every layer accepts
    /// the width it is handed; on success every layer has cached what its
    /// backward pass needs — except dropout layers in evaluation mode,
    /// which cache nothing and cannot be backward-stepped.
    #[verifier::rlimit(60)]
    pub fn predict(&mut self, x: &Tensor, if_train: bool) -> (r: Result<Tensor, Error>)
        requires
            x.wf(),
            old(self).wf(),
        ensures
            final(self).wf(),
            final(self).last_layer == old(self).last_layer,
            same_stack(old(self).layers@, final(self).layers@),
            r is Ok <==> chain_ok(old(self).layers@, x.cols as int),
            r matches Err(e) ==> e == Error::ShapeMismatch,
            r matches Ok(y) ==> y.wf() && y.rows == x.rows && y.cols as int == cols_at(
                old(self).layers@,
                old(self).layers@.len() as int,
                x.cols as int,
            ),
            r is Ok ==> forall|i: int|
                0 <= i < old(self).layers@.len() && (if_train || !old(
                    self,
                ).layers@[i].is_dropout()) ==> (#[trigger] final(self).layers@[i]).bwd_ok(
                    x.rows as int,
                    cols_at(old(self).layers@, i + 1, x.cols as int),
                ),
            r is Ok && !if_train ==> forall|i: int|
                0 <= i < old(self).layers@.len() && old(self).layers@[i].is_dropout() ==> (
                #[trigger] final(self).layers@[i]).never_ready(),
            params_kept(old(self).layers@, final(self).layers@),
            r matches Ok(y) ==> is_net_output(
                old(self).layers@,
                final(self).layers@,
                *x,
                y,
                if_train,
            ),
    {
        let ghost orig = self.layers@;
        let ghost c0 = x.cols as int;
        let mut cur = x.duplicate();
        let ghost mut ms: Seq<Tensor> = Seq::empty().push(cur);
        let mut failed = false;
        let n = self.layers.len();
        let mut i: usize = 0;
        while i < n
            invariant
                i <= n,
                x.wf(),
                n == self.layers@.len(),
                orig.len() == n,
                c0 == x.cols as int,
                forall|j: int| i <= j < n ==> #[trigger] self.layers@[j] == orig[j],
                forall|j: int| 0 <= j < n ==> (#[trigger] self.layers@[j]).wf(),
                forall|j: int|
                    0 <= j < i ==> (#[trigger] self.layers@[j]).shape_sig() == orig[j].shape_sig()
                        && self.layers@[j].is_dropout() == orig[j].is_dropout(),
                self.last_layer == old(self).last_layer,
                self.last_layer matches Some(l) ==> l.wf(),
                !failed ==> cur.wf() && cur.rows == x.rows && cur.cols as int == cols_at(
                    orig,
                    i as int,
                    c0,
                ),
                !failed ==> forall|j: int|
                    0 <= j < i ==> (#[trigger] orig[j]).fwd_ok(cols_at(orig, j, c0)),
                failed ==> !chain_ok(orig, c0),
                !failed ==> forall|j: int|
                    0 <= j < i && (if_train || !orig[j].is_dropout()) ==> (
                    #[trigger] self.layers@[j]).bwd_ok(x.rows as int, cols_at(orig, j + 1, c0)),
                !failed && !if_train ==> forall|j: int|
                    0 <= j < i && orig[j].is_dropout() ==> (
                    #[trigger] self.layers@[j]).never_ready(),
                forall|j: int| 0 <= j < i ==> same_params(#[trigger] orig[j], self.layers@[j]),
                !failed ==> ms.len() == i + 1,
                !failed ==> x.same_content(ms[0]),
                !failed ==> ms[i as int] == cur,
                !failed ==> forall|k: int|
                    0 <= k < i ==> forward_rel(
                        orig[k],
                        self.layers@[k],
                        ms[k],
                        #[trigger] ms[k + 1],
                        if_train,
                    ),
            decreases n - i,
        {
            if !failed {
                let ghost before = self.layers@;
                let mut layer = self.layers.remove(i);
                let step = layer.forward(&cur, if_train);
                let ghost lv = layer;
                self.layers.insert(i, layer);
                proof {
                    assert(self.layers@ =~= before.update(i as int, lv));
                }
                match step {
                    Ok(y) => {
                        proof {
                            ms = ms.push(y);
                        }
                        cur = y;
                    },
                    Err(_) => {
                        proof {
                            assert(!orig[i as int].fwd_ok(cols_at(orig, i as int, c0)));
                        }
                        failed = true;
                    },
                }
            }
            i += 1;
        }
        if failed {
            return Err(Error::ShapeMismatch);
        }
        proof {
            assert(chain_ok(orig, c0));
            assert(net_trace(orig, self.layers@, *x, cur, if_train, ms));
        }
        Ok(cur)
    }

    /// Everything a `loss` drive needs to succeed: a terminal layer, a
    /// stack that accepts the batch, targets of the predicted shape, and
    /// something to normalise over when the batch is non-empty.
    pub open spec fn loss_ok(self, x: Tensor, t: Tensor) -> bool {
        &&& self.last_layer is Some
        &&& chain_ok(self.layers@, x.cols as int)
        &&& t.rows == x.rows
        &&& t.cols as int == cols_at(self.layers@, self.layers@.len() as int, x.cols as int)
        &&& (x.rows > 0 ==> cols_at(self.layers@, self.layers@.len() as int, x.cols as int) > 0)
    }

    /// `predict`, then the terminal layer's loss of the prediction against
    /// the targets. Fails with `MissingLastLayer` when no terminal layer is
    /// set, and with `ShapeMismatch` when the stack or the targets do not
    /// fit; on success the terminal layer holds the cached softmax output,
    /// targets and loss, and every layer the backward pass will visit is
    /// ready — except dropout layers in evaluation mode.
    pub fn loss(&mut self, x: &Tensor, t: &Tensor, if_train: bool) -> (r: Result<u64, Error>)
        requires
            x.wf(),
            t.wf(),
            old(self).wf(),
            x.rows <= u32::MAX,
        ensures
            final(self).wf(),
            same_stack(old(self).layers@, final(self).layers@),
            final(self).last_layer is Some <==> old(self).last_layer is Some,
            r is Ok <==> old(self).loss_ok(*x, *t),
            old(self).last_layer is None ==> r == Result::<u64, Error>::Err(
                Error::MissingLastLayer,
            ) && *final(self) == *old(self),
            old(self).last_layer is Some && r is Err ==> r == Result::<u64, Error>::Err(
                Error::ShapeMismatch,
            ),
            r matches Ok(l) ==> loss_post(*old(self), *final(self), *x, *t, if_train, l),
            params_kept(old(self).layers@, final(self).layers@),
            r matches Ok(l) ==> (final(self).last_layer matches Some(ll) && ((ll.sm().y,
            ll.sm().t) matches (Some(ys), Some(ts)) && ys.rows == x.rows && ys.cols == t.cols)),
            r is Ok ==> forall|i: int|
                0 <= i < old(self).layers@.len() && (if_train || !old(
                    self,
                ).layers@[i].is_dropout()) ==> (#[trigger] final(self).layers@[i]).bwd_ok(
                    x.rows as int,
                    cols_at(old(self).layers@, i + 1, x.cols as int),
                ),
            r is Ok && !if_train ==> forall|i: int|
                0 <= i < old(self).layers@.len() && old(self).layers@[i].is_dropout() ==> (
                #[trigger] final(self).layers@[i]).never_ready(),
    {
        if self.last_layer.is_none() {
            return Err(Error::MissingLastLayer);
        }
        let y = match self.predict(x, if_train) {
            Ok(y) => y,
            Err(_) => {
                return Err(Error::ShapeMismatch);
            },
        };
        let mut ll = match self.last_layer.take() {
            Some(l) => l,
            None => {
                return Err(Error::MissingLastLayer);
            },
        };
        let res = ll.forward(&y, t);
        self.last_layer = Some(ll);
        match res {
            Ok(l) => Ok(l),
            Err(_) => Err(Error::ShapeMismatch),
        }
    }

    /// `predict`, then the fraction of rows whose predicted class — the
    /// first maximum of the prediction row — is the target's. The result
    /// is some match count over the batch divided by the batch size; which
    /// rows match depends on the prediction, so only the shape of the
    /// quotient is promised here, while `argmax` itself carries the exact
    /// tie-break and NaN order.
    #[verifier::loop_isolation(false)]
    pub fn accuracy(&mut self, x: &Tensor, t: &Tensor, if_train: bool) -> (r: Result<u64, Error>)
        requires
            x.wf(),
            t.wf(),
            old(self).wf(),
            x.rows <= u32::MAX,
        ensures
            final(self).wf(),
            same_stack(old(self).layers@, final(self).layers@),
            final(self).last_layer == old(self).last_layer,
            r is Ok <==> (chain_ok(old(self).layers@, x.cols as int) && (x.rows > 0 ==> cols_at(
                old(self).layers@,
                old(self).layers@.len() as int,
                x.cols as int,
            ) > 0) && (t.rows > 0 ==> t.cols > 0)),
            r matches Err(e) ==> e == Error::ShapeMismatch,
            params_kept(old(self).layers@, final(self).layers@),
            r matches Ok(a) ==> accuracy_post(*old(self), *final(self), *x, *t, if_train, a),
    {
        let y = match self.predict(x, if_train) {
            Ok(y) => y,
            Err(_) => {
                return Err(Error::ShapeMismatch);
            },
        };
        let y_index = match argmax(&y, 1) {
            Ok(v) => v,
            Err(_) => {
                return Err(Error::ShapeMismatch);
            },
        };
        let t_index = match argmax(t, 1) {
            Ok(v) => v,
            Err(_) => {
                return Err(Error::ShapeMismatch);
            },
        };
        let m = if y_index.len() < t_index.len() {
            y_index.len()
        } else {
            t_index.len()
        };
        let mut count: usize = 0;
        let mut idx: usize = 0;
        while idx < m
            invariant
                idx <= m,
                count <= idx,
                count == match_count(y, *t, idx as int),
            decreases m - idx,
        {
            proof {
                let s1 = y.row_seq(idx as int);
                let s2 = t.row_seq(idx as int);
                assert(first_max_in(s1, y_index[idx as int] as int));
                assert(first_max_in(s1, first_max_idx(s1)));
                lemma_first_max_unique(s1, y_index[idx as int] as int, first_max_idx(s1));
                assert(first_max_in(s2, t_index[idx as int] as int));
                assert(first_max_in(s2, first_max_idx(s2)));
                lemma_first_max_unique(s2, t_index[idx as int] as int, first_max_idx(s2));
            }
            if y_index[idx] == t_index[idx] {
                count += 1;
            }
            idx += 1;
        }
        proof {
            assert(count == argmax_matches(y, *t));
        }
        let a = crate::scalar::f_div(
            crate::scalar::f_from_u32(count as u32),
            crate::scalar::f_from_u32(x.rows as u32),
        );
        Ok(a)
    }

    /// The whole training step's differentiation: `loss` to fill every
    /// forward cache, the terminal layer's `backward` for the initial
    /// gradient, then every layer's `backward` in reverse stack order,
    /// which leaves every affine layer holding its parameter gradients.
    /// Succeeds exactly when `loss` does and the backward passes find
    /// their caches: in evaluation mode a dropout layer has none.
    #[verifier::loop_isolation(false)]
    #[verifier::rlimit(100)]
    pub fn gradient(&mut self, x: &Tensor, t: &Tensor, if_train: bool) -> (r: Result<(), Error>)
        requires
            x.wf(),
            t.wf(),
            old(self).wf(),
            x.rows <= u32::MAX,
        ensures
            final(self).wf(),
            same_stack(old(self).layers@, final(self).layers@),
            final(self).last_layer is Some <==> old(self).last_layer is Some,
            r is Ok <==> (old(self).loss_ok(*x, *t) && (if_train || !has_dropout(
                old(self).layers@,
            ))),
            old(self).last_layer is None ==> r == Result::<(), Error>::Err(Error::MissingLastLayer),
            old(self).last_layer is Some && !old(self).loss_ok(*x, *t) ==> r == Result::<
                (),
                Error,
            >::Err(Error::ShapeMismatch),
            old(self).loss_ok(*x, *t) && !if_train && has_dropout(old(self).layers@) ==> r
                == Result::<(), Error>::Err(Error::BackwardBeforeForward),
            r is Ok ==> forall|i: int|
                0 <= i < final(self).layers@.len() ==> (#[trigger] final(self).layers@[i]).upd_ok(),
            params_kept(old(self).layers@, final(self).layers@),
            r is Ok ==> gradient_post(*old(self), *final(self), *x, *t, if_train),
    {
        let ghost orig = old(self).layers@;
        let ghost c0 = x.cols as int;
        let mut lval: u64 = 0;
        match self.loss(x, t, if_train) {
            Ok(l) => {
                lval = l;
            },
            Err(e) => {
                return Err(e);
            },
        }
        let ghost midn = *self;
        let mut ll = match self.last_layer.take() {
            Some(l) => l,
            None => {
                return Err(Error::MissingLastLayer);
            },
        };
        let bres = ll.backward();
        self.last_layer = Some(ll);
        let mut dout = match bres {
            Ok(g) => g,
            Err(e) => {
                return Err(e);
            },
        };
        let ghost d0v = dout;
        let ghost mut rds: Seq<Tensor> = Seq::empty().push(dout);
        let ghost mid = self.layers@;
        let n = self.layers.len();
        let mut i: usize = n;
        while i > 0
            invariant
                i <= n,
                x.wf(),
                n == self.layers@.len(),
                orig.len() == n,
                c0 == x.cols as int,
                chain_ok(orig, c0),
                same_stack(orig, mid),
                self.last_layer is Some,
                self.last_layer matches Some(l) ==> l.wf(),
                forall|j: int| 0 <= j < i ==> #[trigger] self.layers@[j] == mid[j],
                forall|j: int| 0 <= j < n ==> (#[trigger] self.layers@[j]).wf(),
                forall|j: int|
                    i <= j < n ==> (#[trigger] self.layers@[j]).shape_sig() == mid[j].shape_sig()
                        && self.layers@[j].is_dropout() == mid[j].is_dropout(),
                forall|j: int| i <= j < n ==> (#[trigger] self.layers@[j]).upd_ok(),
                !if_train ==> forall|j: int| i <= j < n ==> !(#[trigger] orig[j]).is_dropout(),
                forall|j: int|
                    0 <= j < i && (if_train || !orig[j].is_dropout()) ==> (
                    #[trigger] self.layers@[j]).bwd_ok(x.rows as int, cols_at(orig, j + 1, c0)),
                !if_train ==> forall|j: int|
                    0 <= j < i && orig[j].is_dropout() ==> (
                    #[trigger] self.layers@[j]).never_ready(),
                dout.wf(),
                dout.rows == x.rows,
                dout.cols as int == cols_at(orig, i as int, c0),
                self.last_layer == midn.last_layer,
                forall|j: int| i <= j < n ==> same_params(#[trigger] mid[j], self.layers@[j]),
                forall|j: int|
                    i <= j < n && !(mid[j] is Affine) ==> #[trigger] self.layers@[j] == mid[j],
                rds.len() == n - i + 1,
                rds[0] == d0v,
                rds[(n - i) as int] == dout,
                forall|j: int|
                    0 <= j < n - i ==> backward_rel(
                        self.layers@[n - 1 - j],
                        rds[j],
                        #[trigger] rds[j + 1],
                    ),
            decreases i,
        {
            i -= 1;
            let ghost before = self.layers@;
            let mut layer = self.layers.remove(i);
            let step = layer.backward(&dout);
            let ghost lv = layer;
            self.layers.insert(i, layer);
            proof {
                assert(self.layers@ =~= before.update(i as int, lv));
            }
            proof {
                assert forall|j: int| 0 <= j < orig.len() implies (
                #[trigger] self.layers@[j]).shape_sig() == orig[j].shape_sig()
                    && self.layers@[j].is_dropout() == orig[j].is_dropout() by {
                    assert(mid[j].shape_sig() == orig[j].shape_sig() && mid[j].is_dropout()
                        == orig[j].is_dropout());
                }
                assert(same_stack(orig, self.layers@));
            }
            match step {
                Ok(g) => {
                    proof {
                        rds = rds.push(g);
                    }
                    dout = g;
                },
                Err(e) => {
                    return Err(e);
                },
            }
        }
        proof {
            assert forall|j: int| 0 <= j < orig.len() implies (
            #[trigger] self.layers@[j]).shape_sig() == orig[j].shape_sig()
                && self.layers@[j].is_dropout() == orig[j].is_dropout() by {
                assert(mid[j].shape_sig() == orig[j].shape_sig() && mid[j].is_dropout()
                    == orig[j].is_dropout());
            }
            assert(same_stack(orig, self.layers@));
            assert forall|j: int| 0 <= j < orig.len() implies same_params(
                #[trigger] orig[j],
                self.layers@[j],
            ) by {
                assert(same_params(orig[j], mid[j]) && same_params(mid[j], self.layers@[j]));
            }
            let ds = Seq::new((n + 1) as nat, |k: int| rds[n - k]);
            assert forall|k: int| 0 <= k < n implies backward_rel(
                self.layers@[k],
                ds[k + 1],
                #[trigger] ds[k],
            ) by {
                assert(backward_rel(self.layers@[n - 1 - (n - 1 - k)], rds[n - 1 - k], rds[n - k]));
            }
            assert(grad_trace(self.layers@, d0v, ds));
            assert(is_grad_chain(self.layers@, d0v));
            if let Some(llg) = midn.last_layer {
                if let (Some(ys), Some(ts)) = (llg.sm().y, llg.sm().t) {
                    let p = choose|p: Tensor|
                        #[trigger] is_net_output(orig, midn.layers@, *x, p, if_train)
                            && softmax_of(p, ys);
                    assert forall|j: int|
                        0 <= j < orig.len() && (#[trigger] orig[j]).is_dropout()
                            implies self.layers@[j] == midn.layers@[j] by {
                        assert(!(mid[j] is Affine));
                    }
                    lemma_net_output_stable(
                        orig,
                        midn.layers@,
                        self.layers@,
                        *x,
                        p,
                        if_train,
                    );
                }
            }
        }
        Ok(())
    }

    /// How one network-level update step may leave a layer: an affine
    /// layer stepped by its cached gradients (or untouched, when the step
    /// failed earlier), every other layer exactly as it was.
    pub open spec fn upd_rel(a: Layer, b: Layer) -> bool {
        match a {
            Layer::Affine(aa) => b matches Layer::Affine(bb) && (stepped(aa, bb) || bb == aa),
            _ => b == a,
        }
    }

    /// One gradient-descent step on every layer, in stack order. Succeeds
    /// exactly when every affine layer holds cached gradients; on success
    /// every affine layer is stepped and every other layer untouched.
    #[verifier::loop_isolation(false)]
    pub fn update(&mut self) -> (r: Result<(), Error>)
        requires
            old(self).wf(),
        ensures
            final(self).wf(),
            same_stack(old(self).layers@, final(self).layers@),
            final(self).last_layer == old(self).last_layer,
            r is Ok <==> forall|i: int|
                0 <= i < old(self).layers@.len() ==> (#[trigger] old(self).layers@[i]).upd_ok(),
            r matches Err(e) ==> e == Error::BackwardBeforeForward,
            forall|i: int|
                0 <= i < old(self).layers@.len() ==> Network::upd_rel(
                    old(self).layers@[i],
                    #[trigger] final(self).layers@[i],
                ),
            r is Ok ==> forall|i: int|
                0 <= i < old(self).layers@.len() ==> match old(self).layers@[i] {
                    Layer::Affine(a) => (#[trigger] final(self).layers@[i]) matches Layer::Affine(
                        b,
                    ) && stepped(a, b),
                    _ => final(self).layers@[i] == old(self).layers@[i],
                },
            r is Ok ==> update_post(*old(self), *final(self)),
    {
        let ghost orig = old(self).layers@;
        let n = self.layers.len();
        let mut i: usize = 0;
        while i < n
            invariant
                i <= n,
                n == self.layers@.len(),
                orig.len() == n,
                self.last_layer == old(self).last_layer,
                self.last_layer matches Some(l) ==> l.wf(),
                forall|j: int| i <= j < n ==> #[trigger] self.layers@[j] == orig[j],
                forall|j: int| 0 <= j < n ==> (#[trigger] self.layers@[j]).wf(),
                forall|j: int| 0 <= j < i ==> (#[trigger] orig[j]).upd_ok(),
                forall|j: int|
                    0 <= j < i ==> match orig[j] {
                        Layer::Affine(a) => (#[trigger] self.layers@[j]) matches Layer::Affine(b)
                            && stepped(a, b),
                        _ => self.layers@[j] == orig[j],
                    },
            decreases n - i,
        {
            let ghost before = self.layers@;
            let mut layer = self.layers.remove(i);
            let step = layer.update();
            let ghost lv = layer;
            self.layers.insert(i, layer);
            proof {
                assert(self.layers@ =~= before.update(i as int, lv));
            }
            proof {
                assert(same_stack(orig, self.layers@));
            }
            match step {
                Ok(()) => {},
                Err(e) => {
                    proof {
                        assert(!orig[i as int].upd_ok());
                    }
                    return Err(e);
                },
            }
            i += 1;
        }
        proof {
            assert(same_stack(orig, self.layers@));
        }
        Ok(())
    }

    /// Mini-batch gradient descent. Each epoch partitions the training set
    /// into consecutive batches of `batch_size` rows (a trailing remainder
    /// is dropped), runs `gradient` in training mode then `update` on each
    /// batch strictly in order, and then reports loss and accuracy over
    /// the whole training set (training mode) and the whole test set
    /// (evaluation mode). Succeeds exactly when there is nothing to do, or
    /// when both sets fit the network as `loss` demands; the values
    /// reported depend on the random initialisation and masks, so only
    /// their number is promised.
    #[verifier::loop_isolation(false)]
    #[verifier::rlimit(100)]
    pub fn train(
        &mut self,
        train_data: (&Tensor, &Tensor),
        test_data: (&Tensor, &Tensor),
        epoch: usize,
        batch_size: usize,
    ) -> (r: Result<Vec<EpochReport>, Error>)
        requires
            train_data.0.wf(),
            train_data.1.wf(),
            test_data.0.wf(),
            test_data.1.wf(),
            old(self).wf(),
            batch_size >= 1,
            train_data.0.rows <= u32::MAX,
            test_data.0.rows <= u32::MAX,
        ensures
            final(self).wf(),
            same_stack(old(self).layers@, final(self).layers@),
            final(self).last_layer is Some <==> old(self).last_layer is Some,
            r is Ok <==> (epoch == 0 || (old(self).loss_ok(*train_data.0, *train_data.1) && old(
                self,
            ).loss_ok(*test_data.0, *test_data.1))),
            r matches Ok(v) ==> v.len() == epoch,
            r matches Ok(v) ==> train_evolution(
                *old(self),
                *final(self),
                v@,
                *train_data.0,
                *train_data.1,
                *test_data.0,
                *test_data.1,
                batch_size as int,
            ),
    {
        let (train_x, train_t) = train_data;
        let (test_x, test_t) = test_data;
        let batch_number = train_x.rows / batch_size;
        let mut reports: Vec<EpochReport> = Vec::new();
        let ghost mut es: Seq<Network> = Seq::empty().push(*self);
        let mut e: usize = 0;
        while e < epoch
            invariant
                e <= epoch,
                reports.len() == e,
                self.wf(),
                same_stack(old(self).layers@, self.layers@),
                self.last_layer is Some <==> old(self).last_layer is Some,
                e > 0 ==> old(self).loss_ok(*train_x, *train_t) && old(self).loss_ok(
                    *test_x,
                    *test_t,
                ),
                es.len() == e + 1,
                es[0] == *old(self),
                es[e as int] == *self,
                forall|k: int|
                    0 <= k < e ==> epoch_rel(
                        #[trigger] es[k],
                        es[k + 1],
                        reports@[k],
                        *train_x,
                        *train_t,
                        *test_x,
                        *test_t,
                        batch_size as int,
                    ),
            decreases epoch - e,
        {
            let ghost epoch_start = *self;
            let ghost mut ns: Seq<Network> = Seq::empty().push(*self);
            let mut index: usize = 0;
            while index < batch_number
                invariant
                    index <= batch_number,
                    self.wf(),
                    same_stack(old(self).layers@, self.layers@),
                    self.last_layer is Some <==> old(self).last_layer is Some,
                    ns.len() == index + 1,
                    ns[0] == epoch_start,
                    ns[index as int] == *self,
                    forall|k: int|
                        0 <= k < index ==> #[trigger] batch_step_at(
                            ns[k],
                            ns[k + 1],
                            *train_x,
                            *train_t,
                            batch_size as int,
                            k,
                        ),
                decreases batch_number - index,
            {
                proof {
                    assert(index * batch_size + batch_size <= train_x.rows) by (nonlinear_arith)
                        requires
                            index < train_x.rows / batch_size,
                            batch_size >= 1,
                    ;
                }
                let start = index * batch_size;
                let end = start + batch_size;
                if end > train_t.rows {
                    proof {
                        assert(train_t.rows != train_x.rows);
                    }
                    return Err(Error::ShapeMismatch);
                }
                let batch_x = train_x.select_rows(start, end);
                let batch_t = train_t.select_rows(start, end);
                let ghost pre = *self;
                match self.gradient(&batch_x, &batch_t, true) {
                    Ok(()) => {},
                    Err(e2) => {
                        proof {
                            lemma_chain_ok_same(pre.layers@, old(self).layers@, train_x.cols as int);
                            lemma_cols_at_same(
                                pre.layers@,
                                old(self).layers@,
                                pre.layers@.len() as int,
                                train_x.cols as int,
                            );
                            assert(!old(self).loss_ok(*train_x, *train_t));
                        }
                        return Err(e2);
                    },
                }
                let ghost after_grad = *self;
                match self.update() {
                    Ok(()) => {},
                    Err(e2) => {
                        return Err(e2);
                    },
                }
                proof {
                    assert((index + 1) as int * batch_size as int == index as int
                        * batch_size as int + batch_size as int) by (nonlinear_arith);
                    assert(gradient_post(pre, after_grad, batch_x, batch_t, true));
                    assert(update_post(after_grad, *self));
                    assert(train_step(pre, *self, batch_x, batch_t));
                    assert(is_row_slice(
                        *train_x,
                        index as int * batch_size as int,
                        (index + 1) as int * batch_size as int,
                        batch_x,
                    ));
                    assert(batch_step_at(
                        pre,
                        *self,
                        *train_x,
                        *train_t,
                        batch_size as int,
                        index as int,
                    ));
                    ns = ns.push(*self);
                }
                index += 1;
            }
            let ghost pre = *self;
            proof {
                lemma_chain_ok_same(pre.layers@, old(self).layers@, train_x.cols as int);
                lemma_cols_at_same(
                    pre.layers@,
                    old(self).layers@,
                    pre.layers@.len() as int,
                    train_x.cols as int,
                );
                lemma_chain_ok_same(pre.layers@, old(self).layers@, test_x.cols as int);
                lemma_cols_at_same(
                    pre.layers@,
                    old(self).layers@,
                    pre.layers@.len() as int,
                    test_x.cols as int,
                );
            }
            let train_loss = match self.loss(train_x, train_t, true) {
                Ok(l) => l,
                Err(e2) => {
                    return Err(e2);
                },
            };
            let ghost pre2 = *self;
            proof {
                lemma_chain_ok_same(pre2.layers@, old(self).layers@, test_x.cols as int);
                lemma_cols_at_same(
                    pre2.layers@,
                    old(self).layers@,
                    pre2.layers@.len() as int,
                    test_x.cols as int,
                );
            }
            let test_loss = match self.loss(test_x, test_t, false) {
                Ok(l) => l,
                Err(e2) => {
                    return Err(e2);
                },
            };
            let ghost pre3 = *self;
            proof {
                lemma_chain_ok_same(pre3.layers@, old(self).layers@, train_x.cols as int);
                lemma_cols_at_same(
                    pre3.layers@,
                    old(self).layers@,
                    pre3.layers@.len() as int,
                    train_x.cols as int,
                );
            }
            let train_accuracy = match self.accuracy(train_x, train_t, true) {
                Ok(a) => a,
                Err(e2) => {
                    return Err(e2);
                },
            };
            let ghost pre4 = *self;
            proof {
                lemma_chain_ok_same(pre4.layers@, old(self).layers@, test_x.cols as int);
                lemma_cols_at_same(
                    pre4.layers@,
                    old(self).layers@,
                    pre4.layers@.len() as int,
                    test_x.cols as int,
                );
            }
            let test_accuracy = match self.accuracy(test_x, test_t, false) {
                Ok(a) => a,
                Err(e2) => {
                    return Err(e2);
                },
            };
            let rep = EpochReport { train_loss, train_accuracy, test_loss, test_accuracy };
            reports.push(rep);
            proof {
                let nb = train_x.rows as int / batch_size as int;
                let ns_full = ns.push(pre2).push(pre3).push(pre4).push(*self);
                assert(ns_full[nb] == pre && ns_full[nb + 1] == pre2 && ns_full[nb + 2] == pre3
                    && ns_full[nb + 3] == pre4 && ns_full[nb + 4] == *self);
                assert(loss_post(pre, pre2, *train_x, *train_t, true, rep.train_loss));
                assert(loss_post(pre2, pre3, *test_x, *test_t, false, rep.test_loss));
                assert(accuracy_post(pre3, pre4, *train_x, *train_t, true, rep.train_accuracy));
                assert(accuracy_post(pre4, *self, *test_x, *test_t, false, rep.test_accuracy));
                assert forall|k: int| 0 <= k < nb implies #[trigger] batch_step_at(
                    ns_full[k],
                    ns_full[k + 1],
                    *train_x,
                    *train_t,
                    batch_size as int,
                    k,
                ) by {
                    assert(batch_step_at(
                        ns[k],
                        ns[k + 1],
                        *train_x,
                        *train_t,
                        batch_size as int,
                        k,
                    ));
                }
                assert(epoch_trace(
                    epoch_start,
                    *self,
                    rep,
                    *train_x,
                    *train_t,
                    *test_x,
                    *test_t,
                    batch_size as int,
                    ns_full,
                ));
                assert(epoch_rel(
                    epoch_start,
                    *self,
                    rep,
                    *train_x,
                    *train_t,
                    *test_x,
                    *test_t,
                    batch_size as int,
                ));
                es = es.push(*self);
            }
            e += 1;
        }
        proof {
            assert(train_trace(
                *old(self),
                *self,
                reports@,
                *train_x,
                *train_t,
                *test_x,
                *test_t,
                batch_size as int,
                es,
            ));
        }
        Ok(reports)
    }
}

} // verus!
