//! A feedforward network of fully connected layers with the leaky rectifier
//! as activation, trained one example at a time by backpropagation.
use vstd::prelude::*;

use crate::fixed::{ONE, fx_mul};
use crate::matrix::{
    Matrix, activate_prime_spec, activate_spec, difference_spec, hadamard_spec,
    outer_update_spec, product_spec, scale_spec, sum_spec, transpose_spec,
};

verus! {

/// The ways a network refuses its arguments.
#[derive(Debug, Clone, Copy, PartialEq, Eq, Structural)]
pub enum NetworkError {
    /// The topology names fewer than two layers.
    Topology,
    /// An input or target is not a single row of the width of the first or
    /// last layer.
    TopologyMismatch,
}

/// A network with one weight matrix per connection between consecutive
/// layers and one bias row per layer after the input.
pub struct NeuralNetwork {
    topology: Vec<usize>,
    weights: Vec<Matrix>,
    bias: Vec<Matrix>,
    learning_rate: i64,
}

impl NeuralNetwork {
    /// The width of each layer, input first.
    pub closed spec fn layers(&self) -> Seq<usize> {
        self.topology@
    }

    /// The weight matrix of each connection.
    pub closed spec fn weight_matrices(&self) -> Seq<Matrix> {
        self.weights@
    }

    /// The bias row of each layer after the input.
    pub closed spec fn bias_rows(&self) -> Seq<Matrix> {
        self.bias@
    }

    /// The step size of a training update.
    pub closed spec fn rate(&self) -> i64 {
        self.learning_rate
    }

    /// The index of the last connection.
    pub open spec fn last(&self) -> int {
        self.layers().len() - 2
    }

    /// At least two layers; connection `i` has a `layers()[i]` by
    /// `layers()[i + 1]` weight matrix and a one by `layers()[i + 1]` bias row.
    pub open spec fn wf(&self) -> bool {
        let t = self.layers();
        &&& t.len() >= 2
        &&& self.weight_matrices().len() == t.len() - 1
        &&& self.bias_rows().len() == t.len() - 1
        &&& forall|i: int|
            0 <= i < t.len() - 1 ==> {
                let w = #[trigger] self.weight_matrices()[i];
                w.wf() && w.nrows() == t[i] && w.ncols() == t[i + 1]
            }
        &&& forall|i: int|
            0 <= i < t.len() - 1 ==> {
                let b = #[trigger] self.bias_rows()[i];
                b.wf() && b.nrows() == 1 && b.ncols() == t[i + 1]
            }
    }

    /// `x` is a single row as wide as the input layer.
    pub open spec fn accepts_input(&self, x: &Matrix) -> bool {
        x.nrows() == 1 && x.ncols() == self.layers()[0]
    }

    /// `y` is a single row as wide as the output layer.
    pub open spec fn accepts_target(&self, y: &Matrix) -> bool {
        y.nrows() == 1 && y.ncols() == self.layers()[self.layers().len() - 1]
    }

    /// The pre-activation of the layer after connection `i`, given the
    /// activation `prev` of the layer before it.
    pub open spec fn layer_pre(&self, prev: Seq<Seq<i64>>, i: int) -> Seq<Seq<i64>> {
        sum_spec(
            product_spec(prev, self.weight_matrices()[i]@, self.layers()[i + 1] as nat),
            self.bias_rows()[i]@,
        )
    }

    /// The activation of layer `k` on input `x`; layer zero echoes the input.
    pub open spec fn activation(&self, x: Seq<Seq<i64>>, k: nat) -> Seq<Seq<i64>>
        decreases k,
    {
        if k == 0 {
            x
        } else {
            activate_spec(self.layer_pre(self.activation(x, (k - 1) as nat), k - 1))
        }
    }

    /// The pre-activation of layer `k` on input `x`; layer zero echoes the
    /// input.
    pub open spec fn pre_activation(&self, x: Seq<Seq<i64>>, k: nat) -> Seq<Seq<i64>> {
        if k == 0 {
            x
        } else {
            self.layer_pre(self.activation(x, (k - 1) as nat), k - 1)
        }
    }

    /// What the network answers to input `x`: the activation of its last
    /// layer.
    pub open spec fn output(&self, x: Seq<Seq<i64>>) -> Seq<Seq<i64>> {
        self.activation(x, (self.layers().len() - 1) as nat)
    }

    /// The error signal of the output layer: the target minus the output,
    /// entrywise times the derivative of the activation at the output's
    /// pre-activation.
    pub open spec fn output_error(&self, x: Seq<Seq<i64>>, y: Seq<Seq<i64>>) -> Seq<Seq<i64>> {
        let top = (self.last() + 1) as nat;
        hadamard_spec(
            difference_spec(y, self.activation(x, top)),
            activate_prime_spec(self.pre_activation(x, top)),
        )
    }

    /// The weights of connection `i` after a training step on input `x`
    /// whose error signal at that connection is `e`.
    pub open spec fn trained_weights(&self, x: Seq<Seq<i64>>, e: Seq<Seq<i64>>, i: int) -> Seq<Seq<i64>> {
        outer_update_spec(self.weight_matrices()[i]@, self.activation(x, i as nat), e, self.rate())
    }

    /// The bias row of connection `i` after a training step whose error
    /// signal at that connection is `e`.
    pub open spec fn trained_bias(&self, e: Seq<Seq<i64>>, i: int) -> Seq<Seq<i64>> {
        sum_spec(self.bias_rows()[i]@, scale_spec(e, self.rate()))
    }

    /// The error signal at connection `i` of a training step on input `x` and
    /// target `y`. Below the last connection it is carried back through the
    /// weights of connection `i + 1` as that same step has already updated
    /// them.
    pub open spec fn error_signal(&self, x: Seq<Seq<i64>>, y: Seq<Seq<i64>>, i: int) -> Seq<Seq<i64>>
        decreases self.last() - i,
    {
        if i >= self.last() {
            self.output_error(x, y)
        } else {
            let next = self.error_signal(x, y, i + 1);
            let w = self.trained_weights(x, next, i + 1);
            hadamard_spec(
                product_spec(next, transpose_spec(w, self.layers()[i + 2] as nat), self.layers()[i + 1] as nat),
                activate_prime_spec(self.pre_activation(x, (i + 1) as nat)),
            )
        }
    }

    /// A weight matrix for each connection of `topology`, with random entries
    /// in [-1, 1).
    fn random_weights(topology: &Vec<usize>) -> (w: Vec<Matrix>)
        requires
            topology@.len() >= 2,
        ensures
            w@.len() == topology@.len() - 1,
            forall|i: int|
                0 <= i < w@.len() ==> {
                    let m = #[trigger] w@[i];
                    &&& m.wf() && m.nrows() == topology@[i] && m.ncols() == topology@[i + 1]
                    &&& forall|r: int, c: int|
                        0 <= r < m.nrows() && 0 <= c < m.ncols() ==> -ONE <= #[trigger] m@[r][c] < ONE
                },
    {
        let mut w: Vec<Matrix> = Vec::new();
        for i in 0..topology.len() - 1
            invariant
                topology@.len() >= 2,
                w@.len() == i,
                forall|k: int|
                    0 <= k < i ==> {
                        let m = #[trigger] w@[k];
                        &&& m.wf() && m.nrows() == topology@[k] && m.ncols() == topology@[k + 1]
                        &&& forall|r: int, c: int|
                            0 <= r < m.nrows() && 0 <= c < m.ncols() ==> -ONE <= #[trigger] m@[r][c] < ONE
                    },
        {
            let mut m = Matrix::new(topology[i], topology[i + 1]);
            m.randomize();
            w.push(m);
        }
        w
    }

    /// A bias row for each layer of `topology` after the input, with random
    /// entries in [-1, 1).
    fn random_biases(topology: &Vec<usize>) -> (b: Vec<Matrix>)
        requires
            topology@.len() >= 2,
        ensures
            b@.len() == topology@.len() - 1,
            forall|i: int|
                0 <= i < b@.len() ==> {
                    let m = #[trigger] b@[i];
                    &&& m.wf() && m.nrows() == 1 && m.ncols() == topology@[i + 1]
                    &&& forall|r: int, c: int|
                        0 <= r < m.nrows() && 0 <= c < m.ncols() ==> -ONE <= #[trigger] m@[r][c] < ONE
                },
    {
        let mut b: Vec<Matrix> = Vec::new();
        for i in 1..topology.len()
            invariant
                topology@.len() >= 2,
                b@.len() == i - 1,
                forall|k: int|
                    0 <= k < i - 1 ==> {
                        let m = #[trigger] b@[k];
                        &&& m.wf() && m.nrows() == 1 && m.ncols() == topology@[k + 1]
                        &&& forall|r: int, c: int|
                            0 <= r < m.nrows() && 0 <= c < m.ncols() ==> -ONE <= #[trigger] m@[r][c] < ONE
                    },
        {
            let mut m = Matrix::new(1, topology[i]);
            m.randomize();
            b.push(m);
        }
        b
    }

    /// A network of the given layer widths, input first, whose weights and
    /// biases are drawn uniformly from [-1, 1). Fails when fewer than two
    /// layers are given.
    pub fn new(topology: Vec<usize>, learning_rate: i64) -> (r: Result<NeuralNetwork, NetworkError>)
        ensures
            match r {
                Ok(net) => {
                    &&& topology@.len() >= 2
                    &&& net.wf()
                    &&& net.layers() == topology@
                    &&& net.rate() == learning_rate
                    &&& forall|i: int, k: int, j: int|
                        0 <= i < net.last() + 1 && 0 <= k < topology@[i] && 0 <= j < topology@[i + 1]
                            ==> -ONE <= #[trigger] net.weight_matrices()[i]@[k][j] < ONE
                    &&& forall|i: int, j: int|
                        0 <= i < net.last() + 1 && 0 <= j < topology@[i + 1]
                            ==> -ONE <= #[trigger] net.bias_rows()[i]@[0][j] < ONE
                },
                Err(e) => e == NetworkError::Topology && topology@.len() < 2,
            },
    {
        if topology.len() < 2 {
            return Err(NetworkError::Topology);
        }
        let weights = NeuralNetwork::random_weights(&topology);
        let bias = NeuralNetwork::random_biases(&topology);
        let net = NeuralNetwork { topology, weights, bias, learning_rate };
        assert forall|i: int, k: int, j: int|
            0 <= i < net.last() + 1 && 0 <= k < net.layers()[i] && 0 <= j < net.layers()[i + 1]
                implies -ONE <= #[trigger] net.weight_matrices()[i]@[k][j] < ONE by {
            let m = net.weight_matrices()[i];
            assert(m.nrows() == net.layers()[i] && m.ncols() == net.layers()[i + 1]);
        }
        assert forall|i: int, j: int|
            0 <= i < net.last() + 1 && 0 <= j < net.layers()[i + 1]
                implies -ONE <= #[trigger] net.bias_rows()[i]@[0][j] < ONE by {
            let m = net.bias_rows()[i];
            assert(m.nrows() == 1 && m.ncols() == net.layers()[i + 1]);
        }
        Ok(net)
    }

    /// The pre-activations and activations of every layer on input `x`,
    /// layer zero holding copies of `x` itself.
    fn forward_layers(&self, x: &Matrix) -> (r: (Vec<Matrix>, Vec<Matrix>))
        requires
            self.wf(),
            x.wf(),
            self.accepts_input(x),
        ensures
            r.0@.len() == self.layers().len(),
            r.1@.len() == self.layers().len(),
            forall|k: int|
                0 <= k < self.layers().len() ==> {
                    let z = #[trigger] r.0@[k];
                    z.wf() && z.nrows() == 1 && z.ncols() == self.layers()[k] && z@ == self.pre_activation(x@, k as nat)
                },
            forall|k: int|
                0 <= k < self.layers().len() ==> {
                    let a = #[trigger] r.1@[k];
                    a.wf() && a.nrows() == 1 && a.ncols() == self.layers()[k] && a@ == self.activation(x@, k as nat)
                },
    {
        let mut zs: Vec<Matrix> = Vec::new();
        let mut acts: Vec<Matrix> = Vec::new();
        zs.push(x.duplicate());
        acts.push(x.duplicate());
        let n = self.topology.len();
        for i in 0..n - 1
            invariant
                self.wf(),
                x.wf(),
                self.accepts_input(x),
                n == self.layers().len(),
                zs@.len() == i + 1,
                acts@.len() == i + 1,
                forall|k: int|
                    0 <= k <= i ==> {
                        let z = #[trigger] zs@[k];
                        z.wf() && z.nrows() == 1 && z.ncols() == self.layers()[k] && z@ == self.pre_activation(x@, k as nat)
                    },
                forall|k: int|
                    0 <= k <= i ==> {
                        let a = #[trigger] acts@[k];
                        a.wf() && a.nrows() == 1 && a.ncols() == self.layers()[k] && a@ == self.activation(x@, k as nat)
                    },
        {
            let w = &self.weights[i];
            let b = &self.bias[i];
            let product = Matrix::multiply(&acts[i], w).unwrap();
            let pre = Matrix::add(&product, b).unwrap();
            let act = Matrix::activate(&pre);
            assert(pre@ == self.pre_activation(x@, (i + 1) as nat));
            assert(act@ == self.activation(x@, (i + 1) as nat));
            zs.push(pre);
            acts.push(act);
        }
        (zs, acts)
    }

    /// The output of the network on `input`, which must be a single row as
    /// wide as the input layer. The network is not changed.
    pub fn feedforward(&self, input: &Matrix) -> (r: Result<Matrix, NetworkError>)
        requires
            self.wf(),
            input.wf(),
        ensures
            match r {
                Ok(m) => {
                    &&& self.accepts_input(input)
                    &&& m.wf() && m.nrows() == 1 && m.ncols() == self.layers()[self.layers().len() - 1]
                    &&& m@ == self.output(input@)
                },
                Err(e) => e == NetworkError::TopologyMismatch && !self.accepts_input(input),
            },
    {
        if input.rows() != 1 || input.columns() != self.topology[0] {
            return Err(NetworkError::TopologyMismatch);
        }
        let (_zs, mut acts) = self.forward_layers(input);
        let out = acts.pop().unwrap();
        Ok(out)
    }

    /// One training step on `input` and `target`: a forward pass, then, from
    /// the last connection back to the first, the error signal of each
    /// connection is computed and its bias row and weights are moved by
    /// `rate()` times that signal. Fails, changing nothing, when `input` or
    /// `target` is not a single row of the width of the first or last layer.
    pub fn backpropagation(&mut self, input: &Matrix, target: &Matrix) -> (r: Result<(), NetworkError>)
        requires
            old(self).wf(),
            input.wf(),
            target.wf(),
        ensures
            final(self).wf(),
            final(self).layers() == old(self).layers(),
            final(self).rate() == old(self).rate(),
            r is Ok <==> old(self).accepts_input(input) && old(self).accepts_target(target),
            r is Ok ==> forall|i: int|
                0 <= i <= old(self).last() ==> {
                    let e = old(self).error_signal(input@, target@, i);
                    &&& (#[trigger] final(self).weight_matrices()[i])@ == old(self).trained_weights(input@, e, i)
                    &&& final(self).bias_rows()[i]@ == old(self).trained_bias(e, i)
                },
            r is Err ==> r == Err::<(), NetworkError>(NetworkError::TopologyMismatch) && *final(self) == *old(self),
    {
        let n = self.topology.len();
        if input.rows() != 1 || input.columns() != self.topology[0] || target.rows() != 1
            || target.columns() != self.topology[n - 1] {
            return Err(NetworkError::TopologyMismatch);
        }
        let ghost before = *self;
        let ghost x = input@;
        let ghost y = target@;
        let (zs, acts) = self.forward_layers(input);
        let last = n - 2;
        let rate = self.learning_rate;
        let loss = Matrix::subtract(target, &acts[last + 1]).unwrap();
        let mut error = Matrix::hadamard_product(&loss, &Matrix::activate_prime(&zs[last + 1])).unwrap();
        let mut k: usize = n - 1;
        while k > 0
            invariant
                before.wf(),
                self.wf(),
                n == before.layers().len(),
                last == n - 2,
                rate == before.rate(),
                self.layers() == before.layers(),
                self.rate() == before.rate(),
                0 <= k <= n - 1,
                zs@.len() == n,
                acts@.len() == n,
                forall|j: int|
                    0 <= j < n ==> {
                        let z = #[trigger] zs@[j];
                        z.wf() && z.nrows() == 1 && z.ncols() == before.layers()[j] && z@ == before.pre_activation(x, j as nat)
                    },
                forall|j: int|
                    0 <= j < n ==> {
                        let a = #[trigger] acts@[j];
                        a.wf() && a.nrows() == 1 && a.ncols() == before.layers()[j] && a@ == before.activation(x, j as nat)
                    },
                error.wf(),
                error.nrows() == 1,
                k == n - 1 ==> error@ == before.output_error(x, y) && error.ncols() == before.layers()[n - 1],
                k < n - 1 ==> error@ == before.error_signal(x, y, k as int) && error.ncols() == before.layers()[k + 1],
                forall|j: int| 0 <= j < k ==> #[trigger] self.weight_matrices()[j] == before.weight_matrices()[j],
                forall|j: int| 0 <= j < k ==> #[trigger] self.bias_rows()[j] == before.bias_rows()[j],
                forall|j: int|
                    k <= j < n - 1 ==> {
                        let e = before.error_signal(x, y, j);
                        &&& (#[trigger] self.weight_matrices()[j])@ == before.trained_weights(x, e, j)
                        &&& self.bias_rows()[j]@ == before.trained_bias(e, j)
                    },
            decreases k,
        {
            let i = k - 1;
            if i < last {
                let carried = Matrix::multiply(&error, &Matrix::transpose(&self.weights[i + 1])).unwrap();
                error = Matrix::hadamard_product(&carried, &Matrix::activate_prime(&zs[i + 1])).unwrap();
            }
            let ghost e = before.error_signal(x, y, i as int);
            assert(error@ == e);
            let step = Matrix::scalar(&error, rate);
            let new_bias = Matrix::add(&self.bias[i], &step).unwrap();
            let new_weights = Matrix::outer_updated(&self.weights[i], &acts[i], &error, rate);
            assert(new_bias@ == before.trained_bias(e, i as int));
            assert(new_weights@ == before.trained_weights(x, e, i as int));
            let ghost mid = *self;
            self.bias.set(i, new_bias);
            self.weights.set(i, new_weights);
            assert(self.weight_matrices() == mid.weight_matrices().update(i as int, new_weights));
            assert(self.bias_rows() == mid.bias_rows().update(i as int, new_bias));
            k = i;
        }
        Ok(())
    }

    /// The width of each layer, input first.
    pub fn topology(&self) -> (r: &Vec<usize>)
        ensures
            r@ == self.layers(),
    {
        &self.topology
    }

    /// The weight matrix of each connection.
    pub fn weights(&self) -> (r: &Vec<Matrix>)
        ensures
            r@ == self.weight_matrices(),
    {
        &self.weights
    }

    /// The bias row of each layer after the input.
    pub fn biases(&self) -> (r: &Vec<Matrix>)
        ensures
            r@ == self.bias_rows(),
    {
        &self.bias
    }

    /// The step size of a training update.
    pub fn learning_rate(&self) -> (r: i64)
        ensures
            r == self.rate(),
    {
        self.learning_rate
    }
}

/// A training step is not idempotent: wherever the output error signal
/// scaled by the learning rate is not zero and the output bias does not
/// saturate, the step moves that bias entry.
pub proof fn lemma_training_moves_output_bias(net: NeuralNetwork, x: Matrix, y: Matrix, j: int)
    requires
        net.wf(),
        x.wf(),
        y.wf(),
        net.accepts_input(&x),
        net.accepts_target(&y),
        0 <= j < net.layers()[net.last() + 1],
        fx_mul(net.error_signal(x@, y@, net.last())[0][j], net.rate()) != 0,
        i64::MIN <= net.bias_rows()[net.last()]@[0][j] + fx_mul(
            net.error_signal(x@, y@, net.last())[0][j],
            net.rate(),
        ) <= i64::MAX,
    ensures
        net.trained_bias(net.error_signal(x@, y@, net.last()), net.last())[0][j]
            != net.bias_rows()[net.last()]@[0][j],
{
    let last = net.last();
    let b = net.bias_rows()[last];
    assert(b.nrows() == 1 && b.ncols() == net.layers()[last + 1]);
}

} // verus!
