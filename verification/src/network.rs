//! The network engine: construction with randomized weights, the
//! forward pass, one-example training, and prediction.
//!
//! A network owns two weight matrices, input-to-hidden and
//! hidden-to-output.  Every public operation validates vector shapes
//! before touching any state, and each contract pins the produced
//! values exactly, entry by entry, in fixed-point arithmetic.

use vstd::prelude::*;
use crate::activation::Activation;
use crate::fixed::{
    ONE, fx_sub, fx_mul, fx_add_spec, fx_sub_spec, fx_mul_spec, sat64, sat_to_i64, inv_sqrt_fx,
};
use crate::linalg::{Matrix, dot_spec};
use crate::rng::normal_fx;

verus! {

/// Why a call was refused.
#[derive(Clone, Copy, Debug, PartialEq, Eq, Structural)]
pub enum NnError {
    /// A construction parameter is out of range: a node count or the
    /// learning rate is not positive, or a weight matrix would not fit
    /// in memory.
    ConfigurationError,
    /// A vector's length does not match the layer it feeds.
    ShapeMismatch,
}

/// One layer's outputs: the activation of each row's saturating dot
/// product with the incoming vector.
pub open spec fn spec_layer_outputs(m: Matrix, act: Activation, x: Seq<i64>) -> Seq<i64> {
    Seq::new(m.spec_rows() as nat, |i: int| sat_to_i64(act.apply_spec(sat64(dot_spec(m.row(i), x)))))
}

/// Elementwise saturating difference.
pub open spec fn spec_vec_sub(a: Seq<i64>, b: Seq<i64>) -> Seq<i64>
    recommends
        a.len() == b.len(),
{
    Seq::new(a.len(), |i: int| sat_to_i64(fx_sub_spec(a[i] as int, b[i] as int)))
}

/// The per-node update coefficients of one gradient-descent step: the
/// learning rate times the node's error times the sigmoid derivative
/// term `activation * (ONE - activation)`.
pub open spec fn spec_grad_coeffs(lr: i64, err: Seq<i64>, act: Seq<i64>) -> Seq<i64>
    recommends
        err.len() == act.len(),
{
    Seq::new(
        err.len(),
        |i: int|
            sat_to_i64(
                fx_mul_spec(
                    lr as int,
                    fx_mul_spec(
                        err[i] as int,
                        fx_mul_spec(act[i] as int, fx_sub_spec(ONE as int, act[i] as int)),
                    ),
                ),
            ),
    )
}

/// Valid construction parameters: positive node counts, a positive
/// learning rate, and weight matrices whose entry counts fit a
/// `usize`.
pub open spec fn config_ok(
    inputnodes: int,
    hiddennodes: int,
    outputnodes: int,
    learningrate: int,
) -> bool {
    &&& 0 < inputnodes
    &&& 0 < hiddennodes
    &&& 0 < outputnodes
    &&& 0 < learningrate
    &&& hiddennodes * inputnodes <= usize::MAX
    &&& outputnodes * hiddennodes <= usize::MAX
}

/// A multiplication fits under `m` exactly when the first factor is
/// at most `m` divided by the second.
proof fn lemma_mul_le_div(a: int, b: int, m: int)
    by (nonlinear_arith)
    requires
        a >= 0,
        b > 0,
        m >= 0,
    ensures
        a * b <= m <==> a <= m / b,
{
}

/// The single-hidden-layer feed-forward network.
#[derive(Debug)]
pub struct NeuralNetwork {
    input_nodes: usize,
    hidden_nodes: usize,
    output_nodes: usize,
    learning_rate: i64,
    weight_ih: Matrix,
    weight_ho: Matrix,
    activation: Activation,
}

impl NeuralNetwork {
    pub closed spec fn spec_input_nodes(self) -> int {
        self.input_nodes as int
    }

    pub closed spec fn spec_hidden_nodes(self) -> int {
        self.hidden_nodes as int
    }

    pub closed spec fn spec_output_nodes(self) -> int {
        self.output_nodes as int
    }

    pub closed spec fn spec_learning_rate(self) -> i64 {
        self.learning_rate
    }

    pub closed spec fn spec_activation(self) -> Activation {
        self.activation
    }

    /// The input-to-hidden weights.
    pub closed spec fn wih(self) -> Matrix {
        self.weight_ih
    }

    /// The hidden-to-output weights.
    pub closed spec fn who(self) -> Matrix {
        self.weight_ho
    }

    /// The shape invariant: `weight_ih` is `hidden_nodes` by
    /// `input_nodes`, `weight_ho` is `output_nodes` by `hidden_nodes`,
    /// all node counts and the learning rate are positive, and the
    /// activation is the sigmoid.
    pub open spec fn wf(self) -> bool {
        &&& self.wih().wf()
        &&& self.who().wf()
        &&& self.wih().spec_rows() == self.spec_hidden_nodes()
        &&& self.wih().spec_cols() == self.spec_input_nodes()
        &&& self.who().spec_rows() == self.spec_output_nodes()
        &&& self.who().spec_cols() == self.spec_hidden_nodes()
        &&& 0 < self.spec_input_nodes()
        &&& 0 < self.spec_hidden_nodes()
        &&& 0 < self.spec_output_nodes()
        &&& 0 < self.spec_learning_rate()
        &&& self.spec_activation() == Activation::Sigmoid
    }

    /// The hidden activations of a forward pass.
    pub open spec fn spec_hidden_outputs(self, input: Seq<i64>) -> Seq<i64> {
        spec_layer_outputs(self.wih(), self.spec_activation(), input)
    }

    /// The output activations of a forward pass.
    pub open spec fn spec_final_outputs(self, input: Seq<i64>) -> Seq<i64> {
        spec_layer_outputs(self.who(), self.spec_activation(), self.spec_hidden_outputs(input))
    }

    /// The output-layer errors of a training step: target minus
    /// actual output.
    pub open spec fn spec_output_errors(self, input: Seq<i64>, target: Seq<i64>) -> Seq<i64> {
        spec_vec_sub(target, self.spec_final_outputs(input))
    }

    /// The errors propagated back to the hidden layer: the transposed
    /// pre-update `weight_ho` applied to the output errors.
    pub open spec fn spec_hidden_errors(self, input: Seq<i64>, target: Seq<i64>) -> Seq<i64> {
        Seq::new(
            self.spec_hidden_nodes() as nat,
            |h: int|
                sat_to_i64(dot_spec(self.who().col(h), self.spec_output_errors(input, target))),
        )
    }

    /// The output layer's gradient coefficients.
    pub open spec fn spec_output_grad(self, input: Seq<i64>, target: Seq<i64>) -> Seq<i64> {
        spec_grad_coeffs(
            self.spec_learning_rate(),
            self.spec_output_errors(input, target),
            self.spec_final_outputs(input),
        )
    }

    /// The hidden layer's gradient coefficients.
    pub open spec fn spec_hidden_grad(self, input: Seq<i64>, target: Seq<i64>) -> Seq<i64> {
        spec_grad_coeffs(
            self.spec_learning_rate(),
            self.spec_hidden_errors(input, target),
            self.spec_hidden_outputs(input),
        )
    }

    /// What one training step leaves in `weight_ho` at row `o`,
    /// column `h`.
    pub open spec fn spec_trained_who_entry(
        self,
        input: Seq<i64>,
        target: Seq<i64>,
        o: int,
        h: int,
    ) -> int {
        fx_add_spec(
            self.who().entry(o, h) as int,
            fx_mul_spec(
                self.spec_output_grad(input, target)[o] as int,
                self.spec_hidden_outputs(input)[h] as int,
            ),
        )
    }

    /// What one training step leaves in `weight_ih` at row `h`,
    /// column `i`.
    pub open spec fn spec_trained_wih_entry(
        self,
        input: Seq<i64>,
        target: Seq<i64>,
        h: int,
        i: int,
    ) -> int {
        fx_add_spec(
            self.wih().entry(h, i) as int,
            fx_mul_spec(self.spec_hidden_grad(input, target)[h] as int, input[i] as int),
        )
    }
}

/// Elementwise saturating difference of two equally long vectors.
fn vec_sub(a: &Vec<i64>, b: &Vec<i64>) -> (out: Vec<i64>)
    requires
        a@.len() == b@.len(),
    ensures
        out@ == spec_vec_sub(a@, b@),
{
    let mut out: Vec<i64> = Vec::new();
    let mut k: usize = 0;
    while k < a.len()
        invariant
            a@.len() == b@.len(),
            k <= a@.len(),
            out@.len() == k,
            forall|i: int| 0 <= i < k ==> #[trigger] out@[i] == spec_vec_sub(a@, b@)[i],
        decreases a@.len() - k,
    {
        out.push(fx_sub(a[k], b[k]));
        k += 1;
    }
    proof {
        assert(out@ =~= spec_vec_sub(a@, b@));
    }
    out
}

/// The gradient coefficients of one layer.
fn grad_coeffs(lr: i64, err: &Vec<i64>, act: &Vec<i64>) -> (out: Vec<i64>)
    requires
        err@.len() == act@.len(),
    ensures
        out@ == spec_grad_coeffs(lr, err@, act@),
{
    let mut out: Vec<i64> = Vec::new();
    let mut k: usize = 0;
    while k < err.len()
        invariant
            err@.len() == act@.len(),
            k <= err@.len(),
            out@.len() == k,
            forall|i: int| 0 <= i < k ==> #[trigger] out@[i] == spec_grad_coeffs(lr, err@, act@)[i],
        decreases err@.len() - k,
    {
        let deriv: i64 = fx_mul(act[k], fx_sub(ONE, act[k]));
        out.push(fx_mul(lr, fx_mul(err[k], deriv)));
        k += 1;
    }
    proof {
        assert(out@ =~= spec_grad_coeffs(lr, err@, act@));
    }
    out
}

/// A matrix of independent draws: each entry an approximately normal
/// fixed-point value scaled by `sd`.
fn random_matrix(rows: usize, cols: usize, sd: i64) -> (m: Matrix)
    requires
        rows * cols <= usize::MAX,
    ensures
        m.wf(),
        m.spec_rows() == rows,
        m.spec_cols() == cols,
{
    let total: usize = rows * cols;
    let mut data: Vec<i64> = Vec::new();
    let mut k: usize = 0;
    while k < total
        invariant
            k <= total,
            data@.len() == k,
        decreases total - k,
    {
        data.push(fx_mul(normal_fx(), sd));
        k += 1;
    }
    Matrix::from_vec(rows, cols, data)
}

impl NeuralNetwork {
    /// Create a network with randomly initialized weights.
    ///
    /// Each entry of `weight_ih` is drawn with mean zero and standard
    /// deviation close to `hidden_nodes^(-1/2)`, each entry of
    /// `weight_ho` with standard deviation close to
    /// `output_nodes^(-1/2)`: the scale follows the receiving layer's
    /// width, which keeps the sigmoid away from saturation at the
    /// start.
    pub fn new(
        inputnodes: i32,
        hiddennodes: i32,
        outputnodes: i32,
        learningrate: i64,
    ) -> (r: Result<NeuralNetwork, NnError>)
        ensures
            match r {
                Ok(net) => {
                    &&& config_ok(
                        inputnodes as int,
                        hiddennodes as int,
                        outputnodes as int,
                        learningrate as int,
                    )
                    &&& net.wf()
                    &&& net.spec_input_nodes() == inputnodes
                    &&& net.spec_hidden_nodes() == hiddennodes
                    &&& net.spec_output_nodes() == outputnodes
                    &&& net.spec_learning_rate() == learningrate
                    &&& net.spec_activation() == Activation::Sigmoid
                },
                Err(e) => {
                    &&& e == NnError::ConfigurationError
                    &&& !config_ok(
                        inputnodes as int,
                        hiddennodes as int,
                        outputnodes as int,
                        learningrate as int,
                    )
                },
            },
    {
        if inputnodes <= 0 || hiddennodes <= 0 || outputnodes <= 0 || learningrate <= 0 {
            return Err(NnError::ConfigurationError);
        }
        let input_n: usize = inputnodes as usize;
        let hidden_n: usize = hiddennodes as usize;
        let output_n: usize = outputnodes as usize;
        proof {
            lemma_mul_le_div(hidden_n as int, input_n as int, usize::MAX as int);
            lemma_mul_le_div(output_n as int, hidden_n as int, usize::MAX as int);
        }
        if hidden_n > usize::MAX / input_n || output_n > usize::MAX / hidden_n {
            return Err(NnError::ConfigurationError);
        }
        let sd_ih: i64 = inv_sqrt_fx(hidden_n);
        let sd_ho: i64 = inv_sqrt_fx(output_n);
        let weight_ih = random_matrix(hidden_n, input_n, sd_ih);
        let weight_ho = random_matrix(output_n, hidden_n, sd_ho);
        Ok(
            NeuralNetwork {
                input_nodes: input_n,
                hidden_nodes: hidden_n,
                output_nodes: output_n,
                learning_rate: learningrate,
                weight_ih,
                weight_ho,
                activation: Activation::Sigmoid,
            },
        )
    }

    /// Create a network from explicitly given weights, row-major:
    /// `weights_ih` is `hiddennodes` by `inputnodes`, `weights_ho` is
    /// `outputnodes` by `hiddennodes`.
    pub fn from_weights(
        inputnodes: i32,
        hiddennodes: i32,
        outputnodes: i32,
        learningrate: i64,
        weights_ih: Vec<i64>,
        weights_ho: Vec<i64>,
    ) -> (r: Result<NeuralNetwork, NnError>)
        ensures
            match r {
                Ok(net) => {
                    &&& config_ok(
                        inputnodes as int,
                        hiddennodes as int,
                        outputnodes as int,
                        learningrate as int,
                    )
                    &&& weights_ih@.len() == hiddennodes * inputnodes
                    &&& weights_ho@.len() == outputnodes * hiddennodes
                    &&& net.wf()
                    &&& net.spec_input_nodes() == inputnodes
                    &&& net.spec_hidden_nodes() == hiddennodes
                    &&& net.spec_output_nodes() == outputnodes
                    &&& net.spec_learning_rate() == learningrate
                    &&& net.spec_activation() == Activation::Sigmoid
                    &&& net.wih()@ == weights_ih@
                    &&& net.who()@ == weights_ho@
                },
                Err(e) => {
                    &&& (e == NnError::ConfigurationError <==> !config_ok(
                        inputnodes as int,
                        hiddennodes as int,
                        outputnodes as int,
                        learningrate as int,
                    ))
                    &&& (e == NnError::ShapeMismatch <==> config_ok(
                        inputnodes as int,
                        hiddennodes as int,
                        outputnodes as int,
                        learningrate as int,
                    ) && (weights_ih@.len() != hiddennodes * inputnodes || weights_ho@.len()
                        != outputnodes * hiddennodes))
                },
            },
    {
        if inputnodes <= 0 || hiddennodes <= 0 || outputnodes <= 0 || learningrate <= 0 {
            return Err(NnError::ConfigurationError);
        }
        let input_n: usize = inputnodes as usize;
        let hidden_n: usize = hiddennodes as usize;
        let output_n: usize = outputnodes as usize;
        proof {
            lemma_mul_le_div(hidden_n as int, input_n as int, usize::MAX as int);
            lemma_mul_le_div(output_n as int, hidden_n as int, usize::MAX as int);
        }
        if hidden_n > usize::MAX / input_n || output_n > usize::MAX / hidden_n {
            return Err(NnError::ConfigurationError);
        }
        if weights_ih.len() != hidden_n * input_n || weights_ho.len() != output_n * hidden_n {
            return Err(NnError::ShapeMismatch);
        }
        let weight_ih = Matrix::from_vec(hidden_n, input_n, weights_ih);
        let weight_ho = Matrix::from_vec(output_n, hidden_n, weights_ho);
        Ok(
            NeuralNetwork {
                input_nodes: input_n,
                hidden_nodes: hidden_n,
                output_nodes: output_n,
                learning_rate: learningrate,
                weight_ih,
                weight_ho,
                activation: Activation::Sigmoid,
            },
        )
    }

    /// The shared forward pass on an already-validated input.
    fn forward_inner(&self, input_list: &Vec<i64>) -> (r: (Vec<i64>, Vec<i64>))
        requires
            self.wf(),
            input_list@.len() == self.spec_input_nodes(),
        ensures
            r.0@ == self.spec_hidden_outputs(input_list@),
            r.1@ == self.spec_final_outputs(input_list@),
    {
        let hidden_input_vec = self.weight_ih.mat_vec(input_list);
        let hidden_output_vec = self.activation.apply_vec(&hidden_input_vec);
        proof {
            assert forall|i: int| 0 <= i < hidden_output_vec@.len() implies #[trigger] hidden_output_vec@[i]
                == self.spec_hidden_outputs(input_list@)[i] by {
                self.spec_activation().lemma_apply_range(hidden_input_vec@[i] as int);
            }
            assert(hidden_output_vec@ =~= self.spec_hidden_outputs(input_list@));
        }
        let final_input_vec = self.weight_ho.mat_vec(&hidden_output_vec);
        let final_output_vec = self.activation.apply_vec(&final_input_vec);
        proof {
            assert forall|i: int| 0 <= i < final_output_vec@.len() implies #[trigger] final_output_vec@[i]
                == self.spec_final_outputs(input_list@)[i] by {
                self.spec_activation().lemma_apply_range(final_input_vec@[i] as int);
            }
            assert(final_output_vec@ =~= self.spec_final_outputs(input_list@));
        }
        (hidden_output_vec, final_output_vec)
    }

    /// Forward pass: the hidden and output activations for `input_list`,
    /// or `ShapeMismatch` exactly when the input's length is not
    /// `input_nodes`.
    pub fn forward(&self, input_list: &Vec<i64>) -> (r: Result<(Vec<i64>, Vec<i64>), NnError>)
        requires
            self.wf(),
        ensures
            match r {
                Ok(pair) => {
                    &&& input_list@.len() == self.spec_input_nodes()
                    &&& pair.0@ == self.spec_hidden_outputs(input_list@)
                    &&& pair.1@ == self.spec_final_outputs(input_list@)
                    &&& pair.0@.len() == self.spec_hidden_nodes()
                    &&& pair.1@.len() == self.spec_output_nodes()
                },
                Err(e) => {
                    &&& e == NnError::ShapeMismatch
                    &&& input_list@.len() != self.spec_input_nodes()
                },
            },
    {
        if input_list.len() != self.input_nodes {
            return Err(NnError::ShapeMismatch);
        }
        Ok(self.forward_inner(input_list))
    }

    /// One stochastic-gradient-descent step on a single example.
    ///
    /// On success both weight matrices take exactly one outer-product
    /// update, the hidden-layer errors having been computed from the
    /// pre-update `weight_ho`.  On a shape mismatch the network is
    /// left untouched.
    pub fn train(&mut self, input_list: &Vec<i64>, target_list: &Vec<i64>) -> (r: Result<
        (),
        NnError,
    >)
        requires
            old(self).wf(),
        ensures
            final(self).wf(),
            final(self).spec_input_nodes() == old(self).spec_input_nodes(),
            final(self).spec_hidden_nodes() == old(self).spec_hidden_nodes(),
            final(self).spec_output_nodes() == old(self).spec_output_nodes(),
            final(self).spec_learning_rate() == old(self).spec_learning_rate(),
            final(self).spec_activation() == old(self).spec_activation(),
            match r {
                Ok(()) => {
                    &&& input_list@.len() == old(self).spec_input_nodes()
                    &&& target_list@.len() == old(self).spec_output_nodes()
                    &&& forall|o: int, h: int|
                        0 <= o < old(self).spec_output_nodes() && 0 <= h < old(
                            self,
                        ).spec_hidden_nodes() ==> (#[trigger] final(self).who().entry(o, h)) as int
                            == old(self).spec_trained_who_entry(input_list@, target_list@, o, h)
                    &&& forall|h: int, i: int|
                        0 <= h < old(self).spec_hidden_nodes() && 0 <= i < old(
                            self,
                        ).spec_input_nodes() ==> (#[trigger] final(self).wih().entry(h, i)) as int
                            == old(self).spec_trained_wih_entry(input_list@, target_list@, h, i)
                },
                Err(e) => {
                    &&& e == NnError::ShapeMismatch
                    &&& (input_list@.len() != old(self).spec_input_nodes() || target_list@.len()
                        != old(self).spec_output_nodes())
                    &&& *final(self) == *old(self)
                },
            },
    {
        if input_list.len() != self.input_nodes || target_list.len() != self.output_nodes {
            return Err(NnError::ShapeMismatch);
        }
        let (hidden_output_vec, final_output_vec) = self.forward_inner(input_list);
        let output_errors_vec = vec_sub(target_list, &final_output_vec);
        let hidden_errors_vec = self.weight_ho.t_vec(&output_errors_vec);
        proof {
            assert forall|h: int| 0 <= h < hidden_errors_vec@.len() implies #[trigger] hidden_errors_vec@[h]
                == self.spec_hidden_errors(input_list@, target_list@)[h] by {}
            assert(hidden_errors_vec@ =~= self.spec_hidden_errors(input_list@, target_list@));
        }
        let output_grad = grad_coeffs(self.learning_rate, &output_errors_vec, &final_output_vec);
        self.weight_ho.add_outer(&output_grad, &hidden_output_vec);
        let hidden_grad = grad_coeffs(self.learning_rate, &hidden_errors_vec, &hidden_output_vec);
        self.weight_ih.add_outer(&hidden_grad, input_list);
        Ok(())
    }

    /// Prediction: the output activations for `input_list`, each
    /// strictly between `0` and `ONE`, or `ShapeMismatch` exactly when
    /// the input's length is not `input_nodes`.
    pub fn predict(&self, input_list: &Vec<i64>) -> (r: Result<Vec<i64>, NnError>)
        requires
            self.wf(),
        ensures
            match r {
                Ok(out) => {
                    &&& input_list@.len() == self.spec_input_nodes()
                    &&& out@ == self.spec_final_outputs(input_list@)
                    &&& out@.len() == self.spec_output_nodes()
                    &&& forall|k: int| 0 <= k < out@.len() ==> 0 < #[trigger] out@[k] < ONE
                },
                Err(e) => {
                    &&& e == NnError::ShapeMismatch
                    &&& input_list@.len() != self.spec_input_nodes()
                },
            },
    {
        if input_list.len() != self.input_nodes {
            return Err(NnError::ShapeMismatch);
        }
        let pair = self.forward_inner(input_list);
        proof {
            lemma_outputs_range(*self, input_list@);
        }
        Ok(pair.1)
    }

    pub fn input_nodes(&self) -> (r: usize)
        ensures
            r == self.spec_input_nodes(),
    {
        self.input_nodes
    }

    pub fn hidden_nodes(&self) -> (r: usize)
        ensures
            r == self.spec_hidden_nodes(),
    {
        self.hidden_nodes
    }

    pub fn output_nodes(&self) -> (r: usize)
        ensures
            r == self.spec_output_nodes(),
    {
        self.output_nodes
    }

    pub fn learning_rate(&self) -> (r: i64)
        ensures
            r == self.spec_learning_rate(),
    {
        self.learning_rate
    }

    pub fn weight_ih(&self) -> (r: &Matrix)
        ensures
            *r == self.wih(),
    {
        &self.weight_ih
    }

    pub fn weight_ho(&self) -> (r: &Matrix)
        ensures
            *r == self.who(),
    {
        &self.weight_ho
    }
}

/// Law: every entry a forward pass can produce lies strictly between
/// `0` and `ONE`, whatever the weights and the input.
pub proof fn lemma_outputs_range(net: NeuralNetwork, input: Seq<i64>)
    ensures
        forall|k: int|
            0 <= k < net.spec_final_outputs(input).len() ==> 0 < (
            #[trigger] net.spec_final_outputs(input)[k]) < ONE,
{
    assert forall|k: int| 0 <= k < net.spec_final_outputs(input).len() implies 0 < (
    #[trigger] net.spec_final_outputs(input)[k]) < ONE by {
        net.spec_activation().lemma_apply_range(
            sat64(dot_spec(net.who().row(k), net.spec_hidden_outputs(input))),
        );
    }
}

/// Law: prediction is deterministic.  Two outputs of the same network
/// on the same input are the same sequence; only `train` changes what
/// `predict` returns.
pub proof fn lemma_predict_deterministic(
    net: NeuralNetwork,
    input: Seq<i64>,
    first: Seq<i64>,
    second: Seq<i64>,
)
    requires
        first == net.spec_final_outputs(input),
        second == net.spec_final_outputs(input),
    ensures
        first == second,
{
}

} // verus!
