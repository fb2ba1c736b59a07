//! Tests of the layer, chain and model: exact forward values, loss
//! values, gradient correctness against finite differences, and a
//! training-convergence smoke test.

use mylittlemodel::layer::connected::FullyConnectedLayer;
use mylittlemodel::layer::LayerChain;
use mylittlemodel::linalg::{MatrixWrapper, VectorWrapper};
use mylittlemodel::model::activation::{ActivationFunction, Identity, LeakyReLU};
use mylittlemodel::model::loss::{LossFunction, MeanSquaredErrorLoss, SoftmaxCrossEntropyLoss};
use mylittlemodel::model::weights::{Biases, Weights};
use mylittlemodel::model::Model;
use mylittlemodel::scalar::Scalar;

fn sm(micros: i64) -> Scalar {
    Scalar::from_micros(micros)
}

fn micros_vec(vals: &[i64]) -> VectorWrapper {
    VectorWrapper::from_arr(vals.iter().map(|&v| Scalar::from_micros(v)).collect())
}

fn micros_mat(rows: usize, cols: &[Vec<i64>]) -> MatrixWrapper {
    let cols_vec: Vec<Vec<Scalar>> = cols
        .iter()
        .map(|c| c.iter().map(|&v| Scalar::from_micros(v)).collect())
        .collect();
    MatrixWrapper::from_cols(rows, &cols_vec).unwrap()
}

fn layer_micros<A: ActivationFunction>(
    rows: usize,
    w_cols: &[Vec<i64>],
    b: &[i64],
    act: A,
) -> FullyConnectedLayer<A> {
    let w = micros_mat(rows, w_cols);
    let in_dim = w_cols.len();
    FullyConnectedLayer {
        w,
        b: micros_vec(b),
        n: VectorWrapper::zero(rows),
        a: VectorWrapper::zero(rows),
        s: VectorWrapper::zero(rows),
        wts: VectorWrapper::zero(in_dim),
        activation_function: act,
    }
}

/// The fixed three-layer leaky-rectifier network used by the gradient
/// and convergence tests, with an optional perturbation (in micros)
/// added to one entry of the first weight matrix.
fn make_chain(perturb: Option<(usize, usize, i64)>) -> LayerChain<LeakyReLU, LeakyReLU, LeakyReLU>
{
    let mut w0_cols = vec![
        vec![50_000i64, 100_000, 200_000, 150_000],
        vec![40_000, 100_000, 220_000, 120_000],
        vec![710_000, 30_000, 230_000, 250_000],
    ];
    if let Some((r, c, eps)) = perturb {
        w0_cols[c][r] += eps;
    }
    let l0 = layer_micros(
        4,
        &w0_cols,
        &[120_000, 230_000, 450_000, 100_000],
        LeakyReLU { slope_lt0: sm(200_000), slope_gte0: sm(1_000_000) },
    );
    let l1 = layer_micros(
        4,
        &[
            vec![150_000, 120_000, 210_000, 90_000],
            vec![400_000, 10_000, 420_000, 80_000],
            vec![750_000, 300_000, 300_000, 70_000],
            vec![100_000, 200_000, 300_000, 60_000],
        ],
        &[100_000, 300_000, 500_000, 200_000],
        LeakyReLU { slope_lt0: sm(100_000), slope_gte0: sm(800_000) },
    );
    let l2 = layer_micros(
        3,
        &[
            vec![715_000, 172_000, 271_000],
            vec![470_000, 70_000, 720_000],
            vec![500_000, 370_000, 730_000],
            vec![200_000, 100_000, 300_000],
        ],
        &[170_000, 370_000, 750_000],
        LeakyReLU { slope_lt0: sm(150_000), slope_gte0: sm(900_000) },
    );
    LayerChain { l0, l1, l2 }
}

#[test]
fn layer_forward_exact() {
    // A 2-by-2 identity-activation layer: n = w*x + b, a = n.
    let mut l = layer_micros(
        2,
        &[vec![1_000_000, 3_000_000], vec![2_000_000, 4_000_000]],
        &[500_000, -500_000],
        Identity {},
    );
    let x = micros_vec(&[1_000_000, 2_000_000]);
    l.forward(&x);
    // Row 0: 1*1 + 2*2 + 0.5 = 5.5; row 1: 3*1 + 4*2 + (-0.5) = 10.5.
    assert_eq!(l.n.index(0).to_micros(), 5_500_000);
    assert_eq!(l.n.index(1).to_micros(), 10_500_000);
    assert_eq!(l.a.index(0).to_micros(), 5_500_000);
    assert_eq!(l.a.index(1).to_micros(), 10_500_000);
}

#[test]
fn leaky_relu_values() {
    let act = LeakyReLU { slope_lt0: sm(200_000), slope_gte0: sm(900_000) };
    assert_eq!(act.f(sm(-2_000_000)).to_micros(), -400_000);
    assert_eq!(act.f(sm(2_000_000)).to_micros(), 1_800_000);
    assert_eq!(act.df(sm(-1)).to_micros(), 200_000);
    assert_eq!(act.df(sm(0)).to_micros(), 900_000);
}

#[test]
fn mse_loss_values() {
    let target = micros_vec(&[1_000_000, 2_000_000]);
    let output = micros_vec(&[500_000, 3_000_000]);
    let (loss, errors) = MeanSquaredErrorLoss.loss(&target, &output);
    // Errors: [0.5, -1]; loss: 0.25 + 1 = 1.25.
    assert_eq!(errors.index(0).to_micros(), 500_000);
    assert_eq!(errors.index(1).to_micros(), -1_000_000);
    assert_eq!(loss.to_micros(), 1_250_000);
    let g = MeanSquaredErrorLoss.dl_da(&target, &output);
    // Gradient: -2 * errors = [-1, 2].
    assert_eq!(g.index(0).to_micros(), -1_000_000);
    assert_eq!(g.index(1).to_micros(), 2_000_000);
}

#[test]
fn weights_realize_within_range() {
    let w = Weights::uniformly_random(3, 4, sm(-250_000), sm(250_000)).realize();
    assert!(matches!(w, MatrixWrapper::Dense(_)));
    for i in 0..3 {
        for j in 0..4 {
            let x = w.at(i, j).to_micros();
            assert!(-250_000 <= x && x < 250_000);
        }
    }
    let b = Biases::uniformly_random(16, sm(-250_000), sm(250_000)).realize();
    for i in 0..16 {
        let x = b.index(i).to_micros();
        assert!(-250_000 <= x && x < 250_000);
    }
    let z = Weights::zeros(2, 2).realize();
    assert!(matches!(z, MatrixWrapper::Zero(_)));
}

#[test]
fn default_init_range_is_inverse_square_root() {
    // For a fan-in of 4, the default half-width is 1/2, i.e. 500000
    // micros; every draw must land in [-500000, 500000).
    let b = Biases::default_init(4).realize();
    for i in 0..4 {
        let x = b.index(i).to_micros();
        assert!(-500_000 <= x && x < 500_000);
    }
    let w = Weights::default_init(5, 16).realize();
    for i in 0..5 {
        for j in 0..16 {
            let x = w.at(i, j).to_micros();
            assert!(-250_000 <= x && x < 250_000);
        }
    }
}

#[test]
fn gradient_finite_difference() {
    let input = micros_vec(&[1_000_000, 2_000_000, 3_000_000]);
    let target = micros_vec(&[1_000_000, 2_000_000, 3_000_000]);
    let eps: i64 = 100_000;

    // A step with learning rate zero evaluates the network and fills
    // the sensitivities without changing any parameter.
    let mut base = make_chain(None);
    base.train_single((&input, &target), MeanSquaredErrorLoss, Scalar::zero());

    for r in 0..4 {
        for c in 0..3 {
            // Analytic gradient of the loss in w0[r][c]: s0[r] * input[c].
            let analytic = base.l0.s.index(r).mul(input.index(c)).to_micros() as f64;

            let mut plus = make_chain(Some((r, c, eps)));
            let out_plus = plus.train_single((&input, &target), MeanSquaredErrorLoss, Scalar::zero());
            let mut minus = make_chain(Some((r, c, -eps)));
            let out_minus =
                minus.train_single((&input, &target), MeanSquaredErrorLoss, Scalar::zero());

            let fd = (out_plus.loss.to_micros() - out_minus.loss.to_micros()) as f64
                / (2.0 * eps as f64) * 1_000_000.0;
            let tol = analytic.abs() * 0.03 + 20_000.0;
            assert!(
                (fd - analytic).abs() <= tol,
                "gradient mismatch at ({}, {}): finite difference {} vs analytic {}",
                r,
                c,
                fd,
                analytic
            );
        }
    }
}

#[test]
fn training_convergence() {
    let input = micros_vec(&[1_000_000, 2_000_000, 3_000_000]);
    let target = micros_vec(&[1_000_000, 2_000_000, 3_000_000]);
    let mut model = Model::new(make_chain(None), MeanSquaredErrorLoss);
    model.train_single(&input, &target);
    let first = model.loss.to_micros();
    assert!(first > 0);
    for _ in 1..5000 {
        model.train_single(&input, &target);
    }
    let last = model.loss.to_micros();
    assert!(
        last < first / 2,
        "loss did not fall materially: first {} last {}",
        first,
        last
    );
}

#[test]
fn kitchen_sink_test() {
    let chain = LayerChain {
        l0: FullyConnectedLayer::with(
            Weights::default_init(50, 3),
            Biases::default_init(50),
            LeakyReLU { slope_lt0: sm(200_000), slope_gte0: sm(1_000_000) },
        ),
        l1: FullyConnectedLayer::with(
            Weights::default_init(50, 50),
            Biases::default_init(50),
            LeakyReLU { slope_lt0: sm(100_000), slope_gte0: sm(800_000) },
        ),
        l2: FullyConnectedLayer::with(
            Weights::default_init(3, 50),
            Biases::default_init(3),
            LeakyReLU { slope_lt0: sm(150_000), slope_gte0: sm(900_000) },
        ),
    };

    let input = micros_vec(&[1_000_000, 2_000_000, 3_000_000]);
    let target = micros_vec(&[0, 0, 1_000_000]);

    let mut model = Model::new(chain, MeanSquaredErrorLoss);
    for i in 0..5000 {
        model.train_single(&input, &target);
        if i % 100 == 0 {
            println!("[{i:>4}/5000] Loss: {}", model.loss.to_micros());
        }
    }
}

#[test]
fn softmax_cross_entropy_loss_values() {
    let target = micros_vec(&[1_000_000, 0, 0]);
    let output = micros_vec(&[1_000_000, 2_000_000, 3_000_000]);
    let (loss, errors) = SoftmaxCrossEntropyLoss.loss(&target, &output);
    // ln(e + e^2 + e^3) - 1 is about 2.407606 units.
    let diff = loss.to_micros() - 2_407_606;
    assert!(diff.abs() < 5_000, "softmax loss off: {}", loss.to_micros());
    // This loss reports no per-coordinate errors.
    for i in 0..3 {
        assert_eq!(errors.index(i).to_micros(), 0);
    }
}

#[test]
fn softmax_cross_entropy_gradient_values() {
    let target = micros_vec(&[1_000_000, 0, 0]);
    let output = micros_vec(&[1_000_000, 2_000_000, 3_000_000]);
    let g = SoftmaxCrossEntropyLoss.dl_da(&target, &output);
    // softmax(output) - target, about [-0.909969, 0.244728, 0.665241].
    let expect = [-909_969i64, 244_728, 665_241];
    for i in 0..3 {
        let diff = g.index(i).to_micros() - expect[i];
        assert!(diff.abs() < 5_000, "gradient {} off: {}", i, g.index(i).to_micros());
    }
    // On equal outputs the gradient is softmax minus target with
    // softmax uniform: [1/3 - 1, 1/3, 1/3].
    let flat = micros_vec(&[0, 0, 0]);
    let g2 = SoftmaxCrossEntropyLoss.dl_da(&target, &flat);
    let expect2 = [-666_667i64, 333_333, 333_333];
    for i in 0..3 {
        let diff = g2.index(i).to_micros() - expect2[i];
        assert!(diff.abs() < 5_000, "flat gradient {} off: {}", i, g2.index(i).to_micros());
    }
}

#[test]
fn backprop_exact_values() {
    // A 1-1-1 identity-activation chain whose whole training step can
    // be computed by hand.  With x = 1, t = 1, w = (2, 0.5, 3), all
    // biases zero and learning rate 0.1:
    //   forward:  a0 = 2, a1 = 1, a2 = 3;
    //   loss:     (1 - 3)^2 = 4, gradient -2(1-3) = 4;
    //   backward: s2 = 4, wts2 = 12, s1 = 12, wts1 = 6, s0 = 6;
    //   update:   w2 = 3 - 0.1*4*1 = 2.6,   b2 = -0.4,
    //             w1 = 0.5 - 0.1*12*2 = -1.9, b1 = -1.2,
    //             w0 = 2 - 0.1*6*1 = 1.4,   b0 = -0.6.
    let mut chain = LayerChain {
        l0: layer_micros(1, &[vec![2_000_000]], &[0], Identity {}),
        l1: layer_micros(1, &[vec![500_000]], &[0], Identity {}),
        l2: layer_micros(1, &[vec![3_000_000]], &[0], Identity {}),
    };
    let input = micros_vec(&[1_000_000]);
    let target = micros_vec(&[1_000_000]);
    let out = chain.train_single((&input, &target), MeanSquaredErrorLoss, sm(100_000));

    assert_eq!(out.loss.to_micros(), 4_000_000);
    assert_eq!(out.errors.index(0).to_micros(), -2_000_000);
    assert_eq!(out.output.index(0).to_micros(), 3_000_000);

    assert_eq!(chain.l0.a.index(0).to_micros(), 2_000_000);
    assert_eq!(chain.l1.a.index(0).to_micros(), 1_000_000);
    assert_eq!(chain.l2.a.index(0).to_micros(), 3_000_000);

    assert_eq!(chain.l2.s.index(0).to_micros(), 4_000_000);
    assert_eq!(chain.l2.wts.index(0).to_micros(), 12_000_000);
    assert_eq!(chain.l1.s.index(0).to_micros(), 12_000_000);
    assert_eq!(chain.l1.wts.index(0).to_micros(), 6_000_000);
    assert_eq!(chain.l0.s.index(0).to_micros(), 6_000_000);

    assert_eq!(chain.l2.w.at(0, 0).to_micros(), 2_600_000);
    assert_eq!(chain.l2.b.index(0).to_micros(), -400_000);
    assert_eq!(chain.l1.w.at(0, 0).to_micros(), -1_900_000);
    assert_eq!(chain.l1.b.index(0).to_micros(), -1_200_000);
    assert_eq!(chain.l0.w.at(0, 0).to_micros(), 1_400_000);
    assert_eq!(chain.l0.b.index(0).to_micros(), -600_000);
}
