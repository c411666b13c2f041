use neuralnet::{Matrix, NetworkError, NeuralNetwork, ONE};

fn row(values: Vec<i64>) -> Matrix {
    let mut m = Matrix::new(1, values.len());
    m.set_matrix(vec![values]).unwrap();
    m
}

#[test]
fn new_needs_two_layers() {
    assert!(matches!(NeuralNetwork::new(vec![], ONE / 10), Err(NetworkError::Topology)));
    assert!(matches!(NeuralNetwork::new(vec![5], ONE / 10), Err(NetworkError::Topology)));
    assert!(NeuralNetwork::new(vec![2, 3], ONE / 10).is_ok());
}

#[test]
fn feedforward_checks_the_input_shape() {
    let nn = NeuralNetwork::new(vec![2, 2, 1], ONE / 10).unwrap();
    let wide = Matrix::new(1, 3);
    assert!(matches!(nn.feedforward(&wide), Err(NetworkError::TopologyMismatch)));
    let tall = Matrix::new(2, 2);
    assert!(matches!(nn.feedforward(&tall), Err(NetworkError::TopologyMismatch)));
    let out = nn.feedforward(&Matrix::new(1, 2)).unwrap();
    assert_eq!(out.rows(), 1);
    assert_eq!(out.columns(), 1);
}

#[test]
fn feedforward_is_repeatable() {
    let nn = NeuralNetwork::new(vec![2, 4, 3], ONE / 10).unwrap();
    let input = row(vec![ONE / 2, -ONE]);
    let first = nn.feedforward(&input).unwrap().get_matrix();
    let second = nn.feedforward(&input).unwrap().get_matrix();
    assert_eq!(first, second);
    assert_eq!(first.len(), 1);
    assert_eq!(first[0].len(), 3);
}

#[test]
fn backpropagation_checks_shapes() {
    let mut nn = NeuralNetwork::new(vec![2, 2, 1], ONE / 10).unwrap();
    let input = row(vec![ONE, 0]);
    let before = nn.feedforward(&input).unwrap().get_matrix();
    assert_eq!(
        nn.backpropagation(&Matrix::new(1, 3), &row(vec![ONE])),
        Err(NetworkError::TopologyMismatch)
    );
    assert_eq!(
        nn.backpropagation(&input, &row(vec![ONE, ONE])),
        Err(NetworkError::TopologyMismatch)
    );
    assert_eq!(
        nn.backpropagation(&input, &Matrix::new(2, 1)),
        Err(NetworkError::TopologyMismatch)
    );
    assert_eq!(nn.feedforward(&input).unwrap().get_matrix(), before);
}

#[test]
fn backpropagation_changes_the_network() {
    let mut nn = NeuralNetwork::new(vec![2, 3, 1], ONE / 10).unwrap();
    let input = row(vec![ONE, -ONE / 2]);
    let start = nn.feedforward(&input).unwrap().get_matrix()[0][0];
    let target = row(vec![start + 5 * ONE]);
    assert_eq!(nn.backpropagation(&input, &target), Ok(()));
    let once = nn.feedforward(&input).unwrap().get_matrix()[0][0];
    assert_ne!(once, start);
    assert_eq!(nn.backpropagation(&input, &target), Ok(()));
    let twice = nn.feedforward(&input).unwrap().get_matrix()[0][0];
    assert_ne!(twice, once);
}

#[test]
fn training_moves_output_toward_target() {
    let mut nn = NeuralNetwork::new(vec![3, 1], ONE / 100).unwrap();
    let input = row(vec![ONE / 2, ONE / 4, -ONE / 2]);
    let target = row(vec![2 * ONE]);
    let start = nn.feedforward(&input).unwrap().get_matrix()[0][0];
    for _ in 0..10000 {
        nn.backpropagation(&input, &target).unwrap();
    }
    let end = nn.feedforward(&input).unwrap().get_matrix()[0][0];
    assert!((end - 2 * ONE).abs() < ONE / 100);
    assert!((end - 2 * ONE).abs() <= (start - 2 * ONE).abs());
}

fn xor_loss(nn: &NeuralNetwork, inputs: &[Matrix], targets: &[Matrix]) -> i128 {
    let mut total: i128 = 0;
    for j in 0..inputs.len() {
        let out = nn.feedforward(&inputs[j]).unwrap().get_matrix()[0][0] as i128;
        let want = targets[j].get_value(0, 0).unwrap() as i128;
        total += (out - want) * (out - want);
    }
    total
}

#[test]
fn learns_xor() {
    let inputs = [
        row(vec![0, 0]),
        row(vec![ONE, 0]),
        row(vec![0, ONE]),
        row(vec![ONE, ONE]),
    ];
    let targets = [row(vec![0]), row(vec![ONE]), row(vec![ONE]), row(vec![0])];
    // Some random starting weights leave the network stuck answering 0.5 to
    // every input; a fresh network is tried then.
    let mut learned = false;
    for _attempt in 0..5 {
        let mut nn = NeuralNetwork::new(vec![2, 4, 4, 1], ONE / 1000).unwrap();
        let mut loss = xor_loss(&nn, &inputs, &targets);
        let first_loss = loss;
        let mut rises = 0;
        for epoch in 0..90000 {
            for j in 0..4 {
                nn.backpropagation(&inputs[j], &targets[j]).unwrap();
            }
            if epoch % 9000 == 8999 {
                let now = xor_loss(&nn, &inputs, &targets);
                if now > loss {
                    rises += 1;
                }
                loss = now;
            }
        }
        let mut close = true;
        for j in 0..4 {
            let out = nn.feedforward(&inputs[j]).unwrap().get_matrix()[0][0];
            let want = targets[j].get_value(0, 0).unwrap();
            if (out - want).abs() >= ONE / 10 {
                close = false;
            }
        }
        if close {
            // the loss, sampled every 9000 epochs, falls on the whole
            assert!(loss < first_loss);
            assert!(rises <= 5);
            learned = true;
            break;
        }
    }
    assert!(learned);
}
