use attention_lob::heads::{concat_heads, head_columns, head_dim};

#[test]
fn head_dim_divides_model_width() {
    assert_eq!(head_dim(8, 2), 4);
    assert_eq!(head_dim(16, 4), 4);
    assert_eq!(head_dim(10, 3), 3);
    assert_eq!(head_dim(3, 4), 0);
}

#[test]
fn head_columns_are_consecutive_blocks() {
    assert_eq!(head_columns(8, 2, 0), (0, 4));
    assert_eq!(head_columns(8, 2, 1), (4, 8));
    assert_eq!(head_columns(10, 3, 2), (6, 9));
}

#[test]
fn head_blocks_are_disjoint_and_inside_model() {
    let (d_model, num_heads) = (10usize, 3usize);
    let mut covered = vec![0u32; d_model];
    for h in 0..num_heads {
        let (start, end) = head_columns(d_model, num_heads, h);
        assert!(end <= d_model);
        for c in start..end {
            covered[c] += 1;
        }
    }
    assert_eq!(covered, vec![1, 1, 1, 1, 1, 1, 1, 1, 1, 0]);
}

fn head_output(seq_len: usize, d_k: usize, tag: f64) -> Vec<Vec<f64>> {
    (0..seq_len)
        .map(|i| (0..d_k).map(|j| tag + 10.0 * i as f64 + j as f64).collect())
        .collect()
}

#[test]
fn concat_places_each_head_in_its_block() {
    let heads = vec![head_output(2, 2, 100.0), head_output(2, 2, 200.0)];
    let joined = concat_heads(&heads, 2, 2, 5, 0.0);
    assert_eq!(
        joined,
        vec![
            vec![100.0, 101.0, 200.0, 201.0, 0.0],
            vec![110.0, 111.0, 210.0, 211.0, 0.0],
        ]
    );
}

#[test]
fn concat_has_sequence_by_model_shape() {
    let (seq_len, d_model, num_heads) = (10usize, 8usize, 2usize);
    let d_k = head_dim(d_model, num_heads);
    let heads: Vec<Vec<Vec<f64>>> = (0..num_heads)
        .map(|h| head_output(seq_len, d_k, h as f64))
        .collect();
    let joined = concat_heads(&heads, seq_len, d_k, d_model, 0.0);
    assert_eq!(joined.len(), seq_len);
    for row in &joined {
        assert_eq!(row.len(), d_model);
    }
}

#[test]
fn concat_restores_sliced_block() {
    let (seq_len, d_model, num_heads) = (3usize, 7usize, 2usize);
    let d_k = head_dim(d_model, num_heads);
    let heads: Vec<Vec<Vec<i32>>> = (0..num_heads)
        .map(|h| {
            (0..seq_len)
                .map(|i| (0..d_k).map(|j| (100 * h + 10 * i + j) as i32).collect())
                .collect()
        })
        .collect();
    let joined = concat_heads(&heads, seq_len, d_k, d_model, -1);
    for h in 0..num_heads {
        let (start, end) = head_columns(d_model, num_heads, h);
        for i in 0..seq_len {
            assert_eq!(&joined[i][start..end], heads[h][i].as_slice());
        }
    }
    for i in 0..seq_len {
        assert_eq!(joined[i][6], -1);
    }
}

#[test]
fn concat_with_no_heads_is_all_fill() {
    let heads: Vec<Vec<Vec<u8>>> = Vec::new();
    let joined = concat_heads(&heads, 2, 3, 4, 7);
    assert_eq!(joined, vec![vec![7; 4]; 2]);
}

#[test]
fn concat_with_zero_width_heads_is_all_fill() {
    let heads: Vec<Vec<Vec<u8>>> = vec![vec![vec![], vec![]]; 3];
    let joined = concat_heads(&heads, 2, 0, 2, 9);
    assert_eq!(joined, vec![vec![9, 9], vec![9, 9]]);
}
