use vstd::prelude::*;
use vstd::arithmetic::div_mod::{lemma_fundamental_div_mod, lemma_fundamental_div_mod_converse};
use vstd::arithmetic::mul::{lemma_mul_inequality, lemma_mul_is_distributive_add_other_way};

verus! {

/// Width of one attention head when `d_model` columns are shared among
/// `num_heads` heads (integer division: the remainder columns belong to no
/// head).
pub open spec fn head_width(d_model: int, num_heads: int) -> int {
    d_model / num_heads
}

/// Entry `(i, c)` of the joined head outputs: column `c` belongs to head
/// `c / d_k` at offset `c % d_k` while it lies inside the heads' blocks;
/// the columns after the last block keep `fill`.
pub open spec fn joined_entry<T>(heads: Seq<Vec<Vec<T>>>, d_k: int, i: int, c: int, fill: T) -> T {
    if 0 <= c < heads.len() * d_k {
        heads[c / d_k]@[i]@[c % d_k]
    } else {
        fill
    }
}

/// The head outputs are shaped to be joined: each of the first `seq_len`
/// rows of every head holds at least `d_k` values, and the blocks of all
/// heads fit in `d_model` columns.
pub open spec fn heads_fit<T>(heads: Seq<Vec<Vec<T>>>, seq_len: int, d_k: int, d_model: int) -> bool {
    &&& 0 <= d_k
    &&& heads.len() * d_k <= d_model
    &&& forall|h: int| 0 <= h < heads.len() ==> #[trigger] heads[h]@.len() >= seq_len
    &&& forall|h: int, i: int|
        0 <= h < heads.len() && 0 <= i < seq_len ==> #[trigger] heads[h]@[i]@.len() >= d_k
}

proof fn lemma_block_end(h: int, num_heads: int, d_k: int)
    requires
        0 <= h < num_heads,
        0 <= d_k,
    ensures
        h * d_k + d_k == (h + 1) * d_k,
        (h + 1) * d_k <= num_heads * d_k,
        0 <= h * d_k,
{
    lemma_mul_is_distributive_add_other_way(d_k, h, 1);
    lemma_mul_inequality(h + 1, num_heads, d_k);
    lemma_mul_inequality(0, h, d_k);
}

proof fn lemma_heads_fill_model(d_model: int, num_heads: int)
    requires
        0 <= d_model,
        0 < num_heads,
    ensures
        0 <= head_width(d_model, num_heads),
        num_heads * head_width(d_model, num_heads) <= d_model,
{
    lemma_fundamental_div_mod(d_model, num_heads);
    assert(0 <= d_model / num_heads) by (nonlinear_arith)
        requires
            0 <= d_model,
            0 < num_heads,
    ;
}

/// Width of each of `num_heads` attention heads over `d_model` columns.
pub fn head_dim(d_model: usize, num_heads: usize) -> (d_k: usize)
    requires
        num_heads > 0,
    ensures
        d_k == head_width(d_model as int, num_heads as int),
        d_k == d_model / num_heads,
        num_heads * d_k <= d_model < num_heads * (d_k + 1),
{
    proof {
        lemma_head_width_is_quotient(d_model as int, num_heads as int);
    }
    d_model / num_heads
}

/// The half-open column range `[start, end)` that head `head` takes from
/// the projected queries, keys and values: `start = head * d_k`,
/// `end = start + d_k`, with `d_k = d_model / num_heads`.
pub fn head_columns(d_model: usize, num_heads: usize, head: usize) -> (range: (usize, usize))
    requires
        head < num_heads,
    ensures
        range.0 == head * head_width(d_model as int, num_heads as int),
        range.1 == range.0 + head_width(d_model as int, num_heads as int),
        range.1 <= d_model,
        range.0 == head * (d_model / num_heads),
        range.1 == head * (d_model / num_heads) + d_model / num_heads,
{
    let d_k = d_model / num_heads;
    proof {
        lemma_heads_fill_model(d_model as int, num_heads as int);
        lemma_block_end(head as int, num_heads as int, d_k as int);
    }
    let start = head * d_k;
    (start, start + d_k)
}

/// Joins the outputs of the heads side by side into a `seq_len` x `d_model`
/// matrix (rows of columns): head `h`'s column `j` lands in column
/// `h * d_k + j`, and the columns after the last head's block hold `fill`.
pub fn concat_heads<T: Copy>(
    heads: &Vec<Vec<Vec<T>>>,
    seq_len: usize,
    d_k: usize,
    d_model: usize,
    fill: T,
) -> (joined: Vec<Vec<T>>)
    requires
        heads_fit(heads@, seq_len as int, d_k as int, d_model as int),
    ensures
        joined@.len() == seq_len,
        forall|i: int| 0 <= i < seq_len ==> #[trigger] joined@[i]@.len() == d_model,
        forall|i: int, c: int|
            0 <= i < seq_len && 0 <= c < d_model ==> #[trigger] joined@[i]@[c] == joined_entry(
                heads@,
                d_k as int,
                i,
                c,
                fill,
            ),
        forall|i: int, h: int, j: int|
            0 <= i < seq_len && 0 <= h < heads@.len() && 0 <= j < d_k ==> #[trigger] joined@[i]@[h
                * d_k + j] == heads@[h]@[i]@[j],
        forall|i: int, c: int|
            0 <= i < seq_len && heads@.len() * d_k <= c < d_model ==> #[trigger] joined@[i]@[c]
                == fill,
{
    let num_heads = heads.len();
    let mut joined: Vec<Vec<T>> = Vec::new();
    for i in 0..seq_len
        invariant
            num_heads == heads@.len(),
            heads_fit(heads@, seq_len as int, d_k as int, d_model as int),
            joined@.len() == i,
            forall|r: int| 0 <= r < i ==> #[trigger] joined@[r]@.len() == d_model,
            forall|r: int, c: int|
                0 <= r < i && 0 <= c < d_model ==> #[trigger] joined@[r]@[c] == joined_entry(
                    heads@,
                    d_k as int,
                    r,
                    c,
                    fill,
                ),
    {
        let mut row: Vec<T> = Vec::new();
        assert(0 * d_k == 0);
        for h in 0..num_heads
            invariant
                num_heads == heads@.len(),
                heads_fit(heads@, seq_len as int, d_k as int, d_model as int),
                0 <= i < seq_len,
                row@.len() == h * d_k,
                forall|c: int|
                    0 <= c < row@.len() ==> #[trigger] row@[c] == joined_entry(
                        heads@,
                        d_k as int,
                        i as int,
                        c,
                        fill,
                    ),
        {
            proof {
                lemma_block_end(h as int, num_heads as int, d_k as int);
            }
            let head_row = &heads[h][i];
            for j in 0..d_k
                invariant
                    num_heads == heads@.len(),
                    heads_fit(heads@, seq_len as int, d_k as int, d_model as int),
                    0 <= i < seq_len,
                    0 <= h < num_heads,
                    head_row@ == heads@[h as int]@[i as int]@,
                    h * d_k + d_k == (h + 1) * d_k,
                    (h + 1) * d_k <= num_heads * d_k,
                    0 <= h * d_k,
                    row@.len() == h * d_k + j,
                    forall|c: int|
                        0 <= c < row@.len() ==> #[trigger] row@[c] == joined_entry(
                            heads@,
                            d_k as int,
                            i as int,
                            c,
                            fill,
                        ),
            {
                let ghost c = h * d_k + j;
                proof {
                    lemma_fundamental_div_mod_converse(c, d_k as int, h as int, j as int);
                }
                row.push(head_row[j]);
            }
        }
        while row.len() < d_model
            invariant
                num_heads == heads@.len(),
                heads_fit(heads@, seq_len as int, d_k as int, d_model as int),
                0 <= i < seq_len,
                num_heads * d_k <= row@.len() <= d_model,
                forall|c: int|
                    0 <= c < row@.len() ==> #[trigger] row@[c] == joined_entry(
                        heads@,
                        d_k as int,
                        i as int,
                        c,
                        fill,
                    ),
            decreases d_model - row@.len(),
        {
            row.push(fill);
        }
        joined.push(row);
    }
    proof {
        assert forall|i: int, h: int, j: int|
            0 <= i < seq_len && 0 <= h < heads@.len() && 0 <= j < d_k implies #[trigger] joined@[i]@[h
                * d_k + j] == heads@[h]@[i]@[j] by {
            lemma_block_end(h, num_heads as int, d_k as int);
            lemma_fundamental_div_mod_converse(h * d_k + j, d_k as int, h, j);
        }
    }
    joined
}

/// The heads take disjoint column blocks, in head order, and every block
/// lies inside the model width: for heads `h1 < h2`, head `h1`'s block ends
/// where or before head `h2`'s begins, and head `h2`'s block ends by column
/// `d_model`.
pub proof fn lemma_head_blocks_disjoint(d_model: int, num_heads: int, h1: int, h2: int)
    requires
        0 <= d_model,
        0 <= h1 < h2 < num_heads,
    ensures
        ({
            let d_k = head_width(d_model, num_heads);
            &&& 0 <= h1 * d_k
            &&& h1 * d_k + d_k <= h2 * d_k
            &&& h2 * d_k + d_k <= d_model
        }),
{
    let d_k = head_width(d_model, num_heads);
    lemma_heads_fill_model(d_model, num_heads);
    lemma_block_end(h1, h2, d_k);
    lemma_block_end(h2, num_heads, d_k);
}

/// Joining puts each head's output back on the very columns that the head
/// was cut from: for a head `h` and a column `c` in its block
/// `[h * d_k, h * d_k + d_k)`, the joined entry `(i, c)` is head `h`'s entry
/// `(i, c - h * d_k)`.
pub proof fn lemma_join_restores_head_block<T>(
    heads: Seq<Vec<Vec<T>>>,
    d_model: int,
    h: int,
    i: int,
    c: int,
    fill: T,
)
    requires
        0 <= d_model,
        0 <= h < heads.len(),
        h * head_width(d_model, heads.len() as int) <= c < h * head_width(
            d_model,
            heads.len() as int,
        ) + head_width(d_model, heads.len() as int),
    ensures
        joined_entry(heads, head_width(d_model, heads.len() as int), i, c, fill) == heads[h]@[i]@[c
            - h * head_width(d_model, heads.len() as int)],
{
    let num_heads = heads.len() as int;
    let d_k = head_width(d_model, num_heads);
    lemma_heads_fill_model(d_model, num_heads);
    lemma_block_end(h, num_heads, d_k);
    lemma_fundamental_div_mod_converse(c, d_k, h, c - h * d_k);
}

/// The head width is the integer quotient of the model width by the number
/// of heads: the heads' blocks together never exceed the model width, and
/// they leave fewer than `num_heads` columns unused.
pub proof fn lemma_head_width_is_quotient(d_model: int, num_heads: int)
    requires
        0 <= d_model,
        0 < num_heads,
    ensures
        head_width(d_model, num_heads) == d_model / num_heads,
        0 <= head_width(d_model, num_heads),
        num_heads * head_width(d_model, num_heads) <= d_model,
        d_model < num_heads * (head_width(d_model, num_heads) + 1),
        d_model - num_heads * head_width(d_model, num_heads) < num_heads,
{
    let d_k = head_width(d_model, num_heads);
    lemma_heads_fill_model(d_model, num_heads);
    lemma_fundamental_div_mod(d_model, num_heads);
    assert(0 <= d_model % num_heads < num_heads) by (nonlinear_arith)
        requires
            0 < num_heads,
    ;
    assert(num_heads * (d_k + 1) == num_heads * d_k + num_heads) by (nonlinear_arith);
}

} // verus!
