//! What the operations answer and what they leave in each field of a batch.
//!
//! The statements here speak of the bare fields of a batch: of its limits, of the cells of its
//! arrays, and of the inputs of the operation. They hold for every batch and every input that
//! the operation admits.

use crate::error::{decimal, BatchAddError};
use crate::llama_batch::{BatchArrays, TokenArray};
use crate::model::{capacity_of, BatchView, TokensView};
use crate::token::LlamaToken;
use vstd::prelude::*;

verus! {

// ----- Answers -----

/// Tokens can be added just where the count of those in the batch and those to come does not
/// exceed what the batch was allocated for. Otherwise the answer names that limit.
pub proof fn law_add_is_answered_by_the_room_left(b: BatchView, count: nat)
    ensures
        b.add_answer(count) is Ok <==> b.arrays.n_tokens + count <= b.allocated,
        b.has_room(count) <==> b.arrays.n_tokens + count <= b.allocated,
        b.add_answer(count) matches Err(e) ==> e == BatchAddError::InsufficientSpace(
            b.allocated as usize,
        ),
{
}

/// A token with an embedding row can be added just where the batch has embedding storage, the
/// row is as wide as the batch, and there is room for one more. Each refusal comes just on its
/// own ground: no storage before all, then a row of another width, then no room.
pub proof fn law_add_with_embedding_is_answered_by_width_and_room(b: BatchView, len: nat)
    ensures
        b.add_with_embedding_answer(len) is Ok <==> b.n_embd > 0 && len == b.n_embd
            && b.arrays.n_tokens + 1 <= b.allocated,
        b.add_with_embedding_answer(len) matches Err(e) ==> match e {
            BatchAddError::EmbeddingsDisabled => b.n_embd == 0,
            BatchAddError::EmbeddingLengthMismatch { expected, actual } => {
                &&& b.n_embd > 0
                &&& len != b.n_embd
                &&& expected == b.n_embd as usize
                &&& actual == len as usize
            },
            BatchAddError::InsufficientSpace(space) => {
                &&& b.n_embd > 0
                &&& len == b.n_embd
                &&& b.arrays.n_tokens + 1 > b.allocated
                &&& space == b.allocated as usize
            },
            _ => false,
        },
{
}

/// A position row can be set just where it is an extra row of the batch (above row 0 and below
/// the number of rows) and there is one position for each token. Each refusal comes just on its
/// own ground: a row out of range before a row of another length.
pub proof fn law_set_position_row_is_answered_by_range_and_length(b: BatchView, row: nat, len: nat)
    ensures
        b.set_position_row_answer(row, len) is Ok <==> 0 < row < b.n_pos_rows && len
            == b.arrays.n_tokens,
        b.set_position_row_answer(row, len) matches Err(e) ==> match e {
            BatchAddError::PositionRowOutOfRange { row: r, rows } => {
                &&& row == 0 || row >= b.n_pos_rows
                &&& r == row as usize
                &&& rows == b.n_pos_rows as usize
            },
            BatchAddError::PositionRowLengthMismatch { expected, actual } => {
                &&& 0 < row < b.n_pos_rows
                &&& len != b.arrays.n_tokens
                &&& expected == b.arrays.n_tokens as usize
                &&& actual == len as usize
            },
            _ => false,
        },
{
}

// ----- New batches -----

/// A limit on the sequences of a token is kept as it is, and a negative one leaves no room.
pub proof fn law_sequence_limit_is_kept(n_seq_max: i32)
    ensures
        0 <= n_seq_max ==> capacity_of(n_seq_max) == n_seq_max,
        n_seq_max < 0 ==> capacity_of(n_seq_max) == 0,
{
}

/// A new batch for tokens has the limits that were asked for and arrays for that many tokens,
/// and no embedding storage.
pub proof fn law_new_token_batch(n_tokens: nat, seq_capacity: nat)
    ensures
        ({
            let b = BatchView::fresh(n_tokens, 0, seq_capacity);
            &&& b.allocated == n_tokens
            &&& b.n_embd == 0
            &&& b.n_pos_rows == 1
            &&& b.seq_capacity == seq_capacity
            &&& b.initialized_logits.len() == 0
            &&& b.arrays.n_tokens == 0
            &&& b.arrays.token matches TokensView::Owned(ids) && ids.len() == n_tokens
            &&& b.arrays.embd is None
            &&& b.arrays.pos matches Some(pos) && pos.len() == n_tokens
            &&& b.arrays.n_seq_id matches Some(n_seq_id) && n_seq_id.len() == n_tokens
            &&& b.arrays.seq_id matches Some(seq_id) && seq_id.len() == n_tokens && forall|i: int|
                0 <= i < n_tokens ==> (#[trigger] seq_id[i]).len() == seq_capacity
            &&& b.arrays.logits matches Some(logits) && logits.len() == n_tokens
        }),
{
}

/// A new batch for tokens with embedding rows has the limits that were asked for, arrays for
/// that many tokens, and embedding storage of one row of the asked-for width for each of them.
/// It takes rows of that width and no others.
pub proof fn law_new_mixed_batch(n_tokens: nat, n_embd: nat, seq_capacity: nat, len: nat)
    ensures
        ({
            let b = BatchView::fresh_mixed(n_tokens, n_embd, seq_capacity);
            &&& b.allocated == n_tokens
            &&& b.n_embd == n_embd
            &&& b.n_pos_rows == 1
            &&& b.seq_capacity == seq_capacity
            &&& b.initialized_logits.len() == 0
            &&& b.arrays.n_tokens == 0
            &&& b.arrays.token matches TokensView::Owned(ids) && ids.len() == n_tokens
            &&& n_embd == 0 ==> b.arrays.embd is None
            &&& n_embd > 0 ==> (b.arrays.embd matches Some(embd) && embd.len() == n_tokens * n_embd)
            &&& b.arrays.pos matches Some(pos) && pos.len() == n_tokens
            &&& b.arrays.n_seq_id matches Some(n_seq_id) && n_seq_id.len() == n_tokens
            &&& b.arrays.seq_id matches Some(seq_id) && seq_id.len() == n_tokens && forall|i: int|
                0 <= i < n_tokens ==> (#[trigger] seq_id[i]).len() == seq_capacity
            &&& b.arrays.logits matches Some(logits) && logits.len() == n_tokens
            &&& b.add_with_embedding_answer(len) is Ok <==> n_embd > 0 && len == n_embd && n_tokens
                > 0
        }),
{
}

/// A new batch for embedding rows only has the limits that were asked for, the number of
/// position rows among them, no token array, embedding storage of one row of the asked-for
/// width for each token, and a position array for all of the position rows. It takes rows of
/// that width, and each extra position row.
pub proof fn law_new_embeddings_only_batch(
    n_tokens: nat,
    n_embd: nat,
    seq_capacity: nat,
    n_pos_rows: nat,
    len: nat,
    row: nat,
)
    requires
        n_embd > 0,
    ensures
        ({
            let b = BatchView::fresh_positioned(n_tokens, n_embd, seq_capacity, n_pos_rows);
            &&& b.allocated == n_tokens
            &&& b.n_embd == n_embd
            &&& b.n_pos_rows == n_pos_rows
            &&& b.seq_capacity == seq_capacity
            &&& b.initialized_logits.len() == 0
            &&& b.arrays.n_tokens == 0
            &&& b.arrays.token is Null
            &&& b.arrays.embd matches Some(embd) && embd.len() == n_tokens * n_embd
            &&& b.arrays.pos matches Some(pos) && pos.len() == n_tokens * n_pos_rows
            &&& b.arrays.n_seq_id matches Some(n_seq_id) && n_seq_id.len() == n_tokens
            &&& b.arrays.seq_id matches Some(seq_id) && seq_id.len() == n_tokens && forall|i: int|
                0 <= i < n_tokens ==> (#[trigger] seq_id[i]).len() == seq_capacity
            &&& b.arrays.logits matches Some(logits) && logits.len() == n_tokens
            &&& b.add_with_embedding_answer(len) is Ok <==> len == n_embd && n_tokens > 0
            &&& b.set_position_row_answer(row, 0) is Ok <==> 0 < row < n_pos_rows
        }),
{
}

/// The arrays of a new batch of any kind hold zeros throughout.
pub proof fn law_new_arrays_hold_zeros(
    b: BatchView,
    n_tokens: nat,
    n_embd: nat,
    seq_capacity: nat,
    n_pos_rows: nat,
)
    requires
        b == BatchView::fresh(n_tokens, n_embd, seq_capacity) || b == BatchView::fresh_mixed(
            n_tokens,
            n_embd,
            seq_capacity,
        ) || b == BatchView::fresh_positioned(n_tokens, n_embd, seq_capacity, n_pos_rows),
    ensures
        ({
            &&& b.arrays.token matches TokensView::Owned(ids) ==> forall|i: int|
                0 <= i < ids.len() ==> #[trigger] ids[i] == 0
            &&& b.arrays.embd matches Some(embd) ==> forall|i: int|
                0 <= i < embd.len() ==> #[trigger] embd[i] == 0
            &&& b.arrays.pos matches Some(pos) ==> forall|i: int|
                0 <= i < pos.len() ==> #[trigger] pos[i] == 0
            &&& b.arrays.n_seq_id matches Some(n_seq_id) ==> forall|i: int|
                0 <= i < n_seq_id.len() ==> #[trigger] n_seq_id[i] == 0
            &&& b.arrays.seq_id matches Some(seq_id) ==> forall|i: int, j: int|
                0 <= i < seq_id.len() && 0 <= j < seq_id[i].len() ==> #[trigger] seq_id[i][j] == 0
            &&& b.arrays.logits matches Some(logits) ==> forall|i: int|
                0 <= i < logits.len() ==> #[trigger] logits[i] == 0
        }),
{
}

/// A batch that shows a caller's tokens has them as its token array, counts all of them, wants
/// the logits of the last one, and has no other array and no room.
pub proof fn law_batch_that_shows_tokens(tokens: Seq<LlamaToken>)
    ensures
        ({
            let b = BatchView::borrowing(tokens);
            &&& b.allocated == 0
            &&& b.n_embd == 0
            &&& b.n_pos_rows == 1
            &&& b.seq_capacity == 0
            &&& b.initialized_logits == seq![(tokens.len() - 1) as i32]
            &&& b.arrays.n_tokens == tokens.len()
            &&& b.arrays.token == TokensView::Borrowed(tokens)
            &&& b.arrays.embd is None
            &&& b.arrays.pos is None
            &&& b.arrays.n_seq_id is None
            &&& b.arrays.seq_id is None
            &&& b.arrays.logits is None
        }),
{
}

// ----- Changes -----

/// Clearing sets the token count to 0 and empties the list of wanted logits. No limit and no
/// cell of any array changes.
pub proof fn law_clear_changes_only_the_count_and_the_list(b: BatchView)
    ensures
        ({
            let a = b.cleared();
            &&& a.arrays.n_tokens == 0
            &&& a.initialized_logits.len() == 0
            &&& a.allocated == b.allocated
            &&& a.n_embd == b.n_embd
            &&& a.n_pos_rows == b.n_pos_rows
            &&& a.seq_capacity == b.seq_capacity
            &&& a.arrays.token == b.arrays.token
            &&& a.arrays.embd == b.arrays.embd
            &&& a.arrays.pos == b.arrays.pos
            &&& a.arrays.n_seq_id == b.arrays.n_seq_id
            &&& a.arrays.seq_id == b.arrays.seq_id
            &&& a.arrays.logits == b.arrays.logits
        }),
{
}

/// Adding a token writes the cells with the index that the token count had, each with what was
/// given, and raises the count by one. Of the sequence ids, those not given keep what the cells
/// held. The index joins the list of wanted logits just where they are wanted. No limit, no
/// other cell and no embedding value changes.
pub proof fn law_add_writes_the_cells_of_one_token(
    b: BatchView,
    id: i32,
    pos: i32,
    seq_ids: Seq<i32>,
    logits: bool,
)
    requires
        b.wf(),
        b.arrays.n_tokens + 1 <= b.allocated,
        seq_ids.len() <= b.seq_capacity,
    ensures
        ({
            let n = b.arrays.n_tokens;
            let a = b.added(id, pos, seq_ids, logits);
            &&& a.arrays.n_tokens == n + 1
            &&& a.allocated == b.allocated
            &&& a.n_embd == b.n_embd
            &&& a.n_pos_rows == b.n_pos_rows
            &&& a.seq_capacity == b.seq_capacity
            &&& logits ==> a.initialized_logits == b.initialized_logits.push(n as i32)
            &&& !logits ==> a.initialized_logits == b.initialized_logits
            &&& b.arrays.token is Null ==> a.arrays.token is Null
            &&& b.arrays.token matches TokensView::Owned(ids) ==> a.arrays.token
                == TokensView::Owned(ids.update(n, id))
            &&& a.arrays.embd == b.arrays.embd
            &&& a.arrays.pos == Some(b.arrays.pos->0.update(n, pos))
            &&& a.arrays.n_seq_id == Some(b.arrays.n_seq_id->0.update(n, seq_ids.len() as i32))
            &&& a.arrays.seq_id == Some(
                b.arrays.seq_id->0.update(
                    n,
                    seq_ids + b.arrays.seq_id->0[n].skip(seq_ids.len() as int),
                ),
            )
            &&& a.arrays.logits == Some(
                b.arrays.logits->0.update(
                    n,
                    if logits {
                        1i8
                    } else {
                        0i8
                    },
                ),
            )
        }),
{
    let n = b.arrays.n_tokens;
    let a = b.added(id, pos, seq_ids, logits);
    assert(a.arrays.seq_id->0[n] =~= seq_ids + b.arrays.seq_id->0[n].skip(seq_ids.len() as int));
}

/// Adding a token with an embedding row does to all but the embedding array what adding the
/// token alone does. In the embedding array it writes the row at the token's index times the
/// width of a row, and changes no other value.
pub proof fn law_add_with_embedding_writes_one_row(
    b: BatchView,
    id: i32,
    embedding: Seq<u32>,
    pos: i32,
    seq_ids: Seq<i32>,
    logits: bool,
)
    requires
        b.wf(),
        b.n_embd > 0,
        embedding.len() == b.n_embd,
        b.arrays.n_tokens + 1 <= b.allocated,
    ensures
        ({
            let n = b.arrays.n_tokens;
            let c = b.added(id, pos, seq_ids, logits);
            let a = b.added_with_embedding(id, embedding, pos, seq_ids, logits);
            &&& a.allocated == c.allocated
            &&& a.n_embd == c.n_embd
            &&& a.n_pos_rows == c.n_pos_rows
            &&& a.seq_capacity == c.seq_capacity
            &&& a.initialized_logits == c.initialized_logits
            &&& a.arrays.n_tokens == c.arrays.n_tokens
            &&& a.arrays.token == c.arrays.token
            &&& a.arrays.pos == c.arrays.pos
            &&& a.arrays.n_seq_id == c.arrays.n_seq_id
            &&& a.arrays.seq_id == c.arrays.seq_id
            &&& a.arrays.logits == c.arrays.logits
            &&& a.arrays.embd == Some(
                b.arrays.embd->0.take(n * b.n_embd) + embedding + b.arrays.embd->0.skip(
                    (n + 1) * b.n_embd,
                ),
            )
        }),
{
    let n = b.arrays.n_tokens;
    let a = b.added_with_embedding(id, embedding, pos, seq_ids, logits);
    assert(0 <= n * b.n_embd && n * b.n_embd + b.n_embd == (n + 1) * b.n_embd && (n + 1) * b.n_embd
        <= b.allocated * b.n_embd) by (nonlinear_arith)
        requires
            0 <= n,
            n + 1 <= b.allocated,
            0 <= b.n_embd,
    ;
    assert(a.arrays.embd->0 =~= b.arrays.embd->0.take(n * b.n_embd) + embedding
        + b.arrays.embd->0.skip((n + 1) * b.n_embd));
}

/// Adding a sequence of tokens writes one cell of each array for each of them, from the index
/// that the token count had on: the token, its index in the sequence as its position, the one
/// sequence, and a flag that is set for the last of them and, where all logits are wanted, for
/// every one. The indices with a set flag join the list of wanted logits. No limit, no other
/// cell and no embedding value changes.
pub proof fn law_add_sequence_writes_the_cells_of_its_tokens(
    b: BatchView,
    tokens: Seq<LlamaToken>,
    seq_id: i32,
    logits_all: bool,
)
    requires
        b.wf(),
        b.arrays.n_tokens + tokens.len() <= b.allocated,
        0 < tokens.len(),
        1 <= b.seq_capacity,
    ensures
        ({
            let n = b.arrays.n_tokens;
            let k = tokens.len() as int;
            let a = b.sequence_added(tokens, seq_id, logits_all, tokens.len());
            &&& a.arrays.n_tokens == n + k
            &&& a.allocated == b.allocated
            &&& a.n_embd == b.n_embd
            &&& a.n_pos_rows == b.n_pos_rows
            &&& a.seq_capacity == b.seq_capacity
            &&& logits_all ==> {
                &&& a.initialized_logits.len() == b.initialized_logits.len() + k
                &&& a.initialized_logits.take(b.initialized_logits.len() as int)
                    == b.initialized_logits
                &&& forall|i: int|
                    0 <= i < k ==> #[trigger] a.initialized_logits[b.initialized_logits.len() + i]
                        == n + i
            }
            &&& !logits_all ==> a.initialized_logits == b.initialized_logits.push(
                (n + k - 1) as i32,
            )
            &&& b.arrays.token is Null ==> a.arrays.token is Null
            &&& b.arrays.token matches TokensView::Owned(ids) ==> {
                &&& a.arrays.token matches TokensView::Owned(new_ids)
                &&& new_ids.len() == ids.len()
                &&& new_ids.take(n) == ids.take(n)
                &&& new_ids.skip(n + k) == ids.skip(n + k)
                &&& forall|i: int| 0 <= i < k ==> #[trigger] new_ids[n + i] == tokens[i].0
            }
            &&& a.arrays.embd == b.arrays.embd
            &&& a.arrays.pos matches Some(pos) && {
                &&& pos.len() == b.arrays.pos->0.len()
                &&& pos.take(n) == b.arrays.pos->0.take(n)
                &&& pos.skip(n + k) == b.arrays.pos->0.skip(n + k)
                &&& forall|i: int| 0 <= i < k ==> #[trigger] pos[n + i] == i
            }
            &&& a.arrays.n_seq_id matches Some(n_seq_id) && {
                &&& n_seq_id.len() == b.arrays.n_seq_id->0.len()
                &&& n_seq_id.take(n) == b.arrays.n_seq_id->0.take(n)
                &&& n_seq_id.skip(n + k) == b.arrays.n_seq_id->0.skip(n + k)
                &&& forall|i: int| 0 <= i < k ==> #[trigger] n_seq_id[n + i] == 1
            }
            &&& a.arrays.seq_id matches Some(rows) && {
                &&& rows.len() == b.arrays.seq_id->0.len()
                &&& rows.take(n) == b.arrays.seq_id->0.take(n)
                &&& rows.skip(n + k) == b.arrays.seq_id->0.skip(n + k)
                &&& forall|i: int|
                    0 <= i < k ==> #[trigger] rows[n + i] == b.arrays.seq_id->0[n + i].update(
                        0,
                        seq_id,
                    )
            }
            &&& a.arrays.logits matches Some(flags) && {
                &&& flags.len() == b.arrays.logits->0.len()
                &&& flags.take(n) == b.arrays.logits->0.take(n)
                &&& flags.skip(n + k) == b.arrays.logits->0.skip(n + k)
                &&& forall|i: int|
                    0 <= i < k ==> #[trigger] flags[n + i] == (if logits_all || i == k - 1 {
                        1i8
                    } else {
                        0i8
                    })
            }
        }),
{
    assert(b.allocated <= b.allocated * b.n_pos_rows) by (nonlinear_arith)
        requires
            1 <= b.n_pos_rows,
            0 <= b.allocated,
    ;
}

/// Adding a sequence of no tokens changes nothing.
pub proof fn law_add_empty_sequence_changes_nothing(
    b: BatchView,
    tokens: Seq<LlamaToken>,
    seq_id: i32,
    logits_all: bool,
)
    requires
        b.wf(),
        tokens.len() == 0,
    ensures
        b.sequence_added(tokens, seq_id, logits_all, tokens.len()) == b,
{
}

/// Setting a position row writes it at the row's number times the token count, and changes
/// nothing else.
pub proof fn law_set_position_row_writes_one_row(b: BatchView, row: nat, positions: Seq<i32>)
    requires
        b.wf(),
        0 < row < b.n_pos_rows,
        positions.len() == b.arrays.n_tokens,
    ensures
        ({
            let n = b.arrays.n_tokens;
            let a = b.position_row_set(row, positions);
            &&& a.allocated == b.allocated
            &&& a.n_embd == b.n_embd
            &&& a.n_pos_rows == b.n_pos_rows
            &&& a.seq_capacity == b.seq_capacity
            &&& a.initialized_logits == b.initialized_logits
            &&& a.arrays.n_tokens == n
            &&& a.arrays.token == b.arrays.token
            &&& a.arrays.embd == b.arrays.embd
            &&& a.arrays.n_seq_id == b.arrays.n_seq_id
            &&& a.arrays.seq_id == b.arrays.seq_id
            &&& a.arrays.logits == b.arrays.logits
            &&& a.arrays.pos == Some(
                b.arrays.pos->0.take(row * n) + positions + b.arrays.pos->0.skip((row + 1) * n),
            )
        }),
{
    let n = b.arrays.n_tokens;
    let a = b.position_row_set(row, positions);
    assert(0 <= row * n && row * n + n == (row + 1) * n && (row + 1) * n <= b.allocated
        * b.n_pos_rows) by (nonlinear_arith)
        requires
            0 <= row < b.n_pos_rows,
            0 <= n <= b.allocated,
    ;
    assert(a.arrays.pos->0 =~= b.arrays.pos->0.take(row * n) + positions + b.arrays.pos->0.skip(
        (row + 1) * n,
    ));
}

// ----- Reading -----

/// The entries of a batch are as many as its token count, and each is made of the cells with
/// its index.
pub proof fn law_entries_read_the_cells(b: BatchView, i: int)
    requires
        b.wf(),
        b.allocated > 0,
        0 <= i < b.arrays.n_tokens,
    ensures
        b.n_tokens() == b.arrays.n_tokens,
        b.entries().len() == b.arrays.n_tokens,
        b.arrays.token is Null ==> b.entries()[i].token is None,
        b.arrays.token matches TokensView::Owned(ids) ==> b.entries()[i].token == Some(ids[i]),
        b.entries()[i].pos == b.arrays.pos->0[i],
        b.entries()[i].seq_ids.len() == b.arrays.n_seq_id->0[i],
        forall|j: int|
            0 <= j < b.arrays.n_seq_id->0[i] ==> #[trigger] b.entries()[i].seq_ids[j]
                == b.arrays.seq_id->0[i][j],
        b.entries()[i].logits <==> b.arrays.logits->0[i] == 1,
{
    assert(0 <= b.arrays.n_seq_id->0[i] <= b.seq_capacity);
    assert(b.arrays.logits->0[i] == 0 || b.arrays.logits->0[i] == 1);
}

/// The number of tokens in a batch is what its count says.
pub proof fn law_token_count_is_the_count(b: BatchView)
    ensures
        b.n_tokens() == b.arrays.n_tokens,
{
}

/// Value `j` of the embedding row of token `i` lies at `i` times the width of a row plus `j`.
pub proof fn law_embedding_rows_lie_one_after_the_other(b: BatchView, i: int, j: int)
    requires
        b.wf(),
        b.n_embd > 0,
        0 <= i < b.allocated,
        0 <= j < b.n_embd,
    ensures
        b.embedding(i).len() == b.n_embd,
        b.embedding(i)[j] == b.arrays.embd->0[i * b.n_embd + j],
{
    assert(0 <= i * b.n_embd && i * b.n_embd + b.n_embd == (i + 1) * b.n_embd && (i + 1) * b.n_embd
        <= b.allocated * b.n_embd) by (nonlinear_arith)
        requires
            0 <= i < b.allocated,
            0 <= b.n_embd,
    ;
}

/// Position `i` of position row `row` lies at `row` times the token count plus `i`.
pub proof fn law_position_rows_lie_one_after_the_other(b: BatchView, row: int, i: int)
    requires
        b.wf(),
        b.allocated > 0,
        0 <= row < b.n_pos_rows,
        0 <= i < b.arrays.n_tokens,
    ensures
        b.position_row(row).len() == b.arrays.n_tokens,
        b.position_row(row)[i] == b.arrays.pos->0[row * b.arrays.n_tokens + i],
{
    let n = b.arrays.n_tokens;
    assert(0 <= row * n && row * n + n == (row + 1) * n && (row + 1) * n <= b.allocated
        * b.n_pos_rows) by (nonlinear_arith)
        requires
            0 <= row < b.n_pos_rows,
            0 <= n <= b.allocated,
    ;
}

/// The model of the arrays holds what the arrays hold, cell for cell.
pub proof fn law_arrays_are_modelled_as_they_are(arrays: BatchArrays<'_>)
    ensures
        arrays@.n_tokens == arrays.n_tokens,
        arrays.token is Null ==> arrays@.token is Null,
        arrays.token matches TokenArray::Owned(ids) ==> arrays@.token == TokensView::Owned(ids@),
        arrays.token matches TokenArray::Borrowed(tokens) ==> {
            &&& arrays@.token == TokensView::Borrowed(tokens@)
            &&& arrays.token.shown() == Some(tokens)
        },
        arrays.token !is Borrowed ==> arrays.token.shown() is None,
        arrays.embd is None <==> arrays@.embd is None,
        arrays.embd matches Some(v) ==> arrays@.embd == Some(v@),
        arrays.pos is None <==> arrays@.pos is None,
        arrays.pos matches Some(v) ==> arrays@.pos == Some(v@),
        arrays.n_seq_id is None <==> arrays@.n_seq_id is None,
        arrays.n_seq_id matches Some(v) ==> arrays@.n_seq_id == Some(v@),
        arrays.seq_id is None <==> arrays@.seq_id is None,
        arrays.seq_id matches Some(v) ==> {
            &&& arrays@.seq_id->0.len() == v@.len()
            &&& forall|i: int| 0 <= i < v@.len() ==> #[trigger] arrays@.seq_id->0[i] == v@[i]@
        },
        arrays.logits is None <==> arrays@.logits is None,
        arrays.logits matches Some(v) ==> arrays@.logits == Some(v@),
{
}

/// The identifiers in a token array are those of its cells, whether they are the batch's own or
/// a caller's.
pub proof fn law_token_array_holds_its_identifiers(token: TokensView, i: int)
    ensures
        token.ids() is None <==> token is Null,
        token matches TokensView::Owned(ids) ==> token.ids() == Some(ids),
        token matches TokensView::Borrowed(tokens) ==> {
            &&& token.ids()->0.len() == tokens.len()
            &&& 0 <= i < tokens.len() ==> token.ids()->0[i] == tokens[i].0
        },
{
}

// ----- Texts -----

/// The text of a number ends in its last digit, which follows the text of the number without
/// that digit, if any is left.
pub proof fn law_number_is_written_in_decimal(n: nat)
    ensures
        decimal(n).len() > 0,
        decimal(n).last() as int == '0' as int + n % 10,
        n < 10 ==> decimal(n).len() == 1,
        n >= 10 ==> decimal(n).drop_last() == decimal(n / 10),
{
    if n >= 10 {
        assert(decimal(n).drop_last() =~= decimal(n / 10));
    }
}

/// Different numbers have different texts.
pub proof fn law_number_can_be_told_from_its_text(m: nat, n: nat)
    requires
        decimal(m) == decimal(n),
    ensures
        m == n,
    decreases m,
{
    law_number_is_written_in_decimal(m);
    law_number_is_written_in_decimal(n);
    if m >= 10 && n >= 10 {
        law_number_can_be_told_from_its_text(m / 10, n / 10);
    } else if m >= 10 {
        law_number_is_written_in_decimal(m / 10);
    } else if n >= 10 {
        law_number_is_written_in_decimal(n / 10);
    }
}

/// Each error says what went wrong, and names its numbers in decimal.
pub proof fn law_messages(a: usize, b: usize)
    ensures
        BatchAddError::InsufficientSpace(a).message_text() == "Insufficient Space of "@ + decimal(
            a as nat,
        ),
        BatchAddError::EmptyBuffer.message_text() == "Empty buffer"@,
        BatchAddError::EmbeddingsDisabled.message_text()
            == "Batch does not have embedding storage"@,
        (BatchAddError::EmbeddingLengthMismatch { expected: a, actual: b }).message_text()
            == "Embedding length mismatch: expected "@ + decimal(a as nat) + ", got "@ + decimal(
            b as nat,
        ),
        (BatchAddError::PositionRowOutOfRange { row: a, rows: b }).message_text()
            == "Position row "@ + decimal(a as nat) + " is not an extra row of a batch with "@
            + decimal(b as nat) + " position rows"@,
        (BatchAddError::PositionRowLengthMismatch { expected: a, actual: b }).message_text()
            == "Position row length mismatch: expected "@ + decimal(a as nat) + ", got "@ + decimal(
            b as nat,
        ),
{
}

} // verus!
