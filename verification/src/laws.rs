//! Properties of batches that span operations.

use crate::error::BatchAddError;
use crate::memory::overwrite;
use crate::model::{ArraysView, BatchView, Entry, TokensView};
use crate::token::LlamaToken;
use vstd::prelude::*;

verus! {

/// The position array has room for the positions of row 0.
pub proof fn lemma_row_zero_fits(b: BatchView)
    requires
        1 <= b.n_pos_rows,
    ensures
        b.allocated <= b.allocated * b.n_pos_rows,
{
    assert(b.allocated <= b.allocated * b.n_pos_rows) by (nonlinear_arith)
        requires
            1 <= b.n_pos_rows,
            0 <= b.allocated,
    ;
}

/// Adding a token keeps a batch valid.
pub proof fn lemma_added_wf(b: BatchView, id: i32, pos: i32, seq_ids: Seq<i32>, logits: bool)
    requires
        b.wf(),
        b.has_room(1),
        seq_ids.len() <= b.seq_capacity,
    ensures
        b.added(id, pos, seq_ids, logits).wf(),
{
    let n = b.n_tokens();
    let a = b.added(id, pos, seq_ids, logits);
    lemma_row_zero_fits(b);
    assert forall|i: i32|
        0 <= i < a.n_tokens() && #[trigger] a.arrays.logits->0[i as int] == 1 implies
        a.initialized_logits.contains(i) by {
        if i == n {
            assert(a.initialized_logits[b.initialized_logits.len() as int] == i);
        } else {
            let k = choose|k: int|
                0 <= k < b.initialized_logits.len() && b.initialized_logits[k] == i;
            assert(a.initialized_logits[k] == i);
        }
    }
}

/// The embedding row of a token lies within the embedding array.
pub proof fn lemma_embedding_offset(b: BatchView, i: int)
    requires
        0 <= i < b.allocated,
    ensures
        0 <= i * b.n_embd,
        i * b.n_embd + b.n_embd == (i + 1) * b.n_embd,
        (i + 1) * b.n_embd <= b.allocated * b.n_embd,
{
    assert(0 <= i * b.n_embd && i * b.n_embd + b.n_embd == (i + 1) * b.n_embd && (i + 1) * b.n_embd
        <= b.allocated * b.n_embd) by (nonlinear_arith)
        requires
            0 <= i < b.allocated,
            0 <= b.n_embd,
    ;
}

/// Writing an embedding row keeps a batch valid.
pub proof fn lemma_embedding_set_wf(b: BatchView, i: int, row: Seq<u32>)
    requires
        b.wf(),
    ensures
        b.embedding_set(i, row).wf(),
{
}

/// A position row lies within the position array.
pub proof fn lemma_position_row_offset(b: BatchView, row: int)
    requires
        0 <= row < b.n_pos_rows,
        0 <= b.n_tokens() <= b.allocated,
    ensures
        0 <= row * b.n_tokens(),
        row * b.n_tokens() + b.n_tokens() == (row + 1) * b.n_tokens(),
        (row + 1) * b.n_tokens() <= b.allocated * b.n_pos_rows,
{
    let n = b.n_tokens();
    assert(0 <= row * n && row * n + n == (row + 1) * n && (row + 1) * n <= b.allocated
        * b.n_pos_rows) by (nonlinear_arith)
        requires
            0 <= row < b.n_pos_rows,
            0 <= n <= b.allocated,
    ;
}

/// Setting a position row keeps a batch valid.
pub proof fn lemma_position_row_set_wf(b: BatchView, row: nat, positions: Seq<i32>)
    requires
        b.wf(),
    ensures
        b.position_row_set(row, positions).wf(),
{
}

/// Adding the first none of a sequence of tokens changes nothing.
pub proof fn lemma_sequence_start(
    b: BatchView,
    tokens: Seq<LlamaToken>,
    seq_id: i32,
    logits_all: bool,
)
    requires
        b.wf(),
    ensures
        b.sequence_added(tokens, seq_id, logits_all, 0) == b,
{
}

/// Adding a sequence of tokens goes on by adding the next of them, at the position that is its
/// index in the sequence.
pub proof fn lemma_sequence_step(
    b: BatchView,
    tokens: Seq<LlamaToken>,
    seq_id: i32,
    logits_all: bool,
    k: nat,
)
    requires
        b.wf(),
        b.has_room(tokens.len()),
        k < tokens.len(),
        1 <= b.seq_capacity,
    ensures
        b.sequence_added(tokens, seq_id, logits_all, k).added(
            tokens[k as int].0,
            k as i32,
            seq![seq_id],
            logits_all || k == tokens.len() - 1,
        ) == b.sequence_added(tokens, seq_id, logits_all, k + 1),
{
    let before = b.sequence_added(tokens, seq_id, logits_all, k);
    let after = b.sequence_added(tokens, seq_id, logits_all, k + 1);
    let n = before.n_tokens();
    lemma_row_zero_fits(b);
    assert(overwrite(before.arrays.seq_id->0[n], 0, seq![seq_id]) =~= after.arrays.seq_id->0[n]);
}

// ----- Filling a batch -----

/// The entry that adding a token to `b` appends: the token itself only where the batch carries
/// tokens.
pub open spec fn new_entry(
    b: BatchView,
    id: i32,
    pos: i32,
    seq_ids: Seq<i32>,
    logits: bool,
) -> Entry {
    Entry {
        token: if b.arrays.token is Owned {
            Some(id)
        } else {
            None
        },
        pos,
        seq_ids,
        logits,
    }
}

/// A new batch is valid and empty, and has room for as many tokens as it was made for. One
/// made for tokens carries tokens, one made for both carries both, and one made for embedding
/// rows only carries no tokens.
pub proof fn law_new_batches(n_tokens: nat, n_embd: nat, seq_capacity: nat, n_pos_rows: nat)
    requires
        n_tokens <= i32::MAX,
        n_embd <= i32::MAX,
        seq_capacity <= i32::MAX,
        0 < n_pos_rows,
    ensures
        ({
            let b = BatchView::fresh(n_tokens, 0, seq_capacity);
            &&& b.wf()
            &&& b.entries() == Seq::<Entry>::empty()
            &&& forall|k: nat| #[trigger] b.has_room(k) <==> k <= n_tokens
            &&& b.arrays.token is Owned && b.arrays.embd is None
        }),
        ({
            let b = BatchView::fresh_mixed(n_tokens, n_embd, seq_capacity);
            &&& b.wf()
            &&& b.entries() == Seq::<Entry>::empty()
            &&& forall|k: nat| #[trigger] b.has_room(k) <==> k <= n_tokens
            &&& b.arrays.token is Owned && (b.arrays.embd is Some <==> n_embd > 0)
        }),
        n_embd > 0 ==> {
            let b = BatchView::fresh_positioned(n_tokens, n_embd, seq_capacity, n_pos_rows);
            &&& b.wf()
            &&& b.entries() == Seq::<Entry>::empty()
            &&& forall|k: nat| #[trigger] b.has_room(k) <==> k <= n_tokens
            &&& b.arrays.token is Null && b.arrays.embd is Some
        },
{
}

/// Adding a token appends one entry, and changes neither those before it nor any embedding
/// row. It uses up the room of one token.
pub proof fn law_add_appends(b: BatchView, id: i32, pos: i32, seq_ids: Seq<i32>, logits: bool)
    requires
        b.wf(),
        b.has_room(1),
        seq_ids.len() <= b.seq_capacity,
    ensures
        b.added(id, pos, seq_ids, logits).wf(),
        b.added(id, pos, seq_ids, logits).entries() == b.entries().push(
            new_entry(b, id, pos, seq_ids, logits),
        ),
        b.added(id, pos, seq_ids, logits).arrays.embd == b.arrays.embd,
        forall|k: nat|
            #[trigger] b.added(id, pos, seq_ids, logits).has_room(k) <==> b.has_room(k + 1),
{
    let n = b.n_tokens();
    let a = b.added(id, pos, seq_ids, logits);
    lemma_added_wf(b, id, pos, seq_ids, logits);
    lemma_row_zero_fits(b);
    assert(a.entry(n).seq_ids =~= seq_ids);
}

/// Adding a token with an embedding row appends one entry and stores its row. It changes
/// neither the entries before it nor their embedding rows.
pub proof fn law_add_with_embedding_appends(
    b: BatchView,
    id: i32,
    embedding: Seq<u32>,
    pos: i32,
    seq_ids: Seq<i32>,
    logits: bool,
)
    requires
        b.wf(),
        b.add_with_embedding_answer(embedding.len()) is Ok,
        seq_ids.len() <= b.seq_capacity,
    ensures
        ({
            let a = b.added_with_embedding(id, embedding, pos, seq_ids, logits);
            &&& a.wf()
            &&& a.entries() == b.entries().push(new_entry(b, id, pos, seq_ids, logits))
            &&& a.embedding(b.n_tokens()) == embedding
            &&& forall|i: int|
                0 <= i < b.n_tokens() ==> #[trigger] a.embedding(i) == b.embedding(i)
        }),
{
    let n = b.n_tokens();
    let c = b.added(id, pos, seq_ids, logits);
    let a = b.added_with_embedding(id, embedding, pos, seq_ids, logits);
    law_add_appends(b, id, pos, seq_ids, logits);
    lemma_embedding_set_wf(c, n, embedding);
    lemma_embedding_offset(b, n);
    assert forall|i: int| 0 <= i < n implies #[trigger] a.embedding(i) == b.embedding(i) by {
        lemma_embedding_offset(b, i);
        assert((i + 1) * b.n_embd <= n * b.n_embd) by (nonlinear_arith)
            requires
                i + 1 <= n,
                0 <= b.n_embd,
        ;
    }
}

/// Adding a sequence of tokens appends one entry for each of them, at positions that count
/// from 0, in the one sequence. It changes neither the entries before them nor any embedding
/// row.
pub proof fn law_add_sequence_appends(
    b: BatchView,
    tokens: Seq<LlamaToken>,
    seq_id: i32,
    logits_all: bool,
)
    requires
        b.wf(),
        b.has_room(tokens.len()),
        0 < tokens.len() ==> 1 <= b.seq_capacity,
    ensures
        ({
            let a = b.sequence_added(tokens, seq_id, logits_all, tokens.len());
            &&& a.wf()
            &&& a.entries() == b.entries() + Seq::new(
                tokens.len(),
                |i: int|
                    new_entry(
                        b,
                        tokens[i].0,
                        i as i32,
                        seq![seq_id],
                        logits_all || i == tokens.len() - 1,
                    ),
            )
            &&& a.arrays.embd == b.arrays.embd
        }),
{
    lemma_sequence_appends(b, tokens, seq_id, logits_all, tokens.len());
}

/// [`law_add_sequence_appends`] for the first `k` of the tokens.
proof fn lemma_sequence_appends(
    b: BatchView,
    tokens: Seq<LlamaToken>,
    seq_id: i32,
    logits_all: bool,
    k: nat,
)
    requires
        b.wf(),
        b.has_room(tokens.len()),
        0 < tokens.len() ==> 1 <= b.seq_capacity,
        k <= tokens.len(),
    ensures
        ({
            let a = b.sequence_added(tokens, seq_id, logits_all, k);
            &&& a.wf()
            &&& a.entries() == b.entries() + Seq::new(
                k,
                |i: int|
                    new_entry(
                        b,
                        tokens[i].0,
                        i as i32,
                        seq![seq_id],
                        logits_all || i == tokens.len() - 1,
                    ),
            )
        }),
    decreases k,
{
    if k == 0 {
        lemma_sequence_start(b, tokens, seq_id, logits_all);
    } else {
        let j = (k - 1) as nat;
        lemma_sequence_appends(b, tokens, seq_id, logits_all, j);
        lemma_sequence_step(b, tokens, seq_id, logits_all, j);
        let c = b.sequence_added(tokens, seq_id, logits_all, j);
        law_add_appends(
            c,
            tokens[j as int].0,
            j as i32,
            seq![seq_id],
            logits_all || j == tokens.len() - 1,
        );
    }
}

/// The batch after the first `k` of `tokens` were added one by one, each at the position that
/// is its index.
pub open spec fn added_one_by_one(
    b: BatchView,
    tokens: Seq<LlamaToken>,
    seq_id: i32,
    logits_all: bool,
    k: nat,
) -> BatchView
    decreases k,
{
    if k == 0 {
        b
    } else {
        added_one_by_one(b, tokens, seq_id, logits_all, (k - 1) as nat).added(
            tokens[k - 1].0,
            (k - 1) as i32,
            seq![seq_id],
            logits_all || k == tokens.len(),
        )
    }
}

/// Adding a sequence of tokens does what adding them one by one does.
pub proof fn law_add_sequence_is_repeated_add(
    b: BatchView,
    tokens: Seq<LlamaToken>,
    seq_id: i32,
    logits_all: bool,
    k: nat,
)
    requires
        b.wf(),
        b.has_room(tokens.len()),
        0 < tokens.len() ==> 1 <= b.seq_capacity,
        k <= tokens.len(),
    ensures
        b.sequence_added(tokens, seq_id, logits_all, k) == added_one_by_one(
            b,
            tokens,
            seq_id,
            logits_all,
            k,
        ),
    decreases k,
{
    if k == 0 {
        lemma_sequence_start(b, tokens, seq_id, logits_all);
    } else {
        law_add_sequence_is_repeated_add(b, tokens, seq_id, logits_all, (k - 1) as nat);
        lemma_sequence_step(b, tokens, seq_id, logits_all, (k - 1) as nat);
    }
}

/// Whatever `logits_all` says, the last token of an added sequence has its logits set: it is
/// the last in the list of those wanted.
pub proof fn law_last_of_sequence_has_logits(
    b: BatchView,
    tokens: Seq<LlamaToken>,
    seq_id: i32,
    logits_all: bool,
)
    requires
        b.wf(),
        b.has_room(tokens.len()),
        0 < tokens.len(),
        1 <= b.seq_capacity,
    ensures
        ({
            let a = b.sequence_added(tokens, seq_id, logits_all, tokens.len());
            &&& a.entries().last().logits
            &&& 0 < a.initialized_logits.len()
            &&& a.initialized_logits.last() == a.n_tokens() - 1
        }),
{
    law_add_sequence_appends(b, tokens, seq_id, logits_all);
}

/// Where a batch carries no tokens, the token given with an embedding row makes no difference.
pub proof fn law_token_of_embeddings_only_batch_is_ignored(
    b: BatchView,
    id1: i32,
    id2: i32,
    embedding: Seq<u32>,
    pos: i32,
    seq_ids: Seq<i32>,
    logits: bool,
)
    requires
        b.arrays.token is Null,
    ensures
        b.added(id1, pos, seq_ids, logits) == b.added(id2, pos, seq_ids, logits),
        b.added_with_embedding(id1, embedding, pos, seq_ids, logits) == b.added_with_embedding(
            id2,
            embedding,
            pos,
            seq_ids,
            logits,
        ),
{
}

// ----- Logits -----

/// The list of wanted logits holds the indices of just those tokens of the batch that were
/// added with `logits`, each once, in the order of the batch.
pub proof fn law_initialized_logits(b: BatchView)
    requires
        b.wf(),
        b.owns_arrays(),
    ensures
        forall|i: i32|
            #![trigger b.initialized_logits.contains(i)]
            b.initialized_logits.contains(i) <==> 0 <= i < b.n_tokens() && b.entries()[i as int].logits,
        forall|a: int, c: int|
            0 <= a < c < b.initialized_logits.len() ==> b.initialized_logits[a]
                < b.initialized_logits[c],
{
}

// ----- Clearing -----

/// A cleared batch is valid and empty, keeps its storage and what the storage holds, and has
/// room for as many tokens as it was made for.
pub proof fn law_clear_empties(b: BatchView)
    requires
        b.wf(),
    ensures
        b.cleared().wf(),
        b.cleared().n_tokens() == 0,
        b.cleared().entries() == Seq::<Entry>::empty(),
        b.cleared().arrays == (ArraysView { n_tokens: 0, ..b.arrays }),
        forall|k: nat| #[trigger] b.cleared().has_room(k) <==> k <= b.allocated,
        b.cleared().cleared() == b.cleared(),
{
}

// ----- Storage -----

/// Both arrays are absent, or both are there and equally long.
pub open spec fn same_length<T>(a: Option<Seq<T>>, b: Option<Seq<T>>) -> bool {
    match (a, b) {
        (Some(x), Some(y)) => x.len() == y.len(),
        (None, None) => true,
        _ => false,
    }
}

/// Both token arrays are absent, or both are storage of their batch and equally long, or both
/// are the same tokens of a caller.
pub open spec fn same_tokens_kind(a: TokensView, b: TokensView) -> bool {
    match (a, b) {
        (TokensView::Null, TokensView::Null) => true,
        (TokensView::Owned(x), TokensView::Owned(y)) => x.len() == y.len(),
        (TokensView::Borrowed(x), TokensView::Borrowed(y)) => x == y,
        _ => false,
    }
}

/// The two batches have the same limits and arrays of the same lengths.
pub open spec fn same_storage(a: BatchView, b: BatchView) -> bool {
    &&& a.allocated == b.allocated
    &&& a.n_embd == b.n_embd
    &&& a.n_pos_rows == b.n_pos_rows
    &&& a.seq_capacity == b.seq_capacity
    &&& same_tokens_kind(a.arrays.token, b.arrays.token)
    &&& same_length(a.arrays.embd, b.arrays.embd)
    &&& same_length(a.arrays.pos, b.arrays.pos)
    &&& same_length(a.arrays.n_seq_id, b.arrays.n_seq_id)
    &&& same_length(a.arrays.seq_id, b.arrays.seq_id)
    &&& same_length(a.arrays.logits, b.arrays.logits)
}

/// No operation gives a batch other limits, or arrays that it did not have, or takes one away:
/// a token array that is absent stays absent, and one that is a caller's stays that caller's.
pub proof fn law_operations_keep_storage(
    b: BatchView,
    id: i32,
    embedding: Seq<u32>,
    pos: i32,
    seq_ids: Seq<i32>,
    logits: bool,
    tokens: Seq<LlamaToken>,
    seq_id: i32,
    logits_all: bool,
    row: nat,
    positions: Seq<i32>,
)
    requires
        b.wf(),
    ensures
        same_storage(b.cleared(), b),
        b.has_room(1) ==> same_storage(b.added(id, pos, seq_ids, logits), b),
        b.has_room(1) ==> same_storage(
            b.added_with_embedding(id, embedding, pos, seq_ids, logits),
            b,
        ),
        same_storage(b.sequence_added(tokens, seq_id, logits_all, tokens.len()), b),
        same_storage(b.position_row_set(row, positions), b),
{
    if b.has_room(1) {
        lemma_row_zero_fits(b);
    }
}

/// A batch that shows another's tokens takes nothing in: no token, no embedding row, and no
/// position row.
pub proof fn law_borrowing_batch_takes_nothing(b: BatchView, count: nat, row: nat, len: nat)
    requires
        b.wf(),
        !b.owns_arrays(),
        0 < count,
    ensures
        b.add_answer(count) == Err::<(), BatchAddError>(BatchAddError::InsufficientSpace(0)),
        b.add_with_embedding_answer(len) == Err::<(), BatchAddError>(
            BatchAddError::EmbeddingsDisabled,
        ),
        b.set_position_row_answer(row, len) == Err::<(), BatchAddError>(
            BatchAddError::PositionRowOutOfRange { row: row as usize, rows: 1 },
        ),
{
}

/// A batch that shows a caller's tokens is valid, shows all of them, and wants the logits of
/// the last one only.
pub proof fn law_borrowing_batch(tokens: Seq<LlamaToken>)
    requires
        0 < tokens.len() <= i32::MAX,
    ensures
        BatchView::borrowing(tokens).wf(),
        !BatchView::borrowing(tokens).owns_arrays(),
        BatchView::borrowing(tokens).n_tokens() == tokens.len(),
        BatchView::borrowing(tokens).arrays.token == TokensView::Borrowed(tokens),
        BatchView::borrowing(tokens).initialized_logits == seq![
            (BatchView::borrowing(tokens).n_tokens() - 1) as i32,
        ],
{
}

// ----- Reusing a batch -----

/// The two batches are of the same kind and hold the same tokens, with the same logits wanted.
/// What their arrays hold beyond that may differ.
pub open spec fn agree(a: BatchView, b: BatchView) -> bool {
    &&& same_storage(a, b)
    &&& a.n_tokens() == b.n_tokens()
    &&& a.entries() == b.entries()
    &&& a.initialized_logits == b.initialized_logits
}

/// A cleared batch agrees with any batch of its kind that holds nothing: what it held before
/// makes no difference.
pub proof fn law_cleared_batch_agrees_with_an_empty_one(b: BatchView, empty: BatchView)
    requires
        b.wf(),
        empty.wf(),
        same_storage(b, empty),
        empty.n_tokens() == 0,
    ensures
        agree(b.cleared(), empty),
{
    if 0 < empty.initialized_logits.len() {
        law_initialized_logits(empty);
        assert(empty.initialized_logits.contains(empty.initialized_logits[0]));
    }
    assert(empty.initialized_logits =~= b.cleared().initialized_logits);
    assert(empty.entries() =~= b.cleared().entries());
}

/// Batches that agree give the same answers.
pub proof fn law_agreeing_batches_answer_alike(
    a: BatchView,
    b: BatchView,
    count: nat,
    row: nat,
    len: nat,
)
    requires
        agree(a, b),
    ensures
        a.add_answer(count) == b.add_answer(count),
        a.add_with_embedding_answer(len) == b.add_with_embedding_answer(len),
        a.set_position_row_answer(row, len) == b.set_position_row_answer(row, len),
{
}

/// Clearing two batches that agree leaves them in agreement.
pub proof fn law_clear_keeps_agreement(a: BatchView, b: BatchView)
    requires
        agree(a, b),
    ensures
        agree(a.cleared(), b.cleared()),
{
    assert(a.cleared().entries() =~= b.cleared().entries());
}

/// Adding the same token to two batches that agree leaves them in agreement.
pub proof fn law_add_keeps_agreement(
    a: BatchView,
    b: BatchView,
    id: i32,
    pos: i32,
    seq_ids: Seq<i32>,
    logits: bool,
)
    requires
        a.wf(),
        b.wf(),
        agree(a, b),
        a.add_answer(1) is Ok,
        seq_ids.len() <= a.seq_capacity,
    ensures
        agree(a.added(id, pos, seq_ids, logits), b.added(id, pos, seq_ids, logits)),
{
    law_add_appends(a, id, pos, seq_ids, logits);
    law_add_appends(b, id, pos, seq_ids, logits);
    lemma_row_zero_fits(a);
}

/// Adding the same token and embedding row to two batches that agree leaves them in agreement,
/// on the new embedding row as well, and on each earlier one that they agreed on.
pub proof fn law_add_with_embedding_keeps_agreement(
    a: BatchView,
    b: BatchView,
    id: i32,
    embedding: Seq<u32>,
    pos: i32,
    seq_ids: Seq<i32>,
    logits: bool,
)
    requires
        a.wf(),
        b.wf(),
        agree(a, b),
        a.add_with_embedding_answer(embedding.len()) is Ok,
        seq_ids.len() <= a.seq_capacity,
    ensures
        ({
            let c = a.added_with_embedding(id, embedding, pos, seq_ids, logits);
            let d = b.added_with_embedding(id, embedding, pos, seq_ids, logits);
            &&& agree(c, d)
            &&& c.embedding(a.n_tokens()) == d.embedding(a.n_tokens())
            &&& forall|i: int|
                0 <= i < a.n_tokens() && a.embedding(i) == b.embedding(i) ==> #[trigger] c.embedding(
                    i,
                ) == d.embedding(i)
        }),
{
    law_add_with_embedding_appends(a, id, embedding, pos, seq_ids, logits);
    law_add_with_embedding_appends(b, id, embedding, pos, seq_ids, logits);
    let c = a.added_with_embedding(id, embedding, pos, seq_ids, logits);
    let d = b.added_with_embedding(id, embedding, pos, seq_ids, logits);
    lemma_row_zero_fits(a);
    assert forall|i: int|
        0 <= i < a.n_tokens() && a.embedding(i) == b.embedding(i) implies #[trigger] c.embedding(i)
        == d.embedding(i) by {
        assert(d.embedding(i) == b.embedding(i));
    }
}

/// Adding the same sequence of tokens to two batches that agree leaves them in agreement.
pub proof fn law_add_sequence_keeps_agreement(
    a: BatchView,
    b: BatchView,
    tokens: Seq<LlamaToken>,
    seq_id: i32,
    logits_all: bool,
)
    requires
        a.wf(),
        b.wf(),
        agree(a, b),
        a.add_answer(tokens.len()) is Ok,
        0 < tokens.len() ==> 1 <= a.seq_capacity,
    ensures
        agree(
            a.sequence_added(tokens, seq_id, logits_all, tokens.len()),
            b.sequence_added(tokens, seq_id, logits_all, tokens.len()),
        ),
{
    law_add_sequence_appends(a, tokens, seq_id, logits_all);
    law_add_sequence_appends(b, tokens, seq_id, logits_all);
    assert(a.sequence_added(tokens, seq_id, logits_all, tokens.len()).entries()
        =~= b.sequence_added(tokens, seq_id, logits_all, tokens.len()).entries());
}

/// Setting the same position row of two batches that agree leaves them in agreement, on that
/// row as well, and on each other one that they agreed on.
pub proof fn law_set_position_row_keeps_agreement(
    a: BatchView,
    b: BatchView,
    row: nat,
    positions: Seq<i32>,
)
    requires
        a.wf(),
        b.wf(),
        agree(a, b),
        a.set_position_row_answer(row, positions.len()) is Ok,
    ensures
        ({
            let c = a.position_row_set(row, positions);
            let d = b.position_row_set(row, positions);
            &&& agree(c, d)
            &&& c.position_row(row as int) == d.position_row(row as int)
            &&& forall|r: int|
                0 <= r < a.n_pos_rows && a.position_row(r) == b.position_row(r)
                    ==> #[trigger] c.position_row(r) == d.position_row(r)
        }),
{
    law_position_row_reads_back(a, row, positions);
    law_position_row_reads_back(b, row, positions);
    let c = a.position_row_set(row, positions);
    let d = b.position_row_set(row, positions);
    assert forall|r: int|
        0 <= r < a.n_pos_rows && a.position_row(r) == b.position_row(r) implies #[trigger] c.position_row(
        r,
    ) == d.position_row(r) by {
        assert(r != row ==> d.position_row(r) == b.position_row(r));
    }
}

// ----- Position rows -----

/// Position row 0 holds the positions that the tokens were added at.
pub proof fn law_row_zero_holds_the_positions(b: BatchView)
    requires
        b.wf(),
        b.owns_arrays(),
    ensures
        b.position_row(0) == Seq::new(b.n_tokens() as nat, |i: int| b.entries()[i].pos),
{
    lemma_position_row_offset(b, 0);
}

/// Two different position rows do not overlap.
proof fn lemma_rows_apart(n: int, r1: int, r2: int)
    requires
        0 <= n,
        r1 < r2,
    ensures
        r1 * n + n <= r2 * n,
{
    assert(r1 * n + n <= r2 * n) by (nonlinear_arith)
        requires
            0 <= n,
            r1 < r2,
    ;
}

/// A position row that was set reads back, cell `i` of it at `row * n_tokens + i`. The other
/// position rows, the entries and the embedding rows stay as they were.
pub proof fn law_position_row_reads_back(b: BatchView, row: nat, positions: Seq<i32>)
    requires
        b.wf(),
        b.set_position_row_answer(row, positions.len()) is Ok,
    ensures
        ({
            let a = b.position_row_set(row, positions);
            &&& a.wf()
            &&& a.position_row(row as int) == positions
            &&& forall|i: int|
                0 <= i < positions.len() ==> a.arrays.pos->0[row * b.n_tokens() + i]
                    == #[trigger] positions[i]
            &&& forall|r: int|
                0 <= r < b.n_pos_rows && r != row ==> #[trigger] a.position_row(r)
                    == b.position_row(r)
            &&& a.entries() == b.entries()
            &&& a.arrays.embd == b.arrays.embd
        }),
{
    let n = b.n_tokens();
    let a = b.position_row_set(row, positions);
    lemma_position_row_set_wf(b, row, positions);
    lemma_position_row_offset(b, row as int);
    assert forall|r: int| 0 <= r < b.n_pos_rows && r != row implies #[trigger] a.position_row(r)
        == b.position_row(r) by {
        lemma_position_row_offset(b, r);
        if r < row {
            lemma_rows_apart(n, r, row as int);
        } else {
            lemma_rows_apart(n, row as int, r);
        }
    }
    lemma_rows_apart(n, 0, row as int);
}

/// Position rows can be set in any order.
pub proof fn law_position_rows_commute(
    b: BatchView,
    row1: nat,
    positions1: Seq<i32>,
    row2: nat,
    positions2: Seq<i32>,
)
    requires
        b.wf(),
        b.set_position_row_answer(row1, positions1.len()) is Ok,
        b.set_position_row_answer(row2, positions2.len()) is Ok,
        row1 != row2,
    ensures
        b.position_row_set(row1, positions1).position_row_set(row2, positions2)
            == b.position_row_set(row2, positions2).position_row_set(row1, positions1),
{
    let n = b.n_tokens();
    if row1 < row2 {
        lemma_rows_apart(n, row1 as int, row2 as int);
    } else {
        lemma_rows_apart(n, row2 as int, row1 as int);
    }
}

/// Setting a position row again replaces what it held.
pub proof fn law_position_row_is_replaced(
    b: BatchView,
    row: nat,
    positions1: Seq<i32>,
    positions2: Seq<i32>,
)
    requires
        b.wf(),
        b.set_position_row_answer(row, positions1.len()) is Ok,
        positions2.len() == positions1.len(),
    ensures
        b.position_row_set(row, positions1).position_row_set(row, positions2)
            == b.position_row_set(row, positions2),
{
}

/// A token that is added after position row 1 was set takes the cell of that row's first
/// position: the rows are laid out by the token count, so they are to be set last.
pub proof fn law_later_token_takes_over_row_one(
    b: BatchView,
    positions: Seq<i32>,
    id: i32,
    pos: i32,
    seq_ids: Seq<i32>,
    logits: bool,
)
    requires
        b.wf(),
        b.has_room(1),
        0 < b.n_tokens(),
        b.set_position_row_answer(1, positions.len()) is Ok,
    ensures
        b.position_row_set(1, positions).arrays.pos->0[b.n_tokens()] == positions[0],
        b.position_row_set(1, positions).added(id, pos, seq_ids, logits).arrays.pos->0[b.n_tokens()]
            == pos,
{
    lemma_row_zero_fits(b);
    lemma_position_row_offset(b, 1);
}

} // verus!
