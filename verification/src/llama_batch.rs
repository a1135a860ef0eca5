//! The batch.

use crate::error::BatchAddError;
use crate::laws::{lemma_added_wf, lemma_embedding_offset, lemma_embedding_set_wf};
use crate::laws::{lemma_position_row_offset, lemma_position_row_set_wf, lemma_row_zero_fits};
use crate::laws::{lemma_sequence_start, lemma_sequence_step};
use crate::memory::{contents, copy_into, filled_array, filled_rows, overwrite};
use crate::memory::{row_contents, store};
use crate::model::{capacity_of, logits_flag, ArraysView, BatchView, TokensView};
use crate::token::LlamaToken;
use vstd::prelude::*;

verus! {

/// The token array of a batch.
#[derive(Debug)]
pub enum TokenArray<'a> {
    /// The batch carries no tokens.
    Null,
    /// Storage that belongs to the batch.
    Owned(Vec<i32>),
    /// Tokens that belong to the caller.
    Borrowed(&'a [LlamaToken]),
}

impl<'a> View for TokenArray<'a> {
    type V = TokensView;

    open spec fn view(&self) -> TokensView {
        match self {
            TokenArray::Null => TokensView::Null,
            TokenArray::Owned(v) => TokensView::Owned(v@),
            TokenArray::Borrowed(tokens) => TokensView::Borrowed(tokens@),
        }
    }
}

impl<'a> TokenArray<'a> {
    /// The caller's slice, if the array is that slice itself rather than storage of its own.
    pub open spec fn shown(&self) -> Option<&'a [LlamaToken]> {
        match self {
            TokenArray::Borrowed(tokens) => Some(*tokens),
            _ => None,
        }
    }

    /// Whether there is no array.
    pub fn is_null(&self) -> (r: bool)
        ensures
            r == (self@ is Null),
            r == (self is Null),
    {
        matches!(self, TokenArray::Null)
    }

    /// The identifier in cell `i`, if there is such a cell.
    pub fn get(&self, i: usize) -> (r: Option<i32>)
        ensures
            r == (match self@.ids() {
                Some(ids) => if i < ids.len() {
                    Some(ids[i as int])
                } else {
                    None
                },
                None => None,
            }),
            self is Null ==> r is None,
            self matches TokenArray::Owned(ids) ==> {
                &&& r is Some <==> i < ids@.len()
                &&& i < ids@.len() ==> r == Some(ids@[i as int])
            },
            self matches TokenArray::Borrowed(tokens) ==> {
                &&& r is Some <==> i < tokens@.len()
                &&& i < tokens@.len() ==> r == Some(tokens@[i as int].0)
            },
    {
        match self {
            TokenArray::Null => None,
            TokenArray::Owned(v) => if i < v.len() {
                Some(v[i])
            } else {
                None
            },
            TokenArray::Borrowed(tokens) => if i < tokens.len() {
                Some(tokens[i].0)
            } else {
                None
            },
        }
    }
}

/// The flat arrays of a batch, in the layout that the decoder reads.
#[derive(Debug)]
pub struct BatchArrays<'a> {
    /// Tokens in the batch.
    pub n_tokens: i32,
    /// Token identifiers.
    pub token: TokenArray<'a>,
    /// Embedding rows, each value as the bit pattern of a 32-bit float.
    pub embd: Option<Vec<u32>>,
    /// Position rows, each as long as there are tokens in the batch.
    pub pos: Option<Vec<i32>>,
    /// How many sequences each token belongs to.
    pub n_seq_id: Option<Vec<i32>>,
    /// The sequences each token belongs to.
    pub seq_id: Option<Vec<Vec<i32>>>,
    /// Whether the logits of each token are wanted: 1 if so, 0 if not.
    pub logits: Option<Vec<i8>>,
}

impl<'a> View for BatchArrays<'a> {
    type V = ArraysView;

    open spec fn view(&self) -> ArraysView {
        ArraysView {
            n_tokens: self.n_tokens as int,
            token: self.token@,
            embd: contents(self.embd),
            pos: contents(self.pos),
            n_seq_id: contents(self.n_seq_id),
            seq_id: row_contents(self.seq_id),
            logits: contents(self.logits),
        }
    }
}

impl<'a> BatchArrays<'a> {
    /// Allocates the arrays of an empty batch.
    fn init(n_tokens: usize, n_embd: usize, seq_capacity: usize) -> (r: Self)
        requires
            n_tokens * n_embd <= usize::MAX,
        ensures
            r@ == ArraysView::fresh(n_tokens as nat, n_embd as nat, seq_capacity as nat),
    {
        BatchArrays {
            n_tokens: 0,
            token: if n_embd == 0 {
                TokenArray::Owned(filled_array(n_tokens, 0i32))
            } else {
                TokenArray::Null
            },
            embd: if n_embd == 0 {
                None
            } else {
                Some(filled_array(n_tokens * n_embd, 0u32))
            },
            pos: Some(filled_array(n_tokens, 0i32)),
            n_seq_id: Some(filled_array(n_tokens, 0i32)),
            seq_id: Some(filled_rows(n_tokens, seq_capacity, 0i32)),
            logits: Some(filled_array(n_tokens, 0i8)),
        }
    }

    /// Writes the cells of token `i`.
    fn write_token(&mut self, i: usize, id: i32, pos: i32, seq_ids: &[i32], logits: bool)
        requires
            old(self)@.token matches TokensView::Owned(ids) ==> i < ids.len(),
            old(self)@.pos matches Some(a) ==> i < a.len(),
            old(self)@.n_seq_id matches Some(a) ==> i < a.len(),
            old(self)@.seq_id matches Some(a) && i < a.len() && seq_ids@.len() <= a[i as int].len(),
            old(self)@.logits matches Some(a) ==> i < a.len(),
            seq_ids@.len() <= i32::MAX,
        ensures
            final(self)@ == (ArraysView {
                n_tokens: old(self)@.n_tokens,
                token: old(self)@.token.stored(i as int, id),
                embd: old(self)@.embd,
                pos: store(old(self)@.pos, i as int, pos),
                n_seq_id: store(old(self)@.n_seq_id, i as int, seq_ids@.len() as i32),
                seq_id: store(
                    old(self)@.seq_id,
                    i as int,
                    overwrite(old(self)@.seq_id->0[i as int], 0, seq_ids@),
                ),
                logits: store(old(self)@.logits, i as int, logits_flag(logits)),
            }),
            final(self).token.shown() == old(self).token.shown(),
    {
        if let TokenArray::Owned(v) = &mut self.token {
            v[i] = id;
        }
        if let Some(v) = &mut self.pos {
            v[i] = pos;
        }
        if let Some(v) = &mut self.n_seq_id {
            v[i] = seq_ids.len() as i32;
        }
        if let Some(rows) = &mut self.seq_id {
            copy_into(&mut rows[i], 0, seq_ids);
        }
        if let Some(v) = &mut self.logits {
            v[i] = if logits {
                1
            } else {
                0
            };
        }
    }
}

/// The size of a token identifier in the token array, in bytes.
pub const TOKEN_SIZE: usize = 4;

/// The size of a position in the position array, in bytes.
pub const POSITION_SIZE: usize = 4;

/// The size in bytes of a token array for `n_tokens` tokens, if it can be told.
#[must_use]
pub fn token_bytes(n_tokens: usize) -> (r: Option<usize>)
    ensures
        r is Some <==> TOKEN_SIZE * n_tokens <= usize::MAX,
        r matches Some(bytes) ==> bytes == TOKEN_SIZE * n_tokens,
        r is Some <==> 4 * n_tokens <= usize::MAX,
        r matches Some(bytes) ==> bytes == 4 * n_tokens,
{
    TOKEN_SIZE.checked_mul(n_tokens)
}

/// The size in bytes of a position array for `n_tokens` tokens with `n_pos_rows` positions
/// each, if it can be told.
#[must_use]
pub fn position_bytes(n_tokens: usize, n_pos_rows: usize) -> (r: Option<usize>)
    ensures
        r is Some <==> POSITION_SIZE * n_tokens <= usize::MAX && POSITION_SIZE * n_tokens
            * n_pos_rows <= usize::MAX,
        r matches Some(bytes) ==> bytes == POSITION_SIZE * n_tokens * n_pos_rows,
        r is Some <==> 4 * n_tokens <= usize::MAX && 4 * n_tokens * n_pos_rows <= usize::MAX,
        r matches Some(bytes) ==> bytes == 4 * n_tokens * n_pos_rows,
{
    match POSITION_SIZE.checked_mul(n_tokens) {
        Some(bytes) => bytes.checked_mul(n_pos_rows),
        None => None,
    }
}

/// A batch of tokens, embedding rows, or both.
#[derive(Debug)]
pub struct LlamaBatch<'a> {
    /// The number of tokens the batch was allocated with.
    allocated: usize,
    /// The embedding width allocated for this batch. Zero means token-only.
    n_embd: usize,
    /// Position rows per token: 1, or more for embedding batches of M-RoPE models.
    n_pos_rows: usize,
    /// The number of sequence ids that each token has room for.
    seq_capacity: usize,
    /// The tokens whose logits are wanted.
    initialized_logits: Vec<i32>,
    /// The arrays that the decoder reads.
    llama_batch: BatchArrays<'a>,
}

impl<'a> View for LlamaBatch<'a> {
    type V = BatchView;

    closed spec fn view(&self) -> BatchView {
        BatchView {
            allocated: self.allocated as nat,
            n_embd: self.n_embd as nat,
            n_pos_rows: self.n_pos_rows as nat,
            seq_capacity: self.seq_capacity as nat,
            initialized_logits: self.initialized_logits@,
            arrays: self.llama_batch@,
        }
    }
}

impl<'a> LlamaBatch<'a> {
    /// The validity of a batch. Every constructor establishes it, and every method keeps it.
    pub open spec fn wf(&self) -> bool {
        self@.wf()
    }

    /// The caller's slice that the token array of the batch is, for a batch from
    /// [`Self::get_one`]. Other batches have storage of their own.
    pub closed spec fn shown(&self) -> Option<&'a [LlamaToken]> {
        self.llama_batch.token.shown()
    }

    /// Clear the batch. This does not free the memory associated with the batch, but it does
    /// reset the number of tokens to 0.
    pub fn clear(&mut self)
        requires
            old(self).wf(),
        ensures
            final(self).wf(),
            final(self)@ == old(self)@.cleared(),
            final(self).shown() == old(self).shown(),
    {
        self.llama_batch.n_tokens = 0;
        self.initialized_logits.clear();
    }

    /// Add a token to the batch for sequences `seq_ids` at position `pos`. If `logits` is
    /// true, the token will be initialized and can be read from after the next decode.
    ///
    /// There may be no more sequences than the batch was made for, and the token count must be
    /// able to go up.
    ///
    /// # Errors
    ///
    /// Returns an error if there is insufficient space in the batch, which is then left as it
    /// was.
    pub fn add(
        &mut self,
        token: LlamaToken,
        pos: i32,
        seq_ids: &[i32],
        logits: bool,
    ) -> (r: Result<(), BatchAddError>)
        requires
            old(self).wf(),
            old(self)@.n_tokens() < i32::MAX,
            old(self)@.has_room(1) ==> seq_ids@.len() <= old(self)@.seq_capacity,
        ensures
            final(self).wf(),
            r == old(self)@.add_answer(1),
            r is Ok ==> final(self)@ == old(self)@.added(token.0, pos, seq_ids@, logits),
            r is Ok <==> old(self)@.arrays.n_tokens < old(self)@.allocated,
            r is Err ==> final(self)@ == old(self)@,
            final(self).shown() == old(self).shown(),
    {
        let offset: i32 = self.llama_batch.n_tokens;
        if self.allocated < (offset + 1) as usize {
            return Err(BatchAddError::InsufficientSpace(self.allocated));
        }
        proof {
            lemma_row_zero_fits(self@);
            lemma_added_wf(self@, token.0, pos, seq_ids@, logits);
        }
        self.llama_batch.write_token(offset as usize, token.0, pos, seq_ids, logits);
        // A token that is not wanted has no index to drop from the list: those in it are
        // all below `offset`.
        if logits {
            self.initialized_logits.push(offset);
        }
        self.llama_batch.n_tokens = offset + 1;
        Ok(())
    }

    /// Add a token plus embedding row to the batch for MTP-style mixed-token inputs. The
    /// embedding is given by the bit patterns of its values.
    ///
    /// # Errors
    ///
    /// Returns an error if the batch was not created with embedding storage, if the embedding
    /// width does not match, or if there is insufficient space in the batch. The batch is then
    /// left as it was.
    pub fn add_with_embedding(
        &mut self,
        token: LlamaToken,
        embedding: &[u32],
        pos: i32,
        seq_ids: &[i32],
        logits: bool,
    ) -> (r: Result<(), BatchAddError>)
        requires
            old(self).wf(),
            old(self)@.n_embd > 0 && embedding@.len() == old(self)@.n_embd ==> old(self)@.n_tokens()
                < i32::MAX,
            old(self)@.add_with_embedding_answer(embedding@.len()) is Ok ==> seq_ids@.len() <= old(
                self,
            )@.seq_capacity,
        ensures
            final(self).wf(),
            r == old(self)@.add_with_embedding_answer(embedding@.len()),
            r is Ok ==> final(self)@ == old(self)@.added_with_embedding(
                token.0,
                embedding@,
                pos,
                seq_ids@,
                logits,
            ),
            r is Ok <==> old(self)@.n_embd > 0 && embedding@.len() == old(self)@.n_embd && old(
                self,
            )@.arrays.n_tokens < old(self)@.allocated,
            r matches Err(BatchAddError::EmbeddingLengthMismatch { .. }) ==> embedding@.len()
                != old(self)@.n_embd,
            r is Err ==> final(self)@ == old(self)@,
            final(self).shown() == old(self).shown(),
    {
        if self.n_embd == 0 || self.llama_batch.embd.is_none() {
            return Err(BatchAddError::EmbeddingsDisabled);
        }
        if embedding.len() != self.n_embd {
            return Err(
                BatchAddError::EmbeddingLengthMismatch {
                    expected: self.n_embd,
                    actual: embedding.len(),
                },
            );
        }
        self.add(token, pos, seq_ids, logits)?;
        let offset: usize = (self.llama_batch.n_tokens - 1) as usize;
        let ghost added = self@;
        proof {
            lemma_embedding_offset(added, offset as int);
            lemma_embedding_set_wf(added, offset as int, embedding@);
            assert(self.llama_batch.embd->0.len() == added.allocated * added.n_embd);
        }
        let embd_offset: usize = offset * self.n_embd;
        if let Some(embd) = &mut self.llama_batch.embd {
            copy_into(embd, embd_offset, embedding);
        }
        Ok(())
    }

    /// Add an embedding row without a token, for batches created with
    /// [`Self::new_embeddings_only`].
    ///
    /// # Errors
    ///
    /// Returns an error if the batch was not created with embedding storage, if the embedding
    /// width does not match, or if there is insufficient space in the batch. The batch is then
    /// left as it was.
    pub fn add_embedding(
        &mut self,
        embedding: &[u32],
        pos: i32,
        seq_ids: &[i32],
        logits: bool,
    ) -> (r: Result<(), BatchAddError>)
        requires
            old(self).wf(),
            old(self)@.n_embd > 0 && embedding@.len() == old(self)@.n_embd ==> old(self)@.n_tokens()
                < i32::MAX,
            old(self)@.add_with_embedding_answer(embedding@.len()) is Ok ==> seq_ids@.len() <= old(
                self,
            )@.seq_capacity,
        ensures
            final(self).wf(),
            r == old(self)@.add_with_embedding_answer(embedding@.len()),
            r is Ok ==> final(self)@ == old(self)@.added_with_embedding(
                0,
                embedding@,
                pos,
                seq_ids@,
                logits,
            ),
            r is Ok <==> old(self)@.n_embd > 0 && embedding@.len() == old(self)@.n_embd && old(
                self,
            )@.arrays.n_tokens < old(self)@.allocated,
            r matches Err(BatchAddError::EmbeddingLengthMismatch { .. }) ==> embedding@.len()
                != old(self)@.n_embd,
            r is Err ==> final(self)@ == old(self)@,
            final(self).shown() == old(self).shown(),
    {
        self.add_with_embedding(LlamaToken(0), embedding, pos, seq_ids, logits)
    }

    /// Add a sequence of tokens to the batch for the given sequence id, at positions 0, 1,
    /// and so on. If `logits_all` is true, the tokens will be initialized and can be read from
    /// after the next decode.
    ///
    /// Either way the last token in the sequence will have its logits set to `true`.
    ///
    /// # Errors
    ///
    /// Returns an error if there is insufficient space in the batch for all of the tokens. The
    /// batch is then left as it was.
    pub fn add_sequence(
        &mut self,
        tokens: &[LlamaToken],
        seq_id: i32,
        logits_all: bool,
    ) -> (r: Result<(), BatchAddError>)
        requires
            old(self).wf(),
            0 < tokens@.len() && old(self)@.has_room(tokens@.len()) ==> 1 <= old(
                self,
            )@.seq_capacity,
        ensures
            final(self).wf(),
            r == old(self)@.add_answer(tokens@.len()),
            r is Ok ==> final(self)@ == old(self)@.sequence_added(
                tokens@,
                seq_id,
                logits_all,
                tokens@.len(),
            ),
            r is Ok <==> old(self)@.arrays.n_tokens + tokens@.len() <= old(self)@.allocated,
            r is Err ==> final(self)@ == old(self)@,
            final(self).shown() == old(self).shown(),
    {
        let n_tokens_0: usize = self.llama_batch.n_tokens as usize;
        let n_tokens: usize = tokens.len();
        if self.allocated < n_tokens_0 || self.allocated - n_tokens_0 < n_tokens {
            return Err(BatchAddError::InsufficientSpace(self.allocated));
        }
        let ghost before = self@;
        proof {
            lemma_sequence_start(before, tokens@, seq_id, logits_all);
        }
        let last_index: usize = n_tokens.saturating_sub(1);
        let mut i: usize = 0;
        while i < n_tokens
            invariant
                i <= n_tokens,
                n_tokens == tokens@.len(),
                last_index == (if n_tokens == 0 {
                    0
                } else {
                    n_tokens - 1
                }),
                self.shown() == old(self).shown(),
                before.wf(),
                before.has_room(n_tokens as nat),
                n_tokens > 0 ==> 1 <= before.seq_capacity,
                self.wf(),
                self@ == before.sequence_added(tokens@, seq_id, logits_all, i as nat),
            decreases n_tokens - i,
        {
            proof {
                lemma_sequence_step(before, tokens@, seq_id, logits_all, i as nat);
            }
            let seq_ids: [i32; 1] = [seq_id];
            assert(seq_ids@ =~= seq![seq_id]);
            self.add(tokens[i], i as i32, &seq_ids, logits_all || i == last_index)?;
            i += 1;
        }
        Ok(())
    }

    /// Create a new `LlamaBatch` that can contain up to `n_tokens` tokens.
    ///
    /// - `n_tokens`: the maximum number of tokens that can be added to the batch
    /// - `n_seq_max`: the maximum number of sequences that a token can be added for (generally
    ///   1 unless you know what you are doing)
    #[must_use]
    pub fn new(n_tokens: usize, n_seq_max: i32) -> (r: Self)
        requires
            n_tokens <= i32::MAX,
        ensures
            r.wf(),
            r@ == BatchView::fresh(n_tokens as nat, 0, capacity_of(n_seq_max)),
            r@.allocated == n_tokens,
            r@.n_embd == 0,
            r@.n_pos_rows == 1,
            r@.seq_capacity == (if n_seq_max < 0 {
                0
            } else {
                n_seq_max as int
            }),
            r.shown() is None,
    {
        Self::with_arrays(n_tokens, 0, n_seq_max)
    }

    /// Create a new `LlamaBatch` with storage for both tokens and embedding rows.
    #[must_use]
    pub fn new_with_embeddings(n_tokens: usize, n_embd: usize, n_seq_max: i32) -> (r: Self)
        requires
            n_tokens <= i32::MAX,
            n_embd <= i32::MAX,
            n_tokens * n_embd <= usize::MAX,
            n_embd > 0 ==> TOKEN_SIZE * n_tokens <= usize::MAX,
        ensures
            r.wf(),
            r@ == BatchView::fresh_mixed(n_tokens as nat, n_embd as nat, capacity_of(n_seq_max)),
            r@.allocated == n_tokens,
            r@.n_embd == n_embd,
            r@.n_pos_rows == 1,
            r@.seq_capacity == (if n_seq_max < 0 {
                0
            } else {
                n_seq_max as int
            }),
            r.shown() is None,
    {
        let mut batch = Self::with_arrays(n_tokens, n_embd, n_seq_max);
        if batch.llama_batch.token.is_null() {
            batch.llama_batch.token = TokenArray::Owned(filled_array(n_tokens, 0i32));
        }
        batch
    }

    /// Create a new `LlamaBatch` that holds only embedding rows: its token array is null, and
    /// it stays null, so that the decoder sees a pure embedding batch. Use
    /// [`Self::add_embedding`] to fill it.
    #[must_use]
    pub fn new_embeddings_only(n_tokens: usize, n_embd: usize, n_seq_max: i32) -> (r: Self)
        requires
            n_tokens <= i32::MAX,
            0 < n_embd <= i32::MAX,
            n_tokens * n_embd <= usize::MAX,
        ensures
            r.wf(),
            r@ == BatchView::fresh_positioned(
                n_tokens as nat,
                n_embd as nat,
                capacity_of(n_seq_max),
                1,
            ),
            r@.allocated == n_tokens,
            r@.n_embd == n_embd,
            r@.n_pos_rows == 1,
            r@.seq_capacity == (if n_seq_max < 0 {
                0
            } else {
                n_seq_max as int
            }),
            r.shown() is None,
    {
        Self::new_embeddings_only_with_position_rows(n_tokens, n_embd, n_seq_max, 1)
    }

    /// Like [`Self::new_embeddings_only`], with `n_pos_rows` position rows per token.
    ///
    /// The decoder reads an embedding batch of an M-RoPE model as `pos[row * n_tokens + i]`
    /// for each of its position rows (4 for M-RoPE), where a token batch reuses one row for
    /// all of them. The `add` methods write row 0; fill the other rows with
    /// [`Self::set_position_row`] after the last row is added.
    #[must_use]
    pub fn new_embeddings_only_with_position_rows(
        n_tokens: usize,
        n_embd: usize,
        n_seq_max: i32,
        n_pos_rows: usize,
    ) -> (r: Self)
        requires
            n_tokens <= i32::MAX,
            0 < n_embd <= i32::MAX,
            n_tokens * n_embd <= usize::MAX,
            0 < n_pos_rows,
            n_pos_rows > 1 ==> POSITION_SIZE * n_tokens * n_pos_rows <= usize::MAX,
        ensures
            r.wf(),
            r@ == BatchView::fresh_positioned(
                n_tokens as nat,
                n_embd as nat,
                capacity_of(n_seq_max),
                n_pos_rows as nat,
            ),
            r@.allocated == n_tokens,
            r@.n_embd == n_embd,
            r@.n_pos_rows == n_pos_rows,
            r@.seq_capacity == (if n_seq_max < 0 {
                0
            } else {
                n_seq_max as int
            }),
            r.shown() is None,
    {
        let mut batch = Self::with_arrays(n_tokens, n_embd, n_seq_max);
        if n_pos_rows > 1 {
            assert(n_tokens * n_pos_rows <= 4 * n_tokens * n_pos_rows) by (nonlinear_arith);
            batch.llama_batch.pos = Some(filled_array(n_tokens * n_pos_rows, 0i32));
            batch.n_pos_rows = n_pos_rows;
        }
        batch
    }

    /// An empty batch with the arrays that its limits call for.
    fn with_arrays(n_tokens: usize, n_embd: usize, n_seq_max: i32) -> (r: Self)
        requires
            n_tokens <= i32::MAX,
            n_embd <= i32::MAX,
            n_tokens * n_embd <= usize::MAX,
        ensures
            r.wf(),
            r@ == BatchView::fresh(n_tokens as nat, n_embd as nat, capacity_of(n_seq_max)),
            r.shown() is None,
    {
        let seq_capacity: usize = if n_seq_max < 0 {
            0
        } else {
            n_seq_max as usize
        };
        LlamaBatch {
            allocated: n_tokens,
            n_embd,
            n_pos_rows: 1,
            seq_capacity,
            initialized_logits: Vec::new(),
            llama_batch: BatchArrays::init(n_tokens, n_embd, seq_capacity),
        }
    }

    /// Write position row `row` (1 or more; row 0 comes from the `add` methods) for every
    /// token in the batch. Call it after the last token is added: the rows are laid out by
    /// the batch's token count.
    ///
    /// # Errors
    ///
    /// Returns an error if `row` is 0 or not below the batch's position rows, or if
    /// `positions` does not hold one position per token in the batch. The batch is then left
    /// as it was.
    pub fn set_position_row(&mut self, row: usize, positions: &[i32]) -> (r: Result<
        (),
        BatchAddError,
    >)
        requires
            old(self).wf(),
        ensures
            final(self).wf(),
            r == old(self)@.set_position_row_answer(row as nat, positions@.len()),
            r is Ok ==> final(self)@ == old(self)@.position_row_set(row as nat, positions@),
            r is Ok <==> 0 < row < old(self)@.n_pos_rows && positions@.len() == old(
                self,
            )@.arrays.n_tokens,
            r matches Err(BatchAddError::PositionRowLengthMismatch { .. }) ==> positions@.len()
                != old(self)@.arrays.n_tokens,
            r is Err ==> final(self)@ == old(self)@,
            final(self).shown() == old(self).shown(),
    {
        if row == 0 || row >= self.n_pos_rows {
            return Err(BatchAddError::PositionRowOutOfRange { row, rows: self.n_pos_rows });
        }
        let n_tokens: usize = self.llama_batch.n_tokens as usize;
        if positions.len() != n_tokens {
            return Err(
                BatchAddError::PositionRowLengthMismatch {
                    expected: n_tokens,
                    actual: positions.len(),
                },
            );
        }
        proof {
            lemma_position_row_offset(self@, row as int);
            lemma_position_row_set_wf(self@, row as nat, positions@);
            assert(self.llama_batch.pos->0.len() == self@.allocated * self@.n_pos_rows);
        }
        if let Some(pos) = &mut self.llama_batch.pos {
            copy_into(pos, row * n_tokens, positions);
        }
        Ok(())
    }

    /// Return batch for single sequence of tokens. Its token array is the caller's slice
    /// itself, not a copy. It has no room for other tokens, and asks for the logits of the
    /// last one.
    ///
    /// # Errors
    ///
    /// If the provided token buffer is empty.
    pub fn get_one(tokens: &'a [LlamaToken]) -> (r: Result<Self, BatchAddError>)
        requires
            tokens@.len() <= i32::MAX,
        ensures
            r is Err <==> tokens@.len() == 0,
            r matches Err(e) ==> e == BatchAddError::EmptyBuffer,
            r matches Ok(batch) ==> {
                &&& batch.wf()
                &&& batch@ == BatchView::borrowing(tokens@)
                &&& batch.shown() == Some(tokens)
            },
    {
        if tokens.is_empty() {
            return Err(BatchAddError::EmptyBuffer);
        }
        let n_tokens: i32 = tokens.len() as i32;
        let batch = LlamaBatch {
            allocated: 0,
            n_embd: 0,
            n_pos_rows: 1,
            seq_capacity: 0,
            initialized_logits: vec![n_tokens - 1],
            llama_batch: BatchArrays {
                n_tokens,
                token: TokenArray::Borrowed(tokens),
                embd: None,
                pos: None,
                n_seq_id: None,
                seq_id: None,
                logits: None,
            },
        };
        assert(batch.initialized_logits@ =~= seq![(tokens@.len() - 1) as i32]);
        Ok(batch)
    }

    /// Returns the number of tokens in the batch.
    #[must_use]
    pub fn n_tokens(&self) -> (r: i32)
        ensures
            r == self@.n_tokens(),
            r == self@.arrays.n_tokens,
    {
        self.llama_batch.n_tokens
    }

    /// The number of tokens the batch was allocated with.
    #[must_use]
    pub fn allocated(&self) -> (r: usize)
        ensures
            r == self@.allocated,
    {
        self.allocated
    }

    /// The width of an embedding row. Zero means token-only.
    #[must_use]
    pub fn n_embd(&self) -> (r: usize)
        ensures
            r == self@.n_embd,
    {
        self.n_embd
    }

    /// Position rows per token.
    #[must_use]
    pub fn n_pos_rows(&self) -> (r: usize)
        ensures
            r == self@.n_pos_rows,
    {
        self.n_pos_rows
    }

    /// The number of sequence ids that each token has room for.
    #[must_use]
    pub fn seq_capacity(&self) -> (r: usize)
        ensures
            r == self@.seq_capacity,
    {
        self.seq_capacity
    }

    /// The tokens whose logits are wanted, by index.
    #[must_use]
    pub fn initialized_logits(&self) -> (r: &Vec<i32>)
        ensures
            r@ == self@.initialized_logits,
    {
        &self.initialized_logits
    }

    /// The arrays that the decoder reads.
    #[must_use]
    pub fn llama_batch(&self) -> (r: &BatchArrays<'a>)
        ensures
            r@ == self@.arrays,
            r.token.shown() == self.shown(),
            self.wf() && self@.allocated > 0 ==> r.token !is Borrowed,
    {
        &self.llama_batch
    }

    /// Whether there is storage to free when the batch is dropped.
    #[must_use]
    pub fn owns_storage(&self) -> (r: bool)
        ensures
            r == (self@.allocated > 0),
    {
        self.allocated > 0
    }
}

} // verus!
