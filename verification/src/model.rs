//! The mathematical model of a batch.
//!
//! [`BatchView`] is what a batch holds: its limits, and the flat arrays that a decoder reads.
//! Each operation on a batch is a function from one such value to the next.

use crate::error::BatchAddError;
use crate::memory::{filled, overwrite, store, store_run};
use crate::token::{token_ids, LlamaToken};
use vstd::prelude::*;

verus! {

/// The token array of a batch.
#[verifier::ext_equal]
pub enum TokensView {
    /// There is none (null to the decoder): the batch carries no tokens.
    Null,
    /// Identifiers in storage of the batch's own.
    Owned(Seq<i32>),
    /// The caller's own tokens, in the caller's memory.
    Borrowed(Seq<LlamaToken>),
}

impl TokensView {
    /// The identifiers in the array, if there is one.
    pub open spec fn ids(self) -> Option<Seq<i32>> {
        match self {
            TokensView::Null => None,
            TokensView::Owned(ids) => Some(ids),
            TokensView::Borrowed(tokens) => Some(token_ids(tokens)),
        }
    }

    /// The array with `id` in cell `i`. Only storage of the batch's own is written to.
    pub open spec fn stored(self, i: int, id: i32) -> TokensView {
        match self {
            TokensView::Owned(ids) => TokensView::Owned(ids.update(i, id)),
            _ => self,
        }
    }

    /// The array with `src` written from cell `at` on. Only storage of the batch's own is
    /// written to.
    pub open spec fn stored_run(self, at: int, src: Seq<i32>) -> TokensView {
        match self {
            TokensView::Owned(ids) => TokensView::Owned(overwrite(ids, at, src)),
            _ => self,
        }
    }
}

/// The flat arrays of a batch. An array that is `None` is absent (null to the decoder).
#[verifier::ext_equal]
pub struct ArraysView {
    /// Tokens in the batch.
    pub n_tokens: int,
    /// Token identifiers.
    pub token: TokensView,
    /// Embedding rows, one after the other, each value as the bit pattern of a 32-bit float.
    pub embd: Option<Seq<u32>>,
    /// Position rows, one after the other, each as long as there are tokens in the batch.
    pub pos: Option<Seq<i32>>,
    /// How many sequences each token belongs to.
    pub n_seq_id: Option<Seq<i32>>,
    /// The sequences each token belongs to.
    pub seq_id: Option<Seq<Seq<i32>>>,
    /// Whether the logits of each token are wanted: 1 if so, 0 if not.
    pub logits: Option<Seq<i8>>,
}

/// What a batch holds.
#[verifier::ext_equal]
pub struct BatchView {
    /// The number of tokens that the arrays have room for.
    pub allocated: nat,
    /// The width of an embedding row. Zero if the batch holds none.
    pub n_embd: nat,
    /// Position rows per token.
    pub n_pos_rows: nat,
    /// The number of sequence ids that each token has room for.
    pub seq_capacity: nat,
    /// The tokens whose logits are wanted, by index.
    pub initialized_logits: Seq<i32>,
    /// The flat arrays.
    pub arrays: ArraysView,
}

/// One token of a batch, apart from its embedding row.
#[verifier::ext_equal]
pub struct Entry {
    /// The token, if the batch carries tokens.
    pub token: Option<i32>,
    /// Its position (in position row 0).
    pub pos: i32,
    /// The sequences that it belongs to.
    pub seq_ids: Seq<i32>,
    /// Whether its logits are wanted.
    pub logits: bool,
}

/// The flag that stands for `logits` in the logits array.
pub open spec fn logits_flag(logits: bool) -> i8 {
    if logits {
        1i8
    } else {
        0i8
    }
}

/// The number of sequence ids per token that a limit of `n_seq_max` gives room for.
pub open spec fn capacity_of(n_seq_max: i32) -> nat {
    if n_seq_max < 0 {
        0
    } else {
        n_seq_max as nat
    }
}

impl ArraysView {
    /// The arrays of an empty batch for `n_tokens` tokens: embedding rows of width `n_embd`
    /// where that is not zero, and tokens otherwise.
    pub open spec fn fresh(n_tokens: nat, n_embd: nat, seq_capacity: nat) -> ArraysView {
        ArraysView {
            n_tokens: 0,
            token: if n_embd == 0 {
                TokensView::Owned(filled(n_tokens, 0i32))
            } else {
                TokensView::Null
            },
            embd: if n_embd == 0 {
                None
            } else {
                Some(filled(n_tokens * n_embd, 0u32))
            },
            pos: Some(filled(n_tokens, 0i32)),
            n_seq_id: Some(filled(n_tokens, 0i32)),
            seq_id: Some(filled(n_tokens, filled(seq_capacity, 0i32))),
            logits: Some(filled(n_tokens, 0i8)),
        }
    }
}

impl BatchView {
    /// The number of tokens in the batch.
    pub open spec fn n_tokens(self) -> int {
        self.arrays.n_tokens
    }

    /// The batch has arrays of its own, rather than another's tokens.
    pub open spec fn owns_arrays(self) -> bool {
        self.arrays.pos is Some
    }

    /// The arrays that a batch owns have the lengths that its limits call for.
    pub open spec fn arrays_sized(self) -> bool {
        &&& self.n_tokens() <= self.allocated
        &&& self.arrays.token !is Borrowed
        &&& self.arrays.token matches TokensView::Owned(ids) ==> ids.len() == self.allocated
        &&& self.arrays.embd is Some <==> self.n_embd > 0
        &&& self.arrays.embd matches Some(embd) ==> embd.len() == self.allocated * self.n_embd
        &&& self.n_embd == 0 ==> self.arrays.token is Owned
        &&& self.arrays.pos matches Some(pos) && pos.len() == self.allocated * self.n_pos_rows
        &&& self.arrays.n_seq_id matches Some(n_seq_id) && n_seq_id.len() == self.allocated
        &&& self.arrays.seq_id matches Some(seq_id) && seq_id.len() == self.allocated && forall|
            i: int,
        |
            0 <= i < self.allocated ==> (#[trigger] seq_id[i]).len() == self.seq_capacity
        &&& self.arrays.logits matches Some(logits) && logits.len() == self.allocated
    }

    /// The cells of the tokens in the batch hold counts and flags.
    pub open spec fn cells_valid(self) -> bool {
        &&& forall|i: int|
            0 <= i < self.n_tokens() ==> 0 <= #[trigger] self.arrays.n_seq_id->0[i]
                <= self.seq_capacity
        &&& forall|i: int|
            0 <= i < self.n_tokens() ==> (#[trigger] self.arrays.logits->0[i] == 0
                || self.arrays.logits->0[i] == 1)
    }

    /// `initialized_logits` lists the tokens whose flag is set, in the order of the batch.
    pub open spec fn logits_listed(self) -> bool {
        &&& forall|a: int, b: int|
            0 <= a < b < self.initialized_logits.len() ==> self.initialized_logits[a]
                < self.initialized_logits[b]
        &&& forall|a: int|
            0 <= a < self.initialized_logits.len() ==> {
                &&& 0 <= #[trigger] self.initialized_logits[a] < self.n_tokens()
                &&& self.arrays.logits->0[self.initialized_logits[a] as int] == 1
            }
        &&& forall|i: i32|
            0 <= i < self.n_tokens() && #[trigger] self.arrays.logits->0[i as int] == 1
                ==> self.initialized_logits.contains(i)
    }

    /// The batch shows another's tokens (or, once cleared, none of them) and has no room of
    /// its own.
    pub open spec fn borrows_tokens(self) -> bool {
        &&& self.allocated == 0
        &&& self.n_embd == 0
        &&& self.n_pos_rows == 1
        &&& self.arrays.token matches TokensView::Borrowed(tokens) && 0 < tokens.len() && {
            ||| self.n_tokens() == tokens.len() && self.initialized_logits == seq![
                (tokens.len() - 1) as i32,
            ]
            ||| self.n_tokens() == 0 && self.initialized_logits == Seq::<i32>::empty()
        }
        &&& self.arrays.embd is None
        &&& self.arrays.pos is None
        &&& self.arrays.n_seq_id is None
        &&& self.arrays.seq_id is None
        &&& self.arrays.logits is None
    }

    /// The validity of a batch.
    pub open spec fn wf(self) -> bool {
        &&& 0 <= self.n_tokens() <= i32::MAX
        &&& self.allocated <= i32::MAX
        &&& self.n_embd <= i32::MAX
        &&& 1 <= self.n_pos_rows
        &&& self.seq_capacity <= i32::MAX
        &&& if self.owns_arrays() {
            &&& self.arrays_sized()
            &&& self.cells_valid()
            &&& self.logits_listed()
        } else {
            self.borrows_tokens()
        }
    }

    /// There is room for `count` more tokens.
    pub open spec fn has_room(self, count: nat) -> bool {
        self.n_tokens() + count <= self.allocated
    }

    /// Token `i` of the batch.
    pub open spec fn entry(self, i: int) -> Entry {
        Entry {
            token: match self.arrays.token.ids() {
                Some(ids) => Some(ids[i]),
                None => None,
            },
            pos: self.arrays.pos->0[i],
            seq_ids: self.arrays.seq_id->0[i].take(self.arrays.n_seq_id->0[i] as int),
            logits: self.arrays.logits->0[i] != 0,
        }
    }

    /// The tokens of the batch, in order.
    pub open spec fn entries(self) -> Seq<Entry> {
        Seq::new(self.n_tokens() as nat, |i: int| self.entry(i))
    }

    /// The embedding row of token `i`.
    pub open spec fn embedding(self, i: int) -> Seq<u32> {
        self.arrays.embd->0.subrange(i * self.n_embd, (i + 1) * self.n_embd)
    }

    /// Position row `row`: one position for each token in the batch.
    pub open spec fn position_row(self, row: int) -> Seq<i32> {
        self.arrays.pos->0.subrange(row * self.n_tokens(), (row + 1) * self.n_tokens())
    }

    // ----- The operations -----

    /// An empty batch for `n_tokens` tokens.
    pub open spec fn fresh(n_tokens: nat, n_embd: nat, seq_capacity: nat) -> BatchView {
        BatchView {
            allocated: n_tokens,
            n_embd,
            n_pos_rows: 1,
            seq_capacity,
            initialized_logits: Seq::empty(),
            arrays: ArraysView::fresh(n_tokens, n_embd, seq_capacity),
        }
    }

    /// An empty batch for `n_tokens` tokens with their embedding rows.
    pub open spec fn fresh_mixed(n_tokens: nat, n_embd: nat, seq_capacity: nat) -> BatchView {
        BatchView {
            arrays: ArraysView {
                token: TokensView::Owned(filled(n_tokens, 0i32)),
                ..ArraysView::fresh(n_tokens, n_embd, seq_capacity)
            },
            ..BatchView::fresh(n_tokens, n_embd, seq_capacity)
        }
    }

    /// An empty batch for `n_tokens` embedding rows, with `n_pos_rows` positions for each.
    pub open spec fn fresh_positioned(
        n_tokens: nat,
        n_embd: nat,
        seq_capacity: nat,
        n_pos_rows: nat,
    ) -> BatchView {
        BatchView {
            n_pos_rows,
            arrays: ArraysView {
                pos: Some(filled(n_tokens * n_pos_rows, 0i32)),
                ..ArraysView::fresh(n_tokens, n_embd, seq_capacity)
            },
            ..BatchView::fresh(n_tokens, n_embd, seq_capacity)
        }
    }

    /// A batch that shows the caller's `tokens` and asks for the logits of the last one.
    pub open spec fn borrowing(tokens: Seq<LlamaToken>) -> BatchView {
        BatchView {
            allocated: 0,
            n_embd: 0,
            n_pos_rows: 1,
            seq_capacity: 0,
            initialized_logits: seq![(tokens.len() - 1) as i32],
            arrays: ArraysView {
                n_tokens: tokens.len() as int,
                token: TokensView::Borrowed(tokens),
                embd: None,
                pos: None,
                n_seq_id: None,
                seq_id: None,
                logits: None,
            },
        }
    }

    /// The batch without its tokens. The arrays keep their contents.
    pub open spec fn cleared(self) -> BatchView {
        BatchView {
            initialized_logits: Seq::empty(),
            arrays: ArraysView { n_tokens: 0, ..self.arrays },
            ..self
        }
    }

    /// The batch with one more token. Its identifier is dropped where the batch carries no
    /// tokens, and its embedding row is left as it is.
    pub open spec fn added(self, id: i32, pos: i32, seq_ids: Seq<i32>, logits: bool) -> BatchView {
        let n = self.n_tokens();
        BatchView {
            initialized_logits: if logits {
                self.initialized_logits.push(n as i32)
            } else {
                self.initialized_logits
            },
            arrays: ArraysView {
                n_tokens: n + 1,
                token: self.arrays.token.stored(n, id),
                embd: self.arrays.embd,
                pos: store(self.arrays.pos, n, pos),
                n_seq_id: store(self.arrays.n_seq_id, n, seq_ids.len() as i32),
                seq_id: store(
                    self.arrays.seq_id,
                    n,
                    overwrite(self.arrays.seq_id->0[n], 0, seq_ids),
                ),
                logits: store(self.arrays.logits, n, logits_flag(logits)),
            },
            ..self
        }
    }

    /// The batch with `row` as the embedding row of token `i`.
    pub open spec fn embedding_set(self, i: int, row: Seq<u32>) -> BatchView {
        BatchView {
            arrays: ArraysView {
                embd: store_run(self.arrays.embd, i * self.n_embd, row),
                ..self.arrays
            },
            ..self
        }
    }

    /// The batch with one more token and its embedding row.
    pub open spec fn added_with_embedding(
        self,
        id: i32,
        embedding: Seq<u32>,
        pos: i32,
        seq_ids: Seq<i32>,
        logits: bool,
    ) -> BatchView {
        self.added(id, pos, seq_ids, logits).embedding_set(self.n_tokens(), embedding)
    }

    /// The batch with the first `k` of `tokens` after its own, at positions 0, 1, ..., all in
    /// sequence `seq_id`. Logits are wanted of the very last of `tokens`, and of all of them
    /// if `logits_all`.
    pub open spec fn sequence_added(
        self,
        tokens: Seq<LlamaToken>,
        seq_id: i32,
        logits_all: bool,
        k: nat,
    ) -> BatchView {
        let n = self.n_tokens();
        BatchView {
            initialized_logits: if logits_all {
                self.initialized_logits + Seq::new(k, |i: int| (n + i) as i32)
            } else if 0 < k && k == tokens.len() {
                self.initialized_logits.push((n + k - 1) as i32)
            } else {
                self.initialized_logits
            },
            arrays: ArraysView {
                n_tokens: n + k,
                token: self.arrays.token.stored_run(n, token_ids(tokens.take(k as int))),
                embd: self.arrays.embd,
                pos: store_run(self.arrays.pos, n, Seq::new(k, |i: int| i as i32)),
                n_seq_id: store_run(self.arrays.n_seq_id, n, filled(k, 1i32)),
                seq_id: store_run(
                    self.arrays.seq_id,
                    n,
                    Seq::new(k, |i: int| self.arrays.seq_id->0[n + i].update(0, seq_id)),
                ),
                logits: store_run(
                    self.arrays.logits,
                    n,
                    Seq::new(k, |i: int| logits_flag(logits_all || i == tokens.len() - 1)),
                ),
            },
            ..self
        }
    }

    /// The batch with `positions` as its position row `row`.
    pub open spec fn position_row_set(self, row: nat, positions: Seq<i32>) -> BatchView {
        BatchView {
            arrays: ArraysView {
                pos: store_run(self.arrays.pos, row * self.n_tokens(), positions),
                ..self.arrays
            },
            ..self
        }
    }

    // ----- What the operations answer -----

    /// Whether `count` tokens can be added.
    pub open spec fn add_answer(self, count: nat) -> Result<(), BatchAddError> {
        if self.has_room(count) {
            Ok(())
        } else {
            Err(BatchAddError::InsufficientSpace(self.allocated as usize))
        }
    }

    /// Whether a token can be added with an embedding row of length `len`.
    pub open spec fn add_with_embedding_answer(self, len: nat) -> Result<(), BatchAddError> {
        if self.n_embd == 0 {
            Err(BatchAddError::EmbeddingsDisabled)
        } else if len != self.n_embd {
            Err(
                BatchAddError::EmbeddingLengthMismatch {
                    expected: self.n_embd as usize,
                    actual: len as usize,
                },
            )
        } else {
            self.add_answer(1)
        }
    }

    /// Whether position row `row` can be set to a row of length `len`.
    pub open spec fn set_position_row_answer(self, row: nat, len: nat) -> Result<
        (),
        BatchAddError,
    > {
        if row == 0 || row >= self.n_pos_rows {
            Err(
                BatchAddError::PositionRowOutOfRange {
                    row: row as usize,
                    rows: self.n_pos_rows as usize,
                },
            )
        } else if len != self.n_tokens() {
            Err(
                BatchAddError::PositionRowLengthMismatch {
                    expected: self.n_tokens() as usize,
                    actual: len as usize,
                },
            )
        } else {
            Ok(())
        }
    }
}

} // verus!
