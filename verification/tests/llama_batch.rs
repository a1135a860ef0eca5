use llama_cpp_2::error::BatchAddError;
use llama_cpp_2::llama_batch::{position_bytes, token_bytes, LlamaBatch, TokenArray};
use llama_cpp_2::token::LlamaToken;

fn bits(row: &[f32]) -> Vec<u32> {
    row.iter().map(|x| x.to_bits()).collect()
}

fn floats(row: &[u32]) -> Vec<f32> {
    row.iter().map(|x| f32::from_bits(*x)).collect()
}

fn embd(batch: &LlamaBatch<'_>) -> Vec<f32> {
    floats(batch.llama_batch().embd.as_ref().unwrap())
}

fn pos(batch: &LlamaBatch<'_>) -> Vec<i32> {
    batch.llama_batch().pos.clone().unwrap()
}

fn logits(batch: &LlamaBatch<'_>) -> Vec<i8> {
    batch.llama_batch().logits.clone().unwrap()
}

fn token(batch: &LlamaBatch<'_>, i: usize) -> Option<i32> {
    batch.llama_batch().token.get(i)
}

fn seq_ids(batch: &LlamaBatch<'_>, i: usize) -> Vec<i32> {
    let arrays = batch.llama_batch();
    let count = arrays.n_seq_id.as_ref().unwrap()[i] as usize;
    arrays.seq_id.as_ref().unwrap()[i][..count].to_vec()
}

#[test]
fn embeddings_only_batches_carry_no_tokens() {
    let mut batch = LlamaBatch::new_embeddings_only(3, 2, 1);
    assert!(batch.llama_batch().token.is_null());
    assert!(batch.llama_batch().embd.is_some());
    batch.add_embedding(&bits(&[1.0, 2.0]), 5, &[0], false).unwrap();
    batch
        .add_with_embedding(LlamaToken(9), &bits(&[3.0, 4.0]), 6, &[0], true)
        .unwrap();
    assert_eq!(batch.n_tokens(), 2);
    assert!(batch.llama_batch().token.is_null());
    assert_eq!(&embd(&batch)[..4], &[1.0, 2.0, 3.0, 4.0]);
    assert_eq!(&pos(&batch)[..2], &[5, 6]);
    assert_eq!(*batch.initialized_logits(), vec![1]);
    assert_eq!(
        batch.add_embedding(&bits(&[0.0]), 7, &[0], false),
        Err(BatchAddError::EmbeddingLengthMismatch {
            expected: 2,
            actual: 1
        })
    );
    batch.add_embedding(&bits(&[5.0, 6.0]), 7, &[0], false).unwrap();
    assert_eq!(
        batch.add_embedding(&bits(&[0.0, 0.0]), 8, &[0], false),
        Err(BatchAddError::InsufficientSpace(3))
    );
}

#[test]
fn extra_position_rows_follow_the_token_count() {
    let mut batch = LlamaBatch::new_embeddings_only_with_position_rows(4, 1, 1, 4);
    assert!(batch.llama_batch().token.is_null());
    batch.add_embedding(&bits(&[1.0]), 10, &[0], false).unwrap();
    batch.add_embedding(&bits(&[2.0]), 11, &[0], false).unwrap();
    batch.set_position_row(1, &[10, 11]).unwrap();
    batch.set_position_row(2, &[10, 11]).unwrap();
    batch.set_position_row(3, &[0, 0]).unwrap();
    assert_eq!(&pos(&batch)[..8], &[10, 11, 10, 11, 10, 11, 0, 0]);
    assert_eq!(
        batch.set_position_row(0, &[1, 2]),
        Err(BatchAddError::PositionRowOutOfRange { row: 0, rows: 4 })
    );
    assert_eq!(
        batch.set_position_row(4, &[1, 2]),
        Err(BatchAddError::PositionRowOutOfRange { row: 4, rows: 4 })
    );
    assert_eq!(
        batch.set_position_row(1, &[1]),
        Err(BatchAddError::PositionRowLengthMismatch {
            expected: 2,
            actual: 1
        })
    );
    let single = LlamaBatch::new_embeddings_only(1, 1, 1);
    assert_eq!(single.n_pos_rows(), 1);
}

#[test]
fn mixed_batches_still_carry_tokens() {
    let mut batch = LlamaBatch::new_with_embeddings(1, 2, 1);
    assert!(!batch.llama_batch().token.is_null());
    batch
        .add_with_embedding(LlamaToken(7), &bits(&[1.0, 2.0]), 0, &[0], true)
        .unwrap();
    assert_eq!(token(&batch, 0), Some(7));
}

#[test]
fn embeddings_only_example() {
    let mut batch = LlamaBatch::new_embeddings_only(2, 4, 1);
    batch.add_embedding(&bits(&[0.0; 4]), 0, &[0], false).unwrap();
    assert_eq!(batch.n_tokens(), 1);
}

#[test]
fn position_rows_example() {
    let mut batch = LlamaBatch::new_embeddings_only_with_position_rows(2, 4, 1, 4);
    batch.add_embedding(&bits(&[0.0; 4]), 7, &[0], false).unwrap();
    batch.add_embedding(&bits(&[0.0; 4]), 8, &[0], false).unwrap();
    for row in 1..3 {
        batch.set_position_row(row, &[7, 8]).unwrap();
    }
    batch.set_position_row(3, &[0, 0]).unwrap();
    assert_eq!(pos(&batch), vec![7, 8, 7, 8, 7, 8, 0, 0]);
}

#[test]
fn storage_is_owned_unless_nothing_was_allocated() {
    assert!(LlamaBatch::new(512, 1).owns_storage());
    assert!(!LlamaBatch::new(0, 1).owns_storage());
    let tokens = [LlamaToken(1)];
    assert!(!LlamaBatch::get_one(&tokens).unwrap().owns_storage());
}

#[test]
fn new_batches_have_the_asked_for_arrays() {
    let batch = LlamaBatch::new(3, 2);
    assert_eq!(batch.n_tokens(), 0);
    assert_eq!(batch.allocated(), 3);
    assert_eq!(batch.n_embd(), 0);
    assert_eq!(batch.n_pos_rows(), 1);
    assert_eq!(batch.seq_capacity(), 2);
    assert!(batch.initialized_logits().is_empty());
    assert!(!batch.llama_batch().token.is_null());
    assert!(batch.llama_batch().embd.is_none());
    assert_eq!(pos(&batch).len(), 3);
    assert_eq!(batch.llama_batch().seq_id, Some(vec![vec![0, 0]; 3]));

    let batch = LlamaBatch::new_with_embeddings(3, 0, 1);
    assert!(!batch.llama_batch().token.is_null());
    assert!(batch.llama_batch().embd.is_none());

    let batch = LlamaBatch::new_with_embeddings(3, 4, 1);
    assert!(!batch.llama_batch().token.is_null());
    assert_eq!(embd(&batch).len(), 12);

    let batch = LlamaBatch::new_embeddings_only_with_position_rows(3, 4, 1, 2);
    assert_eq!(pos(&batch).len(), 6);

    assert_eq!(LlamaBatch::new(1, -5).seq_capacity(), 0);
}

#[test]
fn add_writes_the_cells_of_the_next_token() {
    let mut batch = LlamaBatch::new(2, 3);
    batch.add(LlamaToken(40), 9, &[5, 6], true).unwrap();
    batch.add(LlamaToken(41), -1, &[], false).unwrap();
    assert_eq!(batch.n_tokens(), 2);
    assert_eq!(token(&batch, 0), Some(40));
    assert_eq!(token(&batch, 1), Some(41));
    assert_eq!(token(&batch, 2), None);
    assert_eq!(pos(&batch), vec![9, -1]);
    assert_eq!(seq_ids(&batch, 0), vec![5, 6]);
    assert_eq!(seq_ids(&batch, 1), Vec::<i32>::new());
    assert_eq!(logits(&batch), vec![1, 0]);
    assert_eq!(*batch.initialized_logits(), vec![0]);
}

#[test]
fn a_full_batch_refuses_and_stays_as_it_was() {
    let mut batch = LlamaBatch::new(1, 1);
    batch.add(LlamaToken(1), 0, &[0], true).unwrap();
    assert_eq!(
        batch.add(LlamaToken(2), 1, &[0], true),
        Err(BatchAddError::InsufficientSpace(1))
    );
    assert_eq!(batch.n_tokens(), 1);
    assert_eq!(token(&batch, 0), Some(1));
    assert_eq!(*batch.initialized_logits(), vec![0]);
}

#[test]
fn add_leaves_the_embedding_row_as_it_is() {
    let mut batch = LlamaBatch::new_with_embeddings(2, 2, 1);
    batch
        .add_with_embedding(LlamaToken(1), &bits(&[1.5, -2.5]), 0, &[0], false)
        .unwrap();
    batch.clear();
    batch.add(LlamaToken(2), 0, &[0], false).unwrap();
    assert_eq!(token(&batch, 0), Some(2));
    assert_eq!(&embd(&batch)[..2], &[1.5, -2.5]);
}

#[test]
fn embeddings_need_storage_first_and_the_right_width_second() {
    let mut batch = LlamaBatch::new(0, 1);
    assert_eq!(
        batch.add_embedding(&bits(&[1.0]), 0, &[0], false),
        Err(BatchAddError::EmbeddingsDisabled)
    );
    let mut batch = LlamaBatch::new_with_embeddings(0, 2, 1);
    assert_eq!(
        batch.add_embedding(&bits(&[1.0]), 0, &[0], false),
        Err(BatchAddError::EmbeddingLengthMismatch {
            expected: 2,
            actual: 1
        })
    );
    assert_eq!(
        batch.add_embedding(&bits(&[1.0, 2.0]), 0, &[0], false),
        Err(BatchAddError::InsufficientSpace(0))
    );
}

#[test]
fn a_sequence_counts_positions_from_zero() {
    let mut batch = LlamaBatch::new(4, 1);
    batch.add(LlamaToken(9), 30, &[7], false).unwrap();
    let tokens = [LlamaToken(10), LlamaToken(11), LlamaToken(12)];
    batch.add_sequence(&tokens, 5, false).unwrap();
    assert_eq!(batch.n_tokens(), 4);
    assert_eq!(pos(&batch), vec![30, 0, 1, 2]);
    assert_eq!(token(&batch, 1), Some(10));
    assert_eq!(token(&batch, 3), Some(12));
    assert_eq!(seq_ids(&batch, 0), vec![7]);
    assert_eq!(seq_ids(&batch, 2), vec![5]);
    assert_eq!(logits(&batch), vec![0, 0, 0, 1]);
    assert_eq!(*batch.initialized_logits(), vec![3]);
}

#[test]
fn a_sequence_can_want_all_logits() {
    let mut batch = LlamaBatch::new(3, 1);
    batch.add(LlamaToken(9), 0, &[0], false).unwrap();
    batch
        .add_sequence(&[LlamaToken(1), LlamaToken(2)], 0, true)
        .unwrap();
    assert_eq!(logits(&batch), vec![0, 1, 1]);
    assert_eq!(*batch.initialized_logits(), vec![1, 2]);
}

#[test]
fn a_sequence_is_added_whole_or_not_at_all() {
    let mut batch = LlamaBatch::new(2, 1);
    batch.add(LlamaToken(9), 0, &[0], false).unwrap();
    assert_eq!(
        batch.add_sequence(&[LlamaToken(1), LlamaToken(2)], 0, true),
        Err(BatchAddError::InsufficientSpace(2))
    );
    assert_eq!(batch.n_tokens(), 1);
    assert!(batch.initialized_logits().is_empty());
    assert_eq!(batch.add_sequence(&[], 0, true), Ok(()));
    assert_eq!(batch.n_tokens(), 1);
}

#[test]
fn a_sequence_is_its_tokens_one_by_one() {
    let mut whole = LlamaBatch::new(2, 1);
    whole
        .add_sequence(&[LlamaToken(3), LlamaToken(4)], 2, false)
        .unwrap();
    let mut single = LlamaBatch::new(2, 1);
    single.add(LlamaToken(3), 0, &[2], false).unwrap();
    single.add(LlamaToken(4), 1, &[2], true).unwrap();
    assert_eq!(format!("{:?}", whole), format!("{:?}", single));
}

#[test]
fn clear_keeps_the_storage() {
    let mut batch = LlamaBatch::new(2, 1);
    batch
        .add_sequence(&[LlamaToken(3), LlamaToken(4)], 0, true)
        .unwrap();
    batch.clear();
    assert_eq!(batch.n_tokens(), 0);
    assert!(batch.initialized_logits().is_empty());
    assert_eq!(batch.allocated(), 2);
    assert_eq!(token(&batch, 1), Some(4));
    batch.add(LlamaToken(5), 6, &[0], false).unwrap();
    assert_eq!(token(&batch, 0), Some(5));
    assert_eq!(token(&batch, 1), Some(4));
    assert_eq!(pos(&batch), vec![6, 1]);
    assert_eq!(logits(&batch), vec![0, 1]);
    assert!(batch.initialized_logits().is_empty());
}

#[test]
fn the_token_of_an_embeddings_only_batch_makes_no_difference() {
    let mut one = LlamaBatch::new_embeddings_only(1, 1, 1);
    one.add_with_embedding(LlamaToken(5), &bits(&[1.0]), 3, &[0], true)
        .unwrap();
    let mut other = LlamaBatch::new_embeddings_only(1, 1, 1);
    other.add_embedding(&bits(&[1.0]), 3, &[0], true).unwrap();
    assert_eq!(format!("{:?}", one), format!("{:?}", other));
}

#[test]
fn position_rows_are_independent() {
    let mut batch = LlamaBatch::new_embeddings_only_with_position_rows(2, 1, 1, 3);
    batch.add_embedding(&bits(&[1.0]), 1, &[0], false).unwrap();
    batch.add_embedding(&bits(&[2.0]), 2, &[0], false).unwrap();
    batch.set_position_row(2, &[5, 6]).unwrap();
    batch.set_position_row(1, &[3, 4]).unwrap();
    assert_eq!(pos(&batch), vec![1, 2, 3, 4, 5, 6]);
    batch.set_position_row(2, &[7, 8]).unwrap();
    assert_eq!(pos(&batch), vec![1, 2, 3, 4, 7, 8]);
    assert_eq!(embd(&batch), vec![1.0, 2.0]);
}

#[test]
fn a_later_token_takes_over_row_one() {
    let mut batch = LlamaBatch::new_embeddings_only_with_position_rows(2, 1, 1, 2);
    batch.add_embedding(&bits(&[1.0]), 1, &[0], false).unwrap();
    batch.set_position_row(1, &[9]).unwrap();
    assert_eq!(pos(&batch), vec![1, 9, 0, 0]);
    batch.add_embedding(&bits(&[2.0]), 2, &[0], false).unwrap();
    assert_eq!(pos(&batch), vec![1, 2, 0, 0]);
}

#[test]
fn an_empty_batch_takes_empty_position_rows() {
    let mut batch = LlamaBatch::new_embeddings_only_with_position_rows(2, 1, 1, 2);
    assert_eq!(batch.set_position_row(1, &[]), Ok(()));
    assert_eq!(
        batch.set_position_row(1, &[1]),
        Err(BatchAddError::PositionRowLengthMismatch {
            expected: 0,
            actual: 1
        })
    );
}

#[test]
fn get_one_shows_the_tokens_it_was_given() {
    let tokens = [LlamaToken(4), LlamaToken(5), LlamaToken(6)];
    let batch = LlamaBatch::get_one(&tokens).unwrap();
    assert_eq!(batch.n_tokens(), 3);
    assert_eq!(*batch.initialized_logits(), vec![2]);
    assert_eq!(token(&batch, 0), Some(4));
    assert_eq!(token(&batch, 2), Some(6));
    assert_eq!(token(&batch, 3), None);
    assert!(!batch.llama_batch().token.is_null());
    assert!(batch.llama_batch().embd.is_none());
    assert!(batch.llama_batch().pos.is_none());
    assert!(batch.llama_batch().n_seq_id.is_none());
    assert!(batch.llama_batch().seq_id.is_none());
    assert!(batch.llama_batch().logits.is_none());
}

fn shows(batch: &LlamaBatch<'_>, tokens: &[LlamaToken]) -> bool {
    match batch.llama_batch().token {
        TokenArray::Borrowed(shown) => {
            std::ptr::eq(shown.as_ptr(), tokens.as_ptr()) && shown.len() == tokens.len()
        }
        _ => false,
    }
}

#[test]
fn get_one_does_not_copy() {
    let tokens = [LlamaToken(4), LlamaToken(5)];
    let mut batch = LlamaBatch::get_one(&tokens).unwrap();
    assert!(shows(&batch, &tokens));
    assert!(batch.add(LlamaToken(1), 0, &[0], false).is_err());
    assert!(batch.set_position_row(1, &[0, 1]).is_err());
    assert!(shows(&batch, &tokens));
    batch.clear();
    assert!(shows(&batch, &tokens));
    assert_eq!(token(&batch, 1), Some(5));

    let mut owned = LlamaBatch::new(2, 1);
    owned.add_sequence(&tokens, 0, false).unwrap();
    assert!(!shows(&owned, &tokens));
    assert!(matches!(owned.llama_batch().token, TokenArray::Owned(_)));
}

#[test]
fn a_cleared_batch_fills_like_a_new_one() {
    let mut used = LlamaBatch::new_embeddings_only_with_position_rows(2, 1, 1, 2);
    used.add_embedding(&bits(&[8.0]), 80, &[3], true).unwrap();
    used.add_embedding(&bits(&[9.0]), 90, &[4], true).unwrap();
    used.set_position_row(1, &[70, 71]).unwrap();
    used.clear();
    let mut new = LlamaBatch::new_embeddings_only_with_position_rows(2, 1, 1, 2);
    for batch in [&mut used, &mut new] {
        assert_eq!(batch.add(LlamaToken(1), 5, &[], true), Ok(()));
        assert_eq!(
            batch.add_embedding(&bits(&[2.0]), 6, &[7], false),
            Ok(())
        );
        assert_eq!(batch.set_position_row(1, &[8, 9]), Ok(()));
        assert_eq!(
            batch.add(LlamaToken(1), 5, &[0], true),
            Err(BatchAddError::InsufficientSpace(2))
        );
        assert_eq!(batch.n_tokens(), 2);
        assert_eq!(pos(batch), vec![5, 6, 8, 9]);
        assert_eq!(seq_ids(batch, 0), Vec::<i32>::new());
        assert_eq!(seq_ids(batch, 1), vec![7]);
        assert_eq!(logits(batch), vec![1, 0]);
        assert_eq!(*batch.initialized_logits(), vec![0]);
        assert_eq!(embd(batch)[1], 2.0);
    }
    assert_eq!(embd(&used)[0], 8.0);
    assert_eq!(embd(&new)[0], 0.0);
}

#[test]
fn get_one_needs_a_token() {
    assert_eq!(
        LlamaBatch::get_one(&[]).err(),
        Some(BatchAddError::EmptyBuffer)
    );
}

#[test]
fn get_one_takes_nothing_in() {
    let tokens = [LlamaToken(4)];
    let mut batch = LlamaBatch::get_one(&tokens).unwrap();
    assert_eq!(
        batch.add(LlamaToken(1), 0, &[0], false),
        Err(BatchAddError::InsufficientSpace(0))
    );
    assert_eq!(
        batch.add_sequence(&[LlamaToken(1)], 0, false),
        Err(BatchAddError::InsufficientSpace(0))
    );
    assert_eq!(
        batch.add_sequence(&[], 0, false),
        Err(BatchAddError::InsufficientSpace(0))
    );
    assert_eq!(
        batch.add_embedding(&bits(&[1.0]), 0, &[0], false),
        Err(BatchAddError::EmbeddingsDisabled)
    );
    assert_eq!(
        batch.set_position_row(1, &[0]),
        Err(BatchAddError::PositionRowOutOfRange { row: 1, rows: 1 })
    );
    batch.clear();
    assert_eq!(batch.n_tokens(), 0);
    assert!(batch.initialized_logits().is_empty());
    assert_eq!(
        batch.add(LlamaToken(1), 0, &[0], false),
        Err(BatchAddError::InsufficientSpace(0))
    );
    assert_eq!(batch.add_sequence(&[], 0, false), Ok(()));
}

#[test]
fn byte_sizes_are_checked() {
    assert_eq!(token_bytes(3), Some(12));
    assert_eq!(token_bytes(usize::MAX / 4), Some(usize::MAX - 3));
    assert_eq!(token_bytes(usize::MAX / 4 + 1), None);
    assert_eq!(position_bytes(3, 4), Some(48));
    assert_eq!(position_bytes(usize::MAX / 8 + 1, 2), None);
    assert_eq!(position_bytes(usize::MAX / 2, 0), None);
}
