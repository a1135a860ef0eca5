use llama_cpp_2::error::BatchAddError;

#[test]
fn messages_name_the_numbers() {
    assert_eq!(
        BatchAddError::InsufficientSpace(512).message(),
        "Insufficient Space of 512"
    );
    assert_eq!(
        BatchAddError::InsufficientSpace(0).message(),
        "Insufficient Space of 0"
    );
    assert_eq!(BatchAddError::EmptyBuffer.message(), "Empty buffer");
    assert_eq!(
        BatchAddError::EmbeddingsDisabled.message(),
        "Batch does not have embedding storage"
    );
    assert_eq!(
        BatchAddError::EmbeddingLengthMismatch {
            expected: 4096,
            actual: 17
        }
        .message(),
        "Embedding length mismatch: expected 4096, got 17"
    );
    assert_eq!(
        BatchAddError::PositionRowOutOfRange { row: 10, rows: 4 }.message(),
        "Position row 10 is not an extra row of a batch with 4 position rows"
    );
    assert_eq!(
        BatchAddError::PositionRowLengthMismatch {
            expected: 2,
            actual: 3
        }
        .message(),
        "Position row length mismatch: expected 2, got 3"
    );
}

#[test]
fn large_numbers_are_written_out() {
    assert_eq!(
        BatchAddError::InsufficientSpace(usize::MAX).message(),
        format!("Insufficient Space of {}", usize::MAX)
    );
    assert_eq!(
        BatchAddError::InsufficientSpace(1234567890).message(),
        "Insufficient Space of 1234567890"
    );
}
