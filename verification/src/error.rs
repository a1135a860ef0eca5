//! What can go wrong when a batch is filled.

use vstd::prelude::*;

verus! {

/// Errors that can occur when adding a token to a batch.
#[derive(Debug, PartialEq, Eq, Structural)]
pub enum BatchAddError {
    /// There was not enough space in the batch to add the token.
    InsufficientSpace(usize),
    /// An empty buffer was given where at least one token is needed.
    EmptyBuffer,
    /// The batch was created without embedding storage.
    EmbeddingsDisabled,
    /// The provided embedding row length does not match the batch embedding width.
    EmbeddingLengthMismatch {
        /// The batch embedding width.
        expected: usize,
        /// The length of the given row.
        actual: usize,
    },
    /// The position row is row 0 (written by the `add` methods) or beyond the allocated rows.
    PositionRowOutOfRange {
        /// The requested row.
        row: usize,
        /// The rows the batch was allocated with.
        rows: usize,
    },
    /// The position row length does not match the number of tokens in the batch.
    PositionRowLengthMismatch {
        /// Tokens in the batch.
        expected: usize,
        /// Positions given.
        actual: usize,
    },
}

/// The decimal digits of `n`.
pub open spec fn decimal(n: nat) -> Seq<char>
    decreases n,
{
    if n < 10 {
        seq![digit(n)]
    } else {
        decimal(n / 10).push(digit(n % 10))
    }
}

/// The digit for a number below 10.
pub open spec fn digit(d: nat) -> char {
    if d == 0 {
        '0'
    } else if d == 1 {
        '1'
    } else if d == 2 {
        '2'
    } else if d == 3 {
        '3'
    } else if d == 4 {
        '4'
    } else if d == 5 {
        '5'
    } else if d == 6 {
        '6'
    } else if d == 7 {
        '7'
    } else if d == 8 {
        '8'
    } else {
        '9'
    }
}

/// Appends the digit for `d` to `out`.
fn push_digit(out: &mut String, d: usize)
    requires
        d < 10,
    ensures
        final(out)@ == old(out)@.push(digit(d as nat)),
{
    let text: &str = if d == 0 {
        "0"
    } else if d == 1 {
        "1"
    } else if d == 2 {
        "2"
    } else if d == 3 {
        "3"
    } else if d == 4 {
        "4"
    } else if d == 5 {
        "5"
    } else if d == 6 {
        "6"
    } else if d == 7 {
        "7"
    } else if d == 8 {
        "8"
    } else {
        "9"
    };
    proof {
        reveal_strlit("0");
        reveal_strlit("1");
        reveal_strlit("2");
        reveal_strlit("3");
        reveal_strlit("4");
        reveal_strlit("5");
        reveal_strlit("6");
        reveal_strlit("7");
        reveal_strlit("8");
        reveal_strlit("9");
    }
    out.append(text);
}

/// Appends the decimal digits of `n` to `out`.
fn push_decimal(out: &mut String, n: usize)
    ensures
        final(out)@ == old(out)@ + decimal(n as nat),
    decreases n,
{
    if n >= 10 {
        push_decimal(out, n / 10);
    }
    push_digit(out, n % 10);
}

impl BatchAddError {
    /// The text of [`Self::message`].
    pub open spec fn message_text(self) -> Seq<char> {
        match self {
            BatchAddError::InsufficientSpace(space) => "Insufficient Space of "@ + decimal(
                space as nat,
            ),
            BatchAddError::EmptyBuffer => "Empty buffer"@,
            BatchAddError::EmbeddingsDisabled => "Batch does not have embedding storage"@,
            BatchAddError::EmbeddingLengthMismatch { expected, actual } =>
            "Embedding length mismatch: expected "@ + decimal(expected as nat) + ", got "@
                + decimal(actual as nat),
            BatchAddError::PositionRowOutOfRange { row, rows } => "Position row "@ + decimal(
                row as nat,
            ) + " is not an extra row of a batch with "@ + decimal(rows as nat)
                + " position rows"@,
            BatchAddError::PositionRowLengthMismatch { expected, actual } =>
            "Position row length mismatch: expected "@ + decimal(expected as nat) + ", got "@
                + decimal(actual as nat),
        }
    }

    /// What went wrong, in words.
    #[must_use]
    pub fn message(&self) -> (r: String)
        ensures
            r@ == self.message_text(),
    {
        let mut out: String = String::new();
        match self {
            BatchAddError::InsufficientSpace(space) => {
                out.append("Insufficient Space of ");
                push_decimal(&mut out, *space);
            },
            BatchAddError::EmptyBuffer => {
                out.append("Empty buffer");
            },
            BatchAddError::EmbeddingsDisabled => {
                out.append("Batch does not have embedding storage");
            },
            BatchAddError::EmbeddingLengthMismatch { expected, actual } => {
                out.append("Embedding length mismatch: expected ");
                push_decimal(&mut out, *expected);
                out.append(", got ");
                push_decimal(&mut out, *actual);
            },
            BatchAddError::PositionRowOutOfRange { row, rows } => {
                out.append("Position row ");
                push_decimal(&mut out, *row);
                out.append(" is not an extra row of a batch with ");
                push_decimal(&mut out, *rows);
                out.append(" position rows");
            },
            BatchAddError::PositionRowLengthMismatch { expected, actual } => {
                out.append("Position row length mismatch: expected ");
                push_decimal(&mut out, *expected);
                out.append(", got ");
                push_decimal(&mut out, *actual);
            },
        }
        out
    }
}

} // verus!
