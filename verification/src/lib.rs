//! Shogi NNUE training data: positions, feature sets, output buckets and the
//! record formats of the training data.

pub mod inputs;
pub mod interleave;
pub mod loader;
pub mod outputs;
pub mod seqs;
pub mod shogi;
pub mod teacher_path;
pub mod text;
pub mod validate;
pub mod yaneuraou_kppt;
