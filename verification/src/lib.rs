//! Small verified exercises in functional composition: a two-case sum type
//! with its universal morphism, an optional-value monad with Kleisli
//! composition, a cost-counting monad, and a generic memoizer.

pub mod counter;
pub mod either;
pub mod memo;
pub mod optional;
pub mod text;
pub mod writer;
