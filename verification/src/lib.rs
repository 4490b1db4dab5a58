//! Lazy initialization made easy.
//!
//! A [`Lazy`] holds a computation and an empty slot. The first access, by
//! [`Lazy::get`] or [`Lazy::get_mut`], runs the computation and keeps what it
//! returned; every later access works on the kept value and never runs the
//! computation again.
//!
//! `Lazy<T, F>` asks three things of its user:
//! - `T` implements `Clone`;
//! - `T` implements `Default` with a cheap operation;
//! - the variable is mutable, so that it can be initialized.
//!
//! The container adds no synchronization of its own. It is `Send` and `Sync`
//! exactly when both `T` and the computation `F` are.
//!
//! ```
//! use easylazy::Lazy;
//! let mut my_lazy_variable = Lazy::new(Box::new(|| 10));
//! // my_lazy_variable is uninitialized here
//! assert_eq!(my_lazy_variable.get(), 10);
//! ```

pub mod lazy;
pub mod laws;

pub use lazy::Lazy;
