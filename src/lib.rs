//! Carrying an owned value through a channel that holds a single machine word.
//!
//! A value is wrapped in a [`NoDrop`] container, which never runs the value's
//! destructor on its own. A value whose size and alignment fit a word travels
//! as its own bytes ([`NoDrop::encode_usize`]); any other value travels as the
//! non-zero address at which its container stands in a [`Memory`]
//! ([`Memory::encode_at`], or [`Memory::encode_address`] for types without a
//! byte representation). [`decode_usize`] and [`decode_ptr`] turn a word back
//! into the value, moving it out of its container in address mode;
//! [`decode_address`] and [`decode_ptr_address`] do so for address mode alone
//! and take any type.

pub mod codec;
pub mod container;
pub mod laws;
pub mod repr;

pub use codec::{decode_address, decode_ptr, decode_ptr_address, decode_usize};
pub use container::{Memory, NoDrop};
pub use repr::Repr;
