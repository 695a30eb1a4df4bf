//! Verified core of the ferrowl Modbus/OCPP simulator: configuration resolution, command-line
//! and descriptor parsing, TLS policy resolution, and the decision logic of its dialogs.
use vstd::prelude::*;

pub mod backoff;
pub mod bridge;
pub mod cli;
pub mod command;
pub mod config;
pub mod dialog;
pub mod dialog_keys;
pub mod headless;
pub mod log_ring;
pub mod help;
pub mod convert;
pub mod num;
pub mod path;
pub mod path_suggest;
pub mod register_io;
pub mod registers;
pub mod tabs;
pub mod text;
pub mod time;
pub mod tls;
pub mod tls_section;

verus! {

/// Unwrapping with a panic message built from the error itself, as `expect` does with a fixed
/// message. Verified callers may only unwrap a value that is there.
pub trait Expect<F: FnOnce(Self::Error) -> String> {
    type Value;
    type Error;

    /// The value is present.
    spec fn holds_value(&self) -> bool;

    /// The present value.
    spec fn value_of(&self) -> Self::Value;

    fn panic(self, f: F) -> (r: Self::Value)
        requires
            self.holds_value(),
        ensures
            r == self.value_of(),
    ;
}

impl<T, E, F: FnOnce(E) -> String> Expect<F> for Result<T, E> {
    type Value = T;

    type Error = E;

    open spec fn holds_value(&self) -> bool {
        self is Ok
    }

    open spec fn value_of(&self) -> T {
        self->Ok_0
    }

    fn panic(self, f: F) -> (r: T) {
        match self {
            Ok(v) => v,
            Err(_) => vstd::pervasive::unreached(),
        }
    }
}

} // verus!
