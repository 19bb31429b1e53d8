//! What the probes share about the operating system: its errors, its control codes and its
//! text encoding.
use vstd::prelude::*;

use crate::text::number::{dec, push_dec};

pub mod device;
pub mod ioctl;
pub mod pci_lock;
pub mod registry;
pub mod wide;

pub use wide::{to_wide, wide_to_string};

verus! {

/// An operating-system call that failed, with the OS error attached.
#[derive(Debug, Clone)]
pub struct WinError {
    pub context: &'static str,
    pub code: u32,
}

/// The text of a failed call.
pub open spec fn error_text(context: Seq<char>, code: u32) -> Seq<char> {
    context + " failed (os error "@ + dec(code as nat) + ")"@
}

impl WinError {
    pub fn new(context: &'static str, code: u32) -> (e: Self)
        ensures
            e == (WinError { context, code }),
    {
        WinError { context, code }
    }

    /// What failed, and with which error.
    pub fn describe(&self) -> (s: String)
        ensures
            s@ == error_text(self.context@, self.code),
    {
        let mut s = String::from_str(self.context);
        s.append(" failed (os error ");
        push_dec(&mut s, self.code as u128);
        s.append(")");
        s
    }
}

pub type WinResult<T> = Result<T, WinError>;

/// The text of a failed call begins with what failed and goes on with the code in brackets, so
/// the codes can be told apart.
pub proof fn errors_tell_their_codes(context: Seq<char>, a: u32, b: u32)
    ensures
        error_text(context, a).take(context.len() as int) == context,
        error_text(context, a) == error_text(context, b) ==> a == b,
{
    reveal_strlit(" failed (os error ");
    reveal_strlit(")");
    let head = context + " failed (os error "@;
    let n = head.len() as int;
    let x = error_text(context, a);
    let y = error_text(context, b);
    assert(x.take(context.len() as int) =~= context);
    assert(x.subrange(n, x.len() - 1) =~= dec(a as nat));
    assert(y.subrange(n, y.len() - 1) =~= dec(b as nat));
    crate::text::number::notation_stands_for_the_number(a as nat);
    crate::text::number::notation_stands_for_the_number(b as nat);
}

} // verus!
