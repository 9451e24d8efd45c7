//! The caller-owned set of base addresses that encoded pointers may be
//! relative to.

use vstd::prelude::*;

verus! {

/// Optional base addresses for the relative `DW_EH_PE_*` pointer
/// applications.
///
/// Each base is independently present or absent; resolving a pointer whose
/// application names an absent base is a hard decode failure, never a silent
/// zero.  The `func` base is scoped: the caller sets it while processing one
/// function's frame descriptor and clears it afterwards.
#[derive(Debug, Clone, Copy, PartialEq, Eq)]
pub struct BaseAddresses {
    /// The base address of the CFI section, for program-counter-relative
    /// pointers.
    pub cfi: Option<u64>,
    /// The base address of the `.text` segment.
    pub text: Option<u64>,
    /// The base address of the data segment.
    pub data: Option<u64>,
    /// The base address of the function whose frame descriptor is currently
    /// being processed, if any.
    pub func: Option<u64>,
}

impl Default for BaseAddresses {
    /// A set of base addresses with every base absent.
    fn default() -> (r: BaseAddresses)
        ensures
            r == (BaseAddresses { cfi: None, text: None, data: None, func: None }),
    {
        BaseAddresses { cfi: None, text: None, data: None, func: None }
    }
}

impl BaseAddresses {
    /// This set of base addresses, with the CFI base set to `addr`.
    pub fn set_cfi(self, addr: u64) -> (r: BaseAddresses)
        ensures
            r == (BaseAddresses { cfi: Some(addr), ..self }),
    {
        BaseAddresses { cfi: Some(addr), ..self }
    }

    /// This set of base addresses, with the `.text` base set to `addr`.
    pub fn set_text(self, addr: u64) -> (r: BaseAddresses)
        ensures
            r == (BaseAddresses { text: Some(addr), ..self }),
    {
        BaseAddresses { text: Some(addr), ..self }
    }

    /// This set of base addresses, with the data base set to `addr`.
    pub fn set_data(self, addr: u64) -> (r: BaseAddresses)
        ensures
            r == (BaseAddresses { data: Some(addr), ..self }),
    {
        BaseAddresses { data: Some(addr), ..self }
    }

    /// This set of base addresses, with the function base set to `addr`.
    pub fn set_func(self, addr: u64) -> (r: BaseAddresses)
        ensures
            r == (BaseAddresses { func: Some(addr), ..self }),
    {
        BaseAddresses { func: Some(addr), ..self }
    }
}

} // verus!
