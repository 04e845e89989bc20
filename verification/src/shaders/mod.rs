//! Shaders: their machine code and the buffers that hold it.

use vstd::prelude::*;

pub mod test_model;

verus! {

/// The machine code of a shader, and the handle of the buffer that holds it once it
/// has been uploaded. The handle is set once.
pub struct ShaderNode {
    code: &'static [u64],
    handle: Option<u32>,
}

impl ShaderNode {
    /// The machine code, one instruction per word.
    pub closed spec fn spec_code(&self) -> Seq<u64> {
        self.code@
    }

    /// The handle of the buffer that holds the code, once it is set.
    pub closed spec fn spec_handle(&self) -> Option<u32> {
        self.handle
    }

    /// A shader that has not been uploaded.
    pub fn new(code: &'static [u64]) -> (node: Self)
        ensures
            node.spec_code() == code@,
            node.spec_handle() is None,
    {
        ShaderNode { code, handle: None }
    }

    /// The machine code, one instruction per word.
    pub fn code(&self) -> (code: &'static [u64])
        ensures
            code@ == self.spec_code(),
    {
        self.code
    }

    /// The handle of the buffer that holds the code, once it is set.
    pub fn handle(&self) -> (handle: Option<u32>)
        ensures
            handle == self.spec_handle(),
    {
        self.handle
    }

    /// Sets the handle of the buffer that holds the code. A handle that is set stays:
    /// a second one is handed back.
    pub fn set_handle(&mut self, handle: u32) -> (r: Result<(), u32>)
        ensures
            final(self).spec_code() == old(self).spec_code(),
            old(self).spec_handle() is None ==> r is Ok,
            old(self).spec_handle() is None ==> final(self).spec_handle() == Some(handle),
            old(self).spec_handle() is Some ==> r == Err::<(), u32>(handle),
            old(self).spec_handle() is Some ==> final(self).spec_handle() == old(self).spec_handle(),
    {
        match self.handle {
            None => {
                self.handle = Some(handle);
                Ok(())
            },
            Some(_) => Err(handle),
        }
    }
}

} // verus!
