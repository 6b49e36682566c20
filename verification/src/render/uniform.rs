use vstd::prelude::*;

verus! {

/// Required alignment of offsets into a dynamic uniform buffer.
pub const DYNAMIC_UNIFORM_BUFFER_ALIGNMENT: u64 = 256;

/// A boolean laid out as a 32-bit integer, as shaders expect it.
#[derive(Clone, Copy, Debug, Default)]
pub struct UniformBool {
    value: u32,
}

impl UniformBool {
    /// The 32-bit value the shader reads.
    pub closed spec fn spec_value(self) -> u32 {
        self.value
    }

    pub fn new(value: bool) -> (r: UniformBool)
        ensures
            r.spec_value() == (if value { 1u32 } else { 0u32 }),
    {
        UniformBool { value: if value { 1 } else { 0 } }
    }

    pub fn value(&self) -> (r: u32)
        ensures
            r == self.spec_value(),
    {
        self.value
    }
}

} // verus!
