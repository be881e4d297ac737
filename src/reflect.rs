use vstd::prelude::*;

verus! {

/// How many descriptors a shader declares at one binding.
#[derive(Clone, Copy, Debug, PartialEq, Eq, Structural)]
pub enum BindingCount {
    One,
    StaticSized(usize),
    Unbounded,
}

/// One resource binding of a shader's interface, as reflection reports it.
/// `ty` is the raw descriptor-type number of the graphics API.
#[derive(Clone, Debug)]
pub struct ReflectedBinding {
    pub set: u32,
    pub binding: u32,
    pub ty: u32,
    pub count: BindingCount,
    pub name: String,
}

} // verus!
