use vstd::prelude::*;
use vstd::string::StringExecFns;

verus! {

/// The output of a compilation: a buffer of text that only grows at its end.
pub struct Emitter {
    output_buffer: String,
}

impl View for Emitter {
    type V = Seq<char>;

    /// The text emitted so far.
    closed spec fn view(&self) -> Seq<char> {
        self.output_buffer@
    }
}

impl Emitter {
    /// An emitter that holds no text.
    pub fn new() -> (emitter: Self)
        ensures
            emitter@ == Seq::<char>::empty(),
    {
        Emitter { output_buffer: String::new() }
    }

    /// Appends `code` to the buffer as it is.
    pub fn emit_to_buffer(&mut self, code: &str)
        ensures
            final(self)@ == old(self)@ + code@,
    {
        self.output_buffer.append(code);
    }

    /// The text emitted so far. Reading it leaves the buffer as it is.
    pub fn buffer(&self) -> (text: &str)
        ensures
            text@ == self@,
    {
        self.output_buffer.as_str()
    }
}

} // verus!
