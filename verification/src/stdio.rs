//! Server with an stdio transport: its handles and the stream of messages
//! interleaved with its responses.

use vstd::prelude::*;

verus! {

/// The stream that interleaves no messages.
#[derive(Debug)]
pub struct Nothing;

impl Nothing {
    pub fn new() -> Nothing {
        Nothing
    }
}

/// Server for processing requests and responses on `stdin` and `stdout`.
pub struct Server<I, O, S> {
    stdin: I,
    stdout: O,
    interleave: S,
}

impl<I, O, S> Server<I, O, S> {
    /// The handles and the interleaved stream.
    pub closed spec fn parts(&self) -> (I, O, S) {
        (self.stdin, self.stdout, self.interleave)
    }

    /// Interleaves the given stream of messages into `stdout` together with
    /// the responses.
    pub fn interleave<T>(self, stream: T) -> (s: Server<I, O, T>)
        ensures
            s.parts() == (self.parts().0, self.parts().1, stream),
    {
        Server { stdin: self.stdin, stdout: self.stdout, interleave: stream }
    }

    /// Splits the server into its handles and its interleaved stream.
    pub fn into_parts(self) -> (r: (I, O, S))
        ensures
            r == self.parts(),
    {
        (self.stdin, self.stdout, self.interleave)
    }
}

impl<I, O> Server<I, O, Nothing> {
    /// Creates a new `Server` with the given `stdin` and `stdout` handles.
    pub fn new(stdin: I, stdout: O) -> (s: Self)
        ensures
            s.parts().0 == stdin,
            s.parts().1 == stdout,
    {
        Server { stdin, stdout, interleave: Nothing::new() }
    }
}

/// Joins the messages of an error and of its sources, outermost first, with
/// `": "` between them.
pub fn display_sources(messages: &[String]) -> (s: String)
    ensures
        s@ == crate::transport::joined_sources(messages@.map_values(|m: String| m@)),
{
    crate::transport::display_sources(messages)
}

} // verus!
