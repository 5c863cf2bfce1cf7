//! The engine's view of its host: a character-producing input source and a
//! character-consuming output sink, together with ready-made sources and
//! sinks for scripted input, blank input, captured output and discarded
//! output.

use vstd::prelude::*;

verus! {

/// A zero-argument operation returning one character, invoked exactly once
/// per executed input instruction.
///
/// `stream()` is the sequence of characters the source still has to hand
/// out. A source with an exhausted (or from the start unknowable) stream may
/// yield any character.
pub trait InputSource {
    /// The characters this source still has to hand out, in order. A source
    /// that does not say (an interactive console, say) leaves the default,
    /// the empty stream: nothing is then promised of what it yields.
    open spec fn stream(&self) -> Seq<char> {
        Seq::empty()
    }

    /// Produce the next character.
    fn next_char(&mut self) -> (c: char)
        ensures
            old(self).stream().len() > 0 ==> c == old(self).stream()[0] && final(self).stream()
                == old(self).stream().drop_first(),
            old(self).stream().len() == 0 ==> final(self).stream().len() == 0,
    ;
}

/// A one-argument operation accepting one character, invoked exactly once
/// per executed output instruction.
///
/// `written()` is the sequence of characters handed to the sink so far.
pub trait OutputSink {
    /// The characters handed to this sink so far, in order. A sink that does
    /// not track them (a terminal, say) leaves the default; such a sink is
    /// not held to `put_char`'s contract, since nothing checks it.
    open spec fn written(&self) -> Seq<char> {
        Seq::empty()
    }

    /// Consume one character.
    fn put_char(&mut self, c: char)
        ensures
            final(self).written() == old(self).written().push(c),
    ;
}

/// An input source that hands out a fixed sequence of characters, then NUL
/// characters once the script is exhausted.
pub struct ScriptInput {
    /// The scripted characters.
    pub chars: Vec<char>,
    /// How many of them have been handed out already.
    pub pos: usize,
}

impl View for ScriptInput {
    type V = Seq<char>;

    open spec fn view(&self) -> Seq<char> {
        if self.pos <= self.chars@.len() {
            self.chars@.skip(self.pos as int)
        } else {
            Seq::empty()
        }
    }
}

impl InputSource for ScriptInput {
    open spec fn stream(&self) -> Seq<char> {
        self@
    }

    fn next_char(&mut self) -> (c: char) {
        if self.pos < self.chars.len() {
            let c = self.chars[self.pos];
            self.pos = self.pos + 1;
            proof {
                assert(self.chars@.skip(self.pos as int) =~= old(self)@.drop_first());
            }
            c
        } else {
            '\0'
        }
    }
}

impl ScriptInput {
    /// A source that will hand out exactly the given characters, in order.
    pub fn new(chars: Vec<char>) -> (r: ScriptInput)
        ensures
            r.stream() == chars@,
    {
        let r = ScriptInput { chars, pos: 0 };
        proof {
            assert(r@ =~= r.chars@);
        }
        r
    }
}

/// An input source that always hands out a blank, handy when input does not
/// matter; its stream is unknowable, so nothing is promised of what is read.
pub struct BlankInput {}

impl View for BlankInput {
    type V = Seq<char>;

    open spec fn view(&self) -> Seq<char> {
        Seq::empty()
    }
}

impl InputSource for BlankInput {
    open spec fn stream(&self) -> Seq<char> {
        self@
    }

    fn next_char(&mut self) -> (c: char) {
        ' '
    }
}

impl BlankInput {
    /// A source of blanks.
    pub fn new() -> (r: BlankInput) {
        BlankInput {  }
    }
}

/// An output sink that captures every character handed to it.
pub struct BufferOutput {
    /// The captured characters, oldest first.
    pub chars: Vec<char>,
}

impl View for BufferOutput {
    type V = Seq<char>;

    open spec fn view(&self) -> Seq<char> {
        self.chars@
    }
}

impl OutputSink for BufferOutput {
    open spec fn written(&self) -> Seq<char> {
        self@
    }

    fn put_char(&mut self, c: char) {
        self.chars.push(c);
    }
}

impl BufferOutput {
    /// An empty capturing sink.
    pub fn new() -> (r: BufferOutput)
        ensures
            r.written() == Seq::<char>::empty(),
    {
        BufferOutput { chars: vec![] }
    }

    /// The characters captured so far, oldest first.
    pub fn chars(&self) -> (r: &Vec<char>)
        ensures
            r@ == self.written(),
    {
        &self.chars
    }
}

/// An output sink that discards every character handed to it, handy when
/// output does not matter; what was handed to it is still tracked in ghost
/// state, so the engine's contracts apply to it unchanged.
pub struct BlankOutput {
    /// The discarded characters, tracked only for specification purposes.
    pub log: Ghost<Seq<char>>,
}

impl View for BlankOutput {
    type V = Seq<char>;

    open spec fn view(&self) -> Seq<char> {
        self.log@
    }
}

impl OutputSink for BlankOutput {
    open spec fn written(&self) -> Seq<char> {
        self@
    }

    fn put_char(&mut self, c: char) {
        self.log = Ghost(self.log@.push(c));
    }
}

impl BlankOutput {
    /// A discarding sink.
    pub fn new() -> (r: BlankOutput)
        ensures
            r.written() == Seq::<char>::empty(),
    {
        BlankOutput { log: Ghost(Seq::empty()) }
    }
}

} // verus!
