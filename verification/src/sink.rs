//! The destination of rendered text.

use vstd::prelude::*;

verus! {

/// The failure of a render call. It carries nothing: a rendering closure
/// that cannot go on reports only that it failed.
#[derive(Clone, Copy, PartialEq, Eq, Debug, Structural)]
pub struct RenderError;

/// What a render call returns.
pub type RenderResult = Result<(), RenderError>;

/// `String::push` of the standard library appends the one character to the
/// end of the string and leaves the characters before it as they were.
pub assume_specification[ String::push ](s: &mut String, ch: char)
    ensures
        final(s)@ == old(s)@.push(ch),
;

/// The four spaces put in front of every line of a nested value in the
/// alternate layout.
pub open spec fn indentation() -> Seq<char> {
    seq![' ', ' ', ' ', ' ']
}

/// Whether the next character written behind `s` starts a line, where
/// `on_newline` says so for `s` itself.
pub open spec fn pad_state(s: Seq<char>, on_newline: bool) -> bool {
    if s.len() == 0 {
        on_newline
    } else {
        s.last() == '\n'
    }
}

/// `s` with the indentation put in front of each character that starts a
/// line. The first character starts one when `on_newline` holds, a later one
/// when it follows a line feed. A line feed that starts a line is indented
/// too.
pub open spec fn padded(s: Seq<char>, on_newline: bool) -> Seq<char>
    decreases s.len(),
{
    if s.len() == 0 {
        Seq::empty()
    } else {
        let front = s.drop_last();
        let gap = if pad_state(front, on_newline) {
            indentation()
        } else {
            Seq::empty()
        };
        padded(front, on_newline) + gap + seq![s.last()]
    }
}

/// Padding a text in two parts gives the same as padding it whole, when the
/// second part starts where the first one ended.
pub proof fn lemma_padded_concat(a: Seq<char>, b: Seq<char>, on_newline: bool)
    ensures
        padded(a + b, on_newline) == padded(a, on_newline) + padded(b, pad_state(a, on_newline)),
        pad_state(a + b, on_newline) == pad_state(b, pad_state(a, on_newline)),
    decreases b.len(),
{
    if b.len() == 0 {
        assert(a + b =~= a);
        assert(padded(a, on_newline) + padded(b, pad_state(a, on_newline)) =~= padded(
            a,
            on_newline,
        ));
    } else {
        let whole = a + b;
        assert(whole.drop_last() =~= a + b.drop_last());
        assert(whole.last() == b.last());
        lemma_padded_concat(a, b.drop_last(), on_newline);
        let mid = pad_state(a, on_newline);
        let gap = if pad_state(b.drop_last(), mid) {
            indentation()
        } else {
            Seq::empty()
        };
        assert(padded(whole, on_newline) =~= padded(a, on_newline) + (padded(b.drop_last(), mid)
            + gap + seq![b.last()]));
    }
}

/// A growing text that rendering closures and the layout builders write
/// to, with the one formatting option they read: the alternate flag, which
/// asks for the layout of one item per line.
///
/// The view of a sink is the text written to it so far.
pub struct Sink {
    text: String,
    alternate: bool,
}

impl View for Sink {
    type V = Seq<char>;

    closed spec fn view(&self) -> Seq<char> {
        self.text@
    }
}

impl Sink {
    /// Whether the alternate layout is asked for.
    pub closed spec fn is_alternate(&self) -> bool {
        self.alternate
    }

    /// An empty sink that asks for the compact layout.
    pub fn new() -> (sink: Sink)
        ensures
            sink@ == Seq::<char>::empty(),
            !sink.is_alternate(),
    {
        Sink { text: String::new(), alternate: false }
    }

    /// An empty sink with the alternate flag as given.
    pub fn with_alternate(alternate: bool) -> (sink: Sink)
        ensures
            sink@ == Seq::<char>::empty(),
            sink.is_alternate() == alternate,
    {
        Sink { text: String::new(), alternate }
    }

    /// Whether the alternate layout is asked for.
    #[verifier::when_used_as_spec(is_alternate)]
    pub fn alternate(&self) -> (r: bool)
        ensures
            r == self.is_alternate(),
    {
        self.alternate
    }

    /// Appends `s`. A sink takes whatever it is given, so this never fails.
    pub fn write_str(&mut self, s: &str) -> (r: RenderResult)
        ensures
            r is Ok,
            final(self)@ == old(self)@ + s@,
            final(self).is_alternate() == old(self).is_alternate(),
    {
        self.text.append(s);
        Ok(())
    }

    /// Appends the one character `c`.
    pub fn write_char(&mut self, c: char) -> (r: RenderResult)
        ensures
            r is Ok,
            final(self)@ == old(self)@.push(c),
            final(self).is_alternate() == old(self).is_alternate(),
    {
        self.text.push(c);
        Ok(())
    }

    /// Appends `s` with every line indented, as a value nested in an
    /// alternate layout is written. `on_newline` says whether the first
    /// character starts a line; the result says the same for whatever is
    /// written next.
    pub fn write_padded(&mut self, s: &str, on_newline: bool) -> (state: bool)
        ensures
            final(self)@ == old(self)@ + padded(s@, on_newline),
            final(self).is_alternate() == old(self).is_alternate(),
            state == pad_state(s@, on_newline),
    {
        let mut state: bool = on_newline;
        proof {
            assert(s@.take(0) =~= Seq::<char>::empty());
            assert(self@ =~= old(self)@ + padded(s@.take(0), on_newline));
        }
        for c in it: s.chars()
            invariant
                it.seq() == s@,
                self@ == old(self)@ + padded(s@.take(it.index() as int), on_newline),
                self.is_alternate() == old(self).is_alternate(),
                state == pad_state(s@.take(it.index() as int), on_newline),
        {
            let ghost i = it.index() as int;
            let ghost before = self@;
            if state {
                proof {
                    reveal_strlit("    ");
                    assert("    "@ =~= indentation());
                }
                self.text.append("    ");
            }
            self.text.push(c);
            proof {
                let upto = s@.take(i + 1);
                assert(upto.drop_last() =~= s@.take(i));
                assert(upto.last() == c);
                let gap = if state {
                    indentation()
                } else {
                    Seq::empty()
                };
                assert(self@ =~= before + gap + seq![c]);
                assert(self@ =~= old(self)@ + padded(upto, on_newline));
            }
            state = c == '\n';
        }
        proof {
            assert(s@.take(s@.len() as int) =~= s@);
        }
        state
    }

    /// The text written so far.
    pub fn as_str(&self) -> (r: &str)
        ensures
            r@ == self@,
    {
        self.text.as_str()
    }

    /// Gives up the sink for the text written to it.
    pub fn into_string(self) -> (r: String)
        ensures
            r@ == self@,
    {
        self.text
    }
}

} // verus!
