//! Lazy wrappers: a rendering closure bound to one kind.

use vstd::prelude::*;
use crate::kind::Kind;
use crate::sink::{padded, RenderError, RenderResult, Sink};
use crate::template::{infer_kind, kind_of};

verus! {

/// The closure may be called on every sink.
pub open spec fn takes_any_sink<F: Fn(&mut Sink) -> RenderResult>(render: F) -> bool {
    forall|s: &mut Sink| call_requires(render, (s,))
}

/// A rendering closure together with the one kind it is presented as.
///
/// Building a wrapper stores the closure and does nothing else. Each render
/// call runs the closure once, on the sink it is given or on a nested one,
/// and remembers nothing: a second render runs the closure again.
pub struct Lazy<F: Fn(&mut Sink) -> RenderResult> {
    kind: Kind,
    render: F,
}

impl<F: Fn(&mut Sink) -> RenderResult> Lazy<F> {
    /// The kind the wrapper was built with.
    pub closed spec fn kind_spec(&self) -> Kind {
        self.kind
    }

    /// The closure the wrapper holds.
    pub closed spec fn closure(&self) -> F {
        self.render
    }

    /// A wrapper of the given kind around `render`. Nothing is asked of the
    /// closure here, so it cannot be called: it first runs when the wrapper
    /// is rendered.
    pub fn new(kind: Kind, render: F) -> (lazy: Self)
        ensures
            lazy.kind_spec() == kind,
            lazy.closure() == render,
    {
        Lazy { kind, render }
    }

    /// A wrapper presented by the display trait.
    pub fn display(render: F) -> (lazy: Self)
        ensures
            lazy.kind_spec() == Kind::Display,
            lazy.closure() == render,
    {
        Lazy { kind: Kind::Display, render }
    }

    /// A wrapper presented by the debug trait.
    pub fn debug(render: F) -> (lazy: Self)
        ensures
            lazy.kind_spec() == Kind::Debug,
            lazy.closure() == render,
    {
        Lazy { kind: Kind::Debug, render }
    }

    /// A wrapper presented by the binary trait.
    pub fn binary(render: F) -> (lazy: Self)
        ensures
            lazy.kind_spec() == Kind::Binary,
            lazy.closure() == render,
    {
        Lazy { kind: Kind::Binary, render }
    }

    /// A wrapper presented by the octal trait.
    pub fn octal(render: F) -> (lazy: Self)
        ensures
            lazy.kind_spec() == Kind::Octal,
            lazy.closure() == render,
    {
        Lazy { kind: Kind::Octal, render }
    }

    /// A wrapper presented by the lower-case hexadecimal trait.
    pub fn lower_hex(render: F) -> (lazy: Self)
        ensures
            lazy.kind_spec() == Kind::LowerHex,
            lazy.closure() == render,
    {
        Lazy { kind: Kind::LowerHex, render }
    }

    /// A wrapper presented by the upper-case hexadecimal trait.
    pub fn upper_hex(render: F) -> (lazy: Self)
        ensures
            lazy.kind_spec() == Kind::UpperHex,
            lazy.closure() == render,
    {
        Lazy { kind: Kind::UpperHex, render }
    }

    /// A wrapper presented by the lower-case exponent trait.
    pub fn lower_exp(render: F) -> (lazy: Self)
        ensures
            lazy.kind_spec() == Kind::LowerExp,
            lazy.closure() == render,
    {
        Lazy { kind: Kind::LowerExp, render }
    }

    /// A wrapper presented by the upper-case exponent trait.
    pub fn upper_exp(render: F) -> (lazy: Self)
        ensures
            lazy.kind_spec() == Kind::UpperExp,
            lazy.closure() == render,
    {
        Lazy { kind: Kind::UpperExp, render }
    }

    /// A wrapper presented by the pointer trait.
    pub fn pointer(render: F) -> (lazy: Self)
        ensures
            lazy.kind_spec() == Kind::Pointer,
            lazy.closure() == render,
    {
        Lazy { kind: Kind::Pointer, render }
    }

    /// The kind the wrapper presents.
    #[verifier::when_used_as_spec(kind_spec)]
    pub fn kind(&self) -> (k: Kind)
        ensures
            k == self.kind_spec(),
    {
        self.kind
    }

    /// Renders by the wrapper's own kind: runs the closure on `sink` and
    /// returns what it returns.
    pub fn render_primary(&self, sink: &mut Sink) -> (r: RenderResult)
        requires
            takes_any_sink(self.closure()),
        ensures
            exists|s: &mut Sink|
                {
                    &&& *s == *old(sink)
                    &&& #[trigger] call_ensures(self.closure(), (s,), r)
                    &&& *final(sink) == *final(s)
                },
    {
        (self.render)(sink)
    }

    /// Renders the debug presentation: the kind's name, then the primary
    /// rendering in parentheses.
    ///
    /// On a compact sink the closure writes straight behind the opening
    /// parenthesis. On an alternate sink it writes to a nested sink, whose
    /// text is put on lines of its own, indented and closed by a comma. Where
    /// the closure fails, its failure is returned and nothing is written
    /// behind what it wrote: no comma and no closing parenthesis.
    pub fn render_debug(&self, sink: &mut Sink) -> (r: RenderResult)
        requires
            takes_any_sink(self.closure()),
        ensures
            !old(sink).is_alternate() ==> exists|s: &mut Sink|
                {
                    &&& s@ == old(sink)@ + self.kind_spec().name_spec() + "("@
                    &&& !s.is_alternate()
                    &&& #[trigger] call_ensures(self.closure(), (s,), r)
                    &&& final(sink)@ == final(s)@ + (if r is Ok {
                        ")"@
                    } else {
                        Seq::empty()
                    })
                    &&& final(sink).is_alternate() == final(s).is_alternate()
                },
            old(sink).is_alternate() ==> exists|s: &mut Sink|
                {
                    &&& s@ == Seq::<char>::empty()
                    &&& s.is_alternate()
                    &&& #[trigger] call_ensures(self.closure(), (s,), r)
                    &&& final(sink)@ == old(sink)@ + self.kind_spec().name_spec() + "(\n"@ + (if r is Ok {
                        padded(final(s)@ + ",\n"@, true) + ")"@
                    } else {
                        padded(final(s)@, true)
                    })
                    &&& final(sink).is_alternate()
                },
    {
        let ghost before = sink@;
        let ghost name = self.kind.name_spec();
        let _ = sink.write_str(self.kind.name());
        if sink.alternate() {
            let _ = sink.write_str("(\n");
            let mut nested = Sink::with_alternate(true);
            let r = (self.render)(&mut nested);
            let state = sink.write_padded(nested.as_str(), true);
            if r.is_ok() {
                let _ = sink.write_padded(",\n", state);
                let _ = sink.write_str(")");
                proof {
                    crate::sink::lemma_padded_concat(nested@, ",\n"@, true);
                    assert(sink@ =~= before + name + "(\n"@ + (padded(nested@ + ",\n"@, true)
                        + ")"@));
                }
            }
            r
        } else {
            let _ = sink.write_str("(");
            let r = (self.render)(sink);
            if r.is_ok() {
                let _ = sink.write_str(")");
            } else {
                proof {
                    assert(sink@ + Seq::<char>::empty() =~= sink@);
                }
            }
            r
        }
    }

    /// Renders the display presentation. A `Display` wrapper renders as by
    /// its own kind; a wrapper of any other kind renders as `render_debug`
    /// does, with its name in front.
    pub fn render_display(&self, sink: &mut Sink) -> (r: RenderResult)
        requires
            takes_any_sink(self.closure()),
        ensures
            self.kind_spec() == Kind::Display ==> exists|s: &mut Sink|
                {
                    &&& *s == *old(sink)
                    &&& #[trigger] call_ensures(self.closure(), (s,), r)
                    &&& *final(sink) == *final(s)
                },
            self.kind_spec() != Kind::Display && !old(sink).is_alternate() ==> exists|s: &mut Sink|
                {
                    &&& s@ == old(sink)@ + self.kind_spec().name_spec() + "("@
                    &&& !s.is_alternate()
                    &&& #[trigger] call_ensures(self.closure(), (s,), r)
                    &&& final(sink)@ == final(s)@ + (if r is Ok {
                        ")"@
                    } else {
                        Seq::empty()
                    })
                    &&& final(sink).is_alternate() == final(s).is_alternate()
                },
            self.kind_spec() != Kind::Display && old(sink).is_alternate() ==> exists|s: &mut Sink|
                {
                    &&& s@ == Seq::<char>::empty()
                    &&& s.is_alternate()
                    &&& #[trigger] call_ensures(self.closure(), (s,), r)
                    &&& final(sink)@ == old(sink)@ + self.kind_spec().name_spec() + "(\n"@ + (if r is Ok {
                        padded(final(s)@ + ",\n"@, true) + ")"@
                    } else {
                        padded(final(s)@, true)
                    })
                    &&& final(sink).is_alternate()
                },
    {
        if self.kind == Kind::Display {
            self.render_primary(sink)
        } else {
            self.render_debug(sink)
        }
    }

    /// The display presentation as a string of its own, rendered on a fresh
    /// compact sink; the closure's failure where it fails.
    pub fn render_to_string(&self) -> (out: Result<String, RenderError>)
        requires
            takes_any_sink(self.closure()),
        ensures
            self.kind_spec() == Kind::Display ==> exists|s: &mut Sink, r: RenderResult|
                {
                    &&& s@ == Seq::<char>::empty()
                    &&& !s.is_alternate()
                    &&& #[trigger] call_ensures(self.closure(), (s,), r)
                    &&& r is Ok <==> out is Ok
                    &&& out is Ok ==> out->Ok_0@ == final(s)@
                },
            self.kind_spec() != Kind::Display ==> exists|s: &mut Sink, r: RenderResult|
                {
                    &&& s@ == self.kind_spec().name_spec() + "("@
                    &&& !s.is_alternate()
                    &&& #[trigger] call_ensures(self.closure(), (s,), r)
                    &&& r is Ok <==> out is Ok
                    &&& out is Ok ==> out->Ok_0@ == final(s)@ + ")"@
                },
    {
        let mut sink = Sink::new();
        proof {
            assert(Seq::<char>::empty() + self.kind_spec().name_spec() + "("@
                =~= self.kind_spec().name_spec() + "("@);
        }
        let r = self.render_display(&mut sink);
        match r {
            Ok(()) => Ok(sink.into_string()),
            Err(e) => Err(e),
        }
    }
}

impl<F: Fn(&mut Sink) -> RenderResult + Clone> Clone for Lazy<F> {
    /// A wrapper of the same kind around a clone of the closure.
    fn clone(&self) -> (copy: Self)
        ensures
            copy.kind_spec() == self.kind_spec(),
    {
        Lazy { kind: self.kind, render: self.render.clone() }
    }
}

impl<F: Fn(&mut Sink) -> RenderResult + Copy> Copy for Lazy<F> {

}

/// Builds the wrapper for a template: the kind is the one inferred from the
/// template's placeholders, and `render` is the closure that interpolates
/// it.
pub fn lazy_format<F: Fn(&mut Sink) -> RenderResult>(template: &str, render: F) -> (lazy: Lazy<F>)
    ensures
        lazy.kind_spec() == kind_of(template@),
        lazy.closure() == render,
{
    Lazy::new(infer_kind(template), render)
}

} // verus!
