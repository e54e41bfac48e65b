//! A diagnostic error built up in layers.
//!
//! An error is a message plus, optionally, the original source text, a byte
//! span into it, a help note and a cause.  Wrapping an error in another
//! message keeps the inner error as the cause, so the whole chain stays
//! inspectable.  The view of an error is the sequence of its layers,
//! outermost first.

use vstd::prelude::*;

verus! {

/// A byte-offset region `(offset, length)` of the original source text.
#[derive(Clone, Copy, PartialEq, Eq, Structural, Debug)]
pub struct Span {
    pub offset: usize,
    pub length: usize,
}

/// One layer of a diagnostic: a message and its attached context.
pub struct ErrLayer {
    pub msg: Seq<char>,
    pub source: Option<Seq<char>>,
    pub span: Option<Span>,
    pub help: Option<Seq<char>>,
}

/// An error that is created using the builder pattern.
///
/// New errors are created using [`MuError::new`], while another layer of
/// context can be added using [`MuError::and_then`].
#[derive(Debug)]
pub struct MuError {
    pub msg: String,
    pub source_code: Option<String>,
    pub span: Option<Span>,
    pub help: Option<String>,
    pub cause: Option<Box<MuError>>,
}

impl MuError {
    /// The outermost layer of this error alone.
    pub open spec fn head_layer(self) -> ErrLayer {
        ErrLayer {
            msg: self.msg@,
            source: match self.source_code {
                Some(s) => Some(s@),
                None => None,
            },
            span: self.span,
            help: match self.help {
                Some(h) => Some(h@),
                None => None,
            },
        }
    }

    /// The layers of an optional error, outermost first.
    pub open spec fn layers_of(e: Option<Box<MuError>>) -> Seq<ErrLayer>
        decreases e,
    {
        match e {
            None => Seq::empty(),
            Some(inner) => inner.layers(),
        }
    }

    /// The layers of this error, outermost first; never empty.
    pub open spec fn layers(self) -> Seq<ErrLayer>
        decreases self,
    {
        seq![self.head_layer()] + Self::layers_of(self.cause)
    }

    /// Creates a new error with a specified message.
    pub fn new(msg: &str) -> (r: Self)
        ensures
            r@ == seq![
                ErrLayer { msg: msg@, source: None, span: None, help: None },
            ],
    {
        let r = MuError { msg: msg.to_owned(), source_code: None, span: None, help: None, cause: None };
        proof {
            assert(r@ =~= seq![ErrLayer { msg: msg@, source: None, span: None, help: None }]);
        }
        r
    }

    /// Wraps this error with another message for context.  The resulting
    /// error copies this error's source code and source span, and is caused
    /// by this error.
    pub fn and_then(self, msg: &str) -> (r: Self)
        ensures
            r@ == seq![
                ErrLayer {
                    msg: msg@,
                    source: self@[0].source,
                    span: self@[0].span,
                    help: None,
                },
            ] + self@,
    {
        let source: Option<String> = match &self.source_code {
            Some(s) => Some(s.clone()),
            None => None,
        };
        let span = self.span;
        let r = Self::new(msg).source_code(source).span(span).cause(self);
        proof {
            assert(r@ =~= seq![
                ErrLayer { msg: msg@, source: self@[0].source, span: self@[0].span, help: None },
            ] + self@);
        }
        r
    }

    /// Sets the source code of this error.
    pub fn source_code<O: ToOption<String>>(self, source_code: O) -> (r: Self)
        ensures
            r@ == self@.update(
                0,
                ErrLayer {
                    source: match source_code.spec_to_option() {
                        Some(s) => Some(s@),
                        None => None,
                    },
                    ..self@[0]
                },
            ),
    {
        let new_source = source_code.to_option();
        let r = MuError { source_code: new_source, ..self };
        proof {
            assert(r@ =~= self@.update(0, r.head_layer()));
        }
        r
    }

    /// Sets the source span of this error.
    pub fn span<O: ToOption<Span>>(self, span: O) -> (r: Self)
        ensures
            r@ == self@.update(0, ErrLayer { span: span.spec_to_option(), ..self@[0] }),
    {
        let new_span = span.to_option();
        let r = MuError { span: new_span, ..self };
        proof {
            assert(r@ =~= self@.update(0, r.head_layer()));
        }
        r
    }

    /// Sets the help message of this error.
    pub fn help<O: ToOption<String>>(self, help: O) -> (r: Self)
        ensures
            r@ == self@.update(
                0,
                ErrLayer {
                    help: match help.spec_to_option() {
                        Some(h) => Some(h@),
                        None => None,
                    },
                    ..self@[0]
                },
            ),
    {
        let new_help = help.to_option();
        let r = MuError { help: new_help, ..self };
        proof {
            assert(r@ =~= self@.update(0, r.head_layer()));
        }
        r
    }

    /// Sets the cause of this error, replacing any earlier cause chain.
    pub fn cause(self, cause: MuError) -> (r: Self)
        ensures
            r@ == seq![self@[0]] + cause@,
    {
        let r = MuError { cause: Some(Box::new(cause)), ..self };
        proof {
            assert(r@ =~= seq![self@[0]] + cause@);
        }
        r
    }
}

impl View for MuError {
    type V = Seq<ErrLayer>;

    open spec fn view(&self) -> Seq<ErrLayer> {
        self.layers()
    }
}

/// Something that can be converted into an [`Option<T>`].
/// Used for many inputs to [`MuError`] builder functions.
pub trait ToOption<T>: Sized {
    /// What the conversion yields.
    spec fn spec_to_option(&self) -> Option<T>;

    /// Converts this value into an [`Option<T>`].
    fn to_option(self) -> (r: Option<T>)
        ensures
            r == self.spec_to_option(),
    ;
}

impl<T> ToOption<T> for T {
    open spec fn spec_to_option(&self) -> Option<T> {
        Some(*self)
    }

    fn to_option(self) -> (r: Option<T>) {
        Some(self)
    }
}

impl<T> ToOption<T> for Option<T> {
    open spec fn spec_to_option(&self) -> Option<T> {
        *self
    }

    fn to_option(self) -> (r: Option<T>) {
        self
    }
}

} // verus!
