//! The template expression mini-language.
//!
//! A template is parsed from a source string into an ordered sequence of
//! parts: literal text runs and variables (`$name` or `${ name }`).  Escape
//! sequences `\\` and `\$` yield the literal character; a backslash before
//! any other character is kept verbatim.  Parsing tracks byte-accurate
//! source spans for diagnostics.  A parsed template is immutable and may be
//! resolved repeatedly against different variable lookups.
//!
//! The grammar and every error case are pinned down by the specification
//! functions [`spec_parse`] and [`spec_resolve`]; the executable parser and
//! resolver return exactly what those functions describe.

use vstd::prelude::*;

verus! {

use vstd::utf8::encode_scalar;
use vstd::utf8::encode_utf8;

use crate::chars::byte_offset_of;
use crate::chars::char_is_space;
use crate::chars::char_utf8_len;
use crate::chars::chars_vec;
use crate::chars::is_name_char;
use crate::chars::is_name_char_exec;
use crate::chars::is_space;
use crate::chars::lemma_byte_offset_le_total;
use crate::chars::lemma_byte_offset_mono;
use crate::chars::lemma_byte_offset_step;
use crate::chars::string_from_chars;
use crate::chars::string_push_char;
use crate::error::ErrLayer;
use crate::error::MuError;
use crate::error::Span;

// ---------------------------------------------------------------------------
// The abstract model: parts, diagnostics, and the specification parser.
// ---------------------------------------------------------------------------

/// The abstract form of one template part.
pub enum PartView {
    /// A literal text run, emitted verbatim.
    Text(Seq<char>),
    /// A named placeholder, substituted at resolution time.
    Variable(Seq<char>),
}

/// The message of an end-of-input failure while reading a character.
pub open spec fn msg_eoi_read() -> Seq<char> {
    "Cannot read: reached end of text"@
}

/// The message of an end-of-input failure while peeking at a character.
pub open spec fn msg_eoi_peek() -> Seq<char> {
    "Cannot peek: reached end of text"@
}

/// The context message wrapped around a failure to read an escape sequence.
pub open spec fn msg_escape_context() -> Seq<char> {
    "Could not read escape"@
}

/// The message reporting an unexpected character after `$`.
pub open spec fn msg_expected_variable(c: char) -> Seq<char> {
    "Expected variable name or curly brackets after $, found "@ + seq![c]
}

/// The message of an empty braced variable name.
pub open spec fn msg_empty_name() -> Seq<char> {
    "No variable name found inside brackets"@
}

/// The message of a braced variable that is never closed.
pub open spec fn msg_unclosed() -> Seq<char> {
    "Unclosed brackets"@
}

/// The context message wrapped around every parse failure.
pub open spec fn msg_parse_context() -> Seq<char> {
    "Could not parse template"@
}

/// The message of a resolution failure for the given variable name.
pub open spec fn msg_unresolved(name: Seq<char>) -> Seq<char> {
    "Could not resolve variable '"@ + name + "' in template"@
}

/// A single-layer diagnostic carrying the source text and the byte span
/// from `start` to `end`.
pub open spec fn base_err(src: Seq<char>, msg: Seq<char>, start: int, end: int) -> Seq<ErrLayer> {
    seq![
        ErrLayer {
            msg,
            source: Some(src),
            span: Some(Span { offset: start as usize, length: (end - start) as usize }),
            help: None,
        },
    ]
}

/// Wraps a diagnostic in a context message, copying the inner source text
/// and span outward.
pub open spec fn wrap_err(e: Seq<ErrLayer>, msg: Seq<char>) -> Seq<ErrLayer>
    recommends
        e.len() >= 1,
{
    seq![ErrLayer { msg, source: e[0].source, span: e[0].span, help: None }] + e
}

/// Wraps a diagnostic in a context message whose span is re-anchored to run
/// from `start` to `end`.
pub open spec fn wrap_err_spanned(
    e: Seq<ErrLayer>,
    msg: Seq<char>,
    start: int,
    end: int,
) -> Seq<ErrLayer>
    recommends
        e.len() >= 1,
{
    seq![
        ErrLayer {
            msg,
            source: e[0].source,
            span: Some(Span { offset: start as usize, length: (end - start) as usize }),
            help: None,
        },
    ] + e
}

/// What a backslash escape expands to: `\\` and `\$` yield the bare
/// character, any other escape keeps the backslash verbatim.
pub open spec fn escape_expansion(c: char) -> Seq<char> {
    if c == '\\' {
        seq!['\\']
    } else if c == '$' {
        seq!['$']
    } else {
        seq!['\\', c]
    }
}

/// The first index at or after `i` that does not hold a variable-name
/// character (or the end of the text).
pub open spec fn name_end(s: Seq<char>, i: int) -> int
    decreases s.len() - i,
    when 0 <= i <= s.len()
{
    if i >= s.len() {
        i
    } else if !is_name_char(s[i]) {
        i
    } else {
        name_end(s, i + 1)
    }
}

/// The first index at or after `i` that does not hold whitespace (or the
/// end of the text).
pub open spec fn space_end(s: Seq<char>, i: int) -> int
    decreases s.len() - i,
    when 0 <= i <= s.len()
{
    if i >= s.len() {
        i
    } else if !is_space(s[i]) {
        i
    } else {
        space_end(s, i + 1)
    }
}

/// Scanning a variable after the `$` at index `dollar`: the name and the
/// index just past the variable, or the diagnostic of the failure.
pub open spec fn scan_variable(s: Seq<char>, dollar: int) -> Result<(Seq<char>, int), Seq<ErrLayer>>
    recommends
        0 <= dollar < s.len(),
{
    let i = dollar + 1;
    if i >= s.len() {
        Err(base_err(s, msg_eoi_read(), byte_offset_of(s, dollar), byte_offset_of(s, i)))
    } else if s[i] == '{' {
        scan_braced(s, i)
    } else if is_name_char(s[i]) {
        Ok((s.subrange(i, name_end(s, i)), name_end(s, i)))
    } else {
        Err(base_err(s, msg_expected_variable(s[i]), byte_offset_of(s, i), byte_offset_of(s, i + 1)))
    }
}

/// Scanning a braced variable whose `{` stands at index `open_idx`:
/// whitespace is trimmed around the name, and the closing `}` is required.
pub open spec fn scan_braced(s: Seq<char>, open_idx: int) -> Result<(Seq<char>, int), Seq<ErrLayer>>
    recommends
        0 <= open_idx < s.len(),
{
    let w = space_end(s, open_idx + 1);
    if w >= s.len() {
        Err(base_err(s, msg_eoi_peek(), byte_offset_of(s, w), byte_offset_of(s, w)))
    } else {
        let j = name_end(s, w);
        if j == w {
            Err(base_err(s, msg_empty_name(), byte_offset_of(s, w), byte_offset_of(s, w)))
        } else {
            let t = space_end(s, j);
            if t >= s.len() {
                Err(wrap_err_spanned(
                    base_err(s, msg_eoi_read(), byte_offset_of(s, t), byte_offset_of(s, t)),
                    msg_unclosed(),
                    byte_offset_of(s, open_idx),
                    byte_offset_of(s, t),
                ))
            } else if s[t] == '}' {
                Ok((s.subrange(w, j), t + 1))
            } else {
                Err(base_err(s, msg_unclosed(), byte_offset_of(s, open_idx), byte_offset_of(s, t + 1)))
            }
        }
    }
}

/// The main parse loop from index `i` on, with the pending literal buffer
/// `buf` and the parts gathered so far in `acc`.  The buffer is flushed as
/// a [`PartView::Text`] part whenever a variable begins and once at the end
/// of the text; empty buffers are never flushed.
pub open spec fn parse_parts(
    s: Seq<char>,
    i: int,
    buf: Seq<char>,
    acc: Seq<PartView>,
) -> Result<Seq<PartView>, Seq<ErrLayer>>
    decreases s.len() - i,
    when 0 <= i <= s.len()
    via parse_parts_decreases
{
    if i >= s.len() {
        Ok(
            if buf.len() == 0 {
                acc
            } else {
                acc.push(PartView::Text(buf))
            },
        )
    } else if s[i] == '\\' {
        if i + 1 >= s.len() {
            Err(wrap_err(
                base_err(s, msg_eoi_read(), byte_offset_of(s, i + 1), byte_offset_of(s, i + 1)),
                msg_escape_context(),
            ))
        } else {
            parse_parts(s, i + 2, buf + escape_expansion(s[i + 1]), acc)
        }
    } else if s[i] == '$' {
        let flushed = if buf.len() == 0 {
            acc
        } else {
            acc.push(PartView::Text(buf))
        };
        match scan_variable(s, i) {
            Ok(scanned) => parse_parts(
                s,
                scanned.1,
                Seq::empty(),
                flushed.push(PartView::Variable(scanned.0)),
            ),
            Err(e) => Err(e),
        }
    } else {
        parse_parts(s, i + 1, buf.push(s[i]), acc)
    }
}

#[via_fn]
proof fn parse_parts_decreases(s: Seq<char>, i: int, buf: Seq<char>, acc: Seq<PartView>) {
    if 0 <= i < s.len() && s[i] == '$' {
        lemma_scan_variable_advances(s, i);
    }
}

/// What parsing the whole text yields: the parts, or the innermost
/// diagnostic wrapped in the parse context message.
pub open spec fn spec_parse(s: Seq<char>) -> Result<Seq<PartView>, Seq<ErrLayer>> {
    match parse_parts(s, 0, Seq::empty(), Seq::empty()) {
        Ok(parts) => Ok(parts),
        Err(e) => Err(wrap_err(e, msg_parse_context())),
    }
}

// ---------------------------------------------------------------------------
// Facts about the scanning helpers.
// ---------------------------------------------------------------------------

/// Bounds and character content of [`name_end`].
pub proof fn lemma_name_end_props(s: Seq<char>, i: int)
    requires
        0 <= i <= s.len(),
    ensures
        i <= name_end(s, i) <= s.len(),
        forall|k: int| i <= k < name_end(s, i) ==> is_name_char(s[k]),
        name_end(s, i) < s.len() ==> !is_name_char(s[name_end(s, i)]),
    decreases s.len() - i,
{
    if i < s.len() && is_name_char(s[i]) {
        lemma_name_end_props(s, i + 1);
    }
}

/// Bounds and character content of [`space_end`].
pub proof fn lemma_space_end_props(s: Seq<char>, i: int)
    requires
        0 <= i <= s.len(),
    ensures
        i <= space_end(s, i) <= s.len(),
        forall|k: int| i <= k < space_end(s, i) ==> is_space(s[k]),
        space_end(s, i) < s.len() ==> !is_space(s[space_end(s, i)]),
    decreases s.len() - i,
{
    if i < s.len() && is_space(s[i]) {
        lemma_space_end_props(s, i + 1);
    }
}

/// [`name_end`] is the only index fitting its characterization.
pub proof fn lemma_name_end_characterize(s: Seq<char>, i: int, j: int)
    requires
        0 <= i <= j <= s.len(),
        forall|k: int| i <= k < j ==> is_name_char(s[k]),
        j < s.len() ==> !is_name_char(s[j]),
    ensures
        name_end(s, i) == j,
    decreases j - i,
{
    if i < j {
        lemma_name_end_characterize(s, i + 1, j);
    }
}

/// [`space_end`] is the only index fitting its characterization.
pub proof fn lemma_space_end_characterize(s: Seq<char>, i: int, j: int)
    requires
        0 <= i <= j <= s.len(),
        forall|k: int| i <= k < j ==> is_space(s[k]),
        j < s.len() ==> !is_space(s[j]),
    ensures
        space_end(s, i) == j,
    decreases j - i,
{
    if i < j {
        lemma_space_end_characterize(s, i + 1, j);
    }
}

// ---------------------------------------------------------------------------
// The executable parser.
// ---------------------------------------------------------------------------

/// One part of a parsed template.
#[derive(Debug)]
pub enum TemplatePart {
    /// A literal text run, emitted verbatim.
    Text(String),
    /// A named placeholder, substituted at resolution time.
    Variable(String),
}

impl View for TemplatePart {
    type V = PartView;

    open spec fn view(&self) -> PartView {
        match self {
            TemplatePart::Text(t) => PartView::Text(t@),
            TemplatePart::Variable(n) => PartView::Variable(n@),
        }
    }
}

/// The abstract form of a sequence of parts.
pub open spec fn parts_view(ps: Seq<TemplatePart>) -> Seq<PartView> {
    ps.map_values(|p: TemplatePart| p@)
}

/// A parsed template: an immutable, ordered sequence of parts.
#[derive(Debug)]
pub struct Template {
    parts: Vec<TemplatePart>,
}

impl View for Template {
    type V = Seq<PartView>;

    closed spec fn view(&self) -> Seq<PartView> {
        parts_view(self.parts@)
    }
}

/// A cursor over the template's characters plus the running byte offset of
/// the consumed prefix, used for diagnostic spans.
struct TemplateParser {
    input: Vec<char>,
    cursor: usize,
    byte_offset: usize,
}

impl TemplateParser {
    /// The cursor stays in bounds, the byte offset mirrors it, and the
    /// whole encoding fits the address space.
    spec fn wf(self) -> bool {
        &&& self.cursor <= self.input@.len()
        &&& self.byte_offset == byte_offset_of(self.input@, self.cursor as int)
        &&& encode_utf8(self.input@).len() <= usize::MAX
    }

    fn new(input: &str) -> (p: Self)
        ensures
            p.wf(),
            p.input@ == input@,
            p.cursor == 0,
    {
        let total_bytes = input.as_bytes().len();
        let v = chars_vec(input);
        proof {
            broadcast use vstd::slice::axiom_spec_len;

            assert(encode_utf8(v@).len() <= usize::MAX);
            assert(v@.take(0) =~= Seq::<char>::empty());
            assert(byte_offset_of(v@, 0) == 0);
        }
        TemplateParser { input: v, cursor: 0, byte_offset: 0 }
    }

    fn has_next(&self) -> (r: bool)
        ensures
            r == (self.cursor < self.input@.len()),
    {
        self.cursor < self.input.len()
    }

    fn is_valid_variable_char(c: char) -> (r: bool)
        ensures
            r == is_name_char(c),
    {
        is_name_char_exec(c)
    }

    /// A diagnostic against the full source, spanning from `start_offset`
    /// to the current byte offset.
    fn parse_error(&self, msg: &str, start_offset: usize) -> (e: MuError)
        requires
            self.wf(),
            start_offset <= self.byte_offset,
        ensures
            e@ == base_err(self.input@, msg@, start_offset as int, self.byte_offset as int),
    {
        let src = string_from_chars(&self.input);
        let e = MuError::new(msg).source_code(src).span(
            Span { offset: start_offset, length: self.byte_offset - start_offset },
        );
        proof {
            assert(e@ =~= base_err(self.input@, msg@, start_offset as int, self.byte_offset as int));
        }
        e
    }

    fn peek(&self) -> (r: Result<char, MuError>)
        requires
            self.wf(),
        ensures
            match r {
                Ok(c) => self.cursor < self.input@.len() && c == self.input@[self.cursor as int],
                Err(e) => self.cursor == self.input@.len() && e@ == base_err(
                    self.input@,
                    msg_eoi_peek(),
                    self.byte_offset as int,
                    self.byte_offset as int,
                ),
            },
    {
        if self.cursor < self.input.len() {
            Ok(self.input[self.cursor])
        } else {
            Err(self.parse_error("Cannot peek: reached end of text", self.byte_offset))
        }
    }

    fn next(&mut self) -> (r: Result<char, MuError>)
        requires
            old(self).wf(),
        ensures
            final(self).wf(),
            final(self).input@ == old(self).input@,
            match r {
                Ok(c) => {
                    &&& old(self).cursor < old(self).input@.len()
                    &&& c == old(self).input@[old(self).cursor as int]
                    &&& final(self).cursor == old(self).cursor + 1
                },
                Err(e) => {
                    &&& old(self).cursor == old(self).input@.len()
                    &&& final(self).cursor == old(self).cursor
                    &&& e@ == base_err(
                        old(self).input@,
                        msg_eoi_read(),
                        old(self).byte_offset as int,
                        old(self).byte_offset as int,
                    )
                },
            },
    {
        if self.cursor < self.input.len() {
            let c = self.input[self.cursor];
            proof {
                lemma_byte_offset_step(self.input@, self.cursor as int);
                lemma_byte_offset_le_total(self.input@, self.cursor as int + 1);
            }
            let cl = char_utf8_len(c);
            self.cursor = self.cursor + 1;
            self.byte_offset = self.byte_offset + cl;
            Ok(c)
        } else {
            Err(self.parse_error("Cannot read: reached end of text", self.byte_offset))
        }
    }

    fn parse_escape(&mut self) -> (r: Result<String, MuError>)
        requires
            old(self).wf(),
        ensures
            final(self).wf(),
            final(self).input@ == old(self).input@,
            match r {
                Ok(piece) => {
                    &&& old(self).cursor < old(self).input@.len()
                    &&& piece@ == escape_expansion(old(self).input@[old(self).cursor as int])
                    &&& final(self).cursor == old(self).cursor + 1
                },
                Err(e) => {
                    &&& old(self).cursor == old(self).input@.len()
                    &&& final(self).cursor == old(self).cursor
                    &&& e@ == wrap_err(
                        base_err(
                            old(self).input@,
                            msg_eoi_read(),
                            old(self).byte_offset as int,
                            old(self).byte_offset as int,
                        ),
                        msg_escape_context(),
                    )
                },
            },
    {
        match self.next() {
            Ok(c) => {
                let mut piece = String::new();
                if c == '\\' {
                    string_push_char(&mut piece, '\\');
                } else if c == '$' {
                    string_push_char(&mut piece, '$');
                } else {
                    string_push_char(&mut piece, '\\');
                    string_push_char(&mut piece, c);
                }
                proof {
                    assert(piece@ =~= escape_expansion(c));
                }
                Ok(piece)
            },
            Err(e) => {
                let wrapped = e.and_then("Could not read escape");
                proof {
                    assert(wrapped@ =~= wrap_err(
                        base_err(
                            old(self).input@,
                            msg_eoi_read(),
                            old(self).byte_offset as int,
                            old(self).byte_offset as int,
                        ),
                        msg_escape_context(),
                    ));
                }
                Err(wrapped)
            },
        }
    }

    /// Scans further variable-name characters, appending them to `out`.
    #[verifier::loop_isolation(false)]
    fn parse_variable_name(&mut self, out: &mut String)
        requires
            old(self).wf(),
        ensures
            final(self).wf(),
            final(self).input@ == old(self).input@,
            final(self).cursor == name_end(old(self).input@, old(self).cursor as int),
            final(out)@ == old(out)@ + old(self).input@.subrange(
                old(self).cursor as int,
                name_end(old(self).input@, old(self).cursor as int),
            ),
    {
        let ghost s = self.input@;
        let ghost c0 = self.cursor as int;
        let ghost out0 = out@;
        proof {
            lemma_name_end_props(s, c0);
            assert(out@ =~= out0 + s.subrange(c0, self.cursor as int));
        }
        let mut done = false;
        while !done
            invariant
                self.wf(),
                self.input@ == s,
                c0 <= self.cursor as int <= name_end(s, c0),
                out@ == out0 + s.subrange(c0, self.cursor as int),
                done ==> self.cursor as int == name_end(s, c0),
            decreases (if done { 0int } else { name_end(s, c0) - self.cursor + 1 }),
        {
            if !self.has_next() {
                done = true;
            } else {
                let c = self.input[self.cursor];
                if !Self::is_valid_variable_char(c) {
                    proof {
                        assert(self.cursor as int == name_end(s, c0));
                    }
                    done = true;
                } else {
                    let ghost prev = self.cursor as int;
                    string_push_char(out, c);
                    let _ = self.next();
                    proof {
                        assert(s.subrange(c0, prev + 1) =~= s.subrange(c0, prev) + seq![s[prev]]);
                        assert(out@ =~= out0 + s.subrange(c0, self.cursor as int));
                    }
                }
            }
        }
    }

    /// Parses a variable form; the `$` introducing it has just been
    /// consumed.
    fn parse_variable(&mut self) -> (r: Result<TemplatePart, MuError>)
        requires
            old(self).wf(),
            old(self).cursor >= 1,
            old(self).input@[old(self).cursor - 1] == '$',
        ensures
            final(self).wf(),
            final(self).input@ == old(self).input@,
            match r {
                Ok(part) => part@ matches PartView::Variable(name) && scan_variable(
                    old(self).input@,
                    old(self).cursor - 1,
                ) == Ok::<(Seq<char>, int), Seq<ErrLayer>>((name, final(self).cursor as int)),
                Err(e) => scan_variable(old(self).input@, old(self).cursor - 1) == Err::<
                    (Seq<char>, int),
                    Seq<ErrLayer>,
                >(e@),
            },
    {
        let ghost s = self.input@;
        let ghost dollar = self.cursor as int - 1;
        proof {
            lemma_byte_offset_step(s, dollar);
            assert(encode_scalar('$' as u32).len() == 1);
        }
        let start = self.byte_offset - 1;
        let char_start = self.byte_offset;
        match self.next() {
            Err(e) => {
                let anchored = e.span(Span { offset: start, length: self.byte_offset - start });
                proof {
                    assert(anchored@ =~= base_err(
                        s,
                        msg_eoi_read(),
                        byte_offset_of(s, dollar),
                        byte_offset_of(s, dollar + 1),
                    ));
                }
                Err(anchored)
            },
            Ok(c) => {
                if c == '{' {
                    self.parse_variable_in_brackets(char_start)
                } else if Self::is_valid_variable_char(c) {
                    let mut var_name = String::new();
                    string_push_char(&mut var_name, c);
                    self.parse_variable_name(&mut var_name);
                    proof {
                        lemma_name_end_props(s, dollar + 1);
                        assert(name_end(s, dollar + 1) == name_end(s, dollar + 2));
                        assert(s.subrange(dollar + 1, name_end(s, dollar + 1)) =~= seq![
                            s[dollar + 1],
                        ] + s.subrange(dollar + 2, name_end(s, dollar + 2)));
                        assert(var_name@ =~= s.subrange(dollar + 1, name_end(s, dollar + 1)));
                    }
                    Ok(TemplatePart::Variable(var_name))
                } else {
                    let mut msg = "Expected variable name or curly brackets after $, found "
                        .to_owned();
                    string_push_char(&mut msg, c);
                    proof {
                        lemma_byte_offset_step(s, dollar + 1);
                    }
                    let e = self.parse_error(msg.as_str(), char_start);
                    proof {
                        assert(e@ =~= base_err(
                            s,
                            msg_expected_variable(c),
                            byte_offset_of(s, dollar + 1),
                            byte_offset_of(s, dollar + 2),
                        ));
                    }
                    Err(e)
                }
            },
        }
    }

    /// Parses the interior of a braced variable; the `{` has just been
    /// consumed and its byte offset is `start`.
    #[verifier::loop_isolation(false)]
    fn parse_variable_in_brackets(&mut self, start: usize) -> (r: Result<TemplatePart, MuError>)
        requires
            old(self).wf(),
            old(self).cursor >= 1,
            old(self).input@[old(self).cursor - 1] == '{',
            start == byte_offset_of(old(self).input@, old(self).cursor - 1),
        ensures
            final(self).wf(),
            final(self).input@ == old(self).input@,
            match r {
                Ok(part) => part@ matches PartView::Variable(name) && scan_braced(
                    old(self).input@,
                    old(self).cursor - 1,
                ) == Ok::<(Seq<char>, int), Seq<ErrLayer>>((name, final(self).cursor as int)),
                Err(e) => scan_braced(old(self).input@, old(self).cursor - 1) == Err::<
                    (Seq<char>, int),
                    Seq<ErrLayer>,
                >(e@),
            },
    {
        let ghost s = self.input@;
        let ghost open_idx = self.cursor as int - 1;
        let ghost base = self.cursor as int;
        proof {
            lemma_space_end_props(s, base);
        }
        // consume all leading whitespace
        let mut done = false;
        while !done
            invariant
                self.wf(),
                self.input@ == s,
                base <= self.cursor as int <= space_end(s, base),
                done ==> self.cursor as int == space_end(s, base) && (self.cursor as int)
                    < s.len(),
            decreases (if done { 0int } else { space_end(s, base) - self.cursor + 1 }),
        {
            match self.peek() {
                Err(e) => {
                    proof {
                        assert(self.cursor as int == space_end(s, base));
                        assert(scan_braced(s, open_idx) == Err::<(Seq<char>, int), Seq<ErrLayer>>(
                            e@,
                        ));
                    }
                    return Err(e);
                },
                Ok(c) => {
                    if char_is_space(c) {
                        let _ = self.next();
                    } else {
                        proof {
                            assert(self.cursor as int == space_end(s, base));
                        }
                        done = true;
                    }
                },
            }
        }
        let ghost w = self.cursor as int;

        let var_name_start = self.byte_offset;
        let mut var_name = String::new();
        self.parse_variable_name(&mut var_name);
        let ghost j = self.cursor as int;
        proof {
            lemma_name_end_props(s, w);
            assert(var_name@ =~= s.subrange(w, j));
        }

        if var_name.as_str().is_empty() {
            proof {
                lemma_name_end_props(s, w);
                lemma_byte_offset_mono(s, w, j);
                assert(j == w);
            }
            let e = self.parse_error("No variable name found inside brackets", var_name_start);
            proof {
                assert(scan_braced(s, open_idx) == Err::<(Seq<char>, int), Seq<ErrLayer>>(e@));
            }
            return Err(e);
        }

        // consume all trailing whitespace
        proof {
            lemma_space_end_props(s, j);
        }
        let mut done_tail = false;
        while !done_tail
            invariant
                self.wf(),
                self.input@ == s,
                j <= self.cursor as int <= space_end(s, j),
                done_tail ==> self.cursor as int == space_end(s, j),
            decreases (if done_tail { 0int } else { space_end(s, j) - self.cursor + 1 }),
        {
            if !self.has_next() {
                done_tail = true;
            } else {
                let c = self.input[self.cursor];
                if char_is_space(c) {
                    let _ = self.next();
                } else {
                    proof {
                        assert(self.cursor as int == space_end(s, j));
                    }
                    done_tail = true;
                }
            }
        }
        let ghost t = self.cursor as int;
        proof {
            lemma_byte_offset_mono(s, open_idx, t);
        }

        match self.next() {
            Ok(c) => {
                proof {
                    lemma_byte_offset_step(s, t);
                }
                if c == '}' {
                    Ok(TemplatePart::Variable(var_name))
                } else {
                    Err(self.parse_error("Unclosed brackets", start))
                }
            },
            Err(e) => {
                let wrapped = e.and_then("Unclosed brackets").span(
                    Span { offset: start, length: self.byte_offset - start },
                );
                proof {
                    assert(wrapped@ =~= wrap_err_spanned(
                        base_err(s, msg_eoi_read(), byte_offset_of(s, t), byte_offset_of(s, t)),
                        msg_unclosed(),
                        byte_offset_of(s, open_idx),
                        byte_offset_of(s, t),
                    ));
                }
                Err(wrapped)
            },
        }
    }

    /// Runs the main parse loop over the whole input.
    #[verifier::loop_isolation(false)]
    fn parse(&mut self) -> (r: Result<Vec<TemplatePart>, MuError>)
        requires
            old(self).wf(),
            old(self).cursor == 0,
        ensures
            match r {
                Ok(parts) => parse_parts(
                    old(self).input@,
                    0,
                    Seq::empty(),
                    Seq::empty(),
                ) == Ok::<Seq<PartView>, Seq<ErrLayer>>(parts_view(parts@)),
                Err(e) => parse_parts(old(self).input@, 0, Seq::empty(), Seq::empty()) == Err::<
                    Seq<PartView>,
                    Seq<ErrLayer>,
                >(e@),
            },
    {
        let ghost s = self.input@;
        let mut result: Vec<TemplatePart> = Vec::new();
        let mut buffer = String::new();
        proof {
            assert(parts_view(result@) =~= Seq::<PartView>::empty());
            assert(buffer@ =~= Seq::<char>::empty());
        }

        while self.has_next()
            invariant
                self.wf(),
                self.input@ == s,
                parse_parts(s, self.cursor as int, buffer@, parts_view(result@)) == parse_parts(
                    s,
                    0,
                    Seq::empty(),
                    Seq::empty(),
                ),
            decreases s.len() - self.cursor,
        {
            let ghost i = self.cursor as int;
            let ghost buf0 = buffer@;
            let ghost acc0 = parts_view(result@);
            let c = match self.next() {
                Ok(c) => c,
                Err(e) => {
                    proof {
                        assert(false);
                    }
                    return Err(e);
                },
            };
            if c == '\\' {
                match self.parse_escape() {
                    Ok(piece) => {
                        buffer.append(piece.as_str());
                        proof {
                            reveal_with_fuel(parse_parts, 2);
                            assert(parse_parts(s, i, buf0, acc0) == parse_parts(
                                s,
                                i + 2,
                                buf0 + escape_expansion(s[i + 1]),
                                acc0,
                            ));
                            assert(parse_parts(s, i, buf0, acc0) == parse_parts(
                                s,
                                self.cursor as int,
                                buffer@,
                                parts_view(result@),
                            ));
                        }
                    },
                    Err(e) => {
                        proof {
                            assert(parse_parts(s, i, buf0, acc0) == Err::<
                                Seq<PartView>,
                                Seq<ErrLayer>,
                            >(e@));
                        }
                        return Err(e);
                    },
                }
            } else if c == '$' {
                if !buffer.as_str().is_empty() {
                    let flushed = buffer;
                    buffer = String::new();
                    result.push(TemplatePart::Text(flushed));
                    proof {
                        assert(parts_view(result@) =~= acc0.push(PartView::Text(buf0)));
                        assert(buffer@ =~= Seq::<char>::empty());
                    }
                }
                match self.parse_variable() {
                    Ok(part) => {
                        let ghost acc1 = parts_view(result@);
                        result.push(part);
                        proof {
                            reveal_with_fuel(parse_parts, 2);
                            lemma_scan_variable_advances(s, i);
                            assert(buffer@ =~= Seq::<char>::empty());
                            assert(parts_view(result@) =~= acc1.push(part@));
                            let flushed_spec = if buf0.len() == 0 {
                                acc0
                            } else {
                                acc0.push(PartView::Text(buf0))
                            };
                            assert(acc1 == flushed_spec);
                            let scanned = scan_variable(s, i)->Ok_0;
                            assert(scanned.1 == self.cursor as int);
                            assert(parse_parts(s, i, buf0, acc0) == parse_parts(
                                s,
                                scanned.1,
                                Seq::empty(),
                                flushed_spec.push(PartView::Variable(scanned.0)),
                            ));
                            assert(parse_parts(s, i, buf0, acc0) == parse_parts(
                                s,
                                self.cursor as int,
                                buffer@,
                                parts_view(result@),
                            ));
                        }
                    },
                    Err(e) => {
                        proof {
                            assert(parse_parts(s, i, buf0, acc0) == Err::<
                                Seq<PartView>,
                                Seq<ErrLayer>,
                            >(e@));
                        }
                        return Err(e);
                    },
                }
            } else {
                string_push_char(&mut buffer, c);
                proof {
                    assert(buffer@ =~= buf0.push(s[i]));
                    assert(parse_parts(s, i, buf0, acc0) == parse_parts(
                        s,
                        self.cursor as int,
                        buffer@,
                        parts_view(result@),
                    ));
                }
            }
        }

        if !buffer.as_str().is_empty() {
            let ghost accf = parts_view(result@);
            let flushed = buffer;
            result.push(TemplatePart::Text(flushed));
            proof {
                assert(parts_view(result@) =~= accf.push(PartView::Text(flushed@)));
            }
        }
        Ok(result)
    }
}

impl Template {
    /// Parses a template from its source text.  The result is exactly what
    /// [`spec_parse`] describes: the sequence of parts on success, the full
    /// diagnostic chain on failure.
    pub fn parse(template: &str) -> (r: Result<Template, MuError>)
        ensures
            match r {
                Ok(t) => spec_parse(template@) == Ok::<Seq<PartView>, Seq<ErrLayer>>(t@),
                Err(e) => spec_parse(template@) == Err::<Seq<PartView>, Seq<ErrLayer>>(e@),
            },
    {
        let mut parser = TemplateParser::new(template);
        match parser.parse() {
            Ok(parts) => Ok(Template { parts }),
            Err(e) => {
                let wrapped = e.and_then("Could not parse template");
                proof {
                    assert(wrapped@ =~= wrap_err(e@, msg_parse_context()));
                }
                Err(wrapped)
            },
        }
    }
}

// ---------------------------------------------------------------------------
// The resolver.
// ---------------------------------------------------------------------------

/// What resolving a sequence of parts against the lookup `lk` yields:
/// literal text is emitted verbatim and each variable is replaced by its
/// value, in order.  Resolution fails on the first variable the lookup
/// cannot answer, naming that variable; no partial output is returned.
pub open spec fn spec_resolve(
    parts: Seq<PartView>,
    lk: spec_fn(Seq<char>) -> Option<Seq<char>>,
) -> Result<Seq<char>, Seq<char>>
    decreases parts.len(),
{
    if parts.len() == 0 {
        Ok(Seq::empty())
    } else {
        let rest = spec_resolve(parts.drop_first(), lk);
        match parts[0] {
            PartView::Text(t) => match rest {
                Ok(tail) => Ok(t + tail),
                Err(e) => Err(e),
            },
            PartView::Variable(name) => match lk(name) {
                None => Err(name),
                Some(v) => match rest {
                    Ok(tail) => Ok(v + tail),
                    Err(e) => Err(e),
                },
            },
        }
    }
}

/// A supplier of variable values for template resolution.
pub trait Lookup {
    /// The value this lookup gives each variable name, if any.
    spec fn spec_lookup(&self, name: Seq<char>) -> Option<Seq<char>>;

    /// Looks up a variable by name.
    fn lookup(&self, name: &str) -> (r: Option<String>)
        ensures
            match r {
                Some(v) => self.spec_lookup(name@) == Some(v@),
                None => self.spec_lookup(name@) is None,
            },
    ;
}

/// The value of `name` in an association list: the value beside its first
/// occurrence, if any.
pub open spec fn table_lookup(
    entries: Seq<(String, String)>,
    name: Seq<char>,
) -> Option<Seq<char>>
    decreases entries.len(),
{
    if entries.len() == 0 {
        None
    } else if entries[0].0@ == name {
        Some(entries[0].1@)
    } else {
        table_lookup(entries.drop_first(), name)
    }
}

/// A variable lookup backed by an association list of name/value pairs;
/// the first entry with a matching name wins.
pub struct VarTable {
    pub entries: Vec<(String, String)>,
}

impl VarTable {
    /// An empty table.
    pub fn new() -> (t: Self)
        ensures
            t.entries@ == Seq::<(String, String)>::empty(),
    {
        let t = VarTable { entries: Vec::new() };
        proof {
            assert(t.entries@ =~= Seq::<(String, String)>::empty());
        }
        t
    }

    /// Appends a name/value pair.
    pub fn add(&mut self, name: &str, value: &str)
        ensures
            final(self).entries@.len() == old(self).entries@.len() + 1,
            final(self).entries@[old(self).entries@.len() as int].0@ == name@,
            final(self).entries@[old(self).entries@.len() as int].1@ == value@,
            final(self).entries@.take(old(self).entries@.len() as int) == old(self).entries@,
    {
        self.entries.push((name.to_owned(), value.to_owned()));
        proof {
            assert(self.entries@.take(old(self).entries@.len() as int) =~= old(self).entries@);
        }
    }
}

impl Lookup for VarTable {
    open spec fn spec_lookup(&self, name: Seq<char>) -> Option<Seq<char>> {
        table_lookup(self.entries@, name)
    }

    #[verifier::loop_isolation(false)]
    fn lookup(&self, name: &str) -> (r: Option<String>) {
        let name_owned: String = name.to_owned();
        let ghost all = self.entries@;
        let mut i: usize = 0;
        proof {
            assert(all.skip(0) =~= all);
        }
        while i < self.entries.len()
            invariant
                i <= all.len(),
                table_lookup(all, name@) == table_lookup(all.skip(i as int), name@),
            decreases all.len() - i,
        {
            proof {
                assert(all.skip(i as int)[0] == all[i as int]);
            }
            if self.entries[i].0 == name_owned {
                return Some(self.entries[i].1.clone());
            }
            i = i + 1;
            proof {
                assert(all.skip(i as int - 1).drop_first() =~= all.skip(i as int));
            }
        }
        proof {
            assert(all.skip(all.len() as int).len() == 0);
        }
        None
    }
}

impl Template {
    /// Resolves this template against a variable lookup.  The output is
    /// exactly what [`spec_resolve`] describes; when a variable has no
    /// value the error names it and nothing is returned.
    #[verifier::loop_isolation(false)]
    pub fn resolve<L: Lookup>(&self, lookup: &L) -> (r: Result<String, MuError>)
        ensures
            ({
                let lk = |n: Seq<char>| lookup.spec_lookup(n);
                match r {
                    Ok(out) => spec_resolve(self@, lk) == Ok::<Seq<char>, Seq<char>>(out@),
                    Err(e) => {
                        &&& spec_resolve(self@, lk) is Err
                        &&& e@ == seq![
                            ErrLayer {
                                msg: msg_unresolved(spec_resolve(self@, lk)->Err_0),
                                source: None,
                                span: None,
                                help: None,
                            },
                        ]
                    },
                }
            }),
    {
        let ghost parts = self@;
        let ghost lk = |n: Seq<char>| lookup.spec_lookup(n);
        let mut result = String::new();
        let mut idx: usize = 0;
        proof {
            assert(parts.len() == self.parts@.len());
            assert(parts.skip(0) =~= parts);
        }
        while idx < self.parts.len()
            invariant
                idx <= parts.len(),
                match spec_resolve(parts.skip(idx as int), lk) {
                    Ok(tail) => spec_resolve(parts, lk) == Ok::<Seq<char>, Seq<char>>(
                        result@ + tail,
                    ),
                    Err(x) => spec_resolve(parts, lk) == Err::<Seq<char>, Seq<char>>(x),
                },
            decreases parts.len() - idx,
        {
            let ghost i = idx as int;
            proof {
                assert(parts.skip(i)[0] == parts[i]);
                assert(parts[i] == self.parts@[i]@);
                assert(parts.skip(i).drop_first() =~= parts.skip(i + 1));
            }
            let ghost result0 = result@;
            let part = &self.parts[idx];
            match part {
                TemplatePart::Text(t) => {
                    result.append(t.as_str());
                    proof {
                        if spec_resolve(parts.skip(i + 1), lk) is Ok {
                            assert(result0 + (t@ + spec_resolve(parts.skip(i + 1), lk)->Ok_0)
                                =~= result@ + spec_resolve(parts.skip(i + 1), lk)->Ok_0);
                        }
                    }
                },
                TemplatePart::Variable(name) => {
                    match lookup.lookup(name.as_str()) {
                        Some(v) => {
                            result.append(v.as_str());
                            proof {
                                assert(lk(name@) == lookup.spec_lookup(name@));
                                if spec_resolve(parts.skip(i + 1), lk) is Ok {
                                    assert(result0 + (v@ + spec_resolve(
                                        parts.skip(i + 1),
                                        lk,
                                    )->Ok_0) =~= result@ + spec_resolve(
                                        parts.skip(i + 1),
                                        lk,
                                    )->Ok_0);
                                }
                            }
                        },
                        None => {
                            let mut msg = "Could not resolve variable '".to_owned();
                            msg.append(name.as_str());
                            msg.append("' in template");
                            let e = MuError::new(msg.as_str());
                            proof {
                                assert(lk(name@) == lookup.spec_lookup(name@));
                                assert(spec_resolve(parts.skip(i), lk) == Err::<
                                    Seq<char>,
                                    Seq<char>,
                                >(name@));
                                assert(msg@ == msg_unresolved(name@));
                            }
                            return Err(e);
                        },
                    }
                },
            }
            idx = idx + 1;
        }
        proof {
            assert(parts.skip(parts.len() as int).len() == 0);
            assert(result@ + Seq::<char>::empty() =~= result@);
        }
        Ok(result)
    }
}

// ---------------------------------------------------------------------------
// Laws.
// ---------------------------------------------------------------------------

proof fn lemma_parse_plain(s: Seq<char>, i: int, buf: Seq<char>, acc: Seq<PartView>)
    requires
        0 <= i <= s.len(),
        forall|k: int| 0 <= k < s.len() ==> s[k] != '\\' && s[k] != '$',
    ensures
        parse_parts(s, i, buf, acc) == Ok::<Seq<PartView>, Seq<ErrLayer>>(
            if buf.len() + (s.len() - i) == 0 {
                acc
            } else {
                acc.push(PartView::Text(buf + s.skip(i)))
            },
        ),
    decreases s.len() - i,
{
    if i >= s.len() {
        assert(s.skip(i) =~= Seq::<char>::empty());
        assert(buf + s.skip(i) =~= buf);
    } else {
        lemma_parse_plain(s, i + 1, buf.push(s[i]), acc);
        assert(buf.push(s[i]) + s.skip(i + 1) =~= buf + s.skip(i));
    }
}

/// Law: a source text without `\` and `$` parses to plain literal text, and
/// resolving the parsed template against any lookup gives back exactly the
/// source text.
pub proof fn lemma_plain_text_round_trip(
    s: Seq<char>,
    lk: spec_fn(Seq<char>) -> Option<Seq<char>>,
)
    requires
        forall|k: int| 0 <= k < s.len() ==> s[k] != '\\' && s[k] != '$',
    ensures
        spec_parse(s) is Ok,
        spec_resolve(spec_parse(s)->Ok_0, lk) == Ok::<Seq<char>, Seq<char>>(s),
{
    lemma_parse_plain(s, 0, Seq::empty(), Seq::empty());
    if s.len() == 0 {
        let parts = spec_parse(s)->Ok_0;
        assert(parts =~= Seq::<PartView>::empty());
        assert(spec_resolve(parts, lk) == Ok::<Seq<char>, Seq<char>>(Seq::empty()));
        assert(s =~= Seq::<char>::empty());
    } else {
        assert(Seq::<char>::empty() + s.skip(0) =~= s);
        let parts = Seq::<PartView>::empty().push(PartView::Text(s));
        assert(spec_parse(s) == Ok::<Seq<PartView>, Seq<ErrLayer>>(parts));
        assert(parts.len() == 1 && parts[0] == PartView::Text(s));
        assert(parts.drop_first() =~= Seq::<PartView>::empty());
        assert(spec_resolve(parts.drop_first(), lk) == Ok::<Seq<char>, Seq<char>>(Seq::empty()));
        assert(s + Seq::<char>::empty() =~= s);
        assert(spec_resolve(parts, lk) == Ok::<Seq<char>, Seq<char>>(s));
    }
}

/// Law: a braced variable, with any amount of whitespace around the name,
/// parses to exactly what the bare form of the same name parses to: one
/// variable part holding that name.  Under one lookup the two templates
/// therefore resolve identically.
pub proof fn lemma_braced_matches_bare(name: Seq<char>, pre: Seq<char>, post: Seq<char>)
    requires
        name.len() > 0,
        forall|k: int| 0 <= k < name.len() ==> is_name_char(name[k]),
        forall|k: int| 0 <= k < pre.len() ==> is_space(pre[k]),
        forall|k: int| 0 <= k < post.len() ==> is_space(post[k]),
    ensures
        spec_parse(seq!['$'] + name) == Ok::<Seq<PartView>, Seq<ErrLayer>>(
            seq![PartView::Variable(name)],
        ),
        spec_parse(seq!['$', '{'] + pre + name + post + seq!['}']) == spec_parse(seq!['$'] + name),
{
    // the bare form
    let s1 = seq!['$'] + name;
    assert(s1.len() == 1 + name.len());
    assert(s1[0] == '$');
    assert(forall|k: int| 1 <= k < s1.len() ==> s1[k] == name[k - 1]);
    lemma_name_end_characterize(s1, 1, s1.len() as int);
    assert(s1.subrange(1, s1.len() as int) =~= name);
    assert(scan_variable(s1, 0) == Ok::<(Seq<char>, int), Seq<ErrLayer>>((
        name,
        s1.len() as int,
    )));
    assert(parse_parts(s1, s1.len() as int, Seq::empty(), seq![PartView::Variable(name)])
        == Ok::<Seq<PartView>, Seq<ErrLayer>>(seq![PartView::Variable(name)]));
    assert(Seq::<PartView>::empty().push(PartView::Variable(name)) =~= seq![
        PartView::Variable(name),
    ]);
    assert(parse_parts(s1, 0, Seq::empty(), Seq::empty()) == Ok::<Seq<PartView>, Seq<ErrLayer>>(
        seq![PartView::Variable(name)],
    ));

    // the braced form
    let s2 = seq!['$', '{'] + pre + name + post + seq!['}'];
    let n0 = 2 + pre.len() as int;
    let t0 = n0 + name.len() as int;
    let close = t0 + post.len() as int;
    assert(s2.len() == close + 1);
    assert(s2[0] == '$');
    assert(s2[1] == '{');
    assert(forall|k: int| 2 <= k < n0 ==> s2[k] == pre[k - 2]);
    assert(forall|k: int| n0 <= k < t0 ==> s2[k] == name[k - n0]);
    assert(forall|k: int| t0 <= k < close ==> s2[k] == post[k - t0]);
    assert(s2[close] == '}');
    lemma_space_end_characterize(s2, 2, n0);
    lemma_name_end_characterize(s2, n0, t0);
    lemma_space_end_characterize(s2, t0, close);
    assert(s2.subrange(n0, t0) =~= name);
    assert(scan_braced(s2, 1) == Ok::<(Seq<char>, int), Seq<ErrLayer>>((name, close + 1)));
    assert(scan_variable(s2, 0) == Ok::<(Seq<char>, int), Seq<ErrLayer>>((name, close + 1)));
    assert(parse_parts(s2, close + 1, Seq::empty(), seq![PartView::Variable(name)])
        == Ok::<Seq<PartView>, Seq<ErrLayer>>(seq![PartView::Variable(name)]));
    assert(parse_parts(s2, 0, Seq::empty(), Seq::empty()) == Ok::<Seq<PartView>, Seq<ErrLayer>>(
        seq![PartView::Variable(name)],
    ));
}

/// A successful variable scan always moves the index strictly forward and
/// never past the end of the text.
pub proof fn lemma_scan_variable_advances(s: Seq<char>, dollar: int)
    requires
        0 <= dollar < s.len(),
    ensures
        scan_variable(s, dollar) matches Ok(scanned) ==> dollar < scanned.1 <= s.len(),
{
    let i = dollar + 1;
    if i < s.len() {
        if s[i] == '{' {
            lemma_space_end_props(s, i + 1);
            let w = space_end(s, i + 1);
            if w < s.len() {
                lemma_name_end_props(s, w);
                let j = name_end(s, w);
                if j != w {
                    lemma_space_end_props(s, j);
                }
            }
        } else if is_name_char(s[i]) {
            lemma_name_end_props(s, i);
        }
    }
}

} // verus!
