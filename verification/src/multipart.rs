//! A deterministic `multipart/form-data` encoder.
//!
//! A [`Form`] accumulates named text and file fields in insertion order and
//! serializes them into a single byte buffer; the serialized output and the
//! matching `Content-Type` value are pinned down byte for byte by
//! [`serialize_spec`] and [`content_type_chars`].  Field names, file names
//! and the boundary are escaped with the RFC 822 quoted-string rule
//! ([`quote_chars`]).

use vstd::prelude::*;

verus! {

use vstd::utf8::encode_utf8;

use crate::chars::chars_vec;
use crate::chars::lemma_encode_utf8_append;
use crate::chars::push_str_utf8;
use crate::chars::push_utf8_char;
use crate::chars::string_push_char;

// ---------------------------------------------------------------------------
// Quoted-string escaping.
// ---------------------------------------------------------------------------

/// Characters that must be preceded by a backslash inside a quoted string:
/// backslash, carriage return and the double quote (RFC 822, 3.3).
pub open spec fn needs_quote(c: char) -> bool {
    c == '\\' || c == '\r' || c == '"'
}

/// The RFC 822 quoted-string escaping of `s`: every character that needs
/// quoting is preceded by an inserted backslash; all others pass through.
pub open spec fn quote_chars(s: Seq<char>) -> Seq<char>
    decreases s.len(),
{
    if s.len() == 0 {
        Seq::empty()
    } else {
        let head = if needs_quote(s[0]) {
            seq!['\\', s[0]]
        } else {
            seq![s[0]]
        };
        head + quote_chars(s.drop_first())
    }
}

/// Quoting distributes over concatenation.
pub proof fn lemma_quote_chars_append(a: Seq<char>, b: Seq<char>)
    ensures
        quote_chars(a + b) == quote_chars(a) + quote_chars(b),
    decreases a.len(),
{
    if a.len() == 0 {
        assert(a + b =~= b);
        assert(quote_chars(a) + quote_chars(b) =~= quote_chars(b));
    } else {
        assert((a + b).drop_first() =~= a.drop_first() + b);
        lemma_quote_chars_append(a.drop_first(), b);
        assert(quote_chars(a + b) =~= quote_chars(a) + quote_chars(b));
    }
}

/// Law: quoting a text without backslash, carriage return or double quote
/// is the identity.
pub proof fn lemma_quote_plain(s: Seq<char>)
    requires
        forall|k: int| 0 <= k < s.len() ==> !needs_quote(s[k]),
    ensures
        quote_chars(s) == s,
    decreases s.len(),
{
    if s.len() == 0 {
        assert(quote_chars(s) =~= s);
    } else {
        lemma_quote_plain(s.drop_first());
        assert(quote_chars(s) =~= s);
    }
}

/// Law: a single character that needs quoting comes out preceded by exactly
/// one inserted backslash.  With [`lemma_quote_chars_append`] this pins the
/// treatment of every such character anywhere in a text.
pub proof fn lemma_quote_special(c: char)
    requires
        needs_quote(c),
    ensures
        quote_chars(seq![c]) == seq!['\\', c],
{
    assert(seq![c].drop_first() =~= Seq::<char>::empty());
    assert(quote_chars(Seq::<char>::empty()) =~= Seq::<char>::empty());
    assert(quote_chars(seq![c]) =~= seq!['\\', c]);
}

/// Quotes the contents of a string according to RFC 822, 3.3:
/// quoted-string.
#[verifier::loop_isolation(false)]
pub fn quote(s: &str) -> (r: String)
    ensures
        r@ == quote_chars(s@),
{
    let v = chars_vec(s);
    let mut r = String::new();
    let mut i: usize = 0;
    proof {
        assert(r@ =~= quote_chars(s@.take(0)));
    }
    while i < v.len()
        invariant
            i <= v@.len(),
            r@ == quote_chars(s@.take(i as int)),
        decreases v@.len() - i,
    {
        let c = v[i];
        if c == '\\' || c == '\r' || c == '"' {
            string_push_char(&mut r, '\\');
        }
        string_push_char(&mut r, c);
        i = i + 1;
        proof {
            assert(s@.take(i as int) =~= s@.take(i as int - 1) + seq![s@[i as int - 1]]);
            lemma_quote_chars_append(s@.take(i as int - 1), seq![s@[i as int - 1]]);
            assert(seq![s@[i as int - 1]].drop_first() =~= Seq::<char>::empty());
            assert(quote_chars(Seq::<char>::empty()) =~= Seq::<char>::empty());
            assert(r@ =~= quote_chars(s@.take(i as int)));
        }
    }
    proof {
        assert(s@.take(s@.len() as int) =~= s@);
    }
    r
}

// ---------------------------------------------------------------------------
// The form and its serialized shape.
// ---------------------------------------------------------------------------

/// The abstract form of one field: its name, its optional file name, and
/// its payload bytes.
pub struct FieldView {
    pub name: Seq<char>,
    pub file_name: Option<Seq<char>>,
    pub data: Seq<u8>,
}

/// The boundary token every form is created with.
pub open spec fn default_boundary() -> Seq<char> {
    "-sdsaddsfgdghhskjtretyetertertedh?-"@
}

/// The header text put before one field's payload.
pub open spec fn field_header_chars(f: FieldView, boundary: Seq<char>) -> Seq<char> {
    "--"@ + boundary + "\r\nContent-Disposition: form-data; name=\""@ + quote_chars(f.name) + "\""@
        + (match f.file_name {
        Some(fname) => "; filename=\""@ + quote_chars(fname) + "\""@,
        None => Seq::empty(),
    }) + "\r\n\r\n"@
}

/// The serialized bytes of one field: its header, its raw payload, and a
/// closing line break.
pub open spec fn field_bytes(f: FieldView, boundary: Seq<char>) -> Seq<u8> {
    encode_utf8(field_header_chars(f, boundary)) + f.data + encode_utf8("\r\n"@)
}

/// The serialized bytes of a sequence of fields, in order.
pub open spec fn fields_bytes(fields: Seq<FieldView>, boundary: Seq<char>) -> Seq<u8>
    decreases fields.len(),
{
    if fields.len() == 0 {
        Seq::empty()
    } else {
        field_bytes(fields[0], boundary) + fields_bytes(fields.drop_first(), boundary)
    }
}

/// The full serialized body: every field in order, then the final boundary
/// with no trailing line break.
pub open spec fn serialize_spec(fields: Seq<FieldView>, boundary: Seq<char>) -> Seq<u8> {
    fields_bytes(fields, boundary) + encode_utf8("--"@ + boundary + "--"@)
}

/// The `Content-Type` value declaring the boundary.
pub open spec fn content_type_chars(boundary: Seq<char>) -> Seq<char> {
    "multipart/form-data; boundary=\""@ + quote_chars(boundary) + "\""@
}

/// Serialization distributes over concatenation of field sequences.
pub proof fn lemma_fields_bytes_append(a: Seq<FieldView>, b: Seq<FieldView>, boundary: Seq<char>)
    ensures
        fields_bytes(a + b, boundary) == fields_bytes(a, boundary) + fields_bytes(b, boundary),
    decreases a.len(),
{
    if a.len() == 0 {
        assert(a + b =~= b);
        assert(fields_bytes(a, boundary) + fields_bytes(b, boundary) =~= fields_bytes(
            b,
            boundary,
        ));
    } else {
        assert((a + b).drop_first() =~= a.drop_first() + b);
        lemma_fields_bytes_append(a.drop_first(), b, boundary);
        assert(fields_bytes(a + b, boundary) =~= fields_bytes(a, boundary) + fields_bytes(
            b,
            boundary,
        ));
    }
}

/// The name of one field of a `multipart/form-data` body, with the file
/// name that distinguishes a file field from a text field.
struct FieldKey {
    name: String,
    file_name: Option<String>,
}

/// Represents the data of a `multipart/form-data` body.
pub struct Form {
    fields: Vec<(FieldKey, Vec<u8>)>,
    boundary: String,
}

impl View for Form {
    type V = Seq<FieldView>;

    closed spec fn view(&self) -> Seq<FieldView> {
        self.fields@.map_values(
            |f: (FieldKey, Vec<u8>)|
                FieldView {
                    name: f.0.name@,
                    file_name: match f.0.file_name {
                        Some(n) => Some(n@),
                        None => None,
                    },
                    data: f.1@,
                },
        )
    }
}

impl Form {
    /// The boundary token of this form.
    pub closed spec fn spec_boundary(&self) -> Seq<char> {
        self.boundary@
    }

    /// Creates a new form.
    pub fn new() -> (r: Self)
        ensures
            r@ == Seq::<FieldView>::empty(),
            r.spec_boundary() == default_boundary(),
    {
        let r = Form {
            fields: Vec::new(),
            // surely no one would include such a ridiculous string in a file
            boundary: "-sdsaddsfgdghhskjtretyetertertedh?-".to_owned(),
        };
        proof {
            assert(r@ =~= Seq::<FieldView>::empty());
        }
        r
    }

    /// Gets the content type of this form, including the boundary.
    pub fn content_type(&self) -> (r: String)
        ensures
            r@ == content_type_chars(self.spec_boundary()),
    {
        let mut r = "multipart/form-data; boundary=\"".to_owned();
        let quoted = quote(self.boundary.as_str());
        r.append(quoted.as_str());
        r.append("\"");
        proof {
            assert(r@ =~= content_type_chars(self.spec_boundary()));
        }
        r
    }

    /// Adds a text field to this form.  The field doesn't have a file name;
    /// its payload is the UTF-8 encoding of the given text, unmodified.
    pub fn text(&mut self, field_name: &str, text: &str)
        ensures
            final(self)@ == old(self)@.push(
                FieldView { name: field_name@, file_name: None, data: encode_utf8(text@) },
            ),
            final(self).spec_boundary() == old(self).spec_boundary(),
    {
        let mut data: Vec<u8> = Vec::new();
        push_str_utf8(&mut data, text);
        let key = FieldKey { name: field_name.to_owned(), file_name: None };
        self.fields.push((key, data));
        proof {
            assert(self@ =~= old(self)@.push(
                FieldView { name: field_name@, file_name: None, data: encode_utf8(text@) },
            ));
        }
    }

    /// Adds a named file to this form; its payload is the given raw bytes,
    /// unmodified.
    pub fn file(&mut self, field_name: &str, file_name: &str, data: bytes::Bytes)
        ensures
            final(self)@ == old(self)@.push(
                FieldView {
                    name: field_name@,
                    file_name: Some(file_name@),
                    data: bytes_content(data),
                },
            ),
            final(self).spec_boundary() == old(self).spec_boundary(),
    {
        let payload = bytes_to_vec(&data);
        let key = FieldKey { name: field_name.to_owned(), file_name: Some(file_name.to_owned()) };
        self.fields.push((key, payload));
        proof {
            assert(self@ =~= old(self)@.push(
                FieldView {
                    name: field_name@,
                    file_name: Some(file_name@),
                    data: bytes_content(data),
                },
            ));
        }
    }

    /// Converts this form into its serialised `multipart/form-data` format.
    /// The output is a pure function of the fields and the boundary, so
    /// serializing an unchanged form again yields identical bytes.
    #[verifier::loop_isolation(false)]
    pub fn bytes(&self) -> (r: bytes::Bytes)
        ensures
            bytes_content(r) == serialize_spec(self@, self.spec_boundary()),
    {
        let ghost fields = self@;
        let ghost boundary = self.boundary@;
        let mut out: Vec<u8> = Vec::new();
        let mut idx: usize = 0;
        proof {
            assert(fields.len() == self.fields@.len());
            assert(out@ =~= fields_bytes(fields.take(0), boundary));
        }
        while idx < self.fields.len()
            invariant
                idx <= fields.len(),
                out@ == fields_bytes(fields.take(idx as int), boundary),
            decreases fields.len() - idx,
        {
            let ghost i = idx as int;
            let ghost before = out@;
            let ghost f = fields[i];
            proof {
                assert(f == fields[i]);
                assert(fields[i].name == self.fields@[i].0.name@);
            }

            let key = &self.fields[idx].0;
            let mut header = "--".to_owned();
            header.append(self.boundary.as_str());
            header.append("\r\nContent-Disposition: form-data; name=\"");
            let quoted_name = quote(key.name.as_str());
            header.append(quoted_name.as_str());
            header.append("\"");
            match &key.file_name {
                Some(fname) => {
                    header.append("; filename=\"");
                    let quoted_file = quote(fname.as_str());
                    header.append(quoted_file.as_str());
                    header.append("\"");
                },
                None => {},
            }
            header.append("\r\n\r\n");
            proof {
                assert(header@ =~= field_header_chars(f, boundary));
            }

            push_str_utf8(&mut out, header.as_str());
            push_bytes(&mut out, &self.fields[idx].1);
            push_str_utf8(&mut out, "\r\n");
            idx = idx + 1;
            proof {
                assert(out@ =~= before + field_bytes(f, boundary));
                assert(fields.take(i + 1) =~= fields.take(i) + seq![f]);
                lemma_fields_bytes_append(fields.take(i), seq![f], boundary);
                assert(seq![f].drop_first() =~= Seq::<FieldView>::empty());
                assert(fields_bytes(Seq::<FieldView>::empty(), boundary) =~= Seq::<u8>::empty());
                assert(seq![f][0] == f);
                assert(fields_bytes(seq![f], boundary) =~= field_bytes(f, boundary)
                    + fields_bytes(Seq::<FieldView>::empty(), boundary));
                assert(fields_bytes(seq![f], boundary) =~= field_bytes(f, boundary));
                assert(out@ =~= fields_bytes(fields.take(i + 1), boundary));
            }
        }
        proof {
            assert(fields.take(fields.len() as int) =~= fields);
        }

        let mut trailer = "--".to_owned();
        trailer.append(self.boundary.as_str());
        trailer.append("--");
        push_str_utf8(&mut out, trailer.as_str());
        proof {
            assert(trailer@ =~= "--"@ + boundary + "--"@);
            assert(out@ =~= serialize_spec(fields, boundary));
        }
        bytes_from_vec(out)
    }
}

/// Appends the contents of `data` to `out`.
#[verifier::loop_isolation(false)]
fn push_bytes(out: &mut Vec<u8>, data: &Vec<u8>)
    ensures
        final(out)@ == old(out)@ + data@,
{
    let ghost base = out@;
    let mut i: usize = 0;
    proof {
        assert(out@ =~= base + data@.take(0));
    }
    while i < data.len()
        invariant
            i <= data@.len(),
            out@ == base + data@.take(i as int),
        decreases data@.len() - i,
    {
        out.push(data[i]);
        i = i + 1;
        proof {
            assert(out@ =~= base + data@.take(i as int));
        }
    }
    proof {
        assert(data@.take(data@.len() as int) =~= data@);
    }
}

// ---------------------------------------------------------------------------
// The boundary to the `bytes` crate.
// ---------------------------------------------------------------------------

#[verifier::external_type_specification]
#[verifier::external_body]
pub struct ExBytes(bytes::Bytes);

/// What a `bytes::Bytes` buffer holds.
pub uninterp spec fn bytes_content(b: bytes::Bytes) -> Seq<u8>;

/// Relies on `<Bytes as From<Vec<u8>>>::from`: the new buffer holds exactly
/// the vector's bytes.
#[verifier::external_body]
pub fn bytes_from_vec(v: Vec<u8>) -> (b: bytes::Bytes)
    ensures
        bytes_content(b) == v@,
{
    bytes::Bytes::from(v)
}

/// Relies on `<Bytes as AsRef<[u8]>>::as_ref` and `slice::to_vec`: the new
/// vector holds exactly the buffer's bytes.
#[verifier::external_body]
pub fn bytes_to_vec(b: &bytes::Bytes) -> (v: Vec<u8>)
    ensures
        v@ == bytes_content(*b),
{
    b.as_ref().to_vec()
}

} // verus!
