use vstd::prelude::*;

verus! {

#[verifier::external_type_specification]
#[verifier::external_body]
#[verifier::reject_recursive_types(T)]
pub struct ExHeaderMap<T>(http::HeaderMap<T>);

#[verifier::external_type_specification]
#[verifier::external_body]
pub struct ExHeaderValue(http::HeaderValue);

#[verifier::external_type_specification]
#[verifier::external_body]
pub struct ExEncoding(encoding_rs::Encoding);

/// The fields of a header map: each lower-case field name with its values, in
/// the order in which they were added.
pub uninterp spec fn header_fields(h: http::HeaderMap) -> Map<Seq<char>, Seq<Seq<u8>>>;

/// The value of the `charset` parameter of a media type, or `None` where the
/// text does not parse as a media type or carries no such parameter.
pub uninterp spec fn media_charset(text: Seq<char>) -> Option<Seq<char>>;

/// The name of the encoding that a trimmed, lower-case label denotes in the
/// Encoding Standard's table, or `None` for a label that is not in it.
pub uninterp spec fn label_encoding(key: Seq<char>) -> Option<Seq<char>>;

/// The whitespace that is trimmed from around a label.
pub open spec fn is_label_space(c: char) -> bool {
    c == ' ' || c == '\t' || c == '\n' || c == '\r' || c == '\x0C'
}

pub open spec fn trim_label_start(s: Seq<char>) -> Seq<char>
    decreases s.len(),
{
    if s.len() > 0 && is_label_space(s[0]) {
        trim_label_start(s.drop_first())
    } else {
        s
    }
}

pub open spec fn trim_label_end(s: Seq<char>) -> Seq<char>
    decreases s.len(),
{
    if s.len() > 0 && is_label_space(s.last()) {
        trim_label_end(s.drop_last())
    } else {
        s
    }
}

pub open spec fn ascii_lower(c: char) -> char {
    if 'A' <= c && c <= 'Z' {
        ((c as u32) + 32) as char
    } else {
        c
    }
}

/// What a label is looked up by: the label without surrounding whitespace,
/// with ASCII letters in lower case.
pub open spec fn label_key(label: Seq<char>) -> Seq<char> {
    trim_label_end(trim_label_start(label)).map_values(|c: char| ascii_lower(c))
}

pub open spec fn content_type_name() -> Seq<char> {
    seq!['c', 'o', 'n', 't', 'e', 'n', 't', '-', 't', 'y', 'p', 'e']
}

pub open spec fn utf8_name() -> Seq<char> {
    seq!['U', 'T', 'F', '-', '8']
}

/// The values of field `name` in `h`, empty where it is absent.
pub open spec fn field_values(h: http::HeaderMap, name: Seq<char>) -> Seq<Seq<u8>> {
    if header_fields(h).contains_key(name) {
        header_fields(h)[name]
    } else {
        Seq::empty()
    }
}

/// The first `Content-Type` value of `h`, if there is one.
pub open spec fn content_type_field(h: http::HeaderMap) -> Option<Seq<u8>> {
    let vs = field_values(h, content_type_name());
    if vs.len() > 0 {
        Some(vs[0])
    } else {
        None
    }
}

/// A header value can be read as text when it holds only visible ASCII
/// characters and tabs.
pub open spec fn is_visible_ascii(b: Seq<u8>) -> bool {
    forall|i: int| 0 <= i < b.len() ==> (32 <= #[trigger] b[i] < 127 || b[i] == 9)
}

pub open spec fn ascii_text(b: Seq<u8>) -> Seq<char> {
    b.map_values(|x: u8| x as char)
}

/// The encoding named by a charset label, UTF-8 for a label the table lacks.
pub open spec fn charset_for_label(label: Option<Seq<char>>) -> Seq<char> {
    match label {
        None => utf8_name(),
        Some(l) => match label_encoding(label_key(l)) {
            None => utf8_name(),
            Some(n) => n,
        },
    }
}

/// The encoding that a `Content-Type` value selects: the one that its
/// `charset` parameter names, and UTF-8 where the field is absent, is not
/// readable text, does not parse, has no charset or names an unknown one.
pub open spec fn charset_for_field(field: Option<Seq<u8>>) -> Seq<char> {
    match field {
        None => utf8_name(),
        Some(b) => if is_visible_ascii(b) {
            charset_for_label(media_charset(ascii_text(b)))
        } else {
            utf8_name()
        },
    }
}

/// A character encoding, known by its canonical name.
pub struct Charset {
    encoding: &'static encoding_rs::Encoding,
    name: String,
}

impl View for Charset {
    type V = Seq<char>;

    closed spec fn view(&self) -> Seq<char> {
        self.name@
    }
}

impl Charset {
    /// The canonical name of this encoding (`"UTF-8"`, `"windows-1252"`).
    pub fn name(&self) -> (r: &str)
        ensures
            r@ == self@,
    {
        self.name.as_str()
    }

    pub(crate) fn encoding(&self) -> &'static encoding_rs::Encoding {
        self.encoding
    }

    /// UTF-8, the encoding used where a body declares none.
    pub fn utf8() -> (r: Charset)
        ensures
            r@ == utf8_name(),
    {
        utf8_charset()
    }

    /// The encoding that `label` denotes, compared without regard to case or
    /// surrounding whitespace; `None` for a label the table does not hold.
    pub fn for_label(label: &str) -> (r: Option<Charset>)
        ensures
            r matches Some(c) ==> label_encoding(label_key(label@)) == Some(c@),
            r is None ==> label_encoding(label_key(label@)) is None,
    {
        lookup_label(label)
    }
}

/// Relies on `encoding_rs::UTF_8`, whose name is "UTF-8".
#[verifier::external_body]
fn utf8_charset() -> (r: Charset)
    ensures
        r@ == utf8_name(),
{
    Charset { encoding: encoding_rs::UTF_8, name: encoding_rs::UTF_8.name().to_string() }
}

/// Relies on `encoding_rs::Encoding::for_label`, which looks a label up in
/// the Encoding Standard's table after trimming ASCII whitespace (tab, line
/// feed, form feed, carriage return, space) and folding ASCII case, so its
/// result depends on the label's key alone; it is carried with its `name()`.
#[verifier::external_body]
fn lookup_label(label: &str) -> (r: Option<Charset>)
    ensures
        r matches Some(c) ==> label_encoding(label_key(label@)) == Some(c@),
        r is None ==> label_encoding(label_key(label@)) is None,
{
    encoding_rs::Encoding::for_label(label.as_bytes()).map(
        |e| Charset { encoding: e, name: e.name().to_string() },
    )
}

/// Relies on `http::HeaderMap::get`, which gives the first value of a field,
/// and `http::HeaderValue::to_str`, which gives the value as text when all
/// its bytes are visible ASCII or tabs. `None` where the field is absent,
/// `Some(None)` where its value is not such text.
#[verifier::external_body]
fn content_type_text(headers: &http::HeaderMap) -> (r: Option<Option<String>>)
    ensures
        r is None <==> !(header_fields(*headers).contains_key(content_type_name())
            && header_fields(*headers)[content_type_name()].len() > 0),
        r matches Some(t) ==> (t is Some <==> is_visible_ascii(
            header_fields(*headers)[content_type_name()][0],
        )),
        r matches Some(Some(s)) ==> s@ == ascii_text(
            header_fields(*headers)[content_type_name()][0],
        ),
{
    headers.get(http::header::CONTENT_TYPE).map(|v| v.to_str().ok().map(|s| s.to_string()))
}

/// Relies on `mime::Mime`'s `FromStr` and `Mime::get_param`, which gives the
/// first `charset` parameter of the parsed media type.
#[verifier::external_body]
fn charset_param(text: &str) -> (r: Option<String>)
    ensures
        r matches Some(s) ==> media_charset(text@) == Some(s@),
        r is None ==> media_charset(text@) is None,
{
    match text.parse::<mime::Mime>() {
        Ok(m) => m.get_param(mime::CHARSET).map(|n| n.as_str().to_string()),
        Err(_) => None,
    }
}

/// The encoding in which to read a body that came with `headers`. This never
/// fails: where the `Content-Type` field is absent, unreadable, unparseable,
/// or names no known charset, the result is UTF-8.
pub fn resolve_charset(headers: &http::HeaderMap) -> (r: Charset)
    ensures
        r@ == charset_for_field(content_type_field(*headers)),
{
    let text = match content_type_text(headers) {
        None => return Charset::utf8(),
        Some(None) => return Charset::utf8(),
        Some(Some(t)) => t,
    };
    let label = match charset_param(text.as_str()) {
        None => return Charset::utf8(),
        Some(l) => l,
    };
    match Charset::for_label(label.as_str()) {
        Some(c) => c,
        None => Charset::utf8(),
    }
}

/// Without a `Content-Type` field, a body is read as UTF-8.
pub proof fn lemma_no_content_type_is_utf8(h: http::HeaderMap)
    requires
        !header_fields(h).contains_key(content_type_name()),
    ensures
        charset_for_field(content_type_field(h)) == utf8_name(),
{
}

/// A charset label that the table does not hold falls back to UTF-8.
pub proof fn lemma_unknown_label_is_utf8(h: http::HeaderMap)
    requires
        content_type_field(h) is Some,
        media_charset(ascii_text(content_type_field(h)->0)) is Some,
        label_encoding(label_key(media_charset(ascii_text(content_type_field(h)->0))->0)) is None,
    ensures
        charset_for_field(content_type_field(h)) == utf8_name(),
{
}

/// Labels that differ only in ASCII case and surrounding whitespace select
/// the same encoding.
pub proof fn lemma_label_case_ignored(a: Seq<char>, b: Seq<char>)
    requires
        label_key(a) == label_key(b),
    ensures
        charset_for_label(Some(a)) == charset_for_label(Some(b)),
{
}

/// Two `Content-Type` fields whose charset labels differ only in ASCII case
/// and surrounding whitespace select the same encoding.
pub proof fn lemma_field_label_case_ignored(x: Seq<u8>, y: Seq<u8>)
    requires
        is_visible_ascii(x),
        is_visible_ascii(y),
        media_charset(ascii_text(x)) is Some,
        media_charset(ascii_text(y)) is Some,
        label_key(media_charset(ascii_text(x))->0) == label_key(media_charset(ascii_text(y))->0),
    ensures
        charset_for_field(Some(x)) == charset_for_field(Some(y)),
{
}

} // verus!
