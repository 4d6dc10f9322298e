//! Decoding of `multipart/form-data` bodies.
//!
//! A body is cut at its boundary markers first; each segment between two
//! markers is then split at its first blank line into a header block and the
//! content, which is kept byte for byte.

use vstd::prelude::*;
use vstd::string::*;
use crate::bytes::{matches_at, find_from, find, starts_with_at, copy_range, lemma_find_from_is_first};
use vstd::slice::slice_subrange;
use crate::bytes::append_bytes;
use crate::error::ErrorKind;

verus! {

/// The media type that an upload must announce.
pub open spec fn form_data_type() -> Seq<u8> {
    "multipart/form-data".spec_bytes()
}

/// The attribute of the content type that introduces the boundary.
pub open spec fn boundary_key() -> Seq<u8> {
    "boundary=".spec_bytes()
}

/// A double quote.
pub open spec fn quote() -> Seq<u8> {
    "\"".spec_bytes()
}

/// The byte that ends an attribute.
pub open spec fn semicolon() -> Seq<u8> {
    ";".spec_bytes()
}

/// The value that follows the boundary key at `start`: the text between double
/// quotes if it opens with one, else what precedes the next semicolon.
pub open spec fn attribute_value(text: Seq<u8>, start: int) -> Option<Seq<u8>> {
    if matches_at(text, quote(), start) {
        match find_from(text, quote(), start + quote().len()) {
            Some(end) => Some(text.subrange(start + quote().len(), end)),
            None => None,
        }
    } else {
        match find_from(text, semicolon(), start) {
            Some(end) => Some(text.subrange(start, end)),
            None => Some(text.subrange(start, text.len() as int)),
        }
    }
}

/// The boundary that a content type announces, if it is multipart form data
/// with a boundary of at least one byte.
pub open spec fn boundary_of_spec(content_type: Seq<u8>) -> Option<Seq<u8>> {
    if !matches_at(content_type, form_data_type(), 0) {
        None
    } else {
        match find_from(content_type, boundary_key(), 0) {
            None => None,
            Some(key) => match attribute_value(content_type, key + boundary_key().len()) {
                Some(value) => if value.len() > 0 {
                    Some(value)
                } else {
                    None
                },
                None => None,
            },
        }
    }
}

/// Reads the attribute value that starts at `start`.
fn read_attribute_value(text: &[u8], start: usize) -> (value: Option<Vec<u8>>)
    requires
        start <= text.len(),
    ensures
        match attribute_value(text@, start as int) {
            Some(v) => value.is_some() && value.unwrap()@ == v,
            None => value.is_none(),
        },
{
    let q = "\"".as_bytes();
    if starts_with_at(text, q, start) {
        let open = start + q.len();
        match find(text, q, open) {
            Some(end) => Some(copy_range(text, open, end)),
            None => None,
        }
    } else {
        match find(text, ";".as_bytes(), start) {
            Some(end) => Some(copy_range(text, start, end)),
            None => Some(copy_range(text, start, text.len())),
        }
    }
}

/// Extracts the boundary from the value of a content-type header.
///
/// Fails with `MalformedContentType` exactly when the value does not start
/// with `multipart/form-data`, has no `boundary=` attribute, opens a quoted
/// boundary without closing it, or gives an empty boundary.
pub fn boundary_of(content_type: &[u8]) -> (boundary: Result<Vec<u8>, ErrorKind>)
    ensures
        match boundary_of_spec(content_type@) {
            Some(b) => boundary.is_ok() && boundary.unwrap()@ == b,
            None => boundary == Err::<Vec<u8>, ErrorKind>(ErrorKind::MalformedContentType),
        },
{
    if !starts_with_at(content_type, "multipart/form-data".as_bytes(), 0) {
        return Err(ErrorKind::MalformedContentType);
    }
    let key = "boundary=".as_bytes();
    match find(content_type, key, 0) {
        None => Err(ErrorKind::MalformedContentType),
        Some(at) => {
            match read_attribute_value(content_type, at + key.len()) {
                Some(value) => if value.len() > 0 {
                    Ok(value)
                } else {
                    Err(ErrorKind::MalformedContentType)
                },
                None => Err(ErrorKind::MalformedContentType),
            }
        },
    }
}

/// One header of a part, as raw text.
#[derive(Clone, Debug, PartialEq, Eq)]
pub struct Header {
    pub name: Vec<u8>,
    pub value: Vec<u8>,
}

/// One part of a multipart body: its headers in order, and its content.
#[derive(Clone, Debug, PartialEq, Eq)]
pub struct MultipartPart {
    pub headers: Vec<Header>,
    pub body: Vec<u8>,
}

/// What a header is: a name and a value.
pub struct HeaderModel {
    pub name: Seq<u8>,
    pub value: Seq<u8>,
}

/// What a part is: its headers in order, and its content.
pub struct PartModel {
    pub headers: Seq<HeaderModel>,
    pub body: Seq<u8>,
}

impl View for Header {
    type V = HeaderModel;

    open spec fn view(&self) -> HeaderModel {
        HeaderModel { name: self.name@, value: self.value@ }
    }
}

/// The headers of a list, each by its view.
pub open spec fn headers_view(headers: Seq<Header>) -> Seq<HeaderModel> {
    headers.map_values(|h: Header| h@)
}

impl View for MultipartPart {
    type V = PartModel;

    open spec fn view(&self) -> PartModel {
        PartModel { headers: headers_view(self.headers@), body: self.body@ }
    }
}

/// The parts of a list, each by its view.
pub open spec fn parts_view(parts: Seq<MultipartPart>) -> Seq<PartModel> {
    parts.map_values(|p: MultipartPart| p@)
}

/// The line break of the multipart grammar.
pub open spec fn crlf() -> Seq<u8> {
    "\r\n".spec_bytes()
}

/// The byte that parts a header's name from its value.
pub open spec fn colon() -> Seq<u8> {
    ":".spec_bytes()
}

/// A space or a tab.
pub open spec fn is_blank(b: u8) -> bool {
    b == 32 || b == 9
}

/// The first index at or after `pos` that holds no space or tab.
pub open spec fn skip_blanks(text: Seq<u8>, pos: int) -> int
    decreases text.len() - pos,
{
    if 0 <= pos < text.len() && is_blank(text[pos]) {
        skip_blanks(text, pos + 1)
    } else {
        pos
    }
}

/// A header line split at its first colon; the value loses its leading
/// blanks. A line without a colon is a name with an empty value.
pub open spec fn parse_header(line: Seq<u8>) -> HeaderModel {
    match find_from(line, colon(), 0) {
        Some(at) => HeaderModel {
            name: line.subrange(0, at),
            value: line.subrange(
                skip_blanks(line, at + colon().len()),
                line.len() as int,
            ),
        },
        None => HeaderModel { name: line, value: Seq::empty() },
    }
}

/// The headers of a header block from `pos` on, one for each line.
pub open spec fn header_lines(block: Seq<u8>, pos: int) -> Seq<HeaderModel>
    decreases block.len() - pos,
{
    if pos < 0 || pos >= block.len() {
        Seq::empty()
    } else {
        proof {
            lemma_find_from_is_first(block, crlf(), pos);
            lemma_marker_lengths();
        }
        match find_from(block, crlf(), pos) {
            Some(end) => seq![parse_header(block.subrange(pos, end))] + header_lines(
                block,
                end + crlf().len(),
            ),
            None => seq![parse_header(block.subrange(pos, block.len() as int))],
        }
    }
}

/// The lengths of the fixed texts of the grammar.
pub proof fn lemma_marker_lengths()
    ensures
        crlf().len() == 2,
        colon().len() == 1,
        quote().len() == 1,
        semicolon().len() == 1,
        blank_line().len() == 4,
        dashes().len() == 2,
{
    reveal_strlit("\r\n\r\n");
    reveal_strlit("--");
    assert(is_ascii("\r\n\r\n"));
    assert(is_ascii("--"));
    reveal_strlit("\r\n");
    reveal_strlit(":");
    reveal_strlit("\"");
    reveal_strlit(";");
    assert(is_ascii("\r\n"));
    assert(is_ascii(":"));
    assert(is_ascii("\""));
    assert(is_ascii(";"));
}

/// Splits one header line into name and value.
fn read_header(line: &[u8]) -> (header: Header)
    ensures
        header@ == parse_header(line@),
{
    let sep = ":".as_bytes();
    proof {
        lemma_marker_lengths();
    }
    match find(line, sep, 0) {
        Some(at) => {
            let mut start: usize = at + sep.len();
            while start < line.len() && (line[start] == 32 || line[start] == 9)
                invariant
                    at + 1 <= start <= line.len(),
                    skip_blanks(line@, at + 1) == skip_blanks(line@, start as int),
                decreases line.len() - start,
            {
                start += 1;
            }
            Header { name: copy_range(line, 0, at), value: copy_range(line, start, line.len()) }
        },
        None => {
            let name = copy_range(line, 0, line.len());
            proof {
                assert(line@.subrange(0, line.len() as int) =~= line@);
            }
            Header { name, value: Vec::new() }
        },
    }
}

/// Reads the headers of a header block, one from each line.
pub fn read_headers(block: &[u8]) -> (headers: Vec<Header>)
    ensures
        headers_view(headers@) == header_lines(block@, 0),
{
    let mut headers: Vec<Header> = Vec::new();
    let mut pos: usize = 0;
    let brk = "\r\n".as_bytes();
    proof {
        lemma_marker_lengths();
        assert(headers_view(headers@) =~= Seq::<HeaderModel>::empty());
    }
    while pos < block.len()
        invariant
            brk@ == crlf(),
            crlf().len() == 2,
            headers_view(headers@) + header_lines(block@, pos as int) == header_lines(block@, 0),
        decreases block.len() - pos,
    {
        let ghost before = headers@;
        match find(block, brk, pos) {
            Some(end) => {
                let line = copy_range(block, pos, end);
                let header = read_header(line.as_slice());
                headers.push(header);
                proof {
                    assert(headers_view(headers@) =~= headers_view(before) + seq![
                        parse_header(block@.subrange(pos as int, end as int)),
                    ]);
                    assert(headers_view(headers@) + header_lines(block@, end + 2)
                        =~= headers_view(before) + header_lines(block@, pos as int));
                }
                pos = end + 2;
            },
            None => {
                let line = copy_range(block, pos, block.len());
                let header = read_header(line.as_slice());
                headers.push(header);
                proof {
                    assert(headers_view(headers@) =~= headers_view(before) + seq![
                        parse_header(block@.subrange(pos as int, block.len() as int)),
                    ]);
                    assert(header_lines(block@, block.len() as int) =~= Seq::<HeaderModel>::empty());
                }
                pos = block.len();
            },
        }
    }
    proof {
        assert(header_lines(block@, pos as int) =~= Seq::<HeaderModel>::empty());
        assert(headers_view(headers@) + Seq::<HeaderModel>::empty() =~= headers_view(headers@));
    }
    headers
}

/// The blank line that ends a header block.
pub open spec fn blank_line() -> Seq<u8> {
    "\r\n\r\n".spec_bytes()
}

/// The two dashes that open every boundary marker and close the last one.
pub open spec fn dashes() -> Seq<u8> {
    "--".spec_bytes()
}

/// The marker that opens the first part: two dashes and the boundary.
pub open spec fn delimiter(boundary: Seq<u8>) -> Seq<u8> {
    dashes() + boundary
}

/// The marker that ends a part: a line break, two dashes and the boundary.
pub open spec fn separator(boundary: Seq<u8>) -> Seq<u8> {
    crlf() + dashes() + boundary
}

/// The part that one segment holds. The line break that ends the marker's
/// line is dropped; the header block runs up to the first blank line, and all
/// that follows is the content. A segment that opens with a blank line has no
/// headers; one without a blank line has no content.
pub open spec fn parse_segment(raw: Seq<u8>) -> PartModel {
    let seg = if matches_at(raw, crlf(), 0) {
        raw.subrange(crlf().len() as int, raw.len() as int)
    } else {
        raw
    };
    if matches_at(seg, crlf(), 0) {
        PartModel {
            headers: Seq::empty(),
            body: seg.subrange(crlf().len() as int, seg.len() as int),
        }
    } else {
        match find_from(seg, blank_line(), 0) {
            Some(end) => PartModel {
                headers: header_lines(seg.subrange(0, end), 0),
                body: seg.subrange(end + blank_line().len(), seg.len() as int),
            },
            None => PartModel { headers: header_lines(seg, 0), body: Seq::empty() },
        }
    }
}

/// The parts that follow a boundary marker ending at `pos`. Two dashes right
/// after the marker close the body. Else a part runs up to the next
/// separator, or to the end of the body where none follows, so that a body
/// cut short still yields its last part.
pub open spec fn parts_after(body: Seq<u8>, boundary: Seq<u8>, pos: int) -> Seq<PartModel>
    decreases body.len() - pos,
{
    if pos < 0 || pos > body.len() || matches_at(body, dashes(), pos) {
        Seq::empty()
    } else {
        proof {
            lemma_find_from_is_first(body, separator(boundary), pos);
            lemma_marker_lengths();
        }
        match find_from(body, separator(boundary), pos) {
            Some(next) => seq![parse_segment(body.subrange(pos, next))] + parts_after(
                body,
                boundary,
                next + separator(boundary).len(),
            ),
            None => seq![parse_segment(body.subrange(pos, body.len() as int))],
        }
    }
}

/// The parts of a body, in order: those that follow the first marker, and
/// none where the body holds no marker.
pub open spec fn decode_spec(boundary: Seq<u8>, body: Seq<u8>) -> Seq<PartModel> {
    match find_from(body, delimiter(boundary), 0) {
        Some(first) => parts_after(body, boundary, first + delimiter(boundary).len()),
        None => Seq::empty(),
    }
}

/// Reads the part that one segment holds.
fn read_segment(raw: &[u8]) -> (part: MultipartPart)
    ensures
        part@ == parse_segment(raw@),
{
    let brk = "\r\n".as_bytes();
    proof {
        lemma_marker_lengths();
    }
    let seg = if starts_with_at(raw, brk, 0) {
        slice_subrange(raw, brk.len(), raw.len())
    } else {
        raw
    };
    if starts_with_at(seg, brk, 0) {
        let headers: Vec<Header> = Vec::new();
        proof {
            assert(headers_view(headers@) =~= Seq::<HeaderModel>::empty());
        }
        return MultipartPart { headers, body: copy_range(seg, brk.len(), seg.len()) };
    }
    let gap = "\r\n\r\n".as_bytes();
    match find(seg, gap, 0) {
        Some(end) => {
            let headers = read_headers(slice_subrange(seg, 0, end));
            MultipartPart { headers, body: copy_range(seg, end + gap.len(), seg.len()) }
        },
        None => MultipartPart { headers: read_headers(seg), body: Vec::new() },
    }
}

/// Reads the parts that follow a boundary marker ending at `start`.
fn read_parts_after(body: &[u8], boundary: &[u8], start: usize) -> (parts: Vec<MultipartPart>)
    requires
        start <= body.len(),
    ensures
        parts_view(parts@) == parts_after(body@, boundary@, start as int),
{
    let mut sep: Vec<u8> = Vec::new();
    append_bytes(&mut sep, "\r\n".as_bytes());
    append_bytes(&mut sep, "--".as_bytes());
    append_bytes(&mut sep, boundary);
    let close = "--".as_bytes();
    let mut parts: Vec<MultipartPart> = Vec::new();
    let mut pos: usize = start;
    proof {
        lemma_marker_lengths();
        assert(sep@ =~= separator(boundary@));
        assert(parts_view(parts@) =~= Seq::<PartModel>::empty());
    }
    loop
        invariant
            pos <= body.len(),
            sep@ == separator(boundary@),
            sep@.len() >= 2,
            close@ == dashes(),
            parts_view(parts@) + parts_after(body@, boundary@, pos as int) == parts_after(
                body@,
                boundary@,
                start as int,
            ),
        decreases body.len() - pos,
    {
        if starts_with_at(body, close, pos) {
            proof {
                assert(parts_view(parts@) + Seq::<PartModel>::empty() =~= parts_view(parts@));
            }
            return parts;
        }
        let ghost before = parts@;
        match find(body, sep.as_slice(), pos) {
            Some(next) => {
                let part = read_segment(slice_subrange(body, pos, next));
                parts.push(part);
                proof {
                    assert(parts_view(parts@) =~= parts_view(before) + seq![
                        parse_segment(body@.subrange(pos as int, next as int)),
                    ]);
                    assert(parts_view(parts@) + parts_after(
                        body@,
                        boundary@,
                        next + separator(boundary@).len(),
                    ) =~= parts_view(before) + parts_after(body@, boundary@, pos as int));
                }
                pos = next + sep.len();
            },
            None => {
                let part = read_segment(slice_subrange(body, pos, body.len()));
                parts.push(part);
                proof {
                    assert(parts_view(parts@) =~= parts_view(before) + seq![
                        parse_segment(body@.subrange(pos as int, body.len() as int)),
                    ]);
                }
                return parts;
            },
        }
    }
}

/// Cuts a body into its parts, given the boundary.
///
/// Every segment between two markers yields one part, in the order of the
/// body, and the content of each part is kept byte for byte.
pub fn decode_parts(boundary: &[u8], body: &[u8]) -> (parts: Vec<MultipartPart>)
    ensures
        parts_view(parts@) == decode_spec(boundary@, body@),
{
    let mut first: Vec<u8> = Vec::new();
    append_bytes(&mut first, "--".as_bytes());
    append_bytes(&mut first, boundary);
    proof {
        assert(first@ =~= delimiter(boundary@));
    }
    match find(body, first.as_slice(), 0) {
        Some(at) => read_parts_after(body, boundary, at + first.len()),
        None => {
            let parts: Vec<MultipartPart> = Vec::new();
            proof {
                assert(parts_view(parts@) =~= Seq::<PartModel>::empty());
            }
            parts
        },
    }
}

/// Decodes a multipart body whose boundary the content type announces.
///
/// Fails, with `MalformedContentType`, exactly when the content type gives
/// no boundary; else the parts are those of `decode_spec`.
pub fn decode(content_type: &[u8], body: &[u8]) -> (parts: Result<Vec<MultipartPart>, ErrorKind>)
    ensures
        match boundary_of_spec(content_type@) {
            Some(b) => parts.is_ok() && parts_view(parts.unwrap()@) == decode_spec(b, body@),
            None => parts == Err::<Vec<MultipartPart>, ErrorKind>(
                ErrorKind::MalformedContentType,
            ),
        },
{
    match boundary_of(content_type) {
        Ok(boundary) => Ok(decode_parts(boundary.as_slice(), body)),
        Err(_) => Err(ErrorKind::MalformedContentType),
    }
}

/// A letter in lower case; any other byte unchanged.
pub open spec fn lower(b: u8) -> u8 {
    if 65 <= b <= 90 {
        (b + 32) as u8
    } else {
        b
    }
}

/// Whether two texts are equal but for the case of their letters.
pub open spec fn same_ignoring_case(a: Seq<u8>, b: Seq<u8>) -> bool {
    &&& a.len() == b.len()
    &&& forall|i: int| 0 <= i < a.len() ==> lower(a[i]) == lower(b[i])
}

/// The name of the header that says what a part is.
pub open spec fn disposition_name() -> Seq<u8> {
    "content-disposition".spec_bytes()
}

/// The disposition of a part that carries a form field.
pub open spec fn form_data() -> Seq<u8> {
    "form-data".spec_bytes()
}

/// The attribute that names the uploaded file, with its opening quote.
pub open spec fn filename_key() -> Seq<u8> {
    "filename=\"".spec_bytes()
}

/// The index of the first `Content-Disposition` header at or after `from`.
pub open spec fn disposition_index(headers: Seq<HeaderModel>, from: int) -> Option<int>
    decreases headers.len() - from,
{
    if from < 0 || from >= headers.len() {
        None
    } else if same_ignoring_case(headers[from].name, disposition_name()) {
        Some(from)
    } else {
        disposition_index(headers, from + 1)
    }
}

/// Whether a part is a form-data part: its first `Content-Disposition`
/// header has a value that starts with `form-data`.
pub open spec fn is_form_data(part: PartModel) -> bool {
    match disposition_index(part.headers, 0) {
        Some(at) => matches_at(part.headers[at].value, form_data(), 0),
        None => false,
    }
}

/// The text between `filename="` and the next double quote of a header
/// value, if both are there.
pub open spec fn filename_in(value: Seq<u8>) -> Option<Seq<u8>> {
    match find_from(value, filename_key(), 0) {
        Some(key) => match find_from(value, quote(), key + filename_key().len()) {
            Some(end) => Some(value.subrange(key + filename_key().len(), end)),
            None => None,
        },
        None => None,
    }
}

/// The file name that a part carries, if it is a form-data part with a
/// `filename` attribute.
pub open spec fn file_name(part: PartModel) -> Option<Seq<u8>> {
    match disposition_index(part.headers, 0) {
        Some(at) => if matches_at(part.headers[at].value, form_data(), 0) {
            filename_in(part.headers[at].value)
        } else {
            None
        },
        None => None,
    }
}

/// The index of the first part at or after `from` that carries a file name.
pub open spec fn first_file(parts: Seq<PartModel>, from: int) -> Option<int>
    decreases parts.len() - from,
{
    if from < 0 || from >= parts.len() {
        None
    } else if file_name(parts[from]).is_some() {
        Some(from)
    } else {
        first_file(parts, from + 1)
    }
}

/// Whether some part is a form-data part.
pub open spec fn any_form_data(parts: Seq<PartModel>) -> bool {
    exists|i: int| 0 <= i < parts.len() && is_form_data(#[trigger] parts[i])
}

/// The file that an upload carries: its name as the client gave it, and
/// its bytes.
#[derive(Clone, Debug, PartialEq, Eq)]
pub struct FilePart {
    pub filename: Vec<u8>,
    pub bytes: Vec<u8>,
}

/// Puts a letter in lower case.
fn to_lower(b: u8) -> (l: u8)
    ensures
        l == lower(b),
{
    if 65 <= b && b <= 90 {
        b + 32
    } else {
        b
    }
}

/// Compares two texts without regard to the case of letters.
pub fn eq_ignoring_case(a: &[u8], b: &[u8]) -> (same: bool)
    ensures
        same == same_ignoring_case(a@, b@),
{
    if a.len() != b.len() {
        return false;
    }
    let mut i: usize = 0;
    while i < a.len()
        invariant
            a.len() == b.len(),
            i <= a.len(),
            forall|k: int| 0 <= k < i ==> lower(a@[k]) == lower(b@[k]),
        decreases a.len() - i,
    {
        if to_lower(a[i]) != to_lower(b[i]) {
            return false;
        }
        i += 1;
    }
    true
}

/// Finds the first `Content-Disposition` header.
fn find_disposition(headers: &[Header]) -> (found: Option<usize>)
    ensures
        match disposition_index(headers_view(headers@), 0) {
            Some(at) => found == Some(at as usize) && 0 <= at < headers.len(),
            None => found.is_none(),
        },
{
    let name = "content-disposition".as_bytes();
    let mut i: usize = 0;
    while i < headers.len()
        invariant
            i <= headers.len(),
            name@ == disposition_name(),
            disposition_index(headers_view(headers@), 0) == disposition_index(
                headers_view(headers@),
                i as int,
            ),
        decreases headers.len() - i,
    {
        assert(headers_view(headers@)[i as int] == headers@[i as int]@);
        if eq_ignoring_case(headers[i].name.as_slice(), name) {
            return Some(i);
        }
        i += 1;
    }
    None
}

/// Reads the `filename` attribute of a header value.
fn read_filename(value: &[u8]) -> (name: Option<Vec<u8>>)
    ensures
        match filename_in(value@) {
            Some(n) => name.is_some() && name.unwrap()@ == n,
            None => name.is_none(),
        },
{
    let key = "filename=\"".as_bytes();
    match find(value, key, 0) {
        Some(at) => {
            let start = at + key.len();
            match find(value, "\"".as_bytes(), start) {
                Some(end) => Some(copy_range(value, start, end)),
                None => None,
            }
        },
        None => None,
    }
}

/// What `select_file` found in one part.
enum Found {
    /// The part carries a file name.
    Named(Vec<u8>),
    /// The part is a form-data part without a file name.
    Unnamed,
    /// The part is no form-data part.
    Other,
}

/// Looks at one part for a file name.
fn inspect(part: &MultipartPart) -> (found: Found)
    ensures
        match found {
            Found::Named(n) => file_name(part@) == Some(n@),
            Found::Unnamed => is_form_data(part@) && file_name(part@).is_none(),
            Found::Other => !is_form_data(part@) && file_name(part@).is_none(),
        },
{
    match find_disposition(part.headers.as_slice()) {
        Some(at) => {
            assert(headers_view(part.headers@)[at as int] == part.headers@[at as int]@);
            let value = part.headers[at].value.as_slice();
            if starts_with_at(value, "form-data".as_bytes(), 0) {
                match read_filename(value) {
                    Some(name) => Found::Named(name),
                    None => Found::Unnamed,
                }
            } else {
                Found::Other
            }
        },
        None => Found::Other,
    }
}

/// Picks the uploaded file out of the parts of a body: the first form-data
/// part that has a `filename` attribute.
///
/// Fails with `NoFilePart` exactly when no part is a form-data part, and
/// with `MissingFilename` exactly when some part is one but none of them
/// names a file.
pub fn select_file(parts: &[MultipartPart]) -> (file: Result<FilePart, ErrorKind>)
    ensures
        match first_file(parts_view(parts@), 0) {
            Some(at) => {
                &&& file.is_ok()
                &&& Some(file.unwrap().filename@) == file_name(parts_view(parts@)[at])
                &&& file.unwrap().bytes@ == parts_view(parts@)[at].body
            },
            None => if any_form_data(parts_view(parts@)) {
                file == Err::<FilePart, ErrorKind>(ErrorKind::MissingFilename)
            } else {
                file == Err::<FilePart, ErrorKind>(ErrorKind::NoFilePart)
            },
        },
{
    let mut seen: bool = false;
    let mut i: usize = 0;
    while i < parts.len()
        invariant
            i <= parts.len(),
            first_file(parts_view(parts@), 0) == first_file(parts_view(parts@), i as int),
            seen == (exists|k: int| 0 <= k < i && is_form_data(#[trigger] parts_view(parts@)[k])),
        decreases parts.len() - i,
    {
        assert(parts_view(parts@)[i as int] == parts@[i as int]@);
        match inspect(&parts[i]) {
            Found::Named(filename) => {
                let content = parts[i].body.as_slice();
                let bytes = copy_range(content, 0, content.len());
                proof {
                    assert(content@.subrange(0, content.len() as int) =~= content@);
                }
                return Ok(FilePart { filename, bytes });
            },
            Found::Unnamed => {
                seen = true;
            },
            Found::Other => {},
        }
        i += 1;
    }
    if seen {
        Err(ErrorKind::MissingFilename)
    } else {
        Err(ErrorKind::NoFilePart)
    }
}

} // verus!
