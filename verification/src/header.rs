//! The first line of a status block: glyph, dotted name, description.

use vstd::prelude::*;
use crate::error::CtlError;
use crate::kinds::Type;
use crate::text::chars_covering;
use crate::text::cut_at_last;
use crate::text::cut_last;
use crate::text::is_str;
use crate::text::join;
use crate::text::joined;
use crate::text::skip_bytes;
use crate::text::string_of;
use crate::text::trim;
use crate::text::trimmed;
use crate::text::views;
use crate::text::words;
use crate::text::words_of;

verus! {

/// What the header line of a status block says.
#[derive(Clone, Debug, PartialEq, Eq)]
pub struct Header {
    /// The name of the unit, without the type suffix.
    pub name: String,
    /// The type that the suffix names.
    pub utype: Type,
    /// The text after the `-` delimiter, if there is one.
    pub description: Option<String>,
}

/// What a [`Header`] holds, as sequences of characters.
pub struct HeaderView {
    pub name: Seq<char>,
    pub utype: Type,
    pub description: Option<Seq<char>>,
}

impl View for Header {
    type V = HeaderView;

    open spec fn view(&self) -> HeaderView {
        HeaderView {
            name: self.name@,
            utype: self.utype,
            description: match self.description {
                Some(d) => Some(d@),
                None => None,
            },
        }
    }
}

/// Number of bytes that the state glyph takes at the head of the line.
pub const GLYPH_BYTES: usize = 3;

/// The header line without its state glyph: without the leading
/// characters that cover the first three bytes of its UTF-8 encoding.
pub open spec fn after_glyph(line: Seq<char>) -> Seq<char> {
    line.skip(chars_covering(line, GLYPH_BYTES as nat) as int)
}

/// The description that the tokens of a header give: when the second
/// token is `-`, the tokens after it, joined by single spaces.
pub open spec fn description_of(tokens: Seq<Seq<char>>) -> Option<Seq<char>> {
    if tokens.len() >= 2 && trim(tokens[1]) == "-"@ {
        Some(joined(tokens.skip(2), " "@))
    } else {
        None
    }
}

/// The reading of a header line.
///
/// After the glyph the line is split at ASCII whitespace. The first token
/// is the dotted name; it is cut at its last `.` into the name and the
/// suffix, and the suffix is decoded as a unit type. A line without a
/// token, a name without `.` and a suffix that names no type all give
/// `DecodeFailure`.
pub open spec fn parse_header(line: Seq<char>) -> Result<HeaderView, CtlError> {
    let tokens = words(after_glyph(line));
    if tokens.len() == 0 {
        Err(CtlError::DecodeFailure)
    } else {
        match cut_last(trim(tokens[0]), '.') {
            None => Err(CtlError::DecodeFailure),
            Some((name, suffix)) => match Type::parse(suffix) {
                None => Err(CtlError::DecodeFailure),
                Some(utype) => Ok(
                    HeaderView { name, utype, description: description_of(tokens) },
                ),
            },
        }
    }
}

/// What the outcome of a reading holds.
pub open spec fn header_outcome(r: Result<Header, CtlError>) -> Result<HeaderView, CtlError> {
    match r {
        Ok(h) => Ok(h@),
        Err(e) => Err(e),
    }
}

/// The dotted name of a header line: its first token, trimmed; `None`
/// when the line has no token.
pub open spec fn dotted_name(line: Seq<char>) -> Option<Seq<char>> {
    let tokens = words(after_glyph(line));
    if tokens.len() == 0 {
        None
    } else {
        Some(trim(tokens[0]))
    }
}

/// A header whose dotted name ends in a suffix that names no unit type
/// cannot be read: the failure is `DecodeFailure`, whatever else the line
/// holds.
pub proof fn lemma_unknown_suffix_fails(line: Seq<char>, name: Seq<char>, suffix: Seq<char>)
    requires
        dotted_name(line) is Some,
        cut_last(dotted_name(line)->0, '.') == Some((name, suffix)),
        Type::parse(suffix) is None,
    ensures
        parse_header(line) == Err::<HeaderView, CtlError>(CtlError::DecodeFailure),
{
}

/// A header is read exactly when its dotted name has a `.` and what
/// follows the last `.` is the token of a unit type; the record then
/// carries that type and what precedes the `.` as the name.
pub proof fn lemma_header_ok(line: Seq<char>)
    ensures
        parse_header(line) is Ok <==> (dotted_name(line) matches Some(d) && cut_last(d, '.')
            matches Some((_, suffix)) && Type::parse(suffix) is Some),
        parse_header(line) matches Ok(h) ==> dotted_name(line)->0 == h.name + seq!['.']
            + h.utype.token(),
        parse_header(line) is Err ==> parse_header(line) == Err::<HeaderView, CtlError>(
            CtlError::DecodeFailure,
        ),
{
    if parse_header(line) is Ok {
        let d = dotted_name(line)->0;
        let h = parse_header(line)->Ok_0;
        crate::text::lemma_last_index_bound(d, '.');
        let i = crate::text::last_index(d, '.');
        Type::lemma_parse_is_inverse(d.skip(i + 1), h.utype);
        assert(d =~= d.take(i) + seq!['.'] + d.skip(i + 1));
    }
}

/// Reads a header line.
pub fn read_header(line: &Vec<char>) -> (r: Result<Header, CtlError>)
    ensures
        header_outcome(r) == parse_header(line@),
        r is Err ==> r == Err::<Header, CtlError>(CtlError::DecodeFailure),
{
    let rest = skip_bytes(line, GLYPH_BYTES);
    let tokens = words_of(&rest);
    assert(views(tokens@).len() == tokens@.len());
    if tokens.len() == 0 {
        return Err(CtlError::DecodeFailure);
    }
    assert(views(tokens@)[0] == tokens@[0]@);
    let dotted = trimmed(&tokens[0]);
    match cut_at_last(&dotted, '.') {
        None => Err(CtlError::DecodeFailure),
        Some((name, suffix)) => match Type::from_chars(&suffix) {
            None => Err(CtlError::DecodeFailure),
            Some(utype) => {
                let mut description: Option<String> = None;
                if tokens.len() >= 2 {
                    assert(views(tokens@)[1] == tokens@[1]@);
                    let delimiter = trimmed(&tokens[1]);
                    if is_str(&delimiter, "-") {
                        description = Some(join(&tokens, 2, " "));
                    }
                }
                Ok(Header { name: string_of(&name), utype, description })
            },
        },
    }
}

} // verus!
