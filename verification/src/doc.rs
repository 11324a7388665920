//! References to the documentation of a unit.

use vstd::prelude::*;
use crate::error::CtlError;
use crate::text::chars_of;
use crate::text::count;
use crate::text::cut_at_only;
use crate::text::cut_once;
use crate::text::find;
use crate::text::first_where;
use crate::text::followed_by;
use crate::text::is_char;
use crate::text::is_str;
use crate::text::slice_of;
use crate::text::string_of;
use crate::text::trim;
use crate::text::trimmed;
use crate::text::CharClass;

verus! {

/// One piece of documentation that a unit refers to.
#[derive(Clone, Debug, PartialEq, Eq)]
pub enum Doc {
    /// A manual page, by name.
    Man(String),
    /// A web page, by address.
    Url(String),
}

/// What a [`Doc`] holds, as sequences of characters.
pub enum DocView {
    /// A manual page, by name.
    Man(Seq<char>),
    /// A web page, by address.
    Url(Seq<char>),
}

impl View for Doc {
    type V = DocView;

    open spec fn view(&self) -> DocView {
        match self {
            Doc::Man(s) => DocView::Man(s@),
            Doc::Url(s) => DocView::Url(s@),
        }
    }
}

/// What a payload names as a manual page: its text before the first `(`,
/// so that a section number in brackets is dropped.
pub open spec fn man_name(payload: Seq<char>) -> Seq<char> {
    payload.take(first_where(payload, is_char('(')) as int)
}

/// The reading of one descriptor of the form `scheme:payload`.
///
/// A descriptor has exactly one `:`. The scheme `man` gives a manual page
/// named by the payload up to its first `(`. The schemes `http` and `https`
/// give an address: the scheme, the `:` and the trimmed payload. Anything
/// else is malformed.
pub open spec fn parse_doc(s: Seq<char>) -> Result<DocView, CtlError> {
    match cut_once(s, ':') {
        None => Err(CtlError::MalformedDescriptor),
        Some((scheme, payload)) => {
            if scheme == "man"@ {
                Ok(DocView::Man(man_name(payload)))
            } else if scheme == "http"@ {
                Ok(DocView::Url("http:"@ + trim(payload)))
            } else if scheme == "https"@ {
                Ok(DocView::Url("https:"@ + trim(payload)))
            } else {
                Err(CtlError::MalformedDescriptor)
            }
        },
    }
}

/// What the outcome of a reading holds.
pub open spec fn doc_outcome(r: Result<Doc, CtlError>) -> Result<DocView, CtlError> {
    match r {
        Ok(d) => Ok(d@),
        Err(e) => Err(e),
    }
}

impl Doc {
    /// The name of the manual page, when this is one.
    pub fn as_man(&self) -> (r: Option<&str>)
        ensures
            match self@ {
                DocView::Man(s) => r is Some && r->0@ == s,
                DocView::Url(_) => r is None,
            },
    {
        match self {
            Doc::Man(s) => Some(s.as_str()),
            _ => None,
        }
    }

    /// The address of the web page, when this is one.
    pub fn as_url(&self) -> (r: Option<&str>)
        ensures
            match self@ {
                DocView::Url(s) => r is Some && r->0@ == s,
                DocView::Man(_) => r is None,
            },
    {
        match self {
            Doc::Url(s) => Some(s.as_str()),
            _ => None,
        }
    }

    /// Reads one descriptor that is already held as characters.
    pub fn from_chars(v: &Vec<char>) -> (r: Result<Doc, CtlError>)
        ensures
            doc_outcome(r) == parse_doc(v@),
    {
        match cut_at_only(v, ':') {
            None => Err(CtlError::MalformedDescriptor),
            Some((scheme, payload)) => {
                if is_str(&scheme, "man") {
                    assert(payload@.skip(0) == payload@);
                    let end = find(&payload, 0, CharClass::Is('('));
                    let name = slice_of(&payload, 0, end);
                    Ok(Doc::Man(string_of(&name)))
                } else if is_str(&scheme, "http") {
                    let address = followed_by(&chars_of("http:"), &trimmed(&payload));
                    Ok(Doc::Url(string_of(&address)))
                } else if is_str(&scheme, "https") {
                    let address = followed_by(&chars_of("https:"), &trimmed(&payload));
                    Ok(Doc::Url(string_of(&address)))
                } else {
                    Err(CtlError::MalformedDescriptor)
                }
            },
        }
    }

    /// Reads one descriptor.
    ///
    /// The result is `Ok` exactly when the descriptor has one `:` and its
    /// scheme is `man`, `http` or `https`; every other descriptor gives
    /// `MalformedDescriptor`.
    pub fn from_str(status: &str) -> (r: Result<Doc, CtlError>)
        ensures
            doc_outcome(r) == parse_doc(status@),
            count(status@, ':') != 1 ==> r == Err::<Doc, CtlError>(CtlError::MalformedDescriptor),
            r is Err ==> r == Err::<Doc, CtlError>(CtlError::MalformedDescriptor),
    {
        let v = chars_of(status);
        Doc::from_chars(&v)
    }
}

/// A descriptor `man:payload` whose payload holds no `:` names the manual
/// page that the payload gives before its first `(`, character for
/// character.
pub proof fn lemma_man_descriptor(payload: Seq<char>)
    requires
        count(payload, ':') == 0,
    ensures
        parse_doc("man:"@ + payload) == Ok::<DocView, CtlError>(DocView::Man(man_name(payload))),
        man_name(payload).len() <= payload.len(),
        forall|i: int| 0 <= i < man_name(payload).len() ==> man_name(payload)[i] == payload[i],
        forall|i: int| 0 <= i < man_name(payload).len() ==> payload[i] != '(',
        man_name(payload).len() < payload.len() ==> payload[man_name(payload).len() as int] == '(',
{
    reveal_strlit("man:");
    reveal_strlit("man");
    assert("man"@.len() == 3);
    lemma_cut_after_scheme("man"@, payload);
    assert("man:"@ == "man"@.push(':'));
    crate::text::lemma_first_where_found(payload, is_char('('));
}

/// A descriptor `http:payload` or `https:payload` whose payload holds no
/// `:` gives the address made of the scheme, the `:` and the trimmed
/// payload.
pub proof fn lemma_url_descriptor(secure: bool, payload: Seq<char>)
    requires
        count(payload, ':') == 0,
    ensures
        !secure ==> parse_doc("http:"@ + payload) == Ok::<DocView, CtlError>(
            DocView::Url("http:"@ + trim(payload)),
        ),
        secure ==> parse_doc("https:"@ + payload) == Ok::<DocView, CtlError>(
            DocView::Url("https:"@ + trim(payload)),
        ),
{
    reveal_strlit("man");
    reveal_strlit("http");
    reveal_strlit("https");
    reveal_strlit("http:");
    reveal_strlit("https:");
    assert("http"@.len() == 4);
    assert("https"@.len() == 5);
    assert("man"@.len() == 3);
    if secure {
        lemma_cut_after_scheme("https"@, payload);
        assert("https:"@ == "https"@.push(':'));
    } else {
        lemma_cut_after_scheme("http"@, payload);
        assert("http:"@ == "http"@.push(':'));
    }
}

/// A descriptor that does not hold exactly one `:`, or whose scheme is
/// none of `man`, `http` and `https`, is malformed.
pub proof fn lemma_malformed_descriptor(s: Seq<char>)
    requires
        count(s, ':') != 1 || ({
            let scheme = s.take(first_where(s, is_char(':')) as int);
            scheme != "man"@ && scheme != "http"@ && scheme != "https"@
        }),
    ensures
        parse_doc(s) == Err::<DocView, CtlError>(CtlError::MalformedDescriptor),
{
}

/// Two readings of the same descriptor give the same outcome, character
/// for character.
pub proof fn lemma_same_descriptor_same_doc(
    text: Seq<char>,
    first: Result<Doc, CtlError>,
    second: Result<Doc, CtlError>,
)
    requires
        doc_outcome(first) == parse_doc(text),
        doc_outcome(second) == parse_doc(text),
    ensures
        doc_outcome(first) == doc_outcome(second),
        first is Ok <==> second is Ok,
        first is Ok ==> first->Ok_0@ == second->Ok_0@,
        first is Err ==> first->Err_0 == second->Err_0,
{
}

/// A scheme without `:`, then `:`, then a payload without `:` is cut into
/// the scheme and the payload.
proof fn lemma_cut_after_scheme(scheme: Seq<char>, payload: Seq<char>)
    requires
        forall|j: int| 0 <= j < scheme.len() ==> #[trigger] scheme[j] != ':',
        count(payload, ':') == 0,
    ensures
        cut_once(scheme.push(':') + payload, ':') == Some((scheme, payload)),
{
    let s = scheme.push(':') + payload;
    let n = scheme.len() as int;
    assert forall|j: int| 0 <= j < n implies !is_char(':')(#[trigger] s[j]) by {
        assert(s[j] == scheme[j]);
    }
    assert(s[n] == ':');
    crate::text::lemma_first_where_is(s, is_char(':'), n);
    crate::text::lemma_count_by_first(s, ':');
    assert(s.skip(n + 1) == payload);
    assert(s.take(n) == scheme);
}

} // verus!
