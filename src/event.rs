//! Events on the shared channel and the newline-free wire frames they come from.

use vstd::prelude::*;
use crate::text::{find, first_match, matches_at, matches_at_pos, no_match};

verus! {

/// What the words `kill`, `end` and the frame separator are made of.
pub open spec fn kill_word() -> Seq<char> {
    seq!['k', 'i', 'l', 'l']
}

pub open spec fn end_word() -> Seq<char> {
    seq!['e', 'n', 'd']
}

pub open spec fn separator() -> Seq<char> {
    seq![' ', '-', 'E', 'N', 'D', 'I', 'D', '-', ' ']
}

/// An id that does not run into the separator: in `<id> -ENDID- ` the first
/// separator is the one after the id, so a data line splits back into this id
/// whatever its content.
pub open spec fn frame_safe(id: Seq<char>) -> bool {
    forall|j: int| 0 <= j < id.len() ==> !#[trigger] matches_at(id + separator(), separator(), j)
}

/// The data line a producer sends for `content`: `<id> -ENDID- <content>`.
pub open spec fn frame(id: Seq<char>, content: Seq<char>) -> Seq<char> {
    id + separator() + content
}

/// Splits a data line at the leftmost separator.
pub open spec fn split_frame(line: Seq<char>) -> Option<(Seq<char>, Seq<char>)> {
    if exists|i: int| first_match(line, separator(), i) {
        let i = choose|i: int| first_match(line, separator(), i);
        Some((line.subrange(0, i), line.subrange(i + separator().len(), line.len() as int)))
    } else {
        None
    }
}

/// The model of an event.
pub enum Evt {
    End,
    Kill,
    Nothing,
    Connect(Seq<char>),
    Line(Seq<char>, Seq<char>),
}

/// An event on the collector's channel.
///
/// `Connect` carries a session id; `SendString` carries a session id and one
/// line of content.
#[derive(Debug, PartialEq, Eq)]
pub enum SendEvt {
    End,
    Kill,
    Nothing,
    Connect(String),
    SendString(String, String),
}

impl View for SendEvt {
    type V = Evt;

    open spec fn view(&self) -> Evt {
        match self {
            SendEvt::End => Evt::End,
            SendEvt::Kill => Evt::Kill,
            SendEvt::Nothing => Evt::Nothing,
            SendEvt::Connect(id) => Evt::Connect(id@),
            SendEvt::SendString(id, content) => Evt::Line(id@, content@),
        }
    }
}

/// Why a line read from a producer could not be decoded.
#[derive(PartialEq, Eq, Structural, Clone, Copy, Debug)]
pub enum DecodeError {
    /// The line holds no ` -ENDID- ` separator.
    MissingSeparator,
    /// The line is framed under another session's id.
    ForeignId,
}

/// The decoding of one line read from a producer, whatever its session.
pub open spec fn decode(line: Seq<char>) -> Result<Evt, DecodeError> {
    if line == kill_word() {
        Ok(Evt::Kill)
    } else if line == end_word() {
        Ok(Evt::End)
    } else if line.len() == 0 {
        Ok(Evt::Nothing)
    } else {
        match split_frame(line) {
            Some((id, content)) => Ok(Evt::Line(id, content)),
            None => Err(DecodeError::MissingSeparator),
        }
    }
}

/// The leftmost match of a pattern is unique.
pub proof fn lemma_first_match_unique(s: Seq<char>, pat: Seq<char>, i: int, j: int)
    requires
        first_match(s, pat, i),
        first_match(s, pat, j),
    ensures
        i == j,
{
    if i < j {
        assert(!matches_at(s, pat, i));
    } else if j < i {
        assert(!matches_at(s, pat, j));
    }
}

/// Tells whether `s` is exactly the text `lit`.
pub fn is_exactly(s: &str, lit: &str) -> (r: bool)
    ensures
        r == (s@ == lit@),
{
    let r = s.unicode_len() == lit.unicode_len() && matches_at_pos(s, lit, 0);
    proof {
        if s@.len() == lit@.len() {
            assert(s@ =~= s@.subrange(0, lit@.len() as int));
        }
    }
    r
}

/// Builds the data line for `content` under session `id`, without its line break.
pub fn frame_line(id: &str, content: &str) -> (r: String)
    ensures
        r@ == frame(id@, content@),
{
    let sep = " -ENDID- ";
    proof {
        reveal_strlit(" -ENDID- ");
    }
    assert(sep@ =~= separator());
    String::from_str(id).concat(sep).concat(content)
}

/// Splits a data line into its session id and content, at the leftmost separator.
pub fn parse_frame(line: &str) -> (r: Option<(String, String)>)
    ensures
        match r {
            Some((id, content)) => split_frame(line@) == Some((id@, content@)),
            None => split_frame(line@) is None,
        },
{
    let sep = " -ENDID- ";
    proof {
        reveal_strlit(" -ENDID- ");
    }
    assert(sep@ =~= separator());
    match find(line, sep) {
        Some(i) => {
            proof {
                let k = choose|k: int| first_match(line@, separator(), k);
                lemma_first_match_unique(line@, separator(), i as int, k);
            }
            let n = line.unicode_len();
            let id = line.substring_char(0, i);
            let content = line.substring_char(i + 9, n);
            Some((String::from_str(id), String::from_str(content)))
        },
        None => {
            assert(!exists|k: int| first_match(line@, separator(), k)) by {
                assert(no_match(line@, separator()));
            }
            None
        },
    }
}

impl SendEvt {
    /// Decodes one line read from a producer.
    pub fn decode(line: &str) -> (r: Result<SendEvt, DecodeError>)
        ensures
            match r {
                Ok(e) => decode(line@) == Ok::<Evt, DecodeError>(e@),
                Err(err) => decode(line@) == Err::<Evt, DecodeError>(err),
            },
    {
        let kill = "kill";
        let end = "end";
        proof {
            reveal_strlit("kill");
            reveal_strlit("end");
        }
        assert(kill@ =~= kill_word());
        assert(end@ =~= end_word());
        if is_exactly(line, kill) {
            Ok(SendEvt::Kill)
        } else if is_exactly(line, end) {
            Ok(SendEvt::End)
        } else if line.unicode_len() == 0 {
            Ok(SendEvt::Nothing)
        } else {
            match parse_frame(line) {
                Some((id, content)) => Ok(SendEvt::SendString(id, content)),
                None => Err(DecodeError::MissingSeparator),
            }
        }
    }

    /// Decodes one line read from a producer; a line that cannot be decoded
    /// becomes `None`, which the collector drops.
    pub fn new(line: String) -> (r: SendEvt)
        ensures
            match decode(line@) {
                Ok(e) => r@ == e,
                Err(_) => r@ == Evt::Nothing,
            },
    {
        match SendEvt::decode(line.as_str()) {
            Ok(e) => e,
            Err(_) => SendEvt::Nothing,
        }
    }
}

} // verus!
