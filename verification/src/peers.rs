//! The peer list: a text with one address per line.

use vstd::prelude::*;
use vstd::slice::slice_subrange;
use vstd::utf8::valid_utf8;
use crate::address::{parse_model, utf8_text, Multiaddr};

verus! {

/// The byte that ends a line.
pub const NEWLINE: u8 = 10;

/// The byte that may stand before a newline and is then part of the line ending.
pub const CARRIAGE_RETURN: u8 = 13;

/// Number of bytes before the first line ending, or before the end of the text.
pub open spec fn line_len(s: Seq<u8>) -> nat
    decreases s.len(),
{
    if s.len() == 0 || s[0] == NEWLINE {
        0
    } else {
        1 + line_len(s.skip(1))
    }
}

/// The bytes before a newline, without the carriage return that may end them.
pub open spec fn strip_cr(line: Seq<u8>) -> Seq<u8> {
    if line.len() > 0 && line.last() == CARRIAGE_RETURN {
        line.drop_last()
    } else {
        line
    }
}

/// The first line of a text, without its ending. The ending is a newline, with
/// the carriage return before it if there is one. A carriage return that no
/// newline follows belongs to its line.
pub open spec fn first_line(s: Seq<u8>) -> Seq<u8> {
    let raw = s.take(line_len(s) as int);
    if line_len(s) < s.len() {
        strip_cr(raw)
    } else {
        raw
    }
}

/// What follows the first line and its ending.
pub open spec fn after_line(s: Seq<u8>) -> Seq<u8> {
    if line_len(s) < s.len() {
        s.skip(line_len(s) as int + 1)
    } else {
        Seq::empty()
    }
}

/// The lines of a text. A line ends at a newline, at a carriage return with a
/// newline after it, or at the end of the text. The line ending is not part of
/// the line, a carriage return at the end of the text is, and a text that ends
/// with a line ending has no empty last line.
pub open spec fn lines(s: Seq<u8>) -> Seq<Seq<u8>>
    decreases s.len(),
{
    if s.len() == 0 {
        Seq::empty()
    } else {
        seq![first_line(s)] + lines(after_line(s))
    }
}

/// The addresses of those lines that parse, in the order of the lines. Lines
/// that do not parse, blank ones among them, are skipped.
pub open spec fn parsed(lines: Seq<Seq<u8>>) -> Seq<Seq<u8>>
    decreases lines.len(),
{
    if lines.len() == 0 {
        Seq::empty()
    } else {
        let rest = parsed(lines.drop_first());
        match parse_model(lines.first()) {
            Some(a) => seq![a] + rest,
            None => rest,
        }
    }
}

/// Number of lines that parse.
pub open spec fn valid_lines(lines: Seq<Seq<u8>>) -> nat
    decreases lines.len(),
{
    if lines.len() == 0 {
        0
    } else if parse_model(lines.first()) is Some {
        1 + valid_lines(lines.drop_first())
    } else {
        valid_lines(lines.drop_first())
    }
}

/// The addresses that a peer list names.
pub open spec fn listed(s: Seq<u8>) -> Seq<Seq<u8>> {
    parsed(lines(s))
}

/// Whether `a` is the address that line `i` parses to.
pub open spec fn parses_to(ls: Seq<Seq<u8>>, i: int, a: Seq<u8>) -> bool {
    0 <= i < ls.len() && parse_model(ls[i]) == Some(a)
}

/// Whether the `k`-th address comes from a line that parses to it.
pub open spec fn has_line(ls: Seq<Seq<u8>>, k: int) -> bool {
    exists|i: int| k <= i && #[trigger] parses_to(ls, i, parsed(ls)[k])
}

/// Whether the `k`-th and the `l`-th address come from two lines that parse to
/// them, the first of which stands before the second.
pub open spec fn lines_in_order(ls: Seq<Seq<u8>>, k: int, l: int) -> bool {
    exists|i: int, j: int|
        i < j && #[trigger] parses_to(ls, i, parsed(ls)[k]) && #[trigger] parses_to(
            ls,
            j,
            parsed(ls)[l],
        )
}

/// A list with N lines that parse and any number of lines that do not yields
/// exactly N addresses. They are the addresses of the lines that parse, each
/// line gives one, and they stand in the order of their lines.
pub proof fn lemma_parsed_keeps_valid_lines_in_order(ls: Seq<Seq<u8>>)
    ensures
        parsed(ls).len() == valid_lines(ls),
        valid_lines(ls) <= ls.len(),
        forall|k: int| 0 <= k < parsed(ls).len() ==> #[trigger] has_line(ls, k),
        forall|k: int, l: int| 0 <= k < l < parsed(ls).len() ==> #[trigger] lines_in_order(ls, k, l),
        forall|i: int|
            0 <= i < ls.len() && parse_model(#[trigger] ls[i]) is Some ==> parsed(ls).contains(
                parse_model(ls[i])->0,
            ),
    decreases ls.len(),
{
    if ls.len() > 0 {
        let tail = ls.drop_first();
        let rest = parsed(tail);
        let out = parsed(ls);
        let shift: int = if parse_model(ls.first()) is Some { 1 } else { 0 };
        lemma_parsed_keeps_valid_lines_in_order(tail);
        assert forall|k: int| 0 <= k < out.len() implies #[trigger] has_line(ls, k) by {
            if k < shift {
                assert(parses_to(ls, 0, out[k]));
            } else {
                assert(out[k] == rest[k - shift]);
                assert(has_line(tail, k - shift));
                let i = choose|i: int| k - shift <= i && #[trigger] parses_to(tail, i, rest[k - shift]);
                assert(tail[i] == ls[i + 1]);
                assert(parses_to(ls, i + 1, out[k]));
            }
        }
        assert forall|k: int, l: int| 0 <= k < l < out.len() implies #[trigger] lines_in_order(
            ls,
            k,
            l,
        ) by {
            assert(out[l] == rest[l - shift]);
            if k < shift {
                assert(has_line(tail, l - shift));
                let j = choose|j: int| l - shift <= j && #[trigger] parses_to(tail, j, rest[l - shift]);
                assert(tail[j] == ls[j + 1]);
                assert(parses_to(ls, 0, out[k]) && parses_to(ls, j + 1, out[l]));
            } else {
                assert(out[k] == rest[k - shift]);
                assert(lines_in_order(tail, k - shift, l - shift));
                let (i, j) = choose|i: int, j: int|
                    i < j && #[trigger] parses_to(tail, i, rest[k - shift]) && #[trigger] parses_to(
                        tail,
                        j,
                        rest[l - shift],
                    );
                assert(tail[i] == ls[i + 1] && tail[j] == ls[j + 1]);
                assert(parses_to(ls, i + 1, out[k]) && parses_to(ls, j + 1, out[l]));
            }
        }
        assert forall|i: int| 0 <= i < ls.len() && parse_model(
            #[trigger] ls[i],
        ) is Some implies out.contains(parse_model(ls[i])->0) by {
            if i == 0 {
                assert(out[0] == parse_model(ls[0])->0);
            } else {
                assert(tail[i - 1] == ls[i]);
                assert(rest.contains(parse_model(tail[i - 1])->0));
                let k = choose|k: int| 0 <= k < rest.len() && rest[k] == parse_model(ls[i])->0;
                assert(out[k + shift] == rest[k]);
            }
        }
    }
}

/// A text without a newline is one line, as it stands: a carriage return at
/// its end belongs to the line.
pub proof fn lemma_text_without_newline_is_one_line(s: Seq<u8>)
    requires
        s.len() > 0,
        forall|i: int| 0 <= i < s.len() ==> s[i] != NEWLINE,
    ensures
        lines(s) == seq![s],
{
    lemma_line_len(s, s.len() as int);
    assert(s.take(s.len() as int) =~= s);
    assert(lines(after_line(s)) =~= Seq::<Seq<u8>>::empty());
    assert(lines(s) =~= seq![s]);
}

/// Before a newline, one carriage return is part of the line ending.
pub proof fn lemma_carriage_return_before_newline_is_dropped(line: Seq<u8>, rest: Seq<u8>)
    requires
        forall|i: int| 0 <= i < line.len() ==> line[i] != NEWLINE,
    ensures
        first_line(line + seq![CARRIAGE_RETURN, NEWLINE] + rest) == line,
        first_line(line + seq![NEWLINE] + rest) == strip_cr(line),
        after_line(line + seq![CARRIAGE_RETURN, NEWLINE] + rest) == rest,
{
    let s = line + seq![CARRIAGE_RETURN, NEWLINE] + rest;
    let n = line.len() as int;
    lemma_line_len(s, n + 1);
    assert(s.take(n + 1) =~= line.push(CARRIAGE_RETURN));
    assert(strip_cr(line.push(CARRIAGE_RETURN)) =~= line);
    assert(s.skip(n + 2) =~= rest);
    let t = line + seq![NEWLINE] + rest;
    lemma_line_len(t, n);
    assert(t.take(n) =~= line);
}

/// The addresses in a vector, each by its binary form.
pub open spec fn addresses(v: Seq<Multiaddr>) -> Seq<Seq<u8>> {
    Seq::new(v.len(), |i: int| v[i]@)
}

proof fn lemma_line_len(s: Seq<u8>, k: int)
    requires
        0 <= k <= s.len(),
        forall|j: int| 0 <= j < k ==> s[j] != NEWLINE,
        k == s.len() || s[k] == NEWLINE,
    ensures
        line_len(s) == k,
    decreases k,
{
    if k > 0 {
        lemma_line_len(s.skip(1), k - 1);
    }
}

/// The addresses named in the bytes of a peer list.
pub fn parse_list(text: &[u8]) -> (r: Vec<Multiaddr>)
    ensures
        addresses(r@) == listed(text@),
{
    let mut out: Vec<Multiaddr> = Vec::new();
    let n: usize = text.len();
    let mut pos: usize = 0;
    assert(text@.skip(0) =~= text@);
    while pos < n
        invariant
            pos <= n,
            n == text@.len(),
            addresses(out@) + listed(text@.skip(pos as int)) == listed(text@),
        decreases n - pos,
    {
        let ghost rest = text@.skip(pos as int);
        let mut end: usize = pos;
        while end < n && text[end] != NEWLINE
            invariant
                pos <= end <= n,
                n == text@.len(),
                forall|j: int| pos <= j < end ==> text@[j] != NEWLINE,
            decreases n - end,
        {
            end += 1;
        }
        proof {
            lemma_line_len(rest, end - pos);
        }
        let mut stop: usize = end;
        if end < n && stop > pos && text[stop - 1] == CARRIAGE_RETURN {
            stop -= 1;
        }
        let line = slice_subrange(text, pos, stop);
        assert(line@ =~= first_line(rest));
        let ghost before = addresses(out@);
        match Multiaddr::parse_utf8(line) {
            Some(a) => {
                out.push(a);
                assert(addresses(out@) =~= before + seq![a@]);
            },
            None => {},
        }
        let next: usize = if end < n { end + 1 } else { n };
        assert(text@.skip(next as int) =~= after_line(rest));
        assert(lines(rest).drop_first() =~= lines(after_line(rest)));
        assert(addresses(out@) + listed(after_line(rest)) =~= before + listed(rest));
        pos = next;
    }
    assert(listed(text@.skip(pos as int)) =~= Seq::<Seq<u8>>::empty());
    assert(addresses(out@) + Seq::<Seq<u8>>::empty() =~= addresses(out@));
    out
}

/// What was found where the peer list is kept.
#[derive(Debug)]
pub enum PeerFile {
    /// There is no list.
    Missing,
    /// There is a list but it could not be read.
    Unreadable,
    /// The bytes of the list.
    Contents(Vec<u8>),
}

/// Why the peer list could not be loaded.
#[derive(Clone, Copy, Debug, PartialEq, Eq, Structural)]
pub enum IOError {
    /// The list could not be read.
    Unreadable,
    /// The list is no UTF-8 text.
    InvalidData,
}

/// What loading a peer list yields. A list that does not exist is empty, which
/// is no error; a list that is no UTF-8 text is refused as a whole.
pub open spec fn load_model(file: PeerFile) -> Result<Seq<Seq<u8>>, IOError> {
    match file {
        PeerFile::Missing => Ok(Seq::empty()),
        PeerFile::Unreadable => Err(IOError::Unreadable),
        PeerFile::Contents(bytes) => if valid_utf8(bytes@) {
            Ok(listed(bytes@))
        } else {
            Err(IOError::InvalidData)
        },
    }
}

/// Loads the peer list.
pub fn load(file: &PeerFile) -> (r: Result<Vec<Multiaddr>, IOError>)
    ensures
        r matches Ok(v) ==> load_model(*file) == Ok::<Seq<Seq<u8>>, IOError>(addresses(v@)),
        r matches Err(e) ==> load_model(*file) == Err::<Seq<Seq<u8>>, IOError>(e),
{
    match file {
        PeerFile::Missing => {
            let out: Vec<Multiaddr> = Vec::new();
            assert(addresses(out@) =~= Seq::<Seq<u8>>::empty());
            Ok(out)
        },
        PeerFile::Unreadable => Err(IOError::Unreadable),
        PeerFile::Contents(bytes) => match utf8_text(bytes.as_slice()) {
            Some(_) => Ok(parse_list(bytes.as_slice())),
            None => Err(IOError::InvalidData),
        },
    }
}

} // verus!
