//! The contact-card parser: a line-oriented two-state machine that
//! validates record structure, extracts each record's name and birth
//! date, decodes quoted-printable names, and reports the first
//! structural error of a malformed input.
use vstd::prelude::*;
use vstd::string::*;
use vstd::utf8::*;

use crate::date::{parse_date_text, parsed_date, Date};
use crate::text::{
    match_prefix, spec_has_prefix, spec_lines, split_chars, split_lines, split_on, str_eq,
};

verus! {

/// One parsed contact: a display name and, where the record gave one, a
/// birth date.
#[derive(Debug, PartialEq, Eq)]
pub struct VCard {
    pub name: String,
    pub bday: Option<Date>,
}

/// The mathematical value of a [`VCard`]: its name's characters and its
/// birth date.
pub struct VCardView {
    pub name: Seq<char>,
    pub bday: Option<Date>,
}

impl View for VCard {
    type V = VCardView;

    open spec fn view(&self) -> VCardView {
        VCardView { name: self.name@, bday: self.bday }
    }
}

impl DeepView for VCard {
    type V = VCardView;

    open spec fn deep_view(&self) -> VCardView {
        self.view()
    }
}

/// Why a parse failed; the first error aborts the whole parse.
#[derive(Debug, PartialEq, Eq)]
pub enum VCardError {
    UnexpectedFieldError(String),
    MissingEndError,
    NoNameError,
    InvalidNameError,
    InvalidBDayError(String),
}

/// The mathematical value of a [`VCardError`], its text payloads taken as
/// character sequences.
pub enum VCardErrorView {
    UnexpectedFieldError(Seq<char>),
    MissingEndError,
    NoNameError,
    InvalidNameError,
    InvalidBDayError(Seq<char>),
}

impl View for VCardError {
    type V = VCardErrorView;

    open spec fn view(&self) -> VCardErrorView {
        match self {
            VCardError::UnexpectedFieldError(f) => VCardErrorView::UnexpectedFieldError(f@),
            VCardError::MissingEndError => VCardErrorView::MissingEndError,
            VCardError::NoNameError => VCardErrorView::NoNameError,
            VCardError::InvalidNameError => VCardErrorView::InvalidNameError,
            VCardError::InvalidBDayError(m) => VCardErrorView::InvalidBDayError(m@),
        }
    }
}

/// The message a [`VCardError`] reports, as a spec value.
pub open spec fn spec_error_message(e: VCardErrorView) -> Seq<char> {
    match e {
        VCardErrorView::UnexpectedFieldError(f) => "Unexpected "@ + f,
        VCardErrorView::MissingEndError => "Missing END:VCARD"@,
        VCardErrorView::NoNameError => "No name at end of vcard"@,
        VCardErrorView::InvalidNameError => "error while parsing name"@,
        VCardErrorView::InvalidBDayError(m) => "error while parsing bday: "@ + m,
    }
}

impl VCardError {
    /// The human-readable message for this error.
    pub fn to_message(&self) -> (r: String)
        ensures
            r@ == spec_error_message(self@),
    {
        match self {
            VCardError::UnexpectedFieldError(f) => String::from_str("Unexpected ").concat(
                f.as_str(),
            ),
            VCardError::MissingEndError => String::from_str("Missing END:VCARD"),
            VCardError::NoNameError => String::from_str("No name at end of vcard"),
            VCardError::InvalidNameError => String::from_str("error while parsing name"),
            VCardError::InvalidBDayError(m) => String::from_str("error while parsing bday: ")
                .concat(m.as_str()),
        }
    }
}

/// Whether `c` is a hexadecimal digit.
pub open spec fn is_hex_digit(c: char) -> bool {
    ('0' as u32) <= (c as u32) <= ('9' as u32) || ('a' as u32) <= (c as u32) <= ('f' as u32) || (
    'A' as u32) <= (c as u32) <= ('F' as u32)
}

/// The value of the hexadecimal digit `c`.
pub open spec fn hex_val(c: char) -> int {
    if ('0' as u32) <= (c as u32) <= ('9' as u32) {
        (c as u32) - ('0' as u32)
    } else if ('a' as u32) <= (c as u32) <= ('f' as u32) {
        (c as u32) - ('a' as u32) + 10
    } else {
        (c as u32) - ('A' as u32) + 10
    }
}

/// The byte a two-digit hexadecimal token stands for, or `None` where the
/// token is not exactly two hexadecimal digits.
pub open spec fn spec_hex_byte(t: Seq<char>) -> Option<u8> {
    if t.len() == 2 && is_hex_digit(t[0]) && is_hex_digit(t[1]) {
        Some((hex_val(t[0]) * 16 + hex_val(t[1])) as u8)
    } else {
        None
    }
}

/// The bytes the given tokens stand for, or `None` where any token is not
/// a two-digit hexadecimal byte.
pub open spec fn hex_tokens_bytes(toks: Seq<Seq<char>>) -> Option<Seq<u8>>
    decreases toks.len(),
{
    if toks.len() == 0 {
        Some(Seq::<u8>::empty())
    } else {
        match spec_hex_byte(toks[0]) {
            None => None,
            Some(b) => match hex_tokens_bytes(toks.drop_first()) {
                None => None,
                Some(rest) => Some(seq![b] + rest),
            },
        }
    }
}

/// What decoding a quoted-printable fragment yields: the text before the
/// first `=` is discarded, each following token must be a two-digit
/// hexadecimal byte, and the bytes must form valid UTF-8.
pub open spec fn spec_decode_qp(s: Seq<char>) -> Option<Seq<char>> {
    match hex_tokens_bytes(split_on(s, '=').drop_first()) {
        None => None,
        Some(bs) => if valid_utf8(bs) {
            Some(decode_utf8(bs))
        } else {
            None
        },
    }
}

/// Relies on std's `String::from_utf8`: it succeeds exactly on valid
/// UTF-8 input, and the returned string holds the decoded characters.
#[verifier::external_body]
fn utf8_to_string(bytes: Vec<u8>) -> (r: Option<String>)
    ensures
        r is Some <==> valid_utf8(bytes@),
        r is Some ==> r->0@ == decode_utf8(bytes@),
{
    String::from_utf8(bytes).ok()
}

/// The value of `c` as a hexadecimal digit, or `None` if it is not one.
fn hex_digit_val(c: char) -> (r: Option<u8>)
    ensures
        r is Some <==> is_hex_digit(c),
        r is Some ==> r->0 == hex_val(c) && r->0 < 16,
{
    let u = c as u32;
    if u >= 48 && u <= 57 {
        Some((u - 48) as u8)
    } else if u >= 97 && u <= 102 {
        Some((u - 97 + 10) as u8)
    } else if u >= 65 && u <= 70 {
        Some((u - 65 + 10) as u8)
    } else {
        None
    }
}

/// The byte a token stands for, per [`spec_hex_byte`].
fn hex_byte(tok: &str) -> (r: Option<u8>)
    ensures
        r == spec_hex_byte(tok@),
{
    if tok.unicode_len() != 2 {
        return None;
    }
    let c0 = tok.get_char(0);
    let c1 = tok.get_char(1);
    match (hex_digit_val(c0), hex_digit_val(c1)) {
        (Some(h), Some(l)) => Some(h * 16 + l),
        _ => None,
    }
}

/// Decodes a quoted-printable text fragment: the text before the first
/// `=` is discarded; every following `=`-separated token must be exactly
/// two hexadecimal digits and the resulting bytes valid UTF-8, else the
/// decode fails with `InvalidNameError`.
pub fn decode_quoted_printable(encoded: &str) -> (r: Result<String, VCardError>)
    ensures
        match spec_decode_qp(encoded@) {
            Some(name) => r is Ok && r->Ok_0@ == name,
            None => r is Err && r->Err_0 == VCardError::InvalidNameError,
        },
{
    let toks = split_chars(encoded, '=');
    let ghost all = toks.deep_view().drop_first();
    let mut bytes: Vec<u8> = Vec::new();
    let mut i: usize = 1;
    proof {
        assert(toks.deep_view().len() >= 1);
        assert(all.skip(0) =~= all);
        assert(bytes@ =~= Seq::<u8>::empty());
    }
    while i < toks.len()
        invariant
            1 <= i <= toks.len(),
            toks.deep_view() == split_on(encoded@, '='),
            all == toks.deep_view().drop_first(),
            hex_tokens_bytes(all) == (match hex_tokens_bytes(all.skip(i - 1)) {
                Some(rest) => Some(bytes@ + rest),
                None => None::<Seq<u8>>,
            }),
        decreases toks.len() - i,
    {
        let ghost rest = all.skip(i - 1);
        proof {
            assert(rest.len() > 0);
            assert(rest[0] == all[i - 1]);
            assert(all[i - 1] == toks.deep_view()[i as int]);
            assert(rest.drop_first() =~= all.skip(i as int));
        }
        match hex_byte(toks[i].as_str()) {
            None => {
                proof {
                    assert(hex_tokens_bytes(rest) is None);
                    assert(hex_tokens_bytes(all) is None);
                }
                return Err(VCardError::InvalidNameError);
            },
            Some(b) => {
                let ghost old_bytes = bytes@;
                bytes.push(b);
                proof {
                    assert(bytes@ =~= old_bytes.push(b));
                    assert forall|tail: Seq<u8>| true implies old_bytes + (seq![b] + tail)
                        =~= bytes@ + tail by {
                    }
                }
            },
        }
        i += 1;
    }
    proof {
        assert(all.skip(i - 1) =~= Seq::<Seq<char>>::empty());
        assert(hex_tokens_bytes(all.skip(i - 1)) == Some(Seq::<u8>::empty()));
        assert(bytes@ + Seq::<u8>::empty() =~= bytes@);
        assert(hex_tokens_bytes(all) == Some(bytes@));
    }
    match utf8_to_string(bytes) {
        Some(s) => Ok(s),
        None => Err(VCardError::InvalidNameError),
    }
}

/// Which side of a record boundary the parser stands on.
#[derive(PartialEq, Eq, Structural)]
enum ParseState {
    In,
    Out,
}

impl ParseState {
    /// `Ok` exactly inside a record; `Err` carries `msg` otherwise.
    fn is_in(&self, msg: VCardError) -> (r: Result<(), VCardError>)
        ensures
            r is Ok <==> *self == ParseState::In,
            r is Err ==> r->Err_0 == msg,
    {
        if *self != ParseState::In {
            Err(msg)
        } else {
            Ok(())
        }
    }

    /// `Ok` exactly outside a record; `Err` carries `msg` otherwise.
    fn is_out(&self, msg: VCardError) -> (r: Result<(), VCardError>)
        ensures
            r is Ok <==> *self == ParseState::Out,
            r is Err ==> r->Err_0 == msg,
    {
        if *self != ParseState::Out {
            Err(msg)
        } else {
            Ok(())
        }
    }
}

/// The state of a parse after some lines: which side of a record
/// boundary the machine is on, the in-progress record's accumulated
/// fields, and the completed contacts so far.
#[verifier::ext_equal]
pub struct ParseAccum {
    pub inside: bool,
    pub name: Option<Seq<char>>,
    pub bday: Option<Date>,
    pub cards: Seq<VCardView>,
}

/// The accumulator a parse starts from: outside any record, nothing
/// accumulated.
pub open spec fn initial_accum() -> ParseAccum {
    ParseAccum { inside: false, name: None, bday: None, cards: Seq::empty() }
}

/// One transition of the parser's state machine, on one line.
pub open spec fn spec_step(st: ParseAccum, line: Seq<char>) -> Result<ParseAccum, VCardErrorView> {
    if line == "BEGIN:VCARD"@ {
        if st.inside {
            Err(VCardErrorView::UnexpectedFieldError("BEGIN:VCARD"@))
        } else {
            Ok(ParseAccum { inside: true, name: None, bday: None, cards: st.cards })
        }
    } else if line == "END:VCARD"@ {
        if !st.inside {
            Err(VCardErrorView::UnexpectedFieldError("END:VCARD"@))
        } else {
            match st.name {
                None => Err(VCardErrorView::NoNameError),
                Some(n) => Ok(
                    ParseAccum {
                        inside: false,
                        name: None,
                        bday: None,
                        cards: st.cards.push(VCardView { name: n, bday: st.bday }),
                    },
                ),
            }
        }
    } else if !st.inside {
        Err(VCardErrorView::UnexpectedFieldError("contents"@))
    } else if spec_has_prefix(line, "FN:"@) {
        Ok(
            ParseAccum {
                inside: st.inside,
                name: Some(line.skip("FN:"@.len() as int)),
                bday: st.bday,
                cards: st.cards,
            },
        )
    } else if spec_has_prefix(line, "FN;CHARSET=UTF-8;ENCODING=QUOTED-PRINTABLE:"@) {
        match spec_decode_qp(line.skip("FN;CHARSET=UTF-8;ENCODING=QUOTED-PRINTABLE:"@.len() as int)) {
            Some(n) => Ok(
                ParseAccum { inside: st.inside, name: Some(n), bday: st.bday, cards: st.cards },
            ),
            None => Err(VCardErrorView::InvalidNameError),
        }
    } else if spec_has_prefix(line, "BDAY:"@) {
        match parsed_date(line.skip("BDAY:"@.len() as int)) {
            Ok(d) => Ok(
                ParseAccum { inside: st.inside, name: st.name, bday: Some(d), cards: st.cards },
            ),
            Err(m) => Err(VCardErrorView::InvalidBDayError(m)),
        }
    } else {
        Ok(st)
    }
}

/// Folds the state machine over `lines` from `st`: the completed
/// contacts, or the first error; input ending inside a record is a
/// `MissingEndError`.
pub open spec fn spec_parse_lines(lines: Seq<Seq<char>>, st: ParseAccum) -> Result<
    Seq<VCardView>,
    VCardErrorView,
>
    decreases lines.len(),
{
    if lines.len() == 0 {
        if st.inside {
            Err(VCardErrorView::MissingEndError)
        } else {
            Ok(st.cards)
        }
    } else {
        match spec_step(st, lines[0]) {
            Ok(st2) => spec_parse_lines(lines.drop_first(), st2),
            Err(e) => Err(e),
        }
    }
}

/// What parsing a whole input yields: the state machine run over the
/// input's lines from the initial accumulator.
pub open spec fn spec_parse_vcards(s: Seq<char>) -> Result<Seq<VCardView>, VCardErrorView> {
    spec_parse_lines(spec_lines(s), initial_accum())
}

/// Parses the full contents of a contact-card file: the sequence of
/// contacts completed in input order, or the first error met scanning
/// top to bottom, exactly as [`spec_parse_vcards`] states.
pub fn parse_vcards(contents: String) -> (r: Result<Vec<VCard>, VCardError>)
    ensures
        match spec_parse_vcards(contents@) {
            Ok(cards) => r is Ok && r->Ok_0.deep_view() == cards,
            Err(e) => r is Err && r->Err_0@ == e,
        },
{
    let lines = split_lines(contents.as_str());
    let ghost all: Seq<Seq<char>> = lines.deep_view();
    let mut result: Vec<VCard> = Vec::new();
    let mut parse_state = ParseState::Out;
    let mut name: Option<String> = None;
    let mut bday: Option<Date> = None;
    let mut li: usize = 0;
    proof {
        assert(all.skip(0) =~= all);
        assert(result.deep_view() =~= Seq::<VCardView>::empty());
        assert((ParseAccum {
            inside: parse_state == ParseState::In,
            name: name.deep_view(),
            bday: bday,
            cards: result.deep_view(),
        }) =~= initial_accum());
    }
    while li < lines.len()
        invariant
            li <= lines@.len(),
            all == lines.deep_view(),
            all.len() == lines@.len(),
            all == spec_lines(contents@),
            spec_parse_lines(all, initial_accum()) == spec_parse_lines(
                all.skip(li as int),
                (ParseAccum {
                    inside: parse_state == ParseState::In,
                    name: name.deep_view(),
                    bday: bday,
                    cards: result.deep_view(),
                }),
            ),
        decreases lines@.len() - li,
    {
        let ghost st0 = ParseAccum {
            inside: parse_state == ParseState::In,
            name: name.deep_view(),
            bday: bday,
            cards: result.deep_view(),
        };
        proof {
            assert(all.skip(li as int).len() > 0);
            assert(all.skip(li as int)[0] == all[li as int]);
            assert(all.skip(li as int).drop_first() =~= all.skip(li + 1));
            assert(all[li as int] == lines[li as int]@);
        }
        let line = &lines[li];
        if str_eq(line.as_str(), "BEGIN:VCARD") {
            match parse_state.is_out(
                VCardError::UnexpectedFieldError(String::from_str("BEGIN:VCARD")),
            ) {
                Err(e) => {
                    proof {
                        assert(spec_step(st0, all[li as int]) == Err::<
                            ParseAccum,
                            VCardErrorView,
                        >(e@));
                    }
                    return Err(e);
                },
                Ok(()) => {
                    parse_state = ParseState::In;
                    name = None;
                    bday = None;
                },
            }
        } else if str_eq(line.as_str(), "END:VCARD") {
            match parse_state.is_in(
                VCardError::UnexpectedFieldError(String::from_str("END:VCARD")),
            ) {
                Err(e) => {
                    proof {
                        assert(spec_step(st0, all[li as int]) == Err::<
                            ParseAccum,
                            VCardErrorView,
                        >(e@));
                    }
                    return Err(e);
                },
                Ok(()) => {
                    parse_state = ParseState::Out;
                    match name {
                        Some(n) => {
                            let ghost old_cards = result.deep_view();
                            result.push(VCard { name: n, bday });
                            proof {
                                assert(result.deep_view() =~= old_cards.push(
                                    VCardView { name: st0.name->0, bday: st0.bday },
                                ));
                            }
                        },
                        None => {
                            proof {
                                assert(spec_step(st0, all[li as int]) == Err::<
                                    ParseAccum,
                                    VCardErrorView,
                                >(VCardErrorView::NoNameError));
                            }
                            return Err(VCardError::NoNameError);
                        },
                    }
                    name = None;
                    bday = None;
                },
            }
        } else {
            match parse_state.is_in(
                VCardError::UnexpectedFieldError(String::from_str("contents")),
            ) {
                Err(e) => {
                    proof {
                        assert(spec_step(st0, all[li as int]) == Err::<
                            ParseAccum,
                            VCardErrorView,
                        >(e@));
                    }
                    return Err(e);
                },
                Ok(()) => {},
            }
            if let Some(rest) = match_prefix(line.as_str(), "FN:") {
                name = Some(rest);
            } else if let Some(rest) = match_prefix(
                line.as_str(),
                "FN;CHARSET=UTF-8;ENCODING=QUOTED-PRINTABLE:",
            ) {
                match decode_quoted_printable(rest.as_str()) {
                    Ok(n) => {
                        name = Some(n);
                    },
                    Err(e) => {
                        proof {
                            assert(spec_step(st0, all[li as int]) == Err::<
                                ParseAccum,
                                VCardErrorView,
                            >(e@));
                        }
                        return Err(e);
                    },
                }
            } else if let Some(rest) = match_prefix(line.as_str(), "BDAY:") {
                match parse_date_text(rest.as_str()) {
                    Ok(d) => {
                        bday = Some(d);
                    },
                    Err(m) => {
                        proof {
                            assert(spec_step(st0, all[li as int]) == Err::<
                                ParseAccum,
                                VCardErrorView,
                            >(VCardErrorView::InvalidBDayError(m@)));
                        }
                        return Err(VCardError::InvalidBDayError(m));
                    },
                }
            }
        }
        proof {
            let st1 = ParseAccum {
                inside: parse_state == ParseState::In,
                name: name.deep_view(),
                bday: bday,
                cards: result.deep_view(),
            };
            assert(spec_step(st0, all[li as int]) matches Ok(s) && s =~= st1);
        }
        li += 1;
    }
    proof {
        assert(all.skip(li as int) =~= Seq::<Seq<char>>::empty());
    }
    match parse_state {
        ParseState::In => Err(VCardError::MissingEndError),
        ParseState::Out => Ok(result),
    }
}

/// The accumulator after the machine has run over `lines` from `st`, or
/// the first error met on the way.
pub open spec fn run_lines(lines: Seq<Seq<char>>, st: ParseAccum) -> Result<
    ParseAccum,
    VCardErrorView,
>
    decreases lines.len(),
{
    if lines.len() == 0 {
        Ok(st)
    } else {
        match spec_step(st, lines[0]) {
            Ok(st2) => run_lines(lines.drop_first(), st2),
            Err(e) => Err(e),
        }
    }
}

/// Parsing `a + b` runs the machine over `a` and parses `b` from where
/// it stopped; an error within `a` is the whole parse's error.
proof fn lemma_parse_append(a: Seq<Seq<char>>, b: Seq<Seq<char>>, st: ParseAccum)
    ensures
        spec_parse_lines(a + b, st) == (match run_lines(a, st) {
            Ok(st2) => spec_parse_lines(b, st2),
            Err(e) => Err(e),
        }),
    decreases a.len(),
{
    if a.len() == 0 {
        assert(a + b =~= b);
    } else {
        assert((a + b).len() > 0);
        assert((a + b)[0] == a[0]);
        assert((a + b).drop_first() =~= a.drop_first() + b);
        match spec_step(st, a[0]) {
            Ok(st2) => {
                lemma_parse_append(a.drop_first(), b, st2);
            },
            Err(e) => {},
        }
    }
}

/// Whether `line` would set the in-progress record's name.
pub open spec fn name_field_line(line: Seq<char>) -> bool {
    spec_has_prefix(line, "FN:"@) || spec_has_prefix(
        line,
        "FN;CHARSET=UTF-8;ENCODING=QUOTED-PRINTABLE:"@,
    )
}

/// Whether `line`, met inside a record, steps the machine without error:
/// it is no record marker, an encoded name on it decodes, and a birth
/// date on it parses.
pub open spec fn interior_line_ok(line: Seq<char>) -> bool {
    &&& line != "BEGIN:VCARD"@
    &&& line != "END:VCARD"@
    &&& spec_has_prefix(line, "FN;CHARSET=UTF-8;ENCODING=QUOTED-PRINTABLE:"@)
        ==> spec_decode_qp(line.skip("FN;CHARSET=UTF-8;ENCODING=QUOTED-PRINTABLE:"@.len() as int))
        is Some
    &&& spec_has_prefix(line, "BDAY:"@) ==> parsed_date(line.skip("BDAY:"@.len() as int)) is Ok
}

/// Interior lines met inside a record keep the machine inside, complete
/// no contact, and leave the name as it was unless a name field sets it.
proof fn lemma_interior_run(mid: Seq<Seq<char>>, st: ParseAccum)
    requires
        st.inside,
        forall|j: int| 0 <= j < mid.len() ==> interior_line_ok(#[trigger] mid[j]),
    ensures
        run_lines(mid, st) is Ok,
        (run_lines(mid, st)->Ok_0).inside,
        (run_lines(mid, st)->Ok_0).cards == st.cards,
        (forall|j: int| 0 <= j < mid.len() ==> !name_field_line(#[trigger] mid[j])) ==> (run_lines(
            mid,
            st,
        )->Ok_0).name == st.name,
    decreases mid.len(),
{
    if mid.len() > 0 {
        assert(interior_line_ok(mid[0]));
        let st2 = spec_step(st, mid[0])->Ok_0;
        assert(spec_step(st, mid[0]) is Ok);
        assert(forall|j: int| 0 <= j < mid.drop_first().len() ==> #[trigger] mid.drop_first()[j]
            == mid[j + 1]);
        lemma_interior_run(mid.drop_first(), st2);
        if forall|j: int| 0 <= j < mid.len() ==> !name_field_line(#[trigger] mid[j]) {
            assert(st2.name == st.name);
        }
    }
}

/// A line carrying a birth-date field is neither record marker nor a
/// name field.
proof fn lemma_bday_line_is_interior(line: Seq<char>)
    requires
        spec_has_prefix(line, "BDAY:"@),
    ensures
        line != "BEGIN:VCARD"@,
        line != "END:VCARD"@,
        !name_field_line(line),
{
    reveal_strlit("BDAY:");
    reveal_strlit("BEGIN:VCARD");
    reveal_strlit("END:VCARD");
    reveal_strlit("FN:");
    reveal_strlit("FN;CHARSET=UTF-8;ENCODING=QUOTED-PRINTABLE:");
    assert(line.subrange(0, 5)[0] == line[0] && line.subrange(0, 5)[1] == line[1]);
    assert(line[0] == 'B' && line[1] == 'D');
    if line == "END:VCARD"@ {
        assert(line[0] == 'E');
    }
    if line == "BEGIN:VCARD"@ {
        assert(line[1] == 'E');
    }
    if spec_has_prefix(line, "FN:"@) {
        assert(line.subrange(0, 3)[0] == line[0]);
        assert(line[0] == 'F');
    }
    if spec_has_prefix(line, "FN;CHARSET=UTF-8;ENCODING=QUOTED-PRINTABLE:"@) {
        assert(line.subrange(0, 43)[0] == line[0]);
        assert(line[0] == 'F');
    }
}

/// Interior fields without an enclosing record are rejected: an input
/// with at least one line and no record marker on any line fails as
/// unexpected contents.
pub proof fn lemma_fields_outside_record_rejected(s: Seq<char>)
    requires
        spec_lines(s).len() > 0,
        forall|j: int| 0 <= j < spec_lines(s).len() ==> #[trigger] spec_lines(s)[j]
            != "BEGIN:VCARD"@ && spec_lines(s)[j] != "END:VCARD"@,
    ensures
        spec_parse_vcards(s) == Err::<Seq<VCardView>, VCardErrorView>(
            VCardErrorView::UnexpectedFieldError("contents"@),
        ),
{
    let lines = spec_lines(s);
    assert(lines[0] != "BEGIN:VCARD"@ && lines[0] != "END:VCARD"@);
    assert(spec_step(initial_accum(), lines[0]) == Err::<ParseAccum, VCardErrorView>(
        VCardErrorView::UnexpectedFieldError("contents"@),
    ));
}

/// A record that closes without a name having been set fails with
/// `NoNameError`: here for an input of one record whose interior lines
/// step without error and never carry a name field.
pub proof fn lemma_record_without_name_rejected(s: Seq<char>, mid: Seq<Seq<char>>)
    requires
        spec_lines(s) == seq!["BEGIN:VCARD"@] + mid + seq!["END:VCARD"@],
        forall|j: int| 0 <= j < mid.len() ==> interior_line_ok(#[trigger] mid[j]),
        forall|j: int| 0 <= j < mid.len() ==> !name_field_line(#[trigger] mid[j]),
    ensures
        spec_parse_vcards(s) == Err::<Seq<VCardView>, VCardErrorView>(VCardErrorView::NoNameError),
{
    reveal_strlit("BEGIN:VCARD");
    reveal_strlit("END:VCARD");
    let lines = spec_lines(s);
    let bm = "BEGIN:VCARD"@;
    let em = "END:VCARD"@;
    assert(bm.len() == 11 && em.len() == 9);
    let st1 = ParseAccum { inside: true, name: None, bday: None, cards: Seq::empty() };
    assert(lines =~= seq![bm] + (mid + seq![em]));
    lemma_parse_append(seq![bm], mid + seq![em], initial_accum());
    assert(seq![bm].drop_first() =~= Seq::<Seq<char>>::empty());
    assert(spec_step(initial_accum(), bm) == Ok::<ParseAccum, VCardErrorView>(st1));
    assert(seq![bm][0] == bm);
    assert(run_lines(Seq::<Seq<char>>::empty(), st1) == Ok::<ParseAccum, VCardErrorView>(st1));
    assert(run_lines(seq![bm], initial_accum()) == Ok::<ParseAccum, VCardErrorView>(st1));
    lemma_parse_append(mid, seq![em], st1);
    lemma_interior_run(mid, st1);
    let st2 = run_lines(mid, st1)->Ok_0;
    assert(st2.inside && st2.name is None);
    assert(em != bm);
    assert(spec_step(st2, em) == Err::<ParseAccum, VCardErrorView>(VCardErrorView::NoNameError));
    assert(seq![em][0] == em);
}

/// An input that opens a record and never closes it fails with
/// `MissingEndError`, whatever well-formed interior fields follow the
/// opening marker.
pub proof fn lemma_unterminated_record_rejected(s: Seq<char>, mid: Seq<Seq<char>>)
    requires
        spec_lines(s) == seq!["BEGIN:VCARD"@] + mid,
        forall|j: int| 0 <= j < mid.len() ==> interior_line_ok(#[trigger] mid[j]),
    ensures
        spec_parse_vcards(s) == Err::<Seq<VCardView>, VCardErrorView>(
            VCardErrorView::MissingEndError,
        ),
{
    let lines = spec_lines(s);
    let bm = "BEGIN:VCARD"@;
    let st1 = ParseAccum { inside: true, name: None, bday: None, cards: Seq::empty() };
    lemma_parse_append(seq![bm], mid, initial_accum());
    assert(seq![bm].drop_first() =~= Seq::<Seq<char>>::empty());
    assert(spec_step(initial_accum(), bm) == Ok::<ParseAccum, VCardErrorView>(st1));
    assert(seq![bm][0] == bm);
    assert(run_lines(Seq::<Seq<char>>::empty(), st1) == Ok::<ParseAccum, VCardErrorView>(st1));
    assert(run_lines(seq![bm], initial_accum()) == Ok::<ParseAccum, VCardErrorView>(st1));
    lemma_interior_run(mid, st1);
    let st2 = run_lines(mid, st1)->Ok_0;
    lemma_parse_append(mid, Seq::<Seq<char>>::empty(), st1);
    assert(mid + Seq::<Seq<char>>::empty() =~= mid);
    assert(spec_parse_lines(Seq::<Seq<char>>::empty(), st2) == Err::<
        Seq<VCardView>,
        VCardErrorView,
    >(VCardErrorView::MissingEndError));
}

/// A record whose birth-date field does not parse fails with
/// `InvalidBDayError` carrying the underlying description, whatever
/// well-formed fields come before it and whatever lines follow.
pub proof fn lemma_invalid_birth_date_rejected(
    s: Seq<char>,
    mid: Seq<Seq<char>>,
    line: Seq<char>,
    tail: Seq<Seq<char>>,
)
    requires
        spec_lines(s) == seq!["BEGIN:VCARD"@] + mid + seq![line] + tail,
        forall|j: int| 0 <= j < mid.len() ==> interior_line_ok(#[trigger] mid[j]),
        spec_has_prefix(line, "BDAY:"@),
        parsed_date(line.skip("BDAY:"@.len() as int)) is Err,
    ensures
        spec_parse_vcards(s) == Err::<Seq<VCardView>, VCardErrorView>(
            VCardErrorView::InvalidBDayError(
                parsed_date(line.skip("BDAY:"@.len() as int))->Err_0,
            ),
        ),
{
    let lines = spec_lines(s);
    let bm = "BEGIN:VCARD"@;
    let st1 = ParseAccum { inside: true, name: None, bday: None, cards: Seq::empty() };
    lemma_bday_line_is_interior(line);
    assert(lines =~= seq![bm] + (mid + (seq![line] + tail)));
    lemma_parse_append(seq![bm], mid + (seq![line] + tail), initial_accum());
    assert(seq![bm].drop_first() =~= Seq::<Seq<char>>::empty());
    assert(spec_step(initial_accum(), bm) == Ok::<ParseAccum, VCardErrorView>(st1));
    assert(seq![bm][0] == bm);
    assert(run_lines(Seq::<Seq<char>>::empty(), st1) == Ok::<ParseAccum, VCardErrorView>(st1));
    assert(run_lines(seq![bm], initial_accum()) == Ok::<ParseAccum, VCardErrorView>(st1));
    lemma_parse_append(mid, seq![line] + tail, st1);
    lemma_interior_run(mid, st1);
    let st2 = run_lines(mid, st1)->Ok_0;
    assert((seq![line] + tail)[0] == line);
    assert(spec_step(st2, line) == Err::<ParseAccum, VCardErrorView>(
        VCardErrorView::InvalidBDayError(parsed_date(line.skip("BDAY:"@.len() as int))->Err_0),
    ));
}

/// Parsing is a pure function of the input text: two parses of equal
/// inputs yield equal results, so parsing the same input twice leaks no
/// state between invocations.
pub proof fn lemma_parse_deterministic(s1: Seq<char>, s2: Seq<char>)
    requires
        s1 == s2,
    ensures
        spec_parse_vcards(s1) == spec_parse_vcards(s2),
{
}

} // verus!
