//! The listing of recent spans, and the steps of a fetch.

use vstd::prelude::*;

use crate::observe::otlp;
use crate::observe::otlp::{decode_otlp_span, DecodeError};
use crate::observe::SpanView;
use crate::text;
use crate::text::{chars_of, split_lines, split_once, trim, trim_end_char};

verus! {

/// The most spans that one fetch asks for.
pub const MAX_RECENT_SPANS: usize = 16;

#[derive(Debug, PartialEq, Eq)]
pub enum ObserveFetchError {
    Transport(String),
    Fetch(String),
    InvalidName,
    MalformedRecent,
    Decode(DecodeError),
}

impl ObserveFetchError {
    /// What the error says.
    pub open spec fn message_text(self) -> Seq<char> {
        match self {
            ObserveFetchError::Transport(detail) => "transport unavailable: "@ + detail@,
            ObserveFetchError::Fetch(detail) => "fetch failed: "@ + detail@,
            ObserveFetchError::InvalidName => "invalid observability Data name"@,
            ObserveFetchError::MalformedRecent => "malformed recent span listing"@,
            ObserveFetchError::Decode(err) => "span decode failed: "@ + err.message_text(),
        }
    }

    pub fn message(&self) -> (r: String)
        ensures
            r@ == self.message_text(),
    {
        match self {
            ObserveFetchError::Transport(detail) => {
                "transport unavailable: ".to_string().concat(detail.as_str())
            },
            ObserveFetchError::Fetch(detail) => "fetch failed: ".to_string().concat(
                detail.as_str(),
            ),
            ObserveFetchError::InvalidName => "invalid observability Data name".to_string(),
            ObserveFetchError::MalformedRecent => "malformed recent span listing".to_string(),
            ObserveFetchError::Decode(err) => "span decode failed: ".to_string().concat(
                err.message().as_str(),
            ),
        }
    }
}

#[derive(Debug, PartialEq, Eq)]
pub struct RecentSpanRef {
    pub trace_id: String,
    pub span_id: String,
}

impl Clone for RecentSpanRef {
    fn clone(&self) -> (r: Self)
        ensures
            r == *self,
    {
        RecentSpanRef {
            trace_id: self.trace_id.clone(),
            span_id: self.span_id.clone(),
        }
    }
}

impl RecentSpanRef {
    pub fn new(trace_id: &str, span_id: &str) -> (r: Self)
        ensures
            r.trace_id@ == trace_id@,
            r.span_id@ == span_id@,
    {
        RecentSpanRef { trace_id: trace_id.to_string(), span_id: span_id.to_string() }
    }
}

/// `std::str::from_utf8` gives the text that bytes encode where they are
/// well-formed UTF-8, and an error where they are not.
#[verifier::external_body]
fn read_utf8(bytes: &[u8]) -> (r: Option<&str>)
    ensures
        r is Some <==> vstd::utf8::valid_utf8(bytes@),
        r matches Some(s) ==> s@ == vstd::utf8::decode_utf8(bytes@),
{
    std::str::from_utf8(bytes).ok()
}

/// A hexadecimal digit of either case.
pub open spec fn is_hex_digit(c: char) -> bool {
    '0' <= c <= '9' || 'a' <= c <= 'f' || 'A' <= c <= 'F'
}

/// A text of `len` hexadecimal digits.
pub open spec fn is_hex(s: Seq<char>, len: nat) -> bool {
    s.len() == len && forall|i: int| 0 <= i < s.len() ==> is_hex_digit(#[trigger] s[i])
}

/// The part of a line in front of the first slash.
pub open spec fn head_of(line: Seq<char>) -> Seq<char> {
    line.take(text::first_at(line, '/'))
}

/// The part of a line behind the first slash.
pub open spec fn tail_of(line: Seq<char>) -> Seq<char> {
    line.skip(text::first_at(line, '/') + 1)
}

/// A line that names a span: 32 digits, a slash, and 16 digits.
pub open spec fn is_span_line(line: Seq<char>) -> bool {
    &&& line.contains('/')
    &&& is_hex(head_of(line), 32)
    &&& is_hex(tail_of(line), 16)
}

/// The lines that are not blank, without whitespace around them.
pub open spec fn filled_lines(lines: Seq<Seq<char>>) -> Seq<Seq<char>> {
    lines.map_values(|line: Seq<char>| text::trimmed(line)).filter(
        |line: Seq<char>| line.len() > 0,
    )
}

/// The lines of a listing.
pub open spec fn listing_lines(bytes: Seq<u8>) -> Seq<Seq<char>> {
    filled_lines(text::lines_of(vstd::utf8::decode_utf8(bytes)))
}

/// A listing: text in which every line that is not blank names a span.
pub open spec fn is_listing(bytes: Seq<u8>) -> bool {
    vstd::utf8::valid_utf8(bytes) && forall|i: int|
        0 <= i < listing_lines(bytes).len() ==> is_span_line(#[trigger] listing_lines(bytes)[i])
}

/// The spans that lines name.
pub open spec fn names_spans(refs: Seq<RecentSpanRef>, lines: Seq<Seq<char>>) -> bool {
    &&& refs.len() == lines.len()
    &&& forall|i: int|
        0 <= i < refs.len() ==> (#[trigger] refs[i]).trace_id@ == head_of(lines[i])
            && refs[i].span_id@ == tail_of(lines[i])
}

fn is_hex_of_len(value: &str, len: usize) -> (r: bool)
    ensures
        r == is_hex(value@, len as nat),
{
    let x = chars_of(value);
    if x.len() != len {
        return false;
    }
    let mut i: usize = 0;
    while i < x.len()
        invariant
            x@ == value@,
            i <= x@.len(),
            forall|k: int| 0 <= k < i ==> is_hex_digit(#[trigger] value@[k]),
        decreases x@.len() - i,
    {
        let c = x[i];
        if !(('0' <= c && c <= '9') || ('a' <= c && c <= 'f') || ('A' <= c && c <= 'F')) {
            assert(!is_hex_digit(value@[i as int]));
            return false;
        }
        i = i + 1;
    }
    true
}

pub fn parse_recent_listing(bytes: &[u8]) -> (r: Result<Vec<RecentSpanRef>, ObserveFetchError>)
    ensures
        r is Ok <==> is_listing(bytes@),
        r matches Ok(refs) ==> names_spans(refs@, listing_lines(bytes@)),
        r matches Err(err) ==> err is MalformedRecent,
{
    let listing = match read_utf8(bytes) {
        Some(listing) => listing,
        None => return Err(ObserveFetchError::MalformedRecent),
    };
    let lines = split_lines(listing);
    let ghost all = text::lines_of(listing@);
    let ghost tidy = |line: Seq<char>| text::trimmed(line);
    let ghost filled = |line: Seq<char>| line.len() > 0;
    let mut refs: Vec<RecentSpanRef> = Vec::new();
    let mut i: usize = 0;
    proof {
        reveal(Seq::filter);
        assert(filled_lines(all.take(0)) =~= seq![]);
    }
    while i < lines.len()
        invariant
            i <= lines@.len(),
            text::texts(lines@) == all,
            all == text::lines_of(vstd::utf8::decode_utf8(bytes@)),
            vstd::utf8::valid_utf8(bytes@),
            names_spans(refs@, filled_lines(all.take(i as int))),
            forall|k: int|
                0 <= k < filled_lines(all.take(i as int)).len() ==> is_span_line(
                    #[trigger] filled_lines(all.take(i as int))[k],
                ),
        decreases lines@.len() - i,
    {
        let line = trim(lines[i]);
        let ghost before = filled_lines(all.take(i as int));
        let ghost after = filled_lines(all.take(i + 1));
        proof {
            lemma_filled_push(all, i as int);
            assert(all[i as int] == lines@[i as int]@);
            lemma_filled_prefix(all, i + 1);
        }
        if !line.is_empty() {
            assert(after == before.push(line@));
            assert(after[before.len() as int] == line@);
            let (trace_id, span_id) = match split_once(line, '/') {
                Some(parts) => parts,
                None => {
                    assert(listing_lines(bytes@)[before.len() as int] == line@);
                    return Err(ObserveFetchError::MalformedRecent);
                },
            };
            if !is_hex_of_len(trace_id, 32) || !is_hex_of_len(span_id, 16) {
                assert(listing_lines(bytes@)[before.len() as int] == line@);
                return Err(ObserveFetchError::MalformedRecent);
            }
            refs.push(RecentSpanRef::new(trace_id, span_id));
        }
        i = i + 1;
    }
    assert(all.take(i as int) =~= all);
    Ok(refs)
}

proof fn lemma_filled_push(lines: Seq<Seq<char>>, n: int)
    requires
        0 <= n < lines.len(),
    ensures
        filled_lines(lines.take(n + 1)) == if text::trimmed(lines[n]).len() > 0 {
            filled_lines(lines.take(n)).push(text::trimmed(lines[n]))
        } else {
            filled_lines(lines.take(n))
        },
{
    reveal(Seq::filter);
    let tidy = |line: Seq<char>| text::trimmed(line);
    let next = lines.take(n + 1).map_values(tidy);
    assert(next.drop_last() =~= lines.take(n).map_values(tidy));
    assert(next.last() == text::trimmed(lines[n]));
}

proof fn lemma_filled_prefix(lines: Seq<Seq<char>>, n: int)
    requires
        0 <= n <= lines.len(),
    ensures
        filled_lines(lines.take(n)).len() <= filled_lines(lines).len(),
        forall|k: int|
            0 <= k < filled_lines(lines.take(n)).len() ==> #[trigger] filled_lines(lines)[k]
                == filled_lines(lines.take(n))[k],
    decreases lines.len() - n,
{
    if n < lines.len() {
        lemma_filled_push(lines, n);
        lemma_filled_prefix(lines, n + 1);
    } else {
        assert(lines.take(n) =~= lines);
    }
}

/// The name under which a span is published.
pub open spec fn span_name_text(prefix: Seq<char>, span_ref: RecentSpanRef) -> Seq<char> {
    text::trim_end_char_spec(prefix, '/') + "/traces/"@ + span_ref.trace_id@ + "/spans/"@
        + span_ref.span_id@
}

pub fn span_data_name(prefix: &str, span_ref: &RecentSpanRef) -> (r: String)
    ensures
        r@ == span_name_text(prefix@, *span_ref),
{
    trim_end_char(prefix, '/').to_string().concat("/traces/").concat(
        span_ref.trace_id.as_str(),
    ).concat("/spans/").concat(span_ref.span_id.as_str())
}

/// The name of the listing of recent spans.
pub fn recent_listing_name(prefix: &str) -> (r: String)
    ensures
        r@ == prefix@ + "/recent"@,
{
    prefix.to_string().concat("/recent")
}

/// The spans to fetch: those of the listing, at most [`MAX_RECENT_SPANS`]. A
/// listing without content names none.
pub fn spans_to_fetch(content: Option<&[u8]>) -> (r: Result<Vec<RecentSpanRef>, ObserveFetchError>)
    ensures
        content is None ==> (r matches Ok(refs) && refs@.len() == 0),
        content matches Some(bytes) ==> {
            &&& r is Ok <==> is_listing(bytes@)
            &&& r matches Ok(refs) ==> names_spans(
                refs@,
                if listing_lines(bytes@).len() > MAX_RECENT_SPANS {
                    listing_lines(bytes@).take(MAX_RECENT_SPANS as int)
                } else {
                    listing_lines(bytes@)
                },
            )
            &&& r matches Err(err) ==> err is MalformedRecent
        },
{
    match content {
        Some(bytes) => match parse_recent_listing(bytes) {
            Ok(refs) => {
                let mut refs = refs;
                refs.truncate(MAX_RECENT_SPANS);
                Ok(refs)
            },
            Err(err) => Err(err),
        },
        None => Ok(Vec::new()),
    }
}

/// Takes a fetched span over: one without content is passed over, one that
/// cannot be decoded ends the fetch.
pub fn take_span(spans: &mut Vec<SpanView>, content: Option<&[u8]>) -> (r: Result<
    (),
    ObserveFetchError,
>)
    ensures
        content is None ==> r is Ok && final(spans)@ == old(spans)@,
        content matches Some(bytes) ==> match r {
            Ok(_) => {
                &&& otlp::is_span_message(bytes@)
                &&& final(spans)@.len() == old(spans)@.len() + 1
                &&& final(spans)@.drop_last() == old(spans)@
                &&& otlp::tells(otlp::fields_of(bytes@)->0, final(spans)@.last())
            },
            Err(ObserveFetchError::Decode(DecodeError::Malformed)) => {
                !otlp::is_span_message(bytes@) && final(spans)@ == old(spans)@
            },
            Err(ObserveFetchError::Decode(DecodeError::MissingField(field))) => {
                &&& otlp::is_span_message(bytes@)
                &&& otlp::missing_field(otlp::fields_of(bytes@)->0) == Some(field@)
                &&& final(spans)@ == old(spans)@
            },
            Err(_) => false,
        },
{
    match content {
        Some(bytes) => match decode_otlp_span(bytes) {
            Ok(span) => {
                spans.push(span);
                assert(spans@.drop_last() =~= old(spans)@);
                Ok(())
            },
            Err(err) => Err(ObserveFetchError::Decode(err)),
        },
        None => Ok(()),
    }
}

// ---------------------------------------------------------------------------
// Laws
// ---------------------------------------------------------------------------

/// A line names a span where 32 hexadecimal digits, a slash and 16 hexadecimal
/// digits make it up, and then it names the trace before the slash and the span
/// behind it.
pub proof fn span_lines_name_trace_and_span(trace: Seq<char>, span: Seq<char>)
    requires
        trace.len() == 32,
        span.len() == 16,
        forall|i: int|
            0 <= i < trace.len() ==> ('0' <= #[trigger] trace[i] <= '9') || ('a' <= trace[i]
                <= 'f') || ('A' <= trace[i] <= 'F'),
        forall|i: int|
            0 <= i < span.len() ==> ('0' <= #[trigger] span[i] <= '9') || ('a' <= span[i] <= 'f')
                || ('A' <= span[i] <= 'F'),
    ensures
        is_span_line(trace + seq!['/'] + span),
        head_of(trace + seq!['/'] + span) == trace,
        tail_of(trace + seq!['/'] + span) == span,
{
    let line = trace + seq!['/'] + span;
    text::lemma_first_at(line, '/');
    assert(line[32] == '/');
    let at = text::first_at(line, '/');
    if at < 32 {
        assert(line[at] == trace[at]);
    }
    assert(at == 32);
    assert(line.take(32) =~= trace);
    assert(line.skip(33) =~= span);
}

/// A line that names a span has nothing but hexadecimal digits on both sides of
/// its first slash, 32 before it and 16 behind it.
pub proof fn span_lines_have_digits_alone(line: Seq<char>, i: int)
    requires
        is_span_line(line),
    ensures
        line.len() == 49,
        line[32] == '/',
        0 <= i < 49 && i != 32 ==> ('0' <= line[i] <= '9') || ('a' <= line[i] <= 'f') || ('A'
            <= line[i] <= 'F'),
{
    text::lemma_first_at(line, '/');
    let at = text::first_at(line, '/');
    assert(head_of(line).len() == at);
    assert(tail_of(line).len() == line.len() - at - 1);
    if 0 <= i < 32 {
        assert(head_of(line)[i] == line[i]);
    }
    if 32 < i < 49 {
        assert(tail_of(line)[i - 33] == line[i]);
    }
}

/// A span is published under the prefix, without slashes at its end, then by
/// its trace and its own id.
pub proof fn spans_are_named_by_trace_and_id(prefix: Seq<char>, span_ref: RecentSpanRef)
    ensures
        prefix.len() > 0 && prefix.last() != '/' ==> span_name_text(prefix, span_ref) == prefix
            + "/traces/"@ + span_ref.trace_id@ + "/spans/"@ + span_ref.span_id@,
        span_name_text(prefix.push('/'), span_ref) == span_name_text(prefix, span_ref),
{
    assert(prefix.push('/').drop_last() =~= prefix);
}

/// The lines of a listing are its lines without the blanks around them, and
/// blank ones do not count.
pub proof fn blank_lines_do_not_count(lines: Seq<Seq<char>>, line: Seq<char>)
    ensures
        text::trimmed(line).len() > 0 ==> filled_lines(lines.push(line)) == filled_lines(
            lines,
        ).push(text::trimmed(line)),
        text::trimmed(line).len() == 0 ==> filled_lines(lines.push(line)) == filled_lines(lines),
        filled_lines(Seq::<Seq<char>>::empty()).len() == 0,
{
    reveal(Seq::filter);
    let all = lines.push(line);
    lemma_filled_push(all, lines.len() as int);
    assert(all.take(lines.len() as int) =~= lines);
    assert(all.take(lines.len() as int + 1) =~= all);
    let none = Seq::<Seq<char>>::empty();
    assert(none.map_values(|line: Seq<char>| text::trimmed(line)) =~= none);
}

/// A listing of spans, one line for each.
pub open spec fn listed(refs: Seq<RecentSpanRef>) -> Seq<char>
    decreases refs.len(),
{
    if refs.len() == 0 {
        seq![]
    } else {
        listed_line(refs[0]) + seq!['\n'] + listed(refs.drop_first())
    }
}

/// The line of a span: its trace, a slash, and its id.
pub open spec fn listed_line(span: RecentSpanRef) -> Seq<char> {
    span.trace_id@ + seq!['/'] + span.span_id@
}

/// A span that can be listed: 32 hexadecimal digits name its trace, and 16
/// itself.
pub open spec fn can_be_listed(span: RecentSpanRef) -> bool {
    &&& span.trace_id@.len() == 32
    &&& span.span_id@.len() == 16
    &&& forall|i: int|
        0 <= i < span.trace_id@.len() ==> ('0' <= #[trigger] span.trace_id@[i] <= '9') || ('a'
            <= span.trace_id@[i] <= 'f') || ('A' <= span.trace_id@[i] <= 'F')
    &&& forall|i: int|
        0 <= i < span.span_id@.len() ==> ('0' <= #[trigger] span.span_id@[i] <= '9') || ('a'
            <= span.span_id@[i] <= 'f') || ('A' <= span.span_id@[i] <= 'F')
}

/// A line of printed characters stays as it is when it is trimmed.
proof fn lemma_printed_line(line: Seq<char>)
    requires
        line.len() > 0,
        forall|i: int| 0 <= i < line.len() ==> '!' <= #[trigger] line[i] <= '~',
    ensures
        text::trimmed(line) == line,
{
    let last = line.len() - 1;
    let cut = text::trimming_takes_the_outer_whitespace(line);
    text::printed_characters_are_no_whitespace(line[0]);
    text::printed_characters_are_no_whitespace(line[last]);
    assert(cut.0 == 0 && cut.1 == line.len());
    assert(line.subrange(0, line.len() as int) =~= line);
}

/// The line of a span has no blank and no line feed.
proof fn lemma_listed_line(span: RecentSpanRef)
    requires
        can_be_listed(span),
    ensures
        !listed_line(span).contains('\n'),
        listed_line(span).len() == 49,
        listed_line(span).last() != '\r',
        text::trimmed(listed_line(span)) == listed_line(span),
{
    let trace = span.trace_id@;
    let own = span.span_id@;
    let line = listed_line(span);
    assert(line == trace + seq!['/'] + own);
    assert(line.len() == 49);
    assert forall|i: int| 0 <= i < 49 implies '!' <= #[trigger] line[i] <= '~' by {
        if i < 32 {
            assert(line[i] == trace[i]);
        } else if i == 32 {
            assert(line[i] == '/');
        } else {
            assert(line[i] == own[i - 33]);
        }
    }
    lemma_printed_line(line);
}

/// The lines of a written listing are the lines of its spans.
proof fn lemma_listed(refs: Seq<RecentSpanRef>)
    requires
        forall|i: int| 0 <= i < refs.len() ==> can_be_listed(#[trigger] refs[i]),
    ensures
        text::lines_of(listed(refs)) == refs.map_values(|span: RecentSpanRef| listed_line(span)),
    decreases refs.len(),
{
    let lines = refs.map_values(|span: RecentSpanRef| listed_line(span));
    if refs.len() == 0 {
        text::lines_end_at_their_feed(seq![], seq![]);
        assert(text::lines_of(listed(refs)) =~= lines);
    } else {
        let rest = refs.drop_first();
        assert forall|i: int| 0 <= i < rest.len() implies can_be_listed(#[trigger] rest[i]) by {
            assert(rest[i] == refs[i + 1]);
        }
        lemma_listed(rest);
        assert(can_be_listed(refs[0]));
        lemma_listed_line(refs[0]);
        text::lines_end_at_their_feed(listed_line(refs[0]), listed(rest));
        assert(lines =~= seq![listed_line(refs[0])] + rest.map_values(
            |span: RecentSpanRef| listed_line(span),
        ));
    }
}

/// Lines that are filled and trimmed are all kept.
proof fn lemma_all_filled(lines: Seq<Seq<char>>)
    requires
        forall|i: int|
            0 <= i < lines.len() ==> (#[trigger] lines[i]).len() > 0 && text::trimmed(lines[i])
                == lines[i],
    ensures
        filled_lines(lines) == lines,
    decreases lines.len(),
{
    blank_lines_do_not_count(seq![], seq![]);
    if lines.len() == 0 {
        assert(lines =~= Seq::<Seq<char>>::empty());
        assert(filled_lines(lines) =~= lines);
    } else {
        let before = lines.drop_last();
        assert forall|i: int| 0 <= i < before.len() implies (#[trigger] before[i]).len() > 0
            && text::trimmed(before[i]) == before[i] by {
            assert(before[i] == lines[i]);
        }
        lemma_all_filled(before);
        assert(lines[lines.len() - 1].len() > 0);
        blank_lines_do_not_count(before, lines.last());
        assert(before.push(lines.last()) =~= lines);
    }
}

/// What was listed is read back, span by span and in order; of a longer listing
/// the first sixteen are fetched.
pub proof fn listed_spans_are_read_back(
    refs: Seq<RecentSpanRef>,
    bytes: &[u8],
    parsed: Result<Vec<RecentSpanRef>, ObserveFetchError>,
    fetched: Result<Vec<RecentSpanRef>, ObserveFetchError>,
    i: int,
)
    requires
        forall|k: int| 0 <= k < refs.len() ==> can_be_listed(#[trigger] refs[k]),
        vstd::utf8::valid_utf8(bytes@),
        vstd::utf8::decode_utf8(bytes@) == listed(refs),
        call_ensures(parse_recent_listing, (bytes,), parsed),
        call_ensures(spans_to_fetch, (Some(bytes),), fetched),
    ensures
        parsed matches Ok(read) && {
            &&& read@.len() == refs.len()
            &&& 0 <= i < refs.len() ==> read@[i].trace_id@ == refs[i].trace_id@
                && read@[i].span_id@ == refs[i].span_id@
        },
        fetched matches Ok(read) && {
            &&& read@.len() == (if refs.len() > 16 {
                16
            } else {
                refs.len()
            })
            &&& 0 <= i < read@.len() ==> read@[i].trace_id@ == refs[i].trace_id@
                && read@[i].span_id@ == refs[i].span_id@
        },
{
    let lines = refs.map_values(|span: RecentSpanRef| listed_line(span));
    lemma_listed(refs);
    assert forall|k: int| 0 <= k < lines.len() implies (#[trigger] lines[k]).len() > 0
        && text::trimmed(lines[k]) == lines[k] by {
        assert(can_be_listed(refs[k]));
        lemma_listed_line(refs[k]);
    }
    lemma_all_filled(lines);
    assert(listing_lines(bytes@) == lines);
    assert forall|k: int| 0 <= k < lines.len() implies is_span_line(#[trigger] lines[k]) by {
        assert(can_be_listed(refs[k]));
        span_lines_name_trace_and_span(refs[k].trace_id@, refs[k].span_id@);
    }
    assert(is_listing(bytes@));
    if 0 <= i < refs.len() {
        assert(can_be_listed(refs[i]));
        span_lines_name_trace_and_span(refs[i].trace_id@, refs[i].span_id@);
        let read = (parsed->Ok_0)@;
        assert(read[i].trace_id@ == head_of(lines[i]));
        let kept = (fetched->Ok_0)@;
        if i < kept.len() {
            assert(lines.take(16)[i] == lines[i] || lines.len() <= 16);
            assert(kept[i].trace_id@ == head_of(lines[i]));
        }
    }
}

/// Without content there is nothing to fetch; content that is no listing is
/// refused.
pub proof fn missing_listings_are_empty(
    content: Option<&[u8]>,
    fetched: Result<Vec<RecentSpanRef>, ObserveFetchError>,
)
    requires
        call_ensures(spans_to_fetch, (content,), fetched),
    ensures
        content is None ==> (fetched matches Ok(read) && read@.len() == 0),
        content matches Some(bytes) ==> !vstd::utf8::valid_utf8(bytes@) ==> fetched
            == Err::<Vec<RecentSpanRef>, ObserveFetchError>(ObserveFetchError::MalformedRecent),
        fetched matches Ok(read) ==> read@.len() <= 16,
{
}

} // verus!
