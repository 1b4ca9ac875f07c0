//! The framing of the session messages that the windows of the application
//! send one another: the receiver reads the connection to its end, and keeps
//! the text of each line that is valid UTF-8, joined without line breaks.
use vstd::prelude::*;
use vstd::utf8::*;

verus! {

/// The line feed byte.
pub const LINE_FEED: u8 = 0x0a;

/// The carriage return byte.
pub const CARRIAGE_RETURN: u8 = 0x0d;

/// The index of the first line feed at or after `from`, or the length of
/// `data` when there is none.
pub open spec fn next_line_feed(data: Seq<u8>, from: int) -> int
    decreases data.len() - from,
{
    if from >= data.len() {
        data.len() as int
    } else if data[from] == LINE_FEED {
        from
    } else {
        next_line_feed(data, from + 1)
    }
}

/// The text of the line that starts at `from` and ends at `end` (a line feed,
/// or the end of the data): a carriage return just before a line feed is not
/// part of it.
pub open spec fn line_text(data: Seq<u8>, from: int, end: int) -> Seq<u8> {
    if end < data.len() && from < end && data[end - 1] == CARRIAGE_RETURN {
        data.subrange(from, end - 1)
    } else {
        data.subrange(from, end)
    }
}

/// The message carried by `data` from `from` on: the text of each line whose
/// bytes are valid UTF-8, in order and with nothing between them; a line that
/// is not valid UTF-8 is left out.
pub open spec fn message_from(data: Seq<u8>, from: int) -> Seq<u8>
    decreases data.len() - from,
{
    if from < 0 || from >= data.len() {
        Seq::empty()
    } else {
        proof {
            lemma_next_line_feed_bounds(data, from);
        }
        let end = next_line_feed(data, from);
        let kept = if valid_utf8(data.subrange(from, end)) {
            line_text(data, from, end)
        } else {
            Seq::empty()
        };
        if end < data.len() {
            kept + message_from(data, end + 1)
        } else {
            kept
        }
    }
}

/// The line feed found from `from` lies between `from` and the end.
pub proof fn lemma_next_line_feed_bounds(data: Seq<u8>, from: int)
    requires
        0 <= from <= data.len(),
    ensures
        from <= next_line_feed(data, from) <= data.len(),
        next_line_feed(data, from) < data.len() ==> data[next_line_feed(data, from)] == LINE_FEED,
    decreases data.len() - from,
{
    if from < data.len() && data[from] != LINE_FEED {
        lemma_next_line_feed_bounds(data, from + 1);
    }
}


/// With no line feed from `from` on, the line runs to the end.
proof fn lemma_no_line_feed(data: Seq<u8>, from: int)
    requires
        0 <= from <= data.len(),
        forall|i: int| from <= i < data.len() ==> data[i] != LINE_FEED,
    ensures
        next_line_feed(data, from) == data.len(),
    decreases data.len() - from,
{
    if from < data.len() {
        lemma_no_line_feed(data, from + 1);
    }
}

/// A message of one line that is valid UTF-8 arrives as it was sent: the
/// receiver's message is the sender's bytes.
pub proof fn lemma_single_line_round_trip(sent: Seq<u8>)
    requires
        valid_utf8(sent),
        forall|i: int| 0 <= i < sent.len() ==> sent[i] != LINE_FEED,
    ensures
        message_from(sent, 0) == sent,
{
    if sent.len() > 0 {
        lemma_no_line_feed(sent, 0);
        assert(sent.subrange(0, sent.len() as int) =~= sent);
    } else {
        assert(message_from(sent, 0) =~= sent);
    }
}

/// No byte before the line feed found from `from` is a line feed.
proof fn lemma_before_line_feed(data: Seq<u8>, from: int, i: int)
    requires
        0 <= from <= i < next_line_feed(data, from),
        from <= data.len(),
    ensures
        data[i] != LINE_FEED,
    decreases data.len() - from,
{
    if from < data.len() && data[from] != LINE_FEED && i > from {
        lemma_before_line_feed(data, from + 1, i);
    }
}

/// The line kept from `from` is valid UTF-8 and holds no line feed.
proof fn lemma_kept_line(data: Seq<u8>, from: int)
    requires
        0 <= from < data.len(),
        valid_utf8(data.subrange(from, next_line_feed(data, from))),
    ensures
        valid_utf8(line_text(data, from, next_line_feed(data, from))),
        forall|j: int|
            0 <= j < line_text(data, from, next_line_feed(data, from)).len() ==> line_text(
                data,
                from,
                next_line_feed(data, from),
            )[j] != LINE_FEED,
{
    let end = next_line_feed(data, from);
    lemma_next_line_feed_bounds(data, from);
    let raw = data.subrange(from, end);
    let text = line_text(data, from, end);
    if end < data.len() && from < end && data[end - 1] == CARRIAGE_RETURN {
        // A carriage return is no continuation byte, so a scalar starts there.
        is_char_boundary_iff_not_is_continuation_byte(raw, raw.len() - 1);
        valid_utf8_split(raw, raw.len() - 1);
        assert(raw.subrange(0, raw.len() - 1) =~= text);
    }
    assert forall|j: int| 0 <= j < text.len() implies text[j] != LINE_FEED by {
        lemma_before_line_feed(data, from, from + j);
    }
}

/// The message carried by any data, from any point on, is valid UTF-8 and
/// holds no line feed.
pub proof fn lemma_message_well_formed(data: Seq<u8>, from: int)
    requires
        0 <= from,
    ensures
        valid_utf8(message_from(data, from)),
        forall|i: int|
            0 <= i < message_from(data, from).len() ==> message_from(data, from)[i] != LINE_FEED,
    decreases data.len() - from,
{
    if from < data.len() {
        lemma_next_line_feed_bounds(data, from);
        let end = next_line_feed(data, from);
        let kept = if valid_utf8(data.subrange(from, end)) {
            line_text(data, from, end)
        } else {
            Seq::empty()
        };
        if valid_utf8(data.subrange(from, end)) {
            lemma_kept_line(data, from);
        }
        let rest = if end < data.len() {
            message_from(data, end + 1)
        } else {
            Seq::empty()
        };
        if end < data.len() {
            lemma_message_well_formed(data, end + 1);
        }
        assert(message_from(data, from) == kept + rest);
        valid_utf8_concat(kept, rest);
        assert forall|i: int| 0 <= i < (kept + rest).len() implies (kept + rest)[i] != LINE_FEED by {
            if i >= kept.len() {
                assert((kept + rest)[i] == rest[i - kept.len()]);
            }
        }
    }
}

/// Assembling an assembled message again gives it back.
pub proof fn lemma_message_stable(data: Seq<u8>)
    ensures
        message_from(message_from(data, 0), 0) == message_from(data, 0),
{
    lemma_message_well_formed(data, 0);
    lemma_single_line_round_trip(message_from(data, 0));
}

/// A line break: a line feed, preceded by a carriage return when `crlf`.
pub open spec fn line_break(crlf: bool) -> Seq<u8> {
    if crlf {
        seq![CARRIAGE_RETURN, LINE_FEED]
    } else {
        seq![LINE_FEED]
    }
}

/// The lines written one after another, the `i`th break after the `i`th
/// line being a CR LF when `crlf[i]` and a lone LF otherwise; the last line
/// has no break after it.
pub open spec fn join_lines(lines: Seq<Seq<u8>>, crlf: Seq<bool>) -> Seq<u8>
    decreases lines.len(),
{
    if lines.len() <= 1 {
        if lines.len() == 0 {
            Seq::empty()
        } else {
            lines[0]
        }
    } else {
        lines[0] + line_break(crlf[0]) + join_lines(lines.drop_first(), crlf.drop_first())
    }
}

/// The lines written one after another with nothing between them.
pub open spec fn concat_all(lines: Seq<Seq<u8>>) -> Seq<u8>
    decreases lines.len(),
{
    if lines.len() == 0 {
        Seq::empty()
    } else {
        lines[0] + concat_all(lines.drop_first())
    }
}

/// Lines that can be broken anywhere between them: each is valid UTF-8 and
/// holds no line feed, and one followed by a lone LF does not end in a
/// carriage return (which would make the pair a CR LF).
pub open spec fn breakable_lines(lines: Seq<Seq<u8>>, crlf: Seq<bool>) -> bool {
    &&& crlf.len() + 1 == lines.len()
    &&& forall|i: int| 0 <= i < lines.len() ==> valid_utf8(#[trigger] lines[i])
    &&& forall|i: int, j: int|
        0 <= i < lines.len() && 0 <= j < lines[i].len() ==> #[trigger] lines[i][j] != LINE_FEED
    &&& forall|i: int|
        0 <= i < crlf.len() && !#[trigger] crlf[i] && lines[i].len() > 0 ==> lines[i].last()
            != CARRIAGE_RETURN
}

/// Searching for a line feed in data after a prefix is searching in the data.
proof fn lemma_next_line_feed_shift(prefix: Seq<u8>, rest: Seq<u8>, k: int)
    requires
        0 <= k <= rest.len(),
    ensures
        next_line_feed(prefix + rest, prefix.len() + k) == prefix.len() + next_line_feed(rest, k),
    decreases rest.len() - k,
{
    if k < rest.len() {
        assert((prefix + rest)[prefix.len() + k] == rest[k]);
        if rest[k] != LINE_FEED {
            lemma_next_line_feed_shift(prefix, rest, k + 1);
        }
    }
}

/// The message after a prefix is the message of what follows the prefix.
pub proof fn lemma_message_shift(prefix: Seq<u8>, rest: Seq<u8>, k: int)
    requires
        0 <= k,
    ensures
        message_from(prefix + rest, prefix.len() + k) == message_from(rest, k),
    decreases rest.len() - k,
{
    let data = prefix + rest;
    let p = prefix.len() as int;
    if k < rest.len() {
        lemma_next_line_feed_shift(prefix, rest, k);
        lemma_next_line_feed_bounds(rest, k);
        let end = next_line_feed(rest, k);
        assert(data.subrange(p + k, p + end) =~= rest.subrange(k, end));
        if end < rest.len() && k < end {
            assert(data[p + end - 1] == rest[end - 1]);
            assert(data.subrange(p + k, p + end - 1) =~= rest.subrange(k, end - 1));
        }
        assert(line_text(data, p + k, p + end) == line_text(rest, k, end));
        if end < rest.len() {
            lemma_message_shift(prefix, rest, end + 1);
        }
    }
}

/// Lines broken by line feeds, or by CR LF pairs, assemble into the lines
/// joined without breaks: where a sender breaks its message into lines does
/// not change what the receiver assembles.
pub proof fn lemma_line_breaks_vanish(lines: Seq<Seq<u8>>, crlf: Seq<bool>)
    requires
        breakable_lines(lines, crlf),
    ensures
        message_from(join_lines(lines, crlf), 0) == concat_all(lines),
    decreases lines.len(),
{
    let l0 = lines[0];
    if lines.len() == 1 {
        assert(concat_all(lines.drop_first()) =~= Seq::<u8>::empty());
        assert(concat_all(lines) =~= l0);
        assert forall|i: int| 0 <= i < l0.len() implies l0[i] != LINE_FEED by {
            assert(lines[0][i] != LINE_FEED);
        }
        lemma_single_line_round_trip(l0);
    } else {
        let rest_lines = lines.drop_first();
        let rest_crlf = crlf.drop_first();
        assert(breakable_lines(rest_lines, rest_crlf)) by {
            assert forall|i: int| 0 <= i < rest_lines.len() implies valid_utf8(
                #[trigger] rest_lines[i],
            ) by {
                assert(rest_lines[i] == lines[i + 1]);
            }
            assert forall|i: int, j: int|
                0 <= i < rest_lines.len() && 0 <= j < rest_lines[i].len() implies #[trigger] rest_lines[i][j]
                != LINE_FEED by {
                assert(rest_lines[i] == lines[i + 1]);
                assert(lines[i + 1][j] != LINE_FEED);
            }
            assert forall|i: int|
                0 <= i < rest_crlf.len() && !#[trigger] rest_crlf[i] && rest_lines[i].len()
                    > 0 implies rest_lines[i].last() != CARRIAGE_RETURN by {
                assert(rest_lines[i] == lines[i + 1]);
                assert(rest_crlf[i] == crlf[i + 1]);
            }
        }
        lemma_line_breaks_vanish(rest_lines, rest_crlf);
        let tail = join_lines(rest_lines, rest_crlf);
        let brk = line_break(crlf[0]);
        let head = l0 + brk;
        let data = join_lines(lines, crlf);
        assert(data =~= head + tail);
        // The first line ends at the line feed that closes its break.
        let nl = head.len() - 1;
        assert forall|i: int| 0 <= i < l0.len() implies data[i] != LINE_FEED by {
            assert(data[i] == l0[i]);
            assert(lines[0][i] != LINE_FEED);
        }
        assert(data[nl] == LINE_FEED);
        assert forall|i: int| 0 <= i < nl implies data[i] != LINE_FEED by {
            if i >= l0.len() {
                assert(data[i] == CARRIAGE_RETURN);
            }
        }
        assert(next_line_feed(data, 0) == nl) by {
            lemma_next_line_feed_bounds(data, 0);
            if next_line_feed(data, 0) < nl {
                assert(data[next_line_feed(data, 0)] == LINE_FEED);
            }
            if next_line_feed(data, 0) > nl {
                lemma_before_line_feed(data, 0, nl);
            }
        }
        let raw = data.subrange(0, nl);
        if crlf[0] {
            assert(raw =~= l0 + seq![CARRIAGE_RETURN]);
            assert(valid_utf8(seq![CARRIAGE_RETURN])) by {
                let cr = seq![CARRIAGE_RETURN];
                assert(cr[0] == CARRIAGE_RETURN);
                assert((CARRIAGE_RETURN & 0x7f) as u32 == 0x0d) by (bit_vector);
                assert(valid_first_scalar(cr));
                assert(pop_first_scalar(cr) =~= Seq::<u8>::empty());
                assert(valid_utf8(Seq::<u8>::empty()));
            }
            valid_utf8_concat(l0, seq![CARRIAGE_RETURN]);
            assert(line_text(data, 0, nl) =~= l0);
        } else {
            assert(raw =~= l0);
            if l0.len() > 0 {
                assert(data[nl - 1] == l0.last());
            }
            assert(line_text(data, 0, nl) =~= l0);
        }
        lemma_message_shift(head, tail, 0);
        assert(message_from(data, 0) == l0 + message_from(tail, 0));
    }
}

/// The length of the UTF-8 encoding of one scalar that begins at `i` and ends
/// before `to`, or 0 when no valid encoding begins there.
fn first_scalar_width(data: &[u8], i: usize, to: usize) -> (w: usize)
    requires
        i < to <= data@.len(),
    ensures
        w == 0 <==> !valid_first_scalar(data@.subrange(i as int, to as int)),
        w != 0 ==> w == length_of_first_scalar(data@.subrange(i as int, to as int)),
        w <= to - i,
{
    let ghost s = data@.subrange(i as int, to as int);
    let n = to - i;
    let b0 = data[i];
    assert(s[0] == b0);
    if b0 <= 0x7f {
        1
    } else if 0xc0 <= b0 && b0 <= 0xdf {
        if n < 2 {
            return 0;
        }
        let b1 = data[i + 1];
        assert(s[1] == b1);
        if !(0x80 <= b1 && b1 <= 0xbf) {
            return 0;
        }
        let cp: u32 = (((b0 & 0x1F) as u32) << 6) | ((b1 & 0x3f) as u32);
        assert(cp == decode_first_codepoint(s));
        if cp < 0x80 || (0xD800 <= cp && cp <= 0xDFFF) {
            0
        } else {
            2
        }
    } else if 0xe0 <= b0 && b0 <= 0xef {
        if n < 3 {
            return 0;
        }
        let b1 = data[i + 1];
        let b2 = data[i + 2];
        assert(s[1] == b1 && s[2] == b2);
        if !(0x80 <= b1 && b1 <= 0xbf && 0x80 <= b2 && b2 <= 0xbf) {
            return 0;
        }
        let cp: u32 = (((b0 & 0x0F) as u32) << 12) | (((b1 & 0x3f) as u32) << 6) | ((b2
            & 0x3f) as u32);
        assert(cp == decode_first_codepoint(s));
        if cp < 0x800 || (0xD800 <= cp && cp <= 0xDFFF) {
            0
        } else {
            3
        }
    } else if 0xf0 <= b0 && b0 <= 0xf7 {
        if n < 4 {
            return 0;
        }
        let b1 = data[i + 1];
        let b2 = data[i + 2];
        let b3 = data[i + 3];
        assert(s[1] == b1 && s[2] == b2 && s[3] == b3);
        if !(0x80 <= b1 && b1 <= 0xbf && 0x80 <= b2 && b2 <= 0xbf && 0x80 <= b3 && b3 <= 0xbf) {
            return 0;
        }
        let cp: u32 = (((b0 & 0x07) as u32) << 18) | (((b1 & 0x3f) as u32) << 12) | (((b2
            & 0x3f) as u32) << 6) | ((b3 & 0x3f) as u32);
        assert(cp == decode_first_codepoint(s));
        if cp < 0x10000 || cp > 0x10ffff || (0xD800 <= cp && cp <= 0xDFFF) {
            0
        } else {
            4
        }
    } else {
        0
    }
}

/// Whether the bytes of `data` from `from` up to `to` are valid UTF-8.
pub fn is_valid_utf8(data: &[u8], from: usize, to: usize) -> (valid: bool)
    requires
        from <= to <= data@.len(),
    ensures
        valid == valid_utf8(data@.subrange(from as int, to as int)),
{
    let mut i = from;
    while i < to
        invariant
            from <= i <= to <= data@.len(),
            valid_utf8(data@.subrange(from as int, to as int)) == valid_utf8(
                data@.subrange(i as int, to as int),
            ),
        decreases to - i,
    {
        let ghost s = data@.subrange(i as int, to as int);
        let w = first_scalar_width(data, i, to);
        if w == 0 {
            return false;
        }
        assert(pop_first_scalar(s) =~= data@.subrange(i + w, to as int));
        i = i + w;
    }
    assert(data@.subrange(i as int, to as int).len() == 0);
    true
}


/// The message that another window sent, from all the bytes read from the
/// connection: the text of each line that is valid UTF-8, joined without
/// line breaks. The result is valid UTF-8 and holds no line feed.
pub fn assemble_message(data: &[u8]) -> (message: Vec<u8>)
    ensures
        message@ == message_from(data@, 0),
        valid_utf8(message@),
        forall|i: int| 0 <= i < message@.len() ==> message@[i] != LINE_FEED,
{
    proof {
        lemma_message_well_formed(data@, 0);
    }
    let len = data.len();
    let mut out: Vec<u8> = Vec::new();
    let mut pos: usize = 0;
    assert(out@ + message_from(data@, 0) =~= message_from(data@, 0));
    while pos < len
        invariant
            len == data@.len(),
            pos <= len,
            out@ + message_from(data@, pos as int) == message_from(data@, 0),
        decreases len - pos,
    {
        let mut end = pos;
        while end < len && data[end] != LINE_FEED
            invariant
                len == data@.len(),
                pos <= end <= len,
                next_line_feed(data@, pos as int) == next_line_feed(data@, end as int),
            decreases len - end,
        {
            end = end + 1;
        }
        assert(next_line_feed(data@, end as int) == end);
        let ghost before = out@;
        let ghost kept: Seq<u8> = if valid_utf8(data@.subrange(pos as int, end as int)) {
            line_text(data@, pos as int, end as int)
        } else {
            Seq::empty()
        };
        if is_valid_utf8(data, pos, end) {
            let text_end = if end < len && pos < end && data[end - 1] == CARRIAGE_RETURN {
                end - 1
            } else {
                end
            };
            assert(kept =~= data@.subrange(pos as int, text_end as int));
            let mut k = pos;
            while k < text_end
                invariant
                    len == data@.len(),
                    pos <= k <= text_end <= end <= len,
                    out@ == before + data@.subrange(pos as int, k as int),
                decreases text_end - k,
            {
                out.push(data[k]);
                assert(data@.subrange(pos as int, k + 1) =~= data@.subrange(pos as int, k as int).push(
                    data@[k as int],
                ));
                k = k + 1;
            }
        }
        assert(out@ =~= before + kept);
        if end < len {
            assert(message_from(data@, pos as int) == kept + message_from(data@, end + 1));
            assert(out@ + message_from(data@, end + 1) =~= before + message_from(data@, pos as int));
            pos = end + 1;
        } else {
            assert(message_from(data@, pos as int) == kept);
            assert(message_from(data@, len as int) =~= Seq::<u8>::empty());
            assert(out@ + message_from(data@, len as int) =~= before + message_from(data@, pos as int));
            pos = len;
        }
    }
    assert(message_from(data@, pos as int) =~= Seq::<u8>::empty());
    assert(out@ =~= out@ + message_from(data@, pos as int));
    out
}

} // verus!
