//! Reading a streamed answer: the body arrives in chunks, is cut into lines
//! at each newline, and each line is a server-sent event whose `data:` field
//! holds either a JSON event, or `[DONE]` at the end.
use vstd::prelude::*;

use vstd::utf8::{
    decode_first_scalar, decode_utf8, length_of_first_scalar, pop_first_scalar, valid_utf8,
    valid_utf8_concat,
};
use crate::text::{
    lemma_trim_end_char_take, opt_view,
    chars_of, same_text, strip_prefix, string_of_range, trim, trim_end_char,
    trim_end_matches, trim_seq,
};

verus! {

broadcast use vstd::string::group_string_axioms;

/// The text of a stream event's delta.
pub struct StreamDelta {
    pub content: Option<String>,
}

/// One choice of a stream event.
pub struct StreamChoice {
    pub delta: StreamDelta,
}

/// A stream event.
pub struct StreamResponse {
    pub choices: Vec<StreamChoice>,
}

/// `s` cut at each newline, as `str::split('\n')` cuts it: the pieces
/// between newlines, then the piece after the last one (possibly empty).
pub open spec fn segments(s: Seq<char>) -> Seq<Seq<char>>
    decreases s.len(),
{
    if s.len() == 0 {
        seq![Seq::empty()]
    } else {
        extend_segments(segments(s.drop_last()), s.last())
    }
}

/// The pieces after `c` is appended to the text that `segs` cut.
pub open spec fn extend_segments(segs: Seq<Seq<char>>, c: char) -> Seq<Seq<char>> {
    if c == '\n' {
        segs.push(Seq::empty())
    } else {
        segs.update(segs.len() - 1, segs.last().push(c))
    }
}

/// The complete lines, newline excluded, in `buffer + chunk`.
pub open spec fn raw_lines(buffer: Seq<char>, chunk: Seq<char>) -> Seq<Seq<char>> {
    segments(buffer + chunk).drop_last()
}

/// What is left after the last newline of `buffer + chunk`.
pub open spec fn rest_after(buffer: Seq<char>, chunk: Seq<char>) -> Seq<char> {
    segments(buffer + chunk).last()
}

/// A line of the stream as it is handed out: carriage returns at its end removed.
pub open spec fn clean_line(raw: Seq<char>) -> Seq<char> {
    trim_end_char(raw, '\r')
}

/// Whether `s` holds no newline.
pub open spec fn no_newline(s: Seq<char>) -> bool {
    forall|i: int| 0 <= i < s.len() ==> s[i] != '\n'
}

/// The segments of any text are never none.
pub proof fn lemma_segments_nonempty(s: Seq<char>)
    ensures
        segments(s).len() >= 1,
    decreases s.len(),
{
    if s.len() > 0 {
        lemma_segments_nonempty(s.drop_last());
    }
}

/// Text without a newline is one segment.
pub proof fn lemma_segments_single(s: Seq<char>)
    requires
        no_newline(s),
    ensures
        segments(s) == seq![s],
    decreases s.len(),
{
    if s.len() > 0 {
        assert(no_newline(s.drop_last()));
        lemma_segments_single(s.drop_last());
        assert(s[s.len() - 1] != '\n');
        assert(s.drop_last().push(s.last()) == s);
        assert(seq![s.drop_last()].update(0, s.drop_last().push(s.last())) == seq![s]);
    } else {
        assert(s == Seq::<char>::empty());
    }
}

/// The last segment holds no newline.
pub proof fn lemma_last_segment(s: Seq<char>)
    ensures
        no_newline(segments(s).last()),
    decreases s.len(),
{
    lemma_segments_nonempty(s);
    if s.len() > 0 {
        lemma_last_segment(s.drop_last());
        lemma_segments_nonempty(s.drop_last());
    }
}

/// Cutting `x + y` cuts `x` first, then goes on from its last segment.
pub proof fn lemma_segments_append(x: Seq<char>, y: Seq<char>)
    ensures
        segments(x + y) == segments(x).drop_last() + segments(segments(x).last() + y),
    decreases y.len(),
{
    lemma_segments_nonempty(x);
    let d = segments(x).drop_last();
    let l = segments(x).last();
    if y.len() == 0 {
        assert(x + y == x);
        assert(l + y == l);
        lemma_last_segment(x);
        lemma_segments_single(l);
        assert(d + seq![l] == segments(x));
    } else {
        let y0 = y.drop_last();
        let c = y.last();
        lemma_segments_append(x, y0);
        assert((x + y).drop_last() == x + y0);
        assert((x + y).last() == c);
        assert((l + y).drop_last() == l + y0);
        assert((l + y).last() == c);
        lemma_segments_nonempty(l + y0);
        let t = segments(l + y0);
        assert(extend_segments(d + t, c) == d + extend_segments(t, c));
    }
}

/// Putting back a newline after each complete line, then the rest, gives
/// back exactly the text that was cut; no line and not the rest holds a newline.
pub proof fn law_lines_rebuild_text(buffer: Seq<char>, chunk: Seq<char>)
    ensures
        concat_all(raw_lines(buffer, chunk).map_values(|l: Seq<char>| l.push('\n'))) + rest_after(
            buffer,
            chunk,
        ) == buffer + chunk,
        forall|i: int|
            0 <= i < raw_lines(buffer, chunk).len() ==> no_newline(
                #[trigger] raw_lines(buffer, chunk)[i],
            ),
        no_newline(rest_after(buffer, chunk)),
{
    lemma_segments_rebuild(buffer + chunk);
}

proof fn lemma_segments_rebuild(s: Seq<char>)
    ensures
        segments(s).len() >= 1,
        concat_all(segments(s).drop_last().map_values(|l: Seq<char>| l.push('\n')))
            + segments(s).last() == s,
        forall|i: int| 0 <= i < segments(s).len() ==> no_newline(#[trigger] segments(s)[i]),
    decreases s.len(),
{
    lemma_segments_nonempty(s);
    if s.len() == 0 {
        assert(segments(s).drop_last() == Seq::<Seq<char>>::empty());
        assert(concat_all(Seq::<Seq<char>>::empty()) == Seq::<char>::empty());
        assert(Seq::<char>::empty() + Seq::<char>::empty() == s);
        assert(no_newline(segments(s)[0]));
    } else {
        let front = s.drop_last();
        let c = s.last();
        lemma_segments_rebuild(front);
        let segs = segments(front);
        let f = |l: Seq<char>| l.push('\n');
        assert(s == front.push(c));
        if c == '\n' {
            assert(segments(s) == segs.push(Seq::<char>::empty()));
            assert(segments(s).drop_last() == segs);
            assert(segs.map_values(f).drop_last() == segs.drop_last().map_values(f));
            assert(segs.map_values(f).last() == segs.last().push('\n'));
            assert(concat_all(segs.map_values(f)) == concat_all(segs.drop_last().map_values(f))
                + segs.last().push('\n'));
            assert(concat_all(segs.map_values(f)) + Seq::<char>::empty() == s);
            assert forall|i: int| 0 <= i < segments(s).len() implies no_newline(
                #[trigger] segments(s)[i],
            ) by {
                if i < segs.len() {
                    assert(segments(s)[i] == segs[i]);
                }
            }
        } else {
            let last = segs.last().push(c);
            assert(segments(s) == segs.update(segs.len() - 1, last));
            assert(segments(s).drop_last() == segs.drop_last());
            assert(segments(s).last() == last);
            assert(concat_all(segs.drop_last().map_values(f)) + last == s);
            assert forall|i: int| 0 <= i < segments(s).len() implies no_newline(
                #[trigger] segments(s)[i],
            ) by {
                if i < segs.len() - 1 {
                    assert(segments(s)[i] == segs[i]);
                } else {
                    assert(no_newline(segs.last()));
                    assert forall|j: int| 0 <= j < last.len() implies last[j] != '\n' by {
                        if j < segs.last().len() {
                            assert(last[j] == segs.last()[j]);
                        }
                    }
                }
            }
        }
    }
}

/// A handed-out line is its raw line with the trailing carriage returns
/// removed and nothing else: a prefix of it, followed there only by `\r`,
/// and not itself ending in `\r`.
pub proof fn law_clean_line(raw: Seq<char>)
    ensures
        exists|hi: int|
            {
                &&& 0 <= hi <= raw.len()
                &&& clean_line(raw) == raw.take(hi)
                &&& forall|i: int| hi <= i < raw.len() ==> #[trigger] raw[i] == '\r'
            },
        clean_line(raw).len() > 0 ==> clean_line(raw).last() != '\r',
{
    let hi = lemma_trim_end_char_take(raw, '\r');
    assert(clean_line(raw) == raw.take(hi));
}

/// Feeding a chunk in two parts hands out the same lines, in the same order,
/// and leaves the same rest as feeding it whole.
pub proof fn law_chunking_does_not_matter(buffer: Seq<char>, a: Seq<char>, b: Seq<char>)
    ensures
        raw_lines(buffer, a + b) == raw_lines(buffer, a) + raw_lines(rest_after(buffer, a), b),
        rest_after(buffer, a + b) == rest_after(rest_after(buffer, a), b),
{
    let x = buffer + a;
    assert(buffer + (a + b) == x + b);
    lemma_segments_append(x, b);
    lemma_segments_nonempty(segments(x).last() + b);
}

/// The text that `String::from_utf8_lossy` makes of `bytes`.
pub uninterp spec fn lossy_utf8(bytes: Seq<u8>) -> Seq<char>;

/// Calls `String::from_utf8_lossy`: the bytes decoded as UTF-8, with U+FFFD
/// in place of each invalid sequence. Stated: the result is the named
/// decoding of the bytes, and valid UTF-8 decodes to the text it encodes.
/// Not stated: where replacement characters go in invalid input.
#[verifier::external_body]
fn decode_lossy(bytes: &[u8]) -> (s: String)
    ensures
        s@ == lossy_utf8(bytes@),
        valid_utf8(bytes@) ==> s@ == decode_utf8(bytes@),
{
    String::from_utf8_lossy(bytes).into_owned()
}

/// Two valid UTF-8 byte sequences put together are valid and decode to the
/// two texts put together.
pub proof fn lemma_decode_concat(a: Seq<u8>, b: Seq<u8>)
    requires
        valid_utf8(a),
        valid_utf8(b),
    ensures
        valid_utf8(a + b),
        decode_utf8(a + b) == decode_utf8(a) + decode_utf8(b),
    decreases a.len(),
{
    valid_utf8_concat(a, b);
    if a.len() == 0 {
        assert(a + b == b);
        assert(decode_utf8(a) == Seq::<char>::empty());
    } else {
        let n = length_of_first_scalar(a);
        assert(1 <= n <= a.len());
        let rest = pop_first_scalar(a);
        assert(rest.len() < a.len());
        assert(valid_utf8(rest));
        lemma_decode_concat(rest, b);
        let ab = a + b;
        assert(ab[0] == a[0]);
        assert(n >= 2 ==> ab[1] == a[1]);
        assert(n >= 3 ==> ab[2] == a[2]);
        assert(n >= 4 ==> ab[3] == a[3]);
        assert(length_of_first_scalar(ab) == n);
        assert(decode_first_scalar(ab) == decode_first_scalar(a));
        assert(pop_first_scalar(ab) == rest + b);
        assert(decode_utf8(ab) == seq![decode_first_scalar(a) as char] + decode_utf8(rest + b));
        assert(decode_utf8(a) == seq![decode_first_scalar(a) as char] + decode_utf8(rest));
    }
}

/// Feeding a body in two chunks of valid UTF-8 hands out the same lines, in
/// the same order, and leaves the same rest as feeding it as one chunk.
pub proof fn law_byte_chunking_does_not_matter(buffer: Seq<char>, a: Seq<u8>, b: Seq<u8>)
    requires
        valid_utf8(a),
        valid_utf8(b),
    ensures
        valid_utf8(a + b),
        raw_lines(buffer, decode_utf8(a + b)) == raw_lines(buffer, decode_utf8(a)) + raw_lines(
            rest_after(buffer, decode_utf8(a)),
            decode_utf8(b),
        ),
        rest_after(buffer, decode_utf8(a + b)) == rest_after(
            rest_after(buffer, decode_utf8(a)),
            decode_utf8(b),
        ),
{
    lemma_decode_concat(a, b);
    law_chunking_does_not_matter(buffer, decode_utf8(a), decode_utf8(b));
}

/// The chunks put one after the other.
pub open spec fn concat_all<T>(chunks: Seq<Seq<T>>) -> Seq<T>
    decreases chunks.len(),
{
    if chunks.len() == 0 {
        Seq::empty()
    } else {
        concat_all(chunks.drop_last()) + chunks.last()
    }
}

/// The texts that byte chunks decode to.
pub open spec fn decode_all(chunks: Seq<Seq<u8>>) -> Seq<Seq<char>> {
    chunks.map_values(|c: Seq<u8>| decode_utf8(c))
}

/// The text left over after feeding `chunks` one by one, starting from `buffer`.
pub open spec fn rest_fed(buffer: Seq<char>, chunks: Seq<Seq<char>>) -> Seq<char>
    decreases chunks.len(),
{
    if chunks.len() == 0 {
        buffer
    } else {
        rest_after(rest_fed(buffer, chunks.drop_last()), chunks.last())
    }
}

/// The complete lines handed out while feeding `chunks` one by one, starting
/// from `buffer`.
pub open spec fn lines_fed(buffer: Seq<char>, chunks: Seq<Seq<char>>) -> Seq<Seq<char>>
    decreases chunks.len(),
{
    if chunks.len() == 0 {
        Seq::empty()
    } else {
        lines_fed(buffer, chunks.drop_last()) + raw_lines(
            rest_fed(buffer, chunks.drop_last()),
            chunks.last(),
        )
    }
}

/// Feeding any number of text chunks one by one hands out the same lines and
/// leaves the same rest as feeding them all as one chunk.
pub proof fn law_chunk_sequence(buffer: Seq<char>, chunks: Seq<Seq<char>>)
    requires
        no_newline(buffer),
    ensures
        lines_fed(buffer, chunks) == raw_lines(buffer, concat_all(chunks)),
        rest_fed(buffer, chunks) == rest_after(buffer, concat_all(chunks)),
    decreases chunks.len(),
{
    if chunks.len() == 0 {
        lemma_segments_single(buffer);
        assert(buffer + Seq::<char>::empty() == buffer);
    } else {
        let front = chunks.drop_last();
        law_chunk_sequence(buffer, front);
        law_chunking_does_not_matter(buffer, concat_all(front), chunks.last());
    }
}

/// Byte chunks that are each valid UTF-8, fed one by one, hand out the same
/// lines and leave the same rest as the whole body fed as one chunk.
pub proof fn law_byte_chunk_sequence(buffer: Seq<char>, chunks: Seq<Seq<u8>>)
    requires
        no_newline(buffer),
        forall|i: int| 0 <= i < chunks.len() ==> valid_utf8(#[trigger] chunks[i]),
    ensures
        valid_utf8(concat_all(chunks)),
        lines_fed(buffer, decode_all(chunks)) == raw_lines(buffer, decode_utf8(concat_all(chunks))),
        rest_fed(buffer, decode_all(chunks)) == rest_after(buffer, decode_utf8(concat_all(chunks))),
{
    lemma_decode_all(chunks);
    law_chunk_sequence(buffer, decode_all(chunks));
}

/// Valid chunks put together are valid and decode to their texts put together.
pub proof fn lemma_decode_all(chunks: Seq<Seq<u8>>)
    requires
        forall|i: int| 0 <= i < chunks.len() ==> valid_utf8(#[trigger] chunks[i]),
    ensures
        valid_utf8(concat_all(chunks)),
        decode_utf8(concat_all(chunks)) == concat_all(decode_all(chunks)),
    decreases chunks.len(),
{
    if chunks.len() == 0 {
        assert(valid_utf8(Seq::<u8>::empty()));
    } else {
        let front = chunks.drop_last();
        assert forall|i: int| 0 <= i < front.len() implies valid_utf8(#[trigger] front[i]) by {
            assert(front[i] == chunks[i]);
        }
        lemma_decode_all(front);
        assert(valid_utf8(chunks[chunks.len() - 1]));
        lemma_decode_concat(concat_all(front), chunks.last());
        assert(decode_all(chunks).drop_last() == decode_all(front));
        assert(decode_all(chunks).last() == decode_utf8(chunks.last()));
    }
}

/// Cuts the streamed body into lines.
pub struct StreamDecoder {
    buffer: Vec<char>,
}

impl View for StreamDecoder {
    type V = Seq<char>;

    /// The text received after the last newline.
    closed spec fn view(&self) -> Seq<char> {
        self.buffer@
    }
}

impl StreamDecoder {
    /// Whether the pending text holds no newline.
    pub closed spec fn wf(&self) -> bool {
        no_newline(self.buffer@)
    }

    /// A decoder that has received nothing.
    pub fn new() -> (d: StreamDecoder)
        ensures
            d.wf(),
            d@ == Seq::<char>::empty(),
    {
        StreamDecoder { buffer: Vec::new() }
    }

    /// Takes the next chunk of the body, as bytes: they are decoded as UTF-8,
    /// each invalid sequence becoming U+FFFD, and the text is fed as by `feed_text`.
    pub fn feed(&mut self, chunk: &[u8]) -> (lines: Vec<String>)
        requires
            old(self).wf(),
        ensures
            valid_utf8(chunk@) ==> lossy_utf8(chunk@) == decode_utf8(chunk@),
            final(self).wf(),
            final(self)@ == rest_after(old(self)@, lossy_utf8(chunk@)),
            lines@.len() == raw_lines(old(self)@, lossy_utf8(chunk@)).len(),
            forall|i: int|
                0 <= i < lines@.len() ==> #[trigger] lines@[i]@ == clean_line(
                    raw_lines(old(self)@, lossy_utf8(chunk@))[i],
                ),
    {
        let text = decode_lossy(chunk);
        self.feed_text(text.as_str())
    }

    /// Takes the next chunk of the body, as text, and hands out the lines
    /// that it completes, each without its newline and trailing carriage
    /// returns; the text after the last newline is kept for the next chunk.
    pub fn feed_text(&mut self, chunk: &str) -> (lines: Vec<String>)
        requires
            old(self).wf(),
        ensures
            final(self).wf(),
            final(self)@ == rest_after(old(self)@, chunk@),
            lines@.len() == raw_lines(old(self)@, chunk@).len(),
            forall|i: int|
                0 <= i < lines@.len() ==> #[trigger] lines@[i]@ == clean_line(
                    raw_lines(old(self)@, chunk@)[i],
                ),
    {
        let ghost start = self.buffer@;
        let cs = chars_of(chunk);
        let mut lines: Vec<String> = Vec::new();
        let ghost mut raw: Seq<Seq<char>> = Seq::empty();
        proof {
            lemma_segments_single(start);
            assert(start + cs@.take(0) == start);
        }
        let mut i: usize = 0;
        while i < cs.len()
            invariant
                i <= cs.len(),
                cs@ == chunk@,
                no_newline(self.buffer@),
                segments(start + cs@.take(i as int)) == raw.push(self.buffer@),
                lines@.len() == raw.len(),
                forall|k: int|
                    0 <= k < lines@.len() ==> #[trigger] lines@[k]@ == clean_line(raw[k]),
            decreases cs.len() - i,
        {
            let c = cs[i];
            let ghost before = start + cs@.take(i as int);
            assert((start + cs@.take(i + 1)).drop_last() == before);
            assert((start + cs@.take(i + 1)).last() == c);
            if c == '\n' {
                let whole = string_of_range(&self.buffer, 0, self.buffer.len());
                assert(self.buffer@.subrange(0, self.buffer@.len() as int) == self.buffer@);
                let line = trim_end_matches(whole.as_str(), '\r');
                proof {
                    raw = raw.push(self.buffer@);
                }
                lines.push(line);
                self.buffer = Vec::new();
                assert(raw.push(self.buffer@) == raw.drop_last().push(raw.last()).push(
                    Seq::empty(),
                ));
            } else {
                let ghost old_buf = self.buffer@;
                self.buffer.push(c);
                assert(raw.push(old_buf).update(raw.len() as int, old_buf.push(c)) == raw.push(
                    self.buffer@,
                ));
            }
            i = i + 1;
        }
        assert(cs@.take(cs.len() as int) == cs@);
        lines
    }

    /// What is left once the body has ended: the pending text without
    /// trailing carriage returns, unless it is only whitespace.
    pub fn finish(&self) -> (r: Option<String>)
        ensures
            trim_seq(self@).len() == 0 <==> r is None,
            r matches Some(line) ==> line@ == clean_line(self@),
    {
        let whole = string_of_range(&self.buffer, 0, self.buffer.len());
        assert(self.buffer@.subrange(0, self.buffer@.len() as int) == self.buffer@);
        let t = trim(whole.as_str());
        if t.as_str().is_empty() {
            None
        } else {
            Some(trim_end_matches(whole.as_str(), '\r'))
        }
    }
}

/// What one line of the stream means.
pub enum StreamLine {
    /// Not a `data:` line, or one with no data: skip it.
    Ignore,
    /// `data: [DONE]`: the answer is complete.
    Done,
    /// The data of an event, to be read as JSON.
    Data(String),
}

/// The data of a `data:` line, with surrounding whitespace removed.
pub open spec fn line_data(line: Seq<char>) -> Option<Seq<char>> {
    let p = "data:"@;
    if p.len() <= line.len() && line.take(p.len() as int) == p {
        Some(trim_seq(line.skip(p.len() as int)))
    } else {
        None
    }
}

/// Reads one line of the stream.
pub fn classify_stream_line(line: &str) -> (r: StreamLine)
    ensures
        line_data(line@) is None ==> r is Ignore,
        line_data(line@) matches Some(d) ==> {
            &&& d == "[DONE]"@ ==> r is Done
            &&& d.len() == 0 ==> r is Ignore
            &&& (d != "[DONE]"@ && d.len() > 0) ==> (r matches StreamLine::Data(x) && x@ == d)
        },
{
    proof {
        reveal_strlit("[DONE]");
    }
    match strip_prefix(line, "data:") {
        None => StreamLine::Ignore,
        Some(rest) => {
            let data = trim(rest.as_str());
            if same_text(data.as_str(), "[DONE]") {
                StreamLine::Done
            } else if data.as_str().is_empty() {
                StreamLine::Ignore
            } else {
                StreamLine::Data(data)
            }
        },
    }
}

/// The contents that the choices of an event carry, in order; a choice
/// without content adds none.
pub open spec fn event_contents_seq(choices: Seq<StreamChoice>) -> Seq<Seq<char>>
    decreases choices.len(),
{
    if choices.len() == 0 {
        Seq::empty()
    } else {
        let before = event_contents_seq(choices.drop_last());
        match opt_view(choices.last().delta.content) {
            Some(c) => before.push(c),
            None => before,
        }
    }
}

/// A choice adds its content exactly as received, character for character,
/// and a choice without content adds nothing.
pub proof fn law_event_contents_one(choice: StreamChoice)
    ensures
        choice.delta.content matches Some(c) ==> event_contents_seq(seq![choice]) == seq![c@],
        choice.delta.content is None ==> event_contents_seq(seq![choice]) == Seq::<Seq<char>>::empty(),
{
    let one = seq![choice];
    assert(one.drop_last() == Seq::<StreamChoice>::empty());
    assert(one.last() == choice);
    assert(event_contents_seq(one.drop_last()) == Seq::<Seq<char>>::empty());
    if let Some(c) = choice.delta.content {
        assert(Seq::<Seq<char>>::empty().push(c@) == seq![c@]);
    }
}

/// The contents of choices one after the other are the contents of the first
/// choices followed by those of the rest.
pub proof fn law_event_contents_concat(a: Seq<StreamChoice>, b: Seq<StreamChoice>)
    ensures
        event_contents_seq(a + b) == event_contents_seq(a) + event_contents_seq(b),
    decreases b.len(),
{
    if b.len() == 0 {
        assert(a + b == a);
        assert(event_contents_seq(a) + Seq::<Seq<char>>::empty() == event_contents_seq(a));
    } else {
        law_event_contents_concat(a, b.drop_last());
        assert((a + b).drop_last() == a + b.drop_last());
        assert((a + b).last() == b.last());
    }
}

/// The pieces of text that an event adds to the answer, to be written one
/// after the other: the content of each of its choices that has one, in order.
pub fn event_contents(event: &StreamResponse) -> (r: Vec<String>)
    ensures
        r@.len() == event_contents_seq(event.choices@).len(),
        forall|k: int|
            0 <= k < r@.len() ==> #[trigger] r@[k]@ == event_contents_seq(event.choices@)[k],
{
    let mut r: Vec<String> = Vec::new();
    let mut i: usize = 0;
    while i < event.choices.len()
        invariant
            i <= event.choices.len(),
            r@.len() == event_contents_seq(event.choices@.take(i as int)).len(),
            forall|k: int|
                0 <= k < r@.len() ==> #[trigger] r@[k]@ == event_contents_seq(
                    event.choices@.take(i as int),
                )[k],
        decreases event.choices.len() - i,
    {
        assert(event.choices@.take(i + 1).drop_last() == event.choices@.take(i as int));
        match &event.choices[i].delta.content {
            Some(c) => r.push(c.clone()),
            None => {},
        }
        i = i + 1;
    }
    assert(event.choices@.take(event.choices.len() as int) == event.choices@);
    r
}

} // verus!
