//! Server-sent-event framing of a streamed completion.
//!
//! A chunk of the response body is split at blank lines into frames; blank
//! frames are dropped; each remaining frame becomes a payload, its lines
//! with any leading `data: ` removed and joined. The payload `[DONE]` ends
//! the stream; any other is decoded into a completion delta, and one that
//! does not decode ends the stream too.

use vstd::prelude::*;
use crate::text::{chars_of, matches_at, occurs_at, same_text};

verus! {

/// The text of one incremental update.
#[derive(Debug)]
pub struct Delta {
    pub content: Option<String>,
    pub role: Option<String>,
}

/// One choice of a streamed completion delta.
#[derive(Debug)]
pub struct EventSourceDataChoices {
    pub delta: Delta,
    pub finish_reason: Option<String>,
    pub index: u32,
}

/// A decoded completion-delta payload.
#[derive(Debug)]
pub struct EventSourceDataInterface {
    pub choices: Vec<EventSourceDataChoices>,
    pub created: u64,
    pub id: String,
    pub model: String,
    pub object: String,
}

/// One event of the stream.
#[derive(Debug)]
pub enum EventSourceData {
    Data(EventSourceDataInterface),
    Done(String),
}

/// The prefix that a line of a frame may carry.
pub open spec fn data_prefix() -> Seq<char> {
    "data: "@
}

/// The payload that ends the stream.
pub open spec fn done_sentinel() -> Seq<char> {
    "[DONE]"@
}

/// Whitespace as a frame separator sees it.
pub open spec fn is_blank_char(c: char) -> bool {
    c == ' ' || c == '\t' || c == '\n' || c == '\r'
}

/// A frame holding nothing but whitespace.
pub open spec fn is_blank(f: Seq<char>) -> bool {
    forall|k: int| 0 <= k < f.len() ==> is_blank_char(#[trigger] f[k])
}

/// A line without the carriage return that ended it.
pub open spec fn line_body(line: Seq<char>) -> Seq<char> {
    if line.len() > 0 && line.last() == '\r' {
        line.drop_last()
    } else {
        line
    }
}

/// A line without its leading `data: `, if it has one.
pub open spec fn strip_data_prefix(line: Seq<char>) -> Seq<char> {
    let p = data_prefix();
    if line.len() >= p.len() && line.subrange(0, p.len() as int) == p {
        line.subrange(p.len() as int, line.len() as int)
    } else {
        line
    }
}

/// The joined, prefix-stripped lines of `f` from the line that starts at
/// `start`, scanning from `i`. Lines end at `\n` (a `\r` before it is
/// dropped); a last line without `\n` counts if it is not empty.
pub open spec fn payload_from(f: Seq<char>, start: int, i: int) -> Seq<char>
    decreases f.len() - i,
{
    if i >= f.len() {
        if start < f.len() {
            strip_data_prefix(f.subrange(start, f.len() as int))
        } else {
            Seq::<char>::empty()
        }
    } else if f[i] == '\n' {
        strip_data_prefix(line_body(f.subrange(start, i))) + payload_from(f, i + 1, i + 1)
    } else {
        payload_from(f, start, i + 1)
    }
}

/// The payload of a frame.
pub open spec fn frame_payload(f: Seq<char>) -> Seq<char> {
    payload_from(f, 0, 0)
}

/// The payloads a frame contributes: none if it is blank.
pub open spec fn frame_events(f: Seq<char>) -> Seq<Seq<char>> {
    if is_blank(f) {
        Seq::<Seq<char>>::empty()
    } else {
        seq![frame_payload(f)]
    }
}

/// The payloads of `s` from the frame that starts at `start`, scanning from
/// `i`; frames are separated by `\n\n`, left to right.
pub open spec fn frames_from(s: Seq<char>, start: int, i: int) -> Seq<Seq<char>>
    decreases s.len() - i,
{
    if i + 1 >= s.len() {
        frame_events(s.subrange(start, s.len() as int))
    } else if s[i] == '\n' && s[i + 1] == '\n' {
        frame_events(s.subrange(start, i)) + frames_from(s, i + 2, i + 2)
    } else {
        frames_from(s, start, i + 1)
    }
}

/// The payloads of the non-blank frames of a chunk, in order.
pub open spec fn event_payloads(s: Seq<char>) -> Seq<Seq<char>> {
    frames_from(s, 0, 0)
}

/// The views of a list of strings.
pub open spec fn views(v: Seq<String>) -> Seq<Seq<char>> {
    v.map_values(|x: String| x@)
}

/// Appends `cs[a..b]` to `out`.
fn push_range(out: &mut String, cs: &Vec<char>, a: usize, b: usize)
    requires
        a <= b <= cs.len(),
    ensures
        final(out)@ == old(out)@ + cs@.subrange(a as int, b as int),
{
    let mut k: usize = a;
    while k < b
        invariant
            a <= k <= b <= cs.len(),
            out@ == old(out)@ + cs@.subrange(a as int, k as int),
        decreases b - k,
    {
        out.push(cs[k]);
        assert(cs@.subrange(a as int, k + 1) =~= cs@.subrange(a as int, k as int).push(cs@[k as int]));
        k += 1;
    }
}

/// Appends the line `cs[a..b]`, prefix stripped (and, for a line that ended
/// at `\n`, its trailing `\r` dropped).
fn push_line(out: &mut String, cs: &Vec<char>, prefix: &Vec<char>, a: usize, b: usize, ended: bool)
    requires
        a <= b <= cs.len(),
        prefix@ == data_prefix(),
    ensures
        final(out)@ == old(out)@ + strip_data_prefix(
            if ended { line_body(cs@.subrange(a as int, b as int)) } else { cs@.subrange(a as int, b as int) },
        ),
{
    let ghost line = if ended { line_body(cs@.subrange(a as int, b as int)) } else { cs@.subrange(a as int, b as int) };
    let e = if ended && b > a && cs[b - 1] == '\r' { b - 1 } else { b };
    assert(line =~= cs@.subrange(a as int, e as int));
    let p = prefix.len();
    if e - a >= p && matches_at(cs, prefix, a) {
        assert(line.subrange(0, p as int) =~= cs@.subrange(a as int, a + p));
        assert(line.subrange(p as int, line.len() as int) =~= cs@.subrange(a + p, e as int));
        push_range(out, cs, a + p, e);
    } else {
        proof {
            if line.len() >= p {
                assert(line.subrange(0, p as int) =~= cs@.subrange(a as int, a + p));
                assert(!occurs_at(cs@, prefix@, a as int));
            }
        }
        push_range(out, cs, a, e);
    }
}

/// The payload of the frame `cs[lo..hi]`.
fn payload_of(cs: &Vec<char>, prefix: &Vec<char>, lo: usize, hi: usize) -> (r: String)
    requires
        lo <= hi <= cs.len(),
        prefix@ == data_prefix(),
    ensures
        r@ == frame_payload(cs@.subrange(lo as int, hi as int)),
{
    let ghost f = cs@.subrange(lo as int, hi as int);
    let mut out = String::new();
    let mut start: usize = lo;
    let mut i: usize = lo;
    while i < hi
        invariant
            lo <= start <= i <= hi <= cs.len(),
            prefix@ == data_prefix(),
            f == cs@.subrange(lo as int, hi as int),
            out@ + payload_from(f, start - lo, i - lo) == frame_payload(f),
        decreases hi - i,
    {
        if cs[i] == '\n' {
            let ghost before = out@;
            assert(f.subrange(start - lo, i - lo) =~= cs@.subrange(start as int, i as int));
            push_line(&mut out, cs, prefix, start, i, true);
            assert(before + payload_from(f, start - lo, i - lo) == out@ + payload_from(f, i + 1 - lo, i + 1 - lo));
            start = i + 1;
        }
        i += 1;
    }
    if start < hi {
        let ghost before = out@;
        assert(f.subrange(start - lo, hi - lo) =~= cs@.subrange(start as int, hi as int));
        push_line(&mut out, cs, prefix, start, hi, false);
    } else {
        assert(out@ + Seq::<char>::empty() =~= out@);
    }
    out
}

/// Whether the frame `cs[lo..hi]` is blank.
fn blank_range(cs: &Vec<char>, lo: usize, hi: usize) -> (r: bool)
    requires
        lo <= hi <= cs.len(),
    ensures
        r == is_blank(cs@.subrange(lo as int, hi as int)),
{
    let ghost f = cs@.subrange(lo as int, hi as int);
    let mut k: usize = lo;
    while k < hi
        invariant
            lo <= k <= hi <= cs.len(),
            f == cs@.subrange(lo as int, hi as int),
            forall|j: int| 0 <= j < k - lo ==> is_blank_char(#[trigger] f[j]),
        decreases hi - k,
    {
        let c = cs[k];
        if !(c == ' ' || c == '\t' || c == '\n' || c == '\r') {
            assert(f[k - lo] == c);
            return false;
        }
        k += 1;
    }
    true
}

/// Adds the payload of the frame `cs[lo..hi]` to `out`, unless it is blank.
fn push_frame(out: &mut Vec<String>, cs: &Vec<char>, prefix: &Vec<char>, lo: usize, hi: usize)
    requires
        lo <= hi <= cs.len(),
        prefix@ == data_prefix(),
    ensures
        views(final(out)@) == views(old(out)@) + frame_events(cs@.subrange(lo as int, hi as int)),
{
    if blank_range(cs, lo, hi) {
        assert(views(out@) + Seq::<Seq<char>>::empty() =~= views(out@));
    } else {
        let p = payload_of(cs, prefix, lo, hi);
        out.push(p);
        assert(views(out@) =~= views(old(out)@) + seq![p@]);
    }
}

/// Splits a chunk of the response body into the payloads of its non-blank
/// frames, in order.
pub fn split_event_frames(data: &str) -> (r: Vec<String>)
    ensures
        views(r@) == event_payloads(data@),
{
    let cs = chars_of(data);
    let prefix = chars_of("data: ");
    let mut out: Vec<String> = Vec::new();
    let mut start: usize = 0;
    let mut i: usize = 0;
    assert(views(out@) =~= Seq::<Seq<char>>::empty());
    while cs.len() - i > 1
        invariant
            start <= i <= cs.len(),
            cs@ == data@,
            prefix@ == data_prefix(),
            views(out@) + frames_from(cs@, start as int, i as int) == event_payloads(data@),
        decreases cs.len() - i,
    {
        if cs[i] == '\n' && cs[i + 1] == '\n' {
            let ghost before = views(out@);
            push_frame(&mut out, &cs, &prefix, start, i);
            assert(before + frames_from(cs@, start as int, i as int)
                =~= views(out@) + frames_from(cs@, i + 2, i + 2));
            i = i + 2;
            start = i;
        } else {
            i += 1;
        }
    }
    push_frame(&mut out, &cs, &prefix, start, cs.len());
    out
}


/// `e` is the event for payload `p`: `Done` for the sentinel; otherwise
/// `Data` with what `decode` gave for `p`, or `Done(p)` where it gave
/// nothing.
pub open spec fn event_for<F: Fn(String) -> Option<EventSourceDataInterface>>(
    decode: F,
    p: Seq<char>,
    e: EventSourceData,
) -> bool {
    if p == done_sentinel() {
        e matches EventSourceData::Done(s) && s@ == p
    } else {
        match e {
            EventSourceData::Data(d) => exists|s: String| s@ == p && #[trigger] decode.ensures((s,), Some(d)),
            EventSourceData::Done(s) => s@ == p && exists|t: String|
                t@ == p && #[trigger] decode.ensures((t,), None::<EventSourceDataInterface>),
        }
    }
}

/// The event for one payload (see `event_for`).
pub fn event_from_payload<F: Fn(String) -> Option<EventSourceDataInterface>>(
    payload: String,
    decode: &F,
) -> (r: EventSourceData)
    requires
        forall|s: String| decode.requires((s,)),
    ensures
        event_for(*decode, payload@, r),
{
    if same_text(payload.as_str(), "[DONE]") {
        return EventSourceData::Done(payload);
    }
    let attempt = payload.clone();
    let ghost sent = attempt;
    let decoded = decode(attempt);
    match decoded {
        Some(d) => {
            let r = EventSourceData::Data(d);
            assert(sent@ == payload@ && (*decode).ensures((sent,), Some(d)));
            assert(r matches EventSourceData::Data(x) && x == d);
            assert(event_for(*decode, payload@, r));
            r
        },
        None => {
            assert(sent@ == payload@ && decode.ensures((sent,), None::<EventSourceDataInterface>));
            EventSourceData::Done(payload)
        },
    }
}

/// Parses a chunk of the response body into its events, one per non-blank
/// frame, in order. `decode` turns a payload into a completion delta.
pub fn parse_event_source<F: Fn(String) -> Option<EventSourceDataInterface>>(
    data: String,
    decode: F,
) -> (r: Vec<EventSourceData>)
    requires
        forall|s: String| decode.requires((s,)),
    ensures
        r@.len() == event_payloads(data@).len(),
        forall|k: int| 0 <= k < r@.len() ==> event_for(decode, event_payloads(data@)[k], #[trigger] r@[k]),
{
    let payloads = split_event_frames(data.as_str());
    let ghost all = views(payloads@);
    let mut events: Vec<EventSourceData> = Vec::new();
    for p in it: payloads.into_iter()
        invariant
            it.seq() == payloads@,
            all == views(payloads@),
            all == event_payloads(data@),
            events@.len() == it.index(),
            forall|j: int| 0 <= j < it.index() ==> event_for(decode, all[j], #[trigger] events@[j]),
            forall|s: String| decode.requires((s,)),
    {
        let e = event_from_payload(p, &decode);
        events.push(e);
    }
    events
}

/// The text that a delta carries: the content of its first choice, empty
/// where there is none.
pub open spec fn delta_text(d: EventSourceDataInterface) -> Seq<char> {
    if d.choices@.len() > 0 {
        match d.choices@[0].delta.content {
            Some(c) => c@,
            None => Seq::<char>::empty(),
        }
    } else {
        Seq::<char>::empty()
    }
}

/// The texts of the `Data` events before the first `Done`, joined.
pub open spec fn text_until_done(evs: Seq<EventSourceData>) -> Seq<char>
    decreases evs.len(),
{
    if evs.len() == 0 {
        Seq::<char>::empty()
    } else {
        match evs[0] {
            EventSourceData::Done(_) => Seq::<char>::empty(),
            EventSourceData::Data(d) => delta_text(d) + text_until_done(evs.drop_first()),
        }
    }
}

/// Some event of `evs` is a `Done`.
pub open spec fn has_done(evs: Seq<EventSourceData>) -> bool {
    exists|k: int| 0 <= k < evs.len() && #[trigger] evs[k] is Done
}


/// `s` holds no line break.
pub open spec fn single_line(s: Seq<char>) -> bool {
    forall|k: int| 0 <= k < s.len() ==> #[trigger] s[k] != '\n'
}

/// The frame that carries payload `p`.
pub open spec fn data_frame(p: Seq<char>) -> Seq<char> {
    data_prefix() + p + "\n\n"@
}

/// The stream that carries the payloads `ps`, one frame each, in order.
pub open spec fn data_stream(ps: Seq<Seq<char>>) -> Seq<char>
    decreases ps.len(),
{
    if ps.len() == 0 {
        Seq::<char>::empty()
    } else {
        data_frame(ps[0]) + data_stream(ps.drop_first())
    }
}

/// Without a line break after `i`, the payload scan runs to the end.
proof fn lemma_payload_single_line(f: Seq<char>, start: int, i: int)
    requires
        0 <= start <= i <= f.len(),
        forall|k: int| i <= k < f.len() ==> #[trigger] f[k] != '\n',
    ensures
        payload_from(f, start, i) == payload_from(f, start, f.len() as int),
    decreases f.len() - i,
{
    if i < f.len() {
        lemma_payload_single_line(f, start, i + 1);
    }
}

/// Without a blank line in `[i, j)` and with one at `j`, the frame scan
/// emits the frame `s[start..j]` and goes on after the blank line.
proof fn lemma_scan_to_delimiter(s: Seq<char>, start: int, i: int, j: int)
    requires
        0 <= start <= i <= j,
        j + 1 < s.len(),
        s[j] == '\n' && s[j + 1] == '\n',
        forall|k: int| i <= k < j ==> !(#[trigger] s[k] == '\n' && s[k + 1] == '\n'),
    ensures
        frames_from(s, start, i) == frame_events(s.subrange(start, j)) + frames_from(s, j + 2, j + 2),
    decreases j - i,
{
    if i < j {
        assert(!(s[i] == '\n' && s[i + 1] == '\n'));
        lemma_scan_to_delimiter(s, start, i + 1, j);
    }
}

/// The frame scan of `x + r` past `x` is the frame scan of `r`.
proof fn lemma_scan_shift(x: Seq<char>, r: Seq<char>, a: int, b: int)
    requires
        0 <= a <= b <= r.len(),
    ensures
        frames_from(x + r, x.len() + a, x.len() + b) == frames_from(r, a, b),
    decreases r.len() - b,
{
    let s = x + r;
    let xl = x.len() as int;
    if b + 1 >= r.len() {
        assert(s.subrange(xl + a, s.len() as int) =~= r.subrange(a, r.len() as int));
    } else {
        assert(s[xl + b] == r[b] && s[xl + b + 1] == r[b + 1]);
        if r[b] == '\n' && r[b + 1] == '\n' {
            assert(s.subrange(xl + a, xl + b) =~= r.subrange(a, b));
            lemma_scan_shift(x, r, b + 2, b + 2);
        } else {
            lemma_scan_shift(x, r, a, b + 1);
        }
    }
}

/// The frame of a single-line payload gives back that payload.
proof fn lemma_frame_payload(p: Seq<char>)
    requires
        single_line(p),
    ensures
        frame_events(data_prefix() + p) == seq![p],
{
    reveal_strlit("data: ");
    let body = data_prefix() + p;
    let pl = data_prefix().len() as int;
    assert(pl == 6);
    assert forall|k: int| 0 <= k < body.len() implies #[trigger] body[k] != '\n' by {
        if k >= pl {
            assert(body[k] == p[k - pl]);
        }
    }
    assert(body[0] == 'd');
    assert(!is_blank_char(body[0]));
    lemma_payload_single_line(body, 0, 0);
    assert(body.subrange(0, body.len() as int) =~= body);
    assert(body.subrange(0, pl) =~= data_prefix());
    assert(body.subrange(pl, body.len() as int) =~= p);
}

/// Framing gives back exactly the payloads a stream was made of: none is
/// dropped, duplicated or reordered.
pub proof fn lemma_frames_round_trip(ps: Seq<Seq<char>>)
    requires
        forall|k: int| 0 <= k < ps.len() ==> single_line(#[trigger] ps[k]),
    ensures
        event_payloads(data_stream(ps)) == ps,
    decreases ps.len(),
{
    reveal_strlit("data: ");
    reveal_strlit("\n\n");
    if ps.len() == 0 {
        assert(data_stream(ps).subrange(0, 0) =~= Seq::<char>::empty());
        assert(frames_from(Seq::<char>::empty(), 0, 0) =~= Seq::<Seq<char>>::empty());
    } else {
        let p = ps[0];
        let rest = ps.drop_first();
        assert forall|k: int| 0 <= k < rest.len() implies single_line(#[trigger] rest[k]) by {
            assert(rest[k] == ps[k + 1]);
        }
        lemma_frames_round_trip(rest);
        let body = data_prefix() + p;
        let f = data_frame(p);
        let r = data_stream(rest);
        let s = f + r;
        let bl = body.len() as int;
        assert(f =~= body + "\n\n"@);
        assert(s[bl] == '\n' && s[bl + 1] == '\n');
        assert forall|k: int| 0 <= k < bl implies !(#[trigger] s[k] == '\n' && s[k + 1] == '\n') by {
            assert(s[k] == body[k]);
            if k >= 6 {
                assert(body[k] == p[k - 6]);
            }
        }
        lemma_scan_to_delimiter(s, 0, 0, bl);
        assert(s.subrange(0, bl) =~= body);
        lemma_frame_payload(p);
        lemma_scan_shift(f, r, 0, 0);
        assert(data_stream(ps) == s);
        assert(event_payloads(data_stream(ps)) =~= seq![p] + rest);
        assert(seq![p] + rest =~= ps);
    }
}


/// A chunk of whitespace alone holds no frame.
proof fn lemma_blank_scan(s: Seq<char>, start: int, i: int)
    requires
        is_blank(s),
        0 <= start <= i,
        start <= s.len(),
    ensures
        frames_from(s, start, i) == Seq::<Seq<char>>::empty(),
    decreases s.len() - i,
{
    if i + 1 >= s.len() {
        let f = s.subrange(start, s.len() as int);
        assert forall|k: int| 0 <= k < f.len() implies is_blank_char(#[trigger] f[k]) by {
            assert(f[k] == s[start + k]);
        }
    } else if s[i] == '\n' && s[i + 1] == '\n' {
        let f = s.subrange(start, i);
        assert forall|k: int| 0 <= k < f.len() implies is_blank_char(#[trigger] f[k]) by {
            assert(f[k] == s[start + k]);
        }
        lemma_blank_scan(s, i + 2, i + 2);
        assert(Seq::<Seq<char>>::empty() + Seq::<Seq<char>>::empty() =~= Seq::<Seq<char>>::empty());
    } else {
        lemma_blank_scan(s, start, i + 1);
    }
}

/// An empty chunk, or one of whitespace alone, yields no events.
pub proof fn lemma_blank_chunk_has_no_events(s: Seq<char>)
    requires
        is_blank(s),
    ensures
        event_payloads(s) == Seq::<Seq<char>>::empty(),
{
    lemma_blank_scan(s, 0, 0);
}

} // verus!
