//! Incremental reassembly of a server-sent-event-style text stream.
//!
//! Chunks arrive split at arbitrary character boundaries; `parse_events`
//! returns every fully terminated event found so far and keeps the
//! unconsumed remainder buffered. The wire format frames an event as a
//! line starting with `data:`, terminated by a newline; the trimmed
//! payload `[DONE]` marks the end of the stream.

use vstd::prelude::*;
use vstd::string::*;

verus! {

broadcast use vstd::string::group_string_axioms;

/// One logical event of the stream.
pub enum SSEvent {
    Data(String),
    Done,
}

/// The mathematical shape of an event: its trimmed payload, or the
/// end-of-stream mark.
pub enum SSEventView {
    Data(Seq<char>),
    Done,
}

impl View for SSEvent {
    type V = SSEventView;

    open spec fn view(&self) -> SSEventView {
        match self {
            SSEvent::Data(s) => SSEventView::Data(s@),
            SSEvent::Done => SSEventView::Done,
        }
    }
}

/// The characters with Unicode property `White_Space`, the set that
/// `str::trim` removes at either end.
pub open spec fn is_ws_char(c: char) -> bool {
    ||| c == '\u{0009}'
    ||| c == '\u{000A}'
    ||| c == '\u{000B}'
    ||| c == '\u{000C}'
    ||| c == '\u{000D}'
    ||| c == ' '
    ||| c == '\u{0085}'
    ||| c == '\u{00A0}'
    ||| c == '\u{1680}'
    ||| c == '\u{2000}'
    ||| c == '\u{2001}'
    ||| c == '\u{2002}'
    ||| c == '\u{2003}'
    ||| c == '\u{2004}'
    ||| c == '\u{2005}'
    ||| c == '\u{2006}'
    ||| c == '\u{2007}'
    ||| c == '\u{2008}'
    ||| c == '\u{2009}'
    ||| c == '\u{200A}'
    ||| c == '\u{2028}'
    ||| c == '\u{2029}'
    ||| c == '\u{202F}'
    ||| c == '\u{205F}'
    ||| c == '\u{3000}'
}

/// The text with leading whitespace removed.
pub open spec fn trim_start_spec(s: Seq<char>) -> Seq<char>
    decreases s.len(),
{
    if s.len() == 0 {
        s
    } else if is_ws_char(s[0]) {
        trim_start_spec(s.drop_first())
    } else {
        s
    }
}

/// The text with trailing whitespace removed.
pub open spec fn trim_end_spec(s: Seq<char>) -> Seq<char>
    decreases s.len(),
{
    if s.len() == 0 {
        s
    } else if is_ws_char(s.last()) {
        trim_end_spec(s.drop_last())
    } else {
        s
    }
}

/// The text with whitespace removed at both ends, as `str::trim` does.
pub open spec fn trim_spec(s: Seq<char>) -> Seq<char> {
    trim_end_spec(trim_start_spec(s))
}

/// Whether the five characters of the event prefix `data:` stand at `i`.
pub open spec fn data_at(s: Seq<char>, i: int) -> bool {
    &&& 0 <= i
    &&& i + 5 <= s.len()
    &&& s[i] == 'd'
    &&& s[i + 1] == 'a'
    &&& s[i + 2] == 't'
    &&& s[i + 3] == 'a'
    &&& s[i + 4] == ':'
}

/// The least position at or after `from` where the event prefix stands.
pub open spec fn find_data(s: Seq<char>, from: int) -> Option<int>
    decreases s.len() - from,
{
    if from < 0 || from + 5 > s.len() {
        None
    } else if data_at(s, from) {
        Some(from)
    } else {
        find_data(s, from + 1)
    }
}

/// The least position at or after `from` holding a newline.
pub open spec fn find_nl(s: Seq<char>, from: int) -> Option<int>
    decreases s.len() - from,
{
    if from < 0 || from >= s.len() {
        None
    } else if s[from] == '\n' {
        Some(from)
    } else {
        find_nl(s, from + 1)
    }
}

/// The end-of-stream sentinel payload.
pub open spec fn is_done_payload(p: Seq<char>) -> bool {
    p =~= seq!['[', 'D', 'O', 'N', 'E', ']']
}

/// The event a trimmed payload stands for.
pub open spec fn event_of_payload(p: Seq<char>) -> SSEventView {
    if is_done_payload(p) {
        SSEventView::Done
    } else {
        SSEventView::Data(p)
    }
}

/// The first complete event of the text, with the position just after
/// its terminating newline; `None` while no event is complete yet.
pub open spec fn first_event(s: Seq<char>) -> Option<(SSEventView, int)> {
    match find_data(s, 0) {
        Option::None => None,
        Option::Some(i) => match find_nl(s, i + 5) {
            Option::None => None,
            Option::Some(j) => Some(
                (event_of_payload(trim_spec(s.subrange(i + 5, j))), j + 1),
            ),
        },
    }
}

proof fn lemma_find_data_some(s: Seq<char>, from: int, i: int)
    requires
        find_data(s, from) == Some(i),
    ensures
        from <= i,
        i + 5 <= s.len(),
        data_at(s, i),
    decreases s.len() - from,
{
    if from < 0 || from + 5 > s.len() {
    } else if data_at(s, from) {
    } else {
        lemma_find_data_some(s, from + 1, i);
    }
}

proof fn lemma_find_nl_some(s: Seq<char>, from: int, j: int)
    requires
        find_nl(s, from) == Some(j),
    ensures
        from <= j,
        j < s.len(),
        s[j] == '\n',
    decreases s.len() - from,
{
    if from < 0 || from >= s.len() {
    } else if s[from] == '\n' {
    } else {
        lemma_find_nl_some(s, from + 1, j);
    }
}

#[via_fn]
proof fn events_of_decreases(s: Seq<char>) {
    match first_event(s) {
        Option::None => {},
        Option::Some((e, cut)) => {
            let i = find_data(s, 0).unwrap();
            lemma_find_data_some(s, 0, i);
            let j = find_nl(s, i + 5).unwrap();
            lemma_find_nl_some(s, i + 5, j);
        },
    }
}

#[via_fn]
proof fn rest_of_decreases(s: Seq<char>) {
    match first_event(s) {
        Option::None => {},
        Option::Some((e, cut)) => {
            let i = find_data(s, 0).unwrap();
            lemma_find_data_some(s, 0, i);
            let j = find_nl(s, i + 5).unwrap();
            lemma_find_nl_some(s, i + 5, j);
        },
    }
}

/// Every complete event of the text, in order.
pub open spec fn events_of(s: Seq<char>) -> Seq<SSEventView>
    decreases s.len(),
        via events_of_decreases
{
    match first_event(s) {
        Option::None => Seq::empty(),
        Option::Some((e, cut)) => seq![e] + events_of(s.subrange(cut, s.len() as int)),
    }
}

/// What remains buffered after every complete event is consumed.
pub open spec fn rest_of(s: Seq<char>) -> Seq<char>
    decreases s.len(),
        via rest_of_decreases
{
    match first_event(s) {
        Option::None => s,
        Option::Some((e, cut)) => rest_of(s.subrange(cut, s.len() as int)),
    }
}

/// Reassembles chunked text into complete events, buffering the rest.
pub struct SSEventParser {
    buffer: String,
}

impl View for SSEventParser {
    type V = Seq<char>;

    closed spec fn view(&self) -> Seq<char> {
        self.buffer@
    }
}

fn is_ws_exec(c: char) -> (r: bool)
    ensures
        r == is_ws_char(c),
{
    c == '\u{0009}' || c == '\u{000A}' || c == '\u{000B}' || c == '\u{000C}' || c == '\u{000D}'
        || c == ' ' || c == '\u{0085}' || c == '\u{00A0}' || c == '\u{1680}' || c == '\u{2000}'
        || c == '\u{2001}' || c == '\u{2002}' || c == '\u{2003}' || c == '\u{2004}' || c
        == '\u{2005}' || c == '\u{2006}' || c == '\u{2007}' || c == '\u{2008}' || c == '\u{2009}'
        || c == '\u{200A}' || c == '\u{2028}' || c == '\u{2029}' || c == '\u{202F}' || c
        == '\u{205F}' || c == '\u{3000}'
}

fn find_data_exec(cs: &Vec<char>, from: usize) -> (r: Option<usize>)
    requires
        from <= cs@.len(),
    ensures
        match r {
            Option::Some(i) => find_data(cs@, from as int) == Some(i as int),
            Option::None => find_data(cs@, from as int) is None,
        },
{
    let mut k = from;
    loop
        invariant
            from <= k <= cs@.len(),
            find_data(cs@, from as int) == find_data(cs@, k as int),
        decreases cs@.len() - k,
    {
        if cs.len() - k < 5 {
            return None;
        }
        if cs[k] == 'd' && cs[k + 1] == 'a' && cs[k + 2] == 't' && cs[k + 3] == 'a' && cs[k + 4]
            == ':' {
            return Some(k);
        }
        k = k + 1;
    }
}

fn find_nl_exec(cs: &Vec<char>, from: usize) -> (r: Option<usize>)
    requires
        from <= cs@.len(),
    ensures
        match r {
            Option::Some(j) => find_nl(cs@, from as int) == Some(j as int),
            Option::None => find_nl(cs@, from as int) is None,
        },
{
    let mut k = from;
    loop
        invariant
            from <= k <= cs@.len(),
            find_nl(cs@, from as int) == find_nl(cs@, k as int),
        decreases cs@.len() - k,
    {
        if k >= cs.len() {
            return None;
        }
        if cs[k] == '\n' {
            return Some(k);
        }
        k = k + 1;
    }
}

proof fn lemma_trim_start_subrange(s: Seq<char>, a: int)
    requires
        0 <= a <= s.len(),
        forall|k: int| 0 <= k < a ==> is_ws_char(s[k]),
        a < s.len() ==> !is_ws_char(s[a]),
    ensures
        trim_start_spec(s) =~= s.subrange(a, s.len() as int),
    decreases a,
{
    if a == 0 {
        if s.len() == 0 {
        } else {
            assert(!is_ws_char(s[0]));
        }
    } else {
        assert(is_ws_char(s[0]));
        let t = s.drop_first();
        assert(t =~= s.subrange(1, s.len() as int));
        lemma_trim_start_subrange(t, a - 1);
        assert(t.subrange(a - 1, t.len() as int) =~= s.subrange(a, s.len() as int));
    }
}

proof fn lemma_trim_end_subrange(s: Seq<char>, b: int)
    requires
        0 <= b <= s.len(),
        forall|k: int| b <= k < s.len() ==> is_ws_char(s[k]),
        b > 0 ==> !is_ws_char(s[b - 1]),
    ensures
        trim_end_spec(s) =~= s.subrange(0, b),
    decreases s.len() - b,
{
    if b == s.len() {
        if s.len() == 0 {
        } else {
            assert(!is_ws_char(s.last()));
            assert(s =~= s.subrange(0, b));
        }
    } else {
        assert(is_ws_char(s.last()));
        let t = s.drop_last();
        assert(t =~= s.subrange(0, s.len() - 1));
        lemma_trim_end_subrange(t, b);
    }
}

fn trim_exec(s: &str) -> (r: String)
    ensures
        r@ == trim_spec(s@),
{
    let n = s.unicode_len();
    let mut a: usize = 0;
    while a < n && is_ws_exec(s.get_char(a))
        invariant
            a <= n,
            n == s@.len(),
            forall|k: int| 0 <= k < a ==> is_ws_char(s@[k]),
        decreases n - a,
    {
        a = a + 1;
    }
    if a == n {
        proof {
            lemma_trim_start_subrange(s@, n as int);
            assert(trim_start_spec(s@) =~= Seq::<char>::empty());
            assert(trim_spec(s@) =~= Seq::<char>::empty());
        }
        return String::new();
    }
    let mut b: usize = n;
    while b > a && is_ws_exec(s.get_char(b - 1))
        invariant
            a <= b <= n,
            n == s@.len(),
            forall|k: int| b <= k < n ==> is_ws_char(s@[k]),
        decreases b,
    {
        b = b - 1;
    }
    proof {
        lemma_trim_start_subrange(s@, a as int);
        let t = s@.subrange(a as int, n as int);
        assert(b > a) by {
            if b == a {
                assert(is_ws_char(s@[a as int]));
            }
        }
        assert(!is_ws_char(s@[b - 1]));
        assert(forall|k: int| b - a <= k < t.len() ==> is_ws_char(t[k]));
        lemma_trim_end_subrange(t, b - a);
        assert(t.subrange(0, b - a) =~= s@.subrange(a as int, b as int));
    }
    let piece = s.substring_char(a, b);
    String::from_str(piece)
}

fn is_done_exec(p: &str) -> (r: bool)
    ensures
        r == is_done_payload(p@),
{
    if p.unicode_len() != 6 {
        proof {
            assert(!is_done_payload(p@));
        }
        return false;
    }
    let r = p.get_char(0) == '[' && p.get_char(1) == 'D' && p.get_char(2) == 'O' && p.get_char(3)
        == 'N' && p.get_char(4) == 'E' && p.get_char(5) == ']';
    proof {
        if r {
            assert(p@ =~= seq!['[', 'D', 'O', 'N', 'E', ']']);
        } else {
            assert(!is_done_payload(p@));
        }
    }
    r
}

proof fn lemma_find_data_shift(s: Seq<char>, pos: int, from: int)
    requires
        0 <= pos <= s.len(),
        0 <= from,
    ensures
        find_data(s.subrange(pos, s.len() as int), from) == match find_data(s, pos + from) {
            Option::None => None::<int>,
            Option::Some(i) => Some(i - pos),
        },
    decreases s.len() - pos - from,
{
    let sub = s.subrange(pos, s.len() as int);
    if from + 5 > sub.len() {
    } else {
        assert(data_at(sub, from) == data_at(s, pos + from));
        if data_at(sub, from) {
        } else {
            lemma_find_data_shift(s, pos, from + 1);
        }
    }
}

proof fn lemma_find_nl_shift(s: Seq<char>, pos: int, from: int)
    requires
        0 <= pos <= s.len(),
        0 <= from,
    ensures
        find_nl(s.subrange(pos, s.len() as int), from) == match find_nl(s, pos + from) {
            Option::None => None::<int>,
            Option::Some(j) => Some(j - pos),
        },
    decreases s.len() - pos - from,
{
    let sub = s.subrange(pos, s.len() as int);
    if from >= sub.len() {
    } else {
        if sub[from] == '\n' {
        } else {
            lemma_find_nl_shift(s, pos, from + 1);
        }
    }
}

impl SSEventParser {
    /// A fresh parser with an empty buffer.
    pub fn new() -> (r: SSEventParser)
        ensures
            r@ == Seq::<char>::empty(),
    {
        SSEventParser { buffer: String::new() }
    }

    /// Appends a chunk of text to the buffer; nothing is consumed yet.
    pub fn add_chunk(&mut self, chunk: &str)
        ensures
            final(self)@ == old(self)@ + chunk@,
    {
        self.buffer.append(chunk);
    }

    /// Returns every complete event buffered so far and keeps exactly the
    /// unconsumed remainder for future chunks.
    pub fn parse_events(&mut self) -> (events: Vec<SSEvent>)
        ensures
            events@.map_values(|e: SSEvent| e@) == events_of(old(self)@),
            final(self)@ == rest_of(old(self)@),
    {
        let ghost s = self.buffer@;
        let n = self.buffer.as_str().unicode_len();
        let mut cs: Vec<char> = Vec::new();
        let mut k: usize = 0;
        while k < n
            invariant
                k <= n,
                n == s.len(),
                self.buffer@ == s,
                cs@ =~= s.subrange(0, k as int),
            decreases n - k,
        {
            cs.push(self.buffer.as_str().get_char(k));
            k = k + 1;
        }
        proof {
            assert(cs@ =~= s);
        }
        let mut events: Vec<SSEvent> = Vec::new();
        let mut pos: usize = 0;
        loop
            invariant
                pos <= n,
                n == s.len(),
                self.buffer@ == s,
                cs@ == s,
                events_of(s) == events@.map_values(|e: SSEvent| e@) + events_of(
                    s.subrange(pos as int, n as int),
                ),
                rest_of(s) == rest_of(s.subrange(pos as int, n as int)),
            ensures
                pos <= n,
                events_of(s) == events@.map_values(|e: SSEvent| e@),
                rest_of(s) == s.subrange(pos as int, n as int),
            decreases n - pos,
        {
            let ghost suffix = s.subrange(pos as int, n as int);
            let found = find_data_exec(&cs, pos);
            let i = match found {
                Option::Some(i) => i,
                Option::None => {
                    proof {
                        lemma_find_data_shift(s, pos as int, 0);
                        assert(first_event(suffix) is None);
                        assert(events_of(suffix) =~= Seq::<SSEventView>::empty());
                        assert(events_of(s) =~= events@.map_values(|e: SSEvent| e@));
                        assert(rest_of(suffix) == suffix);
                    }
                    break ;
                },
            };
            proof {
                lemma_find_data_some(s, pos as int, i as int);
            }
            let found_nl = find_nl_exec(&cs, i + 5);
            let j = match found_nl {
                Option::Some(j) => j,
                Option::None => {
                    proof {
                        lemma_find_data_shift(s, pos as int, 0);
                        lemma_find_nl_shift(s, pos as int, i + 5 - pos as int);
                        assert(first_event(suffix) is None);
                        assert(events_of(suffix) =~= Seq::<SSEventView>::empty());
                        assert(events_of(s) =~= events@.map_values(|e: SSEvent| e@));
                        assert(rest_of(suffix) == suffix);
                    }
                    break ;
                },
            };
            proof {
                lemma_find_nl_some(s, i + 5, j as int);
            }
            let payload = trim_exec(self.buffer.as_str().substring_char(i + 5, j));
            let is_done = is_done_exec(payload.as_str());
            let ev = if is_done {
                SSEvent::Done
            } else {
                SSEvent::Data(payload)
            };
            proof {
                lemma_find_data_shift(s, pos as int, 0);
                lemma_find_nl_shift(s, pos as int, i + 5 - pos as int);
                assert(s.subrange(i as int + 5, j as int) =~= suffix.subrange(
                    i - pos + 5,
                    j - pos,
                ));
                assert(first_event(suffix) == Some(
                    (event_of_payload(trim_spec(suffix.subrange(i - pos + 5, j - pos))), j - pos + 1),
                ));
                assert(suffix.subrange(j - pos + 1, suffix.len() as int) =~= s.subrange(
                    j + 1,
                    n as int,
                ));
                assert(events_of(suffix) == seq![ev@] + events_of(s.subrange(j + 1, n as int)));
                assert(rest_of(suffix) == rest_of(s.subrange(j + 1, n as int)));
                assert(events@.push(ev).map_values(|e: SSEvent| e@) =~= events@.map_values(
                    |e: SSEvent| e@,
                ).push(ev@));
                assert(events@.map_values(|e: SSEvent| e@).push(ev@) + events_of(
                    s.subrange(j + 1, n as int),
                ) =~= events@.map_values(|e: SSEvent| e@) + events_of(suffix));
            }
            events.push(ev);
            pos = j + 1;
        }
        let rest = String::from_str(self.buffer.as_str().substring_char(pos, n));
        self.buffer = rest;
        events
    }
}


proof fn lemma_find_data_append(s1: Seq<char>, s2: Seq<char>, from: int)
    requires
        0 <= from,
        find_data(s1, from) is Some,
    ensures
        find_data(s1 + s2, from) == find_data(s1, from),
    decreases s1.len() - from,
{
    let i = find_data(s1, from).unwrap();
    lemma_find_data_some(s1, from, i);
    assert(forall|k: int| 0 <= k < s1.len() ==> (s1 + s2)[k] == s1[k]);
    if data_at(s1, from) {
        assert(data_at(s1 + s2, from));
    } else {
        assert(!data_at(s1 + s2, from));
        lemma_find_data_append(s1, s2, from + 1);
    }
}

proof fn lemma_find_nl_append(s1: Seq<char>, s2: Seq<char>, from: int)
    requires
        0 <= from,
        find_nl(s1, from) is Some,
    ensures
        find_nl(s1 + s2, from) == find_nl(s1, from),
    decreases s1.len() - from,
{
    let j = find_nl(s1, from).unwrap();
    lemma_find_nl_some(s1, from, j);
    assert(forall|k: int| 0 <= k < s1.len() ==> (s1 + s2)[k] == s1[k]);
    if s1[from] == '\n' {
    } else {
        lemma_find_nl_append(s1, s2, from + 1);
    }
}

proof fn lemma_first_event_append(s1: Seq<char>, s2: Seq<char>)
    requires
        first_event(s1) is Some,
    ensures
        first_event(s1 + s2) == first_event(s1),
{
    let i = find_data(s1, 0).unwrap();
    lemma_find_data_some(s1, 0, i);
    lemma_find_data_append(s1, s2, 0);
    let j = find_nl(s1, i + 5).unwrap();
    lemma_find_nl_some(s1, i + 5, j);
    lemma_find_nl_append(s1, s2, i + 5);
    assert((s1 + s2).subrange(i + 5, j) =~= s1.subrange(i + 5, j));
}

/// Split-safety of the reassembler: however a stream is cut in two, the
/// events of the whole stream are the events found in the first part
/// followed by the events found once the retained remainder is joined
/// with the second part, and the final retained remainder is the same.
pub proof fn lemma_split_safety(s1: Seq<char>, s2: Seq<char>)
    ensures
        events_of(s1 + s2) == events_of(s1) + events_of(rest_of(s1) + s2),
        rest_of(s1 + s2) == rest_of(rest_of(s1) + s2),
    decreases s1.len(),
{
    match first_event(s1) {
        Option::None => {
            assert(rest_of(s1) == s1);
            assert(events_of(s1) =~= Seq::<SSEventView>::empty());
            assert(events_of(s1 + s2) =~= events_of(s1) + events_of(rest_of(s1) + s2));
        },
        Option::Some((e, cut)) => {
            let i = find_data(s1, 0).unwrap();
            lemma_find_data_some(s1, 0, i);
            let j = find_nl(s1, i + 5).unwrap();
            lemma_find_nl_some(s1, i + 5, j);
            lemma_first_event_append(s1, s2);
            let tail = s1.subrange(cut, s1.len() as int);
            assert((s1 + s2).subrange(cut, (s1 + s2).len() as int) =~= tail + s2);
            assert(events_of(s1 + s2) == seq![e] + events_of(tail + s2));
            assert(events_of(s1) == seq![e] + events_of(tail));
            assert(rest_of(s1) == rest_of(tail));
            assert(rest_of(s1 + s2) == rest_of(tail + s2));
            lemma_split_safety(tail, s2);
            assert(events_of(s1 + s2) =~= events_of(s1) + events_of(rest_of(s1) + s2));
        },
    }
}


/// The whole stream a list of chunks forms.
pub open spec fn concat_chunks(chunks: Seq<Seq<char>>) -> Seq<char>
    decreases chunks.len(),
{
    if chunks.len() == 0 {
        Seq::empty()
    } else {
        chunks[0] + concat_chunks(chunks.drop_first())
    }
}

/// The events collected by feeding the chunks in order into a buffer
/// holding `buf`, parsing after each chunk, and concatenating what each
/// parse returned.
pub open spec fn fed_events(buf: Seq<char>, chunks: Seq<Seq<char>>) -> Seq<SSEventView>
    decreases chunks.len(),
{
    if chunks.len() == 0 {
        Seq::empty()
    } else {
        events_of(buf + chunks[0]) + fed_events(rest_of(buf + chunks[0]), chunks.drop_first())
    }
}

/// The buffer retained once every chunk has been fed and parsed.
pub open spec fn fed_rest(buf: Seq<char>, chunks: Seq<Seq<char>>) -> Seq<char>
    decreases chunks.len(),
{
    if chunks.len() == 0 {
        buf
    } else {
        fed_rest(rest_of(buf + chunks[0]), chunks.drop_first())
    }
}

/// Split-safety over any chunking: feeding a stream chunk by chunk, in
/// order, with a parse after each chunk, yields exactly the events of
/// feeding the whole stream at once, and retains the same remainder.
pub proof fn lemma_split_safety_chunks(buf: Seq<char>, chunks: Seq<Seq<char>>)
    requires
        chunks.len() > 0,
    ensures
        fed_events(buf, chunks) == events_of(buf + concat_chunks(chunks)),
        fed_rest(buf, chunks) == rest_of(buf + concat_chunks(chunks)),
    decreases chunks.len(),
{
    if chunks.len() == 1 {
        assert(concat_chunks(chunks.drop_first()) =~= Seq::<char>::empty());
        assert(buf + concat_chunks(chunks) =~= buf + chunks[0]);
        let b2 = rest_of(buf + chunks[0]);
        assert(fed_events(b2, chunks.drop_first()) =~= Seq::<SSEventView>::empty());
        assert(fed_rest(b2, chunks.drop_first()) == b2);
        assert(fed_events(buf, chunks) =~= events_of(buf + chunks[0]));
    } else {
        let b2 = rest_of(buf + chunks[0]);
        lemma_split_safety_chunks(b2, chunks.drop_first());
        lemma_split_safety(buf + chunks[0], concat_chunks(chunks.drop_first()));
        assert((buf + chunks[0]) + concat_chunks(chunks.drop_first()) =~= buf + concat_chunks(
            chunks,
        ));
        assert(fed_events(buf, chunks) =~= events_of(buf + concat_chunks(chunks)));
        assert(fed_rest(buf, chunks) == fed_rest(b2, chunks.drop_first()));
    }
}

} // verus!
