//! Chat messages as lists of typed segments, and the array codec.
//!
//! A message is a list of segments; each segment has a type tag such as
//! `text` or `image` and a JSON data object. On the wire a message is an
//! array of `{type, data}` objects; [`parse_segments_from_array`] and
//! [`Message::render_array`] translate between the two forms, and parsing
//! a rendering recovers the message exactly ([`lemma_parse_render_array`]).

use vstd::prelude::*;
use vstd::string::StringExecFns;

use crate::json::{spec_get, jv_of_seq, Jv, JsonValue};
use crate::json::{json_eq, lemma_jv_of_seq, spec_lookup};
use crate::strutil::{
    chars_to_string, join_nl, push_chars_of_str, str_eq, trim_chars, trim_spec,
};

verus! {

/// The mathematical model of a segment: a type tag and a data value.
pub struct SegV {
    pub typ: Seq<char>,
    pub data: Jv,
}

/// One message segment: a type tag such as `text` and its data object.
#[derive(Debug)]
pub struct Segment {
    pub type_: String,
    pub data: JsonValue,
}

impl View for Segment {
    type V = SegV;

    open spec fn view(&self) -> SegV {
        SegV { typ: self.type_@, data: self.data@ }
    }
}

impl Segment {
    /// A segment with the given type tag and data.
    pub fn new(type_: &str, data: JsonValue) -> (r: Segment)
        ensures
            r@ == (SegV { typ: type_@, data: data@ }),
    {
        Segment { type_: String::from_str(type_), data }
    }

    /// A copy of this segment, equal under the model.
    pub fn deep_clone(&self) -> (r: Segment)
        ensures
            r@ == self@,
    {
        Segment { type_: self.type_.clone(), data: self.data.deep_clone() }
    }
}

/// A chat message: a list of segments.
#[derive(Debug)]
pub struct Message {
    pub segments: Vec<Segment>,
}

impl View for Message {
    type V = Seq<SegV>;

    open spec fn view(&self) -> Seq<SegV> {
        Seq::new(self.segments@.len(), |i: int| self.segments@[i]@)
    }
}

impl Message {
    /// The message made of the given segments.
    pub fn from_segments(segments: Vec<Segment>) -> (r: Message)
        ensures
            r@ == Seq::new(segments@.len(), |i: int| segments@[i]@),
    {
        Message { segments }
    }

    /// The empty message.
    pub fn new() -> (r: Message)
        ensures
            r@ == Seq::<SegV>::empty(),
    {
        let m = Message { segments: Vec::new() };
        proof {
            assert(m@ =~= Seq::<SegV>::empty());
        }
        m
    }

    /// A copy of this message, equal under the model.
    pub fn deep_clone(&self) -> (r: Message)
        ensures
            r@ == self@,
    {
        let n = self.segments.len();
        let mut out: Vec<Segment> = Vec::new();
        let mut i: usize = 0;
        while i < n
            invariant
                i <= n,
                n == self.segments@.len(),
                out@.len() == i,
                forall|k: int| 0 <= k < i ==> (#[trigger] out@[k])@ == self.segments@[k]@,
            decreases n - i,
        {
            out.push(self.segments[i].deep_clone());
            i += 1;
        }
        proof {
            assert(Seq::new(out@.len(), |i: int| out@[i]@) =~= self@);
        }
        Message { segments: out }
    }
}

/// What a wire segment denotes: an object whose `type` field is a string
/// and which has a `data` field.
pub open spec fn parse_seg_spec(j: Jv) -> Option<SegV> {
    match (spec_get(j, "type"@), spec_get(j, "data"@)) {
        (Some(Jv::Str(t)), Some(d)) => Some(SegV { typ: t, data: d }),
        _ => None,
    }
}

/// Whether every element of a wire array denotes a segment.
pub open spec fn parse_array_ok(a: Seq<Jv>) -> bool {
    forall|i: int| 0 <= i < a.len() ==> (#[trigger] parse_seg_spec(a[i])) is Some
}

/// What a wire segment array denotes: all of its elements must denote
/// segments.
pub open spec fn parse_array_spec(a: Seq<Jv>) -> Option<Seq<SegV>> {
    if parse_array_ok(a) {
        Some(Seq::new(a.len(), |i: int| parse_seg_spec(a[i])->Some_0))
    } else {
        None
    }
}

/// The wire form of a segment: `{type, data}`.
pub open spec fn render_seg_spec(s: SegV) -> Jv {
    Jv::Obj(seq![("type"@, Jv::Str(s.typ)), ("data"@, s.data)])
}

/// The wire form of a message: one object per segment.
pub open spec fn render_array_spec(m: Seq<SegV>) -> Seq<Jv> {
    Seq::new(m.len(), |i: int| render_seg_spec(m[i]))
}

/// Parsing a rendered segment gives the segment back.
proof fn lemma_parse_render_seg(s: SegV)
    ensures
        parse_seg_spec(render_seg_spec(s)) == Some(s),
{
    reveal_strlit("type");
    reveal_strlit("data");
    assert("type"@[0] == 't' && "data"@[0] == 'd');
    assert("type"@ != "data"@);
    let fields = render_seg_spec(s)->Obj_0;
    assert(spec_lookup(fields, "type"@) == Some(Jv::Str(s.typ)));
    let rest = fields.subrange(1, 2);
    assert(rest[0] == ("data"@, s.data));
    assert(spec_lookup(fields, "data"@) == spec_lookup(rest, "data"@));
    assert(spec_lookup(rest, "data"@) == Some(s.data));
}

/// Parsing an array rendering recovers the message exactly: the codec's
/// round-trip law.
pub proof fn lemma_parse_render_array(m: Seq<SegV>)
    ensures
        parse_array_spec(render_array_spec(m)) == Some(m),
{
    let a = render_array_spec(m);
    assert forall|i: int| 0 <= i < a.len() implies (#[trigger] parse_seg_spec(a[i])) is Some by {
        lemma_parse_render_seg(m[i]);
    }
    assert forall|i: int| 0 <= i < a.len() implies #[trigger] parse_seg_spec(a[i])->Some_0
        == m[i] by {
        lemma_parse_render_seg(m[i]);
    }
    assert(parse_array_spec(a)->Some_0 =~= m);
}

/// Reads a message from a wire array of `{type, data}` objects.
///
/// Returns the message exactly when every element denotes a segment.
pub fn parse_segments_from_array(v: &Vec<JsonValue>) -> (r: Option<Message>)
    ensures
        match r {
            Some(m) => parse_array_spec(jv_of_seq(v@)) == Some(m@),
            None => parse_array_spec(jv_of_seq(v@)) is None,
        },
{
    broadcast use lemma_jv_of_seq;

    let ghost a = jv_of_seq(v@);
    let n = v.len();
    let mut out: Vec<Segment> = Vec::new();
    let mut i: usize = 0;
    while i < n
        invariant
            i <= n,
            n == v@.len(),
            a == jv_of_seq(v@),
            out@.len() == i,
            forall|k: int|
                0 <= k < i ==> ((#[trigger] parse_seg_spec(a[k])) matches Some(s)
                    && out@[k]@ == s),
        decreases n - i,
    {
        proof {
            lemma_jv_of_seq(v@);
            assert(a[i as int] == v@[i as int]@);
        }
        let t = match v[i].get("type") {
            Some(tv) => match tv.as_str() {
                Some(t) => t,
                None => {
                    proof {
                        assert(parse_seg_spec(a[i as int]) is None);
                    }
                    return None;
                },
            },
            None => {
                proof {
                    assert(parse_seg_spec(a[i as int]) is None);
                }
                return None;
            },
        };
        let d = match v[i].get("data") {
            Some(d) => d,
            None => {
                proof {
                    assert(parse_seg_spec(a[i as int]) is None);
                }
                return None;
            },
        };
        let seg = Segment { type_: t.to_owned(), data: d.deep_clone() };
        out.push(seg);
        i += 1;
    }
    let m = Message { segments: out };
    proof {
        assert(m@ =~= parse_array_spec(a)->Some_0);
    }
    Some(m)
}

impl Message {
    /// The wire form of this message: one `{type, data}` object per
    /// segment.
    pub fn render_array(&self) -> (r: Vec<JsonValue>)
        ensures
            jv_of_seq(r@) == render_array_spec(self@),
    {
        broadcast use lemma_jv_of_seq;

        let n = self.segments.len();
        let mut out: Vec<JsonValue> = Vec::new();
        let mut i: usize = 0;
        while i < n
            invariant
                i <= n,
                n == self.segments@.len(),
                out@.len() == i,
                forall|k: int| 0 <= k < i ==> (#[trigger] out@[k])@ == render_seg_spec(
                    self.segments@[k]@,
                ),
            decreases n - i,
        {
            let seg = &self.segments[i];
            let mut fields: Vec<(String, JsonValue)> = Vec::new();
            fields.push((String::from_str("type"), JsonValue::Str(seg.type_.clone())));
            fields.push((String::from_str("data"), seg.data.deep_clone()));
            let obj = JsonValue::Obj(fields);
            proof {
                crate::json::lemma_jv_of_fields(fields@);
                assert(obj@->Obj_0 =~= render_seg_spec(seg@)->Obj_0);
            }
            out.push(obj);
            i += 1;
        }
        proof {
            assert(jv_of_seq(out@) =~= render_array_spec(self@));
        }
        out
    }
}

/// The text a segment contributes to the plain-text projection: the
/// `text` field of a `text`-typed segment.
pub open spec fn seg_text(s: SegV) -> Option<Seq<char>> {
    if s.typ == "text"@ {
        match spec_get(s.data, "text"@) {
            Some(Jv::Str(t)) => Some(t),
            _ => None,
        }
    } else {
        None
    }
}

/// The texts of the `text`-typed segments, in order.
pub open spec fn text_parts(m: Seq<SegV>) -> Seq<Seq<char>>
    decreases m.len(),
{
    if m.len() == 0 {
        Seq::empty()
    } else {
        let rest = text_parts(m.subrange(1, m.len() as int));
        match seg_text(m[0]) {
            Some(t) => seq![t] + rest,
            None => rest,
        }
    }
}

/// The plain-text projection of a message: `None` when no segment
/// contributes text, else the trim of the newline-join of the texts.
pub open spec fn plain_text_spec(m: Seq<SegV>) -> Option<Seq<char>> {
    if text_parts(m).len() == 0 {
        None
    } else {
        Some(trim_spec(join_nl(text_parts(m))))
    }
}

proof fn lemma_text_parts_snoc(m: Seq<SegV>, x: SegV)
    ensures
        text_parts(m.push(x)) == text_parts(m) + (match seg_text(x) {
            Some(t) => seq![t],
            None => Seq::<Seq<char>>::empty(),
        }),
    decreases m.len(),
{
    let whole = m.push(x);
    let wsub = whole.subrange(1, whole.len() as int);
    if m.len() == 0 {
        assert(wsub =~= Seq::<SegV>::empty());
        assert(text_parts(wsub) == Seq::<Seq<char>>::empty());
        assert(whole[0] == x);
        match seg_text(x) {
            Some(t) => {
                assert(text_parts(whole) == seq![t] + text_parts(wsub));
                assert(text_parts(whole) =~= text_parts(m) + seq![t]);
            },
            None => {
                assert(text_parts(whole) == text_parts(wsub));
                assert(text_parts(whole) =~= text_parts(m));
            },
        }
    } else {
        let msub = m.subrange(1, m.len() as int);
        assert(wsub =~= msub.push(x));
        lemma_text_parts_snoc(msub, x);
        assert(whole[0] == m[0]);
        let tail = (match seg_text(x) {
            Some(t) => seq![t],
            None => Seq::<Seq<char>>::empty(),
        });
        assert(text_parts(wsub) == text_parts(msub) + tail);
        match seg_text(m[0]) {
            Some(t0) => {
                assert(text_parts(whole) == seq![t0] + text_parts(wsub));
                assert(text_parts(m) == seq![t0] + text_parts(msub));
                assert(text_parts(whole) =~= text_parts(m) + tail);
            },
            None => {
                assert(text_parts(whole) == text_parts(wsub));
                assert(text_parts(m) == text_parts(msub));
                assert(text_parts(whole) =~= text_parts(m) + tail);
            },
        }
    }
}

proof fn lemma_join_nl_snoc(parts: Seq<Seq<char>>, t: Seq<char>)
    ensures
        join_nl(parts.push(t)) == if parts.len() == 0 {
            t
        } else {
            join_nl(parts) + seq!['\n'] + t
        },
    decreases parts.len(),
{
    let whole = parts.push(t);
    if parts.len() == 0 {
        assert(whole[0] == t);
    } else {
        assert(whole.subrange(1, whole.len() as int) =~= parts.subrange(
            1,
            parts.len() as int,
        ).push(t));
        lemma_join_nl_snoc(parts.subrange(1, parts.len() as int), t);
        if parts.len() == 1 {
            assert(join_nl(whole) =~= join_nl(parts) + seq!['\n'] + t);
        } else {
            assert(join_nl(whole) =~= join_nl(parts) + seq!['\n'] + t);
        }
    }
}

impl Message {
    /// The plain text of the message: the `text` fields of its
    /// `text`-typed segments, joined by newlines and trimmed of ASCII
    /// whitespace; `None` when no segment contributes text.
    pub fn plain_text(&self) -> (r: Option<String>)
        ensures
            match r {
                Some(s) => plain_text_spec(self@) == Some(s@),
                None => plain_text_spec(self@) is None,
            },
    {
        let n = self.segments.len();
        let mut acc: Vec<char> = Vec::new();
        let mut count: usize = 0;
        let mut i: usize = 0;
        while i < n
            invariant
                i <= n,
                n == self.segments@.len(),
                count == text_parts(self@.take(i as int)).len(),
                acc@ == join_nl(text_parts(self@.take(i as int))),
                count <= i,
            decreases n - i,
        {
            let ghost prefix = self@.take(i as int);
            let seg = &self.segments[i];
            if str_eq(seg.type_.as_str(), "text") {
                if let Some(dv) = seg.data.get("text") {
                    if let Some(t) = dv.as_str() {
                        if count == 0 {
                            push_chars_of_str(t, &mut acc);
                        } else {
                            acc.push('\n');
                            push_chars_of_str(t, &mut acc);
                        }
                        count = count + 1;
                        proof {
                            assert(seg_text(seg@) == Some(t@));
                            lemma_text_parts_snoc(prefix, seg@);
                            lemma_join_nl_snoc(text_parts(prefix), t@);
                            assert(self@.take(i as int + 1) =~= prefix.push(seg@));
                            assert(text_parts(prefix).push(t@) =~= text_parts(prefix) + seq![
                                t@,
                            ]);
                            assert(acc@ =~= join_nl(text_parts(self@.take(i as int + 1))));
                        }
                        i += 1;
                        continue;
                    }
                }
            }
            proof {
                assert(seg_text(seg@) is None);
                lemma_text_parts_snoc(prefix, seg@);
                assert(self@.take(i as int + 1) =~= prefix.push(seg@));
                assert(text_parts(prefix) + Seq::<Seq<char>>::empty() =~= text_parts(prefix));
            }
            i += 1;
        }
        proof {
            assert(self@.take(n as int) =~= self@);
        }
        if count == 0 {
            None
        } else {
            let trimmed = trim_chars(&acc);
            Some(chars_to_string(&trimmed))
        }
    }
}

/// The human-readable rendering of one segment: its text when it is a
/// `text` segment, else its type tag in brackets, as in `[image]`.
pub open spec fn seg_human(s: SegV) -> Seq<char> {
    if s.typ == "text"@ {
        match seg_text(s) {
            Some(t) => t,
            None => Seq::empty(),
        }
    } else {
        seq!['['] + s.typ + seq![']']
    }
}

/// The human-readable rendering of a message: its segments' renderings,
/// concatenated.
pub open spec fn human_spec(m: Seq<SegV>) -> Seq<char>
    decreases m.len(),
{
    if m.len() == 0 {
        Seq::empty()
    } else {
        seg_human(m[0]) + human_spec(m.subrange(1, m.len() as int))
    }
}

proof fn lemma_human_snoc(m: Seq<SegV>, x: SegV)
    ensures
        human_spec(m.push(x)) == human_spec(m) + seg_human(x),
    decreases m.len(),
{
    let whole = m.push(x);
    let wsub = whole.subrange(1, whole.len() as int);
    if m.len() == 0 {
        assert(wsub =~= Seq::<SegV>::empty());
        assert(human_spec(wsub) == Seq::<char>::empty());
        assert(whole[0] == x);
        assert(human_spec(whole) == seg_human(x) + human_spec(wsub));
        assert(human_spec(whole) =~= human_spec(m) + seg_human(x));
    } else {
        let msub = m.subrange(1, m.len() as int);
        assert(wsub =~= msub.push(x));
        lemma_human_snoc(msub, x);
        assert(whole[0] == m[0]);
        assert(human_spec(whole) == seg_human(m[0]) + human_spec(wsub));
        assert(human_spec(m) == seg_human(m[0]) + human_spec(msub));
        assert(human_spec(whole) =~= human_spec(m) + seg_human(x));
    }
}

impl Message {
    /// Renders the message for humans: text as itself, every other
    /// segment as its bracketed type tag.
    pub fn human_string(&self) -> (r: String)
        ensures
            r@ == human_spec(self@),
    {
        let n = self.segments.len();
        let mut acc: Vec<char> = Vec::new();
        let mut i: usize = 0;
        while i < n
            invariant
                i <= n,
                n == self.segments@.len(),
                acc@ == human_spec(self@.take(i as int)),
            decreases n - i,
        {
            let ghost prefix = self@.take(i as int);
            let seg = &self.segments[i];
            if str_eq(seg.type_.as_str(), "text") {
                let mut had_text = false;
                if let Some(dv) = seg.data.get("text") {
                    if let Some(t) = dv.as_str() {
                        push_chars_of_str(t, &mut acc);
                        had_text = true;
                    }
                }
                proof {
                    lemma_human_snoc(prefix, seg@);
                    assert(self@.take(i as int + 1) =~= prefix.push(seg@));
                    if !had_text {
                        assert(acc@ =~= human_spec(prefix) + seg_human(seg@));
                    }
                }
            } else {
                acc.push('[');
                push_chars_of_str(seg.type_.as_str(), &mut acc);
                acc.push(']');
                proof {
                    lemma_human_snoc(prefix, seg@);
                    assert(self@.take(i as int + 1) =~= prefix.push(seg@));
                    assert(acc@ =~= human_spec(prefix) + seg_human(seg@));
                }
            }
            i += 1;
        }
        proof {
            assert(self@.take(n as int) =~= self@);
        }
        chars_to_string(&acc)
    }
}

/// The quote-reply segment for a message id.
pub open spec fn reply_seg_spec(message_id: int) -> SegV {
    SegV {
        typ: "reply"@,
        data: Jv::Obj(seq![("id"@, Jv::Str(crate::strutil::dec_chars_i64(message_id)))]),
    }
}

impl Message {
    /// This message with a quote-reply segment for `message_id` put in
    /// front.
    pub fn add_reply(&self, message_id: i32) -> (r: Message)
        ensures
            r@ == seq![reply_seg_spec(message_id as int)] + self@,
    {
        let mut id_chars: Vec<char> = Vec::new();
        crate::strutil::push_dec_i64(message_id as i64, &mut id_chars);
        let mut fields: Vec<(String, JsonValue)> = Vec::new();
        fields.push((String::from_str("id"), JsonValue::Str(chars_to_string(&id_chars))));
        let reply_seg = Segment { type_: String::from_str("reply"), data: JsonValue::Obj(fields) };
        proof {
            crate::json::lemma_jv_of_fields(fields@);
            assert(reply_seg@.data->Obj_0 =~= reply_seg_spec(message_id as int).data->Obj_0);
        }
        let mut out: Vec<Segment> = Vec::new();
        out.push(reply_seg);
        let n = self.segments.len();
        let mut i: usize = 0;
        while i < n
            invariant
                i <= n,
                n == self.segments@.len(),
                out@.len() == i + 1,
                out@[0]@ == reply_seg_spec(message_id as int),
                forall|k: int| 0 <= k < i ==> (#[trigger] out@[k + 1])@ == self.segments@[k]@,
            decreases n - i,
        {
            out.push(self.segments[i].deep_clone());
            i += 1;
        }
        let m = Message { segments: out };
        proof {
            let ghost full = seq![reply_seg_spec(message_id as int)] + self@;
            assert forall|j: int| 0 <= j < m@.len() implies m@[j] == full[j] by {
                if j > 0 {
                    assert(out@[(j - 1) + 1]@ == self.segments@[j - 1]@);
                }
            }
            assert(m@ =~= full);
        }
        m
    }
}

impl PartialEq for Segment {
    fn eq(&self, other: &Segment) -> (r: bool) {
        str_eq(self.type_.as_str(), other.type_.as_str()) && json_eq(&self.data, &other.data)
    }
}

impl vstd::std_specs::cmp::PartialEqSpecImpl for Segment {
    open spec fn obeys_eq_spec() -> bool {
        true
    }

    open spec fn eq_spec(&self, other: &Segment) -> bool {
        self@ == other@
    }
}

impl PartialEq for Message {
    fn eq(&self, other: &Message) -> (r: bool) {
        let n = self.segments.len();
        if n != other.segments.len() {
            proof {
                assert(self@.len() != other@.len());
            }
            return false;
        }
        let mut i: usize = 0;
        while i < n
            invariant
                i <= n,
                n == self.segments@.len(),
                n == other.segments@.len(),
                forall|k: int| 0 <= k < i ==> self.segments@[k]@ == (#[trigger] other.segments@[
                    k
                ])@,
            decreases n - i,
        {
            let same = str_eq(
                self.segments[i].type_.as_str(),
                other.segments[i].type_.as_str(),
            ) && json_eq(&self.segments[i].data, &other.segments[i].data);
            if !same {
                proof {
                    assert(self@[i as int] != other@[i as int]);
                }
                return false;
            }
            i += 1;
        }
        proof {
            assert(self@ =~= other@);
        }
        true
    }
}

impl vstd::std_specs::cmp::PartialEqSpecImpl for Message {
    open spec fn obeys_eq_spec() -> bool {
        true
    }

    open spec fn eq_spec(&self, other: &Message) -> bool {
        self@ == other@
    }
}

} // verus!
