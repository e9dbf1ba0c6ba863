//! The CQ-string codec.
//!
//! A CQ string encodes a message as plain text interleaved with blocks
//! of the form `[CQ:type,key=value,...]`. In text, `&`, `[` and `]` are
//! escaped as `&amp;`, `&#91;` and `&#93;`; in parameter values a comma
//! is additionally escaped as `&#44;`.

use vstd::prelude::*;
use vstd::string::StringExecFns;

use crate::json::{jv_of_fields, Jv, JsonValue};
use crate::message::{Message, SegV, Segment};
use crate::strutil::{chars_to_string, push_chars_of_str, str_chars, str_eq};

verus! {

/// The escape text for `&`.
pub open spec fn amp_esc() -> Seq<char> {
    seq!['&', 'a', 'm', 'p', ';']
}

/// The escape text for `[`.
pub open spec fn lb_esc() -> Seq<char> {
    seq!['&', '#', '9', '1', ';']
}

/// The escape text for `]`.
pub open spec fn rb_esc() -> Seq<char> {
    seq!['&', '#', '9', '3', ';']
}

/// The escape text for `,`.
pub open spec fn comma_esc() -> Seq<char> {
    seq!['&', '#', '4', '4', ';']
}

/// CQ unescaping: decodes the four escape sequences, leaves every other
/// character as it is.
pub open spec fn unesc(s: Seq<char>) -> Seq<char>
    decreases s.len(),
{
    if s.len() == 0 {
        Seq::empty()
    } else if s.len() >= 5 && s.subrange(0, 5) == amp_esc() {
        seq!['&'] + unesc(s.subrange(5, s.len() as int))
    } else if s.len() >= 5 && s.subrange(0, 5) == lb_esc() {
        seq!['['] + unesc(s.subrange(5, s.len() as int))
    } else if s.len() >= 5 && s.subrange(0, 5) == rb_esc() {
        seq![']'] + unesc(s.subrange(5, s.len() as int))
    } else if s.len() >= 5 && s.subrange(0, 5) == comma_esc() {
        seq![','] + unesc(s.subrange(5, s.len() as int))
    } else {
        seq![s[0]] + unesc(s.subrange(1, s.len() as int))
    }
}

/// CQ escaping of one text character.
pub open spec fn esc_char_text(c: char) -> Seq<char> {
    if c == '&' {
        amp_esc()
    } else if c == '[' {
        lb_esc()
    } else if c == ']' {
        rb_esc()
    } else {
        seq![c]
    }
}

/// CQ escaping of text.
pub open spec fn esc_text(s: Seq<char>) -> Seq<char>
    decreases s.len(),
{
    if s.len() == 0 {
        Seq::empty()
    } else {
        esc_char_text(s[0]) + esc_text(s.subrange(1, s.len() as int))
    }
}

/// CQ escaping of one parameter-value character: also the comma.
pub open spec fn esc_char_val(c: char) -> Seq<char> {
    if c == ',' {
        comma_esc()
    } else {
        esc_char_text(c)
    }
}

/// CQ escaping of a parameter value.
pub open spec fn esc_val(s: Seq<char>) -> Seq<char>
    decreases s.len(),
{
    if s.len() == 0 {
        Seq::empty()
    } else {
        esc_char_val(s[0]) + esc_val(s.subrange(1, s.len() as int))
    }
}

/// Escaped text holds neither bracket, and a comma only where the
/// character itself was a comma.
proof fn lemma_esc_val_chars(s: Seq<char>)
    ensures
        forall|i: int|
            0 <= i < esc_val(s).len() ==> #[trigger] esc_val(s)[i] != '[' && esc_val(s)[i]
                != ']' && esc_val(s)[i] != ',',
    decreases s.len(),
{
    if s.len() > 0 {
        let rest = s.subrange(1, s.len() as int);
        lemma_esc_val_chars(rest);
        let head = esc_char_val(s[0]);
        assert forall|i: int|
            0 <= i < esc_val(s).len() implies #[trigger] esc_val(s)[i] != '[' && esc_val(s)[i]
            != ']' && esc_val(s)[i] != ',' by {
            if i < head.len() {
                assert(esc_val(s)[i] == head[i]);
            } else {
                assert(esc_val(s)[i] == esc_val(rest)[i - head.len()]);
            }
        }
    }
}

/// Escaped text holds no bracket.
proof fn lemma_esc_text_chars(s: Seq<char>)
    ensures
        forall|i: int|
            0 <= i < esc_text(s).len() ==> #[trigger] esc_text(s)[i] != '[' && esc_text(s)[i]
                != ']',
    decreases s.len(),
{
    if s.len() > 0 {
        let rest = s.subrange(1, s.len() as int);
        lemma_esc_text_chars(rest);
        let head = esc_char_text(s[0]);
        assert forall|i: int|
            0 <= i < esc_text(s).len() implies #[trigger] esc_text(s)[i] != '[' && esc_text(
                s,
            )[i] != ']' by {
            if i < head.len() {
                assert(esc_text(s)[i] == head[i]);
            } else {
                assert(esc_text(s)[i] == esc_text(rest)[i - head.len()]);
            }
        }
    }
}

/// Unescaping undoes text escaping.
proof fn lemma_unesc_esc_text(s: Seq<char>)
    ensures
        unesc(esc_text(s)) == s,
    decreases s.len(),
{
    if s.len() > 0 {
        let rest = s.subrange(1, s.len() as int);
        lemma_unesc_esc_text(rest);
        let whole = esc_char_text(s[0]) + esc_text(rest);
        let head = esc_char_text(s[0]);
        assert(whole.subrange(head.len() as int, whole.len() as int) =~= esc_text(rest));
        if s[0] == '&' || s[0] == '[' || s[0] == ']' {
            assert(whole.subrange(0, 5) =~= head);
            assert(unesc(whole) =~= s);
        } else {
            assert(whole[0] == s[0]);
            if whole.len() >= 5 {
                assert(whole.subrange(0, 5)[0] == s[0]);
                assert(whole.subrange(0, 5) != amp_esc());
                assert(whole.subrange(0, 5) != lb_esc());
                assert(whole.subrange(0, 5) != rb_esc());
                assert(whole.subrange(0, 5) != comma_esc());
            }
            assert(whole.subrange(1, whole.len() as int) =~= esc_text(rest));
            assert(unesc(whole) =~= s);
        }
    }
}

/// Unescaping undoes value escaping.
proof fn lemma_unesc_esc_val(s: Seq<char>)
    ensures
        unesc(esc_val(s)) == s,
    decreases s.len(),
{
    if s.len() > 0 {
        let rest = s.subrange(1, s.len() as int);
        lemma_unesc_esc_val(rest);
        let whole = esc_char_val(s[0]) + esc_val(rest);
        let head = esc_char_val(s[0]);
        assert(whole.subrange(head.len() as int, whole.len() as int) =~= esc_val(rest));
        if s[0] == '&' || s[0] == '[' || s[0] == ']' || s[0] == ',' {
            assert(whole.subrange(0, 5) =~= head);
            assert(unesc(whole) =~= s);
        } else {
            assert(whole[0] == s[0]);
            if whole.len() >= 5 {
                assert(whole.subrange(0, 5)[0] == s[0]);
                assert(whole.subrange(0, 5) != amp_esc());
                assert(whole.subrange(0, 5) != lb_esc());
                assert(whole.subrange(0, 5) != rb_esc());
                assert(whole.subrange(0, 5) != comma_esc());
            }
            assert(whole.subrange(1, whole.len() as int) =~= esc_val(rest));
            assert(unesc(whole) =~= s);
        }
    }
}

/// The first position at or after `i` holding `c`, or the length.
pub open spec fn find_from(s: Seq<char>, c: char, i: int) -> int
    decreases s.len() - i,
{
    if i < 0 || i >= s.len() {
        s.len() as int
    } else if s[i] == c {
        i
    } else {
        find_from(s, c, i + 1)
    }
}

pub proof fn lemma_find_from(s: Seq<char>, c: char, i: int)
    requires
        0 <= i <= s.len(),
    ensures
        i <= find_from(s, c, i) <= s.len(),
        find_from(s, c, i) < s.len() ==> s[find_from(s, c, i)] == c,
        forall|k: int| i <= k < find_from(s, c, i) ==> s[k] != c,
    decreases s.len() - i,
{
    if i < s.len() && s[i] != c {
        lemma_find_from(s, c, i + 1);
    }
}

/// The text segment holding `t`.
pub open spec fn text_seg(t: Seq<char>) -> SegV {
    SegV { typ: "text"@, data: Jv::Obj(seq![("text"@, Jv::Str(t))]) }
}

/// What the parameter part of a CQ block denotes, read from position
/// `i` of `body`, which is either the end or a comma: a list of
/// `key=value` fields with unescaped string values.
pub open spec fn cq_params(body: Seq<char>, i: int) -> Option<Seq<(Seq<char>, Jv)>>
    decreases body.len() - i,
{
    if i < 0 || i >= body.len() {
        Some(Seq::empty())
    } else {
        let j = find_from(body, ',', i + 1);
        let piece = body.subrange(i + 1, j);
        let e = find_from(piece, '=', 0);
        if e >= piece.len() {
            None
        } else {
            let k = piece.subrange(0, e);
            let v = unesc(piece.subrange(e + 1, piece.len() as int));
            proof {
                lemma_find_from(body, ',', i + 1);
            }
            match cq_params(body, j) {
                Some(rest) => Some(seq![(k, Jv::Str(v))] + rest),
                None => None,
            }
        }
    }
}

/// What the inside of a CQ block (the text between the brackets)
/// denotes: `CQ:` then the segment type, then the parameters.
pub open spec fn cq_block(inner: Seq<char>) -> Option<SegV> {
    if inner.len() >= 3 && inner.subrange(0, 3) == seq!['C', 'Q', ':'] {
        let body = inner.subrange(3, inner.len() as int);
        let t_end = find_from(body, ',', 0);
        let typ = body.subrange(0, t_end);
        if typ.len() == 0 {
            None
        } else {
            match cq_params(body, t_end) {
                Some(fields) => Some(SegV { typ: typ, data: Jv::Obj(fields) }),
                None => None,
            }
        }
    } else {
        None
    }
}

/// What a CQ string denotes from position `i` on: text runs become
/// text segments, `[...]` blocks become typed segments. `None` where a
/// block has no closing bracket or is malformed.
pub open spec fn cq_parse_from(s: Seq<char>, i: int) -> Option<Seq<SegV>>
    decreases s.len() - i,
{
    if i < 0 || i >= s.len() {
        Some(Seq::empty())
    } else if s[i] == '[' {
        let j = find_from(s, ']', i);
        if j >= s.len() {
            None
        } else {
            let inner = s.subrange(i + 1, j);
            proof {
                lemma_find_from(s, ']', i);
            }
            match cq_block(inner) {
                Some(seg) => match cq_parse_from(s, j + 1) {
                    Some(rest) => Some(seq![seg] + rest),
                    None => None,
                },
                None => None,
            }
        }
    } else {
        let j = find_from(s, '[', i);
        let t = unesc(s.subrange(i, j));
        proof {
            lemma_find_from(s, '[', i);
        }
        match cq_parse_from(s, j) {
            Some(rest) => Some(seq![text_seg(t)] + rest),
            None => None,
        }
    }
}

/// What a whole CQ string denotes.
pub open spec fn cq_parse_spec(s: Seq<char>) -> Option<Seq<SegV>> {
    cq_parse_from(s, 0)
}

/// The first position at or after `i` holding `c`, or the length.
fn find_char(cs: &Vec<char>, c: char, i: usize) -> (r: usize)
    requires
        i <= cs@.len(),
    ensures
        r == find_from(cs@, c, i as int),
        i <= r <= cs@.len(),
        r < cs@.len() ==> cs@[r as int] == c,
        forall|k: int| i <= k < r ==> cs@[k] != c,
{
    let n = cs.len();
    let mut j: usize = i;
    while j < n && cs[j] != c
        invariant
            i <= j <= n,
            n == cs@.len(),
            forall|k: int| i <= k < j ==> cs@[k] != c,
        decreases n - j,
    {
        j += 1;
    }
    proof {
        lemma_find_from(cs@, c, i as int);
        if find_from(cs@, c, i as int) < j {
            assert(cs@[find_from(cs@, c, i as int)] == c);
        }
        if j < find_from(cs@, c, i as int) {
            assert(cs@[j as int] == c);
        }
    }
    j
}

/// The characters from `a` (inclusive) to `b` (exclusive).
fn subvec(cs: &Vec<char>, a: usize, b: usize) -> (r: Vec<char>)
    requires
        a <= b <= cs@.len(),
    ensures
        r@ == cs@.subrange(a as int, b as int),
{
    let mut out: Vec<char> = Vec::new();
    let mut k: usize = a;
    while k < b
        invariant
            a <= k <= b <= cs@.len(),
            out@ == cs@.subrange(a as int, k as int),
        decreases b - k,
    {
        out.push(cs[k]);
        proof {
            assert(out@ =~= cs@.subrange(a as int, k as int + 1));
        }
        k += 1;
    }
    out
}

/// Whether the five characters at `i` are the given escape text.
fn escape_at(cs: &Vec<char>, i: usize, e1: char, e2: char, e3: char) -> (r: bool)
    requires
        i < cs@.len(),
    ensures
        r == (cs@.len() - i >= 5 && cs@.subrange(i as int, i as int + 5) == seq![
            '&',
            e1,
            e2,
            e3,
            ';',
        ]),
{
    if cs.len() - i < 5 {
        return false;
    }
    let hit = cs[i] == '&' && cs[i + 1] == e1 && cs[i + 2] == e2 && cs[i + 3] == e3 && cs[i + 4]
        == ';';
    proof {
        let sub = cs@.subrange(i as int, i as int + 5);
        assert(sub.len() == 5);
        assert(sub[0] == cs@[i as int]);
        assert(sub[1] == cs@[i as int + 1]);
        assert(sub[2] == cs@[i as int + 2]);
        assert(sub[3] == cs@[i as int + 3]);
        assert(sub[4] == cs@[i as int + 4]);
        if hit {
            assert(sub =~= seq!['&', e1, e2, e3, ';']);
        }
    }
    hit
}

/// CQ unescaping of a character run.
fn unesc_vec(cs: &Vec<char>) -> (r: Vec<char>)
    ensures
        r@ == unesc(cs@),
{
    let n = cs.len();
    let mut out: Vec<char> = Vec::new();
    let mut i: usize = 0;
    proof {
        assert(cs@.subrange(0, n as int) =~= cs@);
        assert(unesc(cs@) =~= out@ + unesc(cs@.subrange(0, n as int)));
    }
    while i < n
        invariant
            i <= n,
            n == cs@.len(),
            unesc(cs@) == out@ + unesc(cs@.subrange(i as int, n as int)),
        decreases n - i,
    {
        let ghost rem = cs@.subrange(i as int, n as int);
        proof {
            assert(rem.len() == n - i);
            assert forall|a: int, b: int|
                0 <= a <= b <= rem.len() implies #[trigger] rem.subrange(a, b)
                == cs@.subrange(i + a, i + b) by {
                assert(rem.subrange(a, b) =~= cs@.subrange(i + a, i + b));
            }
        }
        if escape_at(cs, i, 'a', 'm', 'p') {
            out.push('&');
            proof {
                assert(rem.subrange(0, 5) == amp_esc());
                assert(out@ + unesc(cs@.subrange(i as int + 5, n as int)) =~= unesc(cs@));
            }
            i += 5;
        } else if escape_at(cs, i, '#', '9', '1') {
            out.push('[');
            proof {
                assert(rem.subrange(0, 5) == lb_esc());
                assert(rem.subrange(0, 5) != amp_esc());
                assert(out@ + unesc(cs@.subrange(i as int + 5, n as int)) =~= unesc(cs@));
            }
            i += 5;
        } else if escape_at(cs, i, '#', '9', '3') {
            out.push(']');
            proof {
                assert(rem.subrange(0, 5) == rb_esc());
                assert(rem.subrange(0, 5) != amp_esc());
                assert(rem.subrange(0, 5) != lb_esc());
                assert(out@ + unesc(cs@.subrange(i as int + 5, n as int)) =~= unesc(cs@));
            }
            i += 5;
        } else if escape_at(cs, i, '#', '4', '4') {
            out.push(',');
            proof {
                assert(rem.subrange(0, 5) == comma_esc());
                assert(rem.subrange(0, 5) != amp_esc());
                assert(rem.subrange(0, 5) != lb_esc());
                assert(rem.subrange(0, 5) != rb_esc());
                assert(out@ + unesc(cs@.subrange(i as int + 5, n as int)) =~= unesc(cs@));
            }
            i += 5;
        } else {
            out.push(cs[i]);
            proof {
                if rem.len() >= 5 {
                    assert(rem.subrange(0, 5) != amp_esc());
                    assert(rem.subrange(0, 5) != lb_esc());
                    assert(rem.subrange(0, 5) != rb_esc());
                    assert(rem.subrange(0, 5) != comma_esc());
                }
                assert(rem[0] == cs@[i as int]);
                assert(out@ + unesc(cs@.subrange(i as int + 1, n as int)) =~= unesc(cs@));
            }
            i += 1;
        }
    }
    proof {
        assert(unesc(cs@.subrange(n as int, n as int)) =~= Seq::<char>::empty());
        assert(out@ =~= unesc(cs@));
    }
    out
}

/// A usable CQ name (a segment type or a parameter key): nonempty,
/// with none of the characters the grammar claims for itself.
pub open spec fn name_ok(s: Seq<char>) -> bool {
    s.len() > 0 && forall|i: int|
        0 <= i < s.len() ==> s[i] != '[' && s[i] != ']' && s[i] != ',' && s[i] != '=' && s[i]
            != '&'
}

/// Parameters the CQ grammar can carry: usable keys, string values.
pub open spec fn params_renderable(fs: Seq<(Seq<char>, Jv)>) -> bool {
    forall|i: int| 0 <= i < fs.len() ==> name_ok((#[trigger] fs[i]).0) && fs[i].1 is Str
}

/// A segment the CQ grammar can carry: a text segment holding nonempty
/// text, or a typed block with a usable name and renderable parameters.
pub open spec fn seg_renderable(s: SegV) -> bool {
    if s.typ == "text"@ {
        &&& s.data is Obj
        &&& s.data->Obj_0.len() == 1
        &&& s.data->Obj_0[0].0 == "text"@
        &&& s.data->Obj_0[0].1 is Str
        &&& s.data->Obj_0[0].1->Str_0.len() > 0
    } else {
        &&& name_ok(s.typ)
        &&& s.data is Obj
        &&& params_renderable(s.data->Obj_0)
    }
}

/// A message the CQ grammar can carry: every segment renderable, and
/// no two text segments side by side.
pub open spec fn msg_renderable(m: Seq<SegV>) -> bool {
    forall|i: int|
        0 <= i < m.len() ==> seg_renderable(#[trigger] m[i]) && (m[i].typ == "text"@ && i + 1
            < m.len() ==> m[i + 1].typ != "text"@)
}

/// The CQ text of a parameter list: `,key=value` for each field, with
/// the value escaped.
pub open spec fn render_params_cq(fs: Seq<(Seq<char>, Jv)>) -> Seq<char>
    decreases fs.len(),
{
    if fs.len() == 0 {
        Seq::empty()
    } else {
        seq![','] + fs[0].0 + seq!['='] + esc_val(fs[0].1->Str_0) + render_params_cq(
            fs.subrange(1, fs.len() as int),
        )
    }
}

/// The CQ text of one segment: escaped text, or a `[CQ:...]` block.
pub open spec fn render_seg_cq(s: SegV) -> Seq<char> {
    if s.typ == "text"@ {
        esc_text(s.data->Obj_0[0].1->Str_0)
    } else {
        seq!['['] + seq!['C', 'Q', ':'] + s.typ + render_params_cq(s.data->Obj_0) + seq![']']
    }
}

/// The CQ text of a message.
pub open spec fn render_cq(m: Seq<SegV>) -> Seq<char>
    decreases m.len(),
{
    if m.len() == 0 {
        Seq::empty()
    } else {
        render_seg_cq(m[0]) + render_cq(m.subrange(1, m.len() as int))
    }
}

/// Rendered parameters hold no bracket, and a comma only where a new
/// field begins.
proof fn lemma_render_params_chars(fs: Seq<(Seq<char>, Jv)>)
    requires
        params_renderable(fs),
    ensures
        forall|i: int|
            0 <= i < render_params_cq(fs).len() ==> #[trigger] render_params_cq(fs)[i] != '['
                && render_params_cq(fs)[i] != ']',
        fs.len() > 0 ==> render_params_cq(fs).len() > 0 && render_params_cq(fs)[0] == ',',
    decreases fs.len(),
{
    if fs.len() > 0 {
        let rest = fs.subrange(1, fs.len() as int);
        assert(params_renderable(rest)) by {
            assert(forall|i: int| 0 <= i < rest.len() ==> rest[i] == fs[i + 1]);
        }
        lemma_render_params_chars(rest);
        lemma_esc_val_chars(fs[0].1->Str_0);
        let head = seq![','] + fs[0].0 + seq!['='] + esc_val(fs[0].1->Str_0);
        assert(name_ok(fs[0].0));
        assert forall|i: int|
            0 <= i < render_params_cq(fs).len() implies #[trigger] render_params_cq(fs)[i]
            != '[' && render_params_cq(fs)[i] != ']' by {
            if i < head.len() {
                assert(render_params_cq(fs)[i] == head[i]);
                if 1 <= i < 1 + fs[0].0.len() {
                    assert(head[i] == fs[0].0[i - 1]);
                } else if i >= 2 + fs[0].0.len() {
                    assert(head[i] == esc_val(fs[0].1->Str_0)[i - 2 - fs[0].0.len()]);
                }
            } else {
                assert(render_params_cq(fs)[i] == render_params_cq(rest)[i - head.len()]);
            }
        }
    }
}

/// Reading rendered parameters from their own start recovers the
/// fields.
#[verifier::rlimit(60)]
proof fn lemma_parse_render_params(body: Seq<char>, i: int, fs: Seq<(Seq<char>, Jv)>)
    requires
        0 <= i <= body.len(),
        body.subrange(i, body.len() as int) == render_params_cq(fs),
        params_renderable(fs),
    ensures
        cq_params(body, i) == Some(fs),
    decreases fs.len(),
{
    let suffix = body.subrange(i, body.len() as int);
    if fs.len() == 0 {
        assert(suffix.len() == 0);
        assert(cq_params(body, i) == Some(Seq::<(Seq<char>, Jv)>::empty()));
        assert(Seq::<(Seq<char>, Jv)>::empty() =~= fs);
    } else {
        let k = fs[0].0;
        let v = fs[0].1->Str_0;
        let escv = esc_val(v);
        let rest = fs.subrange(1, fs.len() as int);
        assert(params_renderable(rest)) by {
            assert(forall|x: int| 0 <= x < rest.len() ==> rest[x] == fs[x + 1]);
        }
        lemma_esc_val_chars(v);
        lemma_render_params_chars(rest);
        assert(name_ok(k));
        let head = seq![','] + k + seq!['='] + escv;
        assert(suffix =~= head + render_params_cq(rest));
        assert forall|x: int| i <= x < body.len() implies body[x] == suffix[x - i] by {
            assert(suffix[x - i] == body.subrange(i, body.len() as int)[x - i]);
        }
        assert(body[i] == suffix[0]);
        assert(suffix[0] == head[0]);
        assert(body[i] == ',');
        // The next comma is exactly where the next field begins.
        let jj = i + head.len();
        assert forall|x: int| i + 1 <= x < jj implies body[x] != ',' by {
            assert(body[x] == suffix[x - i]);
            assert(suffix[x - i] == head[x - i]);
            if 1 <= x - i < 1 + k.len() {
                assert(head[x - i] == k[x - i - 1]);
            } else if x - i >= 2 + k.len() {
                assert(head[x - i] == escv[x - i - 2 - k.len()]);
            }
        }
        lemma_find_from(body, ',', i + 1);
        let j = find_from(body, ',', i + 1);
        if rest.len() > 0 {
            assert(body[jj] == render_params_cq(rest)[0]);
            assert(body[jj] == ',');
            assert(j == jj) by {
                if j < jj {
                    assert(body[j] != ',');
                }
                if j > jj {
                    assert(body[jj] != ',');
                }
            }
        } else {
            assert(jj == body.len());
            assert(j == jj) by {
                if j < jj {
                    assert(body[j] != ',');
                }
            }
        }
        let piece = body.subrange(i + 1, j);
        assert(piece =~= k + seq!['='] + escv);
        assert forall|x: int| 0 <= x < k.len() implies piece[x] != '=' by {
            assert(piece[x] == k[x]);
        }
        assert(piece[k.len() as int] == '=');
        lemma_find_from(piece, '=', 0);
        let e = find_from(piece, '=', 0);
        assert(e == k.len()) by {
            if e < k.len() {
                assert(piece[e] != '=');
            }
            if e > k.len() {
                assert(piece[k.len() as int] != '=');
            }
        }
        assert(piece.subrange(0, e) =~= k);
        assert(piece.subrange(e + 1, piece.len() as int) =~= escv);
        lemma_unesc_esc_val(v);
        assert(body.subrange(j, body.len() as int) =~= render_params_cq(rest));
        lemma_parse_render_params(body, j, rest);
        assert(fs[0].1 == Jv::Str(v));
        assert(cq_params(body, i) == Some(seq![(k, Jv::Str(v))] + rest));
        assert(seq![(k, Jv::Str(v))] + rest =~= fs);
    }
}

/// Reading a CQ rendering from position `i` recovers the message.
#[verifier::rlimit(100)]
proof fn lemma_parse_render_from(full: Seq<char>, i: int, m: Seq<SegV>)
    requires
        0 <= i <= full.len(),
        full.subrange(i, full.len() as int) == render_cq(m),
        msg_renderable(m),
    ensures
        cq_parse_from(full, i) == Some(m),
    decreases m.len(),
{
    let suffix = full.subrange(i, full.len() as int);
    if m.len() == 0 {
        assert(suffix.len() == 0);
        assert(cq_parse_from(full, i) == Some(Seq::<SegV>::empty()));
        assert(Seq::<SegV>::empty() =~= m);
    } else {
        let seg = m[0];
        let rest = m.subrange(1, m.len() as int);
        assert(seg_renderable(seg));
        assert(msg_renderable(rest)) by {
            assert(forall|x: int| 0 <= x < rest.len() ==> rest[x] == m[x + 1]);
        }
        let head = render_seg_cq(seg);
        assert(suffix =~= head + render_cq(rest));
        assert forall|x: int| i <= x < full.len() implies full[x] == suffix[x - i] by {
            assert(suffix[x - i] == full.subrange(i, full.len() as int)[x - i]);
        }
        if seg.typ == "text"@ {
            let t = seg.data->Obj_0[0].1->Str_0;
            lemma_esc_text_chars(t);
            lemma_unesc_esc_text(t);
            assert(head == esc_text(t));
            assert(head.len() > 0) by {
                assert(esc_char_text(t[0]).len() > 0);
            }
            assert(full[i] == suffix[0]);
            assert(suffix[0] == head[0]);
            assert(head[0] == esc_char_text(t[0])[0]);
            assert(full[i] != '[');
            let jj = i + head.len();
            assert forall|x: int| i <= x < jj implies full[x] != '[' by {
                assert(full[x] == head[x - i]);
            }
            lemma_find_from(full, '[', i);
            let j = find_from(full, '[', i);
            if rest.len() > 0 {
                assert(rest[0].typ != "text"@) by {
                    reveal_strlit("text");
                    assert(m[0].typ == "text"@ && 0 + 1 < m.len());
                }
                assert(render_cq(rest) =~= render_seg_cq(rest[0]) + render_cq(
                    rest.subrange(1, rest.len() as int),
                ));
                assert(render_seg_cq(rest[0])[0] == '[');
                assert(full[jj] == render_cq(rest)[0]);
                assert(full[jj] == '[');
                assert(j == jj) by {
                    if j < jj {
                        assert(full[j] != '[');
                    }
                    if j > jj {
                        assert(full[jj] != '[');
                    }
                }
            } else {
                assert(jj == full.len());
                assert(j == jj) by {
                    if j < jj {
                        assert(full[j] != '[');
                    }
                }
            }
            assert(full.subrange(i, j) =~= esc_text(t));
            assert(full.subrange(j, full.len() as int) =~= render_cq(rest));
            lemma_parse_render_from(full, j, rest);
            assert(text_seg(t) == seg) by {
                assert(seg.data->Obj_0 =~= seq![("text"@, Jv::Str(t))]);
            }
            assert(cq_parse_from(full, i) == Some(seq![seg] + rest));
            assert(seq![seg] + rest =~= m);
        } else {
            let typ = seg.typ;
            let fields = seg.data->Obj_0;
            let params = render_params_cq(fields);
            lemma_render_params_chars(fields);
            assert(name_ok(typ));
            let inner = seq!['C', 'Q', ':'] + typ + params;
            assert(head =~= seq!['['] + inner + seq![']']);
            assert(full[i] == suffix[0]);
            assert(suffix[0] == head[0]);
            assert(full[i] == '[');
            let jj = i + 1 + inner.len();
            assert forall|x: int| i <= x < jj implies full[x] != ']' by {
                assert(full[x] == head[x - i]);
                if x > i {
                    assert(head[x - i] == inner[x - i - 1]);
                    if 3 <= x - i - 1 < 3 + typ.len() {
                        assert(inner[x - i - 1] == typ[x - i - 4]);
                    } else if x - i - 1 >= 3 + typ.len() {
                        assert(inner[x - i - 1] == params[x - i - 4 - typ.len()]);
                    }
                }
            }
            assert(full[jj] == head[jj - i]);
            assert(full[jj] == ']');
            lemma_find_from(full, ']', i);
            let j = find_from(full, ']', i);
            assert(j == jj) by {
                if j < jj {
                    assert(full[j] != ']');
                }
                if j > jj {
                    assert(full[jj] != ']');
                }
            }
            assert(j < full.len());
            let inner2 = full.subrange(i + 1, j);
            assert(inner2 =~= inner);
            assert(inner.subrange(0, 3) =~= seq!['C', 'Q', ':']);
            let body = inner.subrange(3, inner.len() as int);
            assert(body =~= typ + params);
            assert forall|x: int| 0 <= x < typ.len() implies body[x] != ',' by {
                assert(body[x] == typ[x]);
            }
            lemma_find_from(body, ',', 0);
            let t_end = find_from(body, ',', 0);
            if fields.len() > 0 {
                assert(body[typ.len() as int] == params[0]);
                assert(body[typ.len() as int] == ',');
                assert(t_end == typ.len()) by {
                    if t_end < typ.len() {
                        assert(body[t_end] != ',');
                    }
                    if t_end > typ.len() {
                        assert(body[typ.len() as int] != ',');
                    }
                }
            } else {
                assert(params.len() == 0);
                assert(typ.len() == body.len());
                assert(t_end == typ.len()) by {
                    if t_end < typ.len() {
                        assert(body[t_end] != ',');
                    }
                }
            }
            assert(body.subrange(0, t_end) =~= typ);
            assert(body.subrange(t_end, body.len() as int) =~= params);
            lemma_parse_render_params(body, t_end, fields);
            assert(cq_block(inner) == Some(SegV { typ: typ, data: Jv::Obj(fields) }));
            assert(SegV { typ: typ, data: Jv::Obj(fields) } == seg);
            assert(full.subrange(j + 1, full.len() as int) =~= render_cq(rest));
            lemma_parse_render_from(full, j + 1, rest);
            assert(cq_parse_from(full, i) == Some(seq![seg] + rest));
            assert(seq![seg] + rest =~= m);
        }
    }
}

/// The CQ round-trip law: parsing a CQ rendering recovers the message
/// exactly, for every message the CQ grammar can carry. The CQ path
/// and the array path therefore yield the same message, and in
/// particular the same human-readable rendering.
pub proof fn lemma_parse_render_cq(m: Seq<SegV>)
    requires
        msg_renderable(m),
    ensures
        cq_parse_spec(render_cq(m)) == Some(m),
        crate::message::parse_array_spec(crate::message::render_array_spec(m)) == Some(m),
{
    let full = render_cq(m);
    assert(full.subrange(0, full.len() as int) =~= full);
    lemma_parse_render_from(full, 0, m);
    crate::message::lemma_parse_render_array(m);
}

proof fn lemma_esc_text_snoc(s: Seq<char>, c: char)
    ensures
        esc_text(s.push(c)) == esc_text(s) + esc_char_text(c),
    decreases s.len(),
{
    let whole = s.push(c);
    if s.len() == 0 {
        assert(whole.subrange(1, whole.len() as int) =~= Seq::<char>::empty());
        assert(whole[0] == c);
        assert(esc_text(whole.subrange(1, whole.len() as int)) == Seq::<char>::empty());
        assert(esc_text(whole) == esc_char_text(c) + esc_text(
            whole.subrange(1, whole.len() as int),
        ));
        assert(esc_text(whole) =~= esc_text(s) + esc_char_text(c));
    } else {
        let ssub = s.subrange(1, s.len() as int);
        assert(whole.subrange(1, whole.len() as int) =~= ssub.push(c));
        lemma_esc_text_snoc(ssub, c);
        assert(whole[0] == s[0]);
        assert(esc_text(whole) == esc_char_text(whole[0]) + esc_text(
            whole.subrange(1, whole.len() as int),
        ));
        assert(esc_text(s) == esc_char_text(s[0]) + esc_text(ssub));
        assert(esc_text(whole) =~= esc_text(s) + esc_char_text(c));
    }
}

proof fn lemma_esc_val_snoc(s: Seq<char>, c: char)
    ensures
        esc_val(s.push(c)) == esc_val(s) + esc_char_val(c),
    decreases s.len(),
{
    let whole = s.push(c);
    if s.len() == 0 {
        assert(whole.subrange(1, whole.len() as int) =~= Seq::<char>::empty());
        assert(whole[0] == c);
        assert(esc_val(whole.subrange(1, whole.len() as int)) == Seq::<char>::empty());
        assert(esc_val(whole) == esc_char_val(c) + esc_val(
            whole.subrange(1, whole.len() as int),
        ));
        assert(esc_val(whole) =~= esc_val(s) + esc_char_val(c));
    } else {
        let ssub = s.subrange(1, s.len() as int);
        assert(whole.subrange(1, whole.len() as int) =~= ssub.push(c));
        lemma_esc_val_snoc(ssub, c);
        assert(whole[0] == s[0]);
        assert(esc_val(whole) == esc_char_val(whole[0]) + esc_val(
            whole.subrange(1, whole.len() as int),
        ));
        assert(esc_val(s) == esc_char_val(s[0]) + esc_val(ssub));
        assert(esc_val(whole) =~= esc_val(s) + esc_char_val(c));
    }
}

/// Appends one character, escaped for text.
fn push_esc_char_text(c: char, out: &mut Vec<char>)
    ensures
        final(out)@ == old(out)@ + esc_char_text(c),
{
    if c == '&' {
        out.push('&');
        out.push('a');
        out.push('m');
        out.push('p');
        out.push(';');
    } else if c == '[' {
        out.push('&');
        out.push('#');
        out.push('9');
        out.push('1');
        out.push(';');
    } else if c == ']' {
        out.push('&');
        out.push('#');
        out.push('9');
        out.push('3');
        out.push(';');
    } else {
        out.push(c);
    }
    proof {
        assert(out@ =~= old(out)@ + esc_char_text(c));
    }
}

/// Appends escaped text.
fn push_esc_text(s: &str, out: &mut Vec<char>)
    ensures
        final(out)@ == old(out)@ + esc_text(s@),
{
    let n = s.unicode_len();
    let mut i: usize = 0;
    proof {
        assert(s@.take(0) =~= Seq::<char>::empty());
        assert(out@ =~= old(out)@ + esc_text(s@.take(0)));
    }
    while i < n
        invariant
            i <= n,
            n == s@.len(),
            out@ == old(out)@ + esc_text(s@.take(i as int)),
        decreases n - i,
    {
        let c = s.get_char(i);
        push_esc_char_text(c, out);
        proof {
            assert(s@.take(i as int + 1) =~= s@.take(i as int).push(s@[i as int]));
            lemma_esc_text_snoc(s@.take(i as int), s@[i as int]);
            assert(out@ =~= old(out)@ + esc_text(s@.take(i as int + 1)));
        }
        i += 1;
    }
    proof {
        assert(s@.take(n as int) =~= s@);
    }
}

/// Appends an escaped parameter value.
fn push_esc_val(s: &str, out: &mut Vec<char>)
    ensures
        final(out)@ == old(out)@ + esc_val(s@),
{
    let n = s.unicode_len();
    let mut i: usize = 0;
    proof {
        assert(s@.take(0) =~= Seq::<char>::empty());
        assert(out@ =~= old(out)@ + esc_val(s@.take(0)));
    }
    while i < n
        invariant
            i <= n,
            n == s@.len(),
            out@ == old(out)@ + esc_val(s@.take(i as int)),
        decreases n - i,
    {
        let c = s.get_char(i);
        if c == ',' {
            out.push('&');
            out.push('#');
            out.push('4');
            out.push('4');
            out.push(';');
            proof {
                assert(out@ =~= old(out)@ + esc_val(s@.take(i as int)) + esc_char_val(
                    s@[i as int],
                ));
            }
        } else {
            push_esc_char_text(c, out);
            proof {
                assert(esc_char_val(s@[i as int]) == esc_char_text(s@[i as int]));
            }
        }
        proof {
            assert(s@.take(i as int + 1) =~= s@.take(i as int).push(s@[i as int]));
            lemma_esc_val_snoc(s@.take(i as int), s@[i as int]);
            assert(out@ =~= old(out)@ + esc_val(s@.take(i as int + 1)));
        }
        i += 1;
    }
    proof {
        assert(s@.take(n as int) =~= s@);
    }
}

/// Whether a string is a usable CQ name.
fn name_ok_exec(s: &str) -> (r: bool)
    ensures
        r == name_ok(s@),
{
    let n = s.unicode_len();
    if n == 0 {
        return false;
    }
    let mut i: usize = 0;
    while i < n
        invariant
            i <= n,
            n == s@.len(),
            forall|k: int|
                0 <= k < i ==> s@[k] != '[' && s@[k] != ']' && s@[k] != ',' && s@[k] != '='
                    && s@[k] != '&',
        decreases n - i,
    {
        let c = s.get_char(i);
        if c == '[' || c == ']' || c == ',' || c == '=' || c == '&' {
            return false;
        }
        i += 1;
    }
    true
}

proof fn lemma_render_params_snoc(fs: Seq<(Seq<char>, Jv)>, f: (Seq<char>, Jv))
    ensures
        render_params_cq(fs.push(f)) == render_params_cq(fs) + (seq![','] + f.0 + seq!['=']
            + esc_val(f.1->Str_0)),
    decreases fs.len(),
{
    let whole = fs.push(f);
    if fs.len() == 0 {
        assert(whole.subrange(1, whole.len() as int) =~= Seq::<(Seq<char>, Jv)>::empty());
        assert(whole[0] == f);
        assert(render_params_cq(whole.subrange(1, whole.len() as int)) == Seq::<
            char,
        >::empty());
        assert(render_params_cq(whole) == seq![','] + f.0 + seq!['='] + esc_val(f.1->Str_0)
            + render_params_cq(whole.subrange(1, whole.len() as int)));
        assert(render_params_cq(whole) =~= render_params_cq(fs) + (seq![','] + f.0 + seq!['=']
            + esc_val(f.1->Str_0)));
    } else {
        let ssub = fs.subrange(1, fs.len() as int);
        assert(whole.subrange(1, whole.len() as int) =~= ssub.push(f));
        lemma_render_params_snoc(ssub, f);
        assert(whole[0] == fs[0]);
        assert(render_params_cq(whole) == seq![','] + whole[0].0 + seq!['='] + esc_val(
            whole[0].1->Str_0,
        ) + render_params_cq(whole.subrange(1, whole.len() as int)));
        assert(render_params_cq(fs) == seq![','] + fs[0].0 + seq!['='] + esc_val(
            fs[0].1->Str_0,
        ) + render_params_cq(ssub));
        assert(render_params_cq(whole) =~= render_params_cq(fs) + (seq![','] + f.0 + seq!['=']
            + esc_val(f.1->Str_0)));
    }
}

proof fn lemma_render_cq_snoc(m: Seq<SegV>, x: SegV)
    ensures
        render_cq(m.push(x)) == render_cq(m) + render_seg_cq(x),
    decreases m.len(),
{
    let whole = m.push(x);
    if m.len() == 0 {
        assert(whole.subrange(1, whole.len() as int) =~= Seq::<SegV>::empty());
        assert(whole[0] == x);
        assert(render_cq(whole.subrange(1, whole.len() as int)) == Seq::<char>::empty());
        assert(render_cq(whole) == render_seg_cq(x) + render_cq(
            whole.subrange(1, whole.len() as int),
        ));
        assert(render_cq(whole) =~= render_cq(m) + render_seg_cq(x));
    } else {
        let ssub = m.subrange(1, m.len() as int);
        assert(whole.subrange(1, whole.len() as int) =~= ssub.push(x));
        lemma_render_cq_snoc(ssub, x);
        assert(whole[0] == m[0]);
        assert(render_cq(whole) == render_seg_cq(whole[0]) + render_cq(
            whole.subrange(1, whole.len() as int),
        ));
        assert(render_cq(m) == render_seg_cq(m[0]) + render_cq(ssub));
        assert(render_cq(whole) =~= render_cq(m) + render_seg_cq(x));
    }
}

/// Appends the CQ text of one renderable segment; `false` when the
/// grammar cannot carry the segment.
fn push_seg_cq(seg: &Segment, out: &mut Vec<char>) -> (r: bool)
    ensures
        r == seg_renderable(seg@),
        r ==> final(out)@ == old(out)@ + render_seg_cq(seg@),
        !r ==> final(out)@ == old(out)@,
{
    if str_eq(seg.type_.as_str(), "text") {
        match &seg.data {
            JsonValue::Obj(fields) => {
                proof {
                    crate::json::lemma_jv_of_fields(fields@);
                }
                if fields.len() != 1 {
                    return false;
                }
                if !str_eq(fields[0].0.as_str(), "text") {
                    return false;
                }
                match &fields[0].1 {
                    JsonValue::Str(t) => {
                        if t.as_str().unicode_len() == 0 {
                            return false;
                        }
                        push_esc_text(t.as_str(), out);
                        true
                    },
                    _ => false,
                }
            },
            _ => false,
        }
    } else {
        if !name_ok_exec(seg.type_.as_str()) {
            return false;
        }
        match &seg.data {
            JsonValue::Obj(fields) => {
                let ghost fsv = crate::json::jv_of_fields(fields@);
                proof {
                    crate::json::lemma_jv_of_fields(fields@);
                }
                // Check the parameters before writing anything.
                let m = fields.len();
                let mut k: usize = 0;
                while k < m
                    invariant
                        k <= m,
                        m == fields@.len(),
                        seg.data == JsonValue::Obj(*fields),
                        seg.type_@ != "text"@,
                        name_ok(seg.type_@),
                        out@ == old(out)@,
                        fsv == crate::json::jv_of_fields(fields@),
                        fsv.len() == m,
                        forall|x: int|
                            0 <= x < m ==> #[trigger] fsv[x] == (fields@[x].0@, fields@[x].1@),
                        forall|x: int|
                            0 <= x < k ==> name_ok((#[trigger] fsv[x]).0) && fsv[x].1 is Str,
                    decreases m - k,
                {
                    if !name_ok_exec(fields[k].0.as_str()) {
                        proof {
                            assert(seg@.data->Obj_0 == fsv);
                            assert(!name_ok(fsv[k as int].0));
                            assert(!seg_renderable(seg@));
                        }
                        return false;
                    }
                    match &fields[k].1 {
                        JsonValue::Str(_) => {},
                        _ => {
                            proof {
                                assert(seg@.data->Obj_0 == fsv);
                                assert(!(fsv[k as int].1 is Str));
                                assert(!seg_renderable(seg@));
                            }
                            return false;
                        },
                    }
                    k += 1;
                }
                out.push('[');
                out.push('C');
                out.push('Q');
                out.push(':');
                push_chars_of_str(seg.type_.as_str(), out);
                let ghost mid = out@;
                proof {
                    assert(mid =~= old(out)@ + seq!['[', 'C', 'Q', ':'] + seg.type_@);
                    assert(render_params_cq(fsv.take(0)) =~= Seq::<char>::empty());
                    assert(mid + render_params_cq(fsv.take(0)) =~= mid);
                }
                let mut k2: usize = 0;
                while k2 < m
                    invariant
                        k2 <= m,
                        m == fields@.len(),
                        seg.data == JsonValue::Obj(*fields),
                        seg.type_@ != "text"@,
                        name_ok(seg.type_@),
                        mid == old(out)@ + seq!['[', 'C', 'Q', ':'] + seg.type_@,
                        fsv == crate::json::jv_of_fields(fields@),
                        fsv.len() == m,
                        forall|x: int|
                            0 <= x < m ==> #[trigger] fsv[x] == (fields@[x].0@, fields@[x].1@),
                        forall|x: int|
                            0 <= x < m ==> name_ok((#[trigger] fsv[x]).0) && fsv[x].1 is Str,
                        out@ == mid + render_params_cq(fsv.take(k2 as int)),
                    decreases m - k2,
                {
                    out.push(',');
                    push_chars_of_str(fields[k2].0.as_str(), out);
                    out.push('=');
                    match &fields[k2].1 {
                        JsonValue::Str(v) => {
                            push_esc_val(v.as_str(), out);
                        },
                        _ => {
                            proof {
                                assert(fsv[k2 as int].1 is Str);
                                assert(false);
                            }
                        },
                    }
                    proof {
                        assert(fsv.take(k2 as int + 1) =~= fsv.take(k2 as int).push(
                            fsv[k2 as int],
                        ));
                        lemma_render_params_snoc(fsv.take(k2 as int), fsv[k2 as int]);
                        assert(out@ =~= mid + render_params_cq(fsv.take(k2 as int + 1)));
                    }
                    k2 += 1;
                }
                out.push(']');
                proof {
                    assert(fsv.take(m as int) =~= fsv);
                    assert(seg@.data->Obj_0 == fsv);
                    assert(params_renderable(fsv));
                    assert(seg_renderable(seg@));
                    assert(out@ =~= old(out)@ + render_seg_cq(seg@));
                }
                true
            },
            _ => false,
        }
    }
}

impl Message {
    /// The CQ text of this message, when the CQ grammar can carry it:
    /// nonempty text segments not standing side by side, and typed
    /// blocks with usable names and string parameters.
    pub fn render_cq_string(&self) -> (r: Option<String>)
        ensures
            match r {
                Some(t) => msg_renderable(self@) && t@ == render_cq(self@),
                None => !msg_renderable(self@),
            },
    {
        let n = self.segments.len();
        let mut out: Vec<char> = Vec::new();
        let mut prev_text = false;
        let mut i: usize = 0;
        proof {
            assert(self@.take(0) =~= Seq::<SegV>::empty());
            assert(out@ =~= render_cq(self@.take(0)));
        }
        while i < n
            invariant
                i <= n,
                n == self.segments@.len(),
                forall|k: int| 0 <= k < i ==> seg_renderable(#[trigger] self@[k]),
                forall|k: int|
                    0 <= k && k + 1 < i ==> (self@[k].typ == "text"@ ==> (#[trigger] self@[k
                        + 1]).typ != "text"@),
                prev_text == (i > 0 && self@[i - 1].typ == "text"@),
                out@ == render_cq(self@.take(i as int)),
            decreases n - i,
        {
            let seg = &self.segments[i];
            let is_text = str_eq(seg.type_.as_str(), "text");
            if is_text && prev_text {
                proof {
                    assert(self@[i - 1].typ == "text"@ && (i - 1) + 1 < self@.len());
                    assert(!msg_renderable(self@));
                }
                return None;
            }
            let ok = push_seg_cq(seg, &mut out);
            if !ok {
                proof {
                    assert(!seg_renderable(self@[i as int]));
                    assert(!msg_renderable(self@));
                }
                return None;
            }
            proof {
                assert(self@.take(i as int + 1) =~= self@.take(i as int).push(self@[i as int]));
                lemma_render_cq_snoc(self@.take(i as int), self@[i as int]);
                assert(out@ =~= render_cq(self@.take(i as int + 1)));
            }
            prev_text = is_text;
            i += 1;
        }
        proof {
            assert(self@.take(n as int) =~= self@);
            assert(msg_renderable(self@));
        }
        Some(chars_to_string(&out))
    }
}

/// Reads a typed segment from the inside of a CQ block.
fn parse_cq_block(inner: &Vec<char>) -> (r: Option<Segment>)
    ensures
        match r {
            Some(seg) => cq_block(inner@) == Some(seg@),
            None => cq_block(inner@) is None,
        },
{
    if inner.len() < 3 || !(inner[0] == 'C' && inner[1] == 'Q' && inner[2] == ':') {
        proof {
            if inner@.len() >= 3 {
                assert(inner@.subrange(0, 3)[0] == inner@[0]);
                assert(inner@.subrange(0, 3)[1] == inner@[1]);
                assert(inner@.subrange(0, 3)[2] == inner@[2]);
            }
        }
        return None;
    }
    proof {
        assert(inner@.subrange(0, 3) =~= seq!['C', 'Q', ':']);
    }
    let body = subvec(inner, 3, inner.len());
    let ghost bodyv = body@;
    let n = body.len();
    let t_end = find_char(&body, ',', 0);
    if t_end == 0 {
        return None;
    }
    let typ = subvec(&body, 0, t_end);
    let ghost all = cq_params(bodyv, t_end as int);
    let mut fields: Vec<(String, JsonValue)> = Vec::new();
    let mut i: usize = t_end;
    proof {
        crate::json::lemma_jv_of_fields(fields@);
        if all is Some {
            assert(jv_of_fields(fields@) + all->Some_0 =~= all->Some_0);
        }
    }
    while i < n
        invariant
            t_end as int <= i as int,
            i <= n,
            n == bodyv.len(),
            bodyv == body@,
            inner@.len() >= 3,
            inner@.subrange(0, 3) == seq!['C', 'Q', ':'],
            bodyv == inner@.subrange(3, inner@.len() as int),
            t_end as int == find_from(bodyv, ',', 0),
            t_end > 0,
            typ@ == bodyv.subrange(0, t_end as int),
            all == cq_params(bodyv, t_end as int),
            cq_params(bodyv, i as int) matches Some(rest) ==> all == Some(
                jv_of_fields(fields@) + rest,
            ),
            cq_params(bodyv, i as int) is None ==> all is None,
        decreases n - i,
    {
        let j = find_char(&body, ',', i + 1);
        let piece = subvec(&body, i + 1, j);
        let e = find_char(&piece, '=', 0);
        if e == piece.len() {
            return None;
        }
        let k = subvec(&piece, 0, e);
        let vsub = subvec(&piece, e + 1, piece.len());
        let v = unesc_vec(&vsub);
        let ghost oldfields = fields@;
        fields.push((chars_to_string(&k), JsonValue::Str(chars_to_string(&v))));
        proof {
            crate::json::lemma_jv_of_fields(oldfields);
            crate::json::lemma_jv_of_fields(fields@);
            assert(jv_of_fields(fields@) =~= jv_of_fields(oldfields) + seq![
                (k@, Jv::Str(v@)),
            ]);
            if cq_params(bodyv, j as int) is Some {
                let rest = cq_params(bodyv, j as int)->Some_0;
                assert(cq_params(bodyv, i as int) == Some(seq![(k@, Jv::Str(v@))] + rest));
                assert(jv_of_fields(oldfields) + (seq![(k@, Jv::Str(v@))] + rest)
                    =~= jv_of_fields(fields@) + rest);
            } else {
                assert(cq_params(bodyv, i as int) is None);
            }
        }
        i = j;
    }
    proof {
        assert(cq_params(bodyv, i as int) == Some(Seq::<(Seq<char>, Jv)>::empty()));
        assert(jv_of_fields(fields@) + Seq::<(Seq<char>, Jv)>::empty() =~= jv_of_fields(
            fields@,
        ));
    }
    let seg = Segment { type_: chars_to_string(&typ), data: JsonValue::Obj(fields) };
    proof {
        assert(cq_block(inner@) == Some(seg@));
    }
    Some(seg)
}

/// Reads a message from a CQ string: text runs become `text` segments,
/// `[CQ:...]` blocks become typed segments. Returns the message exactly
/// when every block is well formed and closed.
pub fn parse_segments_from_cq(s: &str) -> (r: Option<Message>)
    ensures
        match r {
            Some(m) => cq_parse_spec(s@) == Some(m@),
            None => cq_parse_spec(s@) is None,
        },
{
    let cs = str_chars(s);
    let n = cs.len();
    let mut segs: Vec<Segment> = Vec::new();
    let mut i: usize = 0;
    proof {
        if cq_parse_from(cs@, 0) is Some {
            let rest = cq_parse_from(cs@, 0)->Some_0;
            assert(Seq::new(segs@.len(), |k: int| segs@[k]@) + rest =~= rest);
        }
    }
    while i < n
        invariant
            i <= n,
            n == cs@.len(),
            cs@ == s@,
            cq_parse_from(cs@, i as int) matches Some(rest) ==> cq_parse_spec(s@) == Some(
                Seq::new(segs@.len(), |k: int| segs@[k]@) + rest,
            ),
            cq_parse_from(cs@, i as int) is None ==> cq_parse_spec(s@) is None,
        decreases n - i,
    {
        let ghost oldsegs = segs@;
        let ghost oldi = i as int;
        if cs[i] == '[' {
            let j = find_char(&cs, ']', i);
            if j == n {
                proof {
                    assert(cq_parse_from(cs@, oldi) is None);
                }
                return None;
            }
            let inner = subvec(&cs, i + 1, j);
            match parse_cq_block(&inner) {
                Some(seg) => {
                    segs.push(seg);
                    proof {
                        if cq_parse_from(cs@, j + 1) is Some {
                            let rest = cq_parse_from(cs@, j + 1)->Some_0;
                            assert(cq_parse_from(cs@, oldi) == Some(seq![seg@] + rest));
                            assert(Seq::new(oldsegs.len(), |k: int| oldsegs[k]@) + (seq![seg@]
                                + rest) =~= Seq::new(segs@.len(), |k: int| segs@[k]@) + rest);
                        } else {
                            assert(cq_parse_from(cs@, oldi) is None);
                        }
                    }
                    i = j + 1;
                },
                None => {
                    proof {
                        assert(cq_parse_from(cs@, oldi) is None);
                    }
                    return None;
                },
            }
        } else {
            let j = find_char(&cs, '[', i);
            let run = subvec(&cs, i, j);
            let t = unesc_vec(&run);
            let mut data_fields: Vec<(String, JsonValue)> = Vec::new();
            data_fields.push((String::from_str("text"), JsonValue::Str(chars_to_string(&t))));
            let seg = Segment {
                type_: String::from_str("text"),
                data: JsonValue::Obj(data_fields),
            };
            proof {
                crate::json::lemma_jv_of_fields(data_fields@);
                assert(seg@.data->Obj_0 =~= text_seg(t@).data->Obj_0);
                assert(seg@ == text_seg(unesc(cs@.subrange(oldi, j as int))));
            }
            segs.push(seg);
            proof {
                if cq_parse_from(cs@, j as int) is Some {
                    let rest = cq_parse_from(cs@, j as int)->Some_0;
                    assert(cq_parse_from(cs@, oldi) == Some(seq![seg@] + rest));
                    assert(Seq::new(oldsegs.len(), |k: int| oldsegs[k]@) + (seq![seg@] + rest)
                        =~= Seq::new(segs@.len(), |k: int| segs@[k]@) + rest);
                } else {
                    assert(cq_parse_from(cs@, oldi) is None);
                }
            }
            i = j;
        }
    }
    proof {
        assert(cq_parse_from(cs@, n as int) == Some(Seq::<SegV>::empty()));
    }
    let m = Message { segments: segs };
    proof {
        assert(m@ =~= Seq::new(segs@.len(), |k: int| segs@[k]@) + Seq::<SegV>::empty());
    }
    Some(m)
}

} // verus!
