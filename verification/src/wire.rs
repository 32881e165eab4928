//! The event wire format: the sole coupling contract between watchers
//! and doers.
//!
//! An event travels as one mapping object with fixed keys — `event`
//! (the watcher tag), `type` (the change class), `new`, `old` and
//! `abspath` — in that order, each value a string with backslash and
//! double quote escaped by a backslash. The decoder accepts exactly
//! the canonical form the encoder produces, and only events that
//! satisfy the path-field invariant.

use vstd::prelude::*;
use crate::event::ChangeEvent;
use crate::event::EventKind;
use crate::event::EventSource;
use crate::event::EventV;
use crate::text::match_at;
use crate::text::push_char;
use crate::text::str_eq;

verus! {

/// How one character travels inside a quoted string.
pub open spec fn esc_char(c: char) -> Seq<char> {
    if c == '\\' || c == '"' {
        seq!['\\', c]
    } else {
        seq![c]
    }
}

/// How a whole string travels inside quotes.
pub open spec fn esc(s: Seq<char>) -> Seq<char>
    decreases s.len(),
{
    if s.len() == 0 {
        Seq::empty()
    } else {
        esc_char(s[0]) + esc(s.drop_first())
    }
}

proof fn lemma_esc_push(s: Seq<char>, c: char)
    ensures
        esc(s.push(c)) == esc(s) + esc_char(c),
    decreases s.len(),
{
    if s.len() == 0 {
        assert(s.push(c)[0] == c);
        assert(s.push(c).drop_first() =~= Seq::<char>::empty());
        assert(esc(Seq::<char>::empty()) == Seq::<char>::empty());
        assert(esc(s.push(c)) =~= esc(s) + esc_char(c));
    } else {
        assert(s.push(c)[0] == s[0]);
        assert(s.push(c).drop_first() =~= s.drop_first().push(c));
        lemma_esc_push(s.drop_first(), c);
        assert(esc(s.push(c)) =~= esc(s) + esc_char(c));
    }
}

/// Escapes backslashes and double quotes with a backslash.
pub fn escape_string(s: &str) -> (r: String)
    ensures
        r@ == esc(s@),
{
    let n = s.unicode_len();
    let mut out = String::new();
    let mut i: usize = 0;
    proof {
        assert(esc(s@.take(0)) =~= Seq::<char>::empty());
    }
    while i < n
        invariant
            n == s@.len(),
            0 <= i <= n,
            out@ == esc(s@.take(i as int)),
        decreases n - i,
    {
        let c = s.get_char(i);
        if c == '\\' || c == '"' {
            push_char(&mut out, '\\');
            push_char(&mut out, c);
        } else {
            push_char(&mut out, c);
        }
        proof {
            assert(s@.take(i + 1) =~= s@.take(i as int).push(s@[i as int]));
            lemma_esc_push(s@.take(i as int), s@[i as int]);
            assert(out@ =~= esc(s@.take(i as int)) + esc_char(s@[i as int]));
        }
        i += 1;
    }
    proof {
        assert(s@.take(n as int) =~= s@);
    }
    out
}

/// Reads a quoted string body from the front of `s` up to and
/// including the unescaped closing quote: yields the unescaped value
/// and how many characters were consumed.
pub open spec fn parse_string_body(s: Seq<char>) -> Option<(Seq<char>, int)>
    decreases s.len(),
{
    if s.len() == 0 {
        None
    } else if s[0] == '"' {
        Some((Seq::empty(), 1))
    } else if s[0] == '\\' {
        if s.len() < 2 {
            None
        } else {
            match parse_string_body(s.subrange(2, s.len() as int)) {
                None => None,
                Some((v, n)) => Some((seq![s[1]] + v, n + 2)),
            }
        }
    } else {
        match parse_string_body(s.subrange(1, s.len() as int)) {
            None => None,
            Some((v, n)) => Some((seq![s[0]] + v, n + 1)),
        }
    }
}

/// Parsing inverts escaping: an escaped string followed by its closing
/// quote reads back as the original, whatever follows.
proof fn lemma_parse_esc(v: Seq<char>, rest: Seq<char>)
    ensures
        parse_string_body(esc(v) + seq!['"'] + rest) == Some((v, esc(v).len() as int + 1)),
    decreases v.len(),
{
    let s = esc(v) + seq!['"'] + rest;
    if v.len() == 0 {
        assert(s[0] == '"');
    } else {
        lemma_parse_esc(v.drop_first(), rest);
        let tail = esc(v.drop_first()) + seq!['"'] + rest;
        if v[0] == '\\' || v[0] == '"' {
            assert(s[0] == '\\');
            assert(s[1] == v[0]);
            assert(s.len() >= 2);
            assert(s.subrange(2, s.len() as int) =~= tail);
            assert(seq![s[1]] + v.drop_first() =~= v);
            assert(esc(v).len() == 2 + esc(v.drop_first()).len());
        } else {
            assert(s[0] == v[0]);
            assert(s.subrange(1, s.len() as int) =~= tail);
            assert(seq![s[0]] + v.drop_first() =~= v);
            assert(esc(v).len() == 1 + esc(v.drop_first()).len());
        }
    }
}

/// `s` begins with `lit`.
pub open spec fn starts_with(s: Seq<char>, lit: Seq<char>) -> bool {
    s.len() >= lit.len() && s.subrange(0, lit.len() as int) == lit
}

/// The opening of the wire object, up to the watcher tag's quote.
pub open spec fn lit_open() -> Seq<char> {
    seq!['{', '"', 'e', 'v', 'e', 'n', 't', '"', ':', '"']
}

/// Between the watcher tag and the change class.
pub open spec fn lit_type() -> Seq<char> {
    seq![',', '"', 't', 'y', 'p', 'e', '"', ':', '"']
}

/// Between the change class and the new path.
pub open spec fn lit_new() -> Seq<char> {
    seq![',', '"', 'n', 'e', 'w', '"', ':', '"']
}

/// Between the new path and the old path.
pub open spec fn lit_old() -> Seq<char> {
    seq![',', '"', 'o', 'l', 'd', '"', ':', '"']
}

/// Between the old path and the absolute path.
pub open spec fn lit_abs() -> Seq<char> {
    seq![',', '"', 'a', 'b', 's', 'p', 'a', 't', 'h', '"', ':', '"']
}

/// The tag of the directory watcher.
pub open spec fn filewatcher_tag() -> Seq<char> {
    seq!['F', 'i', 'l', 'e', 'W', 'a', 't', 'c', 'h', 'e', 'r']
}

/// The wire name of each change class.
pub open spec fn kind_tag(kind: EventKind) -> Seq<char> {
    match kind {
        EventKind::Created => seq!['C', 'r', 'e', 'a', 't', 'e'],
        EventKind::Modified => seq!['W', 'r', 'i', 't', 'e'],
        EventKind::Removed => seq!['R', 'e', 'm', 'o', 'v', 'e'],
        EventKind::Renamed => seq!['R', 'e', 'n', 'a', 'm', 'e'],
        EventKind::Error => seq!['E', 'r', 'r', 'o', 'r'],
    }
}

/// The change class a wire name denotes.
pub open spec fn kind_of_tag(t: Seq<char>) -> Option<EventKind> {
    if t == kind_tag(EventKind::Created) {
        Some(EventKind::Created)
    } else if t == kind_tag(EventKind::Modified) {
        Some(EventKind::Modified)
    } else if t == kind_tag(EventKind::Removed) {
        Some(EventKind::Removed)
    } else if t == kind_tag(EventKind::Renamed) {
        Some(EventKind::Renamed)
    } else if t == kind_tag(EventKind::Error) {
        Some(EventKind::Error)
    } else {
        None
    }
}

/// The canonical wire form of an event.
pub open spec fn encode_spec(v: EventV) -> Seq<char> {
    lit_open() + esc(filewatcher_tag()) + seq!['"'] + lit_type() + esc(kind_tag(v.kind))
        + seq!['"'] + lit_new() + esc(v.new_path) + seq!['"'] + lit_old() + esc(v.old_path)
        + seq!['"'] + lit_abs() + esc(v.abs_path) + seq!['"', '}']
}

/// The wire name of each change class, as a string.
fn kind_tag_str(kind: EventKind) -> (r: &'static str)
    ensures
        r@ == kind_tag(kind),
{
    match kind {
        EventKind::Created => {
            proof {
                reveal_strlit("Create");
            }
            assert(("Create")@ =~= kind_tag(EventKind::Created));
            "Create"
        },
        EventKind::Modified => {
            proof {
                reveal_strlit("Write");
            }
            assert(("Write")@ =~= kind_tag(EventKind::Modified));
            "Write"
        },
        EventKind::Removed => {
            proof {
                reveal_strlit("Remove");
            }
            assert(("Remove")@ =~= kind_tag(EventKind::Removed));
            "Remove"
        },
        EventKind::Renamed => {
            proof {
                reveal_strlit("Rename");
            }
            assert(("Rename")@ =~= kind_tag(EventKind::Renamed));
            "Rename"
        },
        EventKind::Error => {
            proof {
                reveal_strlit("Error");
            }
            assert(("Error")@ =~= kind_tag(EventKind::Error));
            "Error"
        },
    }
}

/// Writes an event in the wire format.
pub fn encode_event(ev: &ChangeEvent) -> (r: String)
    ensures
        r@ == encode_spec(ev@),
{
    proof {
        reveal_strlit("{\"event\":\"");
        reveal_strlit("FileWatcher");
        reveal_strlit("\",\"type\":\"");
        reveal_strlit("\",\"new\":\"");
        reveal_strlit("\",\"old\":\"");
        reveal_strlit("\",\"abspath\":\"");
        reveal_strlit("\"}");
    }
    let mut out = "{\"event\":\"".to_owned();
    assert(out@ =~= lit_open());
    let tag = escape_string("FileWatcher");
    assert(tag@ == esc(filewatcher_tag())) by {
        assert(("FileWatcher")@ =~= filewatcher_tag());
    }
    out.append(tag.as_str());
    out.append("\",\"type\":\"");
    assert(("\",\"type\":\"")@ =~= seq!['"'] + lit_type());
    let knd = escape_string(kind_tag_str(ev.kind));
    out.append(knd.as_str());
    out.append("\",\"new\":\"");
    assert(("\",\"new\":\"")@ =~= seq!['"'] + lit_new());
    let new_esc = escape_string(ev.new_path.as_str());
    out.append(new_esc.as_str());
    out.append("\",\"old\":\"");
    assert(("\",\"old\":\"")@ =~= seq!['"'] + lit_old());
    let old_esc = escape_string(ev.old_path.as_str());
    out.append(old_esc.as_str());
    out.append("\",\"abspath\":\"");
    assert(("\",\"abspath\":\"")@ =~= seq!['"'] + lit_abs());
    let abs_esc = escape_string(ev.abs_path.as_str());
    out.append(abs_esc.as_str());
    out.append("\"}");
    assert(("\"}")@ =~= seq!['"', '}']);
    proof {
        assert(out@ =~= encode_spec(ev@));
    }
    out
}

/// Reads a quoted string body starting at position `i` of `s`, as
/// `parse_string_body` describes on the suffix `s[i..]`.
fn parse_string_at(s: &str, s_len: usize, i: usize) -> (r: Option<(String, usize)>)
    requires
        s_len == s@.len(),
        i <= s_len,
    ensures
        match r {
            Some(p) => {
                &&& parse_string_body(s@.skip(i as int)) == Some((p.0@, p.1 as int))
                &&& i + p.1 <= s_len
                &&& p.1 >= 1
            },
            None => parse_string_body(s@.skip(i as int)) is None,
        },
{
    let ghost start = i as int;
    let mut cur: usize = i;
    let mut acc = String::new();
    while cur < s_len
        invariant
            s_len == s@.len(),
            start == i,
            i <= cur <= s_len,
            (match parse_string_body(s@.skip(cur as int)) {
                Some((v, n)) => parse_string_body(s@.skip(start)) == Some(
                    (acc@ + v, (cur - start) + n),
                ),
                None => parse_string_body(s@.skip(start)) is None,
            }),
        decreases s_len - cur,
    {
        let ghost suf = s@.skip(cur as int);
        proof {
            assert(suf.len() == s_len - cur);
            assert(suf[0] == s@[cur as int]);
        }
        let c = s.get_char(cur);
        if c == '"' {
            proof {
                assert(parse_string_body(suf) == Some((Seq::<char>::empty(), 1int)));
                assert(acc@ + Seq::<char>::empty() =~= acc@);
            }
            return Some((acc, cur - i + 1));
        } else if c == '\\' {
            if cur + 1 >= s_len {
                proof {
                    assert(suf.len() < 2);
                    assert(parse_string_body(suf) is None);
                }
                return None;
            }
            let d = s.get_char(cur + 1);
            proof {
                assert(suf[1] == s@[cur + 1]);
                assert(suf.subrange(2, suf.len() as int) =~= s@.skip(cur + 2));
                if parse_string_body(s@.skip(cur + 2)) is Some {
                    let (v, n) = parse_string_body(s@.skip(cur + 2)).unwrap();
                    assert(parse_string_body(suf) == Some((seq![s@[cur + 1]] + v, n + 2)));
                    assert(acc@ + (seq![s@[cur + 1]] + v) =~= acc@.push(s@[cur + 1]) + v);
                } else {
                    assert(parse_string_body(suf) is None);
                }
            }
            push_char(&mut acc, d);
            cur = cur + 2;
        } else {
            proof {
                assert(suf.subrange(1, suf.len() as int) =~= s@.skip(cur + 1));
                if parse_string_body(s@.skip(cur + 1)) is Some {
                    let (v, n) = parse_string_body(s@.skip(cur + 1)).unwrap();
                    assert(parse_string_body(suf) == Some((seq![s@[cur as int]] + v, n + 1)));
                    assert(acc@ + (seq![s@[cur as int]] + v) =~= acc@.push(s@[cur as int]) + v);
                } else {
                    assert(parse_string_body(suf) is None);
                }
            }
            push_char(&mut acc, c);
            cur = cur + 1;
        }
    }
    proof {
        assert(s@.skip(cur as int).len() == 0);
        assert(parse_string_body(s@.skip(cur as int)) is None);
    }
    None
}

/// The final checks of decoding: the closing brace, the watcher tag,
/// a known change class, and the path-field invariant.
pub open spec fn decode_tail(
    rest: Seq<char>,
    src: Seq<char>,
    knd: Seq<char>,
    new_p: Seq<char>,
    old_p: Seq<char>,
    abs_p: Seq<char>,
) -> Option<EventV> {
    if rest != seq!['}'] {
        None
    } else if src != filewatcher_tag() {
        None
    } else {
        match kind_of_tag(knd) {
            None => None,
            Some(kind) => {
                let ev = EventV {
                    source: EventSource::DirectoryWatch,
                    kind,
                    new_path: new_p,
                    old_path: old_p,
                    abs_path: abs_p,
                };
                if ev.wf() {
                    Some(ev)
                } else {
                    None
                }
            },
        }
    }
}

/// Decoding after the old path: the `abspath` key, its value, then the
/// final checks.
pub open spec fn d_abs(
    s: Seq<char>,
    src: Seq<char>,
    knd: Seq<char>,
    new_p: Seq<char>,
    old_p: Seq<char>,
) -> Option<EventV> {
    if !starts_with(s, lit_abs()) {
        None
    } else {
        match parse_string_body(s.skip(lit_abs().len() as int)) {
            None => None,
            Some((abs_p, n)) => decode_tail(
                s.skip(lit_abs().len() as int).skip(n),
                src,
                knd,
                new_p,
                old_p,
                abs_p,
            ),
        }
    }
}

/// Decoding after the new path: the `old` key and its value.
pub open spec fn d_old(s: Seq<char>, src: Seq<char>, knd: Seq<char>, new_p: Seq<char>) -> Option<
    EventV,
> {
    if !starts_with(s, lit_old()) {
        None
    } else {
        match parse_string_body(s.skip(lit_old().len() as int)) {
            None => None,
            Some((old_p, n)) => d_abs(s.skip(lit_old().len() as int).skip(n), src, knd, new_p, old_p),
        }
    }
}

/// Decoding after the change class: the `new` key and its value.
pub open spec fn d_new(s: Seq<char>, src: Seq<char>, knd: Seq<char>) -> Option<EventV> {
    if !starts_with(s, lit_new()) {
        None
    } else {
        match parse_string_body(s.skip(lit_new().len() as int)) {
            None => None,
            Some((new_p, n)) => d_old(s.skip(lit_new().len() as int).skip(n), src, knd, new_p),
        }
    }
}

/// Decoding after the watcher tag: the `type` key and its value.
pub open spec fn d_kind(s: Seq<char>, src: Seq<char>) -> Option<EventV> {
    if !starts_with(s, lit_type()) {
        None
    } else {
        match parse_string_body(s.skip(lit_type().len() as int)) {
            None => None,
            Some((knd, n)) => d_new(s.skip(lit_type().len() as int).skip(n), src, knd),
        }
    }
}

/// Decoding from the watcher tag on.
pub open spec fn d_src(s: Seq<char>) -> Option<EventV> {
    match parse_string_body(s) {
        None => None,
        Some((src, n)) => d_kind(s.skip(n), src),
    }
}

/// The event a wire string denotes: `None` unless the string is the
/// canonical encoding of a well-formed event of the directory watcher.
pub open spec fn decode_spec(s: Seq<char>) -> Option<EventV> {
    if !starts_with(s, lit_open()) {
        None
    } else {
        d_src(s.skip(lit_open().len() as int))
    }
}

/// Whether the suffix of `s` at `pos` begins with `lit`.
fn expect_lit(s: &str, s_len: usize, lit: &str, lit_len: usize, pos: usize) -> (r: bool)
    requires
        s_len == s@.len(),
        lit_len == lit@.len(),
        pos <= s_len,
    ensures
        r == starts_with(s@.skip(pos as int), lit@),
        r ==> pos + lit_len <= s_len,
{
    if lit_len > s_len - pos {
        assert(s@.skip(pos as int).len() < lit@.len());
        return false;
    }
    let r = match_at(s, s_len, lit, lit_len, pos);
    proof {
        assert(s@.skip(pos as int).subrange(0, lit@.len() as int) =~= s@.subrange(
            pos as int,
            pos + lit@.len(),
        ));
    }
    r
}

/// The fields read from the head of a wire string: the watcher tag
/// and the change class, with the position reached.
struct DecodedHead {
    src: String,
    knd: String,
    end: usize,
}

/// Reads the opening, the watcher tag and the change class.
#[verifier::rlimit(60)]
#[verifier::spinoff_prover]
fn decode_head(s: &str, s_len: usize) -> (r: Option<DecodedHead>)
    requires
        s_len == s@.len(),
    ensures
        match r {
            Some(h) => h.end <= s_len && decode_spec(s@) == d_new(
                s@.skip(h.end as int),
                h.src@,
                h.knd@,
            ),
            None => decode_spec(s@) is None,
        },
{
    proof {
        reveal_strlit("{\"event\":\"");
        assert(("{\"event\":\"")@ =~= lit_open());
        assert(s@.skip(0) =~= s@);
    }
    if !expect_lit(s, s_len, "{\"event\":\"", 10, 0) {
        return None;
    }
    let (src, n1) = match parse_string_at(s, s_len, 10) {
        Some(p) => p,
        None => {
            return None;
        },
    };
    proof {
        assert(s@.skip(10).skip(n1 as int) =~= s@.skip(10 + n1));
    }
    let pos: usize = 10 + n1;
    assert(decode_spec(s@) == d_kind(s@.skip(pos as int), src@));
    proof {
        reveal_strlit(",\"type\":\"");
        assert((",\"type\":\"")@ =~= lit_type());
    }
    if !expect_lit(s, s_len, ",\"type\":\"", 9, pos) {
        return None;
    }
    proof {
        assert(s@.skip(pos as int).skip(9) =~= s@.skip(pos + 9));
    }
    let (knd, n2) = match parse_string_at(s, s_len, pos + 9) {
        Some(p) => p,
        None => {
            return None;
        },
    };
    proof {
        assert(s@.skip(pos as int).skip(9).skip(n2 as int) =~= s@.skip(pos + 9 + n2));
    }
    Some(DecodedHead { src, knd, end: pos + 9 + n2 })
}

/// All five fields read from a wire string, with the position of what
/// remains.
struct DecodedFields {
    src: String,
    knd: String,
    new_p: String,
    old_p: String,
    abs_p: String,
    end: usize,
}

/// Reads the head and the three path fields.
#[verifier::rlimit(60)]
#[verifier::spinoff_prover]
fn decode_fields(s: &str, s_len: usize) -> (r: Option<DecodedFields>)
    requires
        s_len == s@.len(),
    ensures
        match r {
            Some(f) => f.end <= s_len && decode_spec(s@) == decode_tail(
                s@.skip(f.end as int),
                f.src@,
                f.knd@,
                f.new_p@,
                f.old_p@,
                f.abs_p@,
            ),
            None => decode_spec(s@) is None,
        },
{
    let head = match decode_head(s, s_len) {
        Some(h) => h,
        None => {
            return None;
        },
    };
    let mut pos = head.end;
    proof {
        reveal_strlit(",\"new\":\"");
        assert((",\"new\":\"")@ =~= lit_new());
    }
    if !expect_lit(s, s_len, ",\"new\":\"", 8, pos) {
        return None;
    }
    proof {
        assert(s@.skip(pos as int).skip(8) =~= s@.skip(pos + 8));
    }
    let (new_p, n3) = match parse_string_at(s, s_len, pos + 8) {
        Some(p) => p,
        None => {
            return None;
        },
    };
    proof {
        assert(s@.skip(pos as int).skip(8).skip(n3 as int) =~= s@.skip(pos + 8 + n3));
    }
    pos = pos + 8 + n3;
    assert(decode_spec(s@) == d_old(s@.skip(pos as int), head.src@, head.knd@, new_p@));
    proof {
        reveal_strlit(",\"old\":\"");
        assert((",\"old\":\"")@ =~= lit_old());
    }
    if !expect_lit(s, s_len, ",\"old\":\"", 8, pos) {
        return None;
    }
    proof {
        assert(s@.skip(pos as int).skip(8) =~= s@.skip(pos + 8));
    }
    let (old_p, n4) = match parse_string_at(s, s_len, pos + 8) {
        Some(p) => p,
        None => {
            return None;
        },
    };
    proof {
        assert(s@.skip(pos as int).skip(8).skip(n4 as int) =~= s@.skip(pos + 8 + n4));
    }
    pos = pos + 8 + n4;
    assert(decode_spec(s@) == d_abs(s@.skip(pos as int), head.src@, head.knd@, new_p@, old_p@));
    proof {
        reveal_strlit(",\"abspath\":\"");
        assert((",\"abspath\":\"")@ =~= lit_abs());
    }
    if !expect_lit(s, s_len, ",\"abspath\":\"", 12, pos) {
        return None;
    }
    proof {
        assert(s@.skip(pos as int).skip(12) =~= s@.skip(pos + 12));
    }
    let (abs_p, n5) = match parse_string_at(s, s_len, pos + 12) {
        Some(p) => p,
        None => {
            return None;
        },
    };
    proof {
        assert(s@.skip(pos as int).skip(12).skip(n5 as int) =~= s@.skip(pos + 12 + n5));
    }
    Some(
        DecodedFields {
            src: head.src,
            knd: head.knd,
            new_p,
            old_p,
            abs_p,
            end: pos + 12 + n5,
        },
    )
}

/// Reads an event from the wire format: `None` unless the input is
/// the canonical encoding of a well-formed event of the directory
/// watcher.
pub fn decode_event(s: &str) -> (r: Option<ChangeEvent>)
    ensures
        match r {
            Some(e) => decode_spec(s@) == Some(e@) && e.wf(),
            None => decode_spec(s@) is None,
        },
{
    let s_len = s.unicode_len();
    let f = match decode_fields(s, s_len) {
        Some(f) => f,
        None => {
            return None;
        },
    };
    let pos = f.end;
    let ghost rest = s@.skip(pos as int);
    let closing_ok = if pos < s_len {
        s.get_char(pos) == '}' && pos + 1 == s_len
    } else {
        false
    };
    if !closing_ok {
        proof {
            assert(rest != seq!['}']) by {
                if rest == seq!['}'] {
                    assert(rest.len() == 1);
                    assert(rest[0] == s@[pos as int]);
                    assert(rest[0] == '}');
                }
            }
        }
        return None;
    }
    proof {
        assert(rest =~= seq!['}']);
    }
    proof {
        reveal_strlit("FileWatcher");
        assert(("FileWatcher")@ =~= filewatcher_tag());
    }
    if !str_eq(f.src.as_str(), "FileWatcher") {
        return None;
    }
    proof {
        reveal_strlit("Create");
        reveal_strlit("Write");
        reveal_strlit("Remove");
        reveal_strlit("Rename");
        reveal_strlit("Error");
        assert(("Create")@ =~= kind_tag(EventKind::Created));
        assert(("Write")@ =~= kind_tag(EventKind::Modified));
        assert(("Remove")@ =~= kind_tag(EventKind::Removed));
        assert(("Rename")@ =~= kind_tag(EventKind::Renamed));
        assert(("Error")@ =~= kind_tag(EventKind::Error));
    }
    let kind = if str_eq(f.knd.as_str(), "Create") {
        EventKind::Created
    } else if str_eq(f.knd.as_str(), "Write") {
        EventKind::Modified
    } else if str_eq(f.knd.as_str(), "Remove") {
        EventKind::Removed
    } else if str_eq(f.knd.as_str(), "Rename") {
        EventKind::Renamed
    } else if str_eq(f.knd.as_str(), "Error") {
        EventKind::Error
    } else {
        assert(kind_of_tag(f.knd@) is None);
        return None;
    };
    assert(kind_of_tag(f.knd@) == Some(kind));
    let ev = ChangeEvent {
        source: EventSource::DirectoryWatch,
        kind,
        new_path: f.new_p,
        old_path: f.old_p,
        abs_path: f.abs_p,
    };
    if ev.check_wf() {
        Some(ev)
    } else {
        None
    }
}

/// One field of the round trip: a key literal, an escaped value and
/// its closing quote parse back to the value, leaving the rest.
proof fn lemma_peel(lit: Seq<char>, v: Seq<char>, rest: Seq<char>)
    ensures
        starts_with(lit + esc(v) + seq!['"'] + rest, lit),
        parse_string_body((lit + esc(v) + seq!['"'] + rest).skip(lit.len() as int)) == Some(
            (v, esc(v).len() as int + 1),
        ),
        (lit + esc(v) + seq!['"'] + rest).skip(lit.len() as int).skip(esc(v).len() as int + 1)
            == rest,
{
    let s = lit + esc(v) + seq!['"'] + rest;
    assert(s.subrange(0, lit.len() as int) =~= lit);
    assert(s.skip(lit.len() as int) =~= esc(v) + seq!['"'] + rest);
    lemma_parse_esc(v, rest);
    assert(s.skip(lit.len() as int).skip(esc(v).len() as int + 1) =~= rest);
}

/// The frame of the round trip: decoding the canonical encoding
/// reaches the final checks with exactly the encoded fields.
proof fn lemma_rt_fields(v: EventV)
    ensures
        decode_spec(encode_spec(v)) == decode_tail(
            seq!['}'],
            filewatcher_tag(),
            kind_tag(v.kind),
            v.new_path,
            v.old_path,
            v.abs_path,
        ),
{
    let p5: Seq<char> = seq!['}'];
    let p4 = lit_abs() + esc(v.abs_path) + seq!['"'] + p5;
    let p3 = lit_old() + esc(v.old_path) + seq!['"'] + p4;
    let p2 = lit_new() + esc(v.new_path) + seq!['"'] + p3;
    let p1 = lit_type() + esc(kind_tag(v.kind)) + seq!['"'] + p2;
    let e = lit_open() + esc(filewatcher_tag()) + seq!['"'] + p1;
    assert(encode_spec(v) =~= e);
    lemma_peel(lit_open(), filewatcher_tag(), p1);
    assert(decode_spec(e) == d_src(e.skip(10)));
    assert(d_src(e.skip(10)) == d_kind(p1, filewatcher_tag()));
    lemma_peel(lit_type(), kind_tag(v.kind), p2);
    assert(d_kind(p1, filewatcher_tag()) == d_new(p2, filewatcher_tag(), kind_tag(v.kind)));
    lemma_peel(lit_new(), v.new_path, p3);
    assert(d_new(p2, filewatcher_tag(), kind_tag(v.kind)) == d_old(
        p3,
        filewatcher_tag(),
        kind_tag(v.kind),
        v.new_path,
    ));
    lemma_peel(lit_old(), v.old_path, p4);
    assert(d_old(p3, filewatcher_tag(), kind_tag(v.kind), v.new_path) == d_abs(
        p4,
        filewatcher_tag(),
        kind_tag(v.kind),
        v.new_path,
        v.old_path,
    ));
    lemma_peel(lit_abs(), v.abs_path, p5);
    assert(d_abs(p4, filewatcher_tag(), kind_tag(v.kind), v.new_path, v.old_path) == decode_tail(
        p5,
        filewatcher_tag(),
        kind_tag(v.kind),
        v.new_path,
        v.old_path,
        v.abs_path,
    ));
}

/// Each wire name denotes exactly its change class.
proof fn lemma_kind_tag_inverts(k: EventKind)
    ensures
        kind_of_tag(kind_tag(k)) == Some(k),
{
    match k {
        EventKind::Created => {},
        EventKind::Modified => {
            assert(kind_tag(EventKind::Modified) != kind_tag(EventKind::Created));
        },
        EventKind::Removed => {
            assert(kind_tag(EventKind::Removed)[2] == 'm');
            assert(kind_tag(EventKind::Removed) != kind_tag(EventKind::Created));
        },
        EventKind::Renamed => {
            assert(kind_tag(EventKind::Renamed)[2] == 'n');
            assert(kind_tag(EventKind::Renamed) != kind_tag(EventKind::Created));
            assert(kind_tag(EventKind::Renamed) != kind_tag(EventKind::Removed));
        },
        EventKind::Error => {
            assert(kind_tag(EventKind::Error) != kind_tag(EventKind::Modified));
        },
    }
}

/// The wire round trip: every well-formed event reads back, from its
/// canonical encoding, as exactly itself.
pub proof fn lemma_wire_round_trip(v: EventV)
    requires
        v.wf(),
    ensures
        decode_spec(encode_spec(v)) == Some(v),
{
    lemma_rt_fields(v);
    lemma_kind_tag_inverts(v.kind);
    assert(decode_tail(
        seq!['}'],
        filewatcher_tag(),
        kind_tag(v.kind),
        v.new_path,
        v.old_path,
        v.abs_path,
    ) == Some(v));
}

} // verus!
