//! The wire codec for the command and event vocabularies.  A wire value is
//! JSON text: a tagged object with exactly one key naming the variant
//! (`{"Toggle":null}`, `{"Print":"<text>"}`), or, for a variant without a
//! payload, the bare variant name as a JSON string (`"Toggle"`).  Unknown
//! tags are rejected.  String payloads use the JSON escapes
//! `\" \\ \/ \b \f \n \r \t`; this wire format has no `\u` escape, so
//! characters outside that set — control characters included — travel
//! verbatim.  The encoder emits the tagged-object form and escapes
//! `\" \\ \n \r \t`; round-tripping is lossless for every payload.

use vstd::prelude::*;
use crate::chars::{str_to_char_vec, push_str_chars, chars_eq_str, string_from_chars};
use crate::messages::{Command, CommandView, PostEvent, PostEventView};

verus! {

/// JSON whitespace.
pub open spec fn is_ws(c: char) -> bool {
    c == ' ' || c == '\t' || c == '\n' || c == '\r'
}

/// What remains of `s` after its longest prefix of whitespace.
pub open spec fn skip_ws(s: Seq<char>) -> Seq<char>
    decreases s.len(),
{
    if s.len() > 0 && is_ws(s[0]) {
        skip_ws(s.drop_first())
    } else {
        s
    }
}

/// The character a short escape `\c` stands for, if `c` is one.
pub open spec fn unescape_char(c: char) -> Option<char> {
    if c == '"' {
        Some('"')
    } else if c == '\\' {
        Some('\\')
    } else if c == '/' {
        Some('/')
    } else if c == 'n' {
        Some('\n')
    } else if c == 'r' {
        Some('\r')
    } else if c == 't' {
        Some('\t')
    } else if c == 'b' {
        Some('\u{0008}')
    } else if c == 'f' {
        Some('\u{000C}')
    } else {
        None
    }
}

/// Parses the body of a string literal.  `s` begins just after the opening
/// quote; on success the result is the unescaped text together with what
/// follows the closing quote.
pub open spec fn parse_string_body(s: Seq<char>) -> Option<(Seq<char>, Seq<char>)>
    decreases s.len(),
{
    if s.len() == 0 {
        None
    } else if s[0] == '"' {
        Some((Seq::empty(), s.drop_first()))
    } else if s[0] == '\\' {
        if s.len() >= 2 {
            match unescape_char(s[1]) {
                Some(c) => match parse_string_body(s.skip(2)) {
                    Some(pr) => Some((seq![c] + pr.0, pr.1)),
                    None => None,
                },
                None => None,
            }
        } else {
            None
        }
    } else {
        match parse_string_body(s.drop_first()) {
            Some(pr) => Some((seq![s[0]] + pr.0, pr.1)),
            None => None,
        }
    }
}

/// Nothing but whitespace remains.
pub open spec fn only_ws(s: Seq<char>) -> bool {
    skip_ws(s).len() == 0
}

/// After a tagged object's payload: optional whitespace, `}`, then only
/// whitespace to the end.
pub open spec fn closes_object(s: Seq<char>) -> bool {
    let t = skip_ws(s);
    t.len() > 0 && t[0] == '}' && only_ws(t.drop_first())
}

/// Parses the inside of a tagged object.  `s` begins just after `{`.
pub open spec fn parse_tagged(s: Seq<char>) -> Option<CommandView> {
    let t = skip_ws(s);
    if t.len() > 0 && t[0] == '"' {
        match parse_string_body(t.drop_first()) {
            Some(pr) => {
                let u = skip_ws(pr.1);
                if u.len() > 0 && u[0] == ':' {
                    let w = skip_ws(u.drop_first());
                    if pr.0 == "Toggle"@ {
                        if w.len() >= 4 && w.subrange(0, 4) == "null"@ && closes_object(w.skip(4)) {
                            Some(CommandView::Toggle)
                        } else {
                            None
                        }
                    } else if pr.0 == "Print"@ {
                        if w.len() > 0 && w[0] == '"' {
                            match parse_string_body(w.drop_first()) {
                                Some(pp) => if closes_object(pp.1) {
                                    Some(CommandView::Print(pp.0))
                                } else {
                                    None
                                },
                                None => None,
                            }
                        } else {
                            None
                        }
                    } else {
                        None
                    }
                } else {
                    None
                }
            }
            None => None,
        }
    } else {
        None
    }
}

/// The wire reading of text `s` as a command: the bare-string form for
/// `Toggle`, or the tagged-object form; `None` when `s` is not a wire value
/// of the command vocabulary.
pub open spec fn parse_command(s: Seq<char>) -> Option<CommandView> {
    let t = skip_ws(s);
    if t.len() > 0 && t[0] == '"' {
        match parse_string_body(t.drop_first()) {
            Some(pr) => if pr.0 == "Toggle"@ && only_ws(pr.1) {
                Some(CommandView::Toggle)
            } else {
                None
            },
            None => None,
        }
    } else if t.len() > 0 && t[0] == '{' {
        parse_tagged(t.drop_first())
    } else {
        None
    }
}

/// How the encoder writes one payload character.
pub open spec fn escape_char(c: char) -> Seq<char> {
    if c == '"' {
        seq!['\\', '"']
    } else if c == '\\' {
        seq!['\\', '\\']
    } else if c == '\n' {
        seq!['\\', 'n']
    } else if c == '\r' {
        seq!['\\', 'r']
    } else if c == '\t' {
        seq!['\\', 't']
    } else {
        seq![c]
    }
}

/// The escaped form of a payload text.
pub open spec fn escape_text(s: Seq<char>) -> Seq<char>
    decreases s.len(),
{
    if s.len() == 0 {
        Seq::empty()
    } else {
        escape_char(s[0]) + escape_text(s.drop_first())
    }
}

/// The canonical wire text of a command.
pub open spec fn encode_command(c: CommandView) -> Seq<char> {
    match c {
        CommandView::Toggle => "{\"Toggle\":null}"@,
        CommandView::Print(p) => "{\"Print\":\""@ + escape_text(p) + "\"}"@,
    }
}

/// The canonical wire text of an event.
pub open spec fn encode_event(e: PostEventView) -> Seq<char> {
    match e {
        PostEventView::Note(t) => "{\"Note\":\""@ + escape_text(t) + "\"}"@,
        PostEventView::Measurement(n) => "{\"Measurement\":"@ + n + "}"@,
    }
}

/// The index just past the whitespace that starts at `i`.
fn skip_ws_idx(v: &Vec<char>, i: usize) -> (j: usize)
    requires
        i <= v.len(),
    ensures
        i <= j <= v.len(),
        skip_ws(v@.skip(i as int)) == v@.skip(j as int),
{
    let mut j: usize = i;
    while j < v.len() && (v[j] == ' ' || v[j] == '\t' || v[j] == '\n' || v[j] == '\r')
        invariant
            i <= j <= v.len(),
            skip_ws(v@.skip(i as int)) == skip_ws(v@.skip(j as int)),
        decreases v.len() - j,
    {
        proof {
            assert(v@.skip(j as int)[0] == v@[j as int]);
            assert(v@.skip(j as int).drop_first() =~= v@.skip(j as int + 1));
        }
        j = j + 1;
    }
    proof {
        if j < v.len() {
            assert(v@.skip(j as int)[0] == v@[j as int]);
            assert(!is_ws(v@.skip(j as int)[0]));
        }
        assert(skip_ws(v@.skip(j as int)) == v@.skip(j as int));
    }
    j
}

/// The executable mirror of `unescape_char`.
fn unescape_char_exec(c: char) -> (r: Option<char>)
    ensures
        r == unescape_char(c),
{
    if c == '"' {
        Some('"')
    } else if c == '\\' {
        Some('\\')
    } else if c == '/' {
        Some('/')
    } else if c == 'n' {
        Some('\n')
    } else if c == 'r' {
        Some('\r')
    } else if c == 't' {
        Some('\t')
    } else if c == 'b' {
        Some('\u{0008}')
    } else if c == 'f' {
        Some('\u{000C}')
    } else {
        None
    }
}

/// The executable mirror of `parse_string_body`, over indices into `v`.
fn parse_string_body_idx(v: &Vec<char>, i: usize) -> (r: Option<(Vec<char>, usize)>)
    requires
        i <= v.len(),
    ensures
        match r {
            Some(pr) => {
                &&& i < pr.1 <= v.len()
                &&& parse_string_body(v@.skip(i as int)) == Some((pr.0@, v@.skip(pr.1 as int)))
            },
            None => parse_string_body(v@.skip(i as int)) is None,
        },
    decreases v.len() - i,
{
    let ghost s = v@.skip(i as int);
    if i == v.len() {
        return None;
    }
    let c = v[i];
    proof {
        assert(s[0] == v@[i as int]);
    }
    if c == '"' {
        proof {
            assert(s.drop_first() =~= v@.skip(i as int + 1));
        }
        let body: Vec<char> = Vec::new();
        assert(body@ =~= Seq::<char>::empty());
        return Some((body, i + 1));
    }
    if c == '\\' {
        if i + 1 < v.len() {
            proof {
                assert(s[1] == v@[i as int + 1]);
                assert(s.skip(2) =~= v@.skip(i as int + 2));
            }
            match unescape_char_exec(v[i + 1]) {
                Some(u) => {
                    match parse_string_body_idx(v, i + 2) {
                        Some(pr) => {
                            let (mut body, j) = pr;
                            let ghost inner = body@;
                            body.insert(0, u);
                            proof {
                                assert(body@ =~= seq![u] + inner);
                                assert(parse_string_body(s) == Some((body@, v@.skip(j as int))));
                            }
                            Some((body, j))
                        }
                        None => None,
                    }
                }
                None => None,
            }
        } else {
            assert(s.len() < 2);
            None
        }
    } else {
        proof {
            assert(s.drop_first() =~= v@.skip(i as int + 1));
        }
        match parse_string_body_idx(v, i + 1) {
            Some(pr) => {
                let (mut body, j) = pr;
                let ghost inner = body@;
                body.insert(0, c);
                proof {
                    assert(body@ =~= seq![c] + inner);
                    assert(parse_string_body(s) == Some((body@, v@.skip(j as int))));
                }
                Some((body, j))
            }
            None => None,
        }
    }
}

/// Decides `closes_object` for the suffix of `v` that starts at `i`.
fn closes_object_idx(v: &Vec<char>, i: usize) -> (r: bool)
    requires
        i <= v.len(),
    ensures
        r == closes_object(v@.skip(i as int)),
{
    let z = skip_ws_idx(v, i);
    if z < v.len() {
        proof {
            assert(v@.skip(z as int)[0] == v@[z as int]);
        }
        if v[z] == '}' {
            proof {
                assert(v@.skip(z as int).drop_first() =~= v@.skip(z as int + 1));
            }
            let f = skip_ws_idx(v, z + 1);
            f == v.len()
        } else {
            false
        }
    } else {
        false
    }
}

/// Decodes wire text into a command: the string-JSON strategy's core.
/// Returns `None` exactly when `s` is not a wire value of the command
/// vocabulary.
pub fn decode_command_json(s: &str) -> (r: Option<Command>)
    ensures
        match r {
            Some(c) => parse_command(s@) == Some(c@),
            None => parse_command(s@) is None,
        },
{
    let v = str_to_char_vec(s);
    let n = v.len();
    let ghost sq = v@;
    proof {
        assert(sq.skip(0) =~= sq);
    }
    let i = skip_ws_idx(&v, 0);
    if i == n {
        return None;
    }
    proof {
        assert(sq.skip(i as int)[0] == sq[i as int]);
    }
    let c0 = v[i];
    if c0 == '"' {
        proof {
            assert(sq.skip(i as int).drop_first() =~= sq.skip(i as int + 1));
        }
        match parse_string_body_idx(&v, i + 1) {
            Some(pr) => {
                let (name, j) = pr;
                let is_toggle = chars_eq_str(&name, "Toggle");
                let e = skip_ws_idx(&v, j);
                if is_toggle && e == n {
                    Some(Command::Toggle)
                } else {
                    None
                }
            }
            None => None,
        }
    } else if c0 == '{' {
        proof {
            assert(sq.skip(i as int).drop_first() =~= sq.skip(i as int + 1));
        }
        decode_tagged_idx(&v, i + 1)
    } else {
        None
    }
}

/// The executable mirror of `parse_tagged`: decodes the inside of a tagged
/// object, starting just after `{`.
fn decode_tagged_idx(v: &Vec<char>, i: usize) -> (r: Option<Command>)
    requires
        i <= v.len(),
    ensures
        match r {
            Some(c) => parse_tagged(v@.skip(i as int)) == Some(c@),
            None => parse_tagged(v@.skip(i as int)) is None,
        },
{
    let n = v.len();
    let ghost sq = v@;
    let k = skip_ws_idx(v, i);
    if k == n {
        return None;
    }
    proof {
        assert(sq.skip(k as int)[0] == sq[k as int]);
    }
    if v[k] != '"' {
        return None;
    }
    proof {
        assert(sq.skip(k as int).drop_first() =~= sq.skip(k as int + 1));
    }
    match parse_string_body_idx(v, k + 1) {
        None => None,
        Some(pr) => {
            let (name, j) = pr;
            let m = skip_ws_idx(v, j);
            if m == n {
                return None;
            }
            proof {
                assert(sq.skip(m as int)[0] == sq[m as int]);
            }
            if v[m] != ':' {
                return None;
            }
            proof {
                assert(sq.skip(m as int).drop_first() =~= sq.skip(m as int + 1));
            }
            let w = skip_ws_idx(v, m + 1);
            let ghost wseq = sq.skip(w as int);
            if chars_eq_str(&name, "Toggle") {
                if n - w >= 4 && v[w] == 'n' && v[w + 1] == 'u' && v[w + 2] == 'l' && v[w + 3]
                    == 'l' {
                    proof {
                        reveal_strlit("null");
                        assert(wseq.len() >= 4);
                        assert(wseq[0] == sq[w as int]);
                        assert(wseq[1] == sq[w as int + 1]);
                        assert(wseq[2] == sq[w as int + 2]);
                        assert(wseq[3] == sq[w as int + 3]);
                        assert(wseq.subrange(0, 4) =~= "null"@);
                        assert(wseq.skip(4) =~= sq.skip(w as int + 4));
                    }
                    if closes_object_idx(v, w + 4) {
                        Some(Command::Toggle)
                    } else {
                        None
                    }
                } else {
                    proof {
                        reveal_strlit("null");
                        if wseq.len() >= 4 {
                            assert(wseq[0] == sq[w as int]);
                            assert(wseq[1] == sq[w as int + 1]);
                            assert(wseq[2] == sq[w as int + 2]);
                            assert(wseq[3] == sq[w as int + 3]);
                            if wseq.subrange(0, 4) == "null"@ {
                                assert(wseq.subrange(0, 4)[0] == 'n');
                                assert(wseq.subrange(0, 4)[1] == 'u');
                                assert(wseq.subrange(0, 4)[2] == 'l');
                                assert(wseq.subrange(0, 4)[3] == 'l');
                                assert(false);
                            }
                        }
                    }
                    None
                }
            } else if chars_eq_str(&name, "Print") {
                if w == n {
                    return None;
                }
                proof {
                    assert(wseq[0] == sq[w as int]);
                }
                if v[w] != '"' {
                    return None;
                }
                proof {
                    assert(wseq.drop_first() =~= sq.skip(w as int + 1));
                }
                match parse_string_body_idx(v, w + 1) {
                    None => None,
                    Some(pp) => {
                        let (payload, q) = pp;
                        if closes_object_idx(v, q) {
                            let text = string_from_chars(&payload);
                            Some(Command::Print(text))
                        } else {
                            None
                        }
                    }
                }
            } else {
                None
            }
        }
    }
}

/// Appending one character extends the escaped text by that character's
/// escape.
proof fn lemma_escape_text_snoc(s: Seq<char>, c: char)
    ensures
        escape_text(s.push(c)) == escape_text(s) + escape_char(c),
    decreases s.len(),
{
    if s.len() == 0 {
        let sp = s.push(c);
        assert(sp[0] == c);
        assert(sp.drop_first() =~= Seq::<char>::empty());
        assert(escape_text(sp) == escape_char(sp[0]) + escape_text(sp.drop_first()));
        assert(escape_text(sp.drop_first()) == Seq::<char>::empty());
        assert(escape_text(s) == Seq::<char>::empty());
        assert(escape_text(sp) =~= escape_text(s) + escape_char(c));
    } else {
        let sp = s.push(c);
        assert(sp[0] == s[0]);
        assert(sp.drop_first() =~= s.drop_first().push(c));
        lemma_escape_text_snoc(s.drop_first(), c);
        assert(escape_text(sp) == escape_char(sp[0]) + escape_text(sp.drop_first()));
        assert(escape_text(s) == escape_char(s[0]) + escape_text(s.drop_first()));
        assert(escape_text(sp.drop_first()) == escape_text(s.drop_first()) + escape_char(c));
        assert(escape_text(sp) =~= escape_text(s) + escape_char(c));
    }
}

/// Escaping a text of plain characters leaves it unchanged.
proof fn lemma_escape_plain(s: Seq<char>)
    requires
        forall|k: int|
            0 <= k < s.len() ==> s[k] != '"' && s[k] != '\\' && s[k] != '\n' && s[k] != '\r'
                && s[k] != '\t',
    ensures
        escape_text(s) == s,
    decreases s.len(),
{
    if s.len() == 0 {
        assert(escape_text(s) =~= s);
    } else {
        assert(forall|k: int|
            0 <= k < s.drop_first().len() ==> s.drop_first()[k] == s[k + 1]);
        lemma_escape_plain(s.drop_first());
        assert(escape_char(s[0]) =~= seq![s[0]]);
        assert(escape_text(s) =~= s);
    }
}

/// The string-body parser undoes the encoder's escaping: the escaped form of
/// `p`, a closing quote, and anything after parse back to exactly `p` with
/// the tail untouched.
proof fn lemma_parse_escaped(p: Seq<char>, rest: Seq<char>)
    ensures
        parse_string_body(escape_text(p) + seq!['"'] + rest) == Some((p, rest)),
    decreases p.len(),
{
    let s = escape_text(p) + seq!['"'] + rest;
    if p.len() == 0 {
        assert(escape_text(p) =~= Seq::<char>::empty());
        assert(s =~= seq!['"'] + rest);
        assert(s[0] == '"');
        assert(s.drop_first() =~= rest);
        assert(parse_string_body(s) == Some((Seq::<char>::empty(), s.drop_first())));
        assert(p =~= Seq::<char>::empty());
    } else {
        let c = p[0];
        let tail = p.drop_first();
        lemma_parse_escaped(tail, rest);
        let s2 = escape_text(tail) + seq!['"'] + rest;
        assert(escape_text(p) == escape_char(c) + escape_text(tail));
        assert(seq![c] + tail =~= p);
        if c == '"' {
            assert(s =~= seq!['\\', '"'] + s2);
            assert(s[0] == '\\' && s[1] == '"');
            assert(unescape_char(s[1]) == Some(c));
            assert(s.skip(2) =~= s2);
            assert(parse_string_body(s) == Some((seq![c] + tail, rest)));
        } else if c == '\\' {
            assert(s =~= seq!['\\', '\\'] + s2);
            assert(s[0] == '\\' && s[1] == '\\');
            assert(unescape_char(s[1]) == Some(c));
            assert(s.skip(2) =~= s2);
            assert(parse_string_body(s) == Some((seq![c] + tail, rest)));
        } else if c == '\n' {
            assert(s =~= seq!['\\', 'n'] + s2);
            assert(s[0] == '\\' && s[1] == 'n');
            assert(unescape_char(s[1]) == Some(c));
            assert(s.skip(2) =~= s2);
            assert(parse_string_body(s) == Some((seq![c] + tail, rest)));
        } else if c == '\r' {
            assert(s =~= seq!['\\', 'r'] + s2);
            assert(s[0] == '\\' && s[1] == 'r');
            assert(unescape_char(s[1]) == Some(c));
            assert(s.skip(2) =~= s2);
            assert(parse_string_body(s) == Some((seq![c] + tail, rest)));
        } else if c == '\t' {
            assert(s =~= seq!['\\', 't'] + s2);
            assert(s[0] == '\\' && s[1] == 't');
            assert(unescape_char(s[1]) == Some(c));
            assert(s.skip(2) =~= s2);
            assert(parse_string_body(s) == Some((seq![c] + tail, rest)));
        } else {
            assert(s =~= seq![c] + s2);
            assert(s[0] == c);
            assert(s.drop_first() =~= s2);
            assert(parse_string_body(s) == Some((seq![c] + tail, rest)));
        }
    }
}

/// Law: the wire encoding is lossless.  Decoding a command's canonical wire
/// text yields that command back, for every payload text.
pub proof fn lemma_command_round_trip(c: CommandView)
    ensures
        parse_command(encode_command(c)) == Some(c),
{
    match c {
        CommandView::Toggle => {
            reveal_strlit("{\"Toggle\":null}");
            reveal_strlit("Toggle");
            let s = "{\"Toggle\":null}"@;
            assert(s[0] == '{');
            assert(skip_ws(s) == s);
            let s1 = s.drop_first();
            assert(s1[0] == '"');
            assert(skip_ws(s1) == s1);
            let s2 = s1.drop_first();
            let m = seq![':', 'n', 'u', 'l', 'l', '}'];
            assert(s2 =~= "Toggle"@ + seq!['"'] + m);
            assert(forall|k: int|
                0 <= k < "Toggle"@.len() ==> "Toggle"@[k] != '"' && "Toggle"@[k] != '\\'
                    && "Toggle"@[k] != '\n' && "Toggle"@[k] != '\r' && "Toggle"@[k] != '\t');
            lemma_escape_plain("Toggle"@);
            lemma_parse_escaped("Toggle"@, m);
            assert(parse_string_body(s2) == Some(("Toggle"@, m)));
            assert(m[0] == ':');
            assert(skip_ws(m) == m);
            let m1 = m.drop_first();
            assert(m1 =~= seq!['n', 'u', 'l', 'l', '}']);
            assert(m1[0] == 'n');
            assert(skip_ws(m1) == m1);
            reveal_strlit("null");
            assert(m1.subrange(0, 4) =~= "null"@);
            let cl = m1.skip(4);
            assert(cl =~= seq!['}']);
            assert(skip_ws(cl) == cl);
            assert(cl.drop_first() =~= Seq::<char>::empty());
            assert(skip_ws(Seq::<char>::empty()).len() == 0);
            assert(closes_object(cl));
            assert(parse_tagged(s1) == Some(CommandView::Toggle));
            assert(parse_command(s) == Some(c));
        }
        CommandView::Print(p) => {
            reveal_strlit("{\"Print\":\"");
            reveal_strlit("\"}");
            reveal_strlit("Print");
            reveal_strlit("Toggle");
            let ep = escape_text(p);
            let s = "{\"Print\":\""@ + ep + "\"}"@;
            assert(s[0] == '{');
            assert(skip_ws(s) == s);
            let s1 = s.drop_first();
            assert(s1[0] == '"');
            assert(skip_ws(s1) == s1);
            let s2 = s1.drop_first();
            let m = seq![':', '"'] + ep + seq!['"', '}'];
            assert(s2 =~= "Print"@ + seq!['"'] + m);
            assert(forall|k: int|
                0 <= k < "Print"@.len() ==> "Print"@[k] != '"' && "Print"@[k] != '\\'
                    && "Print"@[k] != '\n' && "Print"@[k] != '\r' && "Print"@[k] != '\t');
            lemma_escape_plain("Print"@);
            lemma_parse_escaped("Print"@, m);
            assert(parse_string_body(s2) == Some(("Print"@, m)));
            assert("Print"@ != "Toggle"@);
            assert(m[0] == ':');
            assert(skip_ws(m) == m);
            let m1 = m.drop_first();
            assert(m1 =~= seq!['"'] + (ep + seq!['"', '}']));
            assert(m1[0] == '"');
            assert(skip_ws(m1) == m1);
            let m2 = m1.drop_first();
            assert(m2 =~= ep + seq!['"'] + seq!['}']);
            lemma_parse_escaped(p, seq!['}']);
            assert(parse_string_body(m2) == Some((p, seq!['}'])));
            let cl = seq!['}'];
            assert(skip_ws(cl) == cl);
            assert(cl.drop_first() =~= Seq::<char>::empty());
            assert(skip_ws(Seq::<char>::empty()).len() == 0);
            assert(closes_object(cl));
            assert(parse_tagged(s1) == Some(CommandView::Print(p)));
            assert(parse_command(s) == Some(c));
        }
    }
}

/// Law: re-encoding a decoded command reproduces an equivalent wire value —
/// one the decoder reads exactly as it read the original.
pub proof fn lemma_decode_reencode(s: Seq<char>, c: CommandView)
    requires
        parse_command(s) == Some(c),
    ensures
        parse_command(encode_command(c)) == parse_command(s),
{
    lemma_command_round_trip(c);
}

/// Appends the escaped form of `p` to `out`.
fn push_escaped(out: &mut Vec<char>, p: &str)
    ensures
        final(out)@ == old(out)@ + escape_text(p@),
{
    let n = p.unicode_len();
    let mut i: usize = 0;
    while i < n
        invariant
            i <= n,
            n == p@.len(),
            out@ == old(out)@ + escape_text(p@.subrange(0, i as int)),
        decreases n - i,
    {
        let c = p.get_char(i);
        if c == '"' {
            out.push('\\');
            out.push('"');
        } else if c == '\\' {
            out.push('\\');
            out.push('\\');
        } else if c == '\n' {
            out.push('\\');
            out.push('n');
        } else if c == '\r' {
            out.push('\\');
            out.push('r');
        } else if c == '\t' {
            out.push('\\');
            out.push('t');
        } else {
            out.push(c);
        }
        proof {
            let pre = p@.subrange(0, i as int);
            assert(p@.subrange(0, i as int + 1) =~= pre.push(p@[i as int]));
            lemma_escape_text_snoc(pre, p@[i as int]);
            assert(out@ =~= old(out)@ + escape_text(p@.subrange(0, i as int + 1)));
        }
        i = i + 1;
    }
    proof {
        assert(p@.subrange(0, n as int) =~= p@);
    }
}

/// Encodes a command to its canonical wire text.
pub fn encode_command_wire(c: &Command) -> (r: String)
    ensures
        r@ == encode_command(c@),
{
    match c {
        Command::Toggle => {
            let s = String::from_str("{\"Toggle\":null}");
            s
        }
        Command::Print(p) => {
            let mut out: Vec<char> = Vec::new();
            push_str_chars(&mut out, "{\"Print\":\"");
            push_escaped(&mut out, p.as_str());
            push_str_chars(&mut out, "\"}");
            proof {
                assert(out@ =~= "{\"Print\":\""@ + escape_text(p@) + "\"}"@);
            }
            string_from_chars(&out)
        }
    }
}

/// Encodes an event to its canonical wire text.
pub fn encode_event_wire(e: &PostEvent) -> (r: String)
    ensures
        r@ == encode_event(e@),
{
    match e {
        PostEvent::Note(t) => {
            let mut out: Vec<char> = Vec::new();
            push_str_chars(&mut out, "{\"Note\":\"");
            push_escaped(&mut out, t.as_str());
            push_str_chars(&mut out, "\"}");
            proof {
                assert(out@ =~= "{\"Note\":\""@ + escape_text(t@) + "\"}"@);
            }
            string_from_chars(&out)
        }
        PostEvent::Measurement(n) => {
            let mut out: Vec<char> = Vec::new();
            push_str_chars(&mut out, "{\"Measurement\":");
            push_str_chars(&mut out, n.as_text());
            push_str_chars(&mut out, "}");
            proof {
                assert(out@ =~= "{\"Measurement\":"@ + n@ + "}"@);
            }
            string_from_chars(&out)
        }
    }
}

} // verus!
