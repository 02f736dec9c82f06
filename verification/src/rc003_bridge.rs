//! Transport of the RC003 back and volume keys from the elevated capture
//! helper to this program: the line protocol (`HELLO`, `E`, `P`, `BYE`),
//! the descriptor file the helper reads, the whitelist of the three usages,
//! the difference of absolute key states into edges, and the decisions of one
//! helper connection (authentication, denial limit, watchdogs, release of
//! everything when the link ends). Times are milliseconds.
use vstd::prelude::*;
use crate::raw_input::{usage_button, ButtonEdge, RemoteButton};
use crate::text::{
    chars_of, decimal_seq, is_space, parse_unsigned, parse_unsigned_chars, push_char, push_str,
    string_of, trim_chars, trim_end_index, trim_seq, trim_start_index,
};

verus! {

/// Name of the descriptor file the helper reads.
pub const BRIDGE_FILE_NAME: &'static str = "rc003-bridge.ini";

/// Protocol version; a helper speaking another version is refused.
pub const BRIDGE_PROTOCOL_VERSION: u32 = 1;

/// How long a connection may take to say `HELLO`.
pub const HELLO_TIMEOUT_MS: u64 = 5_000;

/// How long an authenticated helper may stay silent (it pings every second).
pub const SILENCE_TIMEOUT_MS: u64 = 3_000;

/// Granularity of a read.
pub const READ_POLL_MS: u64 = 500;

/// Refused handshakes after which the connection is closed.
pub const MAX_DENY: u32 = 3;

/// Longest line; a longer pending line closes the connection.
pub const MAX_LINE_BYTES: usize = 4_096;

/// Debug formatting of a string (quoted, with escapes), as `{:?}` writes it.
pub uninterp spec fn str_debug(s: Seq<char>) -> Seq<char>;

/// Formats a string with `{:?}`: the string quoted and escaped. The result is
/// a function of the characters alone (the escape rules of `char::escape_debug`).
#[verifier::external_body]
fn debug_quoted(s: &str) -> (r: String)
    ensures
        r@ == str_debug(s@),
{
    format!("{:?}", s)
}

/// The text of `bytes` decoded as UTF-8, each invalid sequence replaced by
/// U+FFFD (as `String::from_utf8_lossy` decodes it).
pub uninterp spec fn utf8_lossy_text(bytes: Seq<u8>) -> Seq<char>;

/// Decodes a received line with `String::from_utf8_lossy`: the result is a
/// function of the bytes alone, named `utf8_lossy_text`; what it is on given
/// bytes is left to that name.
#[verifier::external_body]
fn decode_lossy(bytes: &[u8]) -> (r: String)
    ensures
        r@ == utf8_lossy_text(bytes@),
{
    String::from_utf8_lossy(bytes).into_owned()
}

/// The pieces of `s` between occurrences of `c` (as `str::split` gives them).
pub open spec fn split_char(s: Seq<char>, c: char) -> Seq<Seq<char>>
    decreases s.len(),
{
    if s.len() == 0 {
        seq![Seq::<char>::empty()]
    } else {
        let init = split_char(s.drop_last(), c);
        if s.last() == c {
            init.push(Seq::<char>::empty())
        } else {
            init.update(init.len() - 1, init.last().push(s.last()))
        }
    }
}

proof fn lemma_split_nonempty(s: Seq<char>, c: char)
    ensures
        split_char(s, c).len() >= 1,
    decreases s.len(),
{
    if s.len() > 0 {
        lemma_split_nonempty(s.drop_last(), c);
    }
}

/// The views of a sequence of character vectors.
pub open spec fn pieces_view(v: Seq<Vec<char>>) -> Seq<Seq<char>> {
    Seq::new(v.len(), |i: int| v[i]@)
}

fn split_chars(s: &[char], c: char) -> (r: Vec<Vec<char>>)
    ensures
        pieces_view(r@) == split_char(s@, c),
        r@.len() >= 1,
{
    let mut parts: Vec<Vec<char>> = Vec::new();
    parts.push(Vec::new());
    assert(pieces_view(parts@) =~= split_char(s@.subrange(0, 0), c));
    let mut i: usize = 0;
    while i < s.len()
        invariant
            i <= s@.len(),
            parts@.len() >= 1,
            pieces_view(parts@) == split_char(s@.subrange(0, i as int), c),
        decreases s@.len() - i,
    {
        let ch = s[i];
        let ghost prefix = s@.subrange(0, i + 1);
        assert(prefix.drop_last() =~= s@.subrange(0, i as int));
        if ch == c {
            parts.push(Vec::new());
            assert(pieces_view(parts@) =~= split_char(prefix, c));
        } else {
            let last = parts.len() - 1;
            let mut piece = parts.pop().unwrap();
            piece.push(ch);
            parts.push(piece);
            assert(pieces_view(parts@) =~= split_char(prefix, c));
        }
        i = i + 1;
    }
    assert(s@.subrange(0, s@.len() as int) =~= s@);
    parts
}

/// The pieces joined again with single spaces.
pub open spec fn join_spaces(ps: Seq<Seq<char>>) -> Seq<char>
    decreases ps.len(),
{
    if ps.len() == 0 {
        Seq::empty()
    } else if ps.len() == 1 {
        ps[0]
    } else {
        join_spaces(ps.drop_last()) + seq![' '] + ps.last()
    }
}

/// A parsed protocol line, as values.
pub enum LineView {
    Hello(u32, Seq<char>, u32),
    Edges(Seq<u16>),
    Ping,
    Bye(Seq<char>),
}

/// One line of the helper.
#[derive(Debug, Clone, PartialEq, Eq)]
pub enum BridgeLine {
    Hello { version: u32, token: String, helper_pid: u32 },
    /// The usages held now; empty means everything was released.
    Edges { usages: Vec<u16> },
    Ping,
    Bye { reason: String },
}

pub open spec fn line_view(l: BridgeLine) -> LineView {
    match l {
        BridgeLine::Hello { version, token, helper_pid } => LineView::Hello(
            version,
            token@,
            helper_pid,
        ),
        BridgeLine::Edges { usages } => LineView::Edges(usages@),
        BridgeLine::Ping => LineView::Ping,
        BridgeLine::Bye { reason } => LineView::Bye(reason@),
    }
}

pub open spec fn result_view(r: Result<Option<BridgeLine>, String>) -> Result<
    Option<LineView>,
    Seq<char>,
> {
    match r {
        Ok(Some(l)) => Ok(Some(line_view(l))),
        Ok(None) => Ok(None),
        Err(e) => Err(e@),
    }
}

/// The `HELLO` fields: version, non-empty token, helper process id.
pub open spec fn hello_outcome(p: Seq<Seq<char>>) -> Result<LineView, Seq<char>> {
    if p.len() < 2 {
        Err("HELLO 缺少协议版本"@)
    } else if parse_unsigned(p[1], 10, u32::MAX as int) is None {
        Err("HELLO 协议版本不是整数"@)
    } else if p.len() < 3 {
        Err("HELLO 缺少令牌"@)
    } else if p[2].len() == 0 {
        Err("HELLO 令牌为空"@)
    } else if p.len() < 4 {
        Err("HELLO 缺少进程号"@)
    } else if parse_unsigned(p[3], 10, u32::MAX as int) is None {
        Err("HELLO 进程号不是整数"@)
    } else {
        Ok(
            LineView::Hello(
                parse_unsigned(p[1], 10, u32::MAX as int)->Some_0 as u32,
                p[2],
                parse_unsigned(p[3], 10, u32::MAX as int)->Some_0 as u32,
            ),
        )
    }
}

/// A usage written with an optional `0x` or `0X` prefix.
pub open spec fn strip_hex_prefix(raw: Seq<char>) -> Seq<char> {
    if raw.len() > 2 && raw[0] == '0' && (raw[1] == 'x' || raw[1] == 'X') {
        raw.subrange(2, raw.len() as int)
    } else {
        raw
    }
}

/// Parses the comma-separated hexadecimal usages left in `raws`, after the
/// ones already in `acc`: empty entries are skipped, repeats dropped, and the
/// first entry that is not a 16-bit hexadecimal number is an error.
pub open spec fn usages_fold(raws: Seq<Seq<char>>, acc: Seq<u16>) -> Result<Seq<u16>, Seq<char>>
    decreases raws.len(),
{
    if raws.len() == 0 {
        Ok(acc)
    } else {
        let tok = strip_hex_prefix(trim_seq(raws[0]));
        if tok.len() == 0 {
            usages_fold(raws.drop_first(), acc)
        } else {
            match parse_unsigned(tok, 16, 0xFFFF) {
                None => Err(str_debug(tok) + " 不是十六进制 usage"@),
                Some(u) => usages_fold(
                    raws.drop_first(),
                    if acc.contains(u as u16) {
                        acc
                    } else {
                        acc.push(u as u16)
                    },
                ),
            }
        }
    }
}

/// The `E` fields: a decimal timestamp, then `-` (or nothing) for no usage,
/// or the held usages.
pub open spec fn edges_outcome(p: Seq<Seq<char>>) -> Result<LineView, Seq<char>> {
    if p.len() < 2 {
        Err("E 缺少时间戳"@)
    } else if parse_unsigned(p[1], 10, u64::MAX as int) is None {
        Err("E 时间戳不是整数"@)
    } else if p.len() < 3 || p[2] == "-"@ {
        Ok(LineView::Edges(Seq::empty()))
    } else {
        match usages_fold(split_char(p[2], ','), Seq::empty()) {
            Ok(u) => Ok(LineView::Edges(u)),
            Err(e) => Err(e),
        }
    }
}

/// What a line of the helper means, after trimming: nothing for an empty
/// line, else the message its first space-separated word names.
pub open spec fn bridge_outcome(line: Seq<char>) -> Result<Option<LineView>, Seq<char>> {
    let l = trim_seq(line);
    if l.len() == 0 {
        Ok(None)
    } else {
        let p = split_char(l, ' ');
        let head = p[0];
        if head == "HELLO"@ {
            match hello_outcome(p) {
                Ok(v) => Ok(Some(v)),
                Err(e) => Err(e),
            }
        } else if head == "E"@ {
            match edges_outcome(p) {
                Ok(v) => Ok(Some(v)),
                Err(e) => Err(e),
            }
        } else if head == "P"@ {
            Ok(Some(LineView::Ping))
        } else if head == "BYE"@ {
            Ok(Some(LineView::Bye(join_spaces(p.drop_first()))))
        } else {
            Err("未知命令 "@ + str_debug(head))
        }
    }
}

fn is_literal(s: &[char], lit: &str) -> (r: bool)
    ensures
        r == (s@ == lit@),
{
    let l = chars_of(lit);
    crate::text::chars_equal(s, l.as_slice())
}

fn parse_hello(p: &Vec<Vec<char>>) -> (r: Result<BridgeLine, String>)
    ensures
        match r {
            Ok(l) => hello_outcome(pieces_view(p@)) == Ok::<LineView, Seq<char>>(line_view(l)),
            Err(e) => hello_outcome(pieces_view(p@)) == Err::<LineView, Seq<char>>(e@),
        },
{
    let ghost pv = pieces_view(p@);
    if p.len() < 2 {
        return Err(String::from_str("HELLO 缺少协议版本"));
    }
    assert(pv[1] == p@[1]@);
    let version = match parse_unsigned_chars(p[1].as_slice(), 10, 0xFFFF_FFFF) {
        None => return Err(String::from_str("HELLO 协议版本不是整数")),
        Some(v) => v as u32,
    };
    if p.len() < 3 {
        return Err(String::from_str("HELLO 缺少令牌"));
    }
    assert(pv[2] == p@[2]@);
    if p[2].len() == 0 {
        return Err(String::from_str("HELLO 令牌为空"));
    }
    let token = string_of(p[2].as_slice());
    if p.len() < 4 {
        return Err(String::from_str("HELLO 缺少进程号"));
    }
    assert(pv[3] == p@[3]@);
    let helper_pid = match parse_unsigned_chars(p[3].as_slice(), 10, 0xFFFF_FFFF) {
        None => return Err(String::from_str("HELLO 进程号不是整数")),
        Some(v) => v as u32,
    };
    Ok(BridgeLine::Hello { version, token, helper_pid })
}

fn vec_contains_u16(v: &Vec<u16>, x: u16) -> (r: bool)
    ensures
        r == v@.contains(x),
{
    let mut i: usize = 0;
    while i < v.len()
        invariant
            i <= v@.len(),
            forall|k: int| 0 <= k < i ==> v@[k] != x,
        decreases v@.len() - i,
    {
        if v[i] == x {
            return true;
        }
        i = i + 1;
    }
    false
}

fn strip_hex_prefix_chars(raw: &Vec<char>) -> (r: Vec<char>)
    ensures
        r@ == strip_hex_prefix(raw@),
{
    if raw.len() > 2 && raw[0] == '0' && (raw[1] == 'x' || raw[1] == 'X') {
        let mut out: Vec<char> = Vec::new();
        let mut i: usize = 2;
        while i < raw.len()
            invariant
                2 <= i <= raw@.len(),
                out@ == raw@.subrange(2, i as int),
            decreases raw@.len() - i,
        {
            out.push(raw[i]);
            i = i + 1;
            assert(out@ =~= raw@.subrange(2, i as int));
        }
        out
    } else {
        let mut out: Vec<char> = Vec::new();
        let mut i: usize = 0;
        while i < raw.len()
            invariant
                i <= raw@.len(),
                out@ == raw@.subrange(0, i as int),
            decreases raw@.len() - i,
        {
            out.push(raw[i]);
            i = i + 1;
            assert(out@ =~= raw@.subrange(0, i as int));
        }
        assert(out@ =~= raw@);
        out
    }
}

fn parse_edges(p: &Vec<Vec<char>>) -> (r: Result<BridgeLine, String>)
    ensures
        match r {
            Ok(l) => edges_outcome(pieces_view(p@)) == Ok::<LineView, Seq<char>>(line_view(l)),
            Err(e) => edges_outcome(pieces_view(p@)) == Err::<LineView, Seq<char>>(e@),
        },
{
    let ghost pv = pieces_view(p@);
    if p.len() < 2 {
        return Err(String::from_str("E 缺少时间戳"));
    }
    assert(pv[1] == p@[1]@);
    if parse_unsigned_chars(p[1].as_slice(), 10, 0xFFFF_FFFF_FFFF_FFFF).is_none() {
        return Err(String::from_str("E 时间戳不是整数"));
    }
    if p.len() < 3 {
        return Ok(BridgeLine::Edges { usages: Vec::new() });
    }
    assert(pv[2] == p@[2]@);
    if is_literal(p[2].as_slice(), "-") {
        return Ok(BridgeLine::Edges { usages: Vec::new() });
    }
    let raws = split_chars(p[2].as_slice(), ',');
    let ghost all = pieces_view(raws@);
    let mut usages: Vec<u16> = Vec::new();
    assert(all.subrange(0, all.len() as int) =~= all);
    assert(usages@ =~= Seq::<u16>::empty());
    let mut i: usize = 0;
    while i < raws.len()
        invariant
            all == pieces_view(raws@),
            pv == pieces_view(p@),
            p@.len() >= 3,
            all == split_char(pv[2], ','),
            pv[2] != "-"@,
            parse_unsigned(pv[1], 10, u64::MAX as int) is Some,
            i <= raws@.len(),
            usages_fold(all, Seq::empty()) == usages_fold(all.subrange(i as int, all.len() as int), usages@),
        decreases raws@.len() - i,
    {
        let ghost rest = all.subrange(i as int, all.len() as int);
        assert(rest.drop_first() =~= all.subrange(i + 1, all.len() as int));
        assert(rest[0] == raws@[i as int]@);
        let trimmed = trim_chars(raws[i].as_slice());
        let tok = strip_hex_prefix_chars(&trimmed);
        if tok.len() == 0 {
            i = i + 1;
            continue;
        }
        match parse_unsigned_chars(tok.as_slice(), 16, 0xFFFF) {
            None => {
                let t = string_of(tok.as_slice());
                let mut e = debug_quoted(t.as_str());
                push_str(&mut e, " 不是十六进制 usage");
                proof {
                    assert(tok@ == strip_hex_prefix(trim_seq(rest[0])));
                    assert(parse_unsigned(tok@, 16, 0xFFFF) is None);
                    assert(usages_fold(rest, usages@) == Err::<Seq<u16>, Seq<char>>(e@));
                    assert(pv[2] != "-"@);
                    assert(split_char(pv[2], ',') == all);
                }
                return Err(e);
            },
            Some(u) => {
                let u16v = u as u16;
                if !vec_contains_u16(&usages, u16v) {
                    usages.push(u16v);
                }
            },
        }
        i = i + 1;
    }
    assert(all.subrange(all.len() as int, all.len() as int) =~= Seq::<Seq<char>>::empty());
    Ok(BridgeLine::Edges { usages })
}

fn join_rest(p: &Vec<Vec<char>>) -> (r: String)
    requires
        p@.len() >= 1,
    ensures
        r@ == join_spaces(pieces_view(p@).drop_first()),
{
    let ghost rest = pieces_view(p@).drop_first();
    let mut s = String::new();
    let mut i: usize = 1;
    while i < p.len()
        invariant
            rest == pieces_view(p@).drop_first(),
            1 <= i <= p@.len(),
            s@ == join_spaces(rest.subrange(0, i - 1)),
        decreases p@.len() - i,
    {
        let ghost before = s@;
        if i > 1 {
            push_char(&mut s, ' ');
        }
        let piece = string_of(p[i].as_slice());
        push_str(&mut s, piece.as_str());
        proof {
            let q = rest.subrange(0, i as int);
            assert(q.drop_last() =~= rest.subrange(0, i - 1));
            assert(q.last() == p@[i as int]@);
            if i > 1 {
                assert(s@ =~= join_spaces(q.drop_last()) + seq![' '] + q.last());
            } else {
                assert(s@ =~= q[0]);
            }
        }
        i = i + 1;
    }
    assert(rest.subrange(0, rest.len() as int) =~= rest);
    s
}

/// Parses one line of the helper (without its newline); an empty line gives
/// `None`.
pub fn parse_bridge_line(line: &str) -> (r: Result<Option<BridgeLine>, String>)
    ensures
        result_view(r) == bridge_outcome(line@),
{
    let cs = chars_of(line);
    let l = trim_chars(cs.as_slice());
    if l.len() == 0 {
        return Ok(None);
    }
    let p = split_chars(l.as_slice(), ' ');
    let ghost pv = pieces_view(p@);
    assert(pv[0] == p@[0]@);
    if is_literal(p[0].as_slice(), "HELLO") {
        match parse_hello(&p) {
            Ok(v) => Ok(Some(v)),
            Err(e) => Err(e),
        }
    } else if is_literal(p[0].as_slice(), "E") {
        match parse_edges(&p) {
            Ok(v) => Ok(Some(v)),
            Err(e) => Err(e),
        }
    } else if is_literal(p[0].as_slice(), "P") {
        Ok(Some(BridgeLine::Ping))
    } else if is_literal(p[0].as_slice(), "BYE") {
        let reason = join_rest(&p);
        Ok(Some(BridgeLine::Bye { reason }))
    } else {
        let head = string_of(p[0].as_slice());
        let mut e = String::from_str("未知命令 ");
        let q = debug_quoted(head.as_str());
        push_str(&mut e, q.as_str());
        Err(e)
    }
}


/// Whether the helper's token is the expected one: equal and not empty
/// (compared without stopping at the first difference).
pub fn token_matches(expected: &str, got: &str) -> (r: bool)
    ensures
        r == (expected@ == got@ && expected@.len() > 0),
{
    let e = chars_of(expected);
    let g = chars_of(got);
    if e.len() != g.len() || e.len() == 0 {
        return false;
    }
    let mut same = true;
    let mut i: usize = 0;
    while i < e.len()
        invariant
            e@.len() == g@.len(),
            i <= e@.len(),
            same == forall|k: int| 0 <= k < i ==> e@[k] == g@[k],
        decreases e@.len() - i,
    {
        same = same && e[i] == g[i];
        i = i + 1;
    }
    if same {
        assert(e@ =~= g@);
    }
    same
}

/// The index of the first `c` in `s`, or -1.
pub open spec fn first_index(s: Seq<char>, c: char) -> int
    decreases s.len(),
{
    if s.len() == 0 {
        -1
    } else if s[0] == c {
        0
    } else {
        let r = first_index(s.drop_first(), c);
        if r < 0 {
            -1
        } else {
            r + 1
        }
    }
}

proof fn lemma_first_index(s: Seq<char>, c: char, k: int)
    requires
        0 <= k <= s.len(),
        forall|j: int| 0 <= j < k ==> s[j] != c,
        k < s.len() ==> s[k] == c,
    ensures
        first_index(s, c) == (if k < s.len() {
            k
        } else {
            -1
        }),
    decreases k,
{
    if k > 0 {
        assert forall|j: int| 0 <= j < k - 1 implies s.drop_first()[j] != c by {
            assert(s.drop_first()[j] == s[j + 1]);
        }
        if k < s.len() {
            assert(s.drop_first()[k - 1] == s[k]);
        }
        lemma_first_index(s.drop_first(), c, k - 1);
    }
}

/// Descriptor entries read so far: port, token and version.
pub open spec fn descriptor_fold(
    lines: Seq<Seq<char>>,
    port: Option<u16>,
    token: Option<Seq<char>>,
    version: u32,
) -> (Option<u16>, Option<Seq<char>>, u32)
    decreases lines.len(),
{
    if lines.len() == 0 {
        (port, token, version)
    } else {
        let l = trim_seq(lines[0]);
        let k = first_index(l, '=');
        let rest = lines.drop_first();
        if l.len() == 0 || k < 0 {
            descriptor_fold(rest, port, token, version)
        } else {
            let key = trim_seq(l.subrange(0, k));
            let value = trim_seq(l.subrange(k + 1, l.len() as int));
            if key == "version"@ {
                let v = match parse_unsigned(value, 10, u32::MAX as int) {
                    Some(n) => n as u32,
                    None => 0u32,
                };
                descriptor_fold(rest, port, token, v)
            } else if key == "port"@ {
                let p = match parse_unsigned(value, 10, u16::MAX as int) {
                    Some(n) => Some(n as u16),
                    None => None,
                };
                descriptor_fold(rest, p, token, version)
            } else if key == "token"@ {
                descriptor_fold(rest, port, Some(value), version)
            } else {
                descriptor_fold(rest, port, token, version)
            }
        }
    }
}

/// What a descriptor file says: its port, token and version, when the
/// version is this protocol's and both port and a non-empty token are given
/// (later lines override earlier ones).
pub open spec fn descriptor_outcome(text: Seq<char>) -> Option<(u16, Seq<char>, u32)> {
    let (port, token, version) = descriptor_fold(split_char(text, '\n'), None, None, 0);
    if version != BRIDGE_PROTOCOL_VERSION {
        None
    } else {
        match (port, token) {
            (Some(p), Some(t)) => if t.len() == 0 {
                None
            } else {
                Some((p, t, version))
            },
            _ => None,
        }
    }
}

fn sub_chars(v: &Vec<char>, from: usize, to: usize) -> (r: Vec<char>)
    requires
        from <= to <= v@.len(),
    ensures
        r@ == v@.subrange(from as int, to as int),
{
    let mut out: Vec<char> = Vec::new();
    let mut i = from;
    while i < to
        invariant
            from <= i <= to <= v@.len(),
            out@ == v@.subrange(from as int, i as int),
        decreases to - i,
    {
        out.push(v[i]);
        i = i + 1;
        assert(out@ =~= v@.subrange(from as int, i as int));
    }
    out
}

/// Reads the port, token and version of a descriptor file.
pub fn parse_descriptor(text: &str) -> (r: Option<(u16, String, u32)>)
    ensures
        match r {
            Some((p, t, v)) => descriptor_outcome(text@) == Some((p, t@, v)),
            None => descriptor_outcome(text@) is None,
        },
{
    let cs = chars_of(text);
    let lines = split_chars(cs.as_slice(), '\n');
    let ghost all = pieces_view(lines@);
    let mut port: Option<u16> = None;
    let mut token: Option<Vec<char>> = None;
    let mut version: u32 = 0;
    assert(all.subrange(0, all.len() as int) =~= all);
    let mut i: usize = 0;
    while i < lines.len()
        invariant
            all == pieces_view(lines@),
            all == split_char(text@, '\n'),
            i <= lines@.len(),
            descriptor_fold(all, None, None, 0) == descriptor_fold(
                all.subrange(i as int, all.len() as int),
                port,
                match token {
                    Some(t) => Some(t@),
                    None => None,
                },
                version,
            ),
        decreases lines@.len() - i,
    {
        let ghost rest = all.subrange(i as int, all.len() as int);
        assert(rest.drop_first() =~= all.subrange(i + 1, all.len() as int));
        assert(rest[0] == lines@[i as int]@);
        let l = trim_chars(lines[i].as_slice());
        let mut k: usize = 0;
        while k < l.len() && l[k] != '='
            invariant
                k <= l@.len(),
                forall|j: int| 0 <= j < k ==> l@[j] != '=',
            decreases l@.len() - k,
        {
            k = k + 1;
        }
        proof {
            lemma_first_index(l@, '=', k as int);
        }
        if l.len() == 0 || k == l.len() {
            i = i + 1;
            continue;
        }
        let key_raw = sub_chars(&l, 0, k);
        let key = trim_chars(key_raw.as_slice());
        let value_raw = sub_chars(&l, k + 1, l.len());
        let value = trim_chars(value_raw.as_slice());
        if is_literal(key.as_slice(), "version") {
            version = match parse_unsigned_chars(value.as_slice(), 10, 0xFFFF_FFFF) {
                Some(n) => n as u32,
                None => 0,
            };
        } else if is_literal(key.as_slice(), "port") {
            port = match parse_unsigned_chars(value.as_slice(), 10, 0xFFFF) {
                Some(n) => Some(n as u16),
                None => None,
            };
        } else if is_literal(key.as_slice(), "token") {
            token = Some(value);
        }
        i = i + 1;
    }
    assert(all.subrange(all.len() as int, all.len() as int) =~= Seq::<Seq<char>>::empty());
    if version != BRIDGE_PROTOCOL_VERSION {
        return None;
    }
    let p = match port {
        Some(p) => p,
        None => return None,
    };
    let t = match token {
        Some(t) => t,
        None => return None,
    };
    if t.len() == 0 {
        return None;
    }
    Some((p, string_of(t.as_slice()), version))
}

/// The next state of the xorshift generator.
pub open spec fn xorshift(x: u64) -> u64 {
    let a = x ^ ((x << 13u64) as u64);
    let b = a ^ (a >> 7u64);
    b ^ ((b << 17u64) as u64)
}

/// The 8 lowercase hexadecimal digits of `v`.
pub open spec fn hex8(v: u64) -> Seq<char> {
    crate::rc003_helper::hex_fixed(v as nat, 8)
}

/// The bridge token of a seed: four xorshift steps, each giving 8
/// hexadecimal digits of its low 32 bits.
pub open spec fn token_of_seed(seed: u64) -> Seq<char> {
    let s0 = if seed == 0 {
        0x9E37_79B9_7F4A_7C15u64
    } else {
        seed
    };
    let s1 = xorshift(s0);
    let s2 = xorshift(s1);
    let s3 = xorshift(s2);
    let s4 = xorshift(s3);
    hex8(s1 & 0xFFFF_FFFF) + hex8(s2 & 0xFFFF_FFFF) + hex8(s3 & 0xFFFF_FFFF) + hex8(
        s4 & 0xFFFF_FFFF,
    )
}

fn xorshift_exec(x: u64) -> (r: u64)
    ensures
        r == xorshift(x),
{
    let a = x ^ (x << 13u64);
    let b = a ^ (a >> 7u64);
    b ^ (b << 17u64)
}

fn hex8_string(v: u64) -> (r: String)
    ensures
        r@ == crate::rc003_helper::hex_fixed(v as nat, 8),
{
    crate::rc003_helper::hex_fixed_string(v, 8)
}

/// A bridge token from a seed mixed of the time, the process id and an
/// address: it only prevents mix-ups, it is no secret.
pub fn token_from_seed(seed: u64) -> (r: String)
    ensures
        r@ == token_of_seed(seed),
{
    let mut state = if seed == 0 {
        0x9E37_79B9_7F4A_7C15u64
    } else {
        seed
    };
    let mut out = String::new();
    let ghost s0 = state;
    state = xorshift_exec(state);
    let a = hex8_string(state & 0xFFFF_FFFF);
    push_str(&mut out, a.as_str());
    state = xorshift_exec(state);
    let b = hex8_string(state & 0xFFFF_FFFF);
    push_str(&mut out, b.as_str());
    state = xorshift_exec(state);
    let c = hex8_string(state & 0xFFFF_FFFF);
    push_str(&mut out, c.as_str());
    state = xorshift_exec(state);
    let d = hex8_string(state & 0xFFFF_FFFF);
    push_str(&mut out, d.as_str());
    proof {
        assert(out@ =~= token_of_seed(seed));
    }
    out
}


/// Whether a usage may pass the bridge: back (0xF1), volume up (0x80) and
/// volume down (0x81) only, even if the token leaked.
pub open spec fn bridge_allows(u: u16) -> bool {
    u == 0x00F1 || u == 0x0080 || u == 0x0081
}

pub fn is_bridge_usage(u: u16) -> (r: bool)
    ensures
        r == bridge_allows(u),
{
    u == 0x00F1 || u == 0x0080 || u == 0x0081
}

/// Phase of the bridge.
#[derive(Debug, Clone, Copy, PartialEq, Eq, Structural)]
pub enum BridgePhase {
    Stopped,
    Listening,
    Connected,
    Failed,
}

impl Default for BridgePhase {
    fn default() -> (r: Self)
        ensures
            r == BridgePhase::Stopped,
    {
        BridgePhase::Stopped
    }
}

/// Diagnostics of the bridge.
#[derive(Debug, Clone)]
pub struct BridgeSnapshot {
    pub phase: BridgePhase,
    pub port: u16,
    pub helper_pid: u32,
    pub accepted_total: u64,
    pub denied_total: u64,
    pub replaced_total: u64,
    pub edges_applied: u64,
    pub usages_dropped: u64,
    pub malformed_total: u64,
    pub watchdog_release_total: u64,
    pub pressed_usages: Vec<u16>,
    pub last_rx_age_ms: Option<u64>,
}

/// The usages the bridge holds pressed, by usage: 0x80, 0x81, 0xF1.
#[derive(Debug, Clone, Copy, PartialEq, Eq, Structural)]
pub struct PressedUsages {
    pub volume_up: bool,
    pub volume_down: bool,
    pub back: bool,
}

/// The pressed usages a wanted set leaves, after the whitelist.
pub open spec fn pressed_of(wanted: Seq<u16>) -> PressedUsages {
    PressedUsages {
        volume_up: wanted.contains(0x0080u16),
        volume_down: wanted.contains(0x0081u16),
        back: wanted.contains(0x00F1u16),
    }
}

/// The edges from one pressed state to the next: releases, then presses,
/// each in usage order (0x80, 0x81, 0xF1).
pub open spec fn bridge_edges(b: PressedUsages, a: PressedUsages) -> Seq<ButtonEdge> {
    let r1 = if b.volume_up && !a.volume_up {
        seq![ButtonEdge { button: RemoteButton::VolumeUp, is_pressed: false }]
    } else {
        Seq::empty()
    };
    let r2 = if b.volume_down && !a.volume_down {
        seq![ButtonEdge { button: RemoteButton::VolumeDown, is_pressed: false }]
    } else {
        Seq::empty()
    };
    let r3 = if b.back && !a.back {
        seq![ButtonEdge { button: RemoteButton::Back, is_pressed: false }]
    } else {
        Seq::empty()
    };
    let p1 = if a.volume_up && !b.volume_up {
        seq![ButtonEdge { button: RemoteButton::VolumeUp, is_pressed: true }]
    } else {
        Seq::empty()
    };
    let p2 = if a.volume_down && !b.volume_down {
        seq![ButtonEdge { button: RemoteButton::VolumeDown, is_pressed: true }]
    } else {
        Seq::empty()
    };
    let p3 = if a.back && !b.back {
        seq![ButtonEdge { button: RemoteButton::Back, is_pressed: true }]
    } else {
        Seq::empty()
    };
    r1 + r2 + r3 + p1 + p2 + p3
}

/// The number of entries the whitelist refuses.
pub open spec fn refused_count(wanted: Seq<u16>) -> nat
    decreases wanted.len(),
{
    if wanted.len() == 0 {
        0
    } else {
        refused_count(wanted.drop_last()) + if bridge_allows(wanted.last()) {
            0nat
        } else {
            1nat
        }
    }
}

/// `a + n`, or the largest `u64`.
pub open spec fn add_sat(a: u64, n: nat) -> u64 {
    if a + n > u64::MAX {
        u64::MAX
    } else {
        (a + n) as u64
    }
}

/// The bridge's shared state: phase, the helper, counters, the pressed
/// usages and when the helper last sent a line.
#[derive(Debug)]
pub struct BridgeState {
    pub phase: BridgePhase,
    pub helper_pid: u32,
    pub accepted_total: u64,
    pub denied_total: u64,
    pub replaced_total: u64,
    pub edges_applied: u64,
    pub usages_dropped: u64,
    pub malformed_total: u64,
    pub watchdog_release_total: u64,
    pub pressed: PressedUsages,
    pub last_rx: Option<u64>,
}

fn push_if(v: &mut Vec<ButtonEdge>, cond: bool, button: RemoteButton, is_pressed: bool)
    ensures
        final(v)@ == old(v)@ + if cond {
            seq![ButtonEdge { button, is_pressed }]
        } else {
            Seq::empty()
        },
{
    if cond {
        v.push(ButtonEdge { button, is_pressed });
    }
    assert(final(v)@ =~= old(v)@ + if cond {
        seq![ButtonEdge { button, is_pressed }]
    } else {
        Seq::<ButtonEdge>::empty()
    });
}

impl BridgeState {
    pub fn new() -> (r: Self)
        ensures
            r.phase == BridgePhase::Stopped && r.helper_pid == 0,
            r.accepted_total == 0 && r.denied_total == 0 && r.replaced_total == 0,
            r.edges_applied == 0 && r.usages_dropped == 0 && r.malformed_total == 0,
            r.watchdog_release_total == 0,
            r.pressed == (PressedUsages { volume_up: false, volume_down: false, back: false }),
            r.last_rx is None,
    {
        BridgeState {
            phase: BridgePhase::Stopped,
            helper_pid: 0,
            accepted_total: 0,
            denied_total: 0,
            replaced_total: 0,
            edges_applied: 0,
            usages_dropped: 0,
            malformed_total: 0,
            watchdog_release_total: 0,
            pressed: PressedUsages { volume_up: false, volume_down: false, back: false },
            last_rx: None,
        }
    }

    /// Applies one absolute state: the whitelisted usages become the pressed
    /// set (the others are counted as dropped) and the change comes out as
    /// edges; the caller delivers them.
    pub fn apply_usages(&mut self, wanted: &[u16]) -> (r: Vec<ButtonEdge>)
        requires
            crate::rc003_bridge::distinct(wanted@),
        ensures
            final(self).pressed == pressed_of(wanted@),
            r@ == bridge_edges(old(self).pressed, pressed_of(wanted@)),
            final(self).usages_dropped == add_sat(old(self).usages_dropped, refused_count(wanted@)),
            final(self).phase == old(self).phase,
            final(self).helper_pid == old(self).helper_pid,
            final(self).accepted_total == old(self).accepted_total,
            final(self).denied_total == old(self).denied_total,
            final(self).replaced_total == old(self).replaced_total,
            final(self).edges_applied == old(self).edges_applied,
            final(self).malformed_total == old(self).malformed_total,
            final(self).watchdog_release_total == old(self).watchdog_release_total,
            final(self).last_rx == old(self).last_rx,
    {
        let before = self.pressed;
        let mut after = PressedUsages { volume_up: false, volume_down: false, back: false };
        let mut dropped = self.usages_dropped;
        let mut i: usize = 0;
        while i < wanted.len()
            invariant
                i <= wanted@.len(),
                after == pressed_of(wanted@.subrange(0, i as int)),
                dropped == add_sat(old(self).usages_dropped, refused_count(wanted@.subrange(0, i as int))),
            decreases wanted@.len() - i,
        {
            let u = wanted[i];
            let ghost pre = wanted@.subrange(0, i as int);
            let ghost next = wanted@.subrange(0, i + 1);
            assert(next =~= pre.push(u));
            assert(next.drop_last() =~= pre);
            if u == 0x0080 {
                after.volume_up = true;
            } else if u == 0x0081 {
                after.volume_down = true;
            } else if u == 0x00F1 {
                after.back = true;
            } else {
                dropped = dropped.saturating_add(1);
            }
            proof {
                assert(next.contains(u)) by {
                    assert(next[i as int] == u);
                }
                assert forall|x: u16| next.contains(x) <==> (pre.contains(x) || x == u) by {
                    if next.contains(x) && x != u {
                        let k = choose|k: int| 0 <= k < next.len() && next[k] == x;
                        assert(pre[k] == x);
                    }
                    if pre.contains(x) {
                        let k = choose|k: int| 0 <= k < pre.len() && pre[k] == x;
                        assert(next[k] == x);
                    }
                }
            }
            i = i + 1;
        }
        assert(wanted@.subrange(0, wanted@.len() as int) =~= wanted@);
        self.pressed = after;
        self.usages_dropped = dropped;
        let mut edges: Vec<ButtonEdge> = Vec::new();
        push_if(&mut edges, before.volume_up && !after.volume_up, RemoteButton::VolumeUp, false);
        push_if(&mut edges, before.volume_down && !after.volume_down, RemoteButton::VolumeDown, false);
        push_if(&mut edges, before.back && !after.back, RemoteButton::Back, false);
        push_if(&mut edges, after.volume_up && !before.volume_up, RemoteButton::VolumeUp, true);
        push_if(&mut edges, after.volume_down && !before.volume_down, RemoteButton::VolumeDown, true);
        push_if(&mut edges, after.back && !before.back, RemoteButton::Back, true);
        assert(edges@ =~= bridge_edges(before, after));
        edges
    }

    /// The pressed usages in increasing order.
    pub fn pressed_usages(&self) -> (r: Vec<u16>)
        ensures
            r@ == (if self.pressed.volume_up {
                seq![0x0080u16]
            } else {
                Seq::empty()
            }) + (if self.pressed.volume_down {
                seq![0x0081u16]
            } else {
                Seq::empty()
            }) + (if self.pressed.back {
                seq![0x00F1u16]
            } else {
                Seq::empty()
            }),
    {
        let mut v: Vec<u16> = Vec::new();
        if self.pressed.volume_up {
            v.push(0x0080);
        }
        if self.pressed.volume_down {
            v.push(0x0081);
        }
        if self.pressed.back {
            v.push(0x00F1);
        }
        assert(v@ =~= (if self.pressed.volume_up {
            seq![0x0080u16]
        } else {
            Seq::<u16>::empty()
        }) + (if self.pressed.volume_down {
            seq![0x0081u16]
        } else {
            Seq::<u16>::empty()
        }) + (if self.pressed.back {
            seq![0x00F1u16]
        } else {
            Seq::<u16>::empty()
        }));
        v
    }

    /// The diagnostics at `now`, for the listening `port`.
    pub fn snapshot(&self, port: u16, now: u64) -> (r: BridgeSnapshot)
        ensures
            r.phase == self.phase && r.port == port && r.helper_pid == self.helper_pid,
            r.accepted_total == self.accepted_total && r.denied_total == self.denied_total,
            r.replaced_total == self.replaced_total && r.edges_applied == self.edges_applied,
            r.usages_dropped == self.usages_dropped && r.malformed_total == self.malformed_total,
            r.watchdog_release_total == self.watchdog_release_total,
            r.pressed_usages@.len() <= 3,
            r.last_rx_age_ms == match self.last_rx {
                Some(t) => Some(if now >= t {
                    (now - t) as u64
                } else {
                    0u64
                }),
                None => None,
            },
    {
        BridgeSnapshot {
            phase: self.phase,
            port,
            helper_pid: self.helper_pid,
            accepted_total: self.accepted_total,
            denied_total: self.denied_total,
            replaced_total: self.replaced_total,
            edges_applied: self.edges_applied,
            usages_dropped: self.usages_dropped,
            malformed_total: self.malformed_total,
            watchdog_release_total: self.watchdog_release_total,
            pressed_usages: self.pressed_usages(),
            last_rx_age_ms: match self.last_rx {
                Some(t) => Some(
                    if now >= t {
                        now - t
                    } else {
                        0
                    },
                ),
                None => None,
            },
        }
    }

    /// A new helper connection was accepted; `replaced` says whether it
    /// displaced a previous one.
    pub fn on_accept(&mut self, replaced: bool)
        ensures
            final(self).accepted_total == add_sat(old(self).accepted_total, 1),
            replaced ==> final(self).replaced_total == add_sat(old(self).replaced_total, 1)
                && final(self).phase == BridgePhase::Listening && final(self).helper_pid == 0,
            !replaced ==> final(self).replaced_total == old(self).replaced_total
                && final(self).phase == old(self).phase && final(self).helper_pid
                == old(self).helper_pid,
            final(self).pressed == old(self).pressed,
    {
        self.accepted_total = self.accepted_total.saturating_add(1);
        if replaced {
            self.replaced_total = self.replaced_total.saturating_add(1);
            self.phase = BridgePhase::Listening;
            self.helper_pid = 0;
        }
    }

    /// `n` edges of the current connection reached the mapping engine.
    pub fn note_delivered(&mut self, n: u64)
        ensures
            final(self).edges_applied == add_sat(old(self).edges_applied, n as nat),
            final(self).pressed == old(self).pressed,
            final(self).phase == old(self).phase,
    {
        self.edges_applied = self.edges_applied.saturating_add(n);
    }
}

/// A sequence without repeats (a set of usages).
pub open spec fn distinct(s: Seq<u16>) -> bool {
    forall|i: int, j: int| 0 <= i < j < s.len() ==> s[i] != s[j]
}

/// Reporting the same absolute state twice produces no edge the second time,
/// and releasing everything releases exactly the pressed keys.
pub proof fn law_absolute_state_is_idempotent(before: PressedUsages, wanted: Seq<u16>)
    ensures
        bridge_edges(pressed_of(wanted), pressed_of(wanted)) == Seq::<ButtonEdge>::empty(),
        bridge_edges(before, pressed_of(Seq::empty())).len() == (if before.volume_up {
            1int
        } else {
            0
        }) + (if before.volume_down {
            1int
        } else {
            0
        }) + (if before.back {
            1int
        } else {
            0
        }),
{
    assert(bridge_edges(pressed_of(wanted), pressed_of(wanted)) =~= Seq::<ButtonEdge>::empty());
    assert(!Seq::<u16>::empty().contains(0x0080u16));
    assert(!Seq::<u16>::empty().contains(0x0081u16));
    assert(!Seq::<u16>::empty().contains(0x00F1u16));
}


/// Whether the usage `u` changed from the wanted set `before` to `after`.
pub open spec fn usage_changed(before: Seq<u16>, after: Seq<u16>, u: u16) -> bool {
    bridge_allows(u) && before.contains(u) != after.contains(u)
}

/// The place of a bridge edge in the order releases-then-presses, each in
/// usage order.
spec fn edge_rank(e: ButtonEdge) -> int {
    (if e.is_pressed {
        3int
    } else {
        0int
    }) + match e.button {
        RemoteButton::VolumeUp => 0int,
        RemoteButton::VolumeDown => 1int,
        _ => 2int,
    }
}

/// The edge `e` is one that the change from `b` to `a` calls for.
spec fn edge_called_for(b: PressedUsages, a: PressedUsages, e: ButtonEdge) -> bool {
    ||| e == ButtonEdge { button: RemoteButton::VolumeUp, is_pressed: false } && b.volume_up
        && !a.volume_up
    ||| e == ButtonEdge { button: RemoteButton::VolumeDown, is_pressed: false } && b.volume_down
        && !a.volume_down
    ||| e == ButtonEdge { button: RemoteButton::Back, is_pressed: false } && b.back && !a.back
    ||| e == ButtonEdge { button: RemoteButton::VolumeUp, is_pressed: true } && a.volume_up
        && !b.volume_up
    ||| e == ButtonEdge { button: RemoteButton::VolumeDown, is_pressed: true } && a.volume_down
        && !b.volume_down
    ||| e == ButtonEdge { button: RemoteButton::Back, is_pressed: true } && a.back && !b.back
}

spec fn ranked(s: Seq<ButtonEdge>) -> bool {
    forall|i: int, j: int| 0 <= i < j < s.len() ==> edge_rank(#[trigger] s[i]) < edge_rank(#[trigger] s[j])
}

proof fn lemma_append_piece(
    b: PressedUsages,
    a: PressedUsages,
    s: Seq<ButtonEdge>,
    piece: Seq<ButtonEdge>,
    rank: int,
)
    requires
        ranked(s),
        forall|k: int| 0 <= k < s.len() ==> edge_rank(#[trigger] s[k]) < rank,
        forall|k: int| 0 <= k < s.len() ==> edge_called_for(b, a, #[trigger] s[k]),
        piece.len() <= 1,
        piece.len() == 1 ==> edge_rank(piece[0]) == rank && edge_called_for(b, a, piece[0]),
    ensures
        ranked(s + piece),
        forall|k: int| 0 <= k < (s + piece).len() ==> edge_rank(#[trigger] (s + piece)[k]) <= rank,
        forall|k: int| 0 <= k < (s + piece).len() ==> edge_called_for(b, a, #[trigger] (s + piece)[k]),
{
    let t = s + piece;
    assert forall|i: int, j: int| 0 <= i < j < t.len() implies edge_rank(#[trigger] t[i]) < edge_rank(
        #[trigger] t[j],
    ) by {
        assert(t[i] == s[i]);
        if j < s.len() {
            assert(t[j] == s[j]);
        }
    }
    assert forall|k: int| 0 <= k < t.len() implies edge_called_for(b, a, #[trigger] t[k]) by {
        if k < s.len() {
            assert(t[k] == s[k]);
        }
    }
}

proof fn lemma_bridge_edges_shape(b: PressedUsages, a: PressedUsages)
    ensures
        ranked(bridge_edges(b, a)),
        forall|k: int|
            0 <= k < bridge_edges(b, a).len() ==> edge_called_for(b, a, #[trigger] bridge_edges(b, a)[k]),
{
    let r1 = if b.volume_up && !a.volume_up {
        seq![ButtonEdge { button: RemoteButton::VolumeUp, is_pressed: false }]
    } else {
        Seq::empty()
    };
    let r2 = if b.volume_down && !a.volume_down {
        seq![ButtonEdge { button: RemoteButton::VolumeDown, is_pressed: false }]
    } else {
        Seq::empty()
    };
    let r3 = if b.back && !a.back {
        seq![ButtonEdge { button: RemoteButton::Back, is_pressed: false }]
    } else {
        Seq::empty()
    };
    let p1 = if a.volume_up && !b.volume_up {
        seq![ButtonEdge { button: RemoteButton::VolumeUp, is_pressed: true }]
    } else {
        Seq::empty()
    };
    let p2 = if a.volume_down && !b.volume_down {
        seq![ButtonEdge { button: RemoteButton::VolumeDown, is_pressed: true }]
    } else {
        Seq::empty()
    };
    let p3 = if a.back && !b.back {
        seq![ButtonEdge { button: RemoteButton::Back, is_pressed: true }]
    } else {
        Seq::empty()
    };
    let e0 = Seq::<ButtonEdge>::empty();
    lemma_append_piece(b, a, e0, r1, 0);
    assert(e0 + r1 == r1);
    lemma_append_piece(b, a, r1, r2, 1);
    lemma_append_piece(b, a, r1 + r2, r3, 2);
    lemma_append_piece(b, a, r1 + r2 + r3, p1, 3);
    lemma_append_piece(b, a, r1 + r2 + r3 + p1, p2, 4);
    lemma_append_piece(b, a, r1 + r2 + r3 + p1 + p2, p3, 5);
    assert(bridge_edges(b, a) == r1 + r2 + r3 + p1 + p2 + p3);
}

proof fn lemma_called_for_present(b: PressedUsages, a: PressedUsages, e: ButtonEdge)
    requires
        edge_called_for(b, a, e),
    ensures
        bridge_edges(b, a).contains(e),
{
    let r1 = if b.volume_up && !a.volume_up {
        seq![ButtonEdge { button: RemoteButton::VolumeUp, is_pressed: false }]
    } else {
        Seq::empty()
    };
    let r2 = if b.volume_down && !a.volume_down {
        seq![ButtonEdge { button: RemoteButton::VolumeDown, is_pressed: false }]
    } else {
        Seq::empty()
    };
    let r3 = if b.back && !a.back {
        seq![ButtonEdge { button: RemoteButton::Back, is_pressed: false }]
    } else {
        Seq::empty()
    };
    let p1 = if a.volume_up && !b.volume_up {
        seq![ButtonEdge { button: RemoteButton::VolumeUp, is_pressed: true }]
    } else {
        Seq::empty()
    };
    let p2 = if a.volume_down && !b.volume_down {
        seq![ButtonEdge { button: RemoteButton::VolumeDown, is_pressed: true }]
    } else {
        Seq::empty()
    };
    let p3 = if a.back && !b.back {
        seq![ButtonEdge { button: RemoteButton::Back, is_pressed: true }]
    } else {
        Seq::empty()
    };
    let s1 = r1 + r2;
    let s2 = s1 + r3;
    let s3 = s2 + p1;
    let s4 = s3 + p2;
    let s5 = s4 + p3;
    assert(bridge_edges(b, a) == s5);
    let k: int = if e == (ButtonEdge { button: RemoteButton::VolumeUp, is_pressed: false }) {
        0
    } else if e == (ButtonEdge { button: RemoteButton::VolumeDown, is_pressed: false }) {
        r1.len() as int
    } else if e == (ButtonEdge { button: RemoteButton::Back, is_pressed: false }) {
        s1.len() as int
    } else if e == (ButtonEdge { button: RemoteButton::VolumeUp, is_pressed: true }) {
        s2.len() as int
    } else if e == (ButtonEdge { button: RemoteButton::VolumeDown, is_pressed: true }) {
        s3.len() as int
    } else {
        s4.len() as int
    };
    assert(s5[k] == e);
}

/// The edges between two wanted usage sets follow the remote's usage
/// table: every edge is the edge of a whitelisted usage that changed, for
/// the button that usage decodes to (a press when it is wanted now, a
/// release when it was wanted before), every such change has its edge, all
/// releases come before all presses, and no edge repeats.
pub proof fn law_bridge_edges_follow_the_usage_table(before: Seq<u16>, after: Seq<u16>)
    ensures
        ({
            let edges = bridge_edges(pressed_of(before), pressed_of(after));
            &&& forall|k: int, u: u16|
                #![trigger edges[k], usage_button(u)]
                0 <= k < edges.len() && bridge_allows(u) && usage_button(u) == Some(
                    edges[k].button,
                ) ==> usage_changed(before, after, u) && edges[k].is_pressed == after.contains(u)
            &&& forall|k: int|
                0 <= k < edges.len() ==> (usage_button(0x0080) == Some(#[trigger] edges[k].button)
                    || usage_button(0x0081) == Some(edges[k].button) || usage_button(0x00F1)
                    == Some(edges[k].button))
            &&& forall|u: u16|
                #[trigger] usage_changed(before, after, u) ==> edges.contains(
                    ButtonEdge { button: usage_button(u)->Some_0, is_pressed: after.contains(u) },
                )
            &&& forall|i: int, j: int|
                0 <= i < j < edges.len() ==> (edges[i].is_pressed ==> edges[j].is_pressed)
                    && edges[i] != edges[j]
        }),
{
    let b = pressed_of(before);
    let a = pressed_of(after);
    let edges = bridge_edges(b, a);
    lemma_bridge_edges_shape(b, a);
    assert forall|u: u16| #[trigger] usage_changed(before, after, u) implies edges.contains(
        ButtonEdge { button: usage_button(u)->Some_0, is_pressed: after.contains(u) },
    ) by {
        lemma_called_for_present(
            b,
            a,
            ButtonEdge { button: usage_button(u)->Some_0, is_pressed: after.contains(u) },
        );
    }
    assert forall|i: int, j: int| 0 <= i < j < edges.len() implies (edges[i].is_pressed
        ==> edges[j].is_pressed) && edges[i] != edges[j] by {
        assert(edge_rank(edges[i]) < edge_rank(edges[j]));
    }
}

/// What one line of a helper connection leads to.
#[derive(Debug, Clone, PartialEq, Eq)]
pub enum LineAction {
    /// Nothing to do.
    Continue,
    /// Write this reply line.
    Reply(String),
    /// Write this reply line, then close the connection for this reason.
    ReplyAndClose(String, &'static str),
    /// Deliver these edges to the mapping engine, in order.
    Deliver(Vec<ButtonEdge>),
    /// Close the connection for this reason.
    Close(&'static str),
}

/// What handling one received line does: the connection before and after,
/// the bridge state before and after, and the action returned.
pub open spec fn line_handled(
    before: BridgeConnection,
    after: BridgeConnection,
    state_before: BridgeState,
    state_after: BridgeState,
    line: Seq<char>,
    now: u64,
    token: Seq<char>,
    r: LineAction,
) -> bool {
    &&& (bridge_outcome(line) is Err ==> r == LineAction::Continue && state_after.malformed_total
        == add_sat(state_before.malformed_total, 1) && after.authenticated == before.authenticated
        && state_after.pressed == state_before.pressed)
    &&& (bridge_outcome(line) == Ok::<Option<LineView>, Seq<char>>(None) ==> r
                == LineAction::Continue && state_after.pressed == state_before.pressed)
    &&& (bridge_outcome(line) matches Ok(Some(msg)) ==> {
                &&& after.last_rx == now
                &&& !before.authenticated ==> match msg {
                    LineView::Hello(version, got, pid) => {
                        let accepted = version == BRIDGE_PROTOCOL_VERSION && token == got
                            && token.len() > 0;
                        &&& accepted ==> after.authenticated && state_after.phase
                            == BridgePhase::Connected && state_after.helper_pid == pid
                            && (r matches LineAction::Reply(t) && t@ == "OK 1"@)
                        &&& !accepted ==> !after.authenticated && after.deny_count
                            == (if before.deny_count == u32::MAX {
                            u32::MAX
                        } else {
                            (before.deny_count + 1) as u32
                        }) && state_after.denied_total == add_sat(
                            state_before.denied_total,
                            1,
                        ) && (if after.deny_count >= MAX_DENY {
                            r matches LineAction::ReplyAndClose(t, reason) && reason@
                                == "deny_limit"@ && t@ == deny_text(version)
                        } else {
                            r matches LineAction::Reply(t) && t@ == deny_text(version)
                        })
                    },
                    _ => r matches LineAction::Close(reason) && reason@ == "hello_required"@,
                }
                &&& before.authenticated ==> after.authenticated && match msg {
                    LineView::Edges(usages) => state_after.pressed == pressed_of(usages) && (
                    r matches LineAction::Deliver(edges) && edges@ == bridge_edges(
                        state_before.pressed,
                        pressed_of(usages),
                    )),
                    LineView::Bye(_) => r matches LineAction::Close(reason) && reason@
                        == "helper_bye"@,
                    _ => r == LineAction::Continue && state_after.pressed == state_before.pressed,
                }
            })
    &&& (before.deny_count < MAX_DENY ==> after.deny_count <= MAX_DENY)
}

/// The decisions of one helper connection.
#[derive(Debug)]
pub struct BridgeConnection {
    pub authenticated: bool,
    pub deny_count: u32,
    pub started: u64,
    pub last_rx: u64,
}

impl BridgeConnection {
    /// A connection accepted at `now`.
    pub fn new(now: u64) -> (r: Self)
        ensures
            !r.authenticated && r.deny_count == 0 && r.started == now && r.last_rx == now,
    {
        BridgeConnection { authenticated: false, deny_count: 0, started: now, last_rx: now }
    }

    /// Handles one line received at `now`, with the expected `token`.
    /// A line that does not parse is counted and ignored; before
    /// authentication only `HELLO` is accepted (a wrong version or token is
    /// denied, and the third denial closes the connection); afterwards edge
    /// lines are applied, pings are ignored and `BYE` closes.
    pub fn on_line(&mut self, state: &mut BridgeState, line: &str, now: u64, token: &str) -> (r:
        LineAction)
        ensures
            line_handled(*old(self), *final(self), *old(state), *final(state), line@, now, token@, r),
    {
        let parsed = match parse_bridge_line(line) {
            Ok(parsed) => parsed,
            Err(_) => {
                state.malformed_total = state.malformed_total.saturating_add(1);
                return LineAction::Continue;
            },
        };
        let message = match parsed {
            None => return LineAction::Continue,
            Some(message) => message,
        };
        self.last_rx = now;
        if !self.authenticated {
            match message {
                BridgeLine::Hello { version, token: got, helper_pid } => {
                    let version_ok = version == BRIDGE_PROTOCOL_VERSION;
                    if !version_ok || !token_matches(token, got.as_str()) {
                        if self.deny_count < u32::MAX {
                            self.deny_count = self.deny_count + 1;
                        }
                        state.denied_total = state.denied_total.saturating_add(1);
                        let reply = if version_ok {
                            String::from_str("DENY token_mismatch")
                        } else {
                            String::from_str("DENY version_mismatch")
                        };
                        if self.deny_count >= MAX_DENY {
                            return LineAction::ReplyAndClose(reply, "deny_limit");
                        }
                        return LineAction::Reply(reply);
                    }
                    self.authenticated = true;
                    state.phase = BridgePhase::Connected;
                    state.helper_pid = helper_pid;
                    LineAction::Reply(String::from_str("OK 1"))
                },
                _ => LineAction::Close("hello_required"),
            }
        } else {
            match message {
                BridgeLine::Edges { usages } => {
                    proof {
                        lemma_parsed_usages_distinct(line@);
                    }
                    let edges = state.apply_usages(usages.as_slice());
                    LineAction::Deliver(edges)
                },
                BridgeLine::Ping => LineAction::Continue,
                BridgeLine::Bye { .. } => LineAction::Close("helper_bye"),
                BridgeLine::Hello { .. } => LineAction::Continue,
            }
        }
    }

    /// Handles one received line given as its bytes (without the newline):
    /// the bytes are decoded as UTF-8 with invalid sequences replaced, then
    /// handled as `on_line` handles text.
    pub fn on_line_bytes(
        &mut self,
        state: &mut BridgeState,
        bytes: &[u8],
        now: u64,
        token: &str,
    ) -> (r: LineAction)
        ensures
            line_handled(
                *old(self),
                *final(self),
                *old(state),
                *final(state),
                utf8_lossy_text(bytes@),
                now,
                token@,
                r,
            ),
    {
        let raw = decode_lossy(bytes);
        self.on_line(state, raw.as_str(), now, token)
    }

    /// Why the connection must close at `now` with `pending` unterminated
    /// bytes, if it must: a line too long, no `HELLO` in time, or silence.
    pub fn check_limits(&self, pending: usize, now: u64) -> (r: Option<&'static str>)
        ensures
            pending > MAX_LINE_BYTES ==> (r matches Some(t) && t@ == "line_too_long"@),
            pending <= MAX_LINE_BYTES && !self.authenticated && now > self.started
                + HELLO_TIMEOUT_MS ==> (r matches Some(t) && t@ == "hello_timeout"@),
            pending <= MAX_LINE_BYTES && self.authenticated && now > self.last_rx
                + SILENCE_TIMEOUT_MS ==> (r matches Some(t) && t@ == "silence_timeout"@),
            pending <= MAX_LINE_BYTES && !(!self.authenticated && now > self.started
                + HELLO_TIMEOUT_MS) && !(self.authenticated && now > self.last_rx
                + SILENCE_TIMEOUT_MS) ==> r is None,
    {
        if pending > MAX_LINE_BYTES {
            return Some("line_too_long");
        }
        if !self.authenticated && now > self.started && now - self.started > HELLO_TIMEOUT_MS {
            return Some("hello_timeout");
        }
        if self.authenticated && now > self.last_rx && now - self.last_rx > SILENCE_TIMEOUT_MS {
            return Some("silence_timeout");
        }
        None
    }
}

/// The denial line for a refused `HELLO` of `version`.
pub open spec fn deny_text(version: u32) -> Seq<char> {
    if version == BRIDGE_PROTOCOL_VERSION {
        "DENY token_mismatch"@
    } else {
        "DENY version_mismatch"@
    }
}

proof fn lemma_usages_fold_distinct(raws: Seq<Seq<char>>, acc: Seq<u16>)
    requires
        distinct(acc),
    ensures
        usages_fold(raws, acc) matches Ok(u) ==> distinct(u),
    decreases raws.len(),
{
    if raws.len() > 0 {
        let tok = strip_hex_prefix(trim_seq(raws[0]));
        if tok.len() == 0 {
            lemma_usages_fold_distinct(raws.drop_first(), acc);
        } else {
            match parse_unsigned(tok, 16, 0xFFFF) {
                None => {},
                Some(u) => {
                    let x = u as u16;
                    let next = if acc.contains(x) {
                        acc
                    } else {
                        acc.push(x)
                    };
                    assert(distinct(next)) by {
                        if !acc.contains(x) {
                            assert forall|i: int, j: int| 0 <= i < j < next.len() implies next[i]
                                != next[j] by {
                                if j == acc.len() {
                                    assert(acc[i] == next[i]);
                                }
                            }
                        }
                    }
                    lemma_usages_fold_distinct(raws.drop_first(), next);
                },
            }
        }
    }
}

/// The usages of a parsed edge line name no usage twice.
pub proof fn lemma_parsed_usages_distinct(line: Seq<char>)
    ensures
        bridge_outcome(line) matches Ok(Some(LineView::Edges(u))) ==> distinct(u),
{
    let l = trim_seq(line);
    if l.len() > 0 {
        let p = split_char(l, ' ');
        if p.len() >= 3 && p[2] != "-"@ {
            lemma_usages_fold_distinct(split_char(p[2], ','), Seq::empty());
        }
    }
}

/// When a connection ends for `reason`: unless another connection took it
/// over, every pressed key is released (the edges come out), an end other
/// than the helper's own `BYE` counts as a watchdog release, and the bridge
/// listens again.
pub fn close_connection(state: &mut BridgeState, reason: &str) -> (r: Vec<ButtonEdge>)
    ensures
        reason@ == "replaced"@ ==> r@.len() == 0 && final(state).pressed == old(state).pressed
            && final(state).phase == old(state).phase && final(state).watchdog_release_total
            == old(state).watchdog_release_total,
        reason@ != "replaced"@ ==> {
            &&& r@ == bridge_edges(
                old(state).pressed,
                PressedUsages { volume_up: false, volume_down: false, back: false },
            )
            &&& final(state).pressed == (PressedUsages {
                volume_up: false,
                volume_down: false,
                back: false,
            })
            &&& final(state).watchdog_release_total == (if reason@ == "helper_bye"@ {
                old(state).watchdog_release_total
            } else {
                add_sat(old(state).watchdog_release_total, 1)
            })
            &&& final(state).last_rx is None
            &&& final(state).helper_pid == 0
            &&& final(state).phase == (if old(state).phase == BridgePhase::Connected {
                BridgePhase::Listening
            } else {
                old(state).phase
            })
        },
{
    if is_literal_str(reason, "replaced") {
        return Vec::new();
    }
    let empty: Vec<u16> = Vec::new();
    proof {
        assert(!empty@.contains(0x0080u16));
        assert(!empty@.contains(0x0081u16));
        assert(!empty@.contains(0x00F1u16));
    }
    let released = state.apply_usages(empty.as_slice());
    if !is_literal_str(reason, "helper_bye") {
        state.watchdog_release_total = state.watchdog_release_total.saturating_add(1);
    }
    state.last_rx = None;
    if state.phase == BridgePhase::Connected {
        state.phase = BridgePhase::Listening;
    }
    state.helper_pid = 0;
    released
}

fn is_literal_str(s: &str, lit: &str) -> (r: bool)
    ensures
        r == (s@ == lit@),
{
    let a = chars_of(s);
    is_literal(a.as_slice(), lit)
}


/// The descriptor file the bridge writes for the helper: protocol version,
/// port, token and the writer's process id, one `key=value` per line.
pub open spec fn descriptor_text(port: u16, token: Seq<char>, pid: u32) -> Seq<char> {
    ("version="@ + decimal_seq(BRIDGE_PROTOCOL_VERSION as nat)) + seq!['\n'] + (("port="@
        + decimal_seq(port as nat)) + seq!['\n'] + (("token="@ + token) + seq!['\n'] + (("pid="@
        + decimal_seq(pid as nat)) + seq!['\n'] + Seq::<char>::empty())))
}

/// The text of the descriptor file for `port`, `token` and the writer `pid`.
pub fn bridge_file_body(port: u16, token: &str, pid: u32) -> (r: String)
    ensures
        r@ == descriptor_text(port, token@, pid),
{
    let mut s = String::from_str("version=");
    let v = crate::text::decimal_string(BRIDGE_PROTOCOL_VERSION as u64);
    push_str(&mut s, v.as_str());
    push_str(&mut s, "\nport=");
    let p = crate::text::decimal_string(port as u64);
    push_str(&mut s, p.as_str());
    push_str(&mut s, "\ntoken=");
    push_str(&mut s, token);
    push_str(&mut s, "\npid=");
    let d = crate::text::decimal_string(pid as u64);
    push_str(&mut s, d.as_str());
    push_str(&mut s, "\n");
    proof {
        reveal_strlit("version=");
        reveal_strlit("\nport=");
        reveal_strlit("\ntoken=");
        reveal_strlit("\npid=");
        reveal_strlit("\n");
        reveal_strlit("port=");
        reveal_strlit("token=");
        reveal_strlit("pid=");
        assert(s@ =~= descriptor_text(port, token@, pid));
    }
    s
}

proof fn lemma_split_without_separator(s: Seq<char>, c: char)
    requires
        forall|i: int| 0 <= i < s.len() ==> s[i] != c,
    ensures
        split_char(s, c) == seq![s],
    decreases s.len(),
{
    if s.len() > 0 {
        let t = s.drop_last();
        assert forall|i: int| 0 <= i < t.len() implies t[i] != c by {
            assert(t[i] == s[i]);
        }
        lemma_split_without_separator(t, c);
        assert(s.last() == s[s.len() - 1]);
        assert(t.push(s.last()) =~= s);
        let init = split_char(t, c);
        assert(init.len() == 1 && init.last() == t);
        assert(split_char(s, c) == init.update(init.len() - 1, init.last().push(s.last())));
        assert(init.update(0, s) =~= seq![s]);
    } else {
        assert(s =~= Seq::<char>::empty());
    }
}

proof fn lemma_split_concat(a: Seq<char>, b: Seq<char>, c: char)
    ensures
        split_char(a + seq![c] + b, c) == split_char(a, c) + split_char(b, c),
    decreases b.len(),
{
    lemma_split_nonempty(a, c);
    lemma_split_nonempty(b, c);
    if b.len() == 0 {
        assert((a + seq![c] + b).drop_last() =~= a);
        assert(split_char(a + seq![c] + b, c) =~= split_char(a, c) + split_char(b, c));
    } else {
        let b0 = b.drop_last();
        lemma_split_concat(a, b0, c);
        lemma_split_nonempty(b0, c);
        assert((a + seq![c] + b).drop_last() =~= a + seq![c] + b0);
        assert((a + seq![c] + b).last() == b.last());
        let left = split_char(a, c);
        let init = split_char(a + seq![c] + b0, c);
        assert(init == left + split_char(b0, c));
        if b.last() == c {
            assert(split_char(a + seq![c] + b, c) =~= left + split_char(b, c));
        } else {
            let rb = split_char(b0, c);
            assert(init.last() == rb.last());
            assert(init.update(init.len() - 1, init.last().push(b.last())) =~= left + rb.update(
                rb.len() - 1,
                rb.last().push(b.last()),
            ));
        }
    }
}

proof fn lemma_trim_identity(s: Seq<char>)
    requires
        s.len() > 0,
        !is_space(s[0]),
        !is_space(s.last()),
    ensures
        trim_seq(s) == s,
{
    assert(trim_start_index(s) == 0);
    assert(trim_end_index(s) == s.len());
    assert(s.subrange(0, s.len() as int) =~= s);
}

/// One `key=value` line: trimming it changes nothing, its first `=` ends
/// the key, and key and value read back trimmed as themselves.
proof fn lemma_entry_line(key: Seq<char>, value: Seq<char>)
    requires
        key.len() > 0,
        value.len() > 0,
        forall|i: int| 0 <= i < key.len() ==> !is_space(#[trigger] key[i]) && key[i] != '=',
        !is_space(value[0]),
        !is_space(value.last()),
    ensures
        ({
            let l = key + seq!['='] + value;
            &&& trim_seq(l) == l
            &&& first_index(l, '=') == key.len()
            &&& trim_seq(l.subrange(0, key.len() as int)) == key
            &&& trim_seq(l.subrange(key.len() as int + 1, l.len() as int)) == value
        }),
{
    let l = key + seq!['='] + value;
    assert(l[0] == key[0]);
    assert(l.last() == value.last());
    lemma_trim_identity(l);
    assert forall|j: int| 0 <= j < key.len() implies l[j] != '=' by {
        assert(l[j] == key[j]);
    }
    assert(l[key.len() as int] == '=');
    lemma_first_index(l, '=', key.len() as int);
    assert(l.subrange(0, key.len() as int) =~= key);
    assert(l.subrange(key.len() as int + 1, l.len() as int) =~= value);
    assert(!is_space(key.last()));
    lemma_trim_identity(key);
    lemma_trim_identity(value);
}

/// The lines of a descriptor file: its four entries, then the empty piece
/// after the final newline.
proof fn lemma_descriptor_lines(port: u16, token: Seq<char>, pid: u32)
    requires
        forall|i: int| 0 <= i < token.len() ==> !is_space(#[trigger] token[i]),
    ensures
        split_char(descriptor_text(port, token, pid), '\n') == seq![
            "version="@ + decimal_seq(BRIDGE_PROTOCOL_VERSION as nat),
            "port="@ + decimal_seq(port as nat),
            "token="@ + token,
            "pid="@ + decimal_seq(pid as nat),
            Seq::<char>::empty(),
        ],
{
    reveal_strlit("version=");
    reveal_strlit("port=");
    reveal_strlit("token=");
    reveal_strlit("pid=");
    crate::text::lemma_decimal_digits(BRIDGE_PROTOCOL_VERSION as nat);
    crate::text::lemma_decimal_digits(port as nat);
    crate::text::lemma_decimal_digits(pid as nat);
    let dv = decimal_seq(BRIDGE_PROTOCOL_VERSION as nat);
    let dp = decimal_seq(port as nat);
    let dd = decimal_seq(pid as nat);
    let l1 = "version="@ + dv;
    let l2 = "port="@ + dp;
    let l3 = "token="@ + token;
    let l4 = "pid="@ + dd;
    assert forall|i: int| 0 <= i < l1.len() implies #[trigger] l1[i] != '\n' by {
        if i >= 8 {
            assert(l1[i] == dv[i - 8]);
            assert('0' <= dv[i - 8] <= '9');
        }
    }
    assert forall|i: int| 0 <= i < l2.len() implies #[trigger] l2[i] != '\n' by {
        if i >= 5 {
            assert(l2[i] == dp[i - 5]);
            assert('0' <= dp[i - 5] <= '9');
        }
    }
    assert forall|i: int| 0 <= i < l3.len() implies #[trigger] l3[i] != '\n' by {
        if i >= 6 {
            assert(l3[i] == token[i - 6]);
            assert(!is_space(token[i - 6]));
        }
    }
    assert forall|i: int| 0 <= i < l4.len() implies #[trigger] l4[i] != '\n' by {
        if i >= 4 {
            assert(l4[i] == dd[i - 4]);
            assert('0' <= dd[i - 4] <= '9');
        }
    }
    lemma_split_without_separator(l1, '\n');
    lemma_split_without_separator(l2, '\n');
    lemma_split_without_separator(l3, '\n');
    lemma_split_without_separator(l4, '\n');
    let e = Seq::<char>::empty();
    assert(split_char(e, '\n') == seq![e]);
    lemma_split_concat(l4, e, '\n');
    lemma_split_concat(l3, l4 + seq!['\n'] + e, '\n');
    lemma_split_concat(l2, l3 + seq!['\n'] + (l4 + seq!['\n'] + e), '\n');
    lemma_split_concat(l1, l2 + seq!['\n'] + (l3 + seq!['\n'] + (l4 + seq!['\n'] + e)), '\n');
    assert(split_char(descriptor_text(port, token, pid), '\n') =~= seq![l1, l2, l3, l4, e]);
}

/// What the bridge writes is what the helper reads: the descriptor file
/// gives back its port, its token and this protocol's version, for every
/// port and process id and every non-empty token without white space.
pub proof fn law_descriptor_round_trips(port: u16, token: Seq<char>, pid: u32)
    requires
        token.len() > 0,
        forall|i: int| 0 <= i < token.len() ==> !is_space(#[trigger] token[i]),
    ensures
        descriptor_outcome(descriptor_text(port, token, pid)) == Some(
            (port, token, BRIDGE_PROTOCOL_VERSION),
        ),
{
    reveal_strlit("version");
    reveal_strlit("port");
    reveal_strlit("token");
    reveal_strlit("pid");
    reveal_strlit("version=");
    reveal_strlit("port=");
    reveal_strlit("token=");
    reveal_strlit("pid=");
    lemma_descriptor_lines(port, token, pid);
    crate::text::lemma_decimal_digits(BRIDGE_PROTOCOL_VERSION as nat);
    crate::text::lemma_decimal_digits(port as nat);
    crate::text::lemma_decimal_digits(pid as nat);
    let dv = decimal_seq(BRIDGE_PROTOCOL_VERSION as nat);
    let dp = decimal_seq(port as nat);
    let dd = decimal_seq(pid as nat);
    let kv = "version"@;
    let kp = "port"@;
    let kt = "token"@;
    let kd = "pid"@;
    let l1 = "version="@ + dv;
    let l2 = "port="@ + dp;
    let l3 = "token="@ + token;
    let l4 = "pid="@ + dd;
    let e = Seq::<char>::empty();
    assert(l1 =~= kv + seq!['='] + dv);
    assert(l2 =~= kp + seq!['='] + dp);
    assert(l3 =~= kt + seq!['='] + token);
    assert(l4 =~= kd + seq!['='] + dd);
    assert(!is_space(dv[0]) && !is_space(dv.last())) by {
        assert('0' <= dv[0] <= '9');
        assert('0' <= dv[dv.len() - 1] <= '9');
    }
    assert(!is_space(dp[0]) && !is_space(dp.last())) by {
        assert('0' <= dp[0] <= '9');
        assert('0' <= dp[dp.len() - 1] <= '9');
    }
    assert(!is_space(dd[0]) && !is_space(dd.last())) by {
        assert('0' <= dd[0] <= '9');
        assert('0' <= dd[dd.len() - 1] <= '9');
    }
    assert(!is_space(token.last()));
    lemma_entry_line(kv, dv);
    lemma_entry_line(kp, dp);
    lemma_entry_line(kt, token);
    lemma_entry_line(kd, dd);
    assert(parse_unsigned(dv, 10, u32::MAX as int) == Some(1int)) by {
        assert(dv[0] != '+') by {
            assert('0' <= dv[0] <= '9');
        }
    }
    assert(parse_unsigned(dp, 10, u16::MAX as int) == Some(port as int)) by {
        assert(dp[0] != '+') by {
            assert('0' <= dp[0] <= '9');
        }
    }
    assert(kv != kp && kv != kt && kp != kt) by {
        assert(kv.len() != kp.len());
        assert(kv.len() != kt.len());
        assert(kp[0] != kt[0]);
    }
    assert(kd != kv && kd != kp && kd != kt) by {
        assert(kd.len() != kv.len() && kd.len() != kt.len());
        assert(kd[1] != kp[1]);
    }
    let done = (Some(port), Some(token), 1u32);
    assert(descriptor_fold(Seq::<Seq<char>>::empty(), Some(port), Some(token), 1) == done);
    assert(trim_start_index(e) == 0 && trim_end_index(e) == 0);
    assert(trim_seq(e).len() == 0);
    assert(seq![e].drop_first() =~= Seq::<Seq<char>>::empty());
    assert(descriptor_fold(seq![e], Some(port), Some(token), 1) == done);
    assert(seq![l4, e].drop_first() =~= seq![e]);
    assert(descriptor_fold(seq![l4, e], Some(port), Some(token), 1) == done);
    assert(seq![l3, l4, e].drop_first() =~= seq![l4, e]);
    assert(descriptor_fold(seq![l3, l4, e], Some(port), None, 1) == done);
    assert(seq![l2, l3, l4, e].drop_first() =~= seq![l3, l4, e]);
    assert(descriptor_fold(seq![l2, l3, l4, e], None, None, 1) == done);
    assert(seq![l1, l2, l3, l4, e].drop_first() =~= seq![l2, l3, l4, e]);
    assert(descriptor_fold(seq![l1, l2, l3, l4, e], None, None, 0) == done);
}

} // verus!
