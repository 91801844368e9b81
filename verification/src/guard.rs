//! A conservative admission check run before markup is handed to the
//! external parser. The parser is not total: on some malformed inputs it
//! aborts instead of reporting an error (too-short comments, a dangling `=`
//! in an attribute list, `<?...>` declarations, a `>` at the very start of
//! script or style content, non-ASCII bytes inside a tag). This scanner
//! walks the input with the same mode machine the parser's tokenizer uses
//! and refuses every input that could reach one of those aborts; what it
//! admits, the parser handles with a normal return. The check errs toward
//! refusal: a refused page is served as a parse failure, never fetched raw.

use vstd::prelude::*;
use vstd::string::StrSliceExecFns;

verus! {

/// The whitespace set tag-name splitting uses (ASCII whitespace).
pub open spec fn is_tag_ws(c: char) -> bool {
    c == ' ' || c == '\t' || c == '\n' || c == '\x0C' || c == '\r'
}

/// The whitespace set attribute-list trimming uses.
pub open spec fn is_trim_ws(c: char) -> bool {
    is_tag_ws(c) || c == '\x0B'
}

/// The separator a tag-name scan stops at: a bare space in a self-closing
/// tag, any ASCII whitespace in a start tag.
pub open spec fn tag_sep(c: char, ws: bool) -> bool {
    if ws {
        is_tag_ws(c)
    } else {
        c == ' '
    }
}

/// The first index at or after `i` whose character is not a separator;
/// the length when there is none.
pub open spec fn find_not(s: Seq<char>, i: int, ws: bool) -> int
    decreases s.len() - i,
{
    if i >= s.len() {
        s.len() as int
    } else if !tag_sep(s[i], ws) {
        i
    } else {
        find_not(s, i + 1, ws)
    }
}

/// The first index at or after `i` whose character is a separator; the
/// length when there is none.
pub open spec fn find_hit(s: Seq<char>, i: int, ws: bool) -> int
    decreases s.len() - i,
{
    if i >= s.len() {
        s.len() as int
    } else if tag_sep(s[i], ws) {
        i
    } else {
        find_hit(s, i + 1, ws)
    }
}

/// The start of `[lo, hi)` after leading trim whitespace.
pub open spec fn trim_lo(s: Seq<char>, lo: int, hi: int) -> int
    decreases hi - lo,
{
    if lo >= hi {
        hi
    } else if is_trim_ws(s[lo]) {
        trim_lo(s, lo + 1, hi)
    } else {
        lo
    }
}

/// The end of `[lo, hi)` after trailing trim whitespace.
pub open spec fn trim_hi(s: Seq<char>, lo: int, hi: int) -> int
    decreases hi - lo,
{
    if hi <= lo {
        lo
    } else if is_trim_ws(s[hi - 1]) {
        trim_hi(s, lo, hi - 1)
    } else {
        hi
    }
}

pub open spec fn is_ascii_char(c: char) -> bool {
    (c as u32) < 128
}

pub open spec fn all_ascii(s: Seq<char>) -> bool {
    forall|i: int| 0 <= i < s.len() ==> is_ascii_char(#[trigger] s[i])
}

/// The state names of the parser's attribute-list machine.
#[derive(Clone, Copy, Debug, PartialEq, Eq, Structural)]
pub enum AttrPos {
    Key,
    Assign,
    Bare,
    Quoted,
    Gap,
}

/// The attribute-list machine state: position, the open quote, whether the
/// value accumulator holds characters, and the last character pushed.
#[derive(Clone, Copy, Debug, PartialEq, Eq, Structural)]
pub struct AttrScan {
    pub pos: AttrPos,
    pub quote: char,
    pub has_chars: bool,
    pub last: char,
}

pub open spec fn attr_start() -> AttrScan {
    AttrScan { pos: AttrPos::Key, quote: ' ', has_chars: false, last: ' ' }
}

/// One step of the parser's attribute machine, mirrored exactly: keys end
/// at `=` or space; a quote right after `=` opens a quoted value, which a
/// matching unescaped quote closes; a bare value ends at a space.
pub open spec fn attr_step(st: AttrScan, c: char) -> AttrScan {
    match st.pos {
        AttrPos::Key => if c == '=' {
            AttrScan { pos: AttrPos::Assign, quote: st.quote, has_chars: false, last: st.last }
        } else if c == ' ' {
            AttrScan { pos: AttrPos::Gap, quote: st.quote, has_chars: false, last: st.last }
        } else {
            AttrScan { pos: AttrPos::Key, quote: st.quote, has_chars: true, last: c }
        },
        AttrPos::Assign => if c == '\'' || c == '"' {
            AttrScan { pos: AttrPos::Quoted, quote: c, has_chars: false, last: st.last }
        } else {
            AttrScan { pos: AttrPos::Bare, quote: st.quote, has_chars: true, last: c }
        },
        AttrPos::Bare => if c == ' ' {
            AttrScan { pos: AttrPos::Gap, quote: st.quote, has_chars: false, last: st.last }
        } else {
            AttrScan { pos: AttrPos::Bare, quote: st.quote, has_chars: true, last: c }
        },
        AttrPos::Quoted => if c == st.quote {
            if !st.has_chars {
                AttrScan { pos: AttrPos::Gap, quote: st.quote, has_chars: false, last: st.last }
            } else if st.last == '\\' {
                AttrScan { pos: AttrPos::Quoted, quote: st.quote, has_chars: true, last: c }
            } else {
                AttrScan { pos: AttrPos::Gap, quote: st.quote, has_chars: false, last: st.last }
            }
        } else {
            AttrScan { pos: AttrPos::Quoted, quote: st.quote, has_chars: true, last: c }
        },
        AttrPos::Gap => if c == ' ' {
            st
        } else {
            AttrScan { pos: AttrPos::Key, quote: st.quote, has_chars: true, last: c }
        },
    }
}

pub open spec fn attr_scan(s: Seq<char>) -> AttrScan
    decreases s.len(),
{
    if s.len() == 0 {
        attr_start()
    } else {
        attr_step(attr_scan(s.drop_last()), s.last())
    }
}

/// Whether the parser's attribute machine aborts on this attribute list: it
/// does exactly when the list ends inside `=` or inside an open quote.
pub open spec fn attrs_panic(s: Seq<char>) -> bool {
    attr_scan(s).pos == AttrPos::Assign || attr_scan(s).pos == AttrPos::Quoted
}

fn tag_sep_x(c: char, ws: bool) -> (r: bool)
    ensures
        r == tag_sep(c, ws),
{
    if ws {
        c == ' ' || c == '\t' || c == '\n' || c == '\x0C' || c == '\r'
    } else {
        c == ' '
    }
}

fn find_not_x(chunk: &Vec<char>, start: usize, ws: bool) -> (r: usize)
    requires
        start <= chunk@.len(),
    ensures
        r as int == find_not(chunk@, start as int, ws),
        start <= r <= chunk@.len(),
{
    let mut i: usize = start;
    while i < chunk.len() && tag_sep_x(chunk[i], ws)
        invariant
            start <= i <= chunk@.len(),
            find_not(chunk@, start as int, ws) == find_not(chunk@, i as int, ws),
        decreases chunk@.len() - i,
    {
        i = i + 1;
    }
    i
}

fn find_hit_x(chunk: &Vec<char>, start: usize, ws: bool) -> (r: usize)
    requires
        start <= chunk@.len(),
    ensures
        r as int == find_hit(chunk@, start as int, ws),
        start <= r <= chunk@.len(),
{
    let mut i: usize = start;
    while i < chunk.len() && !tag_sep_x(chunk[i], ws)
        invariant
            start <= i <= chunk@.len(),
            find_hit(chunk@, start as int, ws) == find_hit(chunk@, i as int, ws),
        decreases chunk@.len() - i,
    {
        i = i + 1;
    }
    i
}

fn is_trim_ws_x(c: char) -> (r: bool)
    ensures
        r == is_trim_ws(c),
{
    c == ' ' || c == '\t' || c == '\n' || c == '\x0C' || c == '\r' || c == '\x0B'
}

fn trim_lo_x(chunk: &Vec<char>, lo: usize, hi: usize) -> (r: usize)
    requires
        lo <= hi <= chunk@.len(),
    ensures
        r as int == trim_lo(chunk@, lo as int, hi as int),
        lo <= r <= hi,
{
    let mut i: usize = lo;
    while i < hi && is_trim_ws_x(chunk[i])
        invariant
            lo <= i <= hi <= chunk@.len(),
            trim_lo(chunk@, lo as int, hi as int) == trim_lo(chunk@, i as int, hi as int),
        decreases hi - i,
    {
        i = i + 1;
    }
    i
}

fn trim_hi_x(chunk: &Vec<char>, lo: usize, hi: usize) -> (r: usize)
    requires
        lo <= hi <= chunk@.len(),
    ensures
        r as int == trim_hi(chunk@, lo as int, hi as int),
        lo <= r <= hi,
{
    let mut i: usize = hi;
    while i > lo && is_trim_ws_x(chunk[i - 1])
        invariant
            lo <= i <= hi <= chunk@.len(),
            trim_hi(chunk@, lo as int, hi as int) == trim_hi(chunk@, lo as int, i as int),
        decreases i,
    {
        i = i - 1;
    }
    i
}

fn all_ascii_x(chunk: &Vec<char>) -> (r: bool)
    ensures
        r == all_ascii(chunk@),
{
    let mut i: usize = 0;
    while i < chunk.len()
        invariant
            i <= chunk@.len(),
            forall|j: int| 0 <= j < i ==> is_ascii_char(#[trigger] chunk@[j]),
        decreases chunk@.len() - i,
    {
        let v: u32 = chunk[i] as u32;
        if v >= 128 {
            return false;
        }
        i = i + 1;
    }
    true
}

fn attr_step_x(st: AttrScan, c: char) -> (r: AttrScan)
    ensures
        r == attr_step(st, c),
{
    match st.pos {
        AttrPos::Key => if c == '=' {
            AttrScan { pos: AttrPos::Assign, quote: st.quote, has_chars: false, last: st.last }
        } else if c == ' ' {
            AttrScan { pos: AttrPos::Gap, quote: st.quote, has_chars: false, last: st.last }
        } else {
            AttrScan { pos: AttrPos::Key, quote: st.quote, has_chars: true, last: c }
        },
        AttrPos::Assign => if c == '\'' || c == '"' {
            AttrScan { pos: AttrPos::Quoted, quote: c, has_chars: false, last: st.last }
        } else {
            AttrScan { pos: AttrPos::Bare, quote: st.quote, has_chars: true, last: c }
        },
        AttrPos::Bare => if c == ' ' {
            AttrScan { pos: AttrPos::Gap, quote: st.quote, has_chars: false, last: st.last }
        } else {
            AttrScan { pos: AttrPos::Bare, quote: st.quote, has_chars: true, last: c }
        },
        AttrPos::Quoted => if c == st.quote {
            if !st.has_chars {
                AttrScan { pos: AttrPos::Gap, quote: st.quote, has_chars: false, last: st.last }
            } else if st.last == '\\' {
                AttrScan { pos: AttrPos::Quoted, quote: st.quote, has_chars: true, last: c }
            } else {
                AttrScan { pos: AttrPos::Gap, quote: st.quote, has_chars: false, last: st.last }
            }
        } else {
            AttrScan { pos: AttrPos::Quoted, quote: st.quote, has_chars: true, last: c }
        },
        AttrPos::Gap => if c == ' ' {
            st
        } else {
            AttrScan { pos: AttrPos::Key, quote: st.quote, has_chars: true, last: c }
        },
    }
}

fn attrs_panic_x(chunk: &Vec<char>, lo: usize, hi: usize) -> (r: bool)
    requires
        lo <= hi <= chunk@.len(),
    ensures
        r == attrs_panic(chunk@.subrange(lo as int, hi as int)),
{
    let mut st = AttrScan { pos: AttrPos::Key, quote: ' ', has_chars: false, last: ' ' };
    let mut i: usize = lo;
    while i < hi
        invariant
            lo <= i <= hi <= chunk@.len(),
            st == attr_scan(chunk@.subrange(lo as int, i as int)),
        decreases hi - i,
    {
        st = attr_step_x(st, chunk[i]);
        proof {
            assert(chunk@.subrange(lo as int, i + 1).drop_last() =~= chunk@.subrange(
                lo as int,
                i as int,
            ));
            assert(chunk@.subrange(lo as int, i + 1).last() == chunk@[i as int]);
        }
        i = i + 1;
    }
    match st.pos {
        AttrPos::Assign => true,
        AttrPos::Quoted => true,
        _ => false,
    }
}

/// What the tokenizer does with one `>`-terminated chunk: abort on a shape
/// that reaches a panic site (`Danger`), stop the whole parse with an error
/// on a chunk that is no tag at all (`ErrStop`), or carry on (`Pass`),
/// noting whether the chunk is a start tag that opens script or style mode.
#[derive(Clone, Copy, Debug, PartialEq, Eq, Structural)]
pub enum ChunkVerdict {
    Danger,
    ErrStop,
    Pass { script: bool, style: bool },
}

pub open spec fn script_name() -> Seq<char> {
    seq!['s', 'c', 'r', 'i', 'p', 't']
}

pub open spec fn style_name() -> Seq<char> {
    seq!['s', 't', 'y', 'l', 'e']
}

pub open spec fn chunk_verdict(chunk: Seq<char>) -> ChunkVerdict {
    let n = chunk.len() as int;
    if n >= 2 && chunk[n - 2] == '/' && chunk[n - 1] == '>' {
        if !all_ascii(chunk) {
            ChunkVerdict::Danger
        } else {
            let start = find_not(chunk, 1, false);
            let f = find_hit(chunk, start, false);
            let end = if f < n { f } else { n - 2 };
            if end < start {
                ChunkVerdict::Danger
            } else {
                let alo = trim_lo(chunk, end, n - 2);
                let ahi = trim_hi(chunk, alo, n - 2);
                if attrs_panic(chunk.subrange(alo, ahi)) {
                    ChunkVerdict::Danger
                } else {
                    ChunkVerdict::Pass { script: false, style: false }
                }
            }
        }
    } else if n >= 2 && chunk[0] == '<' && chunk[1] == '/' {
        ChunkVerdict::Pass { script: false, style: false }
    } else if n >= 4 && chunk[0] == '<' && chunk[1] == '!' && chunk[2] == '-' && chunk[3] == '-' {
        ChunkVerdict::Danger
    } else if n >= 2 && chunk[0] == '<' && chunk[1] == '!' {
        ChunkVerdict::Pass { script: false, style: false }
    } else if n >= 2 && chunk[0] == '<' && chunk[1] == '?' {
        ChunkVerdict::Danger
    } else if n >= 1 && chunk[0] == '<' {
        if !all_ascii(chunk) {
            ChunkVerdict::Danger
        } else {
            let start = find_not(chunk, 1, true);
            let f = find_hit(chunk, start, true);
            let end = if f < n { f } else { n - 1 };
            if end < start {
                ChunkVerdict::Danger
            } else {
                let name = chunk.subrange(start, end);
                let alo = trim_lo(chunk, end, n - 1);
                let ahi = trim_hi(chunk, alo, n - 1);
                if attrs_panic(chunk.subrange(alo, ahi)) {
                    ChunkVerdict::Danger
                } else {
                    ChunkVerdict::Pass { script: name == script_name(), style: name == style_name() }
                }
            }
        }
    } else {
        ChunkVerdict::ErrStop
    }
}

fn is_script_name_x(chunk: &Vec<char>, start: usize, end: usize) -> (r: bool)
    requires
        start <= end <= chunk@.len(),
    ensures
        r == (chunk@.subrange(start as int, end as int) == script_name()),
{
    let ghost name = chunk@.subrange(start as int, end as int);
    if end - start == 6 && chunk[start] == 's' && chunk[start + 1] == 'c' && chunk[start + 2]
        == 'r' && chunk[start + 3] == 'i' && chunk[start + 4] == 'p' && chunk[start + 5] == 't' {
        proof {
            assert(name =~= script_name());
        }
        true
    } else {
        proof {
            if name == script_name() {
                assert(name.len() == 6);
                assert(chunk@[start as int] == name[0] && name[0] == 's');
                assert(chunk@[start + 1] == name[1] && name[1] == 'c');
                assert(chunk@[start + 2] == name[2] && name[2] == 'r');
                assert(chunk@[start + 3] == name[3] && name[3] == 'i');
                assert(chunk@[start + 4] == name[4] && name[4] == 'p');
                assert(chunk@[start + 5] == name[5] && name[5] == 't');
            }
        }
        false
    }
}

fn is_style_name_x(chunk: &Vec<char>, start: usize, end: usize) -> (r: bool)
    requires
        start <= end <= chunk@.len(),
    ensures
        r == (chunk@.subrange(start as int, end as int) == style_name()),
{
    let ghost name = chunk@.subrange(start as int, end as int);
    if end - start == 5 && chunk[start] == 's' && chunk[start + 1] == 't' && chunk[start + 2]
        == 'y' && chunk[start + 3] == 'l' && chunk[start + 4] == 'e' {
        proof {
            assert(name =~= style_name());
        }
        true
    } else {
        proof {
            if name == style_name() {
                assert(name.len() == 5);
                assert(chunk@[start as int] == name[0] && name[0] == 's');
                assert(chunk@[start + 1] == name[1] && name[1] == 't');
                assert(chunk@[start + 2] == name[2] && name[2] == 'y');
                assert(chunk@[start + 3] == name[3] && name[3] == 'l');
                assert(chunk@[start + 4] == name[4] && name[4] == 'e');
            }
        }
        false
    }
}

/// A found separator index really holds a separator.
proof fn lemma_find_hit_sep(s: Seq<char>, i: int, ws: bool)
    ensures
        find_hit(s, i, ws) < s.len() ==> tag_sep(s[find_hit(s, i, ws)], ws),
    decreases s.len() - i,
{
    if i < s.len() && !tag_sep(s[i], ws) {
        lemma_find_hit_sep(s, i + 1, ws);
    }
}

fn chunk_verdict_x(chunk: &Vec<char>) -> (r: ChunkVerdict)
    ensures
        r == chunk_verdict(chunk@),
{
    let n = chunk.len();
    if n >= 2 && chunk[n - 2] == '/' && chunk[n - 1] == '>' {
        if !all_ascii_x(chunk) {
            ChunkVerdict::Danger
        } else {
            let start = find_not_x(chunk, 1, false);
            let f = find_hit_x(chunk, start, false);
            let end = if f < n {
                f
            } else {
                n - 2
            };
            if end < start {
                ChunkVerdict::Danger
            } else {
                proof {
                    lemma_find_hit_sep(chunk@, start as int, false);
                }
                let alo = trim_lo_x(chunk, end, n - 2);
                let ahi = trim_hi_x(chunk, alo, n - 2);
                if attrs_panic_x(chunk, alo, ahi) {
                    ChunkVerdict::Danger
                } else {
                    ChunkVerdict::Pass { script: false, style: false }
                }
            }
        }
    } else if n >= 2 && chunk[0] == '<' && chunk[1] == '/' {
        ChunkVerdict::Pass { script: false, style: false }
    } else if n >= 4 && chunk[0] == '<' && chunk[1] == '!' && chunk[2] == '-' && chunk[3] == '-' {
        ChunkVerdict::Danger
    } else if n >= 2 && chunk[0] == '<' && chunk[1] == '!' {
        ChunkVerdict::Pass { script: false, style: false }
    } else if n >= 2 && chunk[0] == '<' && chunk[1] == '?' {
        ChunkVerdict::Danger
    } else if n >= 1 && chunk[0] == '<' {
        if !all_ascii_x(chunk) {
            ChunkVerdict::Danger
        } else {
            let start = find_not_x(chunk, 1, true);
            let f = find_hit_x(chunk, start, true);
            let end = if f < n {
                f
            } else {
                n - 1
            };
            if end < start {
                ChunkVerdict::Danger
            } else {
                let alo = trim_lo_x(chunk, end, n - 1);
                let ahi = trim_hi_x(chunk, alo, n - 1);
                if attrs_panic_x(chunk, alo, ahi) {
                    ChunkVerdict::Danger
                } else {
                    ChunkVerdict::Pass {
                        script: is_script_name_x(chunk, start, end),
                        style: is_style_name_x(chunk, start, end),
                    }
                }
            }
        }
    } else {
        ChunkVerdict::ErrStop
    }
}

#[derive(Clone, Copy, Debug, PartialEq, Eq, Structural)]
pub enum GuardMode {
    Normal,
    Quoted,
    Comment,
    Script,
    Style,
}

#[derive(Clone, Copy, Debug, PartialEq, Eq, Structural)]
pub enum Verdict {
    Pending,
    Accept,
    Reject,
}

/// The scanner state, mirroring the tokenizer's: the mode, whether a tag is
/// open, the open quote, the current chunk, a capped length counter and two
/// small automata (comment closer, script/style closer), and the verdict so
/// far. `Accept` means the parse is known to end in an ordinary error right
/// there; `Reject` means a panic site may be reachable.
pub struct GState {
    pub mode: GuardMode,
    pub brackets: bool,
    pub quote: char,
    pub cnt: int,
    pub dash: int,
    pub kmp: int,
    pub verdict: Verdict,
    pub chunk: Seq<char>,
}

pub open spec fn g_init() -> GState {
    GState {
        mode: GuardMode::Normal,
        brackets: false,
        quote: ' ',
        cnt: 0,
        dash: 0,
        kmp: 0,
        verdict: Verdict::Pending,
        chunk: Seq::empty(),
    }
}

pub open spec fn script_pat(k: int) -> char {
    if k == 0 {
        '<'
    } else if k == 1 {
        '/'
    } else if k == 2 {
        's'
    } else if k == 3 {
        'c'
    } else if k == 4 {
        'r'
    } else if k == 5 {
        'i'
    } else if k == 6 {
        'p'
    } else if k == 7 {
        't'
    } else {
        '>'
    }
}

pub open spec fn style_pat(k: int) -> char {
    if k == 0 {
        '<'
    } else if k == 1 {
        '/'
    } else if k == 2 {
        's'
    } else if k == 3 {
        't'
    } else if k == 4 {
        'y'
    } else if k == 5 {
        'l'
    } else if k == 6 {
        'e'
    } else {
        '>'
    }
}

/// One step inside script or style content. The closer is found with a
/// prefix-matching automaton; a `>` in the first few characters of the
/// content (where the tokenizer's suffix check can underrun its stack) is
/// refused outright.
pub open spec fn g_step_content(st: GState, c: char, script: bool) -> GState {
    let patlen: int = if script {
        9
    } else {
        8
    };
    let cnt = if st.cnt < 9 {
        st.cnt + 1
    } else {
        9
    };
    if c == '>' && cnt <= patlen - 1 {
        GState { verdict: Verdict::Reject, ..st }
    } else {
        let p = if script {
            script_pat(st.kmp)
        } else {
            style_pat(st.kmp)
        };
        let kmp = if c == p {
            st.kmp + 1
        } else if c == '<' {
            1
        } else {
            0
        };
        if kmp == patlen {
            GState {
                mode: GuardMode::Normal,
                brackets: false,
                cnt: 0,
                kmp: 0,
                chunk: Seq::empty(),
                ..st
            }
        } else {
            GState { cnt, kmp, ..st }
        }
    }
}

/// One step of the whole scanner, mirroring the tokenizer's mode order:
/// quoted content first, then comments, then script and style content, then
/// ordinary text and tags.
pub open spec fn g_step(st: GState, c: char) -> GState {
    if st.verdict != Verdict::Pending {
        st
    } else {
        match st.mode {
            GuardMode::Quoted => if c == st.quote && st.chunk.last() != '\\' {
                GState { mode: GuardMode::Normal, chunk: st.chunk.push(c), ..st }
            } else {
                GState { chunk: st.chunk.push(c), ..st }
            },
            GuardMode::Comment => {
                let cnt = if st.cnt < 9 {
                    st.cnt + 1
                } else {
                    9
                };
                let dash = if c == '-' {
                    if st.dash < 2 {
                        st.dash + 1
                    } else {
                        2
                    }
                } else if c == '>' && st.dash == 2 {
                    3
                } else {
                    0
                };
                if dash == 3 {
                    if cnt < 7 {
                        GState { verdict: Verdict::Reject, ..st }
                    } else {
                        GState {
                            mode: GuardMode::Normal,
                            brackets: false,
                            cnt: 0,
                            dash: 0,
                            chunk: Seq::empty(),
                            ..st
                        }
                    }
                } else {
                    GState { cnt, dash, ..st }
                }
            },
            GuardMode::Script => g_step_content(st, c, true),
            GuardMode::Style => g_step_content(st, c, false),
            GuardMode::Normal => if c == '<' {
                GState { brackets: true, chunk: seq!['<'], ..st }
            } else if c == '>' {
                match chunk_verdict(st.chunk.push('>')) {
                    ChunkVerdict::Danger => GState {
                        verdict: Verdict::Reject,
                        chunk: Seq::empty(),
                        ..st
                    },
                    ChunkVerdict::ErrStop => GState {
                        verdict: Verdict::Accept,
                        chunk: Seq::empty(),
                        ..st
                    },
                    ChunkVerdict::Pass { script, style } => if script {
                        GState {
                            mode: GuardMode::Script,
                            brackets: false,
                            cnt: 0,
                            kmp: 0,
                            chunk: Seq::empty(),
                            ..st
                        }
                    } else if style {
                        GState {
                            mode: GuardMode::Style,
                            brackets: false,
                            cnt: 0,
                            kmp: 0,
                            chunk: Seq::empty(),
                            ..st
                        }
                    } else {
                        GState { brackets: false, chunk: Seq::empty(), ..st }
                    },
                }
            } else if c == '-' {
                if st.chunk.push('-') == seq!['<', '!', '-', '-'] {
                    GState { mode: GuardMode::Comment, cnt: 4, dash: 2, chunk: Seq::empty(), ..st }
                } else {
                    GState { chunk: st.chunk.push('-'), ..st }
                }
            } else {
                if st.brackets && (c == '\'' || c == '"') {
                    GState { mode: GuardMode::Quoted, quote: c, chunk: st.chunk.push(c), ..st }
                } else {
                    GState { chunk: st.chunk.push(c), ..st }
                }
            },
        }
    }
}

pub open spec fn g_scan(s: Seq<char>) -> GState
    decreases s.len(),
{
    if s.len() == 0 {
        g_init()
    } else {
        g_step(g_scan(s.drop_last()), s.last())
    }
}

/// Whether a piece of markup is admitted to the external parser: the scan
/// finds no shape on which the parser could abort.
pub open spec fn spec_parser_input_ok(s: Seq<char>) -> bool {
    g_scan(s).verdict != Verdict::Reject
}

/// The executable scanner state; `view` maps it to the specification's.
struct GSx {
    mode: GuardMode,
    brackets: bool,
    quote: char,
    cnt: usize,
    dash: usize,
    kmp: usize,
    verdict: Verdict,
    chunk: Vec<char>,
}

impl GSx {
    spec fn view(&self) -> GState {
        GState {
            mode: self.mode,
            brackets: self.brackets,
            quote: self.quote,
            cnt: self.cnt as int,
            dash: self.dash as int,
            kmp: self.kmp as int,
            verdict: self.verdict,
            chunk: self.chunk@,
        }
    }

    spec fn wf(&self) -> bool {
        &&& self.cnt <= 9
        &&& self.dash <= 3
        &&& self.kmp <= 8
        &&& (self.mode == GuardMode::Style ==> self.kmp <= 7)
        &&& (self.mode == GuardMode::Quoted ==> self.chunk@.len() > 0)
    }
}

fn script_pat_x(k: usize) -> (r: char)
    ensures
        r == script_pat(k as int),
{
    if k == 0 {
        '<'
    } else if k == 1 {
        '/'
    } else if k == 2 {
        's'
    } else if k == 3 {
        'c'
    } else if k == 4 {
        'r'
    } else if k == 5 {
        'i'
    } else if k == 6 {
        'p'
    } else if k == 7 {
        't'
    } else {
        '>'
    }
}

fn style_pat_x(k: usize) -> (r: char)
    ensures
        r == style_pat(k as int),
{
    if k == 0 {
        '<'
    } else if k == 1 {
        '/'
    } else if k == 2 {
        's'
    } else if k == 3 {
        't'
    } else if k == 4 {
        'y'
    } else if k == 5 {
        'l'
    } else if k == 6 {
        'e'
    } else {
        '>'
    }
}

fn g_step_content_x(st: GSx, c: char, script: bool) -> (r: GSx)
    requires
        st.wf(),
        st.verdict == Verdict::Pending,
        st.mode == (if script {
            GuardMode::Script
        } else {
            GuardMode::Style
        }),
    ensures
        r.view() == g_step_content(st.view(), c, script),
        r.wf(),
{
    let patlen: usize = if script {
        9
    } else {
        8
    };
    let cnt: usize = if st.cnt < 9 {
        st.cnt + 1
    } else {
        9
    };
    if c == '>' && cnt <= patlen - 1 {
        GSx { verdict: Verdict::Reject, ..st }
    } else {
        let p = if script {
            script_pat_x(st.kmp)
        } else {
            style_pat_x(st.kmp)
        };
        let kmp: usize = if c == p {
            st.kmp + 1
        } else if c == '<' {
            1
        } else {
            0
        };
        if kmp == patlen {
            GSx { mode: GuardMode::Normal, brackets: false, cnt: 0, kmp: 0, chunk: Vec::new(), ..st }
        } else {
            GSx { cnt, kmp, ..st }
        }
    }
}

fn g_step_x(st: GSx, c: char) -> (r: GSx)
    requires
        st.wf(),
    ensures
        r.view() == g_step(st.view(), c),
        r.wf(),
{
    if !(matches!(st.verdict, Verdict::Pending)) {
        return st;
    }
    match st.mode {
        GuardMode::Quoted => {
            let lastc = st.chunk[st.chunk.len() - 1];
            let mut st2 = st;
            let leave = c == st2.quote && lastc != '\\';
            st2.chunk.push(c);
            if leave {
                st2.mode = GuardMode::Normal;
            }
            st2
        },
        GuardMode::Comment => {
            let cnt: usize = if st.cnt < 9 {
                st.cnt + 1
            } else {
                9
            };
            let dash: usize = if c == '-' {
                if st.dash < 2 {
                    st.dash + 1
                } else {
                    2
                }
            } else if c == '>' && st.dash == 2 {
                3
            } else {
                0
            };
            if dash == 3 {
                if cnt < 7 {
                    GSx { verdict: Verdict::Reject, ..st }
                } else {
                    GSx {
                        mode: GuardMode::Normal,
                        brackets: false,
                        cnt: 0,
                        dash: 0,
                        chunk: Vec::new(),
                        ..st
                    }
                }
            } else {
                GSx { cnt, dash, ..st }
            }
        },
        GuardMode::Script => g_step_content_x(st, c, true),
        GuardMode::Style => g_step_content_x(st, c, false),
        GuardMode::Normal => {
            if c == '<' {
                let mut fresh: Vec<char> = Vec::new();
                fresh.push('<');
                proof {
                    assert(fresh@ =~= seq!['<']);
                }
                GSx { brackets: true, chunk: fresh, ..st }
            } else if c == '>' {
                let mut st2 = st;
                st2.chunk.push('>');
                match chunk_verdict_x(&st2.chunk) {
                    ChunkVerdict::Danger => {
                        st2.verdict = Verdict::Reject;
                        st2.chunk = Vec::new();
                        proof {
                            assert(st2.view() =~~= g_step(st.view(), c));
                        }
                        st2
                    },
                    ChunkVerdict::ErrStop => {
                        st2.verdict = Verdict::Accept;
                        st2.chunk = Vec::new();
                        proof {
                            assert(st2.view() =~~= g_step(st.view(), c));
                        }
                        st2
                    },
                    ChunkVerdict::Pass { script, style } => {
                        if script {
                            GSx {
                                mode: GuardMode::Script,
                                brackets: false,
                                cnt: 0,
                                kmp: 0,
                                chunk: Vec::new(),
                                ..st2
                            }
                        } else if style {
                            GSx {
                                mode: GuardMode::Style,
                                brackets: false,
                                cnt: 0,
                                kmp: 0,
                                chunk: Vec::new(),
                                ..st2
                            }
                        } else {
                            GSx { brackets: false, chunk: Vec::new(), ..st2 }
                        }
                    },
                }
            } else if c == '-' {
                let mut st2 = st;
                st2.chunk.push('-');
                let is_opener = st2.chunk.len() == 4 && st2.chunk[0] == '<' && st2.chunk[1] == '!'
                    && st2.chunk[2] == '-' && st2.chunk[3] == '-';
                proof {
                    if is_opener {
                        assert(st2.chunk@ =~= seq!['<', '!', '-', '-']);
                    } else {
                        if st2.chunk@ == seq!['<', '!', '-', '-'] {
                            assert(st2.chunk@.len() == 4);
                            assert(st2.chunk@[0] == '<' && st2.chunk@[1] == '!' && st2.chunk@[2]
                                == '-' && st2.chunk@[3] == '-');
                        }
                    }
                }
                if is_opener {
                    GSx { mode: GuardMode::Comment, cnt: 4, dash: 2, chunk: Vec::new(), ..st2 }
                } else {
                    st2
                }
            } else {
                let mut st2 = st;
                st2.chunk.push(c);
                if st2.brackets && (c == '\'' || c == '"') {
                    st2.mode = GuardMode::Quoted;
                    st2.quote = c;
                }
                st2
            }
        },
    }
}

/// Runs the admission scan over a whole input.
pub fn parser_input_ok(html: &str) -> (r: bool)
    ensures
        r == spec_parser_input_ok(html@),
{
    let len = html.unicode_len();
    let mut st = GSx {
        mode: GuardMode::Normal,
        brackets: false,
        quote: ' ',
        cnt: 0,
        dash: 0,
        kmp: 0,
        verdict: Verdict::Pending,
        chunk: Vec::new(),
    };
    proof {
        assert(st.view() =~~= g_init());
    }
    let mut i: usize = 0;
    while i < len
        invariant
            i <= len,
            len == html@.len(),
            st.wf(),
            st.view() == g_scan(html@.take(i as int)),
        decreases len - i,
    {
        let c = html.get_char(i);
        st = g_step_x(st, c);
        proof {
            assert(html@.take(i + 1).drop_last() =~= html@.take(i as int));
            assert(html@.take(i + 1).last() == html@[i as int]);
        }
        i = i + 1;
    }
    proof {
        assert(html@.take(len as int) =~= html@);
    }
    !(matches!(st.verdict, Verdict::Reject))
}

} // verus!
