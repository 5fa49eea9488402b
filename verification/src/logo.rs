use vstd::prelude::*;
use vstd::string::StrSliceExecFns;
use vstd::string::StringExecFns;
use crate::shell::ShellResult;
use crate::text::{is_ws, is_ws_char, str_eq, trim, trimmed};

verus! {

/// The distro identifier the logo lookup keys on: the trimmed os-release
/// `ID` probe's value on a Linux host, fixed names for the Apple and
/// FreeBSD platforms, and a sentinel for anything else.
pub fn resolve_distro(uname: &ShellResult, id_probe: &ShellResult) -> (r: String)
    ensures
        trimmed(uname.stdout@) == "Linux"@ ==> r@ == trimmed(id_probe.stdout@),
        trimmed(uname.stdout@) == "Darwin"@ ==> r@ == "macos"@,
        trimmed(uname.stdout@) == "FreeBSD"@ ==> r@ == "freebsd"@,
        trimmed(uname.stdout@) != "Linux"@ && trimmed(uname.stdout@) != "Darwin"@ && trimmed(
            uname.stdout@,
        ) != "FreeBSD"@ ==> r@ == "unknown"@,
{
    proof {
        reveal_strlit("Linux");
        reveal_strlit("Darwin");
        reveal_strlit("FreeBSD");
        assert("Linux"@.len() == 5);
        assert("Darwin"@.len() == 6);
        assert("FreeBSD"@.len() == 7);
    }
    let tr = trim(uname.stdout.as_str());
    if str_eq(tr.as_str(), "Linux") {
        trim(id_probe.stdout.as_str())
    } else if str_eq(tr.as_str(), "Darwin") {
        String::from_str("macos")
    } else if str_eq(tr.as_str(), "FreeBSD") {
        String::from_str("freebsd")
    } else {
        String::from_str("unknown")
    }
}

/// Index of the first newline of `s`, or its length when it has none.
pub open spec fn first_nl(s: Seq<char>) -> nat
    decreases s.len(),
{
    if s.len() == 0 {
        0
    } else if s[0] == '\n' {
        0
    } else {
        1 + first_nl(s.drop_first())
    }
}

proof fn lemma_first_nl_at(s: Seq<char>, j: int)
    requires
        0 <= j <= s.len(),
        forall|k: int| 0 <= k < j ==> s[k] != '\n',
        j < s.len() ==> s[j] == '\n',
    ensures
        first_nl(s) == j,
    decreases j,
{
    if j == 0 {
        if s.len() > 0 && s[0] != '\n' {
            assert(j == s.len());
        }
    } else {
        lemma_first_nl_at(s.drop_first(), j - 1);
    }
}

/// A carriage return just before the split newline is not part of the
/// line.
pub open spec fn strip_cr(line: Seq<char>) -> Seq<char> {
    if line.len() > 0 && line[line.len() - 1] == '\r' {
        line.drop_last()
    } else {
        line
    }
}

/// The lines of `s`, split at every newline. A carriage return directly
/// before a newline is dropped; a final newline closes the last line
/// rather than opening an empty one; the empty text has no lines.
pub open spec fn split_lines(s: Seq<char>) -> Seq<Seq<char>>
    decreases s.len(),
{
    if s.len() == 0 {
        Seq::<Seq<char>>::empty()
    } else {
        let i = first_nl(s) as int;
        if i < s.len() {
            seq![strip_cr(s.subrange(0, i))] + split_lines(s.subrange(i + 1, s.len() as int))
        } else {
            seq![s]
        }
    }
}

proof fn lemma_split_lines_step(s: Seq<char>, start: int, pos: int)
    requires
        0 <= start <= pos < s.len(),
        s[pos] == '\n',
        forall|k: int| start <= k < pos ==> s[k] != '\n',
    ensures
        split_lines(s.skip(start)) == seq![strip_cr(s.subrange(start, pos))] + split_lines(
            s.skip(pos + 1),
        ),
{
    let t = s.skip(start);
    assert forall|k: int| 0 <= k < pos - start implies t[k] != '\n' by {
        assert(t[k] == s[start + k]);
    }
    assert(t[pos - start] == s[pos]);
    lemma_first_nl_at(t, pos - start);
    assert(t.subrange(0, pos - start) =~= s.subrange(start, pos));
    assert(t.subrange(pos - start + 1, t.len() as int) =~= s.skip(pos + 1));
}

proof fn lemma_split_lines_tail(s: Seq<char>, start: int)
    requires
        0 <= start < s.len(),
        forall|k: int| start <= k < s.len() ==> s[k] != '\n',
    ensures
        split_lines(s.skip(start)) == seq![s.subrange(start, s.len() as int)],
{
    let t = s.skip(start);
    assert forall|k: int| 0 <= k < t.len() implies t[k] != '\n' by {
        assert(t[k] == s[start + k]);
    }
    lemma_first_nl_at(t, t.len() as int);
    assert(t =~= s.subrange(start, s.len() as int));
}

/// Split a text into its lines.
pub fn lines_of(s: &str) -> (r: Vec<String>)
    ensures
        r.deep_view() == split_lines(s@),
{
    let n: usize = s.unicode_len();
    let mut out: Vec<String> = Vec::new();
    let mut start: usize = 0;
    let mut pos: usize = 0;
    proof {
        assert(s@.skip(0) =~= s@);
    }
    while pos < n
        invariant
            0 <= start <= pos <= n,
            n == s@.len(),
            forall|k: int| start <= k < pos ==> s@[k] != '\n',
            out.deep_view() + split_lines(s@.skip(start as int)) == split_lines(s@),
        decreases n - pos,
    {
        if s.get_char(pos) == '\n' {
            let line_end: usize = if pos > start && s.get_char(pos - 1) == '\r' {
                pos - 1
            } else {
                pos
            };
            let ghost old_dv = out.deep_view();
            let line = String::from_str(s.substring_char(start, line_end));
            out.push(line);
            proof {
                lemma_split_lines_step(s@, start as int, pos as int);
                assert(strip_cr(s@.subrange(start as int, pos as int)) =~= s@.subrange(
                    start as int,
                    line_end as int,
                ));
                assert(out.deep_view() =~= old_dv.push(line@));
                assert(out.deep_view() + split_lines(s@.skip(pos as int + 1)) =~= (old_dv + (seq![
                    strip_cr(s@.subrange(start as int, pos as int)),
                ] + split_lines(s@.skip(pos as int + 1)))));
            }
            start = pos + 1;
        }
        pos = pos + 1;
    }
    if start < n {
        let ghost old_dv = out.deep_view();
        let line = String::from_str(s.substring_char(start, n));
        out.push(line);
        proof {
            lemma_split_lines_tail(s@, start as int);
            assert(out.deep_view() =~= old_dv.push(line@));
            assert(out.deep_view() =~= old_dv + seq![s@.subrange(start as int, n as int)]);
        }
    } else {
        proof {
            assert(s@.skip(start as int) =~= Seq::<char>::empty());
            assert(out.deep_view() + Seq::<Seq<char>>::empty() =~= out.deep_view());
        }
    }
    out
}

/// A decimal digit.
pub open spec fn is_digit(c: char) -> bool {
    c == '0' || c == '1' || c == '2' || c == '3' || c == '4' || c == '5' || c == '6' || c == '7'
        || c == '8' || c == '9'
}

/// The value of a decimal digit character.
pub open spec fn digit_val(c: char) -> nat {
    if c == '1' {
        1
    } else if c == '2' {
        2
    } else if c == '3' {
        3
    } else if c == '4' {
        4
    } else if c == '5' {
        5
    } else if c == '6' {
        6
    } else if c == '7' {
        7
    } else if c == '8' {
        8
    } else if c == '9' {
        9
    } else {
        0
    }
}

/// The number the digit string `t` denotes.
pub open spec fn digits_val(t: Seq<char>) -> nat
    decreases t.len(),
{
    if t.len() == 0 {
        0
    } else {
        digits_val(t.drop_last()) * 10 + digit_val(t.last())
    }
}

/// `t` without an optional leading plus sign.
pub open spec fn u16_body(t: Seq<char>) -> Seq<char> {
    if t.len() > 0 && t[0] == '+' {
        t.drop_first()
    } else {
        t
    }
}

/// `t` denotes a 16-bit count: an optional plus sign, then at least one
/// decimal digit and nothing else, with a value of at most 65535.
pub open spec fn parses_u16(t: Seq<char>) -> bool {
    &&& u16_body(t).len() > 0
    &&& forall|k: int| 0 <= k < u16_body(t).len() ==> is_digit(#[trigger] u16_body(t)[k])
    &&& digits_val(u16_body(t)) <= 65535
}

/// The count `t` denotes.
pub open spec fn u16_value(t: Seq<char>) -> nat {
    digits_val(u16_body(t))
}

proof fn lemma_digits_val_prefix(t: Seq<char>, j: int)
    requires
        0 <= j <= t.len(),
    ensures
        digits_val(t) >= digits_val(t.take(j)),
    decreases t.len(),
{
    if j == t.len() {
        assert(t.take(j) =~= t);
    } else {
        lemma_digits_val_prefix(t.drop_last(), j);
        assert(t.drop_last().take(j) =~= t.take(j));
    }
}

fn char_digit(c: char) -> (r: Option<u8>)
    ensures
        r is Some <==> is_digit(c),
        r matches Some(d) ==> d as nat == digit_val(c),
{
    if c == '0' {
        Some(0)
    } else if c == '1' {
        Some(1)
    } else if c == '2' {
        Some(2)
    } else if c == '3' {
        Some(3)
    } else if c == '4' {
        Some(4)
    } else if c == '5' {
        Some(5)
    } else if c == '6' {
        Some(6)
    } else if c == '7' {
        Some(7)
    } else if c == '8' {
        Some(8)
    } else if c == '9' {
        Some(9)
    } else {
        None
    }
}

/// Parse a 16-bit count, accepting an optional leading plus sign.
pub fn parse_u16(tok: &str) -> (r: Option<u16>)
    ensures
        r is Some <==> parses_u16(tok@),
        r matches Some(v) ==> v as nat == u16_value(tok@),
{
    let tn: usize = tok.unicode_len();
    let start: usize = if tn > 0 && tok.get_char(0) == '+' {
        1
    } else {
        0
    };
    let ghost b = u16_body(tok@);
    proof {
        assert(b =~= tok@.skip(start as int));
    }
    if tn == start {
        return None;
    }
    let mut val: u32 = 0;
    let mut i: usize = start;
    while i < tn
        invariant
            start <= i <= tn,
            tn == tok@.len(),
            tn > start,
            b == u16_body(tok@),
            b == tok@.skip(start as int),
            b.len() == tn - start,
            val <= 65535,
            val as nat == digits_val(b.take(i - start)),
            forall|k: int| 0 <= k < i - start ==> is_digit(#[trigger] b[k]),
        decreases tn - i,
    {
        let c = tok.get_char(i);
        proof {
            assert(b[i - start] == tok@[i as int]);
        }
        match char_digit(c) {
            None => {
                return None;
            },
            Some(d) => {
                let next: u32 = val * 10 + d as u32;
                proof {
                    assert(b.take(i - start + 1).drop_last() =~= b.take(i - start));
                    assert(b.take(i - start + 1).last() == b[i - start]);
                }
                if next > 65535 {
                    proof {
                        lemma_digits_val_prefix(b, i - start + 1);
                    }
                    return None;
                }
                val = next;
            },
        }
        i = i + 1;
    }
    proof {
        assert(b.take(tn - start) =~= b);
    }
    Some(val as u16)
}

/// Length of the whitespace prefix of `s`.
pub open spec fn ws_len(s: Seq<char>) -> nat
    decreases s.len(),
{
    if s.len() == 0 {
        0
    } else if is_ws(s[0]) {
        1 + ws_len(s.drop_first())
    } else {
        0
    }
}

/// Length of the non-whitespace prefix of `s`.
pub open spec fn word_len(s: Seq<char>) -> nat
    decreases s.len(),
{
    if s.len() == 0 {
        0
    } else if !is_ws(s[0]) {
        1 + word_len(s.drop_first())
    } else {
        0
    }
}

proof fn lemma_ws_len_at(s: Seq<char>, j: int)
    requires
        0 <= j <= s.len(),
        forall|k: int| 0 <= k < j ==> is_ws(s[k]),
        j < s.len() ==> !is_ws(s[j]),
    ensures
        ws_len(s) == j,
    decreases j,
{
    if j > 0 {
        lemma_ws_len_at(s.drop_first(), j - 1);
    } else {
        if s.len() > 0 && is_ws(s[0]) {
            assert(j == s.len());
        }
    }
}

proof fn lemma_word_len_at(s: Seq<char>, j: int)
    requires
        0 <= j <= s.len(),
        forall|k: int| 0 <= k < j ==> !is_ws(s[k]),
        j < s.len() ==> is_ws(s[j]),
    ensures
        word_len(s) == j,
    decreases j,
{
    if j > 0 {
        lemma_word_len_at(s.drop_first(), j - 1);
    } else {
        if s.len() > 0 && !is_ws(s[0]) {
            assert(j == s.len());
        }
    }
}

/// What the header line of a logo file advertises: its first two
/// whitespace-separated tokens read as 16-bit row and column counts, or
/// nothing when a token is missing or does not parse.
pub open spec fn header_rows_cols(line: Seq<char>) -> Option<(nat, nat)> {
    let rest1 = line.skip(ws_len(line) as int);
    let w1 = word_len(rest1) as int;
    if w1 == 0 {
        None
    } else {
        let tok1 = rest1.take(w1);
        let rest2 = rest1.skip(w1);
        let rest3 = rest2.skip(ws_len(rest2) as int);
        let w2 = word_len(rest3) as int;
        if w2 == 0 {
            None
        } else {
            let tok2 = rest3.take(w2);
            if parses_u16(tok1) && parses_u16(tok2) {
                Some((u16_value(tok1), u16_value(tok2)))
            } else {
                None
            }
        }
    }
}

/// A selected logo: the row and column counts its header advertises, and
/// the art lines that follow the header.
pub struct Logo {
    pub rows: u16,
    pub cols: u16,
    pub content: Vec<String>,
}

/// Find the end of the whitespace run beginning at `from`.
fn scan_ws(s: &str, from: usize, n: usize) -> (r: usize)
    requires
        from <= n,
        n == s@.len(),
    ensures
        from <= r <= n,
        ws_len(s@.skip(from as int)) == r - from,
{
    let mut i: usize = from;
    while i < n && is_ws_char(s.get_char(i))
        invariant
            from <= i <= n,
            n == s@.len(),
            forall|k: int| from <= k < i ==> is_ws(s@[k]),
        decreases n - i,
    {
        i = i + 1;
    }
    proof {
        let t = s@.skip(from as int);
        assert forall|k: int| 0 <= k < i - from implies is_ws(t[k]) by {
            assert(t[k] == s@[from + k]);
        }
        if (i as int) < n {
            assert(t[i - from] == s@[i as int]);
        }
        lemma_ws_len_at(t, i - from);
    }
    i
}

/// Find the end of the non-whitespace run beginning at `from`.
fn scan_word(s: &str, from: usize, n: usize) -> (r: usize)
    requires
        from <= n,
        n == s@.len(),
    ensures
        from <= r <= n,
        word_len(s@.skip(from as int)) == r - from,
{
    let mut i: usize = from;
    while i < n && !is_ws_char(s.get_char(i))
        invariant
            from <= i <= n,
            n == s@.len(),
            forall|k: int| from <= k < i ==> !is_ws(s@[k]),
        decreases n - i,
    {
        i = i + 1;
    }
    proof {
        let t = s@.skip(from as int);
        assert forall|k: int| 0 <= k < i - from implies !is_ws(t[k]) by {
            assert(t[k] == s@[from + k]);
        }
        if (i as int) < n {
            assert(t[i - from] == s@[i as int]);
        }
        lemma_word_len_at(t, i - from);
    }
    i
}

/// Read a logo file: the first line must advertise row and column counts
/// as its first two whitespace-separated tokens; the remaining lines are
/// the art. `None` when the text has no lines or the header does not
/// parse; in particular an art table's empty fallback entry has no lines.
#[verifier::rlimit(50)]
pub fn get_logo(art: &str) -> (r: Option<Logo>)
    ensures
        r is Some <==> split_lines(art@).len() > 0 && header_rows_cols(split_lines(art@)[0])
            is Some,
        r matches Some(l) ==> header_rows_cols(split_lines(art@)[0]) == Some(
            (l.rows as nat, l.cols as nat),
        ) && l.content.deep_view() == split_lines(art@).drop_first(),
{
    let lines = lines_of(art);
    if lines.len() == 0 {
        return None;
    }
    let ghost line0 = split_lines(art@)[0];
    let header: &String = &lines[0];
    proof {
        assert(header@ == lines.deep_view()[0]);
    }
    let hn: usize = header.as_str().unicode_len();
    let a: usize = scan_ws(header.as_str(), 0, hn);
    let b: usize = scan_word(header.as_str(), a, hn);
    proof {
        assert(header@.skip(0) =~= header@);
    }
    if b == a {
        return None;
    }
    let tok1: &str = header.as_str().substring_char(a, b);
    proof {
        assert(tok1@ =~= header@.skip(a as int).take(b - a));
    }
    let rows: u16 = match parse_u16(tok1) {
        None => {
            return None;
        },
        Some(v) => v,
    };
    let c: usize = scan_ws(header.as_str(), b, hn);
    let d: usize = scan_word(header.as_str(), c, hn);
    proof {
        let rest1 = header@.skip(a as int);
        let rest2 = rest1.skip(b - a);
        assert(rest2 =~= header@.skip(b as int));
        let rest3 = rest2.skip(ws_len(rest2) as int);
        assert(rest3 =~= header@.skip(c as int));
    }
    if d == c {
        return None;
    }
    let tok2: &str = header.as_str().substring_char(c, d);
    proof {
        assert(tok2@ =~= header@.skip(c as int).take(d - c));
    }
    let cols: u16 = match parse_u16(tok2) {
        None => {
            return None;
        },
        Some(v) => v,
    };
    let mut content: Vec<String> = Vec::new();
    let mut i: usize = 1;
    while i < lines.len()
        invariant
            1 <= i <= lines@.len(),
            content.deep_view() == lines.deep_view().subrange(1, i as int),
        decreases lines@.len() - i,
    {
        let ghost old_dv = content.deep_view();
        content.push(lines[i].clone());
        proof {
            assert(content.deep_view() =~= old_dv.push(lines.deep_view()[i as int]));
            assert(content.deep_view() =~= lines.deep_view().subrange(1, i + 1));
        }
        i = i + 1;
    }
    proof {
        assert(content.deep_view() =~= split_lines(art@).drop_first());
    }
    Some(Logo { rows, cols, content })
}

} // verus!
