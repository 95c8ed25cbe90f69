use vstd::prelude::*;
use vstd::string::*;

use crate::error::{rv, Failure, ParseError};

verus! {

/// Whitespace as `char::is_whitespace` defines it (the Unicode `White_Space` property).
pub open spec fn is_ws(c: char) -> bool {
    ('\u{9}' <= c && c <= '\u{d}') || c == ' ' || c == '\u{85}' || c == '\u{a0}'
        || c == '\u{1680}' || ('\u{2000}' <= c && c <= '\u{200a}') || c == '\u{2028}'
        || c == '\u{2029}' || c == '\u{202f}' || c == '\u{205f}' || c == '\u{3000}'
}

pub fn is_whitespace(c: char) -> (r: bool)
    ensures
        r == is_ws(c),
{
    ('\u{9}' <= c && c <= '\u{d}') || c == ' ' || c == '\u{85}' || c == '\u{a0}'
        || c == '\u{1680}' || ('\u{2000}' <= c && c <= '\u{200a}') || c == '\u{2028}'
        || c == '\u{2029}' || c == '\u{202f}' || c == '\u{205f}' || c == '\u{3000}'
}

pub open spec fn is_digit(c: char) -> bool {
    '0' <= c && c <= '9'
}

/// `c` equals the keyword character `k` up to ASCII case (`k` is lower case).
pub open spec fn same_no_case(c: char, k: char) -> bool {
    c == k || ('a' <= k && k <= 'z' && (c as u32) + 32 == (k as u32))
}

fn same_no_case_exec(c: char, k: char) -> (r: bool)
    ensures
        r == same_no_case(c, k),
{
    c == k || ('a' <= k && k <= 'z' && (c as u32) + 32 == (k as u32))
}

/// The text being parsed, both as a string and as its characters.
pub struct Source<'a> {
    pub text: &'a str,
    pub chars: Vec<char>,
}

impl<'a> Source<'a> {
    pub open spec fn wf(&self) -> bool {
        self.chars@ == self.text@
    }

    pub fn new(text: &'a str) -> (r: Source<'a>)
        ensures
            r.wf(),
            r.text == text,
    {
        let n = text.unicode_len();
        let mut chars: Vec<char> = Vec::new();
        let mut i: usize = 0;
        while i < n
            invariant
                n == text@.len(),
                i <= n,
                chars@ == text@.subrange(0, i as int),
            decreases n - i,
        {
            chars.push(text.get_char(i));
            i = i + 1;
        }
        assert(chars@ == text@);
        Source { text, chars }
    }

    /// The characters from `a` up to `b` as a new string.
    pub fn slice(&self, a: usize, b: usize) -> (r: String)
        requires
            self.wf(),
            a <= b <= self.chars@.len(),
        ensures
            r@ == self.chars@.subrange(a as int, b as int),
    {
        self.text.substring_char(a, b).to_owned()
    }
}

/// A position in one line of the text: the row, the column origin `base`, the next
/// character `pos`, and the end of what may be read `end`.
#[derive(Clone, Copy, Debug, PartialEq, Eq)]
pub struct Cursor {
    pub row: usize,
    pub base: usize,
    pub pos: usize,
    pub end: usize,
}

impl View for Cursor {
    type V = Cursor;

    open spec fn view(&self) -> Cursor {
        *self
    }
}

pub open spec fn cur_wf(s: Seq<char>, c: Cursor) -> bool {
    c.base <= c.pos <= c.end <= s.len()
}

/// The column of the cursor in its line.
pub open spec fn col(c: Cursor) -> usize {
    (c.pos - c.base) as usize
}

pub open spec fn rest(s: Seq<char>, c: Cursor) -> Seq<char> {
    s.subrange(c.pos as int, c.end as int)
}

pub open spec fn at(c: Cursor, pos: int) -> Cursor {
    Cursor { pos: pos as usize, ..c }
}

/// "`msg` expected" at the cursor's column.
pub open spec fn fail_at(msg: Seq<char>, c: Cursor) -> Failure {
    Failure::Msg { msg, row: c.row, span: Some((col(c), col(c))) }
}

/// "`ch` expected" at the cursor's column.
pub open spec fn fail_char_at(ch: char, c: Cursor) -> Failure {
    Failure::Char { character: ch, row: c.row, span: Some((col(c), col(c))) }
}

/// The first index from `i` on (before `end`) that holds no whitespace, or `end`.
pub open spec fn ws_run_end(s: Seq<char>, i: int, end: int) -> int
    decreases end - i,
{
    if i < end && is_ws(s[i]) {
        ws_run_end(s, i + 1, end)
    } else {
        i
    }
}

pub proof fn lemma_ws_run(s: Seq<char>, i: int, end: int)
    requires
        i <= end,
    ensures
        i <= ws_run_end(s, i, end) <= end,
    decreases end - i,
{
    if i < end && is_ws(s[i]) {
        lemma_ws_run(s, i + 1, end);
    }
}

pub proof fn ws_run_stops(s: Seq<char>, i: int, end: int)
    requires
        i <= end,
    ensures
        i <= ws_run_end(s, i, end) <= end,
        ws_run_end(s, i, end) == end || !is_ws(s[ws_run_end(s, i, end)]),
        i < end && is_ws(s[i]) ==> i < ws_run_end(s, i, end),
    decreases end - i,
{
    if i < end && is_ws(s[i]) {
        ws_run_stops(s, i + 1, end);
    }
}

pub proof fn find_char_bounds(s: Seq<char>, i: int, end: int, ch: char)
    requires
        i <= end,
    ensures
        i <= find_char(s, i, end, ch) <= end,
    decreases end - i,
{
    if i < end && s[i] != ch {
        find_char_bounds(s, i + 1, end, ch);
    }
}

/// The cursor `d` lies at or after `c`, on the same line.
pub open spec fn moved(c: Cursor, d: Cursor) -> bool {
    c.row == d.row && c.base == d.base && c.pos <= d.pos <= d.end == c.end
}

pub broadcast proof fn trim_start_moves(s: Seq<char>, c: Cursor)
    requires
        c.pos <= c.end,
    ensures
        #![trigger sp_trim_start(s, c)]
        moved(c, sp_trim_start(s, c)),
{
    ws_run_stops(s, c.pos as int, c.end as int);
}

pub broadcast proof fn space_moves(s: Seq<char>, c: Cursor)
    requires
        c.pos <= c.end,
    ensures
        #[trigger] sp_space(s, c) matches Ok(d) ==> moved(c, d) && c.pos < d.pos,
{
    ws_run_stops(s, c.pos as int, c.end as int);
}

pub broadcast proof fn space_or_end_moves(s: Seq<char>, c: Cursor)
    requires
        c.pos <= c.end,
    ensures
        #[trigger] sp_space_or_end(s, c) matches Ok(d) ==> moved(c, d),
{
    ws_run_stops(s, c.pos as int, c.end as int);
}

pub broadcast proof fn read_between_moves(s: Seq<char>, c: Cursor, open: char, close: char)
    requires
        c.pos <= c.end,
    ensures
        #[trigger] sp_read_between(s, c, open, close) matches Ok((d, _, _)) ==> moved(c, d),
{
    if c.pos < c.end {
        find_char_bounds(s, c.pos + 1, c.end as int, close);
    }
}

/// The last index down from `j` (after `start`) that follows no whitespace, or `start`.
pub open spec fn ws_run_start(s: Seq<char>, start: int, j: int) -> int
    decreases j - start,
{
    if start < j && is_ws(s[j - 1]) {
        ws_run_start(s, start, j - 1)
    } else {
        j
    }
}

/// The first index from `i` on (before `end`) that holds `ch`, or `end`.
pub open spec fn find_char(s: Seq<char>, i: int, end: int, ch: char) -> int
    decreases end - i,
{
    if i < end && s[i] != ch {
        find_char(s, i + 1, end, ch)
    } else {
        i
    }
}

/// The first index from `i` on (before `end`) that holds whitespace, or `end`.
pub open spec fn find_ws(s: Seq<char>, i: int, end: int) -> int
    decreases end - i,
{
    if i < end && !is_ws(s[i]) {
        find_ws(s, i + 1, end)
    } else {
        i
    }
}

/// The first index from `i` on (before `end`) that holds no decimal digit, or `end`.
pub open spec fn digit_run_end(s: Seq<char>, i: int, end: int) -> int
    decreases end - i,
{
    if i < end && is_digit(s[i]) {
        digit_run_end(s, i + 1, end)
    } else {
        i
    }
}

pub open spec fn digit_value(c: char) -> nat {
    ((c as u32) - ('0' as u32)) as nat
}

/// The base-10 value of the digits from `a` up to `b`.
pub open spec fn digits_value(s: Seq<char>, a: int, b: int) -> nat
    decreases b - a,
{
    if b <= a {
        0
    } else {
        digits_value(s, a, b - 1) * 10 + digit_value(s[b - 1])
    }
}

pub open spec fn sp_trim_start(s: Seq<char>, c: Cursor) -> Cursor {
    at(c, ws_run_end(s, c.pos as int, c.end as int))
}

pub open spec fn sp_trim(s: Seq<char>, c: Cursor) -> Cursor {
    let t = sp_trim_start(s, c);
    Cursor { end: ws_run_start(s, t.pos as int, t.end as int) as usize, ..t }
}

pub open spec fn starts_with(s: Seq<char>, c: Cursor, lit: Seq<char>) -> bool {
    lit.len() <= c.end - c.pos && forall|i: int| 0 <= i < lit.len() ==> s[c.pos + i] == lit[i]
}

pub open spec fn starts_with_no_case(s: Seq<char>, c: Cursor, lit: Seq<char>) -> bool {
    lit.len() <= c.end - c.pos && forall|i: int|
        0 <= i < lit.len() ==> same_no_case(s[c.pos + i], lit[i])
}

pub open spec fn sp_token(s: Seq<char>, c: Cursor, lit: Seq<char>) -> Result<Cursor, Failure> {
    if starts_with(s, c, lit) {
        Ok(at(c, c.pos + lit.len()))
    } else {
        Err(fail_at(lit, c))
    }
}

pub open spec fn sp_token_no_case(s: Seq<char>, c: Cursor, lit: Seq<char>) -> Result<Cursor, Failure> {
    if starts_with_no_case(s, c, lit) {
        Ok(at(c, c.pos + lit.len()))
    } else {
        Err(fail_at(lit, c))
    }
}

pub open spec fn sp_space(s: Seq<char>, c: Cursor) -> Result<Cursor, Failure> {
    if c.pos < c.end && is_ws(s[c.pos as int]) {
        Ok(sp_trim_start(s, c))
    } else {
        Err(fail_at("whitespace"@, c))
    }
}

pub open spec fn sp_space_or_end(s: Seq<char>, c: Cursor) -> Result<Cursor, Failure> {
    if c.pos == c.end {
        Ok(c)
    } else {
        sp_space(s, c)
    }
}

/// Nothing but whitespace is left.
pub open spec fn sp_end(s: Seq<char>, c: Cursor) -> Result<Cursor, Failure> {
    let t = sp_trim_start(s, c);
    if t.pos == t.end {
        Ok(t)
    } else {
        Err(fail_at("end of line"@, t))
    }
}

/// `open`, then everything up to the next `close` (returned as a range), then `close`.
pub open spec fn sp_read_between(s: Seq<char>, c: Cursor, open: char, close: char) -> Result<
    (Cursor, usize, usize),
    Failure,
> {
    if !(c.pos < c.end && s[c.pos as int] == open) {
        Err(fail_char_at(open, c))
    } else {
        let k = find_char(s, c.pos + 1, c.end as int, close);
        if k == c.end {
            Err(fail_char_at(close, at(c, c.end as int)))
        } else {
            Ok((at(c, k + 1), (c.pos + 1) as usize, k as usize))
        }
    }
}

/// The first of `a` and `b` that starts the text, up to ASCII case, with which one it was.
pub open spec fn sp_first_of(s: Seq<char>, c: Cursor, a: Seq<char>, b: Seq<char>) -> Result<
    (Cursor, bool),
    Failure,
> {
    if starts_with_no_case(s, c, a) {
        Ok((at(c, c.pos + a.len()), true))
    } else if starts_with_no_case(s, c, b) {
        Ok((at(c, c.pos + b.len()), false))
    } else {
        Err(fail_at(one_of_msg(a, b), c))
    }
}

pub open spec fn one_of_msg(a: Seq<char>, b: Seq<char>) -> Seq<char> {
    "one of \""@ + a + "\", \""@ + b + "\""@
}

impl Cursor {
    /// A cursor over the characters `from..to` of row `row`, with columns counted from `from`.
    pub fn new(row: usize, from: usize, to: usize) -> (r: Cursor)
        requires
            from <= to,
        ensures
            r == (Cursor { row, base: from, pos: from, end: to }),
    {
        Cursor { row, base: from, pos: from, end: to }
    }

    pub fn is_empty(&self) -> (r: bool)
        ensures
            r == (self.pos == self.end),
    {
        self.pos == self.end
    }

    pub fn column(&self) -> (r: usize)
        requires
            self.base <= self.pos,
        ensures
            r == col(*self),
    {
        self.pos - self.base
    }

    pub fn peek(&self, s: &Vec<char>) -> (r: Option<char>)
        requires
            cur_wf(s@, *self),
        ensures
            r == (if self.pos < self.end { Some(s@[self.pos as int]) } else { None }),
    {
        if self.pos < self.end {
            Some(s[self.pos])
        } else {
            None
        }
    }

    pub fn advance(&self, n: usize) -> (r: Cursor)
        requires
            n <= self.end - self.pos,
        ensures
            r == at(*self, self.pos + n),
    {
        Cursor { pos: self.pos + n, ..*self }
    }

    /// "`msg` expected" here.
    pub fn expected(&self, msg: &str) -> (r: ParseError)
        requires
            self.base <= self.pos,
        ensures
            r@ == fail_at(msg@, *self),
    {
        ParseError::expected(msg, self.row, self.pos - self.base)
    }

    pub fn trim_start(&self, s: &Vec<char>) -> (r: Cursor)
        requires
            cur_wf(s@, *self),
        ensures
            r == sp_trim_start(s@, *self),
            cur_wf(s@, r),
            self.pos <= r.pos,
            self.pos < self.end && is_ws(s@[self.pos as int]) ==> self.pos < r.pos,
            r.pos < r.end ==> !is_ws(s@[r.pos as int]),
    {
        if self.pos < self.end {
            proof {
                lemma_ws_run(s@, self.pos + 1, self.end as int);
            }
        }
        let mut i = self.pos;
        while i < self.end && is_whitespace(s[i])
            invariant
                self.pos <= i <= self.end <= s@.len(),
                ws_run_end(s@, i as int, self.end as int) == ws_run_end(
                    s@,
                    self.pos as int,
                    self.end as int,
                ),
            decreases self.end - i,
        {
            i = i + 1;
        }
        Cursor { pos: i, ..*self }
    }

    pub fn trim(&self, s: &Vec<char>) -> (r: Cursor)
        requires
            cur_wf(s@, *self),
        ensures
            r == sp_trim(s@, *self),
            cur_wf(s@, r),
            self.pos <= r.pos,
            r.end <= self.end,
            r.pos < r.end ==> !is_ws(s@[r.pos as int]),
    {
        let t = self.trim_start(s);
        let mut j = t.end;
        while j > t.pos && is_whitespace(s[j - 1])
            invariant
                t.pos <= j <= t.end <= s@.len(),
                ws_run_start(s@, t.pos as int, j as int) == ws_run_start(
                    s@,
                    t.pos as int,
                    t.end as int,
                ),
            decreases j - t.pos,
        {
            j = j - 1;
        }
        Cursor { end: j, ..t }
    }

    pub fn starts_with(&self, s: &Vec<char>, lit: &str) -> (r: bool)
        requires
            cur_wf(s@, *self),
        ensures
            r == starts_with(s@, *self, lit@),
    {
        let n = lit.unicode_len();
        if n > self.end - self.pos {
            return false;
        }
        let mut i: usize = 0;
        while i < n
            invariant
                n == lit@.len(),
                n <= self.end - self.pos,
                cur_wf(s@, *self),
                i <= n,
                forall|k: int| 0 <= k < i ==> s@[self.pos + k] == lit@[k],
            decreases n - i,
        {
            if s[self.pos + i] != lit.get_char(i) {
                return false;
            }
            i = i + 1;
        }
        true
    }

    pub fn starts_with_no_case(&self, s: &Vec<char>, lit: &str) -> (r: bool)
        requires
            cur_wf(s@, *self),
        ensures
            r == starts_with_no_case(s@, *self, lit@),
    {
        let n = lit.unicode_len();
        if n > self.end - self.pos {
            return false;
        }
        let mut i: usize = 0;
        while i < n
            invariant
                n == lit@.len(),
                n <= self.end - self.pos,
                cur_wf(s@, *self),
                i <= n,
                forall|k: int| 0 <= k < i ==> same_no_case(s@[self.pos + k], lit@[k]),
            decreases n - i,
        {
            if !same_no_case_exec(s[self.pos + i], lit.get_char(i)) {
                return false;
            }
            i = i + 1;
        }
        true
    }
    pub fn token(&self, s: &Vec<char>, lit: &str) -> (r: Result<Cursor, ParseError>)
        requires
            cur_wf(s@, *self),
        ensures
            rv(r) == sp_token(s@, *self, lit@),
            r matches Ok(c) ==> cur_wf(s@, c),
    {
        if self.starts_with(s, lit) {
            Ok(self.advance(lit.unicode_len()))
        } else {
            Err(self.expected(lit))
        }
    }

    pub fn token_no_case(&self, s: &Vec<char>, lit: &str) -> (r: Result<Cursor, ParseError>)
        requires
            cur_wf(s@, *self),
        ensures
            rv(r) == sp_token_no_case(s@, *self, lit@),
            r matches Ok(c) ==> cur_wf(s@, c),
    {
        if self.starts_with_no_case(s, lit) {
            Ok(self.advance(lit.unicode_len()))
        } else {
            Err(self.expected(lit))
        }
    }

    /// One run of whitespace, which must not be empty.
    pub fn space(&self, s: &Vec<char>) -> (r: Result<Cursor, ParseError>)
        requires
            cur_wf(s@, *self),
        ensures
            rv(r) == sp_space(s@, *self),
            r matches Ok(c) ==> cur_wf(s@, c) && self.pos < c.pos,
    {
        if self.pos < self.end && is_whitespace(s[self.pos]) {
            Ok(self.trim_start(s))
        } else {
            Err(self.expected("whitespace"))
        }
    }

    /// One run of whitespace, or the end of the text.
    pub fn space_or_end(&self, s: &Vec<char>) -> (r: Result<Cursor, ParseError>)
        requires
            cur_wf(s@, *self),
        ensures
            rv(r) == sp_space_or_end(s@, *self),
            r matches Ok(c) ==> cur_wf(s@, c) && self.pos <= c.pos,
    {
        if self.is_empty() {
            Ok(*self)
        } else {
            self.space(s)
        }
    }

    /// Reads `open`, then up to the next `close`, then `close`; returns the range between.
    pub fn read_between(&self, s: &Vec<char>, open: char, close: char) -> (r: Result<
        (Cursor, usize, usize),
        ParseError,
    >)
        requires
            cur_wf(s@, *self),
        ensures
            rv(r) == sp_read_between(s@, *self, open, close),
            r matches Ok((c, a, b)) ==> cur_wf(s@, c) && self.pos + 1 == a && a <= b && b + 1
                == c.pos,
    {
        if !(self.pos < self.end && s[self.pos] == open) {
            return Err(ParseError::expected_char(open, self.row, self.pos - self.base));
        }
        let mut k = self.pos + 1;
        while k < self.end && s[k] != close
            invariant
                self.pos < k <= self.end <= s@.len(),
                find_char(s@, k as int, self.end as int, close) == find_char(
                    s@,
                    self.pos + 1,
                    self.end as int,
                    close,
                ),
            decreases self.end - k,
        {
            k = k + 1;
        }
        if k == self.end {
            Err(ParseError::expected_char(close, self.row, self.end - self.base))
        } else {
            Ok((Cursor { pos: k + 1, ..*self }, self.pos + 1, k))
        }
    }

    /// The first of `a` and `b` that starts the text up to ASCII case; `true` for `a`.
    pub fn first_token_of_no_case(&self, s: &Vec<char>, a: &str, b: &str) -> (r: Result<
        (Cursor, bool),
        ParseError,
    >)
        requires
            cur_wf(s@, *self),
        ensures
            rv(r) == sp_first_of(s@, *self, a@, b@),
            r matches Ok((c, _)) ==> cur_wf(s@, c),
    {
        if self.starts_with_no_case(s, a) {
            Ok((self.advance(a.unicode_len()), true))
        } else if self.starts_with_no_case(s, b) {
            Ok((self.advance(b.unicode_len()), false))
        } else {
            let msg = "one of \"".to_owned().concat(a).concat("\", \"").concat(b).concat("\"");
            Err(ParseError::expected_string(msg, self.row, Some((self.pos - self.base, self.pos - self.base))))
        }
    }

    /// Succeeds only where nothing but whitespace is left.
    pub fn end_of_line(&self, s: &Vec<char>) -> (r: Result<Cursor, ParseError>)
        requires
            cur_wf(s@, *self),
        ensures
            rv(r) == sp_end(s@, *self),
            r matches Ok(c) ==> cur_wf(s@, c) && self.pos <= c.pos,
    {
        let t = self.trim_start(s);
        if t.is_empty() {
            Ok(t)
        } else {
            Err(t.expected("end of line"))
        }
    }
}

} // verus!
