use vstd::prelude::*;

use crate::backends::{check_pattern, regex_accepts, regex_complaint};
use crate::cursor::{
    at, cur_wf, digit_run_end, digits_value, fail_at, is_digit, moved, read_between_moves,
    sp_first_of, sp_read_between, sp_space, sp_space_or_end, sp_token, sp_token_no_case,
    sp_trim_start, space_moves, space_or_end_moves, starts_with_no_case, trim_start_moves,
    ws_run_stops, Cursor, Source,
};
use crate::error::{rv, Failure, ParseError};
use crate::feed::{FilterType, Policy, UpdateSpec, Weekday};

verus! {

/// The value of the run of decimal digits that starts the text (after whitespace).
pub open spec fn sp_number(s: Seq<char>, c0: Cursor) -> Result<(Cursor, usize), Failure> {
    let c = sp_trim_start(s, c0);
    let e = digit_run_end(s, c.pos as int, c.end as int);
    if e == c.pos {
        Err(fail_at("digit"@, c))
    } else if digits_value(s, c.pos as int, e) > usize::MAX {
        Err(fail_at("a number that fits in a usize"@, c))
    } else {
        Ok((at(c, e), digits_value(s, c.pos as int, e) as usize))
    }
}

proof fn lemma_digits_value_grows(s: Seq<char>, a: int, i: int, j: int)
    requires
        a <= i <= j,
    ensures
        digits_value(s, a, i) <= digits_value(s, a, j),
    decreases j - i,
{
    if i < j {
        lemma_digits_value_grows(s, a, i, j - 1);
    }
}

proof fn lemma_digit_run(s: Seq<char>, i: int, end: int)
    ensures
        i <= end ==> i <= digit_run_end(s, i, end) <= end,
    decreases end - i,
{
    if i < end && is_digit(s[i]) {
        lemma_digit_run(s, i + 1, end);
    }
}

pub fn parse_number(s: &Vec<char>, c0: Cursor) -> (r: Result<(Cursor, usize), ParseError>)
    requires
        cur_wf(s@, c0),
    ensures
        rv(r) == sp_number(s@, c0),
        r matches Ok((c, _)) ==> cur_wf(s@, c) && c0.pos < c.pos,
{
    let c = c0.trim_start(s);
    let mut i = c.pos;
    let mut value: usize = 0;
    let mut fits = true;
    proof {
        lemma_digit_run(s@, c.pos as int, c.end as int);
    }
    while i < c.end && '0' <= s[i] && s[i] <= '9'
        invariant
            cur_wf(s@, c),
            c.pos <= i <= c.end,
            digit_run_end(s@, i as int, c.end as int) == digit_run_end(
                s@,
                c.pos as int,
                c.end as int,
            ),
            fits ==> value == digits_value(s@, c.pos as int, i as int),
            !fits ==> digits_value(s@, c.pos as int, i as int) > usize::MAX,
        decreases c.end - i,
    {
        let d = (s[i] as u32 - '0' as u32) as usize;
        proof {
            lemma_digits_value_grows(s@, c.pos as int, i as int, i + 1);
        }
        if fits {
            match value.checked_mul(10) {
                Some(m) => match m.checked_add(d) {
                    Some(v) => {
                        value = v;
                    },
                    None => {
                        fits = false;
                    },
                },
                None => {
                    proof {
                        assert(digits_value(s@, c.pos as int, i + 1) >= value * 10);
                    }
                    fits = false;
                },
            }
        }
        i = i + 1;
    }
    if i == c.pos {
        Err(c.expected("digit"))
    } else if !fits {
        Err(c.expected("a number that fits in a usize"))
    } else {
        Ok((c.advance(i - c.pos), value))
    }
}

/// A full English day name, in any ASCII case.
pub open spec fn sp_weekday(s: Seq<char>, c: Cursor) -> Result<(Cursor, Weekday), Failure> {
    if starts_with_no_case(s, c, "sunday"@) {
        Ok((at(c, c.pos + 6), Weekday::Sun))
    } else if starts_with_no_case(s, c, "monday"@) {
        Ok((at(c, c.pos + 6), Weekday::Mon))
    } else if starts_with_no_case(s, c, "tuesday"@) {
        Ok((at(c, c.pos + 7), Weekday::Tue))
    } else if starts_with_no_case(s, c, "wednesday"@) {
        Ok((at(c, c.pos + 9), Weekday::Wed))
    } else if starts_with_no_case(s, c, "thursday"@) {
        Ok((at(c, c.pos + 8), Weekday::Thu))
    } else if starts_with_no_case(s, c, "friday"@) {
        Ok((at(c, c.pos + 6), Weekday::Fri))
    } else if starts_with_no_case(s, c, "saturday"@) {
        Ok((at(c, c.pos + 8), Weekday::Sat))
    } else {
        Err(fail_at("a weekday"@, c))
    }
}

pub fn parse_weekday(s: &Vec<char>, c: Cursor) -> (r: Result<(Cursor, Weekday), ParseError>)
    requires
        cur_wf(s@, c),
    ensures
        rv(r) == sp_weekday(s@, c),
        r matches Ok((d, _)) ==> cur_wf(s@, d) && c.pos < d.pos,
{
    proof {
        reveal_strlit("sunday");
        reveal_strlit("monday");
        reveal_strlit("tuesday");
        reveal_strlit("wednesday");
        reveal_strlit("thursday");
        reveal_strlit("friday");
        reveal_strlit("saturday");
    }
    if c.starts_with_no_case(s, "sunday") {
        Ok((c.advance(6), Weekday::Sun))
    } else if c.starts_with_no_case(s, "monday") {
        Ok((c.advance(6), Weekday::Mon))
    } else if c.starts_with_no_case(s, "tuesday") {
        Ok((c.advance(7), Weekday::Tue))
    } else if c.starts_with_no_case(s, "wednesday") {
        Ok((c.advance(9), Weekday::Wed))
    } else if c.starts_with_no_case(s, "thursday") {
        Ok((c.advance(8), Weekday::Thu))
    } else if c.starts_with_no_case(s, "friday") {
        Ok((c.advance(6), Weekday::Fri))
    } else if c.starts_with_no_case(s, "saturday") {
        Ok((c.advance(8), Weekday::Sat))
    } else {
        Err(c.expected("a weekday"))
    }
}

pub broadcast proof fn number_moves(s: Seq<char>, c: Cursor)
    requires
        c.pos <= c.end,
    ensures
        #[trigger] sp_number(s, c) matches Ok((d, _)) ==> moved(c, d),
{
    ws_run_stops(s, c.pos as int, c.end as int);
    let t = sp_trim_start(s, c);
    lemma_digit_run(s, t.pos as int, t.end as int);
}

pub broadcast proof fn weekday_moves(s: Seq<char>, c: Cursor)
    requires
        c.pos <= c.end,
    ensures
        #[trigger] sp_weekday(s, c) matches Ok((d, _)) ==> moved(c, d),
{
    reveal_strlit("sunday");
    reveal_strlit("monday");
    reveal_strlit("tuesday");
    reveal_strlit("wednesday");
    reveal_strlit("thursday");
    reveal_strlit("friday");
    reveal_strlit("saturday");
}

proof fn clause_moves(s: Seq<char>, c: Cursor)
    requires
        c.pos <= c.end,
    ensures
        sp_clause(s, c) matches Ok((d, _)) ==> moved(c, d),
{
    broadcast use trim_start_moves, space_moves, space_or_end_moves, read_between_moves,
        number_moves, weekday_moves;

    if starts_with_no_case(s, c, "on"@) {
        assert(sp_on(s, c) matches Ok((d, _)) ==> moved(c, d));
    } else if starts_with_no_case(s, c, "every"@) {
        assert(sp_counted(s, c, "every"@, "days"@, "day"@) matches Ok((d, _)) ==> moved(c, d));
    } else if starts_with_no_case(s, c, "overlap"@) {
        assert(sp_counted(s, c, "overlap"@, "comics"@, "comic"@) matches Ok((d, _)) ==> moved(
            c,
            d,
        ));
    } else if starts_with_no_case(s, c, "keep"@) || starts_with_no_case(s, c, "ignore"@) {
        assert(sp_filter(s, c) matches Ok((d, _)) ==> moved(c, d));
    } else if starts_with_no_case(s, c, "open"@) {
        assert(sp_open_all(s, c) matches Ok((d, _)) ==> moved(c, d));
    } else if c.pos < c.end && is_digit(s[c.pos as int]) {
        assert(sp_new_comics(s, c) matches Ok((d, _)) ==> moved(c, d));
    }
}

/// A policy clause, when it is read, moves past at least its `@` and stays on its line.
pub proof fn policy_moves(s: Seq<char>, c: Cursor)
    requires
        c.pos <= c.end,
    ensures
        sp_policy(s, c) matches Ok((d, _)) ==> moved(c, d) && c.pos < d.pos,
{
    broadcast use trim_start_moves, space_moves;

    reveal_strlit("@");
    let t = sp_trim_start(s, c);
    if let Ok(c1) = sp_token(s, t, "@"@) {
        if let Ok(c2) = sp_space(s, c1) {
            clause_moves(s, c2);
        }
    }
}

/// The accepted forms of a policy clause, listed when none of them matches.
pub const POLICY_FORMS: &'static str = "a policy definition. One of:\n - \"@ on WEEKDAY\"\n - \"@ every # day(s)\"\n - \"@ overlap # comic(s)\"\n - \"@ keep|ignore title|url DpatternD\" (D: any character)\n - \"@ open all\"\n - \"@ # new comic(s)\"";

/// `on WEEKDAY`
pub open spec fn sp_on(s: Seq<char>, c: Cursor) -> Result<(Cursor, Policy), Failure> {
    match sp_token_no_case(s, c, "on"@) {
        Err(e) => Err(e),
        Ok(c1) => match sp_space(s, c1) {
            Err(e) => Err(e),
            Ok(c2) => match sp_weekday(s, c2) {
                Err(e) => Err(e),
                Ok((c3, d)) => match sp_space_or_end(s, c3) {
                    Err(e) => Err(e),
                    Ok(c4) => Ok((c4, Policy::On(d))),
                },
            },
        },
    }
}

/// `KEYWORD N NOUN`, where the noun is `plural` or `singular`; gives N.
pub open spec fn sp_counted(
    s: Seq<char>,
    c: Cursor,
    keyword: Seq<char>,
    plural: Seq<char>,
    singular: Seq<char>,
) -> Result<(Cursor, usize), Failure> {
    match sp_token_no_case(s, c, keyword) {
        Err(e) => Err(e),
        Ok(c1) => match sp_space(s, c1) {
            Err(e) => Err(e),
            Ok(c2) => match sp_number(s, c2) {
                Err(e) => Err(e),
                Ok((c3, n)) => match sp_space(s, c3) {
                    Err(e) => Err(e),
                    Ok(c4) => match sp_first_of(s, c4, plural, singular) {
                        Err(e) => Err(e),
                        Ok((c5, _)) => match sp_space_or_end(s, c5) {
                            Err(e) => Err(e),
                            Ok(c6) => Ok((c6, n)),
                        },
                    },
                },
            },
        },
    }
}

/// `open all`
pub open spec fn sp_open_all(s: Seq<char>, c: Cursor) -> Result<(Cursor, Policy), Failure> {
    match sp_token_no_case(s, c, "open"@) {
        Err(e) => Err(e),
        Ok(c1) => match sp_space(s, c1) {
            Err(e) => Err(e),
            Ok(c2) => match sp_token_no_case(s, c2, "all"@) {
                Err(e) => Err(e),
                Ok(c3) => match sp_space_or_end(s, c3) {
                    Err(e) => Err(e),
                    Ok(c4) => Ok((c4, Policy::OpenAll)),
                },
            },
        },
    }
}

/// `N new comic(s)`
pub open spec fn sp_new_comics(s: Seq<char>, c: Cursor) -> Result<(Cursor, Policy), Failure> {
    match sp_number(s, c) {
        Err(e) => Err(e),
        Ok((c1, n)) => match sp_token_no_case(s, sp_trim_start(s, c1), "new"@) {
            Err(e) => Err(e),
            Ok(c2) => match sp_space(s, c2) {
                Err(e) => Err(e),
                Ok(c3) => match sp_first_of(s, c3, "comics"@, "comic"@) {
                    Err(e) => Err(e),
                    Ok((c4, _)) => match sp_space_or_end(s, c4) {
                        Err(e) => Err(e),
                        Ok(c5) => Ok((c5, Policy::Comics(n))),
                    },
                },
            },
        },
    }
}

pub open spec fn filter_kind(keep: bool, url: bool) -> FilterType {
    if keep {
        if url {
            FilterType::KeepUrl
        } else {
            FilterType::KeepTitle
        }
    } else {
        if url {
            FilterType::IgnoreUrl
        } else {
            FilterType::IgnoreTitle
        }
    }
}

/// What a filter clause yields once its pattern `pat` has been judged by the regex engine.
pub open spec fn sp_verdict(kind: FilterType, pat: Seq<char>, accepted: bool, complaint: Seq<char>, c: Cursor) -> Result<(Cursor, Policy), Failure> {
    if accepted {
        Ok((c, Policy::Filter(kind, pat)))
    } else {
        Err(fail_at("/"@ + pat + "/ to be a valid pattern: "@ + complaint, c))
    }
}

/// `keep|ignore url|title DPATTERND`, for any delimiter `D`.
pub open spec fn sp_filter(s: Seq<char>, c: Cursor) -> Result<(Cursor, Policy), Failure> {
    match sp_first_of(s, c, "keep"@, "ignore"@) {
        Err(e) => Err(e),
        Ok((c1, keep)) => match sp_space(s, c1) {
            Err(e) => Err(e),
            Ok(c2) => match sp_first_of(s, c2, "url"@, "title"@) {
                Err(e) => Err(e),
                Ok((c3, url)) => match sp_space(s, c3) {
                    Err(e) => Err(e),
                    Ok(c4) => if c4.pos == c4.end {
                        Err(fail_at("a pattern"@, c4))
                    } else {
                        let d = s[c4.pos as int];
                        match sp_read_between(s, c4, d, d) {
                            Err(e) => Err(e),
                            Ok((c5, a, b)) => {
                                let pat = s.subrange(a as int, b as int);
                                match sp_verdict(
                                    filter_kind(keep, url),
                                    pat,
                                    regex_accepts(pat),
                                    regex_complaint(pat),
                                    c5,
                                ) {
                                    Err(e) => Err(e),
                                    Ok((c6, p)) => match sp_space_or_end(s, c6) {
                                        Err(e) => Err(e),
                                        Ok(c7) => Ok((c7, p)),
                                    },
                                }
                            },
                        }
                    },
                },
            },
        },
    }
}

/// One clause after `@ `, by the first keyword that starts it.
pub open spec fn sp_clause(s: Seq<char>, c: Cursor) -> Result<(Cursor, Policy), Failure> {
    if starts_with_no_case(s, c, "on"@) {
        sp_on(s, c)
    } else if starts_with_no_case(s, c, "every"@) {
        match sp_counted(s, c, "every"@, "days"@, "day"@) {
            Err(e) => Err(e),
            Ok((c1, n)) => Ok((c1, Policy::Every(n))),
        }
    } else if starts_with_no_case(s, c, "overlap"@) {
        match sp_counted(s, c, "overlap"@, "comics"@, "comic"@) {
            Err(e) => Err(e),
            Ok((c1, n)) => Ok((c1, Policy::Overlap(n))),
        }
    } else if starts_with_no_case(s, c, "keep"@) || starts_with_no_case(s, c, "ignore"@) {
        sp_filter(s, c)
    } else if starts_with_no_case(s, c, "open"@) {
        sp_open_all(s, c)
    } else if c.pos < c.end && is_digit(s[c.pos as int]) {
        sp_new_comics(s, c)
    } else {
        Err(
            Failure::Msg {
                msg: POLICY_FORMS@,
                row: c.row,
                span: Some(((c.pos - c.base) as usize, (c.end - c.base) as usize)),
            },
        )
    }
}

/// `@ CLAUSE`, after optional whitespace.
pub open spec fn sp_policy(s: Seq<char>, c: Cursor) -> Result<(Cursor, Policy), Failure> {
    match sp_token(s, sp_trim_start(s, c), "@"@) {
        Err(e) => Err(e),
        Ok(c1) => match sp_space(s, c1) {
            Err(e) => Err(e),
            Ok(c2) => sp_clause(s, c2),
        },
    }
}

fn parse_counted(s: &Vec<char>, c: Cursor, keyword: &str, plural: &str, singular: &str) -> (r: Result<(Cursor, usize), ParseError>)
    requires
        cur_wf(s@, c),
    ensures
        rv(r) == sp_counted(s@, c, keyword@, plural@, singular@),
        r matches Ok((d, _)) ==> cur_wf(s@, d) && c.pos < d.pos && d.end == c.end,
{
    let c1 = c.token_no_case(s, keyword)?;
    let c2 = c1.space(s)?;
    let (c3, n) = parse_number(s, c2)?;
    let c4 = c3.space(s)?;
    let (c5, _) = c4.first_token_of_no_case(s, plural, singular)?;
    let c6 = c5.space_or_end(s)?;
    Ok((c6, n))
}

fn filter_kind_exec(keep: bool, url: bool) -> (r: FilterType)
    ensures
        r == filter_kind(keep, url),
{
    if keep {
        if url {
            FilterType::KeepUrl
        } else {
            FilterType::KeepTitle
        }
    } else {
        if url {
            FilterType::IgnoreUrl
        } else {
            FilterType::IgnoreTitle
        }
    }
}

/// The filter clause for pattern `pat`, given the regex engine's `verdict` on it: the
/// filter itself, or an error at `c` that quotes the pattern and the engine's complaint.
pub fn pattern_verdict(kind: FilterType, pat: String, verdict: Result<(), String>, c: Cursor) -> (r: Result<(Cursor, UpdateSpec), ParseError>)
    requires
        c.base <= c.pos,
    ensures
        rv(r) == sp_verdict(
            kind,
            pat@,
            verdict is Ok,
            match verdict {
                Err(m) => m@,
                Ok(_) => Seq::empty(),
            },
            c,
        ),
{
    match verdict {
        Ok(()) => Ok((c, UpdateSpec::Filter(kind, pat))),
        Err(m) => {
            let msg = "/".to_owned().concat(pat.as_str()).concat("/ to be a valid pattern: ").concat(m.as_str());
            let col = c.pos - c.base;
            Err(ParseError::expected_string(msg, c.row, Some((col, col))))
        },
    }
}

fn parse_filter(src: &Source, c: Cursor) -> (r: Result<(Cursor, UpdateSpec), ParseError>)
    requires
        src.wf(),
        cur_wf(src.chars@, c),
    ensures
        rv(r) == sp_filter(src.chars@, c),
        r matches Ok((d, _)) ==> cur_wf(src.chars@, d) && c.pos < d.pos && d.end == c.end,
{
    let s = &src.chars;
    let (c1, keep) = c.first_token_of_no_case(s, "keep", "ignore")?;
    let c2 = c1.space(s)?;
    let (c3, url) = c2.first_token_of_no_case(s, "url", "title")?;
    let c4 = c3.space(s)?;
    let d = match c4.peek(s) {
        Some(d) => d,
        None => {
            return Err(c4.expected("a pattern"));
        },
    };
    let (c5, a, b) = c4.read_between(s, d, d)?;
    let pat = src.slice(a, b);
    let verdict = check_pattern(pat.as_str());
    let (c6, p) = pattern_verdict(filter_kind_exec(keep, url), pat, verdict, c5)?;
    let c7 = c6.space_or_end(s)?;
    Ok((c7, p))
}

fn parse_on(s: &Vec<char>, c: Cursor) -> (r: Result<(Cursor, UpdateSpec), ParseError>)
    requires
        cur_wf(s@, c),
    ensures
        rv(r) == sp_on(s@, c),
        r matches Ok((d, _)) ==> cur_wf(s@, d) && c.pos < d.pos && d.end == c.end,
{
    let c1 = c.token_no_case(s, "on")?;
    let c2 = c1.space(s)?;
    let (c3, d) = parse_weekday(s, c2)?;
    let c4 = c3.space_or_end(s)?;
    Ok((c4, UpdateSpec::On(d)))
}

fn parse_open_all(s: &Vec<char>, c: Cursor) -> (r: Result<(Cursor, UpdateSpec), ParseError>)
    requires
        cur_wf(s@, c),
    ensures
        rv(r) == sp_open_all(s@, c),
        r matches Ok((d, _)) ==> cur_wf(s@, d) && c.pos < d.pos && d.end == c.end,
{
    let c1 = c.token_no_case(s, "open")?;
    let c2 = c1.space(s)?;
    let c3 = c2.token_no_case(s, "all")?;
    let c4 = c3.space_or_end(s)?;
    Ok((c4, UpdateSpec::OpenAll))
}

fn parse_new_comics(s: &Vec<char>, c: Cursor) -> (r: Result<(Cursor, UpdateSpec), ParseError>)
    requires
        cur_wf(s@, c),
    ensures
        rv(r) == sp_new_comics(s@, c),
        r matches Ok((d, _)) ==> cur_wf(s@, d) && c.pos < d.pos && d.end == c.end,
{
    let (c1, n) = parse_number(s, c)?;
    let c2 = c1.trim_start(s).token_no_case(s, "new")?;
    let c3 = c2.space(s)?;
    let (c4, _) = c3.first_token_of_no_case(s, "comics", "comic")?;
    let c5 = c4.space_or_end(s)?;
    Ok((c5, UpdateSpec::Comics(n)))
}

fn parse_clause(src: &Source, c: Cursor) -> (r: Result<(Cursor, UpdateSpec), ParseError>)
    requires
        src.wf(),
        cur_wf(src.chars@, c),
    ensures
        rv(r) == sp_clause(src.chars@, c),
        r matches Ok((d, _)) ==> cur_wf(src.chars@, d) && c.pos < d.pos && d.end == c.end,
{
    let s = &src.chars;
    if c.starts_with_no_case(s, "on") {
        parse_on(s, c)
    } else if c.starts_with_no_case(s, "every") {
        let (c1, n) = parse_counted(s, c, "every", "days", "day")?;
        Ok((c1, UpdateSpec::Every(n)))
    } else if c.starts_with_no_case(s, "overlap") {
        let (c1, n) = parse_counted(s, c, "overlap", "comics", "comic")?;
        Ok((c1, UpdateSpec::Overlap(n)))
    } else if c.starts_with_no_case(s, "keep") || c.starts_with_no_case(s, "ignore") {
        parse_filter(src, c)
    } else if c.starts_with_no_case(s, "open") {
        parse_open_all(s, c)
    } else if c.pos < c.end && '0' <= s[c.pos] && s[c.pos] <= '9' {
        parse_new_comics(s, c)
    } else {
        Err(ParseError::expected(POLICY_FORMS, c.row, (c.pos - c.base, c.end - c.base)))
    }
}

/// One `@ CLAUSE` policy.
pub fn parse_policy(src: &Source, c: Cursor) -> (r: Result<(Cursor, UpdateSpec), ParseError>)
    requires
        src.wf(),
        cur_wf(src.chars@, c),
    ensures
        rv(r) == sp_policy(src.chars@, c),
        r matches Ok((d, _)) ==> cur_wf(src.chars@, d) && c.pos < d.pos && d.end == c.end,
{
    let s = &src.chars;
    let c1 = c.trim_start(s).token(s, "@")?;
    let c2 = c1.space(s)?;
    parse_clause(src, c2)
}

} // verus!
