use vstd::prelude::*;

use crate::backends::{instant_of, parse_instant};
use crate::cursor::{
    find_char_bounds, ws_run_stops, at, cur_wf, fail_at, find_char, find_ws, sp_end, sp_space, sp_space_or_end, sp_token_no_case,
    starts_with_no_case, is_whitespace, is_ws, sp_read_between, sp_trim, sp_trim_start,
    starts_with, Cursor, Source,
};
use crate::error::{rv, Failure, ParseError};
use crate::feed::{
    copy_opt_string, copy_opt_strings, opt_string_view, opt_strings_view, strings_view, Event,
    Feed, FeedEvent, FeedInfo, Policy, Timestamp, UpdateSpec,
};
use crate::policy::{parse_policy, policy_moves, sp_policy};

verus! {

pub open spec fn policies_view(v: Seq<UpdateSpec>) -> Seq<Policy> {
    v.map_values(|p: UpdateSpec| p@)
}

/// The distinct members of `ps`, each at its first occurrence.
pub open spec fn distinct_of(ps: Seq<Policy>) -> Seq<Policy>
    decreases ps.len(),
{
    if ps.len() == 0 {
        Seq::empty()
    } else {
        let d = distinct_of(ps.drop_last());
        if d.contains(ps.last()) {
            d
        } else {
            d.push(ps.last())
        }
    }
}

/// Keeps the first occurrence of each policy.
pub fn distinct_policies(v: Vec<UpdateSpec>) -> (r: Vec<UpdateSpec>)
    ensures
        policies_view(r@) == distinct_of(policies_view(v@)),
{
    let mut out: Vec<UpdateSpec> = Vec::new();
    let mut i: usize = 0;
    while i < v.len()
        invariant
            i <= v@.len(),
            policies_view(out@) == distinct_of(policies_view(v@).take(i as int)),
        decreases v@.len() - i,
    {
        let mut found = false;
        let mut j: usize = 0;
        while j < out.len()
            invariant
                j <= out@.len(),
                i < v@.len(),
                found <==> exists|k: int| 0 <= k < j && out@[k]@ == v@[i as int]@,
            decreases out@.len() - j,
        {
            if out[j].same(&v[i]) {
                found = true;
            }
            j = j + 1;
        }
        let ghost ps = policies_view(v@);
        assert(ps.take(i + 1).drop_last() == ps.take(i as int));
        assert(ps.take(i + 1).last() == v@[i as int]@);
        proof {
            if found {
                let k = choose|k: int| 0 <= k < out@.len() && out@[k]@ == v@[i as int]@;
                assert(policies_view(out@)[k] == v@[i as int]@);
            } else {
                assert forall|k: int| 0 <= k < policies_view(out@).len() implies policies_view(
                    out@,
                )[k] != v@[i as int]@ by {
                    assert(out@[k]@ != v@[i as int]@);
                }
            }
        }
        if !found {
            let ghost before = out@;
            out.push(v[i].duplicate());
            assert(policies_view(out@) == policies_view(before).push(v@[i as int]@));
        }
        i = i + 1;
    }
    assert(policies_view(v@).take(v@.len() as int) == policies_view(v@));
    out
}

/// `@` clauses, one after another, while the text starts with `@`; they are added to `acc`.
pub open spec fn sp_policies_from(s: Seq<char>, c: Cursor, acc: Seq<Policy>) -> Result<
    (Cursor, Seq<Policy>),
    Failure,
>
    decreases c.end - c.pos via policies_progress
{
    if starts_with(s, c, "@"@) {
        match sp_policy(s, c) {
            Err(e) => Err(e),
            Ok((c1, p)) => {
                sp_policies_from(s, sp_trim_start(s, c1), acc.push(p))
            },
        }
    } else {
        Ok((c, acc))
    }
}

/// Each policy read moves past at least one character.
#[via_fn]
proof fn policies_progress(s: Seq<char>, c: Cursor, acc: Seq<Policy>) {
    if starts_with(s, c, "@"@) {
        if c.pos <= c.end {
            policy_moves(s, c);
            if let Ok((c1, _)) = sp_policy(s, c) {
                ws_run_stops(s, c1.pos as int, c1.end as int);
            }
        }
    }
}

pub open spec fn sp_policies(s: Seq<char>, c: Cursor) -> Result<(Cursor, Seq<Policy>), Failure> {
    sp_policies_from(s, sp_trim_start(s, c), Seq::empty())
}

fn parse_policies(src: &Source, c: Cursor) -> (r: Result<(Cursor, Vec<UpdateSpec>), ParseError>)
    requires
        src.wf(),
        cur_wf(src.chars@, c),
    ensures
        match r {
            Ok((d, v)) => sp_policies(src.chars@, c) == Ok::<_, Failure>((d, policies_view(v@))),
            Err(e) => sp_policies(src.chars@, c) == Err::<(Cursor, Seq<Policy>), _>(e@),
        },
        r matches Ok((d, _)) ==> cur_wf(src.chars@, d),
{
    let s = &src.chars;
    let mut out: Vec<UpdateSpec> = Vec::new();
    let mut cur = c.trim_start(s);
    assert(policies_view(out@) == Seq::<Policy>::empty());
    loop
        invariant
            src.wf(),
            s@ == src.chars@,
            cur_wf(src.chars@, cur),
            cur.end == c.end,
            sp_policies_from(src.chars@, cur, policies_view(out@)) == sp_policies(src.chars@, c),
        decreases cur.end - cur.pos,
    {
        if !cur.starts_with(s, "@") {
            return Ok((cur, out));
        }
        match parse_policy(src, cur) {
            Err(e) => {
                return Err(e);
            },
            Ok((c1, p)) => {
                let ghost before = out@;
                out.push(p);
                assert(policies_view(out@) == policies_view(before).push(p@));
                let c2 = c1.trim_start(s);
                cur = c2;
            },
        }
    }
}

/// A feed line: `"NAME" <URL>`, then its policies, then the end of the line.
pub open spec fn sp_line(s: Seq<char>, c: Cursor) -> Result<Feed, Failure> {
    match sp_read_between(s, sp_trim_start(s, c), '"', '"') {
        Err(e) => Err(e),
        Ok((c1, na, nb)) => match sp_read_between(
            s,
            sp_trim_start(s, sp_trim_start(s, c1)),
            '<',
            '>',
        ) {
            Err(e) => Err(e),
            Ok((c2, ua, ub)) => match sp_policies(s, sp_trim_start(s, c2)) {
                Err(e) => Err(e),
                Ok((c3, ps)) => match sp_end(s, c3) {
                    Err(e) => Err(e),
                    Ok(_) => Ok(
                        Feed {
                            name: s.subrange(na as int, nb as int),
                            url: s.subrange(ua as int, ub as int),
                            policies: distinct_of(ps),
                            root: None,
                            command: None,
                        },
                    ),
                },
            },
        },
    }
}

fn parse_name(s: &Vec<char>, c: Cursor) -> (r: Result<(Cursor, usize, usize), ParseError>)
    requires
        cur_wf(s@, c),
    ensures
        rv(r) == sp_read_between(s@, sp_trim_start(s@, c), '"', '"'),
        r matches Ok((d, a, b)) ==> cur_wf(s@, d) && a <= b <= s@.len(),
{
    c.trim_start(s).read_between(s, '"', '"')
}

fn parse_url(s: &Vec<char>, c: Cursor) -> (r: Result<(Cursor, usize, usize), ParseError>)
    requires
        cur_wf(s@, c),
    ensures
        rv(r) == sp_read_between(s@, sp_trim_start(s@, c), '<', '>'),
        r matches Ok((d, a, b)) ==> cur_wf(s@, d) && a <= b <= s@.len(),
{
    c.trim_start(s).read_between(s, '<', '>')
}

fn parse_line(src: &Source, c: Cursor) -> (r: Result<FeedInfo, ParseError>)
    requires
        src.wf(),
        cur_wf(src.chars@, c),
    ensures
        rv(r) == sp_line(src.chars@, c),
{
    let s = &src.chars;
    let (c1, na, nb) = parse_name(s, c)?;
    let (c2, ua, ub) = parse_url(s, c1.trim_start(s))?;
    let (c3, ps) = parse_policies(src, c2.trim_start(s))?;
    c3.end_of_line(s)?;
    let policies = distinct_policies(ps);
    Ok(
        FeedInfo {
            name: src.slice(na, nb),
            url: src.slice(ua, ub),
            update_policies: policies,
            root: None,
            command: None,
        },
    )
}

/// One argument: quoted by `'` or `"`, or running up to the next whitespace; given as a range.
pub open spec fn sp_command_part(s: Seq<char>, c: Cursor) -> Result<(Cursor, usize, usize), Failure> {
    let t = sp_trim_start(s, c);
    if t.pos < t.end && s[t.pos as int] == '\'' {
        sp_read_between(s, t, '\'', '\'')
    } else if t.pos < t.end && s[t.pos as int] == '"' {
        sp_read_between(s, t, '"', '"')
    } else {
        let k = find_ws(s, t.pos as int, t.end as int);
        Ok((at(t, k), t.pos, k as usize))
    }
}

/// The arguments of the text, added to `acc`.
pub open spec fn sp_args_from(s: Seq<char>, c: Cursor, acc: Seq<Seq<char>>) -> Result<
    Seq<Seq<char>>,
    Failure,
>
    decreases c.end - c.pos via args_progress
{
    if c.pos >= c.end {
        Ok(acc)
    } else {
        match sp_command_part(s, c) {
            Err(e) => Err(e),
            Ok((c1, a, b)) => {
                let c2 = sp_trim_start(s, c1);
                sp_args_from(s, c2, acc.push(s.subrange(a as int, b as int)))
            },
        }
    }
}

proof fn find_ws_bounds(s: Seq<char>, i: int, end: int)
    requires
        i <= end,
    ensures
        i <= find_ws(s, i, end) <= end,
        i < end && !is_ws(s[i]) ==> i < find_ws(s, i, end),
    decreases end - i,
{
    if i < end && !is_ws(s[i]) {
        find_ws_bounds(s, i + 1, end);
    }
}

/// Each argument read moves past at least one character.
#[via_fn]
proof fn args_progress(s: Seq<char>, c: Cursor, acc: Seq<Seq<char>>) {
    if c.pos < c.end {
        ws_run_stops(s, c.pos as int, c.end as int);
        let t = sp_trim_start(s, c);
        if t.pos < t.end {
            find_ws_bounds(s, t.pos as int, t.end as int);
            find_char_bounds(s, t.pos + 1, t.end as int, '\'');
            find_char_bounds(s, t.pos + 1, t.end as int, '"');
        }
        if let Ok((c1, _, _)) = sp_command_part(s, c) {
            assert(c.pos < c1.pos <= c1.end == c.end);
            ws_run_stops(s, c1.pos as int, c1.end as int);
        }
    }
}

/// The arguments of a command line, split at whitespace outside quotes.
pub open spec fn sp_args(s: Seq<char>, c: Cursor) -> Result<Seq<Seq<char>>, Failure> {
    sp_args_from(s, sp_trim(s, c), Seq::empty())
}

fn parse_command_part(s: &Vec<char>, c: Cursor) -> (r: Result<(Cursor, usize, usize), ParseError>)
    requires
        cur_wf(s@, c),
        sp_trim_start(s@, c).pos < c.end,
    ensures
        rv(r) == sp_command_part(s@, c),
        r matches Ok((d, a, b)) ==> cur_wf(s@, d) && a <= b <= s@.len() && c.pos < d.pos && d.end
            == c.end,
{
    let t = c.trim_start(s);
    match t.peek(s) {
        Some('\'') => t.read_between(s, '\'', '\''),
        Some('"') => t.read_between(s, '"', '"'),
        _ => {
            let mut k = t.pos;
            while k < t.end && !is_whitespace(s[k])
                invariant
                    cur_wf(s@, t),
                    t.pos <= k <= t.end,
                    k == t.pos ==> t.pos < t.end && !is_ws(s@[t.pos as int]),
                    find_ws(s@, k as int, t.end as int) == find_ws(
                        s@,
                        t.pos as int,
                        t.end as int,
                    ),
                decreases t.end - k,
            {
                k = k + 1;
            }
            Ok((t.advance(k - t.pos), t.pos, k))
        },
    }
}

fn parse_command_internal(src: &Source, c: Cursor) -> (r: Result<Vec<String>, ParseError>)
    requires
        src.wf(),
        cur_wf(src.chars@, c),
    ensures
        match r {
            Ok(v) => sp_args(src.chars@, c) == Ok::<_, Failure>(strings_view(v@)),
            Err(e) => sp_args(src.chars@, c) == Err::<Seq<Seq<char>>, _>(e@),
        },
{
    let s = &src.chars;
    let mut out: Vec<String> = Vec::new();
    let mut cur = c.trim(s);
    assert(strings_view(out@) == Seq::<Seq<char>>::empty());
    while cur.pos < cur.end
        invariant
            src.wf(),
            s@ == src.chars@,
            cur_wf(src.chars@, cur),
            cur.pos < cur.end ==> !is_ws(src.chars@[cur.pos as int]),
            sp_args_from(src.chars@, cur, strings_view(out@)) == sp_args(src.chars@, c),
        decreases cur.end - cur.pos,
    {
        let (c1, a, b) = parse_command_part(s, cur)?;
        let ghost before = out@;
        out.push(src.slice(a, b));
        assert(strings_view(out@) == strings_view(before).push(src.chars@.subrange(a as int, b as int)));
        cur = c1.trim_start(s);
    }
    Ok(out)
}

/// The arguments of a command line: split at whitespace, except within `'...'` or `"..."`.
pub fn parse_command(input: &str) -> (r: Result<Vec<String>, ParseError>)
    ensures
        match r {
            Ok(v) => sp_args(input@, Cursor { row: 0, base: 0, pos: 0, end: input@.len() as usize })
                == Ok::<_, Failure>(strings_view(v@)),
            Err(e) => sp_args(input@, Cursor { row: 0, base: 0, pos: 0, end: input@.len() as usize })
                == Err::<Seq<Seq<char>>, _>(e@),
        },
{
    let src = Source::new(input);
    let c = Cursor::new(0, 0, src.chars.len());
    parse_command_internal(&src, c)
}

pub open spec fn feeds_view(v: Seq<FeedInfo>) -> Seq<Feed> {
    v.map_values(|f: FeedInfo| f@)
}

/// The line of `s` that starts at `start` and has row number `idx + 1`, trimmed.
pub open spec fn line_at(s: Seq<char>, start: int, idx: int) -> Cursor {
    sp_trim(
        s,
        Cursor {
            row: (idx + 1) as usize,
            base: start as usize,
            pos: start as usize,
            end: find_char(s, start, s.len() as int, '\n') as usize,
        },
    )
}

/// What one trimmed line does: the directives in force after it, and the feed it defines.
pub open spec fn sp_config_line(
    s: Seq<char>,
    c: Cursor,
    root: Option<Seq<char>>,
    cmd: Option<Seq<Seq<char>>>,
) -> Result<(Option<Seq<char>>, Option<Seq<Seq<char>>>, Option<Feed>), Failure> {
    if starts_with(s, c, "#"@) || c.pos == c.end {
        Ok((root, cmd, None))
    } else if starts_with(s, c, "root"@) {
        match sp_token_no_case(s, c, "root"@) {
            Err(x) => Err(x),
            Ok(c1) => if sp_trim(s, c1).pos == sp_trim(s, c1).end {
                Ok((None, cmd, None))
            } else {
                match sp_space(s, c1) {
                    Err(x) => Err(x),
                    Ok(c2) => {
                        let t = sp_trim(s, c2);
                        Ok((Some(s.subrange(t.pos as int, t.end as int)), cmd, None))
                    },
                }
            },
        }
    } else if starts_with(s, c, "command"@) {
        match sp_token_no_case(s, c, "command"@) {
            Err(x) => Err(x),
            Ok(c1) => if sp_trim(s, c1).pos == sp_trim(s, c1).end {
                Ok((root, None, None))
            } else {
                match sp_args(s, c1) {
                    Err(x) => Err(x),
                    Ok(args) => Ok((root, Some(args), None)),
                }
            },
        }
    } else {
        match sp_line(s, c) {
            Err(x) => Err(x),
            Ok(f) => Ok((root, cmd, Some(Feed { root, command: cmd, ..f }))),
        }
    }
}

/// The feeds of the lines from `start` on (the first one has row `idx + 1`), added to `acc`,
/// while `root` and `cmd` are the directives in force.
pub open spec fn sp_config_from(
    s: Seq<char>,
    start: int,
    idx: int,
    root: Option<Seq<char>>,
    cmd: Option<Seq<Seq<char>>>,
    acc: Seq<Feed>,
) -> Result<Seq<Feed>, Failure>
    decreases s.len() + 1 - start,
{
    let next = find_char(s, start, s.len() as int, '\n') + 1;
    if start >= s.len() || next <= start || next > s.len() + 1 {
        Ok(acc)
    } else {
        match sp_config_line(s, line_at(s, start, idx), root, cmd) {
            Err(x) => Err(x),
            Ok((root2, cmd2, f)) => sp_config_from(
                s,
                next,
                idx + 1,
                root2,
                cmd2,
                match f {
                    Some(f) => acc.push(f),
                    None => acc,
                },
            ),
        }
    }
}

/// The feeds of a configuration text.
pub open spec fn sp_config(s: Seq<char>) -> Result<Seq<Feed>, Failure> {
    sp_config_from(s, 0, 0, None, None, Seq::empty())
}

/// The end of the line that starts at `start`.
fn line_end(s: &Vec<char>, start: usize) -> (e: usize)
    requires
        start <= s@.len(),
    ensures
        e == find_char(s@, start as int, s@.len() as int, '\n'),
        start <= e <= s@.len(),
{
    let mut k = start;
    while k < s.len() && s[k] != '\n'
        invariant
            start <= k <= s@.len(),
            find_char(s@, k as int, s@.len() as int, '\n') == find_char(
                s@,
                start as int,
                s@.len() as int,
                '\n',
            ),
        decreases s@.len() - k,
    {
        k = k + 1;
    }
    k
}

fn config_line(src: &Source, c: Cursor, root: Option<String>, command: Option<Vec<String>>) -> (r: Result<
    (Option<String>, Option<Vec<String>>, Option<FeedInfo>),
    ParseError,
>)
    requires
        src.wf(),
        cur_wf(src.chars@, c),
    ensures
        match r {
            Ok((r2, c2, f)) => sp_config_line(
                src.chars@,
                c,
                opt_string_view(root),
                opt_strings_view(command),
            ) == Ok::<_, Failure>(
                (
                    opt_string_view(r2),
                    opt_strings_view(c2),
                    match f {
                        Some(f) => Some(f@),
                        None => None,
                    },
                ),
            ),
            Err(e) => sp_config_line(
                src.chars@,
                c,
                opt_string_view(root),
                opt_strings_view(command),
            ) == Err::<(Option<Seq<char>>, Option<Seq<Seq<char>>>, Option<Feed>), _>(e@),
        },
{
    let s = &src.chars;
    if c.starts_with(s, "#") || c.is_empty() {
        Ok((root, command, None))
    } else if c.starts_with(s, "root") {
        let c1 = c.token_no_case(s, "root")?;
        if c1.trim(s).is_empty() {
            Ok((None, command, None))
        } else {
            let t = c1.space(s)?.trim(s);
            Ok((Some(src.slice(t.pos, t.end)), command, None))
        }
    } else if c.starts_with(s, "command") {
        let c1 = c.token_no_case(s, "command")?;
        if c1.trim(s).is_empty() {
            Ok((root, None, None))
        } else {
            let args = parse_command_internal(src, c1)?;
            Ok((root, Some(args), None))
        }
    } else {
        let mut feed = parse_line(src, c)?;
        feed.root = copy_opt_string(&root);
        feed.command = copy_opt_strings(&command);
        Ok((root, command, Some(feed)))
    }
}

/// Parses a configuration text: one feed per feed line, with the `root` and `command`
/// directives in force on that line.
#[verifier::rlimit(50)]
pub fn parse_config(input: &str) -> (r: Result<Vec<FeedInfo>, ParseError>)
    ensures
        match r {
            Ok(v) => sp_config(input@) == Ok::<_, Failure>(feeds_view(v@)),
            Err(e) => sp_config(input@) == Err::<Seq<Feed>, _>(e@),
        },
{
    let src = Source::new(input);
    let s = &src.chars;
    let n = s.len();
    let mut out: Vec<FeedInfo> = Vec::new();
    let mut root: Option<String> = None;
    let mut command: Option<Vec<String>> = None;
    let mut start: usize = 0;
    let mut idx: usize = 0;
    assert(feeds_view(out@) == Seq::<Feed>::empty());
    while start < n
        invariant
            src.wf(),
            s@ == src.chars@,
            src.text == input,
            n == s@.len(),
            idx <= start <= n,
            sp_config_from(
                s@,
                start as int,
                idx as int,
                opt_string_view(root),
                opt_strings_view(command),
                feeds_view(out@),
            ) == sp_config(s@),
        decreases n - start,
    {
        let e = line_end(s, start);
        let c = Cursor::new(idx + 1, start, e).trim(s);
        let (root2, command2, feed) = config_line(&src, c, root, command)?;
        root = root2;
        command = command2;
        match feed {
            Some(f) => {
                let ghost before = out@;
                out.push(f);
                assert(feeds_view(out@) == feeds_view(before).push(f@));
            },
            None => {},
        }
        if e == n {
            assert(sp_config_from(
                s@,
                n + 1,
                idx + 1,
                opt_string_view(root),
                opt_strings_view(command),
                feeds_view(out@),
            ) == Ok::<_, Failure>(feeds_view(out@)));
            return Ok(out);
        }
        start = e + 1;
        idx = idx + 1;
    }
    Ok(out)
}

/// The accepted forms of an event line, listed when a line has neither.
pub const EVENT_FORMS: &'static str = "a feed event. One of:\n - \"<url>\"\n - \"read DATE\"";

pub open spec fn events_view(v: Seq<FeedEvent>) -> Seq<Event> {
    v.map_values(|e: FeedEvent| e@)
}

/// A `read` line whose date text chrono read as `date` (or could not read), at `c`.
pub open spec fn sp_read_event(date: Option<(i64, u32)>, c: Cursor) -> Result<Event, Failure> {
    match date {
        None => Err(fail_at("a valid date"@, c)),
        Some((secs, nanos)) => Ok(Event::Read(Timestamp { secs, nanos })),
    }
}

/// What one trimmed event line yields, if anything.
pub open spec fn sp_event_line(s: Seq<char>, c: Cursor) -> Result<Option<Event>, Failure> {
    if c.pos == c.end {
        Ok(None)
    } else if starts_with_no_case(s, c, "read"@) {
        match sp_token_no_case(s, c, "read"@) {
            Err(x) => Err(x),
            Ok(c1) => match sp_space(s, c1) {
                Err(x) => Err(x),
                Ok(c2) => match sp_read_event(
                    instant_of(s.subrange(c2.pos as int, c2.end as int)),
                    c2,
                ) {
                    Err(x) => Err(x),
                    Ok(ev) => Ok(Some(ev)),
                },
            },
        }
    } else if starts_with(s, c, "<"@) {
        match sp_read_between(s, c, '<', '>') {
            Err(x) => Err(x),
            Ok((c1, a, b)) => match sp_space_or_end(s, c1) {
                Err(x) => Err(x),
                Ok(c2) => match sp_end(s, c2) {
                    Err(x) => Err(x),
                    Ok(_) => Ok(Some(Event::ComicUrl(s.subrange(a as int, b as int)))),
                },
            },
        }
    } else {
        Err(Failure::Msg { msg: EVENT_FORMS@, row: c.row, span: None })
    }
}

/// The events of the lines from `start` on (the first one has row `idx + 1`), added to `acc`.
pub open spec fn sp_events_from(s: Seq<char>, start: int, idx: int, acc: Seq<Event>) -> Result<
    Seq<Event>,
    Failure,
>
    decreases s.len() + 1 - start,
{
    let next = find_char(s, start, s.len() as int, '\n') + 1;
    if start >= s.len() || next <= start || next > s.len() + 1 {
        Ok(acc)
    } else {
        match sp_event_line(s, line_at(s, start, idx)) {
            Err(x) => Err(x),
            Ok(ev) => sp_events_from(
                s,
                next,
                idx + 1,
                match ev {
                    Some(ev) => acc.push(ev),
                    None => acc,
                },
            ),
        }
    }
}

/// The events of an event log text.
pub open spec fn sp_events(s: Seq<char>) -> Result<Seq<Event>, Failure> {
    sp_events_from(s, 0, 0, Seq::empty())
}

/// The event of a `read` line, given what chrono made of its date text: the instant, or
/// "a valid date" expected at `c`.
pub fn read_event(date: Option<Timestamp>, c: Cursor) -> (r: Result<FeedEvent, ParseError>)
    requires
        c.base <= c.pos,
    ensures
        rv(r) == sp_read_event(
            match date {
                Some(t) => Some((t.secs, t.nanos)),
                None => None,
            },
            c,
        ),
{
    match date {
        Some(t) => Ok(FeedEvent::Read(t)),
        None => Err(c.expected("a valid date")),
    }
}

fn event_line(src: &Source, c: Cursor) -> (r: Result<Option<FeedEvent>, ParseError>)
    requires
        src.wf(),
        cur_wf(src.chars@, c),
    ensures
        match r {
            Ok(ev) => sp_event_line(src.chars@, c) == Ok::<_, Failure>(
                match ev {
                    Some(ev) => Some(ev@),
                    None => None,
                },
            ),
            Err(e) => sp_event_line(src.chars@, c) == Err::<Option<Event>, _>(e@),
        },
{
    let s = &src.chars;
    if c.is_empty() {
        Ok(None)
    } else if c.starts_with_no_case(s, "read") {
        let c2 = c.token_no_case(s, "read")?.space(s)?;
        let text = src.slice(c2.pos, c2.end);
        let ev = read_event(parse_instant(text.as_str()), c2)?;
        Ok(Some(ev))
    } else if c.starts_with(s, "<") {
        let (c1, a, b) = c.read_between(s, '<', '>')?;
        c1.space_or_end(s)?.end_of_line(s)?;
        Ok(Some(FeedEvent::ComicUrl(src.slice(a, b))))
    } else {
        Err(ParseError::expected(EVENT_FORMS, c.row, None::<()>))
    }
}

/// Parses an event log: `read DATE` and `<URL>` lines; blank lines are skipped.
pub fn parse_events(input: &str) -> (r: Result<Vec<FeedEvent>, ParseError>)
    ensures
        match r {
            Ok(v) => sp_events(input@) == Ok::<_, Failure>(events_view(v@)),
            Err(e) => sp_events(input@) == Err::<Seq<Event>, _>(e@),
        },
{
    let src = Source::new(input);
    let s = &src.chars;
    let n = s.len();
    let mut out: Vec<FeedEvent> = Vec::new();
    let mut start: usize = 0;
    let mut idx: usize = 0;
    assert(events_view(out@) == Seq::<Event>::empty());
    while start < n
        invariant
            src.wf(),
            s@ == src.chars@,
            src.text == input,
            n == s@.len(),
            idx <= start <= n,
            sp_events_from(s@, start as int, idx as int, events_view(out@)) == sp_events(s@),
        decreases n - start,
    {
        let e = line_end(s, start);
        let c = Cursor::new(idx + 1, start, e).trim(s);
        match event_line(&src, c)? {
            Some(ev) => {
                let ghost before = out@;
                out.push(ev);
                assert(events_view(out@) == events_view(before).push(ev@));
            },
            None => {},
        }
        if e == n {
            assert(sp_events_from(s@, n + 1, idx + 1, events_view(out@)) == Ok::<_, Failure>(
                events_view(out@),
            ));
            return Ok(out);
        }
        start = e + 1;
        idx = idx + 1;
    }
    Ok(out)
}

} // verus!
