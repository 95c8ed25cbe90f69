use vstd::prelude::*;

use crate::backends::{regex_accepts, regex_complaint};
use crate::cursor::{
    at, cur_wf, find_char, sp_read_between, digit_run_end, digits_value, fail_at, is_digit, sp_trim, sp_trim_start,
    starts_with, starts_with_no_case, Cursor,
};
use crate::error::Failure;
use crate::feed::{Feed, FilterType, Policy, Weekday};
use crate::parser::{distinct_of, line_at, sp_config_from, sp_config_line, sp_line, sp_policies};
use crate::policy::{sp_filter, sp_number, sp_policy, sp_verdict, sp_weekday};

verus! {

/// The full English name of a day, in lower case.
pub open spec fn day_name(d: Weekday) -> Seq<char> {
    match d {
        Weekday::Mon => "monday"@,
        Weekday::Tue => "tuesday"@,
        Weekday::Wed => "wednesday"@,
        Weekday::Thu => "thursday"@,
        Weekday::Fri => "friday"@,
        Weekday::Sat => "saturday"@,
        Weekday::Sun => "sunday"@,
    }
}

/// The policies of a feed line hold each distinct clause once: none twice, the same set as
/// the clauses, and so exactly as many entries as there are distinct clauses.
pub proof fn distinct_policies_count(ps: Seq<Policy>)
    ensures
        distinct_of(ps).no_duplicates(),
        distinct_of(ps).to_set() == ps.to_set(),
        distinct_of(ps).len() == ps.to_set().len(),
    decreases ps.len(),
{
    if ps.len() > 0 {
        let init = ps.drop_last();
        let x = ps.last();
        distinct_policies_count(init);
        let d = distinct_of(init);
        assert(init.push(x) == ps);
        init.lemma_push_to_set_commute(x);
        d.lemma_push_to_set_commute(x);
        if d.contains(x) {
            assert(d.to_set().contains(x));
            assert(ps.to_set() =~= d.to_set());
        } else {
            assert(d.push(x).no_duplicates()) by {
                assert forall|i: int, j: int|
                    0 <= i < d.push(x).len() && 0 <= j < d.push(x).len() && i != j implies d.push(
                    x,
                )[i] != d.push(x)[j] by {
                    if i < d.len() && j < d.len() {
                    } else if i < d.len() {
                        assert(d.contains(d[i]));
                    } else {
                        assert(d.contains(d[j]));
                    }
                }
            }
        }
    }
    distinct_of(ps).unique_seq_to_set();
}

/// A weekday is read exactly when the text starts with one of the seven full day names, in
/// any ASCII case, and nothing past that name is consumed; when it starts with none of them,
/// "a weekday" is expected at the cursor.
pub proof fn weekday_names(s: Seq<char>, c: Cursor)
    ensures
        sp_weekday(s, c) matches Ok((d, w)) ==> starts_with_no_case(s, c, day_name(w)) && d == at(
            c,
            c.pos + day_name(w).len(),
        ),
        (forall|w: Weekday| !starts_with_no_case(s, c, day_name(w))) ==> sp_weekday(s, c) == Err::<
            (Cursor, Weekday),
            Failure,
        >(fail_at("a weekday"@, c)),
{
    reveal_strlit("sunday");
    reveal_strlit("monday");
    reveal_strlit("tuesday");
    reveal_strlit("wednesday");
    reveal_strlit("thursday");
    reveal_strlit("friday");
    reveal_strlit("saturday");
    if forall|w: Weekday| !starts_with_no_case(s, c, day_name(w)) {
        assert(!starts_with_no_case(s, c, day_name(Weekday::Sun)));
        assert(!starts_with_no_case(s, c, day_name(Weekday::Mon)));
        assert(!starts_with_no_case(s, c, day_name(Weekday::Tue)));
        assert(!starts_with_no_case(s, c, day_name(Weekday::Wed)));
        assert(!starts_with_no_case(s, c, day_name(Weekday::Thu)));
        assert(!starts_with_no_case(s, c, day_name(Weekday::Fri)));
        assert(!starts_with_no_case(s, c, day_name(Weekday::Sat)));
    }
}

proof fn digit_run_facts(s: Seq<char>, i: int, end: int)
    requires
        i <= end,
    ensures
        i <= digit_run_end(s, i, end) <= end,
        forall|k: int| i <= k < digit_run_end(s, i, end) ==> is_digit(s[k]),
        digit_run_end(s, i, end) == end || !is_digit(s[digit_run_end(s, i, end)]),
    decreases end - i,
{
    if i < end && is_digit(s[i]) {
        digit_run_facts(s, i + 1, end);
    }
}

/// A number is the longest run of decimal digits after the whitespace, read in base 10:
/// with no digit there, "digit" is expected; otherwise, when the value fits, it is the value
/// of the whole run, each digit worth ten times the one after it.
pub proof fn number_digits(s: Seq<char>, c: Cursor)
    requires
        cur_wf(s, c),
    ensures
        ({
            let t = sp_trim_start(s, c);
            let e = digit_run_end(s, t.pos as int, t.end as int);
            &&& t.pos <= e <= t.end
            &&& forall|k: int| t.pos <= k < e ==> is_digit(s[k])
            &&& (e == t.end || !is_digit(s[e]))
            &&& (e == t.pos ==> sp_number(s, c) == Err::<(Cursor, usize), Failure>(
                fail_at("digit"@, t),
            ))
            &&& (e > t.pos && digits_value(s, t.pos as int, e) <= usize::MAX ==> sp_number(s, c)
                == Ok::<(Cursor, usize), Failure>(
                (at(t, e), digits_value(s, t.pos as int, e) as usize),
            ))
            &&& (e > t.pos ==> digits_value(s, t.pos as int, e) == digits_value(
                s,
                t.pos as int,
                e - 1,
            ) * 10 + ((s[e - 1] as u32) - ('0' as u32)))
        }),
{
    let t = sp_trim_start(s, c);
    crate::cursor::lemma_ws_run(s, c.pos as int, c.end as int);
    digit_run_facts(s, t.pos as int, t.end as int);
}

/// The root directive sticks: a line that is no `root` directive leaves the root in force
/// as it was, a feed line carries the root in force, and a bare `root` line unsets it.
pub proof fn root_sticks(
    s: Seq<char>,
    c: Cursor,
    root: Option<Seq<char>>,
    cmd: Option<Seq<Seq<char>>>,
)
    ensures
        sp_config_line(s, c, root, cmd) matches Ok((root2, _, f)) ==> {
            &&& (!starts_with(s, c, "root"@) ==> root2 == root)
            &&& (f matches Some(feed) ==> feed.root == root)
        },
        sp_config_line(s, c, root, cmd) matches Ok((root2, _, _)) ==> (starts_with(s, c, "root"@)
            && !starts_with(s, c, "#"@) && c.pos < c.end && sp_trim(s, at(c, c.pos + 4)).pos
            == sp_trim(s, at(c, c.pos + 4)).end ==> root2 is None),
{
    reveal_strlit("root");
}

/// A filter is only ever built from a pattern that the regex engine accepts.
pub proof fn filters_compile(s: Seq<char>, c: Cursor)
    ensures
        sp_filter(s, c) matches Ok((_, p)) ==> (p matches Policy::Filter(_, pat) && regex_accepts(
            pat,
        )),
{
}

/// A pattern that the regex engine rejects fails the clause at once, with a message that
/// quotes the pattern between slashes and then the engine's complaint.
pub proof fn rejected_pattern_fails(kind: FilterType, pat: Seq<char>, c: Cursor)
    requires
        !regex_accepts(pat),
    ensures
        sp_verdict(kind, pat, regex_accepts(pat), regex_complaint(pat), c) == Err::<
            (Cursor, Policy),
            Failure,
        >(fail_at("/"@ + pat + "/ to be a valid pattern: "@ + regex_complaint(pat), c)),
{
}

/// The policy clauses of a feed line, in the order written, when the name, the URL and the
/// clauses themselves are well formed.
pub open spec fn line_clauses(s: Seq<char>, c: Cursor) -> Option<Seq<Policy>> {
    match sp_read_between(s, sp_trim_start(s, c), '"', '"') {
        Err(_) => None,
        Ok((c1, _, _)) => match sp_read_between(
            s,
            sp_trim_start(s, sp_trim_start(s, c1)),
            '<',
            '>',
        ) {
            Err(_) => None,
            Ok((c2, _, _)) => match sp_policies(s, sp_trim_start(s, c2)) {
                Err(_) => None,
                Ok((_, ps)) => Some(ps),
            },
        },
    }
}

/// A parsed feed line holds each of its distinct policy clauses exactly once: its policies
/// form the same set as the clauses, none twice, so there are as many as there are
/// structurally distinct clauses.
pub proof fn line_policies_distinct(s: Seq<char>, c: Cursor)
    ensures
        sp_line(s, c) matches Ok(f) ==> (line_clauses(s, c) matches Some(ps) && {
            &&& f.policies.no_duplicates()
            &&& f.policies.to_set() == ps.to_set()
            &&& f.policies.len() == ps.to_set().len()
        }),
{
    if let Some(ps) = line_clauses(s, c) {
        distinct_policies_count(ps);
    }
}

/// Every filter that a policy clause yields holds a pattern that the regex engine accepts:
/// a rejected pattern never gets past the clause.
pub proof fn policy_filters_compile(s: Seq<char>, c: Cursor)
    ensures
        sp_policy(s, c) matches Ok((_, p)) ==> (p matches Policy::Filter(_, pat) ==> regex_accepts(
            pat,
        )),
{
}

/// Directives never act backwards: the feeds already produced before a line stand
/// unchanged, in order, at the front of the result of the whole file.
pub proof fn earlier_feeds_kept(
    s: Seq<char>,
    start: int,
    idx: int,
    root: Option<Seq<char>>,
    cmd: Option<Seq<Seq<char>>>,
    acc: Seq<Feed>,
)
    ensures
        sp_config_from(s, start, idx, root, cmd, acc) matches Ok(v) ==> acc.len() <= v.len()
            && v.subrange(0, acc.len() as int) == acc,
    decreases s.len() + 1 - start,
{
    let next = find_char(s, start, s.len() as int, '\n') + 1;
    if start >= s.len() || next <= start || next > s.len() + 1 {
        assert(acc.subrange(0, acc.len() as int) == acc);
    } else {
        match sp_config_line(s, line_at(s, start, idx), root, cmd) {
            Err(_) => {},
            Ok((root2, cmd2, f)) => {
                let acc2 = match f {
                    Some(f) => acc.push(f),
                    None => acc,
                };
                earlier_feeds_kept(s, next, idx + 1, root2, cmd2, acc2);
                if let Ok(v) = sp_config_from(s, start, idx, root, cmd, acc) {
                    assert(acc2.subrange(0, acc.len() as int) == acc);
                    assert(v.subrange(0, acc.len() as int) == v.subrange(
                        0,
                        acc2.len() as int,
                    ).subrange(0, acc.len() as int));
                }
            },
        }
    }
}

} // verus!
