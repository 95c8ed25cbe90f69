use vstd::prelude::*;

verus! {

#[derive(Clone, Copy, Debug, PartialEq, Eq, Hash, Structural)]
pub enum Weekday {
    Mon,
    Tue,
    Wed,
    Thu,
    Fri,
    Sat,
    Sun,
}

/// What a filter looks at, and whether matches are kept or dropped.
#[derive(Clone, Copy, Debug, PartialEq, Eq, Hash, Structural)]
pub enum FilterType {
    KeepTitle,
    KeepUrl,
    IgnoreTitle,
    IgnoreUrl,
}

/// A point in time: seconds since the Unix epoch in UTC, and nanoseconds past that second.
#[derive(Clone, Copy, Debug, PartialEq, Eq, Hash, Structural)]
pub struct Timestamp {
    pub secs: i64,
    pub nanos: u32,
}

impl View for Weekday {
    type V = Weekday;

    open spec fn view(&self) -> Weekday {
        *self
    }
}

impl View for FilterType {
    type V = FilterType;

    open spec fn view(&self) -> FilterType {
        *self
    }
}

impl View for Timestamp {
    type V = Timestamp;

    open spec fn view(&self) -> Timestamp {
        *self
    }
}

/// One update policy of a feed.
#[derive(Clone, Debug, PartialEq, Eq, Hash)]
pub enum UpdateSpec {
    On(Weekday),
    Every(usize),
    Overlap(usize),
    Comics(usize),
    Filter(FilterType, String),
    OpenAll,
}

/// The value of an `UpdateSpec`.
pub enum Policy {
    On(Weekday),
    Every(usize),
    Overlap(usize),
    Comics(usize),
    Filter(FilterType, Seq<char>),
    OpenAll,
}

impl View for UpdateSpec {
    type V = Policy;

    open spec fn view(&self) -> Policy {
        match self {
            UpdateSpec::On(d) => Policy::On(*d),
            UpdateSpec::Every(n) => Policy::Every(*n),
            UpdateSpec::Overlap(n) => Policy::Overlap(*n),
            UpdateSpec::Comics(n) => Policy::Comics(*n),
            UpdateSpec::Filter(k, p) => Policy::Filter(*k, p@),
            UpdateSpec::OpenAll => Policy::OpenAll,
        }
    }
}

impl UpdateSpec {
    /// A copy of this policy.
    pub fn duplicate(&self) -> (r: UpdateSpec)
        ensures
            r@ == self@,
    {
        match self {
            UpdateSpec::On(d) => UpdateSpec::On(*d),
            UpdateSpec::Every(n) => UpdateSpec::Every(*n),
            UpdateSpec::Overlap(n) => UpdateSpec::Overlap(*n),
            UpdateSpec::Comics(n) => UpdateSpec::Comics(*n),
            UpdateSpec::Filter(k, p) => UpdateSpec::Filter(*k, p.clone()),
            UpdateSpec::OpenAll => UpdateSpec::OpenAll,
        }
    }

    /// Structural equality of two policies.
    pub fn same(&self, other: &UpdateSpec) -> (r: bool)
        ensures
            r == (self@ == other@),
    {
        match (self, other) {
            (UpdateSpec::On(a), UpdateSpec::On(b)) => *a == *b,
            (UpdateSpec::Every(a), UpdateSpec::Every(b)) => *a == *b,
            (UpdateSpec::Overlap(a), UpdateSpec::Overlap(b)) => *a == *b,
            (UpdateSpec::Comics(a), UpdateSpec::Comics(b)) => *a == *b,
            (UpdateSpec::Filter(k, p), UpdateSpec::Filter(l, q)) => *k == *l && *p == *q,
            (UpdateSpec::OpenAll, UpdateSpec::OpenAll) => true,
            _ => false,
        }
    }
}

/// One watched feed, with the directives in force on its line.
#[derive(Clone, Debug, PartialEq)]
pub struct FeedInfo {
    pub name: String,
    pub url: String,
    /// Distinct policies, in the order of their first occurrence.
    pub update_policies: Vec<UpdateSpec>,
    pub root: Option<String>,
    pub command: Option<Vec<String>>,
}

/// The value of a `FeedInfo`.
pub struct Feed {
    pub name: Seq<char>,
    pub url: Seq<char>,
    pub policies: Seq<Policy>,
    pub root: Option<Seq<char>>,
    pub command: Option<Seq<Seq<char>>>,
}

pub open spec fn strings_view(v: Seq<String>) -> Seq<Seq<char>> {
    v.map_values(|x: String| x@)
}

pub open spec fn opt_string_view(o: Option<String>) -> Option<Seq<char>> {
    match o {
        Some(x) => Some(x@),
        None => None,
    }
}

pub open spec fn opt_strings_view(o: Option<Vec<String>>) -> Option<Seq<Seq<char>>> {
    match o {
        Some(v) => Some(strings_view(v@)),
        None => None,
    }
}

/// A copy of an optional string.
pub fn copy_opt_string(o: &Option<String>) -> (r: Option<String>)
    ensures
        opt_string_view(r) == opt_string_view(*o),
{
    match o {
        Some(x) => Some(x.clone()),
        None => None,
    }
}

/// A copy of an optional list of strings.
pub fn copy_opt_strings(o: &Option<Vec<String>>) -> (r: Option<Vec<String>>)
    ensures
        opt_strings_view(r) == opt_strings_view(*o),
{
    match o {
        None => None,
        Some(v) => {
            let mut out: Vec<String> = Vec::new();
            let mut i: usize = 0;
            while i < v.len()
                invariant
                    i <= v@.len(),
                    strings_view(out@) == strings_view(v@).take(i as int),
                decreases v@.len() - i,
            {
                let ghost before = out@;
                out.push(v[i].clone());
                assert(strings_view(out@) == strings_view(before).push(v@[i as int]@));
                assert(strings_view(v@).take(i + 1) == strings_view(v@).take(i as int).push(
                    v@[i as int]@,
                ));
                i = i + 1;
            }
            assert(strings_view(v@).take(v@.len() as int) == strings_view(v@));
            Some(out)
        },
    }
}

impl View for FeedInfo {
    type V = Feed;

    open spec fn view(&self) -> Feed {
        Feed {
            name: self.name@,
            url: self.url@,
            policies: self.update_policies@.map_values(|p: UpdateSpec| p@),
            root: opt_string_view(self.root),
            command: opt_strings_view(self.command),
        }
    }
}

/// One entry of an event log.
#[derive(Clone, Debug, PartialEq)]
pub enum FeedEvent {
    Read(Timestamp),
    ComicUrl(String),
}

/// The value of a `FeedEvent`.
pub enum Event {
    Read(Timestamp),
    ComicUrl(Seq<char>),
}

impl View for FeedEvent {
    type V = Event;

    open spec fn view(&self) -> Event {
        match self {
            FeedEvent::Read(t) => Event::Read(*t),
            FeedEvent::ComicUrl(u) => Event::ComicUrl(u@),
        }
    }
}

} // verus!
