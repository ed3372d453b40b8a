//! Routing: which channel a record belongs to, and whether it is shown at
//! all.

use crate::wrap::texts;
use std::collections::VecDeque;
use vstd::prelude::*;
use vstd::std_specs::iter::IteratorSpec;
use vstd::string::StrSliceExecFns;

verus! {

/// The name of the channel for records outside every span.
pub const NAME_NOT_FOUND: &'static str = "undefined";

/// The severity of a record, from the most verbose to the gravest.
#[derive(Clone, Copy, Debug, PartialEq, Eq, Structural)]
pub enum Level {
    Trace,
    Debug,
    Info,
    Warn,
    Error,
}

impl Level {
    /// How verbose a level is: `Error` is the least verbose and `Trace` the
    /// most.
    pub open spec fn verbosity(self) -> int {
        match self {
            Level::Error => 1,
            Level::Warn => 2,
            Level::Info => 3,
            Level::Debug => 4,
            Level::Trace => 5,
        }
    }

    fn rank(self) -> (r: u8)
        ensures
            r == self.verbosity(),
    {
        match self {
            Level::Error => 1,
            Level::Warn => 2,
            Level::Info => 3,
            Level::Debug => 4,
            Level::Trace => 5,
        }
    }

    /// Whether a record of this level is at most as verbose as `max_level`.
    pub fn at_most(self, max_level: Level) -> (r: bool)
        ensures
            r == (self.verbosity() <= max_level.verbosity()),
    {
        self.rank() <= max_level.rank()
    }
}

/// Which names get a channel.
#[derive(Debug, PartialEq, Eq)]
#[non_exhaustive]
pub enum SplitFilter {
    /// Only the names in the list.
    WhiteList(Vec<String>),
    /// Every name but those in the list.
    BlackList(Vec<String>),
    /// Every name.
    All,
}

/// What names a record's channel.
#[derive(Debug, PartialEq, Eq)]
pub enum SplitBy {
    /// The target of the record.
    Target(SplitFilter),
    /// The part of the target before the first `::`.
    TargetPrefix(SplitFilter),
    /// The name of the outermost span that the record lies in.
    SpanPrefix(SplitFilter),
}

/// Whether `::` stands at place `i` of `text`.
pub open spec fn separator_at(text: Seq<char>, i: int) -> bool {
    0 <= i && i + 1 < text.len() && text[i] == ':' && text[i + 1] == ':'
}

/// The first place at or behind `from` where `::` stands in `text`, or the
/// length of `text` if there is none.
pub open spec fn first_separator(text: Seq<char>, from: int) -> int
    decreases text.len() - from,
{
    if from < 0 || from + 1 >= text.len() {
        text.len() as int
    } else if text[from] == ':' && text[from + 1] == ':' {
        from
    } else {
        first_separator(text, from + 1)
    }
}

/// The part of `text` before its first `::`, or all of it.
pub open spec fn prefix_of(text: Seq<char>) -> Seq<char> {
    text.subrange(0, first_separator(text, 0))
}

/// A place is the first separator behind `from` if no separator stands
/// between the two and it is one itself, or the end of the text.
pub proof fn lemma_first_separator(text: Seq<char>, from: int, k: int)
    requires
        0 <= from <= k <= text.len(),
        forall|j: int| from <= j < k ==> !separator_at(text, j),
        k == text.len() || separator_at(text, k),
    ensures
        first_separator(text, from) == k,
    decreases text.len() - from,
{
    if from + 1 < text.len() {
        if text[from] == ':' && text[from + 1] == ':' {
            assert(separator_at(text, from));
        } else {
            lemma_first_separator(text, from + 1, k);
        }
    }
}

/// The part of `target` before its first `::`, or all of it.
pub fn target_prefix(target: &str) -> (r: String)
    ensures
        r@ == prefix_of(target@),
{
    let n = target.unicode_len();
    let mut chars = target.chars();
    let mut i: usize = 0;
    let mut previous_colon = false;
    let mut cut: usize = n;
    let mut found = false;
    while !found
        invariant
            n == target@.len(),
            i <= n,
            chars.obeys_prophetic_iter_laws(),
            chars.decrease() is Some,
            chars.remaining() == target@.subrange(i as int, n as int),
            previous_colon == (i > 0 && target@[i - 1] == ':'),
            forall|j: int|
                0 <= j < (if found {
                    cut as int
                } else {
                    i - 1
                }) ==> !separator_at(target@, j),
            !found ==> cut == n,
            found ==> cut + 1 < n && separator_at(target@, cut as int) && cut + 2 == i,
        decreases n - i,
    {
        let ghost before = chars;
        let next = chars.next();
        proof {
            vstd::string::next_postcondition(&before, &chars, next);
        }
        match next {
            Some(c) => {
                if c == ':' && previous_colon {
                    cut = i - 1;
                    found = true;
                } else {
                    previous_colon = c == ':';
                }
                i = i + 1;
            },
            None => {
                proof {
                    lemma_first_separator(target@, 0, n as int);
                }
                return target.to_owned();
            },
        }
    }
    let r = target.substring_char(0, cut).to_owned();
    proof {
        lemma_first_separator(target@, 0, cut as int);
    }
    r
}

impl SplitFilter {
    /// Whether the filter lets the name `target` through.
    pub open spec fn passes(self, target: Seq<char>) -> bool {
        match self {
            SplitFilter::WhiteList(items) => texts(items@).contains(target),
            SplitFilter::BlackList(items) => !texts(items@).contains(target),
            SplitFilter::All => true,
        }
    }

    /// Only the names in `items` get a channel.
    pub fn whitelist(items: Vec<String>) -> (r: Self)
        ensures
            r == SplitFilter::WhiteList(items),
    {
        SplitFilter::WhiteList(items)
    }

    /// Every name but those in `items` gets a channel.
    pub fn blacklist(items: Vec<String>) -> (r: Self)
        ensures
            r == SplitFilter::BlackList(items),
    {
        SplitFilter::BlackList(items)
    }

    /// Every name gets a channel.
    pub fn none() -> (r: Self)
        ensures
            r == SplitFilter::All,
    {
        SplitFilter::All
    }

    /// The name of the channel for `target`: `target` itself where the
    /// filter lets it through, and `None` where the record is dropped.
    pub fn filter(&self, target: String) -> (r: Option<String>)
        ensures
            r == if self.passes(target@) {
                Some(target)
            } else {
                None
            },
    {
        match self {
            SplitFilter::WhiteList(items) => {
                if contains(items, &target) {
                    Some(target)
                } else {
                    None
                }
            },
            SplitFilter::BlackList(items) => {
                if contains(items, &target) {
                    None
                } else {
                    Some(target)
                }
            },
            SplitFilter::All => Some(target),
        }
    }
}

/// Whether one of `items` equals `target`.
fn contains(items: &Vec<String>, target: &String) -> (r: bool)
    ensures
        r == texts(items@).contains(target@),
{
    let n = items.len();
    let mut i: usize = 0;
    while i < n
        invariant
            i <= n,
            n == items@.len(),
            forall|j: int| 0 <= j < i ==> texts(items@)[j] != target@,
        decreases n - i,
    {
        if items[i] == *target {
            proof {
                assert(texts(items@)[i as int] == target@);
            }
            return true;
        }
        i = i + 1;
    }
    false
}

impl SplitBy {
    /// The name by which a record is routed, before the filter: its target,
    /// the prefix of its target, or the name of its outermost span, which is
    /// "undefined" outside every span.
    pub open spec fn key(self, target: Seq<char>, root_span: Option<Seq<char>>) -> Seq<char> {
        match self {
            SplitBy::Target(_) => target,
            SplitBy::TargetPrefix(_) => prefix_of(target),
            SplitBy::SpanPrefix(_) => match root_span {
                Some(name) => name,
                None => NAME_NOT_FOUND@,
            },
        }
    }

    /// The filter that the names go through.
    pub open spec fn filter_of(self) -> SplitFilter {
        match self {
            SplitBy::Target(filter) => filter,
            SplitBy::TargetPrefix(filter) => filter,
            SplitBy::SpanPrefix(filter) => filter,
        }
    }

    /// The channel of a record with the given target and outermost span, or
    /// `None` where the record is dropped.
    pub open spec fn routed(self, target: Seq<char>, root_span: Option<Seq<char>>) -> Option<
        Seq<char>,
    > {
        if self.filter_of().passes(self.key(target, root_span)) {
            Some(self.key(target, root_span))
        } else {
            None
        }
    }
}

/// Decides for each record whether it is shown and which channel it goes
/// to.
pub struct RedirectLayer {
    max_level: Level,
    split_by: SplitBy,
}

impl RedirectLayer {
    /// The most verbose level that is shown.
    pub closed spec fn max_level(&self) -> Level {
        self.max_level
    }

    /// The rule that names the channels.
    pub closed spec fn split_by(&self) -> SplitBy {
        self.split_by
    }

    /// A layer that shows records up to `Level::Debug` and names their
    /// channels by `split_by`.
    pub fn new(split_by: SplitBy) -> (r: Self)
        ensures
            r.max_level() == Level::Debug,
            r.split_by() == split_by,
    {
        Self { max_level: Level::Debug, split_by }
    }

    /// The same layer with another most verbose level.
    pub fn with_max_level(self, level: Level) -> (r: Self)
        ensures
            r.max_level() == level,
            r.split_by() == self.split_by(),
    {
        Self { max_level: level, split_by: self.split_by }
    }

    /// Whether a record of `level` is shown.
    pub fn enabled(&self, level: Level) -> (r: bool)
        ensures
            r == (level.verbosity() <= self.max_level().verbosity()),
    {
        level.at_most(self.max_level)
    }

    /// The channel of a record with the given target and outermost span, or
    /// `None` where the record is dropped.
    pub fn filter(&self, target: &str, root_span: Option<&str>) -> (r: Option<String>)
        ensures
            crate::draw::name_model(r) == self.split_by().routed(
                target@,
                match root_span {
                    Some(name) => Some(name@),
                    None => None,
                },
            ),
    {
        match &self.split_by {
            SplitBy::Target(filter) => filter.filter(target.to_owned()),
            SplitBy::TargetPrefix(filter) => filter.filter(target_prefix(target)),
            SplitBy::SpanPrefix(filter) => {
                let name = match root_span {
                    Some(name) => name.to_owned(),
                    None => NAME_NOT_FOUND.to_owned(),
                };
                filter.filter(name)
            },
        }
    }

    /// Appends the routing decision for one record to the queue that pairs
    /// decisions with the records' bytes.
    pub fn on_event(
        &self,
        target: &str,
        root_span: Option<&str>,
        trace_names: &mut VecDeque<Option<String>>,
    )
        ensures
            final(trace_names)@.len() == old(trace_names)@.len() + 1,
            final(trace_names)@.drop_last() == old(trace_names)@,
            crate::draw::name_model(final(trace_names)@.last()) == self.split_by().routed(
                target@,
                match root_span {
                    Some(name) => Some(name@),
                    None => None,
                },
            ),
    {
        let name = self.filter(target, root_span);
        trace_names.push_back(name);
    }
}

} // verus!
