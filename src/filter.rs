//! Deciding which log records to emit, by level, with a per-module override.
use vstd::prelude::*;
use vstd::string::StringExecFns;

verus! {

/// How severe a record is, from the most to the least severe.
#[derive(Debug, Clone, Copy, PartialEq, Eq, Structural)]
pub enum Level {
    Error,
    Warn,
    Info,
    Debug,
    Trace,
}

/// The least severe level let through; `Off` lets nothing through.
#[derive(Debug, Clone, Copy, PartialEq, Eq, Structural)]
pub enum LevelFilter {
    Off,
    Error,
    Warn,
    Info,
    Debug,
    Trace,
}

/// Higher is less severe.
pub open spec fn level_rank(l: Level) -> nat {
    match l {
        Level::Error => 1,
        Level::Warn => 2,
        Level::Info => 3,
        Level::Debug => 4,
        Level::Trace => 5,
    }
}

/// Higher lets more through.
pub open spec fn filter_rank(f: LevelFilter) -> nat {
    match f {
        LevelFilter::Off => 0,
        LevelFilter::Error => 1,
        LevelFilter::Warn => 2,
        LevelFilter::Info => 3,
        LevelFilter::Debug => 4,
        LevelFilter::Trace => 5,
    }
}

impl Level {
    pub fn rank(&self) -> (r: u8)
        ensures
            r == level_rank(*self),
    {
        match self {
            Level::Error => 1,
            Level::Warn => 2,
            Level::Info => 3,
            Level::Debug => 4,
            Level::Trace => 5,
        }
    }
}

impl LevelFilter {
    pub fn rank(&self) -> (r: u8)
        ensures
            r == filter_rank(*self),
    {
        match self {
            LevelFilter::Off => 0,
            LevelFilter::Error => 1,
            LevelFilter::Warn => 2,
            LevelFilter::Info => 3,
            LevelFilter::Debug => 4,
            LevelFilter::Trace => 5,
        }
    }
}

/// The rank of the most permissive of `filters`; 0 if there is none.
pub open spec fn max_filter_rank(filters: Seq<(Seq<char>, LevelFilter)>) -> nat
    decreases filters.len(),
{
    if filters.len() == 0 {
        0
    } else {
        let rest = max_filter_rank(filters.drop_last());
        let last = filter_rank(filters.last().1);
        if rest >= last {
            rest
        } else {
            last
        }
    }
}

/// The filter that applies to records from `target`: the first one given for that module,
/// else the default.
pub open spec fn filter_for(
    default: LevelFilter,
    filters: Seq<(Seq<char>, LevelFilter)>,
    target: Seq<char>,
) -> LevelFilter
    decreases filters.len(),
{
    if filters.len() == 0 {
        default
    } else if filters[0].0 == target {
        filters[0].1
    } else {
        filter_for(default, filters.drop_first(), target)
    }
}

/// A level filter with overrides for chosen modules. A module may be named more than once:
/// the first override given for it is the one that applies.
pub struct FilteredLogger {
    default_level_filter: LevelFilter,
    module_filters: Vec<(String, LevelFilter)>,
}

impl FilteredLogger {
    pub closed spec fn default_filter(&self) -> LevelFilter {
        self.default_level_filter
    }

    /// The overrides, as (module, filter) pairs, in the order given; for a module named more
    /// than once, the first pair wins.
    pub closed spec fn overrides(&self) -> Seq<(Seq<char>, LevelFilter)> {
        self.module_filters@.map_values(|p: (String, LevelFilter)| (p.0@, p.1))
    }

    pub fn new(default_level_filter: LevelFilter, module_filters: Vec<(String, LevelFilter)>) -> (r:
        Self)
        ensures
            r.default_filter() == default_level_filter,
            r.overrides() == module_filters@.map_values(|p: (String, LevelFilter)| (p.0@, p.1)),
    {
        FilteredLogger { default_level_filter, module_filters }
    }

    /// The most permissive filter among the default and the overrides: no record that it
    /// refuses can be emitted.
    pub fn max_level(&self) -> (r: LevelFilter)
        ensures
            filter_rank(r) == if filter_rank(self.default_filter()) >= max_filter_rank(
                self.overrides(),
            ) {
                filter_rank(self.default_filter())
            } else {
                max_filter_rank(self.overrides())
            },
    {
        let mut best = self.default_level_filter;
        let mut i: usize = 0;
        while i < self.module_filters.len()
            invariant
                i <= self.module_filters@.len(),
                filter_rank(best) == if filter_rank(self.default_filter()) >= max_filter_rank(
                    self.overrides().take(i as int),
                ) {
                    filter_rank(self.default_filter())
                } else {
                    max_filter_rank(self.overrides().take(i as int))
                },
            decreases self.module_filters@.len() - i,
        {
            let candidate = self.module_filters[i].1;
            proof {
                assert(self.overrides().take(i + 1).drop_last() =~= self.overrides().take(
                    i as int,
                ));
                assert(self.overrides()[i as int].1 == candidate);
            }
            if candidate.rank() > best.rank() {
                best = candidate;
            }
            i = i + 1;
        }
        assert(self.overrides().take(i as int) =~= self.overrides());
        best
    }

    /// Whether a record at `level` from module `target` is emitted.
    pub fn enabled(&self, target: &str, level: Level) -> (r: bool)
        ensures
            r == (level_rank(level) <= filter_rank(
                filter_for(self.default_filter(), self.overrides(), target@),
            )),
    {
        let target_name = String::from_str(target);
        let mut filter = self.default_level_filter;
        let mut i: usize = 0;
        assert(self.overrides().skip(0) =~= self.overrides());
        while i < self.module_filters.len()
            invariant_except_break
                filter == self.default_filter(),
            invariant
                i <= self.module_filters@.len(),
                target_name@ == target@,
                filter_for(self.default_filter(), self.overrides(), target@) == filter_for(
                    self.default_filter(),
                    self.overrides().skip(i as int),
                    target@,
                ),
            ensures
                filter == filter_for(self.default_filter(), self.overrides(), target@),
            decreases self.module_filters@.len() - i,
        {
            proof {
                assert(self.overrides().skip(i as int).drop_first() =~= self.overrides().skip(
                    i + 1,
                ));
            }
            if self.module_filters[i].0 == target_name {
                filter = self.module_filters[i].1;
                break;
            }
            i = i + 1;
        }
        proof {
            if i == self.module_filters@.len() {
                assert(self.overrides().skip(i as int).len() == 0);
            }
        }
        level.rank() <= filter.rank()
    }
}

} // verus!
