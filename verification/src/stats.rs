//! The aggregated snapshot of a user's GitHub activity: one `Language`
//! entry per language, and the `Stats` value that the renderers consume,
//! built through `StatsBuilder`.
//!
//! A language's `proportion` is carried in hundredths of a percent
//! (7500 stands for 75.00%), so that the legend's two-decimal rendering
//! is exact integer arithmetic.

use vstd::prelude::*;

verus! {

/// No two entries of a language breakdown share a name: the aggregator
/// keys languages by name, so a snapshot's list carries each at most
/// once.
pub open spec fn distinct_language_names(s: Seq<Language>) -> bool {
    forall|i: int, j: int| 0 <= i < j < s.len() ==> s[i].name@ != s[j].name@
}

/// One programming language's footprint in the user's repositories.
pub struct Language {
    /// Display name, non-empty by convention.
    pub name: String,
    /// Bytes of code written in this language.
    pub size: i64,
    /// Number of repositories in which the language occurs.
    pub occurrences: i64,
    /// Hex color for the language's marker, e.g. `#3572A5`.
    pub color: String,
    /// Share of the total code size, in hundredths of a percent.
    pub proportion: u64,
}

impl Clone for Language {
    fn clone(&self) -> (r: Self)
        ensures
            r == *self,
    {
        Language {
            name: self.name.clone(),
            size: self.size,
            occurrences: self.occurrences,
            color: self.color.clone(),
            proportion: self.proportion,
        }
    }
}

impl Language {
    pub fn new(name: String, size: i64, occurrences: i64, color: String, proportion: u64) -> (r:
        Self)
        ensures
            r == (Language { name, size, occurrences, color, proportion }),
    {
        Self { name, size, occurrences, color, proportion }
    }

    pub fn color(&self) -> (r: &str)
        ensures
            r@ == self.color@,
    {
        self.color.as_str()
    }

    pub fn proportion(&self) -> (r: u64)
        ensures
            r == self.proportion,
    {
        self.proportion
    }

    pub fn name(&self) -> (r: &str)
        ensures
            r@ == self.name@,
    {
        self.name.as_str()
    }
}

/// The complete rendering input; immutable once built.
pub struct Stats {
    pub name: String,
    pub stargazers: i32,
    pub forks: i64,
    pub total_contributions: i64,
    /// The language breakdown; names are unique by the aggregator's
    /// contract (`distinct_language_names`), and the renderer does not
    /// depend on their order.
    pub languages: Vec<Language>,
    /// Identifiers of the repositories that were aggregated.
    pub repos: Vec<String>,
    /// Lines added and lines removed; renderers report their sum.
    pub lines_changed: (i64, i64),
    pub views: i64,
    /// Daily contribution counts, in chronological order.
    pub contribution_calendar: Vec<u64>,
}

impl Stats {
    #[allow(clippy::too_many_arguments)]
    pub fn new(
        name: String,
        stargazers: i32,
        forks: i64,
        total_contributions: i64,
        languages: Vec<Language>,
        repos: Vec<String>,
        lines_changed: (i64, i64),
        views: i64,
        contribution_calendar: Vec<u64>,
    ) -> (r: Self)
        ensures
            r == (Stats {
                name,
                stargazers,
                forks,
                total_contributions,
                languages,
                repos,
                lines_changed,
                views,
                contribution_calendar,
            }),
    {
        Self {
            name,
            stargazers,
            forks,
            total_contributions,
            languages,
            repos,
            lines_changed,
            views,
            contribution_calendar,
        }
    }

    pub fn builder() -> (r: StatsBuilder)
        ensures
            r.name is None,
            r.stargazers is None,
            r.forks is None,
            r.total_contributions is None,
            r.languages is None,
            r.repos is None,
            r.lines_changed is None,
            r.views is None,
            r.contribution_calendar is None,
    {
        StatsBuilder {
            name: None,
            stargazers: None,
            forks: None,
            total_contributions: None,
            languages: None,
            repos: None,
            lines_changed: None,
            views: None,
            contribution_calendar: None,
        }
    }

    pub fn name(&self) -> (r: &str)
        ensures
            r@ == self.name@,
    {
        self.name.as_str()
    }

    pub fn stargazers(&self) -> (r: i32)
        ensures
            r == self.stargazers,
    {
        self.stargazers
    }

    pub fn forks(&self) -> (r: i64)
        ensures
            r == self.forks,
    {
        self.forks
    }

    pub fn total_contributions(&self) -> (r: i64)
        ensures
            r == self.total_contributions,
    {
        self.total_contributions
    }

    pub fn languages(&self) -> (r: &Vec<Language>)
        ensures
            r == &self.languages,
    {
        &self.languages
    }

    pub fn repos(&self) -> (r: &Vec<String>)
        ensures
            r == &self.repos,
    {
        &self.repos
    }

    pub fn lines_changed(&self) -> (r: (i64, i64))
        ensures
            r == self.lines_changed,
    {
        self.lines_changed
    }

    pub fn views(&self) -> (r: i64)
        ensures
            r == self.views,
    {
        self.views
    }

    pub fn contribution_calendar(&self) -> (r: &Vec<u64>)
        ensures
            r == &self.contribution_calendar,
    {
        &self.contribution_calendar
    }
}

/// Accumulates the optional fields of a `Stats` value; every field that
/// is still unset when `build` is called falls back to zero or empty.
pub struct StatsBuilder {
    pub name: Option<String>,
    pub stargazers: Option<i32>,
    pub forks: Option<i64>,
    pub total_contributions: Option<i64>,
    pub languages: Option<Vec<Language>>,
    pub repos: Option<Vec<String>>,
    pub lines_changed: Option<(i64, i64)>,
    pub views: Option<i64>,
    pub contribution_calendar: Option<Vec<u64>>,
}

impl StatsBuilder {
    pub fn build(self) -> (r: Stats)
        ensures
            r.name@ == (if self.name is Some {
                self.name->0@
            } else {
                Seq::<char>::empty()
            }),
            r.stargazers == (if self.stargazers is Some {
                self.stargazers->0
            } else {
                0i32
            }),
            r.forks == (if self.forks is Some {
                self.forks->0
            } else {
                0i64
            }),
            r.total_contributions == (if self.total_contributions is Some {
                self.total_contributions->0
            } else {
                0i64
            }),
            r.languages@ == (if self.languages is Some {
                self.languages->0@
            } else {
                Seq::<Language>::empty()
            }),
            r.repos@ == (if self.repos is Some {
                self.repos->0@
            } else {
                Seq::<String>::empty()
            }),
            r.lines_changed == (if self.lines_changed is Some {
                self.lines_changed->0
            } else {
                (0i64, 0i64)
            }),
            r.views == (if self.views is Some {
                self.views->0
            } else {
                0i64
            }),
            r.contribution_calendar@ == (if self.contribution_calendar is Some {
                self.contribution_calendar->0@
            } else {
                Seq::<u64>::empty()
            }),
    {
        Stats {
            name: match self.name {
                Some(v) => v,
                None => String::new(),
            },
            stargazers: match self.stargazers {
                Some(v) => v,
                None => 0,
            },
            forks: match self.forks {
                Some(v) => v,
                None => 0,
            },
            total_contributions: match self.total_contributions {
                Some(v) => v,
                None => 0,
            },
            languages: match self.languages {
                Some(v) => v,
                None => Vec::new(),
            },
            repos: match self.repos {
                Some(v) => v,
                None => Vec::new(),
            },
            lines_changed: match self.lines_changed {
                Some(v) => v,
                None => (0, 0),
            },
            views: match self.views {
                Some(v) => v,
                None => 0,
            },
            contribution_calendar: match self.contribution_calendar {
                Some(v) => v,
                None => Vec::new(),
            },
        }
    }

    pub fn name(self, name: String) -> (r: Self)
        ensures
            r == (StatsBuilder { name: Some(name), ..self }),
    {
        Self { name: Some(name), ..self }
    }

    pub fn stargazers(self, stargazers: i32) -> (r: Self)
        ensures
            r == (StatsBuilder { stargazers: Some(stargazers), ..self }),
    {
        Self { stargazers: Some(stargazers), ..self }
    }

    pub fn forks(self, forks: i64) -> (r: Self)
        ensures
            r == (StatsBuilder { forks: Some(forks), ..self }),
    {
        Self { forks: Some(forks), ..self }
    }

    pub fn total_contributions(self, total_contributions: i64) -> (r: Self)
        ensures
            r == (StatsBuilder { total_contributions: Some(total_contributions), ..self }),
    {
        Self { total_contributions: Some(total_contributions), ..self }
    }

    pub fn languages(self, languages: Vec<Language>) -> (r: Self)
        ensures
            r == (StatsBuilder { languages: Some(languages), ..self }),
    {
        Self { languages: Some(languages), ..self }
    }

    pub fn repos(self, repos: Vec<String>) -> (r: Self)
        ensures
            r == (StatsBuilder { repos: Some(repos), ..self }),
    {
        Self { repos: Some(repos), ..self }
    }

    pub fn lines_changed(self, lines_changed: (i64, i64)) -> (r: Self)
        ensures
            r == (StatsBuilder { lines_changed: Some(lines_changed), ..self }),
    {
        Self { lines_changed: Some(lines_changed), ..self }
    }

    pub fn views(self, views: i64) -> (r: Self)
        ensures
            r == (StatsBuilder { views: Some(views), ..self }),
    {
        Self { views: Some(views), ..self }
    }

    pub fn contribution_calendar(self, contribution_calendar: Vec<u64>) -> (r: Self)
        ensures
            r == (StatsBuilder { contribution_calendar: Some(contribution_calendar), ..self }),
    {
        Self { contribution_calendar: Some(contribution_calendar), ..self }
    }
}

} // verus!
