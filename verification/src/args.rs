//! The arguments of a run: which metrics to count, and of which files.

use vstd::prelude::*;

verus! {

/// A selection among the four metrics.
pub struct Metrics {
    pub bytes: bool,
    pub lines: bool,
    pub words: bool,
    pub chars: bool,
}

impl Metrics {
    /// Whether no metric is selected.
    pub open spec fn is_empty(self) -> bool {
        !self.bytes && !self.lines && !self.words && !self.chars
    }

    /// The selection that stands for none: bytes, lines and words.
    pub open spec fn default_selection() -> Metrics {
        Metrics { bytes: true, lines: true, words: true, chars: false }
    }

    /// The selection that a run works with: this one, or the default
    /// selection where this one is empty.
    pub open spec fn or_default(self) -> Metrics {
        if self.is_empty() {
            Metrics::default_selection()
        } else {
            self
        }
    }
}

/// The arguments of a run. The four flags select the metrics; the paths name
/// the files to count, and with no path the standard input is counted.
#[derive(Debug)]
pub struct Args {
    pub bytes: bool,
    pub lines: bool,
    pub words: bool,
    pub chars: bool,
    pub file_paths: Vec<String>,
}

impl Args {
    /// The metrics that the flags select.
    pub open spec fn metrics(&self) -> Metrics {
        Metrics { bytes: self.bytes, lines: self.lines, words: self.words, chars: self.chars }
    }

    /// The paths, each as its sequence of characters.
    pub open spec fn paths(&self) -> Seq<Seq<char>> {
        self.file_paths.deep_view()
    }

    /// Arguments with these flags and paths.
    pub fn new(bytes: bool, lines: bool, words: bool, chars: bool, file_paths: Vec<String>) -> (args:
        Args)
        ensures
            args.metrics() == (Metrics { bytes, lines, words, chars }),
            args.file_paths == file_paths,
    {
        Args { bytes, lines, words, chars, file_paths }
    }

    /// Selects bytes, lines and words where no flag is set, and changes
    /// nothing where one is.
    pub fn apply_defaults(&mut self)
        ensures
            final(self).metrics() == old(self).metrics().or_default(),
            final(self).file_paths == old(self).file_paths,
    {
        if !self.bytes && !self.chars && !self.lines && !self.words {
            self.bytes = true;
            self.lines = true;
            self.words = true;
        }
    }
}

/// The selection that a run works with is never empty, and applying the
/// default a second time changes nothing.
pub proof fn lemma_or_default(metrics: Metrics)
    ensures
        !metrics.or_default().is_empty(),
        metrics.or_default().or_default() == metrics.or_default(),
        !metrics.is_empty() ==> metrics.or_default() == metrics,
{
}

} // verus!
