use vstd::prelude::*;

verus! {

/// The measured extent of a piece of text.
#[derive(Clone, Copy, Debug, PartialEq, Eq, Structural)]
pub struct TextSize {
    pub width: u32,
    pub height: u32,
}

/// A measurement context: the size of a text in the active font and scale.
/// Measuring is a pure query, so the size is a function of the context and
/// the text.
pub trait TextMeasure {
    /// The size that `measure` reports for `text`.
    spec fn text_size(&self, text: Seq<char>) -> TextSize;

    fn measure(&self, text: &str) -> (size: TextSize)
        ensures
            size == self.text_size(text@),
    ;
}

/// A context in which every text measures the same.
#[derive(Clone, Copy, Debug, PartialEq, Eq, Structural)]
pub struct FixedMeasure {
    pub width: u32,
    pub height: u32,
}

impl TextMeasure for FixedMeasure {
    open spec fn text_size(&self, text: Seq<char>) -> TextSize {
        TextSize { width: self.width, height: self.height }
    }

    fn measure(&self, text: &str) -> (size: TextSize) {
        TextSize { width: self.width, height: self.height }
    }
}

/// A context that knows the sizes of the texts listed in it; any other
/// text measures as `missing`.
#[derive(Debug)]
pub struct TextTable {
    pub entries: Vec<(String, TextSize)>,
    pub missing: TextSize,
}

/// The size that the first entry for `text` at or after index `from` gives,
/// or `missing` where there is none.
pub open spec fn lookup_from(
    entries: Seq<(String, TextSize)>,
    from: int,
    text: Seq<char>,
    missing: TextSize,
) -> TextSize
    decreases entries.len() - from,
{
    if from < 0 || from >= entries.len() {
        missing
    } else if entries[from].0@ == text {
        entries[from].1
    } else {
        lookup_from(entries, from + 1, text, missing)
    }
}

impl TextMeasure for TextTable {
    open spec fn text_size(&self, text: Seq<char>) -> TextSize {
        lookup_from(self.entries@, 0, text, self.missing)
    }

    fn measure(&self, text: &str) -> (size: TextSize) {
        let wanted = text.to_owned();
        let mut i: usize = 0;
        while i < self.entries.len()
            invariant
                i <= self.entries.len(),
                wanted@ == text@,
                lookup_from(self.entries@, i as int, text@, self.missing) == lookup_from(
                    self.entries@,
                    0,
                    text@,
                    self.missing,
                ),
            decreases self.entries.len() - i,
        {
            if self.entries[i].0 == wanted {
                return self.entries[i].1;
            }
            i += 1;
        }
        self.missing
    }
}

} // verus!
