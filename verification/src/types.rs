//! The data that the library hands out.

use vstd::prelude::*;

verus! {

/// What is known of a track. The duration is counted in hundredths of a
/// second.
#[derive(Debug)]
pub struct TrackInfo {
    pub title: String,
    pub artist: String,
    pub album: Option<String>,
    pub duration: Option<u64>,
    pub thumbnail: Option<String>,
}

/// One line of lyrics on a timeline. Times are counted in hundredths of a
/// second.
#[derive(Debug)]
pub struct LyricLine {
    /// When the line starts.
    pub time: u64,
    /// The words; never empty in a line that the library made.
    pub text: String,
    /// How long the line is shown.
    pub duration: Option<u64>,
}

/// A lyric line as a mathematical value.
pub struct LineView {
    pub time: nat,
    pub text: Seq<char>,
    pub duration: Option<nat>,
}

impl View for LyricLine {
    type V = LineView;

    open spec fn view(&self) -> LineView {
        LineView {
            time: self.time as nat,
            text: self.text@,
            duration: match self.duration {
                Some(d) => Some(d as nat),
                None => None,
            },
        }
    }
}

impl DeepView for LyricLine {
    type V = LineView;

    open spec fn deep_view(&self) -> LineView {
        self@
    }
}

impl LyricLine {
    /// A copy of the line.
    pub fn copy(&self) -> (r: LyricLine)
        ensures
            r@ == self@,
    {
        LyricLine { time: self.time, text: self.text.clone(), duration: self.duration }
    }
}

/// Copies a list of lines.
pub fn copy_lines(lines: &Vec<LyricLine>) -> (r: Vec<LyricLine>)
    ensures
        r.deep_view() == lines.deep_view(),
{
    let mut out: Vec<LyricLine> = Vec::new();
    let mut i: usize = 0;
    while i < lines.len()
        invariant
            i <= lines.len(),
            out.deep_view() == lines.deep_view().take(i as int),
        decreases lines.len() - i,
    {
        let ghost before = out.deep_view();
        out.push(lines[i].copy());
        proof {
            assert(out.deep_view() =~= before.push(lines@[i as int]@));
        }
        i += 1;
    }
    out
}

} // verus!
