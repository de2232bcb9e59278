//! Output formats, and the plain-text rendering of a finished scrape.

use vstd::prelude::*;

use crate::review::{reviews_view, ReviewView, Score, UserReview, UserReviews};
use crate::text::{chars_of, decimal_of, push_chars, push_decimal, push_str};

verus! {

/// The format the reviews are exported in.
#[derive(Clone, Copy, Debug, PartialEq, Eq, Structural)]
pub enum FileType {
    Csv,
    Json,
    Txt,
}

/// The name of a format.
pub open spec fn file_type_name(f: FileType) -> Seq<char> {
    match f {
        FileType::Csv => "csv"@,
        FileType::Json => "json"@,
        FileType::Txt => "txt"@,
    }
}

/// The file written when no output path is given.
pub open spec fn default_path_of(f: FileType) -> Seq<char> {
    match f {
        FileType::Csv => "reviews.csv"@,
        FileType::Json => "reviews.json"@,
        FileType::Txt => "reviews.txt"@,
    }
}

impl FileType {
    /// The name of the format, as written on the command line.
    pub fn as_str(&self) -> (r: &'static str)
        ensures
            r@ == file_type_name(*self),
    {
        match self {
            FileType::Csv => "csv",
            FileType::Json => "json",
            FileType::Txt => "txt",
        }
    }

    /// The file written when no output path is given.
    pub fn default_path(&self) -> (r: &'static str)
        ensures
            r@ == default_path_of(*self),
    {
        match self {
            FileType::Csv => "reviews.csv",
            FileType::Json => "reviews.json",
            FileType::Txt => "reviews.txt",
        }
    }
}

/// `k` zero digits.
pub open spec fn zeros(k: int) -> Seq<char> {
    Seq::new(if k > 0 { k as nat } else { 0 }, |i: int| '0')
}

/// The decimal notation of a score: its digits, padded with leading zeros
/// so that one digit stands before the point, with `scale` digits after it.
pub open spec fn score_text(s: Score) -> Seq<char> {
    let d = decimal_of(s.units as nat);
    if s.scale == 0 {
        d
    } else {
        let p = zeros(s.scale + 1 - d.len()) + d;
        p.take(p.len() - s.scale) + "."@ + p.skip(p.len() - s.scale)
    }
}

/// The decimal notation of a year, with a minus sign when it is negative.
pub open spec fn year_text(y: int) -> Seq<char> {
    if y < 0 {
        "-"@ + decimal_of((-y) as nat)
    } else {
        decimal_of(y as nat)
    }
}

/// The plain-text block of one review.
pub open spec fn text_block(r: ReviewView) -> Seq<char> {
    "Title: "@ + r.title + "\nYear: "@ + year_text(r.year) + "\nScore: "@ + score_text(r.score)
        + "\nReview:\n"@ + r.body + "\n\n"@
}

/// The plain-text export of reviews: their blocks, one after another.
pub open spec fn text_export(rs: Seq<ReviewView>) -> Seq<char> {
    rs.map_values(|r: ReviewView| text_block(r)).flatten()
}

/// Writes the decimal notation of `s` after `out`.
pub fn push_score(out: &mut String, s: Score)
    ensures
        final(out)@ == old(out)@ + score_text(s),
{
    let mut digits = String::new();
    push_decimal(&mut digits, s.units);
    if s.scale == 0 {
        push_str(out, digits.as_str());
        return;
    }
    let d = chars_of(digits.as_str());
    assert(d@.len() >= 1);
    let scale = s.scale as usize;
    let mut p: Vec<char> = Vec::new();
    let mut z: usize = 0;
    while d.len() <= scale && z <= scale - d.len()
        invariant
            d@ == decimal_of(s.units as nat),
            d@.len() >= 1,
            scale == s.scale,
            p@ == zeros(z as int),
            d@.len() <= scale ==> z <= scale - d@.len() + 1,
            d@.len() > scale ==> z == 0,
        decreases scale + 1 - z,
    {
        p.push('0');
        z = z + 1;
        assert(p@ == zeros(z as int));
    }
    let ghost padded = p@ + d@;
    assert(padded == zeros(scale + 1 - d@.len()) + d@);
    let mut digits_tail = d;
    p.append(&mut digits_tail);
    let m = p.len();
    let cut = m - scale;
    let mut i: usize = 0;
    while i < m
        invariant
            padded == p@,
            m == padded.len(),
            cut == m - scale,
            0 < cut <= m,
            i <= m,
            out@ == old(out)@ + (if i <= cut {
                padded.take(i as int)
            } else {
                padded.take(cut as int) + "."@ + padded.subrange(cut as int, i as int)
            }),
        decreases m - i,
    {
        let c = p[i];
        assert(c == padded[i as int]);
        if i == cut {
            push_str(out, ".");
        }
        let ghost before = out@;
        out.push(c);
        proof {
            if i + 1 <= cut {
                assert(padded.take(i + 1) == padded.take(i as int).push(c));
            } else if i == cut {
                assert(padded.subrange(cut as int, i + 1) == seq![c]);
            } else {
                assert(padded.subrange(cut as int, i + 1) == padded.subrange(cut as int, i as int).push(c));
            }
        }
        i = i + 1;
    }
    proof {
        if cut == m {
            assert(false);
        }
    }
    assert(padded.subrange(cut as int, m as int) == padded.skip(cut as int));
}

impl Score {
    /// The decimal notation of the score (`4.5`, `0.05`, `3`).
    pub fn to_text(&self) -> (r: String)
        ensures
            r@ == score_text(*self),
    {
        let mut r = String::new();
        push_score(&mut r, *self);
        r
    }
}

/// Writes the plain-text block of `r` after `out`.
fn push_block(out: &mut String, r: &UserReview)
    ensures
        final(out)@ == old(out)@ + text_block(r@),
{
    let ghost start = out@;
    push_str(out, "Title: ");
    push_str(out, r.title.as_str());
    push_str(out, "\nYear: ");
    let ghost mark = out@;
    if r.year < 0 {
        push_str(out, "-");
        push_decimal(out, (0 - (r.year as i64)) as u64);
    } else {
        push_decimal(out, r.year as u64);
    }
    assert(out@ == mark + year_text(r.year as int));
    push_str(out, "\nScore: ");
    push_score(out, r.score);
    push_str(out, "\nReview:\n");
    push_str(out, r.review.as_str());
    push_str(out, "\n\n");
}

impl UserReviews {
    /// The plain-text export: for each review, in order, a block
    /// `Title: <title>\nYear: <year>\nScore: <score>\nReview:\n<body>\n\n`.
    pub fn to_text(&self) -> (r: String)
        ensures
            r@ == text_export(reviews_view(self.reviews@)),
    {
        let ghost rs = reviews_view(self.reviews@);
        let mut out = String::new();
        let n = self.reviews.len();
        for i in 0..n
            invariant
                n == self.reviews@.len(),
                rs == reviews_view(self.reviews@),
                out@ == text_export(rs.take(i as int)),
        {
            push_block(&mut out, &self.reviews[i]);
            proof {
                let blocks = rs.take(i as int).map_values(|r: ReviewView| text_block(r));
                assert(rs.take(i + 1).map_values(|r: ReviewView| text_block(r)) == blocks.push(
                    text_block(rs[i as int]),
                ));
                blocks.lemma_flatten_push(text_block(rs[i as int]));
            }
        }
        assert(rs.take(n as int) == rs);
        out
    }
}

} // verus!
