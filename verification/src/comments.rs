use vstd::prelude::*;

use crate::error::Error;
use crate::text::{lemma_split_lines_at, split_lines, trim, trim_spec};

verus! {

/// The disclaimer attached to every comments value.
pub const DISCLAIMER: &'static str = "(Roleplay — fictional messages for entertainment.)";

/// The longest caption the messaging transport accepts.
pub const TELEGRAM_CAPTION_LIMIT: usize = 4096;

/// The comment used when no other is available.
pub const FALLBACK_COMMENT: &'static str =
    "Oh come on, that's brilliant — and slightly chaotic, like always.";

/// The pool of comments a caption is picked from, with its disclaimer.
#[derive(Debug)]
pub struct Comments {
    pub disclaimer: String,
    pub lines: Vec<String>,
}

/// Whether a trimmed line of a comments file is kept: non-empty and not a
/// `#` comment.
pub open spec fn keeps_line(t: Seq<char>) -> bool {
    t.len() > 0 && t[0] != '#'
}

/// The usable comments among a file's lines: each line trimmed, blank and
/// `#`-marked lines dropped.
pub open spec fn comment_lines(ls: Seq<Seq<char>>) -> Seq<Seq<char>>
    decreases ls.len(),
{
    if ls.len() == 0 {
        Seq::empty()
    } else {
        let t = trim_spec(ls[0]);
        let rest = comment_lines(ls.drop_first());
        if keeps_line(t) {
            seq![t] + rest
        } else {
            rest
        }
    }
}

/// The usable comments of a comments file's whole text.
pub open spec fn comments_of(s: Seq<char>) -> Seq<Seq<char>> {
    comment_lines(split_lines(s))
}

/// A caption is a comment truncated to the transport's limit, with a trailing
/// ellipsis when it was too long.
pub open spec fn truncate_caption(s: Seq<char>) -> Seq<char> {
    if s.len() > TELEGRAM_CAPTION_LIMIT {
        s.take(TELEGRAM_CAPTION_LIMIT - 3) + "..."@
    } else {
        s
    }
}

/// Relies on `rand::random_range`: a random index below `n`. Nothing is
/// assumed of which index comes back, only that it is in range.
#[verifier::external_body]
fn random_below(n: usize) -> (r: usize)
    requires
        n > 0,
    ensures
        r < n,
{
    rand::random_range(0..n)
}

impl Comments {
    /// Build a comments value from an explicit pool of lines.
    pub fn from_lines(lines: Vec<String>) -> (r: Comments)
        ensures
            r.disclaimer@ == DISCLAIMER@,
            r.lines@ == lines@,
    {
        Comments { disclaimer: DISCLAIMER.to_owned(), lines }
    }

    /// The built-in comments, for tests and as a fallback when no comments
    /// file is configured.
    pub fn dummy() -> (r: Comments)
        ensures
            r.disclaimer@ == DISCLAIMER@,
            r.lines@.len() == 4,
            r.lines@[0]@ == FALLBACK_COMMENT@,
            r.lines@[1]@
                == "That is a proper bit of craftsmanship — then someone presses the red button."@,
            r.lines@[2]@ == "Nice shot — looks good on the trailer, not so good on the gearbox."@,
            r.lines@[3]@ == "Here you go. Judge for yourself."@,
    {
        let mut lines: Vec<String> = Vec::new();
        lines.push(FALLBACK_COMMENT.to_owned());
        lines.push(
            "That is a proper bit of craftsmanship — then someone presses the red button.".to_owned(),
        );
        lines.push("Nice shot — looks good on the trailer, not so good on the gearbox.".to_owned());
        lines.push("Here you go. Judge for yourself.".to_owned());
        Comments { disclaimer: DISCLAIMER.to_owned(), lines }
    }

    /// Parse a comments file's text: trim each line, drop blank lines and
    /// `#` comments, and fail when no usable line remains.
    pub fn from_text(content: &str) -> (r: Result<Comments, Error>)
        ensures
            r is Ok <==> comments_of(content@).len() > 0,
            r matches Ok(c) ==> c.lines.deep_view() == comments_of(content@) && c.disclaimer@
                == DISCLAIMER@,
            r matches Err(e) ==> (e matches Error::Other(m) && m@
                == "comments file contains no usable lines"@),
    {
        let n = content.unicode_len();
        let mut lines: Vec<String> = Vec::new();
        let mut pos: usize = 0;
        proof {
            assert(content@.skip(0) =~= content@);
        }
        while pos < n
            invariant
                n == content@.len(),
                pos <= n,
                lines.deep_view() + comment_lines(split_lines(content@.skip(pos as int)))
                    == comments_of(content@),
            decreases n - pos,
        {
            let mut j: usize = pos;
            while j < n && content.get_char(j) != '\n'
                invariant
                    n == content@.len(),
                    pos <= j <= n,
                    forall|k: int| pos <= k < j ==> content@[k] != '\n',
                decreases n - j,
            {
                j = j + 1;
            }
            let ghost old_lines = lines.deep_view();
            let ghost seg = content@.subrange(pos as int, j as int);
            let ghost next = if (j as int) < content@.len() {
                j + 1
            } else {
                j as int
            };
            proof {
                lemma_split_lines_at(content@, pos as int, j as int);
                let ls = split_lines(content@.skip(pos as int));
                assert(ls == seq![seg] + split_lines(content@.skip(next)));
                assert(ls.len() > 0 && ls[0] == seg);
                assert(ls.drop_first() =~= split_lines(content@.skip(next)));
                assert(comment_lines(ls) == if keeps_line(trim_spec(seg)) {
                    seq![trim_spec(seg)] + comment_lines(split_lines(content@.skip(next)))
                } else {
                    comment_lines(split_lines(content@.skip(next)))
                });
            }
            let segment = content.substring_char(pos, j);
            let t = trim(segment);
            let keep = t.unicode_len() > 0 && t.get_char(0) != '#';
            assert(keep == keeps_line(trim_spec(seg)));
            if keep {
                lines.push(t.to_owned());
                proof {
                    assert(lines.deep_view() =~= old_lines + seq![trim_spec(seg)]);
                    assert(old_lines + (seq![trim_spec(seg)] + comment_lines(
                        split_lines(content@.skip(next)),
                    )) =~= lines.deep_view() + comment_lines(split_lines(content@.skip(next))));
                }
            }
            pos = if j < n {
                j + 1
            } else {
                n
            };
        }
        proof {
            assert(content@.skip(n as int) =~= Seq::<char>::empty());
            assert(comment_lines(split_lines(content@.skip(n as int))) =~= Seq::<Seq<char>>::empty());
            assert(lines.deep_view() + Seq::<Seq<char>>::empty() =~= lines.deep_view());
        }
        if lines.is_empty() {
            assert(comments_of(content@).len() == 0);
            return Err(Error::other("comments file contains no usable lines"));
        }
        Ok(Comments { disclaimer: DISCLAIMER.to_owned(), lines })
    }

    /// The pool of comment lines.
    pub fn lines(&self) -> (r: &Vec<String>)
        ensures
            r@ == self.lines@,
    {
        &self.lines
    }

    /// Pick a comment at random; an empty pool falls back to the built-in
    /// comment. Which line of a non-empty pool comes back is not specified.
    pub fn pick(&self) -> (r: &str)
        ensures
            self.lines@.len() == 0 ==> r@ == FALLBACK_COMMENT@,
            self.lines@.len() > 0 ==> exists|i: int|
                0 <= i < self.lines@.len() && r@ == #[trigger] self.lines@[i]@,
    {
        if self.lines.is_empty() {
            FALLBACK_COMMENT
        } else {
            let i = random_below(self.lines.len());
            self.lines[i].as_str()
        }
    }

    /// Build a caption: pick a comment and truncate it to the transport's
    /// limit, marking the cut with an ellipsis.
    pub fn build_caption(&self) -> (r: String)
        ensures
            self.lines@.len() == 0 ==> r@ == truncate_caption(FALLBACK_COMMENT@),
            self.lines@.len() > 0 ==> exists|i: int|
                0 <= i < self.lines@.len() && r@ == truncate_caption(#[trigger] self.lines@[i]@),
    {
        let picked = self.pick();
        let n = picked.unicode_len();
        let r: String = if n > TELEGRAM_CAPTION_LIMIT {
            let t = picked.substring_char(0, TELEGRAM_CAPTION_LIMIT - 3);
            String::from_str(t).concat("...")
        } else {
            picked.to_owned()
        };
        proof {
            assert(r@ == truncate_caption(picked@));
            if self.lines@.len() > 0 {
                let i = choose|i: int| 0 <= i < self.lines@.len() && picked@ == self.lines@[i]@;
                assert(r@ == truncate_caption(self.lines@[i]@));
            }
        }
        r
    }
}

} // verus!
