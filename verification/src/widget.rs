//! Display-support computations: the error popup's text and geometry, and
//! the progress view's backing state. Drawing itself is the shell's
//! concern; everything here is plain data and arithmetic.

use vstd::prelude::*;

verus! {

/// The index of the first newline at or after `from`, or the length.
pub open spec fn find_newline(s: Seq<char>, from: int) -> int
    recommends
        0 <= from <= s.len(),
    decreases s.len() - from,
{
    if from < 0 || from >= s.len() {
        s.len() as int
    } else if s[from] == '\n' {
        from
    } else {
        find_newline(s, from + 1)
    }
}

/// A line with a trailing carriage return loses it.
pub open spec fn strip_cr(l: Seq<char>) -> Seq<char> {
    if l.len() > 0 && l.last() == '\r' {
        l.drop_last()
    } else {
        l
    }
}

/// The lines of `s` starting at `from`: newline-separated, with a
/// trailing carriage return removed from each; text ending in a newline
/// has no final empty line.
pub open spec fn lines_from(s: Seq<char>, from: int) -> Seq<Seq<char>>
    recommends
        0 <= from <= s.len(),
    decreases s.len() - from,
    via lines_from_decreases
{
    if from < 0 || from >= s.len() {
        Seq::empty()
    } else {
        let e = find_newline(s, from);
        if e >= s.len() {
            seq![strip_cr(s.subrange(from, e))]
        } else {
            seq![strip_cr(s.subrange(from, e))] + lines_from(s, e + 1)
        }
    }
}

#[via_fn]
proof fn lines_from_decreases(s: Seq<char>, from: int) {
    if 0 <= from && from < s.len() {
        lemma_find_newline(s, from);
    }
}

/// The lines of a text.
pub open spec fn lines_model(s: Seq<char>) -> Seq<Seq<char>> {
    lines_from(s, 0)
}

/// The newline search stays within bounds and finds no earlier newline.
proof fn lemma_find_newline(s: Seq<char>, from: int)
    requires
        0 <= from <= s.len(),
    ensures
        from <= find_newline(s, from) <= s.len(),
        find_newline(s, from) < s.len() ==> s[find_newline(s, from)] == '\n',
        forall|j: int| from <= j < find_newline(s, from) ==> s[j] != '\n',
    decreases s.len() - from,
{
    if from < s.len() && s[from] != '\n' {
        lemma_find_newline(s, from + 1);
    }
}

/// The longest line's length, or a default width when there are none.
pub open spec fn max_line_len(lines: Seq<Seq<char>>) -> nat
    decreases lines.len(),
{
    if lines.len() == 0 {
        94
    } else {
        let rest = max_line_len(lines.drop_last());
        if lines.last().len() > rest || lines.len() == 1 {
            lines.last().len()
        } else {
            rest
        }
    }
}

/// A value capped at the largest `u16`.
pub open spec fn cap_u16(n: nat) -> nat {
    if n > 65535 {
        65535
    } else {
        n
    }
}

/// The message shown by the full-screen error state.
pub struct ErrorView {
    message: String,
}

impl View for ErrorView {
    type V = Seq<char>;

    /// An error view is abstracted by the characters of its message.
    closed spec fn view(&self) -> Seq<char> {
        self.message@
    }
}

impl ErrorView {
    /// An error view around a message.
    pub fn new(message: String) -> (r: Self)
        ensures
            r@ == message@,
    {
        ErrorView { message }
    }

    /// The message shown.
    pub fn message(&self) -> (r: &String)
        ensures
            r@ == self@,
    {
        &self.message
    }

    /// The message, line by line.
    pub fn lines(&self) -> (r: Vec<String>)
        ensures
            crate::strutil::string_views(r@) == lines_model(self@),
    {
        let s = self.message.as_str();
        let n = s.unicode_len();
        let mut out: Vec<String> = Vec::new();
        let mut from: usize = 0;
        loop
            invariant_except_break
                crate::strutil::string_views(out@) + lines_from(s@, from as int) == lines_model(
                    s@,
                ),
            invariant
                from <= n,
                n == s@.len(),
                s@ == self@,
            ensures
                crate::strutil::string_views(out@) == lines_model(s@),
            decreases n - from,
        {
            if from >= n {
                proof {
                    assert(lines_from(s@, from as int) =~= Seq::<Seq<char>>::empty());
                    assert(crate::strutil::string_views(out@) =~= crate::strutil::string_views(
                        out@,
                    ) + lines_from(s@, from as int));
                    assert(crate::strutil::string_views(out@) =~= lines_model(s@));
                }
                break ;
            }
            let mut e: usize = from;
            loop
                invariant
                    from <= e <= n,
                    n == s@.len(),
                    forall|j: int| from <= j < e ==> s@[j] != '\n',
                ensures
                    from <= e <= n,
                    e as int == find_newline(s@, from as int),
                decreases n - e,
            {
                if e == n {
                    proof {
                        lemma_find_newline(s@, from as int);
                        if find_newline(s@, from as int) < n {
                            assert(s@[find_newline(s@, from as int)] == '\n');
                        }
                    }
                    break ;
                }
                if s.get_char(e) == '\n' {
                    proof {
                        lemma_find_newline(s@, from as int);
                        if find_newline(s@, from as int) < e {
                            assert(s@[find_newline(s@, from as int)] == '\n');
                        }
                    }
                    break ;
                }
                e = e + 1;
            }
            let line = s.substring_char(from, e);
            let line_len = line.unicode_len();
            let stripped: String;
            if line_len > 0 && line.get_char(line_len - 1) == '\r' {
                stripped = line.substring_char(0, line_len - 1).to_owned();
                proof {
                    assert(stripped@ =~= strip_cr(s@.subrange(from as int, e as int)));
                }
            } else {
                stripped = line.to_owned();
                proof {
                    assert(stripped@ == strip_cr(s@.subrange(from as int, e as int)));
                }
            }
            let ghost old_out = out@;
            out.push(stripped);
            proof {
                assert(crate::strutil::string_views(out@) =~= crate::strutil::string_views(
                    old_out,
                ).push(strip_cr(s@.subrange(from as int, e as int))));
                assert(lines_from(s@, from as int) =~= seq![
                    strip_cr(s@.subrange(from as int, e as int)),
                ] + lines_from(s@, e as int + 1));
                assert(crate::strutil::string_views(out@) + lines_from(s@, e as int + 1)
                    =~= lines_model(s@));
            }
            if e == n {
                proof {
                    assert(lines_from(s@, e as int + 1) =~= Seq::<Seq<char>>::empty());
                    assert(crate::strutil::string_views(out@) =~= crate::strutil::string_views(
                        out@,
                    ) + lines_from(s@, e as int + 1));
                    assert(crate::strutil::string_views(out@) =~= lines_model(s@));
                }
                break ;
            }
            from = e + 1;
        }
        out
    }

    /// The popup's width and height: the longest line plus the frame,
    /// and the line count plus the frame, each capped at the largest
    /// `u16`.
    pub fn popup_dimensions(&self) -> (r: (u16, u16))
        ensures
            r.0 as nat == cap_u16(max_line_len(lines_model(self@)) + 6),
            r.1 as nat == cap_u16(lines_model(self@).len() + 2),
    {
        let lines = self.lines();
        let n = lines.len();
        let mut widest: usize = 0;
        let mut i: usize = 0;
        while i < n
            invariant
                i <= n,
                n == lines@.len(),
                crate::strutil::string_views(lines@) == lines_model(self@),
                i == 0 ==> widest == 0,
                i > 0 ==> widest as nat == max_line_len(lines_model(self@).subrange(
                    0,
                    i as int,
                )),
            decreases n - i,
        {
            proof {
                let lm = lines_model(self@);
                assert(lm.subrange(0, i + 1).drop_last() =~= lm.subrange(0, i as int));
                assert(lm.subrange(0, i + 1).last() == lm[i as int]);
                assert(crate::strutil::string_views(lines@)[i as int] == lines@[i as int]@);
            }
            let l = lines[i].as_str().unicode_len();
            if i == 0 || l > widest {
                widest = l;
            }
            i = i + 1;
        }
        proof {
            let lm = lines_model(self@);
            assert(lm.subrange(0, n as int) =~= lm);
        }
        let w: u16 = if n == 0 {
            100
        } else if widest >= 65529 {
            65535
        } else {
            (widest + 6) as u16
        };
        let h: u16 = if n >= 65533 {
            65535
        } else {
            (n + 2) as u16
        };
        (w, h)
    }
}

/// The progress view's backing state: the lines the plan step has
/// printed so far.
pub struct PlanningViewState {
    pub plan_stdout: Vec<String>,
}

impl PlanningViewState {
    /// An empty progress view.
    pub fn new() -> (r: Self)
        ensures
            r.plan_stdout@.len() == 0,
    {
        PlanningViewState { plan_stdout: Vec::new() }
    }

    /// Records one received output line.
    pub fn push_line(&mut self, line: String)
        ensures
            final(self).plan_stdout@ == old(self).plan_stdout@.push(line),
    {
        self.plan_stdout.push(line);
    }
}

/// The frame rows around the progress view's text.
pub const BLOCK_HEIGHT: u16 = 2;

/// The scroll offset keeping the latest output visible.
pub open spec fn scroll_y_spec(line_count: nat, height: u16) -> nat {
    let viewport = if height >= BLOCK_HEIGHT {
        (height - BLOCK_HEIGHT) as nat
    } else {
        0
    };
    let lc = cap_u16(line_count);
    if lc >= viewport {
        (lc - viewport) as nat
    } else {
        0
    }
}

/// Computes the scroll offset of the progress view from its line count
/// and the drawing area's height.
pub fn scroll_y(line_count: usize, height: u16) -> (r: u16)
    ensures
        r as nat == scroll_y_spec(line_count as nat, height),
{
    let lc: u16 = if line_count > 65535 {
        65535
    } else {
        line_count as u16
    };
    let viewport: u16 = if height >= BLOCK_HEIGHT {
        height - BLOCK_HEIGHT
    } else {
        0
    };
    if lc >= viewport {
        lc - viewport
    } else {
        0
    }
}

} // verus!
