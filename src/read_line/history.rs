//! Scrollback over the lines submitted so far, with the line being edited
//! kept aside as a draft while the user looks back.
use vstd::prelude::*;

use crate::utils::opt_view;

verus! {

/// Past lines (oldest first), the draft, and the navigation index:
/// 0 is the draft, `k > 0` the k-th most recent past line.
#[derive(Debug, Clone)]
pub struct History {
    past_lines: Vec<String>,
    draft_line: Option<String>,
    index: usize,
}

pub struct HistoryModel {
    pub past: Seq<String>,
    pub draft: Option<String>,
    pub index: nat,
}

impl HistoryModel {
    pub open spec fn wf(self) -> bool {
        self.index <= self.past.len()
    }
}

impl View for History {
    type V = HistoryModel;

    closed spec fn view(&self) -> HistoryModel {
        HistoryModel { past: self.past_lines@, draft: self.draft_line, index: self.index as nat }
    }
}

/// The text of the draft, if one is kept.
pub open spec fn draft_text(h: HistoryModel) -> Option<Seq<char>> {
    match h.draft {
        Some(d) => Some(d@),
        None => None,
    }
}

/// The draft after a scroll from `h` while `current` is being edited.
pub open spec fn draft_after(h: HistoryModel, current: Seq<char>) -> Option<Seq<char>> {
    if h.index == 0 {
        Some(current)
    } else {
        draft_text(h)
    }
}

/// The text of the line at navigation index `i` once the draft is `draft`.
pub open spec fn text_at(h: HistoryModel, draft: Option<Seq<char>>, i: int) -> Option<Seq<char>> {
    if i == 0 {
        draft
    } else if 0 < i <= h.past.len() {
        Some(h.past[h.past.len() - i]@)
    } else {
        None
    }
}

/// `h2` and `line` are what `scroll(current, offset)` leaves and returns on
/// `h`: the draft is taken when leaving index 0, and the index moves only
/// onto a line that exists, which is returned.
pub open spec fn scrolled(
    h: HistoryModel,
    current: Seq<char>,
    offset: int,
    h2: HistoryModel,
    line: Option<Seq<char>>,
) -> bool {
    let draft = draft_after(h, current);
    let target = h.index + offset;
    let found = text_at(h, draft, target);
    &&& h2.past == h.past
    &&& draft_text(h2) == draft
    &&& line == found
    &&& if found is Some {
        h2.index == target
    } else {
        h2.index == h.index
    }
}

impl History {
    pub fn from_lines(lines: Vec<String>) -> (r: History)
        ensures
            r@.past == lines@,
            r@.draft is None,
            r@.index == 0,
            r@.wf(),
    {
        History { past_lines: lines, draft_line: None, index: 0 }
    }

    /// Records a submitted line; empty lines are not kept.
    pub fn push(&mut self, line: String)
        requires
            old(self)@.wf(),
        ensures
            final(self)@.past == if line@.len() > 0 {
                old(self)@.past.push(line)
            } else {
                old(self)@.past
            },
            final(self)@.draft == old(self)@.draft,
            final(self)@.index == old(self)@.index,
            final(self)@.wf(),
    {
        if !line.as_str().is_empty() {
            self.past_lines.push(line);
        }
    }

    /// Back to the line being edited, with no draft kept.
    pub fn unselect(&mut self)
        ensures
            final(self)@.past == old(self)@.past,
            final(self)@.draft is None,
            final(self)@.index == 0,
            final(self)@.wf(),
    {
        self.draft_line = None;
        self.index = 0;
    }

    fn get_line(&self, index: usize) -> (r: Option<String>)
        ensures
            r matches Some(s) ==> text_at(self@, draft_text(self@), index as int)
                == Some(s@),
            r is None <==> text_at(self@, draft_text(self@), index as int) is None,
    {
        if index == 0 {
            match &self.draft_line {
                Some(d) => Some(d.clone()),
                None => None,
            }
        } else if index <= self.past_lines.len() {
            Some(self.past_lines[self.past_lines.len() - index].clone())
        } else {
            None
        }
    }

    /// Moves `offset` lines back (positive) or forward (negative). Leaving
    /// the draft first stores `last_prompt` as the draft. The line reached is
    /// returned; when there is none the index stays and `None` comes back.
    pub fn scroll(&mut self, last_prompt: &str, offset: isize) -> (r: Option<String>)
        requires
            old(self)@.wf(),
        ensures
            scrolled(old(self)@, last_prompt@, offset as int, final(self)@, opt_view(r)),
            final(self)@.wf(),
    {
        if self.index == 0 {
            self.draft_line = Some(last_prompt.to_owned());
        }
        let n = self.past_lines.len();
        let target: Option<usize> = if offset >= 0 {
            let o = offset as usize;
            if o <= n && self.index <= n - o {
                Some(self.index + o)
            } else {
                None
            }
        } else {
            let o = (0 - (offset + 1)) as usize + 1;
            if o <= self.index {
                Some(self.index - o)
            } else {
                None
            }
        };
        match target {
            Some(t) => {
                let line = self.get_line(t);
                if line.is_some() {
                    self.index = t;
                }
                line
            },
            None => None,
        }
    }

    pub fn lines(&self) -> (r: &[String])
        ensures
            r@ == self@.past,
    {
        self.past_lines.as_slice()
    }
}

} // verus!
