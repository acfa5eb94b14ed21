//! Feeds the lines of a trace to a parser.

use crate::ast::{texts, views, Ast, AstView};
use crate::counter::seen;
use crate::error::{LineError, ReadError};
use crate::parser::{Parser, ParserView};
use vstd::prelude::*;

verus! {

/// The state of a parser that was in `state` and has handled `lines`, a line
/// that failed having changed nothing.
pub open spec fn replay(state: ParserView, lines: Seq<Seq<char>>) -> ParserView
    decreases lines.len(),
{
    if lines.len() == 0 {
        state
    } else {
        replay(state, lines.drop_last()).step(lines.last()).0
    }
}

/// The error of the first of `lines` that fails, if one does.
pub open spec fn first_error(state: ParserView, lines: Seq<Seq<char>>) -> Option<LineError>
    decreases lines.len(),
{
    if lines.len() == 0 {
        None
    } else {
        match first_error(state, lines.drop_last()) {
            Some(e) => Some(e),
            None => match replay(state, lines.drop_last()).step(lines.last()).1 {
                Ok(_) => None,
                Err(e) => Some(e),
            },
        }
    }
}

/// No property is counted more often than there are lines.
pub proof fn lemma_counts_bounded(lines: Seq<Seq<char>>, name: Seq<char>)
    ensures
        seen(replay(ParserView::initial(), lines).counts, name) <= lines.len(),
    decreases lines.len(),
{
    if lines.len() > 0 {
        lemma_counts_bounded(lines.drop_last(), name);
        let before = replay(ParserView::initial(), lines.drop_last());
        if crate::trace::is_failure_line(lines.last()) {
            if let Some(n) = crate::trace::property_name(lines.last()) {
                lemma_counts_bounded(lines.drop_last(), n);
            }
        }
    }
}

/// The lines of a trace, to be parsed.
pub struct Reader {
    lines: Vec<String>,
}

impl View for Reader {
    type V = Seq<Seq<char>>;

    closed spec fn view(&self) -> Seq<Seq<char>> {
        texts(self.lines@)
    }
}

impl Reader {
    /// A reader of these lines.
    pub fn new(lines: Vec<String>) -> (r: Self)
        ensures
            r@ == texts(lines@),
    {
        Self { lines }
    }

    /// Parses the lines in order, up to the first that fails: its error is
    /// the cause of the error returned, and no reproducer is returned beside
    /// it. Without a failing line the result is the finished reproducers,
    /// oldest first, or none where no reproducer was finished.
    pub fn parse(self) -> (r: Result<Option<Vec<Ast>>, ReadError>)
        ensures
            match first_error(ParserView::initial(), self@) {
                Some(e) => r == Err::<Option<Vec<Ast>>, ReadError>((ReadError { cause: e })),
                None => {
                    let reproducers = replay(ParserView::initial(), self@).reproducers;
                    match r {
                        Ok(Some(roots)) => roots.len() > 0 && views(roots@) == reproducers,
                        Ok(None) => reproducers.len() == 0,
                        Err(_) => false,
                    }
                },
            },
    {
        let ghost all = texts(self.lines@);
        let mut parser = Parser::new();
        let mut i: usize = 0;
        assert(all.take(0) == Seq::<Seq<char>>::empty());
        while i < self.lines.len()
            invariant
                i <= self.lines.len(),
                all == texts(self.lines@),
                parser@ == replay(ParserView::initial(), all.take(i as int)),
                first_error(ParserView::initial(), all.take(i as int)) is None,
            decreases self.lines.len() - i,
        {
            let line = self.lines[i].clone();
            proof {
                assert(all.take(i + 1).drop_last() == all.take(i as int));
                assert(all.take(i + 1).last() == line@);
                if let Some(name) = crate::trace::property_name(line@) {
                    lemma_counts_bounded(all.take(i as int), name);
                }
            }
            match parser.process_line(line) {
                Ok(_) => {},
                Err(e) => {
                    proof {
                        lemma_first_error_stays(
                            ParserView::initial(),
                            all,
                            i + 1,
                        );
                    }
                    return Err(ReadError { cause: e });
                },
            }
            i += 1;
        }
        assert(all.take(i as int) == all);
        Ok(parser.get_reproducers())
    }
}

/// An error among the first `k` lines is the error of all the lines.
pub proof fn lemma_first_error_stays(state: ParserView, lines: Seq<Seq<char>>, k: int)
    requires
        0 <= k <= lines.len(),
        first_error(state, lines.take(k)) is Some,
    ensures
        first_error(state, lines) == first_error(state, lines.take(k)),
    decreases lines.len() - k,
{
    if k < lines.len() {
        assert(lines.take(k + 1).drop_last() == lines.take(k));
        lemma_first_error_stays(state, lines, k + 1);
    } else {
        assert(lines.take(k) == lines);
    }
}

} // verus!
