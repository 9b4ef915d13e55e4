use crate::grammar;
use crate::parser::UntypedLambdaCalculusParser;
use crate::term::{render, step, Term};
use crate::untyped_lambda_calculus::UntyLamExpr;
use vstd::prelude::*;

verus! {

/// The abstract state of a history: the recorded terms and the cursor.
pub struct HistoryView {
    pub entries: Seq<Term>,
    pub cursor: nat,
}

impl HistoryView {
    /// Either nothing is recorded and the cursor is at zero, or the cursor
    /// points at a recorded entry.
    pub open spec fn wf(self) -> bool {
        (self.entries.len() == 0 && self.cursor == 0) || self.cursor < self.entries.len()
    }

    /// The entry at the cursor.
    pub open spec fn current(self) -> Option<Term> {
        if self.cursor < self.entries.len() {
            Some(self.entries[self.cursor as int])
        } else {
            None
        }
    }

    /// Records `e` right after the cursor, drops whatever followed it, and
    /// moves the cursor onto `e`.
    pub open spec fn record(self, e: Term) -> HistoryView {
        if self.entries.len() == 0 {
            HistoryView { entries: seq![e], cursor: 0 }
        } else {
            HistoryView {
                entries: self.entries.subrange(0, self.cursor + 1 as int).push(e),
                cursor: self.cursor + 1,
            }
        }
    }

    /// Moves the cursor one entry back, unless it is at the start.
    pub open spec fn undo(self) -> (HistoryView, Option<Term>) {
        if self.cursor > 0 {
            let h = HistoryView { entries: self.entries, cursor: (self.cursor - 1) as nat };
            (h, h.current())
        } else {
            (self, None)
        }
    }

    /// Moves the cursor one entry on, unless it stands within two entries of
    /// the end.
    pub open spec fn redo(self) -> (HistoryView, Option<Term>) {
        if self.cursor + 2 < self.entries.len() {
            let h = HistoryView { entries: self.entries, cursor: self.cursor + 1 };
            (h, h.current())
        } else {
            (self, None)
        }
    }

    /// Records the step from the current entry, if there is a current entry
    /// and it can step.
    pub open spec fn step_forward(self) -> (HistoryView, Option<Term>) {
        match self.current() {
            Some(t) => match step(t) {
                Some(t2) => (self.record(t2), Some(t2)),
                None => (self, None),
            },
            None => (self, None),
        }
    }
}

/// The rendering of an optional term.
pub open spec fn rendered(t: Option<Term>) -> Option<Seq<char>> {
    match t {
        Some(x) => Some(render(x)),
        None => None,
    }
}

/// The rendering of an optional string.
pub open spec fn text_of(r: Option<String>) -> Option<Seq<char>> {
    match r {
        Some(x) => Some(x@),
        None => None,
    }
}

/// The term of an optional borrowed expression.
pub open spec fn term_of_ref(r: Option<&UntyLamExpr>) -> Option<Term> {
    match r {
        Some(e) => Some(e@),
        None => None,
    }
}

/// A session: a linear history of expressions with a cursor, stepped one
/// normal-order reduction at a time.
pub struct WasmInterface {
    expr_history: Vec<UntyLamExpr>,
    current_expr_index: usize,
}

impl View for WasmInterface {
    type V = HistoryView;

    closed spec fn view(&self) -> HistoryView {
        HistoryView {
            entries: self.expr_history@.map_values(|e: UntyLamExpr| e@),
            cursor: self.current_expr_index as nat,
        }
    }
}

impl WasmInterface {
    pub closed spec fn wf(&self) -> bool {
        self@.wf()
    }

    /// An empty history.
    pub fn new() -> (r: Self)
        ensures
            r.wf(),
            r@.entries.len() == 0,
            r@.cursor == 0,
    {
        Self { expr_history: Vec::new(), current_expr_index: 0 }
    }

    /// The expression at the cursor.
    pub fn get_current_expr(&self) -> (r: Option<&UntyLamExpr>)
        requires
            self.wf(),
        ensures
            term_of_ref(r) == self@.current(),
    {
        if self.current_expr_index < self.expr_history.len() {
            Some(&self.expr_history[self.current_expr_index])
        } else {
            None
        }
    }

    /// Records `e` as the new current expression.
    pub fn add_current_expr(&mut self, e: UntyLamExpr)
        requires
            old(self).wf(),
        ensures
            final(self).wf(),
            final(self)@ == old(self)@.record(e@),
    {
        let ghost pre = self@;
        if self.expr_history.len() == self.current_expr_index + 1 {
            self.expr_history.push(e);
            self.current_expr_index += 1;
        } else if self.expr_history.len() < self.current_expr_index + 1 {
            self.expr_history.push(e);
            self.current_expr_index = self.expr_history.len() - 1;
        } else {
            self.current_expr_index += 1;
            self.expr_history.set(self.current_expr_index, e);
            self.expr_history.truncate(self.current_expr_index + 1);
        }
        assert(self@.entries =~= pre.record(e@).entries);
    }

    /// Steps the current expression and records the result.
    pub fn add_step_expr(&mut self) -> (r: Option<&UntyLamExpr>)
        requires
            old(self).wf(),
        ensures
            final(self).wf(),
            final(self)@ == old(self)@.step_forward().0,
            term_of_ref(r) == old(self)@.step_forward().1,
    {
        let next = match self.get_current_expr() {
            Some(e) => e.step(),
            None => None,
        };
        match next {
            Some(e) => {
                self.add_current_expr(e);
                self.get_current_expr()
            },
            None => None,
        }
    }

    /// Moves the cursor one entry back.
    pub fn undo(&mut self) -> (r: Option<&UntyLamExpr>)
        requires
            old(self).wf(),
        ensures
            final(self).wf(),
            final(self)@ == old(self)@.undo().0,
            term_of_ref(r) == old(self)@.undo().1,
    {
        if self.current_expr_index > 0 {
            self.current_expr_index -= 1;
            self.get_current_expr()
        } else {
            None
        }
    }

    /// Moves the cursor one entry on.
    pub fn redo(&mut self) -> (r: Option<&UntyLamExpr>)
        requires
            old(self).wf(),
        ensures
            final(self).wf(),
            final(self)@ == old(self)@.redo().0,
            term_of_ref(r) == old(self)@.redo().1,
    {
        if self.expr_history.len() >= 2 && self.current_expr_index < self.expr_history.len() - 2 {
            self.current_expr_index += 1;
            self.get_current_expr()
        } else {
            None
        }
    }

    /// Steps the current expression, records the result and renders it.
    pub fn add_step_exp_get_string(&mut self) -> (r: Option<String>)
        requires
            old(self).wf(),
        ensures
            final(self).wf(),
            final(self)@ == old(self)@.step_forward().0,
            text_of(r) == rendered(old(self)@.step_forward().1),
    {
        match self.add_step_expr() {
            Some(e) => Some(e.render()),
            None => None,
        }
    }

    /// Renders the current expression.
    pub fn get_current_expr_string(&self) -> (r: Option<String>)
        requires
            self.wf(),
        ensures
            text_of(r) == rendered(self@.current()),
    {
        match self.get_current_expr() {
            Some(e) => Some(e.render()),
            None => None,
        }
    }

    /// Parses `s`; on success records the expression and renders it, on
    /// failure changes nothing.
    pub fn add_current_expr_string(&mut self, s: &str) -> (r: Option<String>)
        requires
            old(self).wf(),
        ensures
            final(self).wf(),
            match grammar::parse(s@) {
                Some(t) => final(self)@ == old(self)@.record(t) && text_of(r) == Some(render(t)),
                None => final(self)@ == old(self)@ && r is None,
            },
    {
        match UntypedLambdaCalculusParser::parse(s) {
            Ok(e) => {
                let text = e.render();
                self.add_current_expr(e);
                Some(text)
            },
            Err(_) => None,
        }
    }
}

/// A new session with an empty history.
pub fn init() -> (r: WasmInterface)
    ensures
        r.wf(),
        r@.entries.len() == 0,
        r@.cursor == 0,
{
    WasmInterface::new()
}

} // verus!
