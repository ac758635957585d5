//! Bracket/quote balance tracker: a stack of open markers consulted by the
//! scanner to decide whether the text seen so far is balanced.

use vstd::prelude::*;

verus! {

/// A marker still waiting for its closing character.
///
/// `BRACKETS` is opened by `(`, `PARENS` by `{`, `QUOTES` by `"`.
#[derive(Clone, Copy, Debug, PartialEq, Eq, Structural)]
pub enum TOCLOSE {
    BRACKETS,
    PARENS,
    QUOTES,
}

/// The fault reported when a closing character does not match the stack.
#[derive(Clone, Copy, Debug, PartialEq, Eq, Structural)]
pub enum BalanceFault {
    /// A closer arrived while a different marker was open; it names the marker
    /// that must be closed first.
    CloseFirst(TOCLOSE),
    /// A closer arrived while nothing was open.
    NoneOpen,
}

/// What `consume` does to a marker stack: push an opener, pop a matching
/// closer, fail on a mismatched one, and treat every character as inert while
/// a quote is open (except the quote that closes it).
pub open spec fn spec_consume(stack: Seq<TOCLOSE>, c: char) -> Result<Seq<TOCLOSE>, BalanceFault> {
    if stack.len() > 0 && stack.last() == TOCLOSE::QUOTES {
        if c == '"' {
            Ok(stack.drop_last())
        } else {
            Ok(stack)
        }
    } else if c == '(' {
        Ok(stack.push(TOCLOSE::BRACKETS))
    } else if c == '{' {
        Ok(stack.push(TOCLOSE::PARENS))
    } else if c == ')' {
        if stack.len() == 0 {
            Err(BalanceFault::NoneOpen)
        } else if stack.last() == TOCLOSE::BRACKETS {
            Ok(stack.drop_last())
        } else {
            Err(BalanceFault::CloseFirst(stack.last()))
        }
    } else if c == '}' {
        if stack.len() == 0 {
            Err(BalanceFault::NoneOpen)
        } else if stack.last() == TOCLOSE::PARENS {
            Ok(stack.drop_last())
        } else {
            Err(BalanceFault::CloseFirst(stack.last()))
        }
    } else if c == '"' {
        Ok(stack.push(TOCLOSE::QUOTES))
    } else {
        Ok(stack)
    }
}

/// Balance tracker state: the stack of open markers, plus the two flags that
/// the scanner (not this component) sets to suppress operator and decision
/// detection while an arrow target or a condition clause is in progress.
pub struct IsClosed {
    pub in_arrow: bool,
    pub in_cond: bool,
    pub recent: Vec<TOCLOSE>,
}

impl IsClosed {
    /// The stack of currently open markers, oldest first.
    pub open spec fn stack(&self) -> Seq<TOCLOSE> {
        self.recent@
    }

    /// The `in_arrow` flag, readable in specifications.
    pub open spec fn arrow(&self) -> bool {
        self.in_arrow
    }

    /// The `in_cond` flag, readable in specifications.
    pub open spec fn cond(&self) -> bool {
        self.in_cond
    }

    /// A fresh tracker: nothing open, no flag set.
    pub fn new() -> (r: IsClosed)
        ensures
            r.stack() == Seq::<TOCLOSE>::empty(),
            !r.arrow(),
            !r.cond(),
    {
        IsClosed { recent: Vec::new(), in_arrow: false, in_cond: false }
    }

    /// Feed one character to the tracker; a mismatched closer is reported
    /// rather than consumed.
    pub fn check(&mut self, sym: char) -> (r: Result<(), BalanceFault>)
        ensures
            final(self).arrow() == old(self).arrow(),
            final(self).cond() == old(self).cond(),
            match r {
                Ok(()) => spec_consume(old(self).stack(), sym) == Ok::<_, BalanceFault>(
                    final(self).stack(),
                ),
                Err(f) => spec_consume(old(self).stack(), sym) == Err::<Seq<TOCLOSE>, _>(f)
                    && final(self).stack() == old(self).stack(),
            },
    {
        let len = self.recent.len();
        if len > 0 && matches!(self.recent[len - 1], TOCLOSE::QUOTES) {
            if sym == '"' {
                self.recent.pop();
            }
            Ok(())
        } else if sym == '(' {
            self.recent.push(TOCLOSE::BRACKETS);
            Ok(())
        } else if sym == '{' {
            self.recent.push(TOCLOSE::PARENS);
            Ok(())
        } else if sym == ')' {
            if len == 0 {
                Err(BalanceFault::NoneOpen)
            } else if matches!(self.recent[len - 1], TOCLOSE::BRACKETS) {
                self.recent.pop();
                Ok(())
            } else {
                Err(BalanceFault::CloseFirst(self.recent[len - 1]))
            }
        } else if sym == '}' {
            if len == 0 {
                Err(BalanceFault::NoneOpen)
            } else if matches!(self.recent[len - 1], TOCLOSE::PARENS) {
                self.recent.pop();
                Ok(())
            } else {
                Err(BalanceFault::CloseFirst(self.recent[len - 1]))
            }
        } else if sym == '"' {
            self.recent.push(TOCLOSE::QUOTES);
            Ok(())
        } else {
            Ok(())
        }
    }

    /// True iff every opened marker has been closed.
    pub fn is(&self) -> (r: bool)
        ensures
            r == (self.stack().len() == 0),
    {
        self.recent.len() == 0
    }

    /// The marker opened most recently and not yet closed.
    pub fn unclosed(&self) -> (r: TOCLOSE)
        requires
            self.stack().len() > 0,
        ensures
            r == self.stack().last(),
    {
        self.recent[self.recent.len() - 1]
    }
}

} // verus!
