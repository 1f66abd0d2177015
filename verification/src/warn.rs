//! The non-fatal diagnostic channel: a value wrapped together with the
//! warnings accumulated while computing it, and the progress sink those
//! warnings can be forwarded into.
//!
//! Routines that cannot be handed a live [`Timer`] return a [`Warn`]; callers
//! that do hold a `Timer` drain the wrapper into it with [`Warn::get`] or
//! [`Warn::with_context`], or render the warnings as printable lines with
//! [`Warn::extract_lines`].

use crate::strfmt::dec_str;
use crate::strfmt::usize_to_string;
use vstd::prelude::*;
use vstd::string::StringExecFns;

verus! {

/// The views of a sequence of strings, for contracts that pin down newly
/// built message text.
pub open spec fn str_views(s: Seq<String>) -> Seq<Seq<char>> {
    s.map_values(|x: String| x@)
}

/// A live progress and diagnostics sink for one batch phase. Warnings and
/// notes accumulate in insertion order; the caller decides how to surface
/// them.
pub struct Timer {
    pub warnings: Vec<String>,
    pub notes: Vec<String>,
}

impl Timer {
    pub fn new() -> (t: Timer)
        ensures
            t.warnings@ =~= Seq::<String>::empty(),
            t.notes@ =~= Seq::<String>::empty(),
    {
        Timer { warnings: Vec::new(), notes: Vec::new() }
    }

    /// Records one non-fatal warning.
    pub fn warn(&mut self, line: String)
        ensures
            final(self).warnings@ == old(self).warnings@.push(line),
            final(self).notes@ == old(self).notes@,
    {
        self.warnings.push(line);
    }

    /// Records one informational note, such as a batch summary.
    pub fn note(&mut self, line: String)
        ensures
            final(self).notes@ == old(self).notes@.push(line),
            final(self).warnings@ == old(self).warnings@,
    {
        self.notes.push(line);
    }
}

/// A computed value plus zero or more warnings, in insertion order with
/// duplicates preserved.
pub struct Warn<T> {
    pub value: T,
    pub warnings: Vec<String>,
}

impl<T> Warn<T> {
    /// Wraps a cleanly computed value: no warnings.
    pub fn ok(value: T) -> (r: Warn<T>)
        ensures
            r.value == value,
            r.warnings@ =~= Seq::<String>::empty(),
    {
        Warn { value, warnings: Vec::new() }
    }

    /// Wraps a value with a single warning.
    pub fn warn(value: T, warning: String) -> (r: Warn<T>)
        ensures
            r.value == value,
            r.warnings@ =~= seq![warning],
    {
        let mut ws: Vec<String> = Vec::new();
        ws.push(warning);
        Warn { value, warnings: ws }
    }

    /// Wraps a value with many warnings.
    pub fn warnings(value: T, warnings: Vec<String>) -> (r: Warn<T>)
        ensures
            r.value == value,
            r.warnings == warnings,
    {
        Warn { value, warnings }
    }

    /// Forwards every warning into the live sink, then hands the value back.
    pub fn get(self, timer: &mut Timer) -> (v: T)
        ensures
            v == self.value,
            final(timer).warnings@ == old(timer).warnings@ + self.warnings@,
            final(timer).notes@ == old(timer).notes@,
    {
        let Warn { value, warnings } = self;
        let n = warnings.len();
        for i in 0..n
            invariant
                n == warnings.len(),
                timer.warnings@ == old(timer).warnings@ + warnings@.take(i as int),
                timer.notes@ == old(timer).notes@,
        {
            let w = warnings[i].clone();
            proof {
                assert(old(timer).warnings@ + warnings@.take(i as int + 1) =~= (old(
                    timer,
                ).warnings@ + warnings@.take(i as int)).push(warnings@[i as int]));
            }
            timer.warn(w);
        }
        proof {
            assert(warnings@.take(n as int) =~= warnings@);
        }
        value
    }

    /// Forwards every warning into the live sink, each prefixed with
    /// `context: `, then hands the value back.
    pub fn with_context(self, timer: &mut Timer, context: String) -> (v: T)
        ensures
            v == self.value,
            final(timer).warnings@.len() == old(timer).warnings@.len() + self.warnings@.len(),
            forall|k: int|
                0 <= k < old(timer).warnings@.len() ==> final(timer).warnings@[k] == old(
                    timer,
                ).warnings@[k],
            forall|k: int|
                0 <= k < self.warnings@.len() ==> #[trigger] final(timer).warnings@[old(
                    timer,
                ).warnings@.len() + k]@ == context@ + ": "@ + self.warnings@[k]@,
            final(timer).notes@ == old(timer).notes@,
    {
        let Warn { value, warnings } = self;
        let n = warnings.len();
        for i in 0..n
            invariant
                n == warnings.len(),
                timer.warnings@.len() == old(timer).warnings@.len() + i,
                forall|k: int|
                    0 <= k < old(timer).warnings@.len() ==> timer.warnings@[k] == old(
                        timer,
                    ).warnings@[k],
                forall|k: int|
                    0 <= k < i ==> #[trigger] timer.warnings@[old(timer).warnings@.len() + k]@
                        == context@ + ": "@ + warnings@[k]@,
                timer.notes@ == old(timer).notes@,
        {
            let line = context.clone().concat(": ").concat(warnings[i].as_str());
            timer.warn(line);
        }
        value
    }

    /// Applies a pure transform to the wrapped value, preserving the
    /// accumulated warnings unchanged.
    pub fn map<O, F: Fn(T) -> O>(self, f: F) -> (r: Warn<O>)
        requires
            call_requires(f, (self.value,)),
        ensures
            r.warnings == self.warnings,
            call_ensures(f, (self.value,), r.value),
    {
        let Warn { value, warnings } = self;
        let value = f(value);
        Warn { value, warnings }
    }

    /// Splits the wrapper into its value and the block of lines a caller
    /// without a live sink should print: nothing when there are no warnings,
    /// otherwise a count-prefixed header followed by every warning in order.
    pub fn extract_lines(self) -> (r: (T, Vec<String>))
        ensures
            r.0 == self.value,
            self.warnings@.len() == 0 ==> r.1@.len() == 0,
            self.warnings@.len() > 0 ==> {
                &&& r.1@.len() == self.warnings@.len() + 1
                &&& r.1@[0]@ == dec_str(self.warnings@.len() as nat) + " warnings:"@
                &&& forall|k: int|
                    0 <= k < self.warnings@.len() ==> r.1@[k + 1] == self.warnings@[k]
            },
    {
        let Warn { value, warnings } = self;
        let mut out: Vec<String> = Vec::new();
        if warnings.len() > 0 {
            let header = usize_to_string(warnings.len()).concat(" warnings:");
            out.push(header);
            let n = warnings.len();
            for i in 0..n
                invariant
                    n == warnings.len(),
                    out@.len() == i + 1,
                    out@[0]@ == dec_str(warnings@.len() as nat) + " warnings:"@,
                    forall|k: int| 0 <= k < i ==> out@[k + 1] == warnings@[k],
            {
                let w = warnings[i].clone();
                out.push(w);
            }
        }
        (value, out)
    }

    /// Like [`Warn::extract_lines`], but the header names the caller-supplied
    /// context label.
    pub fn extract_lines_with_context(self, context: String) -> (r: (T, Vec<String>))
        ensures
            r.0 == self.value,
            self.warnings@.len() == 0 ==> r.1@.len() == 0,
            self.warnings@.len() > 0 ==> {
                &&& r.1@.len() == self.warnings@.len() + 1
                &&& r.1@[0]@ == dec_str(self.warnings@.len() as nat) + " warnings ("@ + context@
                    + "):"@
                &&& forall|k: int|
                    0 <= k < self.warnings@.len() ==> r.1@[k + 1] == self.warnings@[k]
            },
    {
        let Warn { value, warnings } = self;
        let mut out: Vec<String> = Vec::new();
        if warnings.len() > 0 {
            let header = usize_to_string(warnings.len()).concat(" warnings (").concat(
                context.as_str(),
            ).concat("):");
            out.push(header);
            let n = warnings.len();
            for i in 0..n
                invariant
                    n == warnings.len(),
                    out@.len() == i + 1,
                    out@[0]@ == dec_str(warnings@.len() as nat) + " warnings ("@ + context@ + "):"@,
                    forall|k: int| 0 <= k < i ==> out@[k + 1] == warnings@[k],
            {
                let w = warnings[i].clone();
                out.push(w);
            }
        }
        (value, out)
    }
}

impl Warn<()> {
    /// Wraps a unit value with many warnings: a pure warning carrier.
    pub fn empty_warnings(warnings: Vec<String>) -> (r: Warn<()>)
        ensures
            r.value == (),
            r.warnings == warnings,
    {
        Warn::warnings((), warnings)
    }
}

} // verus!
