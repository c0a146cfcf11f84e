//! The interpreter's mutable state: a local namespace for transient
//! variables, a global namespace for data fields, the next-line cursor and
//! the error slot.
//!
//! A name is routed by its first character: one starting with the field
//! marker always reads and writes the global namespace, any other name the
//! local one. Looking up an unset name yields the numeric zero default.

use vstd::prelude::*;
use crate::chars::str_eq;
use crate::literal_value::{LiteralValue, ValV};
use crate::number::{YololNumber, SCALE, tdiv};

verus! {

/// One namespace: name-to-value entries with pairwise distinct names.
pub struct Context {
    entries: Vec<(String, LiteralValue)>,
}

/// The mathematical contents of a namespace.
pub open spec fn ctx_map(s: Seq<(String, LiteralValue)>) -> Map<Seq<char>, ValV>
    decreases s.len(),
{
    if s.len() == 0 {
        Map::<Seq<char>, ValV>::empty()
    } else {
        ctx_map(s.drop_last()).insert(s.last().0@, s.last().1@)
    }
}

/// Distinct names across the entries.
pub open spec fn ctx_wf(s: Seq<(String, LiteralValue)>) -> bool {
    forall|i: int, j: int| 0 <= i < j < s.len() ==> (#[trigger] s[i]).0@ != (#[trigger] s[j]).0@
}

/// A name found in the entries is in the map with that entry's value; a
/// name in no entry is not in the map.
proof fn lemma_ctx_lookup(s: Seq<(String, LiteralValue)>, k: Seq<char>)
    requires
        ctx_wf(s),
    ensures
        ctx_map(s).contains_key(k) <==> exists|i: int| 0 <= i < s.len() && (#[trigger] s[i]).0@
            == k,
        forall|i: int|
            0 <= i < s.len() && (#[trigger] s[i]).0@ == k ==> ctx_map(s)[k] == s[i].1@,
    decreases s.len(),
{
    if s.len() > 0 {
        assert(ctx_wf(s.drop_last())) by {
            assert(forall|i: int, j: int|
                0 <= i < j < s.len() - 1 ==> (#[trigger] s.drop_last()[i]).0@ != (
                #[trigger] s.drop_last()[j]).0@);
        }
        lemma_ctx_lookup(s.drop_last(), k);
        if s.last().0@ == k {
            assert(s[s.len() - 1].0@ == k);
        } else {
            if ctx_map(s).contains_key(k) {
                assert(ctx_map(s.drop_last()).contains_key(k));
            }
            assert(forall|i: int|
                0 <= i < s.len() - 1 ==> (#[trigger] s[i]) == s.drop_last()[i]);
        }
    }
}

/// Replacing the entry that holds a name updates the map at that name.
proof fn lemma_ctx_update(
    s: Seq<(String, LiteralValue)>,
    i: int,
    p: (String, LiteralValue),
)
    requires
        ctx_wf(s),
        0 <= i < s.len(),
        s[i].0@ == p.0@,
    ensures
        ctx_map(s.update(i, p)) =~= ctx_map(s).insert(p.0@, p.1@),
        ctx_wf(s.update(i, p)),
    decreases s.len(),
{
    let t = s.update(i, p);
    assert(ctx_wf(t)) by {
        assert(forall|a: int, b: int|
            0 <= a < b < t.len() ==> (#[trigger] t[a]).0@ != (#[trigger] t[b]).0@) by {
            assert(forall|a: int| 0 <= a < t.len() && a != i ==> t[a] == s[a]);
        }
    }
    if i == s.len() - 1 {
        assert(t.drop_last() =~= s.drop_last());
        assert(t.last() == p);
        assert(ctx_map(t) =~= ctx_map(s.drop_last()).insert(p.0@, p.1@));
        assert(ctx_map(s) == ctx_map(s.drop_last()).insert(s.last().0@, s.last().1@));
        assert(ctx_map(s).insert(p.0@, p.1@) =~= ctx_map(s.drop_last()).insert(p.0@, p.1@));
    } else {
        assert(ctx_wf(s.drop_last())) by {
            assert(forall|a: int, b: int|
                0 <= a < b < s.len() - 1 ==> (#[trigger] s.drop_last()[a]).0@ != (
                #[trigger] s.drop_last()[b]).0@);
        }
        assert(t.drop_last() =~= s.drop_last().update(i, p));
        assert(t.last() == s.last());
        lemma_ctx_update(s.drop_last(), i, p);
        // The replaced name is not the last entry's name, so the two
        // inserts commute.
        assert(s[i].0@ != s.last().0@);
        assert(ctx_map(t) == ctx_map(t.drop_last()).insert(s.last().0@, s.last().1@));
        assert(ctx_map(t) =~= ctx_map(s).insert(p.0@, p.1@));
    }
}

impl Context {
    /// The mathematical contents.
    pub closed spec fn view(&self) -> Map<Seq<char>, ValV> {
        ctx_map(self.entries@)
    }

    /// Distinct names.
    pub closed spec fn wf(&self) -> bool {
        ctx_wf(self.entries@)
    }

    /// An empty namespace.
    fn new() -> (r: Context)
        ensures
            r@ =~= Map::<Seq<char>, ValV>::empty(),
            r.wf(),
    {
        Context { entries: Vec::new() }
    }

    /// The value stored under a name, if any.
    fn get(&self, name: &str) -> (r: Option<&LiteralValue>)
        requires
            self.wf(),
        ensures
            match r {
                Some(v) => self@.contains_key(name@) && v@ == self@[name@],
                None => !self@.contains_key(name@),
            },
    {
        proof {
            lemma_ctx_lookup(self.entries@, name@);
        }
        let n = self.entries.len();
        let mut i: usize = 0;
        while i < n
            invariant
                i <= n,
                n == self.entries@.len(),
                self.wf(),
                forall|j: int| 0 <= j < i ==> (#[trigger] self.entries@[j]).0@ != name@,
            decreases n - i,
        {
            if str_eq(self.entries[i].0.as_str(), name) {
                proof {
                    lemma_ctx_lookup(self.entries@, name@);
                }
                return Some(&self.entries[i].1);
            }
            i = i + 1;
        }
        None
    }

    /// Stores a value under a name, replacing an earlier binding.
    fn set(&mut self, name: String, value: LiteralValue)
        requires
            old(self).wf(),
        ensures
            final(self).wf(),
            final(self)@ =~= old(self)@.insert(name@, value@),
    {
        let n = self.entries.len();
        let mut i: usize = 0;
        while i < n
            invariant
                i <= n,
                n == self.entries@.len(),
                self == old(self),
                self.wf(),
                forall|j: int| 0 <= j < i ==> (#[trigger] self.entries@[j]).0@ != name@,
            decreases n - i,
        {
            if str_eq(self.entries[i].0.as_str(), name.as_str()) {
                proof {
                    lemma_ctx_update(self.entries@, i as int, (name, value));
                }
                self.entries.set(i, (name, value));
                return ;
            }
            i = i + 1;
        }
        proof {
            assert(self.entries@.push((name, value)).drop_last() =~= self.entries@);
            assert(forall|a: int, b: int|
                0 <= a < b < self.entries@.push((name, value)).len() ==> (
                #[trigger] self.entries@.push((name, value))[a]).0@ != (
                #[trigger] self.entries@.push((name, value))[b]).0@);
        }
        self.entries.push((name, value));
    }
}

/// The interpreter's state: identification, the next-line cursor, the
/// error slot, and the two variable namespaces.
pub struct Environment {
    pub name: String,
    pub version: String,
    pub next_line: i64,
    pub error: String,
    pub local_context: Context,
    pub global_context: Context,
}

/// Whether a name routes to the global namespace: it carries the field
/// marker up front.
pub open spec fn is_global_name(name: Seq<char>) -> bool {
    name.len() > 0 && name[0] == ':'
}

/// The value a namespace yields for a name: the stored value, or the
/// numeric zero default when the name is unset.
pub open spec fn lookup(m: Map<Seq<char>, ValV>, name: Seq<char>) -> ValV {
    if m.contains_key(name) {
        m[name]
    } else {
        ValV::Num(0)
    }
}

impl Environment {
    /// The local namespace's contents.
    pub closed spec fn locals(&self) -> Map<Seq<char>, ValV> {
        self.local_context@
    }

    /// The global namespace's contents.
    pub closed spec fn globals(&self) -> Map<Seq<char>, ValV> {
        self.global_context@
    }

    /// The namespaces' internal structure is sound.
    pub closed spec fn wf(&self) -> bool {
        self.local_context.wf() && self.global_context.wf()
    }

    /// A fresh environment: empty namespaces, an empty error slot, and the
    /// cursor on the first line.
    pub fn new(name: &str) -> (r: Environment)
        ensures
            r.wf(),
            r.name@ == name@,
            r.version@ == Seq::<char>::empty(),
            r.next_line == 1,
            r.error@ == Seq::<char>::empty(),
            r.locals() =~= Map::<Seq<char>, ValV>::empty(),
            r.globals() =~= Map::<Seq<char>, ValV>::empty(),
    {
        Environment {
            name: crate::errors::string_of(name),
            version: String::new(),
            next_line: 1,
            error: String::new(),
            local_context: Context::new(),
            global_context: Context::new(),
        }
    }

    /// Sets the next-line cursor to the whole part of the number, clamped
    /// into the valid line range.
    pub fn set_next_line(&mut self, num: YololNumber)
        ensures
            final(self).next_line as int == clamp_line(num@),
            final(self).locals() == old(self).locals(),
            final(self).globals() == old(self).globals(),
            final(self).wf() == old(self).wf(),
            final(self).error == old(self).error,
            final(self).name == old(self).name,
            final(self).version == old(self).version,
    {
        let bounded = num.floor().clamp(1, 20);
        let whole = bounded.whole_part();
        proof {
            lemma_clamp_line(num@);
        }
        self.next_line = whole;
    }
}

impl Environment {
    /// Records an error message in the error slot.
    pub fn set_error(&mut self, text: String)
        ensures
            final(self).wf() == old(self).wf(),
            final(self).error == text,
            final(self).locals() == old(self).locals(),
            final(self).globals() == old(self).globals(),
            final(self).next_line == old(self).next_line,
            final(self).name == old(self).name,
            final(self).version == old(self).version,
    {
        self.error = text;
    }

    /// Moves the next-line cursor one line forward, saturating at the
    /// top of the representation.
    pub fn advance_one_line(&mut self)
        ensures
            final(self).wf() == old(self).wf(),
            final(self).error == old(self).error,
            final(self).locals() == old(self).locals(),
            final(self).globals() == old(self).globals(),
            final(self).next_line as int == crate::number::sat64(old(self).next_line + 1),
            final(self).name == old(self).name,
            final(self).version == old(self).version,
    {
        self.next_line = match self.next_line.checked_add(1) {
            Some(v) => v,
            None => i64::MAX,
        };
    }
}

/// The line a goto target lands on: the whole part, clamped into the
/// valid line range.
pub open spec fn clamp_line(x: int) -> int {
    let w = tdiv(x, SCALE as int);
    if w < 1 {
        1
    } else if w > 20 {
        20
    } else {
        w
    }
}

/// Flooring then clamping a scaled value into the line range agrees with
/// clamping its whole part.
proof fn lemma_clamp_line(x: int)
    ensures
        ({
            let floored = tdiv(x, SCALE as int) * SCALE as int;
            let clamped = if floored < SCALE as int {
                SCALE as int
            } else if floored > 20 * SCALE as int {
                20 * SCALE as int
            } else {
                floored
            };
            tdiv(clamped, SCALE as int) == clamp_line(x)
        }),
{
    let w = tdiv(x, SCALE as int);
    let floored = w * SCALE as int;
    assert(tdiv(SCALE as int, SCALE as int) == 1);
    assert(tdiv(20 * SCALE as int, SCALE as int) == 20);
    if floored >= SCALE as int && floored <= 20 * SCALE as int {
        assert(1 <= w <= 20) by (nonlinear_arith)
            requires
                floored == w * SCALE as int,
                SCALE as int == 10000,
                10000 <= floored <= 200000,
        ;
        assert(tdiv(floored, SCALE as int) == w) by (nonlinear_arith)
            requires
                floored == w * SCALE as int,
                SCALE as int == 10000,
                1 <= w <= 20,
        ;
    } else if floored < SCALE as int {
        assert(w < 1) by (nonlinear_arith)
            requires
                floored == w * SCALE as int,
                SCALE as int == 10000,
                floored < 10000,
        ;
    } else {
        assert(w > 20) by (nonlinear_arith)
            requires
                floored == w * SCALE as int,
                SCALE as int == 10000,
                floored > 200000,
        ;
    }
}

/// Reading and writing variables by name, routed to the namespace the
/// name's first character selects.
pub trait ContextMap {
    /// The store's internal structure is sound.
    spec fn store_wf(&self) -> bool;

    /// The stored value under the name, or the zero default.
    fn get_val(&self, ident: &str) -> LiteralValue
        requires
            self.store_wf(),
    ;

    /// Stores a value under the name.
    fn set_val(&mut self, ident: String, value: LiteralValue)
        requires
            old(self).store_wf(),
    ;
}

impl Environment {
    /// The stored value under the name, or the numeric zero default; a
    /// name carrying the field marker reads the global namespace, any
    /// other the local one.
    pub fn get_value(&self, ident: &str) -> (r: LiteralValue)
        requires
            self.wf(),
        ensures
            is_global_name(ident@) ==> r@ == lookup(self.globals(), ident@),
            !is_global_name(ident@) ==> r@ == lookup(self.locals(), ident@),
    {
        let global = starts_with_marker(ident);
        let found = if global {
            self.global_context.get(ident)
        } else {
            self.local_context.get(ident)
        };
        match found {
            Some(v) => v.duplicate(),
            None => LiteralValue::get_false(),
        }
    }

    /// Stores a value under the name, routed the same way.
    pub fn set_value(&mut self, ident: String, value: LiteralValue)
        requires
            old(self).wf(),
        ensures
            final(self).wf(),
            is_global_name(ident@) ==> final(self).globals() =~= old(self).globals().insert(
                ident@,
                value@,
            ) && final(self).locals() == old(self).locals(),
            !is_global_name(ident@) ==> final(self).locals() =~= old(self).locals().insert(
                ident@,
                value@,
            ) && final(self).globals() == old(self).globals(),
            final(self).next_line == old(self).next_line,
            final(self).error == old(self).error,
            final(self).name == old(self).name,
            final(self).version == old(self).version,
    {
        let global = starts_with_marker(ident.as_str());
        if global {
            self.global_context.set(ident, value);
        } else {
            self.local_context.set(ident, value);
        }
    }
}

impl ContextMap for Environment {
    /// Soundness is the namespaces' own.
    open spec fn store_wf(&self) -> bool {
        self.wf()
    }

    /// The stored value under the name, or the numeric zero default.
    fn get_val(&self, ident: &str) -> (r: LiteralValue)
        ensures
            is_global_name(ident@) ==> r@ == lookup(self.globals(), ident@),
            !is_global_name(ident@) ==> r@ == lookup(self.locals(), ident@),
    {
        self.get_value(ident)
    }

    /// Stores a value under the name.
    fn set_val(&mut self, ident: String, value: LiteralValue)
        ensures
            final(self).wf(),
            is_global_name(ident@) ==> final(self).globals() =~= old(self).globals().insert(
                ident@,
                value@,
            ) && final(self).locals() == old(self).locals(),
            !is_global_name(ident@) ==> final(self).locals() =~= old(self).locals().insert(
                ident@,
                value@,
            ) && final(self).globals() == old(self).globals(),
            final(self).next_line == old(self).next_line,
            final(self).error == old(self).error,
            final(self).name == old(self).name,
            final(self).version == old(self).version,
    {
        self.set_value(ident, value)
    }
}

/// Whether the name's first character is the field marker.
fn starts_with_marker(ident: &str) -> (r: bool)
    ensures
        r == is_global_name(ident@),
{
    let n = ident.unicode_len();
    if n == 0 {
        false
    } else {
        ident.get_char(0) == ':'
    }
}

} // verus!
