//! The binding enumerator: a set of named boolean slots that acts as a
//! restartable binary counter and thereby enumerates all 2^n assignments
//! of n variables.

use vstd::prelude::*;
use vstd::string::StrSliceExecFns;

use crate::text::str_eq;

verus! {

/// The number a boolean vector denotes when read as a binary counter
/// whose least significant bit sits at the last index.
pub open spec fn counter_value(s: Seq<bool>) -> nat
    decreases s.len(),
{
    if s.len() == 0 {
        0
    } else {
        2 * counter_value(s.drop_last()) + (if s.last() {
            1nat
        } else {
            0nat
        })
    }
}

/// Two to the power `n`.
pub open spec fn two_pow(n: nat) -> nat
    decreases n,
{
    if n == 0 {
        1
    } else {
        2 * two_pow((n - 1) as nat)
    }
}

/// A counter over `n` slots always denotes a number below 2^n.
pub proof fn lemma_counter_value_bound(s: Seq<bool>)
    ensures
        counter_value(s) < two_pow(s.len()),
    decreases s.len(),
{
    if s.len() > 0 {
        lemma_counter_value_bound(s.drop_last());
    }
}

/// Law: the counter value determines the vector. Together with
/// [`lemma_counter_value_bound`] and the `advance` contract this gives
/// enumerator completeness: starting from all-false the counter takes the
/// values 0, 1, ..., 2^n - 1 in order, so the 2^n visited vectors are
/// pairwise distinct and every boolean vector of length n is among them.
pub proof fn lemma_counter_value_injective(a: Seq<bool>, b: Seq<bool>)
    requires
        a.len() == b.len(),
        counter_value(a) == counter_value(b),
    ensures
        a == b,
    decreases a.len(),
{
    if a.len() == 0 {
        assert(a =~= b);
    } else {
        // The parity of the value determines the last slot, and the
        // quotient determines the rest.
        assert(a.last() == b.last());
        lemma_counter_value_injective(a.drop_last(), b.drop_last());
        assert forall|j: int| 0 <= j < a.len() implies a[j] == b[j] by {
            if j < a.len() - 1 {
                assert(a[j] == a.drop_last()[j]);
                assert(b[j] == b.drop_last()[j]);
            }
        }
        assert(a =~= b);
    }
}

/// The all-true vector denotes the largest value, 2^n - 1.
pub proof fn lemma_counter_all_true(s: Seq<bool>)
    requires
        forall|j: int| 0 <= j < s.len() ==> s[j] == true,
    ensures
        counter_value(s) == two_pow(s.len()) - 1,
    decreases s.len(),
{
    if s.len() > 0 {
        lemma_counter_all_true(s.drop_last());
    }
}

/// The all-false vector denotes zero.
pub proof fn lemma_counter_all_false(s: Seq<bool>)
    requires
        forall|j: int| 0 <= j < s.len() ==> s[j] == false,
    ensures
        counter_value(s) == 0,
    decreases s.len(),
{
    if s.len() > 0 {
        lemma_counter_all_false(s.drop_last());
    }
}

/// Flipping the trailing run of true slots to false and the false slot
/// before it to true increments the counter value by one.
proof fn lemma_counter_increment(a: Seq<bool>, b: Seq<bool>, i: int)
    requires
        a.len() == b.len(),
        0 <= i < a.len(),
        a[i] == false,
        b[i] == true,
        forall|j: int| i < j < a.len() ==> a[j] == true,
        forall|j: int| i < j < b.len() ==> b[j] == false,
        forall|j: int| 0 <= j < i ==> a[j] == b[j],
    ensures
        counter_value(b) == counter_value(a) + 1,
    decreases a.len(),
{
    if i == a.len() - 1 {
        assert(a.drop_last() =~= b.drop_last());
    } else {
        lemma_counter_increment(a.drop_last(), b.drop_last(), i);
    }
}

/// A mutable, restartable enumerator over named boolean slots. The slot
/// vector is the "current assignment"; `advance` steps it with binary
/// counter semantics.
#[derive(Debug)]
pub struct Bindings {
    v: Vec<bool>,
    n: Vec<String>,
}

impl Bindings {
    /// The current assignment, one boolean per declared slot.
    pub closed spec fn values(self) -> Seq<bool> {
        self.v@
    }

    /// The declared variable names, index = identifier id.
    pub closed spec fn names(self) -> Seq<Seq<char>> {
        self.n.deep_view()
    }

    /// Every slot has both a value and a name.
    pub open spec fn wf(self) -> bool {
        self.values().len() == self.names().len()
    }

    /// An empty enumerator with no declared slots.
    pub fn new() -> (r: Self)
        ensures
            r.wf(),
            r.values().len() == 0,
    {
        Bindings { v: Vec::new(), n: Vec::new() }
    }

    /// Declares one more variable with an initial value; meant for setup,
    /// before enumeration starts.
    pub fn push_binding(&mut self, value: bool, name: &str)
        ensures
            final(self).values() == old(self).values().push(value),
            final(self).names() == old(self).names().push(name@),
            old(self).wf() ==> final(self).wf(),
    {
        self.n.push(name.to_owned());
        self.v.push(value);
        proof {
            assert(self.n.deep_view() =~= old(self).n.deep_view().push(name@));
        }
    }

    /// Whether a variable of the given name has been declared.
    pub fn contains(&self, name: &str) -> (r: bool)
        ensures
            r == exists|k: int| 0 <= k < self.names().len() && self.names()[k] == name@,
    {
        let mut k: usize = 0;
        while k < self.n.len()
            invariant
                k <= self.n.len(),
                forall|j: int| 0 <= j < k ==> self.names()[j] != name@,
            decreases self.n.len() - k,
        {
            if str_eq(self.n[k].as_str(), name) {
                assert(self.names()[k as int] == name@);
                return true;
            }
            k = k + 1;
        }
        false
    }

    /// The number of declared slots.
    pub fn num_bindings(&self) -> (r: usize)
        ensures
            r == self.values().len(),
    {
        self.v.len()
    }

    /// The declared name of the slot with identifier id `idx`.
    pub fn get_name(&self, idx: usize) -> (r: &str)
        requires
            idx < self.names().len(),
        ensures
            r@ == self.names()[idx as int],
    {
        self.n[idx].as_str()
    }

    /// The current value of one slot.
    pub fn get_value(&self, idx: usize) -> (r: bool)
        requires
            idx < self.values().len(),
        ensures
            r == self.values()[idx as int],
    {
        self.v[idx]
    }

    /// Sets every slot back to false without changing the declared names.
    pub fn reset_values(&mut self)
        ensures
            final(self).names() == old(self).names(),
            final(self).values().len() == old(self).values().len(),
            forall|j: int| 0 <= j < final(self).values().len() ==> final(self).values()[j] == false,
    {
        let mut i: usize = 0;
        while i < self.v.len()
            invariant
                i <= self.v.len(),
                self.v@.len() == old(self).v@.len(),
                self.n == old(self).n,
                forall|j: int| 0 <= j < i ==> self.v@[j] == false,
            decreases self.v.len() - i,
        {
            self.v.set(i, false);
            i = i + 1;
        }
    }

    /// One binary-counter step: scanning from the last slot, a true slot
    /// carries (becomes false) and the first false slot becomes true, its
    /// index being reported. When every slot is true the vector wraps to
    /// all-false and `None` signals exhaustion; calling again resumes the
    /// count from all-false, which is not re-emitted as a step of its own.
    #[verifier::loop_isolation(false)]
    pub fn advance(&mut self) -> (r: Option<usize>)
        ensures
            final(self).names() == old(self).names(),
            final(self).values().len() == old(self).values().len(),
            match r {
                Option::Some(i) => {
                    &&& i < old(self).values().len()
                    &&& old(self).values()[i as int] == false
                    &&& final(self).values()[i as int] == true
                    &&& forall|j: int| i < j < old(self).values().len() ==> old(self).values()[j]
                    &&& forall|j: int|
                        i < j < final(self).values().len() ==> !(final(self).values()[j])
                    &&& forall|j: int|
                        0 <= j < i ==> final(self).values()[j] == old(self).values()[j]
                    &&& counter_value(final(self).values()) == counter_value(old(self).values())
                        + 1
                },
                Option::None => {
                    &&& forall|j: int|
                        0 <= j < old(self).values().len() ==> old(self).values()[j] == true
                    &&& forall|j: int|
                        0 <= j < final(self).values().len() ==> final(self).values()[j] == false
                    &&& counter_value(old(self).values()) == two_pow(old(self).values().len()) - 1
                    &&& counter_value(final(self).values()) == 0
                },
            },
    {
        let ghost orig = self.v@;
        let mut i: usize = self.v.len();
        loop
            invariant
                i <= self.v.len(),
                self.v@.len() == orig.len(),
                orig == old(self).v@,
                self.n == old(self).n,
                forall|j: int| 0 <= j < i ==> self.v@[j] == orig[j],
                forall|j: int| i <= j < orig.len() ==> orig[j] == true,
                forall|j: int| i <= j < self.v@.len() ==> self.v@[j] == false,
            decreases i,
        {
            if i == 0 {
                proof {
                    lemma_counter_all_true(orig);
                    lemma_counter_all_false(self.v@);
                }
                return Option::None;
            }
            i = i - 1;
            if !self.v[i] {
                self.v.set(i, true);
                proof {
                    lemma_counter_increment(orig, self.v@, i as int);
                }
                return Option::Some(i);
            }
            self.v.set(i, false);
        }
    }

    /// The pointwise negation of the current assignment; the declared
    /// names are left untouched.
    pub fn negated_values(&self) -> (r: Vec<bool>)
        ensures
            r@.len() == self.values().len(),
            forall|j: int| 0 <= j < r@.len() ==> r@[j] == !self.values()[j],
    {
        let mut out: Vec<bool> = Vec::new();
        let mut i: usize = 0;
        while i < self.v.len()
            invariant
                i <= self.v.len(),
                out@.len() == i,
                forall|j: int| 0 <= j < i ==> out@[j] == !self.v@[j],
            decreases self.v.len() - i,
        {
            out.push(!self.v[i]);
            i = i + 1;
        }
        out
    }

    /// Builds an enumerator over the given names with every slot false.
    pub fn from_names(names: Vec<String>) -> (r: Self)
        ensures
            r.wf(),
            r.names() == names.deep_view(),
            r.values().len() == names@.len(),
            forall|j: int| 0 <= j < r.values().len() ==> r.values()[j] == false,
    {
        let mut values: Vec<bool> = Vec::new();
        let mut i: usize = 0;
        while i < names.len()
            invariant
                i <= names.len(),
                values@.len() == i,
                forall|j: int| 0 <= j < i ==> values@[j] == false,
            decreases names.len() - i,
        {
            values.push(false);
            i = i + 1;
        }
        Bindings { v: values, n: names }
    }

    /// Builds an enumerator from (value, name) pairs.
    pub fn from_pairs(pairs: Vec<(bool, String)>) -> (r: Self)
        ensures
            r.wf(),
            r.values().len() == pairs@.len(),
            forall|j: int|
                0 <= j < pairs@.len() ==> r.values()[j] == pairs@[j].0 && r.names()[j]
                    == pairs@[j].1@,
    {
        let mut values: Vec<bool> = Vec::new();
        let mut names: Vec<String> = Vec::new();
        let mut i: usize = 0;
        while i < pairs.len()
            invariant
                i <= pairs.len(),
                values@.len() == i,
                names@.len() == i,
                forall|j: int| 0 <= j < i ==> values@[j] == pairs@[j].0,
                forall|j: int| 0 <= j < i ==> names@[j]@ == pairs@[j].1@,
            decreases pairs.len() - i,
        {
            let p = &pairs[i];
            values.push(p.0);
            names.push(p.1.clone());
            i = i + 1;
        }
        Bindings { v: values, n: names }
    }

    /// Builds an enumerator from (name, value) pairs.
    pub fn from_named_pairs(pairs: Vec<(String, bool)>) -> (r: Self)
        ensures
            r.wf(),
            r.values().len() == pairs@.len(),
            forall|j: int|
                0 <= j < pairs@.len() ==> r.values()[j] == pairs@[j].1 && r.names()[j]
                    == pairs@[j].0@,
    {
        let mut values: Vec<bool> = Vec::new();
        let mut names: Vec<String> = Vec::new();
        let mut i: usize = 0;
        while i < pairs.len()
            invariant
                i <= pairs.len(),
                values@.len() == i,
                names@.len() == i,
                forall|j: int| 0 <= j < i ==> values@[j] == pairs@[j].1,
                forall|j: int| 0 <= j < i ==> names@[j]@ == pairs@[j].0@,
            decreases pairs.len() - i,
        {
            let p = &pairs[i];
            values.push(p.1);
            names.push(p.0.clone());
            i = i + 1;
        }
        Bindings { v: values, n: names }
    }
}


impl Default for Bindings {
    /// The default enumerator is the empty one.
    fn default() -> (r: Self)
        ensures
            r.wf(),
            r.values().len() == 0,
    {
        Bindings::new()
    }
}

} // verus!
