//! Edge detection over polled input: from one snapshot of currently held
//! inputs to the next, which inputs were just pressed, which were just
//! released, and which are still down. The host polls its device each frame
//! and hands the snapshot over; everything here is plain set difference.

use vstd::prelude::*;
use vstd::std_specs::cmp::PartialEqSpec;

verus! {

/// Whether `x` equals no element of `s`, under the type's own equality.
pub open spec fn absent_from<T: PartialEq + PartialEqSpec>(s: Seq<T>, x: T) -> bool {
    forall|i: int| 0 <= i < s.len() ==> !(#[trigger] s[i]).eq_spec(&x)
}

/// The elements of `a` that equal no element of `b`, in order.
pub open spec fn seq_diff<T: PartialEq + PartialEqSpec>(a: Seq<T>, b: Seq<T>) -> Seq<T>
    decreases a.len(),
{
    if a.len() == 0 {
        Seq::empty()
    } else {
        let rest = seq_diff(a.drop_first(), b);
        if absent_from(b, a[0]) {
            seq![a[0]] + rest
        } else {
            rest
        }
    }
}

/// A cache of input transitions, refreshed from one held-input snapshot per
/// frame. The contracts hold for element types whose `==` obeys its
/// specification (`obeys_eq_spec`), as every plain value type's does.
pub trait InputState<T: Copy + PartialEq + PartialEqSpec>: Sized {
    /// The inputs released by the latest snapshot.
    spec fn spec_released(&self) -> Seq<T>;

    /// The inputs pressed by the latest snapshot.
    spec fn spec_pressed(&self) -> Seq<T>;

    /// The inputs currently held.
    spec fn spec_current(&self) -> Seq<T>;

    /// A cache with nothing held and no transitions.
    fn new() -> (r: Self)
        ensures
            r.spec_released() == Seq::<T>::empty(),
            r.spec_pressed() == Seq::<T>::empty(),
            r.spec_current() == Seq::<T>::empty(),
    ;

    /// Takes the next snapshot: what vanished was just released, what is new
    /// was just pressed, and the snapshot becomes the held set.
    fn update(&mut self, current: Vec<T>)
        ensures
            T::obeys_eq_spec() ==> {
                &&& final(self).spec_released() == seq_diff(old(self).spec_current(), current@)
                &&& final(self).spec_pressed() == seq_diff(current@, old(self).spec_current())
                &&& final(self).spec_current() == current@
            },
    ;

    /// Whether `i` was just released.
    fn just_released(&self, i: T) -> (r: bool)
        ensures
            T::obeys_eq_spec() ==> r == !absent_from(self.spec_released(), i),
    ;

    /// Every input just released.
    fn just_released_all(&self) -> (r: Vec<T>)
        ensures
            r@ == self.spec_released(),
    ;

    /// Whether `i` was just pressed.
    fn just_pressed(&self, i: T) -> (r: bool)
        ensures
            T::obeys_eq_spec() ==> r == !absent_from(self.spec_pressed(), i),
    ;

    /// Every input just pressed.
    fn just_pressed_all(&self) -> (r: Vec<T>)
        ensures
            r@ == self.spec_pressed(),
    ;

    /// Whether `i` is currently held.
    fn currently_pressed(&self, i: T) -> (r: bool)
        ensures
            T::obeys_eq_spec() ==> r == !absent_from(self.spec_current(), i),
    ;

    /// Every input currently held.
    fn currently_pressed_all(&self) -> (r: Vec<T>)
        ensures
            r@ == self.spec_current(),
    ;
}

/// The one edge-detection cache, usable for keyboard keys and pointer
/// buttons alike.
pub struct KeyboardMouseState<T> {
    just_released: Vec<T>,
    just_pressed: Vec<T>,
    currently_pressed: Vec<T>,
}

impl<T: Copy + PartialEq + PartialEqSpec> InputState<T> for KeyboardMouseState<T> {
    closed spec fn spec_released(&self) -> Seq<T> {
        self.just_released@
    }

    closed spec fn spec_pressed(&self) -> Seq<T> {
        self.just_pressed@
    }

    closed spec fn spec_current(&self) -> Seq<T> {
        self.currently_pressed@
    }

    fn new() -> (r: Self) {
        KeyboardMouseState {
            just_released: Vec::new(),
            just_pressed: Vec::new(),
            currently_pressed: Vec::new(),
        }
    }

    fn update(&mut self, current: Vec<T>) {
        self.just_released = diff(&self.currently_pressed, &current);
        self.just_pressed = diff(&current, &self.currently_pressed);
        self.currently_pressed = current;
    }

    fn just_released(&self, i: T) -> (r: bool) {
        holds(&self.just_released, i)
    }

    fn just_released_all(&self) -> (r: Vec<T>) {
        copied(&self.just_released)
    }

    fn just_pressed(&self, i: T) -> (r: bool) {
        holds(&self.just_pressed, i)
    }

    fn just_pressed_all(&self) -> (r: Vec<T>) {
        copied(&self.just_pressed)
    }

    fn currently_pressed(&self, i: T) -> (r: bool) {
        holds(&self.currently_pressed, i)
    }

    fn currently_pressed_all(&self) -> (r: Vec<T>) {
        copied(&self.currently_pressed)
    }
}

/// Whether `x` equals some element of `v`.
fn holds<T: Copy + PartialEq + PartialEqSpec>(v: &Vec<T>, x: T) -> (r: bool)
    ensures
        T::obeys_eq_spec() ==> r == !absent_from(v@, x),
{
    let mut i: usize = 0;
    while i < v.len()
        invariant
            i <= v@.len(),
            T::obeys_eq_spec() ==> forall|j: int| 0 <= j < i ==> !(#[trigger] v@[j]).eq_spec(&x),
        decreases v@.len() - i,
    {
        if v[i] == x {
            return true;
        }
        i = i + 1;
    }
    false
}

/// The elements of `a` that equal no element of `b`, in order.
fn diff<T: Copy + PartialEq + PartialEqSpec>(a: &Vec<T>, b: &Vec<T>) -> (r: Vec<T>)
    ensures
        T::obeys_eq_spec() ==> r@ == seq_diff(a@, b@),
{
    let mut r: Vec<T> = Vec::new();
    let mut i: usize = 0;
    proof {
        assert(a@.skip(0) =~= a@);
    }
    while i < a.len()
        invariant
            i <= a@.len(),
            T::obeys_eq_spec() ==> r@ + seq_diff(a@.skip(i as int), b@) == seq_diff(a@, b@),
        decreases a@.len() - i,
    {
        let kv = a[i];
        let held = holds(b, kv);
        if !held {
            r.push(kv);
        }
        proof {
            assert(a@.skip(i as int).drop_first() =~= a@.skip(i as int + 1));
            if T::obeys_eq_spec() {
                if !held {
                    assert(r@ =~= (r@.drop_last() + seq![kv]));
                    assert(r@ + seq_diff(a@.skip(i as int + 1), b@) =~= r@.drop_last() + (seq![
                        kv,
                    ] + seq_diff(a@.skip(i as int + 1), b@)));
                }
            }
        }
        i = i + 1;
    }
    proof {
        assert(a@.skip(a@.len() as int) =~= Seq::<T>::empty());
        if T::obeys_eq_spec() {
            assert(r@ + Seq::<T>::empty() =~= r@);
        }
    }
    r
}

/// A fresh copy of the list.
fn copied<T: Copy>(v: &Vec<T>) -> (r: Vec<T>)
    ensures
        r@ == v@,
{
    let mut r: Vec<T> = Vec::new();
    let mut i: usize = 0;
    while i < v.len()
        invariant
            i <= v@.len(),
            r@ == v@.take(i as int),
        decreases v@.len() - i,
    {
        r.push(v[i]);
        proof {
            assert(r@ =~= v@.take(i as int + 1));
        }
        i = i + 1;
    }
    proof {
        assert(v@.take(v@.len() as int) =~= v@);
    }
    r
}

} // verus!
