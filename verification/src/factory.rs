use std::collections::HashSet;

use vstd::prelude::*;

use crate::aictable::Aictable;
use crate::builder::FactoryBuilder;
use crate::error::Error;

verus! {

broadcast use vstd::std_specs::hash::group_hash_axioms;

/// The set of integers the domain values in `s` stand for.
pub open spec fn values_of<T: Aictable>(s: Set<T>) -> Set<int> {
    Set::new(|v: int| exists|t: T| s.contains(t) && t.value() == v)
}

/// The cursor's integer after one saturating advance.
pub open spec fn saturating_step<T: Aictable>(v: int) -> int {
    if v == T::max_value() {
        T::max_value()
    } else {
        v + 1
    }
}

/// The cursor's integer after one wrapping advance.
pub open spec fn wrapping_step<T: Aictable>(v: int) -> int {
    if v == T::max_value() {
        T::min_value()
    } else {
        v + 1
    }
}

/// How many values the domain holds.
pub open spec fn domain_size<T: Aictable>() -> int {
    T::max_value() - T::min_value() + 1
}

/// The integer reached from `s` after `k` wrapping advances, for `0 <= k <= domain_size`.
pub open spec fn wrap_add<T: Aictable>(s: int, k: int) -> int {
    if s + k <= T::max_value() {
        s + k
    } else {
        s + k - domain_size::<T>()
    }
}

/// How many wrapping advances lead from `s` to `v` (zero when `v == s`).
pub open spec fn wrap_dist<T: Aictable>(s: int, v: int) -> int {
    if v >= s {
        v - s
    } else {
        v - s + domain_size::<T>()
    }
}

/// In non-looping mode, a scan that starts at `start` fails with
/// [`Error::MaxReached`] exactly when this holds: every value from `start` up
/// to (but excluding) the maximum is issued and, if the scan starts at the
/// maximum itself, the maximum is issued too.
///
/// Note the asymmetry with looping mode: when the scan starts below the
/// maximum, the maximum's own availability plays no part, because the scan
/// gives up as soon as its cursor lands on the maximum, without examining it.
pub open spec fn saturating_exhausted<T: Aictable>(issued: Set<int>, start: int) -> bool {
    &&& forall|v: int| start <= v < T::max_value() ==> issued.contains(v)
    &&& (start == T::max_value() ==> issued.contains(start))
}

/// `r` is the first free integer at or after `start`, in plain ascending
/// order bounded by the domain maximum.
pub open spec fn first_free_from<T: Aictable>(issued: Set<int>, start: int, r: int) -> bool {
    &&& start <= r <= T::max_value()
    &&& !issued.contains(r)
    &&& forall|v: int| start <= v < r ==> issued.contains(v)
}

/// Every integer of the domain is issued.
pub open spec fn all_issued<T: Aictable>(issued: Set<int>) -> bool {
    forall|v: int| T::min_value() <= v <= T::max_value() ==> issued.contains(v)
}

/// `r` is the first free integer reached from `start` in wrapping order:
/// it is free, and every domain value strictly closer to `start` (in number
/// of wrapping advances) is issued.
pub open spec fn first_free_wrapping<T: Aictable>(issued: Set<int>, start: int, r: int) -> bool {
    &&& T::min_value() <= r <= T::max_value()
    &&& !issued.contains(r)
    &&& forall|v: int|
        T::min_value() <= v <= T::max_value() && wrap_dist::<T>(start, v) < wrap_dist::<T>(
            start,
            r,
        ) ==> issued.contains(v)
}

/// A factory for generating unique IDs of a domain type `T`.
///
/// The factory owns a cursor (the next candidate ID) and the set of currently
/// issued IDs. IDs are handed out in ascending domain order starting from the
/// configured initial value, skipping issued ones, and either saturating at or
/// wrapping past the domain maximum according to the configuration.
pub struct Factory<T: Aictable> {
    initial_value: T,
    looping: bool,
    rewind: bool,
    cursor: T,
    set: HashSet<T>,
}

impl<T: Aictable> Factory<T> {
    /// The integer of the configured starting ID.
    pub closed spec fn initial_val(self) -> int {
        self.initial_value.value()
    }

    /// Whether the cursor wraps past the domain maximum instead of saturating.
    pub closed spec fn is_looping(self) -> bool {
        self.looping
    }

    /// Whether releasing an ID moves the cursor back to it.
    pub closed spec fn is_rewind(self) -> bool {
        self.rewind
    }

    /// The integer of the next candidate ID.
    pub closed spec fn cursor_val(self) -> int {
        self.cursor.value()
    }

    /// The integers of the currently issued IDs.
    pub closed spec fn issued(self) -> Set<int> {
        values_of(self.set@)
    }

    /// The configuration, the cursor and every issued ID lie within the domain.
    pub proof fn lemma_within_domain(self)
        ensures
            T::min_value() <= self.initial_val() <= T::max_value(),
            T::min_value() <= self.cursor_val() <= T::max_value(),
            forall|v: int|
                self.issued().contains(v) ==> T::min_value() <= v <= T::max_value(),
    {
        T::lemma_value(self.initial_value, self.initial_value);
        T::lemma_value(self.cursor, self.cursor);
        assert forall|v: int| self.issued().contains(v) implies T::min_value() <= v
            <= T::max_value() by {
            let t = choose|t: T| self.set@.contains(t) && t.value() == v;
            T::lemma_value(t, t);
        }
    }

    /// Creates a new `Factory` with the given starting ID, looping behavior
    /// and rewind behavior.
    ///
    /// It is usually more convenient to configure one through a
    /// [`FactoryBuilder`](crate::FactoryBuilder).
    pub fn new(initial_value: T, looping: bool, rewind: bool) -> (r: Self)
        ensures
            r.initial_val() == initial_value.value(),
            r.is_looping() == looping,
            r.is_rewind() == rewind,
            r.cursor_val() == initial_value.value(),
            r.issued() == Set::<int>::empty(),
    {
        let cursor = initial_value;
        let r = Self { initial_value, looping, rewind, cursor, set: HashSet::new() };
        proof {
            lemma_values_empty::<T>();
        }
        r
    }

    /// Returns a new [`FactoryBuilder`](crate::FactoryBuilder) with the
    /// default configuration.
    pub fn builder() -> (r: FactoryBuilder<T>)
        ensures
            r.initial_val() == T::min_value(),
            !r.is_looping(),
            !r.is_rewind(),
    {
        FactoryBuilder::default()
    }

    /// Generates and returns the next unique ID.
    ///
    /// The scan starts at the cursor and walks the domain in ascending order,
    /// skipping IDs that are already issued, wrapping past the maximum in
    /// looping mode and saturating at it otherwise. The returned ID is
    /// recorded as issued, and the cursor then advances once more; that last
    /// advance is not checked against the bounds, so a cursor parked on the
    /// maximum is only caught by the next call.
    ///
    /// # Errors
    ///
    /// - In looping mode, fails with [`Error::OutOfSpace`] exactly when every
    ///   value of the domain is issued; the state is left unchanged.
    /// - In non-looping mode, fails with [`Error::MaxReached`] exactly when
    ///   the scan runs into the domain maximum (the condition
    ///   [`saturating_exhausted`]); the cursor is left on the maximum. On
    ///   this path the maximum itself is never examined unless the scan
    ///   started there, a known asymmetry with looping mode, which does issue
    ///   the maximum before wrapping.
    #[verifier::loop_isolation(false)]
    pub fn next(&mut self) -> (r: Result<T, Error<T>>)
        ensures
            final(self).initial_val() == old(self).initial_val(),
            final(self).is_looping() == old(self).is_looping(),
            final(self).is_rewind() == old(self).is_rewind(),
            match r {
                Ok(id) => {
                    &&& !old(self).issued().contains(id.value())
                    &&& final(self).issued() == old(self).issued().insert(id.value())
                    &&& (if old(self).is_looping() {
                        &&& !all_issued::<T>(old(self).issued())
                        &&& first_free_wrapping::<T>(
                            old(self).issued(),
                            old(self).cursor_val(),
                            id.value(),
                        )
                        &&& final(self).cursor_val() == wrapping_step::<T>(id.value())
                    } else {
                        &&& !saturating_exhausted::<T>(old(self).issued(), old(self).cursor_val())
                        &&& first_free_from::<T>(
                            old(self).issued(),
                            old(self).cursor_val(),
                            id.value(),
                        )
                        &&& final(self).cursor_val() == saturating_step::<T>(id.value())
                    })
                },
                Err(Error::MaxReached) => {
                    &&& !old(self).is_looping()
                    &&& saturating_exhausted::<T>(old(self).issued(), old(self).cursor_val())
                    &&& final(self).issued() == old(self).issued()
                    &&& final(self).cursor_val() == T::max_value()
                },
                Err(Error::OutOfSpace) => {
                    &&& old(self).is_looping()
                    &&& all_issued::<T>(old(self).issued())
                    &&& final(self).issued() == old(self).issued()
                    &&& final(self).cursor_val() == old(self).cursor_val()
                },
                Err(Error::AlreadyExist(_)) => false,
            },
    {
        let start: T = self.cursor;
        let ghost issued0: Set<int> = self.issued();
        let ghost start_v: int = start.value();
        let ghost n: int = domain_size::<T>();
        let ghost mut steps: int = 0;

        proof {
            T::lemma_domain();
            T::lemma_value(start, start);
        }

        while self.set.contains(&self.cursor)
            invariant
                self.initial_value == old(self).initial_value,
                self.looping == old(self).looping,
                self.rewind == old(self).rewind,
                self.set@ == old(self).set@,
                T::min_value() <= self.cursor.value() <= T::max_value(),
                !self.looping ==> start_v <= self.cursor.value(),
                !self.looping ==> (self.cursor.value() == T::max_value() ==> start_v
                    == T::max_value()),
                !self.looping ==> (forall|v: int|
                    start_v <= v < self.cursor.value() ==> issued0.contains(v)),
                self.looping ==> 0 <= steps < n,
                self.looping ==> self.cursor.value() == wrap_add::<T>(start_v, steps),
                self.looping ==> (forall|k: int|
                    0 <= k < steps ==> issued0.contains(wrap_add::<T>(start_v, k))),
            decreases
                    (if self.looping {
                        n - steps
                    } else {
                        T::max_value() - self.cursor.value()
                    }),
        {
            proof {
                T::lemma_domain();
                T::lemma_value(self.cursor, start);
                lemma_values_contains(self.set@, self.cursor);
            }
            if self.looping {
                self.cursor = self.cursor.wrapping_next();
                proof {
                    steps = steps + 1;
                    T::lemma_value(self.cursor, start);
                    assert(self.cursor.value() == wrap_add::<T>(start_v, steps));
                }
                if self.cursor == start {
                    proof {
                        assert(steps == n);
                        assert forall|v: int|
                            T::min_value() <= v <= T::max_value() implies issued0.contains(
                            v,
                        ) by {
                            assert(wrap_add::<T>(start_v, wrap_dist::<T>(start_v, v)) == v);
                        }
                    }
                    return Err(Error::OutOfSpace);
                }
            } else {
                let ghost c_prev: int = self.cursor.value();
                self.cursor = self.cursor.saturating_next();
                if self.cursor.is_max_reached() {
                    proof {
                        assert(c_prev == T::max_value() || c_prev == T::max_value() - 1);
                        assert(saturating_exhausted::<T>(issued0, start_v));
                    }
                    return Err(Error::MaxReached);
                }
            }
        }
        proof {
            T::lemma_domain();
            T::lemma_value(self.cursor, self.cursor);
            lemma_values_contains(self.set@, self.cursor);
            lemma_values_insert(self.set@, self.cursor);
            if self.looping {
                assert(wrap_dist::<T>(start_v, self.cursor.value()) == steps);
                assert forall|v: int|
                    T::min_value() <= v <= T::max_value() && wrap_dist::<T>(start_v, v)
                        < steps implies issued0.contains(v) by {
                    assert(wrap_add::<T>(start_v, wrap_dist::<T>(start_v, v)) == v);
                }
                assert(all_issued::<T>(issued0) ==> issued0.contains(self.cursor.value()));
            } else {
                assert(saturating_exhausted::<T>(issued0, start_v) ==> issued0.contains(
                    self.cursor.value(),
                ));
            }
        }
        self.set.insert(self.cursor);
        let next_id = self.cursor;
        if self.looping {
            self.cursor = self.cursor.wrapping_next();
        } else {
            self.cursor = self.cursor.saturating_next();
        }
        Ok(next_id)
    }

    /// Removes `id` from the set of issued IDs, so that it can be reused, and
    /// reports whether it was present. Removing an ID that is not issued is a
    /// no-op, not an error.
    ///
    /// When rewind is enabled and the ID was present, the cursor moves back to
    /// the removed ID, so the next allocation re-examines it first.
    pub fn remove(&mut self, id: T) -> (r: bool)
        ensures
            r == old(self).issued().contains(id.value()),
            final(self).issued() == old(self).issued().remove(id.value()),
            final(self).cursor_val() == (if r && old(self).is_rewind() {
                id.value()
            } else {
                old(self).cursor_val()
            }),
            final(self).initial_val() == old(self).initial_val(),
            final(self).is_looping() == old(self).is_looping(),
            final(self).is_rewind() == old(self).is_rewind(),
    {
        proof {
            T::lemma_domain();
            lemma_values_contains(old(self).set@, id);
            lemma_values_remove(old(self).set@, id);
        }
        if self.set.remove(&id) {
            if self.rewind {
                self.cursor = id;
            }
            return true;
        }
        false
    }

    /// Resets the factory to its initial state: the cursor returns to the
    /// configured starting ID and the issued set is cleared. Together with the
    /// guarantees of [`Factory::new`], the state after a reset coincides with
    /// that of a freshly built factory with the same configuration.
    pub fn reset(&mut self)
        ensures
            final(self).issued() == Set::<int>::empty(),
            final(self).cursor_val() == old(self).initial_val(),
            final(self).initial_val() == old(self).initial_val(),
            final(self).is_looping() == old(self).is_looping(),
            final(self).is_rewind() == old(self).is_rewind(),
    {
        self.cursor = self.initial_value;
        self.set.clear();
        proof {
            lemma_values_empty::<T>();
        }
    }

    /// Manually marks `id` as used, without touching the cursor. A reserved
    /// ID that lies ahead of the cursor is simply skipped over by later
    /// allocations.
    ///
    /// # Errors
    ///
    /// Fails with [`Error::AlreadyExist`] carrying `id` back, and leaves the
    /// state unchanged, exactly when `id` is already issued.
    pub fn take_up(&mut self, id: T) -> (r: Result<(), Error<T>>)
        ensures
            final(self).initial_val() == old(self).initial_val(),
            final(self).is_looping() == old(self).is_looping(),
            final(self).is_rewind() == old(self).is_rewind(),
            final(self).cursor_val() == old(self).cursor_val(),
            match r {
                Ok(()) => {
                    &&& !old(self).issued().contains(id.value())
                    &&& final(self).issued() == old(self).issued().insert(id.value())
                },
                Err(Error::AlreadyExist(e)) => {
                    &&& e == id
                    &&& old(self).issued().contains(id.value())
                    &&& final(self).issued() == old(self).issued()
                },
                Err(_) => false,
            },
    {
        proof {
            T::lemma_domain();
            lemma_values_contains(old(self).set@, id);
            lemma_values_insert(old(self).set@, id);
        }
        if self.set.contains(&id) {
            return Err(Error::AlreadyExist(id));
        }
        self.set.insert(id);
        Ok(())
    }
}

/// The set of IDs issued by an unbroken run of `k` successful allocations
/// from a fresh non-looping factory starting at `init`: the integer interval
/// from `init` (inclusive) to `init + k` (exclusive).
pub open spec fn run_issued(init: int, k: int) -> Set<int> {
    Set::new(|v: int| init <= v < init + k)
}

/// Uniqueness: two issued IDs standing for the same integer are the same ID.
/// The issued collection is a set keyed by the injective integer mapping, so
/// no ID is simultaneously live twice, whatever sequence of allocations,
/// releases and reservations produced the state; moreover [`Factory::next`]
/// and [`Factory::take_up`] guarantee in their contracts that the ID they
/// record was not issued immediately before the call.
pub proof fn lemma_issued_unique<T: Aictable>(f: Factory<T>, a: T, b: T)
    requires
        f.issued().contains(a.value()),
        f.issued().contains(b.value()),
        a.value() == b.value(),
    ensures
        a == b,
{
    T::lemma_value(a, b);
}

/// Monotonic until exhaustion, successful step: in the state reached by `k`
/// successful allocations from a fresh non-looping factory starting at
/// `init` (issued IDs `run_issued(init, k)`, cursor as `next` leaves it), the
/// contract of [`Factory::next`] pins the next issued ID to exactly
/// `init + k`, as long as that value lies within the domain. Repeated
/// allocation from an empty state therefore returns `init`, `init + 1`,
/// `init + 2`, and so on; once the domain maximum has been handed out the
/// following call fails with [`Error::MaxReached`], by
/// [`lemma_saturating_exhaustion`].
pub proof fn lemma_saturating_monotonic<T: Aictable>(init: int, k: int, start: int, r: int)
    requires
        T::min_value() <= init,
        0 <= k,
        init + k <= T::max_value(),
        start == (if k == 0 {
            init
        } else {
            saturating_step::<T>(init + k - 1)
        }),
        first_free_from::<T>(run_issued(init, k), start, r),
    ensures
        r == init + k,
        run_issued(init, k).insert(r) == run_issued(init, k + 1),
{
    assert(start == init + k);
    if r > start {
        assert(run_issued(init, k).contains(start));
    }
    assert(run_issued(init, k).insert(r) =~= run_issued(init, k + 1));
}

/// Monotonic until exhaustion, failing step: after the run of
/// [`lemma_saturating_monotonic`] has allocated every ID from `init` up to
/// and including the domain maximum, the cursor rests on the maximum and the
/// scan state satisfies [`saturating_exhausted`], so the contract of
/// [`Factory::next`] forces the following call to fail with
/// [`Error::MaxReached`].
pub proof fn lemma_saturating_exhaustion<T: Aictable>(init: int)
    requires
        T::min_value() <= init <= T::max_value(),
    ensures
        saturating_exhausted::<T>(
            run_issued(init, T::max_value() + 1 - init),
            saturating_step::<T>(T::max_value()),
        ),
{
}

/// Wrap termination: when every value of the domain except `v` is issued, a
/// successful looping allocation returns exactly `v`, wherever its scan
/// starts. When the whole domain is issued, the `Ok` arm of
/// [`Factory::next`] is impossible (it requires `!all_issued`) and the call
/// fails with [`Error::OutOfSpace`].
pub proof fn lemma_wrapping_single_free<T: Aictable>(issued: Set<int>, start: int, v: int, r: int)
    requires
        T::min_value() <= v <= T::max_value(),
        !issued.contains(v),
        forall|u: int| T::min_value() <= u <= T::max_value() && u != v ==> issued.contains(u),
        first_free_wrapping::<T>(issued, start, r),
    ensures
        r == v,
{
}

/// Rewind reissue: an allocation whose scan starts on a free ID returns that
/// very ID, in either mode. With rewind enabled, releasing an issued ID parks
/// the cursor on it (see [`Factory::remove`]), so the immediately following
/// allocation returns it again — unless it was reserved again in between, in
/// which case the scan skips forward as usual.
pub proof fn lemma_cursor_free_reissued<T: Aictable>(
    issued: Set<int>,
    start: int,
    r: int,
    looping: bool,
)
    requires
        T::min_value() <= start <= T::max_value(),
        !issued.contains(start),
        (if looping {
            first_free_wrapping::<T>(issued, start, r)
        } else {
            first_free_from::<T>(issued, start, r)
        }),
    ensures
        r == start,
{
    if looping {
        if r != start {
            assert(wrap_dist::<T>(start, start) == 0);
            assert(issued.contains(start));
        }
    } else {
        if r > start {
            assert(issued.contains(start));
        }
    }
}

/// Reset idempotence: the observable behavior of a factory is a function of
/// its configuration, its cursor and its issued set, which the contracts of
/// all operations pin exactly. [`Factory::reset`] leaves precisely the state
/// [`Factory::new`] establishes for the same configuration, so a reset
/// factory is behaviorally identical to a freshly built one, whatever the
/// prior call history.
pub proof fn lemma_reset_is_fresh<T: Aictable>(after_reset: Factory<T>, fresh: Factory<T>)
    requires
        after_reset.issued() == Set::<int>::empty(),
        after_reset.cursor_val() == after_reset.initial_val(),
        fresh.issued() == Set::<int>::empty(),
        fresh.cursor_val() == fresh.initial_val(),
        fresh.initial_val() == after_reset.initial_val(),
        fresh.is_looping() == after_reset.is_looping(),
        fresh.is_rewind() == after_reset.is_rewind(),
    ensures
        fresh.cursor_val() == after_reset.cursor_val(),
        fresh.issued() == after_reset.issued(),
{
}

/// No integer stands for a value of the empty set.
proof fn lemma_values_empty<T: Aictable>()
    ensures
        values_of(Set::<T>::empty()) == Set::<int>::empty(),
{
    assert(values_of(Set::<T>::empty()) =~= Set::<int>::empty());
}

/// Membership of a value and of its integer coincide.
proof fn lemma_values_contains<T: Aictable>(s: Set<T>, t: T)
    ensures
        values_of(s).contains(t.value()) <==> s.contains(t),
{
    if values_of(s).contains(t.value()) {
        let u = choose|u: T| s.contains(u) && u.value() == t.value();
        T::lemma_value(u, t);
    }
}

/// Inserting a value inserts exactly its integer.
proof fn lemma_values_insert<T: Aictable>(s: Set<T>, t: T)
    ensures
        values_of(s.insert(t)) == values_of(s).insert(t.value()),
{
    assert forall|v: int|
        values_of(s.insert(t)).contains(v) <==> values_of(s).insert(t.value()).contains(
            v,
        ) by {
        if values_of(s.insert(t)).contains(v) {
            let u = choose|u: T| s.insert(t).contains(u) && u.value() == v;
            if u != t {
                assert(s.contains(u));
            }
        }
        if values_of(s).insert(t.value()).contains(v) {
            if v == t.value() {
                assert(s.insert(t).contains(t));
            } else {
                let u = choose|u: T| s.contains(u) && u.value() == v;
                assert(s.insert(t).contains(u));
            }
        }
    }
    assert(values_of(s.insert(t)) =~= values_of(s).insert(t.value()));
}

/// Removing a value removes exactly its integer.
proof fn lemma_values_remove<T: Aictable>(s: Set<T>, t: T)
    ensures
        values_of(s.remove(t)) == values_of(s).remove(t.value()),
{
    assert forall|v: int|
        values_of(s.remove(t)).contains(v) <==> values_of(s).remove(t.value()).contains(
            v,
        ) by {
        if values_of(s.remove(t)).contains(v) {
            let u = choose|u: T| s.remove(t).contains(u) && u.value() == v;
            T::lemma_value(u, t);
            assert(s.contains(u));
        }
        if values_of(s).remove(t.value()).contains(v) {
            let u = choose|u: T| s.contains(u) && u.value() == v;
            T::lemma_value(u, t);
            assert(s.remove(t).contains(u));
        }
    }
    assert(values_of(s.remove(t)) =~= values_of(s).remove(t.value()));
}

} // verus!
