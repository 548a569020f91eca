//! What a search does on a bus whose devices stay the same: the first pass finds the
//! least code, each later pass the next one, and the state says when none is left.
//!
//! Codes are ordered as they go over the wire: by their lowest bit first.

use vstd::prelude::*;
use crate::address::SearchState;
use crate::bits::{bit, low, with_bit};
use crate::search::{Pass, Search, Stage};

verus! {

/// Whether a device on the bus still takes part at position `i` of a pass that wrote
/// the bits of `a` below `i`, and has `value` at that position: it answers the read slot
/// for that value.
pub open spec fn live(devs: Set<u64>, a: u64, i: u64, value: bool) -> bool {
    exists|d: u64| #[trigger] devs.contains(d) && low(d, i) == low(a, i) && bit(d, i) == value
}

/// Whether `a` and `b` part at position `k`, `a` with 0 and `b` with 1.
pub open spec fn parts(a: u64, b: u64, k: u64) -> bool {
    k < 64 && low(a, k) == low(b, k) && !bit(a, k) && bit(b, k)
}

/// Whether `a` comes before `b` on the wire: at the first position where they differ
/// `a` has 0.
pub open spec fn before(a: u64, b: u64) -> bool {
    exists|k: u64| parts(a, b, k)
}

/// Whether position `i` is a branch point still open after `a` was found: `a` has 0
/// there, and a device that agrees with `a` below has 1.
pub open spec fn open_at(devs: Set<u64>, a: u64, i: u64) -> bool {
    !bit(a, i) && live(devs, a, i, true)
}

/// Whether `top` is the highest position set in `mask`.
pub open spec fn tops(mask: u64, top: u64) -> bool {
    top < 64 && bit(mask, top) && forall|j: u64| top < j < 64 ==> !#[trigger] bit(mask, j)
}

/// Whether a search state is the one that goes with the bus: its code is on the bus,
/// its mask marks the branch points open after that code, and its index is the highest
/// of them.
pub open spec fn tracks(devs: Set<u64>, s: SearchState) -> bool {
    &&& devs.contains(s.address)
    &&& forall|i: u64| i < 64 ==> #[trigger] bit(s.discrepancies, i) == open_at(devs, s.address, i)
    &&& s.discrepancies != 0 ==> tops(s.discrepancies, s.last_discrepancy_index as u64)
}

/// Whether `a` is the first code of the bus on the wire.
pub open spec fn least(devs: Set<u64>, a: u64) -> bool {
    devs.contains(a) && forall|d: u64| #[trigger] devs.contains(d) ==> d == a || before(a, d)
}

/// Whether `a` is the last code of the bus on the wire.
pub open spec fn greatest(devs: Set<u64>, a: u64) -> bool {
    devs.contains(a) && forall|d: u64| #[trigger] devs.contains(d) ==> d == a || before(d, a)
}

/// Whether `b` is the code of the bus that follows `a` on the wire, none between them.
pub open spec fn follows(devs: Set<u64>, a: u64, b: u64) -> bool {
    &&& devs.contains(b)
    &&& before(a, b)
    &&& forall|d: u64| #[trigger] devs.contains(d) ==> !(before(a, d) && before(d, b))
}

/// The state that a pass hands to the next.
pub open spec fn state_of(pass: Pass) -> SearchState {
    SearchState {
        address: pass.address,
        discrepancies: pass.discrepancies,
        last_discrepancy_index: pass.last_discrepancy_index,
    }
}

/// The pass run to its end on a bus with the devices `devs`: at each position the two
/// read slots are answered by the devices that still take part. `None` where the pass
/// stops on answers that cannot be.
pub open spec fn walked(devs: Set<u64>, pass: Pass) -> Option<Pass>
    decreases 64 - pass.index,
{
    if pass.index >= 64 {
        Some(pass)
    } else {
        let zero = live(devs, pass.address, pass.index as u64, false);
        let one = live(devs, pass.address, pass.index as u64, true);
        if pass.choice(zero, one) is Some {
            walked(devs, pass.chosen(zero, one))
        } else {
            None
        }
    }
}

/// Two different codes differ first at some position at or above one below which they
/// agree.
proof fn lemma_first_difference(x: u64, y: u64, i: u64) -> (k: u64)
    requires
        x != y,
        i <= 64,
        low(x, i) == low(y, i),
    ensures
        i <= k < 64,
        low(x, k) == low(y, k),
        bit(x, k) != bit(y, k),
    decreases 64 - i,
{
    if bit(x, i) != bit(y, i) {
        i
    } else {
        crate::bits::lemma_low_step(x, y, i);
        lemma_first_difference(x, y, (i + 1) as u64)
    }
}

/// The order on the wire is strict: no code is before itself, and of two codes at most
/// one is before the other.
pub proof fn lemma_before_asymmetric(a: u64, b: u64)
    ensures
        !(before(a, b) && before(b, a)),
        !before(a, a),
{
    if before(a, b) && before(b, a) {
        let k = choose|k: u64| parts(a, b, k);
        let m = choose|m: u64| parts(b, a, m);
        if k < m {
            crate::bits::lemma_low_below(b, a, m, k);
        } else if m < k {
            crate::bits::lemma_low_below(a, b, k, m);
        }
    }
    if before(a, a) {
        let k = choose|k: u64| parts(a, a, k);
    }
}

/// Of two different codes one is before the other.
pub proof fn lemma_before_total(a: u64, b: u64)
    requires
        a != b,
    ensures
        before(a, b) || before(b, a),
{
    crate::bits::lemma_low_zero(a);
    crate::bits::lemma_low_zero(b);
    let k = lemma_first_difference(a, b, 0);
    if bit(b, k) {
        assert(parts(a, b, k));
    } else {
        assert(parts(b, a, k));
    }
}

/// The order on the wire is transitive.
pub proof fn lemma_before_transitive(a: u64, b: u64, c: u64)
    requires
        before(a, b),
        before(b, c),
    ensures
        before(a, c),
{
    let k = choose|k: u64| parts(a, b, k);
    let m = choose|m: u64| parts(b, c, m);
    if k < m {
        crate::bits::lemma_low_below(b, c, m, k);
        assert(parts(a, c, k));
    } else if m < k {
        crate::bits::lemma_low_below(a, b, k, m);
        assert(parts(a, c, m));
    }
}

/// Above the branch point that it resumes from, and everywhere if it resumes from
/// nothing, a pass explores: it ends on the least code among the devices that still take
/// part, and marks exactly the branch points left open above where it started.
proof fn lemma_explore(devs: Set<u64>, pass: Pass) -> (end: Pass)
    requires
        pass.index <= 64,
        pass.prior matches Some(s) ==> pass.index > s.last_discrepancy_index,
        exists|d: u64| #[trigger]
            devs.contains(d) && low(d, pass.index as u64) == low(pass.address, pass.index as u64),
        forall|j: u64| pass.index <= j < 64 ==> !#[trigger] bit(pass.discrepancies, j),
    ensures
        walked(devs, pass) == Some(end),
        end.index == 64,
        end.prior == pass.prior,
        devs.contains(end.address),
        low(end.address, pass.index as u64) == low(pass.address, pass.index as u64),
        forall|d: u64| #[trigger]
            devs.contains(d) && low(d, pass.index as u64) == low(pass.address, pass.index as u64)
                ==> d == end.address || before(end.address, d),
        forall|j: u64|
            j < pass.index ==> #[trigger] bit(end.discrepancies, j) == bit(pass.discrepancies, j),
        forall|j: u64|
            pass.index <= j < 64 ==> #[trigger] bit(end.discrepancies, j) == open_at(
                devs,
                end.address,
                j,
            ),
        (forall|j: u64| pass.index <= j < 64 ==> !#[trigger] bit(end.discrepancies, j))
            ==> end.last_discrepancy_index == pass.last_discrepancy_index,
        (exists|j: u64| pass.index <= j < 64 && #[trigger] bit(end.discrepancies, j)) ==> tops(
            end.discrepancies,
            end.last_discrepancy_index as u64,
        ),
    decreases 64 - pass.index,
{
    let i = pass.index as u64;
    let a = pass.address;
    if pass.index >= 64 {
        let d = choose|d: u64| #[trigger] devs.contains(d) && low(d, i) == low(a, i);
        assert(d == a);
        return pass;
    }
    let zero = live(devs, a, i, false);
    let one = live(devs, a, i, true);
    let someone = choose|d: u64| #[trigger] devs.contains(d) && low(d, i) == low(a, i);
    assert(zero || one) by {
        if bit(someone, i) {
            assert(devs.contains(someone) && low(someone, i) == low(a, i) && bit(someone, i)
                == true);
        } else {
            assert(devs.contains(someone) && low(someone, i) == low(a, i) && bit(someone, i)
                == false);
        }
    }
    let b = !zero;
    assert(pass.choice(zero, one) == Some(b));
    let next = pass.chosen(zero, one);
    assert(next.address == with_bit(a, i, b));
    assert(next.index == pass.index + 1);
    let n = (i + 1) as u64;
    // The bit written is the bit of a device that goes on with the pass.
    let w = choose|d: u64| #[trigger] devs.contains(d) && low(d, i) == low(a, i) && bit(d, i) == b;
    crate::bits::lemma_with_bit(a, i, b, i);
    crate::bits::lemma_with_bit_low(a, i, b, i);
    crate::bits::lemma_low_step(w, next.address, i);
    assert(devs.contains(w) && low(w, n) == low(next.address, n));
    assert forall|j: u64| next.index <= j < 64 implies !#[trigger] bit(next.discrepancies, j) by {
        crate::bits::lemma_with_bit(pass.discrepancies, i, true, j);
    }
    let end = lemma_explore(devs, next);
    let e = end.address;
    crate::bits::lemma_low_below(e, next.address, n, i);
    assert(low(e, i) == low(a, i));
    assert(bit(e, i) == b);
    assert forall|d: u64| #[trigger]
        devs.contains(d) && low(d, i) == low(a, i) implies d == e || before(e, d) by {
        crate::bits::lemma_low_step(d, next.address, i);
        if bit(d, i) == b {
            assert(low(d, n) == low(next.address, n));
        } else {
            if b {
                // A device with 0 here would have answered the first read slot.
                assert(devs.contains(d) && low(d, i) == low(a, i) && bit(d, i) == false);
                assert(zero);
            }
            assert(parts(e, d, i));
        }
    }
    assert forall|j: u64| j < pass.index implies #[trigger] bit(end.discrepancies, j) == bit(
        pass.discrepancies,
        j,
    ) by {
        crate::bits::lemma_with_bit(pass.discrepancies, i, true, j);
    }
    crate::bits::lemma_with_bit(pass.discrepancies, i, true, i);
    assert(bit(end.discrepancies, i) == bit(next.discrepancies, i));
    assert(bit(end.discrepancies, i) == (zero && one));
    assert((zero && one) == open_at(devs, e, i)) by {
        if zero && one {
            let v = choose|d: u64| #[trigger]
                devs.contains(d) && low(d, i) == low(a, i) && bit(d, i) == true;
            assert(devs.contains(v) && low(v, i) == low(e, i) && bit(v, i) == true);
        }
        if open_at(devs, e, i) {
            let v = choose|d: u64| #[trigger]
                devs.contains(d) && low(d, i) == low(e, i) && bit(d, i) == true;
            assert(devs.contains(v) && low(v, i) == low(a, i) && bit(v, i) == true);
        }
    }
    assert forall|j: u64| pass.index <= j < 64 implies #[trigger] bit(end.discrepancies, j)
        == open_at(devs, e, j) by {
        if j == i {
        } else {
            assert(next.index <= j);
        }
    }
    if forall|j: u64| pass.index <= j < 64 ==> !#[trigger] bit(end.discrepancies, j) {
        assert(!bit(end.discrepancies, i));
        assert forall|j: u64| next.index <= j < 64 implies !#[trigger] bit(
            end.discrepancies,
            j,
        ) by {
            assert(pass.index <= j);
        }
    }
    if exists|j: u64| pass.index <= j < 64 && #[trigger] bit(end.discrepancies, j) {
        if exists|j: u64| next.index <= j < 64 && #[trigger] bit(end.discrepancies, j) {
        } else {
            assert forall|j: u64| next.index <= j < 64 implies !#[trigger] bit(
                end.discrepancies,
                j,
            ) by {}
            let j0 = choose|j: u64| pass.index <= j < 64 && #[trigger] bit(end.discrepancies, j);
            assert(j0 == i);
            assert(zero && one);
            assert(end.last_discrepancy_index == pass.index);
            assert forall|j: u64| i < j < 64 implies !#[trigger] bit(end.discrepancies, j) by {
                assert(next.index <= j);
            }
        }
    }
    end
}

/// Below the branch point that it resumes from, a pass repeats the code found last
/// whatever the bus answers, and finds again the highest branch point below.
proof fn lemma_replay(devs: Set<u64>, pass: Pass) -> (at: Pass)
    requires
        pass.prior is Some,
        pass.index <= pass.prior->0.last_discrepancy_index < 64,
    ensures
        walked(devs, pass) == walked(devs, at),
        at == (Pass {
            index: pass.prior->0.last_discrepancy_index,
            last_discrepancy_index: at.last_discrepancy_index,
            ..pass
        }),
        (forall|j: u64|
            pass.index <= j < pass.prior->0.last_discrepancy_index ==> !#[trigger] bit(
                pass.prior->0.discrepancies,
                j,
            )) ==> at.last_discrepancy_index == pass.last_discrepancy_index,
        (exists|j: u64|
            pass.index <= j < pass.prior->0.last_discrepancy_index && #[trigger] bit(
                pass.prior->0.discrepancies,
                j,
            )) ==> {
            &&& pass.index <= at.last_discrepancy_index < pass.prior->0.last_discrepancy_index
            &&& bit(pass.prior->0.discrepancies, at.last_discrepancy_index as u64)
            &&& forall|j: u64|
                at.last_discrepancy_index < j < pass.prior->0.last_discrepancy_index
                    ==> !#[trigger] bit(pass.prior->0.discrepancies, j)
        },
    decreases pass.prior->0.last_discrepancy_index - pass.index,
{
    let s = pass.prior->0;
    if pass.index == s.last_discrepancy_index {
        return pass;
    }
    let i = pass.index as u64;
    let zero = live(devs, pass.address, i, false);
    let one = live(devs, pass.address, i, true);
    assert(pass.replaying());
    let next = pass.chosen(zero, one);
    assert(walked(devs, pass) == walked(devs, next));
    let at = lemma_replay(devs, next);
    if exists|j: u64|
        pass.index <= j < s.last_discrepancy_index && #[trigger] bit(s.discrepancies, j) {
        if exists|j: u64|
            next.index <= j < s.last_discrepancy_index && #[trigger] bit(s.discrepancies, j) {
        } else {
            let j0 = choose|j: u64|
                pass.index <= j < s.last_discrepancy_index && #[trigger] bit(s.discrepancies, j);
            assert(j0 == i);
            assert forall|j: u64|
                next.index <= j < s.last_discrepancy_index implies !#[trigger] bit(
                s.discrepancies,
                j,
            ) by {}
        }
    } else {
        assert forall|j: u64|
            next.index <= j < s.last_discrepancy_index implies !#[trigger] bit(
            s.discrepancies,
            j,
        ) by {
            assert(pass.index <= j);
        }
        assert(!bit(s.discrepancies, i));
    }
    at
}

/// On a bus with at least one device, a pass that resumes from nothing runs to its
/// end, comes out with the first code of the bus on the wire, and leaves the state that
/// goes with that code.
pub proof fn lemma_first_pass(devs: Set<u64>) -> (end: Pass)
    requires
        exists|d: u64| devs.contains(d),
    ensures
        walked(devs, Pass::begun(None)) == Some(end),
        end.complete(),
        least(devs, end.address),
        tracks(devs, state_of(end)),
{
    let pass = Pass::begun(None);
    let d0 = choose|d: u64| devs.contains(d);
    crate::bits::lemma_low_zero(d0);
    crate::bits::lemma_low_zero(0);
    assert(devs.contains(d0) && low(d0, 0) == low(pass.address, 0));
    assert forall|j: u64| 0 <= j < 64 implies !#[trigger] bit(pass.discrepancies, j) by {
        assert((0u64 >> j) & 1 == 0) by (bit_vector);
    }
    let end = lemma_explore(devs, pass);
    assert forall|d: u64| #[trigger] devs.contains(d) implies d == end.address || before(
        end.address,
        d,
    ) by {
        crate::bits::lemma_low_zero(d);
    }
    if end.discrepancies != 0 {
        crate::bits::lemma_some_bit(end.discrepancies);
        let j = choose|j: u64| j < 64 && (end.discrepancies >> j) & 1 == 1;
        assert(bit(end.discrepancies, j));
    }
    end
}

/// On a bus whose devices are those that the state goes with, a pass that resumes from
/// a state with a branch point left runs to its end, comes out with the code that
/// follows on the wire the one found last, and leaves the state that goes with it.
pub proof fn lemma_next_pass(devs: Set<u64>, s: SearchState) -> (end: Pass)
    requires
        tracks(devs, s),
        !s.exhausted(),
    ensures
        walked(devs, Pass::begun(Some(s))) == Some(end),
        end.complete(),
        follows(devs, s.address, end.address),
        tracks(devs, state_of(end)),
{
    let a = s.address;
    let top = s.last_discrepancy_index as u64;
    let start = Pass::begun(Some(s));
    assert(tops(s.discrepancies, top));
    assert(open_at(devs, a, top));
    let at = lemma_replay(devs, start);
    // At the branch point both values are still there: the code found last has 0, and
    // the state says that a device has 1.
    assert(live(devs, a, top, false)) by {
        assert(devs.contains(a) && low(a, top) == low(a, top) && bit(a, top) == false);
    }
    assert(at.turning());
    assert(at.choice(true, true) == Some(true));
    let turned = at.chosen(true, true);
    assert(walked(devs, at) == walked(devs, turned));
    let a1 = turned.address;
    let n = (top + 1) as u64;
    let w = choose|d: u64| #[trigger]
        devs.contains(d) && low(d, top) == low(a, top) && bit(d, top) == true;
    crate::bits::lemma_with_bit(a, top, true, top);
    crate::bits::lemma_with_bit_low(a, top, true, top);
    crate::bits::lemma_low_step(w, a1, top);
    assert(devs.contains(w) && low(w, n) == low(a1, n));
    assert forall|j: u64| turned.index <= j < 64 implies !#[trigger] bit(
        turned.discrepancies,
        j,
    ) by {
        crate::bits::lemma_with_bit(s.discrepancies, top, false, j);
    }
    let end = lemma_explore(devs, turned);
    let b = end.address;
    crate::bits::lemma_low_below(b, a1, n, top);
    assert(low(b, top) == low(a, top));
    assert(bit(b, top));
    assert(parts(a, b, top));
    // No device lies between the two codes.
    assert forall|d: u64| #[trigger] devs.contains(d) implies !(before(a, d) && before(d, b)) by {
        if before(a, d) && before(d, b) {
            let k = choose|k: u64| parts(a, d, k);
            assert(devs.contains(d) && low(d, k) == low(a, k) && bit(d, k) == true);
            assert(open_at(devs, a, k));
            assert(bit(s.discrepancies, k));
            assert(k <= top);
            if k < top {
                crate::bits::lemma_low_below(b, a, top, k);
                assert(parts(b, d, k));
            } else {
                crate::bits::lemma_low_step(d, a1, top);
                assert(low(d, n) == low(a1, n));
                assert(d == b || before(b, d));
            }
            lemma_before_asymmetric(b, d);
        }
    }
    // The mask marks the branch points open after the new code.
    assert forall|i: u64| i < 64 implies #[trigger] bit(end.discrepancies, i) == open_at(
        devs,
        b,
        i,
    ) by {
        if i < n {
            crate::bits::lemma_with_bit(s.discrepancies, top, false, i);
            assert(bit(end.discrepancies, i) == bit(turned.discrepancies, i));
            if i < top {
                crate::bits::lemma_low_below(b, a, top, i);
                assert(bit(s.discrepancies, i) == open_at(devs, a, i));
                if open_at(devs, a, i) {
                    let v = choose|d: u64| #[trigger]
                        devs.contains(d) && low(d, i) == low(a, i) && bit(d, i) == true;
                    assert(devs.contains(v) && low(v, i) == low(b, i) && bit(v, i) == true);
                }
                if open_at(devs, b, i) {
                    let v = choose|d: u64| #[trigger]
                        devs.contains(d) && low(d, i) == low(b, i) && bit(d, i) == true;
                    assert(devs.contains(v) && low(v, i) == low(a, i) && bit(v, i) == true);
                }
            }
        }
    }
    if end.discrepancies != 0 {
        crate::bits::lemma_some_bit(end.discrepancies);
        let j = choose|j: u64| j < 64 && (end.discrepancies >> j) & 1 == 1;
        assert(bit(end.discrepancies, j));
        if exists|j: u64| turned.index <= j < 64 && #[trigger] bit(end.discrepancies, j) {
        } else {
            assert(end.last_discrepancy_index == at.last_discrepancy_index);
            assert(j < n);
            crate::bits::lemma_with_bit(s.discrepancies, top, false, j);
            assert(bit(end.discrepancies, j) == bit(turned.discrepancies, j));
            assert(j < top && bit(s.discrepancies, j));
            let l = at.last_discrepancy_index as u64;
            crate::bits::lemma_with_bit(s.discrepancies, top, false, l);
            assert(bit(end.discrepancies, l) == bit(turned.discrepancies, l));
            assert forall|m: u64| l < m < 64 implies !#[trigger] bit(end.discrepancies, m) by {
                if m < n {
                    crate::bits::lemma_with_bit(s.discrepancies, top, false, m);
                    assert(bit(end.discrepancies, m) == bit(turned.discrepancies, m));
                }
            }
        }
    }
    end
}

/// A state that goes with the bus has no branch point left exactly when its code is
/// the last of the bus on the wire: the search is over when, and only when, every
/// device was found.
pub proof fn lemma_exhausted_at_the_last(devs: Set<u64>, s: SearchState)
    requires
        tracks(devs, s),
    ensures
        s.exhausted() <==> greatest(devs, s.address),
{
    let a = s.address;
    if s.exhausted() {
        assert forall|d: u64| #[trigger] devs.contains(d) implies d == a || before(d, a) by {
            if d != a {
                crate::bits::lemma_low_zero(a);
                crate::bits::lemma_low_zero(d);
                let k = lemma_first_difference(a, d, 0);
                if bit(d, k) {
                    assert(devs.contains(d) && low(d, k) == low(a, k) && bit(d, k) == true);
                    assert(open_at(devs, a, k));
                    assert(bit(s.discrepancies, k));
                    assert((0u64 >> k) & 1 == 0) by (bit_vector);
                } else {
                    assert(parts(d, a, k));
                }
            }
        }
    } else {
        let top = s.last_discrepancy_index as u64;
        assert(tops(s.discrepancies, top));
        assert(open_at(devs, a, top));
        let d = choose|d: u64| #[trigger]
            devs.contains(d) && low(d, top) == low(a, top) && bit(d, top) == true;
        assert(parts(a, d, top));
        lemma_before_asymmetric(a, d);
    }
}

/// Whether `finds` holds the states that the first calls of a search return on the
/// bus, each call resuming from the state of the call before: the state of the first
/// pass, then of each next one, none but the last with no branch point left.
pub open spec fn threaded(devs: Set<u64>, finds: Seq<SearchState>) -> bool {
    &&& finds.len() > 0
    &&& walked(devs, Pass::begun(None)) matches Some(end) && state_of(end) == finds[0]
    &&& forall|i: int|
        0 <= i < finds.len() - 1 ==> !(#[trigger] finds[i]).exhausted() && (walked(
            devs,
            Pass::begun(Some(finds[i])),
        ) matches Some(end) && state_of(end) == finds[i + 1])
}

/// The codes that the calls returned.
pub open spec fn codes(finds: Seq<SearchState>) -> Seq<u64> {
    Seq::new(finds.len(), |i: int| finds[i].address)
}

/// Every state of a threaded search goes with the bus, the first with the first code on
/// the wire, each later one with the code that follows the one before.
proof fn lemma_thread(devs: Set<u64>, finds: Seq<SearchState>, i: int)
    requires
        threaded(devs, finds),
        0 <= i < finds.len(),
    ensures
        tracks(devs, finds[i]),
        i == 0 ==> least(devs, finds[0].address),
        i > 0 ==> follows(devs, finds[i - 1].address, finds[i].address),
    decreases i,
{
    if i == 0 {
        if !exists|d: u64| devs.contains(d) {
            assert(!live(devs, 0, 0, false));
            assert(!live(devs, 0, 0, true));
        }
        let end = lemma_first_pass(devs);
    } else {
        lemma_thread(devs, finds, i - 1);
        assert(!finds[i - 1].exhausted());
        let end = lemma_next_pass(devs, finds[i - 1]);
    }
}

/// The codes of a threaded search ascend on the wire.
proof fn lemma_thread_ascends(devs: Set<u64>, finds: Seq<SearchState>, i: int, j: int)
    requires
        threaded(devs, finds),
        0 <= i < j < finds.len(),
    ensures
        before(finds[i].address, finds[j].address),
    decreases j - i,
{
    lemma_thread(devs, finds, j);
    if i + 1 < j {
        lemma_thread_ascends(devs, finds, i, j - 1);
        lemma_before_transitive(finds[i].address, finds[j - 1].address, finds[j].address);
    }
}

/// A device of the bus is among the first codes of a threaded search, or comes after
/// them on the wire.
proof fn lemma_thread_reaches(devs: Set<u64>, finds: Seq<SearchState>, d: u64, i: int)
    requires
        threaded(devs, finds),
        devs.contains(d),
        0 <= i < finds.len(),
    ensures
        (exists|k: int| 0 <= k <= i && (#[trigger] finds[k]).address == d) || before(
            finds[i].address,
            d,
        ),
    decreases i,
{
    lemma_thread(devs, finds, i);
    if i == 0 {
        if finds[0].address == d {
        }
    } else {
        lemma_thread_reaches(devs, finds, d, i - 1);
        if exists|k: int| 0 <= k <= i - 1 && (#[trigger] finds[k]).address == d {
            let k = choose|k: int| 0 <= k <= i - 1 && (#[trigger] finds[k]).address == d;
            assert(0 <= k <= i && finds[k].address == d);
        } else {
            let a = finds[i - 1].address;
            let b = finds[i].address;
            assert(!(before(a, d) && before(d, b)));
            if d != b {
                lemma_before_total(b, d);
            }
        }
    }
}

/// Called again and again, each call from the state of the call before, a search goes
/// through the devices of a bus that stays the same: every code it returns is on the
/// bus; the codes ascend on the wire, so that none comes twice; and the state has no
/// branch point left, so that the next call finds nothing, exactly when every device of
/// the bus is among them.
pub proof fn lemma_enumeration(devs: Set<u64>, finds: Seq<SearchState>)
    requires
        threaded(devs, finds),
    ensures
        forall|i: int| 0 <= i < finds.len() ==> devs.contains((#[trigger] finds[i]).address),
        forall|i: int, j: int|
            0 <= i < j < finds.len() ==> before(
                (#[trigger] finds[i]).address,
                (#[trigger] finds[j]).address,
            ),
        finds.last().exhausted() <==> (forall|d: u64| #[trigger]
            devs.contains(d) ==> exists|k: int|
                0 <= k < finds.len() && (#[trigger] finds[k]).address == d),
{
    let last = finds.len() - 1;
    assert forall|i: int| 0 <= i < finds.len() implies devs.contains(
        (#[trigger] finds[i]).address,
    ) by {
        lemma_thread(devs, finds, i);
    }
    assert forall|i: int, j: int| 0 <= i < j < finds.len() implies before(
        (#[trigger] finds[i]).address,
        (#[trigger] finds[j]).address,
    ) by {
        lemma_thread_ascends(devs, finds, i, j);
    }
    lemma_thread(devs, finds, last);
    lemma_exhausted_at_the_last(devs, finds[last]);
    if finds.last().exhausted() {
        assert forall|d: u64| #[trigger] devs.contains(d) implies exists|k: int|
            0 <= k < finds.len() && (#[trigger] finds[k]).address == d by {
            lemma_thread_reaches(devs, finds, d, last);
            if exists|k: int| 0 <= k <= last && (#[trigger] finds[k]).address == d {
                let k = choose|k: int| 0 <= k <= last && (#[trigger] finds[k]).address == d;
                assert(0 <= k < finds.len() && finds[k].address == d);
            } else {
                lemma_before_asymmetric(finds[last].address, d);
            }
        }
    }
    if forall|d: u64| #[trigger]
        devs.contains(d) ==> exists|k: int|
            0 <= k < finds.len() && (#[trigger] finds[k]).address == d {
        assert forall|d: u64| #[trigger] devs.contains(d) implies d == finds[last].address
            || before(d, finds[last].address) by {
            let k = choose|k: int| 0 <= k < finds.len() && (#[trigger] finds[k]).address == d;
            if k < last {
                lemma_thread_ascends(devs, finds, k, last);
            }
        }
    }
}

/// On a bus with finitely many devices the calls come to an end: a threaded search has
/// returned at most as many codes as the bus has devices, and its state has no branch
/// point left exactly when it has returned as many.
pub proof fn lemma_enumeration_ends(devs: Set<u64>, finds: Seq<SearchState>)
    requires
        devs.finite(),
        threaded(devs, finds),
    ensures
        finds.len() <= devs.len(),
        finds.last().exhausted() <==> finds.len() == devs.len(),
{
    let found = codes(finds);
    lemma_enumeration(devs, finds);
    assert forall|i: int, j: int|
        0 <= i < found.len() && 0 <= j < found.len() && i != j implies found[i] != found[j] by {
        if i < j {
            assert(before(finds[i].address, finds[j].address));
            lemma_before_asymmetric(found[i], found[j]);
        } else {
            assert(before(finds[j].address, finds[i].address));
            lemma_before_asymmetric(found[j], found[i]);
        }
    }
    found.unique_seq_to_set();
    assert forall|d: u64| found.to_set().contains(d) implies devs.contains(d) by {
        let i = choose|i: int| 0 <= i < found.len() && found[i] == d;
        assert(devs.contains(finds[i].address));
    }
    vstd::set_lib::lemma_len_subset(found.to_set(), devs);
    if finds.last().exhausted() {
        assert forall|d: u64| devs.contains(d) implies found.to_set().contains(d) by {
            let k = choose|k: int| 0 <= k < finds.len() && (#[trigger] finds[k]).address == d;
            assert(found[k] == d);
        }
        assert(found.to_set() =~= devs);
    }
    if finds.len() == devs.len() {
        vstd::set_lib::lemma_subset_equality(found.to_set(), devs);
        assert forall|d: u64| #[trigger] devs.contains(d) implies exists|k: int|
            0 <= k < finds.len() && (#[trigger] finds[k]).address == d by {
            assert(found.to_set().contains(d));
            let k = choose|k: int| 0 <= k < found.len() && found[k] == d;
            assert(finds[k].address == d);
        }
    }
}

/// An upper bound on the slots that a search still has to go through.
pub open spec fn slots_left(search: Search) -> nat {
    let left = if search.pass.index >= 64 {
        0
    } else {
        64 - search.pass.index
    };
    match search.stage {
        Stage::Reset => 220,
        Stage::Command(k) => if k < 7 {
            (210 - k) as nat
        } else {
            203
        },
        Stage::AskZero => (3 * left + 2) as nat,
        Stage::AskOne => (3 * left + 1) as nat,
        Stage::Tell => (3 * left + 3) as nat,
        _ => 0,
    }
}

/// What the slot in progress samples on a bus where `present` says whether any device
/// answers a reset pulse and `devs` holds the codes of the devices that take part in the
/// search: a read slot samples the line low, which reads as `false`, where a device that
/// still takes part has the value asked for. A write slot samples nothing.
pub open spec fn sampled(present: bool, devs: Set<u64>, search: Search) -> bool {
    match search.stage {
        Stage::Reset => present,
        Stage::AskZero => !live(devs, search.pass.address, search.pass.index as u64, false),
        Stage::AskOne => !live(devs, search.pass.address, search.pass.index as u64, true),
        _ => false,
    }
}

/// The search run to its end on such a bus, slot by slot.
pub open spec fn searched(present: bool, devs: Set<u64>, search: Search) -> Search
    decreases slots_left(search),
{
    if search.over() {
        search
    } else {
        searched(present, devs, search.after_slot(sampled(present, devs, search)))
    }
}

/// From the first read slot of a position on, the search on the bus comes to what the
/// pass comes to: all positions decided, or stopped on answers that cannot be.
proof fn lemma_positions(present: bool, devs: Set<u64>, search: Search)
    requires
        search.wf(),
        search.stage is AskZero,
    ensures
        match walked(devs, search.pass) {
            Some(end) => searched(present, devs, search).stage is Complete && searched(
                present,
                devs,
                search,
            ).pass == end,
            None => searched(present, devs, search).stage is Violated,
        },
    decreases 64 - search.pass.index,
{
    let zero = live(devs, search.pass.address, search.pass.index as u64, false);
    let one = live(devs, search.pass.address, search.pass.index as u64, true);
    let asked = search.after_slot(!zero);
    assert(searched(present, devs, search) == searched(present, devs, asked));
    let told = asked.after_slot(!one);
    assert(searched(present, devs, asked) == searched(present, devs, told));
    if search.pass.choice(zero, one) is Some {
        let next = told.after_slot(false);
        assert(searched(present, devs, told) == searched(present, devs, next));
        if told.pass.complete() {
            assert(searched(present, devs, next) == next);
            assert(walked(devs, told.pass) == Some(told.pass));
        } else {
            lemma_positions(present, devs, next);
        }
    } else {
        assert(searched(present, devs, told) == told);
    }
}

/// A search that has not begun comes, after the reset pulse and the command, to the
/// first read slot with its pass untouched, if a device answered the reset, and to
/// nothing at all if none did.
proof fn lemma_opening(present: bool, devs: Set<u64>, search: Search) -> (first: Search)
    requires
        search.wf(),
        search.stage is Reset,
    ensures
        searched(present, devs, search) == searched(present, devs, first),
        first.pass == search.pass,
        first.wf(),
        present ==> first.stage is AskZero,
        !present ==> first.stage is Nothing,
{
    let s0 = search.after_slot(present);
    assert(searched(present, devs, search) == searched(present, devs, s0));
    if !present {
        return s0;
    }
    let s1 = s0.after_slot(false);
    let s2 = s1.after_slot(false);
    let s3 = s2.after_slot(false);
    let s4 = s3.after_slot(false);
    let s5 = s4.after_slot(false);
    let s6 = s5.after_slot(false);
    let s7 = s6.after_slot(false);
    let s8 = s7.after_slot(false);
    assert(searched(present, devs, s0) == searched(present, devs, s1));
    assert(searched(present, devs, s1) == searched(present, devs, s2));
    assert(searched(present, devs, s2) == searched(present, devs, s3));
    assert(searched(present, devs, s3) == searched(present, devs, s4));
    assert(searched(present, devs, s4) == searched(present, devs, s5));
    assert(searched(present, devs, s5) == searched(present, devs, s6));
    assert(searched(present, devs, s6) == searched(present, devs, s7));
    assert(searched(present, devs, s7) == searched(present, devs, s8));
    s8
}

/// On a bus where no device answers the reset pulse, a search finds nothing, and the
/// reset pulse is its only slot.
pub proof fn lemma_search_on_an_empty_bus(
    devs: Set<u64>,
    prior: Option<SearchState>,
    only_alarming: bool,
)
    ensures
        searched(false, devs, Search::begun(prior, only_alarming)).stage is Nothing,
        !(prior matches Some(s) && s.exhausted()) ==> Search::begun(
            prior,
            only_alarming,
        ).after_slot(false).over(),
{
    let search = Search::begun(prior, only_alarming);
    if search.stage is Reset {
        let first = lemma_opening(false, devs, search);
    }
}

/// On a bus with at least one device, the first search comes out with the first code of
/// the bus on the wire and the state that goes with it; and if that code is not intact,
/// with a mismatch and no code.
pub proof fn lemma_first_search<E>(devs: Set<u64>, only_alarming: bool) -> (end: Pass)
    requires
        exists|d: u64| devs.contains(d),
    ensures
        walked(devs, Pass::begun(None)) == Some(end),
        least(devs, end.address),
        tracks(devs, state_of(end)),
        searched(true, devs, Search::begun(None, only_alarming)).outcome::<E>() == (
        match end.found::<E>() {
            Ok(found) => Ok(Some(found)),
            Err(e) => Err(e),
        }),
        crate::crc::intact(crate::address::le_bytes(end.address)) ==> end.found::<E>() == Ok::<
            (crate::address::Address, SearchState),
            crate::error::OneWireError<E>,
        >((crate::address::Address(end.address), state_of(end))),
        !crate::crc::intact(crate::address::le_bytes(end.address)) ==> end.found::<E>() == Err::<
            (crate::address::Address, SearchState),
            crate::error::OneWireError<E>,
        >(crate::error::OneWireError::CrcMismatch),
{
    let end = lemma_first_pass(devs);
    let search = Search::begun(None, only_alarming);
    let first = lemma_opening(true, devs, search);
    lemma_positions(true, devs, first);
    end
}

/// On a bus whose devices are those that the state goes with, a search from a state
/// with a branch point left comes out with the code that follows on the wire the one
/// found last, and the state that goes with it; and if that code is not intact, with a
/// mismatch and no code.
pub proof fn lemma_next_search<E>(devs: Set<u64>, s: SearchState, only_alarming: bool) -> (end:
    Pass)
    requires
        tracks(devs, s),
        !s.exhausted(),
    ensures
        walked(devs, Pass::begun(Some(s))) == Some(end),
        follows(devs, s.address, end.address),
        tracks(devs, state_of(end)),
        searched(true, devs, Search::begun(Some(s), only_alarming)).outcome::<E>() == (
        match end.found::<E>() {
            Ok(found) => Ok(Some(found)),
            Err(e) => Err(e),
        }),
        crate::crc::intact(crate::address::le_bytes(end.address)) ==> end.found::<E>() == Ok::<
            (crate::address::Address, SearchState),
            crate::error::OneWireError<E>,
        >((crate::address::Address(end.address), state_of(end))),
        !crate::crc::intact(crate::address::le_bytes(end.address)) ==> end.found::<E>() == Err::<
            (crate::address::Address, SearchState),
            crate::error::OneWireError<E>,
        >(crate::error::OneWireError::CrcMismatch),
{
    let end = lemma_next_pass(devs, s);
    let search = Search::begun(Some(s), only_alarming);
    let first = lemma_opening(true, devs, search);
    lemma_positions(true, devs, first);
    end
}

/// On a bus with the one device `a`, the first search finds `a` (or a mismatch, if `a`
/// is not intact) and leaves a state with no branch point. From that state the next
/// search is over at once, with nothing found and no request made: not even a reset.
pub proof fn lemma_single_device<E>(a: u64, only_alarming: bool) -> (end: Pass)
    ensures
        end.address == a,
        state_of(end).exhausted(),
        walked(set![a], Pass::begun(None)) == Some(end),
        searched(true, set![a], Search::begun(None, only_alarming)).outcome::<E>() == (
        match end.found::<E>() {
            Ok(found) => Ok(Some(found)),
            Err(e) => Err(e),
        }),
        Search::begun(Some(state_of(end)), only_alarming).outstanding() is None,
        Search::begun(Some(state_of(end)), only_alarming).outcome::<E>() == Ok::<
            Option<(crate::address::Address, SearchState)>,
            crate::error::OneWireError<E>,
        >(None),
{
    let devs = set![a];
    assert(devs.contains(a));
    let end = lemma_first_search::<E>(devs, only_alarming);
    assert(devs.contains(end.address));
    lemma_exhausted_at_the_last(devs, state_of(end));
    assert forall|d: u64| #[trigger] devs.contains(d) implies d == a || before(d, a) by {}
    end
}

/// A search from a state whose branch point is gone from the bus (the devices no
/// longer answer there with both values) stops with an unexpected response and hands
/// out no code.
pub proof fn lemma_branch_point_gone<E>(devs: Set<u64>, s: SearchState, only_alarming: bool)
    requires
        !s.exhausted(),
        s.last_discrepancy_index < 64,
        !(live(devs, s.address, s.last_discrepancy_index as u64, false) && live(
            devs,
            s.address,
            s.last_discrepancy_index as u64,
            true,
        )),
    ensures
        walked(devs, Pass::begun(Some(s))) is None,
        searched(true, devs, Search::begun(Some(s), only_alarming)).outcome::<E>() == Err::<
            Option<(crate::address::Address, SearchState)>,
            crate::error::OneWireError<E>,
        >(crate::error::OneWireError::UnexpectedResponse),
{
    let start = Pass::begun(Some(s));
    let at = lemma_replay(devs, start);
    assert(at.turning());
    let search = Search::begun(Some(s), only_alarming);
    let first = lemma_opening(true, devs, search);
    lemma_positions(true, devs, first);
}

} // verus!
