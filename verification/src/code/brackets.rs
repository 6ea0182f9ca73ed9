//! Brackets, where they stand in a program, and which bracket closes which.

use std::collections::HashMap;
use vstd::prelude::*;
use vstd::std_specs::iter::IteratorSpec;
use crate::debug::BfErrorKind;
use crate::stdlib::sort_positions;

verus! {

/// The side of a bracket: one that opens or one that closes.
#[derive(Clone, Copy, Debug, PartialEq, Eq, Hash, Structural)]
pub enum BType {
    Left,
    Right,
}

impl BType {
    /// Whether the bracket opens.
    pub fn is_left(&self) -> (left: bool)
        ensures
            left == (*self == BType::Left),
    {
        match self {
            BType::Left => true,
            BType::Right => false,
        }
    }

    /// Whether the bracket closes.
    pub fn is_right(&self) -> (right: bool)
        ensures
            right == (*self == BType::Right),
    {
        !self.is_left()
    }
}

/// A bracket: its side, its family, and the position of the bracket that it
/// is paired with, once that is known.
///
/// Brackets of one family, such as `(` and `)`, have the same `kind`; a
/// bracket closes only a bracket of its own family.
#[derive(Clone, Copy, Debug, PartialEq, Eq, Hash)]
pub struct Bracket {
    btype: BType,
    kind: u8,
    counterpart: Option<usize>,
}

impl Bracket {
    /// The side of the bracket.
    pub closed spec fn spec_btype(&self) -> BType {
        self.btype
    }

    /// The family of the bracket.
    pub closed spec fn spec_kind(&self) -> u8 {
        self.kind
    }

    /// The position of the bracket's partner.
    pub closed spec fn spec_counterpart(&self) -> Option<usize> {
        self.counterpart
    }

    /// The bracket of the given side and family that has no partner yet.
    pub closed spec fn unpaired(btype: BType, kind: u8) -> Bracket {
        Bracket { btype, kind, counterpart: None }
    }

    /// What a bracket without a partner holds.
    pub broadcast proof fn lemma_unpaired(btype: BType, kind: u8)
        ensures
            (#[trigger] Bracket::unpaired(btype, kind)).btype() == btype,
            Bracket::unpaired(btype, kind).kind() == kind,
            Bracket::unpaired(btype, kind).counterpart() is None,
    {
    }

    /// The same bracket with `counterpart` as the position of its partner.
    pub closed spec fn linked(self, counterpart: usize) -> Bracket {
        Bracket { btype: self.btype, kind: self.kind, counterpart: Some(counterpart) }
    }

    /// Linking a bracket changes neither its side nor its family.
    pub broadcast proof fn lemma_linked(self, counterpart: usize)
        ensures
            (#[trigger] self.linked(counterpart)).btype() == self.btype(),
            self.linked(counterpart).kind() == self.kind(),
            self.linked(counterpart).counterpart() == Some(counterpart),
    {
    }

    /// A bracket that has no partner yet.
    pub fn new(btype: BType, kind: u8) -> (bracket: Self)
        ensures
            bracket == Bracket::unpaired(btype, kind),
            bracket.btype() == btype,
            bracket.kind() == kind,
            bracket.counterpart() is None,
    {
        Self { btype, kind, counterpart: None }
    }

    /// Records `counterpart` as the position of the partner.
    pub fn set_counterpart(&mut self, counterpart: usize) -> (same: &mut Self)
        ensures
            *same == old(self).linked(counterpart),
            *final(self) == *final(same),
    {
        self.counterpart = Some(counterpart);
        self
    }

    /// The position of the partner, if one was recorded.
    #[verifier::when_used_as_spec(spec_counterpart)]
    pub fn counterpart(&self) -> (counterpart: Option<usize>)
        ensures
            counterpart == self.counterpart(),
    {
        self.counterpart
    }

    /// The side of the bracket.
    #[verifier::when_used_as_spec(spec_btype)]
    pub fn btype(&self) -> (btype: BType)
        ensures
            btype == self.btype(),
    {
        self.btype
    }

    /// The family of the bracket.
    #[verifier::when_used_as_spec(spec_kind)]
    pub fn kind(&self) -> (kind: u8)
        ensures
            kind == self.kind(),
    {
        self.kind
    }
}

/// The table behind a [`BracketMap`].
pub type BMap = HashMap<usize, Bracket>;

/// What pairing reports: success, or the kind of the fault and the position
/// of the bracket at fault.
pub type BMapResult<T> = Result<T, (BfErrorKind, usize)>;

/// Whether `positions` rises strictly.
pub open spec fn rising(positions: Seq<usize>) -> bool {
    forall|i: int, j: int| 0 <= i < j < positions.len() ==> positions[i] < positions[j]
}

/// Whether `positions` holds every position of `map` once, in rising order.
pub open spec fn lists(positions: Seq<usize>, map: Map<usize, Bracket>) -> bool {
    &&& rising(positions)
    &&& forall|p: usize| positions.contains(p) <==> map.contains_key(p)
}

/// The positions of `map` in rising order.
pub open spec fn positions(map: Map<usize, Bracket>) -> Seq<usize> {
    choose|positions: Seq<usize>| lists(positions, map)
}

/// Where reading brackets from left to right has got to.
pub enum Scan {
    /// Every closing bracket so far closed an open one; the positions of the
    /// brackets still open are given from the outermost to the innermost.
    Open(Seq<usize>),
    /// The closing bracket at this position had nothing to close: no bracket
    /// was open, or the innermost open one was of another family.
    Stray(usize),
}

/// Reads the brackets of `map` at `positions` from left to right. An opening
/// bracket becomes the innermost open one; a closing bracket closes the
/// innermost open one if that is of its family, and is stray otherwise.
/// Reading ends at the first stray bracket.
pub open spec fn scan(map: Map<usize, Bracket>, positions: Seq<usize>) -> Scan
    decreases positions.len(),
{
    if positions.len() == 0 {
        Scan::Open(Seq::empty())
    } else {
        let here = positions.last();
        match scan(map, positions.drop_last()) {
            Scan::Stray(at) => Scan::Stray(at),
            Scan::Open(open) => if map[here].btype() == BType::Left {
                Scan::Open(open.push(here))
            } else if open.len() > 0 && map[open.last()].kind() == map[here].kind() {
                Scan::Open(open.drop_last())
            } else {
                Scan::Stray(here)
            },
        }
    }
}

/// What reading all the brackets of `map` comes to: success if every bracket
/// found its partner, the position of the first stray closing bracket if
/// there is one, and else the position of the outermost bracket left open.
pub open spec fn verdict(map: Map<usize, Bracket>) -> BMapResult<()> {
    match scan(map, positions(map)) {
        Scan::Stray(at) => Err((BfErrorKind::UnmatchedRightBracket, at)),
        Scan::Open(open) => if open.len() == 0 {
            Ok(())
        } else {
            Err((BfErrorKind::UnmatchedLeftBracket, open[0]))
        },
    }
}

/// The brackets of `map` after the brackets at `positions` were read from
/// left to right: each closing bracket and the bracket that it closed hold
/// each other's position.
pub open spec fn paired(map: Map<usize, Bracket>, positions: Seq<usize>) -> Map<usize, Bracket>
    decreases positions.len(),
{
    if positions.len() == 0 {
        map
    } else {
        let here = positions.last();
        let before = paired(map, positions.drop_last());
        match scan(map, positions.drop_last()) {
            Scan::Stray(_) => before,
            Scan::Open(open) => if map[here].btype() != BType::Left && open.len() > 0
                && map[open.last()].kind() == map[here].kind() {
                let there = open.last();
                let half = before.insert(there, before[there].linked(here));
                half.insert(here, half[here].linked(there))
            } else {
                before
            },
        }
    }
}

/// Whether the bracket at `p` and its partner name each other in `map`: the
/// partner stands in `map`, is of the same family and of the other side, and
/// the one that opens stands before the one that closes.
pub open spec fn partnered(map: Map<usize, Bracket>, p: usize) -> bool {
    &&& map.contains_key(p)
    &&& map[p].counterpart() matches Some(c)
    &&& map.contains_key(c)
    &&& map[c].counterpart() == Some(p)
    &&& map[c].kind() == map[p].kind()
    &&& map[c].btype() != map[p].btype()
    &&& (map[p].btype() == BType::Left) == (p < c)
}

/// Whether every bracket of `map` has a partner that names it back.
pub open spec fn matched(map: Map<usize, Bracket>) -> bool {
    forall|p: usize| map.contains_key(p) ==> partnered(map, p)
}

/// Two rising sequences with the same elements are the same sequence.
pub proof fn lemma_rising_unique(a: Seq<usize>, b: Seq<usize>)
    requires
        rising(a),
        rising(b),
        forall|p: usize| a.contains(p) <==> b.contains(p),
    ensures
        a == b,
    decreases a.len(),
{
    if a.len() == 0 {
        if b.len() > 0 {
            assert(b.contains(b[0]));
        }
        assert(a =~= b);
    } else {
        assert(a.contains(a.last()));
        let j = choose|j: int| 0 <= j < b.len() && b[j] == a.last();
        assert(b.contains(b.last()));
        let k = choose|k: int| 0 <= k < a.len() && a[k] == b.last();
        assert(a.last() == b.last());
        let a1 = a.drop_last();
        let b1 = b.drop_last();
        assert forall|p: usize| a1.contains(p) <==> b1.contains(p) by {
            if a1.contains(p) {
                let i = choose|i: int| 0 <= i < a1.len() && a1[i] == p;
                assert(a[i] == p);
                assert(a.contains(p));
                let l = choose|l: int| 0 <= l < b.len() && b[l] == p;
                assert(b1[l] == p);
            }
            if b1.contains(p) {
                let i = choose|i: int| 0 <= i < b1.len() && b1[i] == p;
                assert(b[i] == p);
                assert(b.contains(p));
                let l = choose|l: int| 0 <= l < a.len() && a[l] == p;
                assert(a1[l] == p);
            }
        }
        lemma_rising_unique(a1, b1);
        assert(a =~= a1.push(a.last()));
        assert(b =~= b1.push(b.last()));
    }
}

/// A sequence that lists the positions of `map` is the one that
/// [`positions`] names.
pub proof fn lemma_positions(map: Map<usize, Bracket>, listing: Seq<usize>)
    requires
        lists(listing, map),
    ensures
        positions(map) == listing,
{
    lemma_rising_unique(positions(map), listing);
}

/// A rising sequence of the positions below `bound` that `map` holds.
proof fn lemma_listing_below(map: Map<usize, Bracket>, bound: nat) -> (listing: Seq<usize>)
    ensures
        rising(listing),
        forall|p: usize| listing.contains(p) <==> map.contains_key(p) && p < bound,
    decreases bound,
{
    if bound == 0 {
        Seq::empty()
    } else {
        let lower = lemma_listing_below(map, (bound - 1) as nat);
        if bound - 1 <= usize::MAX && map.contains_key((bound - 1) as usize) {
            let top = (bound - 1) as usize;
            let listing = lower.push(top);
            assert forall|i: int, j: int| 0 <= i < j < listing.len() implies listing[i]
                < listing[j] by {
                assert(lower.contains(lower[i]));
            }
            assert forall|p: usize| listing.contains(p) <==> map.contains_key(p) && p
                < bound by {
                if listing.contains(p) {
                    let i = choose|i: int| 0 <= i < listing.len() && listing[i] == p;
                    if i < lower.len() {
                        assert(lower.contains(lower[i]));
                    }
                }
                if map.contains_key(p) && p < bound {
                    if p == top {
                        assert(listing[lower.len() as int] == p);
                    } else {
                        assert(lower.contains(p));
                        let i = choose|i: int| 0 <= i < lower.len() && lower[i] == p;
                        assert(listing[i] == p);
                    }
                }
            }
            listing
        } else {
            lower
        }
    }
}

/// The positions of every table can be listed in rising order, so
/// [`positions`] lists them.
pub proof fn lemma_positions_listed(map: Map<usize, Bracket>)
    ensures
        lists(positions(map), map),
{
    let listing = lemma_listing_below(map, (usize::MAX + 1) as nat);
    assert(lists(listing, map));
}

/// Once a stray bracket was read, reading further changes nothing.
pub proof fn lemma_stray_stays(map: Map<usize, Bracket>, positions: Seq<usize>, read: int)
    requires
        0 <= read <= positions.len(),
        scan(map, positions.take(read)) is Stray,
    ensures
        scan(map, positions) == scan(map, positions.take(read)),
    decreases positions.len() - read,
{
    if read == positions.len() {
        assert(positions.take(read) =~= positions);
    } else {
        assert(positions.take(read + 1).drop_last() =~= positions.take(read));
        lemma_stray_stays(map, positions, read + 1);
    }
}

/// What holds after the brackets at `read` were read without a stray one:
/// `now` has the brackets of `map`, with their sides and families; the open
/// brackets rise, were read, and open; and every bracket that was read is
/// either still open or partnered with one that was read and is closed.
pub open spec fn reading(
    map: Map<usize, Bracket>,
    read: Seq<usize>,
    open: Seq<usize>,
    now: Map<usize, Bracket>,
) -> bool {
    &&& now.dom() == map.dom()
    &&& forall|p: usize|
        map.contains_key(p) ==> (#[trigger] now[p]).btype() == map[p].btype() && now[p].kind()
            == map[p].kind()
    &&& rising(open)
    &&& forall|k: int|
        0 <= k < open.len() ==> read.contains(#[trigger] open[k]) && map[open[k]].btype()
            == BType::Left
    &&& forall|p: usize| #[trigger]
        read.contains(p) ==> open.contains(p) || closed_in(read, open, now, p)
}

/// Whether the bracket at `p` is partnered in `now` with a bracket that was
/// read and is no longer open.
pub open spec fn closed_in(
    read: Seq<usize>,
    open: Seq<usize>,
    now: Map<usize, Bracket>,
    p: usize,
) -> bool {
    &&& partnered(now, p)
    &&& read.contains(now[p].counterpart()->0)
    &&& !open.contains(now[p].counterpart()->0)
}

/// Reading brackets that stand in `map`, in rising order, keeps [`reading`].
pub proof fn lemma_reading(map: Map<usize, Bracket>, read: Seq<usize>)
    requires
        rising(read),
        forall|p: usize| read.contains(p) ==> map.contains_key(p),
    ensures
        paired(map, read).dom() == map.dom(),
        scan(map, read) matches Scan::Open(open) ==> reading(map, read, open, paired(map, read)),
    decreases read.len(),
{
    broadcast use Bracket::lemma_linked;

    if read.len() == 0 {
    } else {
        let here = read.last();
        let before = read.drop_last();
        assert(read.contains(here));
        assert forall|p: usize| before.contains(p) implies read.contains(p) && p < here by {
            let i = choose|i: int| 0 <= i < before.len() && before[i] == p;
            assert(read[i] == p);
        }
        assert forall|p: usize| read.contains(p) implies before.contains(p) || p == here by {
            let i = choose|i: int| 0 <= i < read.len() && read[i] == p;
            if i < before.len() {
                assert(before[i] == p);
            }
        }
        lemma_reading(map, before);
        let was = paired(map, before);
        let now = paired(map, read);
        match scan(map, before) {
            Scan::Stray(_) => {},
            Scan::Open(open) => {
                assert(reading(map, before, open, was));
                assert forall|q: usize| open.contains(q) implies before.contains(q) by {
                    let k = choose|k: int| 0 <= k < open.len() && open[k] == q;
                    assert(before.contains(open[k]));
                }
                if map[here].btype() == BType::Left {
                    let wider = open.push(here);
                    assert(now == was);
                    assert(rising(wider)) by {
                        assert forall|i: int, j: int| 0 <= i < j < wider.len() implies wider[i]
                            < wider[j] by {
                            if j == open.len() {
                                assert(before.contains(open[i]));
                            }
                        }
                    }
                    assert forall|k: int| 0 <= k < wider.len() implies read.contains(
                        #[trigger] wider[k],
                    ) && map[wider[k]].btype() == BType::Left by {
                        if k < open.len() {
                            assert(before.contains(open[k]));
                        }
                    }
                    assert forall|p: usize| #[trigger] read.contains(p) implies wider.contains(p)
                        || closed_in(read, wider, now, p) by {
                        if p == here {
                            assert(wider[open.len() as int] == here);
                        } else if open.contains(p) {
                            let k = choose|k: int| 0 <= k < open.len() && open[k] == p;
                            assert(wider[k] == p);
                        } else {
                            assert(before.contains(p));
                            assert(closed_in(before, open, was, p));
                            let c = was[p].counterpart()->0;
                            if wider.contains(c) {
                                let k = choose|k: int| 0 <= k < wider.len() && wider[k] == c;
                                if k < open.len() {
                                    assert(open[k] == c);
                                }
                            }
                        }
                    }
                    assert(reading(map, read, wider, now));
                } else if open.len() > 0 && map[open.last()].kind() == map[here].kind() {
                    let there = open.last();
                    let fewer = open.drop_last();
                    assert(open.contains(there));
                    assert(before.contains(there));
                    let half = was.insert(there, was[there].linked(here));
                    assert(now == half.insert(here, half[here].linked(there)));
                    assert(now.dom() =~= map.dom());
                    assert(there != here);
                    assert forall|q: usize| fewer.contains(q) implies open.contains(q) && q
                        != there by {
                        let k = choose|k: int| 0 <= k < fewer.len() && fewer[k] == q;
                        assert(open[k] == q);
                    }
                    assert(rising(fewer));
                    assert forall|k: int| 0 <= k < fewer.len() implies read.contains(
                        #[trigger] fewer[k],
                    ) && map[fewer[k]].btype() == BType::Left by {
                        assert(before.contains(open[k]));
                    }
                    assert(map[there].btype() == BType::Left) by {
                        assert(open[open.len() - 1] == there);
                    }
                    assert forall|p: usize| #[trigger] read.contains(p) implies fewer.contains(p)
                        || closed_in(read, fewer, now, p) by {
                        if p == here {
                            assert(partnered(now, here));
                        } else if p == there {
                            assert(partnered(now, there));
                        } else if open.contains(p) {
                            let k = choose|k: int| 0 <= k < open.len() && open[k] == p;
                            assert(fewer[k] == p);
                        } else {
                            assert(before.contains(p));
                            assert(closed_in(before, open, was, p));
                            let c = was[p].counterpart()->0;
                            assert(c != there);
                            assert(c != here);
                            assert(now[p] == was[p]);
                            assert(now[c] == was[c]);
                        }
                    }
                    assert(reading(map, read, fewer, now));
                } else {
                }
            },
        }
    }
}

/// Pairing is mutual: where every bracket of `map` finds its partner, each
/// bracket of the paired table names a partner that stands in the table and
/// names it back; the two are of one family, one opens and one closes, and
/// the one that opens comes first. The table has the same positions as
/// before.
pub proof fn lemma_pairing_is_mutual(map: Map<usize, Bracket>)
    requires
        verdict(map) is Ok,
    ensures
        paired(map, positions(map)).dom() == map.dom(),
        matched(paired(map, positions(map))),
{
    lemma_positions_listed(map);
    let all = positions(map);
    lemma_reading(map, all);
    let now = paired(map, all);
    assert forall|p: usize| now.contains_key(p) implies partnered(now, p) by {
        assert(all.contains(p));
    }
}

/// Pairing changes neither side nor family: where every bracket of `map`
/// finds its partner, each bracket of the paired table is of the side and
/// the family that it was of.
pub proof fn lemma_pairing_keeps_brackets(map: Map<usize, Bracket>)
    requires
        verdict(map) is Ok,
    ensures
        forall|p: usize|
            map.contains_key(p) ==> (#[trigger] paired(map, positions(map))[p]).btype()
                == map[p].btype() && paired(map, positions(map))[p].kind() == map[p].kind(),
{
    lemma_positions_listed(map);
    lemma_reading(map, positions(map));
}

/// Whether the bracket at `x` stands between the bracket at `p` and its
/// partner in `map`.
pub open spec fn encloses(map: Map<usize, Bracket>, p: usize, x: usize) -> bool {
    let c = map[p].counterpart()->0;
    p < x < c || c < x < p
}

/// Whether no two pairs of `map` cross: a pair that has one bracket of
/// another pair between its brackets has the other one there as well.
pub open spec fn nested(map: Map<usize, Bracket>) -> bool {
    forall|p: usize, q: usize|
        map.contains_key(p) && map.contains_key(q) && q != p && map[p].counterpart() != Some(q)
            ==> #[trigger] encloses(map, p, q) == encloses(map, p, map[q].counterpart()->0)
}

/// What holds of the pairs after the brackets at `read` were read without a
/// stray one: no pair has an open bracket between its brackets, and no two
/// pairs cross.
pub open spec fn nesting(read: Seq<usize>, open: Seq<usize>, now: Map<usize, Bracket>) -> bool {
    &&& forall|p: usize, k: int|
        read.contains(p) && !open.contains(p) && 0 <= k < open.len() ==> !#[trigger] encloses(
            now,
            p,
            open[k],
        )
    &&& forall|p: usize, q: usize|
        read.contains(p) && !open.contains(p) && read.contains(q) && !open.contains(q) && q != p
            && now[p].counterpart() != Some(q) ==> #[trigger] encloses(now, p, q) == encloses(
            now,
            p,
            now[q].counterpart()->0,
        )
}

/// Reading brackets that stand in `map`, in rising order, keeps [`nesting`].
pub proof fn lemma_nesting(map: Map<usize, Bracket>, read: Seq<usize>)
    requires
        rising(read),
        forall|p: usize| read.contains(p) ==> map.contains_key(p),
    ensures
        scan(map, read) matches Scan::Open(open) ==> nesting(read, open, paired(map, read)),
    decreases read.len(),
{
    broadcast use Bracket::lemma_linked;

    if read.len() > 0 {
        let here = read.last();
        let before = read.drop_last();
        assert(read.contains(here));
        assert forall|p: usize| before.contains(p) implies read.contains(p) && p < here by {
            let i = choose|i: int| 0 <= i < before.len() && before[i] == p;
            assert(read[i] == p);
        }
        assert forall|p: usize| read.contains(p) implies before.contains(p) || p == here by {
            let i = choose|i: int| 0 <= i < read.len() && read[i] == p;
            if i < before.len() {
                assert(before[i] == p);
            }
        }
        lemma_nesting(map, before);
        lemma_reading(map, before);
        lemma_reading(map, read);
        let was = paired(map, before);
        let now = paired(map, read);
        match scan(map, before) {
            Scan::Stray(_) => {},
            Scan::Open(open) => {
                assert(reading(map, before, open, was));
                assert(nesting(before, open, was));
                assert forall|q: usize| open.contains(q) implies before.contains(q) by {
                    let k = choose|k: int| 0 <= k < open.len() && open[k] == q;
                    assert(before.contains(open[k]));
                }
                if map[here].btype() == BType::Left {
                    let wider = open.push(here);
                    assert(now == was);
                    assert forall|q: usize| open.contains(q) implies wider.contains(q) by {
                        let k = choose|k: int| 0 <= k < open.len() && open[k] == q;
                        assert(wider[k] == q);
                    }
                    assert(wider[open.len() as int] == here);
                    assert forall|p: usize, k: int|
                        read.contains(p) && !wider.contains(p) && 0 <= k
                            < wider.len() implies !#[trigger] encloses(now, p, wider[k]) by {
                        assert(closed_in(before, open, was, p));
                        if k < open.len() {
                            assert(!encloses(was, p, open[k]));
                        }
                    }
                    assert forall|p: usize, q: usize|
                        read.contains(p) && !wider.contains(p) && read.contains(q)
                            && !wider.contains(q) && q != p && now[p].counterpart() != Some(
                            q,
                        ) implies #[trigger] encloses(now, p, q) == encloses(
                        now,
                        p,
                        now[q].counterpart()->0,
                    ) by {
                        assert(encloses(was, p, q) == encloses(was, p, was[q].counterpart()->0));
                    }
                    assert(nesting(read, wider, now));
                } else if open.len() > 0 && map[open.last()].kind() == map[here].kind() {
                    let there = open.last();
                    let fewer = open.drop_last();
                    assert(open[open.len() - 1] == there);
                    assert(open.contains(there));
                    let half = was.insert(there, was[there].linked(here));
                    assert(now == half.insert(here, half[here].linked(there)));
                    assert(there != here);
                    assert forall|q: usize| fewer.contains(q) implies open.contains(q) && q
                        < there by {
                        let k = choose|k: int| 0 <= k < fewer.len() && fewer[k] == q;
                        assert(open[k] == q);
                    }
                    assert forall|q: usize| open.contains(q) && q != there implies fewer.contains(
                        q,
                    ) by {
                        let k = choose|k: int| 0 <= k < open.len() && open[k] == q;
                        assert(fewer[k] == q);
                    }
                    assert forall|p: usize|
                        before.contains(p) && !open.contains(p) implies now[p] == was[p] && now[(
                        was[p].counterpart()->0)] == was[(was[p].counterpart()->0)]
                        && before.contains(was[p].counterpart()->0) && !open.contains(
                        was[p].counterpart()->0,
                    ) by {
                        assert(closed_in(before, open, was, p));
                    }
                    assert forall|p: usize, k: int|
                        read.contains(p) && !fewer.contains(p) && 0 <= k
                            < fewer.len() implies !#[trigger] encloses(now, p, fewer[k]) by {
                        assert(fewer[k] == open[k]);
                        assert(fewer.contains(fewer[k]));
                        if p != here && p != there {
                            assert(!encloses(was, p, open[k]));
                        }
                    }
                    assert forall|p: usize, q: usize|
                        read.contains(p) && !fewer.contains(p) && read.contains(q)
                            && !fewer.contains(q) && q != p && now[p].counterpart() != Some(
                            q,
                        ) implies #[trigger] encloses(now, p, q) == encloses(
                        now,
                        p,
                        now[q].counterpart()->0,
                    ) by {
                        let fresh_p = p == here || p == there;
                        let fresh_q = q == here || q == there;
                        if !fresh_p && !fresh_q {
                            assert(encloses(was, p, q) == encloses(
                                was,
                                p,
                                was[q].counterpart()->0,
                            ));
                        } else if !fresh_p {
                            assert(!encloses(was, p, open[open.len() - 1]));
                        } else if !fresh_q {
                            assert(!encloses(was, q, open[open.len() - 1]));
                            assert(!encloses(
                                was,
                                was[q].counterpart()->0,
                                open[open.len() - 1],
                            ));
                        }
                    }
                    assert(nesting(read, fewer, now));
                } else {
                }
            },
        }
    }
}

/// Pairs do not cross: where every bracket of `map` finds its partner, a
/// pair of the paired table that has one bracket of another pair between
/// its brackets has the other one there as well.
pub proof fn lemma_pairing_is_nested(map: Map<usize, Bracket>)
    requires
        verdict(map) is Ok,
    ensures
        nested(paired(map, positions(map))),
{
    lemma_positions_listed(map);
    let all = positions(map);
    lemma_reading(map, all);
    lemma_nesting(map, all);
    let now = paired(map, all);
    assert forall|p: usize, q: usize|
        now.contains_key(p) && now.contains_key(q) && q != p && now[p].counterpart() != Some(
            q,
        ) implies #[trigger] encloses(now, p, q) == encloses(now, p, now[q].counterpart()->0) by {
        assert(all.contains(p));
        assert(all.contains(q));
    }
}

/// A stray bracket is one of the brackets that were read, and it closes.
pub proof fn lemma_stray_closes(map: Map<usize, Bracket>, read: Seq<usize>)
    ensures
        scan(map, read) matches Scan::Stray(at) ==> read.contains(at) && map[at].btype()
            != BType::Left,
    decreases read.len(),
{
    if read.len() > 0 {
        let before = read.drop_last();
        lemma_stray_closes(map, before);
        assert(read[read.len() - 1] == read.last());
        if let Scan::Stray(at) = scan(map, before) {
            let i = choose|i: int| 0 <= i < before.len() && before[i] == at;
            assert(read[i] == at);
        }
    }
}

/// The stray bracket that reading ends at is the first one: the brackets
/// before it are read without a stray one, and it is stray when it is read.
pub proof fn lemma_stray_is_first(map: Map<usize, Bracket>, read: Seq<usize>)
    ensures
        scan(map, read) matches Scan::Stray(at) ==> exists|k: int|
            0 <= k < read.len() && read[k] == at && #[trigger] scan(map, read.take(k)) is Open
                && scan(map, read.take(k + 1)) == Scan::Stray(at),
    decreases read.len(),
{
    if read.len() > 0 {
        let before = read.drop_last();
        let last = read.len() - 1;
        lemma_stray_is_first(map, before);
        match scan(map, before) {
            Scan::Stray(at) => {
                let k = choose|k: int|
                    0 <= k < before.len() && before[k] == at && #[trigger] scan(
                        map,
                        before.take(k),
                    ) is Open && scan(map, before.take(k + 1)) == Scan::Stray(at);
                assert(before.take(k) =~= read.take(k));
                assert(before.take(k + 1) =~= read.take(k + 1));
            },
            Scan::Open(_) => {
                assert(read.take(last) =~= before);
                assert(read.take(last + 1) =~= read);
            },
        }
    }
}

/// A fault names a bracket of the table: `UnmatchedRightBracket` one that
/// closes, `UnmatchedLeftBracket` one that opens. No other kind of fault is
/// reported.
pub proof fn lemma_fault_names_bracket(map: Map<usize, Bracket>)
    ensures
        verdict(map) matches Err((kind, at)) ==> map.contains_key(at) && (kind
            == BfErrorKind::UnmatchedRightBracket && map[at].btype() == BType::Right || kind
            == BfErrorKind::UnmatchedLeftBracket && map[at].btype() == BType::Left),
{
    lemma_positions_listed(map);
    let all = positions(map);
    lemma_stray_closes(map, all);
    lemma_reading(map, all);
    if let Scan::Open(open) = scan(map, all) {
        if open.len() > 0 {
            assert(all.contains(open[0]));
        }
    }
}

/// The positions at which `entries` stand.
pub open spec fn places(entries: Seq<(usize, Bracket)>) -> Seq<usize> {
    Seq::new(entries.len(), |i: int| entries[i].0)
}

/// A table of brackets by their position in a program.
#[derive(Debug)]
pub struct BracketMap {
    map: BMap,
}

impl Clone for BracketMap {
    fn clone(&self) -> (copy: Self)
        ensures
            copy@ == self@,
    {
        Self { map: self.map.clone() }
    }
}

impl View for BracketMap {
    type V = Map<usize, Bracket>;

    /// The bracket at each position that holds one.
    closed spec fn view(&self) -> Map<usize, Bracket> {
        self.map@
    }
}

impl BracketMap {
    /// A table without brackets.
    pub fn new() -> (table: Self)
        ensures
            table@ == Map::<usize, Bracket>::empty(),
    {
        let map: BMap = HashMap::new();
        Self { map }
    }

    /// Puts `bracket` at `location`, unless a bracket stands there already:
    /// then the table stays as it is and the answer is `false`.
    pub fn insert(&mut self, bracket: Bracket, location: usize) -> (fresh: bool)
        ensures
            fresh == !old(self)@.contains_key(location),
            final(self)@ == if fresh {
                old(self)@.insert(location, bracket)
            } else {
                old(self)@
            },
    {
        if self.map.contains_key(&location) {
            return false;
        }
        self.map.insert(location, bracket);
        true
    }

    /// The brackets with their positions, in rising order of position.
    fn get_sorted_brackets(&self) -> (brackets: Vec<(usize, Bracket)>)
        ensures
            lists(places(brackets@), self@),
            forall|i: int|
                0 <= i < brackets.len() ==> self@.contains_key(brackets[i].0) && brackets[i].1
                    == self@[brackets[i].0],
    {
        let mut locations: Vec<usize> = Vec::new();
        let ghost keys = self.map.keys().remaining();
        for location in walk: self.map.keys()
            invariant
                walk.seq() == keys,
                locations@ == keys.take(walk.index()).unref(),
        {
            locations.push(*location);
            assert(keys.take(walk.index() + 1).unref() =~= keys.take(walk.index()).unref().push(
                *location,
            ));
        }
        assert(locations@ =~= keys.unref());
        assert(locations@.no_duplicates()) by {
            assert forall|i: int, j: int|
                0 <= i < locations@.len() && 0 <= j < locations@.len() && i != j implies locations@[i]
                != locations@[j] by {
                assert(keys[i] != keys[j]);
            }
        }
        let ghost unsorted = locations@;
        sort_positions(&mut locations);
        proof {
            unsorted.lemma_multiset_has_no_duplicates();
            locations@.lemma_multiset_has_no_duplicates_conv();
            unsorted.to_multiset_ensures();
            locations@.to_multiset_ensures();
            assert(unsorted.to_set() == self@.dom());
            assert forall|p: usize| locations@.contains(p) <==> self@.contains_key(p) by {
                assert(locations@.contains(p) <==> locations@.to_multiset().count(p) > 0);
                assert(unsorted.contains(p) <==> unsorted.to_multiset().count(p) > 0);
                assert(unsorted.contains(p) <==> unsorted.to_set().contains(p));
            }
        }
        let mut brackets: Vec<(usize, Bracket)> = Vec::new();
        let mut i: usize = 0;
        while i < locations.len()
            invariant
                i <= locations.len(),
                brackets.len() == i,
                forall|p: usize| locations@.contains(p) ==> self@.contains_key(p),
                self@ == self.map@,
                forall|k: int|
                    0 <= k < i ==> (#[trigger] brackets[k]).0 == locations[k] && self@.contains_key(
                        locations[k],
                    ) && brackets[k].1 == self@[locations[k]],
            decreases locations.len() - i,
        {
            let location = locations[i];
            assert(locations@.contains(location));
            match self.map.get(&location) {
                Some(bracket) => brackets.push((location, *bracket)),
                None => {},
            }
            i += 1;
        }
        assert(places(brackets@) =~= locations@);
        brackets
    }

    /// Checks that every bracket has a partner, without changing the table.
    ///
    /// The brackets are read in rising order of position. A bracket that
    /// closes must meet an open bracket of its own family, the innermost one;
    /// the first that does not is reported as `UnmatchedRightBracket` with
    /// its position. If brackets are left open at the end, the outermost of
    /// them is reported as `UnmatchedLeftBracket` with its position.
    pub fn is_balanced(&self) -> (outcome: BMapResult<()>)
        ensures
            outcome == verdict(self@),
    {
        let brackets = self.get_sorted_brackets();
        let ghost all = places(brackets@);
        let mut stack: Vec<(usize, Bracket)> = Vec::new();
        let mut i: usize = 0;
        assert(places(stack@) =~= Seq::<usize>::empty());
        while i < brackets.len()
            invariant
                i <= brackets.len(),
                all == places(brackets@),
                lists(all, self@),
                forall|k: int|
                    0 <= k < brackets.len() ==> self@.contains_key(brackets[k].0) && brackets[k].1
                        == self@[brackets[k].0],
                forall|k: int|
                    0 <= k < stack.len() ==> self@.contains_key(stack[k].0) && stack[k].1
                        == self@[stack[k].0],
                scan(self@, all.take(i as int)) == Scan::Open(places(stack@)),
            decreases brackets.len() - i,
        {
            let (location, bracket) = brackets[i];
            let ghost open = places(stack@);
            proof {
                assert(all.take(i + 1).drop_last() =~= all.take(i as int));
                assert(all.take(i + 1).last() == location);
            }
            if bracket.btype().is_left() {
                stack.push((location, bracket));
                assert(places(stack@) =~= open.push(location));
            } else {
                if stack.len() == 0 {
                    proof {
                        lemma_stray_stays(self@, all, i + 1);
                        lemma_positions(self@, all);
                    }
                    return Err((BfErrorKind::UnmatchedRightBracket, location));
                }
                let top = stack[stack.len() - 1];
                assert(top.0 == open.last());
                if top.1.kind() == bracket.kind() {
                    stack.pop();
                    assert(places(stack@) =~= open.drop_last());
                } else {
                    proof {
                        lemma_stray_stays(self@, all, i + 1);
                        lemma_positions(self@, all);
                    }
                    return Err((BfErrorKind::UnmatchedRightBracket, location));
                }
            }
            i += 1;
        }
        proof {
            assert(all.take(i as int) =~= all);
            lemma_positions(self@, all);
        }
        if stack.is_empty() {
            Ok(())
        } else {
            Err((BfErrorKind::UnmatchedLeftBracket, stack[0].0))
        }
    }

    /// Gives every bracket the position of its partner.
    ///
    /// The brackets are read as [`BracketMap::is_balanced`] reads them, and
    /// the same faults are reported. The pairs are first written to a copy of
    /// the table, which takes the place of the table only if no fault was
    /// found: after a fault the table is as it was.
    pub fn pair_up(&mut self) -> (outcome: BMapResult<()>)
        ensures
            outcome == verdict(old(self)@),
            final(self)@ == if outcome is Ok {
                paired(old(self)@, positions(old(self)@))
            } else {
                old(self)@
            },
            final(self)@.dom() == old(self)@.dom(),
            outcome is Ok ==> matched(final(self)@) && nested(final(self)@),
    {
        let brackets = self.get_sorted_brackets();
        let ghost all = places(brackets@);
        let mut map = self.map.clone();
        let mut stack: Vec<(usize, Bracket)> = Vec::new();
        let mut i: usize = 0;
        assert(places(stack@) =~= Seq::<usize>::empty());
        proof {
            lemma_positions(self@, all);
        }
        while i < brackets.len()
            invariant
                i <= brackets.len(),
                *self == *old(self),
                self@ == self.map@,
                all == places(brackets@),
                all == positions(self@),
                lists(all, self@),
                forall|k: int|
                    0 <= k < brackets.len() ==> self@.contains_key(brackets[k].0) && brackets[k].1
                        == self@[brackets[k].0],
                forall|k: int|
                    0 <= k < stack.len() ==> self@.contains_key(stack[k].0) && stack[k].1
                        == self@[stack[k].0],
                scan(self@, all.take(i as int)) == Scan::Open(places(stack@)),
                map@ == paired(self@, all.take(i as int)),
                map@.dom() == self@.dom(),
            decreases brackets.len() - i,
        {
            let (location, bracket) = brackets[i];
            let ghost open = places(stack@);
            proof {
                assert(all.take(i + 1).drop_last() =~= all.take(i as int));
                assert(all.take(i + 1).last() == location);
            }
            if bracket.btype().is_left() {
                stack.push((location, bracket));
                assert(places(stack@) =~= open.push(location));
            } else {
                if stack.len() == 0 {
                    proof {
                        lemma_stray_stays(self@, all, i + 1);
                    }
                    return Err((BfErrorKind::UnmatchedRightBracket, location));
                }
                let top = stack[stack.len() - 1];
                assert(top.0 == open.last());
                if top.1.kind() == bracket.kind() {
                    stack.pop();
                    assert(places(stack@) =~= open.drop_last());
                    let mut left = match map.get(&top.0) {
                        Some(left) => *left,
                        None => return Err((BfErrorKind::UnmatchedLeftBracket, top.0)),
                    };
                    left.set_counterpart(location);
                    map.insert(top.0, left);
                    let mut right = match map.get(&location) {
                        Some(right) => *right,
                        None => return Err((BfErrorKind::UnmatchedRightBracket, location)),
                    };
                    right.set_counterpart(top.0);
                    map.insert(location, right);
                    assert(map@.dom() =~= self@.dom());
                } else {
                    proof {
                        lemma_stray_stays(self@, all, i + 1);
                    }
                    return Err((BfErrorKind::UnmatchedRightBracket, location));
                }
            }
            i += 1;
        }
        proof {
            assert(all.take(i as int) =~= all);
        }
        if !stack.is_empty() {
            return Err((BfErrorKind::UnmatchedLeftBracket, stack[0].0));
        }
        proof {
            lemma_pairing_is_mutual(self@);
            lemma_pairing_is_nested(self@);
        }
        self.map = map;
        Ok(())
    }

    /// The table itself, to be read.
    pub fn as_ref(&self) -> (map: &BMap)
        ensures
            map@ == self@,
    {
        &self.map
    }

    /// The table itself, to be changed.
    pub fn as_mut(&mut self) -> (map: &mut BMap)
        ensures
            map@ == old(self)@,
            final(self)@ == final(map)@,
    {
        &mut self.map
    }

    /// The position of the partner of the bracket at `index`, if a bracket
    /// stands there and has one.
    pub fn get_counterpart(&self, index: usize) -> (counterpart: Option<usize>)
        ensures
            counterpart == if self@.contains_key(index) {
                self@[index].counterpart()
            } else {
                None
            },
    {
        match self.map.get(&index) {
            Some(bracket) => bracket.counterpart(),
            None => None,
        }
    }
}

} // verus!
