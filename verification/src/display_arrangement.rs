//! Preserve each OS's monitor adjacency; caller-provided links join computers only.
//! A hidden display (one marked not in use) keeps no adjacency: nothing routes the pointer onto it.

use crate::protocol::{Coordinate, DeviceId, DisplayId};
use vstd::prelude::*;

verus! {

#[derive(Clone, Copy, Debug, PartialEq, Eq, Structural)]
pub enum Edge {
    Left,
    Right,
    Top,
    Bottom,
}

/// A display's rectangle for adjacency, with the computer it belongs to.
#[derive(Clone, Copy, Debug)]
pub struct Placed {
    pub id: DisplayId,
    pub machine: DeviceId,
    pub left: Coordinate,
    pub top: Coordinate,
    pub right: Coordinate,
    pub bottom: Coordinate,
}

impl Placed {
    /// Every display is at least one place wide and high.
    pub open spec fn has_area(self) -> bool {
        self.left < self.right && self.top < self.bottom
    }
}

/// The part of an edge that two displays share, where `start` is below `end`.
#[derive(Clone, Copy, Debug, PartialEq, Eq, Structural)]
pub struct Overlap {
    pub start: Coordinate,
    pub end: Coordinate,
}

/// How a link passes from one edge to another.
#[derive(Clone, Copy, Debug, PartialEq, Eq, Structural)]
pub enum Passage {
    /// From one share of an edge to one of the other, as its user laid it.
    Laid { from: Overlap, to: Overlap, speed: Coordinate },
    /// Through the range that both edges share, at the pointer's own speed.
    Shared(Overlap),
}

/// A way from an edge of one display to an edge of another.
#[derive(Clone, Copy, Debug, PartialEq, Eq, Structural)]
pub struct EdgeLink {
    pub from_display: DisplayId,
    pub from_edge: Edge,
    pub to_display: DisplayId,
    pub to_edge: Edge,
    pub passage: Passage,
}

pub open spec fn higher(a: Coordinate, b: Coordinate) -> Coordinate {
    if a < b {
        b
    } else {
        a
    }
}

pub open spec fn lower(a: Coordinate, b: Coordinate) -> Coordinate {
    if a < b {
        a
    } else {
        b
    }
}

fn larger(a: Coordinate, b: Coordinate) -> (value: Coordinate)
    ensures
        value == higher(a, b),
{
    if a < b {
        b
    } else {
        a
    }
}

fn smaller(a: Coordinate, b: Coordinate) -> (value: Coordinate)
    ensures
        value == lower(a, b),
{
    if a < b {
        a
    } else {
        b
    }
}

/// The range that two displays share from left to right.
pub open spec fn horizontal(a: Placed, b: Placed) -> Overlap {
    Overlap { start: higher(a.left, b.left), end: lower(a.right, b.right) }
}

/// The range that two displays share from top to bottom.
pub open spec fn vertical(a: Placed, b: Placed) -> Overlap {
    Overlap { start: higher(a.top, b.top), end: lower(a.bottom, b.bottom) }
}

pub open spec fn is_range(range: Overlap) -> bool {
    range.start < range.end
}

/// Two displays cover a common area.
pub open spec fn overlaps(a: Placed, b: Placed) -> bool {
    is_range(horizontal(a, b)) && is_range(vertical(a, b))
}

/// Two displays of one computer, both in use.
pub open spec fn related(a: Placed, b: Placed, hidden: Seq<DisplayId>) -> bool {
    &&& a.machine.0@ == b.machine.0@
    &&& !hidden.contains(a.id)
    &&& !hidden.contains(b.id)
}

/// The way from `a` to `b` and the way back.
pub open spec fn both_ways(
    a: Placed,
    b: Placed,
    from_edge: Edge,
    to_edge: Edge,
    overlap: Overlap,
) -> Seq<EdgeLink> {
    let passage = Passage::Shared(overlap);
    seq![
        EdgeLink { from_display: a.id, from_edge, to_display: b.id, to_edge, passage },
        EdgeLink {
            from_display: b.id,
            from_edge: to_edge,
            to_display: a.id,
            to_edge: from_edge,
            passage,
        },
    ]
}

/// The ways between two displays whose edges meet.
pub open spec fn ways(a: Placed, b: Placed) -> Seq<EdgeLink> {
    let sideways = if !is_range(vertical(a, b)) {
        Seq::empty()
    } else if a.right == b.left {
        both_ways(a, b, Edge::Right, Edge::Left, vertical(a, b))
    } else if b.right == a.left {
        both_ways(a, b, Edge::Left, Edge::Right, vertical(a, b))
    } else {
        Seq::empty()
    };
    let upright = if !is_range(horizontal(a, b)) {
        Seq::empty()
    } else if a.bottom == b.top {
        both_ways(a, b, Edge::Bottom, Edge::Top, horizontal(a, b))
    } else if b.bottom == a.top {
        both_ways(a, b, Edge::Top, Edge::Bottom, horizontal(a, b))
    } else {
        Seq::empty()
    };
    sideways + upright
}

/// The ways from the display at `index` to those after it and before `end`.
pub open spec fn ways_of(
    displays: Seq<Placed>,
    hidden: Seq<DisplayId>,
    index: int,
    end: int,
) -> Seq<EdgeLink>
    decreases end,
{
    if end <= index + 1 || end <= 0 {
        Seq::empty()
    } else {
        let earlier = ways_of(displays, hidden, index, end - 1);
        if related(displays[index], displays[end - 1], hidden) {
            earlier + ways(displays[index], displays[end - 1])
        } else {
            earlier
        }
    }
}

/// The ways of the displays before `count` to all those after them.
pub open spec fn all_ways(displays: Seq<Placed>, hidden: Seq<DisplayId>, count: int) -> Seq<
    EdgeLink,
>
    decreases count,
{
    if count <= 0 {
        Seq::empty()
    } else {
        all_ways(displays, hidden, count - 1) + ways_of(
            displays,
            hidden,
            count - 1,
            displays.len() as int,
        )
    }
}

/// The place of the first display with an id.
pub open spec fn first_place(displays: Seq<Placed>, id: DisplayId) -> Option<int>
    decreases displays.len(),
{
    if displays.len() == 0 {
        None
    } else {
        match first_place(displays.drop_last(), id) {
            Some(place) => Some(place),
            None => if displays.last().id == id {
                Some(displays.len() - 1)
            } else {
                None
            },
        }
    }
}

/// A seam joins displays of two computers.
pub open spec fn joins_computers(displays: Seq<Placed>, seam: EdgeLink) -> bool {
    match (first_place(displays, seam.from_display), first_place(displays, seam.to_display)) {
        (Some(from), Some(to)) => displays[from].machine.0@ != displays[to].machine.0@,
        _ => false,
    }
}

/// The seams join computers, and no two displays of one computer that are in use overlap.
pub open spec fn arranged(
    displays: Seq<Placed>,
    seams: Seq<EdgeLink>,
    hidden: Seq<DisplayId>,
) -> bool {
    &&& forall|i: int| 0 <= i < seams.len() ==> joins_computers(displays, #[trigger] seams[i])
    &&& forall|i: int, j: int|
        #![trigger displays[i], displays[j]]
        0 <= i < j < displays.len() && related(displays[i], displays[j], hidden) ==> !overlaps(
            displays[i],
            displays[j],
        )
}

fn find_placed(displays: &[Placed], id: DisplayId) -> (place: Option<usize>)
    ensures
        match place {
            Some(index) => first_place(displays@, id) == Some(index as int) && index
                < displays@.len(),
            None => first_place(displays@, id) is None,
        },
{
    let mut index: usize = 0;
    assert(displays@.take(0) =~= Seq::empty());
    while index < displays.len()
        invariant
            index <= displays@.len(),
            first_place(displays@.take(index as int), id) is None,
        decreases displays@.len() - index,
    {
        assert(displays@.take(index + 1).drop_last() =~= displays@.take(index as int));
        if displays[index].id == id {
            proof {
                lemma_first_place_stays(displays@, id, index + 1);
            }
            return Some(index);
        }
        index = index + 1;
    }
    assert(displays@.take(index as int) =~= displays@);
    None
}

proof fn lemma_first_place_stays(displays: Seq<Placed>, id: DisplayId, count: int)
    requires
        0 <= count <= displays.len(),
        first_place(displays.take(count), id) is Some,
    ensures
        first_place(displays, id) == first_place(displays.take(count), id),
    decreases displays.len(),
{
    if count < displays.len() {
        assert(displays.drop_last().take(count) =~= displays.take(count));
        lemma_first_place_stays(displays.drop_last(), id, count);
    } else {
        assert(displays.take(count) =~= displays);
    }
}

pub fn is_hidden(hidden: &[DisplayId], id: DisplayId) -> (found: bool)
    ensures
        found == hidden@.contains(id),
{
    let mut index: usize = 0;
    while index < hidden.len()
        invariant
            index <= hidden@.len(),
            forall|i: int| 0 <= i < index ==> hidden@[i] != id,
        decreases hidden@.len() - index,
    {
        if hidden[index] == id {
            return true;
        }
        index = index + 1;
    }
    false
}

/// The seams, and after them the ways between neighbouring displays of each computer, where the
/// seams join computers and no display covers another of its computer. `shares_are_valid` says
/// whether every such way takes a share of either edge that the protocol admits.
pub fn inherit_display_edges(
    displays: &[Placed],
    seams: Vec<EdgeLink>,
    hidden: &[DisplayId],
    shares_are_valid: bool,
) -> (links: Result<Vec<EdgeLink>, ()>)
    ensures
        match links {
            Ok(found) => shares_are_valid && arranged(displays@, seams@, hidden@) && found@
                == seams@ + all_ways(displays@, hidden@, displays@.len() as int),
            Err(()) => !shares_are_valid || !arranged(displays@, seams@, hidden@),
        },
{
    if !shares_are_valid {
        return Err(());
    }
    let mut index: usize = 0;
    while index < seams.len()
        invariant
            index <= seams@.len(),
            forall|i: int| 0 <= i < index ==> joins_computers(displays@, #[trigger] seams@[i]),
        decreases seams@.len() - index,
    {
        match (
            find_placed(displays, seams[index].from_display),
            find_placed(displays, seams[index].to_display),
        ) {
            (Some(from), Some(to)) => {
                if displays[from].machine.same(&displays[to].machine) {
                    assert(!joins_computers(displays@, seams@[index as int]));
                    return Err(());
                }
            },
            _ => {
                assert(!joins_computers(displays@, seams@[index as int]));
                return Err(());
            },
        }
        index = index + 1;
    }
    let ghost laid = seams@;
    let mut links = seams;
    let mut first: usize = 0;
    assert(laid + all_ways(displays@, hidden@, 0) =~= laid);
    while first < displays.len()
        invariant
            first <= displays@.len(),
            laid == seams@,
            forall|i: int| 0 <= i < laid.len() ==> joins_computers(displays@, #[trigger] laid[i]),
            links@ == laid + all_ways(displays@, hidden@, first as int),
            forall|i: int, j: int|
                #![trigger displays@[i], displays@[j]]
                0 <= i < j < displays@.len() && i < first && related(
                    displays@[i],
                    displays@[j],
                    hidden@,
                ) ==> !overlaps(displays@[i], displays@[j]),
        decreases displays@.len() - first,
    {
        let mut second: usize = first + 1;
        let ghost earlier = links@;
        assert(earlier + ways_of(displays@, hidden@, first as int, second as int) =~= earlier);
        while second < displays.len()
            invariant
                first < second <= displays@.len(),
                links@ == earlier + ways_of(displays@, hidden@, first as int, second as int),
                forall|j: int|
                    first < j < second && related(
                        displays@[first as int],
                        #[trigger] displays@[j],
                        hidden@,
                    ) ==> !overlaps(displays@[first as int], displays@[j]),
            decreases displays@.len() - second,
        {
            let a = displays[first];
            let b = displays[second];
            let ghost before = links@;
            if a.machine.same(&b.machine) && !is_hidden(hidden, a.id) && !is_hidden(hidden, b.id) {
                let across = Overlap {
                    start: larger(a.left, b.left),
                    end: smaller(a.right, b.right),
                };
                let down = Overlap {
                    start: larger(a.top, b.top),
                    end: smaller(a.bottom, b.bottom),
                };
                if across.start < across.end && down.start < down.end {
                    assert(overlaps(displays@[first as int], displays@[second as int]));
                    return Err(());
                }
                if down.start < down.end {
                    if a.right == b.left {
                        add_pair(&mut links, &a, &b, Edge::Right, Edge::Left, down);
                    } else if b.right == a.left {
                        add_pair(&mut links, &a, &b, Edge::Left, Edge::Right, down);
                    }
                }
                if across.start < across.end {
                    if a.bottom == b.top {
                        add_pair(&mut links, &a, &b, Edge::Bottom, Edge::Top, across);
                    } else if b.bottom == a.top {
                        add_pair(&mut links, &a, &b, Edge::Top, Edge::Bottom, across);
                    }
                }
                assert(links@ =~= before + ways(a, b));
                assert(links@ =~= earlier + (ways_of(
                    displays@,
                    hidden@,
                    first as int,
                    second as int,
                ) + ways(a, b)));
            }
            second = second + 1;
        }
        assert(links@ =~= laid + all_ways(displays@, hidden@, first + 1));
        first = first + 1;
    }
    Ok(links)
}

/// Appends the way from `a` to `b` and the way back.
fn add_pair(
    links: &mut Vec<EdgeLink>,
    a: &Placed,
    b: &Placed,
    from_edge: Edge,
    to_edge: Edge,
    overlap: Overlap,
)
    ensures
        final(links)@ == old(links)@ + both_ways(*a, *b, from_edge, to_edge, overlap),
{
    let passage = Passage::Shared(overlap);
    links.push(
        EdgeLink { from_display: a.id, from_edge, to_display: b.id, to_edge, passage },
    );
    links.push(
        EdgeLink {
            from_display: b.id,
            from_edge: to_edge,
            to_display: a.id,
            to_edge: from_edge,
            passage,
        },
    );
    assert(links@ =~= old(links)@ + both_ways(*a, *b, from_edge, to_edge, overlap));
}

/// No inherited way leads onto a hidden display or off one.
pub proof fn law_hidden_displays_have_no_ways(
    displays: Seq<Placed>,
    hidden: Seq<DisplayId>,
    count: int,
    way: EdgeLink,
)
    requires
        0 <= count <= displays.len(),
        all_ways(displays, hidden, count).contains(way),
    ensures
        !hidden.contains(way.from_display),
        !hidden.contains(way.to_display),
    decreases count,
{
    if count > 0 {
        let earlier = all_ways(displays, hidden, count - 1);
        let own = ways_of(displays, hidden, count - 1, displays.len() as int);
        let place = choose|i: int|
            0 <= i < (earlier + own).len() && (earlier + own)[i] == way;
        if place < earlier.len() {
            assert(earlier[place] == way);
            law_hidden_displays_have_no_ways(displays, hidden, count - 1, way);
        } else {
            assert(own[place - earlier.len()] == way);
            lemma_own_ways_are_shown(displays, hidden, count - 1, displays.len() as int, way);
        }
    }
}

proof fn lemma_own_ways_are_shown(
    displays: Seq<Placed>,
    hidden: Seq<DisplayId>,
    index: int,
    end: int,
    way: EdgeLink,
)
    requires
        0 <= index < displays.len(),
        end <= displays.len(),
        ways_of(displays, hidden, index, end).contains(way),
    ensures
        !hidden.contains(way.from_display),
        !hidden.contains(way.to_display),
    decreases end,
{
    if end > index + 1 {
        let earlier = ways_of(displays, hidden, index, end - 1);
        let all = ways_of(displays, hidden, index, end);
        let place = choose|i: int| 0 <= i < all.len() && all[i] == way;
        if place < earlier.len() {
            assert(earlier[place] == way);
            lemma_own_ways_are_shown(displays, hidden, index, end - 1, way);
        } else {
            let own = ways(displays[index], displays[end - 1]);
            assert(own[place - earlier.len()] == way);
        }
    }
}

/// Leaving `p` by one edge and entering `q` by the other crosses a line where the two touch, within
/// the range that both cover along it.
pub open spec fn crosses_between(p: Placed, q: Placed, way: EdgeLink) -> bool {
    &&& way.from_display == p.id
    &&& way.to_display == q.id
    &&& way.passage matches Passage::Shared(range) && range.start < range.end && match way.from_edge {
        Edge::Right => way.to_edge == Edge::Left && p.right == q.left && runs_along(
            range,
            p.top,
            p.bottom,
            q.top,
            q.bottom,
        ),
        Edge::Left => way.to_edge == Edge::Right && p.left == q.right && runs_along(
            range,
            p.top,
            p.bottom,
            q.top,
            q.bottom,
        ),
        Edge::Bottom => way.to_edge == Edge::Top && p.bottom == q.top && runs_along(
            range,
            p.left,
            p.right,
            q.left,
            q.right,
        ),
        Edge::Top => way.to_edge == Edge::Bottom && p.top == q.bottom && runs_along(
            range,
            p.left,
            p.right,
            q.left,
            q.right,
        ),
    }
}

/// A place is in the range exactly where both displays cover it.
pub open spec fn runs_along(
    range: Overlap,
    p_start: Coordinate,
    p_end: Coordinate,
    q_start: Coordinate,
    q_end: Coordinate,
) -> bool {
    forall|at: int|
        #![trigger covers(range.start, range.end, at)]
        covers(range.start, range.end, at) == (covers(p_start, p_end, at) && covers(
            q_start,
            q_end,
            at,
        ))
}

pub open spec fn covers(start: Coordinate, end: Coordinate, at: int) -> bool {
    start <= at < end
}

/// The right side of one display is the left side of the other, and some place lies beside both.
pub open spec fn stand_side_by_side(p: Placed, q: Placed) -> bool {
    p.right == q.left && exists|at: int| #[trigger]
        covers(p.top, p.bottom, at) && covers(q.top, q.bottom, at)
}

/// The lower side of one display is the upper side of the other, and some place lies under both.
pub open spec fn stand_on_top(p: Placed, q: Placed) -> bool {
    p.bottom == q.top && exists|at: int| #[trigger]
        covers(p.left, p.right, at) && covers(q.left, q.right, at)
}

/// Every inherited way lies where two displays of one computer touch that are both in use: the edge
/// it leaves by and the edge it enters by are the same line, and it passes along the whole stretch
/// that both displays have of it.
pub proof fn law_ways_lie_where_displays_touch(
    displays: Seq<Placed>,
    hidden: Seq<DisplayId>,
    way: EdgeLink,
) -> (places: (int, int))
    requires
        all_ways(displays, hidden, displays.len() as int).contains(way),
    ensures
        ({
            let (from, to) = places;
            &&& 0 <= from < displays.len()
            &&& 0 <= to < displays.len()
            &&& from != to
            &&& displays[from].machine.0@ == displays[to].machine.0@
            &&& !hidden.contains(displays[from].id)
            &&& !hidden.contains(displays[to].id)
            &&& crosses_between(displays[from], displays[to], way)
        }),
{
    lemma_way_has_its_pair(displays, hidden, displays.len() as int, way)
}

proof fn lemma_way_has_its_pair(
    displays: Seq<Placed>,
    hidden: Seq<DisplayId>,
    count: int,
    way: EdgeLink,
) -> (places: (int, int))
    requires
        0 <= count <= displays.len(),
        all_ways(displays, hidden, count).contains(way),
    ensures
        0 <= places.0 < displays.len(),
        0 <= places.1 < displays.len(),
        places.0 != places.1,
        displays[places.0].machine.0@ == displays[places.1].machine.0@,
        !hidden.contains(displays[places.0].id),
        !hidden.contains(displays[places.1].id),
        crosses_between(displays[places.0], displays[places.1], way),
        places.0 < count || places.1 < count,
    decreases count,
{
    let earlier = all_ways(displays, hidden, count - 1);
    let own = ways_of(displays, hidden, count - 1, displays.len() as int);
    let place = choose|i: int|
        0 <= i < all_ways(displays, hidden, count).len() && all_ways(displays, hidden, count)[i]
            == way;
    if place < earlier.len() {
        assert(earlier[place] == way);
        lemma_way_has_its_pair(displays, hidden, count - 1, way)
    } else {
        assert(own[place - earlier.len()] == way);
        lemma_own_way_has_its_pair(displays, hidden, count - 1, displays.len() as int, way)
    }
}

proof fn lemma_own_way_has_its_pair(
    displays: Seq<Placed>,
    hidden: Seq<DisplayId>,
    index: int,
    end: int,
    way: EdgeLink,
) -> (places: (int, int))
    requires
        0 <= index < displays.len(),
        end <= displays.len(),
        ways_of(displays, hidden, index, end).contains(way),
    ensures
        0 <= places.0 < displays.len(),
        0 <= places.1 < displays.len(),
        places.0 != places.1,
        displays[places.0].machine.0@ == displays[places.1].machine.0@,
        !hidden.contains(displays[places.0].id),
        !hidden.contains(displays[places.1].id),
        crosses_between(displays[places.0], displays[places.1], way),
        places.0 == index && index < places.1 < end || places.1 == index && index < places.0 < end,
    decreases end,
{
    let all = ways_of(displays, hidden, index, end);
    let earlier = ways_of(displays, hidden, index, end - 1);
    let place = choose|i: int| 0 <= i < all.len() && all[i] == way;
    if place < earlier.len() {
        assert(earlier[place] == way);
        lemma_own_way_has_its_pair(displays, hidden, index, end - 1, way)
    } else {
        let (a, b) = (displays[index], displays[end - 1]);
        assert(ways(a, b)[place - earlier.len()] == way);
        if crosses_between(a, b, way) {
            (index, end - 1)
        } else {
            (end - 1, index)
        }
    }
}

/// Displays of one computer that touch and are both in use are linked in both directions: whichever
/// of them comes first, a way leads from either to the other, and from the other back.
pub proof fn law_touching_displays_are_linked_both_ways(
    displays: Seq<Placed>,
    hidden: Seq<DisplayId>,
    p: int,
    q: int,
) -> (links: (EdgeLink, EdgeLink))
    requires
        0 <= p < displays.len(),
        0 <= q < displays.len(),
        p != q,
        displays[p].machine.0@ == displays[q].machine.0@,
        !hidden.contains(displays[p].id),
        !hidden.contains(displays[q].id),
        displays[p].has_area(),
        displays[q].has_area(),
        stand_side_by_side(displays[p], displays[q]) || stand_on_top(displays[p], displays[q]),
    ensures
        ({
            let (there, back) = links;
            let all = all_ways(displays, hidden, displays.len() as int);
            &&& all.contains(there)
            &&& all.contains(back)
            &&& crosses_between(displays[p], displays[q], there)
            &&& crosses_between(displays[q], displays[p], back)
            &&& stand_side_by_side(displays[p], displays[q]) ==> there.from_edge == Edge::Right
                && there.to_edge == Edge::Left && back.from_edge == Edge::Left && back.to_edge
                == Edge::Right
            &&& !stand_side_by_side(displays[p], displays[q]) ==> there.from_edge == Edge::Bottom
                && there.to_edge == Edge::Top && back.from_edge == Edge::Top && back.to_edge
                == Edge::Bottom
        }),
{
    let (first, second) = if p < q {
        (p, q)
    } else {
        (q, p)
    };
    let (a, b) = (displays[first], displays[second]);
    let all = all_ways(displays, hidden, displays.len() as int);
    let pair = ways(a, b);
    if stand_side_by_side(displays[p], displays[q]) {
        let at = choose|at: int| #[trigger]
            covers(displays[p].top, displays[p].bottom, at) && covers(
                displays[q].top,
                displays[q].bottom,
                at,
            );
        assert(is_range(vertical(a, b)));
    } else {
        let at = choose|at: int| #[trigger]
            covers(displays[p].left, displays[p].right, at) && covers(
                displays[q].left,
                displays[q].right,
                at,
            );
        assert(is_range(horizontal(a, b)));
        assert(!is_range(vertical(a, b)));
    }
    assert(pair.len() == 2);
    assert forall|k: int| 0 <= k < 2 implies all.contains(#[trigger] pair[k]) by {
        lemma_pair_is_among_all(displays, hidden, first, second, pair[k]);
    }
    if p < q {
        (pair[0], pair[1])
    } else {
        (pair[1], pair[0])
    }
}

proof fn lemma_pair_is_among_own(
    displays: Seq<Placed>,
    hidden: Seq<DisplayId>,
    index: int,
    other: int,
    end: int,
    way: EdgeLink,
)
    requires
        0 <= index < other < end <= displays.len(),
        related(displays[index], displays[other], hidden),
        ways(displays[index], displays[other]).contains(way),
    ensures
        ways_of(displays, hidden, index, end).contains(way),
    decreases end,
{
    let earlier = ways_of(displays, hidden, index, end - 1);
    let all = ways_of(displays, hidden, index, end);
    if other == end - 1 {
        let own = ways(displays[index], displays[other]);
        let k = choose|k: int| 0 <= k < own.len() && own[k] == way;
        assert(all[earlier.len() + k] == way);
    } else {
        lemma_pair_is_among_own(displays, hidden, index, other, end - 1, way);
        let k = choose|k: int| 0 <= k < earlier.len() && earlier[k] == way;
        assert(all[k] == way);
    }
}

proof fn lemma_own_is_among_all(
    displays: Seq<Placed>,
    hidden: Seq<DisplayId>,
    index: int,
    count: int,
    way: EdgeLink,
)
    requires
        0 <= index < count <= displays.len(),
        ways_of(displays, hidden, index, displays.len() as int).contains(way),
    ensures
        all_ways(displays, hidden, count).contains(way),
    decreases count,
{
    let earlier = all_ways(displays, hidden, count - 1);
    let all = all_ways(displays, hidden, count);
    if index == count - 1 {
        let own = ways_of(displays, hidden, index, displays.len() as int);
        let k = choose|k: int| 0 <= k < own.len() && own[k] == way;
        assert(all[earlier.len() + k] == way);
    } else {
        lemma_own_is_among_all(displays, hidden, index, count - 1, way);
        let k = choose|k: int| 0 <= k < earlier.len() && earlier[k] == way;
        assert(all[k] == way);
    }
}

proof fn lemma_pair_is_among_all(
    displays: Seq<Placed>,
    hidden: Seq<DisplayId>,
    first: int,
    second: int,
    way: EdgeLink,
)
    requires
        0 <= first < second < displays.len(),
        related(displays[first], displays[second], hidden),
        ways(displays[first], displays[second]).contains(way),
    ensures
        all_ways(displays, hidden, displays.len() as int).contains(way),
{
    lemma_pair_is_among_own(displays, hidden, first, second, displays.len() as int, way);
    lemma_own_is_among_all(displays, hidden, first, displays.len() as int, way);
}

/// A link leads from a display that is there to one of another computer.
pub open spec fn leads_to_another_computer(displays: Seq<Placed>, seam: EdgeLink) -> bool {
    exists|i: int, j: int|
        0 <= i < displays.len() && 0 <= j < displays.len() && (#[trigger] displays[i]).id
            == seam.from_display && (#[trigger] displays[j]).id == seam.to_display
            && displays[i].machine.0@ != displays[j].machine.0@
}

/// Some place lies on both displays.
pub open spec fn share_a_place(p: Placed, q: Placed) -> bool {
    exists|x: int, y: int| #[trigger]
        covers(p.left, p.right, x) && #[trigger] covers(p.top, p.bottom, y) && covers(
            q.left,
            q.right,
            x,
        ) && covers(q.top, q.bottom, y)
}

/// A layout is refused exactly where a laid link does not lead to another computer, or where two
/// shown displays of one computer share a place.
pub proof fn law_what_makes_an_arrangement(
    displays: Seq<Placed>,
    seams: Seq<EdgeLink>,
    hidden: Seq<DisplayId>,
)
    requires
        forall|i: int, j: int|
            0 <= i < j < displays.len() ==> (#[trigger] displays[i]).id != (
            #[trigger] displays[j]).id,
    ensures
        arranged(displays, seams, hidden) <==> {
            &&& forall|s: int|
                0 <= s < seams.len() ==> leads_to_another_computer(displays, #[trigger] seams[s])
            &&& forall|i: int, j: int|
                #![trigger displays[i], displays[j]]
                0 <= i < j < displays.len() && displays[i].machine.0@ == displays[j].machine.0@
                    && !hidden.contains(displays[i].id) && !hidden.contains(displays[j].id)
                    ==> !share_a_place(displays[i], displays[j])
        },
{
    assert forall|s: int| 0 <= s < seams.len() implies joins_computers(displays, #[trigger] seams[s])
        == leads_to_another_computer(displays, seams[s]) by {
        lemma_first_place_is_the_place(displays, seams[s].from_display);
        lemma_first_place_is_the_place(displays, seams[s].to_display);
        if joins_computers(displays, seams[s]) {
            let i = first_place(displays, seams[s].from_display)->0;
            let j = first_place(displays, seams[s].to_display)->0;
            assert(displays[i].id == seams[s].from_display);
            assert(displays[j].id == seams[s].to_display);
        }
    }
    assert forall|p: Placed, q: Placed| #[trigger] overlaps(p, q) == share_a_place(p, q) by {
        if overlaps(p, q) {
            assert(covers(p.left, p.right, horizontal(p, q).start as int));
            assert(covers(p.top, p.bottom, vertical(p, q).start as int));
        }
    }
}

proof fn lemma_first_place_is_the_place(displays: Seq<Placed>, id: DisplayId)
    ensures
        match first_place(displays, id) {
            Some(place) => 0 <= place < displays.len() && displays[place].id == id && forall|i: int|
                0 <= i < place ==> (#[trigger] displays[i]).id != id,
            None => forall|i: int| 0 <= i < displays.len() ==> (#[trigger] displays[i]).id != id,
        },
    decreases displays.len(),
{
    if displays.len() > 0 {
        let head = displays.drop_last();
        lemma_first_place_is_the_place(head, id);
        match first_place(head, id) {
            Some(place) => {
                assert(displays[place] == head[place]);
                assert forall|i: int| 0 <= i < place implies (#[trigger] displays[i]).id != id by {
                    assert(displays[i] == head[i]);
                }
            },
            None => {
                assert forall|i: int| 0 <= i < displays.len() - 1 implies (
                #[trigger] displays[i]).id != id by {
                    assert(displays[i] == head[i]);
                }
            },
        }
    }
}

/// No way is given twice.
pub proof fn law_no_way_is_repeated(displays: Seq<Placed>, hidden: Seq<DisplayId>)
    requires
        forall|i: int, j: int|
            0 <= i < j < displays.len() ==> (#[trigger] displays[i]).id != (
            #[trigger] displays[j]).id,
    ensures
        all_ways(displays, hidden, displays.len() as int).no_duplicates(),
{
    lemma_all_ways_differ(displays, hidden, displays.len() as int);
}

proof fn lemma_all_ways_differ(displays: Seq<Placed>, hidden: Seq<DisplayId>, count: int)
    requires
        0 <= count <= displays.len(),
        forall|i: int, j: int|
            0 <= i < j < displays.len() ==> (#[trigger] displays[i]).id != (
            #[trigger] displays[j]).id,
    ensures
        all_ways(displays, hidden, count).no_duplicates(),
    decreases count,
{
    if count > 0 {
        let earlier = all_ways(displays, hidden, count - 1);
        let own = ways_of(displays, hidden, count - 1, displays.len() as int);
        lemma_all_ways_differ(displays, hidden, count - 1);
        lemma_own_ways_differ(displays, hidden, count - 1, displays.len() as int);
        assert forall|i: int, j: int|
            0 <= i < earlier.len() && 0 <= j < own.len() implies earlier[i] != own[j] by {
            assert(earlier.contains(earlier[i]));
            assert(own.contains(own[j]));
            let one = lemma_way_has_its_pair(displays, hidden, count - 1, earlier[i]);
            let other = lemma_own_way_has_its_pair(
                displays,
                hidden,
                count - 1,
                displays.len() as int,
                own[j],
            );
        }
    }
}

proof fn lemma_own_ways_differ(
    displays: Seq<Placed>,
    hidden: Seq<DisplayId>,
    index: int,
    end: int,
)
    requires
        0 <= index < displays.len(),
        end <= displays.len(),
        forall|i: int, j: int|
            0 <= i < j < displays.len() ==> (#[trigger] displays[i]).id != (
            #[trigger] displays[j]).id,
    ensures
        ways_of(displays, hidden, index, end).no_duplicates(),
    decreases end,
{
    if end > index + 1 {
        let earlier = ways_of(displays, hidden, index, end - 1);
        let own = ways(displays[index], displays[end - 1]);
        lemma_own_ways_differ(displays, hidden, index, end - 1);
        assert(own.no_duplicates());
        assert forall|i: int, j: int|
            0 <= i < earlier.len() && 0 <= j < own.len() implies earlier[i] != own[j] by {
            assert(earlier.contains(earlier[i]));
            let one = lemma_own_way_has_its_pair(displays, hidden, index, end - 1, earlier[i]);
            assert(own[j].from_display == displays[end - 1].id || own[j].to_display
                == displays[end - 1].id);
        }
    }
}

} // verus!
