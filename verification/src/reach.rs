//! Walks over floor tiles, and what can be reached by them.

use crate::map::TileMap;
use vstd::prelude::*;

verus! {

/// Whether two tiles are neighbours in one of the four straight directions.
pub open spec fn adjacent(a: (int, int), b: (int, int)) -> bool {
    ||| a.0 == b.0 && (a.1 == b.1 + 1 || b.1 == a.1 + 1)
    ||| a.1 == b.1 && (a.0 == b.0 + 1 || b.0 == a.0 + 1)
}

impl TileMap {
    /// Whether `path` is a walk: at least one tile, all of them floor tiles of
    /// this map, each next to the one before it.
    pub open spec fn is_walk(self, path: Seq<(int, int)>) -> bool {
        &&& path.len() >= 1
        &&& forall|i: int| 0 <= i < path.len() ==> self.is_floor((#[trigger] path[i]).0, path[i].1)
        &&& forall|i: int| 0 <= i < path.len() - 1 ==> adjacent(#[trigger] path[i], path[i + 1])
    }

    /// Whether `path` is a walk that starts at `a` and ends at `b`.
    pub open spec fn walks_between(self, path: Seq<(int, int)>, a: (int, int), b: (int, int)) -> bool {
        self.is_walk(path) && path[0] == a && path[path.len() - 1] == b
    }

    /// Whether `b` can be reached from `a` over floor tiles.
    pub open spec fn connected(self, a: (int, int), b: (int, int)) -> bool {
        exists|path: Seq<(int, int)>| #[trigger] self.walks_between(path, a, b)
    }

    /// Whether every floor tile of this map is a floor tile of `other`, a map
    /// of the same size.
    pub open spec fn floor_kept_by(self, other: TileMap) -> bool {
        &&& self.width == other.width
        &&& self.height == other.height
        &&& forall|x: int, y: int| #[trigger] self.is_floor(x, y) ==> other.is_floor(x, y)
    }
}

/// A floor tile can be reached from itself.
pub proof fn lemma_connected_reflexive(map: TileMap, a: (int, int))
    requires
        map.is_floor(a.0, a.1),
    ensures
        map.connected(a, a),
{
    let path = seq![a];
    assert(path[0] == a);
    assert(map.walks_between(path, a, a));
}

/// A floor tile can be reached from a floor tile next to it.
pub proof fn lemma_connected_step(map: TileMap, a: (int, int), b: (int, int))
    requires
        map.is_floor(a.0, a.1),
        map.is_floor(b.0, b.1),
        adjacent(a, b),
    ensures
        map.connected(a, b),
{
    let path = seq![a, b];
    assert(path[0] == a && path[1] == b);
    assert(map.walks_between(path, a, b));
}

/// What can be reached from a tile that can be reached from `a` can be
/// reached from `a`.
pub proof fn lemma_connected_transitive(map: TileMap, a: (int, int), b: (int, int), c: (int, int))
    requires
        map.connected(a, b),
        map.connected(b, c),
    ensures
        map.connected(a, c),
{
    let first = choose|path: Seq<(int, int)>| #[trigger] map.walks_between(path, a, b);
    let second = choose|path: Seq<(int, int)>| #[trigger] map.walks_between(path, b, c);
    let rest = second.subrange(1, second.len() as int);
    let path = first + rest;
    assert forall|i: int| 0 <= i < path.len() implies map.is_floor((#[trigger] path[i]).0, path[i].1) by {
        if i < first.len() {
            assert(path[i] == first[i]);
        } else {
            assert(path[i] == second[i - first.len() + 1]);
        }
    }
    assert forall|i: int| 0 <= i < path.len() - 1 implies adjacent(#[trigger] path[i], path[i + 1]) by {
        if i < first.len() - 1 {
            assert(path[i] == first[i] && path[i + 1] == first[i + 1]);
        } else if i == first.len() - 1 {
            assert(path[i] == second[0] && path[i + 1] == second[1]);
        } else {
            let k = i - first.len() + 1;
            assert(path[i] == second[k] && path[i + 1] == second[k + 1]);
        }
    }
    assert(path[0] == first[0]);
    if rest.len() == 0 {
        assert(path[path.len() - 1] == first[first.len() - 1]);
    } else {
        assert(path[path.len() - 1] == second[second.len() - 1]);
    }
    assert(map.walks_between(path, a, c));
}

/// Digging more floor into a map keeps every tile reachable that was.
pub proof fn lemma_connected_kept(before: TileMap, after: TileMap, a: (int, int), b: (int, int))
    requires
        before.floor_kept_by(after),
        before.connected(a, b),
    ensures
        after.connected(a, b),
{
    let path = choose|path: Seq<(int, int)>| #[trigger] before.walks_between(path, a, b);
    assert forall|i: int| 0 <= i < path.len() implies after.is_floor((#[trigger] path[i]).0, path[i].1) by {
        assert(before.is_floor(path[i].0, path[i].1));
    }
    assert(after.walks_between(path, a, b));
}

/// The two ends of a straight horizontal run of floor tiles can be reached
/// from each other.
pub proof fn lemma_row_run_connected(map: TileMap, x1: int, x2: int, y: int)
    requires
        forall|x: int| x1 <= x <= x2 || x2 <= x <= x1 ==> #[trigger] map.is_floor(x, y),
    ensures
        map.connected((x1, y), (x2, y)),
    decreases
            if x1 <= x2 {
                x2 - x1
            } else {
                x1 - x2
            },
{
    assert(map.is_floor(x1, y));
    if x1 == x2 {
        lemma_connected_reflexive(map, (x1, y));
    } else {
        let near = if x1 < x2 {
            x2 - 1
        } else {
            x2 + 1
        };
        lemma_row_run_connected(map, x1, near, y);
        assert(map.is_floor(near, y));
        assert(map.is_floor(x2, y));
        lemma_connected_step(map, (near, y), (x2, y));
        lemma_connected_transitive(map, (x1, y), (near, y), (x2, y));
    }
}

/// The two ends of a straight vertical run of floor tiles can be reached from
/// each other.
pub proof fn lemma_column_run_connected(map: TileMap, y1: int, y2: int, x: int)
    requires
        forall|y: int| y1 <= y <= y2 || y2 <= y <= y1 ==> #[trigger] map.is_floor(x, y),
    ensures
        map.connected((x, y1), (x, y2)),
    decreases
            if y1 <= y2 {
                y2 - y1
            } else {
                y1 - y2
            },
{
    assert(map.is_floor(x, y1));
    if y1 == y2 {
        lemma_connected_reflexive(map, (x, y1));
    } else {
        let near = if y1 < y2 {
            y2 - 1
        } else {
            y2 + 1
        };
        lemma_column_run_connected(map, y1, near, x);
        assert(map.is_floor(x, near));
        assert(map.is_floor(x, y2));
        lemma_connected_step(map, (x, near), (x, y2));
        lemma_connected_transitive(map, (x, y1), (x, near), (x, y2));
    }
}

} // verus!
