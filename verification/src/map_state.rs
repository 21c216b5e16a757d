//! The map state manager: the authoritative, mutable view of one live
//! map's tokens and fog-of-war, the unit of conflict resolution.
//!
//! All mutating operations on a map are totally ordered by the map's own
//! monotonically increasing sequence counter; the counter is the sole
//! tie-break for conflicting writes, so the last applied move wins. Fog
//! reveals accumulate as a set and so commute; an explicit reset is the one
//! operation that retracts them. Removing an absent token succeeds as a
//! no-op and leaves the whole state, sequence counter included, unchanged,
//! so replayed deletes are harmless.

use vstd::prelude::*;
use vstd::assert_sets_equal;

use crate::errors::{AppError, AppResult};
use crate::models::{
    AreaShape, AreaView, FogOfWar, FogView, Position, RevealedArea, ShapeView, Token, TokenView,
    clone_tokens, tokens_view,
};

verus! {

// =========================================================================
// Token sequences
// =========================================================================

pub open spec fn token_ids_unique(s: Seq<Token>) -> bool {
    forall|i: int, j: int| 0 <= i < j < s.len() ==> s[i].id@ != s[j].id@
}

pub open spec fn has_token(s: Seq<Token>, id: Seq<char>) -> bool {
    exists|i: int| 0 <= i < s.len() && s[i].id@ == id
}

/// The token, with its position replaced.
pub open spec fn token_with_position(t: Token, p: Position) -> Token {
    Token {
        id: t.id,
        character_id: t.character_id,
        name: t.name,
        image_url: t.image_url,
        position: p,
        size: t.size,
        conditions: t.conditions,
        notes: t.notes,
        is_hidden: t.is_hidden,
        initiative: t.initiative,
    }
}

/// The token set after a move: the token with the given id takes the new
/// position, every other token is untouched.
pub open spec fn moved_tokens(s: Seq<Token>, id: Seq<char>, p: Position) -> Seq<Token> {
    Seq::new(
        s.len(),
        |i: int|
            if s[i].id@ == id {
                token_with_position(s[i], p)
            } else {
                s[i]
            },
    )
}

/// The token set after a remove, in the order that remains.
pub open spec fn tokens_without(s: Seq<Token>, id: Seq<char>) -> Seq<Token>
    decreases s.len(),
{
    if s.len() == 0 {
        Seq::empty()
    } else {
        let rest = tokens_without(s.drop_last(), id);
        if s.last().id@ != id {
            rest.push(s.last())
        } else {
            rest
        }
    }
}

/// Whether a token of this id is present is decided by the views alone.
pub proof fn lemma_has_token_view(a: Seq<Token>, b: Seq<Token>, id: Seq<char>)
    requires
        tokens_view(a) == tokens_view(b),
    ensures
        has_token(a, id) == has_token(b, id),
{
    assert(a.len() == tokens_view(a).len());
    assert(b.len() == tokens_view(b).len());
    if has_token(a, id) {
        let i = choose|i: int| 0 <= i < a.len() && a[i].id@ == id;
        assert(tokens_view(a)[i] == a[i]@);
        assert(tokens_view(b)[i] == b[i]@);
        assert(b[i].id@ == id);
    }
    if has_token(b, id) {
        let i = choose|i: int| 0 <= i < b.len() && b[i].id@ == id;
        assert(tokens_view(a)[i] == a[i]@);
        assert(tokens_view(b)[i] == b[i]@);
        assert(a[i].id@ == id);
    }
}

/// A move looks the same through the views: equal views before give
/// equal views after.
pub proof fn lemma_moved_tokens_view(a: Seq<Token>, b: Seq<Token>, id: Seq<char>, p: Position)
    requires
        tokens_view(a) == tokens_view(b),
    ensures
        tokens_view(moved_tokens(a, id, p)) == tokens_view(moved_tokens(b, id, p)),
{
    assert(a.len() == tokens_view(a).len());
    assert(b.len() == tokens_view(b).len());
    assert forall|i: int|
        0 <= i < a.len() implies #[trigger] tokens_view(moved_tokens(a, id, p))[i] == tokens_view(
        moved_tokens(b, id, p),
    )[i] by {
        assert(tokens_view(a)[i] == a[i]@);
        assert(tokens_view(b)[i] == b[i]@);
    }
    assert(tokens_view(moved_tokens(a, id, p)) =~= tokens_view(moved_tokens(b, id, p)));
}

/// A remove looks the same through the views: equal views before give
/// equal views after.
pub proof fn lemma_tokens_without_view(a: Seq<Token>, b: Seq<Token>, id: Seq<char>)
    requires
        tokens_view(a) == tokens_view(b),
    ensures
        tokens_view(tokens_without(a, id)) == tokens_view(tokens_without(b, id)),
    decreases a.len(),
{
    assert(a.len() == tokens_view(a).len());
    assert(b.len() == tokens_view(b).len());
    if a.len() == 0 {
        assert(tokens_view(tokens_without(a, id)) =~= tokens_view(tokens_without(b, id)));
    } else {
        assert(tokens_view(a.drop_last()) =~= tokens_view(b.drop_last())) by {
            assert forall|i: int|
                0 <= i < a.len() - 1 implies #[trigger] tokens_view(a.drop_last())[i]
                == tokens_view(b.drop_last())[i] by {
                assert(tokens_view(a)[i] == a[i]@);
                assert(tokens_view(b)[i] == b[i]@);
            }
        }
        lemma_tokens_without_view(a.drop_last(), b.drop_last(), id);
        assert(tokens_view(a)[a.len() - 1] == a.last()@);
        assert(tokens_view(b)[b.len() - 1] == b.last()@);
        assert(a.last().id@ == b.last().id@);
        if a.last().id@ != id {
            assert(tokens_view(tokens_without(a, id)) =~= tokens_view(
                tokens_without(a.drop_last(), id),
            ).push(a.last()@));
            assert(tokens_view(tokens_without(b, id)) =~= tokens_view(
                tokens_without(b.drop_last(), id),
            ).push(b.last()@));
        }
    }
}

/// Removing an id that no token carries changes nothing.
proof fn lemma_tokens_without_absent(s: Seq<Token>, id: Seq<char>)
    requires
        forall|i: int| 0 <= i < s.len() ==> s[i].id@ != id,
    ensures
        tokens_without(s, id) == s,
    decreases s.len(),
{
    if s.len() == 0 {
        assert(tokens_without(s, id) =~= s);
    } else {
        lemma_tokens_without_absent(s.drop_last(), id);
        assert(tokens_without(s, id) == s.drop_last().push(s.last()));
        assert(s.drop_last().push(s.last()) =~= s);
    }
}

// =========================================================================
// Fog-of-war as a set
// =========================================================================

pub open spec fn areas_unique(s: Seq<AreaView>) -> bool {
    forall|i: int, j: int| 0 <= i < j < s.len() ==> s[i] != s[j]
}

/// The revealed areas of a fog, as the set that play accumulates.
pub open spec fn revealed_set(f: FogView) -> Set<AreaView> {
    f.revealed.to_set()
}

// =========================================================================
// Deltas
// =========================================================================

/// The minimal description of one applied mutation, stamped with the
/// sequence number under which it was applied.
#[derive(Debug, PartialEq)]
pub enum Delta {
    TokenAdded { seq_no: u64, token: Token },
    TokenMoved { seq_no: u64, token_id: String, position: Position },
    TokenRemoved { seq_no: u64, token_id: String },
    FogRevealed { seq_no: u64, area: RevealedArea },
    FogReset { seq_no: u64 },
}

pub ghost enum DeltaView {
    TokenAdded { seq_no: u64, token: TokenView },
    TokenMoved { seq_no: u64, token_id: Seq<char>, position: Position },
    TokenRemoved { seq_no: u64, token_id: Seq<char> },
    FogRevealed { seq_no: u64, area: AreaView },
    FogReset { seq_no: u64 },
}

impl View for Delta {
    type V = DeltaView;

    open spec fn view(&self) -> DeltaView {
        match self {
            Delta::TokenAdded { seq_no, token } => DeltaView::TokenAdded {
                seq_no: *seq_no,
                token: token@,
            },
            Delta::TokenMoved { seq_no, token_id, position } => DeltaView::TokenMoved {
                seq_no: *seq_no,
                token_id: token_id@,
                position: *position,
            },
            Delta::TokenRemoved { seq_no, token_id } => DeltaView::TokenRemoved {
                seq_no: *seq_no,
                token_id: token_id@,
            },
            Delta::FogRevealed { seq_no, area } => DeltaView::FogRevealed {
                seq_no: *seq_no,
                area: area@,
            },
            Delta::FogReset { seq_no } => DeltaView::FogReset { seq_no: *seq_no },
        }
    }
}

/// The sequence number a delta was applied under.
pub open spec fn delta_seq(d: DeltaView) -> u64 {
    match d {
        DeltaView::TokenAdded { seq_no, .. } => seq_no,
        DeltaView::TokenMoved { seq_no, .. } => seq_no,
        DeltaView::TokenRemoved { seq_no, .. } => seq_no,
        DeltaView::FogRevealed { seq_no, .. } => seq_no,
        DeltaView::FogReset { seq_no } => seq_no,
    }
}

impl Delta {
    pub fn seq_no(&self) -> (n: u64)
        ensures
            n == delta_seq(self@),
    {
        match self {
            Delta::TokenAdded { seq_no, .. } => *seq_no,
            Delta::TokenMoved { seq_no, .. } => *seq_no,
            Delta::TokenRemoved { seq_no, .. } => *seq_no,
            Delta::FogRevealed { seq_no, .. } => *seq_no,
            Delta::FogReset { seq_no } => *seq_no,
        }
    }
}

impl Clone for Delta {
    /// A deep copy that is the same delta, value for value.
    fn clone(&self) -> (r: Self)
        ensures
            r@ == self@,
    {
        match self {
            Delta::TokenAdded { seq_no, token } => Delta::TokenAdded {
                seq_no: *seq_no,
                token: token.clone(),
            },
            Delta::TokenMoved { seq_no, token_id, position } => Delta::TokenMoved {
                seq_no: *seq_no,
                token_id: token_id.clone(),
                position: *position,
            },
            Delta::TokenRemoved { seq_no, token_id } => Delta::TokenRemoved {
                seq_no: *seq_no,
                token_id: token_id.clone(),
            },
            Delta::FogRevealed { seq_no, area } => Delta::FogRevealed {
                seq_no: *seq_no,
                area: area.clone(),
            },
            Delta::FogReset { seq_no } => Delta::FogReset { seq_no: *seq_no },
        }
    }
}

// =========================================================================
// Value comparisons
// =========================================================================

fn pos_eq(a: &Position, b: &Position) -> (r: bool)
    ensures
        r == (*a == *b),
{
    let z_eq = match (&a.z, &b.z) {
        (Option::Some(za), Option::Some(zb)) => *za == *zb,
        (Option::None, Option::None) => true,
        _ => false,
    };
    a.x == b.x && a.y == b.y && z_eq
}

fn area_eq(a: &RevealedArea, b: &RevealedArea) -> (r: bool)
    ensures
        r == (a@ == b@),
{
    if a.x != b.x || a.y != b.y || a.radius != b.radius {
        return false;
    }
    shape_eq(&a.shape, &b.shape)
}

fn shape_eq(x: &AreaShape, y: &AreaShape) -> (r: bool)
    ensures
        r == (x@ == y@),
{
    match x {
        AreaShape::Circle => match y {
            AreaShape::Circle => true,
            _ => false,
        },
        AreaShape::Square => match y {
            AreaShape::Square => true,
            _ => false,
        },
        AreaShape::Polygon(p1) => match y {
            AreaShape::Polygon(p2) => {
                if p1.len() != p2.len() {
                    proof {
                        assert(p1@.len() != p2@.len());
                    }
                    return false;
                }
                let mut i: usize = 0;
                while i < p1.len()
                    invariant
                        i <= p1.len(),
                        p1@.len() == p2@.len(),
                        forall|j: int| 0 <= j < i ==> p1@[j] == p2@[j],
                        x@ == ShapeView::Polygon(p1@),
                        y@ == ShapeView::Polygon(p2@),
                    decreases p1.len() - i,
                {
                    if !pos_eq(&p1[i], &p2[i]) {
                        proof {
                            assert(p1@[i as int] != p2@[i as int]);
                            assert(p1@ != p2@);
                        }
                        return false;
                    }
                    i = i + 1;
                }
                proof {
                    assert(p1@ =~= p2@);
                }
                true
            },
            _ => false,
        },
    }
}

fn fog_contains(v: &Vec<RevealedArea>, a: &RevealedArea) -> (r: bool)
    ensures
        r == v@.map_values(|x: RevealedArea| x@).contains(a@),
{
    let ghost views = v@.map_values(|x: RevealedArea| x@);
    let mut i: usize = 0;
    while i < v.len()
        invariant
            i <= v.len(),
            views == v@.map_values(|x: RevealedArea| x@),
            forall|j: int| 0 <= j < i ==> views[j] != a@,
        decreases v.len() - i,
    {
        if area_eq(&v[i], a) {
            assert(views[i as int] == a@);
            return true;
        }
        i = i + 1;
    }
    false
}

/// Whether every token in the vector carries a distinct id: the validity
/// check a bulk save runs before it accepts a token set.
pub fn tokens_distinct(v: &Vec<Token>) -> (r: bool)
    ensures
        r == token_ids_unique(v@),
{
    let mut i: usize = 0;
    while i < v.len()
        invariant
            i <= v.len(),
            forall|a: int, b: int| 0 <= a < b < i ==> v@[a].id@ != v@[b].id@,
        decreases v.len() - i,
    {
        let mut j: usize = 0;
        while j < i
            invariant
                j <= i < v.len(),
                forall|b: int| 0 <= b < j ==> v@[b].id@ != v@[i as int].id@,
            decreases i - j,
        {
            if v[j].id == v[i].id {
                return false;
            }
            j = j + 1;
        }
        i = i + 1;
    }
    true
}

/// Whether every revealed area in the vector is distinct: the validity
/// check a bulk save runs before it accepts a fog record.
pub fn areas_distinct(v: &Vec<RevealedArea>) -> (r: bool)
    ensures
        r == areas_unique(v@.map_values(|a: RevealedArea| a@)),
{
    let ghost views = v@.map_values(|a: RevealedArea| a@);
    let mut i: usize = 0;
    while i < v.len()
        invariant
            i <= v.len(),
            views == v@.map_values(|a: RevealedArea| a@),
            forall|a: int, b: int| 0 <= a < b < i ==> views[a] != views[b],
        decreases v.len() - i,
    {
        let mut j: usize = 0;
        while j < i
            invariant
                j <= i < v.len(),
                views == v@.map_values(|a: RevealedArea| a@),
                forall|b: int| 0 <= b < j ==> views[b] != views[i as int],
            decreases i - j,
        {
            if area_eq(&v[j], &v[i]) {
                proof {
                    assert(views[j as int] == views[i as int]);
                }
                return false;
            }
            j = j + 1;
        }
        i = i + 1;
    }
    true
}

// =========================================================================
// The live map session
// =========================================================================

/// A snapshot of a live map: the full token set and fog, with the sequence
/// number it was taken at, used to bring a joining or reconnecting peer up
/// to date.
#[derive(Debug, PartialEq)]
pub struct MapState {
    pub tokens: Vec<Token>,
    pub fog_of_war: FogOfWar,
    pub seq_no: u64,
}

/// The authoritative in-memory state of one live map. Operations on one
/// map are applied one at a time; the sequence counter records the total
/// order in which they were applied.
#[derive(Debug)]
pub struct MapSession {
    pub map_id: String,
    pub tokens: Vec<Token>,
    pub fog: FogOfWar,
    pub seq_no: u64,
}

impl MapSession {
    /// Well-formedness: token ids are unique, and the revealed areas hold
    /// no duplicates, so the vector faithfully represents a set.
    pub open spec fn wf(&self) -> bool {
        &&& token_ids_unique(self.tokens@)
        &&& areas_unique(self.fog@.revealed)
    }

    /// Opens a live session over a map's stored state, starting the
    /// sequence counter at zero.
    pub fn new(map_id: String, tokens: Vec<Token>, fog: Option<FogOfWar>) -> (s: Self)
        requires
            token_ids_unique(tokens@),
            fog matches Option::Some(f) ==> areas_unique(f@.revealed),
        ensures
            s.wf(),
            s.map_id@ == map_id@,
            s.tokens@ == tokens@,
            s.seq_no == 0,
            match fog {
                Option::Some(f) => s.fog@ == f@,
                Option::None => s.fog@.revealed.len() == 0 && !s.fog@.enabled,
            },
    {
        let fog = match fog {
            Option::Some(f) => f,
            Option::None => FogOfWar { revealed_areas: Vec::new(), is_enabled: false },
        };
        MapSession { map_id, tokens, fog, seq_no: 0 }
    }

    /// Adds a token. Fails with `Conflict`, changing nothing, exactly when
    /// a token with the same id is already on the map; the caller must
    /// retry under a fresh id.
    pub fn add_token(&mut self, token: Token) -> (r: AppResult<Delta>)
        requires
            old(self).wf(),
            old(self).seq_no < u64::MAX,
        ensures
            final(self).wf(),
            final(self).map_id == old(self).map_id,
            has_token(old(self).tokens@, token@.id) ==> {
                &&& r == AppResult::<Delta>::Err(AppError::Conflict)
                &&& final(self).tokens@ == old(self).tokens@
                &&& final(self).fog@ == old(self).fog@
                &&& final(self).seq_no == old(self).seq_no
            },
            !has_token(old(self).tokens@, token@.id) ==> {
                &&& r matches Result::Ok(d) && d@ == (DeltaView::TokenAdded {
                    seq_no: (old(self).seq_no + 1) as u64,
                    token: token@,
                })
                &&& final(self).tokens@ == old(self).tokens@.push(token)
                &&& final(self).fog@ == old(self).fog@
                &&& final(self).seq_no == old(self).seq_no + 1
            },
    {
        let mut i: usize = 0;
        while i < self.tokens.len()
            invariant
                i <= self.tokens.len(),
                forall|j: int| 0 <= j < i ==> self.tokens@[j].id@ != token.id@,
                self.tokens@ == old(self).tokens@,
                self.fog@ == old(self).fog@,
                self.seq_no == old(self).seq_no,
                self.map_id == old(self).map_id,
                old(self).wf(),
                old(self).seq_no < u64::MAX,
            decreases self.tokens.len() - i,
        {
            if self.tokens[i].id == token.id {
                return Result::Err(AppError::Conflict);
            }
            i = i + 1;
        }
        let seq_no = self.seq_no + 1;
        self.seq_no = seq_no;
        let delta = Delta::TokenAdded { seq_no, token: token.clone() };
        self.tokens.push(token);
        Result::Ok(delta)
    }

    /// Moves a token to a new position: last write wins, in sequence
    /// order. Fails with `NotFound`, changing nothing — the counter
    /// included — when the token is absent, e.g. concurrently deleted: a
    /// delete beats a move, and a stale move must not resurrect the token.
    pub fn move_token(&mut self, token_id: &String, new_position: Position) -> (r: AppResult<
        Delta,
    >)
        requires
            old(self).wf(),
            old(self).seq_no < u64::MAX,
        ensures
            final(self).wf(),
            final(self).map_id == old(self).map_id,
            !has_token(old(self).tokens@, token_id@) ==> {
                &&& r == AppResult::<Delta>::Err(AppError::NotFound)
                &&& final(self).tokens@ == old(self).tokens@
                &&& final(self).fog@ == old(self).fog@
                &&& final(self).seq_no == old(self).seq_no
            },
            has_token(old(self).tokens@, token_id@) ==> {
                &&& r matches Result::Ok(d) && d@ == (DeltaView::TokenMoved {
                    seq_no: (old(self).seq_no + 1) as u64,
                    token_id: token_id@,
                    position: new_position,
                })
                &&& final(self).tokens@ == moved_tokens(
                    old(self).tokens@,
                    token_id@,
                    new_position,
                )
                &&& final(self).fog@ == old(self).fog@
                &&& final(self).seq_no == old(self).seq_no + 1
            },
    {
        let mut i: usize = 0;
        let n = self.tokens.len();
        while i < n
            invariant
                i <= n,
                n == self.tokens.len(),
                forall|j: int| 0 <= j < i ==> self.tokens@[j].id@ != token_id@,
                self.tokens@ == old(self).tokens@,
                self.fog@ == old(self).fog@,
                self.seq_no == old(self).seq_no,
                self.map_id == old(self).map_id,
                old(self).wf(),
                old(self).seq_no < u64::MAX,
            decreases n - i,
        {
            if self.tokens[i].id == *token_id {
                let mut t = self.tokens.remove(i);
                t.position = new_position;
                self.tokens.insert(i, t);
                let seq_no = self.seq_no + 1;
                self.seq_no = seq_no;
                proof {
                    assert forall|j: int|
                        0 <= j < old(self).tokens@.len() && j != i ==> old(
                            self,
                        ).tokens@[j].id@ != token_id@ by {}
                    assert(self.tokens@ =~= moved_tokens(
                        old(self).tokens@,
                        token_id@,
                        new_position,
                    ));
                    assert(forall|j: int|
                        0 <= j < self.tokens@.len() ==> self.tokens@[j].id@ == old(
                            self,
                        ).tokens@[j].id@);
                }
                return Result::Ok(
                    Delta::TokenMoved {
                        seq_no,
                        token_id: token_id.clone(),
                        position: new_position,
                    },
                );
            }
            i = i + 1;
        }
        Result::Err(AppError::NotFound)
    }

    /// Removes a token. Removing an id that is absent succeeds as a no-op
    /// — concurrent double-deletes are expected under replay — and leaves
    /// the state and the sequence counter exactly as they were.
    pub fn remove_token(&mut self, token_id: &String) -> (r: AppResult<Delta>)
        requires
            old(self).wf(),
            old(self).seq_no < u64::MAX,
        ensures
            final(self).wf(),
            final(self).map_id == old(self).map_id,
            r matches Result::Ok(d) && d@ == (DeltaView::TokenRemoved {
                seq_no: final(self).seq_no,
                token_id: token_id@,
            }),
            final(self).fog@ == old(self).fog@,
            !has_token(old(self).tokens@, token_id@) ==> {
                &&& final(self).tokens@ == old(self).tokens@
                &&& final(self).seq_no == old(self).seq_no
            },
            has_token(old(self).tokens@, token_id@) ==> {
                &&& final(self).tokens@ == tokens_without(old(self).tokens@, token_id@)
                &&& final(self).seq_no == old(self).seq_no + 1
            },
    {
        let ghost g = self.tokens@;
        let mut i: usize = 0;
        let ghost mut k: int = 0;
        let mut removed = false;
        while i < self.tokens.len()
            invariant
                0 <= k <= g.len(),
                i <= self.tokens.len(),
                i as int == tokens_without(g.subrange(0, k), token_id@).len(),
                self.tokens@ =~= tokens_without(g.subrange(0, k), token_id@) + g.subrange(
                    k,
                    g.len() as int,
                ),
                token_ids_unique(self.tokens@),
                removed == exists|j: int| 0 <= j < k && g[j].id@ == token_id@,
                self.seq_no == old(self).seq_no,
                self.fog@ == old(self).fog@,
                self.map_id == old(self).map_id,
                old(self).wf(),
                old(self).seq_no < u64::MAX,
            decreases g.len() - k,
        {
            proof {
                assert(self.tokens@[i as int] == g.subrange(k, g.len() as int)[0]);
                assert(g.subrange(0, k + 1).drop_last() =~= g.subrange(0, k));
                assert(g.subrange(0, k + 1).last() == g[k]);
            }
            if self.tokens[i].id == *token_id {
                let ghost pre = self.tokens@;
                let _ = self.tokens.remove(i);
                removed = true;
                proof {
                    assert(tokens_without(g.subrange(0, k + 1), token_id@) =~= tokens_without(
                        g.subrange(0, k),
                        token_id@,
                    ));
                    assert(self.tokens@ =~= tokens_without(g.subrange(0, k + 1), token_id@)
                        + g.subrange(k + 1, g.len() as int));
                    assert forall|a: int, b: int|
                        0 <= a < b < self.tokens@.len() implies self.tokens@[a].id@
                        != self.tokens@[b].id@ by {
                        if i <= a {
                            assert(self.tokens@[a] == pre[a + 1]);
                        }
                        if i <= b {
                            assert(self.tokens@[b] == pre[b + 1]);
                        }
                    }
                    k = k + 1;
                }
            } else {
                i = i + 1;
                proof {
                    assert(tokens_without(g.subrange(0, k + 1), token_id@) =~= tokens_without(
                        g.subrange(0, k),
                        token_id@,
                    ).push(g[k]));
                    assert(self.tokens@ =~= tokens_without(g.subrange(0, k + 1), token_id@)
                        + g.subrange(k + 1, g.len() as int));
                    k = k + 1;
                }
            }
        }
        proof {
            assert(g.subrange(0, k) =~= g);
            assert(self.tokens@ =~= tokens_without(g, token_id@));
        }
        if removed {
            let seq_no = self.seq_no + 1;
            self.seq_no = seq_no;
            Result::Ok(Delta::TokenRemoved { seq_no, token_id: token_id.clone() })
        } else {
            proof {
                lemma_tokens_without_absent(g, token_id@);
            }
            Result::Ok(Delta::TokenRemoved { seq_no: self.seq_no, token_id: token_id.clone() })
        }
    }

    /// Reveals an area. The revealed areas accumulate as a set — the union
    /// is order-independent, so concurrent reveals from different peers
    /// commute — and re-revealing an already revealed area changes
    /// nothing, the counter included.
    pub fn reveal_fog(&mut self, area: RevealedArea) -> (r: AppResult<Delta>)
        requires
            old(self).wf(),
            old(self).seq_no < u64::MAX,
        ensures
            final(self).wf(),
            final(self).map_id == old(self).map_id,
            final(self).tokens@ == old(self).tokens@,
            final(self).fog@.enabled == old(self).fog@.enabled,
            r matches Result::Ok(d) && d@ == (DeltaView::FogRevealed {
                seq_no: final(self).seq_no,
                area: area@,
            }),
            revealed_set(final(self).fog@) == revealed_set(old(self).fog@).insert(area@),
            old(self).fog@.revealed.contains(area@) ==> {
                &&& final(self).fog@ == old(self).fog@
                &&& final(self).seq_no == old(self).seq_no
            },
            !old(self).fog@.revealed.contains(area@) ==> {
                &&& final(self).fog@.revealed == old(self).fog@.revealed.push(area@)
                &&& final(self).seq_no == old(self).seq_no + 1
            },
    {
        if fog_contains(&self.fog.revealed_areas, &area) {
            proof {
                assert(old(self).fog@.revealed.contains(area@));
                assert_sets_equal!(
                    revealed_set(self.fog@) == revealed_set(old(self).fog@).insert(area@)
                );
            }
            return Result::Ok(
                Delta::FogRevealed { seq_no: self.seq_no, area },
            );
        }
        let seq_no = self.seq_no + 1;
        self.seq_no = seq_no;
        let delta = Delta::FogRevealed { seq_no, area: area.clone() };
        self.fog.revealed_areas.push(area);
        proof {
            let oldrev = old(self).fog@.revealed;
            let newrev = self.fog@.revealed;
            assert(newrev =~= oldrev.push(area@));
            assert forall|x: AreaView| newrev.contains(x) implies oldrev.contains(x) || x
                == area@ by {
                let i = choose|i: int| 0 <= i < newrev.len() && newrev[i] == x;
                if i < oldrev.len() {
                    assert(oldrev[i] == x);
                }
            }
            assert forall|x: AreaView| oldrev.contains(x) implies newrev.contains(x) by {
                let i = choose|i: int| 0 <= i < oldrev.len() && oldrev[i] == x;
                assert(newrev[i] == x);
            }
            assert(newrev[newrev.len() - 1] == area@);
            assert(newrev.contains(area@));
            assert_sets_equal!(
                revealed_set(self.fog@) == revealed_set(old(self).fog@).insert(area@)
            );
            assert forall|a: int, b: int|
                0 <= a < b < newrev.len() implies newrev[a] != newrev[b] by {
                if b == newrev.len() - 1 {
                    assert(!oldrev.contains(area@));
                    assert(newrev[a] == oldrev[a]);
                    assert(oldrev.contains(oldrev[a]));
                }
            }
        }
        Result::Ok(delta)
    }

    /// Clears the revealed set: the one retraction in the game, reserved
    /// to the DM — the session coordinator checks authority before the
    /// operation reaches this component.
    pub fn reset_fog(&mut self) -> (r: AppResult<Delta>)
        requires
            old(self).wf(),
            old(self).seq_no < u64::MAX,
        ensures
            final(self).wf(),
            final(self).map_id == old(self).map_id,
            final(self).tokens@ == old(self).tokens@,
            final(self).fog@.enabled == old(self).fog@.enabled,
            final(self).fog@.revealed.len() == 0,
            final(self).seq_no == old(self).seq_no + 1,
            r matches Result::Ok(d) && d@ == (DeltaView::FogReset {
                seq_no: (old(self).seq_no + 1) as u64,
            }),
    {
        let seq_no = self.seq_no + 1;
        self.seq_no = seq_no;
        self.fog.revealed_areas.clear();
        Result::Ok(Delta::FogReset { seq_no })
    }

    /// A full copy of the current state, value for value, for bringing a
    /// newly joined or reconnecting peer up to date.
    pub fn snapshot(&self) -> (s: MapState)
        ensures
            tokens_view(s.tokens@) == tokens_view(self.tokens@),
            s.fog_of_war@ == self.fog@,
            s.seq_no == self.seq_no,
    {
        MapState {
            tokens: clone_tokens(&self.tokens),
            fog_of_war: self.fog.clone(),
            seq_no: self.seq_no,
        }
    }
}

// =========================================================================
// The ordering laws
// =========================================================================

/// Last write wins: of two moves of the same token applied in sequence
/// order, the one applied later — the one holding the higher sequence
/// number — alone decides the final position, whatever the earlier move
/// was.
pub proof fn lemma_last_move_wins(s: Seq<Token>, id: Seq<char>, p1: Position, p2: Position)
    ensures
        moved_tokens(moved_tokens(s, id, p1), id, p2) == moved_tokens(s, id, p2),
{
    assert(moved_tokens(moved_tokens(s, id, p1), id, p2) =~= moved_tokens(s, id, p2));
}

/// Moves of two different tokens commute: applied in either order, the
/// token set comes out the same.
pub proof fn lemma_moves_commute(
    s: Seq<Token>,
    id1: Seq<char>,
    p1: Position,
    id2: Seq<char>,
    p2: Position,
)
    requires
        id1 != id2,
    ensures
        moved_tokens(moved_tokens(s, id1, p1), id2, p2) == moved_tokens(
            moved_tokens(s, id2, p2),
            id1,
            p1,
        ),
{
    assert(moved_tokens(moved_tokens(s, id1, p1), id2, p2) =~= moved_tokens(
        moved_tokens(s, id2, p2),
        id1,
        p1,
    ));
}

/// The position a token holds in a token sequence, if it is there.
pub open spec fn position_of(s: Seq<Token>, id: Seq<char>) -> Option<Position>
    decreases s.len(),
{
    if s.len() == 0 {
        Option::None
    } else if s.last().id@ == id {
        Option::Some(s.last().position)
    } else {
        position_of(s.drop_last(), id)
    }
}

/// A whole run of moves, applied one after the other in sequence order:
/// the order in which the map's counter numbered them.
pub open spec fn apply_moves(s: Seq<Token>, ops: Seq<(Seq<char>, Position)>) -> Seq<Token>
    decreases ops.len(),
{
    if ops.len() == 0 {
        s
    } else {
        moved_tokens(apply_moves(s, ops.drop_last()), ops.last().0, ops.last().1)
    }
}

/// The position named by the last move of a given token in a run, if the
/// run moves it at all: the move that took the highest sequence number.
pub open spec fn last_move_of(ops: Seq<(Seq<char>, Position)>, id: Seq<char>) -> Option<Position>
    decreases ops.len(),
{
    if ops.len() == 0 {
        Option::None
    } else if ops.last().0 == id {
        Option::Some(ops.last().1)
    } else {
        last_move_of(ops.drop_last(), id)
    }
}

proof fn lemma_moved_keeps_presence(s: Seq<Token>, moved_id: Seq<char>, p: Position, id: Seq<char>)
    ensures
        has_token(moved_tokens(s, moved_id, p), id) == has_token(s, id),
{
    let out = moved_tokens(s, moved_id, p);
    assert forall|i: int| 0 <= i < s.len() implies out[i].id@ == s[i].id@ by {}
    if has_token(s, id) {
        let i = choose|i: int| 0 <= i < s.len() && s[i].id@ == id;
        assert(out[i].id@ == id);
    }
    if has_token(out, id) {
        let i = choose|i: int| 0 <= i < out.len() && out[i].id@ == id;
        assert(s[i].id@ == id);
    }
}

proof fn lemma_position_after_own_move(s: Seq<Token>, id: Seq<char>, p: Position)
    requires
        has_token(s, id),
    ensures
        position_of(moved_tokens(s, id, p), id) == Option::Some(p),
    decreases s.len(),
{
    let out = moved_tokens(s, id, p);
    if s.last().id@ == id {
        assert(out.last() == token_with_position(s.last(), p));
    } else {
        assert(has_token(s.drop_last(), id)) by {
            let i = choose|i: int| 0 <= i < s.len() && s[i].id@ == id;
            assert(s.drop_last()[i] == s[i]);
        }
        lemma_position_after_own_move(s.drop_last(), id, p);
        assert(out.drop_last() =~= moved_tokens(s.drop_last(), id, p));
    }
}

proof fn lemma_position_after_other_move(
    s: Seq<Token>,
    moved_id: Seq<char>,
    p: Position,
    id: Seq<char>,
)
    requires
        moved_id != id,
    ensures
        position_of(moved_tokens(s, moved_id, p), id) == position_of(s, id),
    decreases s.len(),
{
    if s.len() == 0 {
    } else {
        let out = moved_tokens(s, moved_id, p);
        assert(out.last().id@ == s.last().id@);
        lemma_position_after_other_move(s.drop_last(), moved_id, p, id);
        assert(out.drop_last() =~= moved_tokens(s.drop_last(), moved_id, p));
        if s.last().id@ == id {
            assert(out.last().position == s.last().position);
        }
    }
}

proof fn lemma_apply_moves_keeps_presence(
    s: Seq<Token>,
    ops: Seq<(Seq<char>, Position)>,
    id: Seq<char>,
)
    ensures
        has_token(apply_moves(s, ops), id) == has_token(s, id),
    decreases ops.len(),
{
    if ops.len() == 0 {
    } else {
        lemma_apply_moves_keeps_presence(s, ops.drop_last(), id);
        lemma_moved_keeps_presence(apply_moves(s, ops.drop_last()), ops.last().0, ops.last().1, id);
    }
}

/// The total order decides: for any run of moves of one token — from
/// however many peers — the final recorded position is the one from the
/// move that was applied last, that is, the move holding the highest
/// sequence number; a token the run never moves keeps its position.
pub proof fn lemma_highest_sequence_wins(
    s: Seq<Token>,
    ops: Seq<(Seq<char>, Position)>,
    id: Seq<char>,
)
    requires
        has_token(s, id),
    ensures
        position_of(apply_moves(s, ops), id) == (match last_move_of(ops, id) {
            Option::Some(p) => Option::Some(p),
            Option::None => position_of(s, id),
        }),
    decreases ops.len(),
{
    if ops.len() == 0 {
    } else {
        let prefix = ops.drop_last();
        lemma_highest_sequence_wins(s, prefix, id);
        lemma_apply_moves_keeps_presence(s, prefix, id);
        if ops.last().0 == id {
            lemma_position_after_own_move(apply_moves(s, prefix), id, ops.last().1);
        } else {
            lemma_position_after_other_move(
                apply_moves(s, prefix),
                ops.last().0,
                ops.last().1,
                id,
            );
        }
    }
}

/// Fog reveals commute: revealing two areas in either order yields the
/// same revealed-area set.
pub proof fn lemma_reveal_commutes(f: Set<AreaView>, a: AreaView, b: AreaView)
    ensures
        f.insert(a).insert(b) == f.insert(b).insert(a),
{
    assert(f.insert(a).insert(b) =~= f.insert(b).insert(a));
}

/// Fog reveals are idempotent: revealing the same area again leaves the
/// revealed-area set unchanged.
pub proof fn lemma_reveal_idempotent(f: Set<AreaView>, a: AreaView)
    ensures
        f.insert(a).insert(a) == f.insert(a),
{
    assert(f.insert(a).insert(a) =~= f.insert(a));
}

} // verus!
