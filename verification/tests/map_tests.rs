use tavern::errors::AppError;
use tavern::map_state::{Delta, MapSession};
use tavern::models::{AreaShape, FogOfWar, Position, RevealedArea, Token, TokenSize};

fn pos(x: i64, y: i64) -> Position {
    Position { x, y, z: None }
}

fn token(id: &str, x: i64, y: i64) -> Token {
    Token {
        id: id.to_string(),
        character_id: None,
        name: id.to_string(),
        image_url: None,
        position: pos(x, y),
        size: TokenSize::Medium,
        conditions: Vec::new(),
        notes: String::new(),
        is_hidden: false,
        initiative: None,
    }
}

fn circle(x: i64, y: i64, radius: i64) -> RevealedArea {
    RevealedArea { x, y, radius, shape: AreaShape::Circle }
}

fn fresh_session() -> MapSession {
    MapSession::new("m1".to_string(), Vec::new(), None)
}

fn position_of(s: &MapSession, id: &str) -> Option<Position> {
    s.tokens.iter().find(|t| t.id == id).map(|t| t.position)
}

#[test]
fn add_token_assigns_increasing_sequence_numbers() {
    let mut s = fresh_session();
    let d1 = s.add_token(token("a", 0, 0)).unwrap();
    let d2 = s.add_token(token("b", 1, 1)).unwrap();
    assert_eq!(d1.seq_no(), 1);
    assert_eq!(d2.seq_no(), 2);
    assert_eq!(s.seq_no, 2);
    assert_eq!(s.tokens.len(), 2);
}

#[test]
fn add_token_duplicate_id_conflicts() {
    let mut s = fresh_session();
    s.add_token(token("a", 0, 0)).unwrap();
    let r = s.add_token(token("a", 5, 5));
    assert_eq!(r.unwrap_err(), AppError::Conflict);
    assert_eq!(s.tokens.len(), 1);
    assert_eq!(position_of(&s, "a"), Some(pos(0, 0)));
    assert_eq!(s.seq_no, 1);
}

#[test]
fn concurrent_moves_highest_sequence_wins() {
    // Moves submitted by several peers are serialized per map; whatever the
    // interleaving with other tokens, the final position of each token is
    // the one from its move with the highest sequence number.
    let mut s = fresh_session();
    s.add_token(token("goblin-1", 0, 0)).unwrap();
    s.add_token(token("goblin-2", 9, 9)).unwrap();
    let moves: [(&str, i64, i64); 5] = [
        ("goblin-1", 1, 0),
        ("goblin-2", 8, 9),
        ("goblin-1", 2, 0),
        ("goblin-1", 3, 1),
        ("goblin-2", 7, 9),
    ];
    let mut last_seq = s.seq_no;
    for (id, x, y) in moves {
        let d = s.move_token(&id.to_string(), pos(x, y)).unwrap();
        assert!(d.seq_no() > last_seq);
        last_seq = d.seq_no();
    }
    assert_eq!(position_of(&s, "goblin-1"), Some(pos(3, 1)));
    assert_eq!(position_of(&s, "goblin-2"), Some(pos(7, 9)));
    assert_eq!(s.seq_no, 7);
}

#[test]
fn move_of_absent_token_fails_not_found() {
    let mut s = fresh_session();
    s.add_token(token("a", 0, 0)).unwrap();
    let r = s.move_token(&"ghost".to_string(), pos(4, 4));
    assert_eq!(r.unwrap_err(), AppError::NotFound);
    assert_eq!(s.seq_no, 1);
    assert_eq!(s.tokens.len(), 1);
}

#[test]
fn remove_absent_token_is_a_clean_no_op() {
    let mut s = fresh_session();
    s.add_token(token("a", 0, 0)).unwrap();
    let before_seq = s.seq_no;
    let d = s.remove_token(&"ghost".to_string()).unwrap();
    assert_eq!(d.seq_no(), before_seq);
    assert_eq!(s.seq_no, before_seq);
    assert_eq!(s.tokens.len(), 1);
    // Ordering afterwards is unbroken: the next operation gets the next number.
    let d2 = s.move_token(&"a".to_string(), pos(1, 1)).unwrap();
    assert_eq!(d2.seq_no(), before_seq + 1);
}

#[test]
fn remove_then_remove_again_is_idempotent() {
    let mut s = fresh_session();
    s.add_token(token("a", 0, 0)).unwrap();
    let d1 = s.remove_token(&"a".to_string()).unwrap();
    assert_eq!(d1.seq_no(), 2);
    assert!(s.tokens.is_empty());
    let d2 = s.remove_token(&"a".to_string()).unwrap();
    assert_eq!(d2.seq_no(), 2);
    assert_eq!(s.seq_no, 2);
}

#[test]
fn delete_beats_move() {
    let mut s = fresh_session();
    s.add_token(token("goblin-1", 3, 4)).unwrap();
    s.move_token(&"goblin-1".to_string(), pos(6, 4)).unwrap();
    s.remove_token(&"goblin-1".to_string()).unwrap();
    // A stale replay of the earlier move must not resurrect the token.
    let r = s.move_token(&"goblin-1".to_string(), pos(6, 4));
    assert_eq!(r.unwrap_err(), AppError::NotFound);
    assert!(s.tokens.is_empty());
}

#[test]
fn reveal_fog_accumulates_and_is_idempotent() {
    let mut s = fresh_session();
    let d1 = s.reveal_fog(circle(2, 2, 3)).unwrap();
    assert_eq!(d1.seq_no(), 1);
    assert_eq!(s.fog.revealed_areas.len(), 1);
    // Re-applying the same area changes nothing, the counter included.
    let d2 = s.reveal_fog(circle(2, 2, 3)).unwrap();
    assert_eq!(d2.seq_no(), 1);
    assert_eq!(s.fog.revealed_areas.len(), 1);
    assert_eq!(s.seq_no, 1);
    let d3 = s.reveal_fog(circle(5, 5, 2)).unwrap();
    assert_eq!(d3.seq_no(), 2);
    assert_eq!(s.fog.revealed_areas.len(), 2);
}

#[test]
fn reveals_commute_as_sets() {
    let areas = [circle(1, 1, 2), circle(4, 4, 1), circle(9, 0, 3)];
    let mut forward = fresh_session();
    for a in areas.iter() {
        forward.reveal_fog(a.clone()).unwrap();
    }
    let mut backward = fresh_session();
    for a in areas.iter().rev() {
        backward.reveal_fog(a.clone()).unwrap();
    }
    assert_eq!(forward.fog.revealed_areas.len(), backward.fog.revealed_areas.len());
    for a in forward.fog.revealed_areas.iter() {
        assert!(backward.fog.revealed_areas.contains(a));
    }
    for a in backward.fog.revealed_areas.iter() {
        assert!(forward.fog.revealed_areas.contains(a));
    }
}

#[test]
fn polygon_areas_compare_by_content() {
    let poly = |pts: Vec<(i64, i64)>| RevealedArea {
        x: 0,
        y: 0,
        radius: 0,
        shape: AreaShape::Polygon(pts.into_iter().map(|(x, y)| pos(x, y)).collect()),
    };
    let mut s = fresh_session();
    s.reveal_fog(poly(vec![(0, 0), (1, 0), (1, 1)])).unwrap();
    // The same polygon again: no change.
    s.reveal_fog(poly(vec![(0, 0), (1, 0), (1, 1)])).unwrap();
    assert_eq!(s.fog.revealed_areas.len(), 1);
    // A different polygon is a new area.
    s.reveal_fog(poly(vec![(0, 0), (1, 0), (2, 1)])).unwrap();
    assert_eq!(s.fog.revealed_areas.len(), 2);
}

#[test]
fn reset_fog_clears_the_revealed_set() {
    let mut s = fresh_session();
    s.reveal_fog(circle(1, 1, 2)).unwrap();
    s.reveal_fog(circle(4, 4, 1)).unwrap();
    let d = s.reset_fog().unwrap();
    assert_eq!(d.seq_no(), 3);
    assert!(s.fog.revealed_areas.is_empty());
    // Reveals keep working afterwards.
    s.reveal_fog(circle(1, 1, 2)).unwrap();
    assert_eq!(s.fog.revealed_areas.len(), 1);
}

#[test]
fn snapshot_copies_the_full_state() {
    let mut s = MapSession::new(
        "m1".to_string(),
        Vec::new(),
        Some(FogOfWar { revealed_areas: vec![circle(0, 0, 1)], is_enabled: true }),
    );
    s.add_token(token("a", 2, 3)).unwrap();
    let snap = s.snapshot();
    assert_eq!(snap.tokens, s.tokens);
    assert_eq!(snap.fog_of_war, s.fog);
    assert_eq!(snap.seq_no, s.seq_no);
}

#[test]
fn deltas_report_their_sequence_numbers() {
    let mut s = fresh_session();
    let d = s.add_token(token("a", 0, 0)).unwrap();
    match d {
        Delta::TokenAdded { seq_no, ref token } => {
            assert_eq!(seq_no, 1);
            assert_eq!(token.id, "a");
        },
        _ => panic!("wrong delta kind"),
    }
    let copy = d.clone();
    assert_eq!(copy, d);
}
